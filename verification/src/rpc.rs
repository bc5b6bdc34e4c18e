//! Calls to the JSON-RPC side of BRC20-Prog.
use crate::json::Json;
use vstd::prelude::*;

verus! {

/// A JSON-RPC call to make.
#[derive(Debug, PartialEq, Eq)]
pub struct RpcCall {
    pub url: String,
    pub method: String,
    pub params: Json,
    pub id: u64,
}

/// Whether `params` is the pair of an object with these members, all of them texts and in this order,
/// and of the block that is asked.
pub open spec fn is_eth_params(
    params: Json,
    members: Seq<(Seq<char>, Seq<char>)>,
    block_tag: Seq<char>,
) -> bool {
    &&& params matches Json::Array(items)
    &&& items@.len() == 2
    &&& items@[0] matches Json::Object(fields)
    &&& fields@.len() == members.len()
    &&& forall|i: int|
        0 <= i < members.len() ==> (#[trigger] fields@[i]).0@ == members[i].0 && fields@[i].1.text()
            == Some(members[i].1)
    &&& items@[1].text() == Some(block_tag)
}

/// Whether a call asks `url` for `method`, with these members and this block as its parameters. Every
/// call has the number 1.
pub open spec fn is_eth_request(
    call: RpcCall,
    url: Seq<char>,
    method: Seq<char>,
    members: Seq<(Seq<char>, Seq<char>)>,
    block_tag: Seq<char>,
) -> bool {
    &&& call.url@ == url
    &&& call.method@ == method
    &&& is_eth_params(call.params, members, block_tag)
    &&& call.id == 1
}

/// Makes a call whose object has one member.
pub fn eth_request_1(url: &str, method: &str, key: &str, value: &str, block_tag: &str) -> (res:
    RpcCall)
    ensures
        is_eth_request(res, url@, method@, seq![(key@, value@)], block_tag@),
{
    let mut fields: Vec<(String, Json)> = Vec::new();
    fields.push((key.to_string(), Json::Text(value.to_string())));
    eth_request(url, method, fields, block_tag)
}

/// Makes a call whose object has two members.
pub fn eth_request_2(
    url: &str,
    method: &str,
    first: (&str, &str),
    second: (&str, &str),
    block_tag: &str,
) -> (res: RpcCall)
    ensures
        is_eth_request(
            res,
            url@,
            method@,
            seq![(first.0@, first.1@), (second.0@, second.1@)],
            block_tag@,
        ),
{
    let mut fields: Vec<(String, Json)> = Vec::new();
    fields.push((first.0.to_string(), Json::Text(first.1.to_string())));
    fields.push((second.0.to_string(), Json::Text(second.1.to_string())));
    eth_request(url, method, fields, block_tag)
}

/// Makes a call with the members of its object.
fn eth_request(url: &str, method: &str, fields: Vec<(String, Json)>, block_tag: &str) -> (res: RpcCall)
    ensures
        forall|members: Seq<(Seq<char>, Seq<char>)>|
            fields@.len() == members.len() && (forall|i: int|
                0 <= i < members.len() ==> (#[trigger] fields@[i]).0@ == members[i].0
                    && fields@[i].1.text() == Some(members[i].1)) ==> #[trigger] is_eth_request(
                res,
                url@,
                method@,
                members,
                block_tag@,
            ),
{
    let mut items: Vec<Json> = Vec::new();
    items.push(Json::Object(fields));
    items.push(Json::Text(block_tag.to_string()));
    RpcCall { url: url.to_string(), method: method.to_string(), params: Json::Array(items), id: 1 }
}

} // verus!
