//! What is read from JSON values: members, numbers and the oldest dust among outputs.
#[allow(unused_imports)]
use crate::error::ErrorView;
#[allow(unused_imports)]
use crate::json::{is_first_member, Json};
#[allow(unused_imports)]
use crate::reading_laws::law_oldest_dust_is_the_lowest;
#[allow(unused_imports)]
use crate::utxo::{is_dust_at, lacks_value, oldest_dust, oldest_dust_reading, utxo_value};
use vstd::prelude::*;

verus! {

/// A key means the first member of that name: it has that member's value, and a key that no member has
/// means nothing.
pub proof fn law_keys_mean_their_first_member(members: Vec<(String, Json)>, key: Seq<char>, i: int)
    ensures
        0 <= i < members@.len() && members@[i].0@ == key && (forall|j: int|
            0 <= j < i ==> (#[trigger] members@[j]).0@ != key) ==> Json::Object(members).member(key)
            == Some(members@[i].1),
        (forall|j: int| 0 <= j < members@.len() ==> (#[trigger] members@[j]).0@ != key)
            ==> Json::Object(members).member(key) is None,
{
    if is_first_member(members@, key, i) {
        let j = choose|j: int| is_first_member(members@, key, j);
        assert(i == j);
    }
}

/// Only an object has members, only an integer that is not negative is a number, and only a text is a
/// text.
pub proof fn law_values_are_of_one_kind(value: Json, key: Seq<char>)
    ensures
        !(value is Object) ==> value.member(key) is None,
        value.number() == (match value {
            Json::PosInt(n) => Some(n),
            _ => None,
        }),
        match value {
            Json::Text(s) => value.text() == Some(s@),
            _ => value.text() is None,
        },
        value.number_member(key) == (match value.member(key) {
            Some(Json::PosInt(n)) => Some(n),
            _ => None,
        }),
{
}

/// Whether an output has a value of so many satoshi.
pub open spec fn has_value(utxo: Json, value: u64) -> bool {
    utxo.member("value"@) == Some(Json::PosInt(value))
}

/// Whether an output was mined at a height.
pub open spec fn is_mined_at(utxo: Json, height: u64) -> bool {
    utxo.member("status"@) matches Some(status) && status.member("block_height"@) == Some(
        Json::PosInt(height),
    )
}

/// Whether an output of at most 546 satoshi was mined at a height.
pub open spec fn is_small_at(utxo: Json, height: u64) -> bool {
    is_mined_at(utxo, height) && exists|value: u64| value <= 546 && #[trigger] has_value(utxo, value)
}

/// Whether an output has some value.
pub open spec fn has_some_value(utxo: Json) -> bool {
    exists|value: u64| has_value(utxo, value)
}

/// An output is dust where it has at most 546 satoshi and was mined.
proof fn lemma_small_is_dust(utxo: Json, height: u64)
    ensures
        is_small_at(utxo, height) <==> is_dust_at(utxo, height),
        has_some_value(utxo) <==> utxo_value(utxo) is Some,
{
    if let Some(value) = utxo_value(utxo) {
        assert(has_value(utxo, value));
    }
}

/// From a list of outputs that all have a value, the lowest height is read at which one of at most 546
/// satoshi was mined; none where there is no such output. A list with an output without a value cannot be
/// read, and neither can what is no list.
pub proof fn law_oldest_output_of_546_satoshi(list: Json)
    ensures
        match oldest_dust_reading(list) {
            Ok(Some(height)) => {
                &&& list matches Json::Array(utxos)
                &&& forall|i: int| 0 <= i < utxos@.len() ==> has_some_value(#[trigger] utxos@[i])
                &&& exists|i: int| 0 <= i < utxos@.len() && is_small_at(#[trigger] utxos@[i], height)
                &&& forall|i: int, h: u64|
                    0 <= i < utxos@.len() && #[trigger] is_small_at(utxos@[i], h) ==> height <= h
            },
            Ok(None) => {
                &&& list matches Json::Array(utxos)
                &&& forall|i: int| 0 <= i < utxos@.len() ==> has_some_value(#[trigger] utxos@[i])
                &&& forall|i: int, h: u64|
                    0 <= i < utxos@.len() ==> !#[trigger] is_small_at(utxos@[i], h)
            },
            Err(e) => match list {
                Json::Array(utxos) => {
                    &&& e == ErrorView::RpcError("UTXO missing value field"@)
                    &&& exists|i: int|
                        0 <= i < utxos@.len() && !has_some_value(#[trigger] utxos@[i])
                },
                _ => e == ErrorView::RpcError("UTXOs response is not an array"@),
            },
        },
{
    if let Json::Array(utxos) = list {
        let all = utxos@;
        law_oldest_dust_is_the_lowest(all);
        assert forall|utxo: Json, h: u64|
            (#[trigger] is_small_at(utxo, h) <==> is_dust_at(utxo, h)) by {
            lemma_small_is_dust(utxo, h);
        }
        assert forall|i: int| 0 <= i < all.len() implies (has_some_value(#[trigger] all[i])
            <==> utxo_value(all[i]) is Some) by {
            lemma_small_is_dust(all[i], 0);
        }
        if lacks_value(all) {
            let i = choose|i: int| 0 <= i < all.len() && utxo_value(#[trigger] all[i]) is None;
            assert(!has_some_value(all[i]));
        } else if let Some(height) = oldest_dust(all) {
            let i = choose|i: int| 0 <= i < all.len() && is_dust_at(#[trigger] all[i], height);
            assert(is_small_at(all[i], height));
        }
    }
}

} // verus!
