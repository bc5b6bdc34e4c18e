use brc20_unwrap::address::Network;
use brc20_unwrap::batch::{
    batch_unwraps_of, read_batch_reply, read_reply_bytes, BatchNext, BatchProgram, BatchQuery,
    BatchReply, BatchRequest,
};
use brc20_unwrap::brc20_prog::Brc20ProgUnwrap;
use brc20_unwrap::error::AlkanesError;
use brc20_unwrap::json::Json;
use brc20_unwrap::payment::{Payment, PendingUnwrap};
use brc20_unwrap::rpc::RpcCall;

const SIGNER: &str = "512079be667ef9dcbbac55a06295ce870b07029bfcdb2dce28d959f2815b16f81798";
const SIGNER_ADDRESS: &str = "bcrt1p0xlxvlhemja6c4dqv22uapctqupfhlxm9h8z3k2e72q4k9hcz7vqc8gma6";

fn text(s: &str) -> Json {
    Json::Text(s.to_string())
}

fn word(n: u64) -> String {
    format!("{:064x}", n)
}

/// Two payments with empty recipients, of the amounts 1000 and 2000.
fn two_payments() -> String {
    let mut data = format!("0x{}{}{}{}", word(0x20), word(2), word(64), word(64 + 192));
    for (n, amount) in [("12", 1000), ("34", 2000)] {
        let txid = format!("{}00", n.repeat(31));
        data.push_str(&txid);
        data.push_str(&word(5));
        data.push_str(&word(amount));
        data.push_str(&word(0xa0));
        data.push_str(&word(700));
        data.push_str(&word(0));
    }
    data
}

fn unwrap(n: &str, amount: u64) -> PendingUnwrap {
    PendingUnwrap {
        txid: format!("{}00", n.repeat(31)),
        vout: 5,
        amount,
        address: None,
        fulfilled: false,
    }
}

fn begin(program: BatchProgram, contract: Option<&str>, tag: Option<&str>) -> BatchQuery {
    let unwrap = Brc20ProgUnwrap::with_frbtc_address("0xignored");
    let network = Network::Regtest;
    match program {
        BatchProgram::Asm => unwrap.get_pending_unwraps_experimental_asm(
            100, 6, network, "0xown", Some("url"), contract, tag,
        ),
        BatchProgram::Sol => unwrap.get_pending_unwraps_experimental_sol(
            100, 6, network, "0xown", Some("url"), contract, tag,
        ),
    }
    .unwrap()
}

fn go(query: BatchQuery, reply: BatchReply) -> BatchQuery {
    match query.advance(reply).unwrap() {
        BatchNext::Ask(next) => next,
        BatchNext::Done(_) => panic!("the query is not over"),
    }
}

fn call(method: &str, members: Vec<(&str, &str)>, tag: &str) -> RpcCall {
    let members = members.into_iter().map(|(key, value)| (key.to_string(), text(value)));
    RpcCall {
        url: "url".to_string(),
        method: method.to_string(),
        params: Json::Array(vec![Json::Object(members.collect()), text(tag)]),
        id: 1,
    }
}

fn dust(heights: &[u64]) -> Json {
    let utxos = heights.iter().map(|height| {
        Json::Object(vec![
            ("value".to_string(), Json::PosInt(330)),
            (
                "status".to_string(),
                Json::Object(vec![("block_height".to_string(), Json::PosInt(*height))]),
            ),
        ])
    });
    Json::Array(utxos.collect())
}

fn at_call(program: BatchProgram, estimate: Option<Json>) -> BatchQuery {
    let query = begin(program, None, None);
    let query = go(query, BatchReply::SignerScript(hex::decode(SIGNER).unwrap()));
    let query = go(query, BatchReply::AddressUtxos(dust(&[50])));
    let query = go(query, BatchReply::Bytecode("0xc0de".to_string()));
    go(query, BatchReply::GasEstimate(estimate))
}

#[test]
fn query_begins_with_the_contract_and_the_cutoff() {
    let query = begin(BatchProgram::Asm, None, None);
    assert_eq!(query.program, BatchProgram::Asm);
    assert_eq!(query.contract, "0xown");
    assert_eq!(query.cutoff_height, 94);
    assert_eq!(query.block_tag, "latest");
    assert_eq!(query.network, Network::Regtest);
    let query = begin(BatchProgram::Sol, Some("0xother"), Some("0x10"));
    assert_eq!(query.program, BatchProgram::Sol);
    assert_eq!(query.contract, "0xother");
    assert_eq!(query.block_tag, "0x10");
}

#[test]
fn query_needs_a_url() {
    let unwrap = Brc20ProgUnwrap::default();
    let missing = AlkanesError::Configuration("brc20_prog_rpc_url not configured".to_string());
    let network = Network::Bitcoin;
    let begun =
        unwrap.get_pending_unwraps_experimental_asm(1, 6, network, "0xown", None, None, None);
    assert_eq!(begun.unwrap_err(), missing);
    let begun =
        unwrap.get_pending_unwraps_experimental_sol(1, 6, network, "0xown", None, None, None);
    assert_eq!(begun.unwrap_err(), missing);
}

#[test]
fn query_asks_step_by_step() {
    let query = begin(BatchProgram::Asm, None, Some("0x10"));
    assert_eq!(query.request(), BatchRequest::SignerScript);
    let query = go(query, BatchReply::SignerScript(hex::decode(SIGNER).unwrap()));
    assert_eq!(query.request(), BatchRequest::AddressUtxos(SIGNER_ADDRESS.to_string()));
    let query = go(query, BatchReply::AddressUtxos(dust(&[70, 50])));
    assert_eq!(query.request(), BatchRequest::Bytecode { cutoff: 94, oldest: 50 });
    let query = go(query, BatchReply::Bytecode("0xc0de".to_string()));
    assert_eq!(
        query.request(),
        BatchRequest::GasEstimate(call("eth_estimateGas", vec![("data", "0xc0de")], "0x10"))
    );
    let query = go(query, BatchReply::GasEstimate(Some(text("0x64"))));
    assert_eq!(
        query.request(),
        BatchRequest::Call(call("eth_call", vec![("data", "0xc0de"), ("gas", "0x96")], "0x10"))
    );
}

#[test]
fn without_dust_the_program_is_given_zero() {
    let query = begin(BatchProgram::Sol, None, None);
    let query = go(query, BatchReply::SignerScript(hex::decode(SIGNER).unwrap()));
    let query = go(query, BatchReply::AddressUtxos(dust(&[])));
    assert_eq!(query.request(), BatchRequest::Bytecode { cutoff: 94, oldest: 0 });
}

#[test]
fn failed_estimates_give_the_most_gas() {
    for estimate in [None, Some(text("0xfffffff"))] {
        assert_eq!(
            at_call(BatchProgram::Asm, estimate).request(),
            BatchRequest::Call(call(
                "eth_call",
                vec![("data", "0xc0de"), ("gas", "0x5000000")],
                "latest"
            ))
        );
    }
    assert_eq!(
        at_call(BatchProgram::Asm, Some(Json::Null)).request(),
        BatchRequest::Call(call("eth_call", vec![("data", "0xc0de"), ("gas", "0x0")], "latest"))
    );
}

#[test]
fn huge_estimates_are_capped() {
    for program in [BatchProgram::Asm, BatchProgram::Sol] {
        for estimate in ["0x5555555555555556", "0xffffffffffffffff"] {
            let query = at_call(program, Some(text(estimate)));
            assert_eq!(
                query.request(),
                BatchRequest::Call(call(
                    "eth_call",
                    vec![("data", "0xc0de"), ("gas", "0x5000000")],
                    "latest"
                ))
            );
            match query.advance(BatchReply::Call(text("0x"))).unwrap() {
                BatchNext::Done(unwraps) => assert_eq!(unwraps, vec![]),
                BatchNext::Ask(_) => panic!("the query is over"),
            }
        }
    }
}

#[test]
fn replies_of_both_programs_are_read() {
    match at_call(BatchProgram::Asm, None).advance(BatchReply::Call(text(&two_payments()))).unwrap()
    {
        BatchNext::Done(unwraps) => {
            assert_eq!(unwraps, vec![unwrap("34", 2000), unwrap("12", 1000)])
        }
        BatchNext::Ask(_) => panic!("the query is over"),
    }
    match at_call(BatchProgram::Sol, None).advance(BatchReply::Call(text(&two_payments()))).unwrap()
    {
        BatchNext::Done(unwraps) => {
            assert_eq!(unwraps, vec![unwrap("12", 1000), unwrap("34", 2000)])
        }
        BatchNext::Ask(_) => panic!("the query is over"),
    }
}

#[test]
fn empty_replies_hold_no_unwraps() {
    for program in [BatchProgram::Asm, BatchProgram::Sol] {
        assert_eq!(read_batch_reply(program, Network::Bitcoin, &text("0x")), Ok(vec![]));
        assert_eq!(read_batch_reply(program, Network::Bitcoin, &text("")), Ok(vec![]));
    }
}

#[test]
fn replies_are_hexadecimal_texts() {
    assert_eq!(read_reply_bytes(&text("0x00ffAb")), Ok(vec![0, 255, 171]));
    assert_eq!(read_reply_bytes(&text("00ff")), Ok(vec![0, 255]));
    assert_eq!(
        read_reply_bytes(&Json::Null),
        Err(AlkanesError::RpcError("eth_call result is not a string".to_string()))
    );
    assert_eq!(
        read_reply_bytes(&text("0x123")),
        Err(AlkanesError::RpcError("Failed to decode response: Odd number of digits".to_string()))
    );
    assert_eq!(
        read_reply_bytes(&text("0x12x4")),
        Err(AlkanesError::RpcError(
            "Failed to decode response: Invalid character 'x' at position 2".to_string()
        ))
    );
    for digits in ["", "0", "00", "0g", "g", "abcdefABCDEF0123456789", "0x00", "éé", "0é"] {
        assert_eq!(read_reply_bytes(&text(digits)).ok(), {
            let digits = digits.strip_prefix("0x").unwrap_or(digits);
            hex::decode(digits).ok()
        });
    }
}

#[test]
fn hexadecimal_is_read_back() {
    let all: Vec<u8> = (0..=255).collect();
    assert_eq!(read_reply_bytes(&text(&hex::encode(&all))), Ok(all));
}

#[test]
fn unreadable_replies_fail_the_query() {
    let reply = BatchReply::Call(text("0x01"));
    assert_eq!(
        at_call(BatchProgram::Asm, None).advance(reply).unwrap_err(),
        AlkanesError::RpcError(
            "Alloy decode failed: ABI decoding failed: buffer overrun while deserializing"
                .to_string()
        )
    );
    let reply = BatchReply::Call(text("0x01"));
    assert_eq!(
        at_call(BatchProgram::Sol, None).advance(reply).unwrap_err(),
        AlkanesError::RpcError(
            "Failed to decode Payment[] ABI from Solidity: RPC error: Alloy decode failed: ABI decoding failed: buffer overrun while deserializing"
                .to_string()
        )
    );
    let reply = BatchReply::Call(Json::Null);
    assert_eq!(
        at_call(BatchProgram::Sol, None).advance(reply).unwrap_err(),
        AlkanesError::RpcError("eth_call result is not a string".to_string())
    );
}

#[test]
fn signer_and_outputs_can_fail_the_query() {
    let query = begin(BatchProgram::Asm, None, None);
    assert!(matches!(
        query.advance(BatchReply::SignerScript(vec![0x6a])),
        Err(AlkanesError::AddressResolution(_))
    ));
    let query = begin(BatchProgram::Asm, None, None);
    let query = go(query, BatchReply::SignerScript(hex::decode(SIGNER).unwrap()));
    assert_eq!(
        query.advance(BatchReply::AddressUtxos(Json::Null)).unwrap_err(),
        AlkanesError::RpcError("UTXOs response is not an array".to_string())
    );
    let query = begin(BatchProgram::Asm, None, None);
    assert_eq!(
        query.signer_resolved(Err(AlkanesError::AddressResolution("x".to_string()))).unwrap_err(),
        AlkanesError::AddressResolution("x".to_string())
    );
}

#[test]
fn unexpected_replies_leave_the_query_where_it_is() {
    let query = begin(BatchProgram::Asm, None, None);
    let query = go(query, BatchReply::Call(Json::Null));
    assert_eq!(query.request(), BatchRequest::SignerScript);
}

#[test]
fn transaction_ids_stay_as_they_stand() {
    let mut txid = [0u8; 32];
    txid[0] = 0xab;
    let payment = Payment { txid, vout: 1, value: 2, recipient: vec![], height: 3 };
    let unwraps = batch_unwraps_of(Ok(vec![payment]), Network::Bitcoin).unwrap();
    assert_eq!(unwraps[0].txid, format!("ab{}", "00".repeat(31)));
    assert_eq!(
        batch_unwraps_of(Err(AlkanesError::RpcError("x".to_string())), Network::Bitcoin),
        Err(AlkanesError::RpcError("x".to_string()))
    );
}
