use brc20_unwrap::error::AlkanesError;
use brc20_unwrap::json::Json;
use brc20_unwrap::utxo::{find_oldest_546_sat_utxo, DUST_LIMIT};

fn object(members: Vec<(&str, Json)>) -> Json {
    Json::Object(members.into_iter().map(|(key, value)| (key.to_string(), value)).collect())
}

fn utxo(value: u64, height: Option<u64>) -> Json {
    let mut status = vec![("confirmed", Json::Bool(height.is_some()))];
    if let Some(height) = height {
        status.push(("block_height", Json::PosInt(height)));
    }
    object(vec![
        ("txid", Json::Text("ab".to_string())),
        ("status", object(status)),
        ("value", Json::PosInt(value)),
    ])
}

fn oldest(utxos: Vec<Json>) -> Option<u64> {
    find_oldest_546_sat_utxo(&Json::Array(utxos)).unwrap()
}

#[test]
fn members_are_found_by_their_first_name() {
    let value = object(vec![("a", Json::PosInt(1)), ("b", Json::Null), ("a", Json::PosInt(2))]);
    assert_eq!(value.get("a"), Some(&Json::PosInt(1)));
    assert_eq!(value.get_u64("a"), Some(1));
    assert_eq!(value.get("b"), Some(&Json::Null));
    assert_eq!(value.get_u64("b"), None);
    assert_eq!(value.get("c"), None);
    assert_eq!(Json::Array(vec![]).get("a"), None);
    assert_eq!(Json::Text("x".to_string()).as_str(), Some("x"));
    assert_eq!(Json::Null.as_str(), None);
    assert_eq!(Json::PosInt(7).as_u64(), Some(7));
    assert_eq!(Json::NegInt(-7).as_u64(), None);
    assert_eq!(Json::Float.as_u64(), None);
}

#[test]
fn oldest_dust_is_the_lowest_height() {
    assert_eq!(oldest(vec![]), None);
    assert_eq!(oldest(vec![utxo(546, Some(800))]), Some(800));
    assert_eq!(
        oldest(vec![utxo(546, Some(800)), utxo(330, Some(700)), utxo(546, Some(900))]),
        Some(700)
    );
}

#[test]
fn larger_outputs_are_no_dust() {
    assert_eq!(DUST_LIMIT, 546);
    assert_eq!(oldest(vec![utxo(547, Some(100)), utxo(546, Some(800))]), Some(800));
    assert_eq!(oldest(vec![utxo(547, Some(100))]), None);
    assert_eq!(oldest(vec![utxo(0, Some(5))]), Some(5));
}

#[test]
fn outputs_without_a_height_are_passed_over() {
    assert_eq!(oldest(vec![utxo(546, None)]), None);
    assert_eq!(oldest(vec![utxo(546, None), utxo(546, Some(3))]), Some(3));
    assert_eq!(oldest(vec![object(vec![("value", Json::PosInt(546))])]), None);
    let text_status = object(vec![("value", Json::PosInt(1)), ("status", Json::Text("x".to_string()))]);
    assert_eq!(oldest(vec![text_status]), None);
    let text_height = object(vec![("block_height", Json::Text("5".to_string()))]);
    assert_eq!(oldest(vec![object(vec![("value", Json::PosInt(1)), ("status", text_height)])]), None);
}

#[test]
fn order_and_repetition_of_outputs_do_not_matter() {
    let forwards = vec![utxo(546, Some(3)), utxo(546, Some(1)), utxo(600, Some(0)), utxo(1, Some(2))];
    let backwards = vec![
        utxo(1, Some(2)),
        utxo(600, Some(0)),
        utxo(546, Some(1)),
        utxo(546, Some(1)),
        utxo(546, Some(3)),
    ];
    assert_eq!(oldest(forwards), Some(1));
    assert_eq!(oldest(backwards), Some(1));
}

#[test]
fn outputs_need_a_value() {
    let missing = AlkanesError::RpcError("UTXO missing value field".to_string());
    let nameless = object(vec![("status", object(vec![]))]);
    assert_eq!(
        find_oldest_546_sat_utxo(&Json::Array(vec![utxo(546, Some(1)), nameless])),
        Err(missing)
    );
    for value in [Json::NegInt(-1), Json::Float, Json::Text("546".to_string()), Json::Null] {
        assert_eq!(
            find_oldest_546_sat_utxo(&Json::Array(vec![object(vec![("value", value)])])),
            Err(AlkanesError::RpcError("UTXO missing value field".to_string()))
        );
    }
    assert_eq!(
        find_oldest_546_sat_utxo(&Json::Array(vec![Json::Null])),
        Err(AlkanesError::RpcError("UTXO missing value field".to_string()))
    );
}

#[test]
fn outputs_need_a_list() {
    for value in [Json::Null, object(vec![]), Json::PosInt(1)] {
        assert_eq!(
            find_oldest_546_sat_utxo(&value),
            Err(AlkanesError::RpcError("UTXOs response is not an array".to_string()))
        );
    }
}
