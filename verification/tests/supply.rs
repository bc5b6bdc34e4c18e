use brc20_unwrap::brc20_prog::Brc20ProgUnwrap;
use brc20_unwrap::bytes::{be_u64, be_usize_wrapping};
use brc20_unwrap::error::AlkanesError;
use brc20_unwrap::json::Json;
use brc20_unwrap::rpc::RpcCall;
use brc20_unwrap::supply::read_total_supply;

fn text(s: &str) -> Json {
    Json::Text(s.to_string())
}

fn rpc_error(message: &str) -> Result<u64, AlkanesError> {
    Err(AlkanesError::RpcError(message.to_string()))
}

#[test]
fn supply_is_the_last_eight_bytes() {
    let digits = format!("{}{}", "00".repeat(24), "0000000005f5e100");
    assert_eq!(read_total_supply(&text(&format!("0x{}", digits))), Ok(100_000_000));
    assert_eq!(read_total_supply(&text(&digits)), Ok(100_000_000));
    assert_eq!(read_total_supply(&text(&"ff".repeat(32))), Ok(u64::MAX));
    assert_eq!(
        read_total_supply(&text(&format!("{}{}", "ff".repeat(24), "00".repeat(8)))),
        Ok(0)
    );
}

#[test]
fn supply_needs_thirty_two_bytes() {
    assert_eq!(
        read_total_supply(&text("0x")),
        rpc_error("Invalid totalSupply response length: expected 64 hex chars, got 0")
    );
    assert_eq!(
        read_total_supply(&text(&"0".repeat(65))),
        rpc_error("Invalid totalSupply response length: expected 64 hex chars, got 65")
    );
    assert_eq!(
        read_total_supply(&text(&format!("0x{}", "é".repeat(31)))),
        rpc_error("Invalid totalSupply response length: expected 64 hex chars, got 62")
    );
}

#[test]
fn supply_needs_digits() {
    assert_eq!(
        read_total_supply(&text(&format!("{}g{}", "0".repeat(10), "0".repeat(53)))),
        rpc_error("Failed to decode hex response: Invalid character 'g' at position 10")
    );
    let accented = "é".repeat(32);
    let words = hex::decode(&accented).unwrap_err().to_string();
    assert_eq!(
        read_total_supply(&text(&accented)),
        rpc_error(&format!("Failed to decode hex response: {}", words))
    );
}

#[test]
fn supply_needs_a_text() {
    for reply in [Json::Null, Json::PosInt(5), Json::Array(vec![])] {
        assert_eq!(read_total_supply(&reply), rpc_error("eth_call result is not a string"));
    }
}

fn supply_call(contract: &str) -> RpcCall {
    let params = Json::Array(vec![
        Json::Object(vec![
            ("to".to_string(), text(contract)),
            ("data".to_string(), text("0x18160ddd")),
        ]),
        text("latest"),
    ]);
    RpcCall { url: "http://node".to_string(), method: "eth_call".to_string(), params, id: 1 }
}

#[test]
fn supply_is_asked_of_the_networks_own_contract_by_default() {
    let unwrap = Brc20ProgUnwrap::new();
    assert_eq!(
        unwrap.get_total_supply("0xown", Some("http://node")),
        Ok(supply_call("0xown"))
    );
}

#[test]
fn supply_is_asked_of_the_contract_of_the_override() {
    let mut unwrap = Brc20ProgUnwrap::with_frbtc_address("0xother");
    assert_eq!(
        unwrap.get_total_supply("0xown", Some("http://node")),
        Ok(supply_call("0xother"))
    );
    unwrap.set_frbtc_address(Some("0xthird"));
    assert_eq!(
        unwrap.get_total_supply("0xown", Some("http://node")),
        Ok(supply_call("0xthird"))
    );
    unwrap.set_frbtc_address(None);
    assert_eq!(
        unwrap.get_total_supply("0xown", Some("http://node")),
        Ok(supply_call("0xown"))
    );
}

#[test]
fn supply_needs_a_url() {
    assert_eq!(
        Brc20ProgUnwrap::new().get_total_supply("0xown", None),
        Err(AlkanesError::Configuration("brc20_prog_rpc_url not configured".to_string()))
    );
}

#[test]
fn bytes_are_read_most_significant_first() {
    assert_eq!(be_u64(&[]), 0);
    assert_eq!(be_u64(&[1, 2]), 258);
    assert_eq!(be_u64(&[0xff; 8]), u64::MAX);
    assert_eq!(be_usize_wrapping(&[0, 0, 1, 0]), 256);
    assert_eq!(be_usize_wrapping(&[0xff; 32]), usize::MAX);
    let mut word = [0u8; 32];
    word[0] = 1;
    word[31] = 9;
    assert_eq!(be_usize_wrapping(&word), 9);
}
