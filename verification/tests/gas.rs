use brc20_unwrap::gas::{gas_limit, read_estimate, MAX_GAS};
use brc20_unwrap::json::Json;

fn text(s: &str) -> Json {
    Json::Text(s.to_string())
}

#[test]
fn estimates_are_hexadecimal_texts() {
    assert_eq!(read_estimate(&text("0x5208")), 21000);
    assert_eq!(read_estimate(&text("5208")), 21000);
    assert_eq!(read_estimate(&text("0x")), 0);
    assert_eq!(read_estimate(&text("0xzz")), 0);
    assert_eq!(read_estimate(&text("0x10000000000000000")), 0);
    assert_eq!(read_estimate(&Json::PosInt(21000)), 0);
    assert_eq!(read_estimate(&Json::Null), 0);
}

#[test]
fn limit_is_the_estimate_and_half_of_it_again() {
    assert_eq!(gas_limit(Some(0)), "0x0");
    assert_eq!(gas_limit(Some(1)), "0x1");
    assert_eq!(gas_limit(Some(21000)), "0x7b0c");
    assert_eq!(gas_limit(Some(100)), "0x96");
}

#[test]
fn limit_is_capped() {
    assert_eq!(MAX_GAS, 83_886_080);
    assert_eq!(gas_limit(None), "0x5000000");
    assert_eq!(gas_limit(Some(55_924_053)), "0x4ffffff");
    assert_eq!(gas_limit(Some(55_924_054)), "0x5000000");
    assert_eq!(gas_limit(Some(MAX_GAS)), "0x5000000");
    assert_eq!(gas_limit(Some(u64::MAX / 3)), "0x5000000");
    assert_eq!(gas_limit(Some(u64::MAX / 3 + 1)), "0x5000000");
    assert_eq!(gas_limit(Some(u64::MAX)), "0x5000000");
}

#[test]
fn limit_is_bounded_and_rises_with_the_estimate() {
    let mut before = 0;
    for estimate in [0, 1, 2, 3, 1000, 1_000_000, 55_924_053, 55_924_054, 1_000_000_000_000, u64::MAX] {
        let limit = read_estimate(&text(&gas_limit(Some(estimate))));
        assert!(limit <= MAX_GAS);
        assert!(limit >= estimate || limit == MAX_GAS);
        assert!(limit >= before);
        before = limit;
    }
}

#[test]
fn limit_is_read_back() {
    assert_eq!(read_estimate(&text(&gas_limit(Some(21000)))), 31500);
    assert_eq!(read_estimate(&text(&gas_limit(None))), MAX_GAS);
}
