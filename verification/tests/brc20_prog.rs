use brc20_unwrap::address::Network;
use brc20_unwrap::brc20_prog::Brc20ProgUnwrap;
use brc20_unwrap::json::Json;
use brc20_unwrap::rpc::{eth_request_1, eth_request_2, RpcCall};

fn contract(unwrap: &Brc20ProgUnwrap) -> String {
    unwrap
        .get_pending_unwraps(1, 1, Network::Signet, "0xown", Some("url"))
        .unwrap()
        .contract
}

#[test]
fn networks_own_contract_is_asked_by_default() {
    assert_eq!(contract(&Brc20ProgUnwrap::new()), "0xown");
    assert_eq!(contract(&Brc20ProgUnwrap::default()), "0xown");
    assert_eq!(Brc20ProgUnwrap::new(), Brc20ProgUnwrap::default());
}

#[test]
fn contract_can_be_set_and_taken_away() {
    let mut unwrap = Brc20ProgUnwrap::with_frbtc_address("0xa");
    assert_eq!(contract(&unwrap), "0xa");
    unwrap.set_frbtc_address(Some("0xb"));
    assert_eq!(contract(&unwrap), "0xb");
    unwrap.set_frbtc_address(None);
    assert_eq!(contract(&unwrap), "0xown");
}

#[test]
fn protocol_has_a_name() {
    assert_eq!(Brc20ProgUnwrap::new().protocol_name(), "brc20-prog");
}

#[test]
fn calls_carry_an_object_and_a_block() {
    let object = |members: Vec<(&str, &str)>| {
        Json::Object(
            members
                .into_iter()
                .map(|(key, value)| (key.to_string(), Json::Text(value.to_string())))
                .collect(),
        )
    };
    assert_eq!(
        eth_request_1("u", "m", "k", "v", "b"),
        RpcCall {
            url: "u".to_string(),
            method: "m".to_string(),
            params: Json::Array(vec![object(vec![("k", "v")]), Json::Text("b".to_string())]),
            id: 1,
        }
    );
    assert_eq!(
        eth_request_2("u", "m", ("k", "v"), ("l", "w"), "b").params,
        Json::Array(vec![object(vec![("k", "v"), ("l", "w")]), Json::Text("b".to_string())])
    );
}
