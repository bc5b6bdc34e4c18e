use brc20_unwrap::address::{
    recipient_address, resolved_address, script_pubkey_to_address, Network,
};
use brc20_unwrap::error::AlkanesError;

fn bytes(text: &str) -> Vec<u8> {
    hex::decode(text).unwrap()
}

const P2PKH: &str = "76a914751e76e8199196d454941c45d1b3a323f1433bd688ac";
const P2SH: &str = "a914bcfeb728b584253d5f3f70bcb780e9ef218a68f487";
const P2WPKH: &str = "0014751e76e8199196d454941c45d1b3a323f1433bd6";
const P2TR: &str = "512079be667ef9dcbbac55a06295ce870b07029bfcdb2dce28d959f2815b16f81798";

fn address(script: &str, network: Network) -> String {
    script_pubkey_to_address(&bytes(script), network).unwrap()
}

#[test]
fn main_network_addresses() {
    assert_eq!(address(P2PKH, Network::Bitcoin), "1BgGZ9tcN4rm9KBzDn7KprQz87SZ26SAMH");
    assert_eq!(address(P2SH, Network::Bitcoin), "3JvL6Ymt8MVWiCNHC7oWU6nLeHNJKLZGLN");
    assert_eq!(address(P2WPKH, Network::Bitcoin), "bc1qw508d6qejxtdg4y5r3zarvary0c5xw7kv8f3t4");
    assert_eq!(
        address(P2TR, Network::Bitcoin),
        "bc1p0xlxvlhemja6c4dqv22uapctqupfhlxm9h8z3k2e72q4k9hcz7vqzk5jj0"
    );
    let p2wsh = format!("0020{}", "11".repeat(32));
    assert_eq!(
        address(&p2wsh, Network::Bitcoin),
        "bc1qzyg3zyg3zyg3zyg3zyg3zyg3zyg3zyg3zyg3zyg3zyg3zyg3zygsszvapf"
    );
    assert_eq!(address("6002abcd", Network::Bitcoin), "bc1s40xsmquv3u");
}

#[test]
fn test_network_addresses() {
    for network in [Network::Testnet, Network::Testnet4, Network::Signet] {
        assert_eq!(address(P2PKH, network), "mrCDrCybB6J1vRfbwM5hemdJz73FwDBC8r");
        assert_eq!(address(P2SH, network), "2NAUYAHhujozruyzpsFRP63mbrdaU5wnEpN");
        assert_eq!(address(P2WPKH, network), "tb1qw508d6qejxtdg4y5r3zarvary0c5xw7kxpjzsx");
    }
    assert_eq!(
        address(P2TR, Network::Regtest),
        "bcrt1p0xlxvlhemja6c4dqv22uapctqupfhlxm9h8z3k2e72q4k9hcz7vqc8gma6"
    );
    assert_eq!(
        address(P2WPKH, Network::Regtest),
        "bcrt1qw508d6qejxtdg4y5r3zarvary0c5xw7kygt080"
    );
}

#[test]
fn other_scripts_have_no_address() {
    let reason = "Failed to convert script to address: script is not a p2pkh, p2sh or witness program";
    let no_address = [
        "",
        "6a",
        "6a04deadbeef",
        "5201ab",
        "5303abcd",
        "5202abcdef",
        "6102abcd",
        "76a914751e76e8199196d454941c45d1b3a323f1433bd688ad",
        "a914bcfeb728b584253d5f3f70bcb780e9ef218a68f488",
    ];
    for script in no_address {
        assert_eq!(
            script_pubkey_to_address(&bytes(script), Network::Bitcoin),
            Err(AlkanesError::AddressResolution(reason.to_string())),
            "{}",
            script
        );
        assert_eq!(recipient_address(&bytes(script), Network::Bitcoin), None);
    }
    let overlong = format!("5129{}", "00".repeat(41));
    assert_eq!(recipient_address(&bytes(&overlong), Network::Bitcoin), None);
}

#[test]
fn witness_programs_of_version_zero_have_two_lengths() {
    let program = format!("0015{}", "22".repeat(21));
    assert_eq!(
        script_pubkey_to_address(&bytes(&program), Network::Bitcoin),
        Err(AlkanesError::AddressResolution(
            "Failed to convert script to address: witness program error".to_string()
        ))
    );
    assert_eq!(recipient_address(&bytes(&program), Network::Bitcoin), None);
    let taproot = format!("5115{}", "22".repeat(21));
    assert!(recipient_address(&bytes(&taproot), Network::Bitcoin).is_some());
}

#[test]
fn recipients_have_the_same_addresses() {
    assert_eq!(
        recipient_address(&bytes(P2PKH), Network::Bitcoin),
        Some("1BgGZ9tcN4rm9KBzDn7KprQz87SZ26SAMH".to_string())
    );
}

#[test]
fn failed_conversions_are_reported() {
    assert_eq!(resolved_address(Ok("abc".to_string())), Ok("abc".to_string()));
    assert_eq!(
        resolved_address(Err("why".to_string())),
        Err(AlkanesError::AddressResolution(
            "Failed to convert script to address: why".to_string()
        ))
    );
}
