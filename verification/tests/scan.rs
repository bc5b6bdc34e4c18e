use brc20_unwrap::address::Network;
use brc20_unwrap::brc20_prog::Brc20ProgUnwrap;
use brc20_unwrap::error::AlkanesError;
use brc20_unwrap::json::Json;
use brc20_unwrap::payment::{Payment, PendingUnwrap};
use brc20_unwrap::scan::{cutoff_height, ScanNext, ScanQuery, ScanReply, ScanRequest};

const SIGNER: &str = "512079be667ef9dcbbac55a06295ce870b07029bfcdb2dce28d959f2815b16f81798";
const SIGNER_ADDRESS: &str = "bc1p0xlxvlhemja6c4dqv22uapctqupfhlxm9h8z3k2e72q4k9hcz7vqzk5jj0";

fn payment(value: u64, height: u64) -> Payment {
    Payment { txid: [value as u8; 32], vout: 0, value, recipient: vec![], height }
}

fn dust(heights: &[u64]) -> Json {
    let utxos = heights.iter().map(|height| {
        Json::Object(vec![
            ("value".to_string(), Json::PosInt(546)),
            (
                "status".to_string(),
                Json::Object(vec![("block_height".to_string(), Json::PosInt(*height))]),
            ),
        ])
    });
    Json::Array(utxos.collect())
}

fn begin(current_height: u64, confirmations: u64) -> ScanQuery {
    Brc20ProgUnwrap::new()
        .get_pending_unwraps(current_height, confirmations, Network::Bitcoin, "0xown", Some("url"))
        .unwrap()
}

fn run(
    query: ScanQuery,
    script: &str,
    utxos: &dyn Fn() -> Json,
    payments: &[Payment],
    asked: &mut Vec<ScanRequest>,
) -> Result<Vec<PendingUnwrap>, AlkanesError> {
    let mut query = query;
    loop {
        let request = query.request();
        let reply = match &request {
            ScanRequest::PaymentsLength => ScanReply::PaymentsLength(payments.len() as u64),
            ScanRequest::SignerScript => ScanReply::SignerScript(hex::decode(script).unwrap()),
            ScanRequest::AddressUtxos(_) => ScanReply::AddressUtxos(utxos()),
            ScanRequest::Payment(index) => ScanReply::Payment(payments[*index as usize].clone()),
        };
        asked.push(request);
        match query.advance(reply)? {
            ScanNext::Ask(next) => query = next,
            ScanNext::Done(unwraps) => return Ok(unwraps),
        }
    }
}

fn amounts(payments: &[Payment], dust_at: &[u64], current: u64, confirmations: u64) -> Vec<u64> {
    let mut asked = Vec::new();
    run(begin(current, confirmations), SIGNER, &|| dust(dust_at), payments, &mut asked)
        .unwrap()
        .iter()
        .map(|unwrap| unwrap.amount)
        .collect()
}

#[test]
fn cutoff_stands_below_the_confirmations() {
    assert_eq!(cutoff_height(100, 6), 94);
    assert_eq!(cutoff_height(6, 6), 0);
    assert_eq!(cutoff_height(5, 6), 0);
    assert_eq!(cutoff_height(u64::MAX, 0), u64::MAX);
}

#[test]
fn scan_begins_with_the_contract_and_the_cutoff() {
    let query = begin(100, 6);
    assert_eq!(query.contract, "0xown");
    assert_eq!(query.rpc_url, "url");
    assert_eq!(query.cutoff_height, 94);
    assert_eq!(query.request(), ScanRequest::PaymentsLength);
    let other = Brc20ProgUnwrap::with_frbtc_address("0xother")
        .get_pending_unwraps(100, 6, Network::Bitcoin, "0xown", Some("url"))
        .unwrap();
    assert_eq!(other.contract, "0xother");
}

#[test]
fn scan_needs_a_url() {
    let begun =
        Brc20ProgUnwrap::new().get_pending_unwraps(100, 6, Network::Bitcoin, "0xown", None);
    assert_eq!(
        begun.unwrap_err(),
        AlkanesError::Configuration("brc20_prog_rpc_url not configured".to_string())
    );
}

#[test]
fn scan_of_no_payments_asks_nothing_more() {
    let mut asked = Vec::new();
    let found = run(begin(100, 6), "6a", &|| Json::Null, &[], &mut asked);
    assert_eq!(found, Ok(vec![]));
    assert_eq!(asked, vec![ScanRequest::PaymentsLength]);
}

#[test]
fn scan_asks_backwards() {
    let mut asked = Vec::new();
    let payments = [payment(1, 10), payment(2, 20)];
    let found = run(begin(100, 6), SIGNER, &|| dust(&[5]), &payments, &mut asked).unwrap();
    assert_eq!(
        asked,
        vec![
            ScanRequest::PaymentsLength,
            ScanRequest::SignerScript,
            ScanRequest::AddressUtxos(SIGNER_ADDRESS.to_string()),
            ScanRequest::Payment(1),
            ScanRequest::Payment(0),
        ]
    );
    assert_eq!(found.len(), 2);
    assert_eq!(found[0].txid, "02".repeat(32));
    assert_eq!(found[1].txid, "01".repeat(32));
}

#[test]
fn new_payments_are_passed_over() {
    let payments = [payment(1, 94), payment(2, 95), payment(3, 94), payment(4, 200)];
    assert_eq!(amounts(&payments, &[5], 100, 6), vec![3, 1]);
    assert_eq!(amounts(&[payment(1, 95)], &[5], 100, 6), Vec::<u64>::new());
}

#[test]
fn old_payments_end_the_scan() {
    let payments = [payment(1, 60), payment(2, 49), payment(3, 50), payment(4, 70)];
    assert_eq!(amounts(&payments, &[50, 80], 100, 6), vec![4, 3]);
    let mut asked = Vec::new();
    run(begin(100, 6), SIGNER, &|| dust(&[50]), &payments, &mut asked).unwrap();
    assert_eq!(asked.last(), Some(&ScanRequest::Payment(1)));
}

#[test]
fn new_payments_below_the_dust_do_not_end_the_scan() {
    let payments = [payment(1, 10), payment(2, 96)];
    assert_eq!(amounts(&payments, &[97], 100, 6), Vec::<u64>::new());
    let payments = [payment(1, 94), payment(2, 96), payment(3, 10)];
    assert_eq!(amounts(&payments, &[97], 100, 6), Vec::<u64>::new());
    let payments = [payment(1, 94), payment(2, 96)];
    assert_eq!(amounts(&payments, &[94], 100, 6), vec![1]);
}

#[test]
fn without_dust_nothing_is_too_old() {
    let payments = [payment(1, 0), payment(2, 3)];
    assert_eq!(amounts(&payments, &[], 100, 6), vec![2, 1]);
    assert_eq!(amounts(&payments, &[0], 100, 6), vec![2, 1]);
}

#[test]
fn chronological_payments_are_picked_by_height() {
    let payments: Vec<Payment> = (1..=9).map(|n| payment(n, 10 * n)).collect();
    assert_eq!(amounts(&payments, &[30], 76, 6), vec![7, 6, 5, 4, 3]);
}

#[test]
fn picked_payments_have_their_confirmations() {
    let payments: Vec<Payment> = (1..=9).map(|n| payment(n, 10 * n)).collect();
    let mut asked = Vec::new();
    let found = run(begin(75, 20), SIGNER, &|| dust(&[]), &payments, &mut asked).unwrap();
    assert_eq!(found.len(), 5);
    assert!(found.iter().all(|unwrap| 75 - 10 * unwrap.amount >= 20));
}

#[test]
fn more_confirmations_never_add_unwraps() {
    let mixed = [
        payment(1, 60),
        payment(2, 49),
        payment(3, 90),
        payment(4, 55),
        payment(5, 70),
        payment(6, 95),
    ];
    let mut before = amounts(&mixed, &[50], 100, 0);
    assert_eq!(before, vec![6, 5, 4, 3]);
    for confirmations in 1..=110 {
        let now = amounts(&mixed, &[50], 100, confirmations);
        let cutoff = cutoff_height(100, confirmations);
        before.retain(|amount| mixed[*amount as usize - 1].height <= cutoff);
        assert_eq!(now, before);
    }
    assert_eq!(amounts(&[payment(1, 40), payment(2, 45)], &[50], 100, 0), Vec::<u64>::new());
    assert_eq!(amounts(&[payment(1, 40), payment(2, 45)], &[50], 100, 60), Vec::<u64>::new());
}

#[test]
fn short_chains_have_the_cutoff_zero() {
    let payments = [payment(1, 0), payment(2, 1)];
    assert_eq!(amounts(&payments, &[], 3, 6), vec![1]);
}

#[test]
fn signer_without_an_address_fails_the_scan() {
    let mut asked = Vec::new();
    let found = run(begin(100, 6), "6a", &|| dust(&[]), &[payment(1, 1)], &mut asked);
    assert_eq!(
        found,
        Err(AlkanesError::AddressResolution(
            "Failed to convert script to address: script is not a p2pkh, p2sh or witness program"
                .to_string()
        ))
    );
    let failed = begin(100, 6)
        .signer_resolved(3, Err(AlkanesError::AddressResolution("none".to_string())));
    assert_eq!(failed.unwrap_err(), AlkanesError::AddressResolution("none".to_string()));
    match begin(100, 6).signer_resolved(3, Ok("addr".to_string())).unwrap() {
        ScanNext::Ask(next) => {
            assert_eq!(next.request(), ScanRequest::AddressUtxos("addr".to_string()))
        }
        ScanNext::Done(_) => panic!("the scan is not over"),
    }
}

#[test]
fn unreadable_outputs_fail_the_scan() {
    let mut asked = Vec::new();
    let found = run(begin(100, 6), SIGNER, &|| Json::Null, &[payment(1, 1)], &mut asked);
    assert_eq!(
        found,
        Err(AlkanesError::RpcError("UTXOs response is not an array".to_string()))
    );
}

#[test]
fn unexpected_replies_leave_the_scan_where_it_is() {
    match begin(100, 6).advance(ScanReply::SignerScript(vec![])).unwrap() {
        ScanNext::Ask(next) => assert_eq!(next.request(), ScanRequest::PaymentsLength),
        ScanNext::Done(_) => panic!("the scan is not over"),
    }
}
