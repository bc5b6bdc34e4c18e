use brc20_unwrap::address::Network;
use brc20_unwrap::payment::{
    payment_to_pending_unwrap, pending_unwrap_of, pending_unwrap_to, pending_unwraps_of, Payment,
    PendingUnwrap, TxidOrder,
};

fn counting() -> [u8; 32] {
    let mut txid = [0u8; 32];
    for i in 0..32 {
        txid[i] = i as u8;
    }
    txid
}

const FORWARDS: &str = "000102030405060708090a0b0c0d0e0f101112131415161718191a1b1c1d1e1f";
const BACKWARDS: &str = "1f1e1d1c1b1a191817161514131211100f0e0d0c0b0a09080706050403020100";

fn payment(txid: [u8; 32], recipient: &str) -> Payment {
    Payment { txid, vout: 7, value: 1234, recipient: hex::decode(recipient).unwrap(), height: 99 }
}

#[test]
fn payments_are_shown_backwards() {
    let p = payment(counting(), "0014751e76e8199196d454941c45d1b3a323f1433bd6");
    assert_eq!(
        payment_to_pending_unwrap(p, Network::Bitcoin),
        Ok(PendingUnwrap {
            txid: BACKWARDS.to_string(),
            vout: 7,
            amount: 1234,
            address: Some("bc1qw508d6qejxtdg4y5r3zarvary0c5xw7kv8f3t4".to_string()),
            fulfilled: false,
        })
    );
}

#[test]
fn payments_without_an_address_are_kept() {
    let unwrap = payment_to_pending_unwrap(payment(counting(), "6a"), Network::Bitcoin).unwrap();
    assert_eq!(unwrap.address, None);
    assert_eq!(unwrap.amount, 1234);
}

#[test]
fn display_order_is_kept() {
    let unwrap = pending_unwrap_of(&payment(counting(), ""), TxidOrder::Display, Network::Bitcoin);
    assert_eq!(unwrap.txid, FORWARDS);
    assert_eq!(unwrap.txid.len(), 64);
    assert_eq!(hex::decode(&unwrap.txid).unwrap(), counting().to_vec());
}

#[test]
fn byte_orders_give_the_same_unwrap() {
    let mut backwards = counting();
    backwards.reverse();
    assert_eq!(
        pending_unwrap_of(&payment(counting(), "51"), TxidOrder::Internal, Network::Regtest),
        pending_unwrap_of(&payment(backwards, "51"), TxidOrder::Display, Network::Regtest)
    );
}

#[test]
fn address_is_taken_over() {
    let p = payment(counting(), "");
    let unwrap = pending_unwrap_to(&p, TxidOrder::Display, Some("somewhere".to_string()));
    assert_eq!(unwrap.address, Some("somewhere".to_string()));
    assert_eq!(pending_unwrap_to(&p, TxidOrder::Internal, None).txid, BACKWARDS);
}

#[test]
fn unwraps_match_payments_one_by_one() {
    let mut first = payment(counting(), "");
    first.value = 1;
    let mut second = payment(counting(), "");
    second.vout = 8;
    let unwraps =
        pending_unwraps_of(&vec![first, second], TxidOrder::Display, Network::Bitcoin);
    assert_eq!(unwraps.len(), 2);
    assert_eq!((unwraps[0].amount, unwraps[0].vout), (1, 7));
    assert_eq!((unwraps[1].amount, unwraps[1].vout), (1234, 8));
    assert!(unwraps.iter().all(|unwrap| !unwrap.fulfilled));
    assert!(pending_unwraps_of(&vec![], TxidOrder::Display, Network::Bitcoin).is_empty());
}
