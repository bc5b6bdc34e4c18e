//! What payments and scripts become: addresses and unwraps, said of single bytes and fields.
#[allow(unused_imports)]
use crate::address::{address_reading, address_text, no_address_error, script_address, Network};
#[allow(unused_imports)]
use crate::error::ErrorView;
#[allow(unused_imports)]
use crate::payment::{unwrap_of, unwraps_of, PaymentView, TxidOrder, UnwrapView};
#[allow(unused_imports)]
use crate::text_laws::{law_bytes_are_written_in_lower_case, small_digits};
use vstd::prelude::*;

verus! {

/// Whether a script is one push behind a version of a witness program, and nothing else.
pub open spec fn pushes_program(script: Seq<u8>) -> bool {
    &&& 4 <= script.len() <= 42
    &&& script[1] + 2 == script.len()
    &&& script[0] == 0 || 0x51 <= script[0] <= 0x60
}

/// Whether a script pays to someone: to the hash of a public key, to the hash of a script, to a program of
/// version 0 of 20 or 32 bytes, or to one of a later version.
pub open spec fn pays_someone(script: Seq<u8>) -> bool {
    ||| script.len() == 25 && script.take(3) == seq![0x76u8, 0xa9, 0x14] && script.skip(23)
        == seq![0x88u8, 0xac]
    ||| script.len() == 23 && script.take(2) == seq![0xa9u8, 0x14] && script[22] == 0x87
    ||| script.len() == 22 && script.take(2) == seq![0u8, 20]
    ||| script.len() == 34 && script.take(2) == seq![0u8, 32]
    ||| pushes_program(script) && script[0] != 0
}

/// A script that pays someone has, on every network, the text of its address on that network, whether it is
/// a signer's or a recipient's. Another has none: for a signer that is an error, for a recipient it is not.
pub proof fn law_addresses_are_those_of_the_network(script: Seq<u8>, network: Network)
    ensures
        pays_someone(script) ==> script_address(script, network) == Some(
            address_text(script, network),
        ) && address_reading(script, network) == Ok::<Seq<char>, ErrorView>(
            address_text(script, network),
        ),
        !pays_someone(script) ==> script_address(script, network) is None && address_reading(
            script,
            network,
        ) == Err::<Seq<char>, ErrorView>(
            ErrorView::AddressResolution(
                "Failed to convert script to address: "@ + if pushes_program(script) {
                    "witness program error"@
                } else {
                    "script is not a p2pkh, p2sh or witness program"@
                },
            ),
        ),
{
    if script.len() >= 3 {
        let front = script.take(3);
        assert(front == seq![0x76u8, 0xa9, 0x14] <==> front[0] == 0x76 && front[1] == 0xa9 && front[2]
            == 0x14) by {
            if front[0] == 0x76 && front[1] == 0xa9 && front[2] == 0x14 {
                assert(front =~= seq![0x76u8, 0xa9, 0x14]);
            }
        }
        let two = script.take(2);
        assert forall|a: u8, b: u8| two == #[trigger] seq![a, b] <==> two[0] == a && two[1] == b by {
            if two[0] == a && two[1] == b {
                assert(two =~= seq![a, b]);
            }
        }
        assert(two == seq![0xa9u8, 0x14] <==> script[0] == 0xa9 && script[1] == 0x14);
        assert(two == seq![0u8, 20] <==> script[0] == 0 && script[1] == 20);
        assert(two == seq![0u8, 32] <==> script[0] == 0 && script[1] == 32);
        if script.len() == 25 {
            let back = script.skip(23);
            if back[0] == 0x88 && back[1] == 0xac {
                assert(back =~= seq![0x88u8, 0xac]);
            }
            assert(back == seq![0x88u8, 0xac] <==> script[23] == 0x88 && script[24] == 0xac);
        }
    }
}

/// Whether a text is made of two lower-case digits for each byte of a transaction id, taken from its first
/// byte on, or from its last one back.
pub open spec fn shows_txid(text: Seq<char>, txid: Seq<u8>, backwards: bool) -> bool {
    &&& text.len() == 2 * txid.len()
    &&& forall|i: int|
        0 <= i < txid.len() ==> {
            let at = if backwards {
                txid.len() - 1 - i
            } else {
                i
            };
            text[2 * at] == small_digits()[(#[trigger] txid[i]) as int / 16] && text[2 * at + 1]
                == small_digits()[txid[i] as int % 16]
        }
}

/// Whether an unwrap shows a payment on a network: its transaction id, output and amount, the address of its
/// recipient where the script has one, and that it has not been paid out.
pub open spec fn shows(u: UnwrapView, p: PaymentView, backwards: bool, network: Network) -> bool {
    &&& shows_txid(u.txid, p.txid, backwards)
    &&& u.vout == p.vout
    &&& u.amount == p.value
    &&& u.address == (if pays_someone(p.recipient) {
        Some(address_text(p.recipient, network))
    } else {
        None
    })
    &&& !u.fulfilled
}

/// The unwrap of a payment shows it: with the transaction id backwards where the payment has it in internal
/// order, and otherwise as it stands.
pub proof fn law_unwraps_show_their_payments(p: PaymentView, network: Network)
    ensures
        shows(unwrap_of(p, TxidOrder::Internal, network), p, true, network),
        shows(unwrap_of(p, TxidOrder::Display, network), p, false, network),
{
    law_addresses_are_those_of_the_network(p.recipient, network);
    let back = p.txid.reverse();
    assert forall|i: int| 0 <= i < p.txid.len() implies {
        let at = p.txid.len() - 1 - i;
        let text = unwrap_of(p, TxidOrder::Internal, network).txid;
        text[2 * at] == small_digits()[(#[trigger] p.txid[i]) as int / 16] && text[2 * at + 1]
            == small_digits()[p.txid[i] as int % 16]
    } by {
        let at = p.txid.len() - 1 - i;
        assert(back[at] == p.txid[i]);
        law_bytes_are_written_in_lower_case(back, at);
    }
    assert forall|i: int| 0 <= i < p.txid.len() implies {
        let text = unwrap_of(p, TxidOrder::Display, network).txid;
        text[2 * i] == small_digits()[(#[trigger] p.txid[i]) as int / 16] && text[2 * i + 1]
            == small_digits()[p.txid[i] as int % 16]
    } by {
        law_bytes_are_written_in_lower_case(p.txid, i);
    }
}

/// There is one unwrap for each payment, in the same order, and each shows its payment.
pub proof fn law_unwraps_show_all_payments(ps: Seq<PaymentView>, network: Network)
    ensures
        unwraps_of(ps, TxidOrder::Internal, network).len() == ps.len(),
        unwraps_of(ps, TxidOrder::Display, network).len() == ps.len(),
        forall|i: int|
            0 <= i < ps.len() ==> shows(
                #[trigger] unwraps_of(ps, TxidOrder::Internal, network)[i],
                ps[i],
                true,
                network,
            ),
        forall|i: int|
            0 <= i < ps.len() ==> shows(
                #[trigger] unwraps_of(ps, TxidOrder::Display, network)[i],
                ps[i],
                false,
                network,
            ),
{
    assert forall|i: int| 0 <= i < ps.len() implies shows(
        #[trigger] unwraps_of(ps, TxidOrder::Internal, network)[i],
        ps[i],
        true,
        network,
    ) by {
        law_unwraps_show_their_payments(ps[i], network);
    }
    assert forall|i: int| 0 <= i < ps.len() implies shows(
        #[trigger] unwraps_of(ps, TxidOrder::Display, network)[i],
        ps[i],
        false,
        network,
    ) by {
        law_unwraps_show_their_payments(ps[i], network);
    }
}

/// The reason that a script has no address is reported behind the same words, whatever it is.
pub proof fn law_reasons_are_reported_whole(reason: Seq<char>)
    ensures
        no_address_error(reason) == ErrorView::AddressResolution(
            "Failed to convert script to address: "@ + reason,
        ),
{
}

} // verus!
