//! What holds of the readings of replies as a whole.
use vstd::arithmetic::power::*;
use vstd::prelude::*;
use vstd::utf8::*;

#[allow(unused_imports)]
use crate::address::{script_address, Network};
#[allow(unused_imports)]
use crate::bytes::{be_value, lemma_be_value_bound, lemma_be_value_concat};
#[allow(unused_imports)]
use crate::error::ErrorView;
#[allow(unused_imports)]
use crate::gas::{estimate_in, gas_limit_of, gas_text, MAX_GAS};
#[allow(unused_imports)]
use crate::hexadecimal::{hex_bytes, hex_decoded, hex_text, is_hex_byte, leading_digits, HexError};
#[allow(unused_imports)]
use crate::json::Json;
#[allow(unused_imports)]
use crate::payment::{shown_txid, unwrap_of, unwraps_of, PaymentView, TxidOrder};
#[allow(unused_imports)]
use crate::supply::supply_reading;
#[allow(unused_imports)]
use crate::text::{digit_char, hex_digit, hex_number, hex_value, numeral, without_0x};
#[allow(unused_imports)]
use crate::utxo::{
    is_dust_at, is_oldest_dust, lemma_oldest_dust_push, lemma_oldest_dust_unique, oldest_dust,
    utxo_height,
};

verus! {

/// A digit stands for the number that it was made of.
proof fn lemma_digit(d: nat)
    requires
        d < 16,
    ensures
        hex_digit(digit_char(d)) == Some(d),
        '\0' <= digit_char(d) <= '\u{7f}',
{
}

/// A text of digits alone begins with as many digits as it has characters.
proof fn lemma_all_digits(text: Seq<u8>)
    ensures
        leading_digits(text) <= text.len(),
        leading_digits(text) == text.len() <==> (forall|i: int|
            0 <= i < text.len() ==> is_hex_byte(#[trigger] text[i])),
    decreases text.len(),
{
    if text.len() > 0 {
        let rest = text.skip(1);
        lemma_all_digits(rest);
        assert(forall|i: int| 0 <= i < rest.len() ==> rest[i] == #[trigger] text[i + 1]);
        if leading_digits(text) == text.len() {
            assert forall|i: int| 0 <= i < text.len() implies is_hex_byte(#[trigger] text[i]) by {
                if i > 0 {
                    assert(is_hex_byte(rest[i - 1]));
                }
            }
        }
        if forall|i: int| 0 <= i < text.len() ==> is_hex_byte(#[trigger] text[i]) {
            assert forall|i: int| 0 <= i < rest.len() implies is_hex_byte(#[trigger] rest[i]) by {
                assert(is_hex_byte(text[i + 1]));
            }
        }
    }
}

/// A text is read as hexadecimal exactly where it has an even number of bytes and all of them are
/// digits.
pub proof fn law_hex_is_read_where_all_are_digits(text: Seq<u8>)
    ensures
        hex_decoded(text) is Ok <==> text.len() % 2 == 0 && (forall|i: int|
            0 <= i < text.len() ==> is_hex_byte(#[trigger] text[i])),
{
    lemma_all_digits(text);
}

/// Bytes written in hexadecimal are read back.
pub proof fn law_hex_is_read_back(data: Seq<u8>)
    ensures
        hex_text(data).len() == 2 * data.len(),
        hex_decoded(encode_utf8(hex_text(data))) == Ok::<Seq<u8>, HexError>(data),
{
    let chars = hex_text(data);
    assert forall|i: int| 0 <= i < chars.len() implies '\0' <= #[trigger] chars[i] <= '\u{7f}' by {
        lemma_digit(data[i / 2] as nat / 16);
        lemma_digit(data[i / 2] as nat % 16);
    }
    is_ascii_chars_encode_utf8(chars);
    let text = encode_utf8(chars);
    assert forall|i: int| 0 <= i < text.len() implies is_hex_byte(#[trigger] text[i]) && text[i] as char
        == chars[i] by {
        lemma_digit(data[i / 2] as nat / 16);
        lemma_digit(data[i / 2] as nat % 16);
        assert(chars[i] as u8 == text[i]);
    }
    lemma_all_digits(text);
    assert forall|i: int| 0 <= i < data.len() implies #[trigger] hex_bytes(text)[i] == data[i] by {
        lemma_digit(data[i] as nat / 16);
        lemma_digit(data[i] as nat % 16);
        assert(text[2 * i] as char == chars[2 * i]);
        assert(text[2 * i + 1] as char == chars[2 * i + 1]);
    }
    assert(hex_bytes(text) =~= data);
}

/// A transaction id that is shown can be read back: as it stands, or backwards where it was in
/// internal order.
pub proof fn law_txid_is_read_back(txid: Seq<u8>)
    ensures
        shown_txid(txid, TxidOrder::Display).len() == 2 * txid.len(),
        shown_txid(txid, TxidOrder::Internal) == shown_txid(txid.reverse(), TxidOrder::Display),
        hex_decoded(encode_utf8(shown_txid(txid, TxidOrder::Display))) == Ok::<Seq<u8>, HexError>(
            txid,
        ),
        hex_decoded(encode_utf8(shown_txid(txid, TxidOrder::Internal))) == Ok::<Seq<u8>, HexError>(
            txid.reverse(),
        ),
{
    law_hex_is_read_back(txid);
    law_hex_is_read_back(txid.reverse());
}

/// A payment in internal byte order stands for the same unwrap as the payment in display order whose
/// transaction id has the same bytes backwards.
pub proof fn law_byte_orders_give_the_same_unwrap(p: PaymentView, network: Network)
    ensures
        unwrap_of(p, TxidOrder::Internal, network) == unwrap_of(
            PaymentView { txid: p.txid.reverse(), ..p },
            TxidOrder::Display,
            network,
        ),
{
}

/// There is one unwrap for each payment, in the same order, with its output and amount, and none is
/// marked as paid out.
pub proof fn law_unwraps_match_payments(
    ps: Seq<PaymentView>,
    order: TxidOrder,
    network: Network,
    i: int,
)
    requires
        0 <= i < ps.len(),
    ensures
        unwraps_of(ps, order, network).len() == ps.len(),
        unwraps_of(ps, order, network)[i].txid == shown_txid(ps[i].txid, order),
        unwraps_of(ps, order, network)[i].vout == ps[i].vout,
        unwraps_of(ps, order, network)[i].amount == ps[i].value,
        unwraps_of(ps, order, network)[i].address == script_address(ps[i].recipient, network),
        !unwraps_of(ps, order, network)[i].fulfilled,
{
}

/// A hexadecimal numeral has the value that it was made of, and begins with a digit.
proof fn lemma_numeral_value(n: nat)
    ensures
        numeral(n, 16).len() > 0,
        hex_value(numeral(n, 16)) == Some(n),
        hex_digit(numeral(n, 16)[0]) is Some,
    decreases n,
{
    if n < 16 {
        lemma_digit(n);
        assert(numeral(n, 16).drop_last() =~= Seq::empty());
        assert(hex_value(Seq::<char>::empty()) == Some(0nat));
    } else {
        lemma_numeral_value(n / 16);
        lemma_digit(n % 16);
        assert(numeral(n, 16).drop_last() =~= numeral(n / 16, 16));
    }
}

/// The gas limit that a call carries is read back as the number that it was made of.
pub proof fn law_gas_is_read_back(gas: u64, reply: Json)
    requires
        reply.text() == Some(gas_text(gas as nat)),
    ensures
        hex_number(without_0x(gas_text(gas as nat))) == Some(gas),
        estimate_in(reply) == gas,
{
    reveal_strlit("0x");
    let digits = numeral(gas as nat, 16);
    lemma_numeral_value(gas as nat);
    assert(without_0x(gas_text(gas as nat)) =~= digits);
}

/// A gas limit never exceeds the maximum, is the maximum without an estimate, never falls short of
/// both the estimate and the maximum, and does not fall when the estimate rises.
pub proof fn law_gas_limit_is_bounded(estimate: u64, higher: u64)
    requires
        estimate <= higher,
    ensures
        gas_limit_of(None) == MAX_GAS,
        gas_limit_of(Some(estimate)) <= MAX_GAS,
        gas_limit_of(Some(estimate)) >= estimate || gas_limit_of(Some(estimate)) == MAX_GAS,
        gas_limit_of(Some(estimate)) <= gas_limit_of(Some(higher)),
{
}

/// The total supply is the number in the reply, as far as 64 bits hold it.
pub proof fn law_supply_is_the_low_64_bits(reply: Json, text: Seq<char>, bytes: Seq<u8>)
    requires
        reply.text() == Some(text),
        hex_decoded(encode_utf8(without_0x(text))) == Ok::<Seq<u8>, HexError>(bytes),
        bytes.len() == 32,
    ensures
        supply_reading(reply) == Ok::<u64, ErrorView>(
            (be_value(bytes) % 0x1_0000_0000_0000_0000) as u64,
        ),
{
    let high = bytes.subrange(0, 24);
    let low = bytes.subrange(24, 32);
    assert(bytes =~= high + low);
    lemma_be_value_concat(high, low);
    lemma_be_value_bound(low);
    assert(pow(256, 8) == 0x1_0000_0000_0000_0000) by {
        reveal_with_fuel(pow, 9);
    }
    vstd::arithmetic::div_mod::lemma_fundamental_div_mod_converse(
        be_value(bytes) as int,
        0x1_0000_0000_0000_0000,
        be_value(high) as int,
        be_value(low) as int,
    );
}

/// Among any outputs there is an oldest dust, or none is dust.
pub proof fn law_oldest_dust_is_the_lowest(utxos: Seq<Json>)
    ensures
        is_oldest_dust(utxos, oldest_dust(utxos)),
    decreases utxos.len(),
{
    if utxos.len() == 0 {
        assert(is_oldest_dust(utxos, None));
    } else {
        let seen = utxos.drop_last();
        let utxo = utxos.last();
        law_oldest_dust_is_the_lowest(seen);
        let before = oldest_dust(seen);
        let after = match utxo_height(utxo) {
            Some(height) if is_dust_at(utxo, height) && (before matches Some(h) ==> height < h) => Some(
                height,
            ),
            _ => before,
        };
        lemma_oldest_dust_push(seen, utxo, before, after);
        assert(seen.push(utxo) =~= utxos);
    }
}

/// The order in which outputs are listed, and how often, does not matter to the oldest dust.
pub proof fn law_oldest_dust_ignores_order(a: Seq<Json>, b: Seq<Json>)
    requires
        forall|utxo: Json| a.contains(utxo) <==> b.contains(utxo),
    ensures
        oldest_dust(a) == oldest_dust(b),
{
    law_oldest_dust_is_the_lowest(a);
    law_oldest_dust_is_the_lowest(b);
    let oldest = oldest_dust(a);
    assert forall|i: int, h: u64| 0 <= i < b.len() && #[trigger] is_dust_at(b[i], h) implies (
    oldest matches Some(height) && height <= h) by {
        assert(b.contains(b[i]));
        let j = choose|j: int| 0 <= j < a.len() && a[j] == b[i];
        assert(is_dust_at(a[j], h));
    }
    if let Some(height) = oldest {
        let i = choose|i: int| 0 <= i < a.len() && is_dust_at(#[trigger] a[i], height);
        assert(a.contains(a[i]));
        let j = choose|j: int| 0 <= j < b.len() && b[j] == a[i];
        assert(is_dust_at(b[j], height));
    }
    assert(is_oldest_dust(b, oldest));
    lemma_oldest_dust_unique(b, oldest, oldest_dust(b));
}

} // verus!
