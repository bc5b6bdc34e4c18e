//! What is asked: the block, the contract, the calls and their gas, said of plain values.
#[allow(unused_imports)]
use crate::batch::estimate_of;
#[allow(unused_imports)]
use crate::brc20_prog::{given_or, no_url_error, text_of};
#[allow(unused_imports)]
use crate::error::{error_text, ErrorView};
#[allow(unused_imports)]
use crate::gas::{estimate_in, gas_limit_of, gas_text};
#[allow(unused_imports)]
use crate::json::Json;
#[allow(unused_imports)]
use crate::rpc::{is_eth_request, RpcCall};
#[allow(unused_imports)]
use crate::scan::cutoff_of;
#[allow(unused_imports)]
use crate::supply::total_supply_selector;
#[allow(unused_imports)]
use crate::text::{hex_number, hex_value, numeral};
#[allow(unused_imports)]
use crate::text_laws::{
    is_any_digit, is_digit, law_digits_are_those_of_the_table, law_hexadecimal_numbers,
    law_hexadecimal_value, law_prefix_is_taken_away,
};
use vstd::prelude::*;

verus! {

/// The cutoff and the confirmations make up the height of the chain. On a shorter chain the cutoff is
/// zero.
pub proof fn law_cutoff_leaves_the_confirmations(current_height: u64, confirmations_required: u64)
    ensures
        confirmations_required <= current_height ==> cutoff_of(
            current_height,
            confirmations_required,
        ) + confirmations_required == current_height,
        confirmations_required > current_height ==> cutoff_of(
            current_height,
            confirmations_required,
        ) == 0,
{
}

/// What is given goes before what is usual.
pub proof fn law_given_goes_before_usual(given: &str, usual: Seq<char>)
    ensures
        given_or(Some(given@), usual) == given@,
        given_or(None, usual) == usual,
        text_of(Some(given)) == Some(given@),
        text_of(None) is None,
        no_url_error() == ErrorView::Configuration("brc20_prog_rpc_url not configured"@),
        total_supply_selector() == "0x18160ddd"@,
{
}

/// Errors are shown behind the words for their kind.
pub proof fn law_errors_are_shown_whole(message: Seq<char>)
    ensures
        error_text(ErrorView::Configuration(message)) == "Configuration error: "@ + message,
        error_text(ErrorView::RpcError(message)) == "RPC error: "@ + message,
        error_text(ErrorView::AddressResolution(message)) == "Address resolution error: "@ + message,
{
}

/// A call goes to its URL with its method and the number 1. Its parameters are two: an object with just
/// the members that were asked for, each under its own name and in their order, and the block.
pub proof fn law_calls_carry_what_was_asked(
    call: RpcCall,
    url: Seq<char>,
    method: Seq<char>,
    members: Seq<(Seq<char>, Seq<char>)>,
    block_tag: Seq<char>,
)
    requires
        is_eth_request(call, url, method, members, block_tag),
    ensures
        call.url@ == url,
        call.method@ == method,
        call.id == 1,
        call.params matches Json::Array(items) && items@.len() == 2 && (items@[1] matches Json::Text(
            tag,
        ) && tag@ == block_tag) && (items@[0] matches Json::Object(fields) && fields@.len()
            == members.len() && forall|i: int|
            0 <= i < members.len() ==> (#[trigger] fields@[i]).0@ == members[i].0 && (
            fields@[i].1 matches Json::Text(value) && value@ == members[i].1)),
{
}

/// The gas limit is the estimate and half of it again, rounded down, up to 83,886,080. It is that where
/// the half more would exceed it, and without an estimate.
pub proof fn law_gas_limit_is_half_more(gas: u64)
    ensures
        gas <= 55_924_053 ==> 2 * gas_limit_of(Some(gas)) <= 3 * gas < 2 * gas_limit_of(Some(gas)) + 2,
        gas > 55_924_053 ==> gas_limit_of(Some(gas)) == 83_886_080,
        gas_limit_of(None) == 83_886_080,
{
}

/// A gas limit is carried as `0x` and its hexadecimal numeral.
pub proof fn law_gas_is_carried_in_hexadecimal(gas: nat)
    ensures
        gas_text(gas) == seq!['0', 'x'] + numeral(gas, 16),
{
    reveal_strlit("0x");
    assert("0x"@ =~= seq!['0', 'x']);
}

/// An estimate in hexadecimal digits, with `0x` in front or without, is their value where 64 bits hold it,
/// and zero otherwise. A reply that is no text is an estimate of zero, and a call that failed is none.
pub proof fn law_estimates_are_hexadecimal(text: String, digits: Seq<char>, other: Json)
    requires
        digits.len() > 0,
        forall|i: int| 0 <= i < digits.len() ==> is_any_digit(#[trigger] digits[i]),
        text@ == digits || text@ == seq!['0', 'x'] + digits,
        !(other is Text),
    ensures
        estimate_in(Json::Text(text)) == (if hex_value(digits)->0 < 0x1_0000_0000_0000_0000 {
            hex_value(digits)->0
        } else {
            0
        }),
        estimate_in(other) == 0,
        estimate_of(Some(Json::Text(text))) == Some(estimate_in(Json::Text(text))),
        estimate_of(Some(other)) == Some(0u64),
        estimate_of(None) is None,
{
    law_hexadecimal_value(digits, '0', 0);
    law_hexadecimal_numbers(digits);
    law_prefix_is_taken_away(digits);
    assert(is_any_digit(digits[0]));
    let d = choose|d: int| is_digit(digits[0], d);
    law_digits_are_those_of_the_table(digits[0], d as nat);
    if digits.len() > 1 {
        assert(is_any_digit(digits[1]));
        let e = choose|e: int| is_digit(digits[1], e);
        law_digits_are_those_of_the_table(digits[1], e as nat);
    }
}

/// A text whose digits are followed or broken by another character is an estimate of zero.
pub proof fn law_other_estimates_are_zero(text: String, body: Seq<char>, i: int)
    requires
        text@ == seq!['0', 'x'] + body,
        body.len() == 0 || 0 < i < body.len() && !is_any_digit(body[i]),
    ensures
        estimate_in(Json::Text(text)) == 0,
{
    law_prefix_is_taken_away(body);
    law_hexadecimal_numbers(body);
    law_hexadecimal_value(body, '0', 0);
    if body.len() > 0 && body[0] == '+' {
        let rest = body.skip(1);
        assert(body =~= seq!['+'] + rest);
        law_hexadecimal_numbers(rest);
        law_hexadecimal_value(rest, '0', 0);
        assert(rest[i - 1] == body[i]);
    }
}

/// The estimate in a text is the number that stands behind `0x`, or in the whole where it does not begin with it,
/// and zero where that is no number.
pub proof fn law_estimates_stand_behind_the_prefix(text: String, body: Seq<char>)
    requires
        text@ == seq!['0', 'x'] + body || text@ == body && !(body.len() >= 2 && body[0] == '0'
            && body[1] == 'x'),
    ensures
        estimate_in(Json::Text(text)) == (match hex_number(body) {
            Some(gas) => gas,
            None => 0,
        }),
{
    law_prefix_is_taken_away(body);
}

} // verus!
