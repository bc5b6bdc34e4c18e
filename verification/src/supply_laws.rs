//! What the reply to a call of `totalSupply()` is read as, said of its characters.
#[allow(unused_imports)]
use crate::bytes::be_value;
#[allow(unused_imports)]
use crate::error::ErrorView;
#[allow(unused_imports)]
use crate::hexadecimal::{hex_decoded, hex_error_text};
#[allow(unused_imports)]
use crate::json::Json;
#[allow(unused_imports)]
use crate::reading_laws::law_supply_is_the_low_64_bits;
#[allow(unused_imports)]
use crate::supply::supply_reading;
#[allow(unused_imports)]
use crate::text::numeral;
#[allow(unused_imports)]
use crate::text_laws::{
    eight_bytes, law_eight_bytes, law_prefix_is_taken_away, law_spelt_bytes_are_read, spells,
};
use vstd::prelude::*;
use vstd::utf8::*;

verus! {

/// Any 32 bytes in hexadecimal, with `0x` in front or without, are read as their number, as far as 64 bits
/// hold it: as the last eight of them.
pub proof fn law_supply_of_any_32_bytes(text: String, digits: Seq<char>, data: Seq<u8>)
    requires
        data.len() == 32,
        spells(digits, data),
        text@ == seq!['0', 'x'] + digits || text@ == digits,
    ensures
        supply_reading(Json::Text(text)) == Ok::<u64, ErrorView>(eight_bytes(data.skip(24)) as u64),
        eight_bytes(data.skip(24)) == be_value(data) % 0x1_0000_0000_0000_0000,
{
    law_spelt_bytes_are_read(digits, data);
    law_eight_bytes(data.skip(24));
    assert(data.skip(24) =~= data.subrange(24, 32));
    law_supply_is_the_low_64_bits(Json::Text(text), text@, data);
}

/// A reply that is no text has no supply. Neither has one whose text, without `0x` where it begins with it,
/// is not 64 bytes long, which the error says in decimal, or is not hexadecimal.
pub proof fn law_other_replies_have_no_supply(text: String, body: Seq<char>, other: Json)
    requires
        text@ == seq!['0', 'x'] + body || text@ == body && !(body.len() >= 2 && body[0] == '0'
            && body[1] == 'x'),
        !(other is Text),
    ensures
        supply_reading(other) == Err::<u64, ErrorView>(
            ErrorView::RpcError("eth_call result is not a string"@),
        ),
        encode_utf8(body).len() != 64 ==> supply_reading(Json::Text(text)) == Err::<u64, ErrorView>(
            ErrorView::RpcError(
                "Invalid totalSupply response length: expected 64 hex chars, got "@ + numeral(
                    encode_utf8(body).len(),
                    10,
                ),
            ),
        ),
        encode_utf8(body).len() == 64 ==> match hex_decoded(encode_utf8(body)) {
            Ok(_) => supply_reading(Json::Text(text)) is Ok,
            Err(e) => supply_reading(Json::Text(text)) == Err::<u64, ErrorView>(
                ErrorView::RpcError("Failed to decode hex response: "@ + hex_error_text(e)),
            ),
        },
{
    law_prefix_is_taken_away(body);
}

} // verus!
