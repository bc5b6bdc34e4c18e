//! The total supply of frBTC.
use crate::bytes::be_u64;
use crate::error::AlkanesError;
use crate::hexadecimal::hex_decode;
use crate::json::Json;
use crate::text::{join, numeral_text, strip_0x};
use vstd::prelude::*;
use vstd::utf8::*;

#[allow(unused_imports)]
use crate::bytes::be_value;
#[allow(unused_imports)]
use crate::error::{result_view, ErrorView};
#[allow(unused_imports)]
use crate::hexadecimal::{hex_decoded, hex_error_text};
#[allow(unused_imports)]
use crate::text::{numeral, without_0x};

verus! {

/// The selector of `totalSupply()`.
pub open spec fn total_supply_selector() -> Seq<char> {
    "0x18160ddd"@
}

/// The total supply in the reply to a call: a number of 32 bytes in hexadecimal, with or without
/// `0x`, of which the last 8 bytes are kept.
pub open spec fn supply_reading(reply: Json) -> Result<u64, ErrorView> {
    match reply.text() {
        Some(text) => {
            let digits = encode_utf8(without_0x(text));
            if digits.len() != 64 {
                Err(
                    ErrorView::RpcError(
                        "Invalid totalSupply response length: expected 64 hex chars, got "@
                            + numeral(digits.len(), 10),
                    ),
                )
            } else {
                match hex_decoded(digits) {
                    Ok(bytes) => Ok(be_value(bytes.subrange(24, 32)) as u64),
                    Err(e) => Err(
                        ErrorView::RpcError(
                            "Failed to decode hex response: "@ + hex_error_text(e),
                        ),
                    ),
                }
            }
        },
        None => Err(ErrorView::RpcError("eth_call result is not a string"@)),
    }
}

/// Reads the total supply in the reply to a call of `totalSupply()`, in satoshi.
pub fn read_total_supply(reply: &Json) -> (res: Result<u64, AlkanesError>)
    ensures
        result_view(res) == supply_reading(*reply),
{
    let text = match reply.as_str() {
        Some(text) => text,
        None => {
            return Err(AlkanesError::RpcError("eth_call result is not a string".to_string()));
        },
    };
    let digits = strip_0x(text);
    let length: usize = digits.as_bytes().len();
    if length != 64 {
        return Err(
            AlkanesError::RpcError(
                join(
                    "Invalid totalSupply response length: expected 64 hex chars, got ",
                    numeral_text(length as u64, 10).as_str(),
                ),
            ),
        );
    }
    match hex_decode(digits) {
        Ok(bytes) => Ok(be_u64(&bytes.as_slice()[24..32])),
        Err(e) => Err(
            AlkanesError::RpcError(join("Failed to decode hex response: ", e.message().as_str())),
        ),
    }
}

} // verus!
