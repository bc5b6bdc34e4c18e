//! How much gas a call may use.
use crate::json::Json;
use crate::text::{join, numeral_text, parse_hex_u64, strip_0x};
use vstd::prelude::*;

#[allow(unused_imports)]
use crate::text::{hex_number, numeral, without_0x};

verus! {

/// The most gas that a call may use: 83,886,080.
pub const MAX_GAS: u64 = 0x5000000;

/// The estimate in a reply: its text as a hexadecimal number, or zero where it is not one.
pub open spec fn estimate_in(reply: Json) -> u64 {
    match reply.text() {
        Some(text) => match hex_number(without_0x(text)) {
            Some(gas) => gas,
            None => 0,
        },
        None => 0,
    }
}

/// The estimate and half of it again, but no more than [`MAX_GAS`]; and [`MAX_GAS`] without an
/// estimate.
pub open spec fn gas_limit_of(estimate: Option<u64>) -> nat {
    match estimate {
        Some(gas) => if gas * 3 / 2 <= MAX_GAS {
            (gas * 3 / 2) as nat
        } else {
            MAX_GAS as nat
        },
        None => MAX_GAS as nat,
    }
}

/// The gas limit in the form in which a call carries it.
pub open spec fn gas_text(gas: nat) -> Seq<char> {
    "0x"@ + numeral(gas, 16)
}

/// Reads the estimate in a reply.
pub fn read_estimate(reply: &Json) -> (res: u64)
    ensures
        res == estimate_in(*reply),
{
    match reply.as_str() {
        Some(text) => match parse_hex_u64(strip_0x(text)) {
            Some(gas) => gas,
            None => 0,
        },
        None => 0,
    }
}

/// The gas limit for an estimate, or for none.
pub fn gas_limit(estimate: Option<u64>) -> (res: String)
    ensures
        res@ == gas_text(gas_limit_of(estimate)),
{
    let limit: u64 = match estimate {
        Some(gas) => if gas > MAX_GAS {
            MAX_GAS
        } else {
            let with_buffer: u64 = (gas * 3) / 2;
            if with_buffer <= MAX_GAS {
                with_buffer
            } else {
                MAX_GAS
            }
        },
        None => MAX_GAS,
    };
    join("0x", numeral_text(limit, 16).as_str())
}

} // verus!
