//! Output scripts and their addresses.
use crate::error::AlkanesError;
use crate::text::join;
use vstd::prelude::*;

#[allow(unused_imports)]
use crate::error::{result_view, ErrorView};

verus! {

/// The Bitcoin network that an address belongs to.
#[derive(Debug, Clone, Copy, PartialEq, Eq, Structural)]
pub enum Network {
    Bitcoin,
    Testnet,
    Testnet4,
    Signet,
    Regtest,
}

/// Pay to public key hash: `DUP HASH160 <20 bytes> EQUALVERIFY CHECKSIG`.
pub open spec fn is_p2pkh(script: Seq<u8>) -> bool {
    &&& script.len() == 25
    &&& script[0] == 0x76
    &&& script[1] == 0xa9
    &&& script[2] == 0x14
    &&& script[23] == 0x88
    &&& script[24] == 0xac
}

/// Pay to script hash: `HASH160 <20 bytes> EQUAL`.
pub open spec fn is_p2sh(script: Seq<u8>) -> bool {
    &&& script.len() == 23
    &&& script[0] == 0xa9
    &&& script[1] == 0x14
    &&& script[22] == 0x87
}

/// A witness program: a version from 0 to 16, then one push of 2 to 40 bytes and nothing after it.
pub open spec fn is_witness_program(script: Seq<u8>) -> bool {
    &&& 4 <= script.len() <= 42
    &&& script[0] == 0 || 0x51 <= script[0] <= 0x60
    &&& script[1] == script.len() - 2
}

/// Whether a script has an address: it pays to a public key hash, to a script hash or to a witness
/// program, and a program of version 0 is 20 or 32 bytes long.
pub open spec fn has_address(script: Seq<u8>) -> bool {
    ||| is_p2pkh(script)
    ||| is_p2sh(script)
    ||| is_witness_program(script) && (script[0] == 0 ==> script.len() == 22 || script.len() == 34)
}

/// Why a script without an address has none.
pub open spec fn no_address_reason(script: Seq<u8>) -> Seq<char> {
    if is_witness_program(script) {
        "witness program error"@
    } else {
        "script is not a p2pkh, p2sh or witness program"@
    }
}

/// The text of the address that a script with an address has on a network.
pub uninterp spec fn address_text(script: Seq<u8>, network: Network) -> Seq<char>;

/// The address of a script, if it has one.
pub open spec fn script_address(script: Seq<u8>, network: Network) -> Option<Seq<char>> {
    if has_address(script) {
        Some(address_text(script, network))
    } else {
        None
    }
}

/// The message of the error for a script without an address.
pub open spec fn no_address_error(reason: Seq<char>) -> ErrorView {
    ErrorView::AddressResolution("Failed to convert script to address: "@ + reason)
}

/// The address of a script, or the error for a script without one.
pub open spec fn address_reading(script: Seq<u8>, network: Network) -> Result<Seq<char>, ErrorView> {
    match script_address(script, network) {
        Some(address) => Ok(address),
        None => Err(no_address_error(no_address_reason(script))),
    }
}

/// `bitcoin::Address::from_script`, with the address and the error written out by their `Display`
/// forms. The contract claims for which scripts there is an address, and the text of the error for
/// the others; the text of the address itself it only names.
#[verifier::external_body]
fn address_from_script(script: &[u8], network: Network) -> (res: Result<String, String>)
    ensures
        match res {
            Ok(text) => has_address(script@) && text@ == address_text(script@, network),
            Err(reason) => !has_address(script@) && reason@ == no_address_reason(script@),
        },
{
    let network = match network {
        Network::Bitcoin => bitcoin::Network::Bitcoin,
        Network::Testnet => bitcoin::Network::Testnet,
        Network::Testnet4 => bitcoin::Network::Testnet4,
        Network::Signet => bitcoin::Network::Signet,
        Network::Regtest => bitcoin::Network::Regtest,
    };
    let script = bitcoin::ScriptBuf::from_bytes(script.to_vec());
    match bitcoin::Address::from_script(&script, network) {
        Ok(address) => Ok(address.to_string()),
        Err(e) => Err(e.to_string()),
    }
}

/// Reports a failed conversion as an error of the library.
pub fn resolved_address(outcome: Result<String, String>) -> (res: Result<String, AlkanesError>)
    ensures
        result_view(res) == (match outcome {
            Ok(text) => Ok(text@),
            Err(reason) => Err(no_address_error(reason@)),
        }),
{
    match outcome {
        Ok(text) => Ok(text),
        Err(reason) => Err(
            AlkanesError::AddressResolution(
                join("Failed to convert script to address: ", reason.as_str()),
            ),
        ),
    }
}

/// The address that a script pays to on a network, such as the taproot address of a signer.
pub fn script_pubkey_to_address(script: &[u8], network: Network) -> (res: Result<
    String,
    AlkanesError,
>)
    ensures
        result_view(res) == address_reading(script@, network),
{
    resolved_address(address_from_script(script, network))
}

/// The address that a script pays to on a network, or `None` where it has none.
pub fn recipient_address(script: &[u8], network: Network) -> (res: Option<String>)
    ensures
        match res {
            Some(address) => script_address(script@, network) == Some(address@),
            None => script_address(script@, network) is None,
        },
{
    match address_from_script(script, network) {
        Ok(text) => Some(text),
        Err(_) => None,
    }
}

} // verus!
