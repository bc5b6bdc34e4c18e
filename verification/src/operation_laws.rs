//! What the operations give, said of what is put in and what comes out.
#[allow(unused_imports)]
use crate::abi::{
    decoder_gives, parse_abi_encoded_payments, parse_abi_encoded_payments_sol,
    payments_from_decoded, AbiError, AbiErrorView, AbiPayment, AbiPaymentView,
};
#[allow(unused_imports)]
use crate::abi_laws::{
    are_read, is_encodable, law_encodings_are_read_whole, law_every_decoded_payment_is_read,
    payments_encoding, reads_as, reported,
};
#[allow(unused_imports)]
use crate::address::{address_text, recipient_address, script_pubkey_to_address, Network};
#[allow(unused_imports)]
use crate::batch::{
    batch_unwraps_of, is_batch_step, read_batch_reply, BatchNext, BatchProgram, BatchQuery,
    BatchReply, BatchRequest, BatchStage,
};
#[allow(unused_imports)]
use crate::batch_laws::{law_replies_show_encoded_payments, show_decoded};
#[allow(unused_imports)]
use crate::brc20_prog::Brc20ProgUnwrap;
#[allow(unused_imports)]
use crate::error::{result_view, AlkanesError, ErrorView};
#[allow(unused_imports)]
use crate::gas::{gas_limit, read_estimate};
#[allow(unused_imports)]
use crate::json::Json;
#[allow(unused_imports)]
use crate::json_laws::{has_some_value, is_small_at, law_oldest_output_of_546_satoshi};
#[allow(unused_imports)]
use crate::payment::{payment_to_pending_unwrap, Payment, PendingUnwrap, TxidOrder};
#[allow(unused_imports)]
use crate::payment_laws::{
    law_addresses_are_those_of_the_network, law_unwraps_show_all_payments,
    law_unwraps_show_their_payments, pays_someone, shows,
};
#[allow(unused_imports)]
use crate::request_laws::{
    law_calls_carry_what_was_asked, law_estimates_are_hexadecimal,
    law_gas_is_carried_in_hexadecimal, law_gas_limit_is_half_more,
};
#[allow(unused_imports)]
use crate::rpc::{is_eth_request, RpcCall};
#[allow(unused_imports)]
use crate::scan::{scan_step, ScanNext, ScanQuery, ScanReply, ScanRequest, ScanStage};
#[allow(unused_imports)]
use crate::supply::read_total_supply;
#[allow(unused_imports)]
use crate::supply_laws::law_supply_of_any_32_bytes;
#[allow(unused_imports)]
use crate::text::{hex_value, join, numeral, numeral_text, parse_hex_u64, strip_0x};
#[allow(unused_imports)]
use crate::text_laws::{
    eight_bytes, is_any_digit, law_hexadecimal_numbers, law_prefix_is_taken_away, spells,
};
#[allow(unused_imports)]
use crate::utxo::find_oldest_546_sat_utxo;
use vstd::prelude::*;

verus! {

/// Of a text behind `0x`, that text is left, and a text that does not begin with `0x` stays.
pub proof fn law_strip_0x(s: &str, res: &str, body: Seq<char>)
    requires
        call_ensures(strip_0x, (s,), res),
    ensures
        s@ == seq!['0', 'x'] + body ==> res@ == body,
        s@.len() < 2 || s@[0] != '0' || s@[1] != 'x' ==> res@ == s@,
{
    law_prefix_is_taken_away(body);
    law_prefix_is_taken_away(s@);
}

/// The total supply in any 32 bytes of hexadecimal is their last eight.
pub proof fn law_read_total_supply(
    text: String,
    digits: Seq<char>,
    data: Seq<u8>,
    res: Result<u64, AlkanesError>,
)
    requires
        data.len() == 32,
        spells(digits, data),
        text@ == seq!['0', 'x'] + digits || text@ == digits,
        call_ensures(read_total_supply, (&Json::Text(text),), res),
    ensures
        res matches Ok(supply) && supply == eight_bytes(data.skip(24)),
{
    law_supply_of_any_32_bytes(text, digits, data);
    crate::text_laws::law_eight_bytes(data.skip(24));
}

/// An override is asked in place of the network's own contract, by scan and by supply alike: with the one that
/// an instance was made for, with the one that was set last, and with none where it was taken away.
pub proof fn law_override_is_asked(
    address: &str,
    own: &str,
    url: &str,
    made: Brc20ProgUnwrap,
    plain: Brc20ProgUnwrap,
    supply: Result<RpcCall, AlkanesError>,
    usual: Result<RpcCall, AlkanesError>,
)
    requires
        call_ensures(Brc20ProgUnwrap::with_frbtc_address, (address,), made),
        call_ensures(Brc20ProgUnwrap::new, (), plain),
        call_ensures(Brc20ProgUnwrap::get_total_supply, (&made, own, Some(url)), supply),
        call_ensures(Brc20ProgUnwrap::get_total_supply, (&plain, own, Some(url)), usual),
    ensures
        supply matches Ok(call) && asks_supply(call, url@, address@),
        usual matches Ok(call) && asks_supply(call, url@, own@),
{
    law_calls_carry_what_was_asked(
        supply->Ok_0,
        url@,
        "eth_call"@,
        seq![("to"@, address@), ("data"@, "0x18160ddd"@)],
        "latest"@,
    );
    law_calls_carry_what_was_asked(
        usual->Ok_0,
        url@,
        "eth_call"@,
        seq![("to"@, own@), ("data"@, "0x18160ddd"@)],
        "latest"@,
    );
}

/// Whether a call asks a contract for the total supply, in the latest block.
pub open spec fn asks_supply(call: RpcCall, url: Seq<char>, contract: Seq<char>) -> bool {
    &&& call.url@ == url
    &&& call.method@ == "eth_call"@
    &&& call.id == 1
    &&& call.params matches Json::Array(items)
    &&& items@.len() == 2
    &&& items@[0] matches Json::Object(fields)
    &&& fields@.len() == 2
    &&& fields@[0].0@ == "to"@ && (fields@[0].1 matches Json::Text(to) && to@ == contract)
    &&& fields@[1].0@ == "data"@ && (fields@[1].1 matches Json::Text(data) && data@ == "0x18160ddd"@)
    &&& items@[1] matches Json::Text(tag)
    &&& tag@ == "latest"@
}

/// A scan begins with the instance's contract, or the network's own, at the cutoff that leaves the
/// confirmations. Without a URL it does not begin.
pub proof fn law_get_pending_unwraps(
    plain: Brc20ProgUnwrap,
    made: Brc20ProgUnwrap,
    address: &str,
    height: u64,
    confirmations: u64,
    network: Network,
    own: &str,
    url: &str,
    usual: Result<ScanQuery, AlkanesError>,
    other: Result<ScanQuery, AlkanesError>,
    none: Result<ScanQuery, AlkanesError>,
)
    requires
        call_ensures(Brc20ProgUnwrap::new, (), plain),
        call_ensures(Brc20ProgUnwrap::with_frbtc_address, (address,), made),
        call_ensures(
            Brc20ProgUnwrap::get_pending_unwraps,
            (&plain, height, confirmations, network, own, Some(url)),
            usual,
        ),
        call_ensures(
            Brc20ProgUnwrap::get_pending_unwraps,
            (&made, height, confirmations, network, own, Some(url)),
            other,
        ),
        call_ensures(
            Brc20ProgUnwrap::get_pending_unwraps,
            (&made, height, confirmations, network, own, None::<&str>),
            none,
        ),
    ensures
        usual matches Ok(q) && q.contract@ == own@ && q.rpc_url@ == url@ && q.network == network
            && q.cutoff_height == (if confirmations <= height {
            height - confirmations
        } else {
            0
        }) && q.stage is PaymentsLength,
        other matches Ok(q) && q.contract@ == address@ && q.rpc_url@ == url@ && q.network == network
            && q.cutoff_height == (if confirmations <= height {
            height - confirmations
        } else {
            0
        }) && q.stage is PaymentsLength,
        none matches Err(AlkanesError::Configuration(message)) && message@
            == "brc20_prog_rpc_url not configured"@,
{
}

/// What a scan asks follows from where it is.
pub proof fn law_scan_request(q: ScanQuery, res: ScanRequest)
    requires
        call_ensures(ScanQuery::request, (&q,), res),
    ensures
        match q.stage {
            ScanStage::PaymentsLength => res is PaymentsLength,
            ScanStage::SignerScript { .. } => res is SignerScript,
            ScanStage::AddressUtxos { address, .. } => res matches ScanRequest::AddressUtxos(asked)
                && asked@ == address@,
            ScanStage::Payment { index, .. } => res == ScanRequest::Payment(index),
        },
{
}

/// A scan advances by one step of which the laws of scans speak.
pub proof fn law_scan_advance(q: ScanQuery, reply: ScanReply, res: Result<ScanNext, AlkanesError>)
    requires
        call_ensures(ScanQuery::advance, (q, reply), res),
    ensures
        result_view(res) == scan_step(q@, reply@),
{
}

/// One payment on its way through a scan: above the cutoff it is passed over; at or below the cutoff and below
/// the oldest height it ends the scan with what was found before; and otherwise its unwrap is added to that.
/// The first payment of all ends the scan.
pub proof fn law_scan_takes_a_payment(
    q: ScanQuery,
    index: u64,
    oldest: Option<u64>,
    found: Vec<PendingUnwrap>,
    p: Payment,
    res: Result<ScanNext, AlkanesError>,
)
    requires
        q.stage == (ScanStage::Payment { index, oldest, found }),
        call_ensures(ScanQuery::advance, (q, ScanReply::Payment(p)), res),
    ensures
        ({
            let too_new = p.height > q.cutoff_height;
            let too_old = oldest matches Some(height) && p.height < height;
            res matches Ok(next) && match next {
                ScanNext::Ask(then) => {
                    &&& too_new || !too_old
                    &&& index > 0
                    &&& then.stage matches ScanStage::Payment { index: at, oldest: low, found: now }
                    &&& at == index - 1 && low == oldest
                    &&& grows(found, now, p, !too_new, q.network)
                    &&& then.contract@ == q.contract@ && then.rpc_url@ == q.rpc_url@
                    &&& then.network == q.network && then.cutoff_height == q.cutoff_height
                },
                ScanNext::Done(now) => {
                    &&& !too_new && too_old || index == 0
                    &&& grows(found, now, p, !too_new && !too_old, q.network)
                },
            }
        }),
{
    law_unwraps_show_their_payments(p@, q.network);
    assert(found.deep_view().len() == found@.len());
    match res->Ok_0 {
        ScanNext::Ask(then) => {
            let now = then.stage->Payment_found;
            assert(now.deep_view().len() == now@.len());
            lemma_grows(found, now, p, !(p.height > q.cutoff_height), q.network);
        },
        ScanNext::Done(now) => {
            assert(now.deep_view().len() == now@.len());
            lemma_grows(
                found,
                now,
                p,
                !(p.height > q.cutoff_height) && !(oldest matches Some(height) && p.height < height),
                q.network,
            );
        },
    }
}

/// Whether a list has grown by the unwrap of a payment, or has not changed.
pub open spec fn grows(
    before: Vec<PendingUnwrap>,
    after: Vec<PendingUnwrap>,
    p: Payment,
    added: bool,
    network: Network,
) -> bool {
    &&& after@.len() == before@.len() + if added { 1int } else { 0int }
    &&& forall|i: int| 0 <= i < before@.len() ==> (#[trigger] after@[i])@ == before@[i]@
    &&& added ==> shows(after@.last()@, p@, true, network)
}

/// A list grows as its view does.
proof fn lemma_grows(
    before: Vec<PendingUnwrap>,
    after: Vec<PendingUnwrap>,
    p: Payment,
    added: bool,
    network: Network,
)
    requires
        after.deep_view() == (if added {
            before.deep_view().push(crate::payment::unwrap_of(p@, TxidOrder::Internal, network))
        } else {
            before.deep_view()
        }),
    ensures
        grows(before, after, p, added, network),
{
    law_unwraps_show_their_payments(p@, network);
    assert(after.deep_view().len() == after@.len());
    assert(before.deep_view().len() == before@.len());
    assert forall|i: int| 0 <= i < before@.len() implies (#[trigger] after@[i])@ == before@[i]@ by {
        assert(after.deep_view()[i] == before.deep_view()[i]);
    }
    if added {
        assert(after.deep_view().last() == after@.last()@);
    }
}

/// The unwrap of a payment shows it on the network that was given. Its address is the one that the script alone
/// is turned into there, and it has none where that fails.
pub proof fn law_payment_to_pending_unwrap(
    p: Payment,
    script: &[u8],
    network: Network,
    res: Result<PendingUnwrap, AlkanesError>,
    resolved: Result<String, AlkanesError>,
    recipient: Option<String>,
)
    requires
        script@ == p.recipient@,
        call_ensures(payment_to_pending_unwrap, (p, network), res),
        call_ensures(script_pubkey_to_address, (script, network), resolved),
        call_ensures(recipient_address, (script, network), recipient),
    ensures
        res matches Ok(u) && shows(u@, p@, true, network) && match resolved {
            Ok(text) => pays_someone(script@) && text@ == address_text(script@, network) && (
            u.address matches Some(address) && address@ == text@) && (recipient matches Some(address)
                && address@ == text@),
            Err(_) => !pays_someone(script@) && u.address is None && recipient is None,
        },
{
    law_unwraps_show_their_payments(p@, network);
    law_addresses_are_those_of_the_network(script@, network);
}

/// From a list of outputs the lowest height is found at which one of at most 546 satoshi was mined.
pub proof fn law_find_oldest_546_sat_utxo(list: Json, res: Result<Option<u64>, AlkanesError>)
    requires
        call_ensures(find_oldest_546_sat_utxo, (&list,), res),
    ensures
        match res {
            Ok(oldest) => {
                &&& list matches Json::Array(utxos)
                &&& forall|i: int| 0 <= i < utxos@.len() ==> has_some_value(#[trigger] utxos@[i])
                &&& oldest matches Some(height) ==> exists|i: int|
                    0 <= i < utxos@.len() && is_small_at(#[trigger] utxos@[i], height)
                &&& forall|i: int, h: u64|
                    0 <= i < utxos@.len() && #[trigger] is_small_at(utxos@[i], h) ==> (
                    oldest matches Some(height) && height <= h)
            },
            Err(_) => list matches Json::Array(utxos) ==> exists|i: int|
                0 <= i < utxos@.len() && !has_some_value(#[trigger] utxos@[i]),
        },
{
    law_oldest_output_of_546_satoshi(list);
}

/// As many payments as were decoded are read, each with what was decoded, and an error is reported.
pub proof fn law_payments_from_decoded(
    outcome: Result<Vec<AbiPayment>, AbiError>,
    res: Result<Vec<Payment>, AlkanesError>,
)
    requires
        call_ensures(payments_from_decoded, (outcome,), res),
    ensures
        match outcome {
            Ok(ps) => res matches Ok(read) && read@.len() == ps@.len() && forall|i: int|
                0 <= i < ps@.len() ==> reads_as(ps@[i]@, (#[trigger] read@[i])@),
            Err(_) => res is Err,
        },
{
    if let Ok(ps) = outcome {
        law_every_decoded_payment_is_read(ps.deep_view(), AbiErrorView::Overrun);
        let read = res->Ok_0;
        assert(read.deep_view().len() == read@.len());
        assert forall|i: int| 0 <= i < ps@.len() implies reads_as(ps@[i]@, (#[trigger] read@[i])@) by {
            assert(read.deep_view()[i] == read@[i]@);
            assert(ps.deep_view()[i] == ps@[i]@);
        }
    } else {
        law_every_decoded_payment_is_read(Seq::empty(), outcome->Err_0@);
    }
}

/// The encoding of payments is read as all of them: by the reader of generated bytecode backwards, by that of the
/// compiled contract forwards. Either fails only where the decoder itself gave up on these very bytes, with its
/// words.
pub proof fn law_parse_abi_encoded_payments(
    ps: Seq<AbiPaymentView>,
    bytes: &[u8],
    backwards: Result<Vec<Payment>, AlkanesError>,
    forwards: Result<Vec<Payment>, AlkanesError>,
)
    requires
        bytes@ == payments_encoding(ps),
        bytes@.len() <= usize::MAX,
        forall|i: int| 0 <= i < ps.len() ==> is_encodable(#[trigger] ps[i]),
        call_ensures(parse_abi_encoded_payments, (bytes,), backwards),
        call_ensures(parse_abi_encoded_payments_sol, (bytes,), forwards),
    ensures
        match backwards {
            Ok(read) => are_read(BatchProgram::Asm, ps, read.deep_view()),
            Err(e) => exists|words: Seq<char>| #[trigger]
                decoder_gives(bytes@, Err(AbiErrorView::Other(words))) && e@ == ErrorView::RpcError(
                    "Alloy decode failed: "@ + words,
                ),
        },
        match forwards {
            Ok(read) => are_read(BatchProgram::Sol, ps, read.deep_view()),
            Err(e) => exists|words: Seq<char>| #[trigger]
                decoder_gives(bytes@, Err(AbiErrorView::Other(words))) && e@ == ErrorView::RpcError(
                    "Failed to decode Payment[] ABI from Solidity: "@ + ("RPC error: "@ + (
                    "Alloy decode failed: "@ + words)),
                ),
        },
{
    law_encodings_are_read_whole(ps, BatchProgram::Asm, result_view(backwards));
    law_encodings_are_read_whole(ps, BatchProgram::Sol, result_view(forwards));
    if let Err(e) = backwards {
        let words = choose|words: Seq<char>| #[trigger]
            decoder_gives(bytes@, Err(AbiErrorView::Other(words))) && e@ == reported(
                BatchProgram::Asm,
                AbiErrorView::Other(words),
            );
        assert(decoder_gives(bytes@, Err(AbiErrorView::Other(words))));
    }
    if let Err(e) = forwards {
        let words = choose|words: Seq<char>| #[trigger]
            decoder_gives(bytes@, Err(AbiErrorView::Other(words))) && e@ == reported(
                BatchProgram::Sol,
                AbiErrorView::Other(words),
            );
        assert(decoder_gives(bytes@, Err(AbiErrorView::Other(words))));
    }
}

/// A reply that spells the encoding of payments is read as the unwraps of all of them, unless the decoder itself
/// gave up.
pub proof fn law_read_batch_reply(
    program: BatchProgram,
    network: Network,
    text: String,
    digits: Seq<char>,
    ps: Seq<AbiPaymentView>,
    res: Result<Vec<PendingUnwrap>, AlkanesError>,
)
    requires
        payments_encoding(ps).len() <= usize::MAX,
        forall|i: int| 0 <= i < ps.len() ==> is_encodable(#[trigger] ps[i]),
        spells(digits, payments_encoding(ps)),
        text@ == seq!['0', 'x'] + digits || text@ == digits,
        call_ensures(read_batch_reply, (program, network, &Json::Text(text)), res),
    ensures
        match res {
            Ok(unwraps) => show_decoded(program, ps, unwraps.deep_view(), network),
            Err(e) => ps.len() > 0 && exists|words: Seq<char>| #[trigger]
                decoder_gives(payments_encoding(ps), Err(AbiErrorView::Other(words))) && e@
                    == reported(program, AbiErrorView::Other(words)),
        },
{
    law_replies_show_encoded_payments(program, network, text, digits, ps, result_view(res));
}

/// What a query that runs a program asks follows from where it is.
pub proof fn law_batch_request(q: BatchQuery, res: BatchRequest)
    requires
        call_ensures(BatchQuery::request, (&q,), res),
    ensures
        match q.stage {
            BatchStage::SignerScript => res is SignerScript,
            BatchStage::AddressUtxos { address } => res matches BatchRequest::AddressUtxos(asked)
                && asked@ == address@,
            BatchStage::Bytecode { oldest: low } => res matches BatchRequest::Bytecode { cutoff, oldest }
                && cutoff == q.cutoff_height && oldest == low,
            BatchStage::GasEstimate { bytecode } => res matches BatchRequest::GasEstimate(call)
                && is_eth_request(
                call,
                q.rpc_url@,
                "eth_estimateGas"@,
                seq![("data"@, bytecode@)],
                q.block_tag@,
            ),
            BatchStage::Call { bytecode, gas } => res matches BatchRequest::Call(call)
                && is_eth_request(
                call,
                q.rpc_url@,
                "eth_call"@,
                seq![("data"@, bytecode@), ("gas"@, gas@)],
                q.block_tag@,
            ),
        },
{
}

/// A query that runs a program advances by one step of which the laws of such queries speak.
pub proof fn law_batch_advance(q: BatchQuery, reply: BatchReply, res: Result<BatchNext, AlkanesError>)
    requires
        call_ensures(BatchQuery::advance, (q, reply), res),
    ensures
        is_batch_step(q@, reply@, result_view(res)),
{
}

/// Either program's query begins with the contract that was given, or the network's own, at the cutoff that leaves
/// the confirmations, in the block that was given, or the latest.
pub proof fn law_get_pending_unwraps_experimental(
    unwrap: Brc20ProgUnwrap,
    height: u64,
    confirmations: u64,
    network: Network,
    own: &str,
    url: &str,
    contract: Option<&str>,
    tag: Option<&str>,
    generated: Result<BatchQuery, AlkanesError>,
    compiled: Result<BatchQuery, AlkanesError>,
)
    requires
        call_ensures(
            Brc20ProgUnwrap::get_pending_unwraps_experimental_asm,
            (&unwrap, height, confirmations, network, own, Some(url), contract, tag),
            generated,
        ),
        call_ensures(
            Brc20ProgUnwrap::get_pending_unwraps_experimental_sol,
            (&unwrap, height, confirmations, network, own, Some(url), contract, tag),
            compiled,
        ),
    ensures
        generated matches Ok(q) && q.program == BatchProgram::Asm && begins(
            q,
            height,
            confirmations,
            network,
            own,
            url,
            contract,
            tag,
        ),
        compiled matches Ok(q) && q.program == BatchProgram::Sol && begins(
            q,
            height,
            confirmations,
            network,
            own,
            url,
            contract,
            tag,
        ),
{
}

/// Whether a query has just begun with these settings.
pub open spec fn begins(
    q: BatchQuery,
    height: u64,
    confirmations: u64,
    network: Network,
    own: &str,
    url: &str,
    contract: Option<&str>,
    tag: Option<&str>,
) -> bool {
    &&& q.rpc_url@ == url@
    &&& q.contract@ == (match contract {
        Some(address) => address@,
        None => own@,
    })
    &&& q.network == network
    &&& q.cutoff_height == (if confirmations <= height {
        height - confirmations
    } else {
        0
    })
    &&& q.block_tag@ == (match tag {
        Some(tag) => tag@,
        None => "latest"@,
    })
    &&& q.stage is SignerScript
}

/// The gas limit of an estimate in hexadecimal digits: half more of it, rounded down, and at most 83,886,080.
pub proof fn law_gas_limit(
    text: String,
    digits: Seq<char>,
    gas: u64,
    limit: String,
    none: String,
)
    requires
        digits.len() > 0,
        forall|i: int| 0 <= i < digits.len() ==> is_any_digit(#[trigger] digits[i]),
        hex_value(digits)->0 < 0x1_0000_0000_0000_0000,
        text@ == digits || text@ == seq!['0', 'x'] + digits,
        call_ensures(read_estimate, (&Json::Text(text),), gas),
        call_ensures(gas_limit, (Some(gas),), limit),
        call_ensures(gas_limit, (None::<u64>,), none),
    ensures
        gas == hex_value(digits)->0,
        limit@ == seq!['0', 'x'] + numeral(
            if gas <= 55_924_053 {
                (3 * gas / 2) as nat
            } else {
                83_886_080
            },
            16,
        ),
        none@ == seq!['0', 'x'] + numeral(83_886_080, 16),
{
    law_estimates_are_hexadecimal(text, digits, Json::Null);
    law_gas_limit_is_half_more(gas);
    law_gas_is_carried_in_hexadecimal(crate::gas::gas_limit_of(Some(gas)));
    law_gas_is_carried_in_hexadecimal(crate::gas::gas_limit_of(None));
}

/// Numbers are written and read as numerals, and texts are joined whole.
pub proof fn law_texts_of_numbers(
    n: u64,
    base: u64,
    written: String,
    digits: &str,
    read: Option<u64>,
    a: &str,
    b: &str,
    joined: String,
)
    requires
        2 <= base <= 16,
        digits@.len() > 0,
        digits@[0] != '+',
        call_ensures(numeral_text, (n, base), written),
        call_ensures(parse_hex_u64, (digits,), read),
        call_ensures(join, (a, b), joined),
    ensures
        written@ == numeral(n as nat, base as nat),
        read == (match hex_value(digits@) {
            Some(v) if v < 0x1_0000_0000_0000_0000 => Some(v as u64),
            _ => None,
        }),
        joined@ == a@ + b@,
{
    law_hexadecimal_numbers(digits@);
}

/// A query goes on with the signer's address, for whatever it is, or fails with the error, whatever that is.
pub proof fn law_signer_resolved(
    scan: ScanQuery,
    batch: BatchQuery,
    last: u64,
    address: String,
    e: AlkanesError,
    scanned: Result<ScanNext, AlkanesError>,
    unscanned: Result<ScanNext, AlkanesError>,
    run: Result<BatchNext, AlkanesError>,
    unrun: Result<BatchNext, AlkanesError>,
)
    requires
        call_ensures(
            ScanQuery::signer_resolved,
            (scan, last, Ok::<String, AlkanesError>(address)),
            scanned,
        ),
        call_ensures(
            ScanQuery::signer_resolved,
            (scan, last, Err::<String, AlkanesError>(e)),
            unscanned,
        ),
        call_ensures(BatchQuery::signer_resolved, (batch, Ok::<String, AlkanesError>(address)), run),
        call_ensures(BatchQuery::signer_resolved, (batch, Err::<String, AlkanesError>(e)), unrun),
    ensures
        scanned matches Ok(ScanNext::Ask(next)) && next.rpc_url@ == scan.rpc_url@ && next.contract@
            == scan.contract@ && next.network == scan.network && next.cutoff_height
            == scan.cutoff_height && (next.stage matches ScanStage::AddressUtxos {
            last: kept,
            address: asked,
        } && kept == last && asked@ == address@),
        unscanned matches Err(failed) && failed@ == e@,
        run matches Ok(BatchNext::Ask(next)) && next.program == batch.program && next.rpc_url@
            == batch.rpc_url@ && next.contract@ == batch.contract@ && next.network == batch.network
            && next.cutoff_height == batch.cutoff_height && next.block_tag@ == batch.block_tag@ && (
        next.stage matches BatchStage::AddressUtxos { address: asked } && asked@ == address@),
        unrun matches Err(failed) && failed@ == e@,
{
}

/// Payments of a program become as many unwraps, in the same order, with transaction ids as they stand; an error
/// stays what it is.
pub proof fn law_batch_unwraps_of(
    ps: Vec<Payment>,
    e: AlkanesError,
    network: Network,
    res: Result<Vec<PendingUnwrap>, AlkanesError>,
    failed: Result<Vec<PendingUnwrap>, AlkanesError>,
)
    requires
        call_ensures(batch_unwraps_of, (Ok::<Vec<Payment>, AlkanesError>(ps), network), res),
        call_ensures(batch_unwraps_of, (Err::<Vec<Payment>, AlkanesError>(e), network), failed),
    ensures
        res matches Ok(unwraps) && unwraps@.len() == ps@.len() && forall|i: int|
            0 <= i < ps@.len() ==> shows((#[trigger] unwraps@[i])@, ps@[i]@, false, network),
        failed matches Err(error) && error@ == e@,
{
    law_unwraps_show_all_payments(ps.deep_view(), network);
    let unwraps = res->Ok_0;
    assert(unwraps.deep_view().len() == unwraps@.len());
    assert forall|i: int| 0 <= i < ps@.len() implies shows(
        (#[trigger] unwraps@[i])@,
        ps@[i]@,
        false,
        network,
    ) by {
        assert(unwraps.deep_view()[i] == unwraps@[i]@);
        assert(ps.deep_view()[i] == ps@[i]@);
    }
}

} // verus!
