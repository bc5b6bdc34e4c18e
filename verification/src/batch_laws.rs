//! What holds of the query that runs a program next to the contract as a whole.
#[allow(unused_imports)]
use crate::abi::{decoder_gives, is_decoding, payments_of, AbiErrorView, AbiPaymentView};
#[allow(unused_imports)]
use crate::abi_laws::{
    are_read, gave_up, is_encodable, law_encoded_payments_are_read_back, law_encodings_are_read_whole,
    law_readers_follow_the_decoder, payments_encoding, program_order, reads_as, reported,
    source_index,
};
#[allow(unused_imports)]
use crate::address::{address_reading, address_text, Network};
#[allow(unused_imports)]
use crate::batch::{
    batch_after_call, batch_at, batch_unwraps, estimate_of, is_batch_reading, is_batch_step,
    is_payments_reading, reply_bytes, BatchNextView, BatchProgram, BatchReplyView, BatchStageView,
    BatchView,
};
#[allow(unused_imports)]
use crate::error::ErrorView;
#[allow(unused_imports)]
use crate::gas::{gas_limit_of, gas_text};
#[allow(unused_imports)]
use crate::hexadecimal::{hex_decoded, hex_error_text, hex_text, HexError};
#[allow(unused_imports)]
use crate::json::Json;
#[allow(unused_imports)]
use crate::payment::{unwraps_of, PaymentView, TxidOrder, UnwrapView};
#[allow(unused_imports)]
use crate::reading_laws::law_hex_is_read_back;
#[allow(unused_imports)]
use crate::payment_laws::{law_unwraps_show_all_payments, pays_someone, shows, shows_txid};
#[allow(unused_imports)]
use crate::request_laws::law_gas_is_carried_in_hexadecimal;
#[allow(unused_imports)]
use crate::text::{numeral, without_0x};
#[allow(unused_imports)]
use crate::text_laws::{law_prefix_is_taken_away, law_spelt_bytes_are_read, spells};
#[allow(unused_imports)]
use crate::utxo::oldest_dust_reading;
use vstd::prelude::*;
use vstd::utf8::*;

verus! {

/// What a query can learn: the signer's output script, the signer's outputs, the bytecode for a cutoff
/// and an oldest height, the reply to estimating a bytecode's gas, and the reply to running it with so
/// much gas.
pub struct BatchWorld {
    pub script: Seq<u8>,
    pub utxos: Json,
    pub bytecode: spec_fn(u64, u64) -> Seq<char>,
    pub estimate: spec_fn(Seq<char>) -> Option<Json>,
    pub run: spec_fn(Seq<char>, Seq<char>) -> Json,
}

/// The true reply to what a query waits for.
pub open spec fn true_batch_reply(world: BatchWorld, q: BatchView) -> BatchReplyView {
    match q.stage {
        BatchStageView::SignerScript => BatchReplyView::SignerScript(world.script),
        BatchStageView::AddressUtxos { .. } => BatchReplyView::AddressUtxos(world.utxos),
        BatchStageView::Bytecode { oldest } => BatchReplyView::Bytecode(
            (world.bytecode)(q.cutoff_height, oldest),
        ),
        BatchStageView::GasEstimate { bytecode } => BatchReplyView::GasEstimate(
            (world.estimate)(bytecode),
        ),
        BatchStageView::Call { bytecode, gas } => BatchReplyView::Call((world.run)(bytecode, gas)),
    }
}

/// How many replies a stage is from the end of the query, at most.
pub open spec fn batch_replies_left(stage: BatchStageView) -> nat {
    match stage {
        BatchStageView::SignerScript => 5,
        BatchStageView::AddressUtxos { .. } => 4,
        BatchStageView::Bytecode { .. } => 3,
        BatchStageView::GasEstimate { .. } => 2,
        BatchStageView::Call { .. } => 1,
    }
}

/// Whether a query can end with `res` when every reply is true.
pub open spec fn is_batch_run(
    q: BatchView,
    world: BatchWorld,
    res: Result<Seq<UnwrapView>, ErrorView>,
) -> bool
    decreases batch_replies_left(q.stage),
{
    exists|step: Result<BatchNextView, ErrorView>|
        {
            &&& #[trigger] is_batch_step(q, true_batch_reply(world, q), step)
            &&& match step {
                Ok(BatchNextView::Ask(next)) => batch_replies_left(next.stage)
                    < batch_replies_left(q.stage) && is_batch_run(next, world, res),
                Ok(BatchNextView::Done(unwraps)) => res == Ok::<Seq<UnwrapView>, ErrorView>(unwraps),
                Err(e) => res == Err::<Seq<UnwrapView>, ErrorView>(e),
            }
        }
}

/// A step that can only go on to one stage leaves what the query can end with as it is.
proof fn lemma_run_goes_on(
    q: BatchView,
    world: BatchWorld,
    stage: BatchStageView,
    res: Result<Seq<UnwrapView>, ErrorView>,
)
    requires
        batch_replies_left(stage) < batch_replies_left(q.stage),
        forall|step: Result<BatchNextView, ErrorView>| #[trigger]
            is_batch_step(q, true_batch_reply(world, q), step) <==> step == Ok::<
                BatchNextView,
                ErrorView,
            >(batch_at(q, stage)),
    ensures
        is_batch_run(q, world, res) == is_batch_run(BatchView { stage, ..q }, world, res),
{
    let step = Ok::<BatchNextView, ErrorView>(batch_at(q, stage));
    assert(is_batch_step(q, true_batch_reply(world, q), step));
}

/// A step that can only fail ends the query with its error.
proof fn lemma_run_fails(
    q: BatchView,
    world: BatchWorld,
    e: ErrorView,
    res: Result<Seq<UnwrapView>, ErrorView>,
)
    requires
        forall|step: Result<BatchNextView, ErrorView>| #[trigger]
            is_batch_step(q, true_batch_reply(world, q), step) <==> step == Err::<
                BatchNextView,
                ErrorView,
            >(e),
    ensures
        is_batch_run(q, world, res) == (res == Err::<Seq<UnwrapView>, ErrorView>(e)),
{
    let step = Err::<BatchNextView, ErrorView>(e);
    assert(is_batch_step(q, true_batch_reply(world, q), step));
}

/// The last step ends the query with what the reply can be read as.
proof fn lemma_run_ends(q: BatchView, world: BatchWorld, res: Result<Seq<UnwrapView>, ErrorView>)
    requires
        q.stage is Call,
    ensures
        is_batch_run(q, world, res) == is_batch_reading(
            q.program,
            q.network,
            (world.run)(q.stage->Call_bytecode, q.stage->gas),
            res,
        ),
{
    let reply = (world.run)(q.stage->Call_bytecode, q.stage->gas);
    if is_batch_reading(q.program, q.network, reply, res) {
        let step = batch_after_call(res);
        assert(is_batch_step(q, true_batch_reply(world, q), step));
    }
    if is_batch_run(q, world, res) {
        let step = choose|step: Result<BatchNextView, ErrorView>|
            {
                &&& #[trigger] is_batch_step(q, true_batch_reply(world, q), step)
                &&& match step {
                    Ok(BatchNextView::Ask(next)) => batch_replies_left(next.stage)
                        < batch_replies_left(q.stage) && is_batch_run(next, world, res),
                    Ok(BatchNextView::Done(unwraps)) => res == Ok::<Seq<UnwrapView>, ErrorView>(
                        unwraps,
                    ),
                    Err(e) => res == Err::<Seq<UnwrapView>, ErrorView>(e),
                }
            };
        let unwraps = choose|unwraps: Result<Seq<UnwrapView>, ErrorView>| #[trigger]
            is_batch_reading(q.program, q.network, reply, unwraps) && step == batch_after_call(
                unwraps,
            );
        assert(res == unwraps);
    }
}

/// The height of the oldest dust that a program is given.
pub open spec fn oldest_or_zero(oldest: Option<u64>) -> u64 {
    match oldest {
        Some(height) => height,
        None => 0,
    }
}

/// A query whose replies are true fails where the signer's script has no address or the outputs cannot
/// be read. Otherwise it ends with what the reply can be read as to running the bytecode for the cutoff
/// and the oldest dust, or zero without dust, with the gas limit for the estimate of that bytecode.
pub proof fn law_batch_reads_what_the_program_replies(
    q: BatchView,
    world: BatchWorld,
    res: Result<Seq<UnwrapView>, ErrorView>,
)
    requires
        q.stage is SignerScript,
    ensures
        is_batch_run(q, world, res) == (match address_reading(world.script, q.network) {
            Ok(_) => match oldest_dust_reading(world.utxos) {
                Ok(oldest) => {
                    let bytecode = (world.bytecode)(q.cutoff_height, oldest_or_zero(oldest));
                    let gas = gas_text(gas_limit_of(estimate_of((world.estimate)(bytecode))));
                    is_batch_reading(q.program, q.network, (world.run)(bytecode, gas), res)
                },
                Err(e) => res == Err::<Seq<UnwrapView>, ErrorView>(e),
            },
            Err(e) => res == Err::<Seq<UnwrapView>, ErrorView>(e),
        }),
{
    match address_reading(world.script, q.network) {
        Ok(address) => {
            let stage = BatchStageView::AddressUtxos { address };
            let utxos = BatchView { stage, ..q };
            lemma_run_goes_on(q, world, stage, res);
            match oldest_dust_reading(world.utxos) {
                Ok(oldest) => {
                    let height = oldest_or_zero(oldest);
                    let stage = BatchStageView::Bytecode { oldest: height };
                    let program = BatchView { stage, ..q };
                    lemma_run_goes_on(utxos, world, stage, res);
                    let bytecode = (world.bytecode)(q.cutoff_height, height);
                    let stage = BatchStageView::GasEstimate { bytecode };
                    let estimate = BatchView { stage, ..q };
                    lemma_run_goes_on(program, world, stage, res);
                    let gas = gas_text(gas_limit_of(estimate_of((world.estimate)(bytecode))));
                    let stage = BatchStageView::Call { bytecode, gas };
                    let call = BatchView { stage, ..q };
                    lemma_run_goes_on(estimate, world, stage, res);
                    lemma_run_ends(call, world, res);
                },
                Err(e) => {
                    lemma_run_fails(utxos, world, e, res);
                },
            }
        },
        Err(e) => {
            lemma_run_fails(q, world, e, res);
        },
    }
}

/// A reply that holds the encoding of payments in hexadecimal is read as the unwraps of exactly those
/// payments, backwards from generated bytecode and forwards from the compiled contract, with transaction
/// ids as they stand. Only where there are payments can an error come instead, for want of memory.
pub proof fn law_batch_reads_encoded_payments(
    program: BatchProgram,
    network: Network,
    reply: Json,
    text: Seq<char>,
    ps: Seq<AbiPaymentView>,
    res: Result<Seq<UnwrapView>, ErrorView>,
)
    requires
        payments_encoding(ps).len() <= usize::MAX,
        forall|i: int| 0 <= i < ps.len() ==> is_encodable(#[trigger] ps[i]),
        reply.text() == Some(text),
        without_0x(text) == hex_text(payments_encoding(ps)),
        is_batch_reading(program, network, reply, res),
    ensures
        match res {
            Ok(unwraps) => unwraps == unwraps_of(
                program_order(program, payments_of(ps)),
                TxidOrder::Display,
                network,
            ),
            Err(e) => ps.len() > 0 && exists|words: Seq<char>| #[trigger]
                gave_up(program, words) == Err::<Seq<PaymentView>, ErrorView>(e),
        },
{
    let data = payments_encoding(ps);
    law_hex_is_read_back(data);
    assert(reply_bytes(reply) == Ok::<Seq<u8>, ErrorView>(data));
    let payments = choose|payments: Result<Seq<PaymentView>, ErrorView>| #[trigger]
        is_payments_reading(program, data, payments) && res == batch_unwraps(payments, network);
    law_encoded_payments_are_read_back(ps, program, payments);
}

/// The bytes in a reply: those that its text spells, with `0x` in front or without. A reply that is no text is
/// an error, and so is a text that is not hexadecimal.
pub proof fn law_reply_bytes_are_spelt(
    text: String,
    digits: Seq<char>,
    data: Seq<u8>,
    body: Seq<char>,
    e: HexError,
    other: Json,
)
    requires
        !(other is Text),
    ensures
        spells(digits, data) && (text@ == seq!['0', 'x'] + digits || text@ == digits)
            ==> reply_bytes(Json::Text(text)) == Ok::<Seq<u8>, ErrorView>(data),
        (text@ == seq!['0', 'x'] + body || text@ == body && !(body.len() >= 2 && body[0] == '0'
            && body[1] == 'x')) && hex_decoded(encode_utf8(body)) == Err::<Seq<u8>, HexError>(e)
            ==> reply_bytes(Json::Text(text)) == Err::<Seq<u8>, ErrorView>(
            ErrorView::RpcError("Failed to decode response: "@ + hex_error_text(e)),
        ),
        reply_bytes(other) == Err::<Seq<u8>, ErrorView>(
            ErrorView::RpcError("eth_call result is not a string"@),
        ),
{
    law_prefix_is_taken_away(body);
    if spells(digits, data) {
        law_spelt_bytes_are_read(digits, data);
    }
}

/// Whether unwraps show decoded payments: as many, each from its place in the reply of the program, with its
/// transaction id as it stands.
pub open spec fn show_decoded(
    program: BatchProgram,
    ps: Seq<AbiPaymentView>,
    unwraps: Seq<UnwrapView>,
    network: Network,
) -> bool {
    &&& unwraps.len() == ps.len()
    &&& forall|i: int|
        0 <= i < ps.len() ==> shows_decoded(
            #[trigger] unwraps[i],
            ps[source_index(program, ps.len(), i)],
            network,
        )
}

/// Whether an unwrap shows a decoded payment. A number that does not fit its field is shown as zero.
pub open spec fn shows_decoded(u: UnwrapView, p: AbiPaymentView, network: Network) -> bool {
    &&& shows_txid(u.txid, p.txid, false)
    &&& u.vout == if p.vout < 0x1_0000_0000 { p.vout } else { 0 }
    &&& u.amount == if p.value < 0x1_0000_0000_0000_0000 { p.value } else { 0 }
    &&& u.address == (if pays_someone(p.recipient) {
        Some(address_text(p.recipient, network))
    } else {
        None
    })
    &&& !u.fulfilled
}

/// Unwraps of payments that were read show what was decoded.
proof fn lemma_unwraps_show_decoded(
    program: BatchProgram,
    ps: Seq<AbiPaymentView>,
    read: Seq<PaymentView>,
    network: Network,
)
    requires
        are_read(program, ps, read),
    ensures
        show_decoded(program, ps, unwraps_of(read, TxidOrder::Display, network), network),
{
    law_unwraps_show_all_payments(read, network);
    let unwraps = unwraps_of(read, TxidOrder::Display, network);
    assert forall|i: int| 0 <= i < ps.len() implies shows_decoded(
        #[trigger] unwraps[i],
        ps[source_index(program, ps.len(), i)],
        network,
    ) by {
        assert(shows(unwraps[i], read[i], false, network));
        assert(reads_as(ps[source_index(program, ps.len(), i)], read[i]));
    }
}

/// A reply that spells data is read as the decoder decodes the data: every payment is shown, each from its
/// place, and reading fails only where the decoder itself has failed, with the decoder's words. A reply without
/// data shows nothing.
pub proof fn law_replies_are_shown_as_decoded(
    program: BatchProgram,
    network: Network,
    text: String,
    digits: Seq<char>,
    data: Seq<u8>,
    res: Result<Seq<UnwrapView>, ErrorView>,
)
    requires
        spells(digits, data),
        text@ == seq!['0', 'x'] + digits || text@ == digits,
        is_batch_reading(program, network, Json::Text(text), res),
    ensures
        data.len() == 0 ==> res == Ok::<Seq<UnwrapView>, ErrorView>(Seq::empty()),
        data.len() > 0 ==> exists|outcome: Result<Seq<AbiPaymentView>, AbiErrorView>|
            {
                &&& #[trigger] decoder_gives(data, outcome)
                &&& is_decoding(data, outcome)
                &&& match outcome {
                    Ok(ps) => res matches Ok(unwraps) && show_decoded(program, ps, unwraps, network),
                    Err(e) => res == Err::<Seq<UnwrapView>, ErrorView>(reported(program, e)),
                }
            },
{
    law_spelt_bytes_are_read(digits, data);
    assert(reply_bytes(Json::Text(text)) == Ok::<Seq<u8>, ErrorView>(data));
    let payments = choose|payments: Result<Seq<PaymentView>, ErrorView>| #[trigger]
        is_payments_reading(program, data, payments) && res == batch_unwraps(payments, network);
    law_readers_follow_the_decoder(program, data, payments);
    if data.len() == 0 {
        assert(res->Ok_0 =~= Seq::empty());
    } else {
        let outcome = choose|outcome: Result<Seq<AbiPaymentView>, AbiErrorView>|
            {
                &&& #[trigger] decoder_gives(data, outcome)
                &&& is_decoding(data, outcome)
                &&& match outcome {
                    Ok(ps) => payments matches Ok(read) && are_read(program, ps, read),
                    Err(e) => payments == Err::<Seq<PaymentView>, ErrorView>(reported(program, e)),
                }
            };
        if let Ok(ps) = outcome {
            lemma_unwraps_show_decoded(program, ps, payments->Ok_0, network);
        }
        assert(decoder_gives(data, outcome));
    }
}

/// A reply that spells the encoding of payments shows every one of them, each from its place, unless the
/// decoder itself gave up, and then with the decoder's words.
pub proof fn law_replies_show_encoded_payments(
    program: BatchProgram,
    network: Network,
    text: String,
    digits: Seq<char>,
    ps: Seq<AbiPaymentView>,
    res: Result<Seq<UnwrapView>, ErrorView>,
)
    requires
        payments_encoding(ps).len() <= usize::MAX,
        forall|i: int| 0 <= i < ps.len() ==> is_encodable(#[trigger] ps[i]),
        spells(digits, payments_encoding(ps)),
        text@ == seq!['0', 'x'] + digits || text@ == digits,
        is_batch_reading(program, network, Json::Text(text), res),
    ensures
        match res {
            Ok(unwraps) => show_decoded(program, ps, unwraps, network),
            Err(e) => ps.len() > 0 && exists|words: Seq<char>| #[trigger]
                decoder_gives(payments_encoding(ps), Err(AbiErrorView::Other(words))) && e
                    == reported(program, AbiErrorView::Other(words)),
        },
{
    let data = payments_encoding(ps);
    law_spelt_bytes_are_read(digits, data);
    assert(reply_bytes(Json::Text(text)) == Ok::<Seq<u8>, ErrorView>(data));
    let payments = choose|payments: Result<Seq<PaymentView>, ErrorView>| #[trigger]
        is_payments_reading(program, data, payments) && res == batch_unwraps(payments, network);
    law_encodings_are_read_whole(ps, program, payments);
    if let Ok(read) = payments {
        lemma_unwraps_show_decoded(program, ps, read, network);
    }
}

/// Whether a reply is of the kind that a stage waits for.
pub open spec fn is_awaited(stage: BatchStageView, reply: BatchReplyView) -> bool {
    ||| stage is SignerScript && reply is SignerScript
    ||| stage is AddressUtxos && reply is AddressUtxos
    ||| stage is Bytecode && reply is Bytecode
    ||| stage is GasEstimate && reply is GasEstimate
    ||| stage is Call && reply is Call
}

/// A reply of a kind that was not asked for leaves the query as it is, and no reply changes where and for which
/// program, network, cutoff and block it asks. What is asked next is made of the reply: the signer's address,
/// the oldest dust or zero, the bytecode, and the same bytecode with its gas.
pub proof fn law_batch_keeps_what_it_was_begun_with(
    q: BatchView,
    reply: BatchReplyView,
    res: Result<BatchNextView, ErrorView>,
)
    requires
        is_batch_step(q, reply, res),
    ensures
        !is_awaited(q.stage, reply) ==> res == Ok::<BatchNextView, ErrorView>(BatchNextView::Ask(q)),
        res matches Ok(BatchNextView::Ask(next)) ==> next.program == q.program && next.rpc_url
            == q.rpc_url && next.contract == q.contract && next.network == q.network
            && next.cutoff_height == q.cutoff_height && next.block_tag == q.block_tag,
        is_awaited(q.stage, reply) ==> match reply {
            BatchReplyView::SignerScript(script) => match address_reading(script, q.network) {
                Ok(address) => res matches Ok(BatchNextView::Ask(next)) && next.stage == (
                BatchStageView::AddressUtxos { address }),
                Err(e) => res == Err::<BatchNextView, ErrorView>(e),
            },
            BatchReplyView::AddressUtxos(list) => match oldest_dust_reading(list) {
                Ok(oldest) => res matches Ok(BatchNextView::Ask(next)) && next.stage == (
                BatchStageView::Bytecode { oldest: oldest_or_zero(oldest) }),
                Err(e) => res == Err::<BatchNextView, ErrorView>(e),
            },
            BatchReplyView::Bytecode(bytecode) => res matches Ok(BatchNextView::Ask(next))
                && next.stage == (BatchStageView::GasEstimate { bytecode }),
            BatchReplyView::GasEstimate(estimate) => res matches Ok(BatchNextView::Ask(next))
                && next.stage matches BatchStageView::Call { bytecode, gas } && bytecode
                == q.stage->GasEstimate_bytecode && gas == seq!['0', 'x'] + numeral(
                gas_limit_of(estimate_of(estimate)),
                16,
            ),
            BatchReplyView::Call(json) => match res {
                Ok(BatchNextView::Done(unwraps)) => is_batch_reading(
                    q.program,
                    q.network,
                    json,
                    Ok(unwraps),
                ),
                Ok(BatchNextView::Ask(_)) => false,
                Err(e) => is_batch_reading(q.program, q.network, json, Err(e)),
            },
        },
{
    if let BatchReplyView::GasEstimate(estimate) = reply {
        law_gas_is_carried_in_hexadecimal(gas_limit_of(estimate_of(estimate)));
    }
    if is_awaited(q.stage, reply) && reply is Call {
        let unwraps = choose|unwraps: Result<Seq<UnwrapView>, ErrorView>| #[trigger]
            is_batch_reading(q.program, q.network, reply->Call_0, unwraps) && res
                == batch_after_call(unwraps);
        assert(is_batch_reading(q.program, q.network, reply->Call_0, unwraps));
    }
}

} // verus!
