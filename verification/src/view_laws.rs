//! That nothing is left out where a value is spoken of: each part of it is shown.
#[allow(unused_imports)]
use crate::abi::{decoding_view, AbiError, AbiErrorView, AbiPayment, AbiPaymentView};
#[allow(unused_imports)]
use crate::batch::{
    BatchNext, BatchNextView, BatchQuery, BatchReply, BatchReplyView, BatchStage, BatchStageView,
};
#[allow(unused_imports)]
use crate::error::{result_view, AlkanesError, ErrorView};
#[allow(unused_imports)]
use crate::payment::{Payment, PendingUnwrap};
#[allow(unused_imports)]
use crate::scan::{
    ScanNext, ScanNextView, ScanQuery, ScanReply, ScanReplyView, ScanStage, ScanStageView,
};
use vstd::prelude::*;

verus! {

/// Every field of a payment is shown.
pub proof fn law_payments_are_shown_whole(p: Payment)
    ensures
        p@.txid == p.txid@,
        p@.vout == p.vout,
        p@.value == p.value,
        p@.recipient == p.recipient@,
        p@.height == p.height,
        p.deep_view() == p@,
{
}

/// Every field of an unwrap is shown.
pub proof fn law_unwraps_are_shown_whole(u: PendingUnwrap)
    ensures
        u@.txid == u.txid@,
        u@.vout == u.vout,
        u@.amount == u.amount,
        match u.address {
            Some(address) => u@.address == Some(address@),
            None => u@.address is None,
        },
        u@.fulfilled == u.fulfilled,
        u.deep_view() == u@,
{
}

/// Every field of a decoded payment is shown, and four limbs make up their number.
pub proof fn law_decoded_payments_are_shown_whole(p: AbiPayment)
    ensures
        p@.txid == p.txid@,
        p@.recipient == p.recipient@,
        p@.vout == p.vout@[0] + 0x1_0000_0000_0000_0000 * (p.vout@[1] + 0x1_0000_0000_0000_0000 * (
        p.vout@[2] + 0x1_0000_0000_0000_0000 * p.vout@[3])),
        p@.value == p.value@[0] + 0x1_0000_0000_0000_0000 * (p.value@[1] + 0x1_0000_0000_0000_0000
            * (p.value@[2] + 0x1_0000_0000_0000_0000 * p.value@[3])),
        p@.height == p.height@[0] + 0x1_0000_0000_0000_0000 * (p.height@[1]
            + 0x1_0000_0000_0000_0000 * (p.height@[2] + 0x1_0000_0000_0000_0000 * p.height@[3])),
        p.deep_view() == p@,
{
}

/// An error is shown with its kind and its message.
pub proof fn law_errors_are_shown_with_their_kind(message: String)
    ensures
        AlkanesError::Configuration(message)@ == ErrorView::Configuration(message@),
        AlkanesError::RpcError(message)@ == ErrorView::RpcError(message@),
        AlkanesError::AddressResolution(message)@ == ErrorView::AddressResolution(message@),
        AbiError::Overrun@ == AbiErrorView::Overrun,
        AbiError::Other(message)@ == AbiErrorView::Other(message@),
{
}

/// A result is shown with what it carries.
pub proof fn law_results_are_shown_whole<T: DeepView>(value: T, e: AlkanesError)
    ensures
        result_view(Ok::<T, AlkanesError>(value)) == Ok::<T::V, ErrorView>(value.deep_view()),
        result_view(Err::<T, AlkanesError>(e)) == Err::<T::V, ErrorView>(e@),
{
}

/// An outcome of decoding is shown with every payment, or with its error.
pub proof fn law_decodings_are_shown_whole(ps: Vec<AbiPayment>, e: AbiError)
    ensures
        decoding_view(Err::<Vec<AbiPayment>, AbiError>(e)) == Err::<Seq<AbiPaymentView>, AbiErrorView>(
            e@,
        ),
        decoding_view(Ok::<Vec<AbiPayment>, AbiError>(ps)) matches Ok(shown) && shown.len()
            == ps@.len() && forall|i: int| 0 <= i < ps@.len() ==> #[trigger] shown[i] == ps@[i]@,
{
}

/// Every part of a scan is shown.
pub proof fn law_scans_are_shown_whole(
    q: ScanQuery,
    last: u64,
    address: String,
    oldest: Option<u64>,
    found: Vec<PendingUnwrap>,
)
    ensures
        q@.rpc_url == q.rpc_url@,
        q@.contract == q.contract@,
        q@.network == q.network,
        q@.cutoff_height == q.cutoff_height,
        q@.stage == q.stage@,
        ScanStage::PaymentsLength@ is PaymentsLength,
        (ScanStage::SignerScript { last })@ == (ScanStageView::SignerScript { last }),
        (ScanStage::AddressUtxos { last, address })@ == (ScanStageView::AddressUtxos {
            last,
            address: address@,
        }),
        (ScanStage::Payment { index: last, oldest, found })@ == (ScanStageView::Payment {
            index: last,
            oldest,
            found: found.deep_view(),
        }),
        ScanNext::Ask(q).deep_view() == ScanNextView::Ask(q@),
        ScanNext::Done(found).deep_view() == ScanNextView::Done(found.deep_view()),
        found.deep_view().len() == found@.len(),
        forall|i: int| 0 <= i < found@.len() ==> #[trigger] found.deep_view()[i] == found@[i]@,
{
}

/// Every reply to a scan is shown.
pub proof fn law_scan_replies_are_shown_whole(reply: ScanReply)
    ensures
        match reply {
            ScanReply::PaymentsLength(n) => reply@ == ScanReplyView::PaymentsLength(n),
            ScanReply::SignerScript(script) => reply@ == ScanReplyView::SignerScript(script@),
            ScanReply::AddressUtxos(list) => reply@ == ScanReplyView::AddressUtxos(list),
            ScanReply::Payment(p) => reply@ == ScanReplyView::Payment(p@),
        },
{
}

/// Every part of a query that runs a program is shown.
pub proof fn law_batches_are_shown_whole(
    q: BatchQuery,
    oldest: u64,
    text: String,
    gas: String,
    found: Vec<PendingUnwrap>,
)
    ensures
        q@.program == q.program,
        q@.rpc_url == q.rpc_url@,
        q@.contract == q.contract@,
        q@.network == q.network,
        q@.cutoff_height == q.cutoff_height,
        q@.block_tag == q.block_tag@,
        q@.stage == q.stage@,
        BatchStage::SignerScript@ is SignerScript,
        (BatchStage::AddressUtxos { address: text })@ == (BatchStageView::AddressUtxos {
            address: text@,
        }),
        (BatchStage::Bytecode { oldest })@ == (BatchStageView::Bytecode { oldest }),
        (BatchStage::GasEstimate { bytecode: text })@ == (BatchStageView::GasEstimate {
            bytecode: text@,
        }),
        (BatchStage::Call { bytecode: text, gas })@ == (BatchStageView::Call {
            bytecode: text@,
            gas: gas@,
        }),
        BatchNext::Ask(q).deep_view() == BatchNextView::Ask(q@),
        BatchNext::Done(found).deep_view() == BatchNextView::Done(found.deep_view()),
{
}

/// Every reply to a query that runs a program is shown.
pub proof fn law_batch_replies_are_shown_whole(reply: BatchReply)
    ensures
        match reply {
            BatchReply::SignerScript(script) => reply@ == BatchReplyView::SignerScript(script@),
            BatchReply::AddressUtxos(list) => reply@ == BatchReplyView::AddressUtxos(list),
            BatchReply::Bytecode(code) => reply@ == BatchReplyView::Bytecode(code@),
            BatchReply::GasEstimate(estimate) => reply@ == BatchReplyView::GasEstimate(estimate),
            BatchReply::Call(json) => reply@ == BatchReplyView::Call(json),
        },
{
}

} // verus!
