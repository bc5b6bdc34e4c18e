//! The scan for pending unwraps that asks the contract for one payment at a time.
//!
//! A [`ScanQuery`] says what it wants to know next with [`ScanQuery::request`], and takes the reply
//! with [`ScanQuery::advance`], until the unwraps are found or the scan fails.
use crate::address::{script_pubkey_to_address, Network};
use crate::error::AlkanesError;
use crate::json::Json;
use crate::payment::{payment_to_pending_unwrap, Payment, PendingUnwrap, TxidOrder};
use crate::utxo::find_oldest_546_sat_utxo;
use vstd::prelude::*;

#[allow(unused_imports)]
use crate::address::address_reading;
#[allow(unused_imports)]
use crate::error::{result_view, ErrorView};
#[allow(unused_imports)]
use crate::payment::{unwrap_of, PaymentView, UnwrapView};
#[allow(unused_imports)]
use crate::utxo::oldest_dust_reading;

verus! {

/// The height of the newest block with enough confirmations, or zero where the chain is shorter.
pub open spec fn cutoff_of(current_height: u64, confirmations_required: u64) -> u64 {
    if current_height >= confirmations_required {
        (current_height - confirmations_required) as u64
    } else {
        0
    }
}

/// The height of the newest block with enough confirmations, or zero where the chain is shorter.
pub fn cutoff_height(current_height: u64, confirmations_required: u64) -> (res: u64)
    ensures
        res == cutoff_of(current_height, confirmations_required),
{
    if current_height >= confirmations_required {
        current_height - confirmations_required
    } else {
        0
    }
}

/// Whether a payment was queued below the oldest output that the signer can spend.
pub open spec fn is_too_old(p: PaymentView, oldest: Option<u64>) -> bool {
    oldest matches Some(height) && p.height < height
}

/// The payments that a scan from the last one back to the first picks, in the order in which it meets
/// them. One above the cutoff is passed over; one that is not, but is too old, ends the scan.
pub open spec fn picked(ps: Seq<PaymentView>, cutoff: u64, oldest: Option<u64>) -> Seq<PaymentView>
    decreases ps.len(),
{
    if ps.len() == 0 {
        Seq::empty()
    } else if ps.last().height > cutoff {
        picked(ps.drop_last(), cutoff, oldest)
    } else if is_too_old(ps.last(), oldest) {
        Seq::empty()
    } else {
        seq![ps.last()] + picked(ps.drop_last(), cutoff, oldest)
    }
}

/// How far a scan has come.
#[derive(Debug)]
pub enum ScanStage {
    /// Waits for the number of payments.
    PaymentsLength,
    /// Waits for the signer's output script; the last payment stands at index `last`.
    SignerScript { last: u64 },
    /// Waits for the outputs that the signer can spend.
    AddressUtxos { last: u64, address: String },
    /// Waits for the payment at `index`.
    Payment { index: u64, oldest: Option<u64>, found: Vec<PendingUnwrap> },
}

/// A [`ScanStage`] as a value of the specification.
pub enum ScanStageView {
    PaymentsLength,
    SignerScript { last: u64 },
    AddressUtxos { last: u64, address: Seq<char> },
    Payment { index: u64, oldest: Option<u64>, found: Seq<UnwrapView> },
}

impl View for ScanStage {
    type V = ScanStageView;

    open spec fn view(&self) -> ScanStageView {
        match self {
            ScanStage::PaymentsLength => ScanStageView::PaymentsLength,
            ScanStage::SignerScript { last } => ScanStageView::SignerScript { last: *last },
            ScanStage::AddressUtxos { last, address } => ScanStageView::AddressUtxos {
                last: *last,
                address: address@,
            },
            ScanStage::Payment { index, oldest, found } => ScanStageView::Payment {
                index: *index,
                oldest: *oldest,
                found: found.deep_view(),
            },
        }
    }
}

/// A scan for pending unwraps.
#[derive(Debug)]
pub struct ScanQuery {
    /// Where the contract is asked.
    pub rpc_url: String,
    /// The address of the contract.
    pub contract: String,
    pub network: Network,
    /// The height of the newest block with enough confirmations.
    pub cutoff_height: u64,
    pub stage: ScanStage,
}

/// A [`ScanQuery`] as a value of the specification.
pub struct ScanView {
    pub rpc_url: Seq<char>,
    pub contract: Seq<char>,
    pub network: Network,
    pub cutoff_height: u64,
    pub stage: ScanStageView,
}

impl View for ScanQuery {
    type V = ScanView;

    open spec fn view(&self) -> ScanView {
        ScanView {
            rpc_url: self.rpc_url@,
            contract: self.contract@,
            network: self.network,
            cutoff_height: self.cutoff_height,
            stage: self.stage@,
        }
    }
}

/// What a scan wants to know next.
#[derive(Debug, PartialEq, Eq)]
pub enum ScanRequest {
    /// The number of payments in the contract.
    PaymentsLength,
    /// The output script of the contract's signer.
    SignerScript,
    /// The unspent outputs of an address.
    AddressUtxos(String),
    /// The payment at an index.
    Payment(u64),
}

/// A reply to a [`ScanRequest`].
#[derive(Debug)]
pub enum ScanReply {
    PaymentsLength(u64),
    SignerScript(Vec<u8>),
    AddressUtxos(Json),
    Payment(Payment),
}

/// A [`ScanReply`] as a value of the specification.
pub enum ScanReplyView {
    PaymentsLength(u64),
    SignerScript(Seq<u8>),
    AddressUtxos(Json),
    Payment(PaymentView),
}

impl View for ScanReply {
    type V = ScanReplyView;

    open spec fn view(&self) -> ScanReplyView {
        match self {
            ScanReply::PaymentsLength(count) => ScanReplyView::PaymentsLength(*count),
            ScanReply::SignerScript(script) => ScanReplyView::SignerScript(script@),
            ScanReply::AddressUtxos(list) => ScanReplyView::AddressUtxos(*list),
            ScanReply::Payment(payment) => ScanReplyView::Payment(payment@),
        }
    }
}

/// What comes of a reply.
#[derive(Debug)]
pub enum ScanNext {
    /// The scan goes on.
    Ask(ScanQuery),
    /// The scan is over, and these are the unwraps.
    Done(Vec<PendingUnwrap>),
}

/// A [`ScanNext`] as a value of the specification.
pub enum ScanNextView {
    Ask(ScanView),
    Done(Seq<UnwrapView>),
}

impl DeepView for ScanNext {
    type V = ScanNextView;

    open spec fn deep_view(&self) -> ScanNextView {
        match self {
            ScanNext::Ask(query) => ScanNextView::Ask(query@),
            ScanNext::Done(unwraps) => ScanNextView::Done(unwraps.deep_view()),
        }
    }
}

/// The scan at another stage.
pub open spec fn at_stage(q: ScanView, stage: ScanStageView) -> ScanNextView {
    ScanNextView::Ask(ScanView { stage, ..q })
}

/// What comes of the number of payments: without payments there is nothing to scan.
pub open spec fn after_length(q: ScanView, count: u64) -> ScanNextView {
    if count == 0 {
        ScanNextView::Done(Seq::empty())
    } else {
        at_stage(q, ScanStageView::SignerScript { last: (count - 1) as u64 })
    }
}

/// What comes of the signer's address.
pub open spec fn after_signer(q: ScanView, last: u64, address: Result<Seq<char>, ErrorView>) -> Result<
    ScanNextView,
    ErrorView,
> {
    match address {
        Ok(address) => Ok(at_stage(q, ScanStageView::AddressUtxos { last, address })),
        Err(e) => Err(e),
    }
}

/// What comes of the oldest output that the signer can spend: the scan begins with the last payment.
pub open spec fn after_utxos(q: ScanView, last: u64, oldest: Result<Option<u64>, ErrorView>) -> Result<
    ScanNextView,
    ErrorView,
> {
    match oldest {
        Ok(oldest) => Ok(
            at_stage(q, ScanStageView::Payment { index: last, oldest, found: Seq::empty() }),
        ),
        Err(e) => Err(e),
    }
}

/// What comes of a payment.
pub open spec fn after_payment(
    q: ScanView,
    index: u64,
    oldest: Option<u64>,
    found: Seq<UnwrapView>,
    p: PaymentView,
) -> ScanNextView {
    let now_found = if p.height > q.cutoff_height {
        found
    } else {
        found.push(unwrap_of(p, TxidOrder::Internal, q.network))
    };
    if p.height <= q.cutoff_height && is_too_old(p, oldest) {
        ScanNextView::Done(found)
    } else if index == 0 {
        ScanNextView::Done(now_found)
    } else {
        at_stage(
            q,
            ScanStageView::Payment { index: (index - 1) as u64, oldest, found: now_found },
        )
    }
}

/// What comes of a reply. One of a kind that the stage does not wait for leaves the scan where it is.
pub open spec fn scan_step(q: ScanView, reply: ScanReplyView) -> Result<ScanNextView, ErrorView> {
    match (q.stage, reply) {
        (ScanStageView::PaymentsLength, ScanReplyView::PaymentsLength(count)) => Ok(
            after_length(q, count),
        ),
        (ScanStageView::SignerScript { last }, ScanReplyView::SignerScript(script)) => after_signer(
            q,
            last,
            address_reading(script, q.network),
        ),
        (ScanStageView::AddressUtxos { last, .. }, ScanReplyView::AddressUtxos(list)) => after_utxos(
            q,
            last,
            oldest_dust_reading(list),
        ),
        (ScanStageView::Payment { index, oldest, found }, ScanReplyView::Payment(p)) => Ok(
            after_payment(q, index, oldest, found, p),
        ),
        _ => Ok(ScanNextView::Ask(q)),
    }
}

impl ScanQuery {
    /// What the scan wants to know next.
    pub fn request(&self) -> (res: ScanRequest)
        ensures
            match self@.stage {
                ScanStageView::PaymentsLength => res is PaymentsLength,
                ScanStageView::SignerScript { .. } => res is SignerScript,
                ScanStageView::AddressUtxos { address, .. } => res matches ScanRequest::AddressUtxos(
                    asked,
                ) && asked@ == address,
                ScanStageView::Payment { index, .. } => res == ScanRequest::Payment(index),
            },
    {
        match &self.stage {
            ScanStage::PaymentsLength => ScanRequest::PaymentsLength,
            ScanStage::SignerScript { .. } => ScanRequest::SignerScript,
            ScanStage::AddressUtxos { address, .. } => ScanRequest::AddressUtxos(address.clone()),
            ScanStage::Payment { index, .. } => ScanRequest::Payment(*index),
        }
    }

    /// Goes on to another stage.
    fn at(self, stage: ScanStage) -> (res: ScanNext)
        ensures
            res.deep_view() == at_stage(self@, stage@),
    {
        ScanNext::Ask(
            ScanQuery {
                rpc_url: self.rpc_url,
                contract: self.contract,
                network: self.network,
                cutoff_height: self.cutoff_height,
                stage,
            },
        )
    }

    /// Goes on once the signer's address is known, or fails where it has none.
    pub fn signer_resolved(self, last: u64, address: Result<String, AlkanesError>) -> (res: Result<
        ScanNext,
        AlkanesError,
    >)
        ensures
            result_view(res) == after_signer(self@, last, result_view(address)),
    {
        match address {
            Ok(address) => Ok(self.at(ScanStage::AddressUtxos { last, address })),
            Err(e) => Err(e),
        }
    }

    /// Takes in one payment. One above the cutoff is passed over. One that is not, but was queued
    /// below the oldest output that the signer can spend, ends the scan, and so does the first of all.
    fn take_payment(
        self,
        index: u64,
        oldest: Option<u64>,
        found: Vec<PendingUnwrap>,
        payment: Payment,
    ) -> (res: Result<ScanNext, AlkanesError>)
        ensures
            result_view(res) == Ok::<ScanNextView, ErrorView>(
                after_payment(self@, index, oldest, found.deep_view(), payment@),
            ),
    {
        let ghost before = found.deep_view();
        let mut found = found;
        if payment.height <= self.cutoff_height {
            if let Some(oldest_height) = oldest {
                if payment.height < oldest_height {
                    return Ok(ScanNext::Done(found));
                }
            }
            let network = self.network;
            match payment_to_pending_unwrap(payment, network) {
                Ok(unwrap) => {
                    found.push(unwrap);
                    assert(found.deep_view() =~= before.push(
                        unwrap_of(payment@, TxidOrder::Internal, network),
                    ));
                },
                Err(e) => {
                    return Err(e);
                },
            }
        }
        if index == 0 {
            Ok(ScanNext::Done(found))
        } else {
            Ok(self.at(ScanStage::Payment { index: index - 1, oldest, found }))
        }
    }

    /// Takes in a reply to the request. One of another kind leaves the scan where it is.
    pub fn advance(self, reply: ScanReply) -> (res: Result<ScanNext, AlkanesError>)
        ensures
            result_view(res) == scan_step(self@, reply@),
    {
        let ScanQuery { rpc_url, contract, network, cutoff_height, stage } = self;
        let query = ScanQuery {
            rpc_url,
            contract,
            network,
            cutoff_height,
            stage: ScanStage::PaymentsLength,
        };
        match (stage, reply) {
            (ScanStage::PaymentsLength, ScanReply::PaymentsLength(count)) => {
                if count == 0 {
                    let none: Vec<PendingUnwrap> = Vec::new();
                    assert(none.deep_view() =~= Seq::empty());
                    Ok(ScanNext::Done(none))
                } else {
                    Ok(query.at(ScanStage::SignerScript { last: count - 1 }))
                }
            },
            (ScanStage::SignerScript { last }, ScanReply::SignerScript(script)) => {
                query.signer_resolved(last, script_pubkey_to_address(script.as_slice(), network))
            },
            (ScanStage::AddressUtxos { last, .. }, ScanReply::AddressUtxos(list)) => {
                match find_oldest_546_sat_utxo(&list) {
                    Ok(oldest) => {
                        let found: Vec<PendingUnwrap> = Vec::new();
                        assert(found.deep_view() =~= Seq::empty());
                        Ok(query.at(ScanStage::Payment { index: last, oldest, found }))
                    },
                    Err(e) => Err(e),
                }
            },
            (ScanStage::Payment { index, oldest, found }, ScanReply::Payment(payment)) => {
                query.take_payment(index, oldest, found, payment)
            },
            (stage, _) => Ok(query.at(stage)),
        }
    }
}

} // verus!
