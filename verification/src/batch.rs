//! The query for pending unwraps that runs a program next to the contract, in one call.
//!
//! A [`BatchQuery`] says what it wants next with [`BatchQuery::request`], and takes the reply with
//! [`BatchQuery::advance`], until the unwraps are found or the query fails.
use crate::abi::{parse_abi_encoded_payments, parse_abi_encoded_payments_sol};
use crate::address::{script_pubkey_to_address, Network};
use crate::error::AlkanesError;
use crate::gas::{gas_limit, read_estimate};
use crate::hexadecimal::hex_decode;
use crate::json::Json;
use crate::payment::{pending_unwraps_of, Payment, PendingUnwrap, TxidOrder};
use crate::rpc::{eth_request_1, eth_request_2, RpcCall};
use crate::text::{join, strip_0x};
use crate::utxo::find_oldest_546_sat_utxo;
use vstd::prelude::*;
use vstd::utf8::*;

#[allow(unused_imports)]
use crate::abi::{is_asm_reading, is_sol_reading};
#[allow(unused_imports)]
use crate::address::address_reading;
#[allow(unused_imports)]
use crate::error::{result_view, ErrorView};
#[allow(unused_imports)]
use crate::gas::{estimate_in, gas_limit_of, gas_text};
#[allow(unused_imports)]
use crate::hexadecimal::{hex_decoded, hex_error_text};
#[allow(unused_imports)]
use crate::payment::{unwraps_of, PaymentView, UnwrapView};
#[allow(unused_imports)]
use crate::rpc::is_eth_request;
#[allow(unused_imports)]
use crate::text::without_0x;
#[allow(unused_imports)]
use crate::utxo::oldest_dust_reading;

verus! {

/// Which program is run.
#[derive(Debug, Clone, Copy, PartialEq, Eq, Structural)]
pub enum BatchProgram {
    /// Generated bytecode, which walks the payments backwards.
    Asm,
    /// The compiled contract, which walks them forwards.
    Sol,
}

/// How far a query has come.
#[derive(Debug)]
pub enum BatchStage {
    /// Waits for the signer's output script.
    SignerScript,
    /// Waits for the outputs that the signer can spend.
    AddressUtxos { address: String },
    /// Waits for the bytecode of the program.
    Bytecode { oldest: u64 },
    /// Waits for an estimate of the gas that the bytecode uses.
    GasEstimate { bytecode: String },
    /// Waits for the result of running the bytecode.
    Call { bytecode: String, gas: String },
}

/// A [`BatchStage`] as a value of the specification.
pub enum BatchStageView {
    SignerScript,
    AddressUtxos { address: Seq<char> },
    Bytecode { oldest: u64 },
    GasEstimate { bytecode: Seq<char> },
    Call { bytecode: Seq<char>, gas: Seq<char> },
}

impl View for BatchStage {
    type V = BatchStageView;

    open spec fn view(&self) -> BatchStageView {
        match self {
            BatchStage::SignerScript => BatchStageView::SignerScript,
            BatchStage::AddressUtxos { address } => BatchStageView::AddressUtxos {
                address: address@,
            },
            BatchStage::Bytecode { oldest } => BatchStageView::Bytecode { oldest: *oldest },
            BatchStage::GasEstimate { bytecode } => BatchStageView::GasEstimate {
                bytecode: bytecode@,
            },
            BatchStage::Call { bytecode, gas } => BatchStageView::Call {
                bytecode: bytecode@,
                gas: gas@,
            },
        }
    }
}

/// A query for pending unwraps in one call.
#[derive(Debug)]
pub struct BatchQuery {
    pub program: BatchProgram,
    /// Where the contract is asked.
    pub rpc_url: String,
    /// The address of the contract.
    pub contract: String,
    pub network: Network,
    /// The height of the newest block with enough confirmations.
    pub cutoff_height: u64,
    /// The block whose state is asked.
    pub block_tag: String,
    pub stage: BatchStage,
}

/// A [`BatchQuery`] as a value of the specification.
pub struct BatchView {
    pub program: BatchProgram,
    pub rpc_url: Seq<char>,
    pub contract: Seq<char>,
    pub network: Network,
    pub cutoff_height: u64,
    pub block_tag: Seq<char>,
    pub stage: BatchStageView,
}

impl View for BatchQuery {
    type V = BatchView;

    open spec fn view(&self) -> BatchView {
        BatchView {
            program: self.program,
            rpc_url: self.rpc_url@,
            contract: self.contract@,
            network: self.network,
            cutoff_height: self.cutoff_height,
            block_tag: self.block_tag@,
            stage: self.stage@,
        }
    }
}

/// What a query wants next.
#[derive(Debug, PartialEq, Eq)]
pub enum BatchRequest {
    /// The output script of the contract's signer.
    SignerScript,
    /// The unspent outputs of an address.
    AddressUtxos(String),
    /// The bytecode of the program, for payments from the height `oldest` up to the height `cutoff`.
    Bytecode { cutoff: u64, oldest: u64 },
    /// The result of a call that estimates gas. It may fail.
    GasEstimate(RpcCall),
    /// The result of a call that runs the bytecode.
    Call(RpcCall),
}

/// A reply to a [`BatchRequest`].
#[derive(Debug)]
pub enum BatchReply {
    SignerScript(Vec<u8>),
    AddressUtxos(Json),
    Bytecode(String),
    /// `None` where the call failed.
    GasEstimate(Option<Json>),
    Call(Json),
}

/// A [`BatchReply`] as a value of the specification.
pub enum BatchReplyView {
    SignerScript(Seq<u8>),
    AddressUtxos(Json),
    Bytecode(Seq<char>),
    GasEstimate(Option<Json>),
    Call(Json),
}

impl View for BatchReply {
    type V = BatchReplyView;

    open spec fn view(&self) -> BatchReplyView {
        match self {
            BatchReply::SignerScript(script) => BatchReplyView::SignerScript(script@),
            BatchReply::AddressUtxos(list) => BatchReplyView::AddressUtxos(*list),
            BatchReply::Bytecode(bytecode) => BatchReplyView::Bytecode(bytecode@),
            BatchReply::GasEstimate(reply) => BatchReplyView::GasEstimate(*reply),
            BatchReply::Call(reply) => BatchReplyView::Call(*reply),
        }
    }
}

/// What comes of a reply.
#[derive(Debug)]
pub enum BatchNext {
    /// The query goes on.
    Ask(BatchQuery),
    /// The query is over, and these are the unwraps.
    Done(Vec<PendingUnwrap>),
}

/// A [`BatchNext`] as a value of the specification.
pub enum BatchNextView {
    Ask(BatchView),
    Done(Seq<UnwrapView>),
}

impl DeepView for BatchNext {
    type V = BatchNextView;

    open spec fn deep_view(&self) -> BatchNextView {
        match self {
            BatchNext::Ask(query) => BatchNextView::Ask(query@),
            BatchNext::Done(unwraps) => BatchNextView::Done(unwraps.deep_view()),
        }
    }
}

/// The estimate in the reply to a call that estimates gas.
pub open spec fn estimate_of(reply: Option<Json>) -> Option<u64> {
    match reply {
        Some(reply) => Some(estimate_in(reply)),
        None => None,
    }
}

/// The bytes in the reply to a call: its text in hexadecimal, with or without `0x`.
pub open spec fn reply_bytes(reply: Json) -> Result<Seq<u8>, ErrorView> {
    match reply.text() {
        Some(text) => match hex_decoded(encode_utf8(without_0x(text))) {
            Ok(bytes) => Ok(bytes),
            Err(e) => Err(
                ErrorView::RpcError("Failed to decode response: "@ + hex_error_text(e)),
            ),
        },
        None => Err(ErrorView::RpcError("eth_call result is not a string"@)),
    }
}

/// Whether `res` is what a reply of the program in so many bytes can be read as.
pub open spec fn is_payments_reading(
    program: BatchProgram,
    data: Seq<u8>,
    res: Result<Seq<PaymentView>, ErrorView>,
) -> bool {
    match program {
        BatchProgram::Asm => is_asm_reading(data, res),
        BatchProgram::Sol => is_sol_reading(data, res),
    }
}

/// The unwraps that payments of a program stand for. A program keeps transaction ids in the order in
/// which a reader is shown them.
pub open spec fn batch_unwraps(payments: Result<Seq<PaymentView>, ErrorView>, network: Network) -> Result<
    Seq<UnwrapView>,
    ErrorView,
> {
    match payments {
        Ok(ps) => Ok(unwraps_of(ps, TxidOrder::Display, network)),
        Err(e) => Err(e),
    }
}

/// Whether `res` is what the reply to running the program can be read as.
pub open spec fn is_batch_reading(
    program: BatchProgram,
    network: Network,
    reply: Json,
    res: Result<Seq<UnwrapView>, ErrorView>,
) -> bool {
    match reply_bytes(reply) {
        Ok(data) => exists|payments: Result<Seq<PaymentView>, ErrorView>| #[trigger]
            is_payments_reading(program, data, payments) && res == batch_unwraps(payments, network),
        Err(e) => res == Err::<Seq<UnwrapView>, ErrorView>(e),
    }
}

/// The query at another stage.
pub open spec fn batch_at(q: BatchView, stage: BatchStageView) -> BatchNextView {
    BatchNextView::Ask(BatchView { stage, ..q })
}

/// What comes of the signer's address.
pub open spec fn batch_after_signer(q: BatchView, address: Result<Seq<char>, ErrorView>) -> Result<
    BatchNextView,
    ErrorView,
> {
    match address {
        Ok(address) => Ok(batch_at(q, BatchStageView::AddressUtxos { address })),
        Err(e) => Err(e),
    }
}

/// What comes of the oldest output that the signer can spend. Without one no payment is too old.
pub open spec fn batch_after_utxos(q: BatchView, oldest: Result<Option<u64>, ErrorView>) -> Result<
    BatchNextView,
    ErrorView,
> {
    match oldest {
        Ok(Some(height)) => Ok(batch_at(q, BatchStageView::Bytecode { oldest: height })),
        Ok(None) => Ok(batch_at(q, BatchStageView::Bytecode { oldest: 0 })),
        Err(e) => Err(e),
    }
}

/// What comes of the unwraps that were read.
pub open spec fn batch_after_call(unwraps: Result<Seq<UnwrapView>, ErrorView>) -> Result<
    BatchNextView,
    ErrorView,
> {
    match unwraps {
        Ok(unwraps) => Ok(BatchNextView::Done(unwraps)),
        Err(e) => Err(e),
    }
}

/// Whether `res` can come of a reply. One of a kind that the stage does not wait for leaves the query
/// where it is.
pub open spec fn is_batch_step(
    q: BatchView,
    reply: BatchReplyView,
    res: Result<BatchNextView, ErrorView>,
) -> bool {
    match (q.stage, reply) {
        (BatchStageView::SignerScript, BatchReplyView::SignerScript(script)) => res
            == batch_after_signer(q, address_reading(script, q.network)),
        (BatchStageView::AddressUtxos { .. }, BatchReplyView::AddressUtxos(list)) => res
            == batch_after_utxos(q, oldest_dust_reading(list)),
        (BatchStageView::Bytecode { .. }, BatchReplyView::Bytecode(bytecode)) => res == Ok::<
            BatchNextView,
            ErrorView,
        >(batch_at(q, BatchStageView::GasEstimate { bytecode })),
        (BatchStageView::GasEstimate { bytecode }, BatchReplyView::GasEstimate(estimate)) => res
            == Ok::<BatchNextView, ErrorView>(
            batch_at(
                q,
                BatchStageView::Call {
                    bytecode,
                    gas: gas_text(gas_limit_of(estimate_of(estimate))),
                },
            ),
        ),
        (BatchStageView::Call { .. }, BatchReplyView::Call(reply)) => exists|
            unwraps: Result<Seq<UnwrapView>, ErrorView>,
        | #[trigger]
            is_batch_reading(q.program, q.network, reply, unwraps) && res == batch_after_call(
                unwraps,
            ),
        _ => res == Ok::<BatchNextView, ErrorView>(BatchNextView::Ask(q)),
    }
}

/// Reads the bytes in the reply to a call.
pub fn read_reply_bytes(reply: &Json) -> (res: Result<Vec<u8>, AlkanesError>)
    ensures
        result_view(res) == reply_bytes(*reply),
{
    match reply.as_str() {
        Some(text) => match hex_decode(strip_0x(text)) {
            Ok(bytes) => {
                assert(bytes.deep_view() =~= bytes@);
                Ok(bytes)
            },
            Err(e) => Err(
                AlkanesError::RpcError(join("Failed to decode response: ", e.message().as_str())),
            ),
        },
        None => Err(AlkanesError::RpcError("eth_call result is not a string".to_string())),
    }
}

/// Makes the unwraps that payments of a program stand for.
pub fn batch_unwraps_of(payments: Result<Vec<Payment>, AlkanesError>, network: Network) -> (res: Result<
    Vec<PendingUnwrap>,
    AlkanesError,
>)
    ensures
        result_view(res) == batch_unwraps(result_view(payments), network),
{
    match payments {
        Ok(payments) => Ok(pending_unwraps_of(&payments, TxidOrder::Display, network)),
        Err(e) => Err(e),
    }
}

/// Reads the unwraps in the reply to running the program.
pub fn read_batch_reply(program: BatchProgram, network: Network, reply: &Json) -> (res: Result<
    Vec<PendingUnwrap>,
    AlkanesError,
>)
    ensures
        is_batch_reading(program, network, *reply, result_view(res)),
{
    match read_reply_bytes(reply) {
        Ok(bytes) => {
            assert(bytes.deep_view() =~= bytes@);
            let payments = match program {
                BatchProgram::Asm => parse_abi_encoded_payments(bytes.as_slice()),
                BatchProgram::Sol => parse_abi_encoded_payments_sol(bytes.as_slice()),
            };
            assert(is_payments_reading(
                program,
                reply_bytes(*reply)->Ok_0,
                result_view(payments),
            ));
            batch_unwraps_of(payments, network)
        },
        Err(e) => Err(e),
    }
}

impl BatchQuery {
    /// What the query wants next.
    pub fn request(&self) -> (res: BatchRequest)
        ensures
            match self@.stage {
                BatchStageView::SignerScript => res is SignerScript,
                BatchStageView::AddressUtxos { address } => res matches BatchRequest::AddressUtxos(
                    asked,
                ) && asked@ == address,
                BatchStageView::Bytecode { oldest } => res == (BatchRequest::Bytecode {
                    cutoff: self@.cutoff_height,
                    oldest,
                }),
                BatchStageView::GasEstimate { bytecode } => res matches BatchRequest::GasEstimate(
                    call,
                ) && is_eth_request(
                    call,
                    self@.rpc_url,
                    "eth_estimateGas"@,
                    seq![("data"@, bytecode)],
                    self@.block_tag,
                ),
                BatchStageView::Call { bytecode, gas } => res matches BatchRequest::Call(call)
                    && is_eth_request(
                    call,
                    self@.rpc_url,
                    "eth_call"@,
                    seq![("data"@, bytecode), ("gas"@, gas)],
                    self@.block_tag,
                ),
            },
    {
        let url = self.rpc_url.as_str();
        let tag = self.block_tag.as_str();
        match &self.stage {
            BatchStage::SignerScript => BatchRequest::SignerScript,
            BatchStage::AddressUtxos { address } => BatchRequest::AddressUtxos(address.clone()),
            BatchStage::Bytecode { oldest } => BatchRequest::Bytecode {
                cutoff: self.cutoff_height,
                oldest: *oldest,
            },
            BatchStage::GasEstimate { bytecode } => BatchRequest::GasEstimate(
                eth_request_1(url, "eth_estimateGas", "data", bytecode.as_str(), tag),
            ),
            BatchStage::Call { bytecode, gas } => BatchRequest::Call(
                eth_request_2(
                    url,
                    "eth_call",
                    ("data", bytecode.as_str()),
                    ("gas", gas.as_str()),
                    tag,
                ),
            ),
        }
    }

    /// Goes on to another stage.
    fn at(self, stage: BatchStage) -> (res: BatchNext)
        ensures
            res.deep_view() == batch_at(self@, stage@),
    {
        BatchNext::Ask(
            BatchQuery {
                program: self.program,
                rpc_url: self.rpc_url,
                contract: self.contract,
                network: self.network,
                cutoff_height: self.cutoff_height,
                block_tag: self.block_tag,
                stage,
            },
        )
    }

    /// Goes on once the signer's address is known, or fails where it has none.
    pub fn signer_resolved(self, address: Result<String, AlkanesError>) -> (res: Result<
        BatchNext,
        AlkanesError,
    >)
        ensures
            result_view(res) == batch_after_signer(self@, result_view(address)),
    {
        match address {
            Ok(address) => Ok(self.at(BatchStage::AddressUtxos { address })),
            Err(e) => Err(e),
        }
    }

    /// Takes in a reply to the request. One of another kind leaves the query where it is.
    pub fn advance(self, reply: BatchReply) -> (res: Result<BatchNext, AlkanesError>)
        ensures
            is_batch_step(self@, reply@, result_view(res)),
    {
        let BatchQuery { program, rpc_url, contract, network, cutoff_height, block_tag, stage } =
            self;
        let query = BatchQuery {
            program,
            rpc_url,
            contract,
            network,
            cutoff_height,
            block_tag,
            stage: BatchStage::SignerScript,
        };
        match (stage, reply) {
            (BatchStage::SignerScript, BatchReply::SignerScript(script)) => {
                query.signer_resolved(script_pubkey_to_address(script.as_slice(), network))
            },
            (BatchStage::AddressUtxos { .. }, BatchReply::AddressUtxos(list)) => {
                match find_oldest_546_sat_utxo(&list) {
                    Ok(oldest) => {
                        let height: u64 = match oldest {
                            Some(height) => height,
                            None => 0,
                        };
                        Ok(query.at(BatchStage::Bytecode { oldest: height }))
                    },
                    Err(e) => Err(e),
                }
            },
            (BatchStage::Bytecode { .. }, BatchReply::Bytecode(bytecode)) => {
                Ok(query.at(BatchStage::GasEstimate { bytecode }))
            },
            (BatchStage::GasEstimate { bytecode }, BatchReply::GasEstimate(reply)) => {
                let estimate: Option<u64> = match &reply {
                    Some(reply) => Some(read_estimate(reply)),
                    None => None,
                };
                Ok(query.at(BatchStage::Call { bytecode, gas: gas_limit(estimate) }))
            },
            (BatchStage::Call { .. }, BatchReply::Call(reply)) => {
                let unwraps = read_batch_reply(program, network, &reply);
                assert(is_batch_reading(program, network, reply, result_view(unwraps)));
                match unwraps {
                    Ok(unwraps) => Ok(BatchNext::Done(unwraps)),
                    Err(e) => Err(e),
                }
            },
            (stage, _) => Ok(query.at(stage)),
        }
    }
}

} // verus!
