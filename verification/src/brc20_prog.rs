//! The BRC20-Prog side of unwrapping: which FrBTC contract is asked, and what it is asked.
use crate::address::Network;
use crate::batch::{BatchProgram, BatchQuery, BatchStage};
use crate::error::AlkanesError;
use crate::rpc::{eth_request_2, RpcCall};
use crate::scan::{cutoff_height, ScanQuery, ScanStage};
use vstd::prelude::*;

#[allow(unused_imports)]
use crate::batch::{BatchStageView, BatchView};
#[allow(unused_imports)]
use crate::error::ErrorView;
#[allow(unused_imports)]
use crate::rpc::is_eth_request;
#[allow(unused_imports)]
use crate::scan::{cutoff_of, ScanStageView, ScanView};
#[allow(unused_imports)]
use crate::supply::total_supply_selector;

verus! {

/// Unwraps of BRC20-Prog, found by calls to the FrBTC contract.
#[derive(Debug, PartialEq, Eq)]
pub struct Brc20ProgUnwrap {
    /// Address of the FrBTC contract to ask in place of the network's own.
    frbtc_address_override: Option<String>,
}

impl View for Brc20ProgUnwrap {
    type V = Option<Seq<char>>;

    /// The contract address that overrides the network's own, if any.
    closed spec fn view(&self) -> Option<Seq<char>> {
        match self.frbtc_address_override {
            Some(address) => Some(address@),
            None => None,
        }
    }
}

impl Brc20ProgUnwrap {
    /// No override: the network's own contract is asked.
    pub fn new() -> (res: Self)
        ensures
            res@ is None,
    {
        Brc20ProgUnwrap { frbtc_address_override: None }
    }

    /// The contract at `address` is asked.
    pub fn with_frbtc_address(address: &str) -> (res: Self)
        ensures
            res@ == Some(address@),
    {
        Brc20ProgUnwrap { frbtc_address_override: Some(address.to_string()) }
    }

    /// Sets the override, or takes it away.
    pub fn set_frbtc_address(&mut self, address: Option<&str>)
        ensures
            final(self)@ == (match address {
                Some(a) => Some(a@),
                None => None,
            }),
    {
        self.frbtc_address_override = match address {
            Some(a) => Some(a.to_string()),
            None => None,
        };
    }
}

/// The text that was given, or else the usual one.
pub open spec fn given_or(given: Option<Seq<char>>, usual: Seq<char>) -> Seq<char> {
    match given {
        Some(text) => text,
        None => usual,
    }
}

/// The text of an optional text.
pub open spec fn text_of(text: Option<&str>) -> Option<Seq<char>> {
    match text {
        Some(text) => Some(text@),
        None => None,
    }
}

/// The error where nothing says where BRC20-Prog is asked.
pub open spec fn no_url_error() -> ErrorView {
    ErrorView::Configuration("brc20_prog_rpc_url not configured"@)
}

/// The URL, or the error where there is none.
fn configured_url(rpc_url: Option<&str>) -> (res: Result<String, AlkanesError>)
    ensures
        match (rpc_url, res) {
            (Some(url), Ok(configured)) => configured@ == url@,
            (None, Err(e)) => e@ == no_url_error(),
            _ => false,
        },
{
    match rpc_url {
        Some(url) => Ok(url.to_string()),
        None => Err(
            AlkanesError::Configuration("brc20_prog_rpc_url not configured".to_string()),
        ),
    }
}

impl Brc20ProgUnwrap {
    /// Begins a scan for the unwraps of payments with so many confirmations, given the height of the
    /// chain, the network and its own contract, and where BRC20-Prog is asked. The scan asks the
    /// contract of the override where there is one.
    pub fn get_pending_unwraps(
        &self,
        current_height: u64,
        confirmations_required: u64,
        network: Network,
        own_address: &str,
        rpc_url: Option<&str>,
    ) -> (res: Result<ScanQuery, AlkanesError>)
        ensures
            match (rpc_url, res) {
                (Some(url), Ok(query)) => query@ == (ScanView {
                    rpc_url: url@,
                    contract: given_or(self@, own_address@),
                    network,
                    cutoff_height: cutoff_of(current_height, confirmations_required),
                    stage: ScanStageView::PaymentsLength,
                }),
                (None, Err(e)) => e@ == no_url_error(),
                _ => false,
            },
    {
        let cutoff_height: u64 = cutoff_height(current_height, confirmations_required);
        let contract = match &self.frbtc_address_override {
            Some(address) => address.clone(),
            None => own_address.to_string(),
        };
        match configured_url(rpc_url) {
            Ok(rpc_url) => Ok(
                ScanQuery {
                    rpc_url,
                    contract,
                    network,
                    cutoff_height,
                    stage: ScanStage::PaymentsLength,
                },
            ),
            Err(e) => Err(e),
        }
    }

    /// Begins a query that runs generated bytecode next to the contract. The contract and the block
    /// that are asked can be given; otherwise it is the network's own contract, in the latest block.
    pub fn get_pending_unwraps_experimental_asm(
        &self,
        current_height: u64,
        confirmations_required: u64,
        network: Network,
        own_address: &str,
        rpc_url: Option<&str>,
        frbtc_address_override: Option<&str>,
        block_tag: Option<&str>,
    ) -> (res: Result<BatchQuery, AlkanesError>)
        ensures
            match (rpc_url, res) {
                (Some(url), Ok(query)) => query@ == (BatchView {
                    program: BatchProgram::Asm,
                    rpc_url: url@,
                    contract: given_or(text_of(frbtc_address_override), own_address@),
                    network,
                    cutoff_height: cutoff_of(current_height, confirmations_required),
                    block_tag: given_or(text_of(block_tag), "latest"@),
                    stage: BatchStageView::SignerScript,
                }),
                (None, Err(e)) => e@ == no_url_error(),
                _ => false,
            },
    {
        begin_batch(
            BatchProgram::Asm,
            cutoff_height(current_height, confirmations_required),
            network,
            own_address,
            rpc_url,
            frbtc_address_override,
            block_tag,
        )
    }

    /// Begins a query that runs the compiled contract next to the contract. The contract and the block
    /// that are asked can be given; otherwise it is the network's own contract, in the latest block.
    pub fn get_pending_unwraps_experimental_sol(
        &self,
        current_height: u64,
        confirmations_required: u64,
        network: Network,
        own_address: &str,
        rpc_url: Option<&str>,
        frbtc_address_override: Option<&str>,
        block_tag: Option<&str>,
    ) -> (res: Result<BatchQuery, AlkanesError>)
        ensures
            match (rpc_url, res) {
                (Some(url), Ok(query)) => query@ == (BatchView {
                    program: BatchProgram::Sol,
                    rpc_url: url@,
                    contract: given_or(text_of(frbtc_address_override), own_address@),
                    network,
                    cutoff_height: cutoff_of(current_height, confirmations_required),
                    block_tag: given_or(text_of(block_tag), "latest"@),
                    stage: BatchStageView::SignerScript,
                }),
                (None, Err(e)) => e@ == no_url_error(),
                _ => false,
            },
    {
        begin_batch(
            BatchProgram::Sol,
            cutoff_height(current_height, confirmations_required),
            network,
            own_address,
            rpc_url,
            frbtc_address_override,
            block_tag,
        )
    }

    /// The call that asks the contract for the total supply of frBTC: the contract of the override where
    /// there is one, and otherwise the network's own. Its reply is read with
    /// [`crate::supply::read_total_supply`].
    pub fn get_total_supply(&self, own_address: &str, rpc_url: Option<&str>) -> (res: Result<
        RpcCall,
        AlkanesError,
    >)
        ensures
            match (rpc_url, res) {
                (Some(url), Ok(call)) => is_eth_request(
                    call,
                    url@,
                    "eth_call"@,
                    seq![
                        ("to"@, given_or(self@, own_address@)),
                        ("data"@, total_supply_selector()),
                    ],
                    "latest"@,
                ),
                (None, Err(e)) => e@ == no_url_error(),
                _ => false,
            },
    {
        let contract = match &self.frbtc_address_override {
            Some(address) => address.as_str(),
            None => own_address,
        };
        match configured_url(rpc_url) {
            Ok(url) => Ok(
                eth_request_2(
                    url.as_str(),
                    "eth_call",
                    ("to", contract),
                    ("data", "0x18160ddd"),
                    "latest",
                ),
            ),
            Err(e) => Err(e),
        }
    }

    /// The name of the metaprotocol.
    pub fn protocol_name(&self) -> (res: &'static str)
        ensures
            res@ == "brc20-prog"@,
    {
        "brc20-prog"
    }
}

/// Begins a query that runs a program next to the contract.
fn begin_batch(
    program: BatchProgram,
    cutoff_height: u64,
    network: Network,
    own_address: &str,
    rpc_url: Option<&str>,
    frbtc_address_override: Option<&str>,
    block_tag: Option<&str>,
) -> (res: Result<BatchQuery, AlkanesError>)
    ensures
        match (rpc_url, res) {
            (Some(url), Ok(query)) => query@ == (BatchView {
                program,
                rpc_url: url@,
                contract: given_or(text_of(frbtc_address_override), own_address@),
                network,
                cutoff_height,
                block_tag: given_or(text_of(block_tag), "latest"@),
                stage: BatchStageView::SignerScript,
            }),
            (None, Err(e)) => e@ == no_url_error(),
            _ => false,
        },
{
    let contract = match frbtc_address_override {
        Some(address) => address.to_string(),
        None => own_address.to_string(),
    };
    let block_tag = match block_tag {
        Some(tag) => tag.to_string(),
        None => "latest".to_string(),
    };
    match configured_url(rpc_url) {
        Ok(rpc_url) => Ok(
            BatchQuery {
                program,
                rpc_url,
                contract,
                network,
                cutoff_height,
                block_tag,
                stage: BatchStage::SignerScript,
            },
        ),
        Err(e) => Err(e),
    }
}

impl Default for Brc20ProgUnwrap {
    /// The same as [`Brc20ProgUnwrap::new`].
    fn default() -> (res: Self)
        ensures
            res@ is None,
    {
        Self::new()
    }
}

} // verus!
