//! Pending unwraps of the FrBTC contract, as seen through BRC20-Prog.
pub mod abi;
pub mod abi_laws;
pub mod address;
pub mod batch;
pub mod batch_laws;
pub mod brc20_prog;
pub mod bytes;
pub mod error;
pub mod gas;
pub mod hexadecimal;
pub mod json;
pub mod json_laws;
pub mod operation_laws;
pub mod payment;
pub mod payment_laws;
pub mod reading_laws;
pub mod request_laws;
pub mod rpc;
pub mod scan;
pub mod scan_laws;
pub mod supply;
pub mod supply_laws;
pub mod text;
pub mod text_laws;
pub mod utxo;
pub mod view_laws;
