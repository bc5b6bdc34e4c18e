//! The errors of the library.
use crate::text::join;
use vstd::prelude::*;

verus! {

/// Why a query could not be answered, with a message for the reader.
#[derive(Debug, PartialEq, Eq)]
pub enum AlkanesError {
    /// A setting that the query needs is missing.
    Configuration(String),
    /// A reply of the remote side does not have the form that was asked for.
    RpcError(String),
    /// A script has no address.
    AddressResolution(String),
}

/// An [`AlkanesError`] with its message as a sequence of characters.
pub enum ErrorView {
    Configuration(Seq<char>),
    RpcError(Seq<char>),
    AddressResolution(Seq<char>),
}

impl View for AlkanesError {
    type V = ErrorView;

    open spec fn view(&self) -> ErrorView {
        match self {
            AlkanesError::Configuration(message) => ErrorView::Configuration(message@),
            AlkanesError::RpcError(message) => ErrorView::RpcError(message@),
            AlkanesError::AddressResolution(message) => ErrorView::AddressResolution(message@),
        }
    }
}

/// A result with what it carries as a value of the specification.
pub open spec fn result_view<T: DeepView>(res: Result<T, AlkanesError>) -> Result<T::V, ErrorView> {
    match res {
        Ok(value) => Ok(value.deep_view()),
        Err(e) => Err(e@),
    }
}

/// The error as a reader is shown it: its kind, then its message.
pub open spec fn error_text(e: ErrorView) -> Seq<char> {
    match e {
        ErrorView::Configuration(message) => "Configuration error: "@ + message,
        ErrorView::RpcError(message) => "RPC error: "@ + message,
        ErrorView::AddressResolution(message) => "Address resolution error: "@ + message,
    }
}

impl AlkanesError {
    /// The error as a reader is shown it: its kind, then its message.
    pub fn to_text(&self) -> (res: String)
        ensures
            res@ == error_text(self@),
    {
        match self {
            AlkanesError::Configuration(message) => join("Configuration error: ", message.as_str()),
            AlkanesError::RpcError(message) => join("RPC error: ", message.as_str()),
            AlkanesError::AddressResolution(message) => {
                join("Address resolution error: ", message.as_str())
            },
        }
    }
}

} // verus!
