//! The error type of the dashboard.

use crate::text::joined;
use vstd::prelude::*;

verus! {

/// What an error says, as plain values.
pub enum ErrorView {
    AddressParse(Seq<char>),
    ServerRun(Seq<char>),
    ConfigRead(Seq<char>),
    ConfigParse(Seq<char>),
    JsonParse(Seq<char>),
    Generic(Seq<char>),
}

/// Error of the dashboard. Each variant carries the text of its cause.
#[derive(Debug, Clone, PartialEq, Eq)]
pub enum IronShieldError {
    /// A network address could not be parsed.
    AddressParse(String),
    /// The server failed while running.
    ServerRun(String),
    /// The configuration file could not be read.
    ConfigRead(String),
    /// The configuration could not be parsed.
    ConfigParse(String),
    /// A JSON text could not be parsed.
    JsonParse(String),
    /// Any other error, with its message.
    Generic(String),
}

impl View for IronShieldError {
    type V = ErrorView;

    open spec fn view(&self) -> ErrorView {
        match self {
            IronShieldError::AddressParse(e) => ErrorView::AddressParse(e@),
            IronShieldError::ServerRun(e) => ErrorView::ServerRun(e@),
            IronShieldError::ConfigRead(e) => ErrorView::ConfigRead(e@),
            IronShieldError::ConfigParse(e) => ErrorView::ConfigParse(e@),
            IronShieldError::JsonParse(e) => ErrorView::JsonParse(e@),
            IronShieldError::Generic(e) => ErrorView::Generic(e@),
        }
    }
}

/// The text that an error shows: what went wrong, then the cause.
pub open spec fn error_text(e: ErrorView) -> Seq<char> {
    match e {
        ErrorView::AddressParse(cause) => "Failed to parse network address: "@ + cause,
        ErrorView::ServerRun(cause) => "Server runtime error: "@ + cause,
        ErrorView::ConfigRead(cause) => "Failed to read configuration file: "@ + cause,
        ErrorView::ConfigParse(cause) => "Failed to parse configuration: "@ + cause,
        ErrorView::JsonParse(cause) => "Failed to parse JSON: "@ + cause,
        ErrorView::Generic(message) => "Error: "@ + message,
    }
}

impl IronShieldError {
    /// A `Generic` error with `message`.
    pub fn generic(message: &str) -> (error: IronShieldError)
        ensures
            error@ == ErrorView::Generic(message@),
    {
        IronShieldError::Generic(message.to_owned())
    }

    /// The text that the error shows.
    pub fn to_string(&self) -> (text: String)
        ensures
            text@ == error_text(self@),
    {
        match self {
            IronShieldError::AddressParse(e) => joined(
                "Failed to parse network address: ",
                e.as_str(),
            ),
            IronShieldError::ServerRun(e) => joined("Server runtime error: ", e.as_str()),
            IronShieldError::ConfigRead(e) => joined(
                "Failed to read configuration file: ",
                e.as_str(),
            ),
            IronShieldError::ConfigParse(e) => joined("Failed to parse configuration: ", e.as_str()),
            IronShieldError::JsonParse(e) => joined("Failed to parse JSON: ", e.as_str()),
            IronShieldError::Generic(e) => joined("Error: ", e.as_str()),
        }
    }

    /// Whether the error carries a cause of its own: every variant but
    /// `Generic` does.
    pub fn has_source(&self) -> (has: bool)
        ensures
            has == !(self@ is Generic),
    {
        match self {
            IronShieldError::Generic(_) => false,
            _ => true,
        }
    }
}

impl From<String> for IronShieldError {
    /// A `Generic` error with `message`.
    fn from(message: String) -> (error: IronShieldError) {
        IronShieldError::Generic(message)
    }
}

impl vstd::std_specs::convert::FromSpecImpl<String> for IronShieldError {
    open spec fn obeys_from_spec() -> bool {
        true
    }

    open spec fn from_spec(message: String) -> IronShieldError {
        IronShieldError::Generic(message)
    }
}

impl<'a> From<&'a str> for IronShieldError {
    /// A `Generic` error with `message`.
    fn from(message: &'a str) -> (error: IronShieldError)
        ensures
            error@ == ErrorView::Generic(message@),
    {
        IronShieldError::Generic(message.to_owned())
    }
}

/// The conversion from a text states its result by what the error says (see
/// `from`), not as one fixed value: the string it allocates is its own.
impl<'a> vstd::std_specs::convert::FromSpecImpl<&'a str> for IronShieldError {
    open spec fn obeys_from_spec() -> bool {
        false
    }

    open spec fn from_spec(message: &'a str) -> IronShieldError {
        arbitrary()
    }
}

} // verus!
