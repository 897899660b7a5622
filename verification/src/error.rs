//! What can go wrong while a command is read or carried out.
use crate::decimal::NumberError;
use crate::json::{Json, JsonTree};
use vstd::prelude::*;

verus! {

/// A command could not be carried out.
#[derive(Debug, PartialEq)]
pub enum ClientError {
    /// Calibre is told about it with this document.
    ProtocolError(Json),
    ApplicationError(String),
    /// A JSON document is malformed, or not what was expected; with the cause.
    Json(String),
    /// A file could not be read or written; with the cause.
    File(String),
    /// Anything else; with the cause.
    Other(String),
}

/// [`ClientError`] as a mathematical value.
pub enum ClientErrorView {
    ProtocolError(JsonTree),
    ApplicationError(Seq<char>),
    Json(Seq<char>),
    File(Seq<char>),
    Other(Seq<char>),
}

impl View for ClientError {
    type V = ClientErrorView;

    open spec fn view(&self) -> ClientErrorView {
        match self {
            ClientError::ProtocolError(json) => ClientErrorView::ProtocolError(json@),
            ClientError::ApplicationError(text) => ClientErrorView::ApplicationError(text@),
            ClientError::Json(cause) => ClientErrorView::Json(cause@),
            ClientError::File(cause) => ClientErrorView::File(cause@),
            ClientError::Other(cause) => ClientErrorView::Other(cause@),
        }
    }
}

impl ClientErrorView {
    /// The error in words, with its cause.
    pub open spec fn report(self) -> Seq<char> {
        match self {
            ClientErrorView::ProtocolError(
                _,
            ) => "An error occured carrying out a command from Calibre"@,
            ClientErrorView::ApplicationError(_) => "An error occured doing our own thing"@,
            ClientErrorView::Json(cause) => "JSON!: "@ + cause,
            ClientErrorView::File(cause) => "Files!: "@ + cause,
            ClientErrorView::Other(cause) => "Other: "@ + cause,
        }
    }
}

impl ClientError {
    /// The error in words, with its cause.
    pub fn report(&self) -> (text: String)
        ensures
            text@ == self@.report(),
    {
        match self {
            ClientError::ProtocolError(
                _,
            ) => "An error occured carrying out a command from Calibre".to_owned(),
            ClientError::ApplicationError(_) => "An error occured doing our own thing".to_owned(),
            ClientError::Json(cause) => "JSON!: ".to_owned().concat(cause.as_str()),
            ClientError::File(cause) => "Files!: ".to_owned().concat(cause.as_str()),
            ClientError::Other(cause) => "Other: ".to_owned().concat(cause.as_str()),
        }
    }
}

/// A command could not be read.
#[derive(Debug, PartialEq)]
pub enum ReadError {
    /// The connection failed; with the cause.
    Io(String),
    /// The bytes are not UTF-8; with the cause.
    Utf8(String),
    /// What stands in front of the message is not its length.
    Length(NumberError),
    /// The message is not JSON; with the cause.
    Json(String),
    /// The message is not a command.
    Client(ClientError),
}

/// [`ReadError`] as a mathematical value.
pub enum ReadErrorView {
    Io(Seq<char>),
    Utf8(Seq<char>),
    Length(NumberError),
    Json(Seq<char>),
    Client(ClientErrorView),
}

impl View for ReadError {
    type V = ReadErrorView;

    open spec fn view(&self) -> ReadErrorView {
        match self {
            ReadError::Io(cause) => ReadErrorView::Io(cause@),
            ReadError::Utf8(cause) => ReadErrorView::Utf8(cause@),
            ReadError::Length(error) => ReadErrorView::Length(*error),
            ReadError::Json(cause) => ReadErrorView::Json(cause@),
            ReadError::Client(error) => ReadErrorView::Client(error@),
        }
    }
}

impl ReadErrorView {
    /// The error in words.
    pub open spec fn report(self) -> Seq<char> {
        match self {
            ReadErrorView::Io(cause) => cause,
            ReadErrorView::Utf8(cause) => cause,
            ReadErrorView::Length(error) => error.message_spec(),
            ReadErrorView::Json(cause) => cause,
            ReadErrorView::Client(error) => error.report(),
        }
    }
}

impl ReadError {
    /// The error in words.
    pub fn report(&self) -> (text: String)
        ensures
            text@ == self@.report(),
    {
        match self {
            ReadError::Io(cause) => cause.clone(),
            ReadError::Utf8(cause) => cause.clone(),
            ReadError::Length(error) => error.message().to_owned(),
            ReadError::Json(cause) => cause.clone(),
            ReadError::Client(error) => error.report(),
        }
    }
}

/// There is no client.
#[derive(Debug, PartialEq)]
pub enum SetupError {
    /// The search for the server failed; with the cause.
    Search(String),
    Client(ClientError),
}

/// [`SetupError`] as a mathematical value.
pub enum SetupErrorView {
    Search(Seq<char>),
    Client(ClientErrorView),
}

impl View for SetupError {
    type V = SetupErrorView;

    open spec fn view(&self) -> SetupErrorView {
        match self {
            SetupError::Search(cause) => SetupErrorView::Search(cause@),
            SetupError::Client(error) => SetupErrorView::Client(error@),
        }
    }
}

impl SetupErrorView {
    /// The error in words.
    pub open spec fn report(self) -> Seq<char> {
        match self {
            SetupErrorView::Search(cause) => cause,
            SetupErrorView::Client(error) => error.report(),
        }
    }
}

impl SetupError {
    /// The error in words.
    pub fn report(&self) -> (text: String)
        ensures
            text@ == self@.report(),
    {
        match self {
            SetupError::Search(cause) => cause.clone(),
            SetupError::Client(error) => error.report(),
        }
    }
}

/// An error in words says of which kind it is and gives its whole cause.
pub proof fn law_errors_are_reported_with_their_cause(
    cause: Seq<char>,
    document: JsonTree,
    error: ClientErrorView,
    number: NumberError,
)
    ensures
        ClientErrorView::ProtocolError(document).report()
            == "An error occured carrying out a command from Calibre"@,
        ClientErrorView::ApplicationError(cause).report()
            == "An error occured doing our own thing"@,
        ClientErrorView::Json(cause).report() == "JSON!: "@ + cause,
        ClientErrorView::File(cause).report() == "Files!: "@ + cause,
        ClientErrorView::Other(cause).report() == "Other: "@ + cause,
        ReadErrorView::Io(cause).report() == cause,
        ReadErrorView::Utf8(cause).report() == cause,
        ReadErrorView::Json(cause).report() == cause,
        ReadErrorView::Length(number).report() == number.message_spec(),
        ReadErrorView::Client(error).report() == error.report(),
        SetupErrorView::Search(cause).report() == cause,
        SetupErrorView::Client(error).report() == error.report(),
{
}

} // verus!
