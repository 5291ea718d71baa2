//! Non-fatal errors of the language server, and the responses that report them.
use vstd::prelude::*;

use crate::text::{decimal, decimal_text};

verus! {

/// A zero-based line and character offset in a document.
#[derive(Copy, Clone, PartialEq, Eq, Structural, Debug)]
pub struct TextPosition {
    pub line: u32,
    pub character: u32,
}

/// Non-fatal errors of the language server. URLs are held as their text.
#[derive(Debug)]
pub enum Error {
    SchemeNotSupported(String),
    InvalidPath(String),
    FileNotFound(String),
    InvalidPosition { pos: TextPosition, file: String },
    MethodNotFound,
    CommandNotFound(String),
    FormattingFailed { details: String, file: String },
    /// An error of the configuration language that is not turned into a diagnostic,
    /// by its debug text.
    Nickel(String),
}

/// The JSON-RPC error classes that the language server answers with.
#[derive(Copy, Clone, PartialEq, Eq, Structural, Debug)]
pub enum ResponseCode {
    InvalidParams,
    MethodNotFound,
    InternalError,
}

/// The code and message of an error response.
#[derive(Debug)]
pub struct ResponseErrorParts {
    pub code: i32,
    pub message: String,
}

/// The class of response that each error gets.
pub open spec fn response_code_of(e: &Error) -> ResponseCode {
    match e {
        Error::FileNotFound(_) => ResponseCode::InvalidParams,
        Error::InvalidPosition { .. } => ResponseCode::InvalidParams,
        Error::SchemeNotSupported(_) => ResponseCode::InvalidParams,
        Error::InvalidPath(_) => ResponseCode::InvalidParams,
        Error::CommandNotFound(_) => ResponseCode::InvalidParams,
        Error::MethodNotFound => ResponseCode::MethodNotFound,
        Error::FormattingFailed { .. } => ResponseCode::InternalError,
        Error::Nickel(_) => ResponseCode::InternalError,
    }
}

/// The JSON-RPC number of each class.
pub open spec fn jsonrpc_number(code: ResponseCode) -> i32 {
    match code {
        ResponseCode::InvalidParams => -32602i32,
        ResponseCode::MethodNotFound => -32601i32,
        ResponseCode::InternalError => -32603i32,
    }
}

/// The debug text of a position.
pub open spec fn position_debug(pos: TextPosition) -> Seq<char> {
    "Position { line: "@ + decimal(pos.line as nat) + ", character: "@ + decimal(
        pos.character as nat,
    ) + " }"@
}

/// The message of each error.
pub open spec fn message_of(e: &Error) -> Seq<char> {
    match e {
        Error::SchemeNotSupported(s) => "scheme not supported: "@ + s@,
        Error::InvalidPath(url) => "invalid path: "@ + url@,
        Error::FileNotFound(url) => "file "@ + url@ + " not found"@,
        Error::InvalidPosition { pos, file } => "position "@ + position_debug(*pos)
            + " invalid for file "@ + file@,
        Error::MethodNotFound => "Method not supported"@,
        Error::CommandNotFound(c) => "Command not supported: "@ + c@,
        Error::FormattingFailed { details, file } => "formatting failed for file "@ + file@ + ": "@
            + details@,
        Error::Nickel(d) => "unhandled nickel error: "@ + d@,
    }
}

/// The number of a JSON-RPC error class, read from `lsp_server::ErrorCode` (whose
/// source gives `InvalidParams = -32602`, `MethodNotFound = -32601` and
/// `InternalError = -32603`).
#[verifier::external_body]
fn jsonrpc_code(code: ResponseCode) -> (number: i32)
    ensures
        number == jsonrpc_number(code),
{
    let code = match code {
        ResponseCode::InvalidParams => lsp_server::ErrorCode::InvalidParams,
        ResponseCode::MethodNotFound => lsp_server::ErrorCode::MethodNotFound,
        ResponseCode::InternalError => lsp_server::ErrorCode::InternalError,
    };
    code as i32
}

/// Appends `text` to `out`.
fn push_text(out: &mut String, text: &str)
    ensures
        final(out)@ == old(out)@ + text@,
{
    out.append(text);
}

impl Error {
    /// The class of response that this error gets.
    pub fn response_code(&self) -> (code: ResponseCode)
        ensures
            code == response_code_of(self),
    {
        match self {
            Error::FileNotFound(_) => ResponseCode::InvalidParams,
            Error::InvalidPosition { .. } => ResponseCode::InvalidParams,
            Error::SchemeNotSupported(_) => ResponseCode::InvalidParams,
            Error::InvalidPath(_) => ResponseCode::InvalidParams,
            Error::CommandNotFound(_) => ResponseCode::InvalidParams,
            Error::MethodNotFound => ResponseCode::MethodNotFound,
            Error::FormattingFailed { .. } => ResponseCode::InternalError,
            Error::Nickel(_) => ResponseCode::InternalError,
        }
    }

    /// The message of this error.
    pub fn message(&self) -> (message: String)
        ensures
            message@ == message_of(self),
    {
        let mut m = String::new();
        match self {
            Error::SchemeNotSupported(s) => {
                push_text(&mut m, "scheme not supported: ");
                push_text(&mut m, s.as_str());
            },
            Error::InvalidPath(url) => {
                push_text(&mut m, "invalid path: ");
                push_text(&mut m, url.as_str());
            },
            Error::FileNotFound(url) => {
                push_text(&mut m, "file ");
                push_text(&mut m, url.as_str());
                push_text(&mut m, " not found");
            },
            Error::InvalidPosition { pos, file } => {
                push_text(&mut m, "position ");
                push_text(&mut m, "Position { line: ");
                push_text(&mut m, decimal_text(pos.line as u128).as_str());
                push_text(&mut m, ", character: ");
                push_text(&mut m, decimal_text(pos.character as u128).as_str());
                push_text(&mut m, " }");
                push_text(&mut m, " invalid for file ");
                push_text(&mut m, file.as_str());
            },
            Error::MethodNotFound => {
                push_text(&mut m, "Method not supported");
            },
            Error::CommandNotFound(c) => {
                push_text(&mut m, "Command not supported: ");
                push_text(&mut m, c.as_str());
            },
            Error::FormattingFailed { details, file } => {
                push_text(&mut m, "formatting failed for file ");
                push_text(&mut m, file.as_str());
                push_text(&mut m, ": ");
                push_text(&mut m, details.as_str());
            },
            Error::Nickel(d) => {
                push_text(&mut m, "unhandled nickel error: ");
                push_text(&mut m, d.as_str());
            },
        }
        assert(m@ =~= message_of(self));
        m
    }

    /// The error response for this error: its JSON-RPC code and its message.
    pub fn response_error(self) -> (response: ResponseErrorParts)
        ensures
            response.code == jsonrpc_number(response_code_of(&self)),
            response.message@ == message_of(&self),
    {
        let code = jsonrpc_code(self.response_code());
        let message = self.message();
        ResponseErrorParts { code, message }
    }
}

} // verus!
