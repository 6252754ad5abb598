//! The error that every fallible operation on a link returns.

use vstd::prelude::*;
use vstd::string::*;
use crate::text::{decimal, push_decimal_i64};

verus! {

/// WSTP link error.
///
/// Use [`Error::code()`] to retrieve the WSTP error code, if applicable. An
/// error without a code was raised by this library itself and not by the
/// transport.
#[derive(Clone, Debug, PartialEq)]
pub struct Error {
    /// The error code of the transport, where it gave one.
    pub code: Option<i32>,
    /// What went wrong, in words.
    pub message: String,
}

/// What an [`Error`] holds, as mathematical values.
pub struct ErrorView {
    /// The error code of the transport, where it gave one.
    pub code: Option<i32>,
    /// The characters of the message.
    pub message: Seq<char>,
}

impl View for Error {
    type V = ErrorView;

    open spec fn view(&self) -> ErrorView {
        ErrorView { code: self.code, message: self.message@ }
    }
}

/// The error raised by this library with the given message.
pub open spec fn custom_error(message: Seq<char>) -> ErrorView {
    ErrorView { code: None, message }
}

/// The message that stands for an error code for which the transport has no
/// description.
pub open spec fn code_message(code: int) -> Seq<char> {
    "WSTP error code "@ + decimal(code) + " occurred."@
}

/// The error of the transport with the given code: it carries the
/// transport's description `looked_up` where there is one, and the message of
/// [`code_message`] where there is none.
pub open spec fn coded_error(code: i32, looked_up: Option<Seq<char>>) -> ErrorView {
    ErrorView {
        code: Some(code),
        message: match looked_up {
            Some(message) => message,
            None => code_message(code as int),
        },
    }
}

/// The text that displays an error.
pub open spec fn error_text(error: ErrorView) -> Seq<char> {
    match error.code {
        Some(code) => "WSTP error (code "@ + decimal(code as int) + "): "@ + error.message,
        None => "WSTP error: "@ + error.message,
    }
}

impl Error {
    /// Get the WSTP error code, if applicable.
    pub fn code(&self) -> (code: Option<i32>)
        ensures
            code == self@.code,
    {
        self.code
    }

    /// The message of this error.
    pub fn message(&self) -> (message: &str)
        ensures
            message@ == self@.message,
    {
        self.message.as_str()
    }

    /// An error raised by this library, which has no code.
    pub fn custom(message: String) -> (error: Error)
        ensures
            error@ == custom_error(message@),
    {
        Error { code: None, message }
    }

    /// An error of the transport with the given code. `looked_up` is the
    /// transport's description of the code, where it has one.
    pub fn from_code(code: i32, looked_up: Option<String>) -> (error: Error)
        ensures
            error@ == coded_error(
                code,
                match looked_up {
                    Some(message) => Some(message@),
                    None => None,
                },
            ),
    {
        let message: String = match looked_up {
            Some(message) => message,
            None => {
                let mut text: String = String::from_str("WSTP error code ");
                push_decimal_i64(&mut text, code as i64);
                text.append(" occurred.");
                text
            },
        };
        Error { code: Some(code), message }
    }

    /// The text that displays this error.
    pub fn to_string(&self) -> (text: String)
        ensures
            text@ == error_text(self@),
    {
        match self.code {
            Some(code) => {
                let mut text: String = String::from_str("WSTP error (code ");
                push_decimal_i64(&mut text, code as i64);
                text.append("): ");
                text.append(self.message.as_str());
                text
            },
            None => {
                let mut text: String = String::from_str("WSTP error: ");
                text.append(self.message.as_str());
                text
            },
        }
    }
}

} // verus!
