//! Utilities for interacting with a Wolfram Kernel process via WSTP.
//!
//! The kernel speaks in packets: an expression is sent to it for evaluation
//! as an `EvaluatePacket`.

use vstd::prelude::*;
use vstd::string::*;
use crate::error::{error_text, Error as WstpError, ErrorView};
use crate::expr::{Expr, ExprView};
use crate::link::{Link, LinkView};

verus! {

/// Wolfram Kernel process error.
#[derive(Debug, PartialEq, Eq)]
pub struct Error(pub String);

impl View for Error {
    type V = Seq<char>;

    open spec fn view(&self) -> Seq<char> {
        self.0@
    }
}

/// The message of the kernel error that stands for an error of a link.
pub open spec fn link_failure(error: ErrorView) -> Seq<char> {
    "WSTP error: "@ + error_text(error)
}

impl Error {
    /// The kernel error that stands for an error of a link.
    pub fn from(err: WstpError) -> (error: Error)
        ensures
            error@ == link_failure(err@),
    {
        let mut message: String = String::from_str("WSTP error: ");
        let text: String = err.to_string();
        message.append(text.as_str());
        Error(message)
    }

    /// The message of this error.
    pub fn message(&self) -> (message: &str)
        ensures
            message@ == self@,
    {
        self.0.as_str()
    }
}

impl LinkView {
    /// Writing a packet that asks for the evaluation of `expr`: the function
    /// ``System`EvaluatePacket`` of one argument, the expression, and the
    /// end of the packet. Writing stops at the first step that fails.
    pub open spec fn put_eval_packet(self, expr: ExprView) -> (LinkView, Result<(), ErrorView>) {
        let (started, start) = self.put_function(Some("System`EvaluatePacket"@), 1);
        if start is Err {
            (started, start)
        } else {
            let (written, body) = started.put_expr(expr);
            if body is Err {
                (written, body)
            } else {
                written.end_packet()
            }
        }
    }
}

impl Link {
    /// Put an `EvaluatePacket[expr]` onto the link.
    pub fn put_eval_packet(&mut self, expr: &Expr) -> (done: Result<(), Error>)
        ensures
            final(self)@ == old(self)@.put_eval_packet(expr@).0,
            match old(self)@.put_eval_packet(expr@).1 {
                Ok(_) => done is Ok,
                Err(error) => done matches Err(e) && e@ == link_failure(error),
            },
    {
        match self.put_function(Some("System`EvaluatePacket"), 1) {
            Ok(()) => {},
            Err(error) => {
                return Err(Error::from(error));
            },
        }
        match self.put_expr(expr) {
            Ok(()) => {},
            Err(error) => {
                return Err(Error::from(error));
            },
        }
        match self.end_packet() {
            Ok(()) => Ok(()),
            Err(error) => Err(Error::from(error)),
        }
    }
}

} // verus!
