//! Waiting for activity on a link.
//!
//! The engine does not block. A wait is a sequence of steps: each step says
//! either how the wait ended, or that the callback is to be called and its
//! answer handed to the next step. The program that owns the transport runs
//! the steps.

use vstd::prelude::*;
use vstd::string::*;
use core::ops::ControlFlow;
use crate::error::{custom_error, Error, ErrorView};
use crate::link::{plain, Link, LinkView};
use crate::sys::{WSWAITCALLBACKABORTED, WSWAITERROR, WSWAITSUCCESS};
use crate::text::{decimal, push_decimal_i64};

verus! {

/// What a step of a wait decides.
#[derive(Debug)]
pub enum WaitStep {
    /// The wait has ended: with `true` where the link has activity, with
    /// `false` where the callback asked to stop, with the error of the link
    /// where it has one.
    Finished(Result<bool, Error>),
    /// The wait goes on: the callback is to be called.
    Call,
}

/// A step of a wait, as mathematical values.
pub enum WaitStepView {
    /// The wait has ended.
    Finished(Result<bool, ErrorView>),
    /// The wait goes on: the callback is to be called.
    Call,
}

impl View for WaitStep {
    type V = WaitStepView;

    open spec fn view(&self) -> WaitStepView {
        match self {
            WaitStep::Finished(outcome) => WaitStepView::Finished(plain(*outcome)),
            WaitStep::Call => WaitStepView::Call,
        }
    }
}

/// The error for a result of waiting that has no meaning.
pub open spec fn unexpected_wait_error(code: int) -> ErrorView {
    custom_error("WSWaitForLinkActivity returned unexpected value: "@ + decimal(code))
}

impl LinkView {
    /// What a wait finds on the link without waiting: `Some(Ok)` where there
    /// is something to read, `Some(Err)` where the link holds an error, and
    /// `None` where the wait must go on.
    pub open spec fn activity(self) -> Option<Result<(), ErrorView>> {
        if self.is_ready() {
            Some(Ok(()))
        } else if self.error is Some {
            Some(Err(self.error_or_unknown()))
        } else {
            None
        }
    }

    /// A step of a wait with a callback, where `signal` is what the callback
    /// answered when the step before asked for it to be called. An answer to
    /// stop ends the wait at once. Otherwise the wait ends where the link has
    /// activity or an error, and the callback is called where it has neither.
    pub open spec fn wait_step(self, signal: Option<ControlFlow<()>>) -> (LinkView, WaitStepView) {
        let ended = LinkView { waiting: false, ..self };
        if signal matches Some(ControlFlow::Break(_)) {
            (ended, WaitStepView::Finished(Ok(false)))
        } else {
            match self.activity() {
                Some(Ok(_)) => (ended, WaitStepView::Finished(Ok(true))),
                Some(Err(error)) => (ended, WaitStepView::Finished(Err(error))),
                None => (self, WaitStepView::Call),
            }
        }
    }

    /// The outcome of a wait that the transport has carried out, from the
    /// code that it returned.
    pub open spec fn wait_result(self, code: i32) -> Result<(), ErrorView> {
        if code == WSWAITSUCCESS {
            Ok(())
        } else if code == WSWAITERROR {
            Err(self.error_or_unknown())
        } else {
            Err(unexpected_wait_error(code as int))
        }
    }

    /// The outcome of a wait with a callback that the transport has carried
    /// out, from the code that it returned.
    pub open spec fn wait_with_callback_result(self, code: i32) -> Result<bool, ErrorView> {
        if code == WSWAITSUCCESS {
            Ok(true)
        } else if code == WSWAITCALLBACKABORTED {
            Ok(false)
        } else if code == WSWAITERROR {
            Err(self.error_or_unknown())
        } else {
            Err(unexpected_wait_error(code as int))
        }
    }
}

/// What the callback of a wait tells the transport: 0 to go on waiting, 1 to
/// stop. `outcome` is what the callback returned, or `None` where it
/// panicked, which stops the wait.
pub fn callback_signal(outcome: Option<ControlFlow<()>>) -> (signal: i32)
    ensures
        signal == (if outcome matches Some(ControlFlow::Continue(_)) {
            0i32
        } else {
            1i32
        }),
{
    match outcome {
        Some(ControlFlow::Continue(())) => 0,
        Some(ControlFlow::Break(())) => 1,
        // If a panic occurs, stop waiting.
        None => 1,
    }
}

/// The error for a result of waiting that has no meaning.
fn unexpected_wait(code: i32) -> (error: Error)
    ensures
        error@ == unexpected_wait_error(code as int),
{
    let mut message: String = String::from_str("WSWaitForLinkActivity returned unexpected value: ");
    push_decimal_i64(&mut message, code as i64);
    Error::custom(message)
}

impl Link {
    /// What a wait finds on this link without waiting: `Some(Ok)` where
    /// there is something to read, `Some(Err)` where the link holds an
    /// error, and `None` where the wait must go on.
    pub fn wait(&self) -> (found: Option<Result<(), Error>>)
        ensures
            match self@.activity() {
                Some(outcome) => found matches Some(f) && plain(f) == outcome,
                None => found is None,
            },
    {
        if self.is_ready() {
            Some(Ok(()))
        } else if self.error().is_some() {
            Some(Err(self.error_or_unknown()))
        } else {
            None
        }
    }

    /// The outcome of a wait that the transport has carried out, from the
    /// code that it returned.
    pub fn wait_result(&self, code: i32) -> (outcome: Result<(), Error>)
        ensures
            plain(outcome) == self@.wait_result(code),
    {
        if code == WSWAITSUCCESS {
            Ok(())
        } else if code == WSWAITERROR {
            Err(self.error_or_unknown())
        } else {
            Err(unexpected_wait(code))
        }
    }

    /// The outcome of a wait with a callback that the transport has carried
    /// out, from the code that it returned.
    pub fn wait_with_callback_result(&self, code: i32) -> (outcome: Result<bool, Error>)
        ensures
            plain(outcome) == self@.wait_with_callback_result(code),
    {
        if code == WSWAITSUCCESS {
            Ok(true)
        } else if code == WSWAITCALLBACKABORTED {
            Ok(false)
        } else if code == WSWAITERROR {
            Err(self.error_or_unknown())
        } else {
            Err(unexpected_wait(code))
        }
    }

    /// Begins to wait for data to become available, periodically calling a
    /// callback. The wait is carried on by [`Link::wait_step`].
    ///
    /// No wait with a callback may be under way on this link:
    /// [`Link::is_waiting`] tells.
    pub fn wait_with_callback(&mut self)
        requires
            !old(self)@.waiting,
        ensures
            final(self)@ == (LinkView { waiting: true, ..old(self)@ }),
    {
        self.set_waiting(true);
    }

    /// A step of the wait that [`Link::wait_with_callback`] began. The first
    /// step takes no `signal`; each further step takes what the callback
    /// answered. The wait ends with the step that says so.
    pub fn wait_step(&mut self, signal: Option<ControlFlow<()>>) -> (step: WaitStep)
        requires
            old(self)@.waiting,
        ensures
            final(self)@ == old(self)@.wait_step(signal).0,
            step@ == old(self)@.wait_step(signal).1,
    {
        let stop: bool = match signal {
            Some(ControlFlow::Break(())) => true,
            _ => false,
        };
        if stop {
            self.set_waiting(false);
            return WaitStep::Finished(Ok(false));
        }
        match self.wait() {
            Some(Ok(())) => {
                self.set_waiting(false);
                WaitStep::Finished(Ok(true))
            },
            Some(Err(error)) => {
                self.set_waiting(false);
                WaitStep::Finished(Err(error))
            },
            None => WaitStep::Call,
        }
    }
}

} // verus!
