//! Numeric constants of the WSTP C interface: token type tags, error codes
//! and the results of waiting for link activity.

use vstd::prelude::*;

verus! {

/// Type tag reported when the next token could not be determined.
pub const WSTKERR: i32 = 0;

/// Type tag of a string token (the character `"`).
pub const WSTKSTR: u8 = 34;

/// Type tag of a symbol token (the character `#`).
pub const WSTKSYM: u8 = 35;

/// Type tag of a real number token (the character `*`).
pub const WSTKREAL: u8 = 42;

/// Type tag of an integer token (the character `+`).
pub const WSTKINT: u8 = 43;

/// Type tag of a function token (the character `F`).
pub const WSTKFUNC: u8 = 70;

/// An unclassified failure.
pub const WSEUNKNOWN: i32 = -1;

/// No error.
pub const WSEOK: i32 = 0;

/// A get operation was attempted out of sequence.
pub const WSEGSEQ: i32 = 3;

/// A put operation named a token type that does not exist.
pub const WSEPBTK: i32 = 4;

/// A put operation was attempted out of sequence.
pub const WSEPSEQ: i32 = 5;

/// A number does not fit the machine type that was asked for.
pub const WSEOVFL: i32 = 7;

/// The connection could not be made.
pub const WSECONNECT: i32 = 10;

/// No connection could be accepted.
pub const WSEACCEPT: i32 = 9;

/// A packet was ended in the middle of a token.
pub const WSEPUTENDPACKET: i32 = 21;

/// A read found nothing left to read.
pub const WSEABORT: i32 = 25;

/// The arguments that open a link cannot be understood.
pub const WSEARGV: i32 = 33;

/// The arguments that open a link name no protocol, or one that does not
/// exist.
pub const WSEPROTOCOL: i32 = 34;

/// The arguments that open a link name no mode, or one that does not exist.
pub const WSEMODE: i32 = 35;

/// A text that was to be written is not of the encoding that it was given
/// as.
pub const WSEPSCONVERT: i32 = 48;

/// The name of the link or the port of the server is already in use.
pub const WSENAMETAKEN: i32 = 40;

/// Older spelling of [`WSEOK`].
pub const MLEOK: i32 = 0;

/// Older spelling of [`WSEGSEQ`].
pub const MLEGSEQ: i32 = 3;

/// Older spelling of [`WSENAMETAKEN`].
pub const MLENAMETAKEN: i32 = 40;

/// Packet type reported when no packet could be read.
pub const ILLEGALPKT: i32 = 0;

/// Waiting ended because the link has activity.
pub const WSWAITSUCCESS: i32 = 1;

/// Waiting ended because the link is in error.
pub const WSWAITERROR: i32 = 2;

/// Waiting ended because the time ran out.
pub const WSWAITTIMEOUT: i32 = 3;

/// Waiting ended because the callback asked for it.
pub const WSWAITCALLBACKABORTED: i32 = 4;

} // verus!
