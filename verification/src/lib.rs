//! A verified engine for the Wolfram Symbolic Transfer Protocol (WSTP).
//!
//! A [`Link`] is one endpoint of a connection over which Wolfram Language
//! expressions travel as a stream of tagged tokens. This crate holds the
//! protocol logic of such an endpoint: the expression codec, the rules on the
//! order in which tokens are written and read, the life cycle of links, link
//! servers and the shared [`Environment`], and the error model. Every function
//! carries a contract over a mathematical model of the link, proved by Verus.
//!
//! The engine performs no input or output of its own, and never blocks. A
//! loopback link is complete in memory: what is written to it is read back
//! from it. For any other link the program that owns the transport hands
//! arriving tokens to [`Link::deliver`] and sends what
//! [`Link::take_outgoing`] returns; connections to a [`LinkServer`] are
//! handed to [`LinkServer::offer`]; and a wait is run step by step with
//! [`Link::wait_step`].
//!
//! # Quick example
//!
//! Write an expression to a loopback [`Link`], and then read it back from the
//! same link object:
//!
//! ```
//! use wstp::{Environment, Link};
//!
//! # fn example() -> Result<(), wstp::Error> {
//! let mut env = Environment::new();
//! let mut link = Link::new_loopback(&mut env)?;
//!
//! // Write the expression {"a", "b", "c"}
//! link.put_function(Some("System`List"), 3)?;
//! link.put_str("a")?;
//! link.put_str("b")?;
//! link.put_str("c")?;
//!
//! // Read back the expression, concatenating the elements as we go:
//! let mut buffer = String::new();
//!
//! for _ in 0..link.test_head("System`List")? {
//!     buffer.push_str(link.get_string_ref()?.as_str())
//! }
//!
//! assert_eq!(buffer, "abc");
//! # Ok(())
//! # }
//! ```
//!
//! # What is stated and proved
//!
//! * [`link`] holds the model of a link, [`link::LinkView`], and what each
//!   operation does to it.
//! * [`codec`] holds the encoding of expressions and the reading of
//!   expressions from tokens.
//! * [`laws`] holds what follows for all inputs: an expression that is
//!   written is read back unchanged; the count of the arguments of a function
//!   must be asked for before its head is read, and can be asked for again;
//!   a NaN and a symbol without context are rejected when read; no name and
//!   no port is taken twice; an environment that was shut down stays so.

pub mod sys;
pub mod text;
pub mod error;
pub mod symbol;
pub mod expr;
pub mod token;
pub mod link;
pub mod env;
pub mod open;
pub mod addr;
pub mod ip;
pub mod get;
pub mod put;
pub mod codec;
pub mod transfer;
pub mod array;
pub mod wait;
pub mod link_server;
pub mod strx;
pub mod kernel;
pub mod laws;

pub use crate::addr::{for_each_addr, tcpip_link_name, Address};
pub use crate::array::{abi_array_dimensions, dimensions_match, Array};
pub use crate::env::{shutdown, Environment, Lifecycle};
pub use crate::error::Error;
pub use crate::expr::{Expr, Real};
pub use crate::get::{LinkStr, Token};
pub use crate::ip::IpAddress;
pub use crate::link::{Link, LinkMode, Protocol};
pub use crate::link_server::{Incoming, LinkServer};
pub use crate::strx::{Ucs2Str, Utf16Str, Utf32Str, Utf8Str};
pub use crate::symbol::Symbol;
pub use crate::token::{Atom, IntegerArray, TokenType};
pub use crate::wait::{callback_signal, WaitStep};
