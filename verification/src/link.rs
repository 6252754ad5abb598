//! The link: one endpoint of a connection, and the model of its state.

use vstd::prelude::*;
use vstd::string::*;
use std::collections::VecDeque;
use crate::error::{coded_error, custom_error, Error, ErrorView};
use vstd::utf8::encode_utf8;
use crate::sys::{WSEABORT, WSEOK, WSEGSEQ, WSEOVFL, WSEPBTK, WSEPSCONVERT, WSEPSEQ, WSEPUTENDPACKET, WSTKFUNC};
use crate::token::{atoms_view, raw_of_token_type, token_type_of_raw, Atom, TokenType, TokenView};

verus! {

/// Transport protocol used to communicate between two [`Link`] end points.
#[derive(Debug, Clone, Copy, PartialEq, Eq, Hash, Structural)]
pub enum Protocol {
    /// Protocol type optimized for communication between two [`Link`] end
    /// points from within the same OS process.
    IntraProcess,
    /// Protocol type optimized for communication between two [`Link`] end
    /// points from the same machine, but not necessarily in the same OS
    /// process, using shared memory.
    SharedMemory,
    /// Protocol type for communication between two [`Link`] end points
    /// reachable across a network connection.
    TCPIP,
}

/// The name by which a protocol is written among the arguments that open a
/// link.
pub open spec fn protocol_name(protocol: Protocol) -> Seq<char> {
    match protocol {
        Protocol::IntraProcess => "IntraProcess"@,
        Protocol::SharedMemory => "SharedMemory"@,
        Protocol::TCPIP => "TCPIP"@,
    }
}

impl Protocol {
    /// The name of this protocol, as it is written among the arguments that
    /// open a link.
    pub fn name(&self) -> (name: &'static str)
        ensures
            name@ == protocol_name(*self),
    {
        match self {
            Protocol::IntraProcess => "IntraProcess",
            Protocol::SharedMemory => "SharedMemory",
            Protocol::TCPIP => "TCPIP",
        }
    }

    /// The text that displays this protocol.
    pub fn to_string(&self) -> (text: String)
        ensures
            text@ == protocol_name(*self),
    {
        String::from_str(self.name())
    }
}

/// How a link came to be.
#[derive(Debug, Clone, Copy, PartialEq, Eq, Hash, Structural)]
pub enum LinkMode {
    /// Both ends of the link are this one endpoint: what is written to it is
    /// read back from it.
    Loopback,
    /// The endpoint was opened under a name and waits for its peer.
    Listen,
    /// The endpoint was opened towards a named listening endpoint.
    Connect,
}

/// Where the reader of a link stands relative to the first unread token.
#[derive(Debug, Clone, Copy, PartialEq, Eq, Structural)]
pub enum Cursor {
    /// Nothing has been asked about the first unread token.
    Fresh,
    /// The type of the first unread token has been asked for.
    Current,
    /// A function token has just been taken off the stream by a query of its
    /// argument count, which is remembered here and can be asked for again.
    Counted(usize),
}

/// The state of a link, as mathematical values.
pub struct LinkView {
    /// How the link came to be.
    pub mode: LinkMode,
    /// The protocol of the link; a loopback link has none.
    pub protocol: Option<Protocol>,
    /// The name under which the link was opened.
    pub name: Seq<char>,
    /// The options with which the link was opened.
    pub options: Seq<Seq<char>>,
    /// Whether the link has been activated.
    pub activated: bool,
    /// The tokens that wait to be read, first to be read first.
    pub unread: Seq<TokenView>,
    /// Where the reader stands.
    pub cursor: Cursor,
    /// The tokens written to a link that is no loopback link, which the
    /// transport has not collected yet.
    pub outgoing: Seq<TokenView>,
    /// The type that the writer has announced and not yet written.
    pub owed: Option<TokenType>,
    /// The code of the last error of the transport on this link.
    pub error: Option<i32>,
    /// Whether a wait with a callback is under way on this link.
    pub waiting: bool,
}

/// The error of the transport with the given code, as this engine words it.
pub open spec fn link_error(code: i32) -> ErrorView {
    coded_error(code, None)
}

/// The error for a link that holds no error code.
pub open spec fn unknown_link_error() -> ErrorView {
    custom_error("unknown error occurred on WSLINK"@)
}

/// The error of `operation` for a size that does not fit in 32 bits.
pub open spec fn size_error(operation: Seq<char>) -> ErrorView {
    custom_error(
        operation
            + ": Error converting usize to i32: out of range integral type conversion attempted"@,
    )
}

impl LinkView {
    /// This state with `code` recorded as the last error.
    pub open spec fn failed(self, code: i32) -> LinkView {
        LinkView { error: Some(code), ..self }
    }

    /// This state once the first unread token has been taken.
    pub open spec fn advanced(self) -> LinkView {
        LinkView { unread: self.unread.skip(1), cursor: Cursor::Fresh, ..self }
    }

    /// This state once `token` has been written: a loopback link reads its
    /// own tokens, any other link hands them to the transport.
    pub open spec fn written(self, token: TokenView) -> LinkView {
        if self.mode is Loopback {
            LinkView { unread: self.unread.push(token), owed: None, ..self }
        } else {
            LinkView { outgoing: self.outgoing.push(token), owed: None, ..self }
        }
    }

    /// This state once `tokens` have been added where written tokens go,
    /// whatever the writer has announced.
    pub open spec fn appended(self, tokens: Seq<TokenView>) -> LinkView {
        if self.mode is Loopback {
            LinkView { unread: self.unread + tokens, ..self }
        } else {
            LinkView { outgoing: self.outgoing + tokens, ..self }
        }
    }

    /// Whether a token of type `token_type` may be written now: nothing else
    /// has been announced.
    pub open spec fn may_write(self, token_type: TokenType) -> bool {
        self.owed is None || self.owed == Some(token_type)
    }

    /// Whether there is a token to read.
    pub open spec fn is_ready(self) -> bool {
        self.unread.len() > 0
    }

    /// The last error of the link, if there is one.
    pub open spec fn last_error(self) -> Option<ErrorView> {
        match self.error {
            Some(code) => Some(link_error(code)),
            None => None,
        }
    }

    /// The last error of the link, or the error that says that none is known.
    pub open spec fn error_or_unknown(self) -> ErrorView {
        match self.error {
            Some(code) => link_error(code),
            None => unknown_link_error(),
        }
    }

    /// Asking for the type of the first unread token: the token stays, and
    /// becomes the current one. On an empty stream the query fails.
    pub open spec fn get_raw_type(self) -> (LinkView, Result<i32, ErrorView>) {
        if self.unread.len() == 0 {
            (self.failed(WSEABORT), Err(link_error(WSEABORT)))
        } else {
            (
                LinkView { cursor: Cursor::Current, ..self },
                Ok(raw_of_token_type(self.unread[0].token_type())),
            )
        }
    }

    /// [`LinkView::get_raw_type`], with the tag read as a token type.
    pub open spec fn get_type(self) -> (LinkView, Result<TokenType, ErrorView>) {
        if self.unread.len() == 0 {
            (self.failed(WSEABORT), Err(link_error(WSEABORT)))
        } else {
            (LinkView { cursor: Cursor::Current, ..self }, Ok(self.unread[0].token_type()))
        }
    }

    /// Moving to the next token and asking for its type: a token that is
    /// current is skipped, then the first unread token becomes current.
    pub open spec fn get_next(self) -> (LinkView, Result<i32, ErrorView>) {
        let rest = if self.cursor is Current && self.unread.len() > 0 {
            self.unread.skip(1)
        } else {
            self.unread
        };
        if rest.len() == 0 {
            (
                LinkView { unread: rest, cursor: Cursor::Fresh, error: Some(WSEABORT), ..self },
                Err(link_error(WSEABORT)),
            )
        } else {
            (
                LinkView { unread: rest, cursor: Cursor::Current, ..self },
                Ok(raw_of_token_type(rest[0].token_type())),
            )
        }
    }

    /// Asking for the argument count of a function. The first query takes the
    /// function token off the stream; until something else is read or asked,
    /// further queries give the same count and change nothing.
    pub open spec fn get_arg_count(self) -> (LinkView, Result<usize, ErrorView>) {
        match self.cursor {
            Cursor::Counted(count) => (self, Ok(count)),
            _ => if self.unread.len() == 0 {
                (self.failed(WSEABORT), Err(link_error(WSEABORT)))
            } else {
                match self.unread[0] {
                    TokenView::Function(count) => (
                        LinkView {
                            unread: self.unread.skip(1),
                            cursor: Cursor::Counted(count),
                            ..self
                        },
                        Ok(count),
                    ),
                    _ => (self.failed(WSEGSEQ), Err(link_error(WSEGSEQ))),
                }
            },
        }
    }

    /// Reading an integer.
    pub open spec fn get_i64(self) -> (LinkView, Result<i64, ErrorView>) {
        if self.unread.len() == 0 {
            (self.failed(WSEABORT), Err(link_error(WSEABORT)))
        } else {
            match self.unread[0] {
                TokenView::Integer(value) => (self.advanced(), Ok(value)),
                _ => (self.failed(WSEGSEQ), Err(link_error(WSEGSEQ))),
            }
        }
    }

    /// Reading an integer that must lie between `low` and `high`: one that
    /// does not is left on the stream.
    pub open spec fn get_integer_within(self, low: int, high: int) -> (
        LinkView,
        Result<i64, ErrorView>,
    ) {
        if self.unread.len() == 0 {
            (self.failed(WSEABORT), Err(link_error(WSEABORT)))
        } else {
            match self.unread[0] {
                TokenView::Integer(value) => if low <= value <= high {
                    (self.advanced(), Ok(value))
                } else {
                    (self.failed(WSEOVFL), Err(link_error(WSEOVFL)))
                },
                _ => (self.failed(WSEGSEQ), Err(link_error(WSEGSEQ))),
            }
        }
    }

    /// Reading a real number, by its bits.
    pub open spec fn get_real(self) -> (LinkView, Result<u64, ErrorView>) {
        if self.unread.len() == 0 {
            (self.failed(WSEABORT), Err(link_error(WSEABORT)))
        } else {
            match self.unread[0] {
                TokenView::Real(bits) => (self.advanced(), Ok(bits)),
                _ => (self.failed(WSEGSEQ), Err(link_error(WSEGSEQ))),
            }
        }
    }

    /// Reading a string. The name of a symbol can be read as a string too.
    pub open spec fn get_string(self) -> (LinkView, Result<Seq<char>, ErrorView>) {
        if self.unread.len() == 0 {
            (self.failed(WSEABORT), Err(link_error(WSEABORT)))
        } else {
            match self.unread[0] {
                TokenView::String(value) => (self.advanced(), Ok(value)),
                TokenView::Symbol(name) => (self.advanced(), Ok(name)),
                _ => (self.failed(WSEGSEQ), Err(link_error(WSEGSEQ))),
            }
        }
    }

    /// Reading the name of a symbol.
    pub open spec fn get_symbol(self) -> (LinkView, Result<Seq<char>, ErrorView>) {
        if self.unread.len() == 0 {
            (self.failed(WSEABORT), Err(link_error(WSEABORT)))
        } else {
            match self.unread[0] {
                TokenView::Symbol(name) => (self.advanced(), Ok(name)),
                _ => (self.failed(WSEGSEQ), Err(link_error(WSEGSEQ))),
            }
        }
    }

    /// Reading the next token, whatever its type. An array is no token: it
    /// shows the type of a function, and cannot be read as one.
    pub open spec fn get_token(self) -> (LinkView, Result<TokenView, ErrorView>) {
        if self.unread.len() == 0 {
            (self.failed(WSEABORT), Err(link_error(WSEABORT)))
        } else {
            match self.unread[0] {
                TokenView::IntegerArray(_, _) => (
                    LinkView { cursor: Cursor::Current, error: Some(WSEGSEQ), ..self },
                    Err(link_error(WSEGSEQ)),
                ),
                TokenView::Function(count) => (
                    LinkView {
                        unread: self.unread.skip(1),
                        cursor: Cursor::Counted(count),
                        ..self
                    },
                    Ok(self.unread[0]),
                ),
                _ => (self.advanced(), Ok(self.unread[0])),
            }
        }
    }

    /// Checking that a function with the head symbol `symbol` comes next, and
    /// taking its function token and its head. Anything else stays where it
    /// is.
    pub open spec fn test_head(self, symbol: Seq<char>) -> (LinkView, Result<usize, ErrorView>) {
        if self.unread.len() == 0 {
            (self.failed(WSEABORT), Err(link_error(WSEABORT)))
        } else if self.unread.len() >= 2 && self.unread[0] is Function
            && self.unread[1] == TokenView::Symbol(symbol) {
            (
                LinkView { unread: self.unread.skip(2), cursor: Cursor::Fresh, ..self },
                Ok(self.unread[0]->Function_0),
            )
        } else {
            (self.failed(WSEGSEQ), Err(link_error(WSEGSEQ)))
        }
    }

    /// Dropping what is left to read.
    pub open spec fn new_packet(self) -> LinkView {
        LinkView { unread: Seq::empty(), cursor: Cursor::Fresh, ..self }
    }

    /// Announcing the type of the token that will be written next.
    pub open spec fn put_raw_type(self, raw: i32) -> (LinkView, Result<(), ErrorView>) {
        if self.owed is Some {
            (self.failed(WSEPSEQ), Err(link_error(WSEPSEQ)))
        } else {
            match token_type_of_raw(raw as int) {
                Some(token_type) => (LinkView { owed: Some(token_type), ..self }, Ok(())),
                None => (self.failed(WSEPBTK), Err(link_error(WSEPBTK))),
            }
        }
    }

    /// Writing the count of arguments of a function. A count that does not
    /// fit in 32 bits is refused before anything is written.
    pub open spec fn put_arg_count(self, count: usize) -> (LinkView, Result<(), ErrorView>) {
        if count > i32::MAX {
            (self, Err(size_error("put_arg_count"@)))
        } else {
            self.put(TokenView::Function(count))
        }
    }

    /// Writing a string or the name of a symbol, given as `token`, whose
    /// text is `text`. A text whose UTF-8 form is longer than 32 bits can
    /// count is refused before anything is written.
    pub open spec fn put_text(self, operation: Seq<char>, text: Seq<char>, token: TokenView) -> (
        LinkView,
        Result<(), ErrorView>,
    ) {
        if encode_utf8(text).len() > i32::MAX {
            (self, Err(size_error(operation)))
        } else {
            self.put(token)
        }
    }

    /// Writing a string that was given in an encoding: `decoded` is its
    /// text where the data were of the encoding, `length` the count of the
    /// units given. A count that does not fit in 32 bits is refused before
    /// anything is written; data that are not of the encoding are an error
    /// of the link.
    pub open spec fn put_encoded(
        self,
        operation: Seq<char>,
        length: nat,
        decoded: Option<Seq<char>>,
    ) -> (LinkView, Result<(), ErrorView>) {
        if length > i32::MAX {
            (self, Err(size_error(operation)))
        } else {
            match decoded {
                Some(text) => self.put(TokenView::String(text)),
                None => (self.failed(WSEPSCONVERT), Err(link_error(WSEPSCONVERT))),
            }
        }
    }

    /// Writing the start of a function with `count` arguments and, where
    /// `head` names one, the symbol that is its head.
    pub open spec fn put_function(self, head: Option<Seq<char>>, count: usize) -> (
        LinkView,
        Result<(), ErrorView>,
    ) {
        let (typed, announced) = self.put_raw_type(WSTKFUNC as i32);
        if announced is Err {
            (typed, announced)
        } else {
            let (counted, started) = typed.put_arg_count(count);
            if started is Err {
                (counted, started)
            } else {
                match head {
                    Some(name) => counted.put_text("put_symbol"@, name, TokenView::Symbol(name)),
                    None => (counted, Ok(())),
                }
            }
        }
    }

    /// Ending a packet, which cannot be done while an announced token is
    /// owed.
    pub open spec fn end_packet(self) -> (LinkView, Result<(), ErrorView>) {
        if self.owed is Some {
            (self.failed(WSEPUTENDPACKET), Err(link_error(WSEPUTENDPACKET)))
        } else {
            (self, Ok(()))
        }
    }

    /// Writing `token`, unless a token of another type has been announced.
    pub open spec fn put(self, token: TokenView) -> (LinkView, Result<(), ErrorView>) {
        if self.may_write(token.token_type()) {
            (self.written(token), Ok(()))
        } else {
            (self.failed(WSEPSEQ), Err(link_error(WSEPSEQ)))
        }
    }
}

/// What the transport's answer to the question for the last error of a link
/// means: the link holds no error where the code is [`WSEOK`] or the
/// transport has no message for it, and holds the error with that code and
/// message otherwise.
pub fn error_from_answer(code: i32, message: Option<String>) -> (error: Option<Error>)
    ensures
        error is None <==> (code == WSEOK || message is None),
        error matches Some(e) ==> e@ == coded_error(code, Some(message->0@)),
{
    if code == WSEOK {
        return None;
    }
    match message {
        Some(message) => Some(Error::from_code(code, Some(message))),
        None => None,
    }
}

/// What an answer of the transport that can stand for a failure means:
/// where the answer is `failure`, the call failed with the last error of the
/// link, which is `last`, or with the error that says that none is known;
/// any other answer is the result of the call.
pub fn answer_or_error(answer: i32, failure: i32, last: Option<Error>) -> (result: Result<
    i32,
    Error,
>)
    ensures
        answer != failure ==> result == Ok::<i32, Error>(answer),
        answer == failure ==> plain(result) == Err::<i32, ErrorView>(
            match last {
                Some(error) => error@,
                None => unknown_link_error(),
            },
        ),
{
    if answer == failure {
        match last {
            Some(error) => Err(error),
            None => Err(Error::custom(String::from_str("unknown error occurred on WSLINK"))),
        }
    } else {
        Ok(answer)
    }
}

/// The view of a result that carries a plain value.
pub open spec fn plain<T>(result: Result<T, Error>) -> Result<T, ErrorView> {
    match result {
        Ok(value) => Ok(value),
        Err(error) => Err(error@),
    }
}

/// The view of a result that carries a value with a view of its own.
pub open spec fn viewed<T: View>(result: Result<T, Error>) -> Result<T::V, ErrorView> {
    match result {
        Ok(value) => Ok(value@),
        Err(error) => Err(error@),
    }
}

/// The characters of each string of a sequence.
pub open spec fn strings_view(strings: Seq<String>) -> Seq<Seq<char>> {
    Seq::new(strings.len(), |i: int| strings[i]@)
}

/// WSTP link endpoint.
///
/// The endpoint holds the tokens that wait to be read and, where it is no
/// loopback link, those that wait to be sent.
#[derive(Debug)]
pub struct Link {
    mode: LinkMode,
    protocol: Option<Protocol>,
    name: String,
    options: Vec<String>,
    activated: bool,
    incoming: VecDeque<Atom>,
    outgoing: VecDeque<Atom>,
    cursor: Cursor,
    owed: Option<TokenType>,
    error: Option<i32>,
    waiting: bool,
}

impl View for Link {
    type V = LinkView;

    closed spec fn view(&self) -> LinkView {
        LinkView {
            mode: self.mode,
            protocol: self.protocol,
            name: self.name@,
            options: strings_view(self.options@),
            activated: self.activated,
            unread: atoms_view(self.incoming@),
            cursor: self.cursor,
            outgoing: atoms_view(self.outgoing@),
            owed: self.owed,
            error: self.error,
            waiting: self.waiting,
        }
    }
}

/// What a freshly opened link holds: nothing to read, nothing to send, no
/// error.
pub open spec fn fresh_link(
    mode: LinkMode,
    protocol: Option<Protocol>,
    name: Seq<char>,
    options: Seq<Seq<char>>,
) -> LinkView {
    LinkView {
        mode,
        protocol,
        name,
        options,
        activated: mode is Loopback,
        unread: Seq::empty(),
        cursor: Cursor::Fresh,
        outgoing: Seq::empty(),
        owed: None,
        error: None,
        waiting: false,
    }
}

impl Link {
    /// A link that has just been opened.
    pub(crate) fn opened(
        mode: LinkMode,
        protocol: Option<Protocol>,
        name: String,
        options: Vec<String>,
    ) -> (link: Link)
        ensures
            link@ == fresh_link(mode, protocol, name@, strings_view(options@)),
    {
        let link = Link {
            mode,
            protocol,
            name,
            options,
            activated: matches!(mode, LinkMode::Loopback),
            incoming: VecDeque::new(),
            outgoing: VecDeque::new(),
            cursor: Cursor::Fresh,
            owed: None,
            error: None,
            waiting: false,
        };
        assert(link@.unread =~= Seq::empty());
        assert(link@.outgoing =~= Seq::empty());
        link
    }

    /// How this link came to be.
    pub fn mode(&self) -> (mode: LinkMode)
        ensures
            mode == self@.mode,
    {
        self.mode
    }

    /// The protocol of this link; a loopback link has none.
    pub fn protocol(&self) -> (protocol: Option<Protocol>)
        ensures
            protocol == self@.protocol,
    {
        self.protocol
    }

    /// Get the name of this link.
    pub fn link_name(&self) -> (name: String)
        ensures
            name@ == self@.name,
    {
        self.name.clone()
    }

    /// Whether `option` is among the options with which this link was
    /// opened.
    pub fn has_option(&self, option: &str) -> (found: bool)
        ensures
            found == self@.options.contains(option@),
    {
        let wanted: String = String::from_str(option);
        let mut i: usize = 0;
        while i < self.options.len()
            invariant
                i <= self.options@.len(),
                wanted@ == option@,
                forall|k: int| 0 <= k < i ==> self.options@[k]@ != option@,
            decreases self.options.len() - i,
        {
            if self.options[i] == wanted {
                assert(self@.options[i as int] == option@);
                return true;
            }
            i += 1;
        }
        assert forall|k: int| 0 <= k < self@.options.len() implies self@.options[k] != option@ by {
            assert(self@.options[k] == self.options@[k]@);
        }
        false
    }

    /// Whether this link has been activated.
    pub fn is_activated(&self) -> (activated: bool)
        ensures
            activated == self@.activated,
    {
        self.activated
    }

    /// Activate this link: from then on it counts as connected to its peer.
    /// A loopback link is active from the start.
    pub fn activate(&mut self) -> (done: Result<(), Error>)
        ensures
            final(self)@ == (LinkView { activated: true, ..old(self)@ }),
            done is Ok,
    {
        self.activated = true;
        Ok(())
    }

    /// Check if there is data ready to be read from this link.
    pub fn is_ready(&self) -> (ready: bool)
        ensures
            ready == self@.is_ready(),
    {
        self.incoming.len() > 0
    }

    /// Whether this link is a loopback link.
    pub fn is_loopback(&self) -> (loopback: bool)
        ensures
            loopback == (self@.mode is Loopback),
    {
        matches!(self.mode, LinkMode::Loopback)
    }

    /// Returns an [`Error`] describing the last error to occur on this link.
    /// The error stays on the link until [`Link::clear_error`] is called.
    pub fn error(&self) -> (error: Option<Error>)
        ensures
            match self@.last_error() {
                Some(last) => error matches Some(e) && e@ == last,
                None => error is None,
            },
    {
        match self.error {
            Some(code) => Some(Error::from_code(code, None)),
            None => None,
        }
    }

    /// Returns a string describing the last error to occur on this link.
    pub fn error_message(&self) -> (message: Option<String>)
        ensures
            match self@.last_error() {
                Some(last) => message matches Some(m) && m@ == last.message,
                None => message is None,
            },
    {
        match self.error() {
            Some(error) => Some(error.message),
            None => None,
        }
    }

    /// Helper to create an [`Error`] instance even if the link does not have
    /// an error code set.
    pub fn error_or_unknown(&self) -> (error: Error)
        ensures
            error@ == self@.error_or_unknown(),
    {
        match self.error() {
            Some(error) => error,
            None => Error::custom(String::from_str("unknown error occurred on WSLINK")),
        }
    }

    /// Clear errors on this link.
    pub fn clear_error(&mut self)
        ensures
            final(self)@ == (LinkView { error: None, ..old(self)@ }),
    {
        self.error = None;
    }

    /// Hands this link a token that arrived from its peer: it is read after
    /// those that arrived before.
    pub fn deliver(&mut self, atom: Atom)
        ensures
            final(self)@ == (LinkView { unread: old(self)@.unread.push(atom@), ..old(self)@ }),
    {
        self.incoming.push_back(atom);
        assert(self@.unread =~= old(self)@.unread.push(atom@));
    }

    /// Takes the oldest token that waits to be sent to the peer of this
    /// link, if there is one.
    pub fn take_outgoing(&mut self) -> (atom: Option<Atom>)
        ensures
            match atom {
                Some(atom) => old(self)@.outgoing.len() > 0 && atom@ == old(self)@.outgoing[0]
                    && final(self)@ == (LinkView {
                    outgoing: old(self)@.outgoing.skip(1),
                    ..old(self)@
                }),
                None => old(self)@.outgoing.len() == 0 && final(self)@ == old(self)@,
            },
    {
        let atom = self.outgoing.pop_front();
        assert(atom is Some ==> self@.outgoing =~= old(self)@.outgoing.skip(1));
        atom
    }

    /// The first unread atom, if there is one.
    pub(crate) fn peek(&self) -> (atom: Option<&Atom>)
        ensures
            atom is None <==> self@.unread.len() == 0,
            atom matches Some(a) ==> a@ == self@.unread[0],
    {
        if self.incoming.len() == 0 {
            None
        } else {
            Some(&self.incoming[0])
        }
    }

    /// Whether a wait with a callback is under way on this link.
    pub fn is_waiting(&self) -> (waiting: bool)
        ensures
            waiting == self@.waiting,
    {
        self.waiting
    }

    /// Records whether a wait with a callback is under way.
    pub(crate) fn set_waiting(&mut self, waiting: bool)
        ensures
            final(self)@ == (LinkView { waiting, ..old(self)@ }),
    {
        self.waiting = waiting;
    }

    /// The count of unread atoms.
    pub(crate) fn unread_len(&self) -> (count: usize)
        ensures
            count == self@.unread.len(),
    {
        self.incoming.len()
    }

    /// The unread atom at the place `place`.
    pub(crate) fn peek_at(&self, place: usize) -> (atom: &Atom)
        requires
            place < self@.unread.len(),
        ensures
            atom@ == self@.unread[place as int],
    {
        &self.incoming[place]
    }

    /// Adds `atom` where written tokens go, whatever the writer has
    /// announced.
    pub(crate) fn append(&mut self, atom: Atom)
        ensures
            final(self)@ == old(self)@.appended(seq![atom@]),
    {
        match self.mode {
            LinkMode::Loopback => {
                self.incoming.push_back(atom);
                assert(self@.unread =~= old(self)@.unread + seq![atom@]);
            },
            _ => {
                self.outgoing.push_back(atom);
                assert(self@.outgoing =~= old(self)@.outgoing + seq![atom@]);
            },
        }
    }

    /// The second unread atom, if there is one.
    pub(crate) fn peek_second(&self) -> (atom: Option<&Atom>)
        ensures
            atom is None <==> self@.unread.len() < 2,
            atom matches Some(a) ==> a@ == self@.unread[1],
    {
        if self.incoming.len() < 2 {
            None
        } else {
            Some(&self.incoming[1])
        }
    }

    /// Where the reader stands.
    pub(crate) fn cursor(&self) -> (cursor: Cursor)
        ensures
            cursor == self@.cursor,
    {
        self.cursor
    }

    /// Moves the reader.
    pub(crate) fn set_cursor(&mut self, cursor: Cursor)
        ensures
            final(self)@ == (LinkView { cursor, ..old(self)@ }),
    {
        self.cursor = cursor;
    }

    /// The type that the writer has announced and not yet written.
    pub(crate) fn owed(&self) -> (owed: Option<TokenType>)
        ensures
            owed == self@.owed,
    {
        self.owed
    }

    /// Records what the writer has announced.
    pub(crate) fn set_owed(&mut self, owed: Option<TokenType>)
        ensures
            final(self)@ == (LinkView { owed, ..old(self)@ }),
    {
        self.owed = owed;
    }

    /// Records `code` as the last error and returns that error.
    pub(crate) fn fail<T>(&mut self, code: i32) -> (result: Result<T, Error>)
        ensures
            final(self)@ == old(self)@.failed(code),
            result matches Err(e) && e@ == link_error(code),
    {
        self.error = Some(code);
        Err(Error::from_code(code, None))
    }

    /// Takes the first unread atom off the stream.
    pub(crate) fn take(&mut self) -> (atom: Atom)
        requires
            old(self)@.unread.len() > 0,
        ensures
            final(self)@ == old(self)@.advanced(),
            atom@ == old(self)@.unread[0],
    {
        self.cursor = Cursor::Fresh;
        let atom = self.incoming.pop_front().unwrap();
        assert(self@.unread =~= old(self)@.unread.skip(1));
        atom
    }

    /// Drops what is left to read.
    pub(crate) fn discard(&mut self)
        ensures
            final(self)@ == old(self)@.new_packet(),
    {
        self.incoming.clear();
        self.cursor = Cursor::Fresh;
        assert(self@.unread =~= Seq::empty());
    }

    /// Puts `atom` where written tokens go.
    pub(crate) fn write(&mut self, atom: Atom)
        ensures
            final(self)@ == old(self)@.written(atom@),
    {
        self.owed = None;
        match self.mode {
            LinkMode::Loopback => {
                self.incoming.push_back(atom);
                assert(self@.unread =~= old(self)@.unread.push(atom@));
            },
            _ => {
                self.outgoing.push_back(atom);
                assert(self@.outgoing =~= old(self)@.outgoing.push(atom@));
            },
        }
    }
}

} // verus!
