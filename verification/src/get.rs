//! Reading tokens from a link.

use vstd::prelude::*;
use vstd::string::*;
use crate::error::Error;
use crate::link::{plain, viewed, Cursor, Link, LinkView};
use crate::strx::{encode_utf16, encode_utf32, Utf16Str, Utf32Str, Utf8Str};
use crate::sys::{WSEABORT, WSEGSEQ, WSEOVFL};
use crate::token::{Atom, TokenType, TokenView};

verus! {

/// String read from a [`Link`].
///
/// `LinkStr` is returned from:
///
/// * [`Link::get_string_ref()`]
/// * [`Link::get_symbol_ref()`].
///
/// The string has left the stream of the link, and the `LinkStr` holds the
/// link borrowed for as long as it lives: nothing else can be read from the
/// link before the `LinkStr` is gone, and its storage is given back exactly
/// once, when it goes.
///
/// The text is held as a `String`, or in one of the encodings of
/// [`Utf8Str`], [`Utf16Str`] and [`Utf32Str`].
#[derive(Debug)]
pub struct LinkStr<'link, T = String> {
    link: &'link Link,
    value: T,
    // Whether the text was read as the name of a symbol or as a string.
    is_symbol: bool,
}

impl<'link, T: View> View for LinkStr<'link, T> {
    type V = T::V;

    closed spec fn view(&self) -> T::V {
        self.value@
    }
}

impl<'link, T> LinkStr<'link, T> {
    /// Whether the text was read as the name of a symbol.
    pub closed spec fn symbol(&self) -> bool {
        self.is_symbol
    }

    /// The state of the link from which the text was read, after the read.
    pub closed spec fn source(&self) -> LinkView {
        self.link@
    }

    /// The text that this `LinkStr` holds.
    pub closed spec fn held(&self) -> T {
        self.value
    }

    /// Get the string contained by this `LinkStr`.
    pub fn get<'this>(&'this self) -> (text: &'this T)
        ensures
            *text == self.held(),
    {
        &self.value
    }

    /// Whether the text was read as the name of a symbol.
    pub fn is_symbol(&self) -> (is_symbol: bool)
        ensures
            is_symbol == self.symbol(),
    {
        self.is_symbol
    }
}

impl<'link> LinkStr<'link, String> {
    /// Get the UTF-8 string data.
    pub fn as_str<'s>(&'s self) -> (text: &'s str)
        ensures
            text@ == self@,
    {
        self.value.as_str()
    }

    /// Get the UTF-8 string data. Use [`LinkStr::as_str`] instead.
    pub fn to_str<'s>(&'s self) -> (text: &'s str)
        ensures
            text@ == self@,
    {
        self.value.as_str()
    }
}

/// Basic unit of expression data read from a [`Link`].
///
/// [`Link::get_token()`] is used to read the next available token from a
/// [`Link`].
#[derive(Debug)]
pub enum Token<'link> {
    /// An integer.
    Integer(i64),
    /// A real number, by the bits of its IEEE 754 binary64 form.
    Real(u64),
    /// A symbol.
    Symbol(LinkStr<'link>),
    /// A string.
    String(LinkStr<'link>),
    /// A function expression with `length` elements.
    ///
    /// The next expression is the head of the function, followed by `length`
    /// number of expression elements.
    Function {
        /// The number of elements.
        length: usize,
    },
}

impl<'link> View for Token<'link> {
    type V = TokenView;

    open spec fn view(&self) -> TokenView {
        match self {
            Token::Integer(value) => TokenView::Integer(*value),
            Token::Real(bits) => TokenView::Real(*bits),
            Token::Symbol(name) => TokenView::Symbol(name@),
            Token::String(value) => TokenView::String(value@),
            Token::Function { length } => TokenView::Function(*length),
        }
    }
}

impl<'link> Token<'link> {
    /// This token as an atom that owns its data.
    pub fn to_atom(&self) -> (atom: Atom)
        ensures
            atom@ == self@,
    {
        match self {
            Token::Integer(value) => Atom::Integer(*value),
            Token::Real(bits) => Atom::Real(*bits),
            Token::Symbol(name) => Atom::Symbol(String::from_str(name.as_str())),
            Token::String(value) => Atom::String(String::from_str(value.as_str())),
            Token::Function { length } => Atom::Function(*length),
        }
    }
}

/// What a string that has left an atom stands for.
fn atom_text(atom: Atom) -> (text: Option<String>)
    ensures
        match atom@ {
            TokenView::String(value) => text matches Some(t) && t@ == value,
            TokenView::Symbol(name) => text matches Some(t) && t@ == name,
            _ => text is None,
        },
{
    match atom {
        Atom::String(value) => Some(value),
        Atom::Symbol(name) => Some(name),
        _ => None,
    }
}

impl Link {
    /// Get the raw type of the next token available to read on this link.
    ///
    /// The token stays on the link. If there is nothing to read, an error is
    /// returned.
    ///
    /// See also [`Link::get_type()`].
    pub fn get_raw_type(&mut self) -> (raw: Result<i32, Error>)
        ensures
            final(self)@ == old(self)@.get_raw_type().0,
            plain(raw) == old(self)@.get_raw_type().1,
    {
        match self.get_type() {
            Ok(token_type) => Ok(token_type.raw()),
            Err(error) => Err(error),
        }
    }

    /// Get the type of the next token available to read on this link.
    ///
    /// The token stays on the link, however often its type is asked for.
    ///
    /// See also [`Link::get_token()`].
    pub fn get_type(&mut self) -> (token_type: Result<TokenType, Error>)
        ensures
            final(self)@ == old(self)@.get_type().0,
            plain(token_type) == old(self)@.get_type().1,
    {
        let found: Option<TokenType> = match self.peek() {
            None => None,
            Some(atom) => Some(
                match atom {
                    Atom::Integer(_) => TokenType::Integer,
                    Atom::Real(_) => TokenType::Real,
                    Atom::String(_) => TokenType::String,
                    Atom::Symbol(_) => TokenType::Symbol,
                    Atom::Function(_) => TokenType::Function,
                    Atom::IntegerArray(_) => TokenType::Function,
                },
            ),
        };
        match found {
            None => self.fail(WSEABORT),
            Some(token_type) => {
                self.set_cursor(Cursor::Current);
                Ok(token_type)
            },
        }
    }

    /// Move to the next token of this link and get its raw type.
    ///
    /// A token whose type has been asked for before, and which has not been
    /// read, is skipped.
    pub fn raw_get_next(&mut self) -> (raw: Result<i32, Error>)
        ensures
            final(self)@ == old(self)@.get_next().0,
            plain(raw) == old(self)@.get_next().1,
    {
        if matches!(self.cursor(), Cursor::Current) && self.peek().is_some() {
            let _ = self.take();
        }
        match self.get_type() {
            Ok(token_type) => Ok(token_type.raw()),
            Err(error) => {
                self.set_cursor(Cursor::Fresh);
                Err(error)
            },
        }
    }

    /// Get the number of arguments of the function that comes next.
    ///
    /// The count must be asked for before the head and the arguments of the
    /// function can be read. Asking again gives the same count and leaves the
    /// link as it is.
    pub fn get_arg_count(&mut self) -> (count: Result<usize, Error>)
        ensures
            final(self)@ == old(self)@.get_arg_count().0,
            plain(count) == old(self)@.get_arg_count().1,
    {
        if let Cursor::Counted(count) = self.cursor() {
            return Ok(count);
        }
        let found: Option<Option<usize>> = match self.peek() {
            None => None,
            Some(atom) => Some(
                match atom {
                    Atom::Function(count) => Some(*count),
                    _ => None,
                },
            ),
        };
        match found {
            None => self.fail(WSEABORT),
            Some(None) => self.fail(WSEGSEQ),
            Some(Some(count)) => {
                let _ = self.take();
                self.set_cursor(Cursor::Counted(count));
                Ok(count)
            },
        }
    }

    /// Check that the incoming expression is a function with head `symbol`.
    ///
    /// If the check succeeds, the function token and its head have been read
    /// and the number of elements in the incoming expression is returned.
    /// Otherwise, an error is returned and nothing has been read.
    pub fn test_head(&mut self, symbol: &str) -> (count: Result<usize, Error>)
        ensures
            final(self)@ == old(self)@.test_head(symbol@).0,
            plain(count) == old(self)@.test_head(symbol@).1,
    {
        let first: Option<Option<usize>> = match self.peek() {
            None => None,
            Some(atom) => Some(
                match atom {
                    Atom::Function(count) => Some(*count),
                    _ => None,
                },
            ),
        };
        let count: usize = match first {
            None => {
                return self.fail(WSEABORT);
            },
            Some(None) => {
                return self.fail(WSEGSEQ);
            },
            Some(Some(count)) => count,
        };
        let wanted: String = String::from_str(symbol);
        let matching: bool = match self.peek_second() {
            Some(Atom::Symbol(name)) => *name == wanted,
            _ => false,
        };
        if !matching {
            return self.fail(WSEGSEQ);
        }
        let _ = self.take();
        let _ = self.take();
        assert(self@.unread =~= old(self)@.unread.skip(2));
        Ok(count)
    }

    /// Read an integer.
    pub fn get_i64(&mut self) -> (value: Result<i64, Error>)
        ensures
            final(self)@ == old(self)@.get_i64().0,
            plain(value) == old(self)@.get_i64().1,
    {
        let found: Option<Option<i64>> = match self.peek() {
            None => None,
            Some(atom) => Some(
                match atom {
                    Atom::Integer(value) => Some(*value),
                    _ => None,
                },
            ),
        };
        match found {
            None => self.fail(WSEABORT),
            Some(None) => self.fail(WSEGSEQ),
            Some(Some(value)) => {
                let _ = self.take();
                Ok(value)
            },
        }
    }

    /// Read an integer that lies between `low` and `high`.
    fn get_integer_within(&mut self, low: i64, high: i64) -> (value: Result<i64, Error>)
        ensures
            final(self)@ == old(self)@.get_integer_within(low as int, high as int).0,
            plain(value) == old(self)@.get_integer_within(low as int, high as int).1,
    {
        let found: Option<Option<i64>> = match self.peek() {
            None => None,
            Some(atom) => Some(
                match atom {
                    Atom::Integer(value) => Some(*value),
                    _ => None,
                },
            ),
        };
        match found {
            None => self.fail(WSEABORT),
            Some(None) => self.fail(WSEGSEQ),
            Some(Some(value)) => {
                if low <= value && value <= high {
                    let _ = self.take();
                    Ok(value)
                } else {
                    self.fail(WSEOVFL)
                }
            },
        }
    }

    /// Read an integer of 32 bits. An integer that does not fit stays on the
    /// link.
    pub fn get_i32(&mut self) -> (value: Result<i32, Error>)
        ensures
            final(self)@ == old(self)@.get_integer_within(i32::MIN as int, i32::MAX as int).0,
            match old(self)@.get_integer_within(i32::MIN as int, i32::MAX as int).1 {
                Ok(wide) => value == Ok::<i32, Error>(wide as i32) && wide == wide as i32,
                Err(error) => value matches Err(e) && e@ == error,
            },
    {
        match self.get_integer_within(i32::MIN as i64, i32::MAX as i64) {
            Ok(wide) => Ok(wide as i32),
            Err(error) => Err(error),
        }
    }

    /// Read an integer of 16 bits. An integer that does not fit stays on the
    /// link.
    pub fn get_i16(&mut self) -> (value: Result<i16, Error>)
        ensures
            final(self)@ == old(self)@.get_integer_within(i16::MIN as int, i16::MAX as int).0,
            match old(self)@.get_integer_within(i16::MIN as int, i16::MAX as int).1 {
                Ok(wide) => value == Ok::<i16, Error>(wide as i16) && wide == wide as i16,
                Err(error) => value matches Err(e) && e@ == error,
            },
    {
        match self.get_integer_within(i16::MIN as i64, i16::MAX as i64) {
            Ok(wide) => Ok(wide as i16),
            Err(error) => Err(error),
        }
    }

    /// Read an unsigned integer of 8 bits. An integer that does not fit stays
    /// on the link.
    pub fn get_u8(&mut self) -> (value: Result<u8, Error>)
        ensures
            final(self)@ == old(self)@.get_integer_within(0, u8::MAX as int).0,
            match old(self)@.get_integer_within(0, u8::MAX as int).1 {
                Ok(wide) => value == Ok::<u8, Error>(wide as u8) && wide == wide as u8,
                Err(error) => value matches Err(e) && e@ == error,
            },
    {
        match self.get_integer_within(0, u8::MAX as i64) {
            Ok(wide) => Ok(wide as u8),
            Err(error) => Err(error),
        }
    }

    /// Read a real number, as the bits of its IEEE 754 binary64 form.
    pub fn get_f64_bits(&mut self) -> (bits: Result<u64, Error>)
        ensures
            final(self)@ == old(self)@.get_real().0,
            plain(bits) == old(self)@.get_real().1,
    {
        let found: Option<Option<u64>> = match self.peek() {
            None => None,
            Some(atom) => Some(
                match atom {
                    Atom::Real(bits) => Some(*bits),
                    _ => None,
                },
            ),
        };
        match found {
            None => self.fail(WSEABORT),
            Some(None) => self.fail(WSEGSEQ),
            Some(Some(bits)) => {
                let _ = self.take();
                Ok(bits)
            },
        }
    }

    /// Read a string. The name of a symbol can be read as a string too.
    pub fn get_string_ref<'link>(&'link mut self) -> (text: Result<LinkStr<'link>, Error>)
        ensures
            final(self)@ == old(self)@.get_string().0,
            viewed(text) == old(self)@.get_string().1,
            text matches Ok(s) ==> !s.symbol() && s.source() == final(self)@,
    {
        let found: Option<bool> = match self.peek() {
            None => None,
            Some(atom) => Some(
                match atom {
                    Atom::String(_) => true,
                    Atom::Symbol(_) => true,
                    _ => false,
                },
            ),
        };
        match found {
            None => self.fail(WSEABORT),
            Some(false) => self.fail(WSEGSEQ),
            Some(true) => {
                let value: String = atom_text(self.take()).unwrap();
                Ok(LinkStr { link: self, value, is_symbol: false })
            },
        }
    }

    /// Convenience wrapper around [`Link::get_string_ref()`].
    pub fn get_string(&mut self) -> (text: Result<String, Error>)
        ensures
            final(self)@ == old(self)@.get_string().0,
            viewed(text) == old(self)@.get_string().1,
    {
        match self.get_string_ref() {
            Ok(text) => Ok(String::from_str(text.as_str())),
            Err(error) => Err(error),
        }
    }

    /// Read a string, as UTF-8.
    pub fn get_utf8_str<'link>(&'link mut self) -> (text: Result<LinkStr<'link, Utf8Str>, Error>)
        ensures
            final(self)@ == old(self)@.get_string().0,
            viewed(text) == old(self)@.get_string().1,
            text matches Ok(s) ==> !s.symbol() && s.source() == final(self)@,
    {
        let found: Option<bool> = match self.peek() {
            None => None,
            Some(atom) => Some(
                match atom {
                    Atom::String(_) => true,
                    Atom::Symbol(_) => true,
                    _ => false,
                },
            ),
        };
        match found {
            None => self.fail(WSEABORT),
            Some(false) => self.fail(WSEGSEQ),
            Some(true) => {
                let read: String = atom_text(self.take()).unwrap();
                let value = Utf8Str::from_str(read.as_str());
                Ok(LinkStr { link: self, value, is_symbol: false })
            },
        }
    }

    /// Read a string, as UTF-16.
    pub fn get_utf16_str<'link>(&'link mut self) -> (text: Result<LinkStr<'link, Utf16Str>, Error>)
        ensures
            final(self)@ == old(self)@.get_string().0,
            match old(self)@.get_string().1 {
                Ok(chars) => text matches Ok(s) && s@ == encode_utf16(chars) && !s.symbol()
                    && s.source() == final(self)@,
                Err(error) => text matches Err(e) && e@ == error,
            },
    {
        let found: Option<bool> = match self.peek() {
            None => None,
            Some(atom) => Some(
                match atom {
                    Atom::String(_) => true,
                    Atom::Symbol(_) => true,
                    _ => false,
                },
            ),
        };
        match found {
            None => self.fail(WSEABORT),
            Some(false) => self.fail(WSEGSEQ),
            Some(true) => {
                let read: String = atom_text(self.take()).unwrap();
                let value = Utf16Str::from_str(read.as_str());
                Ok(LinkStr { link: self, value, is_symbol: false })
            },
        }
    }

    /// Read a string, as UTF-32.
    pub fn get_utf32_str<'link>(&'link mut self) -> (text: Result<LinkStr<'link, Utf32Str>, Error>)
        ensures
            final(self)@ == old(self)@.get_string().0,
            match old(self)@.get_string().1 {
                Ok(chars) => text matches Ok(s) && s@ == encode_utf32(chars) && !s.symbol()
                    && s.source() == final(self)@,
                Err(error) => text matches Err(e) && e@ == error,
            },
    {
        let found: Option<bool> = match self.peek() {
            None => None,
            Some(atom) => Some(
                match atom {
                    Atom::String(_) => true,
                    Atom::Symbol(_) => true,
                    _ => false,
                },
            ),
        };
        match found {
            None => self.fail(WSEABORT),
            Some(false) => self.fail(WSEGSEQ),
            Some(true) => {
                let read: String = atom_text(self.take()).unwrap();
                let value = Utf32Str::from_str(read.as_str());
                Ok(LinkStr { link: self, value, is_symbol: false })
            },
        }
    }

    /// Read the name of a symbol.
    pub fn get_symbol_ref<'link>(&'link mut self) -> (name: Result<LinkStr<'link>, Error>)
        ensures
            final(self)@ == old(self)@.get_symbol().0,
            viewed(name) == old(self)@.get_symbol().1,
            name matches Ok(s) ==> s.symbol() && s.source() == final(self)@,
    {
        let found: Option<bool> = match self.peek() {
            None => None,
            Some(atom) => Some(
                match atom {
                    Atom::Symbol(_) => true,
                    _ => false,
                },
            ),
        };
        match found {
            None => self.fail(WSEABORT),
            Some(false) => self.fail(WSEGSEQ),
            Some(true) => {
                let value: String = atom_text(self.take()).unwrap();
                Ok(LinkStr { link: self, value, is_symbol: true })
            },
        }
    }

    /// Read the next token from this link.
    ///
    /// See also [`Link::get_type()`].
    pub fn get_token<'link>(&'link mut self) -> (token: Result<Token<'link>, Error>)
        ensures
            final(self)@ == old(self)@.get_token().0,
            viewed(token) == old(self)@.get_token().1,
    {
        let token_type: TokenType = match self.get_type() {
            Ok(token_type) => token_type,
            Err(error) => {
                return Err(error);
            },
        };
        match token_type {
            TokenType::Integer => match self.get_i64() {
                Ok(value) => Ok(Token::Integer(value)),
                Err(error) => Err(error),
            },
            TokenType::Real => match self.get_f64_bits() {
                Ok(bits) => Ok(Token::Real(bits)),
                Err(error) => Err(error),
            },
            TokenType::String => match self.get_string_ref() {
                Ok(text) => Ok(Token::String(text)),
                Err(error) => Err(error),
            },
            TokenType::Symbol => match self.get_symbol_ref() {
                Ok(name) => Ok(Token::Symbol(name)),
                Err(error) => Err(error),
            },
            TokenType::Function => match self.get_arg_count() {
                Ok(length) => Ok(Token::Function { length }),
                Err(error) => Err(error),
            },
        }
    }

    /// Drop what is left to read on this link.
    pub fn new_packet(&mut self) -> (done: Result<(), Error>)
        ensures
            final(self)@ == old(self)@.new_packet(),
            done is Ok,
    {
        self.discard();
        Ok(())
    }
}

} // verus!
