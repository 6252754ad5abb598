//! Writing tokens to a link.

use vstd::prelude::*;
use vstd::string::*;
use vstd::utf8::{decode_utf8, valid_utf8};
use crate::error::Error;
use crate::link::{plain, size_error, Link};
use crate::strx::{decode_utf16, decode_utf32, Utf16Str, Utf32Str, Utf8Str};
use crate::sys::{WSEPBTK, WSEPSCONVERT, WSEPSEQ, WSEPUTENDPACKET, WSTKFUNC};
use crate::token::{Atom, TokenType, TokenView};

verus! {

/// The error of `operation` for a size that does not fit in 32 bits.
pub(crate) fn size_overflow(operation: &str) -> (error: Error)
    ensures
        error@ == size_error(operation@),
{
    let mut message: String = String::from_str(operation);
    message.append(
        ": Error converting usize to i32: out of range integral type conversion attempted",
    );
    Error::custom(message)
}

impl Link {
    /// Writes `atom`, unless a token of another type has been announced.
    pub(crate) fn put_atom(&mut self, atom: Atom) -> (done: Result<(), Error>)
        ensures
            final(self)@ == old(self)@.put(atom@).0,
            plain(done) == old(self)@.put(atom@).1,
    {
        let token_type: TokenType = match &atom {
            Atom::Integer(_) => TokenType::Integer,
            Atom::Real(_) => TokenType::Real,
            Atom::String(_) => TokenType::String,
            Atom::Symbol(_) => TokenType::Symbol,
            Atom::Function(_) => TokenType::Function,
            Atom::IntegerArray(_) => TokenType::Function,
        };
        let allowed: bool = match self.owed() {
            None => true,
            Some(owed) => owed == token_type,
        };
        if allowed {
            self.write(atom);
            Ok(())
        } else {
            self.fail(WSEPSEQ)
        }
    }

    /// Announce the type of the token that will be written next, by its raw
    /// type tag.
    ///
    /// Only one type can be announced at a time, and the token written next
    /// must have it.
    pub fn put_raw_type(&mut self, type_: i32) -> (done: Result<(), Error>)
        ensures
            final(self)@ == old(self)@.put_raw_type(type_).0,
            plain(done) == old(self)@.put_raw_type(type_).1,
    {
        if self.owed().is_some() {
            return self.fail(WSEPSEQ);
        }
        match TokenType::from_raw(type_) {
            Ok(token_type) => {
                self.set_owed(Some(token_type));
                Ok(())
            },
            Err(_) => self.fail(WSEPBTK),
        }
    }

    /// End the packet that is being written.
    pub fn end_packet(&mut self) -> (done: Result<(), Error>)
        ensures
            final(self)@ == old(self)@.end_packet().0,
            plain(done) == old(self)@.end_packet().1,
    {
        if self.owed().is_some() {
            self.fail(WSEPUTENDPACKET)
        } else {
            Ok(())
        }
    }

    /// Flush out any buffers containing data waiting to be sent on this
    /// link. The engine itself holds nothing back, so the link stays as it
    /// is.
    pub fn flush(&mut self) -> (done: Result<(), Error>)
        ensures
            final(self)@ == old(self)@,
            done is Ok,
    {
        Ok(())
    }

    /// Write a string.
    pub fn put_str(&mut self, string: &str) -> (done: Result<(), Error>)
        ensures
            final(self)@ == old(self)@.put_text(
                "put_str"@,
                string@,
                TokenView::String(string@),
            ).0,
            plain(done) == old(self)@.put_text(
                "put_str"@,
                string@,
                TokenView::String(string@),
            ).1,
    {
        if string.as_bytes().len() > i32::MAX as usize {
            return Err(size_overflow("put_str"));
        }
        self.put_atom(Atom::String(String::from_str(string)))
    }

    /// Write a symbol, by its name.
    pub fn put_symbol(&mut self, symbol: &str) -> (done: Result<(), Error>)
        ensures
            final(self)@ == old(self)@.put_text(
                "put_symbol"@,
                symbol@,
                TokenView::Symbol(symbol@),
            ).0,
            plain(done) == old(self)@.put_text(
                "put_symbol"@,
                symbol@,
                TokenView::Symbol(symbol@),
            ).1,
    {
        if symbol.as_bytes().len() > i32::MAX as usize {
            return Err(size_overflow("put_symbol"));
        }
        self.put_atom(Atom::Symbol(String::from_str(symbol)))
    }

    /// Put a UTF-8 encoded string.
    ///
    /// This function will return a WSTP error if `utf8` is not a valid UTF-8
    /// encoded string.
    pub fn put_utf8_str(&mut self, utf8: &[u8]) -> (done: Result<(), Error>)
        ensures
            final(self)@ == old(self)@.put_encoded(
                "put_utf8_str"@,
                utf8@.len(),
                if valid_utf8(utf8@) {
                    Some(decode_utf8(utf8@))
                } else {
                    None
                },
            ).0,
            plain(done) == old(self)@.put_encoded(
                "put_utf8_str"@,
                utf8@.len(),
                if valid_utf8(utf8@) {
                    Some(decode_utf8(utf8@))
                } else {
                    None
                },
            ).1,
    {
        if utf8.len() > i32::MAX as usize {
            return Err(size_overflow("put_utf8_str"));
        }
        match Utf8Str::from_utf8(utf8) {
            Ok(text) => self.put_atom(Atom::String(text.to_string())),
            Err(_) => self.fail(WSEPSCONVERT),
        }
    }

    /// Put a UTF-16 encoded string.
    ///
    /// This function will return a WSTP error if `utf16` is not a valid
    /// UTF-16 encoded string.
    pub fn put_utf16_str(&mut self, utf16: &[u16]) -> (done: Result<(), Error>)
        ensures
            final(self)@ == old(self)@.put_encoded(
                "put_utf16_str"@,
                utf16@.len(),
                match decode_utf16(utf16@) {
                    Ok(text) => Some(text),
                    Err(_) => None,
                },
            ).0,
            plain(done) == old(self)@.put_encoded(
                "put_utf16_str"@,
                utf16@.len(),
                match decode_utf16(utf16@) {
                    Ok(text) => Some(text),
                    Err(_) => None,
                },
            ).1,
    {
        if utf16.len() > i32::MAX as usize {
            return Err(size_overflow("put_utf16_str"));
        }
        match Utf16Str::from_utf16(utf16) {
            Ok(text) => self.put_atom(Atom::String(text.to_string())),
            Err(_) => self.fail(WSEPSCONVERT),
        }
    }

    /// Put a UTF-32 encoded string.
    ///
    /// This function will return a WSTP error if `utf32` is not a valid
    /// UTF-32 encoded string.
    pub fn put_utf32_str(&mut self, utf32: &[u32]) -> (done: Result<(), Error>)
        ensures
            final(self)@ == old(self)@.put_encoded(
                "put_utf32_str"@,
                utf32@.len(),
                match decode_utf32(utf32@) {
                    Ok(text) => Some(text),
                    Err(_) => None,
                },
            ).0,
            plain(done) == old(self)@.put_encoded(
                "put_utf32_str"@,
                utf32@.len(),
                match decode_utf32(utf32@) {
                    Ok(text) => Some(text),
                    Err(_) => None,
                },
            ).1,
    {
        if utf32.len() > i32::MAX as usize {
            return Err(size_overflow("put_utf32_str"));
        }
        match Utf32Str::from_utf32(utf32) {
            Ok(text) => self.put_atom(Atom::String(text.to_string())),
            Err(_) => self.fail(WSEPSCONVERT),
        }
    }

    /// Begin putting a function onto this link: its type tag, the count of
    /// its arguments and, where `head` names one, the symbol that is its
    /// head. With no `head`, the expression written next is the head.
    pub fn put_function(&mut self, head: Option<&str>, count: usize) -> (done: Result<(), Error>)
        ensures
            final(self)@ == old(self)@.put_function(
                match head {
                    Some(name) => Some(name@),
                    None => None,
                },
                count,
            ).0,
            plain(done) == old(self)@.put_function(
                match head {
                    Some(name) => Some(name@),
                    None => None,
                },
                count,
            ).1,
    {
        match self.put_raw_type(WSTKFUNC as i32) {
            Ok(()) => {},
            Err(error) => {
                return Err(error);
            },
        }
        match self.put_arg_count(count) {
            Ok(()) => {},
            Err(error) => {
                return Err(error);
            },
        }
        match head {
            Some(name) => self.put_symbol(name),
            None => Ok(()),
        }
    }

    /// Write the count of arguments of a function.
    pub fn put_arg_count(&mut self, count: usize) -> (done: Result<(), Error>)
        ensures
            final(self)@ == old(self)@.put_arg_count(count).0,
            plain(done) == old(self)@.put_arg_count(count).1,
    {
        if count > i32::MAX as usize {
            return Err(size_overflow("put_arg_count"));
        }
        self.put_atom(Atom::Function(count))
    }

    /// Write an integer.
    pub fn put_i64(&mut self, value: i64) -> (done: Result<(), Error>)
        ensures
            final(self)@ == old(self)@.put(TokenView::Integer(value)).0,
            plain(done) == old(self)@.put(TokenView::Integer(value)).1,
    {
        self.put_atom(Atom::Integer(value))
    }

    /// Write an integer of 32 bits.
    pub fn put_i32(&mut self, value: i32) -> (done: Result<(), Error>)
        ensures
            final(self)@ == old(self)@.put(TokenView::Integer(value as i64)).0,
            plain(done) == old(self)@.put(TokenView::Integer(value as i64)).1,
    {
        self.put_atom(Atom::Integer(value as i64))
    }

    /// Write an integer of 16 bits.
    pub fn put_i16(&mut self, value: i16) -> (done: Result<(), Error>)
        ensures
            final(self)@ == old(self)@.put(TokenView::Integer(value as i64)).0,
            plain(done) == old(self)@.put(TokenView::Integer(value as i64)).1,
    {
        self.put_atom(Atom::Integer(value as i64))
    }

    /// Write an unsigned integer of 8 bits.
    pub fn put_u8(&mut self, value: u8) -> (done: Result<(), Error>)
        ensures
            final(self)@ == old(self)@.put(TokenView::Integer(value as i64)).0,
            plain(done) == old(self)@.put(TokenView::Integer(value as i64)).1,
    {
        self.put_atom(Atom::Integer(value as i64))
    }

    /// Write a real number, given as the bits of its IEEE 754 binary64 form.
    pub fn put_f64_bits(&mut self, bits: u64) -> (done: Result<(), Error>)
        ensures
            final(self)@ == old(self)@.put(TokenView::Real(bits)).0,
            plain(done) == old(self)@.put(TokenView::Real(bits)).1,
    {
        self.put_atom(Atom::Real(bits))
    }
}

} // verus!
