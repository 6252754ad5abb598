//! Types representing encoded string data.

use vstd::prelude::*;
use vstd::string::*;
use vstd::utf8::{decode_utf8, encode_utf8, is_scalar, valid_utf8};

verus! {

/// The text with which `core::str::from_utf8` describes why bytes that are
/// not valid UTF-8 are none: the text that displays its error, which depends
/// on the bytes alone.
pub uninterp spec fn utf8_error_text(bytes: Seq<u8>) -> Seq<char>;

/// The text that `String::from_utf8_lossy` makes of bytes, which depends on
/// the bytes alone.
pub uninterp spec fn lossy_text(bytes: Seq<u8>) -> Seq<char>;

/// Reads bytes as text, by `core::str::from_utf8`. The contract claims what
/// the documentation of that function says: the bytes are accepted exactly
/// where they are valid UTF-8, and the text is made of the very bytes given.
/// Where the bytes are refused, the text that displays the error of that
/// function is returned, under its name [`utf8_error_text`].
#[verifier::external_body]
fn str_from_utf8(bytes: &[u8]) -> (text: Result<&str, String>)
    ensures
        text is Ok <==> valid_utf8(bytes@),
        text matches Ok(t) ==> t.spec_bytes() == bytes@,
        text matches Err(reason) ==> reason@ == utf8_error_text(bytes@),
{
    match core::str::from_utf8(bytes) {
        Ok(text) => Ok(text),
        Err(error) => Err(format!("{}", error)),
    }
}

/// Makes a text of bytes, by `String::from_utf8_lossy`. The contract gives
/// the text its name, [`lossy_text`], and claims nothing more.
#[verifier::external_body]
fn string_from_utf8_lossy(bytes: &[u8]) -> (text: String)
    ensures
        text@ == lossy_text(bytes@),
{
    String::from_utf8_lossy(bytes).into_owned()
}

/// Makes a character of a number, by `char::from_u32`. The contract claims
/// what the documentation of that function says: the number is accepted
/// exactly where it is a Unicode scalar value, and the character has that
/// value.
#[verifier::external_body]
fn char_from_u32(value: u32) -> (character: Option<char>)
    ensures
        character is Some <==> is_scalar(value),
        character matches Some(c) ==> c as u32 == value,
{
    char::from_u32(value)
}

/// Appends a character to a text, by `String::push`. The contract claims
/// what the documentation of that function says: the text is as before, with
/// the character added at its end.
#[verifier::external_body]
fn push_char(text: &mut String, character: char)
    ensures
        final(text)@ == old(text)@.push(character),
{
    text.push(character)
}

/// UTF-8 string.
///
/// This type supports efficient conversion to and from the [`str`] type. It
/// is provided primarily for consistency with the other string types.
#[derive(Debug, PartialEq, Eq)]
pub struct Utf8Str {
    text: String,
}

impl View for Utf8Str {
    type V = Seq<char>;

    closed spec fn view(&self) -> Seq<char> {
        self.text@
    }
}

impl Utf8Str {
    /// Convert a string slice to a `Utf8Str`.
    pub fn from_str(str: &str) -> (text: Utf8Str)
        ensures
            text@ == str@,
    {
        Utf8Str { text: String::from_str(str) }
    }

    /// Convert a slice of bytes to a `Utf8Str`. The bytes are accepted
    /// exactly where they are valid UTF-8.
    pub fn from_utf8(utf8: &[u8]) -> (text: Result<Utf8Str, ()>)
        ensures
            text is Ok <==> valid_utf8(utf8@),
            text matches Ok(t) ==> encode_utf8(t@) == utf8@ && t@ == decode_utf8(utf8@),
    {
        match Utf8Str::decode(utf8) {
            Ok(text) => Ok(text),
            Err(_) => Err(()),
        }
    }

    /// Convert a slice of bytes to a `Utf8Str`, or say why they are none:
    /// the error is the text with which the standard library describes the
    /// place at which the bytes stop being valid UTF-8.
    pub fn decode(utf8: &[u8]) -> (text: Result<Utf8Str, String>)
        ensures
            text is Ok <==> valid_utf8(utf8@),
            text matches Ok(t) ==> encode_utf8(t@) == utf8@ && t@ == decode_utf8(utf8@),
            text matches Err(reason) ==> reason@ == utf8_error_text(utf8@),
    {
        match str_from_utf8(utf8) {
            Ok(str) => {
                proof {
                    vstd::utf8::encode_utf8_decode_utf8(str@);
                }
                Ok(Utf8Str::from_str(str))
            },
            Err(reason) => Err(reason),
        }
    }

    /// Convert a slice of bytes to a `Utf8Str`, with a replacement character
    /// in place of what is not valid UTF-8.
    pub fn from_utf8_lossy(utf8: &[u8]) -> (text: Utf8Str)
        ensures
            text@ == lossy_text(utf8@),
    {
        Utf8Str { text: string_from_utf8_lossy(utf8) }
    }

    /// Access this data as a `str`.
    pub fn as_str(&self) -> (text: &str)
        ensures
            text@ == self@,
    {
        self.text.as_str()
    }

    /// Access the elements of this UTF-8 string as a slice of `u8` elements.
    pub fn as_slice(&self) -> (bytes: &[u8])
        ensures
            bytes@ == encode_utf8(self@),
    {
        self.text.as_str().as_bytes()
    }

    /// The text that displays this string.
    pub fn to_string(&self) -> (text: String)
        ensures
            text@ == self@,
    {
        self.text.clone()
    }
}

/// Whether a unit of UTF-16 is the first of a pair that stands for one
/// character.
pub open spec fn is_high_surrogate(unit: u16) -> bool {
    0xD800 <= unit <= 0xDBFF
}

/// Whether a unit of UTF-16 is the second of a pair that stands for one
/// character.
pub open spec fn is_low_surrogate(unit: u16) -> bool {
    0xDC00 <= unit <= 0xDFFF
}

/// The value of the character that a pair of surrogates stands for.
pub open spec fn surrogate_pair(high: u16, low: u16) -> u32 {
    (0x10000 + (high - 0xD800) * 0x400 + (low - 0xDC00)) as u32
}

/// The characters that the units of UTF-16 from the place `from` on stand
/// for, behind those of `before`; or the first surrogate that has no
/// partner.
pub open spec fn decode_utf16_from(units: Seq<u16>, from: int, before: Seq<char>) -> Result<
    Seq<char>,
    u16,
>
    decreases units.len() - from,
{
    if from < 0 || from >= units.len() {
        Ok(before)
    } else if !is_high_surrogate(units[from]) && !is_low_surrogate(units[from]) {
        decode_utf16_from(units, from + 1, before.push((units[from] as u32) as char))
    } else if is_high_surrogate(units[from]) && from + 1 < units.len() && is_low_surrogate(
        units[from + 1],
    ) {
        decode_utf16_from(
            units,
            from + 2,
            before.push(surrogate_pair(units[from], units[from + 1]) as char),
        )
    } else {
        Err(units[from])
    }
}

/// The characters that units of UTF-16 stand for, or the first surrogate
/// among them that has no partner.
pub open spec fn decode_utf16(units: Seq<u16>) -> Result<Seq<char>, u16> {
    decode_utf16_from(units, 0, Seq::empty())
}

/// The characters that numbers stand for, each number one character, from
/// the place `from` on and behind those of `before`; or the first number
/// that is no Unicode scalar value.
pub open spec fn decode_utf32_from(units: Seq<u32>, from: int, before: Seq<char>) -> Result<
    Seq<char>,
    u32,
>
    decreases units.len() - from,
{
    if from < 0 || from >= units.len() {
        Ok(before)
    } else if is_scalar(units[from]) {
        decode_utf32_from(units, from + 1, before.push(units[from] as char))
    } else {
        Err(units[from])
    }
}

/// The characters that numbers stand for, or the first number among them
/// that is no Unicode scalar value.
pub open spec fn decode_utf32(units: Seq<u32>) -> Result<Seq<char>, u32> {
    decode_utf32_from(units, 0, Seq::empty())
}

/// The error of decoding UTF-16: a surrogate that has no partner.
#[derive(Debug, Clone, Copy, PartialEq, Eq, Structural)]
pub struct DecodeUtf16Error {
    /// The surrogate.
    pub code: u16,
}

impl DecodeUtf16Error {
    /// Returns the unpaired surrogate which caused this error.
    pub fn unpaired_surrogate(&self) -> (code: u16)
        ensures
            code == self.code,
    {
        self.code
    }
}

/// The units of UTF-16 that stand for a character: the character itself
/// where it fits in 16 bits, else a pair of surrogates.
pub open spec fn utf16_units(character: char) -> Seq<u16> {
    let value = character as u32;
    if value < 0x10000 {
        seq![value as u16]
    } else {
        seq![
            (0xD800 + (value - 0x10000) / 0x400) as u16,
            (0xDC00 + (value - 0x10000) % 0x400) as u16,
        ]
    }
}

/// The units of UTF-16 that stand for a text.
pub open spec fn encode_utf16(chars: Seq<char>) -> Seq<u16>
    decreases chars.len(),
{
    if chars.len() == 0 {
        Seq::empty()
    } else {
        encode_utf16(chars.drop_last()) + utf16_units(chars.last())
    }
}

/// The numbers that stand for a text, one for each character.
pub open spec fn encode_utf32(chars: Seq<char>) -> Seq<u32> {
    Seq::new(chars.len(), |i: int| chars[i] as u32)
}

/// Decoding reads the units of one character as that character.
proof fn lemma_decode_utf16_character(units: Seq<u16>, from: int, before: Seq<char>, c: char)
    requires
        0 <= from,
        from + utf16_units(c).len() <= units.len(),
        units.subrange(from, from + utf16_units(c).len()) == utf16_units(c),
    ensures
        decode_utf16_from(units, from, before) == decode_utf16_from(
            units,
            from + utf16_units(c).len(),
            before.push(c),
        ),
{
    let value = c as u32;
    let own = utf16_units(c);
    vstd::utf8::char_is_scalar(c);
    assert(units[from] == own[0]);
    if value < 0x10000 {
        vstd::utf8::char_u32_cast(c, units[from] as u32);
    } else {
        assert(units[from + 1] == own[1]);
        assert(surrogate_pair(units[from], units[from + 1]) == value);
        vstd::utf8::char_u32_cast(c, value);
    }
}

/// Decoding what stands for a text gives the text, whatever was decoded
/// before.
proof fn lemma_decode_utf16_from(units: Seq<u16>, from: int, before: Seq<char>, chars: Seq<char>)
    requires
        0 <= from,
        from + encode_utf16(chars).len() == units.len(),
        units.subrange(from, units.len() as int) == encode_utf16(chars),
    ensures
        decode_utf16_from(units, from, before) == Ok::<Seq<char>, u16>(before + chars),
    decreases chars.len(),
{
    if chars.len() == 0 {
        assert(before + chars =~= before);
    } else {
        let first = chars[0];
        let rest = chars.drop_first();
        lemma_encode_utf16_front(chars);
        let own = utf16_units(first);
        assert(units.subrange(from, from + own.len()) =~= own) by {
            assert forall|i: int| 0 <= i < own.len() implies units.subrange(
                from,
                from + own.len(),
            )[i] == own[i] by {
                assert(units.subrange(from, units.len() as int)[i] == encode_utf16(chars)[i]);
            }
        }
        lemma_decode_utf16_character(units, from, before, first);
        assert(units.subrange(from + own.len(), units.len() as int) =~= encode_utf16(rest)) by {
            assert forall|i: int| 0 <= i < encode_utf16(rest).len() implies units.subrange(
                from + own.len(),
                units.len() as int,
            )[i] == encode_utf16(rest)[i] by {
                assert(units.subrange(from, units.len() as int)[own.len() + i] == encode_utf16(
                    chars,
                )[own.len() + i]);
            }
        }
        lemma_decode_utf16_from(units, from + own.len(), before.push(first), rest);
        assert(before.push(first) + rest =~= before + chars);
    }
}

/// The units of a text begin with those of its first character.
proof fn lemma_encode_utf16_front(chars: Seq<char>)
    requires
        chars.len() > 0,
    ensures
        encode_utf16(chars) == utf16_units(chars[0]) + encode_utf16(chars.drop_first()),
    decreases chars.len(),
{
    if chars.len() == 1 {
        assert(chars.drop_last() =~= Seq::empty());
        assert(chars.drop_first() =~= Seq::empty());
        assert(encode_utf16(chars) =~= utf16_units(chars[0]) + encode_utf16(chars.drop_first()));
    } else {
        let shorter = chars.drop_last();
        lemma_encode_utf16_front(shorter);
        assert(shorter.drop_first() =~= chars.drop_first().drop_last());
        assert(chars.drop_first().last() == chars.last());
        assert(encode_utf16(chars) =~= utf16_units(chars[0]) + encode_utf16(chars.drop_first()));
    }
}

/// Decoding what stands for a text in UTF-16 gives the text.
pub proof fn lemma_utf16_round_trip(chars: Seq<char>)
    ensures
        decode_utf16(encode_utf16(chars)) == Ok::<Seq<char>, u16>(chars),
{
    let units = encode_utf16(chars);
    assert(units.subrange(0, units.len() as int) =~= units);
    lemma_decode_utf16_from(units, 0, Seq::empty(), chars);
    assert(Seq::<char>::empty() + chars =~= chars);
}

/// Decoding the numbers of the characters of a text gives the text.
proof fn lemma_decode_utf32_from(chars: Seq<char>, from: int, before: Seq<char>)
    requires
        0 <= from <= chars.len(),
        before == chars.take(from),
    ensures
        decode_utf32_from(encode_utf32(chars), from, before) == Ok::<Seq<char>, u32>(chars),
    decreases chars.len() - from,
{
    if from == chars.len() {
        assert(chars.take(from) =~= chars);
    } else {
        vstd::utf8::char_is_scalar(chars[from]);
        vstd::utf8::char_u32_cast(chars[from], encode_utf32(chars)[from]);
        assert(chars.take(from).push(chars[from]) =~= chars.take(from + 1));
        lemma_decode_utf32_from(chars, from + 1, chars.take(from + 1));
    }
}

/// Decoding what stands for a text in UTF-32 gives the text.
pub proof fn lemma_utf32_round_trip(chars: Seq<char>)
    ensures
        decode_utf32(encode_utf32(chars)) == Ok::<Seq<char>, u32>(chars),
{
    assert(chars.take(0) =~= Seq::empty());
    lemma_decode_utf32_from(chars, 0, Seq::empty());
}

/// Decodes units of UTF-16.
fn utf16_text(units: &[u16]) -> (text: Result<String, DecodeUtf16Error>)
    ensures
        match decode_utf16(units@) {
            Ok(chars) => text matches Ok(t) && t@ == chars,
            Err(code) => text == Err::<String, DecodeUtf16Error>(DecodeUtf16Error { code }),
        },
{
    let mut text: String = String::new();
    let mut i: usize = 0;
    while i < units.len()
        invariant
            i <= units@.len(),
            decode_utf16(units@) == decode_utf16_from(units@, i as int, text@),
        decreases units.len() - i,
    {
        let unit: u16 = units[i];
        if !(0xD800 <= unit && unit <= 0xDFFF) {
            match char_from_u32(unit as u32) {
                Some(character) => {
                    proof {
                        vstd::utf8::char_u32_cast(character, unit as u32);
                    }
                    push_char(&mut text, character);
                },
                None => {
                    return Err(DecodeUtf16Error { code: unit });
                },
            }
            i += 1;
        } else if unit <= 0xDBFF && i + 1 < units.len() && 0xDC00 <= units[i + 1] && units[i + 1]
            <= 0xDFFF {
            let low: u16 = units[i + 1];
            let value: u32 = 0x10000 + (unit as u32 - 0xD800) * 0x400 + (low as u32 - 0xDC00);
            match char_from_u32(value) {
                Some(character) => {
                    proof {
                        vstd::utf8::char_u32_cast(character, value);
                    }
                    push_char(&mut text, character);
                },
                None => {
                    return Err(DecodeUtf16Error { code: unit });
                },
            }
            i += 2;
        } else {
            return Err(DecodeUtf16Error { code: unit });
        }
    }
    Ok(text)
}

/// UTF-16 string.
#[derive(Debug, PartialEq, Eq)]
pub struct Utf16Str {
    units: Vec<u16>,
}

impl View for Utf16Str {
    type V = Seq<u16>;

    closed spec fn view(&self) -> Seq<u16> {
        self.units@
    }
}

impl Utf16Str {
    #[verifier::type_invariant]
    spec fn well_formed(&self) -> bool {
        decode_utf16(self.units@) is Ok
    }

    /// Convert a slice of [`u16`] to a UTF-16 string. The units are accepted
    /// exactly where each surrogate among them has its partner.
    pub fn from_utf16(utf16: &[u16]) -> (text: Result<Utf16Str, DecodeUtf16Error>)
        ensures
            match decode_utf16(utf16@) {
                Ok(_) => text matches Ok(t) && t@ == utf16@,
                Err(code) => text == Err::<Utf16Str, DecodeUtf16Error>(DecodeUtf16Error { code }),
            },
    {
        match utf16_text(utf16) {
            Ok(_) => Ok(Utf16Str { units: vstd::slice::slice_to_vec(utf16) }),
            Err(error) => Err(error),
        }
    }

    /// Convert a string slice to a UTF-16 string.
    pub fn from_str(str: &str) -> (text: Utf16Str)
        ensures
            text@ == encode_utf16(str@),
    {
        let count: usize = str.unicode_len();
        let mut units: Vec<u16> = Vec::new();
        let mut i: usize = 0;
        assert(str@.take(0) =~= Seq::empty());
        while i < count
            invariant
                i <= count == str@.len(),
                units@ == encode_utf16(str@.take(i as int)),
            decreases count - i,
        {
            let character: char = str.get_char(i);
            let value: u32 = character as u32;
            proof {
                vstd::utf8::char_is_scalar(character);
                assert(str@.take(i as int + 1).drop_last() =~= str@.take(i as int));
                assert(str@.take(i as int + 1).last() == character);
            }
            if value < 0x10000 {
                units.push(value as u16);
            } else {
                units.push((0xD800 + (value - 0x10000) / 0x400) as u16);
                units.push((0xDC00 + (value - 0x10000) % 0x400) as u16);
            }
            assert(units@ =~= encode_utf16(str@.take(i as int + 1)));
            i += 1;
        }
        proof {
            assert(str@.take(count as int) =~= str@);
            lemma_utf16_round_trip(str@);
        }
        Utf16Str { units }
    }

    /// Access the elements of this UTF-16 string as a slice of `u16`
    /// elements.
    pub fn as_slice(&self) -> (units: &[u16])
        ensures
            units@ == self@,
            decode_utf16(self@) is Ok,
    {
        proof {
            use_type_invariant(self);
        }
        self.units.as_slice()
    }

    /// The text that displays this string: its characters.
    pub fn to_string(&self) -> (text: String)
        ensures
            decode_utf16(self@) == Ok::<Seq<char>, u16>(text@),
    {
        proof {
            use_type_invariant(self);
        }
        match utf16_text(self.units.as_slice()) {
            Ok(text) => text,
            Err(_) => String::new(),
        }
    }
}

/// Decodes numbers that each stand for one character.
fn utf32_text(units: &[u32]) -> (text: Result<String, u32>)
    ensures
        match decode_utf32(units@) {
            Ok(chars) => text matches Ok(t) && t@ == chars,
            Err(unit) => text == Err::<String, u32>(unit),
        },
{
    let mut text: String = String::new();
    let mut i: usize = 0;
    while i < units.len()
        invariant
            i <= units@.len(),
            decode_utf32(units@) == decode_utf32_from(units@, i as int, text@),
        decreases units.len() - i,
    {
        match char_from_u32(units[i]) {
            Some(character) => {
                proof {
                    vstd::utf8::char_u32_cast(character, units@[i as int]);
                }
                push_char(&mut text, character);
            },
            None => {
                return Err(units[i]);
            },
        }
        i += 1;
    }
    Ok(text)
}

/// UTF-32 string.
#[derive(Debug, PartialEq, Eq)]
pub struct Utf32Str {
    units: Vec<u32>,
}

impl View for Utf32Str {
    type V = Seq<u32>;

    closed spec fn view(&self) -> Seq<u32> {
        self.units@
    }
}

impl Utf32Str {
    #[verifier::type_invariant]
    spec fn well_formed(&self) -> bool {
        decode_utf32(self.units@) is Ok
    }

    /// Convert a slice of [`u32`] to a UTF-32 string. The numbers are
    /// accepted exactly where each is a Unicode scalar value; else the first
    /// that is none is returned.
    pub fn from_utf32(utf32: &[u32]) -> (text: Result<Utf32Str, u32>)
        ensures
            match decode_utf32(utf32@) {
                Ok(_) => text matches Ok(t) && t@ == utf32@,
                Err(unit) => text == Err::<Utf32Str, u32>(unit),
            },
    {
        match utf32_text(utf32) {
            Ok(_) => Ok(Utf32Str { units: vstd::slice::slice_to_vec(utf32) }),
            Err(unit) => Err(unit),
        }
    }

    /// Convert a string slice to a UTF-32 string.
    pub fn from_str(str: &str) -> (text: Utf32Str)
        ensures
            text@ == encode_utf32(str@),
    {
        let count: usize = str.unicode_len();
        let mut units: Vec<u32> = Vec::new();
        let mut i: usize = 0;
        while i < count
            invariant
                i <= count == str@.len(),
                units@.len() == i,
                forall|k: int| 0 <= k < i ==> units@[k] == str@[k] as u32,
            decreases count - i,
        {
            let character: char = str.get_char(i);
            units.push(character as u32);
            i += 1;
        }
        proof {
            assert(units@ =~= encode_utf32(str@));
            lemma_utf32_round_trip(str@);
        }
        Utf32Str { units }
    }

    /// Access the elements of this UTF-32 string as a slice of `u32`
    /// elements.
    pub fn as_slice(&self) -> (units: &[u32])
        ensures
            units@ == self@,
            decode_utf32(self@) is Ok,
    {
        proof {
            use_type_invariant(self);
        }
        self.units.as_slice()
    }

    /// The text that displays this string: its characters.
    pub fn to_string(&self) -> (text: String)
        ensures
            decode_utf32(self@) == Ok::<Seq<char>, u32>(text@),
    {
        proof {
            use_type_invariant(self);
        }
        match utf32_text(self.units.as_slice()) {
            Ok(text) => text,
            Err(_) => String::new(),
        }
    }
}

/// UCS-2 string: units of 16 bits, each one character.
#[derive(Debug, PartialEq, Eq)]
pub struct Ucs2Str {
    /// The units.
    pub units: Vec<u16>,
}

} // verus!
