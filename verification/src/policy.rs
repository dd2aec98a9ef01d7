//! The policy that a write has to pass before anything is stored: which
//! identifiers and which content sizes are admitted, and how lengths move
//! between the native size type and the integer type of the stored row.

use vstd::prelude::*;
use vstd::string::{is_ascii_spec_bytes, StrSliceExecFns};
use crate::errors::{out_of_range_text, Error};
use crate::text::{ascii_chars, ascii_string};

verus! {

/// The limits that the service is configured with.
#[derive(Debug, Clone, Copy, PartialEq, Eq, Structural)]
pub struct Limits {
    /// The largest content, in bytes, that is admitted.
    pub max_content_len: usize,
    /// The number of characters that every identifier has.
    pub id_len: usize,
}

/// A set of characters that a piece of text may be held to.
#[derive(Debug, Clone, Copy, PartialEq, Eq, Structural)]
pub enum Alphabet {
    /// ASCII letters, ASCII digits, `-` and `_`: what an identifier may
    /// hold. None of them needs escaping in a URL path segment.
    Identifier,
    /// The visible ASCII characters but `"`, `,`, `;` and `\`: what the
    /// value of a cookie may hold.
    CookieValue,
}

impl Alphabet {
    /// Whether `c` belongs to the alphabet.
    pub open spec fn admits(self, c: char) -> bool {
        match self {
            Alphabet::Identifier => {
                ||| 'a' <= c <= 'z'
                ||| 'A' <= c <= 'Z'
                ||| '0' <= c <= '9'
                ||| c == '-'
                ||| c == '_'
            },
            Alphabet::CookieValue => {
                ||| c == '!'
                ||| '#' <= c <= '+'
                ||| '-' <= c <= ':'
                ||| '<' <= c <= '['
                ||| ']' <= c <= '~'
            },
        }
    }

    /// Whether every character of `text` belongs to the alphabet.
    pub open spec fn admits_all(self, text: Seq<char>) -> bool {
        forall|i: int| 0 <= i < text.len() ==> self.admits(#[trigger] text[i])
    }

    /// Whether `byte` is the ASCII code of a character of the alphabet.
    fn admits_byte(self, byte: u8) -> (ok: bool)
        ensures
            ok == (byte < 128 && self.admits(byte as char)),
    {
        match self {
            Alphabet::Identifier => {
                (byte >= 0x61 && byte <= 0x7a) || (byte >= 0x41 && byte <= 0x5a) || (byte >= 0x30
                    && byte <= 0x39) || byte == 0x2d || byte == 0x5f
            },
            Alphabet::CookieValue => {
                byte == 0x21 || (byte >= 0x23 && byte <= 0x2b) || (byte >= 0x2d && byte <= 0x3a)
                    || (byte >= 0x3c && byte <= 0x5b) || (byte >= 0x5d && byte <= 0x7e)
            },
        }
    }

    /// Checks every character of `text` against the alphabet.
    pub fn check(self, text: &str) -> (ok: bool)
        ensures
            ok == self.admits_all(text@),
    {
        if !text.is_ascii() {
            return false;
        }
        let bytes = text.as_bytes();
        proof {
            is_ascii_spec_bytes(text);
        }
        let n = bytes.len();
        let mut i: usize = 0;
        while i < n
            invariant
                i <= n,
                n == bytes@.len(),
                bytes@.len() == text@.len(),
                forall|j: int|
                    0 <= j < n ==> #[trigger] bytes@[j] as int == text@[j] as int && text@[j]
                        <= '\u{7f}',
                forall|j: int| 0 <= j < i ==> self.admits(#[trigger] text@[j]),
            decreases n - i,
        {
            let ok = self.admits_byte(bytes[i]);
            assert(bytes@[i as int] as char == text@[i as int]);
            if !ok {
                return false;
            }
            i += 1;
        }
        true
    }
}

/// What the policy says of an identifier: a character outside the
/// identifier alphabet is reported first, a length other than `width`
/// second.
pub open spec fn identifier_verdict(id: Seq<char>, width: nat) -> Result<(), Error> {
    if !Alphabet::Identifier.admits_all(id) {
        Err(Error::IllegalCharacters)
    } else if id.len() != width {
        Err(Error::WrongSize)
    } else {
        Ok(())
    }
}

/// What the policy says of a content length: it has to be at least one and
/// at most `max`.
pub open spec fn content_verdict(len: nat, max: nat) -> Result<(), Error> {
    if len == 0 || len > max {
        Err(Error::WrongSize)
    } else {
        Ok(())
    }
}

/// Checks an identifier against the identifier alphabet and the fixed
/// width.
pub fn validate_identifier(id: &str, width: usize) -> (verdict: Result<(), Error>)
    ensures
        verdict == identifier_verdict(id@, width as nat),
{
    if !Alphabet::Identifier.check(id) {
        Err(Error::IllegalCharacters)
    } else if id.unicode_len() != width {
        Err(Error::WrongSize)
    } else {
        Ok(())
    }
}

/// The character that stands for a number below 64 in an identifier:
/// capital letters, small letters, digits, `-` and `_`, in this order.
pub open spec fn digit_char(digit: nat) -> char {
    if digit < 26 {
        ('A' as u8 + digit) as char
    } else if digit < 52 {
        ('a' as u8 + (digit - 26)) as char
    } else if digit < 62 {
        ('0' as u8 + (digit - 52)) as char
    } else if digit == 62 {
        '-'
    } else {
        '_'
    }
}

/// The identifier of `width` characters that stands for `seed`: its digits
/// to the base 64, the least significant first. What of the seed does not
/// fit in `width` digits is left out.
pub open spec fn identifier_of(seed: nat, width: nat) -> Seq<char>
    decreases width,
{
    if width == 0 {
        Seq::empty()
    } else {
        seq![digit_char(seed % 64)] + identifier_of(seed / 64, (width - 1) as nat)
    }
}

/// Every identifier made from a seed passes the policy.
pub proof fn lemma_identifier_of_is_valid(seed: nat, width: nat)
    ensures
        identifier_of(seed, width).len() == width,
        Alphabet::Identifier.admits_all(identifier_of(seed, width)),
        identifier_verdict(identifier_of(seed, width), width) == Ok::<(), Error>(()),
    decreases width,
{
    if width > 0 {
        lemma_identifier_of_is_valid(seed / 64, (width - 1) as nat);
        let id = identifier_of(seed, width);
        let rest = identifier_of(seed / 64, (width - 1) as nat);
        assert(Alphabet::Identifier.admits(digit_char(seed % 64)));
        assert forall|i: int| 0 <= i < id.len() implies Alphabet::Identifier.admits(
            #[trigger] id[i],
        ) by {
            if i > 0 {
                assert(id[i] == rest[i - 1]);
            }
        }
    }
}

/// The number of seeds that identifiers of `width` characters tell apart:
/// 64 to the power of `width`.
pub open spec fn capacity(width: nat) -> nat
    decreases width,
{
    if width == 0 {
        1
    } else {
        64 * capacity((width - 1) as nat)
    }
}

/// Seeds below the capacity have identifiers of their own: where two of
/// them give one identifier, they are one seed.
pub proof fn lemma_identifier_of_is_injective(one: nat, other: nat, width: nat)
    requires
        one < capacity(width),
        other < capacity(width),
        identifier_of(one, width) == identifier_of(other, width),
    ensures
        one == other,
    decreases width,
{
    if width > 0 {
        let a = identifier_of(one, width);
        let b = identifier_of(other, width);
        let rest_a = identifier_of(one / 64, (width - 1) as nat);
        let rest_b = identifier_of(other / 64, (width - 1) as nat);
        assert(a[0] == digit_char(one % 64));
        assert(b[0] == digit_char(other % 64));
        assert(one % 64 == other % 64);
        assert(a.skip(1) =~= rest_a);
        assert(b.skip(1) =~= rest_b);
        lemma_identifier_of_is_injective(one / 64, other / 64, (width - 1) as nat);
    }
}

/// The ASCII code of the character that stands for a number below 64.
fn digit_byte(digit: u8) -> (byte: u8)
    requires
        digit < 64,
    ensures
        byte < 128,
        byte as char == digit_char(digit as nat),
{
    if digit < 26 {
        0x41 + digit
    } else if digit < 52 {
        0x61 + (digit - 26)
    } else if digit < 62 {
        0x30 + (digit - 52)
    } else if digit == 62 {
        0x2d
    } else {
        0x5f
    }
}

/// Makes the identifier of `width` characters that stands for `seed`. The
/// seed is the caller's: a counter, or a random number.
pub fn identifier_from(seed: u64, width: usize) -> (id: String)
    ensures
        id@ == identifier_of(seed as nat, width as nat),
        identifier_verdict(id@, width as nat) == Ok::<(), Error>(()),
{
    let mut bytes: Vec<u8> = Vec::new();
    let mut rest: u64 = seed;
    let mut i: usize = 0;
    while i < width
        invariant
            i <= width,
            bytes@.len() == i,
            forall|j: int| 0 <= j < i ==> bytes@[j] < 128,
            ascii_chars(bytes@) + identifier_of(rest as nat, (width - i) as nat) == identifier_of(
                seed as nat,
                width as nat,
            ),
        decreases width - i,
    {
        let ghost before = bytes@;
        let byte = digit_byte((rest % 64) as u8);
        bytes.push(byte);
        assert(ascii_chars(bytes@) =~= ascii_chars(before) + seq![digit_char((rest % 64) as nat)]);
        assert(ascii_chars(bytes@) + identifier_of((rest / 64) as nat, (width - i - 1) as nat)
            =~= ascii_chars(before) + identifier_of(rest as nat, (width - i) as nat));
        rest = rest / 64;
        i += 1;
    }
    assert(ascii_chars(bytes@) =~= identifier_of(seed as nat, width as nat));
    proof {
        lemma_identifier_of_is_valid(seed as nat, width as nat);
    }
    ascii_string(bytes.as_slice())
}

/// Checks the length of a content against the configured maximum.
pub fn validate_content_length(len: usize, max: usize) -> (verdict: Result<(), Error>)
    ensures
        verdict == content_verdict(len as nat, max as nat),
{
    if len == 0 || len > max {
        Err(Error::WrongSize)
    } else {
        Ok(())
    }
}

/// The integer that a native length is stored as, where it fits.
pub open spec fn stored_length_of(len: nat) -> Option<i64> {
    if len <= i64::MAX {
        Some(len as i64)
    } else {
        None
    }
}

/// The native length that a stored integer stands for, where it is one.
pub open spec fn native_length_of(stored: i64) -> Option<usize> {
    if 0 <= stored <= usize::MAX {
        Some(stored as usize)
    } else {
        None
    }
}

/// Converts a native length to the integer type of the stored row. A
/// length that does not fit is an `IntConversion` failure, never a
/// truncated number.
pub fn to_stored_length(len: usize) -> (stored: Result<i64, Error>)
    ensures
        match stored_length_of(len as nat) {
            Some(n) => stored == Ok::<i64, Error>(n),
            None => stored matches Err(Error::IntConversion(detail)) && detail@
                == out_of_range_text(),
        },
{
    match i64::try_from(len) {
        Ok(n) => Ok(n),
        Err(err) => Err(Error::from(err)),
    }
}

/// Converts the integer of a stored row to a native length. A negative
/// number, or one that the native size type cannot hold, is an
/// `IntConversion` failure.
pub fn to_native_length(stored: i64) -> (len: Result<usize, Error>)
    ensures
        match native_length_of(stored) {
            Some(n) => len == Ok::<usize, Error>(n),
            None => len matches Err(Error::IntConversion(detail)) && detail@
                == out_of_range_text(),
        },
{
    match usize::try_from(stored) {
        Ok(n) => Ok(n),
        Err(err) => Err(Error::from(err)),
    }
}

} // verus!
