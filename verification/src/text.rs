//! Bytes as text.

use vstd::prelude::*;
use vstd::string::{StringExecFns, StringSliceAdditionalSpecFns};
use vstd::utf8::{
    encode_utf8,
    encode_utf8_decode_utf8,
    encode_utf8_valid_utf8,
    is_ascii_chars,
    is_ascii_chars_encode_utf8,
    valid_utf8,
};

verus! {

/// Reads bytes as UTF-8 text with `core::str::from_utf8`.
///
/// Believed, not proved: that it gives a text exactly where the bytes are
/// valid UTF-8, and that the text is then the one whose encoding the bytes
/// are.
#[verifier::external_body]
pub(crate) fn utf8_text(bytes: &[u8]) -> (text: Option<&str>)
    ensures
        match text {
            Some(t) => valid_utf8(bytes@) && t.spec_bytes() == bytes@,
            None => !valid_utf8(bytes@),
        },
{
    match core::str::from_utf8(bytes) {
        Ok(text) => Some(text),
        Err(_) => None,
    }
}

/// The characters whose ASCII codes the bytes are.
pub(crate) open spec fn ascii_chars(bytes: Seq<u8>) -> Seq<char> {
    Seq::new(bytes.len(), |i: int| bytes[i] as char)
}

/// The text whose characters have the given ASCII codes.
pub(crate) fn ascii_string(bytes: &[u8]) -> (text: String)
    requires
        forall|i: int| 0 <= i < bytes@.len() ==> bytes@[i] < 128,
    ensures
        text@ == ascii_chars(bytes@),
{
    let ghost chars = ascii_chars(bytes@);
    proof {
        assert(is_ascii_chars(chars));
        is_ascii_chars_encode_utf8(chars);
        assert(encode_utf8(chars) =~= bytes@);
        encode_utf8_valid_utf8(chars);
    }
    match utf8_text(bytes) {
        Some(text) => {
            proof {
                encode_utf8_decode_utf8(chars);
                encode_utf8_decode_utf8(text@);
            }
            String::from_str(text)
        },
        None => {
            proof {
                assert(false);
            }
            String::new()
        },
    }
}

} // verus!
