//! Permissive decoding of device output into text.
use vstd::prelude::*;
use vstd::utf8::{decode_utf8, valid_utf8};

verus! {

/// The text that permissive decoding makes of bytes that are not well-formed
/// UTF-8: every well-formed sequence among them is decoded, every malformed
/// one is replaced by U+FFFD.
pub uninterp spec fn lossy_text(bytes: Seq<u8>) -> Seq<char>;

/// The text of `bytes`, decoded permissively: well-formed UTF-8 is decoded
/// as it stands; anything else is decoded with replacements.
pub open spec fn permissive_text(bytes: Seq<u8>) -> Seq<char> {
    if valid_utf8(bytes) {
        decode_utf8(bytes)
    } else {
        lossy_text(bytes)
    }
}

/// Decodes `bytes` permissively.
///
/// Calls `String::from_utf8_lossy` and takes ownership of what it returns.
/// Trusted: bytes that are well-formed UTF-8 come back as the text they
/// encode, with nothing replaced; for any other bytes the result is a
/// function of the bytes alone, named `lossy_text`.
#[verifier::external_body]
pub(crate) fn decode_lossy(bytes: &[u8]) -> (text: String)
    ensures
        valid_utf8(bytes@) ==> text@ == decode_utf8(bytes@),
        !valid_utf8(bytes@) ==> text@ == lossy_text(bytes@),
{
    String::from_utf8_lossy(bytes).into_owned()
}

/// Whether every byte is an ASCII character.
pub open spec fn is_ascii_bytes(bytes: Seq<u8>) -> bool {
    forall|i: int| 0 <= i < bytes.len() ==> #[trigger] bytes[i] < 0x80
}

/// The characters that ASCII bytes stand for.
pub open spec fn ascii_text(bytes: Seq<u8>) -> Seq<char> {
    Seq::new(bytes.len(), |i: int| bytes[i] as char)
}

/// ASCII bytes are well-formed UTF-8, and their text is the bytes themselves
/// read as characters.
pub proof fn lemma_ascii_is_decoded_as_it_stands(bytes: Seq<u8>)
    requires
        is_ascii_bytes(bytes),
    ensures
        valid_utf8(bytes),
        permissive_text(bytes) == ascii_text(bytes),
    decreases bytes.len(),
{
    if bytes.len() == 0 {
        assert(decode_utf8(bytes) =~= ascii_text(bytes));
    } else {
        let first = bytes[0];
        assert(first < 0x80);
        assert(first & 0x7f == first) by (bit_vector)
            requires
                first < 0x80,
        ;
        let rest = bytes.subrange(1, bytes.len() as int);
        assert(is_ascii_bytes(rest)) by {
            assert forall|i: int| 0 <= i < rest.len() implies #[trigger] rest[i] < 0x80 by {
                assert(rest[i] == bytes[i + 1]);
            }
        }
        lemma_ascii_is_decoded_as_it_stands(rest);
        assert(vstd::utf8::valid_first_scalar(bytes));
        assert(vstd::utf8::pop_first_scalar(bytes) == rest);
        assert(valid_utf8(bytes));
        assert(decode_utf8(bytes) =~= ascii_text(bytes)) by {
            assert(decode_utf8(bytes) == seq![vstd::utf8::decode_first_scalar(bytes) as char]
                + decode_utf8(rest));
            assert(vstd::utf8::decode_first_scalar(bytes) == first as u32);
            assert forall|i: int| 0 <= i < bytes.len() implies decode_utf8(bytes)[i]
                == ascii_text(bytes)[i] by {
                if i > 0 {
                    assert(decode_utf8(rest)[i - 1] == ascii_text(rest)[i - 1]);
                    assert(rest[i - 1] == bytes[i]);
                }
            }
        }
    }
}

} // verus!
