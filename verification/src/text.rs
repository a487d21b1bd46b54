//! Text helpers.

use vstd::prelude::*;
use vstd::string::StringSliceAdditionalSpecFns;
use vstd::utf8::{encode_utf8_decode_utf8, is_ascii_chars, is_ascii_chars_encode_utf8};
use crate::primitives::{is_digit, is_sign, timestamp_shaped, timestamp_shaped_with};

verus! {

/// Two texts that are spelled by the same bytes are the same text.
pub proof fn lemma_same_bytes_same_text(a: Seq<char>, b: Seq<char>)
    requires
        vstd::utf8::encode_utf8(a) == vstd::utf8::encode_utf8(b),
    ensures
        a == b,
{
    encode_utf8_decode_utf8(a);
    encode_utf8_decode_utf8(b);
}

/// A text takes at most four bytes for each of its characters.
pub proof fn lemma_utf8_len_bound(chars: Seq<char>)
    ensures
        vstd::utf8::encode_utf8(chars).len() <= 4 * chars.len(),
    decreases chars.len(),
{
    if chars.len() > 0 {
        lemma_utf8_len_bound(chars.drop_first());
    }
}

/// A text in the shape of a written timestamp has between 25 and 42
/// characters, all of them ASCII, and so takes one byte for each.
pub proof fn lemma_timestamp_shape(text: Seq<char>)
    requires
        timestamp_shaped(text),
    ensures
        25 <= text.len() <= 42,
        is_ascii_chars(text),
        vstd::utf8::encode_utf8(text).len() == text.len(),
{
    let (year, fraction) = choose|year: int, fraction: int|
        timestamp_shaped_with(text, year, fraction);
    let time = year + 15;
    let offset = if fraction == 0 {
        time
    } else {
        time + 1 + fraction
    };
    assert forall|i: int| 0 <= i < text.len() implies '\0' <= #[trigger] text[i] <= '\u{7f}' by {
        let c = text[i];
        if i < year {
            assert(is_digit(c) || is_sign(c));
        } else if i < time {
            assert(is_digit(c) || c == '-' || c == 'T' || c == ':');
        } else if i < offset {
            assert(is_digit(c) || c == '.');
        } else {
            assert(is_digit(c) || is_sign(c) || c == ':');
        }
    }
    is_ascii_chars_encode_utf8(text);
}

/// Whether two texts are the same.
pub fn same_text(a: &str, b: &str) -> (same: bool)
    ensures
        same == (a@ == b@),
{
    let x = a.as_bytes();
    let y = b.as_bytes();
    if x.len() != y.len() {
        return false;
    }
    let mut i: usize = 0;
    while i < x.len()
        invariant
            i <= x@.len(),
            x@.len() == y@.len(),
            x@ == a.spec_bytes(),
            y@ == b.spec_bytes(),
            forall|k: int| 0 <= k < i ==> x@[k] == y@[k],
        decreases x@.len() - i,
    {
        if x[i] != y[i] {
            return false;
        }
        i += 1;
    }
    proof {
        assert(x@ =~= y@);
        lemma_same_bytes_same_text(a@, b@);
    }
    true
}

} // verus!
