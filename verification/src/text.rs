//! Byte-level helpers shared by the lexer and the classifier.
use vstd::prelude::*;
use vstd::string::StringSliceAdditionalSpecFns;
use vstd::utf8::{
    encode_utf8, encode_utf8_valid_utf8, is_char_boundary,
    is_char_boundary_iff_not_is_continuation_byte, is_char_boundary_start_end_of_seq,
    is_continuation_byte, length_of_first_scalar, pop_first_scalar, valid_utf8,
};

verus! {

// The ASCII codes of the bytes that the language gives a meaning.
pub const TAB: u8 = 0x09;

pub const LINE_FEED: u8 = 0x0a;

pub const FORM_FEED: u8 = 0x0c;

pub const CARRIAGE_RETURN: u8 = 0x0d;

pub const SPACE: u8 = 0x20;

pub const STAR: u8 = 0x2a;

pub const COMMA: u8 = 0x2c;

pub const MINUS: u8 = 0x2d;

pub const SLASH: u8 = 0x2f;

pub const DIGIT_ZERO: u8 = 0x30;

pub const DIGIT_NINE: u8 = 0x39;

pub const COLON: u8 = 0x3a;

pub const UPPER_A: u8 = 0x41;

pub const UPPER_F: u8 = 0x46;

pub const UPPER_Z: u8 = 0x5a;

pub const LEFT_BRACKET: u8 = 0x5b;

pub const RIGHT_BRACKET: u8 = 0x5d;

pub const UNDERSCORE: u8 = 0x5f;

pub const LOWER_A: u8 = 0x61;

pub const LOWER_B: u8 = 0x62;

pub const LOWER_F: u8 = 0x66;

pub const LOWER_O: u8 = 0x6f;

pub const LOWER_X: u8 = 0x78;

pub const LOWER_Z: u8 = 0x7a;

/// `name` is exactly the UTF-8 bytes of `word`.
pub open spec fn spelled(name: Seq<u8>, word: &str) -> bool {
    name == word.spec_bytes()
}

/// Compares two byte slices element by element.
pub fn bytes_eq(a: &[u8], b: &[u8]) -> (same: bool)
    ensures
        same == (a@ == b@),
{
    if a.len() != b.len() {
        return false;
    }
    let mut i: usize = 0;
    while i < a.len()
        invariant
            i <= a.len(),
            a.len() == b.len(),
            forall|j: int| 0 <= j < i ==> a@[j] == b@[j],
        decreases a.len() - i,
    {
        if a[i] != b[i] {
            return false;
        }
        i += 1;
    }
    assert(a@ =~= b@);
    true
}

/// Tells whether `name` spells `word`.
pub fn is_word(name: &[u8], word: &str) -> (same: bool)
    ensures
        same == spelled(name@, word),
{
    bytes_eq(name, word.as_bytes())
}

/// Index `i` of `s` does not fall inside the encoding of a character.
pub open spec fn at_boundary(s: Seq<u8>, i: int) -> bool {
    0 <= i <= s.len() && (i == s.len() || !is_continuation_byte(s[i]))
}

/// An index that does not fall inside a character is one at which
/// well-formed text can be split.
pub proof fn lemma_boundary(s: Seq<u8>, i: int)
    requires
        valid_utf8(s),
        at_boundary(s, i),
    ensures
        is_char_boundary(s, i),
{
    if i == s.len() {
        is_char_boundary_start_end_of_seq(s);
    } else {
        is_char_boundary_iff_not_is_continuation_byte(s, i);
    }
}

/// Where a character starts with an ASCII byte, the next one starts at the
/// byte after it.
proof fn lemma_step_over_ascii(s: Seq<u8>, k: int)
    requires
        valid_utf8(s),
        0 <= k < s.len(),
        s[k] < 0x80,
        is_char_boundary(s, k),
    ensures
        is_char_boundary(s, k + 1),
    decreases s.len(),
{
    let first = length_of_first_scalar(s);
    let rest = pop_first_scalar(s);
    assert(valid_utf8(rest));
    assert(1 <= first <= s.len());
    if k == 0 {
        assert(first == 1);
        assert(is_char_boundary(rest, 0));
    } else {
        assert(is_char_boundary(rest, k - first));
        assert(k - first >= 0);
        assert(rest[k - first] == s[k]);
        lemma_step_over_ascii(rest, k - first);
        assert(is_char_boundary(rest, k + 1 - first));
    }
}

/// In well-formed text a character starts right after every ASCII byte.
pub proof fn lemma_boundary_after_ascii(s: Seq<u8>, k: int)
    requires
        valid_utf8(s),
        0 <= k < s.len(),
        s[k] < 0x80,
    ensures
        at_boundary(s, k + 1),
{
    is_char_boundary_iff_not_is_continuation_byte(s, k);
    lemma_step_over_ascii(s, k);
    if k + 1 < s.len() {
        is_char_boundary_iff_not_is_continuation_byte(s, k + 1);
    }
}

/// Copies the bytes of `code` from index `start` up to index `end` into a
/// string of their own.
pub(crate) fn slice_text(code: &str, start: usize, end: usize) -> (text: String)
    requires
        start <= end <= code.spec_bytes().len(),
        at_boundary(code.spec_bytes(), start as int),
        at_boundary(code.spec_bytes(), end as int),
    ensures
        encode_utf8(text@) == code.spec_bytes().subrange(start as int, end as int),
{
    proof {
        encode_utf8_valid_utf8(code@);
        lemma_boundary(code.spec_bytes(), end as int);
    }
    let (head, _) = code.split_at(end);
    proof {
        encode_utf8_valid_utf8(head@);
        lemma_boundary(head.spec_bytes(), start as int);
    }
    let (_, tail) = head.split_at(start);
    assert(tail.spec_bytes() =~= code.spec_bytes().subrange(start as int, end as int));
    tail.to_owned()
}

} // verus!
