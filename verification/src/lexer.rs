//! The lexer: source text to raw tokens.
//!
//! The text is read as bytes. Blank bytes separate tokens; `//` starts a
//! comment that runs to the end of the line and `/*` one that runs to the
//! next `*/`. A name starts with a letter or `_` and goes on with letters,
//! digits and `_`. A number is an optional `-`, an optional radix prefix
//! (`0x`, `0o` or `0b`) and a run of digits in which `_` may separate groups.
//! The bytes `,`, `:`, `[` and `]` are tokens of their own.
use vstd::prelude::*;
use vstd::string::StringSliceAdditionalSpecFns;
use vstd::utf8::{encode_utf8, encode_utf8_valid_utf8, valid_utf8};
use crate::text::{
    lemma_boundary_after_ascii, slice_text,
    CARRIAGE_RETURN, COLON, COMMA, DIGIT_NINE, DIGIT_ZERO, FORM_FEED, LEFT_BRACKET, LINE_FEED,
    LOWER_A, LOWER_B, LOWER_F, LOWER_O, LOWER_X, LOWER_Z, MINUS, RIGHT_BRACKET, SLASH, SPACE,
    STAR, TAB, UNDERSCORE, UPPER_A, UPPER_F, UPPER_Z,
};
use crate::utils::{after, lemma_after_nothing, lemma_after_push, refines, Error, ErrorView};

verus! {

/// A token as the lexer finds it, before names are given a meaning.
#[derive(Debug, Clone, PartialEq, Eq)]
pub enum RawToken {
    /// The text of a comment, without its delimiters.
    Comment(String),
    Number(i64),
    Ident(String),
    Punct(u8),
}

/// The mathematical value of a [`RawToken`]: text is held as its UTF-8 bytes.
pub enum RawTokenView {
    Comment(Seq<u8>),
    Number(i64),
    Ident(Seq<u8>),
    Punct(u8),
}

impl View for RawToken {
    type V = RawTokenView;

    open spec fn view(&self) -> RawTokenView {
        match self {
            RawToken::Comment(text) => RawTokenView::Comment(encode_utf8(text@)),
            RawToken::Number(n) => RawTokenView::Number(*n),
            RawToken::Ident(name) => RawTokenView::Ident(encode_utf8(name@)),
            RawToken::Punct(b) => RawTokenView::Punct(*b),
        }
    }
}

impl DeepView for RawToken {
    type V = RawTokenView;

    open spec fn deep_view(&self) -> RawTokenView {
        self@
    }
}

/// The bytes that separate tokens: space, tab, line feed, carriage return
/// and form feed.
pub open spec fn spec_is_space(b: u8) -> bool {
    b == SPACE || b == TAB || b == LINE_FEED || b == CARRIAGE_RETURN || b == FORM_FEED
}

/// The decimal digits.
pub open spec fn spec_is_digit(b: u8) -> bool {
    DIGIT_ZERO <= b <= DIGIT_NINE
}

/// The letters of the English alphabet, in either case.
pub open spec fn spec_is_letter(b: u8) -> bool {
    UPPER_A <= b <= UPPER_Z || LOWER_A <= b <= LOWER_Z
}

/// The bytes that a name may start with.
pub open spec fn spec_is_name_start(b: u8) -> bool {
    spec_is_letter(b) || b == UNDERSCORE
}

/// The bytes that a name may go on with.
pub open spec fn spec_is_name_byte(b: u8) -> bool {
    spec_is_name_start(b) || spec_is_digit(b)
}

/// The digits of the largest radix: decimal digits and the letters `a` to
/// `f` in either case.
pub open spec fn spec_is_hex_digit(b: u8) -> bool {
    spec_is_digit(b) || UPPER_A <= b <= UPPER_F || LOWER_A <= b <= LOWER_F
}

/// The bytes that a run of digits is made of.
pub open spec fn spec_is_number_byte(b: u8) -> bool {
    spec_is_hex_digit(b) || b == UNDERSCORE
}

/// The bytes that are tokens of their own.
pub open spec fn spec_is_punct(b: u8) -> bool {
    b == COMMA || b == COLON || b == LEFT_BRACKET || b == RIGHT_BRACKET
}

/// The number that a hexadecimal digit stands for.
pub open spec fn spec_digit_value(b: u8) -> int {
    if spec_is_digit(b) {
        b - DIGIT_ZERO
    } else if UPPER_A <= b <= UPPER_F {
        b - UPPER_A + 10
    } else {
        b - LOWER_A + 10
    }
}

/// Where the run of name bytes that covers index `i` stops.
pub open spec fn name_end(s: Seq<u8>, i: int) -> int
    decreases s.len() - i,
{
    if 0 <= i < s.len() && spec_is_name_byte(s[i]) {
        name_end(s, i + 1)
    } else {
        i
    }
}

/// Where the run of digits and `_` that covers index `i` stops.
pub open spec fn number_end(s: Seq<u8>, i: int) -> int
    decreases s.len() - i,
{
    if 0 <= i < s.len() && spec_is_number_byte(s[i]) {
        number_end(s, i + 1)
    } else {
        i
    }
}

/// The index of the first line feed at or after `i`, or the end of the text.
pub open spec fn line_end(s: Seq<u8>, i: int) -> int
    decreases s.len() - i,
{
    if 0 <= i < s.len() && s[i] != LINE_FEED {
        line_end(s, i + 1)
    } else {
        i
    }
}

/// The index of the first `*/` at or after `i`, if there is one.
pub open spec fn block_close(s: Seq<u8>, i: int) -> Option<int>
    decreases s.len() - i,
{
    if i < 0 || i + 1 >= s.len() {
        None
    } else if s[i] == STAR && s[i + 1] == SLASH {
        Some(i)
    } else {
        block_close(s, i + 1)
    }
}

/// The comment that starts with the `/` at index `i`, and where the text
/// after it goes on.
pub open spec fn comment_at(s: Seq<u8>, i: int) -> Option<(RawTokenView, int)> {
    if i + 1 < s.len() && s[i + 1] == SLASH {
        let end = line_end(s, i + 2);
        Some((RawTokenView::Comment(s.subrange(i + 2, end)), end))
    } else if i + 1 < s.len() && s[i + 1] == STAR {
        match block_close(s, i + 2) {
            Some(close) => Some((RawTokenView::Comment(s.subrange(i + 2, close)), close + 2)),
            None => None,
        }
    } else {
        None
    }
}

/// The radix of the number whose digits or prefix start at `j`.
pub open spec fn number_base(s: Seq<u8>, j: int) -> int {
    if j + 1 < s.len() && s[j] == DIGIT_ZERO && s[j + 1] == LOWER_X {
        16
    } else if j + 1 < s.len() && s[j] == DIGIT_ZERO && s[j + 1] == LOWER_O {
        8
    } else if j + 1 < s.len() && s[j] == DIGIT_ZERO && s[j + 1] == LOWER_B {
        2
    } else {
        10
    }
}

/// The number that the digits of `run` spell in the given radix. `_` counts
/// for nothing.
pub open spec fn digits_value(run: Seq<u8>, base: int) -> int
    decreases run.len(),
{
    if run.len() == 0 {
        0
    } else if run.last() == UNDERSCORE {
        digits_value(run.drop_last(), base)
    } else {
        digits_value(run.drop_last(), base) * base + spec_digit_value(run.last())
    }
}

/// Every digit of `run` is one of the given radix.
pub open spec fn digits_valid(run: Seq<u8>, base: int) -> bool {
    forall|k: int| 0 <= k < run.len() ==> run[k] == UNDERSCORE || spec_digit_value(#[trigger] run[k]) < base
}

/// `run` holds a digit, not only `_`.
pub open spec fn has_digit(run: Seq<u8>) -> bool {
    exists|k: int| 0 <= k < run.len() && #[trigger] run[k] != UNDERSCORE
}

/// The number that starts at index `i` with a digit or `-`, and where the
/// text after it goes on. There is none where no digit follows, where a digit
/// is not one of the radix, or where the number does not fit in 64 bits.
pub open spec fn number_at(s: Seq<u8>, i: int) -> Option<(i64, int)> {
    let negative = s[i] == MINUS;
    let j = if negative {
        i + 1
    } else {
        i
    };
    let base = number_base(s, j);
    let start = if base == 10 {
        j
    } else {
        j + 2
    };
    let end = number_end(s, start);
    let run = s.subrange(start, end);
    let magnitude = digits_value(run, base);
    let value = if negative {
        -magnitude
    } else {
        magnitude
    };
    if has_digit(run) && digits_valid(run, base) && i64::MIN <= value <= i64::MAX {
        Some((value as i64, end))
    } else {
        None
    }
}

/// The token that starts at index `i`, which holds no blank byte, and where
/// the text after it goes on.
pub open spec fn token_at(s: Seq<u8>, i: int) -> Option<(RawTokenView, int)> {
    let b = s[i];
    if b == SLASH {
        comment_at(s, i)
    } else if spec_is_name_start(b) {
        Some((RawTokenView::Ident(s.subrange(i, name_end(s, i))), name_end(s, i)))
    } else if spec_is_digit(b) || b == MINUS {
        match number_at(s, i) {
            Some((n, end)) => Some((RawTokenView::Number(n), end)),
            None => None,
        }
    } else if spec_is_punct(b) {
        Some((RawTokenView::Punct(b), i + 1))
    } else {
        None
    }
}

/// The tokens of the text from index `i` on. Where the text at some index is
/// neither blank nor a token, the result is a `LexError` with the byte at
/// that index.
pub open spec fn lex_from(s: Seq<u8>, i: int) -> Result<Seq<RawTokenView>, ErrorView>
    decreases s.len() - i,
{
    if i < 0 || i >= s.len() {
        Ok(Seq::empty())
    } else if spec_is_space(s[i]) {
        lex_from(s, i + 1)
    } else {
        match token_at(s, i) {
            Some((token, end)) => {
                proof {
                    lemma_token_advances(s, i);
                }
                after(seq![token], lex_from(s, end))
            },
            None => Err(ErrorView::LexError(s[i])),
        }
    }
}

/// The tokens of a whole text.
pub open spec fn spec_lex(s: Seq<u8>) -> Result<Seq<RawTokenView>, ErrorView> {
    lex_from(s, 0)
}

/// `name_end` gives the first index at or after `i` whose byte is no name
/// byte, or the end of the text where there is none.
pub proof fn lemma_name_end_bounds(s: Seq<u8>, i: int)
    requires
        0 <= i <= s.len(),
    ensures
        i <= name_end(s, i) <= s.len(),
        forall|k: int| i <= k < name_end(s, i) ==> spec_is_name_byte(#[trigger] s[k]),
        name_end(s, i) < s.len() ==> !spec_is_name_byte(s[name_end(s, i)]),
    decreases s.len() - i,
{
    if i < s.len() && spec_is_name_byte(s[i]) {
        lemma_name_end_bounds(s, i + 1);
    }
}

/// `number_end` gives the first index at or after `i` whose byte is neither
/// a digit nor `_`, or the end of the text where there is none.
pub proof fn lemma_number_end_bounds(s: Seq<u8>, i: int)
    requires
        0 <= i,
    ensures
        i <= number_end(s, i),
        i <= s.len() ==> number_end(s, i) <= s.len(),
        forall|k: int| i <= k < number_end(s, i) ==> spec_is_number_byte(#[trigger] s[k]),
        i <= number_end(s, i) < s.len() ==> !spec_is_number_byte(s[number_end(s, i)]),
    decreases s.len() - i,
{
    if i < s.len() && spec_is_number_byte(s[i]) {
        lemma_number_end_bounds(s, i + 1);
    }
}

/// `line_end` gives the index of the first line feed at or after `i`, or
/// the end of the text where there is none.
pub proof fn lemma_line_end_bounds(s: Seq<u8>, i: int)
    requires
        0 <= i <= s.len(),
    ensures
        i <= line_end(s, i) <= s.len(),
        forall|k: int| i <= k < line_end(s, i) ==> #[trigger] s[k] != LINE_FEED,
        line_end(s, i) < s.len() ==> s[line_end(s, i)] == LINE_FEED,
    decreases s.len() - i,
{
    if i < s.len() && s[i] != LINE_FEED {
        lemma_line_end_bounds(s, i + 1);
    }
}

/// Whether `*/` stands at index `k`.
pub open spec fn closes_at(s: Seq<u8>, k: int) -> bool {
    0 <= k && k + 1 < s.len() && s[k] == STAR && s[k + 1] == SLASH
}

/// `block_close` gives the index of the first `*/` at or after `i`, and
/// nothing where there is none.
pub proof fn lemma_block_close_bounds(s: Seq<u8>, i: int)
    requires
        0 <= i,
    ensures
        match block_close(s, i) {
            Some(close) => {
                &&& i <= close
                &&& closes_at(s, close)
                &&& forall|k: int| i <= k < close ==> !#[trigger] closes_at(s, k)
            },
            None => forall|k: int| i <= k ==> !#[trigger] closes_at(s, k),
        },
    decreases s.len() - i,
{
    if i + 1 < s.len() && !(s[i] == STAR && s[i + 1] == SLASH) {
        lemma_block_close_bounds(s, i + 1);
    }
}

/// A token is not empty and lies within the text.
pub proof fn lemma_token_advances(s: Seq<u8>, i: int)
    requires
        0 <= i < s.len(),
    ensures
        match token_at(s, i) {
            Some((_, end)) => i < end <= s.len(),
            None => true,
        },
{
    let b = s[i];
    if b == SLASH {
        if i + 1 < s.len() && s[i + 1] == SLASH {
            lemma_line_end_bounds(s, i + 2);
        } else if i + 1 < s.len() && s[i + 1] == STAR {
            lemma_block_close_bounds(s, i + 2);
        }
    } else if spec_is_name_start(b) {
        lemma_name_end_bounds(s, i + 1);
    } else if spec_is_digit(b) || b == MINUS {
        let j = if b == MINUS {
            i + 1
        } else {
            i
        };
        let base = number_base(s, j);
        let start = if base == 10 {
            j
        } else {
            j + 2
        };
        lemma_number_end_bounds(s, start);
    }
}

/// Whether the byte separates tokens.
#[verifier::when_used_as_spec(spec_is_space)]
pub fn is_space(b: u8) -> (r: bool)
    ensures
        r == spec_is_space(b),
{
    b == SPACE || b == TAB || b == LINE_FEED || b == CARRIAGE_RETURN || b == FORM_FEED
}

/// Whether the byte is a decimal digit.
#[verifier::when_used_as_spec(spec_is_digit)]
pub fn is_digit(b: u8) -> (r: bool)
    ensures
        r == spec_is_digit(b),
{
    DIGIT_ZERO <= b && b <= DIGIT_NINE
}

/// Whether a name may start with the byte.
#[verifier::when_used_as_spec(spec_is_name_start)]
pub fn is_name_start(b: u8) -> (r: bool)
    ensures
        r == spec_is_name_start(b),
{
    (UPPER_A <= b && b <= UPPER_Z) || (LOWER_A <= b && b <= LOWER_Z) || b == UNDERSCORE
}

/// Whether a name may go on with the byte.
#[verifier::when_used_as_spec(spec_is_name_byte)]
pub fn is_name_byte(b: u8) -> (r: bool)
    ensures
        r == spec_is_name_byte(b),
{
    is_name_start(b) || is_digit(b)
}

/// Whether the byte is a digit of some radix or `_`.
#[verifier::when_used_as_spec(spec_is_number_byte)]
pub fn is_number_byte(b: u8) -> (r: bool)
    ensures
        r == spec_is_number_byte(b),
{
    is_digit(b) || (UPPER_A <= b && b <= UPPER_F) || (LOWER_A <= b && b <= LOWER_F) || b
        == UNDERSCORE
}

/// Whether the byte is a token of its own.
#[verifier::when_used_as_spec(spec_is_punct)]
pub fn is_punct(b: u8) -> (r: bool)
    ensures
        r == spec_is_punct(b),
{
    b == COMMA || b == COLON || b == LEFT_BRACKET || b == RIGHT_BRACKET
}

/// The number that a hexadecimal digit stands for.
pub(crate) fn digit_value(b: u8) -> (d: u8)
    requires
        spec_is_hex_digit(b),
    ensures
        d == spec_digit_value(b),
        d < 16,
{
    if is_digit(b) {
        b - DIGIT_ZERO
    } else if UPPER_A <= b && b <= UPPER_F {
        b - UPPER_A + 10
    } else {
        b - LOWER_A + 10
    }
}

/// Finds the end of the name that starts at `start`.
fn scan_name(bytes: &[u8], start: usize) -> (end: usize)
    requires
        start < bytes.len(),
        spec_is_name_start(bytes@[start as int]),
    ensures
        end == name_end(bytes@, start as int),
        start < end <= bytes.len(),
        bytes@[end - 1] < 0x80,
{
    let mut j: usize = start + 1;
    while j < bytes.len() && is_name_byte(bytes[j])
        invariant
            start < j <= bytes.len(),
            name_end(bytes@, start as int) == name_end(bytes@, j as int),
            spec_is_name_byte(bytes@[j - 1]),
        decreases bytes.len() - j,
    {
        j += 1;
    }
    j
}

/// Finds the end of the line that holds index `start`.
fn scan_line(bytes: &[u8], start: usize) -> (end: usize)
    requires
        start <= bytes.len(),
    ensures
        end == line_end(bytes@, start as int),
        start <= end <= bytes.len(),
        end < bytes.len() ==> bytes@[end as int] == LINE_FEED,
{
    let mut j: usize = start;
    while j < bytes.len() && bytes[j] != LINE_FEED
        invariant
            start <= j <= bytes.len(),
            line_end(bytes@, start as int) == line_end(bytes@, j as int),
        decreases bytes.len() - j,
    {
        j += 1;
    }
    j
}

/// Finds the `*/` that closes a block comment whose text starts at `start`.
fn scan_block(bytes: &[u8], start: usize) -> (r: Option<usize>)
    requires
        start <= bytes.len(),
    ensures
        match r {
            Some(close) => block_close(bytes@, start as int) == Some(close as int) && start
                <= close && close + 2 <= bytes.len() && bytes@[close as int] == STAR,
            None => block_close(bytes@, start as int) is None,
        },
{
    let mut j: usize = start;
    while bytes.len() - j > 1
        invariant
            start <= j <= bytes.len(),
            block_close(bytes@, start as int) == block_close(bytes@, j as int),
        decreases bytes.len() - j,
    {
        if bytes[j] == STAR && bytes[j + 1] == SLASH {
            return Some(j);
        }
        j += 1;
    }
    None
}

/// The largest magnitude of a number of 64 bits: that of the least one.
pub const MAGNITUDE_LIMIT: u128 = 0x8000_0000_0000_0000;

/// The digits read so far never spell more than all the digits.
proof fn lemma_digits_value_grows(run: Seq<u8>, base: int, m: int)
    requires
        base >= 1,
        0 <= m <= run.len(),
        forall|k: int| 0 <= k < run.len() ==> spec_is_number_byte(#[trigger] run[k]),
    ensures
        0 <= digits_value(run.take(m), base) <= digits_value(run, base),
    decreases run.len(),
{
    if m == run.len() {
        assert(run.take(m) =~= run);
        if run.len() > 0 {
            assert(run.drop_last() =~= run.take(m - 1));
            lemma_digits_value_grows(run.drop_last(), base, m - 1);
            assert(run.drop_last().take(m - 1) =~= run.drop_last());
            let v = digits_value(run.drop_last(), base);
            assert(v * base >= 0) by (nonlinear_arith)
                requires
                    v >= 0,
                    base >= 1,
            ;
        }
    } else {
        assert(run.drop_last().take(m) =~= run.take(m));
        lemma_digits_value_grows(run.drop_last(), base, m);
        let v = digits_value(run.drop_last(), base);
        assert(v * base >= v) by (nonlinear_arith)
            requires
                v >= 0,
                base >= 1,
        ;
    }
}

/// Reads the number that starts at index `i`.
fn scan_number(bytes: &[u8], i: usize) -> (r: Option<(i64, usize)>)
    requires
        i < bytes.len(),
    ensures
        match r {
            Some((n, end)) => number_at(bytes@, i as int) == Some((n, end as int)) && i < end
                <= bytes.len() && bytes@[end - 1] < 0x80,
            None => number_at(bytes@, i as int) is None,
        },
{
    let n = bytes.len();
    let negative = bytes[i] == MINUS;
    let j: usize = if negative {
        i + 1
    } else {
        i
    };
    let mut base: u128 = 10;
    let mut start: usize = j;
    if n - j > 1 && bytes[j] == DIGIT_ZERO {
        if bytes[j + 1] == LOWER_X {
            base = 16;
            start = j + 2;
        } else if bytes[j + 1] == LOWER_O {
            base = 8;
            start = j + 2;
        } else if bytes[j + 1] == LOWER_B {
            base = 2;
            start = j + 2;
        }
    }
    let ghost s = bytes@;
    proof {
        lemma_number_end_bounds(s, start as int);
        assert(base == number_base(s, j as int));
    }
    let ghost end = number_end(s, start as int);
    let ghost run = s.subrange(start as int, end);
    let mut k: usize = start;
    let mut acc: u128 = 0;
    let mut seen = false;
    while k < n && is_number_byte(bytes[k])
        invariant
            n == bytes.len(),
            s == bytes@,
            start <= k <= n,
            k <= end <= n,
            end == number_end(s, start as int),
            end == number_end(s, k as int),
            run == s.subrange(start as int, end),
            forall|m: int| 0 <= m < run.len() ==> spec_is_number_byte(#[trigger] run[m]),
            base == 2 || base == 8 || base == 10 || base == 16,
            i < n,
            negative == (s[i as int] == MINUS),
            j == if negative {
                i + 1
            } else {
                i as int
            },
            base == number_base(s, j as int),
            start == if base == 10 {
                j as int
            } else {
                j + 2
            },
            acc == digits_value(s.subrange(start as int, k as int), base as int),
            acc <= MAGNITUDE_LIMIT,
            seen == has_digit(s.subrange(start as int, k as int)),
            digits_valid(s.subrange(start as int, k as int), base as int),
        decreases n - k,
    {
        let b = bytes[k];
        let ghost before = s.subrange(start as int, k as int);
        let ghost now = s.subrange(start as int, k + 1);
        proof {
            lemma_number_end_bounds(s, k + 1);
            assert(k < end);
            assert(now.drop_last() =~= before);
            assert(now.last() == b);
            assert(run.take(k + 1 - start) =~= now);
            assert(forall|m: int| 0 <= m < before.len() ==> before[m] == now[m]);
        }
        if b != UNDERSCORE {
            let d = digit_value(b) as u128;
            if d >= base {
                proof {
                    assert(run[k - start] == b);
                    assert(!digits_valid(run, base as int));
                }
                return None;
            }
            assert(acc * base <= MAGNITUDE_LIMIT * 16) by (nonlinear_arith)
                requires
                    acc <= MAGNITUDE_LIMIT,
                    base <= 16,
            ;
            acc = acc * base + d;
            if acc > MAGNITUDE_LIMIT {
                proof {
                    lemma_digits_value_grows(run, base as int, k + 1 - start);
                }
                return None;
            }
            seen = true;
            proof {
                assert(now[k - start] != UNDERSCORE);
            }
        } else {
            proof {
                if has_digit(now) {
                    let m = choose|m: int| 0 <= m < now.len() && #[trigger] now[m] != UNDERSCORE;
                    assert(before[m] == now[m]);
                }
                if has_digit(before) {
                    let m = choose|m: int|
                        0 <= m < before.len() && #[trigger] before[m] != UNDERSCORE;
                    assert(before[m] == now[m]);
                }
            }
        }
        proof {
            assert forall|m: int| 0 <= m < now.len() implies now[m] == UNDERSCORE
                || spec_digit_value(#[trigger] now[m]) < base by {
                if m < before.len() {
                    assert(before[m] == now[m]);
                }
            }
        }
        k += 1;
    }
    proof {
        assert(run =~= s.subrange(start as int, k as int));
    }
    if !seen {
        return None;
    }
    proof {
        let m = choose|m: int| 0 <= m < run.len() && #[trigger] run[m] != UNDERSCORE;
        assert(run.len() > 0);
        assert(run[run.len() - 1] == s[k - 1]);
    }
    if negative {
        if acc == MAGNITUDE_LIMIT {
            Some((i64::MIN, k))
        } else {
            Some((-(acc as i64), k))
        }
    } else if acc == MAGNITUDE_LIMIT {
        None
    } else {
        Some((acc as i64, k))
    }
}

/// Splits source text into raw tokens.
pub fn lex(code: &str) -> (r: Result<Vec<RawToken>, Error>)
    ensures
        refines(r, spec_lex(code.spec_bytes())),
{
    let bytes = code.as_bytes();
    let n = bytes.len();
    let mut tokens: Vec<RawToken> = Vec::new();
    let mut i: usize = 0;
    let ghost s = bytes@;
    proof {
        encode_utf8_valid_utf8(code@);
        assert(tokens.deep_view() =~= Seq::empty());
        assert(Seq::<RawTokenView>::empty() + lex_from(s, 0)->Ok_0 =~= lex_from(s, 0)->Ok_0);
    }
    while i < n
        invariant
            i <= n,
            n == s.len(),
            s == bytes@,
            s == code.spec_bytes(),
            valid_utf8(s),
            spec_lex(s) == after(tokens.deep_view(), lex_from(s, i as int)),
        decreases n - i,
    {
        let b = bytes[i];
        let ghost seen = tokens.deep_view();
        proof {
            lemma_token_advances(s, i as int);
        }
        if is_space(b) {
            i += 1;
        } else if b == SLASH {
            if n - i > 1 && bytes[i + 1] == SLASH {
                let end = scan_line(bytes, i + 2);
                proof {
                    lemma_boundary_after_ascii(s, i + 1);
                }
                let text = slice_text(code, i + 2, end);
                let token = RawToken::Comment(text);
                proof {
                    lemma_after_push(seen, token@, lex_from(s, end as int));
                }
                tokens.push(token);
                i = end;
            } else if n - i > 1 && bytes[i + 1] == STAR {
                match scan_block(bytes, i + 2) {
                    Some(close) => {
                        proof {
                            lemma_boundary_after_ascii(s, i + 1);
                        }
                        let text = slice_text(code, i + 2, close);
                        let token = RawToken::Comment(text);
                        proof {
                            lemma_after_push(seen, token@, lex_from(s, close + 2));
                        }
                        tokens.push(token);
                        i = close + 2;
                    },
                    None => {
                        return Err(Error::LexError(b));
                    },
                }
            } else {
                return Err(Error::LexError(b));
            }
        } else if is_name_start(b) {
            let end = scan_name(bytes, i);
            proof {
                lemma_boundary_after_ascii(s, end - 1);
            }
            let name = slice_text(code, i, end);
            let token = RawToken::Ident(name);
            proof {
                lemma_after_push(seen, token@, lex_from(s, end as int));
            }
            tokens.push(token);
            i = end;
        } else if is_digit(b) || b == MINUS {
            match scan_number(bytes, i) {
                Some((number, end)) => {
                    let token = RawToken::Number(number);
                    proof {
                        lemma_after_push(seen, token@, lex_from(s, end as int));
                    }
                    tokens.push(token);
                    i = end;
                },
                None => {
                    return Err(Error::LexError(b));
                },
            }
        } else if is_punct(b) {
            let token = RawToken::Punct(b);
            proof {
                lemma_after_push(seen, token@, lex_from(s, i + 1));
            }
            tokens.push(token);
            i += 1;
        } else {
            return Err(Error::LexError(b));
        }
        proof {
            assert(tokens.deep_view() =~= seen || tokens.deep_view() =~= seen.push(
                tokens@[tokens.len() - 1]@,
            ));
        }
    }
    proof {
        lemma_after_nothing::<RawTokenView, ErrorView>(tokens.deep_view());
    }
    Ok(tokens)
}

} // verus!
