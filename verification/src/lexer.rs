//! The textual layer of the assembly language: lowercasing, line
//! splitting, tokenizing (with `;` comments running to end of line), and
//! the number grammar `#<decimal>` / `x<hex>`.
//!
//! Tokens are byte strings: words separated by whitespace, with a comma
//! a one-byte token of its own.

use vstd::prelude::*;

verus! {

use crate::parser::ParseError;
use crate::parser::ParseErrorKind;

/// A byte that separates tokens: space, tab, carriage return or newline.
pub open spec fn is_space(b: u8) -> bool {
    b == 32 || b == 9 || b == 13 || b == 10
}

/// A byte that can stand in a word token: anything but whitespace, the
/// comma and the comment sign.
pub open spec fn is_word_byte(b: u8) -> bool {
    !is_space(b) && b != 44 && b != 59
}

/// The length of the word token at the head of `s`.
pub open spec fn spec_word_len(s: Seq<u8>) -> nat
    decreases s.len(),
{
    if s.len() == 0 {
        0
    } else if !is_word_byte(s[0]) {
        0
    } else {
        1 + spec_word_len(s.drop_first())
    }
}

/// The word at the head of a string is no longer than the string, and at
/// least one byte long when the string starts with a word byte.
pub proof fn lemma_word_len_bounds(s: Seq<u8>)
    ensures
        spec_word_len(s) <= s.len(),
        s.len() > 0 && is_word_byte(s[0]) ==> spec_word_len(s) >= 1,
    decreases s.len(),
{
    if s.len() > 0 && is_word_byte(s[0]) {
        lemma_word_len_bounds(s.drop_first());
    }
}

/// The token sequence of a line: words and commas, whitespace dropped,
/// everything from a `;` on ignored.
pub open spec fn spec_tokenize(s: Seq<u8>) -> Seq<Seq<u8>>
    decreases s.len(),
    via spec_tokenize_decreases
{
    if s.len() == 0 {
        Seq::empty()
    } else if is_space(s[0]) {
        spec_tokenize(s.drop_first())
    } else if s[0] == 59 {
        Seq::empty()
    } else if s[0] == 44 {
        seq![seq![44u8]] + spec_tokenize(s.drop_first())
    } else {
        seq![s.take(spec_word_len(s) as int)] + spec_tokenize(s.skip(spec_word_len(s) as int))
    }
}

#[via_fn]
proof fn spec_tokenize_decreases(s: Seq<u8>) {
    lemma_word_len_bounds(s);
}

/// The views of a sequence of byte vectors.
pub open spec fn views(ts: Seq<Vec<u8>>) -> Seq<Seq<u8>> {
    ts.map_values(|t: Vec<u8>| t@)
}

/// Pushing a vector onto a sequence pushes its view onto the views.
pub proof fn lemma_views_push(ts: Seq<Vec<u8>>, w: Vec<u8>)
    ensures
        views(ts.push(w)) =~= views(ts).push(w@),
{
    assert forall|k: int| 0 <= k < ts.len() + 1 implies views(ts.push(w))[k] == views(ts).push(
        w@,
    )[k] by {}
}

/// Concatenation rearranged around a pushed element.
pub proof fn lemma_push_concat<T>(a: Seq<T>, x: T, b: Seq<T>)
    ensures
        a.push(x) + b =~= a + (seq![x] + b),
{
}

/// A scan that ran over word bytes from `i` and stopped at `j` found the
/// word length of the suffix at `i`.
proof fn lemma_word_len_scan(s: Seq<u8>, i: int, j: int)
    requires
        0 <= i <= j <= s.len(),
        forall|k: int| i <= k < j ==> is_word_byte(#[trigger] s[k]),
        j == s.len() || !is_word_byte(s[j]),
    ensures
        spec_word_len(s.skip(i)) == j - i,
    decreases j - i,
{
    if i == j {
        if i < s.len() {
            assert(s.skip(i)[0] == s[i]);
        }
    } else {
        assert(s.skip(i)[0] == s[i]);
        assert(s.skip(i).drop_first() =~= s.skip(i + 1));
        lemma_word_len_scan(s, i + 1, j);
    }
}

/// Split a line into its tokens.
pub fn tokenize(s: &[u8]) -> (r: Vec<Vec<u8>>)
    ensures
        views(r@) == spec_tokenize(s@),
{
    let mut toks: Vec<Vec<u8>> = Vec::new();
    let mut i: usize = 0;
    proof {
        assert(s@.skip(0) =~= s@);
        assert(views(toks@) + spec_tokenize(s@) =~= spec_tokenize(s@));
    }
    while i < s.len()
        invariant
            i <= s@.len(),
            views(toks@) + spec_tokenize(s@.skip(i as int)) == spec_tokenize(s@),
        decreases s@.len() - i,
    {
        let ghost toks0 = toks@;
        let b = s[i];
        if b == 32 || b == 9 || b == 13 || b == 10 {
            proof {
                assert(s@.skip(i as int).drop_first() =~= s@.skip(i + 1));
            }
            i += 1;
        } else if b == 59 {
            proof {
                assert(spec_tokenize(s@.skip(i as int)) =~= Seq::<Seq<u8>>::empty());
                assert(views(toks@) + Seq::<Seq<u8>>::empty() =~= views(toks@));
            }
            return toks;
        } else if b == 44 {
            let mut c: Vec<u8> = Vec::new();
            c.push(44);
            toks.push(c);
            proof {
                assert(s@.skip(i as int).drop_first() =~= s@.skip(i + 1));
                lemma_views_push(toks0, toks@[toks@.len() - 1]);
                assert(views(toks0).push(seq![44u8]) + spec_tokenize(s@.skip(i + 1)) =~= views(
                    toks0,
                ) + (seq![seq![44u8]] + spec_tokenize(s@.skip(i + 1))));
            }
            i += 1;
        } else {
            let mut w: Vec<u8> = Vec::new();
            let mut j: usize = i;
            while j < s.len() && s[j] != 32 && s[j] != 9 && s[j] != 13 && s[j] != 10 && s[j] != 44
                && s[j] != 59
                invariant
                    0 <= i <= j <= s@.len(),
                    w@ == s@.subrange(i as int, j as int),
                    forall|k: int| i <= k < j ==> is_word_byte(#[trigger] s@[k]),
                decreases s@.len() - j,
            {
                let ghost w0 = w@;
                w.push(s[j]);
                proof {
                    assert(w0.push(s@[j as int]) =~= s@.subrange(i as int, j + 1));
                }
                j += 1;
            }
            proof {
                lemma_word_len_scan(s@, i as int, j as int);
                assert(s@.skip(i as int).take((j - i) as int) =~= s@.subrange(i as int, j as int));
                assert(s@.skip(i as int).skip((j - i) as int) =~= s@.skip(j as int));
            }
            toks.push(w);
            proof {
                lemma_views_push(toks0, toks@[toks@.len() - 1]);
                lemma_push_concat(
                    views(toks0),
                    s@.subrange(i as int, j as int),
                    spec_tokenize(s@.skip(j as int)),
                );
            }
            i = j;
        }
    }
    proof {
        assert(s@.skip(s@.len() as int) =~= Seq::<u8>::empty());
        assert(views(toks@) + Seq::<Seq<u8>>::empty() =~= views(toks@));
    }
    toks
}

/// A byte lowered: ASCII capital letters take their small form, all
/// other bytes stay.
pub open spec fn lower_byte(b: u8) -> u8 {
    if 65 <= b <= 90 {
        (b + 32) as u8
    } else {
        b
    }
}

/// A byte string lowered bytewise.
pub open spec fn spec_lower(s: Seq<u8>) -> Seq<u8> {
    s.map_values(|b: u8| lower_byte(b))
}

/// Lower a byte string: the assembly language is case-insensitive and is
/// parsed in its lowered form.
pub fn lower(s: &[u8]) -> (r: Vec<u8>)
    ensures
        r@ == spec_lower(s@),
{
    let mut out: Vec<u8> = Vec::new();
    let mut i: usize = 0;
    while i < s.len()
        invariant
            i <= s@.len(),
            out@.len() == i,
            forall|k: int| 0 <= k < i ==> out@[k] == lower_byte(#[trigger] s@[k]),
        decreases s@.len() - i,
    {
        let b = s[i];
        if 65 <= b && b <= 90 {
            out.push(b + 32);
        } else {
            out.push(b);
        }
        i += 1;
    }
    proof {
        assert(out@ =~= spec_lower(s@));
    }
    out
}

/// The position of the first newline in `s`, or its length if there is
/// none.
pub open spec fn spec_nl_pos(s: Seq<u8>) -> int
    decreases s.len(),
{
    if s.len() == 0 {
        0
    } else if s[0] == 10 {
        0
    } else {
        1 + spec_nl_pos(s.drop_first())
    }
}

/// The first-newline position lies in the string, points at a newline
/// when inside it, and nothing before it is a newline.
pub proof fn lemma_nl_pos_bounds(s: Seq<u8>)
    ensures
        0 <= spec_nl_pos(s) <= s.len(),
        spec_nl_pos(s) < s.len() ==> s[spec_nl_pos(s)] == 10,
        forall|k: int| 0 <= k < spec_nl_pos(s) ==> s[k] != 10,
    decreases s.len(),
{
    if s.len() != 0 && s[0] != 10 {
        lemma_nl_pos_bounds(s.drop_first());
        assert forall|k: int| 0 <= k < spec_nl_pos(s) implies s[k] != 10 by {
            if k > 0 {
                assert(s.drop_first()[k - 1] == s[k]);
            }
        }
    }
}

/// The lines of a source text, split on newlines. A trailing newline
/// yields a final empty line; the empty text is one empty line.
pub open spec fn spec_lines(s: Seq<u8>) -> Seq<Seq<u8>>
    decreases s.len(),
    via spec_lines_decreases
{
    if spec_nl_pos(s) == s.len() {
        seq![s]
    } else {
        seq![s.take(spec_nl_pos(s))] + spec_lines(s.skip(spec_nl_pos(s) + 1))
    }
}

#[via_fn]
proof fn spec_lines_decreases(s: Seq<u8>) {
    lemma_nl_pos_bounds(s);
}

/// A scan that ran over non-newline bytes from `i` and stopped at `j`
/// found the first-newline position of the suffix at `i`.
proof fn lemma_nl_pos_scan(s: Seq<u8>, i: int, j: int)
    requires
        0 <= i <= j <= s.len(),
        forall|k: int| i <= k < j ==> #[trigger] s[k] != 10,
        j == s.len() || s[j] == 10,
    ensures
        spec_nl_pos(s.skip(i)) == j - i,
    decreases j - i,
{
    if i == j {
        if i < s.len() {
            assert(s.skip(i)[0] == s[i]);
        }
    } else {
        assert(s.skip(i)[0] == s[i]);
        assert(s.skip(i).drop_first() =~= s.skip(i + 1));
        lemma_nl_pos_scan(s, i + 1, j);
    }
}

/// Split a source text into lines.
pub fn split_lines(s: &[u8]) -> (r: Vec<Vec<u8>>)
    ensures
        views(r@) == spec_lines(s@),
{
    let mut lines: Vec<Vec<u8>> = Vec::new();
    let mut i: usize = 0;
    let mut done = false;
    proof {
        assert(s@.skip(0) =~= s@);
        assert(views(lines@) + spec_lines(s@) =~= spec_lines(s@));
    }
    while i < s.len() && !done
        invariant
            i <= s@.len(),
            !done ==> views(lines@) + spec_lines(s@.skip(i as int)) == spec_lines(s@),
            done ==> views(lines@) == spec_lines(s@) && i == s@.len(),
        decreases s@.len() - i,
    {
        let ghost lines0 = lines@;
        let mut w: Vec<u8> = Vec::new();
        let mut j: usize = i;
        while j < s.len() && s[j] != 10
            invariant
                0 <= i <= j <= s@.len(),
                w@ == s@.subrange(i as int, j as int),
                forall|k: int| i <= k < j ==> #[trigger] s@[k] != 10,
            decreases s@.len() - j,
        {
            let ghost w0 = w@;
            w.push(s[j]);
            proof {
                assert(w0.push(s@[j as int]) =~= s@.subrange(i as int, j + 1));
            }
            j += 1;
        }
        proof {
            lemma_nl_pos_scan(s@, i as int, j as int);
            assert(s@.skip(i as int).take((j - i) as int) =~= s@.subrange(i as int, j as int));
        }
        lines.push(w);
        proof {
            lemma_views_push(lines0, lines@[lines@.len() - 1]);
        }
        if j < s.len() {
            proof {
                assert(s@.skip(i as int).skip((j - i) as int + 1) =~= s@.skip(j + 1));
                lemma_push_concat(
                    views(lines0),
                    s@.subrange(i as int, j as int),
                    spec_lines(s@.skip(j + 1)),
                );
            }
            i = j + 1;
        } else {
            proof {
                assert(s@.skip(i as int) =~= s@.subrange(i as int, j as int));
                assert(views(lines0).push(s@.skip(i as int)) =~= views(lines0) + seq![
                    s@.skip(i as int),
                ]);
            }
            i = j;
            done = true;
        }
    }
    if !done {
        proof {
            assert(s@.skip(s@.len() as int) =~= Seq::<u8>::empty());
            assert(spec_nl_pos(Seq::<u8>::empty()) == 0);
            assert(spec_lines(Seq::<u8>::empty()) =~= seq![Seq::<u8>::empty()]);
        }
        let ghost lines0 = lines@;
        let w: Vec<u8> = Vec::new();
        lines.push(w);
        proof {
            lemma_views_push(lines0, lines@[lines@.len() - 1]);
            assert(views(lines0).push(Seq::<u8>::empty()) =~= views(lines0) + seq![
                Seq::<u8>::empty(),
            ]);
        }
    }
    lines
}

/// A decimal digit.
pub open spec fn is_digit(b: u8) -> bool {
    48 <= b <= 57
}

/// A lowercase hexadecimal digit.
pub open spec fn is_hex_digit(b: u8) -> bool {
    is_digit(b) || 97 <= b <= 102
}

/// The value of a hexadecimal digit.
pub open spec fn hex_digit_val(b: u8) -> int {
    if is_digit(b) {
        b - 48
    } else {
        b - 87
    }
}

/// Every byte is a decimal digit.
pub open spec fn all_digits(s: Seq<u8>) -> bool {
    forall|k: int| 0 <= k < s.len() ==> is_digit(#[trigger] s[k])
}

/// Every byte is a hexadecimal digit.
pub open spec fn all_hex_digits(s: Seq<u8>) -> bool {
    forall|k: int| 0 <= k < s.len() ==> is_hex_digit(#[trigger] s[k])
}

/// The number a decimal digit string denotes.
pub open spec fn dec_val(s: Seq<u8>) -> int
    decreases s.len(),
{
    if s.len() == 0 {
        0
    } else {
        dec_val(s.drop_last()) * 10 + (s.last() - 48)
    }
}

/// The number a hexadecimal digit string denotes.
pub open spec fn hex_val(s: Seq<u8>) -> int
    decreases s.len(),
{
    if s.len() == 0 {
        0
    } else {
        hex_val(s.drop_last()) * 16 + hex_digit_val(s.last())
    }
}

/// The number a `#<decimal>` token denotes: a `#` followed by at least
/// one decimal digit, with a value that fits 16 bits.
pub open spec fn spec_parse_decimal(w: Seq<u8>) -> Option<u16> {
    if w.len() >= 2 && w[0] == 35 && all_digits(w.skip(1)) && dec_val(w.skip(1)) <= 0xFFFF {
        Some(dec_val(w.skip(1)) as u16)
    } else {
        None
    }
}

/// The number an `x<hex>` token denotes: an `x` followed by at least one
/// lowercase hexadecimal digit, with a value that fits 16 bits.
pub open spec fn spec_parse_hex(w: Seq<u8>) -> Option<u16> {
    if w.len() >= 2 && w[0] == 120 && all_hex_digits(w.skip(1)) && hex_val(w.skip(1)) <= 0xFFFF {
        Some(hex_val(w.skip(1)) as u16)
    } else {
        None
    }
}

/// The number a token denotes, in either written form.
pub open spec fn spec_parse_number(w: Seq<u8>) -> Option<u16> {
    match spec_parse_hex(w) {
        Some(v) => Some(v),
        None => spec_parse_decimal(w),
    }
}

/// Parse a `#<decimal>` token as a 16-bit unsigned number.
pub fn parse_decimal(w: &[u8]) -> (r: Result<u16, ParseError>)
    ensures
        match spec_parse_decimal(w@) {
            Some(v) => r == Ok::<u16, ParseError>(v),
            None => r == Err::<u16, ParseError>(
                (ParseError { line: 0, kind: ParseErrorKind::BadNumber }),
            ),
        },
{
    if w.len() < 2 || w[0] != 35 {
        return Err(ParseError { line: 0, kind: ParseErrorKind::BadNumber });
    }
    match digits_value(w, 10) {
        Some(v) => Ok(v),
        None => Err(ParseError { line: 0, kind: ParseErrorKind::BadNumber }),
    }
}

/// Parse an `x<hex>` token as a 16-bit unsigned number.
pub fn parse_hex(w: &[u8]) -> (r: Result<u16, ParseError>)
    ensures
        match spec_parse_hex(w@) {
            Some(v) => r == Ok::<u16, ParseError>(v),
            None => r == Err::<u16, ParseError>(
                (ParseError { line: 0, kind: ParseErrorKind::BadNumber }),
            ),
        },
{
    if w.len() < 2 || w[0] != 120 {
        return Err(ParseError { line: 0, kind: ParseErrorKind::BadNumber });
    }
    match digits_value(w, 16) {
        Some(v) => Ok(v),
        None => Err(ParseError { line: 0, kind: ParseErrorKind::BadNumber }),
    }
}

/// Parse a number token in either written form.
pub fn parse_number(w: &[u8]) -> (r: Result<u16, ParseError>)
    ensures
        match spec_parse_number(w@) {
            Some(v) => r == Ok::<u16, ParseError>(v),
            None => r == Err::<u16, ParseError>(
                (ParseError { line: 0, kind: ParseErrorKind::BadNumber }),
            ),
        },
{
    if w.len() >= 1 && w[0] == 120 {
        parse_hex(w)
    } else {
        parse_decimal(w)
    }
}

/// The value of the digit string after the marker byte of a number
/// token, in the given base; `None` when a byte is no digit of the base
/// or the value does not fit 16 bits.
fn digits_value(w: &[u8], base: u16) -> (r: Option<u16>)
    requires
        w@.len() >= 2,
        base == 10 || base == 16,
    ensures
        base == 10 ==> r == (if all_digits(w@.skip(1)) && dec_val(w@.skip(1)) <= 0xFFFF {
            Some((dec_val(w@.skip(1)) as u16))
        } else {
            None::<u16>
        }),
        base == 16 ==> r == (if all_hex_digits(w@.skip(1)) && hex_val(w@.skip(1)) <= 0xFFFF {
            Some((hex_val(w@.skip(1)) as u16))
        } else {
            None::<u16>
        }),
{
    let mut acc: u32 = 0;
    let mut i: usize = 1;
    while i < w.len()
        invariant
            1 <= i <= w@.len(),
            w@.len() >= 2,
            base == 10 || base == 16,
            base == 10 ==> all_digits(w@.subrange(1, i as int)),
            base == 16 ==> all_hex_digits(w@.subrange(1, i as int)),
            base == 10 ==> (if dec_val(w@.subrange(1, i as int)) <= 0xFFFF {
                acc == dec_val(w@.subrange(1, i as int))
            } else {
                acc == 0x10000
            }),
            base == 16 ==> (if hex_val(w@.subrange(1, i as int)) <= 0xFFFF {
                acc == hex_val(w@.subrange(1, i as int))
            } else {
                acc == 0x10000
            }),
            acc <= 0x10000,
        decreases w@.len() - i,
    {
        let ghost pre = w@.subrange(1, i as int);
        let b = w[i];
        let d: u32;
        if 48 <= b && b <= 57 {
            d = (b - 48) as u32;
        } else if base == 16 && 97 <= b && b <= 102 {
            d = (b - 87) as u32;
        } else {
            proof {
                assert(w@.skip(1)[i - 1] == w@[i as int]);
            }
            return None;
        }
        proof {
            assert(w@.subrange(1, i + 1).drop_last() =~= pre);
            assert(w@.subrange(1, i + 1).last() == w@[i as int]);
        }
        acc = if base == 10 {
            acc * 10 + d
        } else {
            acc * 16 + d
        };
        if acc > 0xFFFF {
            acc = 0x10000;
        }
        i += 1;
    }
    proof {
        assert(w@.subrange(1, w@.len() as int) =~= w@.skip(1));
    }
    if acc > 0xFFFF {
        None
    } else {
        Some(acc as u16)
    }
}

} // verus!
