//! The textual grammar of a judgement score.
//!
//! A score arrives as the final line of a reply and is kept as text; it is
//! valid when it spells a floating-point number:
//!
//! ```text
//! Float  ::= Sign? ( 'inf' | 'infinity' | 'nan' | Number )   (case-insensitive words)
//! Number ::= Count '.'? Exp? | Count? '.' Count Exp?
//! Exp    ::= ('e' | 'E') Sign? Count
//! Sign   ::= '+' | '-'
//! Count  ::= Digit+
//! ```

use vstd::prelude::*;

verus! {

use vstd::string::StrSliceExecFns;

pub open spec fn is_digit(c: char) -> bool {
    0x30 <= c as u32 <= 0x39
}

/// The position of the first character of `s` at or after `i` that is not a
/// decimal digit, or `s.len()` if there is none.
pub open spec fn digits_end(s: Seq<char>, i: int) -> int
    decreases s.len() - i,
{
    if 0 <= i < s.len() && is_digit(s[i]) {
        digits_end(s, i + 1)
    } else {
        i
    }
}

pub proof fn lemma_digits_end(s: Seq<char>, i: int)
    requires
        0 <= i <= s.len(),
    ensures
        i <= digits_end(s, i) <= s.len(),
        digits_end(s, i) < s.len() ==> !is_digit(s[digits_end(s, i)]),
        forall|k: int| i <= k < digits_end(s, i) ==> is_digit(s[k]),
    decreases s.len() - i,
{
    if i < s.len() && is_digit(s[i]) {
        lemma_digits_end(s, i + 1);
    }
}

/// One or more decimal digits and nothing else.
pub open spec fn is_count(s: Seq<char>) -> bool {
    s.len() >= 1 && forall|i: int| 0 <= i < s.len() ==> is_digit(#[trigger] s[i])
}

/// A `Count` with an optional leading sign.
pub open spec fn is_signed_count(s: Seq<char>) -> bool {
    if s.len() >= 1 && (s[0] == '+' || s[0] == '-') {
        is_count(s.skip(1))
    } else {
        is_count(s)
    }
}

/// An exponent part: `e` or `E`, then a signed count.
pub open spec fn is_exponent(s: Seq<char>) -> bool {
    s.len() >= 1 && (s[0] == 'e' || s[0] == 'E') && is_signed_count(s.skip(1))
}

/// A `Number`: digits with an optional point (at least one digit on some side
/// of it), then an optional exponent.
pub open spec fn is_number(s: Seq<char>) -> bool {
    let d1 = digits_end(s, 0);
    if d1 < s.len() && s[d1] == '.' {
        let d2 = digits_end(s, d1 + 1);
        (d1 > 0 || d2 > d1 + 1) && (d2 == s.len() || is_exponent(
            s.subrange(d2, s.len() as int),
        ))
    } else {
        d1 > 0 && (d1 == s.len() || is_exponent(s.subrange(d1, s.len() as int)))
    }
}

/// Whether `c` is the letter `l` (given in lower case), ignoring case.
pub open spec fn ci(c: char, l: char) -> bool {
    c == l || c as u32 == l as u32 - 0x20
}

pub open spec fn is_inf(s: Seq<char>) -> bool {
    s.len() == 3 && ci(s[0], 'i') && ci(s[1], 'n') && ci(s[2], 'f')
}

pub open spec fn is_infinity(s: Seq<char>) -> bool {
    &&& s.len() == 8
    &&& ci(s[0], 'i')
    &&& ci(s[1], 'n')
    &&& ci(s[2], 'f')
    &&& ci(s[3], 'i')
    &&& ci(s[4], 'n')
    &&& ci(s[5], 'i')
    &&& ci(s[6], 't')
    &&& ci(s[7], 'y')
}

pub open spec fn is_nan(s: Seq<char>) -> bool {
    s.len() == 3 && ci(s[0], 'n') && ci(s[1], 'a') && ci(s[2], 'n')
}

pub open spec fn is_special(s: Seq<char>) -> bool {
    is_inf(s) || is_infinity(s) || is_nan(s)
}

/// A full score text: an optional sign, then a special word or a number.
pub open spec fn is_float_text(s: Seq<char>) -> bool {
    let body = if s.len() >= 1 && (s[0] == '+' || s[0] == '-') {
        s.skip(1)
    } else {
        s
    };
    is_special(body) || is_number(body)
}

fn char_ci(c: char, l: char) -> (r: bool)
    ensures
        r == ci(c, l),
{
    c == l || c as u32 + 0x20 == l as u32
}

fn char_is_digit(c: char) -> (r: bool)
    ensures
        r == is_digit(c),
{
    let u = c as u32;
    0x30 <= u && u <= 0x39
}

fn scan_digits(s: &str, from: usize, n: usize) -> (r: usize)
    requires
        n == s@.len(),
        from <= n,
    ensures
        r as int == digits_end(s@, from as int),
        from <= r <= n,
{
    let mut i: usize = from;
    while i < n && char_is_digit(s.get_char(i))
        invariant
            n == s@.len(),
            from <= i <= n,
            digits_end(s@, from as int) == digits_end(s@, i as int),
        decreases n - i,
    {
        i += 1;
    }
    i
}

fn is_count_exec(s: &str) -> (r: bool)
    ensures
        r == is_count(s@),
{
    let n = s.unicode_len();
    let d = scan_digits(s, 0, n);
    proof {
        lemma_digits_end(s@, 0);
        if d == n && n >= 1 {
            assert(is_count(s@));
        }
        if is_count(s@) && d < n {
            assert(is_digit(s@[d as int]));
        }
    }
    n >= 1 && d == n
}

fn is_signed_count_exec(s: &str) -> (r: bool)
    ensures
        r == is_signed_count(s@),
{
    let n = s.unicode_len();
    if n >= 1 {
        let c = s.get_char(0);
        if c == '+' || c == '-' {
            let rest = s.substring_char(1, n);
            proof {
                assert(rest@ =~= s@.skip(1));
            }
            return is_count_exec(rest);
        }
    }
    is_count_exec(s)
}

fn is_exponent_exec(s: &str) -> (r: bool)
    ensures
        r == is_exponent(s@),
{
    let n = s.unicode_len();
    if n == 0 {
        return false;
    }
    let c = s.get_char(0);
    if !(c == 'e' || c == 'E') {
        return false;
    }
    let rest = s.substring_char(1, n);
    proof {
        assert(rest@ =~= s@.skip(1));
    }
    is_signed_count_exec(rest)
}

fn is_number_exec(s: &str) -> (r: bool)
    ensures
        r == is_number(s@),
{
    let n = s.unicode_len();
    let d1 = scan_digits(s, 0, n);
    if d1 < n && s.get_char(d1) == '.' {
        let d2 = scan_digits(s, d1 + 1, n);
        if !(d1 > 0 || d2 > d1 + 1) {
            return false;
        }
        if d2 == n {
            return true;
        }
        is_exponent_exec(s.substring_char(d2, n))
    } else {
        if d1 == 0 {
            return false;
        }
        if d1 == n {
            return true;
        }
        is_exponent_exec(s.substring_char(d1, n))
    }
}

fn is_special_exec(s: &str) -> (r: bool)
    ensures
        r == is_special(s@),
{
    let n = s.unicode_len();
    if n == 3 {
        let inf = char_ci(s.get_char(0), 'i') && char_ci(s.get_char(1), 'n') && char_ci(
            s.get_char(2),
            'f',
        );
        let nan = char_ci(s.get_char(0), 'n') && char_ci(s.get_char(1), 'a') && char_ci(
            s.get_char(2),
            'n',
        );
        inf || nan
    } else if n == 8 {
        char_ci(s.get_char(0), 'i') && char_ci(s.get_char(1), 'n') && char_ci(s.get_char(2), 'f')
            && char_ci(s.get_char(3), 'i') && char_ci(s.get_char(4), 'n') && char_ci(
            s.get_char(5),
            'i',
        ) && char_ci(s.get_char(6), 't') && char_ci(s.get_char(7), 'y')
    } else {
        false
    }
}

/// Whether `s` is a valid textual score, i.e. spells a floating-point number.
pub fn score_text_ok(s: &str) -> (r: bool)
    ensures
        r == is_float_text(s@),
{
    let n = s.unicode_len();
    if n >= 1 {
        let c = s.get_char(0);
        if c == '+' || c == '-' {
            let body = s.substring_char(1, n);
            proof {
                assert(body@ =~= s@.skip(1));
            }
            return is_special_exec(body) || is_number_exec(body);
        }
    }
    is_special_exec(s) || is_number_exec(s)
}

} // verus!
