//! Reading a number out of a line that the user typed, as
//! `line.trim().parse::<u32>()` (or `::<usize>`) does.

use vstd::prelude::*;
use vstd::string::StrSliceExecFns;

use crate::text::{lemma_trim_end_at, lemma_trim_start_at, trim_by};

verus! {

/// A character that `char::is_whitespace` accepts: those with the Unicode
/// `White_Space` property.
pub open spec fn is_unicode_space(c: char) -> bool {
    let u = c as u32;
    ||| 0x09 <= u <= 0x0d
    ||| u == 0x20
    ||| u == 0x85
    ||| u == 0xa0
    ||| u == 0x1680
    ||| 0x2000 <= u <= 0x200a
    ||| u == 0x2028
    ||| u == 0x2029
    ||| u == 0x202f
    ||| u == 0x205f
    ||| u == 0x3000
}

/// The text without its leading and trailing white space, as `str::trim`
/// leaves it.
pub open spec fn trim_text(s: Seq<char>) -> Seq<char> {
    trim_by(s, |c: char| is_unicode_space(c))
}

/// The digits of an unsigned number: the text after an optional leading `+`.
pub open spec fn unsigned_digits(s: Seq<char>) -> Seq<char> {
    if s.len() > 0 && s[0] == '+' {
        s.drop_first()
    } else {
        s
    }
}

/// One or more ASCII decimal digits.
pub open spec fn is_decimal(d: Seq<char>) -> bool {
    d.len() > 0 && forall|i: int| 0 <= i < d.len() ==> '0' <= #[trigger] d[i] <= '9'
}

/// The value of a decimal digit.
pub open spec fn digit_value(c: char) -> nat {
    (c as int - '0' as int) as nat
}

/// The number that a run of decimal digits writes.
pub open spec fn decimal_value(d: Seq<char>) -> nat
    decreases d.len(),
{
    if d.len() == 0 {
        0
    } else {
        decimal_value(d.drop_last()) * 10 + digit_value(d.last())
    }
}

/// What `str::parse` gives for an unsigned integer type whose largest value
/// is `max`: the number, when the text is an optional `+` and then decimal
/// digits writing a number no greater than `max`.
pub open spec fn parse_unsigned(s: Seq<char>, max: nat) -> Option<nat> {
    let d = unsigned_digits(s);
    if is_decimal(d) && decimal_value(d) <= max {
        Some(decimal_value(d))
    } else {
        None
    }
}

/// The number on a typed line, read as `u32` after trimming.
pub open spec fn typed_u32(line: Seq<char>) -> Option<nat> {
    parse_unsigned(trim_text(line), u32::MAX as nat)
}

/// The number on a typed line, read as `usize` after trimming.
pub open spec fn typed_usize(line: Seq<char>) -> Option<nat> {
    parse_unsigned(trim_text(line), usize::MAX as nat)
}

proof fn lemma_decimal_value_grows(d: Seq<char>, k: int)
    requires
        0 <= k <= d.len(),
    ensures
        decimal_value(d.take(k)) <= decimal_value(d),
    decreases d.len() - k,
{
    if k < d.len() {
        lemma_decimal_value_grows(d, k + 1);
        assert(d.take(k + 1).drop_last() =~= d.take(k));
    } else {
        assert(d.take(k) =~= d);
    }
}

fn is_space_char(c: char) -> (space: bool)
    ensures
        space == is_unicode_space(c),
{
    let u = c as u32;
    (0x09 <= u && u <= 0x0d) || u == 0x20 || u == 0x85 || u == 0xa0 || u == 0x1680 || (0x2000 <= u
        && u <= 0x200a) || u == 0x2028 || u == 0x2029 || u == 0x202f || u == 0x205f || u == 0x3000
}

/// The bounds of the trimmed text, in characters.
fn trim_bounds(line: &str) -> (bounds: (usize, usize))
    ensures
        bounds.0 <= bounds.1 <= line@.len(),
        line@.subrange(bounds.0 as int, bounds.1 as int) == trim_text(line@),
{
    let ghost skip = |c: char| is_unicode_space(c);
    let n = line.unicode_len();
    let mut a: usize = 0;
    while a < n && is_space_char(line.get_char(a))
        invariant
            a <= n == line@.len(),
            forall|k: int| 0 <= k < a ==> is_unicode_space(line@[k]),
        decreases n - a,
    {
        a = a + 1;
    }
    proof {
        assert forall|k: int| 0 <= k < a implies skip(#[trigger] line@[k]) by {}
        lemma_trim_start_at(line@, skip, a as int);
    }
    let mut b: usize = n;
    while b > a && is_space_char(line.get_char(b - 1))
        invariant
            a <= b <= n == line@.len(),
            forall|k: int| b <= k < n ==> is_unicode_space(line@[k]),
        decreases b - a,
    {
        b = b - 1;
    }
    proof {
        let t = line@.skip(a as int);
        assert forall|k: int| b - a <= k < t.len() implies skip(#[trigger] t[k]) by {
            assert(t[k] == line@[a + k]);
        }
        if b > a {
            assert(t[b - a - 1] == line@[b - 1]);
        }
        lemma_trim_end_at(t, skip, b - a);
        assert(t.take(b - a) =~= line@.subrange(a as int, b as int));
    }
    (a, b)
}

/// The number on a typed line, when, trimmed, it is an optional `+` and then
/// decimal digits writing a number no greater than `max`.
pub fn parse_typed_number(line: &str, max: u64) -> (number: Option<u64>)
    ensures
        match parse_unsigned(trim_text(line@), max as nat) {
            Some(n) => number == Some(n as u64),
            None => number is None,
        },
{
    let (a, b) = trim_bounds(line);
    let ghost t = line@.subrange(a as int, b as int);
    let mut start = a;
    if a < b && line.get_char(a) == '+' {
        start = a + 1;
    }
    let ghost d = line@.subrange(start as int, b as int);
    assert(d =~= unsigned_digits(t));
    if start == b {
        return None;
    }
    let mut value: u64 = 0;
    let mut i = start;
    while i < b
        invariant
            a <= start < b <= line@.len(),
            start <= i <= b,
            d == line@.subrange(start as int, b as int),
            d == unsigned_digits(trim_text(line@)),
            forall|k: int| 0 <= k < i - start ==> '0' <= #[trigger] d[k] <= '9',
            value == decimal_value(d.take(i - start)),
            value <= max,
        decreases b - i,
    {
        let c = line.get_char(i);
        assert(c == d[i - start]);
        if !('0' <= c && c <= '9') {
            assert(!is_decimal(d));
            return None;
        }
        let digit = (c as u32 - '0' as u32) as u64;
        let next: u128 = (value as u128) * 10 + (digit as u128);
        proof {
            assert(d.take(i - start + 1).drop_last() =~= d.take(i - start));
            assert(digit == digit_value(d[i - start]));
        }
        if next > max as u128 {
            proof {
                if is_decimal(d) {
                    lemma_decimal_value_grows(d, i - start + 1);
                }
            }
            return None;
        }
        value = next as u64;
        i = i + 1;
    }
    assert(d.take(b - start) =~= d);
    Some(value)
}

} // verus!
