//! Decimal numbers as `str::parse` reads them for the integer types the
//! game uses.
use vstd::prelude::*;

use crate::text::chars_of;

verus! {

pub open spec fn is_digit(c: char) -> bool {
    '0' <= c && c <= '9'
}

pub open spec fn digit_value(c: char) -> int {
    (c as int) - ('0' as int)
}

/// The value of a run of decimal digits.
pub open spec fn digits_value(s: Seq<char>) -> int
    decreases s.len(),
{
    if s.len() == 0 {
        0
    } else {
        digits_value(s.drop_last()) * 10 + digit_value(s.last())
    }
}

pub open spec fn all_digits(s: Seq<char>) -> bool {
    s.len() > 0 && forall|i: int| 0 <= i < s.len() ==> is_digit(#[trigger] s[i])
}

/// What `str::parse` gives for an unsigned type whose largest value is
/// `max`: an optional `+` and at least one digit, of value at most `max`.
pub open spec fn unsigned_value(s: Seq<char>, max: int) -> Option<int> {
    let digits = if s.len() > 0 && s[0] == '+' {
        s.drop_first()
    } else {
        s
    };
    if all_digits(digits) && digits_value(digits) <= max {
        Some(digits_value(digits))
    } else {
        None
    }
}

/// What `str::parse::<i32>` gives: an optional sign and at least one digit,
/// of a value that fits.
pub open spec fn i32_value(s: Seq<char>) -> Option<i32> {
    if s.len() > 0 && s[0] == '-' {
        let digits = s.drop_first();
        if all_digits(digits) && digits_value(digits) <= 0x8000_0000 {
            Some((-digits_value(digits)) as i32)
        } else {
            None
        }
    } else {
        match unsigned_value(s, i32::MAX as int) {
            Some(v) => Some(v as i32),
            None => None,
        }
    }
}

proof fn lemma_digits_nonneg(s: Seq<char>)
    requires
        forall|i: int| 0 <= i < s.len() ==> is_digit(#[trigger] s[i]),
    ensures
        digits_value(s) >= 0,
    decreases s.len(),
{
    if s.len() > 0 {
        lemma_digits_nonneg(s.drop_last());
    }
}

/// Reads the digits `c[start..]` as a number of at most `max`.
fn read_digits(c: &Vec<char>, start: usize, max: u64) -> (r: Option<u64>)
    requires
        start <= c@.len(),
        max >= 9,
    ensures
        match r {
            Some(v) => all_digits(c@.subrange(start as int, c@.len() as int)) && v == digits_value(
                c@.subrange(start as int, c@.len() as int),
            ) && v <= max,
            None => !(all_digits(c@.subrange(start as int, c@.len() as int)) && digits_value(
                c@.subrange(start as int, c@.len() as int),
            ) <= max),
        },
{
    let ghost d = c@.subrange(start as int, c@.len() as int);
    if start == c.len() {
        return None;
    }
    let mut acc: u64 = 0;
    let mut i: usize = start;
    while i < c.len()
        invariant
            start <= i <= c@.len(),
            d == c@.subrange(start as int, c@.len() as int),
            forall|j: int| start <= j < i ==> is_digit(#[trigger] c@[j]),
            acc == digits_value(c@.subrange(start as int, i as int)),
            acc <= max,
            max >= 9,
        decreases c.len() - i,
    {
        let ch = c[i];
        if !('0' <= ch && ch <= '9') {
            assert(!is_digit(d[i - start]));
            return None;
        }
        let dv: u64 = (ch as u64) - ('0' as u64);
        assert(dv <= 9);
        assert(c@.subrange(start as int, i + 1).drop_last() =~= c@.subrange(start as int, i as int));
        if acc > (max - dv) / 10 {
            proof {
                let k = (i + 1 - start) as int;
                assert(d.subrange(0, k) =~= c@.subrange(start as int, i + 1));
                assert(digits_value(c@.subrange(start as int, i + 1)) == acc * 10 + dv);
                assert forall|j: int| 0 <= j < k implies is_digit(#[trigger] d[j]) by {
                    assert(d[j] == c@[start + j]);
                }
                lemma_prefix_bound(d, k);
                assert(acc * 10 + dv > max) by (nonlinear_arith)
                    requires
                        acc > (max - dv) / 10,
                        dv <= 9,
                        max >= 9,
                ;
            }
            return None;
        }
        assert(acc * 10 + dv <= max) by (nonlinear_arith)
            requires
                acc <= (max - dv) / 10,
                dv <= 9,
        ;
        acc = acc * 10 + dv;
        i = i + 1;
    }
    assert(c@.subrange(start as int, i as int) =~= d);
    Some(acc)
}

/// `str::parse::<u64>`.
pub fn parse_u64(s: &str) -> (r: Option<u64>)
    ensures
        match unsigned_value(s@, u64::MAX as int) {
            Some(v) => r == Some(v as u64),
            None => r is None,
        },
{
    let c = chars_of(s);
    let start: usize = if c.len() > 0 && c[0] == '+' {
        1
    } else {
        0
    };
    assert(c@.subrange(start as int, c@.len() as int) =~= (if s@.len() > 0 && s@[0] == '+' {
        s@.drop_first()
    } else {
        s@
    }));
    read_digits(&c, start, u64::MAX)
}

/// `str::parse::<usize>`.
pub fn parse_usize(s: &str) -> (r: Option<usize>)
    ensures
        match unsigned_value(s@, usize::MAX as int) {
            Some(v) => r == Some(v as usize),
            None => r is None,
        },
{
    let c = chars_of(s);
    let start: usize = if c.len() > 0 && c[0] == '+' {
        1
    } else {
        0
    };
    assert(c@.subrange(start as int, c@.len() as int) =~= (if s@.len() > 0 && s@[0] == '+' {
        s@.drop_first()
    } else {
        s@
    }));
    match read_digits(&c, start, usize::MAX as u64) {
        Some(v) => Some(v as usize),
        None => None,
    }
}

/// `str::parse::<i32>`.
pub fn parse_i32(s: &str) -> (r: Option<i32>)
    ensures
        r == i32_value(s@),
{
    let c = chars_of(s);
    if c.len() > 0 && c[0] == '-' {
        assert(c@.subrange(1, c@.len() as int) =~= s@.drop_first());
        match read_digits(&c, 1, 0x8000_0000) {
            Some(v) => {
                let n: i64 = -(v as i64);
                Some(n as i32)
            },
            None => None,
        }
    } else {
        let start: usize = if c.len() > 0 && c[0] == '+' {
            1
        } else {
            0
        };
        assert(c@.subrange(start as int, c@.len() as int) =~= (if s@.len() > 0 && s@[0] == '+' {
            s@.drop_first()
        } else {
            s@
        }));
        match read_digits(&c, start, 0x7fff_ffff) {
            Some(v) => Some(v as i32),
            None => None,
        }
    }
}

/// A prefix of a digit run never has a larger value than the whole run.
proof fn lemma_prefix_bound(s: Seq<char>, k: int)
    requires
        0 <= k <= s.len(),
        forall|i: int| 0 <= i < k ==> is_digit(#[trigger] s[i]),
    ensures
        all_digits(s) ==> digits_value(s.subrange(0, k)) <= digits_value(s),
    decreases s.len(),
{
    if all_digits(s) {
        if k < s.len() {
            lemma_digits_nonneg(s.drop_last());
            assert(s.drop_last().subrange(0, k) =~= s.subrange(0, k));
            lemma_prefix_bound(s.drop_last(), k);
            assert(digits_value(s.drop_last()) <= digits_value(s)) by (nonlinear_arith)
                requires
                    digits_value(s) == digits_value(s.drop_last()) * 10 + digit_value(s.last()),
                    digits_value(s.drop_last()) >= 0,
                    digit_value(s.last()) >= 0,
            ;
        } else {
            assert(s.subrange(0, k) =~= s);
        }
    }
}

} // verus!
