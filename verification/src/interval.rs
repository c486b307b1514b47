//! Parsing of refresh and rotation intervals.
//!
//! An interval is written as one or more decimal digits followed by a unit
//! suffix: `m` for minutes, `h` for hours, `d` for days (the shape
//! `^\d+[mhd]$`). The parser turns such a string into a number of seconds.

use vstd::prelude::*;

verus! {

/// Whether `c` is a decimal digit.
pub open spec fn is_digit(c: char) -> bool {
    '0' <= c && c <= '9'
}

/// Numeric value of a decimal digit.
pub open spec fn digit_val(c: char) -> int {
    c as int - '0' as int
}

/// Whether every character of `s` is a decimal digit.
pub open spec fn all_digits(s: Seq<char>) -> bool {
    forall|i: int| 0 <= i < s.len() ==> is_digit(#[trigger] s[i])
}

/// Value of a digit string read as a decimal number.
pub open spec fn digits_value(s: Seq<char>) -> int
    decreases s.len(),
{
    if s.len() == 0 {
        0
    } else {
        digits_value(s.drop_last()) * 10 + digit_val(s.last())
    }
}

/// Whether `c` is a recognised unit suffix.
pub open spec fn is_unit(c: char) -> bool {
    c == 'm' || c == 'h' || c == 'd'
}

/// Seconds denoted by one unit suffix.
pub open spec fn unit_secs(c: char) -> int {
    if c == 'm' {
        60
    } else if c == 'h' {
        3600
    } else {
        86400
    }
}

/// Whether `s` is a well-formed interval: `^\d+[mhd]$`.
pub open spec fn is_interval(s: Seq<char>) -> bool {
    &&& s.len() >= 2
    &&& all_digits(s.take(s.len() - 1))
    &&& is_unit(s.last())
}

/// Seconds denoted by a well-formed interval string.
pub open spec fn interval_seconds(s: Seq<char>) -> int {
    digits_value(s.take(s.len() - 1)) * unit_secs(s.last())
}

/// A digit string never denotes a negative number.
proof fn lemma_digits_value_nonneg(s: Seq<char>)
    requires
        all_digits(s),
    ensures
        digits_value(s) >= 0,
    decreases s.len(),
{
    if s.len() > 0 {
        assert(all_digits(s.drop_last()));
        lemma_digits_value_nonneg(s.drop_last());
    }
}

/// Extending a digit string on the right never shrinks its value.
proof fn lemma_digits_value_prefix(s: Seq<char>, n: int)
    requires
        all_digits(s),
        0 <= n <= s.len(),
    ensures
        digits_value(s.take(n)) <= digits_value(s),
    decreases s.len() - n,
{
    if n < s.len() {
        lemma_digits_value_prefix(s, n + 1);
        let t = s.take(n + 1);
        assert(t.drop_last() =~= s.take(n));
        assert(all_digits(s.take(n)));
        lemma_digits_value_nonneg(s.take(n));
        assert(digits_value(t) == digits_value(s.take(n)) * 10 + digit_val(t.last()));
    } else {
        assert(s.take(n) =~= s);
    }
}

/// Parse an interval of the shape `^\d+[mhd]$` into seconds.
///
/// Returns `None` exactly when the string is not a well-formed interval or
/// its value in seconds does not fit in a `u64`.
pub fn parse_interval(s: &str) -> (r: Option<u64>)
    ensures
        r is Some <==> is_interval(s@) && interval_seconds(s@) <= u64::MAX,
        r is Some ==> r->0 == interval_seconds(s@),
{
    let n = s.unicode_len();
    if n < 2 {
        return None;
    }
    let last = s.get_char(n - 1);
    let unit: u64 = if last == 'm' {
        60
    } else if last == 'h' {
        3600
    } else if last == 'd' {
        86400
    } else {
        return None;
    };
    assert(is_unit(s@.last()) && unit == unit_secs(s@.last()));
    let ghost digits = s@.take(s@.len() - 1);
    let mut acc: u64 = 0;
    let mut i: usize = 0;
    while i < n - 1
        invariant
            2 <= n == s@.len() <= usize::MAX,
            0 <= i <= n - 1,
            all_digits(s@.take(i as int)),
            acc == digits_value(s@.take(i as int)),
            is_unit(s@.last()),
            unit == unit_secs(s@.last()),
            digits == s@.take(s@.len() - 1),
        decreases n - 1 - i,
    {
        let c = s.get_char(i);
        if !(c >= '0' && c <= '9') {
            proof {
                assert(s@.take(s@.len() - 1)[i as int] == s@[i as int]);
                assert(!all_digits(s@.take(s@.len() - 1)));
            }
            return None;
        }
        let d: u64 = (c as u32 as u64) - ('0' as u32 as u64);
        proof {
            assert(s@.take(i + 1).drop_last() =~= s@.take(i as int));
            assert(s@.take(i + 1).last() == s@[i as int]);
            lemma_digits_value_nonneg(s@.take(i as int));
        }
        let step = match acc.checked_mul(10) {
            Some(t) => t.checked_add(d),
            None => None,
        };
        match step {
            Some(v) => {
                acc = v;
                proof {
                    assert(all_digits(s@.take(i + 1)));
                    assert(acc == digits_value(s@.take(i + 1)));
                }
            },
            None => {
                // The digits alone already exceed `u64::MAX`; with a unit of
                // at least 60 the interval cannot fit either.
                proof {
                    assert(all_digits(s@.take(i + 1)));
                    assert(digits_value(s@.take(i + 1)) > u64::MAX);
                    if is_interval(s@) {
                        assert(digits.take(i + 1) =~= s@.take(i + 1));
                        lemma_digits_value_prefix(digits, i + 1);
                        assert(digits_value(digits) > u64::MAX);
                        assert(interval_seconds(s@) > u64::MAX) by (nonlinear_arith)
                            requires
                                digits_value(digits) > u64::MAX,
                                unit_secs(s@.last()) >= 60,
                                interval_seconds(s@) == digits_value(digits) * unit_secs(
                                    s@.last(),
                                ),
                                digits == s@.take(s@.len() - 1);
                    }
                }
                return None;
            },
        }
        i = i + 1;
    }
    assert(s@.take(i as int) =~= digits);
    proof {
        lemma_digits_value_nonneg(digits);
    }
    match acc.checked_mul(unit) {
        Some(total) => {
            assert(total == interval_seconds(s@));
            Some(total)
        },
        None => {
            proof {
                assert(acc * unit > u64::MAX);
            }
            None
        },
    }
}

} // verus!
