//! Relative durations such as `5m` or `7d`, in milliseconds.
use vstd::prelude::*;

use crate::text::{chars_eq, concat3, is_ascii_digit, slice_chars, to_chars};

verus! {

/// All characters are ASCII digits.
pub open spec fn all_digits(s: Seq<char>) -> bool {
    forall|i: int| 0 <= i < s.len() ==> is_ascii_digit(#[trigger] s[i])
}

/// The value of a string of decimal digits.
pub open spec fn digits_value(s: Seq<char>) -> int
    decreases s.len(),
{
    if s.len() == 0 {
        0
    } else {
        digits_value(s.drop_last()) * 10 + ((s.last() as u32) - ('0' as u32))
    }
}

/// Milliseconds per unit; 0 for an unknown unit.
pub open spec fn unit_millis(u: Seq<char>) -> int {
    if u == "ms"@ {
        1
    } else if u == "s"@ {
        1000
    } else if u == "m"@ {
        60_000
    } else if u == "h"@ {
        3_600_000
    } else if u == "d"@ {
        86_400_000
    } else if u == "w"@ {
        604_800_000
    } else {
        0
    }
}

/// Length of the leading run of ASCII digits.
pub open spec fn digit_prefix_len(s: Seq<char>) -> int
    decreases s.len(),
{
    if s.len() > 0 && is_ascii_digit(s[0]) {
        1 + digit_prefix_len(s.drop_first())
    } else {
        0
    }
}

/// The milliseconds a duration denotes: one or more digits followed by one of the units
/// `ms`, `s`, `m`, `h`, `d`, `w`; `None` when the text has another shape or the value
/// does not fit in an `i64`.
pub open spec fn duration_millis(s: Seq<char>) -> Option<int> {
    let k = digit_prefix_len(s);
    let n = digits_value(s.take(k));
    let f = unit_millis(s.skip(k));
    if k > 0 && f > 0 && n * f <= i64::MAX {
        Some(n * f)
    } else {
        None
    }
}

/// The error for a text that is not a duration.
#[derive(Debug, PartialEq, Eq)]
pub struct DurationError {
    pub input: String,
}

impl DurationError {
    /// The user-facing message.
    pub fn to_string(&self) -> (r: String)
        ensures
            r@ == "unable to parse duration \""@ + self.input@ + "\""@,
    {
        concat3("unable to parse duration \"", self.input.as_str(), "\"")
    }
}

proof fn lemma_digit_prefix(s: Seq<char>, k: int)
    requires
        0 <= k <= s.len(),
        all_digits(s.take(k)),
        k == s.len() || !is_ascii_digit(s[k]),
    ensures
        digit_prefix_len(s) == k,
    decreases k,
{
    if k > 0 {
        assert(is_ascii_digit(s.take(k)[0]));
        let t = s.drop_first();
        assert forall|i: int| 0 <= i < k - 1 implies is_ascii_digit(#[trigger] t.take(k - 1)[i]) by {
            assert(t.take(k - 1)[i] == s.take(k)[i + 1]);
        }
        if k < s.len() {
            assert(t[k - 1] == s[k]);
        }
        lemma_digit_prefix(t, k - 1);
    }
}

pub(crate) proof fn lemma_digits_nonneg(s: Seq<char>)
    requires
        all_digits(s),
    ensures
        digits_value(s) >= 0,
    decreases s.len(),
{
    if s.len() > 0 {
        assert(all_digits(s.drop_last()));
        lemma_digits_nonneg(s.drop_last());
    }
}

/// Parses a duration into milliseconds (see [`duration_millis`]).
pub fn parse_duration_to_millis(s: &str) -> (r: Result<i64, DurationError>)
    ensures
        match r {
            Ok(m) => duration_millis(s@) == Some(m as int),
            Err(e) => duration_millis(s@) is None && e.input@ == s@,
        },
{
    let v = to_chars(s);
    let mut k: usize = 0;
    while k < v.len() && '0' <= v[k] && v[k] <= '9'
        invariant
            k <= v.len(),
            v@ == s@,
            all_digits(v@.take(k as int)),
        decreases v.len() - k,
    {
        assert(v@.take(k + 1) =~= v@.take(k as int).push(v@[k as int]));
        k += 1;
    }
    proof {
        lemma_digit_prefix(v@, k as int);
    }
    let unit = slice_chars(&v, k, v.len());
    assert(unit@ =~= v@.skip(k as int));
    let factor: u64 = if chars_eq(&unit, &to_chars("ms")) {
        1
    } else if chars_eq(&unit, &to_chars("s")) {
        1000
    } else if chars_eq(&unit, &to_chars("m")) {
        60_000
    } else if chars_eq(&unit, &to_chars("h")) {
        3_600_000
    } else if chars_eq(&unit, &to_chars("d")) {
        86_400_000
    } else if chars_eq(&unit, &to_chars("w")) {
        604_800_000
    } else {
        0
    };
    assert(factor as int == unit_millis(unit@));
    assert(k as int == digit_prefix_len(s@));
    assert(unit_millis(s@.skip(k as int)) == factor as int);
    if k == 0 || factor == 0 {
        assert(duration_millis(s@) is None);
        return Err(DurationError { input: String::from_str(s) });
    }
    let limit: u128 = (i64::MAX as u128) / (factor as u128);
    let mut n: u128 = 0;
    let mut i: usize = 0;
    while i < k
        invariant
            i <= k <= v.len(),
            v@ == s@,
            all_digits(v@.take(k as int)),
            n as int == digits_value(v@.take(i as int)),
            n <= limit,
            limit == (i64::MAX as u128) / (factor as u128),
            factor > 0,
            k as int == digit_prefix_len(s@),
            unit_millis(s@.skip(k as int)) == factor as int,
        decreases k - i,
    {
        assert(v@.take(i + 1).drop_last() =~= v@.take(i as int));
        assert(v@.take(k as int)[i as int] == v@[i as int]);
        let d: u128 = ((v[i] as u32) - ('0' as u32)) as u128;
        n = n * 10 + d;
        i += 1;
        if n > limit {
            proof {
                lemma_prefix_value_le(v@.take(k as int), i as int);
                assert(v@.take(k as int).take(i as int) =~= v@.take(i as int));
                lemma_over_limit(digits_value(v@.take(k as int)), limit as int, factor as int);
            }
            return Err(DurationError { input: String::from_str(s) });
        }
    }
    assert(v@.take(k as int).take(k as int) =~= v@.take(k as int));
    proof {
        lemma_under_limit(n as int, limit as int, factor as int);
    }
    let m = (n as u64) * factor;
    Ok(m as i64)
}

pub(crate) proof fn lemma_prefix_value_le(s: Seq<char>, j: int)
    requires
        all_digits(s),
        0 <= j <= s.len(),
    ensures
        digits_value(s.take(j)) <= digits_value(s),
    decreases s.len(),
{
    if j < s.len() {
        let t = s.drop_last();
        assert(all_digits(t));
        assert(t.take(j) =~= s.take(j));
        lemma_prefix_value_le(t, j);
        lemma_digits_nonneg(t);
    } else {
        assert(s.take(j) =~= s);
    }
}

proof fn lemma_over_limit(value: int, limit: int, factor: int)
    requires
        value > limit,
        factor > 0,
        limit == 9223372036854775807int / factor,
    ensures
        value * factor > 9223372036854775807int,
{
    assert(value * factor > 9223372036854775807int) by (nonlinear_arith)
        requires
            value >= limit + 1,
            factor > 0,
            limit == 9223372036854775807int / factor,
    ;
}

proof fn lemma_under_limit(value: int, limit: int, factor: int)
    requires
        0 <= value <= limit,
        factor > 0,
        limit == 9223372036854775807int / factor,
    ensures
        value * factor <= 9223372036854775807int,
{
    assert(value * factor <= 9223372036854775807int) by (nonlinear_arith)
        requires
            0 <= value <= limit,
            factor > 0,
            limit == 9223372036854775807int / factor,
    ;
}

} // verus!
