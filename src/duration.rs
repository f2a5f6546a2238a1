//! Age thresholds written as a whole number followed by a unit: `30s`, `5m`,
//! `24h`, `7d`, `2w`.
use crate::error::CleanError;
use vstd::prelude::*;

verus! {

/// Unicode White_Space, the characters that `str::trim` removes.
pub open spec fn is_space(c: char) -> bool {
    ('\t' <= c && c <= '\r') || c == ' ' || c == '\u{85}' || c == '\u{a0}' || c == '\u{1680}' || (
    '\u{2000}' <= c && c <= '\u{200a}') || c == '\u{2028}' || c == '\u{2029}' || c == '\u{202f}'
        || c == '\u{205f}' || c == '\u{3000}'
}

fn space(c: char) -> (r: bool)
    ensures
        r == is_space(c),
{
    ('\t' <= c && c <= '\r') || c == ' ' || c == '\u{85}' || c == '\u{a0}' || c == '\u{1680}' || (
    '\u{2000}' <= c && c <= '\u{200a}') || c == '\u{2028}' || c == '\u{2029}' || c == '\u{202f}'
        || c == '\u{205f}' || c == '\u{3000}'
}

/// The text without leading and trailing white space.
pub open spec fn trimmed(s: Seq<char>) -> Seq<char>
    decreases s.len(),
{
    if s.len() > 0 && is_space(s[0]) {
        trimmed(s.drop_first())
    } else if s.len() > 0 && is_space(s.last()) {
        trimmed(s.drop_last())
    } else {
        s
    }
}

/// The value of a string of decimal digits.
pub open spec fn digits_value(d: Seq<char>) -> nat
    decreases d.len(),
{
    if d.len() == 0 {
        0
    } else {
        digits_value(d.drop_last()) * 10 + (d.last() as nat - '0' as nat) as nat
    }
}

pub open spec fn all_digits(d: Seq<char>) -> bool {
    forall|i: int| 0 <= i < d.len() ==> '0' <= #[trigger] d[i] && d[i] <= '9'
}

/// The text after an optional leading `+`.
pub open spec fn unsigned_part(s: Seq<char>) -> Seq<char> {
    if s.len() > 0 && s[0] == '+' {
        s.drop_first()
    } else {
        s
    }
}

/// What `u64::from_str` accepts: an optional `+`, then one or more decimal
/// digits whose value fits in a `u64`.
pub open spec fn decimal_u64(s: Seq<char>) -> Option<nat> {
    let d = unsigned_part(s);
    if d.len() > 0 && all_digits(d) && digits_value(d) <= u64::MAX {
        Some(digits_value(d))
    } else {
        None
    }
}

/// Seconds per unit.
pub open spec fn unit_seconds(c: char) -> Option<nat> {
    if c == 's' {
        Some(1)
    } else if c == 'm' {
        Some(60)
    } else if c == 'h' {
        Some(3600)
    } else if c == 'd' {
        Some(86400)
    } else if c == 'w' {
        Some(604800)
    } else {
        None
    }
}

/// The number of seconds a duration text stands for: after trimming, a
/// number and a one-character unit, with a product that fits in a `u64`.
pub open spec fn duration_secs(s: Seq<char>) -> Option<nat> {
    let t = trimmed(s);
    if t.len() == 0 {
        None
    } else {
        match (decimal_u64(t.take(t.len() - 1)), unit_seconds(t.last())) {
            (Some(n), Some(m)) => if n * m <= u64::MAX {
                Some(n * m)
            } else {
                None
            },
            _ => None,
        }
    }
}

proof fn lemma_digits_mono(d: Seq<char>, k: int)
    requires
        0 <= k <= d.len(),
    ensures
        digits_value(d.take(k)) <= digits_value(d),
    decreases d.len() - k,
{
    if k < d.len() {
        lemma_digits_mono(d, k + 1);
        assert(d.take(k + 1).drop_last() =~= d.take(k));
        assert(digits_value(d.take(k + 1)) >= digits_value(d.take(k)) * 10);
    } else {
        assert(d.take(k) =~= d);
    }
}

/// Parses an unsigned decimal number as `u64::from_str` does.
fn parse_decimal(s: &str) -> (r: Option<u64>)
    ensures
        match r {
            Some(v) => decimal_u64(s@) == Some(v as nat),
            None => decimal_u64(s@) is None,
        },
{
    let n = s.unicode_len();
    let start: usize = if n > 0 && s.get_char(0) == '+' {
        1
    } else {
        0
    };
    let ghost d = if start == 1 {
        s@.drop_first()
    } else {
        s@
    };
    assert(d =~= s@.subrange(start as int, n as int));
    if start == n {
        return None;
    }
    let mut v: u64 = 0;
    let mut i: usize = start;
    while i < n
        invariant
            start <= i <= n,
            n == s@.len(),
            d == s@.subrange(start as int, n as int),
            d == unsigned_part(s@),
            all_digits(d.take(i - start)),
            v as nat == digits_value(d.take(i - start)),
        decreases n - i,
    {
        let c = s.get_char(i);
        assert(d[i - start] == c);
        if c < '0' || c > '9' {
            assert(!all_digits(d));
            return None;
        }
        let digit = (c as u32 - '0' as u32) as u64;
        assert(d.take(i - start + 1).drop_last() =~= d.take(i - start));
        assert(d.take(i - start + 1).last() == c);
        assert(digits_value(d.take(i - start + 1)) == v * 10 + digit);
        if v > (u64::MAX - digit) / 10 {
            proof {
                assert(v * 10 + digit > u64::MAX) by (nonlinear_arith)
                    requires
                        v > (u64::MAX - digit) / 10,
                        digit <= 9,
                ;
                lemma_digits_mono(d, i - start + 1);
            }
            return None;
        }
        proof {
            assert(v * 10 + digit <= u64::MAX) by (nonlinear_arith)
                requires
                    v <= (u64::MAX - digit) / 10,
                    digit <= 9,
            ;
        }
        v = v * 10 + digit;
        i += 1;
        assert(all_digits(d.take(i - start))) by {
            assert forall|j: int| 0 <= j < i - start implies '0' <= #[trigger] d.take(
                i - start,
            )[j] && d.take(i - start)[j] <= '9' by {
                if j < i - start - 1 {
                    assert(d.take(i - start)[j] == d.take(i - start - 1)[j]);
                }
            }
        }
    }
    assert(d.take(n - start) =~= d);
    Some(v)
}

fn unit_multiplier(c: char) -> (r: Option<u64>)
    ensures
        match r {
            Some(m) => unit_seconds(c) == Some(m as nat),
            None => unit_seconds(c) is None,
        },
{
    if c == 's' {
        Some(1)
    } else if c == 'm' {
        Some(60)
    } else if c == 'h' {
        Some(3600)
    } else if c == 'd' {
        Some(86400)
    } else if c == 'w' {
        Some(604800)
    } else {
        None
    }
}

/// The text with leading and trailing white space removed.
pub fn trim_spaces(s: &str) -> (r: &str)
    ensures
        r@ == trimmed(s@),
{
    let n = s.unicode_len();
    let mut lo: usize = 0;
    let mut hi: usize = n;
    assert(s@.subrange(0, n as int) =~= s@);
    while lo < hi
        invariant
            lo <= hi <= n,
            n == s@.len(),
            trimmed(s@.subrange(lo as int, hi as int)) == trimmed(s@),
        ensures
            lo <= hi <= n,
            trimmed(s@.subrange(lo as int, hi as int)) == trimmed(s@),
            trimmed(s@.subrange(lo as int, hi as int)) == s@.subrange(lo as int, hi as int),
        decreases hi - lo,
    {
        let ghost t = s@.subrange(lo as int, hi as int);
        if space(s.get_char(lo)) {
            assert(t.drop_first() =~= s@.subrange(lo + 1, hi as int));
            lo += 1;
        } else if space(s.get_char(hi - 1)) {
            assert(t.drop_last() =~= s@.subrange(lo as int, hi - 1));
            hi -= 1;
        } else {
            assert(trimmed(t) == t);
            break;
        }
    }
    s.substring_char(lo, hi)
}

/// Parses a duration such as `30d`, `7d`, `24h` or `3600s` into seconds:
/// surrounding white space is ignored, and the last character is the unit
/// (`s`, `m`, `h`, `d` or `w`) of the number before it. Fails with a
/// configuration error on an empty text, a number that is not an unsigned
/// decimal, an unknown unit, or a product beyond `u64`.
pub fn parse_duration(duration: &str) -> (r: Result<u64, CleanError>)
    ensures
        match r {
            Ok(v) => duration_secs(duration@) == Some(v as nat),
            Err(e) => duration_secs(duration@) is None && e is ConfigError,
        },
{
    let t = trim_spaces(duration);
    let n = t.unicode_len();
    if n == 0 {
        return Err(CleanError::ConfigError(String::from_str("Duration cannot be empty")));
    }
    let num_part = t.substring_char(0, n - 1);
    let unit = t.get_char(n - 1);
    assert(num_part@ =~= t@.take(n - 1));
    let number = match parse_decimal(num_part) {
        Some(v) => v,
        None => {
            let mut msg = String::from_str("Invalid number in duration: ");
            msg.append(num_part);
            return Err(CleanError::ConfigError(msg));
        },
    };
    let multiplier = match unit_multiplier(unit) {
        Some(m) => m,
        None => {
            return Err(
                CleanError::ConfigError(
                    String::from_str("Invalid duration unit. Use 's', 'm', 'h', 'd', or 'w'"),
                ),
            );
        },
    };
    match number.checked_mul(multiplier) {
        Some(v) => Ok(v),
        None => Err(CleanError::ConfigError(String::from_str("Duration is too large"))),
    }
}

} // verus!
