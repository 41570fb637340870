//! The time-target resolver: turns the run's "AT" token into an absolute
//! instant (minutes since 1970-01-01 00:00 UTC) paired with the UTC
//! offset it was resolved against.  Resolution is deterministic given a
//! fixed "now", which callers inject.

use vstd::prelude::*;
use vstd::string::StrSliceExecFns;
use crate::calendar::civil_minutes;
use crate::calendar::day_number_x;
use crate::calendar::days_in_month_x;
use crate::calendar::valid_civil;
use crate::errors::TimeError;

verus! {

/// An absolute instant plus the UTC offset it was resolved against.
#[derive(Debug, Clone, Copy)]
pub struct TimeTarget {
    /// Minutes since 1970-01-01 00:00 UTC.
    pub epoch_minutes: i64,
    /// Whole-hour UTC offset.
    pub offset_hours: i8,
}

/// Accepted whole-hour UTC offsets.
pub open spec fn valid_offset(h: int) -> bool {
    -24 <= h < 24
}

pub open spec fn is_digit(c: char) -> bool {
    48 <= c as u32 <= 57
}

pub open spec fn digit_val(c: char) -> int {
    c as u32 - 48
}

pub open spec fn all_digits(s: Seq<char>) -> bool {
    forall|i: int| 0 <= i < s.len() ==> is_digit(#[trigger] s[i])
}

/// Numeric value of a digit string, most significant digit first.
pub open spec fn digits_val(s: Seq<char>) -> int
    decreases s.len(),
{
    if s.len() == 0 {
        0
    } else {
        digits_val(s.drop_last()) * 10 + digit_val(s.last())
    }
}

pub proof fn lemma_digits_val_nonneg(s: Seq<char>)
    requires
        all_digits(s),
    ensures
        digits_val(s) >= 0,
    decreases s.len(),
{
    if s.len() > 0 {
        assert(all_digits(s.drop_last()));
        lemma_digits_val_nonneg(s.drop_last());
    }
}

/// The value of a digit string is at least the value of any of its
/// prefixes.
pub proof fn lemma_digits_val_prefix_le(s: Seq<char>, i: int)
    requires
        all_digits(s),
        0 <= i <= s.len(),
    ensures
        digits_val(s.take(i)) <= digits_val(s),
    decreases s.len(),
{
    if i == s.len() {
        assert(s.take(i) =~= s);
    } else {
        assert(all_digits(s.drop_last()));
        lemma_digits_val_prefix_le(s.drop_last(), i);
        assert(s.drop_last().take(i) =~= s.take(i));
        lemma_digits_val_nonneg(s.drop_last());
    }
}

/// A well-formed relative-minutes token: one or more digits whose value
/// is representable in a `u64`.
pub open spec fn minutes_token_ok(s: Seq<char>) -> bool {
    s.len() >= 1 && all_digits(s) && digits_val(s) <= u64::MAX
}

/// Parse a non-negative decimal minute count.  Returns `Some` exactly
/// for well-formed tokens, and then the token's numeric value.
pub fn parse_minutes(s: &str) -> (r: Option<u64>)
    ensures
        (r is Some) <==> minutes_token_ok(s@),
        r matches Some(v) ==> v == digits_val(s@),
{
    let n = s.unicode_len();
    if n == 0 {
        return None;
    }
    let mut acc: u64 = 0;
    let mut i: usize = 0;
    while i < n
        invariant
            0 < n == s@.len(),
            i <= n,
            all_digits(s@.take(i as int)),
            acc == digits_val(s@.take(i as int)),
        decreases n - i,
    {
        let c = s.get_char(i);
        let cu = c as u32;
        proof {
            assert(s@.take(i as int + 1).drop_last() =~= s@.take(i as int));
            assert(s@.take(i as int + 1).last() == s@[i as int]);
        }
        if cu < 48 || cu > 57 {
            proof {
                assert(!is_digit(s@[i as int]));
            }
            return None;
        }
        let d = (cu - 48) as u64;
        if acc > (u64::MAX - d) / 10 {
            proof {
                if all_digits(s@) {
                    lemma_digits_val_prefix_le(s@, i as int + 1);
                    assert(digits_val(s@.take(i as int + 1)) == acc * 10 + d);
                }
            }
            return None;
        }
        acc = acc * 10 + d;
        i = i + 1;
    }
    proof {
        assert(s@.take(n as int) =~= s@);
    }
    Some(acc)
}

pub open spec fn contains_char(s: Seq<char>, c: char) -> bool {
    exists|i: int| 0 <= i < s.len() && s[i] == c
}

/// A token with a colon or a space is read as an absolute date-time.
pub open spec fn datetime_shape(s: Seq<char>) -> bool {
    contains_char(s, ':') || contains_char(s, ' ')
}

pub fn has_char(s: &str, c: char) -> (r: bool)
    ensures
        r == contains_char(s@, c),
{
    let n = s.unicode_len();
    let mut i: usize = 0;
    while i < n
        invariant
            n == s@.len(),
            i <= n,
            forall|j: int| 0 <= j < i ==> s@[j] != c,
        decreases n - i,
    {
        if s.get_char(i) == c {
            return true;
        }
        i = i + 1;
    }
    false
}

pub open spec fn abs_year(s: Seq<char>) -> int {
    digit_val(s[0]) * 1000 + digit_val(s[1]) * 100 + digit_val(s[2]) * 10 + digit_val(s[3])
}

pub open spec fn abs_month(s: Seq<char>) -> int {
    digit_val(s[5]) * 10 + digit_val(s[6])
}

pub open spec fn abs_day(s: Seq<char>) -> int {
    digit_val(s[8]) * 10 + digit_val(s[9])
}

pub open spec fn abs_hour(s: Seq<char>) -> int {
    digit_val(s[11]) * 10 + digit_val(s[12])
}

pub open spec fn abs_minute(s: Seq<char>) -> int {
    digit_val(s[14]) * 10 + digit_val(s[15])
}

/// The fixed `YYYY-MM-DD HH:MM` shape: sixteen characters, digits and
/// separators in their places.
pub open spec fn abs_token_wellformed(s: Seq<char>) -> bool {
    s.len() == 16 && s[4] == '-' && s[7] == '-' && s[10] == ' ' && s[13] == ':' && is_digit(s[0])
        && is_digit(s[1]) && is_digit(s[2]) && is_digit(s[3]) && is_digit(s[5]) && is_digit(s[6])
        && is_digit(s[8]) && is_digit(s[9]) && is_digit(s[11]) && is_digit(s[12]) && is_digit(
        s[14],
    ) && is_digit(s[15])
}

/// A well-formed absolute token that names a real civil instant
/// (years 0000 through 9999).
pub open spec fn abs_token_valid(s: Seq<char>) -> bool {
    abs_token_wellformed(s) && valid_civil(abs_year(s), abs_month(s), abs_day(s)) && abs_hour(s)
        <= 23 && abs_minute(s) <= 59
}

/// Read two decimal digits at position `p`.
fn read_two(s: &str, p: usize) -> (r: Option<u8>)
    requires
        p + 2 <= s@.len(),
        p + 2 <= usize::MAX,
    ensures
        (r is Some) <==> is_digit(s@[p as int]) && is_digit(s@[p as int + 1]),
        r matches Some(v) ==> v == digit_val(s@[p as int]) * 10 + digit_val(s@[p as int + 1]),
{
    let c1 = s.get_char(p) as u32;
    if c1 < 48 || c1 > 57 {
        return None;
    }
    let c2 = s.get_char(p + 1) as u32;
    if c2 < 48 || c2 > 57 {
        return None;
    }
    Some(((c1 - 48) * 10 + (c2 - 48)) as u8)
}

/// Parse an absolute `YYYY-MM-DD HH:MM` token.  Returns `Some` exactly
/// for valid tokens, and then the named civil date-time.
pub fn parse_absolute(s: &str) -> (r: Option<(u16, u8, u8, u8, u8)>)
    ensures
        (r is Some) <==> abs_token_valid(s@),
        r matches Some(t) ==> t.0 == abs_year(s@) && t.1 == abs_month(s@) && t.2 == abs_day(s@)
            && t.3 == abs_hour(s@) && t.4 == abs_minute(s@),
{
    let n = s.unicode_len();
    if n != 16 {
        return None;
    }
    if s.get_char(4) != '-' || s.get_char(7) != '-' || s.get_char(10) != ' ' || s.get_char(13)
        != ':' {
        return None;
    }
    let yh = match read_two(s, 0) {
        Some(v) => v,
        None => {
            return None;
        },
    };
    let yl = match read_two(s, 2) {
        Some(v) => v,
        None => {
            return None;
        },
    };
    let y: u16 = yh as u16 * 100 + yl as u16;
    let mo = match read_two(s, 5) {
        Some(v) => v,
        None => {
            return None;
        },
    };
    let d = match read_two(s, 8) {
        Some(v) => v,
        None => {
            return None;
        },
    };
    let hh = match read_two(s, 11) {
        Some(v) => v,
        None => {
            return None;
        },
    };
    let mi = match read_two(s, 14) {
        Some(v) => v,
        None => {
            return None;
        },
    };
    if mo < 1 || mo > 12 {
        return None;
    }
    if d < 1 || d > days_in_month_x(y, mo) {
        return None;
    }
    if hh > 23 || mi > 59 {
        return None;
    }
    Some((y, mo, d, hh, mi))
}

/// The resolved instant for a token, offset and "now", or the error the
/// resolver reports.  This is the resolver's whole behaviour.
pub open spec fn resolve_epoch_spec(at: Seq<char>, offset: int, now_min: int) -> Result<
    int,
    TimeError,
> {
    if !valid_offset(offset) {
        Err(TimeError::InvalidOffset)
    } else if datetime_shape(at) {
        if abs_token_valid(at) {
            Ok(
                civil_minutes(abs_year(at), abs_month(at), abs_day(at), abs_hour(at), abs_minute(at))
                    - offset * 60,
            )
        } else {
            Err(TimeError::InvalidDateTime)
        }
    } else {
        if minutes_token_ok(at) && now_min + digits_val(at) <= i64::MAX {
            Ok(now_min + digits_val(at))
        } else {
            Err(TimeError::InvalidOffsetMinutes)
        }
    }
}

/// Resolve the run's "AT" token against `now`.  A token with a colon or
/// space is an absolute local date-time in the given offset; otherwise
/// it is a non-negative count of minutes past `now`.
pub fn resolve_target(at: &str, offset_hours: i8, now_epoch_minutes: i64) -> (r: Result<
    TimeTarget,
    TimeError,
>)
    ensures
        (r is Ok) == (resolve_epoch_spec(at@, offset_hours as int, now_epoch_minutes as int)
            is Ok),
        r matches Ok(t) ==> resolve_epoch_spec(at@, offset_hours as int, now_epoch_minutes as int)
            matches Ok(e) && t.epoch_minutes == e && t.offset_hours == offset_hours,
        r matches Err(e) ==> resolve_epoch_spec(at@, offset_hours as int, now_epoch_minutes as int)
            == Err::<int, TimeError>(e),
{
    if offset_hours < -24 || offset_hours >= 24 {
        return Err(TimeError::InvalidOffset);
    }
    if has_char(at, ':') || has_char(at, ' ') {
        match parse_absolute(at) {
            None => Err(TimeError::InvalidDateTime),
            Some((y, mo, d, hh, mi)) => {
                let day: i64 = day_number_x(y, mo, d) as i64;
                let total: i64 = day * 1440 + hh as i64 * 60 + mi as i64;
                let epoch: i64 = total - offset_hours as i64 * 60;
                Ok(TimeTarget { epoch_minutes: epoch, offset_hours })
            },
        }
    } else {
        match parse_minutes(at) {
            None => Err(TimeError::InvalidOffsetMinutes),
            Some(m) => {
                let sum: i128 = now_epoch_minutes as i128 + m as i128;
                if sum > i64::MAX as i128 {
                    Err(TimeError::InvalidOffsetMinutes)
                } else {
                    Ok(TimeTarget { epoch_minutes: sum as i64, offset_hours })
                }
            },
        }
    }
}

/// A relative token resolves to "now" plus its minute count, whatever
/// UTC offset is chosen.
pub proof fn lemma_relative_target_offset_independent(at: Seq<char>, h1: int, h2: int, now: int)
    requires
        !datetime_shape(at),
        valid_offset(h1),
        valid_offset(h2),
    ensures
        resolve_epoch_spec(at, h1, now) == resolve_epoch_spec(at, h2, now),
        minutes_token_ok(at) && now + digits_val(at) <= i64::MAX ==> resolve_epoch_spec(at, h1, now)
            == Ok::<int, TimeError>(now + digits_val(at)),
{
}

/// An absolute token resolves independently of "now", and shifting the
/// UTC offset shifts the resolved instant by exactly the offset
/// difference.
pub proof fn lemma_absolute_target_offset_aware(
    at: Seq<char>,
    h1: int,
    h2: int,
    now1: int,
    now2: int,
)
    requires
        abs_token_valid(at),
        datetime_shape(at),
        valid_offset(h1),
        valid_offset(h2),
    ensures
        resolve_epoch_spec(at, h1, now1) matches Ok(e1) && resolve_epoch_spec(at, h2, now2)
            matches Ok(e2) && e1 - e2 == (h2 - h1) * 60,
{
}

} // verus!
