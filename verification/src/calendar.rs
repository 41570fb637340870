//! Civil (proleptic Gregorian) calendar arithmetic on plain integers,
//! and rendering of a civil date-time through a small strftime-style
//! pattern language.  Days are counted from 1970-01-01 (day number 0,
//! negative before); civil dates span the years 0000 through 9999.

use vstd::prelude::*;
use vstd::string::StrSliceExecFns;
use crate::errors::PatternError;
use crate::text::push_char;

verus! {

pub open spec fn is_leap_year(y: int) -> bool {
    (y % 4 == 0 && y % 100 != 0) || y % 400 == 0
}

pub open spec fn days_in_month(y: int, m: int) -> int {
    if m == 2 {
        if is_leap_year(y) {
            29
        } else {
            28
        }
    } else if m == 4 || m == 6 || m == 9 || m == 11 {
        30
    } else {
        31
    }
}

pub open spec fn days_in_year(y: int) -> int {
    if is_leap_year(y) {
        366
    } else {
        365
    }
}

/// Days in year `y` before the first of month `m`.
pub open spec fn days_before_month(y: int, m: int) -> int
    decreases m,
{
    if m <= 1 {
        0
    } else {
        days_before_month(y, m - 1) + days_in_month(y, m - 1)
    }
}

/// Days between 1970-01-01 and the first day of year `y`: 0 for 1970,
/// negative for earlier years.
pub open spec fn days_before_year(y: int) -> int
    decreases
            if y >= 1970 {
                y - 1970
            } else {
                1970 - y
            },
{
    if y == 1970 {
        0
    } else if y > 1970 {
        days_before_year(y - 1) + days_in_year(y - 1)
    } else {
        days_before_year(y + 1) - days_in_year(y)
    }
}

pub open spec fn valid_civil(y: int, m: int, d: int) -> bool {
    0 <= y <= 9999 && 1 <= m <= 12 && 1 <= d <= days_in_month(y, m)
}

/// Day number of the civil date `y-m-d`: days since 1970-01-01.
pub open spec fn day_number(y: int, m: int, d: int) -> int {
    days_before_year(y) + days_before_month(y, m) + (d - 1)
}

/// Minutes since 1970-01-01 00:00 of the civil instant `y-m-d hh:mi`.
pub open spec fn civil_minutes(y: int, m: int, d: int, hh: int, mi: int) -> int {
    day_number(y, m, d) * 1440 + hh * 60 + mi
}

/// The months of a year account for all of its days.
pub proof fn lemma_days_before_month_full_year(y: int)
    ensures
        days_before_month(y, 13) == days_in_year(y),
{
    reveal_with_fuel(days_before_month, 14);
}

/// `days_before_year` never decreases as the year grows.
pub proof fn lemma_days_before_year_monotone(y1: int, y2: int)
    requires
        y1 <= y2,
    ensures
        days_before_year(y1) <= days_before_year(y2),
    decreases y2 - y1,
{
    if y1 < y2 {
        lemma_days_before_year_monotone(y1, y2 - 1);
    }
}

/// `days_before_year` grows at most 366 per year above 1970.
pub proof fn lemma_days_before_year_bound(y: int)
    requires
        y >= 1970,
    ensures
        0 <= days_before_year(y) <= 366 * (y - 1970),
    decreases y - 1970,
{
    if y > 1970 {
        lemma_days_before_year_bound(y - 1);
    }
}

/// Below 1970, `days_before_year` is negative by at most 366 per year.
pub proof fn lemma_days_before_year_lower_bound(y: int)
    requires
        y <= 1970,
    ensures
        -366 * (1970 - y) <= days_before_year(y) <= 0,
    decreases 1970 - y,
{
    if y < 1970 {
        lemma_days_before_year_lower_bound(y + 1);
    }
}

/// `days_before_month` stays within a year's worth of days.
pub proof fn lemma_days_before_month_bound(y: int, m: int)
    requires
        1 <= m <= 13,
    ensures
        0 <= days_before_month(y, m) <= 31 * (m - 1),
    decreases m,
{
    if m > 1 {
        lemma_days_before_month_bound(y, m - 1);
    }
}

pub fn is_leap_year_x(y: u16) -> (r: bool)
    ensures
        r == is_leap_year(y as int),
{
    (y % 4 == 0 && y % 100 != 0) || y % 400 == 0
}

pub fn days_in_month_x(y: u16, m: u8) -> (r: u8)
    requires
        1 <= m <= 12,
    ensures
        r == days_in_month(y as int, m as int),
{
    if m == 2 {
        if is_leap_year_x(y) {
            29
        } else {
            28
        }
    } else if m == 4 || m == 6 || m == 9 || m == 11 {
        30
    } else {
        31
    }
}

pub fn days_in_year_x(y: u16) -> (r: u16)
    ensures
        r == days_in_year(y as int),
{
    if is_leap_year_x(y) {
        366
    } else {
        365
    }
}

/// Day number of a valid civil date, as an executable computation.
/// Negative for dates before 1970.
pub fn day_number_x(y: u16, m: u8, d: u8) -> (r: i32)
    requires
        valid_civil(y as int, m as int, d as int),
    ensures
        r == day_number(y as int, m as int, d as int),
{
    let mut acc: i32 = 0;
    if y >= 1970 {
        let mut yy: u16 = 1970;
        while yy < y
            invariant
                1970 <= yy <= y,
                y <= 9999,
                acc == days_before_year(yy as int),
                0 <= acc <= 366 * ((yy - 1970) as int),
            decreases y - yy,
        {
            acc = acc + days_in_year_x(yy) as i32;
            yy = yy + 1;
        }
    } else {
        let mut yy: u16 = y;
        while yy < 1970
            invariant
                y <= yy <= 1970,
                acc == days_before_year(y as int) - days_before_year(yy as int),
                -366 * ((yy - y) as int) <= acc <= 0,
            decreases 1970 - yy,
        {
            acc = acc - days_in_year_x(yy) as i32;
            yy = yy + 1;
        }
    }
    proof {
        if y >= 1970 {
            lemma_days_before_year_bound(y as int);
        } else {
            lemma_days_before_year_lower_bound(y as int);
        }
    }
    let mut mm: u8 = 1;
    let mut macc: i32 = 0;
    while mm < m
        invariant
            1 <= mm <= m,
            m <= 12,
            y <= 9999,
            acc == days_before_year(y as int),
            -366 * 1970 <= acc <= 366 * 8029,
            macc == days_before_month(y as int, mm as int),
            0 <= macc <= 372,
        decreases m - mm,
    {
        proof {
            lemma_days_before_month_bound(y as int, mm as int + 1);
        }
        macc = macc + days_in_month_x(y, mm) as i32;
        mm = mm + 1;
    }
    acc + macc + (d - 1) as i32
}

/// Civil date of a day number, when one exists in the supported range.
/// Returns `None` exactly when `z` lies beyond 9999-12-31.
pub fn civil_from_day_number(z: u64) -> (r: Option<(u16, u8, u8)>)
    ensures
        r matches Some(t) ==> valid_civil(t.0 as int, t.1 as int, t.2 as int) && day_number(
            t.0 as int,
            t.1 as int,
            t.2 as int,
        ) == z,
        r is None <==> z >= days_before_year(10000),
{
    let mut yy: u16 = 1970;
    let mut rem: u64 = z;
    let mut dy: u16 = days_in_year_x(yy);
    while yy < 10000 && rem >= dy as u64
        invariant
            1970 <= yy <= 10000,
            days_before_year(yy as int) + rem == z,
            dy == days_in_year(yy as int),
        decreases 10000 - yy,
    {
        rem = rem - dy as u64;
        yy = yy + 1;
        dy = days_in_year_x(yy);
    }
    if yy >= 10000 {
        proof {
            lemma_days_before_year_monotone(10000, yy as int);
        }
        return None;
    }
    let y: u16 = yy;
    proof {
        lemma_days_before_year_monotone(y as int + 1, 10000);
    }
    let mut mm: u8 = 1;
    let mut dm: u8 = days_in_month_x(y, mm);
    while mm < 12 && rem >= dm as u64
        invariant
            1 <= mm <= 12,
            1970 <= y <= 9999,
            dm == days_in_month(y as int, mm as int),
            days_before_year(y as int) + days_before_month(y as int, mm as int) + rem == z,
            days_before_month(y as int, mm as int) + rem < days_in_year(y as int),
        decreases 12 - mm,
    {
        rem = rem - dm as u64;
        mm = mm + 1;
        dm = days_in_month_x(y, mm);
    }
    proof {
        if mm == 12 {
            lemma_days_before_month_full_year(y as int);
        }
    }
    Some((y, mm, (rem + 1) as u8))
}

pub open spec fn digit_char(n: int) -> char {
    if n == 0 {
        '0'
    } else if n == 1 {
        '1'
    } else if n == 2 {
        '2'
    } else if n == 3 {
        '3'
    } else if n == 4 {
        '4'
    } else if n == 5 {
        '5'
    } else if n == 6 {
        '6'
    } else if n == 7 {
        '7'
    } else if n == 8 {
        '8'
    } else {
        '9'
    }
}

/// Two-digit zero-padded decimal rendering, for 0 <= n < 100.
pub open spec fn two_digits(n: int) -> Seq<char> {
    seq![digit_char(n / 10), digit_char(n % 10)]
}

/// Four-digit zero-padded decimal rendering, for 0 <= n < 10000.
pub open spec fn four_digits(n: int) -> Seq<char> {
    seq![
        digit_char(n / 1000),
        digit_char((n / 100) % 10),
        digit_char((n / 10) % 10),
        digit_char(n % 10),
    ]
}

fn digit_char_x(n: u32) -> (r: char)
    requires
        n <= 9,
    ensures
        r == digit_char(n as int),
{
    if n == 0 {
        '0'
    } else if n == 1 {
        '1'
    } else if n == 2 {
        '2'
    } else if n == 3 {
        '3'
    } else if n == 4 {
        '4'
    } else if n == 5 {
        '5'
    } else if n == 6 {
        '6'
    } else if n == 7 {
        '7'
    } else if n == 8 {
        '8'
    } else {
        '9'
    }
}

fn push_two_digits(out: &mut String, n: u32)
    requires
        n < 100,
    ensures
        final(out)@ == old(out)@ + two_digits(n as int),
{
    push_char(out, digit_char_x(n / 10));
    push_char(out, digit_char_x(n % 10));
    proof {
        assert(final(out)@ =~= old(out)@ + two_digits(n as int));
    }
}

fn push_four_digits(out: &mut String, n: u32)
    requires
        n < 10000,
    ensures
        final(out)@ == old(out)@ + four_digits(n as int),
{
    push_char(out, digit_char_x(n / 1000));
    push_char(out, digit_char_x((n / 100) % 10));
    push_char(out, digit_char_x((n / 10) % 10));
    push_char(out, digit_char_x(n % 10));
    proof {
        assert(final(out)@ =~= old(out)@ + four_digits(n as int));
    }
}

/// The month's conventional three-letter abbreviation.
pub open spec fn month_abbrev(mo: int) -> Seq<char> {
    if mo == 1 {
        "Jan"@
    } else if mo == 2 {
        "Feb"@
    } else if mo == 3 {
        "Mar"@
    } else if mo == 4 {
        "Apr"@
    } else if mo == 5 {
        "May"@
    } else if mo == 6 {
        "Jun"@
    } else if mo == 7 {
        "Jul"@
    } else if mo == 8 {
        "Aug"@
    } else if mo == 9 {
        "Sep"@
    } else if mo == 10 {
        "Oct"@
    } else if mo == 11 {
        "Nov"@
    } else {
        "Dec"@
    }
}

/// The month's full English name.
pub open spec fn month_name(mo: int) -> Seq<char> {
    if mo == 1 {
        "January"@
    } else if mo == 2 {
        "February"@
    } else if mo == 3 {
        "March"@
    } else if mo == 4 {
        "April"@
    } else if mo == 5 {
        "May"@
    } else if mo == 6 {
        "June"@
    } else if mo == 7 {
        "July"@
    } else if mo == 8 {
        "August"@
    } else if mo == 9 {
        "September"@
    } else if mo == 10 {
        "October"@
    } else if mo == 11 {
        "November"@
    } else {
        "December"@
    }
}

/// What one `%`-specifier expands to, or `None` if it is not supported.
pub open spec fn expand_spec(c: char, y: int, mo: int, d: int, hh: int, mi: int) -> Option<
    Seq<char>,
> {
    if c == 'Y' {
        Some(four_digits(y))
    } else if c == 'y' {
        Some(two_digits(y % 100))
    } else if c == 'm' {
        Some(two_digits(mo))
    } else if c == 'b' {
        Some(month_abbrev(mo))
    } else if c == 'B' {
        Some(month_name(mo))
    } else if c == 'd' {
        Some(two_digits(d))
    } else if c == 'e' {
        if d < 10 {
            Some(seq![' ', digit_char(d)])
        } else {
            Some(two_digits(d))
        }
    } else if c == 'H' {
        Some(two_digits(hh))
    } else if c == 'M' {
        Some(two_digits(mi))
    } else if c == 'F' {
        Some(four_digits(y) + seq!['-'] + two_digits(mo) + seq!['-'] + two_digits(d))
    } else if c == 'R' {
        Some(two_digits(hh) + seq![':'] + two_digits(mi))
    } else if c == '%' {
        Some(seq!['%'])
    } else {
        None
    }
}

fn push_month_abbrev(out: &mut String, mo: u8)
    ensures
        final(out)@ == old(out)@ + month_abbrev(mo as int),
{
    if mo == 1 {
        out.append("Jan");
    } else if mo == 2 {
        out.append("Feb");
    } else if mo == 3 {
        out.append("Mar");
    } else if mo == 4 {
        out.append("Apr");
    } else if mo == 5 {
        out.append("May");
    } else if mo == 6 {
        out.append("Jun");
    } else if mo == 7 {
        out.append("Jul");
    } else if mo == 8 {
        out.append("Aug");
    } else if mo == 9 {
        out.append("Sep");
    } else if mo == 10 {
        out.append("Oct");
    } else if mo == 11 {
        out.append("Nov");
    } else {
        out.append("Dec");
    }
}

fn push_month_name(out: &mut String, mo: u8)
    ensures
        final(out)@ == old(out)@ + month_name(mo as int),
{
    if mo == 1 {
        out.append("January");
    } else if mo == 2 {
        out.append("February");
    } else if mo == 3 {
        out.append("March");
    } else if mo == 4 {
        out.append("April");
    } else if mo == 5 {
        out.append("May");
    } else if mo == 6 {
        out.append("June");
    } else if mo == 7 {
        out.append("July");
    } else if mo == 8 {
        out.append("August");
    } else if mo == 9 {
        out.append("September");
    } else if mo == 10 {
        out.append("October");
    } else if mo == 11 {
        out.append("November");
    } else {
        out.append("December");
    }
}

fn push_expansion(out: &mut String, c: char, y: u16, mo: u8, d: u8, hh: u8, mi: u8) -> (ok: bool)
    requires
        y <= 9999,
        mo <= 12,
        d <= 31,
        hh < 24,
        mi < 60,
    ensures
        ok == (expand_spec(c, y as int, mo as int, d as int, hh as int, mi as int) is Some),
        ok ==> (expand_spec(c, y as int, mo as int, d as int, hh as int, mi as int) matches Some(e)
            && final(out)@ == old(out)@ + e),
        !ok ==> final(out)@ == old(out)@,
{
    if c == 'Y' {
        push_four_digits(out, y as u32);
        true
    } else if c == 'y' {
        push_two_digits(out, (y % 100) as u32);
        true
    } else if c == 'm' {
        push_two_digits(out, mo as u32);
        true
    } else if c == 'b' {
        push_month_abbrev(out, mo);
        true
    } else if c == 'B' {
        push_month_name(out, mo);
        true
    } else if c == 'd' {
        push_two_digits(out, d as u32);
        true
    } else if c == 'e' {
        if d < 10 {
            push_char(out, ' ');
            push_char(out, digit_char_x(d as u32));
            proof {
                assert(final(out)@ =~= old(out)@ + seq![' ', digit_char(d as int)]);
            }
        } else {
            push_two_digits(out, d as u32);
        }
        true
    } else if c == 'H' {
        push_two_digits(out, hh as u32);
        true
    } else if c == 'M' {
        push_two_digits(out, mi as u32);
        true
    } else if c == 'F' {
        push_four_digits(out, y as u32);
        push_char(out, '-');
        push_two_digits(out, mo as u32);
        push_char(out, '-');
        push_two_digits(out, d as u32);
        proof {
            assert(final(out)@ =~= old(out)@ + (four_digits(y as int) + seq!['-'] + two_digits(
                mo as int,
            ) + seq!['-'] + two_digits(d as int)));
        }
        true
    } else if c == 'R' {
        push_two_digits(out, hh as u32);
        push_char(out, ':');
        push_two_digits(out, mi as u32);
        proof {
            assert(final(out)@ =~= old(out)@ + (two_digits(hh as int) + seq![':'] + two_digits(
                mi as int,
            )));
        }
        true
    } else if c == '%' {
        push_char(out, '%');
        true
    } else {
        false
    }
}

/// Rendering of a pattern over a civil date-time.  Ordinary characters
/// stand for themselves; `%` introduces a specifier; `None` means the
/// pattern is malformed (unknown specifier, or a trailing `%`).
pub open spec fn render_pattern_spec(
    p: Seq<char>,
    y: int,
    mo: int,
    d: int,
    hh: int,
    mi: int,
) -> Option<Seq<char>>
    decreases p.len(),
{
    if p.len() == 0 {
        Some(Seq::empty())
    } else if p[0] == '%' {
        if p.len() == 1 {
            None
        } else {
            match (expand_spec(p[1], y, mo, d, hh, mi), render_pattern_spec(
                p.skip(2),
                y,
                mo,
                d,
                hh,
                mi,
            )) {
                (Some(e), Some(rest)) => Some(e + rest),
                _ => None,
            }
        }
    } else {
        match render_pattern_spec(p.skip(1), y, mo, d, hh, mi) {
            Some(rest) => Some(seq![p[0]] + rest),
            None => None,
        }
    }
}

/// `Some(pre + r)` when `o` is `Some(r)`, else `None`.
pub open spec fn opt_prepend(pre: Seq<char>, o: Option<Seq<char>>) -> Option<Seq<char>> {
    match o {
        Some(r) => Some(pre + r),
        None => None,
    }
}

proof fn lemma_opt_prepend_assoc(a: Seq<char>, b: Seq<char>, o: Option<Seq<char>>)
    ensures
        opt_prepend(a, opt_prepend(b, o)) == opt_prepend(a + b, o),
{
    if o is Some {
        assert(a + (b + o.unwrap()) =~= (a + b) + o.unwrap());
    }
}

/// Render `pattern` over the given valid civil date-time.  Fails with
/// `InvalidPattern` exactly when the pattern is malformed.
pub fn render_pattern(pattern: &str, y: u16, mo: u8, d: u8, hh: u8, mi: u8) -> (r: Result<
    String,
    PatternError,
>)
    requires
        valid_civil(y as int, mo as int, d as int),
        hh < 24,
        mi < 60,
    ensures
        r matches Ok(s) ==> render_pattern_spec(
            pattern@,
            y as int,
            mo as int,
            d as int,
            hh as int,
            mi as int,
        ) == Some(s@),
        r is Err <==> render_pattern_spec(
            pattern@,
            y as int,
            mo as int,
            d as int,
            hh as int,
            mi as int,
        ) is None,
{
    let ghost gy: int = y as int;
    let ghost gmo: int = mo as int;
    let ghost gd: int = d as int;
    let ghost ghh: int = hh as int;
    let ghost gmi: int = mi as int;
    let ghost whole: Option<Seq<char>> = render_pattern_spec(pattern@, gy, gmo, gd, ghh, gmi);
    let n = pattern.unicode_len();
    let mut out = String::new();
    proof {
        assert(pattern@.skip(0) =~= pattern@);
        lemma_opt_prepend_assoc(Seq::empty(), Seq::empty(), whole);
        if whole is Some {
            assert(Seq::<char>::empty() + whole.unwrap() =~= whole.unwrap());
        }
    }
    let mut i: usize = 0;
    while i < n
        invariant
            n == pattern@.len(),
            i <= n,
            valid_civil(gy, gmo, gd),
            gy == y as int && gmo == mo as int && gd == d as int,
            ghh == hh as int && gmi == mi as int,
            hh < 24,
            mi < 60,
            whole == render_pattern_spec(pattern@, gy, gmo, gd, ghh, gmi),
            whole == opt_prepend(
                out@,
                render_pattern_spec(pattern@.skip(i as int), gy, gmo, gd, ghh, gmi),
            ),
        decreases n - i,
    {
        let ghost tail: Seq<char> = pattern@.skip(i as int);
        let ghost pre: Seq<char> = out@;
        let c = pattern.get_char(i);
        proof {
            assert(tail[0] == pattern@[i as int]);
        }
        if c == '%' {
            if i + 1 >= n {
                proof {
                    assert(tail.len() == 1);
                }
                return Err(PatternError::InvalidPattern);
            }
            let s = pattern.get_char(i + 1);
            proof {
                assert(tail[1] == pattern@[i as int + 1]);
                assert(tail.skip(2) =~= pattern@.skip(i as int + 2));
            }
            let ok = push_expansion(&mut out, s, y, mo, d, hh, mi);
            if !ok {
                return Err(PatternError::InvalidPattern);
            }
            proof {
                let e = expand_spec(s, gy, gmo, gd, ghh, gmi).unwrap();
                let rest = render_pattern_spec(pattern@.skip(i as int + 2), gy, gmo, gd, ghh, gmi);
                assert(render_pattern_spec(tail, gy, gmo, gd, ghh, gmi) == opt_prepend(e, rest));
                lemma_opt_prepend_assoc(pre, e, rest);
            }
            i = i + 2;
        } else {
            push_char(&mut out, c);
            proof {
                assert(tail.skip(1) =~= pattern@.skip(i as int + 1));
                let rest = render_pattern_spec(pattern@.skip(i as int + 1), gy, gmo, gd, ghh, gmi);
                assert(render_pattern_spec(tail, gy, gmo, gd, ghh, gmi) == opt_prepend(
                    seq![c],
                    rest,
                ));
                lemma_opt_prepend_assoc(pre, seq![c], rest);
            }
            i = i + 1;
        }
    }
    proof {
        assert(pattern@.skip(n as int) =~= Seq::<char>::empty());
        assert(out@ + Seq::<char>::empty() =~= out@);
    }
    Ok(out)
}

} // verus!
