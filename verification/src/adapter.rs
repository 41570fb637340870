//! The event-source adapter's computational half: turning a resolved
//! target into the civil date-time the external calendar tool expects,
//! and building the tool's full argument list.  Invoking the tool and
//! parsing its output stay outside the verified core.

use vstd::prelude::*;
use vstd::string::StringExecFns;
use crate::calendar::civil_from_day_number;
use crate::calendar::civil_minutes;
use crate::calendar::days_before_year;
use crate::calendar::render_pattern;
use crate::calendar::render_pattern_spec;
use crate::calendar::valid_civil;
use crate::errors::QueryError;
use crate::resolver::TimeTarget;

verus! {

/// A civil date-time in the supported range, with minute precision.
#[derive(Debug, Clone, Copy)]
pub struct CivilDateTime {
    pub year: u16,
    pub month: u8,
    pub day: u8,
    pub hour: u8,
    pub minute: u8,
}

impl CivilDateTime {
    pub open spec fn wf(self) -> bool {
        valid_civil(self.year as int, self.month as int, self.day as int) && self.hour < 24
            && self.minute < 60
    }

    /// Minutes since 1970-01-01 00:00 of this civil instant.
    pub open spec fn minutes(self) -> int {
        civil_minutes(
            self.year as int,
            self.month as int,
            self.day as int,
            self.hour as int,
            self.minute as int,
        )
    }
}

/// Local minutes of a target: its instant shifted into its UTC offset.
pub open spec fn target_local_minutes(t: TimeTarget) -> int {
    t.epoch_minutes + t.offset_hours * 60
}

pub open spec fn target_renderable(t: TimeTarget) -> bool {
    0 <= target_local_minutes(t) < days_before_year(10000) * 1440
}

/// The civil date-time a target falls on in its own UTC offset.
/// Fails exactly when the local instant lies before 1970 or after 9999.
pub fn target_civil(t: &TimeTarget) -> (r: Result<CivilDateTime, QueryError>)
    ensures
        (r is Ok) <==> target_renderable(*t),
        r matches Ok(c) ==> c.wf() && c.minutes() == target_local_minutes(*t),
        r matches Err(e) ==> e == QueryError::TargetOutOfRange,
{
    let local: i128 = t.epoch_minutes as i128 + t.offset_hours as i128 * 60;
    if local < 0 {
        return Err(QueryError::TargetOutOfRange);
    }
    let z: u64 = (local as u64) / 1440;
    let rem: u64 = (local as u64) % 1440;
    match civil_from_day_number(z) {
        None => {
            proof {
                assert(local == 1440 * (local as int / 1440) + local as int % 1440) by {
                    vstd::arithmetic::div_mod::lemma_fundamental_div_mod(local as int, 1440);
                }
                assert(local >= days_before_year(10000) * 1440);
            }
            Err(QueryError::TargetOutOfRange)
        },
        Some((y, mo, d)) => {
            let hh: u8 = (rem / 60) as u8;
            let mi: u8 = (rem % 60) as u8;
            let c = CivilDateTime { year: y, month: mo, day: d, hour: hh, minute: mi };
            proof {
                assert(local == 1440 * (local as int / 1440) + local as int % 1440) by {
                    vstd::arithmetic::div_mod::lemma_fundamental_div_mod(local as int, 1440);
                }
                assert(local < days_before_year(10000) * 1440);
            }
            Ok(c)
        },
    }
}

/// The external tool's argument list: configuration, the rendered
/// target, a not-yet-started filter, and a request for structured
/// output restricted to the five event fields.
pub open spec fn khal_args_spec(config: Seq<char>, ds: Seq<char>, ts: Seq<char>) -> Seq<
    Seq<char>,
> {
    seq![
        "--config"@,
        config,
        "at"@,
        ds,
        ts,
        "--notstarted"@,
        "--json"@,
        "title"@,
        "--json"@,
        "description"@,
        "--json"@,
        "start-end-time-style"@,
        "--json"@,
        "repeat-symbol"@,
        "--json"@,
        "all-day"@,
    ]
}

/// Build the calendar tool's argument list for a civil target, with the
/// date and time rendered through the caller's display patterns.  Fails
/// exactly when a pattern is malformed.
pub fn build_khal_args(
    config: &str,
    date_pattern: &str,
    time_pattern: &str,
    c: &CivilDateTime,
) -> (r: Result<Vec<String>, QueryError>)
    requires
        c.wf(),
    ensures
        r matches Ok(args) ==> render_pattern_spec(
            date_pattern@,
            c.year as int,
            c.month as int,
            c.day as int,
            c.hour as int,
            c.minute as int,
        ) matches Some(ds) && render_pattern_spec(
            time_pattern@,
            c.year as int,
            c.month as int,
            c.day as int,
            c.hour as int,
            c.minute as int,
        ) matches Some(ts) && args@.map_values(|s: String| s@) == khal_args_spec(config@, ds, ts),
        r is Err <==> (render_pattern_spec(
            date_pattern@,
            c.year as int,
            c.month as int,
            c.day as int,
            c.hour as int,
            c.minute as int,
        ) is None || render_pattern_spec(
            time_pattern@,
            c.year as int,
            c.month as int,
            c.day as int,
            c.hour as int,
            c.minute as int,
        ) is None),
        r matches Err(e) ==> e == QueryError::InvalidPattern,
{
    let ds = match render_pattern(date_pattern, c.year, c.month, c.day, c.hour, c.minute) {
        Ok(s) => s,
        Err(_) => {
            return Err(QueryError::InvalidPattern);
        },
    };
    let ts = match render_pattern(time_pattern, c.year, c.month, c.day, c.hour, c.minute) {
        Ok(s) => s,
        Err(_) => {
            return Err(QueryError::InvalidPattern);
        },
    };
    let mut args: Vec<String> = Vec::new();
    args.push(String::from_str("--config"));
    args.push(String::from_str(config));
    args.push(String::from_str("at"));
    args.push(ds);
    args.push(ts);
    args.push(String::from_str("--notstarted"));
    args.push(String::from_str("--json"));
    args.push(String::from_str("title"));
    args.push(String::from_str("--json"));
    args.push(String::from_str("description"));
    args.push(String::from_str("--json"));
    args.push(String::from_str("start-end-time-style"));
    args.push(String::from_str("--json"));
    args.push(String::from_str("repeat-symbol"));
    args.push(String::from_str("--json"));
    args.push(String::from_str("all-day"));
    proof {
        assert(args@.map_values(|s: String| s@) =~= khal_args_spec(
            config@,
            render_pattern_spec(
                date_pattern@,
                c.year as int,
                c.month as int,
                c.day as int,
                c.hour as int,
                c.minute as int,
            ).unwrap(),
            render_pattern_spec(
                time_pattern@,
                c.year as int,
                c.month as int,
                c.day as int,
                c.hour as int,
                c.minute as int,
            ).unwrap(),
        ));
    }
    Ok(args)
}

} // verus!
