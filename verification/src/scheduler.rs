//! Schedules of background jobs: `every N <unit>` intervals and cron
//! expressions, and how a job runs from its configuration.
use vstd::prelude::*;
use std::str::FromStr;

use crate::text::{
    all_digits, cat, chars_of, decimal, digits_value, parse_unsigned, parse_unsigned_str,
    split_words, str_eq, str_strip_prefix, unsigned_body, words,
};

verus! {

#[verifier::external_type_specification]
#[verifier::external_body]
pub struct ExSchedule(cron::Schedule);

/// A delay between runs: whole seconds and the nanoseconds beyond them.
#[derive(Debug, Clone, Copy, PartialEq, Eq, Structural)]
pub struct Interval {
    pub secs: u64,
    pub nanos: u32,
}

/// Where a job's completion is reported.
#[derive(Debug, Clone, Copy, PartialEq, Eq, Structural)]
pub enum OutputMode {
    Stdout,
    Silent,
}

/// Whether a cron expression is accepted by the `cron` crate.
pub uninterp spec fn cron_accepts(expr: Seq<char>) -> bool;

/// `cron::Schedule::from_str`: succeeds exactly on the expressions the crate
/// accepts (the schedule keeps the expression as its source); on failure, the
/// text of the error.
#[verifier::external_body]
fn cron_parse(expr: &str) -> (r: Result<cron::Schedule, String>)
    ensures
        r is Ok <==> cron_accepts(expr@),
{
    cron::Schedule::from_str(expr).map_err(|e| format!("{e}"))
}

/// An instant, as seconds since the Unix epoch and the nanoseconds beyond them.
#[derive(Debug, Clone, Copy, PartialEq, Eq, Structural)]
pub struct Instant {
    pub secs: i64,
    pub nanos: u32,
}

/// An instant within the range of chrono's dates (about 262,000 years either
/// side of the epoch), with the nanoseconds below two seconds (a leap second
/// counts its nanoseconds past one second).
pub open spec fn valid_instant(t: Instant) -> bool {
    -8_796_093_022_208 <= t.secs < 8_796_093_022_208 && t.nanos < 2_000_000_000
}

/// A reading of the clock that schedules are computed from: not before the
/// epoch, and far enough inside chrono's range (which ends in the year 262143)
/// that a schedule can look past it.
pub open spec fn clock_instant(t: Instant) -> bool {
    0 <= t.secs < 8_000_000_000_000 && t.nanos < 1_000_000_000
}

/// The error of a clock that reads before the epoch.
pub open spec fn before_epoch_text() -> Seq<char> {
    "system time before Unix epoch"@
}

/// The error of a clock that reads past the dates schedules can handle.
pub open spec fn clock_range_text() -> Seq<char> {
    "system time out of range"@
}

#[verifier::external_type_specification]
#[verifier::external_body]
pub struct ExSystemTime(std::time::SystemTime);

/// `SystemTime::now`: the clock's reading. Nothing is promised of it.
#[verifier::external_body]
fn system_now() -> std::time::SystemTime {
    std::time::SystemTime::now()
}

/// `SystemTime::duration_since(UNIX_EPOCH)`, as whole seconds and the
/// nanoseconds beyond them (`Duration::subsec_nanos`, always below one
/// billion); `None` when the time is before the epoch.
#[verifier::external_body]
fn since_epoch(t: &std::time::SystemTime) -> (r: Option<(u64, u32)>)
    ensures
        r matches Some(d) ==> d.1 < 1_000_000_000,
{
    match t.duration_since(std::time::UNIX_EPOCH) {
        Ok(d) => Some((d.as_secs(), d.subsec_nanos())),
        Err(_) => None,
    }
}

/// The current time as an [`Instant`], or why the clock cannot be used: it
/// reads before the epoch, or past the dates schedules can handle.
fn clock_now() -> (r: Result<Instant, String>)
    ensures
        r matches Ok(t) ==> clock_instant(t),
        r matches Err(e) ==> e@ == before_epoch_text() || e@ == clock_range_text(),
{
    let t = system_now();
    match since_epoch(&t) {
        None => Err("system time before Unix epoch".to_string()),
        Some((secs, nanos)) => {
            if secs < 8_000_000_000_000 {
                Ok(Instant { secs: secs as i64, nanos })
            } else {
                Err("system time out of range".to_string())
            }
        },
    }
}

/// A cron expression together with the schedule the `cron` crate parsed from
/// it. Only [`CronSchedule::parse`] makes one, so the schedule is always the
/// parse of the expression.
pub struct CronSchedule {
    expr: String,
    schedule: cron::Schedule,
}

impl CronSchedule {
    /// The expression the schedule was parsed from.
    pub closed spec fn expr_view(&self) -> Seq<char> {
        self.expr@
    }

    /// Parses a cron expression: it succeeds exactly on the expressions the
    /// crate accepts; otherwise the invalid-expression message with the
    /// crate's reason.
    pub fn parse(expr: &str) -> (r: Result<CronSchedule, String>)
        ensures
            r is Ok <==> cron_accepts(expr@),
            r matches Ok(c) ==> c.expr_view() == expr@,
            r matches Err(e) ==> exists|d: Seq<char>| e@ == invalid_cron_message(expr@, d),
    {
        match cron_parse(expr) {
            Ok(schedule) => Ok(CronSchedule { expr: expr.to_string(), schedule }),
            Err(e) => {
                let m = cat("invalid cron expression '", expr);
                let m = cat(m.as_str(), "': ");
                let m = cat(m.as_str(), e.as_str());
                assert(m@ == invalid_cron_message(expr@, e@));
                Err(m)
            },
        }
    }
}

/// The next time the schedule parsed from `expr` fires after `after`
/// (`Schedule::after(..).next()`), if it fires again.
pub uninterp spec fn cron_next(expr: Seq<char>, after: Instant) -> Option<Instant>;

/// `Schedule::after(&after).next()`, with the instants read as chrono UTC
/// times (`DateTime::from_timestamp`, which succeeds on every instant the
/// `requires` admits; the search adds one second to `after`, which stays in
/// range). The result is a function of the expression and the instant alone,
/// and it lies in chrono's range.
#[verifier::external_body]
fn next_after(c: &CronSchedule, after: Instant) -> (r: Option<Instant>)
    requires
        clock_instant(after),
    ensures
        r == cron_next(c.expr_view(), after),
        r matches Some(t) ==> valid_instant(t),
{
    match chrono::DateTime::from_timestamp(after.secs, after.nanos) {
        Some(dt) => match c.schedule.after(&dt).next() {
            Some(t) => Some(Instant { secs: t.timestamp(), nanos: t.timestamp_subsec_nanos() }),
            None => None,
        },
        None => None,
    }
}

/// An instant in nanoseconds since the epoch.
pub open spec fn instant_nanos(t: Instant) -> int {
    t.secs * 1_000_000_000 + t.nanos
}

/// The text of the error of a negative delay.
pub open spec fn negative_delay_text() -> Seq<char> {
    "Source duration value is out of range for the target type"@
}

/// The delay from `now` until `later` (the signed difference of the two
/// instants, as `signed_duration_since` gives it, made a non-negative delay as
/// `to_std` does): an error when `later` is before `now`.
pub fn delay_between(later: Instant, now: Instant) -> (r: Result<Interval, String>)
    requires
        valid_instant(later),
        valid_instant(now),
    ensures
        instant_nanos(later) < instant_nanos(now) ==> (r matches Err(e) && e@ == negative_delay_text()),
        instant_nanos(later) >= instant_nanos(now) ==> (r matches Ok(i)
            && i.secs * 1_000_000_000 + i.nanos == instant_nanos(later) - instant_nanos(now)
            && i.nanos < 1_000_000_000),
{
    let total: i128 = (later.secs as i128 - now.secs as i128) * 1_000_000_000
        + (later.nanos as i128 - now.nanos as i128);
    if total < 0 {
        return Err("Source duration value is out of range for the target type".to_string());
    }
    let secs = total / 1_000_000_000;
    let nanos = total % 1_000_000_000;
    assert(secs <= u64::MAX) by (nonlinear_arith)
        requires
            secs == total / 1_000_000_000,
            0 <= total <= 17_592_186_044_416 * 1_000_000_000 + 2_000_000_000,
    ;
    Ok(Interval { secs: secs as u64, nanos: nanos as u32 })
}

proof fn lemma_unit_texts()
    ensures
        "second"@ != "minute"@, "second"@ != "minutes"@, "second"@ != "hour"@, "second"@ != "hours"@,
        "seconds"@ != "minute"@, "seconds"@ != "minutes"@, "seconds"@ != "hour"@, "seconds"@ != "hours"@,
        "minute"@ != "hour"@, "minute"@ != "hours"@, "minutes"@ != "hour"@, "minutes"@ != "hours"@,
        "second"@ != "seconds"@, "minute"@ != "minutes"@, "hour"@ != "hours"@,
        "every "@.len() == 6,
{
    reveal_strlit("second");
    reveal_strlit("seconds");
    reveal_strlit("minute");
    reveal_strlit("minutes");
    reveal_strlit("hour");
    reveal_strlit("hours");
    reveal_strlit("every ");
    assert("second"@[0] != "minute"@[0]);
    assert("second"@[0] != "minutes"@[0]);
    assert("seconds"@[0] != "minute"@[0]);
    assert("seconds"@[0] != "minutes"@[0]);
    assert("second"@.len() != "seconds"@.len());
    assert("minute"@.len() != "minutes"@.len());
    assert("hour"@.len() != "hours"@.len());
}

/// What `every` schedule text (the part after `every `) gives: exactly two
/// words, a count that parses as a `u64` and is not zero, and a unit of
/// seconds, minutes or hours (singular or plural); the delay is the count in
/// seconds. Otherwise the error text.
pub open spec fn every_result(input: Seq<char>) -> Result<nat, Seq<char>> {
    let parts = words(input);
    if parts.len() != 2 {
        Err("invalid 'every' schedule: "@ + input)
    } else {
        match parse_unsigned(parts[0], u64::MAX as nat) {
            None => Err("invalid count '"@ + parts[0] + "' in schedule: "@ + input),
            Some(count) => if count == 0 {
                Err("count must be > 0 in schedule: "@ + input)
            } else {
                let unit = parts[1];
                if unit == "second"@ || unit == "seconds"@ {
                    Ok(count)
                } else if unit == "minute"@ || unit == "minutes"@ {
                    Ok(count * 60)
                } else if unit == "hour"@ || unit == "hours"@ {
                    Ok(count * 3600)
                } else {
                    Err("unsupported unit '"@ + unit + "' in schedule: "@ + input)
                }
            },
        }
    }
}

/// What each unit of an `every N <unit>` schedule means: a count `n` (a
/// non-zero `u64`) of seconds is `n` seconds, of minutes `60 * n`, of hours
/// `3600 * n`, in the singular and the plural alike.
pub proof fn lemma_every_units(input: Seq<char>, n: nat)
    requires
        words(input).len() == 2,
        parse_unsigned(words(input)[0], u64::MAX as nat) == Some(n),
        n > 0,
    ensures
        (words(input)[1] == "second"@ || words(input)[1] == "seconds"@) ==> every_result(input) == Ok::<nat, Seq<char>>(n),
        (words(input)[1] == "minute"@ || words(input)[1] == "minutes"@) ==> every_result(input) == Ok::<nat, Seq<char>>(n * 60),
        (words(input)[1] == "hour"@ || words(input)[1] == "hours"@) ==> every_result(input) == Ok::<nat, Seq<char>>(n * 3600),
{
    lemma_unit_texts();
}

/// The delay of an `every` schedule is within `u64` (the multiplication by the
/// unit's seconds does not overflow).
pub open spec fn every_in_range(input: Seq<char>) -> bool {
    every_result(input) matches Ok(secs) ==> secs <= u64::MAX
}

/// Parses the `N <unit>` part of an `every N <unit>` schedule into seconds.
pub fn parse_every(input: &str) -> (r: Result<u64, String>)
    requires
        every_in_range(input@),
    ensures
        match every_result(input@) {
            Ok(secs) => r matches Ok(s) && s == secs,
            Err(m) => r matches Err(e) && e@ == m,
        },
{
    proof { lemma_unit_texts(); }
    let parts = split_words(input);
    if parts.len() != 2 {
        return Err(cat("invalid 'every' schedule: ", input));
    }
    assert(parts[0]@ == words(input@)[0]);
    assert(parts[1]@ == words(input@)[1]);
    let count = match parse_unsigned_str(parts[0].as_str(), u64::MAX) {
        Some(n) => n,
        None => {
            let m = cat("invalid count '", parts[0].as_str());
            let m = cat(m.as_str(), "' in schedule: ");
            return Err(cat(m.as_str(), input));
        },
    };
    if count == 0 {
        return Err(cat("count must be > 0 in schedule: ", input));
    }
    let unit = parts[1].as_str();
    if str_eq(unit, "second") || str_eq(unit, "seconds") {
        Ok(count)
    } else if str_eq(unit, "minute") || str_eq(unit, "minutes") {
        Ok(count * 60)
    } else if str_eq(unit, "hour") || str_eq(unit, "hours") {
        Ok(count * 3600)
    } else {
        let m = cat("unsupported unit '", unit);
        let m = cat(m.as_str(), "' in schedule: ");
        Err(cat(m.as_str(), input))
    }
}

/// Whether an `every` schedule's delay is within range, so that
/// [`parse_every`] and [`parse_interval`] may be called on it.
pub fn every_fits(input: &str) -> (r: bool)
    ensures
        r == every_in_range(input@),
{
    proof { lemma_unit_texts(); }
    let parts = split_words(input);
    if parts.len() != 2 {
        return true;
    }
    assert(parts[0]@ == words(input@)[0]);
    assert(parts[1]@ == words(input@)[1]);
    let count = match parse_unsigned_str(parts[0].as_str(), u64::MAX) {
        Some(n) => n,
        None => return true,
    };
    let unit = parts[1].as_str();
    if str_eq(unit, "minute") || str_eq(unit, "minutes") {
        count as u128 * 60 <= u64::MAX as u128
    } else if str_eq(unit, "hour") || str_eq(unit, "hours") {
        count as u128 * 3600 <= u64::MAX as u128
    } else {
        true
    }
}

/// A schedule that is not an `every` schedule, or one whose delay fits.
pub open spec fn schedule_in_range(schedule: Seq<char>) -> bool {
    schedule.len() >= 6 && schedule.take(6) == "every "@ ==> every_in_range(schedule.skip(6))
}

/// Whether a schedule may be handed to [`parse_interval`]: its delay, when it
/// is an `every` schedule, fits in `u64` seconds.
pub fn schedule_fits(schedule: &str) -> (r: bool)
    ensures
        r == schedule_in_range(schedule@),
{
    proof { lemma_unit_texts(); }
    match str_strip_prefix(schedule, "every ") {
        Some(rest) => every_fits(rest.as_str()),
        None => true,
    }
}

/// The message of a cron expression that does not parse.
pub open spec fn invalid_cron_message(schedule: Seq<char>, detail: Seq<char>) -> Seq<char> {
    "invalid cron expression '"@ + schedule + "': "@ + detail
}

/// Whether a schedule is an `every N <unit>` schedule.
pub open spec fn is_every(schedule: Seq<char>) -> bool {
    schedule.len() >= 6 && schedule.take(6) == "every "@
}

/// The error of a cron expression that never fires again.
pub open spec fn no_upcoming_text(expr: Seq<char>) -> Seq<char> {
    "no upcoming times for cron expression: "@ + expr
}

/// The error of a next firing that lies before the time it is measured from.
pub open spec fn conversion_error_text() -> Seq<char> {
    "duration conversion error: "@ + negative_delay_text()
}

/// `r` is what the delay from `now` until the next firing `next` of `expr`
/// gives: the error of a schedule that never fires again, the conversion
/// error of a firing before `now`, or the exact delay from `now` to it.
pub open spec fn next_interval(
    r: Result<Interval, String>,
    expr: Seq<char>,
    next: Option<Instant>,
    now: Instant,
) -> bool {
    match next {
        None => r matches Err(e) && e@ == no_upcoming_text(expr),
        Some(t) => if instant_nanos(t) < instant_nanos(now) {
            r matches Err(e) && e@ == conversion_error_text()
        } else {
            r matches Ok(i) && i.secs * 1_000_000_000 + i.nanos == instant_nanos(t) - instant_nanos(now)
                && i.nanos < 1_000_000_000
        },
    }
}

/// What a cron schedule's delay may be: an expression the crate refuses gives
/// the invalid-expression message; an accepted one gives either the error of
/// an unusable clock, or, for a reading `now` of the clock, the delay from
/// `now` until the expression next fires after `now`.
pub open spec fn cron_outcome(expr: Seq<char>, r: Result<Interval, String>) -> bool {
    if !cron_accepts(expr) {
        r matches Err(e) && exists|d: Seq<char>| e@ == invalid_cron_message(expr, d)
    } else {
        (r matches Err(e) && (e@ == before_epoch_text() || e@ == clock_range_text()))
            || exists|now: Instant|
                clock_instant(now) && next_interval(r, expr, #[trigger] cron_next(expr, now), now)
    }
}

/// The delay from `now` until `next`, the next firing of the cron expression
/// `expr`: the error of a schedule that never fires again, the conversion
/// error of a firing before `now`, or the delay itself.
pub fn interval_until(expr: &str, next: Option<Instant>, now: Instant) -> (r: Result<Interval, String>)
    requires
        valid_instant(now),
        match next {
            Some(t) => valid_instant(t),
            None => true,
        },
    ensures
        next_interval(r, expr@, next, now),
{
    match next {
        Some(first) => match delay_between(first, now) {
            Ok(i) => Ok(i),
            Err(e) => Err(cat("duration conversion error: ", e.as_str())),
        },
        None => Err(cat("no upcoming times for cron expression: ", expr)),
    }
}

/// The delay until the next run of a job: `every N <unit>` schedules give
/// their fixed delay; anything else is a cron expression, whose delay is the
/// time from now until it next fires.
pub fn parse_interval(schedule: &str) -> (r: Result<Interval, String>)
    requires
        schedule_in_range(schedule@),
    ensures
        is_every(schedule@) ==> match every_result(schedule@.skip(6)) {
            Ok(secs) => r matches Ok(i) && i.secs == secs && i.nanos == 0,
            Err(m) => r matches Err(e) && e@ == m,
        },
        !is_every(schedule@) ==> cron_outcome(schedule@, r),
        r matches Ok(i) ==> i.nanos < 1_000_000_000,
{
    proof { lemma_unit_texts(); }
    if let Some(rest) = str_strip_prefix(schedule, "every ") {
        return match parse_every(rest.as_str()) {
            Ok(secs) => Ok(Interval { secs, nanos: 0 }),
            Err(e) => Err(e),
        };
    }
    parse_cron_interval(schedule)
}

/// The delay from now until a cron expression next fires.
fn parse_cron_interval(schedule: &str) -> (r: Result<Interval, String>)
    ensures
        cron_outcome(schedule@, r),
        r matches Ok(i) ==> i.nanos < 1_000_000_000,
{
    let parsed = match CronSchedule::parse(schedule) {
        Ok(c) => c,
        Err(e) => return Err(e),
    };
    let now = match clock_now() {
        Ok(t) => t,
        Err(e) => return Err(e),
    };
    let next = next_after(&parsed, now);
    let r = interval_until(schedule, next, now);
    assert(next_interval(r, schedule@, cron_next(schedule@, now), now));
    r
}

/// A job runs at start only when its configuration says so.
pub fn default_run_on_start() -> (r: bool)
    ensures
        !r,
{
    false
}

/// Where a job reports: its own setting, else the scheduler's, else stdout.
pub fn effective_output(job: Option<OutputMode>, global: Option<OutputMode>) -> (r: OutputMode)
    ensures
        r == match job {
            Some(o) => o,
            None => match global {
                Some(g) => g,
                None => OutputMode::Stdout,
            },
        },
{
    match job {
        Some(o) => o,
        None => match global {
            Some(g) => g,
            None => OutputMode::Stdout,
        },
    }
}

/// Whether a completed run is reported.
pub fn reports_completion(output: OutputMode) -> (r: bool)
    ensures
        r == (output == OutputMode::Stdout),
{
    match output {
        OutputMode::Stdout => true,
        OutputMode::Silent => false,
    }
}

/// How a configured job runs: whether it runs once at start, and, when it has
/// a schedule, the delay between later runs (or why the schedule is refused).
#[derive(Debug)]
pub struct JobPlan {
    pub run_at_start: bool,
    pub repeat: Option<Result<Interval, String>>,
}

/// The plan of a job: it runs at start when configured to; a job without a
/// schedule does not repeat; otherwise its schedule is parsed into the delay
/// between runs, and a schedule that does not parse stops the job from repeating.
pub fn plan_job(run_on_start: bool, schedule: Option<String>) -> (r: JobPlan)
    requires
        schedule matches Some(s) ==> schedule_in_range(s@),
    ensures
        r.run_at_start == run_on_start,
        schedule is None ==> r.repeat is None,
        schedule matches Some(s) ==> (r.repeat matches Some(p) && (
            is_every(s@) ==> match every_result(s@.skip(6)) {
                Ok(secs) => p matches Ok(i) && i.secs == secs && i.nanos == 0,
                Err(m) => p matches Err(e) && e@ == m,
            }) && (!is_every(s@) ==> cron_outcome(s@, p))),
{
    let repeat = match schedule {
        None => None,
        Some(s) => Some(parse_interval(s.as_str())),
    };
    JobPlan { run_at_start: run_on_start, repeat }
}

} // verus!
