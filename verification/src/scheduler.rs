//! The background scheduler: when jobs fall due, how misfires are coalesced or skipped,
//! how failed or abandoned runs are retried, and how local wall-clock times map to
//! instants. Instants are milliseconds since the Unix epoch.
use vstd::prelude::*;

use crate::calendar::{add_days, days_after, next_day, pred, previous_day, representable, succ, CivilDate};
use crate::error::{broken, invalid, Error};
use crate::text::{chars_of, str_eq, string_of, trim, trimmed};

use chrono::{Datelike, TimeZone, Timelike};

verus! {

/// How often the worker polls, in seconds.
pub const SCHEDULER_POLL_SECONDS: u64 = 30;

/// How long a claimed run is leased to its worker, in seconds.
pub const SCHEDULER_LEASE_SECONDS: i64 = 300;

/// How many attempts a run gets before it is dead-lettered.
pub const SCHEDULER_MAX_ATTEMPTS: i64 = 5;

/// How late a run may start and still run, in seconds.
pub const SCHEDULER_MISFIRE_GRACE_SECONDS: i64 = 86_400;

/// Start of the quiet hours for user-facing jobs, local time.
pub const SCHEDULER_QUIET_HOURS_START: &'static str = "22:00";

/// End of the quiet hours for user-facing jobs, local time.
pub const SCHEDULER_QUIET_HOURS_END: &'static str = "07:00";

/// The zone daily schedules are kept in.
pub const SCHEDULER_TIMEZONE: &'static str = "Asia/Seoul";

/// Most runs claimed in one cycle.
pub const MAX_CLAIMS_PER_CYCLE: usize = 16;

/// Largest instant magnitude the scheduler works with, in milliseconds: 2^53, past
/// either end of chrono's range (about 262,000 years either side of the epoch), so
/// every instant chrono holds is admitted.
pub const INSTANT_BOUND: i64 = 0x20_0000_0000_0000;

/// The seconds to wait before retrying after a failed attempt: 30 after the first, 120
/// after the second, 600 after the third, then an hour.
pub open spec fn retry_delay(attempt: int) -> int {
    if attempt <= 1 {
        30
    } else if attempt == 2 {
        120
    } else if attempt == 3 {
        600
    } else {
        3600
    }
}

/// The seconds to wait before retrying after a failed attempt.
pub fn retry_delay_seconds(attempt_number: i64) -> (r: i64)
    ensures
        r == retry_delay(attempt_number as int),
{
    if attempt_number <= 1 {
        30
    } else if attempt_number == 2 {
        120
    } else if attempt_number == 3 {
        600
    } else {
        3600
    }
}

/// Checks a worker ID: not blank, at most 200 characters.
pub fn validate_worker_id(worker_id: &str) -> (r: Result<(), Error>)
    ensures
        r is Ok <==> trimmed(worker_id@).len() > 0 && worker_id@.len() <= 200,
        r matches Err(e) ==> e is Invalid,
{
    let t = trim(worker_id);
    if chars_of(t.as_str()).len() == 0 || chars_of(worker_id).len() > 200 {
        return Err(invalid("scheduler worker ID must contain 1-200 characters"));
    }
    Ok(())
}

/// An error message cut to its first thousand characters.
pub fn bounded_error(value: &str) -> (r: String)
    ensures
        r@ == (if value@.len() <= 1000 { value@ } else { value@.subrange(0, 1000) }),
{
    let v = chars_of(value);
    if v.len() <= 1000 {
        string_of(v.as_slice())
    } else {
        string_of(&v.as_slice()[0..1000])
    }
}

/// Where a run stands after an attempt ends without success.
#[derive(Debug, Clone, Copy, PartialEq, Eq, Structural)]
pub enum RetryOutcome {
    /// No attempts are left: the run is dead-lettered now.
    DeadLetter,
    /// The run waits until `available_at` for its next attempt.
    RetryWait { available_at: i64 },
}

/// A run whose lease expired: dead-lettered once its attempts are used up, else retried
/// after the delay for its attempt.
pub open spec fn lease_expiry(attempt: int, max_attempts: int, now: int) -> RetryOutcome {
    if attempt >= max_attempts {
        RetryOutcome::DeadLetter
    } else {
        RetryOutcome::RetryWait { available_at: (now + retry_delay(attempt) * 1000) as i64 }
    }
}

/// The outcome of a run whose lease expired.
pub fn lease_expiry_outcome(attempt: i64, max_attempts: i64, now: i64) -> (r: RetryOutcome)
    requires
        -INSTANT_BOUND <= now <= INSTANT_BOUND,
    ensures
        r == lease_expiry(attempt as int, max_attempts as int, now as int),
{
    if attempt >= max_attempts {
        RetryOutcome::DeadLetter
    } else {
        RetryOutcome::RetryWait { available_at: now + retry_delay_seconds(attempt) * 1000 }
    }
}

/// A failed attempt: dead-lettered when it may not be retried or its attempts are used
/// up, else retried after the delay for its attempt.
pub fn failure_outcome(retryable: bool, attempt: i64, max_attempts: i64, now: i64) -> (r:
    RetryOutcome)
    requires
        -INSTANT_BOUND <= now <= INSTANT_BOUND,
    ensures
        r == (if !retryable {
            RetryOutcome::DeadLetter
        } else {
            lease_expiry(attempt as int, max_attempts as int, now as int)
        }),
{
    if !retryable {
        return RetryOutcome::DeadLetter;
    }
    lease_expiry_outcome(attempt, max_attempts, now)
}

/// A run is retried only while it has attempts left: once its attempt number reaches
/// its allowed attempts, a failed or lease-expired run is dead-lettered; before that a
/// retryable failure waits, strictly after now, for the delay its attempt earns (thirty
/// seconds at least, an hour at most).
pub proof fn lemma_retry_only_with_attempts_left(
    attempt: int,
    max_attempts: int,
    now: int,
)
    requires
        -INSTANT_BOUND <= now <= INSTANT_BOUND,
    ensures
        attempt >= max_attempts ==> lease_expiry(attempt, max_attempts, now) == RetryOutcome::DeadLetter,
        (lease_expiry(attempt, max_attempts, now) is RetryWait) <==> attempt < max_attempts,
        lease_expiry(attempt, max_attempts, now) matches RetryOutcome::RetryWait { available_at } ==> now
            + 30_000 <= available_at <= now + 3_600_000,
{
}

/// Retries back off: of two failed attempts of a run with attempts left, the later one
/// never waits less than the earlier.
pub proof fn lemma_retries_back_off(a: int, b: int, max_attempts: int, now: int)
    requires
        a <= b < max_attempts,
        -INSTANT_BOUND <= now <= INSTANT_BOUND,
    ensures
        lease_expiry(a, max_attempts, now) matches RetryOutcome::RetryWait { available_at: x } && lease_expiry(
            b,
            max_attempts,
            now,
        ) matches RetryOutcome::RetryWait { available_at: y } && x <= y,
{
}

/// When a job's runs fall due.
#[derive(Debug, Clone, Copy, PartialEq, Eq, Structural)]
pub enum JobSchedule {
    /// Every `seconds` seconds from the first due instant.
    Interval { seconds: i64 },
    /// Daily at a local time: the latest occurrence at or before now, and the one after.
    Daily { latest: i64, next: i64 },
    /// Once, at the first due instant.
    Once,
}

/// What reconciling one due job does.
#[derive(Debug, Clone, Copy, PartialEq, Eq, Structural)]
pub struct ReconcilePlan {
    /// A skipped run recorded for the first due instant, when later instants coalesced it.
    pub coalesced_skip: Option<i64>,
    /// The instant of the run that stands for all the due instants.
    pub latest_due: i64,
    /// Whether that run is skipped as expired rather than queued.
    pub latest_expired: bool,
    /// The job's next due instant; none disables the job.
    pub next_run: Option<i64>,
}

/// The whole seconds from `a` to `b`, truncated as chrono's `num_seconds` does.
pub open spec fn whole_seconds(a: int, b: int) -> int {
    let d = b - a;
    if d >= 0 {
        d / 1000
    } else {
        -((-d) / 1000)
    }
}

/// The latest due instant and the next one of a schedule, from the first due instant.
pub open spec fn due_instants(first_due: int, as_of: int, schedule: JobSchedule) -> (int, Option<int>) {
    match schedule {
        JobSchedule::Interval { seconds } => {
            let intervals = whole_seconds(first_due, as_of) / (seconds as int);
            let latest = first_due + intervals * seconds * 1000;
            (latest, Some(latest + seconds * 1000))
        },
        JobSchedule::Daily { latest, next } => (latest as int, Some(next as int)),
        JobSchedule::Once => (first_due, None),
    }
}

/// Reconciling a due job: a run for the latest due instant is queued, or skipped when it
/// is past the misfire grace; earlier instants coalesce into it, and when the first one
/// is past the grace it is recorded as skipped; the job then moves to its next instant,
/// or is disabled when it has none.
pub open spec fn reconcile(first_due: int, as_of: int, schedule: JobSchedule, grace: int) -> ReconcilePlan {
    let (latest, next) = due_instants(first_due, as_of, schedule);
    ReconcilePlan {
        coalesced_skip: if first_due < latest && whole_seconds(first_due, as_of) > grace {
            Some(first_due as i64)
        } else {
            None
        },
        latest_due: latest as i64,
        latest_expired: whole_seconds(latest, as_of) > grace,
        next_run: match next {
            Some(n) => Some(n as i64),
            None => None,
        },
    }
}

/// The whole seconds from `a` to `b`.
fn seconds_between(a: i64, b: i64) -> (r: i64)
    requires
        -INSTANT_BOUND <= a <= INSTANT_BOUND,
        -INSTANT_BOUND <= b <= INSTANT_BOUND,
    ensures
        r == whole_seconds(a as int, b as int),
{
    let d = b - a;
    if d >= 0 {
        d / 1000
    } else {
        -((-d) / 1000)
    }
}

/// Plans the reconciliation of a job whose first due instant has come. An interval is a
/// positive number of seconds.
pub fn plan_reconcile(first_due: i64, as_of: i64, schedule: JobSchedule, grace: i64) -> (r: Option<
    ReconcilePlan,
>)
    requires
        -INSTANT_BOUND <= first_due <= INSTANT_BOUND,
        -INSTANT_BOUND <= as_of <= INSTANT_BOUND,
        schedule matches JobSchedule::Interval { seconds } ==> 0 < seconds <= INSTANT_BOUND / 1000,
        schedule matches JobSchedule::Daily { latest, next } ==> -INSTANT_BOUND <= latest
            <= INSTANT_BOUND && -INSTANT_BOUND <= next <= INSTANT_BOUND,
    ensures
        first_due > as_of ==> r is None,
        first_due <= as_of ==> r == Some(reconcile(first_due as int, as_of as int, schedule, grace as int)),
{
    if first_due > as_of {
        return None;
    }
    let (latest, next): (i64, Option<i64>) = match schedule {
        JobSchedule::Interval { seconds } => {
            let elapsed = seconds_between(first_due, as_of);
            let intervals = elapsed / seconds;
            assert(0 <= intervals * seconds <= elapsed) by (nonlinear_arith)
                requires
                    intervals == elapsed / seconds,
                    elapsed >= 0,
                    seconds > 0,
            ;
            let latest = first_due + intervals * seconds * 1000;
            (latest, Some(latest + seconds * 1000))
        },
        JobSchedule::Daily { latest, next } => (latest, Some(next)),
        JobSchedule::Once => (first_due, None),
    };
    let coalesced = if first_due < latest && seconds_between(first_due, as_of) > grace {
        Some(first_due)
    } else {
        None
    };
    let expired = seconds_between(latest, as_of) > grace;
    Some(ReconcilePlan { coalesced_skip: coalesced, latest_due: latest, latest_expired: expired, next_run: next })
}

/// How a time zone resolves a local wall-clock time.
#[derive(Debug, Clone, Copy, PartialEq, Eq, Structural)]
pub enum ZoneResolution {
    /// One instant.
    Single(i64),
    /// Two instants, when clocks are turned back.
    Ambiguous(i64, i64),
    /// No instant, when clocks are turned forward.
    Gap,
}

/// How chrono-tz resolves a local date and time of day in a named zone; none when the
/// zone name is unknown.
pub uninterp spec fn zone_resolution(
    zone: Seq<char>,
    date: CivilDate,
    hour: int,
    minute: int,
    second: int,
) -> Option<ZoneResolution>;

/// `zone.parse::<chrono_tz::Tz>()`, then `from_local_datetime` of the date at the given
/// time of day, with the resulting instants in milliseconds.
#[verifier::external_body]
fn resolve_in_zone(zone: &str, date: CivilDate, hour: u32, minute: u32, second: u32) -> (r: Option<
    ZoneResolution,
>)
    requires
        representable(date),
        hour < 24,
        minute < 60,
        second < 60,
    ensures
        r == zone_resolution(zone@, date, hour as int, minute as int, second as int),
{
    let tz: chrono_tz::Tz = zone.parse().ok()?;
    let local = chrono::NaiveDate::from_ymd_opt(date.year, date.month, date.day)?.and_hms_opt(
        hour,
        minute,
        second,
    )?;
    Some(match tz.from_local_datetime(&local) {
        chrono::LocalResult::Single(v) => ZoneResolution::Single(v.timestamp_millis()),
        chrono::LocalResult::Ambiguous(a, b) => ZoneResolution::Ambiguous(a.timestamp_millis(), b.timestamp_millis()),
        chrono::LocalResult::None => ZoneResolution::Gap,
    })
}

/// The local date in a named zone at an instant; none when the zone is unknown or the
/// local date is outside chrono's range.
pub uninterp spec fn zone_local_date(zone: Seq<char>, instant: int) -> Option<CivilDate>;

/// `DateTime::from_timestamp_millis(instant)`, the named zone's offset at it added with
/// `checked_add_offset`, then the date.
#[verifier::external_body]
fn local_date_in_zone(zone: &str, instant: i64) -> (r: Option<CivilDate>)
    ensures
        r == zone_local_date(zone@, instant as int),
        r matches Some(d) ==> representable(d),
{
    let tz: chrono_tz::Tz = zone.parse().ok()?;
    let utc = chrono::DateTime::from_timestamp_millis(instant)?;
    let offset = chrono::Offset::fix(utc.with_timezone(&tz).offset());
    let d = utc.naive_utc().checked_add_offset(offset)?.date();
    Some(CivilDate { year: d.year(), month: d.month(), day: d.day() })
}

/// The local time `k` minutes after a date and second of the day.
pub open spec fn minutes_later(date: CivilDate, second: int, k: int) -> (CivilDate, int) {
    let total = second + 60 * k;
    (days_after(date, (total / 86_400) as nat), total % 86_400)
}

/// Whether a resolution gives an instant, and which: the only one, or the earlier of two.
pub open spec fn resolved_instant(r: Option<ZoneResolution>) -> Option<int> {
    match r {
        Some(ZoneResolution::Single(v)) => Some(v as int),
        Some(ZoneResolution::Ambiguous(a, b)) => Some(if a <= b { a as int } else { b as int }),
        _ => None,
    }
}

/// The instant a local time resolves to, trying minute `k` and the minutes after it up
/// to three hours from the first: none when the zone is unknown, every minute is skipped,
/// or a minute tried falls outside chrono's range.
pub open spec fn resolve_from(zone: Seq<char>, date: CivilDate, second: int, k: int) -> Option<int>
    decreases 181 - k,
{
    if k < 0 || k > 180 {
        None
    } else {
        let (d, s) = minutes_later(date, second, k);
        if !representable(d) {
            None
        } else {
            match zone_resolution(zone, d, s / 3600, s / 60 % 60, s % 60) {
                None => None,
                Some(ZoneResolution::Gap) => resolve_from(zone, date, second, k + 1),
                r => resolved_instant(r),
            }
        }
    }
}

/// The instant a local date and time resolves to in a zone: the single instant, the
/// earlier of two, or for a time the clocks skip, the first valid minute after it.
pub open spec fn resolved_local(zone: Seq<char>, date: CivilDate, second: int) -> Option<int> {
    resolve_from(zone, date, second, 0)
}

/// Resolves a local date and time in a zone.
pub fn resolve_local(zone: &str, date: CivilDate, second: u32) -> (r: Result<i64, Error>)
    requires
        representable(date),
        second < 86_400,
    ensures
        r is Ok <==> resolved_local(zone@, date, second as int) is Some,
        r matches Ok(v) ==> resolved_local(zone@, date, second as int) == Some(v as int),
        r matches Err(e) ==> e is Invariant,
{
    let mut d = date;
    let mut s: u32 = second;
    let mut k: u32 = 0;
    while k <= 180
        invariant
            representable(d),
            s < 86_400,
            k <= 181,
            (d, s as int) == minutes_later(date, second as int, k as int),
            resolved_local(zone@, date, second as int) == resolve_from(zone@, date, second as int, k as int),
        decreases 181 - k,
    {
        match resolve_in_zone(zone, d, s / 3600, s / 60 % 60, s % 60) {
            Some(ZoneResolution::Single(v)) => {
                return Ok(v);
            },
            Some(ZoneResolution::Ambiguous(a, b)) => {
                return Ok(if a <= b { a } else { b });
            },
            Some(ZoneResolution::Gap) => {},
            None => {
                return Err(Error::Invariant("invalid scheduler timezone: ".to_owned().concat(zone)));
            },
        }
        if s + 60 >= 86_400 {
            d = match succ(d) {
                Some(n) => n,
                None => {
                    proof {
                        let total = second + 60 * k;
                        let total2 = second + 60 * (k + 1);
                        assert(total2 / 86_400 == total / 86_400 + 1);
                        assert(minutes_later(date, second as int, k + 1).0 == next_day(d));
                        assert(resolve_from(zone@, date, second as int, (k + 1) as int) is None);
                        assert(resolve_from(zone@, date, second as int, k as int) == resolve_from(
                            zone@,
                            date,
                            second as int,
                            (k + 1) as int,
                        ));
                    }
                    return Err(broken("scheduler local time is out of range"));
                },
            };
            s = s + 60 - 86_400;
        } else {
            s = s + 60;
        }
        proof {
            let total = second + 60 * k;
            let total2 = second + 60 * (k + 1);
            assert(total2 == total + 60);
            if total % 86_400 + 60 >= 86_400 {
                assert(total2 / 86_400 == total / 86_400 + 1);
                assert(total2 % 86_400 == total % 86_400 + 60 - 86_400);
            } else {
                assert(total2 / 86_400 == total / 86_400);
                assert(total2 % 86_400 == total % 86_400 + 60);
            }
        }
        k = k + 1;
    }
    Err(broken("unable to resolve scheduler local time"))
}

/// The instant of the daily local time `second` on the latest local date (in the zone,
/// at `as_of`) at which it is at or before `as_of`, if it can be resolved.
pub open spec fn latest_daily_at(zone: Seq<char>, second: int, as_of: int) -> Option<int> {
    match zone_local_date(zone, as_of) {
        None => None,
        Some(local) => match resolved_local(zone, local, second) {
            None => None,
            Some(t) => if t <= as_of {
                Some(t)
            } else if representable(previous_day(local)) {
                resolved_local(zone, previous_day(local), second)
            } else {
                None
            },
        },
    }
}

/// The first instant of the daily local time `second` after `after`, trying the local
/// date `local` `j` days on and the days after it up to two days on.
pub open spec fn next_daily_from(zone: Seq<char>, second: int, after: int, local: CivilDate, j: nat) -> Option<int>
    decreases 3 - j,
{
    if j > 2 || !representable(days_after(local, j)) {
        None
    } else {
        match resolved_local(zone, days_after(local, j), second) {
            None => None,
            Some(t) => if t > after {
                Some(t)
            } else {
                next_daily_from(zone, second, after, local, j + 1)
            },
        }
    }
}

/// The first instant of the daily local time `second` after `after`, if it can be
/// resolved within two days of the local date of `after`.
pub open spec fn next_daily_at(zone: Seq<char>, second: int, after: int) -> Option<int> {
    match zone_local_date(zone, after) {
        None => None,
        Some(local) => next_daily_from(zone, second, after, local, 0),
    }
}

/// `v` is the instant of the daily local time `second` on the latest local date (in the
/// zone, at `as_of`) at which it is at or before `as_of`: today's, else yesterday's.
pub open spec fn is_latest_daily(zone: Seq<char>, second: int, as_of: int, v: int) -> bool {
    zone_local_date(zone, as_of) matches Some(local) && ({
        let today = resolved_local(zone, local, second);
        ||| (today == Some(v) && v <= as_of)
        ||| (today matches Some(t) && t > as_of && resolved_local(zone, crate::calendar::previous_day(local), second)
            == Some(v))
    })
}

/// `v` is the first instant of the daily local time `second` after `after`, found on the
/// local date of `after` (in the zone) or one of the two days following.
pub open spec fn is_next_daily(zone: Seq<char>, second: int, after: int, v: int) -> bool {
    &&& v > after
    &&& zone_local_date(zone, after) is Some
    &&& ({
        let local = zone_local_date(zone, after)->0;
        exists|k: int|
            #![trigger days_after(local, k as nat)]
            0 <= k <= 2 && resolved_local(zone, days_after(local, k as nat), second) == Some(v)
                && forall|j: int|
                0 <= j < k ==> (resolved_local(zone, #[trigger] days_after(local, j as nat), second) matches Some(t)
                    && t <= after)
    })
}

/// The instant of a daily local time on the latest local date at which it is at or
/// before `as_of`: today's (in the zone, at `as_of`), else yesterday's.
pub fn latest_daily_at_or_before(zone: &str, second: u32, as_of: i64) -> (r: Result<i64, Error>)
    requires
        second < 86_400,
    ensures
        r is Ok <==> latest_daily_at(zone@, second as int, as_of as int) is Some,
        r matches Ok(v) ==> latest_daily_at(zone@, second as int, as_of as int) == Some(v as int),
        r matches Ok(v) ==> is_latest_daily(zone@, second as int, as_of as int, v as int),
        r matches Err(e) ==> e is Invariant || e is Invalid,
{
    let local = match local_date_in_zone(zone, as_of) {
        Some(d) => d,
        None => return Err(Error::Invariant("invalid scheduler timezone: ".to_owned().concat(zone))),
    };
    let today = resolve_local(zone, local, second)?;
    if today <= as_of {
        return Ok(today);
    }
    let previous = match pred(local) {
        Some(p) => p,
        None => return Err(invalid("scheduler date has no predecessor")),
    };
    resolve_local(zone, previous, second)
}

/// The first instant of a daily local time after `after`, trying the local date of
/// `after` (in the zone) and the two days following.
pub fn next_daily_after(zone: &str, second: u32, after: i64) -> (r: Result<i64, Error>)
    requires
        second < 86_400,
    ensures
        r is Ok <==> next_daily_at(zone@, second as int, after as int) is Some,
        r matches Ok(v) ==> next_daily_at(zone@, second as int, after as int) == Some(v as int),
        r matches Ok(v) ==> is_next_daily(zone@, second as int, after as int, v as int),
        r matches Err(e) ==> e is Invariant || e is Invalid,
{
    let local = match local_date_in_zone(zone, after) {
        Some(d) => d,
        None => return Err(Error::Invariant("invalid scheduler timezone: ".to_owned().concat(zone))),
    };
    let mut offset: u32 = 0;
    while offset <= 2
        invariant
            representable(local),
            second < 86_400,
            offset <= 3,
            zone_local_date(zone@, after as int) == Some(local),
            forall|j: int|
                0 <= j < offset ==> (resolved_local(zone@, #[trigger] days_after(local, j as nat), second as int) matches Some(t)
                    && t <= after),
            offset <= 2 ==> next_daily_at(zone@, second as int, after as int) == next_daily_from(
                zone@,
                second as int,
                after as int,
                local,
                offset as nat,
            ),
            offset == 3 ==> next_daily_at(zone@, second as int, after as int) is None,
        decreases 3 - offset,
    {
        let date = match add_days(local, offset) {
            Some(d) => d,
            None => return Err(invalid("scheduler date is out of range")),
        };
        let candidate = resolve_local(zone, date, second)?;
        if candidate > after {
            proof {
                let k: int = offset as int;
                assert(zone_local_date(zone@, after as int)->0 == local);
                assert(date == days_after(local, k as nat));
                assert(resolved_local(zone@, days_after(local, k as nat), second as int) == Some(candidate as int));
                assert(forall|j: int|
                    0 <= j < k ==> (resolved_local(zone@, #[trigger] days_after(local, j as nat), second as int) matches Some(t)
                        && t <= after));
                assert(exists|kk: int|
                    #![trigger days_after(local, kk as nat)]
                    0 <= kk <= 2 && resolved_local(zone@, days_after(local, kk as nat), second as int) == Some(candidate as int)
                        && forall|j: int|
                        0 <= j < kk ==> (resolved_local(zone@, #[trigger] days_after(local, j as nat), second as int) matches Some(t)
                            && t <= after));
            }
            return Ok(candidate);
        }
        proof {
            if offset == 2 {
                assert(next_daily_from(zone@, second as int, after as int, local, 3) is None);
            }
            assert forall|j: int| 0 <= j < offset + 1 implies (resolved_local(zone@, #[trigger] days_after(local, j as nat), second as int) matches Some(t)
                && t <= after) by {
                if j == offset {
                    assert(date == days_after(local, offset as nat));
                }
            }
        }
        offset = offset + 1;
    }
    Err(broken("unable to resolve the next daily scheduler occurrence"))
}

/// A local time of day in seconds.
pub fn time(hour: u32, minute: u32) -> (r: Result<u32, Error>)
    ensures
        r is Ok <==> hour < 24 && minute < 60,
        r matches Ok(s) ==> s == hour * 3600 + minute * 60,
        r matches Err(e) ==> e is Invariant,
{
    if hour >= 24 || minute >= 60 {
        return Err(broken("invalid scheduler local time"));
    }
    Ok(hour * 3600 + minute * 60)
}

/// A run handed to a worker.
#[derive(Debug, Clone, PartialEq, Eq)]
pub struct SchedulerClaim {
    pub run_id: String,
    pub job_key: String,
    pub job_kind: String,
    pub scheduled_for: String,
    pub idempotency_key: String,
    pub attempt_number: i64,
    pub max_attempts: i64,
    pub worker_id: String,
    pub lease_expires_at: String,
}

/// What one scheduler cycle did.
#[derive(Debug, Clone, PartialEq, Eq)]
pub struct SchedulerCycleReport {
    pub scheduled: usize,
    pub skipped: usize,
    pub lease_recoveries: usize,
    pub succeeded: usize,
    pub failed: usize,
    pub checked_at: String,
}

/// The health of the scheduler.
#[derive(Debug, Clone, PartialEq, Eq)]
pub struct SchedulerStatus {
    pub status: String,
    pub enabled_job_count: i64,
    pub queue_depth: i64,
    pub running_count: i64,
    pub retry_wait_count: i64,
    pub dead_letter_count: i64,
    pub effect_count: i64,
    pub succeeded_last_24_hours: i64,
    pub skipped_last_24_hours: i64,
    pub oldest_due_seconds: Option<i64>,
    pub last_succeeded_at: Option<String>,
    pub last_failure_at: Option<String>,
    pub poll_interval_seconds: u64,
    pub lease_seconds: i64,
    pub timezone: &'static str,
    pub quiet_hours_start: &'static str,
    pub quiet_hours_end: &'static str,
    pub quiet_hours_user_facing_only: bool,
    pub openai_calls_enabled: bool,
    pub checked_at: String,
}

/// How many runs a reconciliation queued and skipped.
#[derive(Debug, Clone, Copy, PartialEq, Eq, Structural)]
pub struct SchedulerReconcileReport {
    pub scheduled: usize,
    pub skipped: usize,
}

impl SchedulerReconcileReport {
    /// Nothing reconciled yet.
    pub fn empty() -> (r: SchedulerReconcileReport)
        ensures
            r.scheduled == 0 && r.skipped == 0,
    {
        SchedulerReconcileReport { scheduled: 0, skipped: 0 }
    }
}

/// Counts the runs one reconciliation plan records: the coalesced and the expired runs
/// are skipped, a run that is not expired is queued.
pub fn record_plan(report: &mut SchedulerReconcileReport, plan: &ReconcilePlan)
    requires
        old(report).scheduled < usize::MAX,
        old(report).skipped < usize::MAX - 1,
    ensures
        final(report).skipped == old(report).skipped + (if plan.coalesced_skip is Some { 1int } else { 0 })
            + (if plan.latest_expired { 1int } else { 0 }),
        final(report).scheduled == old(report).scheduled + (if plan.latest_expired { 0int } else { 1 }),
{
    if plan.coalesced_skip.is_some() {
        report.skipped = report.skipped + 1;
    }
    if plan.latest_expired {
        report.skipped = report.skipped + 1;
    } else {
        report.scheduled = report.scheduled + 1;
    }
}

/// The kinds of schedule a job can have.
#[derive(Debug, Clone, Copy, PartialEq, Eq, Structural)]
pub enum ScheduleKind {
    Interval { seconds: i64 },
    Daily,
    Once,
}

/// Reads a job's stored schedule type.
pub fn job_schedule_kind(job_key: &str, schedule_type: &str, interval_seconds: Option<i64>) -> (r: Result<
    ScheduleKind,
    Error,
>)
    ensures
        r matches Ok(ScheduleKind::Interval { seconds }) ==> schedule_type@ == "interval"@
            && interval_seconds == Some(seconds),
        r matches Ok(ScheduleKind::Daily) ==> schedule_type@ == "daily"@,
        r matches Ok(ScheduleKind::Once) ==> schedule_type@ == "once"@,
        r is Err <==> !(schedule_type@ == "interval"@ && interval_seconds is Some)
            && schedule_type@ != "daily"@ && schedule_type@ != "once"@,
        r matches Err(e) ==> e is Invariant,
{
    proof {
        reveal_strlit("interval");
        reveal_strlit("daily");
        reveal_strlit("once");
        assert("interval"@.len() != "daily"@.len() && "interval"@.len() != "once"@.len());
    }
    if str_eq(schedule_type, "interval") {
        match interval_seconds {
            Some(seconds) => Ok(ScheduleKind::Interval { seconds }),
            None => Err(Error::Invariant("interval is missing for job ".to_owned().concat(job_key))),
        }
    } else if str_eq(schedule_type, "daily") {
        Ok(ScheduleKind::Daily)
    } else if str_eq(schedule_type, "once") {
        Ok(ScheduleKind::Once)
    } else {
        Err(broken("unsupported schedule type"))
    }
}

/// The second of the day chrono reads from a text under the format `%H:%M:%S`, if any.
pub uninterp spec fn parsed_local_time(s: Seq<char>) -> Option<int>;

/// `NaiveTime::parse_from_str(value, "%H:%M:%S")`, read back as the second of the day;
/// a failure is given back as chrono's description of it, of which nothing is stated.
#[verifier::external_body]
fn parse_local_time(value: &str) -> (r: Result<u32, String>)
    ensures
        r matches Ok(x) ==> parsed_local_time(value@) == Some(x as int) && x < 86_400,
        r is Err ==> parsed_local_time(value@) is None,
{
    match chrono::NaiveTime::parse_from_str(value, "%H:%M:%S") {
        Ok(t) => Ok(t.num_seconds_from_midnight()),
        Err(error) => Err(error.to_string()),
    }
}

/// The text of a job's local time, empty when it has none.
pub open spec fn local_time_text(local_time: Option<&str>) -> Seq<char> {
    match local_time {
        Some(t) => t@,
        None => Seq::empty(),
    }
}

/// The daily runs of a job due each day at `local_time` (`%H:%M:%S`) in `zone`: the
/// latest at or before `as_of`, and the first after that one.
pub fn daily_schedule(zone: &str, local_time: Option<&str>, as_of: i64) -> (r: Result<(i64, i64), Error>)
    ensures
        r is Ok <==> (parsed_local_time(local_time_text(local_time)) matches Some(second) && latest_daily_at(
            zone@,
            second,
            as_of as int,
        ) matches Some(latest) && next_daily_at(zone@, second, latest) is Some),
        parsed_local_time(local_time_text(local_time)) is None ==> (r matches Err(e) && e is Invariant),
        r matches Ok((latest, next)) ==> parsed_local_time(local_time_text(local_time)) matches Some(second)
            && is_latest_daily(zone@, second, as_of as int, latest as int) && is_next_daily(
            zone@,
            second,
            latest as int,
            next as int,
        ),
        r matches Err(e) ==> e is Invariant || e is Invalid,
{
    let text = match local_time {
        Some(t) => t,
        None => "",
    };
    proof {
        reveal_strlit("");
        assert(text@ =~= local_time_text(local_time));
    }
    let second = match parse_local_time(text) {
        Ok(s) => s,
        Err(description) => {
            return Err(Error::Invariant("invalid scheduler local time: ".to_owned().concat(description.as_str())));
        },
    };
    let latest = latest_daily_at_or_before(zone, second, as_of)?;
    let next = next_daily_after(zone, second, latest)?;
    Ok((latest, next))
}

/// How long the oldest due run has waited, in whole seconds, never negative.
pub fn oldest_due_age(as_of: i64, due: i64) -> (r: i64)
    requires
        -INSTANT_BOUND <= as_of <= INSTANT_BOUND,
        -INSTANT_BOUND <= due <= INSTANT_BOUND,
    ensures
        r == (if whole_seconds(due as int, as_of as int) > 0 { whole_seconds(due as int, as_of as int) } else { 0 }),
{
    let age = seconds_between(due, as_of);
    if age > 0 {
        age
    } else {
        0
    }
}

/// The scheduler is degraded when a run is dead-lettered or a due run has waited more
/// than five minutes.
pub open spec fn degraded(dead_letter_count: int, oldest_due_seconds: Option<i64>) -> bool {
    dead_letter_count > 0 || (oldest_due_seconds matches Some(age) && age > 300)
}

/// Whether the scheduler is degraded.
pub fn scheduler_degraded(dead_letter_count: i64, oldest_due_seconds: Option<i64>) -> (r: bool)
    ensures
        r == degraded(dead_letter_count as int, oldest_due_seconds),
{
    dead_letter_count > 0 || match oldest_due_seconds {
        Some(age) => age > 300,
        None => false,
    }
}

/// What the scheduler's tables count at a moment.
#[derive(Debug, Clone, PartialEq, Eq)]
pub struct SchedulerCounts {
    pub enabled_job_count: i64,
    pub pending_count: i64,
    pub running_count: i64,
    pub retry_wait_count: i64,
    pub dead_letter_count: i64,
    pub effect_count: i64,
    pub succeeded_last_24_hours: i64,
    pub skipped_last_24_hours: i64,
    pub last_succeeded_at: Option<String>,
    pub last_failure_at: Option<String>,
}

/// The scheduler's health from its counts and the age of its oldest due run: degraded
/// when a run is dead-lettered or a due run has waited more than five minutes; the
/// queue holds pending runs and runs waiting to retry.
pub fn scheduler_status_of(counts: SchedulerCounts, oldest_due_seconds: Option<i64>, checked_at: String) -> (r:
    SchedulerStatus)
    requires
        0 <= counts.pending_count,
        0 <= counts.retry_wait_count,
        counts.pending_count + counts.retry_wait_count <= i64::MAX,
    ensures
        r.status@ == (if degraded(counts.dead_letter_count as int, oldest_due_seconds) {
            "degraded"@
        } else {
            "healthy"@
        }),
        r.enabled_job_count == counts.enabled_job_count,
        r.queue_depth == counts.pending_count + counts.retry_wait_count,
        r.running_count == counts.running_count,
        r.retry_wait_count == counts.retry_wait_count,
        r.dead_letter_count == counts.dead_letter_count,
        r.effect_count == counts.effect_count,
        r.succeeded_last_24_hours == counts.succeeded_last_24_hours,
        r.skipped_last_24_hours == counts.skipped_last_24_hours,
        r.oldest_due_seconds == oldest_due_seconds,
        r.last_succeeded_at == counts.last_succeeded_at,
        r.last_failure_at == counts.last_failure_at,
        r.poll_interval_seconds == SCHEDULER_POLL_SECONDS,
        r.lease_seconds == SCHEDULER_LEASE_SECONDS,
        r.timezone@ == SCHEDULER_TIMEZONE@,
        r.quiet_hours_start@ == SCHEDULER_QUIET_HOURS_START@,
        r.quiet_hours_end@ == SCHEDULER_QUIET_HOURS_END@,
        r.quiet_hours_user_facing_only,
        !r.openai_calls_enabled,
        r.checked_at == checked_at,
{
    let status = if scheduler_degraded(counts.dead_letter_count, oldest_due_seconds) {
        "degraded".to_owned()
    } else {
        "healthy".to_owned()
    };
    SchedulerStatus {
        status,
        enabled_job_count: counts.enabled_job_count,
        queue_depth: counts.pending_count + counts.retry_wait_count,
        running_count: counts.running_count,
        retry_wait_count: counts.retry_wait_count,
        dead_letter_count: counts.dead_letter_count,
        effect_count: counts.effect_count,
        succeeded_last_24_hours: counts.succeeded_last_24_hours,
        skipped_last_24_hours: counts.skipped_last_24_hours,
        oldest_due_seconds,
        last_succeeded_at: counts.last_succeeded_at,
        last_failure_at: counts.last_failure_at,
        poll_interval_seconds: SCHEDULER_POLL_SECONDS,
        lease_seconds: SCHEDULER_LEASE_SECONDS,
        timezone: SCHEDULER_TIMEZONE,
        quiet_hours_start: SCHEDULER_QUIET_HOURS_START,
        quiet_hours_end: SCHEDULER_QUIET_HOURS_END,
        quiet_hours_user_facing_only: true,
        openai_calls_enabled: false,
        checked_at,
    }
}

/// The work a claimed run performs.
#[derive(Debug, Clone, Copy, PartialEq, Eq, Structural)]
pub enum JobEffect {
    /// Records that the scheduler ran, calling nothing.
    Canary,
    /// Expires and rolls up assistant memories.
    MemoryMaintenance,
}

/// The work of a job kind; an unknown kind is refused.
pub fn job_effect(kind: &str) -> (r: Result<JobEffect, Error>)
    ensures
        r matches Ok(e) ==> (e is Canary <==> kind@ == "scheduler.canary"@) && (e is MemoryMaintenance
            <==> kind@ == "memory.maintenance"@),
        r is Err <==> kind@ != "scheduler.canary"@ && kind@ != "memory.maintenance"@,
        r matches Err(e) ==> e is Invariant,
{
    proof {
        reveal_strlit("scheduler.canary");
        reveal_strlit("memory.maintenance");
        assert("scheduler.canary"@.len() != "memory.maintenance"@.len());
    }
    if str_eq(kind, "scheduler.canary") {
        Ok(JobEffect::Canary)
    } else if str_eq(kind, "memory.maintenance") {
        Ok(JobEffect::MemoryMaintenance)
    } else {
        Err(Error::Invariant("unsupported scheduler job kind: ".to_owned().concat(kind)))
    }
}

/// A claim is acted on only while it is still the active lease of its run.
pub fn check_claim_active(active: bool) -> (r: Result<(), Error>)
    ensures
        r is Ok <==> active,
        r matches Err(e) ==> e is Conflict,
{
    if !active {
        return Err(Error::Conflict("scheduler claim is no longer active".to_owned()));
    }
    Ok(())
}

} // verus!
