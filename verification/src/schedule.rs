//! The nightly scrape: the hour it runs at, when the next run is due, and how long to wait.

use vstd::prelude::*;
use crate::datetime::{add_minutes, earliest_year, latest_year, moved_by_minutes, LocalDateTime};
use crate::scrape_runs::{after_finish, after_start, ScrapeState};
use crate::text::{chars_of, parse_i64, parse_i64_spec};

verus! {

/// `s.parse::<u32>().ok()`: an optional `+` and ASCII digits, within range.
pub open spec fn parse_u32_spec(s: Seq<char>) -> Option<u32> {
    if s.len() > 0 && s[0] == '-' {
        None
    } else {
        match parse_i64_spec(s) {
            Some(v) => if 0 <= v <= u32::MAX {
                Some(v as u32)
            } else {
                None
            },
            None => None,
        }
    }
}

/// The hour of the nightly scrape: the `SCRAPE_HOUR` setting where it reads as a number, else 1.
pub fn scrape_hour(setting: Option<&str>) -> (hour: u32)
    ensures
        hour == (match setting {
            Some(s) => match parse_u32_spec(s@) {
                Some(h) => h,
                None => 1,
            },
            None => 1,
        }),
{
    match setting {
        None => 1,
        Some(s) => {
            let chars = chars_of(s);
            if chars.len() > 0 && chars[0] == '-' {
                return 1;
            }
            match parse_i64(&chars) {
                Some(v) => if 0 <= v && v <= 0xffff_ffff {
                    v as u32
                } else {
                    1
                },
                None => 1,
            }
        },
    }
}

/// The minutes in a day.
pub open spec fn minutes_per_day() -> int {
    1440
}

/// When the next scrape is due: today at `hour` if that is still ahead, else a day later.
pub fn next_scrape_at(now: &LocalDateTime, hour: u32) -> (next: LocalDateTime)
    requires
        hour < 24,
        earliest_year() <= now.year_of() < latest_year(),
    ensures
        exists|target: LocalDateTime|
            #[trigger] now.day_at_hour(hour as int, target) && (now.is_before(target)
                || moved_by_minutes(target, minutes_per_day()) is Some) && next == (if now.is_before(target) {
                target
            } else {
                moved_by_minutes(target, minutes_per_day())->0
            }),
{
    let target = now.at_hour(hour);
    if now.comes_before(&target) {
        target
    } else {
        match add_minutes(&target, 1440) {
            Some(t) => t,
            None => target,
        }
    }
}

/// What `(later - earlier).to_std()` of chrono gives for two date-times, as whole seconds and
/// nanoseconds; none where the difference is negative.
pub uninterp spec fn std_duration_between(later: LocalDateTime, earlier: LocalDateTime) -> Option<
    (u64, u32),
>;

/// `chrono::NaiveDateTime` subtraction and `TimeDelta::to_std`, on the date-times the two
/// values hold, the `std::time::Duration` taken as seconds and nanoseconds. Named result.
#[verifier::external_body]
fn duration_between(later: &LocalDateTime, earlier: &LocalDateTime) -> (d: Option<(u64, u32)>)
    ensures
        d == std_duration_between(*later, *earlier),
{
    let a = chrono::NaiveDate::from_ymd_opt(later.year(), later.month(), later.day())?
        .and_hms_nano_opt(later.hour(), later.minute(), later.second(), later.nanosecond())?;
    let b = chrono::NaiveDate::from_ymd_opt(earlier.year(), earlier.month(), earlier.day())?
        .and_hms_nano_opt(earlier.hour(), earlier.minute(), earlier.second(), earlier.nanosecond())?;
    (a - b).to_std().ok().map(|d| (d.as_secs(), d.subsec_nanos()))
}

/// How long to sleep until the next scrape, as seconds and nanoseconds: the time left, or an
/// hour where that cannot be had.
pub fn sleep_before(next: &LocalDateTime, now: &LocalDateTime) -> (wait: (u64, u32))
    ensures
        wait == (match std_duration_between(*next, *now) {
            Some(d) => d,
            None => (3600, 0),
        }),
{
    match duration_between(next, now) {
        Some(d) => d,
        None => (3600, 0),
    }
}

// ----- one round of the nightly scrape -----

/// What a round waits for: `next` is today at `hour` if that is still ahead of `now`, else the
/// same hour a day later; `wait` is the time until `next`, or an hour where that cannot be had.
pub open spec fn round_wait(now: LocalDateTime, hour: int, next: LocalDateTime, wait: (u64, u32)) -> bool {
    &&& exists|target: LocalDateTime|
        #[trigger] now.day_at_hour(hour, target) && (now.is_before(target) || moved_by_minutes(
            target,
            minutes_per_day(),
        ) is Some) && next == (if now.is_before(target) {
            target
        } else {
            moved_by_minutes(target, minutes_per_day())->0
        })
    &&& wait == (match std_duration_between(next, now) {
        Some(d) => d,
        None => (3600, 0),
    })
}

/// The start of a round of the nightly scrape at `now`: when the next run is due, and how long
/// to sleep until then.
pub fn scheduled_wait(now: &LocalDateTime, hour: u32) -> (r: (LocalDateTime, (u64, u32)))
    requires
        hour < 24,
        earliest_year() <= now.year_of() < latest_year(),
    ensures
        round_wait(*now, hour as int, r.0, r.1),
{
    let next = next_scrape_at(now, hour);
    let wait = sleep_before(&next, now);
    (next, wait)
}

/// One round of the nightly scrape once its wait is over. Where a run is going on, the round
/// is skipped and nothing changes. Otherwise a run starts, so that the scraper is busy while
/// it goes on; when it ends at `finished_at` the scraper is idle again and the end time is
/// kept; a success becomes the last result and clears the last error, while a failure is
/// recorded as the last error and the last result stays.
pub proof fn scheduled_round<R, T>(state: ScrapeState<R, T>, finished_at: T, outcome: Result<R, String>)
    ensures
        state.is_running ==> after_start(state) == state,
        !state.is_running ==> after_start(state).is_running,
        !state.is_running ==> !after_finish(after_start(state), finished_at, outcome).is_running,
        !state.is_running ==> after_finish(after_start(state), finished_at, outcome).last_run_at
            == Some(finished_at),
        !state.is_running ==> (outcome matches Ok(r) ==> after_finish(
            after_start(state),
            finished_at,
            outcome,
        ).last_result == Some(r) && after_finish(after_start(state), finished_at, outcome).last_error
            is None),
        !state.is_running ==> (outcome matches Err(e) ==> after_finish(
            after_start(state),
            finished_at,
            outcome,
        ).last_error == Some(e) && after_finish(after_start(state), finished_at, outcome).last_result
            == state.last_result),
{
}

} // verus!
