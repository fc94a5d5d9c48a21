//! Runs of the scraper as the server keeps track of them, and what the admin dashboard
//! shows of them.

use vstd::prelude::*;
use crate::text::{decimal, push_decimal, push_str, string_from};

verus! {

/// What the server knows of the scraper: whether a run is going on, and how the last
/// finished run went. `R` is what a successful run reports, `T` the time a run finished.
pub struct ScrapeState<R, T> {
    pub is_running: bool,
    pub last_result: Option<R>,
    pub last_error: Option<String>,
    pub last_run_at: Option<T>,
}

/// The state before any run.
pub fn new_scrape_state<R, T>() -> (state: ScrapeState<R, T>)
    ensures
        !state.is_running,
        state.last_result is None,
        state.last_error is None,
        state.last_run_at is None,
{
    ScrapeState { is_running: false, last_result: None, last_error: None, last_run_at: None }
}

/// The state after a start: a run is going on either way.
pub open spec fn after_start<R, T>(state: ScrapeState<R, T>) -> ScrapeState<R, T> {
    ScrapeState { is_running: true, ..state }
}

/// The state after a run ends at `finished_at`: a success replaces the last result and clears
/// the last error; a failure keeps the last result and records its message.
pub open spec fn after_finish<R, T>(
    state: ScrapeState<R, T>,
    finished_at: T,
    outcome: Result<R, String>,
) -> ScrapeState<R, T> {
    match outcome {
        Ok(r) => ScrapeState {
            is_running: false,
            last_result: Some(r),
            last_error: None,
            last_run_at: Some(finished_at),
        },
        Err(message) => ScrapeState {
            is_running: false,
            last_result: state.last_result,
            last_error: Some(message),
            last_run_at: Some(finished_at),
        },
    }
}

/// Marks a run as started, unless one is going on already; says whether it started.
pub fn start_run<R, T>(state: &mut ScrapeState<R, T>) -> (started: bool)
    ensures
        started == !old(state).is_running,
        *final(state) == after_start(*old(state)),
{
    if state.is_running {
        false
    } else {
        state.is_running = true;
        true
    }
}

/// Records how a run ended, at `finished_at`.
pub fn finish_run<R, T>(state: &mut ScrapeState<R, T>, finished_at: T, outcome: Result<R, String>)
    ensures
        *final(state) == after_finish(*old(state), finished_at, outcome),
{
    state.is_running = false;
    state.last_run_at = Some(finished_at);
    match outcome {
        Ok(r) => {
            state.last_error = None;
            state.last_result = Some(r);
        },
        Err(message) => {
            state.last_error = Some(message);
        },
    }
}

/// Runs never overlap: starting while a run goes on is refused and changes nothing, and once
/// a run has finished the next start is accepted.
pub proof fn runs_never_overlap<R, T>(state: ScrapeState<R, T>, finished_at: T, outcome: Result<R, String>)
    ensures
        after_start(state).is_running,
        after_start(after_start(state)) == after_start(state),
        !after_finish(after_start(state), finished_at, outcome).is_running,
{
}

// ----- what the dashboard shows -----

/// The one-line summary of a finished run.
pub open spec fn summary_text(
    venues: nat,
    leagues: nat,
    divisions: nat,
    fixtures: nat,
    seconds: Seq<char>,
) -> Seq<char> {
    decimal(venues) + " venues, "@ + decimal(leagues) + " leagues, "@ + decimal(divisions)
        + " divisions, "@ + decimal(fixtures) + " fixtures in "@ + seconds + "s"@
}

/// The one-line summary of a finished run; `seconds` is its duration as the caller writes it.
pub fn scrape_summary(
    venues: usize,
    leagues: usize,
    divisions: usize,
    fixtures: usize,
    seconds: &str,
) -> (summary: String)
    ensures
        summary@ == summary_text(
            venues as nat,
            leagues as nat,
            divisions as nat,
            fixtures as nat,
            seconds@,
        ),
{
    let mut out: Vec<char> = Vec::new();
    push_decimal(&mut out, venues as u64);
    push_str(&mut out, " venues, ");
    push_decimal(&mut out, leagues as u64);
    push_str(&mut out, " leagues, ");
    push_decimal(&mut out, divisions as u64);
    push_str(&mut out, " divisions, ");
    push_decimal(&mut out, fixtures as u64);
    push_str(&mut out, " fixtures in ");
    push_str(&mut out, seconds);
    push_str(&mut out, "s");
    string_from(&out)
}

/// The word shown beside the status light.
pub open spec fn status_word_text(is_running: bool) -> Seq<char> {
    if is_running {
        "Running"@
    } else {
        "Idle"@
    }
}

/// The word shown beside the status light.
pub fn status_word(is_running: bool) -> (word: &'static str)
    ensures
        word@ == status_word_text(is_running),
{
    if is_running {
        "Running"
    } else {
        "Idle"
    }
}

/// The label of the button that starts a run.
pub open spec fn trigger_label_text(is_triggering: bool, is_running: bool) -> Seq<char> {
    if is_triggering {
        "Triggering…"@
    } else if is_running {
        "Scrape Running…"@
    } else {
        "Run Scrape Now"@
    }
}

/// The label of the button that starts a run, while a request is out or a run goes on.
pub fn trigger_label(is_triggering: bool, is_running: bool) -> (label: &'static str)
    ensures
        label@ == trigger_label_text(is_triggering, is_running),
{
    if is_triggering {
        "Triggering…"
    } else if is_running {
        "Scrape Running…"
    } else {
        "Run Scrape Now"
    }
}

/// Whether the button that starts a run is disabled.
pub fn trigger_disabled(is_triggering: bool, is_running: bool) -> (disabled: bool)
    ensures
        disabled == (is_triggering || is_running),
{
    is_triggering || is_running
}

// ----- the admin pages' guard -----

/// What an admin page shows while the session check is out, and after it.
#[derive(Clone, Copy, Debug, PartialEq, Eq)]
pub enum AdminGate {
    Waiting,
    Show,
    RedirectToLogin,
}

/// The guard of the admin pages: `checked` is `None` while the session check is out, and
/// `Some(None)` when it failed; only a confirmed session shows the page.
pub fn admin_gate(checked: Option<Option<bool>>) -> (gate: AdminGate)
    ensures
        gate == (match checked {
            None => AdminGate::Waiting,
            Some(Some(true)) => AdminGate::Show,
            Some(_) => AdminGate::RedirectToLogin,
        }),
{
    match checked {
        None => AdminGate::Waiting,
        Some(Some(true)) => AdminGate::Show,
        Some(_) => AdminGate::RedirectToLogin,
    }
}

} // verus!
