use footical::scrape_runs::{
    admin_gate, finish_run, new_scrape_state, scrape_summary, start_run, status_word,
    trigger_disabled, trigger_label, AdminGate, ScrapeState,
};

#[test]
fn a_run_starts_once_and_finishes() {
    let mut state: ScrapeState<u32, &str> = new_scrape_state();
    assert!(start_run(&mut state));
    assert!(state.is_running);
    assert!(!start_run(&mut state));
    finish_run(&mut state, "10:00", Ok(7));
    assert!(!state.is_running);
    assert_eq!(state.last_result, Some(7));
    assert_eq!(state.last_error, None);
    assert_eq!(state.last_run_at, Some("10:00"));
    assert!(start_run(&mut state));
}

#[test]
fn a_failed_run_keeps_the_last_result() {
    let mut state: ScrapeState<u32, &str> = new_scrape_state();
    start_run(&mut state);
    finish_run(&mut state, "10:00", Ok(7));
    start_run(&mut state);
    finish_run(&mut state, "11:00", Err("site down".to_string()));
    assert_eq!(state.last_result, Some(7));
    assert_eq!(state.last_error, Some("site down".to_string()));
    assert_eq!(state.last_run_at, Some("11:00"));
    start_run(&mut state);
    finish_run(&mut state, "12:00", Ok(9));
    assert_eq!(state.last_error, None);
    assert_eq!(state.last_result, Some(9));
}

#[test]
fn summary_of_a_run() {
    assert_eq!(
        scrape_summary(3, 12, 40, 512, "84.2"),
        "3 venues, 12 leagues, 40 divisions, 512 fixtures in 84.2s"
    );
}

#[test]
fn dashboard_labels() {
    assert_eq!(status_word(true), "Running");
    assert_eq!(status_word(false), "Idle");
    assert_eq!(trigger_label(true, true), "Triggering…");
    assert_eq!(trigger_label(false, true), "Scrape Running…");
    assert_eq!(trigger_label(false, false), "Run Scrape Now");
    assert!(trigger_disabled(false, true));
    assert!(!trigger_disabled(false, false));
}

#[test]
fn admin_pages_need_a_confirmed_session() {
    assert_eq!(admin_gate(None), AdminGate::Waiting);
    assert_eq!(admin_gate(Some(Some(true))), AdminGate::Show);
    assert_eq!(admin_gate(Some(Some(false))), AdminGate::RedirectToLogin);
    assert_eq!(admin_gate(Some(None)), AdminGate::RedirectToLogin);
}
