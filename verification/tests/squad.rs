use footical::datetime::LocalDateTime;
use footical::squad::{
    balance_tone, check_fine_form, check_payment_amount, check_payment_form, delete_outcome,
    delete_statement, entry_amount, entry_detail, find_balance, fine_insert_outcome, fine_options,
    fines_totals, hidden_owing_warning, payment_recorded_message, player_options,
    recent_entry_detail, roster_summary, squad_fixture_line, stored_note, visibility_button_label,
    visibility_changed, BalanceTone, FineType, FormProblem, LedgerEntry, LedgerRefusal,
    PlayerBalance, SquadFixture, SquadPlayer, SquadRosterEntry, StatusMessage,
};

fn balance(id: i32, fines: i64, payments: i64) -> PlayerBalance {
    PlayerBalance {
        squad_player_id: id,
        name: format!("Player {id}"),
        fines_pence: fines,
        payments_pence: payments,
        balance_pence: fines - payments,
    }
}

fn entry(is_payment: bool, note: Option<&str>) -> LedgerEntry {
    LedgerEntry {
        entry_id: 1,
        is_payment,
        player_name: "Sam".to_string(),
        description: "Late".to_string(),
        amount_pence: 250,
        happened_on: "2025-06-07".to_string(),
        note: note.map(|n| n.to_string()),
    }
}

#[test]
fn notes_are_trimmed_and_empty_ones_dropped() {
    assert_eq!(stored_note("  left early "), Some("left early".to_string()));
    assert_eq!(stored_note("   "), None);
    assert_eq!(stored_note(""), None);
}

#[test]
fn the_server_refuses_what_it_cannot_store() {
    assert_eq!(check_payment_amount(500), Ok(500));
    assert_eq!(check_payment_amount(0), Err(LedgerRefusal::AmountNotPositive));
    assert_eq!(check_payment_amount(-5), Err(LedgerRefusal::AmountNotPositive));
    assert_eq!(fine_insert_outcome(0), Err(LedgerRefusal::UnknownFineType));
    assert_eq!(fine_insert_outcome(1), Ok(()));
    assert_eq!(delete_outcome(0), Err(LedgerRefusal::EntryNotFound));
    assert_eq!(delete_outcome(1), Ok(()));
    assert_eq!(LedgerRefusal::AmountNotPositive.message(), "amount must be positive");
    assert_eq!(LedgerRefusal::UnknownFineType.message(), "unknown fine type");
    assert_eq!(LedgerRefusal::EntryNotFound.message(), "entry not found");
    assert_eq!(delete_statement(true), "DELETE FROM payment WHERE payment_id = ?");
    assert_eq!(delete_statement(false), "DELETE FROM fine WHERE fine_id = ?");
}

#[test]
fn the_fine_form_needs_a_player_and_a_fine() {
    assert_eq!(check_fine_form(None, Some(2)), Err(FormProblem::NoPlayer));
    assert_eq!(check_fine_form(Some(1), None), Err(FormProblem::NoFineType));
    assert_eq!(check_fine_form(Some(1), Some(2)), Ok((1, 2)));
    assert_eq!(FormProblem::NoPlayer.message(), "Pick a player.");
    assert_eq!(FormProblem::NoFineType.message(), "Pick a fine.");
}

#[test]
fn the_payment_form_needs_a_readable_positive_amount() {
    assert_eq!(check_payment_form(None, "5"), Err(FormProblem::NoPlayer));
    assert_eq!(check_payment_form(Some(3), "five"), Err(FormProblem::AmountUnreadable));
    assert_eq!(check_payment_form(Some(3), "0.00"), Err(FormProblem::AmountZero));
    assert_eq!(check_payment_form(Some(3), "£5.50"), Ok((3, 550)));
    assert_eq!(FormProblem::AmountUnreadable.message(), "Amount must look like 5 or 5.50.");
    assert_eq!(FormProblem::AmountZero.message(), "Amount must be more than zero.");
    assert_eq!(payment_recorded_message(550), "Payment of £5.50 recorded");
}

#[test]
fn menus_of_the_forms() {
    let tariff = vec![FineType { fine_type_id: 4, name: "Late".to_string(), default_amount_pence: 250 }];
    let options = fine_options(&tariff);
    assert_eq!(options.len(), 1);
    assert_eq!(options[0].value, 4);
    assert_eq!(options[0].label, "Late — £2.50");
    let squad = vec![SquadPlayer { squad_player_id: 9, name: "Sam".to_string() }];
    let players = player_options(&squad);
    assert_eq!((players[0].value, players[0].label.as_str()), (9, "Sam"));
}

#[test]
fn ledger_lines() {
    assert_eq!(entry_detail(&entry(false, Some("rain"))), "2025-06-07 · rain");
    assert_eq!(entry_detail(&entry(false, Some(""))), "2025-06-07");
    assert_eq!(entry_detail(&entry(false, None)), "2025-06-07");
    assert_eq!(recent_entry_detail(&entry(true, Some("cash"))), "Late · 2025-06-07 · cash");
    assert_eq!(entry_amount(&entry(true, None)), "-£2.50");
    assert_eq!(entry_amount(&entry(false, None)), "£2.50");
}

#[test]
fn the_players_balance_is_found_by_the_page_id() {
    let all = vec![balance(3, 500, 0), balance(7, 250, 250)];
    assert_eq!(find_balance(&all, "7"), Some(1));
    assert_eq!(find_balance(&all, "8"), None);
    assert_eq!(find_balance(&all, "seven"), None);
}

#[test]
fn fines_table_totals_and_tones() {
    let all = vec![balance(1, 500, 200), balance(2, 0, 0), balance(3, 250, 300)];
    assert_eq!(fines_totals(&all), (750, 500, 250));
    assert_eq!(fines_totals(&Vec::new()), (0, 0, 0));
    assert_eq!(balance_tone(&all[0]), BalanceTone::Owes);
    assert_eq!(balance_tone(&all[1]), BalanceTone::NothingFined);
    assert_eq!(balance_tone(&all[2]), BalanceTone::PaidUp);
}

#[test]
fn roster_counts_and_hidden_debts() {
    let roster = vec![
        SquadRosterEntry { squad_player_id: 1, name: "A".to_string(), is_active: true, balance_pence: 300 },
        SquadRosterEntry { squad_player_id: 2, name: "B".to_string(), is_active: false, balance_pence: 450 },
        SquadRosterEntry { squad_player_id: 3, name: "C".to_string(), is_active: false, balance_pence: -100 },
    ];
    let summary = roster_summary(&roster);
    assert_eq!(summary.active_count, 1);
    assert_eq!(summary.hidden_count, 2);
    assert_eq!(summary.hidden_owing_pence, 450);
    assert_eq!(
        hidden_owing_warning(450),
        Some("£4.50 is owed by hidden players and is not counted in the fines total.".to_string())
    );
    assert_eq!(hidden_owing_warning(0), None);
    assert_eq!(visibility_button_label(true), "Hide");
    assert_eq!(visibility_button_label(false), "Show");
    let shown = visibility_changed(true);
    assert_eq!((shown.text.as_str(), shown.is_error), ("Player shown", false));
    assert_eq!(visibility_changed(false).text, "Player hidden");
}

#[test]
fn status_messages() {
    let ok = StatusMessage::confirmation("Saved".to_string());
    assert!(!ok.is_error);
    let bad = StatusMessage::failure("Nope".to_string());
    assert!(bad.is_error);
    assert_eq!(bad.text, "Nope");
}

#[test]
fn squad_match_line() {
    let f = SquadFixture {
        squad_fixture_id: 1,
        competition: "Cup".to_string(),
        kicks_off_at: LocalDateTime::new(2025, 6, 7, 19, 30, 0, 0).unwrap(),
        is_home: true,
        opponent: "Rovers".to_string(),
        venue: None,
    };
    let line = squad_fixture_line(&f);
    assert_eq!(line.day_label, "Sat 7 Jun");
    assert_eq!(line.time_label, "19:30");
    assert_eq!(line.venue, "");
}
