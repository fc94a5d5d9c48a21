//! The squad's fines: the records the pages show, the checks on what an admin enters, and
//! the sums of the fines table.

use vstd::prelude::*;
use crate::datetime::{clock_label, day_label, LocalDateTime};
use crate::money::{format_pence, pence_text, pounds_text_value, parse_pounds_to_pence};
use crate::search::SelectOption;
use crate::text::{chars_of, push_str, string_from, trim, trim_chars};

verus! {

/// A player of the squad.
pub struct SquadPlayer {
    pub squad_player_id: i32,
    pub name: String,
}

/// A kind of fine and what it costs.
pub struct FineType {
    pub fine_type_id: i32,
    pub name: String,
    pub default_amount_pence: i64,
}

/// A player's fines, payments and what is left to pay, in pence.
pub struct PlayerBalance {
    pub squad_player_id: i32,
    pub name: String,
    pub fines_pence: i64,
    pub payments_pence: i64,
    pub balance_pence: i64,
}

/// A fine or a payment in a player's ledger.
pub struct LedgerEntry {
    pub entry_id: i32,
    pub is_payment: bool,
    pub player_name: String,
    pub description: String,
    pub amount_pence: i64,
    pub happened_on: String,
    pub note: Option<String>,
}

/// A player as the squad admin page lists them, hidden or not.
pub struct SquadRosterEntry {
    pub squad_player_id: i32,
    pub name: String,
    pub is_active: bool,
    pub balance_pence: i64,
}

/// A match of the squad's own team.
pub struct SquadFixture {
    pub squad_fixture_id: i32,
    pub competition: String,
    pub kicks_off_at: LocalDateTime,
    pub is_home: bool,
    pub opponent: String,
    pub venue: Option<String>,
}

/// A line of feedback on an admin page.
pub struct StatusMessage {
    pub text: String,
    pub is_error: bool,
}

impl StatusMessage {
    /// Feedback that something worked.
    pub fn confirmation(text: String) -> (m: StatusMessage)
        ensures
            m.text == text,
            !m.is_error,
    {
        StatusMessage { text, is_error: false }
    }

    /// Feedback that something failed.
    pub fn failure(text: String) -> (m: StatusMessage)
        ensures
            m.text == text,
            m.is_error,
    {
        StatusMessage { text, is_error: true }
    }
}

// ----- what the server stores -----

/// The note stored with a fine or payment: the typed note trimmed, or none when that is empty.
pub open spec fn stored_note_of(note: Seq<char>) -> Option<Seq<char>> {
    if trim(note).len() == 0 {
        None
    } else {
        Some(trim(note))
    }
}

/// The note stored with a fine or payment.
pub fn stored_note(note: &str) -> (stored: Option<String>)
    ensures
        match stored {
            Some(s) => stored_note_of(note@) == Some(s@),
            None => stored_note_of(note@) is None,
        },
{
    let trimmed = trim_chars(&chars_of(note));
    if trimmed.len() == 0 {
        None
    } else {
        Some(string_from(&trimmed))
    }
}

/// Why the server refuses a change to the ledger.
#[derive(Clone, Copy, Debug, PartialEq, Eq)]
pub enum LedgerRefusal {
    AmountNotPositive,
    UnknownFineType,
    EntryNotFound,
}

impl LedgerRefusal {
    /// The message the admin sees.
    pub fn message(&self) -> (text: &'static str)
        ensures
            text@ == match *self {
                LedgerRefusal::AmountNotPositive => "amount must be positive"@,
                LedgerRefusal::UnknownFineType => "unknown fine type"@,
                LedgerRefusal::EntryNotFound => "entry not found"@,
            },
    {
        match self {
            LedgerRefusal::AmountNotPositive => "amount must be positive",
            LedgerRefusal::UnknownFineType => "unknown fine type",
            LedgerRefusal::EntryNotFound => "entry not found",
        }
    }
}

/// A payment is stored only for a positive amount.
pub fn check_payment_amount(amount_pence: i64) -> (checked: Result<i64, LedgerRefusal>)
    ensures
        checked == (if amount_pence > 0 {
            Ok::<i64, LedgerRefusal>(amount_pence)
        } else {
            Err(LedgerRefusal::AmountNotPositive)
        }),
{
    if amount_pence <= 0 {
        Err(LedgerRefusal::AmountNotPositive)
    } else {
        Ok(amount_pence)
    }
}

/// A fine is recorded only where its fine type exists and is active, that is where the insert
/// wrote a row.
pub fn fine_insert_outcome(rows_affected: u64) -> (outcome: Result<(), LedgerRefusal>)
    ensures
        outcome == (if rows_affected == 0 {
            Err(LedgerRefusal::UnknownFineType)
        } else {
            Ok::<(), LedgerRefusal>(())
        }),
{
    if rows_affected == 0 {
        Err(LedgerRefusal::UnknownFineType)
    } else {
        Ok(())
    }
}

/// An entry is undone only where the delete removed a row.
pub fn delete_outcome(rows_affected: u64) -> (outcome: Result<(), LedgerRefusal>)
    ensures
        outcome == (if rows_affected == 0 {
            Err(LedgerRefusal::EntryNotFound)
        } else {
            Ok::<(), LedgerRefusal>(())
        }),
{
    if rows_affected == 0 {
        Err(LedgerRefusal::EntryNotFound)
    } else {
        Ok(())
    }
}

/// The statement that undoes an entry: payments and fines live in tables of their own.
pub fn delete_statement(is_payment: bool) -> (statement: &'static str)
    ensures
        statement@ == (if is_payment {
            "DELETE FROM payment WHERE payment_id = ?"@
        } else {
            "DELETE FROM fine WHERE fine_id = ?"@
        }),
{
    if is_payment {
        "DELETE FROM payment WHERE payment_id = ?"
    } else {
        "DELETE FROM fine WHERE fine_id = ?"
    }
}

// ----- the admin forms -----

/// Why an admin form is not sent.
#[derive(Clone, Copy, Debug, PartialEq, Eq)]
pub enum FormProblem {
    NoPlayer,
    NoFineType,
    AmountUnreadable,
    AmountZero,
}

impl FormProblem {
    /// The message shown for the problem.
    pub fn message(&self) -> (text: &'static str)
        ensures
            text@ == match *self {
                FormProblem::NoPlayer => "Pick a player."@,
                FormProblem::NoFineType => "Pick a fine."@,
                FormProblem::AmountUnreadable => "Amount must look like 5 or 5.50."@,
                FormProblem::AmountZero => "Amount must be more than zero."@,
            },
    {
        match self {
            FormProblem::NoPlayer => "Pick a player.",
            FormProblem::NoFineType => "Pick a fine.",
            FormProblem::AmountUnreadable => "Amount must look like 5 or 5.50.",
            FormProblem::AmountZero => "Amount must be more than zero.",
        }
    }
}

/// Checks the fine form: a player and a fine type must be picked (the note goes as typed).
pub fn check_fine_form(player: Option<i32>, fine_type: Option<i32>) -> (checked: Result<
    (i32, i32),
    FormProblem,
>)
    ensures
        checked == (match (player, fine_type) {
            (None, _) => Err(FormProblem::NoPlayer),
            (Some(_), None) => Err(FormProblem::NoFineType),
            (Some(p), Some(f)) => Ok::<(i32, i32), FormProblem>((p, f)),
        }),
{
    match player {
        None => Err(FormProblem::NoPlayer),
        Some(p) => match fine_type {
            None => Err(FormProblem::NoFineType),
            Some(f) => Ok((p, f)),
        },
    }
}

/// What the payment form sends for the player and the typed amount: the player and the amount
/// in pence, once a player is picked and the amount reads as more than nothing.
pub open spec fn payment_form_result(player: Option<i32>, amount_text: Seq<char>) -> Result<
    (i32, i64),
    FormProblem,
> {
    match player {
        None => Err(FormProblem::NoPlayer),
        Some(p) => match pounds_text_value(amount_text) {
            None => Err(FormProblem::AmountUnreadable),
            Some(a) => if a == 0 {
                Err(FormProblem::AmountZero)
            } else {
                Ok((p, a))
            },
        },
    }
}

/// Checks the payment form.
pub fn check_payment_form(player: Option<i32>, amount_text: &str) -> (checked: Result<
    (i32, i64),
    FormProblem,
>)
    ensures
        checked == payment_form_result(player, amount_text@),
{
    match player {
        None => Err(FormProblem::NoPlayer),
        Some(p) => match parse_pounds_to_pence(amount_text) {
            None => Err(FormProblem::AmountUnreadable),
            Some(a) => if a == 0 {
                Err(FormProblem::AmountZero)
            } else {
                Ok((p, a))
            },
        },
    }
}

/// Every payment the form sends is one the server stores: the amount is positive.
pub proof fn sent_payments_are_positive(player: Option<i32>, amount_text: Seq<char>)
    ensures
        payment_form_result(player, amount_text) matches Ok((_, a)) ==> a > 0,
{
}

/// The confirmation shown once a payment is stored.
pub fn payment_recorded_message(amount_pence: i64) -> (text: String)
    ensures
        text@ == "Payment of "@ + pence_text(amount_pence as int) + " recorded"@,
{
    let mut out: Vec<char> = Vec::new();
    push_str(&mut out, "Payment of ");
    push_str(&mut out, format_pence(amount_pence).as_str());
    push_str(&mut out, " recorded");
    string_from(&out)
}

/// The label of a fine type in the fine menu: its name and what it costs.
pub open spec fn fine_label_text(name: Seq<char>, amount_pence: i64) -> Seq<char> {
    name + " — "@ + pence_text(amount_pence as int)
}

/// The fine menu: one entry per fine type, in order.
pub fn fine_options(tariff: &Vec<FineType>) -> (options: Vec<SelectOption>)
    ensures
        options@.len() == tariff@.len(),
        forall|i: int|
            0 <= i < tariff@.len() ==> #[trigger] options@[i].value == tariff@[i].fine_type_id
                && options@[i].label@ == fine_label_text(
                tariff@[i].name@,
                tariff@[i].default_amount_pence,
            ),
{
    let mut options: Vec<SelectOption> = Vec::new();
    let mut i: usize = 0;
    while i < tariff.len()
        invariant
            i <= tariff@.len(),
            options@.len() == i,
            forall|k: int|
                0 <= k < i ==> #[trigger] options@[k].value == tariff@[k].fine_type_id
                    && options@[k].label@ == fine_label_text(
                    tariff@[k].name@,
                    tariff@[k].default_amount_pence,
                ),
        decreases tariff@.len() - i,
    {
        let f = &tariff[i];
        let mut label: Vec<char> = Vec::new();
        push_str(&mut label, f.name.as_str());
        push_str(&mut label, " — ");
        push_str(&mut label, format_pence(f.default_amount_pence).as_str());
        let option = SelectOption { value: f.fine_type_id, label: string_from(&label) };
        assert(option.label@ == fine_label_text(f.name@, f.default_amount_pence));
        options.push(option);
        assert(options@[i as int] == option);
        i = i + 1;
    }
    options
}

/// The player menu: one entry per player, in order, labelled with the name.
pub fn player_options(squad: &Vec<SquadPlayer>) -> (options: Vec<SelectOption>)
    ensures
        options@.len() == squad@.len(),
        forall|i: int|
            0 <= i < squad@.len() ==> #[trigger] options@[i].value == squad@[i].squad_player_id
                && options@[i].label@ == squad@[i].name@,
{
    let mut options: Vec<SelectOption> = Vec::new();
    let mut i: usize = 0;
    while i < squad.len()
        invariant
            i <= squad@.len(),
            options@.len() == i,
            forall|k: int|
                0 <= k < i ==> #[trigger] options@[k].value == squad@[k].squad_player_id
                    && options@[k].label@ == squad@[k].name@,
        decreases squad@.len() - i,
    {
        let p = &squad[i];
        let option = SelectOption { value: p.squad_player_id, label: p.name.clone() };
        options.push(option);
        assert(options@[i as int] == option);
        i = i + 1;
    }
    options
}

// ----- the ledger -----

/// The note part of a ledger line: nothing for no note or an empty one, else " · " and the note.
pub open spec fn note_suffix(note: Option<Seq<char>>) -> Seq<char> {
    match note {
        Some(n) => if n.len() == 0 {
            Seq::empty()
        } else {
            " · "@ + n
        },
        None => Seq::empty(),
    }
}

fn push_note_suffix(out: &mut Vec<char>, note: &Option<String>)
    ensures
        final(out)@ == old(out)@ + note_suffix(
            match note {
                Some(n) => Some(n@),
                None => None,
            },
        ),
{
    match note {
        Some(n) => {
            if !n.as_str().is_empty() {
                push_str(out, " · ");
                push_str(out, n.as_str());
            }
        },
        None => {},
    }
}

pub open spec fn note_view(note: Option<String>) -> Option<Seq<char>> {
    match note {
        Some(n) => Some(n@),
        None => None,
    }
}

/// The detail line of an entry on a player's page: its date, then its note.
pub fn entry_detail(entry: &LedgerEntry) -> (line: String)
    ensures
        line@ == entry.happened_on@ + note_suffix(note_view(entry.note)),
{
    let mut out: Vec<char> = Vec::new();
    push_str(&mut out, entry.happened_on.as_str());
    push_note_suffix(&mut out, &entry.note);
    string_from(&out)
}

/// The detail line of an entry in the admin's recent list: what it was, its date, its note.
pub fn recent_entry_detail(entry: &LedgerEntry) -> (line: String)
    ensures
        line@ == entry.description@ + " · "@ + entry.happened_on@ + note_suffix(note_view(entry.note)),
{
    let mut out: Vec<char> = Vec::new();
    push_str(&mut out, entry.description.as_str());
    push_str(&mut out, " · ");
    push_str(&mut out, entry.happened_on.as_str());
    push_note_suffix(&mut out, &entry.note);
    string_from(&out)
}

/// The amount of an entry on a player's page: payments are shown as taken off.
pub fn entry_amount(entry: &LedgerEntry) -> (label: String)
    ensures
        label@ == (if entry.is_payment {
            "-"@ + pence_text(entry.amount_pence as int)
        } else {
            pence_text(entry.amount_pence as int)
        }),
{
    let mut out: Vec<char> = Vec::new();
    if entry.is_payment {
        push_str(&mut out, "-");
    }
    push_str(&mut out, format_pence(entry.amount_pence).as_str());
    string_from(&out)
}

/// The balance of the player with the given id, if listed (the first one with that id).
pub open spec fn balance_with_id(all: Seq<PlayerBalance>, id: i32) -> Option<nat>
    decreases all.len(),
{
    if all.len() == 0 {
        None
    } else if all[0].squad_player_id == id {
        Some(0)
    } else {
        match balance_with_id(all.drop_first(), id) {
            Some(i) => Some(i + 1),
            None => None,
        }
    }
}

/// Where the page's player stands in the balances: none for an id that is not a number or not
/// listed.
pub fn find_balance(all: &Vec<PlayerBalance>, id_text: &str) -> (index: Option<usize>)
    ensures
        match crate::text::parse_i32_spec(id_text@) {
            Some(id) => match index {
                Some(i) => balance_with_id(all@, id) == Some(i as nat),
                None => balance_with_id(all@, id) is None,
            },
            None => index is None,
        },
{
    let id = match crate::text::parse_i32(&chars_of(id_text)) {
        Some(id) => id,
        None => return None,
    };
    let mut i: usize = 0;
    assert(all@.skip(0) =~= all@);
    while i < all.len()
        invariant
            i <= all@.len(),
            crate::text::parse_i32_spec(id_text@) == Some(id),
            match balance_with_id(all@, id) {
                Some(j) => j >= i && balance_with_id(all@.skip(i as int), id) == Some((j - i) as nat),
                None => balance_with_id(all@.skip(i as int), id) is None,
            },
        decreases all@.len() - i,
    {
        assert(all@.skip(i as int).drop_first() =~= all@.skip(i + 1));
        assert(all@.skip(i as int)[0] == all@[i as int]);
        if all[i].squad_player_id == id {
            return Some(i);
        }
        i = i + 1;
    }
    None
}

// ----- the fines table -----

/// How a balance is shown: owing in red, nothing fined in grey, otherwise paid up in green.
#[derive(Clone, Copy, Debug, PartialEq, Eq)]
pub enum BalanceTone {
    Owes,
    NothingFined,
    PaidUp,
}

/// How a player's balance is shown.
pub fn balance_tone(b: &PlayerBalance) -> (tone: BalanceTone)
    ensures
        tone == (if b.balance_pence > 0 {
            BalanceTone::Owes
        } else if b.fines_pence == 0 {
            BalanceTone::NothingFined
        } else {
            BalanceTone::PaidUp
        }),
{
    if b.balance_pence > 0 {
        BalanceTone::Owes
    } else if b.fines_pence == 0 {
        BalanceTone::NothingFined
    } else {
        BalanceTone::PaidUp
    }
}

/// The sum of the fines of the players listed.
pub open spec fn fines_sum(all: Seq<PlayerBalance>) -> int
    decreases all.len(),
{
    if all.len() == 0 {
        0
    } else {
        fines_sum(all.drop_last()) + all.last().fines_pence
    }
}

/// The sum of the payments of the players listed.
pub open spec fn payments_sum(all: Seq<PlayerBalance>) -> int
    decreases all.len(),
{
    if all.len() == 0 {
        0
    } else {
        payments_sum(all.drop_last()) + all.last().payments_pence
    }
}

pub open spec fn fits_i64(v: int) -> bool {
    i64::MIN <= v <= i64::MAX
}

/// `a - b` as `i64::saturating_sub` computes it.
pub open spec fn saturating_difference(a: int, b: int) -> int {
    if a - b > i64::MAX {
        i64::MAX as int
    } else if a - b < i64::MIN {
        i64::MIN as int
    } else {
        a - b
    }
}

/// The totals row of the fines table: all fines, all payments, and what is outstanding.
pub fn fines_totals(all: &Vec<PlayerBalance>) -> (totals: (i64, i64, i64))
    requires
        forall|k: int| 0 <= k <= all@.len() ==> fits_i64(#[trigger] fines_sum(all@.take(k))),
        forall|k: int| 0 <= k <= all@.len() ==> fits_i64(#[trigger] payments_sum(all@.take(k))),
    ensures
        totals.0 == fines_sum(all@),
        totals.1 == payments_sum(all@),
        totals.2 == saturating_difference(fines_sum(all@), payments_sum(all@)),
{
    let mut fines: i64 = 0;
    let mut payments: i64 = 0;
    assert(all@.take(0) =~= Seq::<PlayerBalance>::empty());
    for i in 0..all.len()
        invariant
            fines == fines_sum(all@.take(i as int)),
            payments == payments_sum(all@.take(i as int)),
            forall|k: int| 0 <= k <= all@.len() ==> fits_i64(#[trigger] fines_sum(all@.take(k))),
            forall|k: int| 0 <= k <= all@.len() ==> fits_i64(#[trigger] payments_sum(all@.take(k))),
    {
        proof {
            assert(all@.take(i + 1).drop_last() =~= all@.take(i as int));
            assert(all@.take(i + 1).last() == all@[i as int]);
            assert(fits_i64(fines_sum(all@.take(i + 1))));
            assert(fits_i64(payments_sum(all@.take(i + 1))));
        }
        fines = fines + all[i].fines_pence;
        payments = payments + all[i].payments_pence;
    }
    assert(all@.take(all@.len() as int) =~= all@);
    let difference: i128 = fines as i128 - payments as i128;
    let outstanding: i64 = if difference > i64::MAX as i128 {
        i64::MAX
    } else if difference < i64::MIN as i128 {
        i64::MIN
    } else {
        difference as i64
    };
    (fines, payments, outstanding)
}

// ----- the squad roster -----

/// The number of players shown.
pub open spec fn active_count(all: Seq<SquadRosterEntry>) -> nat
    decreases all.len(),
{
    if all.len() == 0 {
        0
    } else {
        active_count(all.drop_last()) + if all.last().is_active {
            1nat
        } else {
            0nat
        }
    }
}

/// What hidden players still owe: the sum of their positive balances.
pub open spec fn hidden_owing(all: Seq<SquadRosterEntry>) -> int
    decreases all.len(),
{
    if all.len() == 0 {
        0
    } else {
        hidden_owing(all.drop_last()) + if !all.last().is_active && all.last().balance_pence > 0 {
            all.last().balance_pence as int
        } else {
            0
        }
    }
}

proof fn lemma_active_count_bound(all: Seq<SquadRosterEntry>)
    ensures
        active_count(all) <= all.len(),
    decreases all.len(),
{
    if all.len() > 0 {
        lemma_active_count_bound(all.drop_last());
    }
}

/// The counts above the roster, and what hidden players owe.
pub struct RosterSummary {
    pub active_count: usize,
    pub hidden_count: usize,
    pub hidden_owing_pence: i64,
}

/// Counts the roster: players shown, players hidden, and what the hidden ones owe.
pub fn roster_summary(players: &Vec<SquadRosterEntry>) -> (summary: RosterSummary)
    requires
        forall|k: int|
            0 <= k <= players@.len() ==> fits_i64(#[trigger] hidden_owing(players@.take(k))),
    ensures
        summary.active_count == active_count(players@),
        summary.active_count + summary.hidden_count == players@.len(),
        summary.hidden_owing_pence == hidden_owing(players@),
{
    let mut active: usize = 0;
    let mut owing: i64 = 0;
    assert(players@.take(0) =~= Seq::<SquadRosterEntry>::empty());
    for i in 0..players.len()
        invariant
            active == active_count(players@.take(i as int)),
            active <= i,
            owing == hidden_owing(players@.take(i as int)),
            forall|k: int|
                0 <= k <= players@.len() ==> fits_i64(#[trigger] hidden_owing(players@.take(k))),
    {
        proof {
            assert(players@.take(i + 1).drop_last() =~= players@.take(i as int));
            assert(players@.take(i + 1).last() == players@[i as int]);
            assert(fits_i64(hidden_owing(players@.take(i + 1))));
        }
        let p = &players[i];
        if p.is_active {
            active = active + 1;
        }
        if !p.is_active && p.balance_pence > 0 {
            owing = owing + p.balance_pence;
        }
    }
    assert(players@.take(players@.len() as int) =~= players@);
    RosterSummary {
        active_count: active,
        hidden_count: players.len().saturating_sub(active),
        hidden_owing_pence: owing,
    }
}

/// The warning under the roster counts, shown while hidden players owe money.
pub fn hidden_owing_warning(owing_pence: i64) -> (warning: Option<String>)
    ensures
        match warning {
            Some(w) => owing_pence > 0 && w@ == pence_text(owing_pence as int)
                + " is owed by hidden players and is not counted in the fines total."@,
            None => owing_pence <= 0,
        },
{
    if owing_pence > 0 {
        let mut out: Vec<char> = Vec::new();
        push_str(&mut out, format_pence(owing_pence).as_str());
        push_str(&mut out, " is owed by hidden players and is not counted in the fines total.");
        Some(string_from(&out))
    } else {
        None
    }
}

/// The label of a roster row's button, which flips whether the player is shown.
pub fn visibility_button_label(is_active: bool) -> (label: &'static str)
    ensures
        label@ == (if is_active {
            "Hide"@
        } else {
            "Show"@
        }),
{
    if is_active {
        "Hide"
    } else {
        "Show"
    }
}

/// The feedback once a player's visibility was changed.
pub fn visibility_changed(made_active: bool) -> (m: StatusMessage)
    ensures
        !m.is_error,
        m.text@ == (if made_active {
            "Player shown"@
        } else {
            "Player hidden"@
        }),
{
    let text = if made_active {
        "Player shown"
    } else {
        "Player hidden"
    };
    StatusMessage::confirmation(string_from(&chars_of(text)))
}

// ----- the squad's own matches -----

/// How a match of the squad is shown.
pub struct SquadFixtureLine {
    pub day_label: String,
    pub time_label: String,
    pub venue: String,
}

/// The day, the kick-off time and the venue (empty where unknown) of a squad match.
pub fn squad_fixture_line(f: &SquadFixture) -> (line: SquadFixtureLine)
    ensures
        line.day_label@ == crate::datetime::day_label_text(f.kicks_off_at),
        line.time_label@ == crate::datetime::clock_label_text(f.kicks_off_at),
        line.venue@ == (match f.venue {
            Some(v) => v@,
            None => Seq::<char>::empty(),
        }),
{
    SquadFixtureLine {
        day_label: day_label(&f.kicks_off_at),
        time_label: clock_label(&f.kicks_off_at),
        venue: match &f.venue {
            Some(v) => v.clone(),
            None => String::new(),
        },
    }
}

} // verus!
