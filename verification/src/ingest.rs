//! The statement that removes fixtures a division no longer lists.

use vstd::prelude::*;
use crate::text::{push_str, string_from};

verus! {

/// `n` placeholders, `?`, separated by `, `.
pub open spec fn placeholders(n: nat) -> Seq<char>
    decreases n,
{
    if n == 0 {
        Seq::empty()
    } else if n == 1 {
        "?"@
    } else {
        placeholders((n - 1) as nat) + ", ?"@
    }
}

pub open spec fn delete_division_fixtures_text() -> Seq<char> {
    "DELETE FROM fixture\n             WHERE division_id = (SELECT division_id FROM division WHERE source_key = ?)"@
}

/// The statement that deletes the fixtures of a division (bound first) other than the
/// `active_count` fixtures still listed (bound after it); all of them where none is listed.
pub open spec fn stale_fixtures_statement_text(active_count: nat) -> Seq<char> {
    if active_count == 0 {
        delete_division_fixtures_text()
    } else {
        "DELETE FROM fixture\n         WHERE division_id = (SELECT division_id FROM division WHERE source_key = ?)\n           AND source_key NOT IN ("@
            + placeholders(active_count) + ")"@
    }
}

pub fn stale_fixtures_statement(active_count: usize) -> (statement: String)
    ensures
        statement@ == stale_fixtures_statement_text(active_count as nat),
{
    let mut out: Vec<char> = Vec::new();
    if active_count == 0 {
        push_str(
            &mut out,
            "DELETE FROM fixture\n             WHERE division_id = (SELECT division_id FROM division WHERE source_key = ?)",
        );
        return string_from(&out);
    }
    push_str(
        &mut out,
        "DELETE FROM fixture\n         WHERE division_id = (SELECT division_id FROM division WHERE source_key = ?)\n           AND source_key NOT IN (",
    );
    let ghost head = out@;
    push_str(&mut out, "?");
    let mut i: usize = 1;
    while i < active_count
        invariant
            1 <= i <= active_count,
            out@ == head + placeholders(i as nat),
        decreases active_count - i,
    {
        push_str(&mut out, ", ?");
        i = i + 1;
        assert(out@ =~= head + placeholders(i as nat));
    }
    push_str(&mut out, ")");
    string_from(&out)
}

} // verus!
