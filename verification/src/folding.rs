//! Content-line folding for iCalendar text (RFC 5545, section 3.1): a line longer than
//! 75 octets is broken with a CRLF and a space, never inside a character.

use vstd::prelude::*;
use crate::text::{
    char_utf8_width, char_width, lemma_char_width_bounds, lemma_utf8_len_concat,
    lemma_utf8_len_single, push_all, utf8_len,
};

verus! {

/// The octets allowed on the first physical line of a content line.
pub open spec fn first_line_octets() -> int {
    75
}

/// The octets allowed after the leading space of each continuation line.
pub open spec fn continuation_octets() -> int {
    74
}

/// The number of leading characters of `s` whose UTF-8 encoding fits in `budget` bytes.
pub open spec fn fitting_prefix(s: Seq<char>, budget: int) -> nat
    decreases s.len(),
{
    if s.len() > 0 && char_width(s[0]) <= budget {
        1 + fitting_prefix(s.drop_first(), budget - char_width(s[0]))
    } else {
        0
    }
}

pub proof fn lemma_fitting_prefix_bound(s: Seq<char>, budget: int)
    ensures
        fitting_prefix(s, budget) <= s.len(),
    decreases s.len(),
{
    if s.len() > 0 && char_width(s[0]) <= budget {
        lemma_fitting_prefix_bound(s.drop_first(), budget - char_width(s[0]));
    }
}

/// All of `s` fits exactly when its UTF-8 length is within the budget.
pub proof fn lemma_fitting_prefix_all(s: Seq<char>, budget: int)
    requires
        budget >= 0,
    ensures
        (fitting_prefix(s, budget) == s.len()) == (utf8_len(s) <= budget),
    decreases s.len(),
{
    lemma_fitting_prefix_bound(s, budget);
    if s.len() == 0 {
        assert(vstd::utf8::encode_utf8(s) =~= Seq::<u8>::empty());
    } else {
        assert(s =~= seq![s[0]] + s.drop_first());
        lemma_utf8_len_concat(seq![s[0]], s.drop_first());
        lemma_utf8_len_single(s[0]);
        lemma_char_width_bounds(s[0]);
        if char_width(s[0]) <= budget {
            lemma_fitting_prefix_all(s.drop_first(), budget - char_width(s[0]));
        }
        lemma_fitting_prefix_bound(s.drop_first(), budget - char_width(s[0]));
    }
}

/// The fitting prefix itself is within the budget.
pub proof fn lemma_fitting_prefix_fits(s: Seq<char>, budget: int)
    ensures
        utf8_len(s.take(fitting_prefix(s, budget) as int)) <= budget || fitting_prefix(s, budget)
            == 0,
        fitting_prefix(s, budget) == 0 ==> budget >= 0 || true,
    decreases s.len(),
{
    lemma_fitting_prefix_bound(s, budget);
    if s.len() > 0 && char_width(s[0]) <= budget {
        let k = fitting_prefix(s, budget);
        let rest = s.drop_first();
        let b = budget - char_width(s[0]);
        lemma_fitting_prefix_fits(rest, b);
        lemma_fitting_prefix_bound(rest, b);
        assert(s.take(k as int) =~= seq![s[0]] + rest.take((k - 1) as int));
        lemma_utf8_len_concat(seq![s[0]], rest.take((k - 1) as int));
        lemma_utf8_len_single(s[0]);
        if k - 1 == 0 {
            assert(rest.take(0) =~= Seq::<char>::empty());
            assert(vstd::utf8::encode_utf8(rest.take(0)) =~= Seq::<u8>::empty());
        }
    }
}

pub open spec fn crlf() -> Seq<char> {
    seq!['\r', '\n']
}

/// `line` as folded content: at most `max` octets before the first break, then at most
/// 74 after each leading space, ending with CRLF.
pub open spec fn fold_from(line: Seq<char>, max: int) -> Seq<char>
    decreases line.len(),
{
    if utf8_len(line) <= max {
        line + crlf()
    } else {
        let k = fitting_prefix(line, max);
        if k == 0 {
            line + crlf()
        } else {
            proof {
                lemma_fitting_prefix_bound(line, max);
            }
            line.take(k as int) + crlf() + seq![' '] + fold_from(
                line.skip(k as int),
                continuation_octets(),
            )
        }
    }
}

/// A content line folded as the feeds write it.
pub open spec fn folded(line: Seq<char>) -> Seq<char> {
    fold_from(line, first_line_octets())
}

/// The pieces of `line` that the physical lines of `fold_from(line, max)` carry.
pub open spec fn fold_pieces(line: Seq<char>, max: int) -> Seq<Seq<char>>
    decreases line.len(),
{
    if utf8_len(line) <= max {
        seq![line]
    } else {
        let k = fitting_prefix(line, max);
        if k == 0 {
            seq![line]
        } else {
            proof {
                lemma_fitting_prefix_bound(line, max);
            }
            seq![line.take(k as int)] + fold_pieces(line.skip(k as int), continuation_octets())
        }
    }
}

/// The pieces joined by the folding break, then the final CRLF.
pub open spec fn join_folds(pieces: Seq<Seq<char>>) -> Seq<char>
    decreases pieces.len(),
{
    if pieces.len() == 0 {
        crlf()
    } else if pieces.len() == 1 {
        pieces[0] + crlf()
    } else {
        pieces[0] + crlf() + seq![' '] + join_folds(pieces.drop_first())
    }
}

/// Folding keeps the text and the octet limits of RFC 5545: the folded line is its pieces
/// joined by CRLF and a space; the pieces, put back together, are the line; the first piece
/// has at most 75 octets and every later one at most 74, so that with its leading space no
/// physical line is longer than 75 octets.
pub proof fn folding_keeps_text_within_line_limit(line: Seq<char>)
    ensures
        folded(line) == join_folds(fold_pieces(line, first_line_octets())),
        fold_pieces(line, first_line_octets()).flatten() == line,
        forall|i: int|
            0 <= i < fold_pieces(line, first_line_octets()).len() ==> utf8_len(
                #[trigger] fold_pieces(line, first_line_octets())[i],
            ) <= (if i == 0 {
                first_line_octets()
            } else {
                continuation_octets()
            }),
{
    lemma_fold_pieces(line, first_line_octets());
}

proof fn lemma_fold_pieces(line: Seq<char>, max: int)
    requires
        max >= 4,
    ensures
        fold_from(line, max) == join_folds(fold_pieces(line, max)),
        fold_pieces(line, max).flatten() == line,
        fold_pieces(line, max).len() >= 1,
        forall|i: int|
            0 <= i < fold_pieces(line, max).len() ==> utf8_len(#[trigger] fold_pieces(line, max)[i])
                <= (if i == 0 {
                max
            } else {
                continuation_octets()
            }),
    decreases line.len(),
{
    let pieces = fold_pieces(line, max);
    if utf8_len(line) <= max {
        assert(pieces =~= seq![line]);
        assert(pieces.drop_first() =~= Seq::<Seq<char>>::empty());
        assert(pieces.flatten() == pieces.first() + pieces.drop_first().flatten());
        assert(line + Seq::<char>::empty() =~= line);
    } else {
        let k = fitting_prefix(line, max);
        lemma_fitting_prefix_bound(line, max);
        if k == 0 {
            // The first character always fits in four octets.
            lemma_char_width_bounds(line[0]);
            assert(false) by {
                if line.len() == 0 {
                    assert(vstd::utf8::encode_utf8(line) =~= Seq::<u8>::empty());
                }
            }
        } else {
            let rest = line.skip(k as int);
            lemma_fold_pieces(rest, continuation_octets());
            lemma_fitting_prefix_fits(line, max);
            let tail = fold_pieces(rest, continuation_octets());
            assert(pieces =~= seq![line.take(k as int)] + tail);
            assert(pieces.drop_first() =~= tail);
            assert(pieces[0] == line.take(k as int));
            assert(pieces.flatten() == pieces.first() + pieces.drop_first().flatten());
            assert(line.take(k as int) + rest =~= line);
            assert forall|i: int| 0 <= i < pieces.len() implies utf8_len(#[trigger] pieces[i]) <= (
            if i == 0 {
                max
            } else {
                continuation_octets()
            }) by {
                if i > 0 {
                    assert(pieces[i] == tail[i - 1]);
                }
            }
        }
    }
}

/// Whether a text holds no carriage return and no line feed.
pub open spec fn no_line_break(s: Seq<char>) -> bool {
    forall|k: int| 0 <= k < s.len() ==> s[k] != '\r' && s[k] != '\n'
}

/// The physical lines that carry `pieces`: the first as it is, every later one after a space.
pub open spec fn physical_lines(pieces: Seq<Seq<char>>) -> Seq<Seq<char>> {
    Seq::new(
        pieces.len(),
        |i: int|
            if i == 0 {
                pieces[0]
            } else {
                seq![' '] + pieces[i]
            },
    )
}

/// Lines, each ended by CRLF.
pub open spec fn crlf_lines(lines: Seq<Seq<char>>) -> Seq<char>
    decreases lines.len(),
{
    if lines.len() == 0 {
        Seq::empty()
    } else {
        lines[0] + crlf() + crlf_lines(lines.drop_first())
    }
}

/// A text with every folding break (CRLF and a space) taken out, as a reader unfolds it.
pub open spec fn unfolded(s: Seq<char>) -> Seq<char>
    decreases s.len(),
{
    if s.len() == 0 {
        Seq::empty()
    } else if s.len() >= 3 && s[0] == '\r' && s[1] == '\n' && s[2] == ' ' {
        unfolded(s.skip(3))
    } else {
        seq![s[0]] + unfolded(s.drop_first())
    }
}

proof fn lemma_join_as_lines(pieces: Seq<Seq<char>>)
    requires
        pieces.len() >= 1,
    ensures
        join_folds(pieces) == crlf_lines(physical_lines(pieces)),
    decreases pieces.len(),
{
    let lines = physical_lines(pieces);
    assert(lines[0] == pieces[0]);
    assert(crlf_lines(lines) == lines[0] + crlf() + crlf_lines(lines.drop_first()));
    if pieces.len() == 1 {
        assert(lines.drop_first() =~= Seq::<Seq<char>>::empty());
        assert(crlf_lines(lines.drop_first()) == Seq::<char>::empty());
        assert(pieces[0] + crlf() + Seq::<char>::empty() =~= pieces[0] + crlf());
    } else {
        let q = pieces.drop_first();
        lemma_join_as_lines(q);
        let r = lines.drop_first();
        let sq = physical_lines(q);
        assert(r[0] == seq![' '] + q[0]);
        assert(r.drop_first() =~= sq.drop_first());
        assert(crlf_lines(r) == r[0] + crlf() + crlf_lines(r.drop_first()));
        assert(crlf_lines(sq) == sq[0] + crlf() + crlf_lines(sq.drop_first()));
        assert(seq![' '] + crlf_lines(sq) =~= crlf_lines(r));
        assert(join_folds(pieces) =~= pieces[0] + crlf() + (seq![' '] + join_folds(q)));
    }
}

proof fn lemma_unfolded_keeps(a: Seq<char>, b: Seq<char>)
    requires
        forall|k: int| 0 <= k < a.len() ==> a[k] != '\r',
    ensures
        unfolded(a + b) == a + unfolded(b),
    decreases a.len(),
{
    if a.len() > 0 {
        let ab = a + b;
        assert(ab[0] == a[0]);
        assert(ab.drop_first() =~= a.drop_first() + b);
        lemma_unfolded_keeps(a.drop_first(), b);
        assert(a =~= seq![a[0]] + a.drop_first());
        assert(a + unfolded(b) =~= seq![a[0]] + (a.drop_first() + unfolded(b)));
    } else {
        assert(a + b =~= b);
        assert(a + unfolded(b) =~= unfolded(b));
    }
}

proof fn lemma_unfold_join(pieces: Seq<Seq<char>>)
    requires
        pieces.len() >= 1,
        forall|i: int| 0 <= i < pieces.len() ==> no_line_break(#[trigger] pieces[i]),
    ensures
        unfolded(join_folds(pieces)) == pieces.flatten() + crlf(),
    decreases pieces.len(),
{
    let p0 = pieces[0];
    assert(no_line_break(p0));
    assert(pieces.flatten() == p0 + pieces.drop_first().flatten());
    if pieces.len() == 1 {
        lemma_unfolded_keeps(p0, crlf());
        assert(crlf().len() == 2);
        assert(unfolded(crlf()) =~= crlf()) by {
            let n = seq!['\n'];
            assert(n.drop_first() =~= Seq::<char>::empty());
            assert(unfolded(n.drop_first()) == Seq::<char>::empty());
            assert(unfolded(n) == seq![n[0]] + unfolded(n.drop_first()));
            assert(unfolded(n) =~= n);
            assert(crlf().drop_first() =~= n);
            assert(unfolded(crlf()) == seq![crlf()[0]] + unfolded(crlf().drop_first()));
        }
        assert(pieces.drop_first().flatten() =~= Seq::<char>::empty()) by {
            assert(pieces.drop_first() =~= Seq::<Seq<char>>::empty());
        }
        assert(p0 + Seq::<char>::empty() =~= p0);
    } else {
        let q = pieces.drop_first();
        assert forall|i: int| 0 <= i < q.len() implies no_line_break(#[trigger] q[i]) by {
            assert(q[i] == pieces[i + 1]);
        }
        lemma_unfold_join(q);
        let rest = crlf() + seq![' '] + join_folds(q);
        assert(join_folds(pieces) =~= p0 + rest);
        lemma_unfolded_keeps(p0, rest);
        assert(rest.skip(3) =~= join_folds(q));
        assert(p0 + (q.flatten() + crlf()) =~= (p0 + q.flatten()) + crlf());
    }
}

proof fn lemma_pieces_without_breaks(line: Seq<char>, max: int)
    requires
        no_line_break(line),
    ensures
        forall|i: int|
            0 <= i < fold_pieces(line, max).len() ==> no_line_break(#[trigger] fold_pieces(line, max)[i]),
    decreases line.len(),
{
    if utf8_len(line) <= max {
    } else {
        let k = fitting_prefix(line, max);
        if k != 0 {
            lemma_fitting_prefix_bound(line, max);
            let rest = line.skip(k as int);
            assert(no_line_break(rest)) by {
                assert forall|j: int| 0 <= j < rest.len() implies rest[j] != '\r' && rest[j] != '\n' by {
                    assert(rest[j] == line[j + k]);
                }
            }
            assert(no_line_break(line.take(k as int))) by {
                assert forall|j: int| 0 <= j < k implies line.take(k as int)[j] != '\r'
                    && line.take(k as int)[j] != '\n' by {
                    assert(line.take(k as int)[j] == line[j]);
                }
            }
            lemma_pieces_without_breaks(rest, continuation_octets());
            let pieces = fold_pieces(line, max);
            let tail = fold_pieces(rest, continuation_octets());
            assert(pieces =~= seq![line.take(k as int)] + tail);
            assert forall|i: int| 0 <= i < pieces.len() implies no_line_break(#[trigger] pieces[i]) by {
                if i > 0 {
                    assert(pieces[i] == tail[i - 1]);
                }
            }
        }
    }
}

/// A content line without line breaks, as `push_folded` appends it: unfolded again (every CRLF
/// and space taken out) it is the line and its final CRLF; it is a sequence of physical lines,
/// each ended by CRLF, none holding a CR or LF of its own, each of at most 75 octets, every one
/// after the first starting with a space; and a line of at most 75 octets is written as it is,
/// with CRLF after it. (The lines hold whole characters, so none is split.)
pub proof fn folded_line_reads_back(line: Seq<char>)
    requires
        no_line_break(line),
    ensures
        unfolded(folded(line)) == line + crlf(),
        folded(line) == crlf_lines(physical_lines(fold_pieces(line, first_line_octets()))),
        forall|i: int|
            0 <= i < physical_lines(fold_pieces(line, first_line_octets())).len() ==> no_line_break(
                #[trigger] physical_lines(fold_pieces(line, first_line_octets()))[i],
            ) && utf8_len(physical_lines(fold_pieces(line, first_line_octets()))[i])
                <= first_line_octets(),
        forall|i: int|
            0 < i < physical_lines(fold_pieces(line, first_line_octets())).len() ==> (
            #[trigger] physical_lines(fold_pieces(line, first_line_octets()))[i])[0] == ' ',
        utf8_len(line) <= first_line_octets() ==> folded(line) == line + crlf(),
{
    let pieces = fold_pieces(line, first_line_octets());
    lemma_fold_pieces(line, first_line_octets());
    lemma_pieces_without_breaks(line, first_line_octets());
    lemma_join_as_lines(pieces);
    lemma_unfold_join(pieces);
    let lines = physical_lines(pieces);
    assert forall|i: int| 0 <= i < lines.len() implies no_line_break(#[trigger] lines[i])
        && utf8_len(lines[i]) <= first_line_octets() by {
        assert(no_line_break(pieces[i]));
        if i > 0 {
            let l = seq![' '] + pieces[i];
            assert(lines[i] == l);
            assert forall|j: int| 0 <= j < l.len() implies l[j] != '\r' && l[j] != '\n' by {
                if j > 0 {
                    assert(l[j] == pieces[i][j - 1]);
                }
            }
            lemma_utf8_len_concat(seq![' '], pieces[i]);
            lemma_utf8_len_single(' ');
        }
    }
}

/// Where `fold_point` breaks `line`: `None` when all of it fits in `max_bytes`, otherwise
/// the number of characters that fit, if any.
pub fn fold_point(line: &Vec<char>, from: usize, max_bytes: usize) -> (split: Option<usize>)
    requires
        from <= line.len(),
    ensures
        match split {
            None => utf8_len(line@.skip(from as int)) <= max_bytes || fitting_prefix(
                line@.skip(from as int),
                max_bytes as int,
            ) == 0,
            Some(k) => utf8_len(line@.skip(from as int)) > max_bytes && k == fitting_prefix(
                line@.skip(from as int),
                max_bytes as int,
            ) && k > 0,
        },
{
    let mut j: usize = from;
    let mut budget: usize = max_bytes;
    assert(line@.skip(from as int) =~= line@.skip(j as int));
    while j < line.len() && char_utf8_width(line[j]) <= budget
        invariant
            from <= j <= line.len(),
            budget <= max_bytes,
            fitting_prefix(line@.skip(from as int), max_bytes as int) == (j - from)
                + fitting_prefix(line@.skip(j as int), budget as int),
        decreases line.len() - j,
    {
        let w = char_utf8_width(line[j]);
        proof {
            let t = line@.skip(j as int);
            assert(t[0] == line@[j as int]);
            assert(t.drop_first() =~= line@.skip(j + 1));
        }
        budget = budget - w;
        j = j + 1;
    }
    proof {
        let t = line@.skip(j as int);
        if j < line.len() {
            assert(t[0] == line@[j as int]);
        } else {
            assert(t.len() == 0);
        }
        assert(fitting_prefix(t, budget as int) == 0);
        lemma_fitting_prefix_all(line@.skip(from as int), max_bytes as int);
        lemma_fitting_prefix_bound(line@.skip(from as int), max_bytes as int);
    }
    if j == line.len() || j == from {
        None
    } else {
        Some(j - from)
    }
}

/// Appends `line` to `output` as a folded content line.
pub fn push_folded(output: &mut Vec<char>, line: &Vec<char>)
    ensures
        final(output)@ == old(output)@ + folded(line@),
{
    let ghost start = output@;
    let mut pos: usize = 0;
    let mut max_bytes: usize = 75;
    assert(line@.skip(0) =~= line@);
    assert(start + Seq::<char>::empty() =~= start);
    loop
        invariant
            pos <= line.len(),
            max_bytes == 75 || max_bytes == 74,
            start == old(output)@,
            start + folded(line@) == output@ + fold_from(line@.skip(pos as int), max_bytes as int),
        decreases line.len() - pos,
    {
        let split = fold_point(line, pos, max_bytes);
        match split {
            None => {
                let ghost rest = line@.skip(pos as int);
                let tail = crate::text::slice_chars(line, pos, line.len());
                assert(tail@ =~= rest);
                push_all(output, &tail);
                output.push('\r');
                output.push('\n');
                assert(fold_from(rest, max_bytes as int) == rest + crlf());
                assert(output@ =~= start + folded(line@));
                assert(start == old(output)@);
                return;
            },
            Some(k) => {
                let ghost rest = line@.skip(pos as int);
                proof {
                    lemma_fitting_prefix_bound(rest, max_bytes as int);
                    assert(rest.take(k as int) =~= line@.subrange(pos as int, pos + k));
                    assert(rest.skip(k as int) =~= line@.skip(pos + k));
                }
                let piece = crate::text::slice_chars(line, pos, pos + k);
                let ghost before = output@;
                push_all(output, &piece);
                output.push('\r');
                output.push('\n');
                output.push(' ');
                assert(output@ =~= before + rest.take(k as int) + crlf() + seq![' ']);
                pos = pos + k;
                max_bytes = 74;
            },
        }
    }
}

} // verus!
