//! Amounts of money in pence: how the squad pages print them and read them back.

use vstd::prelude::*;
use crate::text::{
    chars_of, decimal, first_occurrence, is_ascii_digit, lemma_first_occurrence_unique,
    lemma_no_occurrence, lemma_utf8_len_concat, lemma_utf8_len_single, occurs_at, occurs_at_index,
    parse_i64, parse_i64_spec, push_decimal, push_two_digits, slice_chars, string_from, trim,
    trim_chars, two_digits, utf8_len, char_utf8_width, lemma_decimal, lemma_two_digits, lemma_parse_digits,
    lemma_trim_unchanged, lemma_utf8_len_ascii, is_ascii_text,
};

verus! {

/// How `format_pence` prints an amount: an optional `-`, `£`, whole pounds, `.`, two digits of pence.
pub open spec fn pence_text(pence: int) -> Seq<char> {
    let magnitude: nat = if pence < 0 {
        (-pence) as nat
    } else {
        pence as nat
    };
    let sign: Seq<char> = if pence < 0 {
        seq!['-']
    } else {
        Seq::empty()
    };
    sign + seq!['£'] + decimal(magnitude / 100) + seq!['.'] + two_digits(magnitude % 100)
}

/// Prints an amount of pence as pounds, such as `£5.00` or `-£2.50`.
pub fn format_pence(pence: i64) -> (s: String)
    ensures
        s@ == pence_text(pence as int),
{
    let mut out: Vec<char> = Vec::new();
    let magnitude: u64 = if pence < 0 {
        (0i128 - pence as i128) as u64
    } else {
        pence as u64
    };
    if pence < 0 {
        out.push('-');
    }
    out.push('£');
    push_decimal(&mut out, magnitude / 100);
    out.push('.');
    push_two_digits(&mut out, magnitude % 100);
    proof {
        let sign: Seq<char> = if pence < 0 {
            seq!['-']
        } else {
            Seq::empty()
        };
        assert(out@ =~= sign + seq!['£'] + decimal((magnitude / 100) as nat) + seq!['.']
            + two_digits((magnitude % 100) as nat));
    }
    string_from(&out)
}

/// `s` without the `£` signs at its start (std's `trim_start_matches('£')`).
pub open spec fn strip_pound_signs(s: Seq<char>) -> Seq<char>
    decreases s.len(),
{
    if s.len() > 0 && s[0] == '£' {
        strip_pound_signs(s.drop_first())
    } else {
        s
    }
}

pub open spec fn has_ascii_digit(s: Seq<char>) -> bool {
    exists|i: int| 0 <= i < s.len() && is_ascii_digit(#[trigger] s[i])
}

/// The pounds text and the pence text of an amount: the parts before and after its first `.`.
pub open spec fn amount_parts(s: Seq<char>) -> (Seq<char>, Seq<char>) {
    match first_occurrence(s, seq!['.']) {
        Some(i) => (s.take(i as int), s.skip(i as int + 1)),
        None => (s, Seq::empty()),
    }
}

/// The pence that the text after the point stands for: none, tenths (one byte), or hundredths (two bytes).
pub open spec fn pence_part_value(t: Seq<char>) -> Option<int> {
    if utf8_len(t) == 0 {
        Some(0)
    } else if utf8_len(t) == 1 {
        match parse_i64_spec(t) {
            Some(v) => if i64::MIN <= v * 10 <= i64::MAX {
                Some(v * 10)
            } else {
                None
            },
            None => None,
        }
    } else if utf8_len(t) == 2 {
        match parse_i64_spec(t) {
            Some(v) => Some(v as int),
            None => None,
        }
    } else {
        None
    }
}

/// The amount in pence that `parse_pounds_to_pence` reads from `text`, if any.
pub open spec fn pounds_text_value(text: Seq<char>) -> Option<i64> {
    let trimmed = trim(strip_pound_signs(trim(text)));
    if !has_ascii_digit(trimmed) {
        None
    } else {
        let (pounds_text, pence_text) = amount_parts(trimmed);
        let pounds: Option<i64> = if pounds_text.len() == 0 {
            Some(0)
        } else {
            parse_i64_spec(pounds_text)
        };
        match (pounds, pence_part_value(pence_text)) {
            (Some(p), Some(q)) => if p < 0 || q < 0 {
                None
            } else if p * 100 + q <= i64::MAX {
                Some((p * 100 + q) as i64)
            } else {
                None
            },
            _ => None,
        }
    }
}

fn strip_pound_signs_chars(v: &Vec<char>) -> (out: Vec<char>)
    ensures
        out@ == strip_pound_signs(v@),
{
    let mut i: usize = 0;
    assert(v@.skip(0) =~= v@);
    while i < v.len() && v[i] == '£'
        invariant
            i <= v.len(),
            strip_pound_signs(v@) == strip_pound_signs(v@.skip(i as int)),
        decreases v.len() - i,
    {
        assert(v@.skip(i as int).drop_first() =~= v@.skip(i + 1));
        i = i + 1;
    }
    assert(v@.skip(i as int) =~= v@.subrange(i as int, v.len() as int));
    slice_chars(v, i, v.len())
}

fn contains_ascii_digit(v: &Vec<char>) -> (b: bool)
    ensures
        b == has_ascii_digit(v@),
{
    let mut i: usize = 0;
    while i < v.len()
        invariant
            i <= v.len(),
            forall|k: int| 0 <= k < i ==> !is_ascii_digit(#[trigger] v@[k]),
        decreases v.len() - i,
    {
        if '0' <= v[i] && v[i] <= '9' {
            assert(is_ascii_digit(v@[i as int]));
            return true;
        }
        i = i + 1;
    }
    false
}

/// `min(utf8_len(v), 3)`.
fn utf8_len_up_to_three(v: &Vec<char>) -> (n: usize)
    ensures
        n == (if utf8_len(v@) <= 2 {
            utf8_len(v@)
        } else {
            3
        }),
{
    let mut total: usize = 0;
    let mut i: usize = 0;
    assert(v@.take(0) =~= Seq::<char>::empty());
    assert(vstd::utf8::encode_utf8(Seq::<char>::empty()) =~= Seq::<u8>::empty());
    while i < v.len()
        invariant
            i <= v.len(),
            total == utf8_len(v@.take(i as int)),
            total <= 2,
        decreases v.len() - i,
    {
        let w = char_utf8_width(v[i]);
        proof {
            assert(v@.take(i + 1) =~= v@.take(i as int) + seq![v@[i as int]]);
            lemma_utf8_len_concat(v@.take(i as int), seq![v@[i as int]]);
            lemma_utf8_len_single(v@[i as int]);
        }
        total = total + w;
        i = i + 1;
        if total > 2 {
            proof {
                assert(v@ =~= v@.take(i as int) + v@.skip(i as int));
                lemma_utf8_len_concat(v@.take(i as int), v@.skip(i as int));
            }
            return 3;
        }
    }
    assert(v@.take(v.len() as int) =~= v@);
    total
}

/// Reads an amount typed as pounds, such as `5`, `5.5`, `5.50` or ` £5.50 `, as pence.
/// `None` for anything else, including negative amounts and more than two decimal places.
pub fn parse_pounds_to_pence(text: &str) -> (amount: Option<i64>)
    ensures
        amount == pounds_text_value(text@),
{
    let all = chars_of(text);
    let first_trim = trim_chars(&all);
    let stripped = strip_pound_signs_chars(&first_trim);
    let trimmed = trim_chars(&stripped);
    if !contains_ascii_digit(&trimmed) {
        return None;
    }
    let mut point: Vec<char> = Vec::new();
    point.push('.');
    assert(point@ =~= seq!['.']);
    let parts = split_once_chars(&trimmed, &point);
    let pounds_text = parts.0;
    let pence_text = parts.1;
    assert(amount_parts(trimmed@) == (pounds_text@, pence_text@));
    assert(trimmed@ == trim(strip_pound_signs(trim(text@))));
    let pounds: i64 = if pounds_text.len() == 0 {
        0
    } else {
        match parse_i64(&pounds_text) {
            Some(p) => p,
            None => return None,
        }
    };
    let width = utf8_len_up_to_three(&pence_text);
    let pence: i64 = if width == 0 {
        0
    } else if width == 1 {
        match parse_i64(&pence_text) {
            Some(v) => match v.checked_mul(10) {
                Some(t) => t,
                None => return None,
            },
            None => return None,
        }
    } else if width == 2 {
        match parse_i64(&pence_text) {
            Some(v) => v,
            None => return None,
        }
    } else {
        return None;
    };
    if pounds < 0 || pence < 0 {
        return None;
    }
    match pounds.checked_mul(100) {
        Some(hundreds) => hundreds.checked_add(pence),
        None => None,
    }
}

/// Splits `s` at the first occurrence of a non-empty `pat` (std's `str::split_once`,
/// with the whole text and an empty tail where `pat` does not occur).
pub fn split_once_chars(s: &Vec<char>, pat: &Vec<char>) -> (parts: (Vec<char>, Vec<char>))
    requires
        pat.len() > 0,
    ensures
        match first_occurrence(s@, pat@) {
            Some(i) => parts.0@ == s@.take(i as int) && parts.1@ == s@.skip(i as int + pat@.len()),
            None => parts.0@ == s@ && parts.1@ == Seq::<char>::empty(),
        },
{
    let mut i: usize = 0;
    while i < s.len()
        invariant
            pat.len() > 0,
            i <= s.len(),
            forall|k: int| 0 <= k < i ==> !#[trigger] occurs_at(s@, pat@, k),
        decreases s.len() - i,
    {
        if occurs_at_index(s, pat, i) {
            proof {
                lemma_first_occurrence_unique(s@, pat@, i as int);
                assert(s@.take(i as int) =~= s@.subrange(0, i as int));
                assert(s@.skip(i + pat@.len()) =~= s@.subrange(i + pat@.len(), s@.len() as int));
            }
            let head = slice_chars(s, 0, i);
            let tail = slice_chars(s, i + pat.len(), s.len());
            return (head, tail);
        }
        i = i + 1;
    }
    proof {
        assert forall|k: int| !#[trigger] occurs_at(s@, pat@, k) by {
            if 0 <= k < s@.len() {
            }
        }
        lemma_no_occurrence(s@, pat@);
        assert(s@.subrange(0, s@.len() as int) =~= s@);
    }
    (slice_chars(s, 0, s.len()), Vec::new())
}


proof fn lemma_pence_text_body(n: nat)
    ensures
        ({
            let d = decimal(n / 100);
            let t = two_digits(n % 100);
            let body = d + seq!['.'] + t;
            &&& pence_text(n as int) == seq!['£'] + body
            &&& trim(strip_pound_signs(trim(pence_text(n as int)))) == body
            &&& has_ascii_digit(body)
        }),
{
    let d = decimal(n / 100);
    let t = two_digits(n % 100);
    let body = d + seq!['.'] + t;
    let s = pence_text(n as int);
    lemma_decimal(n / 100);
    lemma_two_digits(n % 100);
    assert(s =~= seq!['£'] + body);
    assert(is_ascii_digit(d[0]));
    assert(is_ascii_digit(t[1]));
    assert(s.last() == t[1]);
    lemma_trim_unchanged(s);
    assert(s.drop_first() =~= body);
    assert(body[0] == d[0]);
    assert(strip_pound_signs(s) == strip_pound_signs(body));
    assert(strip_pound_signs(body) == body);
    assert(body.last() == t[1]);
    lemma_trim_unchanged(body);
    assert(is_ascii_digit(body[0]));
}

proof fn lemma_pence_text_parts(n: nat)
    ensures
        amount_parts(decimal(n / 100) + seq!['.'] + two_digits(n % 100)) == (
            decimal(n / 100),
            two_digits(n % 100),
        ),
{
    let d = decimal(n / 100);
    let t = two_digits(n % 100);
    let body = d + seq!['.'] + t;
    lemma_decimal(n / 100);
    let dot: Seq<char> = seq!['.'];
    assert(body.subrange(d.len() as int, d.len() as int + 1) =~= dot);
    assert forall|k: int| 0 <= k < d.len() implies !#[trigger] occurs_at(body, dot, k) by {
        assert(body.subrange(k, k + 1)[0] == d[k]);
        assert(is_ascii_digit(d[k]));
    }
    lemma_first_occurrence_unique(body, dot, d.len() as int);
    assert(body.take(d.len() as int) =~= d);
    assert(body.skip(d.len() as int + 1) =~= t);
}

/// Reading back what `format_pence` prints for an amount that is not negative gives the amount.
pub proof fn format_then_parse_round_trip(pence: i64)
    requires
        pence >= 0,
    ensures
        pounds_text_value(pence_text(pence as int)) == Some(pence),
{
    let n = pence as nat;
    let d = decimal(n / 100);
    let t = two_digits(n % 100);
    lemma_pence_text_body(n);
    lemma_pence_text_parts(n);
    lemma_decimal(n / 100);
    lemma_two_digits(n % 100);
    lemma_parse_digits(d);
    assert(is_ascii_text(t)) by {
        assert forall|i: int| 0 <= i < t.len() implies (#[trigger] t[i] as u32) < 0x80 by {
            assert(is_ascii_digit(t[i]));
        }
    }
    lemma_utf8_len_ascii(t);
    lemma_parse_digits(t);
    assert(n / 100 * 100 + n % 100 == n);
}

} // verus!
