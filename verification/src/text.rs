//! Character-level text primitives shared by the parsers and the calendar writers.

use vstd::prelude::*;

verus! {

/// The characters of `s`, in order.
pub fn chars_of(s: &str) -> (out: Vec<char>)
    ensures
        out@ == s@,
{
    let mut out: Vec<char> = Vec::new();
    for c in it: s.chars()
        invariant
            out@ == it.seq().take(it.index() as int),
    {
        out.push(c);
    }
    out
}

/// Collects characters into a `String` (std's `FromIterator<char>` for `String`).
#[verifier::external_body]
pub(crate) fn string_from(chars: &Vec<char>) -> (s: String)
    ensures
        s@ == chars@,
{
    chars.iter().collect()
}

/// A copy of `v[lo..hi]`.
pub fn slice_chars(v: &Vec<char>, lo: usize, hi: usize) -> (out: Vec<char>)
    requires
        lo <= hi <= v.len(),
    ensures
        out@ == v@.subrange(lo as int, hi as int),
{
    let mut out: Vec<char> = Vec::new();
    let mut i = lo;
    while i < hi
        invariant
            lo <= i <= hi <= v.len(),
            out@ == v@.subrange(lo as int, i as int),
        decreases hi - i,
    {
        out.push(v[i]);
        i = i + 1;
    }
    out
}

/// Appends all of `tail` to `out`.
pub fn push_all(out: &mut Vec<char>, tail: &Vec<char>)
    ensures
        final(out)@ == old(out)@ + tail@,
{
    let mut i: usize = 0;
    while i < tail.len()
        invariant
            i <= tail.len(),
            out@ == old(out)@ + tail@.take(i as int),
        decreases tail.len() - i,
    {
        out.push(tail[i]);
        i = i + 1;
        assert(tail@.take(i as int) == tail@.take((i - 1) as int).push(tail@[i - 1]));
    }
    assert(tail@.take(tail.len() as int) == tail@);
}

/// Appends the characters of `s` to `out`.
pub fn push_str(out: &mut Vec<char>, s: &str)
    ensures
        final(out)@ == old(out)@ + s@,
{
    let chars = chars_of(s);
    push_all(out, &chars);
}

/// Whether two character vectors hold the same text.
pub fn chars_equal(a: &Vec<char>, b: &Vec<char>) -> (same: bool)
    ensures
        same == (a@ == b@),
{
    if a.len() != b.len() {
        return false;
    }
    let mut i: usize = 0;
    while i < a.len()
        invariant
            a.len() == b.len(),
            i <= a.len(),
            forall|k: int| 0 <= k < i ==> a@[k] == b@[k],
        decreases a.len() - i,
    {
        if a[i] != b[i] {
            return false;
        }
        i = i + 1;
    }
    assert(a@ =~= b@);
    true
}

// ----- whitespace and trimming -----

/// Unicode `White_Space`, the property that std's `char::is_whitespace` tests.
pub open spec fn is_whitespace(c: char) -> bool {
    let u = c as u32;
    ||| 0x09 <= u <= 0x0D
    ||| u == 0x20
    ||| u == 0x85
    ||| u == 0xA0
    ||| u == 0x1680
    ||| 0x2000 <= u <= 0x200A
    ||| u == 0x2028
    ||| u == 0x2029
    ||| u == 0x202F
    ||| u == 0x205F
    ||| u == 0x3000
}

pub fn is_whitespace_char(c: char) -> (b: bool)
    ensures
        b == is_whitespace(c),
{
    let u = c as u32;
    (0x09 <= u && u <= 0x0D) || u == 0x20 || u == 0x85 || u == 0xA0 || u == 0x1680 || (0x2000
        <= u && u <= 0x200A) || u == 0x2028 || u == 0x2029 || u == 0x202F || u == 0x205F || u
        == 0x3000
}

/// The number of whitespace characters at the start of `s`.
pub open spec fn leading_whitespace(s: Seq<char>) -> nat
    decreases s.len(),
{
    if s.len() > 0 && is_whitespace(s[0]) {
        1 + leading_whitespace(s.drop_first())
    } else {
        0
    }
}

/// The number of whitespace characters at the end of `s`.
pub open spec fn trailing_whitespace(s: Seq<char>) -> nat
    decreases s.len(),
{
    if s.len() > 0 && is_whitespace(s.last()) {
        1 + trailing_whitespace(s.drop_last())
    } else {
        0
    }
}

/// `s` without leading and trailing whitespace (std's `str::trim`).
pub open spec fn trim(s: Seq<char>) -> Seq<char> {
    let t = s.skip(leading_whitespace(s) as int);
    t.take(t.len() - trailing_whitespace(t))
}

proof fn lemma_leading_whitespace(s: Seq<char>, i: int)
    requires
        0 <= i <= s.len(),
        forall|k: int| 0 <= k < i ==> is_whitespace(#[trigger] s[k]),
        i == s.len() || !is_whitespace(s[i]),
    ensures
        leading_whitespace(s) == i,
    decreases i,
{
    if i > 0 {
        lemma_leading_whitespace(s.drop_first(), i - 1);
    }
}

proof fn lemma_trailing_whitespace(s: Seq<char>, j: int)
    requires
        0 <= j <= s.len(),
        forall|k: int| j <= k < s.len() ==> is_whitespace(#[trigger] s[k]),
        j == 0 || !is_whitespace(s[j - 1]),
    ensures
        trailing_whitespace(s) == s.len() - j,
    decreases s.len() - j,
{
    if j < s.len() {
        lemma_trailing_whitespace(s.drop_last(), j);
    }
}

/// std's `str::trim`, over characters.
pub fn trim_chars(v: &Vec<char>) -> (out: Vec<char>)
    ensures
        out@ == trim(v@),
{
    let mut lo: usize = 0;
    while lo < v.len() && is_whitespace_char(v[lo])
        invariant
            lo <= v.len(),
            forall|k: int| 0 <= k < lo ==> is_whitespace(#[trigger] v@[k]),
        decreases v.len() - lo,
    {
        lo = lo + 1;
    }
    proof {
        lemma_leading_whitespace(v@, lo as int);
    }
    let mut hi: usize = v.len();
    while hi > lo && is_whitespace_char(v[hi - 1])
        invariant
            lo <= hi <= v.len(),
            forall|k: int| hi <= k < v.len() ==> is_whitespace(#[trigger] v@[k]),
        decreases hi - lo,
    {
        hi = hi - 1;
    }
    proof {
        let t = v@.skip(lo as int);
        assert forall|k: int| (hi - lo) <= k < t.len() implies is_whitespace(#[trigger] t[k]) by {
            assert(t[k] == v@[k + lo]);
        }
        if hi > lo {
            assert(t[hi - lo - 1] == v@[hi - 1]);
        }
        lemma_trailing_whitespace(t, hi - lo);
        assert(t.take(t.len() - trailing_whitespace(t)) =~= v@.subrange(lo as int, hi as int));
    }
    slice_chars(v, lo, hi)
}

// ----- decimal digits -----

pub open spec fn is_ascii_digit(c: char) -> bool {
    '0' <= c <= '9'
}

pub open spec fn digit_value(c: char) -> nat {
    (c as u32 - '0' as u32) as nat
}

/// The ASCII digit for `d` (`d < 10`).
pub open spec fn digit_char(d: nat) -> char {
    if d == 0 {
        '0'
    } else if d == 1 {
        '1'
    } else if d == 2 {
        '2'
    } else if d == 3 {
        '3'
    } else if d == 4 {
        '4'
    } else if d == 5 {
        '5'
    } else if d == 6 {
        '6'
    } else if d == 7 {
        '7'
    } else if d == 8 {
        '8'
    } else {
        '9'
    }
}

/// The value of a run of ASCII digits, most significant first.
pub open spec fn digits_value(s: Seq<char>) -> nat
    decreases s.len(),
{
    if s.len() == 0 {
        0
    } else {
        digits_value(s.drop_last()) * 10 + digit_value(s.last())
    }
}

pub open spec fn all_digits(s: Seq<char>) -> bool {
    forall|i: int| 0 <= i < s.len() ==> is_ascii_digit(#[trigger] s[i])
}

/// The decimal numeral of `n`, without leading zeros.
pub open spec fn decimal(n: nat) -> Seq<char>
    decreases n,
{
    if n < 10 {
        seq![digit_char(n)]
    } else {
        decimal(n / 10).push(digit_char(n % 10))
    }
}

/// The decimal numeral of `n`, with a `-` before negative numbers (std's `Display` for integers).
pub open spec fn signed_decimal(n: int) -> Seq<char> {
    if n < 0 {
        seq!['-'] + decimal((-n) as nat)
    } else {
        decimal(n as nat)
    }
}

/// `n` as exactly two digits (`n < 100`), as a zero-padded `{:02}` writes it.
pub open spec fn two_digits(n: nat) -> Seq<char> {
    seq![digit_char(n / 10), digit_char(n % 10)]
}

pub fn digit_to_char(d: u64) -> (c: char)
    requires
        d < 10,
    ensures
        c == digit_char(d as nat),
{
    if d == 0 {
        '0'
    } else if d == 1 {
        '1'
    } else if d == 2 {
        '2'
    } else if d == 3 {
        '3'
    } else if d == 4 {
        '4'
    } else if d == 5 {
        '5'
    } else if d == 6 {
        '6'
    } else if d == 7 {
        '7'
    } else if d == 8 {
        '8'
    } else {
        '9'
    }
}

pub proof fn lemma_digit_char(d: nat)
    requires
        d < 10,
    ensures
        is_ascii_digit(digit_char(d)),
        digit_value(digit_char(d)) == d,
{
}

/// Appends the decimal numeral of `n`.
pub fn push_decimal(out: &mut Vec<char>, n: u64)
    ensures
        final(out)@ == old(out)@ + decimal(n as nat),
    decreases n,
{
    if n >= 10 {
        push_decimal(out, n / 10);
    }
    out.push(digit_to_char(n % 10));
    proof {
        if n >= 10 {
            assert(decimal(n as nat) == decimal((n / 10) as nat).push(digit_char((n % 10) as nat)));
        }
    }
}

/// Appends the decimal numeral of `n`, signed.
pub fn push_signed_decimal(out: &mut Vec<char>, n: i64)
    ensures
        final(out)@ == old(out)@ + signed_decimal(n as int),
{
    if n < 0 {
        out.push('-');
        let magnitude: u64 = (0i128 - n as i128) as u64;
        push_decimal(out, magnitude);
    } else {
        push_decimal(out, n as u64);
    }
}

/// Appends `n` as two zero-padded digits.
pub fn push_two_digits(out: &mut Vec<char>, n: u64)
    requires
        n < 100,
    ensures
        final(out)@ == old(out)@ + two_digits(n as nat),
{
    out.push(digit_to_char(n / 10));
    out.push(digit_to_char(n % 10));
}


// ----- integer parsing (std's `FromStr` for the integer types) -----

/// The value std's `str::parse` reads for a signed integer, before the range check:
/// an optional `+` or `-`, then one or more ASCII digits.
pub open spec fn signed_numeral_value(s: Seq<char>) -> Option<int> {
    if s.len() > 0 && (s[0] == '-' || s[0] == '+') {
        let body = s.drop_first();
        if body.len() > 0 && all_digits(body) {
            if s[0] == '-' {
                Some(-(digits_value(body) as int))
            } else {
                Some(digits_value(body) as int)
            }
        } else {
            None
        }
    } else if s.len() > 0 && all_digits(s) {
        Some(digits_value(s) as int)
    } else {
        None
    }
}

/// `s.parse::<i64>().ok()`.
pub open spec fn parse_i64_spec(s: Seq<char>) -> Option<i64> {
    match signed_numeral_value(s) {
        Some(v) => if i64::MIN <= v <= i64::MAX {
            Some(v as i64)
        } else {
            None
        },
        None => None,
    }
}

/// `s.parse::<i32>().ok()`.
pub open spec fn parse_i32_spec(s: Seq<char>) -> Option<i32> {
    match signed_numeral_value(s) {
        Some(v) => if i32::MIN <= v <= i32::MAX {
            Some(v as i32)
        } else {
            None
        },
        None => None,
    }
}

proof fn lemma_digits_value_step(s: Seq<char>, lo: int, i: int)
    requires
        0 <= lo <= i < s.len(),
    ensures
        digits_value(s.subrange(lo, i + 1)) == digits_value(s.subrange(lo, i)) * 10 + digit_value(
            s[i],
        ),
{
    assert(s.subrange(lo, i + 1).drop_last() =~= s.subrange(lo, i));
}

/// std's `str::parse::<i64>`, over characters; `None` where std returns an error.
pub fn parse_i64(s: &Vec<char>) -> (r: Option<i64>)
    ensures
        r == parse_i64_spec(s@),
{
    let len = s.len();
    if len == 0 {
        return None;
    }
    let negative = s[0] == '-';
    let start: usize = if s[0] == '-' || s[0] == '+' {
        1
    } else {
        0
    };
    if start == len {
        return None;
    }
    let mut acc: u64 = 0;
    let mut i: usize = start;
    while i < len
        invariant
            len == s.len(),
            len > 0,
            start == (if s@[0] == '-' || s@[0] == '+' {
                1usize
            } else {
                0usize
            }),
            start < len,
            start <= i <= len,
            acc == digits_value(s@.subrange(start as int, i as int)),
            forall|k: int| start <= k < i ==> is_ascii_digit(#[trigger] s@[k]),
        decreases len - i,
    {
        let c = s[i];
        if !('0' <= c && c <= '9') {
            proof {
                if start == 1 {
                    assert(s@.drop_first()[i - 1] == c);
                    assert(!all_digits(s@.drop_first()));
                } else {
                    assert(s@[i as int] == c);
                    assert(!all_digits(s@));
                }
            }
            return None;
        }
        let d = (c as u32 - '0' as u32) as u64;
        proof {
            lemma_digits_value_step(s@, start as int, i as int);
        }
        match acc.checked_mul(10) {
            Some(m) => match m.checked_add(d) {
                Some(a) => {
                    acc = a;
                },
                None => {
                    proof {
                        lemma_digits_too_large(s@, start as int, i as int);
                    }
                    return None;
                },
            },
            None => {
                proof {
                    lemma_digits_too_large(s@, start as int, i as int);
                }
                return None;
            },
        }
        i = i + 1;
    }
    proof {
        let body = s@.subrange(start as int, len as int);
        if start == 1 {
            assert(body =~= s@.drop_first());
        } else {
            assert(body =~= s@);
        }
        assert(all_digits(body));
    }
    if negative {
        if acc <= 0x8000_0000_0000_0000u64 {
            Some((0i128 - acc as i128) as i64)
        } else {
            None
        }
    } else {
        if acc <= 0x7fff_ffff_ffff_ffffu64 {
            Some(acc as i64)
        } else {
            None
        }
    }
}

proof fn lemma_digits_value_monotone(s: Seq<char>, lo: int, i: int, j: int)
    requires
        0 <= lo <= i <= j <= s.len(),
    ensures
        digits_value(s.subrange(lo, j)) >= digits_value(s.subrange(lo, i)),
    decreases j - i,
{
    if j > i {
        lemma_digits_value_monotone(s, lo, i, j - 1);
        lemma_digits_value_step(s, lo, j - 1);
        assert(digits_value(s.subrange(lo, j)) >= digits_value(s.subrange(lo, j - 1))) by (
        nonlinear_arith)
            requires
                digits_value(s.subrange(lo, j)) == digits_value(s.subrange(lo, j - 1)) * 10
                    + digit_value(s[j - 1]),
        ;
    }
}

/// Once a run of digits exceeds `u64::MAX` no numeral that extends it is in range.
proof fn lemma_digits_too_large(s: Seq<char>, lo: int, i: int)
    requires
        0 <= lo <= i < s.len(),
        digits_value(s.subrange(lo, i + 1)) > u64::MAX,
    ensures
        forall|j: int| i + 1 <= j <= s.len() ==> digits_value(#[trigger] s.subrange(lo, j))
            > u64::MAX,
        s[0] != '-' && s[0] != '+' && lo == 0 ==> parse_i64_spec(s) is None,
        (s[0] == '-' || s[0] == '+') && lo == 1 ==> parse_i64_spec(s) is None,
{
    assert forall|j: int| i + 1 <= j <= s.len() implies digits_value(#[trigger] s.subrange(lo, j))
        > u64::MAX by {
        lemma_digits_value_monotone(s, lo, i + 1, j);
    }
    if lo == 0 {
        assert(s.subrange(0, s.len() as int) =~= s);
    }
    if lo == 1 {
        assert(s.subrange(1, s.len() as int) =~= s.drop_first());
    }
}

/// std's `str::parse::<i32>`, over characters; `None` where std returns an error.
pub fn parse_i32(s: &Vec<char>) -> (r: Option<i32>)
    ensures
        r == parse_i32_spec(s@),
{
    match parse_i64(s) {
        Some(v) => if -0x8000_0000i64 <= v && v <= 0x7fff_ffffi64 {
            Some(v as i32)
        } else {
            None
        },
        None => None,
    }
}


// ----- prefixes and segments -----

/// Whether `s` starts with `prefix` (std's `str::starts_with`).
pub fn starts_with(s: &Vec<char>, prefix: &Vec<char>) -> (b: bool)
    ensures
        b == prefix@.is_prefix_of(s@),
{
    if prefix.len() > s.len() {
        return false;
    }
    let mut i: usize = 0;
    while i < prefix.len()
        invariant
            prefix.len() <= s.len(),
            i <= prefix.len(),
            forall|k: int| 0 <= k < i ==> prefix@[k] == s@[k],
        decreases prefix.len() - i,
    {
        if prefix[i] != s[i] {
            return false;
        }
        i = i + 1;
    }
    true
}

/// The part of `s` after the last `sep` (std's `s.rsplit(sep).next()`, which is never empty).
pub open spec fn after_last(s: Seq<char>, sep: char) -> Seq<char>
    decreases s.len(),
{
    if s.len() == 0 {
        s
    } else if s.last() == sep {
        Seq::empty()
    } else {
        after_last(s.drop_last(), sep).push(s.last())
    }
}

pub fn after_last_char(s: &Vec<char>, sep: char) -> (out: Vec<char>)
    ensures
        out@ == after_last(s@, sep),
{
    let mut j: usize = s.len();
    assert(s@.take(j as int) =~= s@);
    assert(s@.skip(j as int) =~= Seq::<char>::empty());
    assert(after_last(s@, sep) + Seq::<char>::empty() =~= after_last(s@, sep));
    while j > 0 && s[j - 1] != sep
        invariant
            j <= s.len(),
            after_last(s@, sep) == after_last(s@.take(j as int), sep) + s@.skip(j as int),
        decreases j,
    {
        proof {
            let t = s@.take(j as int);
            assert(t.drop_last() =~= s@.take(j - 1));
            assert(s@.skip(j - 1) =~= seq![s@[j - 1]] + s@.skip(j as int));
            assert(after_last(t, sep) == after_last(t.drop_last(), sep).push(t.last()));
            assert(after_last(s@.take(j - 1), sep).push(s@[j - 1]) + s@.skip(j as int)
                =~= after_last(s@.take(j - 1), sep) + s@.skip(j - 1));
        }
        j = j - 1;
    }
    proof {
        assert(after_last(s@.take(j as int), sep) =~= Seq::<char>::empty());
        assert(s@.skip(j as int) =~= s@.subrange(j as int, s@.len() as int));
    }
    slice_chars(s, j, s.len())
}

// ----- occurrences and splitting -----

/// Whether `pat` occurs in `s` starting at index `i`.
pub open spec fn occurs_at(s: Seq<char>, pat: Seq<char>, i: int) -> bool {
    0 <= i && i + pat.len() <= s.len() && s.subrange(i, i + pat.len()) == pat
}

/// The index of the first occurrence of `pat` in `s`.
pub open spec fn first_occurrence(s: Seq<char>, pat: Seq<char>) -> Option<nat>
    decreases s.len(),
{
    if s.len() < pat.len() || s.len() == 0 {
        None
    } else if s.take(pat.len() as int) == pat {
        Some(0)
    } else {
        match first_occurrence(s.drop_first(), pat) {
            Some(i) => Some(i + 1),
            None => None,
        }
    }
}

pub proof fn lemma_first_occurrence(s: Seq<char>, pat: Seq<char>)
    requires
        pat.len() > 0,
    ensures
        match first_occurrence(s, pat) {
            Some(i) => occurs_at(s, pat, i as int) && forall|k: int|
                0 <= k < i ==> !#[trigger] occurs_at(s, pat, k),
            None => forall|k: int| !#[trigger] occurs_at(s, pat, k),
        },
    decreases s.len(),
{
    if s.len() < pat.len() || s.len() == 0 {
    } else if s.take(pat.len() as int) == pat {
        assert(s.subrange(0, pat.len() as int) =~= s.take(pat.len() as int));
    } else {
        lemma_first_occurrence(s.drop_first(), pat);
        let t = s.drop_first();
        assert forall|k: int| 1 <= k implies occurs_at(s, pat, k) == occurs_at(t, pat, k - 1) by {
            if 0 <= k - 1 && k - 1 + pat.len() <= t.len() {
                assert(s.subrange(k, k + pat.len()) =~= t.subrange(k - 1, k - 1 + pat.len()));
            }
        }
        assert(!occurs_at(s, pat, 0)) by {
            assert(s.subrange(0, pat.len() as int) =~= s.take(pat.len() as int));
        }
        match first_occurrence(t, pat) {
            Some(i) => {
                assert forall|k: int| 0 <= k < i + 1 implies !#[trigger] occurs_at(s, pat, k) by {
                    if k >= 1 {
                        assert(!occurs_at(t, pat, k - 1));
                    }
                }
                assert(occurs_at(t, pat, i as int));
            },
            None => {
                assert forall|k: int| !#[trigger] occurs_at(s, pat, k) by {
                    if k >= 1 {
                        assert(!occurs_at(t, pat, k - 1));
                    }
                }
            },
        }
    }
}

pub proof fn lemma_first_occurrence_unique(s: Seq<char>, pat: Seq<char>, i: int)
    requires
        pat.len() > 0,
        occurs_at(s, pat, i),
        forall|k: int| 0 <= k < i ==> !#[trigger] occurs_at(s, pat, k),
    ensures
        first_occurrence(s, pat) == Some(i as nat),
{
    lemma_first_occurrence(s, pat);
}

pub proof fn lemma_no_occurrence(s: Seq<char>, pat: Seq<char>)
    requires
        pat.len() > 0,
        forall|k: int| !#[trigger] occurs_at(s, pat, k),
    ensures
        first_occurrence(s, pat) is None,
{
    lemma_first_occurrence(s, pat);
}

/// The pieces of `s` between the occurrences of `pat` (std's `str::split` with a string pattern).
pub open spec fn split(s: Seq<char>, pat: Seq<char>) -> Seq<Seq<char>>
    decreases s.len(),
{
    if pat.len() == 0 {
        seq![s]
    } else {
        match first_occurrence(s, pat) {
            Some(i) => {
                proof {
                    lemma_first_occurrence(s, pat);
                }
                seq![s.take(i as int)] + split(s.skip(i + pat.len() as int), pat)
            },
            None => seq![s],
        }
    }
}

/// The views of a vector of character vectors.
pub open spec fn views(v: Seq<Vec<char>>) -> Seq<Seq<char>> {
    v.map_values(|p: Vec<char>| p@)
}

/// Whether `pat` occurs in `s` at `i`.
pub fn occurs_at_index(s: &Vec<char>, pat: &Vec<char>, i: usize) -> (b: bool)
    ensures
        b == occurs_at(s@, pat@, i as int),
{
    if i > s.len() || pat.len() > s.len() - i {
        return false;
    }
    let mut k: usize = 0;
    while k < pat.len()
        invariant
            i + pat.len() <= s.len(),
            k <= pat.len(),
            forall|m: int| 0 <= m < k ==> s@[i + m] == pat@[m],
        decreases pat.len() - k,
    {
        if s[i + k] != pat[k] {
            assert(s@.subrange(i as int, i + pat.len())[k as int] != pat@[k as int]);
            return false;
        }
        k = k + 1;
    }
    assert(s@.subrange(i as int, i + pat.len()) =~= pat@);
    true
}

/// Whether `pat` occurs somewhere in `s` (std's `str::contains`; the empty text occurs everywhere).
pub open spec fn contains_text(s: Seq<char>, pat: Seq<char>) -> bool {
    exists|i: int| #[trigger] occurs_at(s, pat, i)
}

/// Whether `pat` occurs in `s`.
pub fn contains_chars(s: &Vec<char>, pat: &Vec<char>) -> (found: bool)
    ensures
        found == contains_text(s@, pat@),
{
    if pat.len() > s.len() {
        proof {
            assert forall|i: int| !#[trigger] occurs_at(s@, pat@, i) by {}
        }
        return false;
    }
    let last = s.len() - pat.len();
    let mut i: usize = 0;
    while i < last
        invariant
            last == s@.len() - pat@.len(),
            i <= last,
            forall|k: int| 0 <= k < i ==> !#[trigger] occurs_at(s@, pat@, k),
        decreases last - i,
    {
        if occurs_at_index(s, pat, i) {
            return true;
        }
        i = i + 1;
    }
    if occurs_at_index(s, pat, last) {
        return true;
    }
    proof {
        assert forall|k: int| !#[trigger] occurs_at(s@, pat@, k) by {
            if 0 <= k < i {
            }
        }
    }
    false
}

/// std's `str::split` with a non-empty string pattern, over characters.
pub fn split_chars(s: &Vec<char>, pat: &Vec<char>) -> (out: Vec<Vec<char>>)
    requires
        pat.len() > 0,
    ensures
        views(out@) == split(s@, pat@),
{
    let mut out: Vec<Vec<char>> = Vec::new();
    let mut start: usize = 0;
    let mut i: usize = 0;
    assert(s@.skip(0) =~= s@);
    assert(views(out@) + split(s@, pat@) =~= split(s@, pat@));
    while i < s.len()
        invariant
            pat.len() > 0,
            start <= i <= s.len(),
            split(s@, pat@) == views(out@) + split(s@.skip(start as int), pat@),
            forall|k: int| start <= k < i ==> !#[trigger] occurs_at(s@, pat@, k),
        decreases s.len() - i,
    {
        if occurs_at_index(s, pat, i) {
            let ghost t = s@.skip(start as int);
            proof {
                assert forall|k: int| 0 <= k < i - start implies !#[trigger] occurs_at(t, pat@, k) by {
                    assert(!occurs_at(s@, pat@, k + start));
                    if k + pat@.len() <= t.len() {
                        assert(t.subrange(k, k + pat@.len()) =~= s@.subrange(
                            k + start,
                            k + start + pat@.len(),
                        ));
                    }
                }
                assert(t.subrange(i - start, i - start + pat@.len()) =~= s@.subrange(
                    i as int,
                    i + pat@.len(),
                ));
                lemma_first_occurrence_unique(t, pat@, i - start);
                assert(t.take(i - start) =~= s@.subrange(start as int, i as int));
                assert(t.skip(i - start + pat@.len()) =~= s@.skip(i + pat@.len()));
            }
            let piece = slice_chars(s, start, i);
            let ghost before = out@;
            out.push(piece);
            proof {
                assert(views(out@) =~= views(before).push(piece@)) by {
                    assert(out@ == before.push(piece));
                }
            }
            start = i + pat.len();
            i = start;
        } else {
            i = i + 1;
        }
    }
    let ghost t = s@.skip(start as int);
    proof {
        assert forall|k: int| !#[trigger] occurs_at(t, pat@, k) by {
            if 0 <= k && k + pat@.len() <= t.len() {
                assert(!occurs_at(s@, pat@, k + start));
                assert(t.subrange(k, k + pat@.len()) =~= s@.subrange(
                    k + start,
                    k + start + pat@.len(),
                ));
            }
        }
        lemma_no_occurrence(t, pat@);
        assert(t =~= s@.subrange(start as int, s@.len() as int));
    }
    let last = slice_chars(s, start, s.len());
    let ghost before = out@;
    out.push(last);
    proof {
        assert(views(out@) =~= views(before).push(last@)) by {
            assert(out@ == before.push(last));
        }
    }
    out
}


// ----- words -----

/// The number of non-whitespace characters at the start of `s`.
pub open spec fn word_len(s: Seq<char>) -> nat
    decreases s.len(),
{
    if s.len() > 0 && !is_whitespace(s[0]) {
        1 + word_len(s.drop_first())
    } else {
        0
    }
}

pub proof fn lemma_leading_whitespace_bound(s: Seq<char>)
    ensures
        leading_whitespace(s) <= s.len(),
        leading_whitespace(s) < s.len() ==> !is_whitespace(s[leading_whitespace(s) as int]),
    decreases s.len(),
{
    if s.len() > 0 && is_whitespace(s[0]) {
        lemma_leading_whitespace_bound(s.drop_first());
    }
}

pub proof fn lemma_word_len_bound(s: Seq<char>)
    ensures
        word_len(s) <= s.len(),
        s.len() > 0 && !is_whitespace(s[0]) ==> word_len(s) >= 1,
    decreases s.len(),
{
    if s.len() > 0 && !is_whitespace(s[0]) {
        lemma_word_len_bound(s.drop_first());
    }
}

proof fn lemma_word_len(s: Seq<char>, i: int)
    requires
        0 <= i <= s.len(),
        forall|k: int| 0 <= k < i ==> !is_whitespace(#[trigger] s[k]),
        i == s.len() || is_whitespace(s[i]),
    ensures
        word_len(s) == i,
    decreases i,
{
    if i > 0 {
        lemma_word_len(s.drop_first(), i - 1);
    }
}

/// The whitespace-separated words of `s` (std's `str::split_whitespace`).
pub open spec fn words(s: Seq<char>) -> Seq<Seq<char>>
    decreases s.len(),
{
    let t = s.skip(leading_whitespace(s) as int);
    proof {
        lemma_leading_whitespace_bound(s);
    }
    if t.len() == 0 {
        Seq::empty()
    } else {
        proof {
            lemma_word_len_bound(t);
        }
        seq![t.take(word_len(t) as int)] + words(t.skip(word_len(t) as int))
    }
}

/// std's `str::split_whitespace`, over characters.
pub fn words_of(s: &Vec<char>) -> (out: Vec<Vec<char>>)
    ensures
        views(out@) == words(s@),
{
    let mut out: Vec<Vec<char>> = Vec::new();
    let mut i: usize = 0;
    assert(s@.skip(0) =~= s@);
    assert(views(out@) + words(s@) =~= words(s@));
    while i < s.len()
        invariant
            i <= s.len(),
            words(s@) == views(out@) + words(s@.skip(i as int)),
        decreases s.len() - i,
    {
        let mut j = i;
        while j < s.len() && is_whitespace_char(s[j])
            invariant
                i <= j <= s.len(),
                forall|k: int| i <= k < j ==> is_whitespace(#[trigger] s@[k]),
            decreases s.len() - j,
        {
            j = j + 1;
        }
        let ghost u = s@.skip(i as int);
        proof {
            assert forall|k: int| 0 <= k < j - i implies is_whitespace(#[trigger] u[k]) by {
                assert(u[k] == s@[k + i]);
            }
            if j < s.len() {
                assert(u[j - i] == s@[j as int]);
            }
            lemma_leading_whitespace(u, j - i);
            assert(u.skip(j - i) =~= s@.skip(j as int));
        }
        if j == s.len() {
            proof {
                assert(u.skip(j - i).len() == 0);
                assert(words(u) =~= Seq::<Seq<char>>::empty());
                assert(views(out@) + words(u) =~= views(out@));
            }
            i = j;
            assert(s@.skip(i as int) =~= Seq::<char>::empty());
            assert(words(s@.skip(i as int)) =~= Seq::<Seq<char>>::empty()) by {
                assert(leading_whitespace(Seq::<char>::empty()) == 0);
            }
            assert(views(out@) + Seq::<Seq<char>>::empty() =~= views(out@));
        } else {
            let mut k = j;
            while k < s.len() && !is_whitespace_char(s[k])
                invariant
                    j <= k <= s.len(),
                    forall|m: int| j <= m < k ==> !is_whitespace(#[trigger] s@[m]),
                decreases s.len() - k,
            {
                k = k + 1;
            }
            let ghost t = s@.skip(j as int);
            proof {
                assert forall|m: int| 0 <= m < k - j implies !is_whitespace(#[trigger] t[m]) by {
                    assert(t[m] == s@[m + j]);
                }
                if k < s.len() {
                    assert(t[k - j] == s@[k as int]);
                }
                lemma_word_len(t, k - j);
                assert(t.take(k - j) =~= s@.subrange(j as int, k as int));
                assert(t.skip(k - j) =~= s@.skip(k as int));
            }
            let word = slice_chars(s, j, k);
            let ghost before = out@;
            out.push(word);
            proof {
                assert(views(out@) =~= views(before).push(word@)) by {
                    assert(out@ == before.push(word));
                }
            }
            i = k;
        }
    }
    proof {
        assert(s@.skip(i as int) =~= Seq::<char>::empty());
        assert(words(s@.skip(i as int)) =~= Seq::<Seq<char>>::empty()) by {
            assert(leading_whitespace(Seq::<char>::empty()) == 0);
        }
        assert(views(out@) + Seq::<Seq<char>>::empty() =~= views(out@));
    }
    out
}

// ----- joining -----

/// `parts` joined with `sep` between neighbours (std's `[String]::join`).
pub open spec fn join(parts: Seq<Seq<char>>, sep: Seq<char>) -> Seq<char>
    decreases parts.len(),
{
    if parts.len() == 0 {
        Seq::empty()
    } else if parts.len() == 1 {
        parts[0]
    } else {
        join(parts.drop_last(), sep) + sep + parts.last()
    }
}

pub fn join_chars(parts: &Vec<Vec<char>>, sep: &Vec<char>) -> (out: Vec<char>)
    ensures
        out@ == join(views(parts@), sep@),
{
    let mut out: Vec<char> = Vec::new();
    let mut i: usize = 0;
    while i < parts.len()
        invariant
            i <= parts.len(),
            out@ == join(views(parts@).take(i as int), sep@),
        decreases parts.len() - i,
    {
        proof {
            let ps = views(parts@).take(i + 1);
            assert(ps.drop_last() =~= views(parts@).take(i as int));
            assert(ps.last() == parts@[i as int]@);
            if i == 0 {
                assert(join(ps, sep@) == ps[0]);
                assert(join(views(parts@).take(0), sep@) =~= Seq::<char>::empty());
            }
        }
        if i > 0 {
            push_all(&mut out, sep);
        }
        push_all(&mut out, &parts[i]);
        proof {
            if i == 0 {
                assert(out@ =~= parts@[0]@);
            }
        }
        i = i + 1;
    }
    assert(views(parts@).take(parts.len() as int) =~= views(parts@));
    out
}

// ----- upper case -----

/// What std's `str::to_uppercase` returns for the text `s`.
pub uninterp spec fn uppercase(s: Seq<char>) -> Seq<char>;

/// std's `str::to_uppercase` (full Unicode case mapping, which may change the length).
/// The contract names the result and says what std documents: every character maps to one or
/// more characters, so only the empty text maps to the empty text; and ASCII text is mapped
/// character by character to ASCII upper case.
#[verifier::external_body]
pub(crate) fn to_uppercase(s: &Vec<char>) -> (out: Vec<char>)
    ensures
        out@ == uppercase(s@),
        out@.len() == 0 <==> s@.len() == 0,
        is_ascii_text(s@) ==> out@ == s@.map_values(|c: char| ascii_upper(c)),
{
    let text: String = s.iter().collect();
    text.to_uppercase().chars().collect()
}

/// What std's `str::to_lowercase` returns for the text `s`.
pub uninterp spec fn lowercase(s: Seq<char>) -> Seq<char>;

/// std's `str::to_lowercase` (full Unicode case mapping, which may change the length).
/// The contract names the result and says what std documents: every character maps to one or
/// more characters, so only the empty text maps to the empty text; and ASCII text is mapped
/// character by character to ASCII lower case.
#[verifier::external_body]
pub(crate) fn to_lowercase(s: &Vec<char>) -> (out: Vec<char>)
    ensures
        out@ == lowercase(s@),
        out@.len() == 0 <==> s@.len() == 0,
        is_ascii_text(s@) ==> out@ == s@.map_values(|c: char| ascii_lower(c)),
{
    let text: String = s.iter().collect();
    text.to_lowercase().chars().collect()
}

/// ASCII upper-case letters to lower case; every other character unchanged.
pub open spec fn ascii_lower(c: char) -> char {
    if 'A' <= c <= 'Z' {
        ((c as u32) + 32) as char
    } else {
        c
    }
}

pub open spec fn is_ascii_text(s: Seq<char>) -> bool {
    forall|i: int| 0 <= i < s.len() ==> (#[trigger] s[i] as u32) < 0x80
}

/// ASCII lower-case letters to upper case; every other character unchanged.
pub open spec fn ascii_upper(c: char) -> char {
    if 'a' <= c <= 'z' {
        ((c as u32) - 32) as char
    } else {
        c
    }
}

// ----- UTF-8 lengths -----

/// The number of bytes UTF-8 takes for `s` (what std's `str::len` returns).
pub open spec fn utf8_len(s: Seq<char>) -> nat {
    vstd::utf8::encode_utf8(s).len()
}

/// The number of bytes UTF-8 takes for `c` (std's `char::len_utf8`).
pub open spec fn char_width(c: char) -> nat {
    vstd::utf8::encode_scalar(c as u32).len()
}

pub fn char_utf8_width(c: char) -> (n: usize)
    ensures
        n == char_width(c),
        1 <= n <= 4,
{
    let u = c as u32;
    proof {
        vstd::utf8::char_is_scalar(c);
    }
    if u < 0x80 {
        1
    } else if u < 0x800 {
        2
    } else if u < 0x10000 {
        3
    } else {
        4
    }
}

pub proof fn lemma_utf8_len_concat(a: Seq<char>, b: Seq<char>)
    ensures
        utf8_len(a + b) == utf8_len(a) + utf8_len(b),
        vstd::utf8::encode_utf8(a + b) == vstd::utf8::encode_utf8(a) + vstd::utf8::encode_utf8(b),
    decreases a.len(),
{
    if a.len() == 0 {
        assert(a + b =~= b);
        assert(vstd::utf8::encode_utf8(a) =~= Seq::<u8>::empty());
        assert(vstd::utf8::encode_utf8(a) + vstd::utf8::encode_utf8(b) =~= vstd::utf8::encode_utf8(b));
    } else {
        lemma_utf8_len_concat(a.drop_first(), b);
        assert((a + b).drop_first() =~= a.drop_first() + b);
        assert((a + b)[0] == a[0]);
        assert(vstd::utf8::encode_utf8(a + b) =~= vstd::utf8::encode_scalar(a[0] as u32)
            + vstd::utf8::encode_utf8(a.drop_first() + b));
    }
}

pub proof fn lemma_utf8_len_single(c: char)
    ensures
        utf8_len(seq![c]) == char_width(c),
{
    assert(seq![c].drop_first() =~= Seq::<char>::empty());
    assert(vstd::utf8::encode_utf8(Seq::<char>::empty()) =~= Seq::<u8>::empty());
    assert(vstd::utf8::encode_utf8(seq![c]) == vstd::utf8::encode_scalar(c as u32)
        + vstd::utf8::encode_utf8(seq![c].drop_first()));
    assert(vstd::utf8::encode_scalar(c as u32) + Seq::<u8>::empty() =~= vstd::utf8::encode_scalar(
        c as u32,
    ));
}

pub proof fn lemma_char_width_bounds(c: char)
    ensures
        1 <= char_width(c) <= 4,
{
    vstd::utf8::char_is_scalar(c);
}


// ----- facts about numerals -----

pub proof fn lemma_decimal(n: nat)
    ensures
        decimal(n).len() >= 1,
        all_digits(decimal(n)),
        digits_value(decimal(n)) == n,
    decreases n,
{
    lemma_digit_char(n % 10);
    if n >= 10 {
        lemma_decimal(n / 10);
        let d = decimal(n);
        assert(d.drop_last() =~= decimal(n / 10));
        assert(d.last() == digit_char(n % 10));
        assert(digits_value(d) == digits_value(d.drop_last()) * 10 + digit_value(d.last()));
        assert forall|i: int| 0 <= i < d.len() implies is_ascii_digit(#[trigger] d[i]) by {
            if i < d.len() - 1 {
                assert(d[i] == decimal(n / 10)[i]);
            }
        }
    } else {
        let d = decimal(n);
        assert(d.drop_last() =~= Seq::<char>::empty());
        assert(digits_value(d) == digits_value(d.drop_last()) * 10 + digit_value(d.last()));
    }
}

pub proof fn lemma_two_digits(n: nat)
    requires
        n < 100,
    ensures
        two_digits(n).len() == 2,
        all_digits(two_digits(n)),
        digits_value(two_digits(n)) == n,
{
    lemma_digit_char(n / 10);
    lemma_digit_char(n % 10);
    let t = two_digits(n);
    let a = seq![digit_char(n / 10)];
    assert(t.drop_last() =~= a);
    assert(a.drop_last() =~= Seq::<char>::empty());
    assert(digits_value(a) == digits_value(a.drop_last()) * 10 + digit_value(a.last()));
    assert(digits_value(t) == digits_value(t.drop_last()) * 10 + digit_value(t.last()));
}

/// A run of ASCII digits reads back as its value.
pub proof fn lemma_parse_digits(s: Seq<char>)
    requires
        s.len() > 0,
        all_digits(s),
        digits_value(s) <= i64::MAX,
    ensures
        parse_i64_spec(s) == Some(digits_value(s) as i64),
{
    assert(is_ascii_digit(s[0]));
}

/// Reading back the decimal numeral of an `i32` gives the number.
pub proof fn lemma_parse_signed_decimal(n: int)
    requires
        i32::MIN <= n <= i32::MAX,
    ensures
        parse_i32_spec(signed_decimal(n)) == Some(n as i32),
{
    if n < 0 {
        lemma_decimal((-n) as nat);
        let s = signed_decimal(n);
        assert(s.drop_first() =~= decimal((-n) as nat));
        assert(s[0] == '-');
    } else {
        lemma_decimal(n as nat);
        let s = signed_decimal(n);
        assert(is_ascii_digit(s[0]));
    }
}

/// Text without whitespace at either end is its own trim.
pub proof fn lemma_trim_unchanged(s: Seq<char>)
    requires
        s.len() > 0,
        !is_whitespace(s[0]),
        !is_whitespace(s.last()),
    ensures
        trim(s) == s,
{
    assert(leading_whitespace(s) == 0);
    assert(s.skip(0) =~= s);
    assert(trailing_whitespace(s) == 0);
    assert(s.take(s.len() as int) =~= s);
}

/// ASCII characters take one byte each.
pub proof fn lemma_utf8_len_ascii(s: Seq<char>)
    requires
        is_ascii_text(s),
    ensures
        utf8_len(s) == s.len(),
    decreases s.len(),
{
    if s.len() > 0 {
        lemma_utf8_len_ascii(s.drop_first());
        assert(s =~= seq![s[0]] + s.drop_first());
        lemma_utf8_len_concat(seq![s[0]], s.drop_first());
        lemma_utf8_len_single(s[0]);
    } else {
        assert(vstd::utf8::encode_utf8(s) =~= Seq::<u8>::empty());
    }
}

} // verus!
