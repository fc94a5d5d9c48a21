//! The admin session: checking the password, the session cookie that a login sets, and
//! finding that cookie again in later requests.

use vstd::prelude::*;
use crate::text::{
    chars_equal, chars_of, is_whitespace, lemma_no_occurrence, lemma_trim_unchanged, occurs_at,
    push_str, split, split_chars, starts_with, string_from, trim, trim_chars, slice_chars,
};

verus! {

// ----- the password -----

/// Why a login is refused.
#[derive(Clone, Copy, Debug, PartialEq, Eq)]
pub enum LoginRefusal {
    PasswordNotConfigured,
    InvalidPassword,
}

impl LoginRefusal {
    /// The message the login page shows.
    pub fn message(&self) -> (text: &'static str)
        ensures
            text@ == match *self {
                LoginRefusal::PasswordNotConfigured => "ADMIN_PASSWORD not configured"@,
                LoginRefusal::InvalidPassword => "invalid password"@,
            },
    {
        match self {
            LoginRefusal::PasswordNotConfigured => "ADMIN_PASSWORD not configured",
            LoginRefusal::InvalidPassword => "invalid password",
        }
    }
}

/// Checks a login: the admin password must be configured, and the given one must equal it.
pub fn check_password(given: &str, configured: Option<&str>) -> (checked: Result<(), LoginRefusal>)
    ensures
        checked == (match configured {
            None => Err(LoginRefusal::PasswordNotConfigured),
            Some(p) => if given@ == p@ {
                Ok::<(), LoginRefusal>(())
            } else {
                Err(LoginRefusal::InvalidPassword)
            },
        }),
{
    match configured {
        None => Err(LoginRefusal::PasswordNotConfigured),
        Some(p) => if chars_equal(&chars_of(given), &chars_of(p)) {
            Ok(())
        } else {
            Err(LoginRefusal::InvalidPassword)
        },
    }
}

/// The secret that session tokens are made from: the configured cookie secret, else the
/// admin password.
pub open spec fn session_secret(configured: Option<Seq<char>>, admin_password: Seq<char>) -> Seq<char> {
    match configured {
        Some(s) => s,
        None => admin_password,
    }
}

/// The secret that session tokens are made from: the configured cookie secret, else the
/// admin password.
pub fn cookie_secret(configured: Option<&str>, admin_password: &str) -> (secret: String)
    ensures
        secret@ == session_secret(
            match configured {
                Some(s) => Some(s@),
                None => None,
            },
            admin_password@,
        ),
{
    match configured {
        Some(s) => string_from(&chars_of(s)),
        None => string_from(&chars_of(admin_password)),
    }
}

// ----- the session token -----

/// The lower-case hexadecimal digit of `d` (`d < 16`).
pub open spec fn hex_digit(d: nat) -> char {
    if d < 10 {
        (('0' as nat) + d) as char
    } else {
        (('a' as nat) + d - 10) as char
    }
}

/// `n` in lower-case hexadecimal without leading zeros, as `format!("{:x}", n)` writes it.
pub open spec fn lower_hex(n: nat) -> Seq<char>
    decreases n,
{
    if n < 16 {
        seq![hex_digit(n)]
    } else {
        lower_hex(n / 16).push(hex_digit(n % 16))
    }
}

fn hex_digit_char(d: u64) -> (c: char)
    requires
        d < 16,
    ensures
        c == hex_digit(d as nat),
{
    if d < 10 {
        assert(((('0' as nat) + d) as char) as u32 == 48 + d);
        char_from_code((48 + d) as u32)
    } else {
        char_from_code((87 + d) as u32)
    }
}

fn char_from_code(code: u32) -> (c: char)
    requires
        48 <= code <= 57 || 97 <= code <= 102,
    ensures
        c as u32 == code,
{
    let codes: [char; 16] = ['0', '1', '2', '3', '4', '5', '6', '7', '8', '9', 'a', 'b', 'c', 'd', 'e', 'f'];
    if code <= 57 {
        codes[(code - 48) as usize]
    } else {
        codes[(code - 87) as usize]
    }
}

fn push_lower_hex(out: &mut Vec<char>, n: u64)
    ensures
        final(out)@ == old(out)@ + lower_hex(n as nat),
    decreases n,
{
    if n >= 16 {
        push_lower_hex(out, n / 16);
    }
    out.push(hex_digit_char(n % 16));
    proof {
        if n >= 16 {
            assert(lower_hex(n as nat) == lower_hex((n / 16) as nat).push(hex_digit((n % 16) as nat)));
        }
    }
}

/// What std's `DefaultHasher::new()` finishes with after hashing the text `first` and then the
/// text `second`.
pub uninterp spec fn default_hash_pair(first: Seq<char>, second: Seq<char>) -> u64;

/// std's `BuildHasher::hash_one` of the std `DefaultHasher` on the pair `(first, second)`,
/// which hashes `first` and then `second` into a fresh `DefaultHasher::new()`. The result is
/// named, not stated: std leaves the hashing algorithm unspecified, and promises only that every
/// `DefaultHasher` made by `new` or `default` is the same, so that the same texts hash alike.
#[verifier::external_body]
fn hash_pair(first: &str, second: &str) -> (h: u64)
    ensures
        h == default_hash_pair(first@, second@),
{
    std::hash::BuildHasher::hash_one(
        &std::hash::BuildHasherDefault::<std::collections::hash_map::DefaultHasher>::default(),
        (first, second),
    )
}

/// Whether a text is a session token: a hash written in lower-case hexadecimal.
pub open spec fn is_session_token(t: Seq<char>) -> bool {
    exists|h: u64| t == #[trigger] lower_hex(h as nat)
}

/// The session token of a secret: the hash of the secret and the word "footical_admin", in
/// lower-case hexadecimal.
pub open spec fn session_token_text(secret: Seq<char>) -> Seq<char> {
    lower_hex(default_hash_pair(secret, "footical_admin"@) as nat)
}

/// The session token made from a secret.
pub fn session_token(secret: &str) -> (token: String)
    ensures
        token@ == session_token_text(secret@),
        is_session_token(token@),
{
    let h = hash_pair(secret, "footical_admin");
    let mut out: Vec<char> = Vec::new();
    push_lower_hex(&mut out, h);
    assert(out@ =~= lower_hex(h as nat));
    string_from(&out)
}

// ----- the session cookie -----

/// The name of the session cookie, followed by `=`.
pub open spec fn session_prefix() -> Seq<char> {
    "footical_session="@
}

/// The cookie that a login sets: the token, for the whole site, hidden from scripts, for a day.
pub open spec fn login_cookie_text(token: Seq<char>) -> Seq<char> {
    session_prefix() + token + "; Path=/; HttpOnly; SameSite=Strict; Max-Age=86400"@
}

/// The cookie that a logout sets: an empty session that expires at once.
pub open spec fn logout_cookie_text() -> Seq<char> {
    session_prefix() + "; Path=/; HttpOnly; SameSite=Strict; Max-Age=0"@
}

/// The cookie that a login sets.
pub fn login_cookie(token: &str) -> (cookie: String)
    ensures
        cookie@ == login_cookie_text(token@),
{
    let mut out: Vec<char> = Vec::new();
    push_str(&mut out, "footical_session=");
    push_str(&mut out, token);
    push_str(&mut out, "; Path=/; HttpOnly; SameSite=Strict; Max-Age=86400");
    string_from(&out)
}

/// The cookie that a logout sets.
pub fn logout_cookie() -> (cookie: String)
    ensures
        cookie@ == logout_cookie_text(),
{
    let mut out: Vec<char> = Vec::new();
    push_str(&mut out, "footical_session=");
    push_str(&mut out, "; Path=/; HttpOnly; SameSite=Strict; Max-Age=0");
    string_from(&out)
}

/// The value of the first cookie among `pieces` (each trimmed) that is the session cookie.
pub open spec fn first_session_value(pieces: Seq<Seq<char>>) -> Option<Seq<char>>
    decreases pieces.len(),
{
    if pieces.len() == 0 {
        None
    } else if session_prefix().is_prefix_of(trim(pieces[0])) {
        Some(trim(pieces[0]).skip(session_prefix().len() as int))
    } else {
        first_session_value(pieces.drop_first())
    }
}

/// The session token a request's `Cookie` header carries, if any.
pub open spec fn session_value_of(cookie_header: Option<Seq<char>>) -> Option<Seq<char>> {
    match cookie_header {
        None => None,
        Some(h) => first_session_value(split(h, ";"@)),
    }
}

/// The session token a request's `Cookie` header carries, if any.
pub fn session_token_in(cookie_header: Option<&str>) -> (value: Option<String>)
    ensures
        match value {
            Some(v) => session_value_of(
                match cookie_header {
                    Some(h) => Some(h@),
                    None => None,
                },
            ) == Some(v@),
            None => session_value_of(
                match cookie_header {
                    Some(h) => Some(h@),
                    None => None,
                },
            ) is None,
        },
{
    let header = match cookie_header {
        Some(h) => h,
        None => return None,
    };
    let separator = chars_of(";");
    proof {
        reveal_strlit(";");
    }
    let pieces = split_chars(&chars_of(header), &separator);
    let prefix = chars_of("footical_session=");
    let ghost all = crate::text::views(pieces@);
    let mut i: usize = 0;
    assert(all.skip(0) =~= all);
    while i < pieces.len()
        invariant
            i <= pieces@.len(),
            cookie_header == Some(header),
            all == crate::text::views(pieces@),
            all == split(header@, ";"@),
            prefix@ == session_prefix(),
            first_session_value(all) == first_session_value(all.skip(i as int)),
        decreases pieces@.len() - i,
    {
        assert(all.skip(i as int).drop_first() =~= all.skip(i + 1));
        assert(all.skip(i as int)[0] == pieces@[i as int]@);
        let piece = trim_chars(&pieces[i]);
        if starts_with(&piece, &prefix) {
            let value = slice_chars(&piece, prefix.len(), piece.len());
            assert(value@ =~= trim(all.skip(i as int)[0]).skip(session_prefix().len() as int));
            return Some(string_from(&value));
        }
        i = i + 1;
    }
    None
}

/// Whether a request carries a valid session: its session cookie holds the token of the
/// session secret (the configured cookie secret, else the admin password).
pub fn has_valid_session(
    cookie_header: Option<&str>,
    configured_secret: Option<&str>,
    admin_password: &str,
) -> (valid: bool)
    ensures
        valid == (session_value_of(
            match cookie_header {
                Some(h) => Some(h@),
                None => None,
            },
        ) == Some(
            session_token_text(
                session_secret(
                    match configured_secret {
                        Some(s) => Some(s@),
                        None => None,
                    },
                    admin_password@,
                ),
            ),
        )),
{
    match session_token_in(cookie_header) {
        Some(v) => {
            let secret = cookie_secret(configured_secret, admin_password);
            let expected = session_token(secret.as_str());
            chars_equal(&chars_of(v.as_str()), &chars_of(expected.as_str()))
        },
        None => false,
    }
}

/// What a browser sends back of a cookie it was given: the `name=value` pair before the
/// first `;` (the attributes after it are for the browser alone).
pub open spec fn cookie_pair(set_cookie: Seq<char>) -> Seq<char> {
    split(set_cookie, ";"@)[0]
}

proof fn lemma_split_without_separator(s: Seq<char>)
    requires
        forall|k: int| 0 <= k < s.len() ==> s[k] != ';',
    ensures
        split(s, ";"@) == seq![s],
{
    reveal_strlit(";");
    assert forall|k: int| !#[trigger] occurs_at(s, ";"@, k) by {
        if occurs_at(s, ";"@, k) {
            assert(s.subrange(k, k + 1)[0] == s[k]);
        }
    }
    lemma_no_occurrence(s, ";"@);
}

/// The session cookie of a login, sent back alone, carries the token that was set: a session
/// token is hexadecimal digits, which hold no `;` and no white space.
proof fn login_cookie_returns_token(token: Seq<char>)
    requires
        is_session_token(token),
    ensures
        session_value_of(Some(cookie_pair(login_cookie_text(token)))) == Some(token),
{
    reveal_strlit(";");
    reveal_strlit("footical_session=");
    reveal_strlit("; Path=/; HttpOnly; SameSite=Strict; Max-Age=86400");
    let h = choose|h: u64| token == #[trigger] lower_hex(h as nat);
    lemma_hex_shape(h as nat);
    let tail = "; Path=/; HttpOnly; SameSite=Strict; Max-Age=86400"@;
    let cookie = login_cookie_text(token);
    let pair = session_prefix() + token;
    assert(cookie =~= pair + tail);
    // the first `;` of the cookie is the one after the token
    assert(occurs_at(cookie, ";"@, pair.len() as int)) by {
        assert(cookie.subrange(pair.len() as int, pair.len() as int + 1) =~= ";"@);
    }
    assert forall|k: int| 0 <= k < pair.len() implies !#[trigger] occurs_at(cookie, ";"@, k) by {
        if occurs_at(cookie, ";"@, k) {
            assert(cookie.subrange(k, k + 1)[0] == cookie[k]);
            assert(cookie[k] == pair[k]);
            if k < session_prefix().len() {
                assert(pair[k] == session_prefix()[k]);
            } else {
                assert(pair[k] == token[k - session_prefix().len()]);
            }
        }
    }
    crate::text::lemma_first_occurrence_unique(cookie, ";"@, pair.len() as int);
    assert(cookie.take(pair.len() as int) =~= pair);
    assert(cookie_pair(cookie) == pair);
    assert forall|k: int| 0 <= k < pair.len() implies pair[k] != ';' by {
        if k >= session_prefix().len() {
            assert(pair[k] == token[k - session_prefix().len()]);
        }
    }
    lemma_split_without_separator(pair);
    assert(!is_whitespace(pair[0]));
    assert(pair.last() == token.last());
    lemma_trim_unchanged(pair);
    assert(session_prefix().is_prefix_of(pair)) by {
        assert(pair.take(session_prefix().len() as int) =~= session_prefix());
    }
    assert(pair.skip(session_prefix().len() as int) =~= token);
}

/// Hexadecimal text is not empty, and holds only digits and the letters `a` to `f`.
proof fn lemma_hex_shape(n: nat)
    ensures
        lower_hex(n).len() > 0,
        forall|k: int|
            0 <= k < lower_hex(n).len() ==> ('0' <= #[trigger] lower_hex(n)[k] <= '9' || 'a'
                <= lower_hex(n)[k] <= 'f'),
    decreases n,
{
    if n >= 16 {
        lemma_hex_shape(n / 16);
    }
}

/// The session cookie of a logout is empty, which no session token is.
proof fn logout_cookie_returns_no_token(token: Seq<char>)
    requires
        is_session_token(token),
    ensures
        session_value_of(Some(cookie_pair(logout_cookie_text()))) != Some(token),
{
    reveal_strlit(";");
    reveal_strlit("footical_session=");
    reveal_strlit("; Path=/; HttpOnly; SameSite=Strict; Max-Age=0");
    let h = choose|h: u64| token == #[trigger] lower_hex(h as nat);
    lemma_hex_shape(h as nat);
    let cookie = logout_cookie_text();
    let pair = session_prefix();
    assert(occurs_at(cookie, ";"@, pair.len() as int)) by {
        assert(cookie.subrange(pair.len() as int, pair.len() as int + 1) =~= ";"@);
    }
    assert forall|k: int| 0 <= k < pair.len() implies !#[trigger] occurs_at(cookie, ";"@, k) by {
        if occurs_at(cookie, ";"@, k) {
            assert(cookie.subrange(k, k + 1)[0] == cookie[k]);
        }
    }
    crate::text::lemma_first_occurrence_unique(cookie, ";"@, pair.len() as int);
    assert(cookie.take(pair.len() as int) =~= pair);
    lemma_split_without_separator(pair);
    lemma_trim_unchanged(pair);
    assert(session_prefix().is_prefix_of(pair)) by {
        assert(pair.take(session_prefix().len() as int) =~= session_prefix());
    }
    assert(pair.skip(session_prefix().len() as int) =~= Seq::<char>::empty());
}

/// A browser that keeps the cookie a login set, and sends it back alone, is let in by a check
/// made with the same secret: the token it carries is the token of that secret.
pub proof fn login_cookie_is_accepted(secret: Seq<char>)
    ensures
        session_value_of(Some(cookie_pair(login_cookie_text(session_token_text(secret)))))
            == Some(session_token_text(secret)),
{
    let h = default_hash_pair(secret, "footical_admin"@);
    assert(session_token_text(secret) == lower_hex(h as nat));
    login_cookie_returns_token(session_token_text(secret));
}

/// After a logout the browser's session cookie is empty: a check made with any secret refuses
/// the next request.
pub proof fn logout_cookie_is_refused(secret: Seq<char>)
    ensures
        session_value_of(Some(cookie_pair(logout_cookie_text()))) != Some(session_token_text(secret)),
{
    let h = default_hash_pair(secret, "footical_admin"@);
    assert(session_token_text(secret) == lower_hex(h as nat));
    logout_cookie_returns_no_token(session_token_text(secret));
}

} // verus!
