//! Loading secrets into the environment at start-up: the access token, and which of the
//! requested secrets still have to be fetched.

use vstd::prelude::*;
use crate::text::{chars_equal, chars_of, string_from, trim, trim_chars};

verus! {

/// The access token read from the credential file: its text trimmed, refused when empty.
pub fn access_token_from(contents: &str) -> (token: Option<String>)
    ensures
        match token {
            Some(t) => t@ == trim(contents@) && t@.len() > 0,
            None => trim(contents@).len() == 0,
        },
{
    let trimmed = trim_chars(&chars_of(contents));
    if trimmed.len() == 0 {
        None
    } else {
        Some(string_from(&trimmed))
    }
}

/// A secret to load: the environment variable it fills and the id of the secret.
pub struct SecretRequest {
    pub env_var: String,
    pub secret_id: String,
}

/// Whether the request at `i` is fetched: its variable was not set at start-up, and no earlier
/// request filled it already.
pub open spec fn is_fetched(requests: Seq<SecretRequest>, is_set: Seq<bool>, i: int) -> bool {
    !is_set[i] && !exists|k: int|
        0 <= k < i && !is_set[k] && #[trigger] requests[k].env_var@ == requests[i].env_var@
}

/// The positions of the requests to fetch, in order. `is_set` tells, for each request, whether
/// its variable was set when the program started.
pub fn secrets_to_fetch(requests: &Vec<SecretRequest>, is_set: &Vec<bool>) -> (fetch: Vec<usize>)
    requires
        requests@.len() == is_set@.len(),
    ensures
        forall|j: int| 0 <= j < fetch@.len() ==> #[trigger] fetch@[j] < requests@.len(),
        forall|j: int, l: int| 0 <= j < l < fetch@.len() ==> fetch@[j] < fetch@[l],
        forall|i: int|
            0 <= i < requests@.len() ==> (is_fetched(requests@, is_set@, i) <==> fetch@.contains(
                i as usize,
            )),
{
    let mut fetch: Vec<usize> = Vec::new();
    let mut i: usize = 0;
    while i < requests.len()
        invariant
            i <= requests@.len(),
            requests@.len() == is_set@.len(),
            forall|j: int| 0 <= j < fetch@.len() ==> #[trigger] fetch@[j] < i,
            forall|j: int, l: int| 0 <= j < l < fetch@.len() ==> fetch@[j] < fetch@[l],
            forall|m: int|
                0 <= m < i ==> (is_fetched(requests@, is_set@, m) <==> fetch@.contains(m as usize)),
        decreases requests@.len() - i,
    {
        let ghost before = fetch@;
        let mut seen = false;
        if !is_set[i] {
            let mut k: usize = 0;
            while k < i
                invariant
                    k <= i,
                    i < requests@.len(),
                    requests@.len() == is_set@.len(),
                    seen == exists|m: int|
                        0 <= m < k && !is_set@[m] && #[trigger] requests@[m].env_var@
                            == requests@[i as int].env_var@,
                decreases i - k,
            {
                if !is_set[k] && chars_equal(
                    &chars_of(requests[k].env_var.as_str()),
                    &chars_of(requests[i].env_var.as_str()),
                ) {
                    seen = true;
                }
                k = k + 1;
            }
            if !seen {
                fetch.push(i);
            }
        }
        proof {
            assert(fetch@ == before || fetch@ == before.push(i));
            assert(is_fetched(requests@, is_set@, i as int) <==> (fetch@ == before.push(i))) by {
                if fetch@ == before.push(i) {
                    assert(!is_set@[i as int] && !seen);
                } else {
                    assert(is_set@[i as int] || seen);
                }
            }
            assert forall|m: int| 0 <= m < i + 1 implies (is_fetched(requests@, is_set@, m)
                <==> fetch@.contains(m as usize)) by {
                if fetch@.contains(m as usize) {
                    let j = choose|j: int| 0 <= j < fetch@.len() && fetch@[j] == m as usize;
                    if j < before.len() {
                        assert(before[j] == m as usize);
                        assert(before.contains(m as usize));
                        assert(m < i);
                    } else {
                        assert(fetch@ == before.push(i));
                        assert(m == i);
                    }
                }
                if m < i && before.contains(m as usize) {
                    let j = choose|j: int| 0 <= j < before.len() && before[j] == m as usize;
                    assert(fetch@[j] == m as usize);
                }
                if m == i && fetch@ == before.push(i) {
                    assert(fetch@[before.len() as int] == i);
                }
                if m == i && !before.contains(i as usize) {
                }
                if m == i && fetch@ == before {
                    if before.contains(i as usize) {
                        let j = choose|j: int| 0 <= j < before.len() && before[j] == i as usize;
                        assert(before[j] < i);
                    }
                }
            }
            assert forall|j: int| 0 <= j < fetch@.len() implies #[trigger] fetch@[j] < i + 1 by {
                if j < before.len() {
                    assert(fetch@[j] == before[j]);
                }
            }
        }
        i = i + 1;
    }
    fetch
}

} // verus!
