//! What the app shows of the API key it keeps in the OS keyring: whether
//! there is one, and its last few characters to recognise it by.

use vstd::prelude::*;

use crate::text::{chars_of, extend_chars, extend_str, string_of};

verus! {

#[derive(Debug)]
pub struct SecretStatus {
    pub configured: bool,
    pub tail: Option<String>,
}

/// The last four characters of `key` (all of it when shorter).
pub open spec fn last_four(key: Seq<char>) -> Seq<char> {
    if key.len() <= 4 {
        key
    } else {
        key.skip(key.len() - 4)
    }
}

/// The status of a stored key, `stored` being what the keyring gave back:
/// configured, and shown as `...` and its last four characters, when it
/// gave back a key that isn't empty.
pub fn status(stored: Option<&str>) -> (r: SecretStatus)
    ensures
        match stored {
            Some(k) => if k@.len() > 0 {
                r.configured && (r.tail matches Some(t) && t@ == "..."@ + last_four(k@))
            } else {
                !r.configured && r.tail is None
            },
            None => !r.configured && r.tail is None,
        },
{
    match stored {
        Some(k) => {
            let v = chars_of(k);
            if v.len() == 0 {
                return SecretStatus { configured: false, tail: None };
            }
            let start: usize = if v.len() > 4 {
                v.len() - 4
            } else {
                0
            };
            let mut tail: Vec<char> = Vec::new();
            let mut i: usize = start;
            while i < v.len()
                invariant
                    start <= i <= v@.len(),
                    tail@ == v@.subrange(start as int, i as int),
                decreases v.len() - i,
            {
                tail.push(v[i]);
                assert(v@.subrange(start as int, i + 1) =~= v@.subrange(start as int, i as int).push(
                    v@[i as int],
                ));
                i += 1;
            }
            let mut out: Vec<char> = Vec::new();
            extend_str(&mut out, "...");
            extend_chars(&mut out, &tail);
            assert(last_four(k@) =~= v@.subrange(start as int, v@.len() as int));
            assert(out@ =~= "..."@ + last_four(k@));
            SecretStatus { configured: true, tail: Some(string_of(&out)) }
        },
        None => SecretStatus { configured: false, tail: None },
    }
}

} // verus!
