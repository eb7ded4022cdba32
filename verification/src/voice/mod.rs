//! Custom voices: the samples they are cloned from, the voice service's
//! bookkeeping, and the in-app recorder's limits.

pub mod clone;
pub mod sample;
pub mod service;

use vstd::prelude::*;

use crate::text::{ascii_lower, ascii_lower_exec, chars_of, is_ascii_alnum, is_ascii_alnum_exec, string_of, take_chars, take_chars_exec};

verus! {

/// The ASCII letters and digits of `s`, lower-cased.
pub open spec fn slug_chars(s: Seq<char>) -> Seq<char>
    decreases s.len(),
{
    if s.len() == 0 {
        Seq::<char>::empty()
    } else if is_ascii_alnum(s.last()) {
        slug_chars(s.drop_last()).push(ascii_lower(s.last()))
    } else {
        slug_chars(s.drop_last())
    }
}

/// Turns arbitrary user text (a character name, say) into a short, API-safe
/// prefix for voice-enrollment requests: its ASCII letters and digits,
/// lower-cased, at most 16 of them. Text with none gets 8 random lowercase
/// hex digits instead.
pub fn slugify(input: &str) -> (r: String)
    ensures
        slug_chars(input@).len() > 0 ==> r@ == take_chars(slug_chars(input@), 16),
        slug_chars(input@).len() == 0 ==> r@.len() == 8 && forall|i: int|
            0 <= i < 8 ==> ('0' <= #[trigger] r@[i] <= '9') || ('a' <= r@[i] <= 'f'),
{
    let v = chars_of(input);
    let mut lower: Vec<char> = Vec::new();
    let mut i: usize = 0;
    while i < v.len()
        invariant
            i <= v.len(),
            v@ == input@,
            lower@ == slug_chars(input@.take(i as int)),
        decreases v.len() - i,
    {
        assert(input@.take(i + 1).drop_last() =~= input@.take(i as int));
        if is_ascii_alnum_exec(v[i]) {
            lower.push(ascii_lower_exec(v[i]));
        }
        i += 1;
    }
    assert(input@.take(v.len() as int) =~= input@);
    if lower.len() == 0 {
        let id = crate::encoding::new_uuid_simple_text();
        let w = chars_of(id.as_str());
        let first = take_chars_exec(&w, 8);
        string_of(&first)
    } else {
        let kept = take_chars_exec(&lower, 16);
        string_of(&kept)
    }
}

} // verus!
