//! Collections and tags of patents: the checks on what a user names.
use crate::text::{string_of, trim, trim_str};
use vstd::prelude::*;
use vstd::utf8::encode_utf8;

verus! {

/// A trimmed name of 1 to `max` bytes, or `None`.
pub open spec fn bounded_name(raw: Seq<char>, max: nat) -> Option<Seq<char>> {
    let t = trim(raw);
    if t.len() == 0 || encode_utf8(t).len() > max {
        None
    } else {
        Some(t)
    }
}

fn checked_name(raw: &str, max: usize) -> (r: Option<String>)
    ensures
        match bounded_name(raw@, max as nat) {
            Some(t) => r matches Some(s) && s@ == t,
            None => r is None,
        },
{
    let t = string_of(trim_str(raw).as_slice());
    if t.as_str().is_empty() || t.as_str().as_bytes().len() > max {
        None
    } else {
        Some(t)
    }
}

/// The name of a new collection: trimmed, 1 to 100 bytes; `None` when
/// refused ("Collection name is required (max 100 chars)").
pub fn collection_name(raw: &str) -> (r: Option<String>)
    ensures
        match bounded_name(raw@, 100) {
            Some(t) => r matches Some(s) && s@ == t,
            None => r is None,
        },
{
    checked_name(raw, 100)
}

/// A tag: trimmed, 1 to 50 bytes; `None` when refused ("Tag is required
/// (max 50 chars)").
pub fn tag_name(raw: &str) -> (r: Option<String>)
    ensures
        match bounded_name(raw@, 50) {
            Some(t) => r matches Some(s) && s@ == t,
            None => r is None,
        },
{
    checked_name(raw, 50)
}

} // verus!
