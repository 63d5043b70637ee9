//! JSON values as the library reads them, and navigation in them.
use crate::text::{char_is_digit, chars_of, is_digit};
use vstd::prelude::*;

verus! {

// ───────────────────────── JSON ─────────────────────────

/// A JSON value as the library reads it; numbers are kept as their text.
#[derive(Debug)]
pub enum Json {
    Null,
    Bool(bool),
    Number(String),
    Str(String),
    Array(Vec<Json>),
    Object(Vec<(String, Json)>),
}

/// The value of the first member named `k`.
pub open spec fn member(es: Seq<(String, Json)>, k: Seq<char>) -> Option<Json>
    decreases es.len(),
{
    if es.len() == 0 {
        None
    } else if es[0].0@ == k {
        Some(es[0].1)
    } else {
        member(es.drop_first(), k)
    }
}

/// `value[k]` (absent, null and non-objects all give nothing).
pub open spec fn get(j: Option<Json>, k: Seq<char>) -> Option<Json> {
    match j {
        Some(Json::Object(es)) => member(es@, k),
        _ => None,
    }
}

/// `value[i]` of an array.
pub open spec fn at(j: Option<Json>, i: int) -> Option<Json> {
    match j {
        Some(Json::Array(xs)) => if 0 <= i < xs@.len() {
            Some(xs@[i])
        } else {
            None
        },
        _ => None,
    }
}

/// `value.as_str()`.
pub open spec fn str_of(j: Option<Json>) -> Option<Seq<char>> {
    match j {
        Some(Json::Str(s)) => Some(s@),
        _ => None,
    }
}

pub open spec fn deref_opt(o: Option<&Json>) -> Option<Json> {
    match o {
        Some(x) => Some(*x),
        None => None,
    }
}

pub fn get_member<'a>(j: Option<&'a Json>, k: &str) -> (r: Option<&'a Json>)
    ensures
        deref_opt(r) == get(deref_opt(j), k@),
{
    match j {
        Some(Json::Object(es)) => {
            let ghost ev = es@;
            assert(ev.skip(0) =~= ev);
            let mut i: usize = 0;
            while i < es.len()
                invariant
                    ev == es@,
                    i <= ev.len(),
                    get(deref_opt(j), k@) == member(ev, k@),
                    member(ev, k@) == member(ev.skip(i as int), k@),
                decreases ev.len() - i,
            {
                assert(ev.skip(i as int)[0] == ev[i as int]);
                assert(ev.skip(i as int).drop_first() =~= ev.skip(i + 1));
                let name = chars_of(es[i].0.as_str());
                if crate::routes::query::eq_lit(&name, k) {
                    assert(ev.skip(i as int)[0].0@ == k@);
                    return Some(&es[i].1);
                }
                i += 1;
            }
            None
        },
        _ => None,
    }
}

pub fn item_at<'a>(j: Option<&'a Json>, i: usize) -> (r: Option<&'a Json>)
    ensures
        deref_opt(r) == at(deref_opt(j), i as int),
{
    match j {
        Some(Json::Array(xs)) => {
            if i < xs.len() {
                Some(&xs[i])
            } else {
                None
            }
        },
        _ => None,
    }
}

pub fn string_value(j: Option<&Json>) -> (r: Option<String>)
    ensures
        match str_of(deref_opt(j)) {
            Some(s) => r matches Some(t) && t@ == s,
            None => r is None,
        },
{
    match j {
        Some(Json::Str(s)) => Some(s.clone()),
        _ => None,
    }
}

/// `value.as_array()`.
pub open spec fn items_of(j: Option<Json>) -> Option<Seq<Json>> {
    match j {
        Some(Json::Array(xs)) => Some(xs@),
        _ => None,
    }
}

pub fn array_items<'a>(j: Option<&'a Json>) -> (r: Option<&'a Vec<Json>>)
    ensures
        match items_of(deref_opt(j)) {
            Some(xs) => r matches Some(v) && v@ == xs,
            None => r is None,
        },
{
    match j {
        Some(Json::Array(xs)) => Some(xs),
        _ => None,
    }
}

/// `value.as_str().unwrap_or("")`.
pub open spec fn text_of(j: Option<Json>) -> Seq<char> {
    match str_of(j) {
        Some(s) => s,
        None => Seq::empty(),
    }
}

pub fn text_value(j: Option<&Json>) -> (r: String)
    ensures
        r@ == text_of(deref_opt(j)),
{
    match string_value(j) {
        Some(s) => s,
        None => String::new(),
    }
}

/// The first element of an array, if any.
pub open spec fn first_of(j: Option<Json>) -> Option<Json> {
    at(j, 0)
}

/// The value of a run of ASCII digits.
pub open spec fn digits_value(t: Seq<char>) -> nat
    decreases t.len(),
{
    if t.len() == 0 {
        0
    } else {
        digits_value(t.drop_last()) * 10 + ((t.last() as u32) - 48) as nat
    }
}

/// `value.as_u64()`: a number written with digits only, within `u64`.
pub open spec fn u64_of(j: Option<Json>) -> Option<nat> {
    match j {
        Some(Json::Number(t)) => if t@.len() > 0 && (forall|i: int|
            0 <= i < t@.len() ==> is_digit(#[trigger] t@[i])) && digits_value(t@) <= u64::MAX {
            Some(digits_value(t@))
        } else {
            None
        },
        _ => None,
    }
}

fn parse_u64(t: &Vec<char>) -> (r: Option<u64>)
    ensures
        match r {
            Some(n) => t@.len() > 0 && (forall|i: int| 0 <= i < t@.len() ==> is_digit(#[trigger] t@[i]))
                && digits_value(t@) == n,
            None => !(t@.len() > 0 && (forall|i: int| 0 <= i < t@.len() ==> is_digit(#[trigger] t@[i]))
                && digits_value(t@) <= u64::MAX),
        },
{
    if t.len() == 0 {
        return None;
    }
    let mut v: u64 = 0;
    let mut i: usize = 0;
    while i < t.len()
        invariant
            i <= t@.len(),
            t@.len() > 0,
            forall|k: int| 0 <= k < i ==> is_digit(#[trigger] t@[k]),
            v == digits_value(t@.take(i as int)),
        decreases t@.len() - i,
    {
        let c = t[i];
        assert(t@.take(i + 1).drop_last() =~= t@.take(i as int));
        if !char_is_digit(c) {
            return None;
        }
        let d: u64 = ((c as u32) - 48) as u64;
        if v > (u64::MAX - d) / 10 {
            proof {
                assert(digits_value(t@.take(i + 1)) == v * 10 + d);
                if forall|k: int| 0 <= k < t@.len() ==> is_digit(#[trigger] t@[k]) {
                    lemma_digits_value_prefix(t@, i + 1);
                }
            }
            return None;
        }
        v = v * 10 + d;
        i += 1;
    }
    assert(t@.take(t@.len() as int) =~= t@);
    Some(v)
}

/// The value of a digit run is at least that of any of its prefixes.
proof fn lemma_digits_value_prefix(t: Seq<char>, n: int)
    requires
        0 <= n <= t.len(),
        forall|i: int| 0 <= i < t.len() ==> is_digit(#[trigger] t[i]),
    ensures
        digits_value(t.take(n)) <= digits_value(t),
    decreases t.len() - n,
{
    if n < t.len() {
        assert(t.take(n + 1).drop_last() =~= t.take(n));
        lemma_digits_value_prefix(t, n + 1);
    } else {
        assert(t.take(n) =~= t);
    }
}

pub fn u64_value(j: Option<&Json>) -> (r: Option<u64>)
    ensures
        match u64_of(deref_opt(j)) {
            Some(n) => r == Some(n as u64),
            None => r is None,
        },
{
    match j {
        Some(Json::Number(t)) => {
            let v = chars_of(t.as_str());
            match parse_u64(&v) {
                Some(n) => Some(n),
                None => None,
            }
        },
        _ => None,
    }
}

/// Whether the value is the number 0 (a success `status`).
pub open spec fn is_zero(j: Option<Json>) -> bool {
    match j {
        Some(Json::Number(t)) => t@ == "0"@,
        _ => false,
    }
}

pub fn zero_value(j: Option<&Json>) -> (r: bool)
    ensures
        r == is_zero(deref_opt(j)),
{
    match j {
        Some(Json::Number(t)) => {
            let v = chars_of(t.as_str());
            crate::routes::query::eq_lit(&v, "0")
        },
        _ => false,
    }
}

/// `value.as_bool()`.
pub open spec fn bool_of(j: Option<Json>) -> Option<bool> {
    match j {
        Some(Json::Bool(b)) => Some(b),
        _ => None,
    }
}

pub fn bool_value(j: Option<&Json>) -> (r: Option<bool>)
    ensures
        r == bool_of(deref_opt(j)),
{
    match j {
        Some(Json::Bool(b)) => Some(*b),
        _ => None,
    }
}


} // verus!
