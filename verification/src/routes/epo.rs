//! Reading the bibliographic reply of the EPO: the first field of a given
//! name, searched through the whole reply.
use crate::json::{get, get_member, str_of, string_value, Json};
use crate::pipeline::steps::contradiction::join_strings;
use crate::text::{chars_of, join, seq_eq, string_of};
use vstd::prelude::*;

verus! {

broadcast use vstd::std_specs::vec::group_vec_axioms;

/// The text of an array entry: the entry itself when it is a string, else
/// its `$` member when that is one.
pub open spec fn entry_text(x: Json) -> Option<Seq<char>> {
    match str_of(Some(x)) {
        Some(s) => Some(s),
        None => str_of(get(Some(x), "$"@)),
    }
}

pub open spec fn entry_texts(xs: Seq<Json>) -> Seq<Seq<char>>
    decreases xs.len(),
{
    if xs.len() == 0 {
        Seq::empty()
    } else {
        match entry_text(xs.last()) {
            Some(t) => entry_texts(xs.drop_last()).push(t),
            None => entry_texts(xs.drop_last()),
        }
    }
}

/// The text of a field's value: a string as it is, an array as the texts
/// of its entries joined by `, `; `None` for any other value, which is
/// shown as JSON.
pub open spec fn field_text_spec(v: Json) -> Option<Seq<char>> {
    match v {
        Json::Str(s) => Some(s@),
        Json::Array(xs) => Some(join(entry_texts(xs@), ", "@)),
        _ => None,
    }
}

/// Whether a value found under the field's name ends the search: its text
/// is not empty (a value shown as JSON never is).
pub open spec fn ends_search(v: Json) -> bool {
    match field_text_spec(v) {
        Some(t) => t.len() > 0,
        None => true,
    }
}

/// The value that the search for field `f` settles on, depth first in
/// document order. In an object, the first member named `f` ends the
/// object's search: its value is the answer when it `ends_search`, else the
/// object gives nothing. Other members are searched in turn, and the first
/// answer found inside one is kept.
pub open spec fn epo_value_spec(j: Json, f: Seq<char>) -> Option<Json>
    decreases j,
{
    match j {
        Json::Object(es) => {
            proof {
                assert(decreases_to!(es => es@));
            }
            epo_members(es@, f)
        },
        Json::Array(xs) => {
            proof {
                assert(decreases_to!(xs => xs@));
            }
            epo_items(xs@, f)
        },
        _ => None,
    }
}

pub open spec fn epo_members(es: Seq<(String, Json)>, f: Seq<char>) -> Option<Json>
    decreases es,
{
    if es.len() == 0 {
        None
    } else {
        proof {
            assert(decreases_to!(es => es[0]));
            assert(decreases_to!(es => es.subrange(1, es.len() as int)));
        }
        if es[0].0@ == f {
            if ends_search(es[0].1) {
                Some(es[0].1)
            } else {
                None
            }
        } else {
            match epo_value_spec(es[0].1, f) {
                Some(v) => Some(v),
                None => epo_members(es.subrange(1, es.len() as int), f),
            }
        }
    }
}

pub open spec fn epo_items(xs: Seq<Json>, f: Seq<char>) -> Option<Json>
    decreases xs,
{
    if xs.len() == 0 {
        None
    } else {
        proof {
            assert(decreases_to!(xs => xs[0]));
            assert(decreases_to!(xs => xs.subrange(1, xs.len() as int)));
        }
        match epo_value_spec(xs[0], f) {
            Some(v) => Some(v),
            None => epo_items(xs.subrange(1, xs.len() as int), f),
        }
    }
}


fn entry_text_of(x: &Json) -> (r: Option<String>)
    ensures
        match entry_text(*x) {
            Some(t) => r matches Some(s) && s@ == t,
            None => r is None,
        },
{
    match string_value(Some(x)) {
        Some(s) => Some(s),
        None => string_value(get_member(Some(x), "$")),
    }
}

fn entry_texts_of(xs: &Vec<Json>) -> (r: Vec<String>)
    ensures
        r.deep_view() == entry_texts(xs@),
{
    let mut r: Vec<String> = Vec::new();
    let mut i: usize = 0;
    while i < xs.len()
        invariant
            i <= xs@.len(),
            r.deep_view() == entry_texts(xs@.take(i as int)),
        decreases xs@.len() - i,
    {
        assert(xs@.take(i + 1).drop_last() =~= xs@.take(i as int));
        assert(xs@.take(i + 1).last() == xs@[i as int]);
        let ghost before = r.deep_view();
        match entry_text_of(&xs[i]) {
            Some(t) => {
                r.push(t);
                assert(r.deep_view() =~= before.push(entry_text(xs@[i as int])->0));
            },
            None => {},
        }
        i += 1;
    }
    assert(xs@.take(xs@.len() as int) =~= xs@);
    r
}

/// The text of a field's value (see `field_text_spec`).
pub fn field_text(v: &Json) -> (r: Option<String>)
    ensures
        match field_text_spec(*v) {
            Some(t) => r matches Some(s) && s@ == t,
            None => r is None,
        },
{
    match v {
        Json::Str(s) => Some(s.clone()),
        Json::Array(xs) => {
            let texts = entry_texts_of(xs);
            let sep = chars_of(", ");
            Some(string_of(join_strings(&texts, sep.as_slice()).as_slice()))
        },
        _ => None,
    }
}

fn settles(v: &Json) -> (r: bool)
    ensures
        r == ends_search(*v),
{
    match field_text(v) {
        Some(t) => !t.as_str().is_empty(),
        None => true,
    }
}

/// The value of the first field named `f` in an EPO reply (see
/// `epo_value_spec`); `None` when the reply has none with a text.
pub fn epo_value<'a>(j: &'a Json, f: &str) -> (r: Option<&'a Json>)
    ensures
        match r {
            Some(v) => epo_value_spec(*j, f@) == Some(*v),
            None => epo_value_spec(*j, f@) is None,
        },
    decreases *j,
{
    match j {
        Json::Object(es) => {
            let fv = chars_of(f);
            assert(es@.subrange(0, es@.len() as int) =~= es@);
            let mut i: usize = 0;
            while i < es.len()
                invariant
                    i <= es@.len(),
                    fv@ == f@,
                    *j == Json::Object(*es),
                    epo_value_spec(*j, f@) == epo_members(es@.subrange(i as int, es@.len() as int), f@),
                decreases es@.len() - i,
            {
                let ghost rest = es@.subrange(i as int, es@.len() as int);
                assert(rest[0] == es@[i as int]);
                assert(rest.subrange(1, rest.len() as int) =~= es@.subrange(i + 1, es@.len() as int));
                let k = chars_of(es[i].0.as_str());
                if seq_eq(k.as_slice(), fv.as_slice()) {
                    if settles(&es[i].1) {
                        return Some(&es[i].1);
                    } else {
                        return None;
                    }
                }
                proof {
                    assert(decreases_to!(es => es@));
                    assert(decreases_to!(es@ => es@[i as int]));
                }
                match epo_value(&es[i].1, f) {
                    Some(v) => {
                        return Some(v);
                    },
                    None => {},
                }
                i += 1;
            }
            None
        },
        Json::Array(xs) => {
            assert(xs@.subrange(0, xs@.len() as int) =~= xs@);
            let mut i: usize = 0;
            while i < xs.len()
                invariant
                    i <= xs@.len(),
                    *j == Json::Array(*xs),
                    epo_value_spec(*j, f@) == epo_items(xs@.subrange(i as int, xs@.len() as int), f@),
                decreases xs@.len() - i,
            {
                let ghost rest = xs@.subrange(i as int, xs@.len() as int);
                assert(rest[0] == xs@[i as int]);
                assert(rest.subrange(1, rest.len() as int) =~= xs@.subrange(i + 1, xs@.len() as int));
                proof {
                    assert(decreases_to!(xs => xs@));
                    assert(decreases_to!(xs@ => xs@[i as int]));
                }
                match epo_value(&xs[i], f) {
                    Some(v) => {
                        return Some(v);
                    },
                    None => {},
                }
                i += 1;
            }
            None
        },
        _ => None,
    }
}

} // verus!
