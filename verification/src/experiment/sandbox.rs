//! Reading what an experiment script printed: shortened output and the
//! metrics it reported as JSON lines.
use crate::routes::query::eq_lit;
use crate::text::{
    chars_of, ends_with, ends_with_str, lemma_encode_concat, lines, lines_of, push_str, seq_eq,
    starts_with, starts_with_str, string_of, trim, trim_chars,
};
use vstd::prelude::*;
use vstd::string::StringSliceAdditionalSpecFns;
use vstd::utf8::{encode_utf8, is_char_boundary};

verus! {

// ───────────────────────── output ─────────────────────────

pub open spec fn truncation_mark() -> Seq<char> {
    "...(truncated)"@
}

/// Shortens output to its first `max` bytes, marked `...(truncated)`;
/// output within `max` bytes is kept whole.  `max` must fall on a
/// character boundary of longer output.
pub fn truncate(s: &str, max: usize) -> (r: String)
    requires
        s.spec_bytes().len() > max ==> is_char_boundary(s.spec_bytes(), max as int),
    ensures
        s.spec_bytes().len() <= max ==> r@ == s@,
        s.spec_bytes().len() > max ==> encode_utf8(r@) == s.spec_bytes().take(max as int)
            + encode_utf8(truncation_mark()),
{
    let bytes = s.as_bytes();
    if bytes.len() <= max {
        String::from_str(s)
    } else {
        let (head, _rest) = s.split_at(max);
        let mut out = String::from_str(head);
        let mark = "...(truncated)";
        push_str(&mut out, mark);
        proof {
            lemma_encode_concat(head@, mark@);
            assert(head.spec_bytes() =~= s.spec_bytes().take(max as int));
        }
        out
    }
}

// ───────────────────────── metrics ─────────────────────────

/// A trimmed line that looks like a JSON object.
pub open spec fn object_like(l: Seq<char>) -> bool {
    starts_with(trim(l), "{"@) && ends_with(trim(l), "}"@)
}

/// The trimmed lines of `ls` that look like JSON objects.
pub open spec fn object_lines(ls: Seq<Seq<char>>) -> Seq<Seq<char>>
    decreases ls.len(),
{
    if ls.len() == 0 {
        Seq::empty()
    } else {
        let r = object_lines(ls.drop_last());
        if object_like(ls.last()) {
            r.push(trim(ls.last()))
        } else {
            r
        }
    }
}

/// The members of the JSON object in `text`, as `serde_json` reads it: each
/// key with its value written back as JSON text; `None` when `text` is not
/// JSON or not an object.
pub uninterp spec fn json_object_members(text: Seq<char>) -> Option<Seq<(Seq<char>, Seq<char>)>>;

pub open spec fn members_view(v: Seq<(String, String)>) -> Seq<(Seq<char>, Seq<char>)> {
    v.map_values(|p: (String, String)| (p.0@, p.1@))
}

/// `serde_json::from_str::<Value>(text)`, then, for an object, each member
/// with its value written by `Value::to_string`, in the map's order.
#[verifier::external_body]
fn object_members(text: &str) -> (r: Option<Vec<(String, String)>>)
    ensures
        match r {
            Some(v) => json_object_members(text@) == Some(members_view(v@)),
            None => json_object_members(text@) is None,
        },
{
    serde_json::from_str::<serde_json::Value>(text).ok().and_then(
        |v| v.as_object().map(|m| m.iter().map(|(k, x)| (k.clone(), x.to_string())).collect()),
    )
}

/// Position of the member with key `k`, or -1.
pub open spec fn key_position(acc: Seq<(Seq<char>, Seq<char>)>, k: Seq<char>) -> int
    decreases acc.len(),
{
    if acc.len() == 0 {
        -1
    } else {
        let i = key_position(acc.drop_last(), k);
        if i >= 0 {
            i
        } else if acc.last().0 == k {
            acc.len() - 1
        } else {
            -1
        }
    }
}

/// Records member `m`: a known key takes the new value, a new key is added.
pub open spec fn merge_member(acc: Seq<(Seq<char>, Seq<char>)>, m: (Seq<char>, Seq<char>)) -> Seq<
    (Seq<char>, Seq<char>),
> {
    let i = key_position(acc, m.0);
    if i >= 0 {
        acc.update(i, m)
    } else {
        acc.push(m)
    }
}

pub open spec fn merge_members(acc: Seq<(Seq<char>, Seq<char>)>, ms: Seq<(Seq<char>, Seq<char>)>) -> Seq<
    (Seq<char>, Seq<char>),
>
    decreases ms.len(),
{
    if ms.len() == 0 {
        acc
    } else {
        merge_member(merge_members(acc, ms.drop_last()), ms.last())
    }
}

/// The metrics of the object lines, later values replacing earlier ones.
pub open spec fn collect_metrics(ls: Seq<Seq<char>>) -> Seq<(Seq<char>, Seq<char>)>
    decreases ls.len(),
{
    if ls.len() == 0 {
        Seq::empty()
    } else {
        let acc = collect_metrics(ls.drop_last());
        match json_object_members(ls.last()) {
            Some(ms) => merge_members(acc, ms),
            None => acc,
        }
    }
}

/// The metrics an experiment printed: the members of every line of its
/// output that is a JSON object, a later value replacing an earlier one
/// for the same key; `None` when there are none.
pub open spec fn json_metrics_spec(stdout: Seq<char>) -> Option<Seq<(Seq<char>, Seq<char>)>> {
    let m = collect_metrics(object_lines(lines(stdout)));
    if m.len() == 0 {
        None
    } else {
        Some(m)
    }
}

fn find_key(acc: &Vec<(String, String)>, k: &String) -> (r: Option<usize>)
    ensures
        match r {
            Some(i) => i < acc@.len() && key_position(members_view(acc@), k@) == i as int,
            None => key_position(members_view(acc@), k@) == -1,
        },
{
    let ghost av = members_view(acc@);
    let mut i: usize = 0;
    while i < acc.len()
        invariant
            av == members_view(acc@),
            i <= acc@.len(),
            key_position(av.take(i as int), k@) == -1,
        decreases acc@.len() - i,
    {
        assert(av.take(i + 1).drop_last() =~= av.take(i as int));
        assert(av.take(i + 1).last() == (acc@[i as int].0@, acc@[i as int].1@));
        if acc[i].0 == *k {
            proof {
                lemma_key_position_prefix(av, i as int + 1, k@);
            }
            return Some(i);
        }
        i += 1;
    }
    assert(av.take(acc@.len() as int) =~= av);
    None
}

proof fn lemma_key_position_prefix(s: Seq<(Seq<char>, Seq<char>)>, n: int, k: Seq<char>)
    requires
        0 <= n <= s.len(),
        key_position(s.take(n), k) >= 0,
    ensures
        key_position(s, k) == key_position(s.take(n), k),
    decreases s.len() - n,
{
    if n < s.len() {
        assert(s.take(n + 1).drop_last() =~= s.take(n));
        lemma_key_position_prefix(s, n + 1, k);
    } else {
        assert(s.take(n) =~= s);
    }
}

fn merge_into(acc: &mut Vec<(String, String)>, ms: &Vec<(String, String)>)
    ensures
        members_view(final(acc)@) == merge_members(members_view(old(acc)@), members_view(ms@)),
{
    let ghost start = members_view(acc@);
    let mut j: usize = 0;
    while j < ms.len()
        invariant
            j <= ms@.len(),
            members_view(acc@) == merge_members(start, members_view(ms@).take(j as int)),
        decreases ms@.len() - j,
    {
        assert(members_view(ms@).take(j + 1).drop_last() =~= members_view(ms@).take(j as int));
        assert(members_view(ms@).take(j + 1).last() == (ms@[j as int].0@, ms@[j as int].1@));
        let k = ms[j].0.clone();
        let v = ms[j].1.clone();
        let ghost before = members_view(acc@);
        match find_key(acc, &k) {
            Some(i) => {
                acc.set(i, (k, v));
                assert(members_view(acc@) =~= before.update(i as int, (ms@[j as int].0@, ms@[j as int].1@)));
            },
            None => {
                acc.push((k, v));
                assert(members_view(acc@) =~= before.push((ms@[j as int].0@, ms@[j as int].1@)));
            },
        }
        j += 1;
    }
    assert(members_view(ms@).take(ms@.len() as int) =~= members_view(ms@));
}

/// The trimmed lines of `stdout` that look like JSON objects.
pub fn metric_lines(stdout: &str) -> (r: Vec<String>)
    ensures
        r.deep_view() == object_lines(lines(stdout@)),
{
    let v = chars_of(stdout);
    let ls = lines_of(v.as_slice());
    let ghost lv = ls.deep_view();
    let mut r: Vec<String> = Vec::new();
    let mut i: usize = 0;
    while i < ls.len()
        invariant
            lv == ls.deep_view(),
            lv == lines(stdout@),
            i <= ls@.len(),
            r.deep_view() == object_lines(lv.take(i as int)),
        decreases ls@.len() - i,
    {
        assert(lv.take(i + 1).drop_last() =~= lv.take(i as int));
        assert(lv.take(i + 1).last() == ls[i as int]@);
        let t = trim_chars(ls[i].as_slice());
        if starts_with_str(t.as_slice(), "{") && ends_with_str(t.as_slice(), "}") {
            let ghost before = r.deep_view();
            r.push(string_of(t.as_slice()));
            assert(r.deep_view() =~= before.push(t@));
        }
        i += 1;
    }
    assert(lv.take(ls@.len() as int) =~= lv);
    r
}

/// Reads the metrics an experiment printed (see `json_metrics_spec`): each
/// key with its value as JSON text, keys in order of first appearance.
pub fn extract_json_metrics(stdout: &str) -> (r: Option<Vec<(String, String)>>)
    ensures
        match json_metrics_spec(stdout@) {
            None => r is None,
            Some(m) => r matches Some(v) && members_view(v@) == m,
        },
{
    let ls = metric_lines(stdout);
    let ghost lv = ls.deep_view();
    let mut acc: Vec<(String, String)> = Vec::new();
    assert(members_view(acc@) =~= Seq::<(Seq<char>, Seq<char>)>::empty());
    let mut i: usize = 0;
    while i < ls.len()
        invariant
            lv == ls.deep_view(),
            i <= ls@.len(),
            members_view(acc@) == collect_metrics(lv.take(i as int)),
        decreases ls@.len() - i,
    {
        assert(lv.take(i + 1).drop_last() =~= lv.take(i as int));
        assert(lv.take(i + 1).last() == ls[i as int]@);
        match object_members(ls[i].as_str()) {
            Some(ms) => {
                merge_into(&mut acc, &ms);
            },
            None => {},
        }
        i += 1;
    }
    assert(lv.take(ls@.len() as int) =~= lv);
    if acc.len() == 0 {
        None
    } else {
        Some(acc)
    }
}

} // verus!
