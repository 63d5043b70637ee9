//! Post-processing of search results: duplicates of one patent, grouping
//! counts, ordering by date, totals and exports.
use crate::db::relevance::{normalize, normalized};
use crate::patent::{CategoryGroup, SearchType};
use crate::pipeline::steps::prior_art_cluster::{lemma_lex_irrefl, lemma_lex_trans, lex_less, lex_lt};
use crate::pipeline::steps::tokens::{dedup, distinct};
use crate::routes::patent_page::{normalize_number_spec, normalize_patent_number};
use crate::routes::query::opt_view;
use crate::routes::escape::{escape_csv, escape_csv_spec};
use crate::text::{
    byte_len, byte_len_chars, chars_of, contains, contains_chars, lowercase, push_char, push_str,
    byte_len_le, seq_eq, string_of, take_chars, take_n, to_lower,
};
use vstd::prelude::*;

verus! {

// ───────────────────────── counting keys ─────────────────────────

/// How often `k` occurs in `keys`.
pub open spec fn occurrences(keys: Seq<Seq<char>>, k: Seq<char>) -> nat
    decreases keys.len(),
{
    if keys.len() == 0 {
        0
    } else {
        occurrences(keys.drop_last(), k) + (if keys.last() == k {
            1nat
        } else {
            0nat
        })
    }
}

/// Inserts `x` before the first key that occurs less often than it.
pub open spec fn insert_by_count(keys: Seq<Seq<char>>, l: Seq<Seq<char>>, x: Seq<char>) -> Seq<
    Seq<char>,
>
    decreases l.len(),
{
    if l.len() == 0 {
        seq![x]
    } else if occurrences(keys, l[0]) < occurrences(keys, x) {
        seq![x] + l
    } else {
        seq![l[0]] + insert_by_count(keys, l.drop_first(), x)
    }
}

/// `l` sorted by decreasing number of occurrences in `keys`, ties in order.
pub open spec fn sort_by_count(keys: Seq<Seq<char>>, l: Seq<Seq<char>>) -> Seq<Seq<char>>
    decreases l.len(),
{
    if l.len() == 0 {
        Seq::empty()
    } else {
        insert_by_count(keys, sort_by_count(keys, l.drop_last()), l.last())
    }
}

/// The distinct keys, most frequent first, ties in order of first appearance.
pub open spec fn ranked_keys(keys: Seq<Seq<char>>) -> Seq<Seq<char>> {
    sort_by_count(keys, dedup(keys))
}

pub open spec fn count_sorted(keys: Seq<Seq<char>>, l: Seq<Seq<char>>) -> bool {
    forall|i: int, j: int| 0 <= i < j < l.len() ==> occurrences(keys, l[i]) >= occurrences(keys, l[j])
}

proof fn lemma_insert_by_count(keys: Seq<Seq<char>>, l: Seq<Seq<char>>, x: Seq<char>)
    requires
        count_sorted(keys, l),
    ensures
        insert_by_count(keys, l, x).len() == l.len() + 1,
        forall|y: Seq<char>| #[trigger] insert_by_count(keys, l, x).contains(y) <==> (l.contains(y) || y == x),
        count_sorted(keys, insert_by_count(keys, l, x)),
    decreases l.len(),
{
    let ins = insert_by_count(keys, l, x);
    if l.len() == 0 {
        assert(ins =~= seq![x]);
        assert forall|y: Seq<char>| #[trigger] ins.contains(y) <==> (l.contains(y) || y == x) by {
            if y == x {
                assert(ins[0] == x);
            }
        }
    } else if occurrences(keys, l[0]) < occurrences(keys, x) {
        assert(ins =~= seq![x] + l);
        assert forall|y: Seq<char>| #[trigger] ins.contains(y) <==> (l.contains(y) || y == x) by {
            if l.contains(y) {
                let k = choose|k: int| 0 <= k < l.len() && l[k] == y;
                assert(ins[k + 1] == y);
            }
            if y == x {
                assert(ins[0] == x);
            }
            if ins.contains(y) {
                let k = choose|k: int| 0 <= k < ins.len() && ins[k] == y;
                if k > 0 {
                    assert(l[k - 1] == y);
                }
            }
        }
        assert forall|i: int, j: int| 0 <= i < j < ins.len() implies occurrences(keys, ins[i]) >= occurrences(
            keys,
            ins[j],
        ) by {
            if i == 0 {
                assert(ins[j] == l[j - 1]);
                if j > 1 {
                    assert(occurrences(keys, l[0]) >= occurrences(keys, l[j - 1]));
                }
            } else {
                assert(ins[i] == l[i - 1] && ins[j] == l[j - 1]);
            }
        }
    } else {
        let tail = l.drop_first();
        assert forall|i: int, j: int| 0 <= i < j < tail.len() implies occurrences(keys, tail[i]) >= occurrences(
            keys,
            tail[j],
        ) by {
            assert(tail[i] == l[i + 1] && tail[j] == l[j + 1]);
        }
        lemma_insert_by_count(keys, tail, x);
        let rest = insert_by_count(keys, tail, x);
        assert(ins =~= seq![l[0]] + rest);
        assert forall|y: Seq<char>| #[trigger] ins.contains(y) <==> (l.contains(y) || y == x) by {
            if l.contains(y) {
                let k = choose|k: int| 0 <= k < l.len() && l[k] == y;
                if k == 0 {
                    assert(ins[0] == y);
                } else {
                    assert(tail[k - 1] == y);
                    assert(rest.contains(y));
                    let m = choose|m: int| 0 <= m < rest.len() && rest[m] == y;
                    assert(ins[m + 1] == y);
                }
            }
            if y == x {
                assert(rest.contains(x));
                let m = choose|m: int| 0 <= m < rest.len() && rest[m] == x;
                assert(ins[m + 1] == x);
            }
            if ins.contains(y) {
                let k = choose|k: int| 0 <= k < ins.len() && ins[k] == y;
                if k == 0 {
                    assert(l[0] == y);
                } else {
                    assert(rest[k - 1] == y);
                    assert(rest.contains(y));
                    if tail.contains(y) {
                        let m = choose|m: int| 0 <= m < tail.len() && tail[m] == y;
                        assert(l[m + 1] == y);
                    }
                }
            }
        }
        assert forall|i: int, j: int| 0 <= i < j < ins.len() implies occurrences(keys, ins[i]) >= occurrences(
            keys,
            ins[j],
        ) by {
            if i == 0 {
                let y = ins[j];
                assert(y == rest[j - 1]);
                assert(rest.contains(y));
                if tail.contains(y) {
                    let m = choose|m: int| 0 <= m < tail.len() && tail[m] == y;
                    assert(l[m + 1] == y);
                }
            } else {
                assert(ins[i] == rest[i - 1] && ins[j] == rest[j - 1]);
            }
        }
    }
}

/// Law: the grouping counts list every distinct key exactly as often as
/// it occurs, once each, most frequent first.
pub proof fn lemma_ranked_keys(keys: Seq<Seq<char>>, l: Seq<Seq<char>>)
    ensures
        sort_by_count(keys, l).len() == l.len(),
        forall|y: Seq<char>| #[trigger] sort_by_count(keys, l).contains(y) <==> l.contains(y),
        count_sorted(keys, sort_by_count(keys, l)),
    decreases l.len(),
{
    if l.len() > 0 {
        let p = l.drop_last();
        lemma_ranked_keys(keys, p);
        lemma_insert_by_count(keys, sort_by_count(keys, p), l.last());
        assert forall|y: Seq<char>| #[trigger] l.contains(y) <==> (p.contains(y) || y == l.last()) by {
            if l.contains(y) {
                let k = choose|k: int| 0 <= k < l.len() && l[k] == y;
                if k < p.len() {
                    assert(p[k] == y);
                }
            }
            if p.contains(y) {
                let k = choose|k: int| 0 <= k < p.len() && p[k] == y;
                assert(l[k] == y);
            }
            if y == l.last() {
                assert(l[l.len() - 1] == y);
            }
        }
    } else {
        assert(sort_by_count(keys, l) =~= Seq::<Seq<char>>::empty());
    }
}

pub proof fn lemma_occurrences_le(keys: Seq<Seq<char>>, k: Seq<char>)
    ensures
        occurrences(keys, k) <= keys.len(),
        !keys.contains(k) ==> occurrences(keys, k) == 0,
        keys.contains(k) ==> occurrences(keys, k) >= 1,
    decreases keys.len(),
{
    if keys.len() > 0 {
        let p = keys.drop_last();
        lemma_occurrences_le(p, k);
        if p.contains(k) {
            let j = choose|j: int| 0 <= j < p.len() && p[j] == k;
            assert(keys[j] == k);
        }
        if keys.contains(k) && keys.last() != k {
            let j = choose|j: int| 0 <= j < keys.len() && keys[j] == k;
            assert(p[j] == k);
        }
    }
}

/// How many of `keys` equal `k`.
pub fn count_key(keys: &Vec<String>, k: &String) -> (n: usize)
    ensures
        n == occurrences(keys.deep_view(), k@),
{
    let ghost kv = keys.deep_view();
    proof {
        lemma_occurrences_le(kv, k@);
    }
    let mut n: usize = 0;
    let mut i: usize = 0;
    while i < keys.len()
        invariant
            kv == keys.deep_view(),
            i <= keys.len(),
            n == occurrences(kv.take(i as int), k@),
            n <= i,
        decreases keys.len() - i,
    {
        assert(kv.take(i + 1).drop_last() =~= kv.take(i as int));
        assert(kv.take(i + 1).last() == keys[i as int]@);
        if keys[i] == *k {
            n += 1;
        }
        i += 1;
    }
    assert(kv.take(keys.len() as int) =~= kv);
    n
}

/// The distinct keys with how often each occurs, most frequent first, ties
/// in order of first appearance.
pub fn rank_by_count(keys: &Vec<String>) -> (r: Vec<(String, usize)>)
    ensures
        r@.len() == ranked_keys(keys.deep_view()).len(),
        forall|i: int|
            0 <= i < r@.len() ==> (#[trigger] r@[i]).0@ == ranked_keys(keys.deep_view())[i]
                && r@[i].1 == occurrences(keys.deep_view(), r@[i].0@),
{
    let ghost kv = keys.deep_view();
    let d = distinct(keys);
    let ghost dv = d.deep_view();
    let mut counts: Vec<usize> = Vec::new();
    let mut j: usize = 0;
    while j < d.len()
        invariant
            kv == keys.deep_view(),
            dv == d.deep_view(),
            j <= d.len(),
            counts@.len() == j,
            forall|q: int| 0 <= q < j ==> #[trigger] counts@[q] == occurrences(kv, dv[q]),
        decreases d.len() - j,
    {
        let c = count_key(keys, &d[j]);
        counts.push(c);
        j += 1;
    }
    // Stable insertion of each distinct key by decreasing count.
    let mut sorted: Vec<usize> = Vec::new();
    let mut m: usize = 0;
    while m < d.len()
        invariant
            kv == keys.deep_view(),
            dv == d.deep_view(),
            counts@.len() == dv.len(),
            forall|q: int| 0 <= q < dv.len() ==> #[trigger] counts@[q] == occurrences(kv, dv[q]),
            m <= d.len(),
            forall|q: int| 0 <= q < sorted@.len() ==> #[trigger] sorted@[q] < dv.len(),
            sorted@.map_values(|t: usize| dv[t as int]) == sort_by_count(kv, dv.take(m as int)),
        decreases d.len() - m,
    {
        let mut p: usize = 0;
        proof {
            let sv = sorted@.map_values(|t: usize| dv[t as int]);
            assert(sv.skip(0) =~= sv);
            assert(sv.take(0) + insert_by_count(kv, sv, dv[m as int]) =~= insert_by_count(
                kv,
                sv,
                dv[m as int],
            ));
        }
        while p < sorted.len() && !(counts[sorted[p]] < counts[m])
            invariant
                forall|q: int| 0 <= q < sorted@.len() ==> #[trigger] sorted@[q] < dv.len(),
                counts@.len() == dv.len(),
                forall|q: int|
                    0 <= q < dv.len() ==> #[trigger] counts@[q] == occurrences(kv, dv[q]),
                m < dv.len(),
                p <= sorted@.len(),
                insert_by_count(kv, sorted@.map_values(|t: usize| dv[t as int]), dv[m as int])
                    == sorted@.map_values(|t: usize| dv[t as int]).take(p as int)
                    + insert_by_count(
                    kv,
                    sorted@.map_values(|t: usize| dv[t as int]).skip(p as int),
                    dv[m as int],
                ),
            decreases sorted@.len() - p,
        {
            proof {
                let sv = sorted@.map_values(|t: usize| dv[t as int]);
                let rest = sv.skip(p as int);
                assert(rest[0] == dv[sorted@[p as int] as int]);
                assert(rest.drop_first() =~= sv.skip(p + 1));
                assert(sv.take(p as int) + seq![rest[0]] =~= sv.take(p + 1));
                assert(sv.take(p as int) + (seq![rest[0]] + insert_by_count(
                    kv,
                    sv.skip(p + 1),
                    dv[m as int],
                )) =~= sv.take(p + 1) + insert_by_count(kv, sv.skip(p + 1), dv[m as int]));
            }
            p += 1;
        }
        proof {
            let sv = sorted@.map_values(|t: usize| dv[t as int]);
            let rest = sv.skip(p as int);
            if p < sorted@.len() {
                assert(rest[0] == dv[sorted@[p as int] as int]);
            } else {
                assert(rest.len() == 0);
            }
            assert(insert_by_count(kv, rest, dv[m as int]) == seq![dv[m as int]] + rest);
        }
        let ghost old_sorted = sorted@;
        sorted.insert(p, m);
        proof {
            assert(dv.take(m + 1).drop_last() =~= dv.take(m as int));
            assert(dv.take(m + 1).last() == dv[m as int]);
            let ov = old_sorted.map_values(|t: usize| dv[t as int]);
            assert(sorted@.map_values(|t: usize| dv[t as int]) =~= ov.take(p as int) + (seq![
                dv[m as int],
            ] + ov.skip(p as int)));
            assert forall|q: int| 0 <= q < sorted@.len() implies #[trigger] sorted@[q] < dv.len() by {
                if q < p {
                    assert(sorted@[q] == old_sorted[q]);
                } else if q > p {
                    assert(sorted@[q] == old_sorted[q - 1]);
                }
            }
        }
        m += 1;
    }
    assert(dv.take(d.len() as int) =~= dv);
    let ghost rk = sorted@.map_values(|t: usize| dv[t as int]);
    let mut r: Vec<(String, usize)> = Vec::new();
    let mut i: usize = 0;
    while i < sorted.len()
        invariant
            kv == keys.deep_view(),
            dv == d.deep_view(),
            dv == dedup(kv),
            rk == sorted@.map_values(|t: usize| dv[t as int]),
            counts@.len() == dv.len(),
            forall|q: int| 0 <= q < dv.len() ==> #[trigger] counts@[q] == occurrences(kv, dv[q]),
            forall|q: int| 0 <= q < sorted@.len() ==> #[trigger] sorted@[q] < dv.len(),
            i <= sorted@.len(),
            r@.len() == i,
            forall|q: int|
                0 <= q < i ==> (#[trigger] r@[q]).0@ == rk[q] && r@[q].1 == occurrences(
                    kv,
                    r@[q].0@,
                ),
        decreases sorted@.len() - i,
    {
        let t = sorted[i];
        assert(d.deep_view()[t as int] == d[t as int]@);
        r.push((d[t].clone(), counts[t]));
        i += 1;
    }
    r
}

// ───────────────────────── duplicates ─────────────────────────

/// Result `i` is the first with its base number (kind code removed).
pub open spec fn first_of_base(nums: Seq<Seq<char>>, i: int) -> bool {
    forall|j: int| 0 <= j < i ==> normalize_number_spec(#[trigger] nums[j]) != normalize_number_spec(nums[i])
}

/// Which results stay when the versions of one patent (`CN123456A`,
/// `CN123456B`) are merged: each result unless an earlier one has the same
/// base number.
pub fn dedup_by_base_number(numbers: &Vec<String>) -> (keep: Vec<bool>)
    ensures
        keep@.len() == numbers@.len(),
        forall|i: int|
            0 <= i < keep@.len() ==> #[trigger] keep@[i] == first_of_base(numbers.deep_view(), i),
{
    let ghost nv = numbers.deep_view();
    let mut bases: Vec<Vec<char>> = Vec::new();
    let mut keep: Vec<bool> = Vec::new();
    let mut i: usize = 0;
    while i < numbers.len()
        invariant
            nv == numbers.deep_view(),
            i <= numbers@.len(),
            bases@.len() == i,
            keep@.len() == i,
            forall|j: int| 0 <= j < i ==> (#[trigger] bases@[j])@ == normalize_number_spec(nv[j]),
            forall|j: int| 0 <= j < i ==> #[trigger] keep@[j] == first_of_base(nv, j),
        decreases numbers@.len() - i,
    {
        assert(nv[i as int] == numbers[i as int]@);
        let b = chars_of(normalize_patent_number(numbers[i].as_str()).as_str());
        let mut first = true;
        let mut j: usize = 0;
        while j < i
            invariant
                j <= i,
                bases@.len() == i,
                i < nv.len(),
                b@ == normalize_number_spec(nv[i as int]),
                forall|q: int| 0 <= q < i ==> (#[trigger] bases@[q])@ == normalize_number_spec(nv[q]),
                first == forall|q: int| 0 <= q < j ==> normalize_number_spec(#[trigger] nv[q]) != normalize_number_spec(nv[i as int]),
            decreases i - j,
        {
            if seq_eq(bases[j].as_slice(), b.as_slice()) {
                first = false;
            }
            j += 1;
        }
        bases.push(b);
        keep.push(first);
        i += 1;
    }
    keep
}

/// How many results were dropped as duplicates.
pub fn removed_count(keep: &Vec<bool>) -> (n: usize)
    ensures
        n == keep@.len() - keep@.filter(|b: bool| b).len(),
{
    let mut kept: usize = 0;
    let mut i: usize = 0;
    while i < keep.len()
        invariant
            i <= keep@.len(),
            kept == keep@.take(i as int).filter(|b: bool| b).len(),
            kept <= i,
        decreases keep@.len() - i,
    {
        proof {
            reveal(Seq::filter);
            assert(keep@.take(i + 1).drop_last() =~= keep@.take(i as int));
        }
        if keep[i] {
            kept += 1;
        }
        i += 1;
    }
    assert(keep@.take(keep@.len() as int) =~= keep@);
    keep.len() - kept
}

// ───────────────────────── groups ─────────────────────────

/// The grouping key of an applicant: its first twenty characters, `未知`
/// when empty.
pub open spec fn applicant_key(a: Seq<char>) -> Seq<char> {
    if a.len() == 0 {
        "未知"@
    } else {
        take_chars(a, 20)
    }
}

/// The grouping key of a country, `未知` when empty.
pub open spec fn country_key(c: Seq<char>) -> Seq<char> {
    if c.len() == 0 {
        "未知"@
    } else {
        c
    }
}

/// The first `n` of the ranked keys.
pub open spec fn top_keys(keys: Seq<Seq<char>>, n: nat) -> Seq<Seq<char>> {
    let r = ranked_keys(keys);
    if r.len() > n {
        r.take(n as int)
    } else {
        r
    }
}

/// Labelled groups for the keys `l` that occur at least `min` times.
pub open spec fn groups_of(keys: Seq<Seq<char>>, l: Seq<Seq<char>>, prefix: Seq<char>, min: nat) -> Seq<
    (Seq<char>, nat),
>
    decreases l.len(),
{
    if l.len() == 0 {
        Seq::empty()
    } else {
        let g = groups_of(keys, l.drop_last(), prefix, min);
        if occurrences(keys, l.last()) >= min {
            g.push((prefix + l.last(), occurrences(keys, l.last())))
        } else {
            g
        }
    }
}

/// The category groups of a result page: none below ten results; else the
/// five largest applicants with at least two results and the five largest
/// countries, or none when that is empty.
pub open spec fn categories_spec(applicants: Seq<Seq<char>>, countries: Seq<Seq<char>>) -> Option<
    Seq<(Seq<char>, nat)>,
> {
    if applicants.len() < 10 {
        None
    } else {
        let ak = applicants.map_values(|a: Seq<char>| applicant_key(a));
        let ck = countries.map_values(|c: Seq<char>| country_key(c));
        let g = groups_of(ak, top_keys(ak, 5), "申请人: "@, 2) + groups_of(
            ck,
            top_keys(ck, 5),
            "国家: "@,
            0,
        );
        if g.len() == 0 {
            None
        } else {
            Some(g)
        }
    }
}

pub open spec fn group_view(g: CategoryGroup) -> (Seq<char>, nat) {
    (g.label@, g.count as nat)
}

fn push_groups(
    out: &mut Vec<CategoryGroup>,
    keys: &Vec<String>,
    prefix: &str,
    min: usize,
)
    ensures
        final(out)@.map_values(|g: CategoryGroup| group_view(g)) == old(out)@.map_values(
            |g: CategoryGroup| group_view(g),
        ) + groups_of(keys.deep_view(), top_keys(keys.deep_view(), 5), prefix@, min as nat),
{
    let ghost kv = keys.deep_view();
    let ranked = rank_by_count(keys);
    let n: usize = if ranked.len() > 5 {
        5
    } else {
        ranked.len()
    };
    let ghost top = top_keys(kv, 5);
    assert(top.len() == n);
    let ghost base = out@.map_values(|g: CategoryGroup| group_view(g));
    let mut i: usize = 0;
    while i < n
        invariant
            kv == keys.deep_view(),
            top == top_keys(kv, 5),
            n == top.len(),
            n <= ranked@.len(),
            ranked@.len() == ranked_keys(kv).len(),
            forall|q: int|
                0 <= q < ranked@.len() ==> (#[trigger] ranked@[q]).0@ == ranked_keys(kv)[q]
                    && ranked@[q].1 == occurrences(kv, ranked@[q].0@),
            i <= n,
            out@.map_values(|g: CategoryGroup| group_view(g)) == base + groups_of(
                kv,
                top.take(i as int),
                prefix@,
                min as nat,
            ),
        decreases n - i,
    {
        assert(top.take(i + 1).drop_last() =~= top.take(i as int));
        assert(top.take(i + 1).last() == ranked@[i as int].0@);
        let ghost before = out@.map_values(|g: CategoryGroup| group_view(g));
        if ranked[i].1 >= min {
            let mut label = String::from_str(prefix);
            push_str(&mut label, ranked[i].0.as_str());
            out.push(CategoryGroup { label, count: ranked[i].1 });
            assert(out@.map_values(|g: CategoryGroup| group_view(g)) =~= before.push(
                (prefix@ + ranked@[i as int].0@, ranked@[i as int].1 as nat),
            ));
        }
        i += 1;
    }
    assert(top.take(n as int) =~= top);
}

/// Groups results by applicant and country (see `categories_spec`); the two
/// lists hold the applicant and the country of each result.
pub fn category_groups(applicants: &Vec<String>, countries: &Vec<String>) -> (r: Option<
    Vec<CategoryGroup>,
>)
    ensures
        match categories_spec(applicants.deep_view(), countries.deep_view()) {
            None => r is None,
            Some(g) => r matches Some(v) && v@.map_values(|x: CategoryGroup| group_view(x)) == g,
        },
{
    if applicants.len() < 10 {
        return None;
    }
    let ghost av = applicants.deep_view();
    let ghost cv = countries.deep_view();
    let mut ak: Vec<String> = Vec::new();
    let mut i: usize = 0;
    while i < applicants.len()
        invariant
            av == applicants.deep_view(),
            i <= applicants@.len(),
            ak.deep_view() == av.take(i as int).map_values(|a: Seq<char>| applicant_key(a)),
        decreases applicants@.len() - i,
    {
        let a = chars_of(applicants[i].as_str());
        let k = if a.len() == 0 {
            String::from_str("未知")
        } else {
            string_of(take_n(a.as_slice(), 20).as_slice())
        };
        let ghost before = ak.deep_view();
        let ghost kv = k@;
        assert(av[i as int] == applicants[i as int]@);
        assert(kv == applicant_key(av[i as int]));
        ak.push(k);
        assert(ak.deep_view() =~= before.push(kv));
        assert(av.take(i + 1).map_values(|a: Seq<char>| applicant_key(a)) =~= av.take(
            i as int,
        ).map_values(|a: Seq<char>| applicant_key(a)).push(kv));
        i += 1;
    }
    let mut ck: Vec<String> = Vec::new();
    let mut i: usize = 0;
    while i < countries.len()
        invariant
            cv == countries.deep_view(),
            i <= countries@.len(),
            ck.deep_view() == cv.take(i as int).map_values(|c: Seq<char>| country_key(c)),
        decreases countries@.len() - i,
    {
        let c = chars_of(countries[i].as_str());
        let k = if c.len() == 0 {
            String::from_str("未知")
        } else {
            countries[i].clone()
        };
        let ghost before = ck.deep_view();
        let ghost kv = k@;
        assert(cv[i as int] == countries[i as int]@);
        assert(kv == country_key(cv[i as int]));
        ck.push(k);
        assert(ck.deep_view() =~= before.push(kv));
        assert(cv.take(i + 1).map_values(|c: Seq<char>| country_key(c)) =~= cv.take(
            i as int,
        ).map_values(|c: Seq<char>| country_key(c)).push(kv));
        i += 1;
    }
    assert(av.take(av.len() as int) =~= av);
    assert(cv.take(cv.len() as int) =~= cv);
    let mut out: Vec<CategoryGroup> = Vec::new();
    assert(out@.map_values(|g: CategoryGroup| group_view(g)) =~= Seq::<(Seq<char>, nat)>::empty());
    push_groups(&mut out, &ak, "申请人: ", 2);
    push_groups(&mut out, &ck, "国家: ", 0);
    if out.len() == 0 {
        None
    } else {
        Some(out)
    }
}

// ───────────────────────── labels and totals ─────────────────────────

/// The name of a search type in responses.
pub open spec fn search_type_name(t: SearchType) -> Seq<char> {
    match t {
        SearchType::Applicant => "applicant"@,
        SearchType::Inventor => "inventor"@,
        SearchType::PatentNumber => "patent_number"@,
        SearchType::Keyword => "keyword"@,
        SearchType::Mixed => "mixed"@,
    }
}

pub fn search_type_label(t: SearchType) -> (r: &'static str)
    ensures
        r@ == search_type_name(t),
{
    match t {
        SearchType::Applicant => "applicant",
        SearchType::Inventor => "inventor",
        SearchType::PatentNumber => "patent_number",
        SearchType::Keyword => "keyword",
        SearchType::Mixed => "mixed",
    }
}

/// The total reported with a result page: the page size after a
/// classification filter, else the store's total less the duplicates
/// dropped (not below zero).
pub fn final_total(class_filtered: bool, dedup_removed: usize, total: usize, shown: usize) -> (r:
    usize)
    ensures
        r == if class_filtered {
            shown as int
        } else if dedup_removed > 0 {
            if total >= dedup_removed {
                total - dedup_removed
            } else {
                0
            }
        } else {
            total as int
        },
{
    if class_filtered {
        shown
    } else if dedup_removed > 0 {
        total.saturating_sub(dedup_removed)
    } else {
        total
    }
}

// ───────────────────────── classification filter ─────────────────────────

/// A classification filter as typed: trimmed and lower-cased, empty when absent.
pub open spec fn class_filter_spec(raw: Option<Seq<char>>) -> Seq<char> {
    match raw {
        Some(s) => normalized(s),
        None => normalized(Seq::empty()),
    }
}

pub fn class_filter(raw: Option<&str>) -> (r: String)
    ensures
        r@ == class_filter_spec(opt_view(raw)),
{
    let s = match raw {
        Some(s) => s,
        None => {
            let e = "";
            proof {
                reveal_strlit("");
                assert(e@ =~= Seq::<char>::empty());
            }
            e
        },
    };
    let v = normalize(s);
    string_of(v.as_slice())
}

/// A result passes a classification filter when the filter is empty, or
/// its full record is known and its codes, lower-cased, contain the filter.
pub open spec fn class_ok(filter: Seq<char>, codes: Option<Seq<char>>) -> bool {
    filter.len() == 0 || (codes matches Some(c) && contains(lowercase(c), filter))
}

pub fn class_matches(filter: &str, codes: Option<&str>) -> (r: bool)
    ensures
        r == class_ok(filter@, opt_view(codes)),
{
    let f = chars_of(filter);
    if f.len() == 0 {
        return true;
    }
    match codes {
        None => false,
        Some(c) => {
            let l = chars_of(to_lower(c).as_str());
            contains_chars(l.as_slice(), f.as_slice())
        },
    }
}

// ───────────────────────── date order ─────────────────────────

/// Result `a` goes after result `b` in date order.
pub open spec fn date_after(dates: Seq<Seq<char>>, a: usize, b: usize, newest_first: bool) -> bool {
    if newest_first {
        lex_lt(dates[a as int], dates[b as int])
    } else {
        lex_lt(dates[b as int], dates[a as int])
    }
}

/// Inserts `x` before the first index whose date goes after it.
pub open spec fn date_insert(dates: Seq<Seq<char>>, l: Seq<usize>, x: usize, newest_first: bool) -> Seq<
    usize,
>
    decreases l.len(),
{
    if l.len() == 0 {
        seq![x]
    } else if date_after(dates, l[0], x, newest_first) {
        seq![x] + l
    } else {
        seq![l[0]] + date_insert(dates, l.drop_first(), x, newest_first)
    }
}

/// The indices `0..n` in date order (newest or oldest first), equal dates
/// in their order.
pub open spec fn date_order_spec(dates: Seq<Seq<char>>, n: nat, newest_first: bool) -> Seq<usize>
    decreases n,
{
    if n == 0 {
        Seq::empty()
    } else {
        date_insert(dates, date_order_spec(dates, (n - 1) as nat, newest_first), (n - 1) as usize, newest_first)
    }
}

/// No element of `l` goes after a later one.
pub open spec fn date_sorted(dates: Seq<Seq<char>>, l: Seq<usize>, newest_first: bool) -> bool {
    forall|i: int, j: int| 0 <= i < j < l.len() ==> !date_after(dates, l[i], l[j], newest_first)
}

pub open spec fn distinct_indices(l: Seq<usize>) -> bool {
    forall|i: int, j: int| 0 <= i < j < l.len() ==> l[i] != l[j]
}

proof fn lemma_after_chain(dates: Seq<Seq<char>>, a: usize, x: usize, y: usize, newest_first: bool)
    requires
        date_after(dates, a, x, newest_first),
        !date_after(dates, a, y, newest_first),
    ensures
        !date_after(dates, x, y, newest_first),
{
    if date_after(dates, x, y, newest_first) {
        if newest_first {
            lemma_lex_trans(dates[a as int], dates[x as int], dates[y as int]);
        } else {
            lemma_lex_trans(dates[y as int], dates[x as int], dates[a as int]);
        }
    }
}

proof fn lemma_date_insert(dates: Seq<Seq<char>>, l: Seq<usize>, x: usize, newest_first: bool)
    requires
        date_sorted(dates, l, newest_first),
    ensures
        date_insert(dates, l, x, newest_first).len() == l.len() + 1,
        forall|y: usize| #[trigger] date_insert(dates, l, x, newest_first).contains(y) <==> (l.contains(y) || y == x),
        date_sorted(dates, date_insert(dates, l, x, newest_first), newest_first),
        distinct_indices(l) && !l.contains(x) ==> distinct_indices(date_insert(dates, l, x, newest_first)),
    decreases l.len(),
{
    let ins = date_insert(dates, l, x, newest_first);
    if l.len() == 0 {
        assert(ins =~= seq![x]);
        assert forall|y: usize| #[trigger] ins.contains(y) <==> (l.contains(y) || y == x) by {
            if y == x {
                assert(ins[0] == x);
            }
        }
    } else if date_after(dates, l[0], x, newest_first) {
        assert(ins =~= seq![x] + l);
        assert forall|y: usize| #[trigger] ins.contains(y) <==> (l.contains(y) || y == x) by {
            if l.contains(y) {
                let k = choose|k: int| 0 <= k < l.len() && l[k] == y;
                assert(ins[k + 1] == y);
            }
            if y == x {
                assert(ins[0] == x);
            }
            if ins.contains(y) {
                let k = choose|k: int| 0 <= k < ins.len() && ins[k] == y;
                if k > 0 {
                    assert(l[k - 1] == y);
                }
            }
        }
        assert forall|i: int, j: int| 0 <= i < j < ins.len() implies !date_after(dates, ins[i], ins[j], newest_first) by {
            if i == 0 {
                assert(ins[j] == l[j - 1]);
                if j - 1 > 0 {
                    assert(!date_after(dates, l[0], l[j - 1], newest_first));
                    lemma_after_chain(dates, l[0], x, l[j - 1], newest_first);
                } else {
                    assert(!date_after(dates, l[0], l[0], newest_first)) by {
                        lemma_lex_irrefl(dates[l[0] as int]);
                    }
                    lemma_after_chain(dates, l[0], x, l[0], newest_first);
                }
            } else {
                assert(ins[i] == l[i - 1] && ins[j] == l[j - 1]);
            }
        }
        if distinct_indices(l) && !l.contains(x) {
            assert forall|i: int, j: int| 0 <= i < j < ins.len() implies ins[i] != ins[j] by {
                if i == 0 {
                    assert(ins[j] == l[j - 1]);
                } else {
                    assert(ins[i] == l[i - 1] && ins[j] == l[j - 1]);
                }
            }
        }
    } else {
        let tail = l.drop_first();
        assert forall|i: int, j: int| 0 <= i < j < tail.len() implies !date_after(dates, tail[i], tail[j], newest_first) by {
            assert(tail[i] == l[i + 1] && tail[j] == l[j + 1]);
        }
        lemma_date_insert(dates, tail, x, newest_first);
        let rest = date_insert(dates, tail, x, newest_first);
        assert(ins =~= seq![l[0]] + rest);
        assert forall|y: usize| #[trigger] ins.contains(y) <==> (l.contains(y) || y == x) by {
            if l.contains(y) {
                let k = choose|k: int| 0 <= k < l.len() && l[k] == y;
                if k == 0 {
                    assert(ins[0] == y);
                } else {
                    assert(tail[k - 1] == y);
                    assert(rest.contains(y));
                    let m = choose|m: int| 0 <= m < rest.len() && rest[m] == y;
                    assert(ins[m + 1] == y);
                }
            }
            if y == x {
                assert(rest.contains(x));
                let m = choose|m: int| 0 <= m < rest.len() && rest[m] == x;
                assert(ins[m + 1] == x);
            }
            if ins.contains(y) {
                let k = choose|k: int| 0 <= k < ins.len() && ins[k] == y;
                if k == 0 {
                    assert(l[0] == y);
                } else {
                    assert(rest[k - 1] == y);
                    assert(rest.contains(y));
                    if tail.contains(y) {
                        let m = choose|m: int| 0 <= m < tail.len() && tail[m] == y;
                        assert(l[m + 1] == y);
                    }
                }
            }
        }
        assert forall|i: int, j: int| 0 <= i < j < ins.len() implies !date_after(dates, ins[i], ins[j], newest_first) by {
            if i == 0 {
                let y = ins[j];
                assert(y == rest[j - 1]);
                assert(rest.contains(y));
                if tail.contains(y) {
                    let m = choose|m: int| 0 <= m < tail.len() && tail[m] == y;
                    assert(l[m + 1] == y);
                }
            } else {
                assert(ins[i] == rest[i - 1] && ins[j] == rest[j - 1]);
            }
        }
        if distinct_indices(l) && !l.contains(x) {
            assert forall|i: int, j: int| 0 <= i < j < tail.len() implies tail[i] != tail[j] by {
                assert(tail[i] == l[i + 1] && tail[j] == l[j + 1]);
            }
            assert(!tail.contains(x)) by {
                if tail.contains(x) {
                    let m = choose|m: int| 0 <= m < tail.len() && tail[m] == x;
                    assert(l[m + 1] == x);
                }
            }
            assert forall|i: int, j: int| 0 <= i < j < ins.len() implies ins[i] != ins[j] by {
                if i == 0 {
                    let y = ins[j];
                    assert(y == rest[j - 1]);
                    assert(rest.contains(y));
                    if y == l[0] {
                        if tail.contains(y) {
                            let m = choose|m: int| 0 <= m < tail.len() && tail[m] == y;
                            assert(l[m + 1] == y);
                        } else {
                            assert(y == x);
                            assert(l[0] == x);
                        }
                    }
                } else {
                    assert(ins[i] == rest[i - 1] && ins[j] == rest[j - 1]);
                }
            }
        }
    }
}

/// Law: ordering by date gives each of the `n` results exactly once, and
/// no result goes before one that it should follow (newest or oldest
/// first, as asked).
pub proof fn lemma_date_order(dates: Seq<Seq<char>>, n: nat, newest_first: bool)
    requires
        n <= usize::MAX + 1,
    ensures
        date_order_spec(dates, n, newest_first).len() == n,
        forall|k: usize| #[trigger] date_order_spec(dates, n, newest_first).contains(k) <==> k < n,
        distinct_indices(date_order_spec(dates, n, newest_first)),
        date_sorted(dates, date_order_spec(dates, n, newest_first), newest_first),
    decreases n,
{
    if n > 0 {
        let prev = date_order_spec(dates, (n - 1) as nat, newest_first);
        lemma_date_order(dates, (n - 1) as nat, newest_first);
        assert(!prev.contains((n - 1) as usize));
        lemma_date_insert(dates, prev, (n - 1) as usize, newest_first);
    } else {
        assert(date_order_spec(dates, n, newest_first) =~= Seq::<usize>::empty());
    }
}

fn goes_after(dates: &Vec<String>, a: usize, b: usize, newest_first: bool) -> (r: bool)
    requires
        a < dates@.len(),
        b < dates@.len(),
    ensures
        r == date_after(dates.deep_view(), a, b, newest_first),
{
    assert(dates.deep_view()[a as int] == dates[a as int]@);
    assert(dates.deep_view()[b as int] == dates[b as int]@);
    if newest_first {
        lex_less(&dates[a], &dates[b])
    } else {
        lex_less(&dates[b], &dates[a])
    }
}

/// Orders results by filing date, compared as text: newest or oldest
/// first, a stable sort.
pub fn order_by_date(dates: &Vec<String>, newest_first: bool) -> (r: Vec<usize>)
    ensures
        r@ == date_order_spec(dates.deep_view(), dates@.len() as nat, newest_first),
{
    let ghost dv = dates.deep_view();
    let mut sorted: Vec<usize> = Vec::new();
    let mut m: usize = 0;
    while m < dates.len()
        invariant
            dv == dates.deep_view(),
            m <= dates@.len(),
            forall|q: int| 0 <= q < sorted@.len() ==> #[trigger] sorted@[q] < m,
            sorted@ == date_order_spec(dv, m as nat, newest_first),
        decreases dates@.len() - m,
    {
        let mut p: usize = 0;
        proof {
            assert(sorted@.skip(0) =~= sorted@);
            assert(sorted@.take(0) + date_insert(dv, sorted@, m, newest_first) =~= date_insert(
                dv,
                sorted@,
                m,
                newest_first,
            ));
        }
        while p < sorted.len() && !goes_after(dates, sorted[p], m, newest_first)
            invariant
                dv == dates.deep_view(),
                forall|q: int| 0 <= q < sorted@.len() ==> #[trigger] sorted@[q] < m,
                m < dates@.len(),
                p <= sorted@.len(),
                date_insert(dv, sorted@, m, newest_first) == sorted@.take(p as int) + date_insert(
                    dv,
                    sorted@.skip(p as int),
                    m,
                    newest_first,
                ),
            decreases sorted@.len() - p,
        {
            proof {
                let rest = sorted@.skip(p as int);
                assert(rest[0] == sorted@[p as int]);
                assert(dv[sorted@[p as int] as int] == dates[sorted@[p as int] as int]@);
                assert(dv[m as int] == dates[m as int]@);
                assert(rest.drop_first() =~= sorted@.skip(p + 1));
                assert(sorted@.take(p as int) + (seq![rest[0]] + date_insert(
                    dv,
                    sorted@.skip(p + 1),
                    m,
                    newest_first,
                )) =~= sorted@.take(p + 1) + date_insert(dv, sorted@.skip(p + 1), m, newest_first));
            }
            p += 1;
        }
        proof {
            let rest = sorted@.skip(p as int);
            if p < sorted@.len() {
                assert(rest[0] == sorted@[p as int]);
                assert(dv[sorted@[p as int] as int] == dates[sorted@[p as int] as int]@);
                assert(dv[m as int] == dates[m as int]@);
            } else {
                assert(rest.len() == 0);
            }
            assert(date_insert(dv, rest, m, newest_first) == seq![m] + rest);
        }
        let ghost old_sorted = sorted@;
        sorted.insert(p, m);
        proof {
            assert(sorted@ =~= old_sorted.take(p as int) + (seq![m] + old_sorted.skip(p as int)));
            assert forall|q: int| 0 <= q < sorted@.len() implies #[trigger] sorted@[q] < m + 1 by {
                if q < p {
                    assert(sorted@[q] == old_sorted[q]);
                } else if q > p {
                    assert(sorted@[q] == old_sorted[q - 1]);
                }
            }
        }
        m += 1;
    }
    sorted
}

// ───────────────────────── statistics ─────────────────────────

/// The text, or `未知` when empty.
pub open spec fn or_unknown(s: Seq<char>) -> Seq<char> {
    if s.len() == 0 {
        "未知"@
    } else {
        s
    }
}

/// The filing years: the first four characters of each date, for dates
/// whose first four characters take four bytes.
pub open spec fn year_keys(dates: Seq<Seq<char>>) -> Seq<Seq<char>>
    decreases dates.len(),
{
    if dates.len() == 0 {
        Seq::empty()
    } else {
        let r = year_keys(dates.drop_last());
        let y = take_chars(dates.last(), 4);
        if byte_len(y) == 4 {
            r.push(y)
        } else {
            r
        }
    }
}

/// Inserts `x` before the first key that sorts after it.
pub open spec fn key_insert(l: Seq<Seq<char>>, x: Seq<char>) -> Seq<Seq<char>>
    decreases l.len(),
{
    if l.len() == 0 {
        seq![x]
    } else if lex_lt(x, l[0]) {
        seq![x] + l
    } else {
        seq![l[0]] + key_insert(l.drop_first(), x)
    }
}

/// `l` in increasing text order.
pub open spec fn sort_keys(l: Seq<Seq<char>>) -> Seq<Seq<char>>
    decreases l.len(),
{
    if l.len() == 0 {
        Seq::empty()
    } else {
        key_insert(sort_keys(l.drop_last()), l.last())
    }
}

/// `r` lists the keys `l` in order, each with its number of occurrences in
/// `keys`.
pub open spec fn tallied(r: Seq<(String, usize)>, l: Seq<Seq<char>>, keys: Seq<Seq<char>>) -> bool {
    &&& r.len() == l.len()
    &&& forall|i: int|
        0 <= i < r.len() ==> (#[trigger] r[i]).0@ == l[i] && r[i].1 == occurrences(keys, l[i])
}

/// Statistics of a result set: the ten most frequent applicants, all
/// countries by frequency (empty values counted as `未知`), and the filing
/// years in increasing order, each with its count.
pub struct SearchStats {
    pub total: usize,
    pub applicants: Vec<(String, usize)>,
    pub countries: Vec<(String, usize)>,
    pub years: Vec<(String, usize)>,
}

fn unknown_if_empty(v: &Vec<String>) -> (r: Vec<String>)
    ensures
        r.deep_view() == v.deep_view().map_values(|s: Seq<char>| or_unknown(s)),
{
    let ghost vv = v.deep_view();
    let mut r: Vec<String> = Vec::new();
    let mut i: usize = 0;
    while i < v.len()
        invariant
            vv == v.deep_view(),
            i <= v@.len(),
            r.deep_view() == vv.take(i as int).map_values(|s: Seq<char>| or_unknown(s)),
        decreases v@.len() - i,
    {
        let cv = chars_of(v[i].as_str());
        let k = if cv.len() == 0 {
            String::from_str("未知")
        } else {
            v[i].clone()
        };
        let ghost before = r.deep_view();
        let ghost kv = k@;
        assert(vv[i as int] == v[i as int]@);
        assert(kv == or_unknown(vv[i as int]));
        r.push(k);
        assert(r.deep_view() =~= before.push(kv));
        assert(vv.take(i + 1).map_values(|s: Seq<char>| or_unknown(s)) =~= vv.take(
            i as int,
        ).map_values(|s: Seq<char>| or_unknown(s)).push(kv));
        i += 1;
    }
    assert(vv.take(v@.len() as int) =~= vv);
    r
}

fn years_of(dates: &Vec<String>) -> (r: Vec<String>)
    ensures
        r.deep_view() == year_keys(dates.deep_view()),
{
    let ghost dv = dates.deep_view();
    let mut r: Vec<String> = Vec::new();
    let mut i: usize = 0;
    while i < dates.len()
        invariant
            dv == dates.deep_view(),
            i <= dates@.len(),
            r.deep_view() == year_keys(dv.take(i as int)),
        decreases dates@.len() - i,
    {
        assert(dv.take(i + 1).drop_last() =~= dv.take(i as int));
        assert(dv[i as int] == dates[i as int]@);
        let d = chars_of(dates[i].as_str());
        let y = take_n(d.as_slice(), 4);
        if !byte_len_le(y.as_slice(), 3) && byte_len_le(y.as_slice(), 4) {
            let ghost before = r.deep_view();
            r.push(string_of(y.as_slice()));
            assert(r.deep_view() =~= before.push(y@));
        }
        i += 1;
    }
    assert(dv.take(dates@.len() as int) =~= dv);
    r
}

fn first_n(v: Vec<(String, usize)>, n: usize) -> (r: Vec<(String, usize)>)
    ensures
        r@ == (if v@.len() > n {
            v@.take(n as int)
        } else {
            v@
        }),
{
    let mut v = v;
    if v.len() > n {
        v.truncate(n);
    }
    v
}

/// Distinct keys in increasing text order, with their counts.
fn tally_by_key(keys: &Vec<String>) -> (r: Vec<(String, usize)>)
    ensures
        tallied(r@, sort_keys(dedup(keys.deep_view())), keys.deep_view()),
{
    let ghost kv = keys.deep_view();
    let d = distinct(keys);
    let ghost dv = d.deep_view();
    let mut sorted: Vec<usize> = Vec::new();
    let mut m: usize = 0;
    while m < d.len()
        invariant
            dv == d.deep_view(),
            m <= d@.len(),
            forall|q: int| 0 <= q < sorted@.len() ==> #[trigger] sorted@[q] < m,
            sorted@.map_values(|t: usize| dv[t as int]) == sort_keys(dv.take(m as int)),
        decreases d@.len() - m,
    {
        let mut p: usize = 0;
        proof {
            let sv = sorted@.map_values(|t: usize| dv[t as int]);
            assert(sv.skip(0) =~= sv);
            assert(sv.take(0) + key_insert(sv, dv[m as int]) =~= key_insert(sv, dv[m as int]));
        }
        while p < sorted.len() && !lex_less(&d[m], &d[sorted[p]])
            invariant
                dv == d.deep_view(),
                forall|q: int| 0 <= q < sorted@.len() ==> #[trigger] sorted@[q] < m,
                m < d@.len(),
                p <= sorted@.len(),
                key_insert(sorted@.map_values(|t: usize| dv[t as int]), dv[m as int])
                    == sorted@.map_values(|t: usize| dv[t as int]).take(p as int) + key_insert(
                    sorted@.map_values(|t: usize| dv[t as int]).skip(p as int),
                    dv[m as int],
                ),
            decreases sorted@.len() - p,
        {
            proof {
                let sv = sorted@.map_values(|t: usize| dv[t as int]);
                let rest = sv.skip(p as int);
                assert(rest[0] == dv[sorted@[p as int] as int]);
                assert(dv[sorted@[p as int] as int] == d[sorted@[p as int] as int]@);
                assert(dv[m as int] == d[m as int]@);
                assert(rest.drop_first() =~= sv.skip(p + 1));
                assert(sv.take(p as int) + (seq![rest[0]] + key_insert(sv.skip(p + 1), dv[m as int]))
                    =~= sv.take(p + 1) + key_insert(sv.skip(p + 1), dv[m as int]));
            }
            p += 1;
        }
        proof {
            let sv = sorted@.map_values(|t: usize| dv[t as int]);
            let rest = sv.skip(p as int);
            if p < sorted@.len() {
                assert(rest[0] == dv[sorted@[p as int] as int]);
                assert(dv[sorted@[p as int] as int] == d[sorted@[p as int] as int]@);
                assert(dv[m as int] == d[m as int]@);
            } else {
                assert(rest.len() == 0);
            }
            assert(key_insert(rest, dv[m as int]) == seq![dv[m as int]] + rest);
        }
        let ghost old_sorted = sorted@;
        sorted.insert(p, m);
        proof {
            assert(dv.take(m + 1).drop_last() =~= dv.take(m as int));
            assert(dv.take(m + 1).last() == dv[m as int]);
            let ov = old_sorted.map_values(|t: usize| dv[t as int]);
            assert(sorted@.map_values(|t: usize| dv[t as int]) =~= ov.take(p as int) + (seq![
                dv[m as int],
            ] + ov.skip(p as int)));
            assert forall|q: int| 0 <= q < sorted@.len() implies #[trigger] sorted@[q] < m + 1 by {
                if q < p {
                    assert(sorted@[q] == old_sorted[q]);
                } else if q > p {
                    assert(sorted@[q] == old_sorted[q - 1]);
                }
            }
        }
        m += 1;
    }
    assert(dv.take(d@.len() as int) =~= dv);
    let ghost order = sorted@.map_values(|t: usize| dv[t as int]);
    let mut r: Vec<(String, usize)> = Vec::new();
    let mut i: usize = 0;
    while i < sorted.len()
        invariant
            kv == keys.deep_view(),
            dv == d.deep_view(),
            order == sorted@.map_values(|t: usize| dv[t as int]),
            forall|q: int| 0 <= q < sorted@.len() ==> #[trigger] sorted@[q] < dv.len(),
            i <= sorted@.len(),
            r@.len() == i,
            forall|q: int|
                0 <= q < i ==> (#[trigger] r@[q]).0@ == order[q] && r@[q].1 == occurrences(kv, order[q]),
        decreases sorted@.len() - i,
    {
        let t = sorted[i];
        assert(dv[t as int] == d[t as int]@);
        let c = count_key(keys, &d[t]);
        r.push((d[t].clone(), c));
        i += 1;
    }
    r
}

/// Statistics of a result set from the applicant, country and filing date
/// of each result.
pub fn search_stats(applicants: &Vec<String>, countries: &Vec<String>, filing_dates: &Vec<String>) -> (r:
    SearchStats)
    ensures
        r.total == applicants@.len(),
        tallied(
            r.applicants@,
            ({
                let k = applicants.deep_view().map_values(|s: Seq<char>| or_unknown(s));
                top_keys(k, 10)
            }),
            applicants.deep_view().map_values(|s: Seq<char>| or_unknown(s)),
        ),
        tallied(
            r.countries@,
            ranked_keys(countries.deep_view().map_values(|s: Seq<char>| or_unknown(s))),
            countries.deep_view().map_values(|s: Seq<char>| or_unknown(s)),
        ),
        tallied(
            r.years@,
            sort_keys(dedup(year_keys(filing_dates.deep_view()))),
            year_keys(filing_dates.deep_view()),
        ),
{
    let ak = unknown_if_empty(applicants);
    let ck = unknown_if_empty(countries);
    let yk = years_of(filing_dates);
    let a = first_n(rank_by_count(&ak), 10);
    let c = rank_by_count(&ck);
    let y = tally_by_key(&yk);
    SearchStats { total: applicants.len(), applicants: a, countries: c, years: y }
}

// ───────────────────────── export ─────────────────────────

/// The fields of a result written to an export.
pub struct ExportRecord {
    pub patent_number: String,
    pub title: String,
    pub applicant: String,
    pub inventor: String,
    pub filing_date: String,
    pub country: String,
    pub abstract_text: String,
}

pub open spec fn csv_header() -> Seq<char> {
    "专利号,标题,申请人,发明人,申请日,公开日,国家/地区,摘要\n"@
}

/// One CSV line: the escaped fields (the filing date in both date columns)
/// and the first 150 characters of the abstract.
pub open spec fn csv_line(p: ExportRecord) -> Seq<char> {
    escape_csv_spec(p.patent_number@) + ","@ + escape_csv_spec(p.title@) + ","@ + escape_csv_spec(
        p.applicant@,
    ) + ","@ + escape_csv_spec(p.inventor@) + ","@ + escape_csv_spec(p.filing_date@) + ","@
        + escape_csv_spec(p.filing_date@) + ","@ + escape_csv_spec(p.country@) + ","@
        + escape_csv_spec(take_chars(p.abstract_text@, 150)) + "\n"@
}

pub open spec fn csv_lines(ps: Seq<ExportRecord>) -> Seq<char>
    decreases ps.len(),
{
    if ps.len() == 0 {
        Seq::empty()
    } else {
        csv_lines(ps.drop_last()) + csv_line(ps.last())
    }
}

/// The CSV export of results (with a byte-order mark), none when there is
/// nothing to export.
pub open spec fn csv_spec(ps: Seq<ExportRecord>) -> Option<Seq<char>> {
    if ps.len() == 0 {
        None
    } else {
        Some(seq!['\u{FEFF}'] + csv_header() + csv_lines(ps))
    }
}

fn push_field(out: &mut String, s: &str, sep: &str)
    ensures
        final(out)@ == old(out)@ + escape_csv_spec(s@) + sep@,
{
    let e = escape_csv(s);
    push_str(out, e.as_str());
    push_str(out, sep);
}

fn csv_line_of(p: &ExportRecord) -> (r: String)
    ensures
        r@ == csv_line(*p),
{
    let mut out = String::new();
    push_field(&mut out, p.patent_number.as_str(), ",");
    push_field(&mut out, p.title.as_str(), ",");
    push_field(&mut out, p.applicant.as_str(), ",");
    push_field(&mut out, p.inventor.as_str(), ",");
    push_field(&mut out, p.filing_date.as_str(), ",");
    push_field(&mut out, p.filing_date.as_str(), ",");
    push_field(&mut out, p.country.as_str(), ",");
    let ab = take_n(chars_of(p.abstract_text.as_str()).as_slice(), 150);
    push_field(&mut out, string_of(ab.as_slice()).as_str(), "\n");
    assert(out@ =~= csv_line(*p));
    out
}

pub fn export_csv(records: &Vec<ExportRecord>) -> (r: Option<String>)
    ensures
        match csv_spec(records@) {
            None => r is None,
            Some(t) => r matches Some(s) && s@ == t,
        },
{
    if records.len() == 0 {
        return None;
    }
    let mut out = String::new();
    push_char(&mut out, '\u{FEFF}');
    push_str(&mut out, "专利号,标题,申请人,发明人,申请日,公开日,国家/地区,摘要\n");
    let ghost head = out@;
    let mut i: usize = 0;
    while i < records.len()
        invariant
            i <= records@.len(),
            out@ == head + csv_lines(records@.take(i as int)),
        decreases records@.len() - i,
    {
        assert(records@.take(i + 1).drop_last() =~= records@.take(i as int));
        let line = csv_line_of(&records[i]);
        push_str(&mut out, line.as_str());
        assert(out@ =~= head + csv_lines(records@.take(i + 1)));
        i += 1;
    }
    assert(records@.take(records@.len() as int) =~= records@);
    Some(out)
}

/// The spreadsheet export as a table: the header row, then per result the
/// fields and the first 200 characters of the abstract.
pub open spec fn table_row(p: ExportRecord) -> Seq<Seq<char>> {
    seq![
        p.patent_number@,
        p.title@,
        p.applicant@,
        p.inventor@,
        p.filing_date@,
        p.country@,
        take_chars(p.abstract_text@, 200),
    ]
}

pub open spec fn table_header() -> Seq<Seq<char>> {
    seq![
        "Patent No."@,
        "Title"@,
        "Applicant"@,
        "Inventor"@,
        "Filing Date"@,
        "Country"@,
        "Abstract"@,
    ]
}

fn row_of(p: &ExportRecord) -> (row: Vec<String>)
    ensures
        row.deep_view() == table_row(*p),
{
    let mut row: Vec<String> = Vec::new();
    row.push(p.patent_number.clone());
    row.push(p.title.clone());
    row.push(p.applicant.clone());
    row.push(p.inventor.clone());
    row.push(p.filing_date.clone());
    row.push(p.country.clone());
    let ab = take_n(chars_of(p.abstract_text.as_str()).as_slice(), 200);
    row.push(string_of(ab.as_slice()));
    assert(row.deep_view() =~= table_row(*p));
    row
}

pub fn export_table(records: &Vec<ExportRecord>) -> (r: Vec<Vec<String>>)
    ensures
        r@.len() == records@.len() + 1,
        r@[0].deep_view() == table_header(),
        forall|i: int| 0 <= i < records@.len() ==> (#[trigger] r@[i + 1]).deep_view() == table_row(records@[i]),
{
    let mut header: Vec<String> = Vec::new();
    header.push(String::from_str("Patent No."));
    header.push(String::from_str("Title"));
    header.push(String::from_str("Applicant"));
    header.push(String::from_str("Inventor"));
    header.push(String::from_str("Filing Date"));
    header.push(String::from_str("Country"));
    header.push(String::from_str("Abstract"));
    assert(header.deep_view() =~= table_header());
    let mut r: Vec<Vec<String>> = Vec::new();
    r.push(header);
    let mut i: usize = 0;
    while i < records.len()
        invariant
            i <= records@.len(),
            r@.len() == i + 1,
            r@[0].deep_view() == table_header(),
            forall|q: int| 0 <= q < i ==> (#[trigger] r@[q + 1]).deep_view() == table_row(records@[q]),
        decreases records@.len() - i,
    {
        let row = row_of(&records[i]);
        let ghost before = r@;
        r.push(row);
        assert forall|q: int| 0 <= q < i + 1 implies (#[trigger] r@[q + 1]).deep_view() == table_row(records@[q]) by {
            if q < i {
                assert(r@[q + 1] == before[q + 1]);
            }
        }
        i += 1;
    }
    r
}

} // verus!
