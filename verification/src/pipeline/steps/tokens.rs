//! Token lists read as sets: distinct tokens, overlaps and Jaccard ratios.
use vstd::prelude::*;

verus! {

/// The distinct elements of `s`, each at its first occurrence.
pub open spec fn dedup(s: Seq<Seq<char>>) -> Seq<Seq<char>>
    decreases s.len(),
{
    if s.len() == 0 {
        Seq::empty()
    } else {
        let d = dedup(s.drop_last());
        if d.contains(s.last()) {
            d
        } else {
            d.push(s.last())
        }
    }
}

/// How many distinct elements of `a` also occur in `b` (the size of the intersection).
pub open spec fn inter_count(a: Seq<Seq<char>>, b: Seq<Seq<char>>) -> nat {
    count_in(dedup(a), b)
}

/// How many elements of `d` occur in `b`.
pub open spec fn count_in(d: Seq<Seq<char>>, b: Seq<Seq<char>>) -> nat
    decreases d.len(),
{
    if d.len() == 0 {
        0
    } else {
        count_in(d.drop_last(), b) + (if b.contains(d.last()) {
            1nat
        } else {
            0nat
        })
    }
}

/// The size of the union of the two token sets.
pub open spec fn union_count(a: Seq<Seq<char>>, b: Seq<Seq<char>>) -> nat {
    (dedup(a).len() + dedup(b).len() - inter_count(a, b)) as nat
}

pub proof fn lemma_count_in_le(d: Seq<Seq<char>>, b: Seq<Seq<char>>)
    ensures
        count_in(d, b) <= d.len(),
    decreases d.len(),
{
    if d.len() > 0 {
        lemma_count_in_le(d.drop_last(), b);
    }
}

/// Elements of `dedup(s)` are elements of `s` and the other way round.
pub proof fn lemma_dedup_contains(s: Seq<Seq<char>>, x: Seq<char>)
    ensures
        dedup(s).contains(x) == s.contains(x),
    decreases s.len(),
{
    if s.len() > 0 {
        let p = s.drop_last();
        let d = dedup(p);
        lemma_dedup_contains(p, x);
        assert(p.push(s.last()) =~= s);
        if x == s.last() {
            assert(s[s.len() - 1] == x);
            if !d.contains(s.last()) {
                assert(d.push(s.last())[d.len() as int] == x);
            }
        } else {
            if s.contains(x) {
                let k = choose|k: int| 0 <= k < s.len() && s[k] == x;
                assert(p[k] == x);
            }
            if p.contains(x) {
                let k = choose|k: int| 0 <= k < p.len() && p[k] == x;
                assert(s[k] == x);
            }
            if !d.contains(s.last()) {
                if d.push(s.last()).contains(x) {
                    let k = choose|k: int| 0 <= k < d.len() + 1 && d.push(s.last())[k] == x;
                    assert(d[k] == x);
                }
                if d.contains(x) {
                    let k = choose|k: int| 0 <= k < d.len() && d[k] == x;
                    assert(d.push(s.last())[k] == x);
                }
            }
        }
    }}

pub proof fn lemma_dedup_len(s: Seq<Seq<char>>)
    ensures
        dedup(s).len() <= s.len(),
    decreases s.len(),
{
    if s.len() > 0 {
        lemma_dedup_len(s.drop_last());
    }
}

/// Whether `v` holds a string equal to `s`.
pub fn vec_has(v: &Vec<String>, s: &String) -> (r: bool)
    ensures
        r == v.deep_view().contains(s@),
{
    let mut i: usize = 0;
    while i < v.len()
        invariant
            i <= v.len(),
            forall|k: int| 0 <= k < i ==> v.deep_view()[k] != s@,
        decreases v.len() - i,
    {
        assert(v.deep_view()[i as int] == v[i as int]@);
        if v[i] == *s {
            assert(v.deep_view()[i as int] == s@);
            return true;
        }
        i += 1;
    }
    false
}

/// The distinct strings of `v`, in order of first occurrence.
pub fn distinct(v: &Vec<String>) -> (r: Vec<String>)
    ensures
        r.deep_view() == dedup(v.deep_view()),
{
    let mut r: Vec<String> = Vec::new();
    let mut i: usize = 0;
    while i < v.len()
        invariant
            i <= v.len(),
            r.deep_view() == dedup(v.deep_view().take(i as int)),
        decreases v.len() - i,
    {
        assert(v.deep_view().take(i + 1).drop_last() =~= v.deep_view().take(i as int));
        assert(v.deep_view()[i as int] == v[i as int]@);
        if !vec_has(&r, &v[i]) {
            let ghost before = r.deep_view();
            r.push(v[i].clone());
            assert(r.deep_view() =~= before.push(v[i as int]@));
        }
        i += 1;
    }
    assert(v.deep_view().take(v.len() as int) =~= v.deep_view());
    r
}

/// Intersection and union sizes of the token sets of `a` and `b`.
pub fn overlap(a: &Vec<String>, b: &Vec<String>) -> (r: (usize, usize))
    requires
        a@.len() + b@.len() <= usize::MAX,
    ensures
        r.0 == inter_count(a.deep_view(), b.deep_view()),
        r.1 == union_count(a.deep_view(), b.deep_view()),
{
    let da = distinct(a);
    let db = distinct(b);
    let mut inter: usize = 0;
    let mut i: usize = 0;
    while i < da.len()
        invariant
            i <= da.len(),
            inter == count_in(da.deep_view().take(i as int), b.deep_view()),
            inter <= i,
            da.deep_view() == dedup(a.deep_view()),
            db.deep_view() == dedup(b.deep_view()),
        decreases da.len() - i,
    {
        assert(da.deep_view().take(i + 1).drop_last() =~= da.deep_view().take(i as int));
        assert(da.deep_view()[i as int] == da[i as int]@);
        assert(da.deep_view().take(i + 1).last() == da[i as int]@);
        proof {
            lemma_dedup_contains(b.deep_view(), da[i as int]@);
        }
        let ghost prev = da.deep_view().take(i as int);
        let ghost cur = da.deep_view().take(i + 1);
        assert(cur.drop_last() == prev);
        let found = vec_has(&db, &da[i]);
        if found {
            assert(b.deep_view().contains(cur.last()));
            assert(count_in(cur, b.deep_view()) == count_in(prev, b.deep_view()) + 1);
            inter += 1;
        } else {
            assert(!b.deep_view().contains(cur.last()));
            assert(count_in(cur, b.deep_view()) == count_in(prev, b.deep_view()));
        }
        i += 1;
    }
    assert(da.deep_view().take(da.len() as int) =~= da.deep_view());
    proof {
        lemma_count_in_le(dedup(a.deep_view()), b.deep_view());
        lemma_dedup_len(a.deep_view());
        lemma_dedup_len(b.deep_view());
    }
    (inter, da.len() + db.len() - inter)
}


/// A copy of a list of strings.
pub fn clone_strings(v: &Vec<String>) -> (r: Vec<String>)
    ensures
        r.deep_view() == v.deep_view(),
        r@.len() == v@.len(),
{
    let mut r: Vec<String> = Vec::new();
    let mut i: usize = 0;
    while i < v.len()
        invariant
            i <= v.len(),
            r.deep_view() =~= v.deep_view().take(i as int),
        decreases v.len() - i,
    {
        let c = v[i].clone();
        assert(c@ == v.deep_view()[i as int]);
        let ghost old_dv = r.deep_view();
        r.push(c);
        assert(r.deep_view() =~= old_dv.push(c@));
        assert(r.deep_view() =~= v.deep_view().take(i + 1));
        i += 1;
    }
    r
}


/// The word tokens of a text: the text lower-cased, split at whitespace,
/// commas and periods, empty pieces dropped.
pub open spec fn tokens_spec(text: Seq<char>) -> Seq<Seq<char>> {
    crate::text::split_runs(crate::text::lowercase(text), true)
}

pub fn tokenize(text: &str) -> (r: Vec<String>)
    ensures
        r.deep_view() == tokens_spec(text@),
{
    let lower = crate::text::to_lower(text);
    let chars = crate::text::chars_of(lower.as_str());
    let pieces = crate::text::split_runs_chars(chars.as_slice(), true);
    let mut r: Vec<String> = Vec::new();
    let mut i: usize = 0;
    while i < pieces.len()
        invariant
            i <= pieces@.len(),
            r.deep_view() == pieces.deep_view().take(i as int),
        decreases pieces@.len() - i,
    {
        let ghost before = r.deep_view();
        let w = crate::text::string_of(pieces[i].as_slice());
        assert(w@ == pieces.deep_view()[i as int]);
        r.push(w);
        assert(r.deep_view() =~= before.push(w@));
        assert(pieces.deep_view().take(i + 1) =~= pieces.deep_view().take(i as int).push(pieces.deep_view()[i as int]));
        i += 1;
    }
    assert(pieces.deep_view().take(pieces@.len() as int) =~= pieces.deep_view());
    r
}

} // verus!
