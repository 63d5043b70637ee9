//! Contradiction detection: pairs of relevant prior-art matches whose token
//! sets barely overlap point at unexplored room between technical routes.
use crate::pipeline::steps::tokens::{inter_count, overlap, union_count, vec_has};
use crate::text::{byte_len, byte_len_le, chars_of, join, join_chars, push_chars, push_str, string_of, take_chars, take_n};
use vstd::prelude::*;

verus! {

/// A title cut to twenty characters, marked with `...` when it was longer.
pub open spec fn truncate_title_spec(t: Seq<char>) -> Seq<char> {
    if t.len() > 20 {
        t.take(20) + "..."@
    } else {
        t
    }
}

pub fn truncate_title(title: &str) -> (r: String)
    ensures
        r@ == truncate_title_spec(title@),
{
    let v = chars_of(title);
    if v.len() > 20 {
        let mut out = string_of(take_n(v.as_slice(), 20).as_slice());
        push_str(&mut out, "...");
        out
    } else {
        string_of(v.as_slice())
    }
}

/// Tokens of `a` absent from `b` and at least two bytes long, in order.
pub open spec fn unique_tokens(a: Seq<Seq<char>>, b: Seq<Seq<char>>) -> Seq<Seq<char>>
    decreases a.len(),
{
    if a.len() == 0 {
        Seq::empty()
    } else if !b.contains(a.last()) && byte_len(a.last()) >= 2 {
        unique_tokens(a.drop_last(), b).push(a.last())
    } else {
        unique_tokens(a.drop_last(), b)
    }
}

/// At most five tokens of `a` that `b` lacks (tokens of one byte skipped).
pub open spec fn difference_keywords_spec(a: Seq<Seq<char>>, b: Seq<Seq<char>>) -> Seq<Seq<char>> {
    let u = unique_tokens(a, b);
    if u.len() <= 5 {
        u
    } else {
        u.take(5)
    }
}

pub fn difference_keywords(a: &Vec<String>, b: &Vec<String>) -> (r: Vec<String>)
    ensures
        r.deep_view() == difference_keywords_spec(a.deep_view(), b.deep_view()),
{
    let mut r: Vec<String> = Vec::new();
    let mut i: usize = 0;
    while i < a.len()
        invariant
            i <= a.len(),
            r.deep_view() == unique_tokens(a.deep_view().take(i as int), b.deep_view()),
        decreases a.len() - i,
    {
        assert(a.deep_view().take(i + 1).drop_last() =~= a.deep_view().take(i as int));
        assert(a.deep_view().take(i + 1).last() == a@[i as int]@);
        let t = chars_of(a[i].as_str());
        if !vec_has(b, &a[i]) && !byte_len_le(t.as_slice(), 1) {
            let c = a[i].clone();
            let ghost before = r.deep_view();
            r.push(c);
            assert(r.deep_view() =~= before.push(a@[i as int]@));
        }
        i += 1;
    }
    assert(a.deep_view().take(a.len() as int) =~= a.deep_view());
    if r.len() > 5 {
        let ghost before = r.deep_view();
        r.truncate(5);
        assert(r.deep_view() =~= before.take(5));
    }
    r
}

/// The mutual Jaccard ratio of two token sets is below 0.15 (an empty union counts as 0).
pub open spec fn low_overlap(i: nat, u: nat) -> bool {
    u == 0 || 20 * i < 3 * u
}

/// Whether the pair `(i, j)` is a contradiction: both relevant and barely overlapping.
pub open spec fn is_contradiction(ts: Seq<Seq<Seq<char>>>, rel: Seq<bool>, i: int, j: int) -> bool {
    rel[i] && rel[j] && low_overlap(inter_count(ts[i], ts[j]), union_count(ts[i], ts[j]))
}

/// Contradicting pairs `(i, j)` with `i < j < jmax`, by increasing `j`.
pub open spec fn pair_row(ts: Seq<Seq<Seq<char>>>, rel: Seq<bool>, i: int, jmax: int) -> Seq<(int, int)>
    decreases jmax - i,
{
    if jmax <= i + 1 {
        Seq::empty()
    } else {
        pair_row(ts, rel, i, jmax - 1) + (if is_contradiction(ts, rel, i, jmax - 1) {
            seq![(i, jmax - 1)]
        } else {
            Seq::empty()
        })
    }
}

/// Contradicting pairs among the first `n` matches with first element below `imax`.
pub open spec fn pairs_upto(ts: Seq<Seq<Seq<char>>>, rel: Seq<bool>, imax: int, n: int) -> Seq<(int, int)>
    decreases imax,
{
    if imax <= 0 {
        Seq::empty()
    } else {
        pairs_upto(ts, rel, imax - 1, n) + pair_row(ts, rel, imax - 1, n)
    }
}

/// The overlap ratio of a pair (0 for an empty union), as a fraction.
pub open spec fn pair_ratio(ts: Seq<Seq<Seq<char>>>, p: (int, int)) -> (nat, nat) {
    let u = union_count(ts[p.0], ts[p.1]);
    if u == 0 {
        (0, 1)
    } else {
        (inter_count(ts[p.0], ts[p.1]), u)
    }
}

/// Pair `p` has a strictly higher overlap than pair `q` (a weaker signal).
pub open spec fn weaker(ts: Seq<Seq<Seq<char>>>, p: (int, int), q: (int, int)) -> bool {
    let (a, b) = pair_ratio(ts, p);
    let (c, d) = pair_ratio(ts, q);
    a * d > c * b
}

/// Inserts `x` before the first pair with a weaker signal (stable order).
pub open spec fn stable_insert(ts: Seq<Seq<Seq<char>>>, l: Seq<(int, int)>, x: (int, int)) -> Seq<(int, int)>
    decreases l.len(),
{
    if l.len() == 0 {
        seq![x]
    } else if weaker(ts, l[0], x) {
        seq![x] + l
    } else {
        seq![l[0]] + stable_insert(ts, l.drop_first(), x)
    }
}

/// The pairs sorted by decreasing signal strength, ties in input order.
pub open spec fn sort_by_signal(ts: Seq<Seq<Seq<char>>>, l: Seq<(int, int)>) -> Seq<(int, int)>
    decreases l.len(),
{
    if l.len() == 0 {
        Seq::empty()
    } else {
        stable_insert(ts, sort_by_signal(ts, l.drop_last()), l.last())
    }
}

/// The reported pairs: among the first ten matches, at most five strongest.
pub open spec fn reported_pairs(ts: Seq<Seq<Seq<char>>>, rel: Seq<bool>) -> Seq<(int, int)> {
    if ts.len() < 2 {
        Seq::empty()
    } else {
        let n = if ts.len() < 10 { ts.len() as int } else { 10 };
        let s = sort_by_signal(ts, pairs_upto(ts, rel, n, n));
        if s.len() <= 5 {
            s
        } else {
            s.take(5)
        }
    }
}

/// The dimension text of a pair: the distinguishing words of each side, or a generic label.
pub open spec fn dimension_spec(a: Seq<Seq<char>>, b: Seq<Seq<char>>) -> Seq<char> {
    let ua = difference_keywords_spec(a, b);
    let ub = difference_keywords_spec(b, a);
    if ua.len() > 0 && ub.len() > 0 {
        join(ua, "/"@) + " vs "@ + join(ub, "/"@)
    } else {
        "技术路线差异"@
    }
}

pub open spec fn opportunity_spec(ta: Seq<char>, tb: Seq<char>) -> Seq<char> {
    "「"@ + truncate_title_spec(ta) + "」与「"@ + truncate_title_spec(tb)
        + "」解决类似问题但采用不同技术路线，两者的差异区间可能存在未被探索的创新空间"@
}

/// A detected contradiction; its strength is one minus `shared / union`
/// (zero overlap for an empty union), computed by the caller.
#[derive(Debug, Clone)]
pub struct ContradictionCore {
    pub index_a: usize,
    pub index_b: usize,
    pub source_a: String,
    pub source_b: String,
    pub dimension: String,
    pub opportunity: String,
    pub shared: usize,
    pub union: usize,
}

fn pair_weaker(l: &Vec<(usize, usize, usize, usize)>, k: usize, x: (usize, usize, usize, usize)) -> (b: bool)
    requires
        k < l@.len(),
    ensures
        b == ({
            let (a, bb) = if l@[k as int].3 == 0 { (0nat, 1nat) } else { (l@[k as int].2 as nat, l@[k as int].3 as nat) };
            let (c, d) = if x.3 == 0 { (0nat, 1nat) } else { (x.2 as nat, x.3 as nat) };
            a * d > c * bb
        }),
{
    let e = l[k];
    let (a, bb): (u128, u128) = if e.3 == 0 { (0, 1) } else { (e.2 as u128, e.3 as u128) };
    let (c, d): (u128, u128) = if x.3 == 0 { (0, 1) } else { (x.2 as u128, x.3 as u128) };
    proof {
        assert((a as int) * (d as int) <= u128::MAX) by (nonlinear_arith)
            requires a <= u64::MAX, d <= u64::MAX;
        assert((c as int) * (bb as int) <= u128::MAX) by (nonlinear_arith)
            requires c <= u64::MAX, bb <= u64::MAX;
    }
    a * d > c * bb
}

/// Ratio view of a candidate record `(i, j, shared, union)`.
pub open spec fn record_pair(e: (usize, usize, usize, usize)) -> (int, int) {
    (e.0 as int, e.1 as int)
}

/// Finds the contradictions among ranked matches given their titles, token
/// lists and relevance (whether each is relevant enough to the idea):
/// every pair of relevant matches among the first ten whose overlap ratio is
/// below 0.15, strongest first, at most five.
pub fn detect_contradictions(titles: &Vec<String>, tokens: &Vec<Vec<String>>, relevant: &Vec<bool>) -> (r: Vec<ContradictionCore>)
    requires
        titles@.len() == tokens@.len(),
        relevant@.len() == tokens@.len(),
        forall|i: int, j: int| 0 <= i < tokens@.len() && 0 <= j < tokens@.len() ==> tokens@[i]@.len() + tokens@[j]@.len() <= usize::MAX,
    ensures
        ({
            let ts = tokens.deep_view();
            let ps = reported_pairs(ts, relevant@);
            &&& r@.len() == ps.len()
            &&& forall|k: int| 0 <= k < r@.len() ==> {
                let p = ps[k];
                &&& (#[trigger] r@[k]).index_a == p.0
                &&& r@[k].index_b == p.1
                &&& r@[k].source_a@ == titles@[p.0]@
                &&& r@[k].source_b@ == titles@[p.1]@
                &&& r@[k].shared == inter_count(ts[p.0], ts[p.1])
                &&& r@[k].union == union_count(ts[p.0], ts[p.1])
                &&& r@[k].dimension@ == dimension_spec(ts[p.0], ts[p.1])
                &&& r@[k].opportunity@ == opportunity_spec(titles@[p.0]@, titles@[p.1]@)
            }
        }),
{
    let ghost ts = tokens.deep_view();
    let mut out: Vec<ContradictionCore> = Vec::new();
    if tokens.len() < 2 {
        return out;
    }
    let n: usize = if tokens.len() < 10 { tokens.len() } else { 10 };
    // Candidate pairs in generation order: (i, j, shared, union).
    let mut cands: Vec<(usize, usize, usize, usize)> = Vec::new();
    let mut i: usize = 0;
    while i < n
        invariant
            n <= tokens@.len(),
            i <= n,
            ts == tokens.deep_view(),
            relevant@.len() == tokens@.len(),
            forall|a: int, b: int| 0 <= a < tokens@.len() && 0 <= b < tokens@.len() ==> tokens@[a]@.len() + tokens@[b]@.len() <= usize::MAX,
            cands@.map_values(|e: (usize, usize, usize, usize)| record_pair(e)) == pairs_upto(ts, relevant@, i as int, n as int),
            forall|k: int| 0 <= k < cands@.len() ==> {
                let e = #[trigger] cands@[k];
                &&& e.0 < e.1 < n
                &&& e.2 == inter_count(ts[e.0 as int], ts[e.1 as int])
                &&& e.3 == union_count(ts[e.0 as int], ts[e.1 as int])
            },
        decreases n - i,
    {
        let mut j: usize = i + 1;
        let ghost base = cands@.map_values(|e: (usize, usize, usize, usize)| record_pair(e));
        assert(pair_row(ts, relevant@, i as int, j as int) =~= Seq::<(int, int)>::empty());
        while j < n
            invariant
                n <= tokens@.len(),
                i < n,
                i + 1 <= j <= n,
                ts == tokens.deep_view(),
                relevant@.len() == tokens@.len(),
                forall|a: int, b: int| 0 <= a < tokens@.len() && 0 <= b < tokens@.len() ==> tokens@[a]@.len() + tokens@[b]@.len() <= usize::MAX,
                base == pairs_upto(ts, relevant@, i as int, n as int),
                cands@.map_values(|e: (usize, usize, usize, usize)| record_pair(e)) == base + pair_row(ts, relevant@, i as int, j as int),
                forall|k: int| 0 <= k < cands@.len() ==> {
                    let e = #[trigger] cands@[k];
                    &&& e.0 < e.1 < n
                    &&& e.2 == inter_count(ts[e.0 as int], ts[e.1 as int])
                    &&& e.3 == union_count(ts[e.0 as int], ts[e.1 as int])
                },
            decreases n - j,
        {
            let ghost before = cands@;
            if relevant[i] && relevant[j] {
                let (sh, un) = overlap(&tokens[i], &tokens[j]);
                assert(ts[i as int] == tokens@[i as int].deep_view());
                assert(ts[j as int] == tokens@[j as int].deep_view());
                proof {
                    assert((sh as int) * 20 <= u128::MAX) by (nonlinear_arith) requires sh <= u64::MAX;
                }
                if un == 0 || 20 * (sh as u128) < 3 * (un as u128) {
                    cands.push((i, j, sh, un));
                    assert(cands@.map_values(|e: (usize, usize, usize, usize)| record_pair(e)) =~= before.map_values(|e: (usize, usize, usize, usize)| record_pair(e)).push((i as int, j as int)));
                } else {
                    assert(!is_contradiction(ts, relevant@, i as int, j as int));
                }
            }
            assert(pair_row(ts, relevant@, i as int, j + 1) == pair_row(ts, relevant@, i as int, j as int) + (if is_contradiction(ts, relevant@, i as int, j as int) { seq![(i as int, j as int)] } else { Seq::empty() }));
            assert(cands@.map_values(|e: (usize, usize, usize, usize)| record_pair(e)) =~= base + pair_row(ts, relevant@, i as int, j + 1));
            j += 1;
        }
        i += 1;
    }
    // Stable insertion sort by decreasing signal (increasing overlap ratio).
    let mut sorted: Vec<(usize, usize, usize, usize)> = Vec::new();
    let mut k: usize = 0;
    while k < cands.len()
        invariant
            k <= cands@.len(),
            sorted@.map_values(|e: (usize, usize, usize, usize)| record_pair(e)) == sort_by_signal(ts, cands@.map_values(|e: (usize, usize, usize, usize)| record_pair(e)).take(k as int)),
            n <= tokens@.len(),
            forall|q: int| 0 <= q < cands@.len() ==> {
                let e = #[trigger] cands@[q];
                &&& e.0 < e.1 < n
                &&& e.2 == inter_count(ts[e.0 as int], ts[e.1 as int])
                &&& e.3 == union_count(ts[e.0 as int], ts[e.1 as int])
            },
            forall|q: int| 0 <= q < sorted@.len() ==> {
                let e = #[trigger] sorted@[q];
                &&& e.0 < e.1 < n
                &&& e.2 == inter_count(ts[e.0 as int], ts[e.1 as int])
                &&& e.3 == union_count(ts[e.0 as int], ts[e.1 as int])
            },
        decreases cands@.len() - k,
    {
        let x = cands[k];
        let mut p: usize = 0;
        proof {
            let sv = sorted@.map_values(|e: (usize, usize, usize, usize)| record_pair(e));
            assert(sv.skip(0) =~= sv);
            assert(sv.take(0) + stable_insert(ts, sv, record_pair(x)) =~= stable_insert(ts, sv, record_pair(x)));
        }
        while p < sorted.len() && !pair_weaker(&sorted, p, x)
            invariant
                p <= sorted@.len(),
                forall|q: int| 0 <= q < sorted@.len() ==> {
                    let e = #[trigger] sorted@[q];
                    &&& e.2 == inter_count(ts[e.0 as int], ts[e.1 as int])
                    &&& e.3 == union_count(ts[e.0 as int], ts[e.1 as int])
                },
                x.2 == inter_count(ts[x.0 as int], ts[x.1 as int]),
                x.3 == union_count(ts[x.0 as int], ts[x.1 as int]),
                stable_insert(ts, sorted@.map_values(|e: (usize, usize, usize, usize)| record_pair(e)), record_pair(x)) == sorted@.map_values(|e: (usize, usize, usize, usize)| record_pair(e)).take(p as int) + stable_insert(ts, sorted@.map_values(|e: (usize, usize, usize, usize)| record_pair(e)).skip(p as int), record_pair(x)),
            decreases sorted@.len() - p,
        {
            proof {
                let sv = sorted@.map_values(|e: (usize, usize, usize, usize)| record_pair(e));
                let rest = sv.skip(p as int);
                assert(rest[0] == record_pair(sorted@[p as int]));
                assert(!weaker(ts, rest[0], record_pair(x)));
                assert(rest.drop_first() =~= sv.skip(p + 1));
                assert(sv.take(p as int) + seq![rest[0]] =~= sv.take(p + 1));
                assert(stable_insert(ts, rest, record_pair(x)) == seq![rest[0]] + stable_insert(ts, rest.drop_first(), record_pair(x)));
                assert(sv.take(p as int) + (seq![rest[0]] + stable_insert(ts, sv.skip(p + 1), record_pair(x))) =~= sv.take(p + 1) + stable_insert(ts, sv.skip(p + 1), record_pair(x)));
            }
            p += 1;
        }
        proof {
            let sv = sorted@.map_values(|e: (usize, usize, usize, usize)| record_pair(e));
            let rest = sv.skip(p as int);
            if p < sorted@.len() {
                assert(rest[0] == record_pair(sorted@[p as int]));
                assert(weaker(ts, rest[0], record_pair(x)));
            } else {
                assert(rest.len() == 0);
            }
            assert(stable_insert(ts, rest, record_pair(x)) == seq![record_pair(x)] + rest);
        }
        let ghost sv_old = sorted@;
        sorted.insert(p, x);
        proof {
            let cv = cands@.map_values(|e: (usize, usize, usize, usize)| record_pair(e));
            assert(cv.take(k + 1).drop_last() =~= cv.take(k as int));
            assert(cv.take(k + 1).last() == record_pair(x));
            let ov = sv_old.map_values(|e: (usize, usize, usize, usize)| record_pair(e));
            assert(sorted@.map_values(|e: (usize, usize, usize, usize)| record_pair(e)) =~= ov.take(p as int) + (seq![record_pair(x)] + ov.skip(p as int)));
            assert forall|q: int| 0 <= q < sorted@.len() implies {
                let e = #[trigger] sorted@[q];
                &&& e.2 == inter_count(ts[e.0 as int], ts[e.1 as int])
                &&& e.3 == union_count(ts[e.0 as int], ts[e.1 as int])
            } by {
                if q < p {
                    assert(sorted@[q] == sv_old[q]);
                } else if q == p {
                    assert(sorted@[q] == x);
                } else {
                    assert(sorted@[q] == sv_old[q - 1]);
                }
            }
        }
        k += 1;
    }
    assert(cands@.map_values(|e: (usize, usize, usize, usize)| record_pair(e)).take(cands@.len() as int) =~= cands@.map_values(|e: (usize, usize, usize, usize)| record_pair(e)));
    let m: usize = if sorted.len() <= 5 { sorted.len() } else { 5 };
    let ghost ps = reported_pairs(ts, relevant@);
    let ghost sv = sorted@.map_values(|e: (usize, usize, usize, usize)| record_pair(e));
    assert(ps =~= if sv.len() <= 5 { sv } else { sv.take(5) });
    let mut q: usize = 0;
    while q < m
        invariant
            q <= m,
            m <= sorted@.len(),
            m == ps.len(),
            titles@.len() == tokens@.len(),
            ts == tokens.deep_view(),
            forall|t: int| 0 <= t < m ==> ps[t] == record_pair(#[trigger] sorted@[t]),
            forall|t: int| 0 <= t < sorted@.len() ==> {
                let e = #[trigger] sorted@[t];
                &&& e.0 < tokens@.len() && e.1 < tokens@.len()
                &&& e.2 == inter_count(ts[e.0 as int], ts[e.1 as int])
                &&& e.3 == union_count(ts[e.0 as int], ts[e.1 as int])
            },
            out@.len() == q,
            forall|k: int| 0 <= k < q ==> {
                let p = ps[k];
                &&& (#[trigger] out@[k]).index_a == p.0
                &&& out@[k].index_b == p.1
                &&& out@[k].source_a@ == titles@[p.0]@
                &&& out@[k].source_b@ == titles@[p.1]@
                &&& out@[k].shared == inter_count(ts[p.0], ts[p.1])
                &&& out@[k].union == union_count(ts[p.0], ts[p.1])
                &&& out@[k].dimension@ == dimension_spec(ts[p.0], ts[p.1])
                &&& out@[k].opportunity@ == opportunity_spec(titles@[p.0]@, titles@[p.1]@)
            },
        decreases m - q,
    {
        let (a, b, sh, un) = sorted[q];
        assert(ts[a as int] == tokens@[a as int].deep_view());
        assert(ts[b as int] == tokens@[b as int].deep_view());
        let dimension = dimension_text(&tokens[a], &tokens[b]);
        let opportunity = opportunity_text(&titles[a], &titles[b]);
        out.push(ContradictionCore {
            index_a: a,
            index_b: b,
            source_a: titles[a].clone(),
            source_b: titles[b].clone(),
            dimension,
            opportunity,
            shared: sh,
            union: un,
        });
        q += 1;
    }
    out
}

fn dimension_text(a: &Vec<String>, b: &Vec<String>) -> (r: String)
    ensures
        r@ == dimension_spec(a.deep_view(), b.deep_view()),
{
    let ua = difference_keywords(a, b);
    let ub = difference_keywords(b, a);
    if ua.len() > 0 && ub.len() > 0 {
        let slash = chars_of("/");
        let ja = join_strings(&ua, slash.as_slice());
        let jb = join_strings(&ub, slash.as_slice());
        let mut out = string_of(ja.as_slice());
        push_str(&mut out, " vs ");
        push_chars(&mut out, jb.as_slice());
        out
    } else {
        String::from_str("技术路线差异")
    }
}

/// `v.join(sep)` for strings, as characters.
pub fn join_strings(v: &Vec<String>, sep: &[char]) -> (r: Vec<char>)
    ensures
        r@ == join(v.deep_view(), sep@),
{
    let mut parts: Vec<Vec<char>> = Vec::new();
    let mut i: usize = 0;
    while i < v.len()
        invariant
            i <= v.len(),
            parts.deep_view() =~= v.deep_view().take(i as int),
        decreases v.len() - i,
    {
        let c = chars_of(v[i].as_str());
        let ghost before = parts.deep_view();
        parts.push(c);
        assert(parts.deep_view() =~~= before.push(v@[i as int]@));
        i += 1;
    }
    assert(v.deep_view().take(v.len() as int) =~= v.deep_view());
    join_chars(&parts, sep)
}

fn opportunity_text(a: &String, b: &String) -> (r: String)
    ensures
        r@ == opportunity_spec(a@, b@),
{
    let mut out = String::new();
    push_str(&mut out, "「");
    let ta = truncate_title(a.as_str());
    push_str(&mut out, ta.as_str());
    push_str(&mut out, "」与「");
    let tb = truncate_title(b.as_str());
    push_str(&mut out, tb.as_str());
    push_str(&mut out, "」解决类似问题但采用不同技术路线，两者的差异区间可能存在未被探索的创新空间");
    out
}


proof fn lemma_pair_row_members(ts: Seq<Seq<Seq<char>>>, rel: Seq<bool>, i: int, jmax: int)
    ensures
        forall|k: int| 0 <= k < pair_row(ts, rel, i, jmax).len() ==> {
            let p = #[trigger] pair_row(ts, rel, i, jmax)[k];
            &&& p.0 == i
            &&& i < p.1 < jmax
            &&& is_contradiction(ts, rel, p.0, p.1)
        },
    decreases jmax - i,
{
    if jmax > i + 1 {
        lemma_pair_row_members(ts, rel, i, jmax - 1);
        let a = pair_row(ts, rel, i, jmax - 1);
        let b: Seq<(int, int)> = if is_contradiction(ts, rel, i, jmax - 1) {
            seq![(i, jmax - 1)]
        } else {
            Seq::empty()
        };
        assert(pair_row(ts, rel, i, jmax) == a + b);
        assert forall|k: int| 0 <= k < (a + b).len() implies {
            let p = #[trigger] (a + b)[k];
            &&& p.0 == i
            &&& i < p.1 < jmax
            &&& is_contradiction(ts, rel, p.0, p.1)
        } by {
            if k < a.len() {
                assert((a + b)[k] == a[k]);
            } else {
                assert((a + b)[k] == b[k - a.len()]);
            }
        }
    }
}

proof fn lemma_pairs_upto_members(ts: Seq<Seq<Seq<char>>>, rel: Seq<bool>, imax: int, n: int)
    ensures
        forall|k: int| 0 <= k < pairs_upto(ts, rel, imax, n).len() ==> {
            let p = #[trigger] pairs_upto(ts, rel, imax, n)[k];
            &&& 0 <= p.0 < p.1 < n
            &&& is_contradiction(ts, rel, p.0, p.1)
        },
    decreases imax,
{
    if imax > 0 {
        lemma_pairs_upto_members(ts, rel, imax - 1, n);
        lemma_pair_row_members(ts, rel, imax - 1, n);
        let a = pairs_upto(ts, rel, imax - 1, n);
        let b = pair_row(ts, rel, imax - 1, n);
        assert forall|k: int| 0 <= k < (a + b).len() implies {
            let p = #[trigger] (a + b)[k];
            &&& 0 <= p.0 < p.1 < n
            &&& is_contradiction(ts, rel, p.0, p.1)
        } by {
            if k < a.len() {
                assert((a + b)[k] == a[k]);
            } else {
                assert((a + b)[k] == b[k - a.len()]);
            }
        }
    }
}

proof fn lemma_insert_members(ts: Seq<Seq<Seq<char>>>, l: Seq<(int, int)>, x: (int, int))
    ensures
        forall|k: int| 0 <= k < stable_insert(ts, l, x).len() ==> #[trigger] stable_insert(ts, l, x)[k] == x
            || l.contains(stable_insert(ts, l, x)[k]),
    decreases l.len(),
{
    if l.len() > 0 && !weaker(ts, l[0], x) {
        let rest = l.drop_first();
        lemma_insert_members(ts, rest, x);
        let r = stable_insert(ts, rest, x);
        assert forall|k: int| 0 <= k < stable_insert(ts, l, x).len() implies #[trigger] stable_insert(ts, l, x)[k] == x
            || l.contains(stable_insert(ts, l, x)[k]) by {
            if k == 0 {
                assert(l.contains(l[0]));
            } else {
                assert(stable_insert(ts, l, x)[k] == r[k - 1]);
                if r[k - 1] != x {
                    let m = choose|m: int| 0 <= m < rest.len() && rest[m] == r[k - 1];
                    assert(l[m + 1] == rest[m]);
                }
            }
        }
    } else if l.len() > 0 {
        assert forall|k: int| 0 <= k < stable_insert(ts, l, x).len() implies #[trigger] stable_insert(ts, l, x)[k] == x
            || l.contains(stable_insert(ts, l, x)[k]) by {
            if k > 0 {
                assert(stable_insert(ts, l, x)[k] == l[k - 1]);
            }
        }
    }
}

proof fn lemma_sort_members(ts: Seq<Seq<Seq<char>>>, l: Seq<(int, int)>)
    ensures
        forall|k: int| 0 <= k < sort_by_signal(ts, l).len() ==> l.contains(#[trigger] sort_by_signal(ts, l)[k]),
    decreases l.len(),
{
    if l.len() > 0 {
        let init = l.drop_last();
        lemma_sort_members(ts, init);
        let s = sort_by_signal(ts, init);
        lemma_insert_members(ts, s, l.last());
        assert forall|k: int| 0 <= k < sort_by_signal(ts, l).len() implies l.contains(#[trigger] sort_by_signal(ts, l)[k]) by {
            let e = sort_by_signal(ts, l)[k];
            if e == l.last() {
                assert(l[l.len() - 1] == e);
            } else {
                let m = choose|m: int| 0 <= m < s.len() && s[m] == e;
                let t = choose|t: int| 0 <= t < init.len() && init[t] == s[m];
                assert(l[t] == init[t]);
            }
        }
    }
}

/// Law: every reported contradiction is a pair `(i, j)` of matches among
/// the first ten with `i < j`, both relevant to the idea, whose token sets
/// overlap by less than 15% (shared / union, an empty union counting as no
/// overlap). A pair with an irrelevant match is never compared.
pub proof fn lemma_reported_pairs_relevant(ts: Seq<Seq<Seq<char>>>, rel: Seq<bool>)
    ensures
        forall|k: int| 0 <= k < reported_pairs(ts, rel).len() ==> {
            let p = #[trigger] reported_pairs(ts, rel)[k];
            &&& 0 <= p.0 < p.1 < ts.len()
            &&& p.1 < 10
            &&& rel[p.0]
            &&& rel[p.1]
            &&& (union_count(ts[p.0], ts[p.1]) == 0 || 20 * inter_count(ts[p.0], ts[p.1]) < 3 * union_count(
                ts[p.0],
                ts[p.1],
            ))
        },
{
    if ts.len() >= 2 {
        let n = if ts.len() < 10 { ts.len() as int } else { 10 };
        let l = pairs_upto(ts, rel, n, n);
        lemma_pairs_upto_members(ts, rel, n, n);
        lemma_sort_members(ts, l);
        let s = sort_by_signal(ts, l);
        assert forall|k: int| 0 <= k < reported_pairs(ts, rel).len() implies {
            let p = #[trigger] reported_pairs(ts, rel)[k];
            &&& 0 <= p.0 < p.1 < ts.len()
            &&& p.1 < 10
            &&& rel[p.0]
            &&& rel[p.1]
            &&& (union_count(ts[p.0], ts[p.1]) == 0 || 20 * inter_count(ts[p.0], ts[p.1]) < 3 * union_count(
                ts[p.0],
                ts[p.1],
            ))
        } by {
            assert(reported_pairs(ts, rel)[k] == s[k]);
            assert(l.contains(s[k]));
            let m = choose|m: int| 0 <= m < l.len() && l[m] == s[k];
            assert(l[m] == s[k]);
        }
    }
}

} // verus!
