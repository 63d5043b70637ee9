//! Prior-art clustering: greedy grouping of ranked matches whose token sets
//! overlap by a Jaccard ratio of at least one quarter.
use crate::pipeline::steps::tokens::{dedup, distinct, inter_count, overlap, union_count, vec_has};
use crate::text::{chars_of, join, join_chars, string_of};
use vstd::prelude::*;

verus! {

/// The Jaccard ratio `i / u` reaches the clustering threshold of 0.25.
/// (Exact rational comparison; for token counts below 2^50 it agrees with
/// comparing the floating ratio.)
pub open spec fn reaches_threshold(i: nat, u: nat) -> bool {
    u > 0 && 4 * i >= u
}

/// Ratio `i1 / u1` is strictly above `i2 / u2`.
pub open spec fn ratio_gt(i1: nat, u1: nat, i2: nat, u2: nat) -> bool {
    i1 * u2 > i2 * u1
}

/// No best candidate yet, or the ratio `i / u` beats it.
pub open spec fn improves(i: nat, u: nat, best: Option<(int, nat, nat)>) -> bool {
    match best {
        None => true,
        Some(b) => ratio_gt(i, u, b.1, b.2),
    }
}

/// Scanning clusters from `ci`: the first cluster of highest ratio that
/// reaches the threshold for item `x`, as (cluster, intersection, union).
pub open spec fn best_from(
    reps: Seq<usize>,
    ts: Seq<Seq<Seq<char>>>,
    x: int,
    ci: int,
    best: Option<(int, nat, nat)>,
) -> Option<(int, nat, nat)>
    decreases reps.len() - ci,
{
    if ci < 0 || ci >= reps.len() {
        best
    } else {
        let i = inter_count(ts[x], ts[reps[ci] as int]);
        let u = union_count(ts[x], ts[reps[ci] as int]);
        let nb = if reaches_threshold(i, u) && improves(i, u, best) {
            Some((ci, i, u))
        } else {
            best
        };
        best_from(reps, ts, x, ci + 1, nb)
    }
}

/// Greedy clustering of the first `n` items: each item joins the best
/// existing cluster (by the ratio with its representative) or starts a new
/// one of which it is the representative.  The result is the list of
/// representatives and, per item, the index of its cluster.
pub open spec fn cluster_state(ts: Seq<Seq<Seq<char>>>, n: nat) -> (Seq<usize>, Seq<usize>)
    decreases n,
{
    if n == 0 {
        (Seq::empty(), Seq::empty())
    } else {
        let (reps, asg) = cluster_state(ts, (n - 1) as nat);
        match best_from(reps, ts, n - 1, 0, None) {
            Some(b) => (reps, asg.push(b.0 as usize)),
            None => (reps.push((n - 1) as usize), asg.push(reps.len() as usize)),
        }
    }
}

/// The members of cluster `c` given an assignment, in increasing order.
pub open spec fn members_of(asg: Seq<usize>, c: int) -> Seq<usize>
    decreases asg.len(),
{
    if asg.len() == 0 {
        Seq::empty()
    } else if asg.last() == c {
        members_of(asg.drop_last(), c).push((asg.len() - 1) as usize)
    } else {
        members_of(asg.drop_last(), c)
    }
}

proof fn lemma_best_from_bounds(
    reps: Seq<usize>,
    ts: Seq<Seq<Seq<char>>>,
    x: int,
    ci: int,
    best: Option<(int, nat, nat)>,
)
    requires
        0 <= ci,
        best matches Some(b) ==> 0 <= b.0 < reps.len(),
    ensures
        best_from(reps, ts, x, ci, best) matches Some(b) ==> 0 <= b.0 < reps.len(),
    decreases reps.len() - ci,
{
    if ci < reps.len() {
        let i = inter_count(ts[x], ts[reps[ci] as int]);
        let u = union_count(ts[x], ts[reps[ci] as int]);
        let nb = if reaches_threshold(i, u) && improves(i, u, best) {
            Some((ci, i, u))
        } else {
            best
        };
        lemma_best_from_bounds(reps, ts, x, ci + 1, nb);
    }
}

/// The clustering is a partition with representatives: every item is in
/// exactly one cluster (its assigned one), every cluster's representative is
/// one of its members and the smallest one, and representatives increase.
pub proof fn lemma_cluster_partition(ts: Seq<Seq<Seq<char>>>, n: nat)
    requires
        n <= usize::MAX,
    ensures
        ({
            let (reps, asg) = cluster_state(ts, n);
            &&& asg.len() == n
            &&& reps.len() <= n
            &&& forall|x: int| 0 <= x < n ==> asg[x] < reps.len()
            &&& forall|c: int| 0 <= c < reps.len() ==> reps[c] < n && asg[reps[c] as int] == c
            &&& forall|x: int| 0 <= x < n ==> reps[asg[x] as int] <= x
            &&& forall|c: int, d: int| 0 <= c < d < reps.len() ==> reps[c] < reps[d]
        }),
    decreases n,
{
    if n > 0 {
        lemma_cluster_partition(ts, (n - 1) as nat);
        let (reps, asg) = cluster_state(ts, (n - 1) as nat);
        lemma_best_from_bounds(reps, ts, n - 1, 0, None);
        let (reps2, asg2) = cluster_state(ts, n);
        match best_from(reps, ts, n - 1, 0, None) {
            Some(b) => {
                assert(reps2 == reps);
                assert(asg2 == asg.push(b.0 as usize));
                assert forall|x: int| 0 <= x < n implies asg2[x] < reps2.len() && reps2[asg2[x] as int] <= x by {
                    if x < n - 1 {
                        assert(asg2[x] == asg[x]);
                    }
                }
                assert forall|c: int| 0 <= c < reps2.len() implies reps2[c] < n && asg2[reps2[c] as int] == c by {
                    assert(asg2[reps[c] as int] == asg[reps[c] as int]);
                }
            },
            None => {
                assert(reps2 == reps.push((n - 1) as usize));
                assert(asg2 == asg.push(reps.len() as usize));
                assert forall|x: int| 0 <= x < n implies asg2[x] < reps2.len() && reps2[asg2[x] as int] <= x by {
                    if x < n - 1 {
                        assert(asg2[x] == asg[x]);
                        assert(reps2[asg[x] as int] == reps[asg[x] as int]);
                    }
                }
                assert forall|c: int| 0 <= c < reps2.len() implies reps2[c] < n && asg2[reps2[c] as int] == c by {
                    if c < reps.len() {
                        assert(reps2[c] == reps[c]);
                        assert(asg2[reps[c] as int] == asg[reps[c] as int]);
                    }
                }
                assert forall|c: int, d: int| 0 <= c < d < reps2.len() implies reps2[c] < reps2[d] by {
                    if d < reps.len() {
                        assert(reps2[c] == reps[c]);
                        assert(reps2[d] == reps[d]);
                    } else {
                        assert(reps2[c] == reps[c]);
                    }
                }
            },
        }
    }
}

/// The greedy assignment: representatives and the cluster index of every item.
pub fn assign_clusters(tokens: &Vec<Vec<String>>) -> (r: (Vec<usize>, Vec<usize>))
    requires
        forall|i: int, j: int|
            0 <= i < tokens@.len() && 0 <= j < tokens@.len() ==> tokens@[i]@.len()
                + tokens@[j]@.len() <= usize::MAX,
    ensures
        (r.0@, r.1@) == cluster_state(tokens.deep_view(), tokens@.len()),
{
    let ghost ts = tokens.deep_view();
    let mut reps: Vec<usize> = Vec::new();
    let mut asg: Vec<usize> = Vec::new();
    let mut x: usize = 0;
    while x < tokens.len()
        invariant
            x <= tokens.len(),
            ts == tokens.deep_view(),
            forall|i: int, j: int|
                0 <= i < tokens@.len() && 0 <= j < tokens@.len() ==> tokens@[i]@.len()
                    + tokens@[j]@.len() <= usize::MAX,
            (reps@, asg@) == cluster_state(ts, x as nat),
        decreases tokens.len() - x,
    {
        proof {
            lemma_cluster_partition(ts, x as nat);
        }
        let mut best: Option<(usize, usize, usize)> = None;
        let mut ci: usize = 0;
        while ci < reps.len()
            invariant
                x < tokens.len(),
                ci <= reps.len(),
                ts == tokens.deep_view(),
                forall|i: int, j: int|
                    0 <= i < tokens@.len() && 0 <= j < tokens@.len() ==> tokens@[i]@.len()
                        + tokens@[j]@.len() <= usize::MAX,
                forall|c: int| 0 <= c < reps@.len() ==> reps@[c] < x,
                best_from(reps@, ts, x as int, 0, None) == best_from(
                    reps@,
                    ts,
                    x as int,
                    ci as int,
                    match best {
                        Some(b) => Some((b.0 as int, b.1 as nat, b.2 as nat)),
                        None => None,
                    },
                ),
            decreases reps.len() - ci,
        {
            let r = reps[ci];
            let (i, u) = overlap(&tokens[x], &tokens[r]);
            assert(ts[x as int] == tokens@[x as int].deep_view());
            assert(ts[r as int] == tokens@[r as int].deep_view());
            proof {
                lemma_wide_products(i, u, best);
            }
            let reaches = u > 0 && 4 * (i as u128) >= u as u128;
            let better = match best {
                None => true,
                Some((_, bi, bu)) => (i as u128) * (bu as u128) > (bi as u128) * (u as u128),
            };
            if reaches && better {
                best = Some((ci, i, u));
            }
            ci += 1;
        }
        match best {
            Some((c, _, _)) => {
                asg.push(c);
            },
            None => {
                asg.push(reps.len());
                reps.push(x);
            },
        }
        x += 1;
    }
    (reps, asg)
}

proof fn lemma_wide_products(i: usize, u: usize, best: Option<(usize, usize, usize)>)
    ensures
        best matches Some(b) ==> (i as int) * (b.2 as int) <= u128::MAX && (b.1 as int) * (u as int)
            <= u128::MAX,
        4 * (i as int) <= u128::MAX,
{
    if let Some(b) = best {
        let bu = b.2;
        let bi = b.1;
        assert((i as int) * (bu as int) <= u128::MAX) by (nonlinear_arith)
            requires
                i <= usize::MAX,
                bu <= usize::MAX,
                usize::MAX <= u64::MAX,
        ;
        assert((bi as int) * (u as int) <= u128::MAX) by (nonlinear_arith)
            requires
                bi <= usize::MAX,
                u <= usize::MAX,
                usize::MAX <= u64::MAX,
        ;
    }
}

/// Members of cluster `c` in increasing order.
pub fn members(asg: &Vec<usize>, c: usize) -> (m: Vec<usize>)
    ensures
        m@ == members_of(asg@, c as int),
{
    let mut m: Vec<usize> = Vec::new();
    let mut x: usize = 0;
    while x < asg.len()
        invariant
            x <= asg.len(),
            m@ == members_of(asg@.take(x as int), c as int),
        decreases asg.len() - x,
    {
        assert(asg@.take(x + 1).drop_last() =~= asg@.take(x as int));
        if asg[x] == c {
            m.push(x);
        }
        x += 1;
    }
    assert(asg@.take(asg.len() as int) =~= asg@);
    m
}


// ───────────────────────── topic labels ─────────────────────────

/// Lexicographic order on characters (the order of `str` comparison).
pub open spec fn lex_lt(a: Seq<char>, b: Seq<char>) -> bool
    decreases a.len(),
{
    if a.len() == 0 {
        b.len() > 0
    } else if b.len() == 0 {
        false
    } else if (b[0] as u32) > (a[0] as u32) {
        true
    } else if a[0] == b[0] {
        lex_lt(a.drop_first(), b.drop_first())
    } else {
        false
    }
}

/// No text comes before itself.
pub proof fn lemma_lex_irrefl(a: Seq<char>)
    ensures
        !lex_lt(a, a),
    decreases a.len(),
{
    if a.len() > 0 {
        lemma_lex_irrefl(a.drop_first());
    }
}

/// The comparison of texts is transitive.
pub proof fn lemma_lex_trans(a: Seq<char>, b: Seq<char>, c: Seq<char>)
    requires
        lex_lt(a, b),
        lex_lt(b, c),
    ensures
        lex_lt(a, c),
    decreases a.len(),
{
    if a.len() > 0 && b.len() > 0 && c.len() > 0 && a[0] == b[0] && b[0] == c[0] {
        lemma_lex_trans(a.drop_first(), b.drop_first(), c.drop_first());
    }
}

/// Number of documents that contain token `t`.
pub open spec fn doc_freq(docs: Seq<Seq<Seq<char>>>, t: Seq<char>) -> nat
    decreases docs.len(),
{
    if docs.len() == 0 {
        0
    } else {
        doc_freq(docs.drop_last(), t) + (if docs.last().contains(t) {
            1nat
        } else {
            0nat
        })
    }
}

/// Token `a` ranks before `b`: more documents hold it, or as many and it sorts first.
pub open spec fn ranks_before(docs: Seq<Seq<Seq<char>>>, a: Seq<char>, b: Seq<char>) -> bool {
    doc_freq(docs, a) > doc_freq(docs, b) || (doc_freq(docs, a) == doc_freq(docs, b) && lex_lt(a, b))
}

/// All tokens of all documents, in order.
pub open spec fn flatten(docs: Seq<Seq<Seq<char>>>) -> Seq<Seq<char>>
    decreases docs.len(),
{
    if docs.len() == 0 {
        Seq::empty()
    } else {
        flatten(docs.drop_last()) + docs.last()
    }
}

/// Position of the highest-ranked candidate (the first among equals).
pub open spec fn best_index(docs: Seq<Seq<Seq<char>>>, c: Seq<Seq<char>>) -> int
    decreases c.len(),
{
    if c.len() <= 1 {
        0
    } else {
        let b = best_index(docs, c.drop_last());
        if ranks_before(docs, c.last(), c[b]) {
            c.len() - 1
        } else {
            b
        }
    }
}

/// The `k` highest-ranked candidates, best first.
pub open spec fn top_k(docs: Seq<Seq<Seq<char>>>, c: Seq<Seq<char>>, k: nat) -> Seq<Seq<char>>
    decreases k,
{
    if k == 0 || c.len() == 0 {
        Seq::empty()
    } else {
        let b = best_index(docs, c);
        seq![c[b]].add(top_k(docs, c.remove(b), (k - 1) as nat))
    }
}

/// Topic label: the `max_words` tokens held by most documents (ties in
/// string order), joined by `" / "`.
pub open spec fn topic_spec(docs: Seq<Seq<Seq<char>>>, max_words: nat) -> Seq<char> {
    join(top_k(docs, dedup(flatten(docs)), max_words), " / "@)
}

proof fn lemma_best_index_bounds(docs: Seq<Seq<Seq<char>>>, c: Seq<Seq<char>>)
    requires
        c.len() > 0,
    ensures
        0 <= best_index(docs, c) < c.len(),
    decreases c.len(),
{
    if c.len() > 1 {
        lemma_best_index_bounds(docs, c.drop_last());
    }
}

pub fn lex_less(a: &String, b: &String) -> (r: bool)
    ensures
        r == lex_lt(a@, b@),
{
    let av = chars_of(a.as_str());
    let bv = chars_of(b.as_str());
    let mut i: usize = 0;
    assert(av@.skip(0) =~= av@);
    assert(bv@.skip(0) =~= bv@);
    while i < av.len() && i < bv.len() && av[i] == bv[i]
        invariant
            i <= av.len(),
            i <= bv.len(),
            lex_lt(av@, bv@) == lex_lt(av@.skip(i as int), bv@.skip(i as int)),
        decreases av.len() - i,
    {
        assert(av@.skip(i as int).drop_first() =~= av@.skip(i + 1));
        assert(bv@.skip(i as int).drop_first() =~= bv@.skip(i + 1));
        i += 1;
    }
    if i == av.len() {
        assert(av@.skip(i as int).len() == 0);
        i < bv.len()
    } else if i == bv.len() {
        assert(bv@.skip(i as int).len() == 0);
        false
    } else {
        assert(av@.skip(i as int)[0] == av@[i as int]);
        assert(bv@.skip(i as int)[0] == bv@[i as int]);
        (bv[i] as u32) > (av[i] as u32)
    }
}

fn doc_frequency(docs: &Vec<Vec<String>>, t: &String) -> (n: usize)
    ensures
        n == doc_freq(docs.deep_view(), t@),
{
    let mut n: usize = 0;
    let mut j: usize = 0;
    while j < docs.len()
        invariant
            j <= docs.len(),
            n == doc_freq(docs.deep_view().take(j as int), t@),
            n <= j,
        decreases docs.len() - j,
    {
        assert(docs.deep_view().take(j + 1).drop_last() =~= docs.deep_view().take(j as int));
        assert(docs.deep_view().take(j + 1).last() == docs@[j as int].deep_view());
        if vec_has(&docs[j], t) {
            n += 1;
        }
        j += 1;
    }
    assert(docs.deep_view().take(docs.len() as int) =~= docs.deep_view());
    n
}

fn ranks_first(docs: &Vec<Vec<String>>, a: &String, b: &String) -> (r: bool)
    ensures
        r == ranks_before(docs.deep_view(), a@, b@),
{
    let fa = doc_frequency(docs, a);
    let fb = doc_frequency(docs, b);
    fa > fb || (fa == fb && lex_less(a, b))
}

fn flatten_docs(docs: &Vec<Vec<String>>) -> (r: Vec<String>)
    ensures
        r.deep_view() == flatten(docs.deep_view()),
{
    let mut r: Vec<String> = Vec::new();
    let mut j: usize = 0;
    while j < docs.len()
        invariant
            j <= docs.len(),
            r.deep_view() == flatten(docs.deep_view().take(j as int)),
        decreases docs.len() - j,
    {
        assert(docs.deep_view().take(j + 1).drop_last() =~= docs.deep_view().take(j as int));
        assert(docs.deep_view().take(j + 1).last() == docs@[j as int].deep_view());
        let ghost before = r.deep_view();
        let mut k: usize = 0;
        while k < docs[j].len()
            invariant
                j < docs.len(),
                k <= docs@[j as int]@.len(),
                r.deep_view() =~= before + docs@[j as int].deep_view().take(k as int),
            decreases docs@[j as int]@.len() - k,
        {
            let cl = docs[j][k].clone();
            assert(cl@ == docs@[j as int].deep_view()[k as int]);
            let ghost old_dv = r.deep_view();
            r.push(cl);
            assert(r.deep_view() =~= old_dv.push(cl@));
            assert(docs@[j as int].deep_view().take(k + 1) =~= docs@[j as int].deep_view().take(
                k as int,
            ).push(cl@));
            k += 1;
        }
        assert(docs@[j as int].deep_view().take(k as int) =~= docs@[j as int].deep_view());
        j += 1;
    }
    assert(docs.deep_view().take(docs.len() as int) =~= docs.deep_view());
    r
}

fn best_position(docs: &Vec<Vec<String>>, c: &Vec<String>) -> (b: usize)
    requires
        c@.len() > 0,
    ensures
        b == best_index(docs.deep_view(), c.deep_view()),
        b < c@.len(),
{
    let mut b: usize = 0;
    let mut i: usize = 1;
    assert(c.deep_view().take(1).len() == 1);
    while i < c.len()
        invariant
            1 <= i <= c@.len(),
            b < i,
            b == best_index(docs.deep_view(), c.deep_view().take(i as int)),
        decreases c@.len() - i,
    {
        let ghost p = c.deep_view().take(i + 1);
        assert(p.drop_last() =~= c.deep_view().take(i as int));
        assert(p.last() == c@[i as int]@);
        assert(p[b as int] == c@[b as int]@);
        if ranks_first(docs, &c[i], &c[b]) {
            b = i;
        }
        i += 1;
    }
    assert(c.deep_view().take(c@.len() as int) =~= c.deep_view());
    b
}

/// The topic label of a cluster from its members' token lists.
pub fn derive_topic(all_tokens: &Vec<Vec<String>>, max_words: usize) -> (r: String)
    ensures
        r@ == topic_spec(all_tokens.deep_view(), max_words as nat),
{
    let flat = flatten_docs(all_tokens);
    let mut cands = distinct(&flat);
    let mut picked: Vec<Vec<char>> = Vec::new();
    let mut k: usize = 0;
    let ghost docs = all_tokens.deep_view();
    while k < max_words && cands.len() > 0
        invariant
            k <= max_words,
            docs == all_tokens.deep_view(),
            picked.deep_view() + top_k(docs, cands.deep_view(), (max_words - k) as nat) == top_k(
                docs,
                dedup(flatten(docs)),
                max_words as nat,
            ),
        decreases max_words - k,
    {
        let b = best_position(all_tokens, &cands);
        let ghost before = cands.deep_view();
        let t = cands.remove(b);
        assert(cands.deep_view() =~= before.remove(b as int));
        let ghost pb = picked.deep_view();
        picked.push(chars_of(t.as_str()));
        assert(picked.deep_view() =~~= pb.push(t@));
        assert(before[b as int] == t@);
        assert(top_k(docs, before, (max_words - k) as nat) == seq![t@].add(
            top_k(docs, before.remove(b as int), (max_words - k - 1) as nat),
        ));
        assert(pb.push(t@) + top_k(docs, before.remove(b as int), (max_words - k - 1) as nat)
            =~= pb + seq![t@].add(top_k(docs, before.remove(b as int), (max_words - k - 1) as nat)));
        k += 1;
    }
    assert(top_k(docs, cands.deep_view(), (max_words - k) as nat) =~= Seq::<Seq<char>>::empty());
    assert(picked.deep_view() + Seq::<Seq<char>>::empty() =~= picked.deep_view());
    let sep = chars_of(" / ");
    let joined = join_chars(&picked, sep.as_slice());
    string_of(joined.as_slice())
}

// ───────────────────────── clusters ─────────────────────────

/// A cluster of ranked matches (its average score is computed by the caller).
#[derive(Debug, Clone)]
pub struct ClusterCore {
    pub cluster_id: usize,
    pub topic: String,
    /// Positions of the member matches, increasing.
    pub patent_indices: Vec<usize>,
    /// Title of the representative (first) member.
    pub representative_title: String,
}

/// The token lists of the given members.
pub open spec fn member_docs(ts: Seq<Seq<Seq<char>>>, m: Seq<usize>) -> Seq<Seq<Seq<char>>> {
    m.map_values(|i: usize| ts[i as int])
}

/// Groups ranked matches (title and token list of each) into prior-art
/// clusters: one per representative, in order of creation, with its members,
/// the representative's title and a three-word topic.
pub fn prior_art_clusters(titles: &Vec<String>, tokens: &Vec<Vec<String>>) -> (r: Vec<ClusterCore>)
    requires
        titles@.len() == tokens@.len(),
        forall|i: int, j: int|
            0 <= i < tokens@.len() && 0 <= j < tokens@.len() ==> tokens@[i]@.len()
                + tokens@[j]@.len() <= usize::MAX,
    ensures
        ({
            let (reps, asg) = cluster_state(tokens.deep_view(), tokens@.len());
            &&& r@.len() == reps.len()
            &&& forall|c: int|
                0 <= c < r@.len() ==> {
                    &&& (#[trigger] r@[c]).cluster_id == c
                    &&& r@[c].patent_indices@ == members_of(asg, c)
                    &&& r@[c].representative_title@ == titles@[reps[c] as int]@
                    &&& r@[c].topic@ == topic_spec(
                        member_docs(tokens.deep_view(), members_of(asg, c)),
                        3,
                    )
                }
        }),
{
    let (reps, asg) = assign_clusters(tokens);
    let n = tokens.len();
    proof {
        lemma_cluster_partition(tokens.deep_view(), n as nat);
    }
    let mut out: Vec<ClusterCore> = Vec::new();
    let mut c: usize = 0;
    while c < reps.len()
        invariant
            c <= reps@.len(),
            titles@.len() == tokens@.len(),
            (reps@, asg@) == cluster_state(tokens.deep_view(), tokens@.len()),
            forall|d: int| 0 <= d < reps@.len() ==> reps@[d] < tokens@.len(),
            forall|x: int| 0 <= x < asg@.len() ==> asg@[x] < tokens@.len() || true,
            asg@.len() == tokens@.len(),
            out@.len() == c,
            forall|d: int|
                0 <= d < c ==> {
                    &&& (#[trigger] out@[d]).cluster_id == d
                    &&& out@[d].patent_indices@ == members_of(asg@, d)
                    &&& out@[d].representative_title@ == titles@[reps@[d] as int]@
                    &&& out@[d].topic@ == topic_spec(
                        member_docs(tokens.deep_view(), members_of(asg@, d)),
                        3,
                    )
                },
        decreases reps@.len() - c,
    {
        let m = members(&asg, c);
        proof {
            lemma_members_in_range(asg@, c as int);
        }
        let mut docs: Vec<Vec<String>> = Vec::new();
        let mut k: usize = 0;
        while k < m.len()
            invariant
                k <= m@.len(),
                asg@.len() == tokens@.len(),
                forall|q: int| 0 <= q < m@.len() ==> m@[q] < asg@.len(),
                docs.deep_view() =~= member_docs(tokens.deep_view(), m@.take(k as int)),
            decreases m@.len() - k,
        {
            let ghost before = docs.deep_view();
            let row = crate::pipeline::steps::tokens::clone_strings(&tokens[m[k]]);
            assert(row.deep_view() == tokens.deep_view()[m@[k as int] as int]);
            docs.push(row);
            assert(docs.deep_view() =~= before.push(row.deep_view()));
            assert(docs.deep_view() =~= member_docs(tokens.deep_view(), m@.take(k + 1)));
            k += 1;
        }
        assert(m@.take(m@.len() as int) =~= m@);
        let topic = derive_topic(&docs, 3);
        out.push(
            ClusterCore {
                cluster_id: c,
                topic,
                patent_indices: m,
                representative_title: titles[reps[c]].clone(),
            },
        );
        c += 1;
    }
    out
}

proof fn lemma_members_in_range(asg: Seq<usize>, c: int)
    ensures
        forall|q: int| 0 <= q < members_of(asg, c).len() ==> members_of(asg, c)[q] < asg.len(),
    decreases asg.len(),
{
    if asg.len() > 0 {
        lemma_members_in_range(asg.drop_last(), c);
        let p = members_of(asg.drop_last(), c);
        if asg.last() == c {
            assert forall|q: int| 0 <= q < members_of(asg, c).len() implies members_of(asg, c)[q]
                < asg.len() by {
                if q < p.len() {
                    assert(members_of(asg, c)[q] == p[q]);
                }
            }
        }
    }
}

} // verus!
