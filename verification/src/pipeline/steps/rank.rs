//! Ranking step: keep the best matches, one per title, and find where each
//! came from.
use crate::pipeline::context::SearchResult;
use crate::pipeline::steps::tokens::vec_has;
use crate::text::{chars_of, lowercase, string_of, take_chars, take_n, to_lower};
use vstd::prelude::*;

verus! {

/// How many matches the ranking keeps.
pub const MAX_TOP_MATCHES: usize = 15;

/// Titles that agree on this key count as the same work: the first 30
/// characters, lower-cased.
pub open spec fn rank_key(title: Seq<char>) -> Seq<char> {
    lowercase(take_chars(title, 30))
}

pub fn rank_key_of(title: &str) -> (r: String)
    ensures
        r@ == rank_key(title@),
{
    let t = take_n(chars_of(title).as_slice(), 30);
    to_lower(string_of(t.as_slice()).as_str())
}

/// The keys of the kept entries.
pub open spec fn kept_keys(titles: Seq<Seq<char>>, kept: Seq<int>) -> Seq<Seq<char>> {
    kept.map_values(|j: int| rank_key(titles[j]))
}

/// The positions kept among the first `n` entries, already in score order:
/// an entry is kept when fewer than `MAX_TOP_MATCHES` are kept before it
/// and none of them has its key.
pub open spec fn top_upto(titles: Seq<Seq<char>>, n: nat) -> Seq<int>
    decreases n,
{
    if n == 0 {
        Seq::empty()
    } else {
        let prev = top_upto(titles, (n - 1) as nat);
        if prev.len() >= MAX_TOP_MATCHES || kept_keys(titles, prev).contains(
            rank_key(titles[n - 1]),
        ) {
            prev
        } else {
            prev.push(n - 1)
        }
    }
}

/// Law: the ranking keeps at most `MAX_TOP_MATCHES` entries, in their
/// input order, and no two of them share a title key.
pub proof fn lemma_top_upto_bounds(titles: Seq<Seq<char>>, n: nat)
    ensures
        top_upto(titles, n).len() <= MAX_TOP_MATCHES,
        forall|k: int| 0 <= k < top_upto(titles, n).len() ==> 0 <= #[trigger] top_upto(titles, n)[k] < n,
        forall|a: int, b: int|
            0 <= a < b < top_upto(titles, n).len() ==> top_upto(titles, n)[a] < top_upto(titles, n)[b],
        forall|a: int, b: int|
            0 <= a < b < top_upto(titles, n).len() ==> rank_key(titles[top_upto(titles, n)[a]]) != rank_key(
                titles[top_upto(titles, n)[b]],
            ),
    decreases n,
{
    if n > 0 {
        lemma_top_upto_bounds(titles, (n - 1) as nat);
        let prev = top_upto(titles, (n - 1) as nat);
        let k = rank_key(titles[n - 1]);
        if !(prev.len() >= MAX_TOP_MATCHES || kept_keys(titles, prev).contains(k)) {
            assert forall|a: int| 0 <= a < prev.len() implies rank_key(titles[prev[a]]) != k by {
                assert(kept_keys(titles, prev)[a] == rank_key(titles[prev[a]]));
            }
        }
    }
}

/// The positions, in order, of the entries the ranking keeps out of
/// `titles`, which come sorted by score.
pub fn select_top(titles: &Vec<String>) -> (r: Vec<usize>)
    ensures
        r@.map_values(|x: usize| x as int) == top_upto(titles.deep_view(), titles@.len()),
{
    let ghost t = titles.deep_view();
    let mut out: Vec<usize> = Vec::new();
    let mut keys: Vec<String> = Vec::new();
    let mut i: usize = 0;
    while i < titles.len()
        invariant
            i <= titles@.len(),
            t == titles.deep_view(),
            out@.map_values(|x: usize| x as int) == top_upto(t, i as nat),
            keys.deep_view() == kept_keys(t, top_upto(t, i as nat)),
        decreases titles@.len() - i,
    {
        proof {
            lemma_top_upto_bounds(t, i as nat);
        }
        let key = rank_key_of(titles[i].as_str());
        assert(t[i as int] == titles@[i as int]@);
        let full = out.len() >= MAX_TOP_MATCHES;
        if !full && !vec_has(&keys, &key) {
            let ghost before_out = out@;
            let ghost before_keys = keys.deep_view();
            out.push(i);
            keys.push(key);
            assert(out@.map_values(|x: usize| x as int) =~= before_out.map_values(|x: usize| x as int).push(
                i as int,
            ));
            assert(keys.deep_view() =~= before_keys.push(rank_key(t[i as int])));
            assert(kept_keys(t, top_upto(t, (i + 1) as nat)) =~= kept_keys(t, top_upto(t, i as nat)).push(
                rank_key(t[i as int]),
            ));
        }
        i += 1;
    }
    out
}

/// Link and snippet of the last result with identifier `id`.
pub open spec fn link_of(rs: Seq<SearchResult>, id: Seq<char>) -> Option<(Seq<char>, Seq<char>)>
    decreases rs.len(),
{
    if rs.len() == 0 {
        None
    } else if rs.last().id@ == id {
        Some((rs.last().link@, rs.last().snippet@))
    } else {
        link_of(rs.drop_last(), id)
    }
}

/// Where the match with identifier `id` came from, as link and snippet:
/// the patent results take precedence over the web results, a later
/// result over an earlier one with the same identifier, and an unknown
/// identifier gives two empty strings.
pub open spec fn source_spec(web: Seq<SearchResult>, patents: Seq<SearchResult>, id: Seq<char>) -> (
    Seq<char>,
    Seq<char>,
) {
    match link_of(patents, id) {
        Some(p) => p,
        None => match link_of(web, id) {
            Some(p) => p,
            None => (Seq::empty(), Seq::empty()),
        },
    }
}

fn last_link(rs: &Vec<SearchResult>, id: &str) -> (r: Option<(String, String)>)
    ensures
        match r {
            Some(p) => link_of(rs@, id@) == Some((p.0@, p.1@)),
            None => link_of(rs@, id@) is None,
        },
{
    let key = id.to_string();
    let mut i: usize = rs.len();
    assert(rs@.take(i as int) =~= rs@);
    while i > 0
        invariant
            i <= rs@.len(),
            key@ == id@,
            link_of(rs@, id@) == link_of(rs@.take(i as int), id@),
        decreases i,
    {
        let r = &rs[i - 1];
        assert(rs@.take(i as int).last() == rs@[i - 1]);
        assert(rs@.take(i as int).drop_last() =~= rs@.take(i - 1));
        if r.id == key {
            return Some((r.link.clone(), r.snippet.clone()));
        }
        i -= 1;
    }
    assert(rs@.take(0) =~= Seq::<SearchResult>::empty());
    None
}

/// Link and snippet for a ranked match: see [`source_spec`].
pub fn source_link(web: &Vec<SearchResult>, patents: &Vec<SearchResult>, id: &str) -> (r: (String, String))
    ensures
        (r.0@, r.1@) == source_spec(web@, patents@, id@),
{
    match last_link(patents, id) {
        Some(p) => p,
        None => match last_link(web, id) {
            Some(p) => p,
            None => (String::new(), String::new()),
        },
    }
}

} // verus!
