//! The order in which the online search asks its sources: each source at
//! most once, in a fixed order, skipping those not configured, and always
//! ending with the local database.
use vstd::prelude::*;

verus! {

/// A source of the online search, in the order they are asked.
#[derive(Debug, Clone, Copy, PartialEq, Eq, Structural)]
pub enum OnlineSource {
    /// CNIPR, the Chinese patent office's open platform.
    Cnipr,
    /// The SerpAPI details of an exact patent number.
    ExactLookup,
    /// SerpAPI Google Patents search.
    SerpApi,
    /// Google Patents queried directly.
    GoogleDirect,
    /// Lens.org patent search.
    Lens,
    /// The SerpAPI Baidu engine.
    Baidu,
    /// Sogou web search.
    Sogou,
    /// The local database.
    Local,
}

/// The position of a source in the order.
pub open spec fn source_rank(s: OnlineSource) -> nat {
    match s {
        OnlineSource::Cnipr => 0,
        OnlineSource::ExactLookup => 1,
        OnlineSource::SerpApi => 2,
        OnlineSource::GoogleDirect => 3,
        OnlineSource::Lens => 4,
        OnlineSource::Baidu => 5,
        OnlineSource::Sogou => 6,
        OnlineSource::Local => 7,
    }
}

/// The source at a position.
pub open spec fn source_at(i: nat) -> OnlineSource {
    if i == 0 {
        OnlineSource::Cnipr
    } else if i == 1 {
        OnlineSource::ExactLookup
    } else if i == 2 {
        OnlineSource::SerpApi
    } else if i == 3 {
        OnlineSource::GoogleDirect
    } else if i == 4 {
        OnlineSource::Lens
    } else if i == 5 {
        OnlineSource::Baidu
    } else if i == 6 {
        OnlineSource::Sogou
    } else {
        OnlineSource::Local
    }
}

/// What decides which sources are asked.
#[derive(Debug, Clone, Copy, PartialEq, Eq, Structural)]
pub struct SearchSetup {
    /// A usable SerpAPI key is set.
    pub serp: bool,
    /// A Lens.org key is set.
    pub lens: bool,
    /// CNIPR is configured.
    pub cnipr: bool,
    /// The query is read as a patent number.
    pub number_query: bool,
    /// The query is for Chinese patents.
    pub domestic: bool,
}

/// Whether a source is asked: CNIPR when it is configured and the query is
/// for Chinese patents; the SerpAPI ones with a usable key (the exact
/// lookup also only for a query read as a patent number); Lens.org with
/// its key; the others always.
pub open spec fn source_available(s: OnlineSource, c: SearchSetup) -> bool {
    match s {
        OnlineSource::Cnipr => c.cnipr && c.domestic,
        OnlineSource::ExactLookup => c.serp && c.number_query,
        OnlineSource::SerpApi => c.serp,
        OnlineSource::Lens => c.lens,
        OnlineSource::Baidu => c.serp,
        _ => true,
    }
}

/// The first available source at position `i` or later.
pub open spec fn first_from(i: nat, c: SearchSetup) -> Option<OnlineSource>
    decreases 8 - i,
{
    if i > 7 {
        None
    } else if source_available(source_at(i), c) {
        Some(source_at(i))
    } else {
        first_from(i + 1, c)
    }
}

/// The source asked after `asked` found nothing (`None`: the first one).
pub open spec fn next_source_spec(asked: Option<OnlineSource>, c: SearchSetup) -> Option<
    OnlineSource,
> {
    match asked {
        None => first_from(0, c),
        Some(s) => first_from(source_rank(s) + 1, c),
    }
}

fn source_of(i: u8) -> (s: OnlineSource)
    ensures
        s == source_at(i as nat),
{
    if i == 0 {
        OnlineSource::Cnipr
    } else if i == 1 {
        OnlineSource::ExactLookup
    } else if i == 2 {
        OnlineSource::SerpApi
    } else if i == 3 {
        OnlineSource::GoogleDirect
    } else if i == 4 {
        OnlineSource::Lens
    } else if i == 5 {
        OnlineSource::Baidu
    } else if i == 6 {
        OnlineSource::Sogou
    } else {
        OnlineSource::Local
    }
}

fn rank_of(s: OnlineSource) -> (r: u8)
    ensures
        r as nat == source_rank(s),
{
    match s {
        OnlineSource::Cnipr => 0,
        OnlineSource::ExactLookup => 1,
        OnlineSource::SerpApi => 2,
        OnlineSource::GoogleDirect => 3,
        OnlineSource::Lens => 4,
        OnlineSource::Baidu => 5,
        OnlineSource::Sogou => 6,
        OnlineSource::Local => 7,
    }
}

fn available(s: OnlineSource, c: SearchSetup) -> (b: bool)
    ensures
        b == source_available(s, c),
{
    match s {
        OnlineSource::Cnipr => c.cnipr && c.domestic,
        OnlineSource::ExactLookup => c.serp && c.number_query,
        OnlineSource::SerpApi => c.serp,
        OnlineSource::Lens => c.lens,
        OnlineSource::Baidu => c.serp,
        _ => true,
    }
}

/// The source to ask after `asked` found nothing (see `next_source_spec`);
/// `None` once the local database was asked.
pub fn next_online_source(asked: Option<OnlineSource>, c: SearchSetup) -> (r: Option<
    OnlineSource,
>)
    ensures
        r == next_source_spec(asked, c),
{
    let mut i: u8 = match asked {
        None => 0,
        Some(s) => rank_of(s) + 1,
    };
    while i <= 7
        invariant
            i <= 8,
            next_source_spec(asked, c) == first_from(i as nat, c),
        decreases 8 - i,
    {
        let s = source_of(i);
        if available(s, c) {
            return Some(s);
        }
        i += 1;
    }
    None
}

/// Law: the search always goes on to a later source until the local
/// database has been asked, and the local database is always asked last;
/// so every search ends with it after at most eight sources.
pub proof fn lemma_cascade_ends_locally(asked: Option<OnlineSource>, c: SearchSetup)
    ensures
        asked != Some(OnlineSource::Local) ==> (next_source_spec(asked, c) matches Some(n)
            && (asked matches Some(a) ==> source_rank(n) > source_rank(a))),
        next_source_spec(Some(OnlineSource::Local), c) is None,
        next_source_spec(Some(OnlineSource::Sogou), c) == Some(OnlineSource::Local),
        (c.cnipr && c.domestic) <==> next_source_spec(None, c) == Some(OnlineSource::Cnipr),
{
    assert(first_from(8, c) is None);
    assert(first_from(7, c) == Some(OnlineSource::Local));
    lemma_first_from_some(0, c);
    lemma_first_from_some(1, c);
    match asked {
        Some(a) => {
            if a != OnlineSource::Local {
                lemma_first_from_some(source_rank(a) + 1, c);
            }
        },
        None => {},
    }
}

proof fn lemma_first_from_some(i: nat, c: SearchSetup)
    requires
        i <= 7,
    ensures
        first_from(i, c) matches Some(n) && source_rank(n) >= i,
    decreases 8 - i,
{
    if !source_available(source_at(i), c) {
        lemma_first_from_some(i + 1, c);
    }
}

} // verus!
