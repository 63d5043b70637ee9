//! The search steps: cache keys, and the collections of web and patent
//! results that never hold the same page or the same title twice.
use crate::json::{array_items, get, get_member, str_of, string_value, text_of, text_value, Json};
use crate::pipeline::context::SearchResult;
use crate::pipeline::steps::contradiction::join_strings;
use crate::pipeline::steps::tokens::vec_has;
use crate::routes::sources::lower_hex;
use crate::text::{
    chars_of, decimal, decimal_string, join, lowercase, push_str, string_of, take_chars, take_n,
    to_lower,
};
use vstd::prelude::*;

verus! {

// ───────────────────────── cache keys ─────────────────────────

/// The last `k` hexadecimal digits of `n`, lower-case, with leading zeros.
pub open spec fn hex_digits(n: nat, k: nat) -> Seq<char>
    decreases k,
{
    if k == 0 {
        Seq::empty()
    } else {
        hex_digits(n / 16, (k - 1) as nat).push(lower_hex((n % 16) as u32))
    }
}

fn hex_char(d: u64) -> (c: char)
    requires
        d < 16,
    ensures
        c == lower_hex(d as u32),
{
    let b: u8 = d as u8;
    if b < 10 {
        (b + 48) as char
    } else {
        (b + 87) as char
    }
}

/// A 64-bit hash as sixteen lower-case hexadecimal digits.
pub fn hash_key(h: u64) -> (r: String)
    ensures
        r@ == hex_digits(h as nat, 16),
        r@.len() == 16,
{
    let mut digits: Vec<char> = Vec::new();
    let mut n: u64 = h;
    let mut k: u64 = 0;
    assert(pow16(0) == 1);
    assert(digits@ =~= Seq::<char>::empty());
    assert(hex_digits(h as nat, 16) + Seq::<char>::empty() =~= hex_digits(h as nat, 16));
    while k < 16
        invariant
            k <= 16,
            n as nat == (h as nat) / pow16(k as nat),
            digits@.len() == k,
            hex_digits(h as nat, 16) == hex_digits(n as nat, (16 - k) as nat) + digits@,
        decreases 16 - k,
    {
        proof {
            lemma_pow16_step(k as nat);
            assert(hex_digits(n as nat, (16 - k) as nat) == hex_digits((n / 16) as nat, (16 - k - 1) as nat).push(
                lower_hex((n % 16) as u32),
            ));
            vstd::arithmetic::div_mod::lemma_div_denominator(h as int, pow16(k as nat) as int, 16);
        }
        let c = hex_char(n % 16);
        let ghost before = digits@;
        digits.insert(0, c);
        assert(digits@ =~= seq![c] + before);
        assert(hex_digits((n / 16) as nat, (16 - k - 1) as nat).push(c) + before =~= hex_digits(
            (n / 16) as nat,
            (16 - k - 1) as nat,
        ) + digits@);
        n = n / 16;
        k += 1;
    }
    assert(hex_digits(n as nat, 0) =~= Seq::<char>::empty());
    assert(Seq::<char>::empty() + digits@ =~= digits@);
    string_of(digits.as_slice())
}

pub open spec fn pow16(k: nat) -> nat
    decreases k,
{
    if k == 0 {
        1
    } else {
        16 * pow16((k - 1) as nat)
    }
}

proof fn lemma_pow16_step(k: nat)
    ensures
        pow16(k + 1) == pow16(k) * 16,
        pow16(k) > 0,
    decreases k,
{
    if k > 0 {
        lemma_pow16_step((k - 1) as nat);
    }
}

/// What `DefaultHasher` gives after hashing the query, then the source.
pub uninterp spec fn default_hash_value(query: Seq<char>, source: Seq<char>) -> u64;

/// `DefaultHasher::new()`, `Hash::hash` of the query and then of the
/// source, `Hasher::finish`. Every hasher made by `new` starts in the same
/// state (std documents this; it is not seeded per process), so the value
/// depends on the two strings alone; the contract names it. std leaves the
/// algorithm itself unspecified and free to change between Rust releases,
/// so nothing more is stated of it.
#[verifier::external_body]
fn default_hash(query: &str, source: &str) -> (r: u64)
    ensures
        r == default_hash_value(query@, source@),
{
    let mut h = std::collections::hash_map::DefaultHasher::new();
    std::hash::Hash::hash(query, &mut h);
    std::hash::Hash::hash(source, &mut h);
    std::hash::Hasher::finish(&h)
}

/// The cache key of a query and a source: their hash (see
/// `default_hash_value`) as sixteen lower-case hexadecimal digits
/// (`hash_key`).
pub fn query_hash(query: &str, source: &str) -> (r: String)
    ensures
        r@ == hex_digits(default_hash_value(query@, source@) as nat, 16),
{
    let h = default_hash(query, source);
    hash_key(h)
}

/// The queries a search step uses (the first `n`) and the text cached
/// with them (joined by `|`).
pub fn cached_queries(expanded: &Vec<String>, n: usize) -> (r: (Vec<String>, String))
    ensures
        r.0.deep_view() == (if expanded@.len() > n {
            expanded.deep_view().take(n as int)
        } else {
            expanded.deep_view()
        }),
        r.1@ == join(r.0.deep_view(), "|"@),
{
    let m = if expanded.len() > n {
        n
    } else {
        expanded.len()
    };
    let mut q: Vec<String> = Vec::new();
    let mut i: usize = 0;
    while i < m
        invariant
            m <= expanded@.len(),
            i <= m,
            q.deep_view() == expanded.deep_view().take(i as int),
        decreases m - i,
    {
        let ghost before = q.deep_view();
        assert(expanded.deep_view()[i as int] == expanded[i as int]@);
        q.push(expanded[i].clone());
        assert(q.deep_view() =~= before.push(expanded[i as int]@));
        assert(q.deep_view() =~= expanded.deep_view().take(i + 1));
        i += 1;
    }
    proof {
        if expanded@.len() <= n {
            assert(expanded.deep_view().take(m as int) =~= expanded.deep_view());
        }
    }
    let bar = chars_of("|");
    let text = string_of(join_strings(&q, bar.as_slice()).as_slice());
    (q, text)
}

// ───────────────────────── collected results ─────────────────────────

/// A search result as text: id, title, snippet, link, source.
pub type ResultFields = (Seq<char>, Seq<char>, Seq<char>, Seq<char>, Seq<char>);

pub open spec fn result_view(r: SearchResult) -> ResultFields {
    (r.id@, r.title@, r.snippet@, r.link@, r.source@)
}

pub open spec fn results_view(v: Seq<SearchResult>) -> Seq<ResultFields> {
    v.map_values(|r: SearchResult| result_view(r))
}

/// Whether some collected result has the link `l`.
pub open spec fn has_link(v: Seq<ResultFields>, l: Seq<char>) -> bool {
    exists|i: int| 0 <= i < v.len() && (#[trigger] v[i]).3 == l
}

/// Web result `i` is named `web_<i>`.
pub open spec fn web_id(i: int) -> Seq<char> {
    "web_"@ + decimal(i as nat)
}

/// Adds a web page unless its link is empty or already collected.
pub open spec fn add_page(v: Seq<ResultFields>, title: Seq<char>, snippet: Seq<char>, link: Seq<char>, source: Seq<char>) -> Seq<
    ResultFields,
> {
    if link.len() == 0 || has_link(v, link) {
        v
    } else {
        v.push((web_id(v.len() as int), title, snippet, link, source))
    }
}

/// The web results a search reply adds: SerpAPI organic results (`title`,
/// `snippet`, `link`) or Bing pages (`name`, `snippet`, `url`).
pub open spec fn add_pages(v: Seq<ResultFields>, items: Seq<Json>, bing: bool) -> Seq<ResultFields>
    decreases items.len(),
{
    if items.len() == 0 {
        v
    } else {
        let r = add_pages(v, items.drop_last(), bing);
        let x = Some(items.last());
        if bing {
            add_page(r, text_of(get(x, "name"@)), text_of(get(x, "snippet"@)), text_of(get(x, "url"@)), "bing"@)
        } else {
            add_page(r, text_of(get(x, "title"@)), text_of(get(x, "snippet"@)), text_of(get(x, "link"@)), "serpapi"@)
        }
    }
}

/// The result list of the web search step: each page at most once (by
/// link), none without a link, result `i` named `web_<i>`.
pub struct WebResults {
    results: Vec<SearchResult>,
}

impl WebResults {
    pub closed spec fn view(&self) -> Seq<ResultFields> {
        results_view(self.results@)
    }

    pub open spec fn wf(&self) -> bool {
        &&& forall|i: int| 0 <= i < self.view().len() ==> (#[trigger] self.view()[i]).0 == web_id(i)
        &&& forall|i: int| 0 <= i < self.view().len() ==> (#[trigger] self.view()[i]).3.len() > 0
        &&& forall|i: int, j: int|
            0 <= i < j < self.view().len() ==> (#[trigger] self.view()[i]).3 != (#[trigger] self.view()[j]).3
    }

    pub fn new() -> (r: WebResults)
        ensures
            r.wf(),
            r.view() == Seq::<ResultFields>::empty(),
    {
        let r = WebResults { results: Vec::new() };
        assert(r.view() =~= Seq::<ResultFields>::empty());
        r
    }

    fn has(&self, link: &String) -> (b: bool)
        ensures
            b == has_link(self.view(), link@),
    {
        let mut i: usize = 0;
        while i < self.results.len()
            invariant
                i <= self.results@.len(),
                forall|k: int| 0 <= k < i ==> (#[trigger] self.view()[k]).3 != link@,
            decreases self.results@.len() - i,
        {
            assert(self.view()[i as int] == result_view(self.results@[i as int]));
            if self.results[i].link == *link {
                return true;
            }
            i += 1;
        }
        false
    }

    /// Adds a page (see `add_page`); says whether it was added.
    pub fn add(&mut self, title: String, snippet: String, link: String, source: &str) -> (added: bool)
        requires
            old(self).wf(),
        ensures
            final(self).wf(),
            final(self).view() == add_page(old(self).view(), title@, snippet@, link@, source@),
            added == (final(self).view().len() > old(self).view().len()),
    {
        if link.as_str().is_empty() || self.has(&link) {
            return false;
        }
        let n = self.results.len();
        let mut id = String::from_str("web_");
        let d = decimal_string(n as u64);
        push_str(&mut id, d.as_str());
        let ghost before = self.view();
        self.results.push(SearchResult { id, title, snippet, link, source: String::from_str(source) });
        assert(self.view() =~= before.push(result_view(self.results@.last())));
        true
    }

    /// Adds the pages of a SerpAPI (`bing` false) or Bing (`bing` true)
    /// web search reply.
    pub fn add_reply(&mut self, body: &Json, bing: bool)
        requires
            old(self).wf(),
        ensures
            final(self).wf(),
            final(self).view() == add_pages(
                old(self).view(),
                (if bing {
                    crate::routes::sources::list_of(get(get(Some(*body), "webPages"@), "value"@))
                } else {
                    crate::routes::sources::list_of(get(Some(*body), "organic_results"@))
                }),
                bing,
            ),
    {
        let list = if bing {
            array_items(get_member(get_member(Some(body), "webPages"), "value"))
        } else {
            array_items(get_member(Some(body), "organic_results"))
        };
        let ghost start = self.view();
        match list {
            Some(items) => {
                let ghost iv = items@;
                let mut i: usize = 0;
                while i < items.len()
                    invariant
                        iv == items@,
                        i <= iv.len(),
                        self.wf(),
                        self.view() == add_pages(start, iv.take(i as int), bing),
                    decreases iv.len() - i,
                {
                    assert(iv.take(i + 1).drop_last() =~= iv.take(i as int));
                    let x = Some(&items[i]);
                    if bing {
                        self.add(
                            text_value(get_member(x, "name")),
                            text_value(get_member(x, "snippet")),
                            text_value(get_member(x, "url")),
                            "bing",
                        );
                    } else {
                        self.add(
                            text_value(get_member(x, "title")),
                            text_value(get_member(x, "snippet")),
                            text_value(get_member(x, "link")),
                            "serpapi",
                        );
                    }
                    i += 1;
                }
                assert(iv.take(iv.len() as int) =~= iv);
            },
            None => {},
        }
    }

    pub fn len(&self) -> (n: usize)
        ensures
            n == self.view().len(),
    {
        self.results.len()
    }

    /// The collected results.
    pub fn into_results(self) -> (r: Vec<SearchResult>)
        ensures
            results_view(r@) == self.view(),
    {
        self.results
    }
}

// ───────────────────────── patent results ─────────────────────────

/// The key by which patents count as the same: the first twenty
/// characters of the title, lower-cased.
pub open spec fn title_key(title: Seq<char>) -> Seq<char> {
    lowercase(take_chars(title, 20))
}

pub fn title_key_of(title: &str) -> (r: String)
    ensures
        r@ == title_key(title@),
{
    let t = take_n(chars_of(title).as_slice(), 20);
    to_lower(string_of(t.as_slice()).as_str())
}

/// Whether some collected patent has title key `k`.
pub open spec fn has_key(v: Seq<ResultFields>, k: Seq<char>) -> bool {
    exists|i: int| 0 <= i < v.len() && title_key((#[trigger] v[i]).1) == k
}

/// Adds a patent unless one with the same title key is collected.
pub open spec fn add_patent(v: Seq<ResultFields>, r: ResultFields) -> Seq<ResultFields> {
    if has_key(v, title_key(r.1)) {
        v
    } else {
        v.push(r)
    }
}

/// The online patent of one Google Patents organic result.
pub open spec fn online_patent(v: Seq<ResultFields>, x: Option<Json>) -> Seq<ResultFields> {
    add_patent(
        v,
        (
            "patent_online_"@ + decimal(v.len()),
            text_of(get(x, "title"@)),
            text_of(get(x, "snippet"@)),
            match str_of(get(x, "patent_id"@)) {
                Some(p) => "https://patents.google.com/patent/"@ + p,
                None => Seq::empty(),
            },
            "google_patents"@,
        ),
    )
}

/// The patents a Google Patents reply adds, in order.
pub open spec fn add_online_all(v: Seq<ResultFields>, items: Seq<Json>) -> Seq<ResultFields>
    decreases items.len(),
{
    if items.len() == 0 {
        v
    } else {
        online_patent(add_online_all(v, items.drop_last()), Some(items.last()))
    }
}

/// The Lens.org patent of one item: nothing when it has no title.
pub open spec fn lens_patent(v: Seq<ResultFields>, x: Json) -> Seq<ResultFields> {
    let title = crate::routes::sources::localized_text(get(Some(x), "title"@));
    if title.len() == 0 {
        v
    } else {
        add_patent(
            v,
            (
                "patent_lens_"@ + decimal(v.len()),
                title,
                take_chars(crate::routes::sources::localized_text(get(Some(x), "abstract"@)), 300),
                "https://www.lens.org/lens/patent/"@ + text_of(get(Some(x), "lens_id"@)),
                "lens_org"@,
            ),
        )
    }
}

/// The patents a Lens.org reply adds, in order.
pub open spec fn add_lens_all(v: Seq<ResultFields>, items: Seq<Json>) -> Seq<ResultFields>
    decreases items.len(),
{
    if items.len() == 0 {
        v
    } else {
        lens_patent(add_lens_all(v, items.drop_last()), items.last())
    }
}

/// The patent results of the patent search step: at most one per title key.
pub struct PatentResults {
    results: Vec<SearchResult>,
    keys: Vec<String>,
}

impl PatentResults {
    pub closed spec fn view(&self) -> Seq<ResultFields> {
        results_view(self.results@)
    }

    pub closed spec fn wf(&self) -> bool {
        &&& self.keys@.len() == self.results@.len()
        &&& forall|i: int|
            0 <= i < self.keys@.len() ==> (#[trigger] self.keys@[i])@ == title_key(self.results@[i].title@)
        &&& forall|i: int, j: int|
            0 <= i < j < self.view().len() ==> title_key((#[trigger] self.view()[i]).1) != title_key(
                (#[trigger] self.view()[j]).1,
            )
    }

    pub fn new() -> (r: PatentResults)
        ensures
            r.wf(),
            r.view() == Seq::<ResultFields>::empty(),
    {
        let r = PatentResults { results: Vec::new(), keys: Vec::new() };
        assert(r.view() =~= Seq::<ResultFields>::empty());
        r
    }

    fn has(&self, key: &String) -> (b: bool)
        requires
            self.wf(),
        ensures
            b == has_key(self.view(), key@),
    {
        let mut i: usize = 0;
        while i < self.keys.len()
            invariant
                self.wf(),
                i <= self.keys@.len(),
                forall|k: int| 0 <= k < i ==> title_key((#[trigger] self.view()[k]).1) != key@,
            decreases self.keys@.len() - i,
        {
            assert(self.view()[i as int] == result_view(self.results@[i as int]));
            if self.keys[i] == *key {
                return true;
            }
            i += 1;
        }
        false
    }

    fn add(&mut self, id: String, title: String, snippet: String, link: String, source: &str) -> (added: bool)
        requires
            old(self).wf(),
        ensures
            final(self).wf(),
            final(self).view() == add_patent(old(self).view(), (id@, title@, snippet@, link@, source@)),
            added == (final(self).view().len() > old(self).view().len()),
    {
        let key = title_key_of(title.as_str());
        if self.has(&key) {
            return false;
        }
        let ghost before = self.view();
        self.results.push(SearchResult { id, title, snippet, link, source: String::from_str(source) });
        self.keys.push(key);
        assert(self.view() =~= before.push(result_view(self.results@.last())));
        true
    }

    /// Adds a patent of the local store, linked to its Google Patents page.
    pub fn add_local(&mut self, number: &str, title: String, abstract_text: String) -> (added: bool)
        requires
            old(self).wf(),
        ensures
            final(self).wf(),
            final(self).view() == add_patent(
                old(self).view(),
                (
                    "patent_local_"@ + number@,
                    title@,
                    abstract_text@,
                    "https://patents.google.com/patent/"@ + number@,
                    "local_db"@,
                ),
            ),
    {
        let mut id = String::from_str("patent_local_");
        push_str(&mut id, number);
        let mut link = String::from_str("https://patents.google.com/patent/");
        push_str(&mut link, number);
        self.add(id, title, abstract_text, link, "local_db")
    }

    /// Adds a Google Patents result `patent_online_<n>` (n the count so
    /// far), linked by its patent id when it has one.
    pub fn add_online(&mut self, title: String, snippet: String, patent_id: Option<String>) -> (added: bool)
        requires
            old(self).wf(),
        ensures
            final(self).wf(),
            final(self).view() == add_patent(
                old(self).view(),
                (
                    "patent_online_"@ + decimal(old(self).view().len()),
                    title@,
                    snippet@,
                    match patent_id {
                        Some(p) => "https://patents.google.com/patent/"@ + p@,
                        None => Seq::empty(),
                    },
                    "google_patents"@,
                ),
            ),
    {
        let mut id = String::from_str("patent_online_");
        let d = decimal_string(self.results.len() as u64);
        push_str(&mut id, d.as_str());
        let link = match &patent_id {
            Some(p) => {
                let mut l = String::from_str("https://patents.google.com/patent/");
                push_str(&mut l, p.as_str());
                l
            },
            None => String::new(),
        };
        self.add(id, title, snippet, link, "google_patents")
    }

    /// Adds a Lens.org result `patent_lens_<n>` with a title, its abstract
    /// cut to 300 characters, linked to its Lens page.
    pub fn add_lens(&mut self, title: String, abstract_text: &str, lens_id: &str) -> (added: bool)
        requires
            old(self).wf(),
        ensures
            final(self).wf(),
            title@.len() == 0 ==> final(self).view() == old(self).view(),
            title@.len() > 0 ==> final(self).view() == add_patent(
                old(self).view(),
                (
                    "patent_lens_"@ + decimal(old(self).view().len()),
                    title@,
                    take_chars(abstract_text@, 300),
                    "https://www.lens.org/lens/patent/"@ + lens_id@,
                    "lens_org"@,
                ),
            ),
    {
        if title.as_str().is_empty() {
            return false;
        }
        let mut id = String::from_str("patent_lens_");
        let d = decimal_string(self.results.len() as u64);
        push_str(&mut id, d.as_str());
        let snippet = string_of(take_n(chars_of(abstract_text).as_slice(), 300).as_slice());
        let mut link = String::from_str("https://www.lens.org/lens/patent/");
        push_str(&mut link, lens_id);
        self.add(id, title, snippet, link, "lens_org")
    }

    /// Adds the organic results of a Google Patents reply.
    pub fn add_serp_reply(&mut self, body: &Json)
        requires
            old(self).wf(),
        ensures
            final(self).wf(),
            final(self).view() == add_online_all(
                old(self).view(),
                crate::routes::sources::list_of(get(Some(*body), "organic_results"@)),
            ),
    {
        let ghost start = self.view();
        match array_items(get_member(Some(body), "organic_results")) {
            Some(items) => {
                let ghost iv = items@;
                let mut i: usize = 0;
                while i < items.len()
                    invariant
                        iv == items@,
                        i <= iv.len(),
                        self.wf(),
                        self.view() == add_online_all(start, iv.take(i as int)),
                    decreases iv.len() - i,
                {
                    assert(iv.take(i + 1).drop_last() =~= iv.take(i as int));
                    let x = Some(&items[i]);
                    self.add_online(
                        text_value(get_member(x, "title")),
                        text_value(get_member(x, "snippet")),
                        string_value(get_member(x, "patent_id")),
                    );
                    i += 1;
                }
                assert(iv.take(iv.len() as int) =~= iv);
            },
            None => {},
        }
    }

    /// Adds the items of a Lens.org reply that have a title.
    pub fn add_lens_reply(&mut self, body: &Json)
        requires
            old(self).wf(),
        ensures
            final(self).wf(),
            final(self).view() == add_lens_all(
                old(self).view(),
                crate::routes::sources::list_of(get(Some(*body), "data"@)),
            ),
    {
        let ghost start = self.view();
        match array_items(get_member(Some(body), "data")) {
            Some(items) => {
                let ghost iv = items@;
                let mut i: usize = 0;
                while i < items.len()
                    invariant
                        iv == items@,
                        i <= iv.len(),
                        self.wf(),
                        self.view() == add_lens_all(start, iv.take(i as int)),
                    decreases iv.len() - i,
                {
                    assert(iv.take(i + 1).drop_last() =~= iv.take(i as int));
                    let (title, abstract_text, lens_id) = crate::routes::sources::lens_item_texts(&items[i]);
                    self.add_lens(title, abstract_text.as_str(), lens_id.as_str());
                    i += 1;
                }
                assert(iv.take(iv.len() as int) =~= iv);
            },
            None => {},
        }
    }

    pub fn len(&self) -> (n: usize)
        ensures
            n == self.view().len(),
    {
        self.results.len()
    }

    pub fn into_results(self) -> (r: Vec<SearchResult>)
        ensures
            results_view(r@) == self.view(),
    {
        self.results
    }
}

/// Whether Lens.org supplements the patent search: a key is set and fewer
/// than five patents were found.
pub fn lens_supplements(lens_key: &str, found: usize) -> (r: bool)
    ensures
        r == (lens_key@.len() > 0 && found < 5),
{
    !lens_key.is_empty() && found < 5
}

/// The web search query for a source: SerpAPI looks at patents and
/// technology pages, Bing adds `patent technology`, Sogou `专利`.
pub open spec fn web_query_spec(q: Seq<char>, source: Seq<char>) -> Seq<char> {
    if source == "serpapi"@ {
        q + " site:patents.google.com OR technology OR patent"@
    } else if source == "bing"@ {
        q + " patent technology"@
    } else {
        q + " 专利"@
    }
}

pub fn web_query(q: &str, source: &str) -> (r: String)
    ensures
        r@ == web_query_spec(q@, source@),
{
    let s = chars_of(source);
    let mut r = String::from_str(q);
    if crate::routes::query::eq_lit(&s, "serpapi") {
        push_str(&mut r, " site:patents.google.com OR technology OR patent");
    } else if crate::routes::query::eq_lit(&s, "bing") {
        push_str(&mut r, " patent technology");
    } else {
        push_str(&mut r, " 专利");
    }
    r
}

} // verus!
