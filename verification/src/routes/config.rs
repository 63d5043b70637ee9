//! Application configuration: settings stored in the database first, the
//! environment second, built-in defaults last.
use crate::failover::{provider_is, AiClient};
use crate::text::{
    byte_len, byte_len_chars, byte_prefix, chars_of, chars_within_bytes, decimal, decimal_string, head_bytes, join, lines,
    lines_of, push_str, slice_range, starts_with, string_of,
};
use vstd::prelude::*;

verus! {

/// A fallback AI provider.
#[derive(Debug, Clone)]
pub struct AiFallback {
    pub name: String,
    pub base_url: String,
    pub api_key: String,
    pub model: String,
}

/// Shared application configuration.
#[derive(Debug, Clone)]
pub struct AppConfig {
    pub serpapi_key: String,
    /// Bing Web Search API key.
    pub bing_api_key: String,
    /// Lens.org patent API key.
    pub lens_api_key: String,
    pub ai_base_url: String,
    pub ai_api_key: String,
    pub ai_model: String,
    /// Providers tried, in order, when the primary one fails.
    pub ai_fallbacks: Vec<AiFallback>,
    /// CNIPR (China National Intellectual Property) open-platform application id.
    pub cnipr_client_id: String,
    pub cnipr_client_secret: String,
    /// CNIPR account name and password.
    pub cnipr_user: String,
    pub cnipr_password: String,
    /// The cached CNIPR access token and open id, empty until a login.
    pub cnipr_access_token: String,
    pub cnipr_open_id: String,
    /// When the cached token expires, in seconds since the Unix epoch.
    pub cnipr_token_expires: u64,
}

pub open spec fn pairs_view(v: Seq<(String, String)>) -> Seq<(Seq<char>, Seq<char>)> {
    v.map_values(|p: (String, String)| (p.0@, p.1@))
}

/// The value of the first pair with key `k`.
pub open spec fn lookup(pairs: Seq<(Seq<char>, Seq<char>)>, k: Seq<char>) -> Option<Seq<char>>
    decreases pairs.len(),
{
    if pairs.len() == 0 {
        None
    } else if pairs[0].0 == k {
        Some(pairs[0].1)
    } else {
        lookup(pairs.drop_first(), k)
    }
}

/// A setting: the stored value when non-empty, else the environment's,
/// else the default.
pub open spec fn setting(
    db: Seq<(Seq<char>, Seq<char>)>,
    env: Seq<(Seq<char>, Seq<char>)>,
    k: Seq<char>,
    default: Seq<char>,
) -> Seq<char> {
    match lookup(db, k) {
        Some(v) if v.len() > 0 => v,
        _ => match lookup(env, k) {
            Some(v) => v,
            None => default,
        },
    }
}

/// `FALLBACK_AI_<i>_<part>`.
pub open spec fn fallback_key(i: nat, part: Seq<char>) -> Seq<char> {
    "FALLBACK_AI_"@ + decimal(i) + "_"@ + part
}

/// The fallback provider `i`, when its URL, key and model are all set.
pub open spec fn fallback_spec(
    db: Seq<(Seq<char>, Seq<char>)>,
    env: Seq<(Seq<char>, Seq<char>)>,
    i: nat,
) -> Option<(Seq<char>, Seq<char>, Seq<char>, Seq<char>)> {
    let url = setting(db, env, fallback_key(i, "URL"@), Seq::empty());
    let key = setting(db, env, fallback_key(i, "KEY"@), Seq::empty());
    let model = setting(db, env, fallback_key(i, "MODEL"@), Seq::empty());
    let name = setting(db, env, fallback_key(i, "NAME"@), "Fallback-"@ + decimal(i));
    if url.len() > 0 && key.len() > 0 && model.len() > 0 {
        Some((name, url, key, model))
    } else {
        None
    }
}

/// The configured fallback providers among `1..=n`, in order.
pub open spec fn fallbacks_upto(
    db: Seq<(Seq<char>, Seq<char>)>,
    env: Seq<(Seq<char>, Seq<char>)>,
    n: nat,
) -> Seq<(Seq<char>, Seq<char>, Seq<char>, Seq<char>)>
    decreases n,
{
    if n == 0 {
        Seq::empty()
    } else {
        let r = fallbacks_upto(db, env, (n - 1) as nat);
        match fallback_spec(db, env, n) {
            Some(f) => r.push(f),
            None => r,
        }
    }
}

pub open spec fn fallback_view(f: AiFallback) -> (Seq<char>, Seq<char>, Seq<char>, Seq<char>) {
    (f.name@, f.base_url@, f.api_key@, f.model@)
}

/// The configuration read from the stored settings `db` and the
/// environment `env` (the variables that are set).
pub open spec fn config_spec(db: Seq<(Seq<char>, Seq<char>)>, env: Seq<(Seq<char>, Seq<char>)>, c: AppConfig) -> bool {
    &&& c.serpapi_key@ == setting(db, env, "SERPAPI_KEY"@, Seq::empty())
    &&& c.bing_api_key@ == setting(db, env, "BING_API_KEY"@, Seq::empty())
    &&& c.lens_api_key@ == setting(db, env, "LENS_API_KEY"@, Seq::empty())
    &&& c.ai_base_url@ == setting(db, env, "AI_BASE_URL"@, "http://localhost:11434/v1"@)
    &&& c.ai_api_key@ == setting(db, env, "AI_API_KEY"@, "ollama"@)
    &&& c.ai_model@ == setting(db, env, "AI_MODEL"@, "qwen2.5:7b"@)
    &&& c.ai_fallbacks@.map_values(|f: AiFallback| fallback_view(f)) == fallbacks_upto(db, env, 5)
    &&& c.cnipr_client_id@ == setting(db, env, "CNIPR_CLIENT_ID"@, Seq::empty())
    &&& c.cnipr_client_secret@ == setting(db, env, "CNIPR_CLIENT_SECRET"@, Seq::empty())
    &&& c.cnipr_user@ == setting(db, env, "CNIPR_USER"@, Seq::empty())
    &&& c.cnipr_password@ == setting(db, env, "CNIPR_PASSWORD"@, Seq::empty())
    &&& c.cnipr_access_token@ == Seq::<char>::empty()
    &&& c.cnipr_open_id@ == Seq::<char>::empty()
    &&& c.cnipr_token_expires == 0
}

fn find_pair(pairs: &Vec<(String, String)>, k: &String) -> (r: Option<String>)
    ensures
        match lookup(pairs_view(pairs@), k@) {
            Some(v) => r matches Some(s) && s@ == v,
            None => r is None,
        },
{
    let ghost pv = pairs_view(pairs@);
    assert(pv.skip(0) =~= pv);
    let mut i: usize = 0;
    while i < pairs.len()
        invariant
            pv == pairs_view(pairs@),
            i <= pairs@.len(),
            lookup(pv, k@) == lookup(pv.skip(i as int), k@),
        decreases pairs@.len() - i,
    {
        assert(pv.skip(i as int)[0] == (pairs@[i as int].0@, pairs@[i as int].1@));
        assert(pv.skip(i as int).drop_first() =~= pv.skip(i + 1));
        if pairs[i].0 == *k {
            return Some(pairs[i].1.clone());
        }
        i += 1;
    }
    assert(pv.skip(i as int).len() == 0);
    None
}

fn get_setting(db: &Vec<(String, String)>, env: &Vec<(String, String)>, k: &String, default: String) -> (r: String)
    ensures
        r@ == setting(pairs_view(db@), pairs_view(env@), k@, default@),
{
    match find_pair(db, k) {
        Some(v) => {
            if v.as_str().is_empty() {
                match find_pair(env, k) {
                    Some(e) => e,
                    None => default,
                }
            } else {
                v
            }
        },
        None => match find_pair(env, k) {
            Some(e) => e,
            None => default,
        },
    }
}

fn fallback_key_of(i: u64, part: &str) -> (r: String)
    ensures
        r@ == fallback_key(i as nat, part@),
{
    let mut s = String::from_str("FALLBACK_AI_");
    let d = decimal_string(i);
    push_str(&mut s, d.as_str());
    push_str(&mut s, "_");
    push_str(&mut s, part);
    s
}

/// The names of the environment variables the configuration reads.
pub open spec fn config_keys_spec() -> Seq<Seq<char>> {
    seq![
        "SERPAPI_KEY"@,
        "BING_API_KEY"@,
        "LENS_API_KEY"@,
        "AI_BASE_URL"@,
        "AI_API_KEY"@,
        "AI_MODEL"@,
    ] + Seq::new(20, |j: int| fallback_key((j / 4 + 1) as nat, seq!["URL"@, "KEY"@, "MODEL"@, "NAME"@][j % 4]))
        + seq!["CNIPR_CLIENT_ID"@, "CNIPR_CLIENT_SECRET"@, "CNIPR_USER"@, "CNIPR_PASSWORD"@]
}

impl AppConfig {
    /// The names of the settings the configuration reads, for looking them
    /// up in the environment.
    pub fn config_keys() -> (r: Vec<String>)
        ensures
            r.deep_view() == config_keys_spec(),
    {
        let mut r: Vec<String> = Vec::new();
        r.push(String::from_str("SERPAPI_KEY"));
        r.push(String::from_str("BING_API_KEY"));
        r.push(String::from_str("LENS_API_KEY"));
        r.push(String::from_str("AI_BASE_URL"));
        r.push(String::from_str("AI_API_KEY"));
        r.push(String::from_str("AI_MODEL"));
        let ghost head = r.deep_view();
        let parts: [&str; 4] = ["URL", "KEY", "MODEL", "NAME"];
        let ghost ps = seq!["URL"@, "KEY"@, "MODEL"@, "NAME"@];
        assert(forall|q: int| 0 <= q < 4 ==> (#[trigger] parts@[q])@ == ps[q]);
        let mut i: u64 = 1;
        while i <= 5
            invariant
                1 <= i <= 6,
                parts@.len() == 4,
                forall|q: int| 0 <= q < 4 ==> (#[trigger] parts@[q])@ == ps[q],
                ps == seq!["URL"@, "KEY"@, "MODEL"@, "NAME"@],
                r.deep_view() == head + Seq::new(((i - 1) * 4) as nat, |j: int| fallback_key((j / 4 + 1) as nat, ps[j % 4])),
            decreases 6 - i,
        {
            let mut p: usize = 0;
            while p < 4
                invariant
                    1 <= i <= 5,
                    p <= 4,
                    parts@.len() == 4,
                    forall|q: int| 0 <= q < 4 ==> (#[trigger] parts@[q])@ == ps[q],
                    r.deep_view() == head + Seq::new(((i - 1) * 4 + p) as nat, |j: int| fallback_key((j / 4 + 1) as nat, ps[j % 4])),
                decreases 4 - p,
            {
                let k = fallback_key_of(i, parts[p]);
                let ghost before = r.deep_view();
                r.push(k);
                proof {
                    let n = ((i - 1) * 4 + p) as int;
                    assert(n / 4 + 1 == i) by (nonlinear_arith)
                        requires n == (i - 1) * 4 + p, 0 <= p < 4, i >= 1;
                    assert(n % 4 == p) by (nonlinear_arith)
                        requires n == (i - 1) * 4 + p, 0 <= p < 4, i >= 1;
                    assert(r.deep_view() =~= before.push(k@));
                    assert(k@ == fallback_key(i as nat, ps[p as int]));
                    let f = |j: int| fallback_key((j / 4 + 1) as nat, ps[j % 4]);
                    assert(f(n) == fallback_key(i as nat, ps[p as int]));
                    assert(Seq::new((n + 1) as nat, f) =~= Seq::new(n as nat, f).push(f(n)));
                    assert(r.deep_view() =~= head + Seq::new((n + 1) as nat, f));
                }
                p += 1;
            }
            i += 1;
        }
        assert(head =~= seq![
            "SERPAPI_KEY"@,
            "BING_API_KEY"@,
            "LENS_API_KEY"@,
            "AI_BASE_URL"@,
            "AI_API_KEY"@,
            "AI_MODEL"@,
        ]);
        let ghost body = r.deep_view();
        r.push(String::from_str("CNIPR_CLIENT_ID"));
        r.push(String::from_str("CNIPR_CLIENT_SECRET"));
        r.push(String::from_str("CNIPR_USER"));
        r.push(String::from_str("CNIPR_PASSWORD"));
        assert(r.deep_view() =~= body + seq!["CNIPR_CLIENT_ID"@, "CNIPR_CLIENT_SECRET"@, "CNIPR_USER"@, "CNIPR_PASSWORD"@]);
        r
    }

    /// Reads the configuration: each setting from the stored settings `db`
    /// when non-empty there, else from the environment variables `env`,
    /// else its default; fallback providers 1 to 5 where URL, key and model
    /// are all set.
    pub fn from_db_and_env(db: &Vec<(String, String)>, env: &Vec<(String, String)>) -> (c: AppConfig)
        ensures
            config_spec(pairs_view(db@), pairs_view(env@), c),
    {
        let ghost dv = pairs_view(db@);
        let ghost ev = pairs_view(env@);
        let mut fallbacks: Vec<AiFallback> = Vec::new();
        let mut i: u64 = 1;
        while i <= 5
            invariant
                1 <= i <= 6,
                dv == pairs_view(db@),
                ev == pairs_view(env@),
                fallbacks@.map_values(|f: AiFallback| fallback_view(f)) == fallbacks_upto(dv, ev, (i - 1) as nat),
            decreases 6 - i,
        {
            let url = get_setting(db, env, &fallback_key_of(i, "URL"), String::new());
            let key = get_setting(db, env, &fallback_key_of(i, "KEY"), String::new());
            let model = get_setting(db, env, &fallback_key_of(i, "MODEL"), String::new());
            let mut default_name = String::from_str("Fallback-");
            let d = decimal_string(i);
            push_str(&mut default_name, d.as_str());
            let name = get_setting(db, env, &fallback_key_of(i, "NAME"), default_name);
            let ghost before = fallbacks@.map_values(|f: AiFallback| fallback_view(f));
            if !url.as_str().is_empty() && !key.as_str().is_empty() && !model.as_str().is_empty() {
                fallbacks.push(AiFallback { name, base_url: url, api_key: key, model });
                assert(fallbacks@.map_values(|f: AiFallback| fallback_view(f)) =~= before.push(
                    fallback_spec(dv, ev, i as nat)->0,
                ));
            }
            i += 1;
        }
        AppConfig {
            serpapi_key: get_setting(db, env, &String::from_str("SERPAPI_KEY"), String::new()),
            bing_api_key: get_setting(db, env, &String::from_str("BING_API_KEY"), String::new()),
            lens_api_key: get_setting(db, env, &String::from_str("LENS_API_KEY"), String::new()),
            ai_base_url: get_setting(
                db,
                env,
                &String::from_str("AI_BASE_URL"),
                String::from_str("http://localhost:11434/v1"),
            ),
            ai_api_key: get_setting(db, env, &String::from_str("AI_API_KEY"), String::from_str("ollama")),
            ai_model: get_setting(db, env, &String::from_str("AI_MODEL"), String::from_str("qwen2.5:7b")),
            ai_fallbacks: fallbacks,
            cnipr_client_id: get_setting(db, env, &String::from_str("CNIPR_CLIENT_ID"), String::new()),
            cnipr_client_secret: get_setting(db, env, &String::from_str("CNIPR_CLIENT_SECRET"), String::new()),
            cnipr_user: get_setting(db, env, &String::from_str("CNIPR_USER"), String::new()),
            cnipr_password: get_setting(db, env, &String::from_str("CNIPR_PASSWORD"), String::new()),
            cnipr_access_token: String::new(),
            cnipr_open_id: String::new(),
            cnipr_token_expires: 0,
        }
    }

    /// The configuration from the environment alone.
    pub fn from_env(env: &Vec<(String, String)>) -> (c: AppConfig)
        ensures
            config_spec(Seq::empty(), pairs_view(env@), c),
    {
        let none: Vec<(String, String)> = Vec::new();
        assert(pairs_view(none@) =~= Seq::<(Seq<char>, Seq<char>)>::empty());
        Self::from_db_and_env(&none, env)
    }

    /// The chat client for this configuration: the configured provider
    /// first, then the fallbacks in their order.
    pub fn ai_client(&self) -> (c: AiClient)
        ensures
            provider_is(c.primary, "primary"@, self.ai_base_url@, self.ai_api_key@, self.ai_model@),
            c.fallbacks@.len() == self.ai_fallbacks@.len(),
            forall|i: int|
                0 <= i < c.fallbacks@.len() ==> provider_is(
                    #[trigger] c.fallbacks@[i],
                    self.ai_fallbacks@[i].name@,
                    self.ai_fallbacks@[i].base_url@,
                    self.ai_fallbacks@[i].api_key@,
                    self.ai_fallbacks@[i].model@,
                ),
    {
        let mut client = AiClient::with_config(
            self.ai_base_url.as_str(),
            self.ai_api_key.as_str(),
            self.ai_model.as_str(),
        );
        let mut i: usize = 0;
        while i < self.ai_fallbacks.len()
            invariant
                i <= self.ai_fallbacks@.len(),
                provider_is(client.primary, "primary"@, self.ai_base_url@, self.ai_api_key@, self.ai_model@),
                client.fallbacks@.len() == i,
                forall|k: int|
                    0 <= k < i ==> provider_is(
                        #[trigger] client.fallbacks@[k],
                        self.ai_fallbacks@[k].name@,
                        self.ai_fallbacks@[k].base_url@,
                        self.ai_fallbacks@[k].api_key@,
                        self.ai_fallbacks@[k].model@,
                    ),
            decreases self.ai_fallbacks@.len() - i,
        {
            let fb = &self.ai_fallbacks[i];
            let ghost before = client.fallbacks@;
            client.add_fallback(fb.base_url.as_str(), fb.api_key.as_str(), fb.model.as_str(), fb.name.as_str());
            assert forall|k: int| 0 <= k < i + 1 implies provider_is(
                #[trigger] client.fallbacks@[k],
                self.ai_fallbacks@[k].name@,
                self.ai_fallbacks@[k].base_url@,
                self.ai_fallbacks@[k].api_key@,
                self.ai_fallbacks@[k].model@,
            ) by {
                if k < i {
                    assert(client.fallbacks@.take(i as int)[k] == client.fallbacks@[k]);
                    assert(before[k] == client.fallbacks@[k]);
                } else {
                    assert(client.fallbacks@[k] == client.fallbacks@.last());
                }
            }
            i += 1;
        }
        client
    }

    /// Whether SerpAPI is configured: a key that is not the sample placeholder.
    pub fn has_serpapi(&self) -> (r: bool)
        ensures
            r == (self.serpapi_key@.len() > 0 && self.serpapi_key@ != "your-serpapi-key-here"@),
    {
        crate::routes::online::serpapi_usable(self.serpapi_key.as_str())
    }

    /// Whether the Bing search key is set.
    pub fn has_bing(&self) -> (r: bool)
        ensures
            r == (self.bing_api_key@.len() > 0),
    {
        !self.bing_api_key.as_str().is_empty()
    }

    /// Whether CNIPR is configured: the application id, the account and
    /// its password are all set.
    pub fn has_cnipr(&self) -> (r: bool)
        ensures
            r == (self.cnipr_client_id@.len() > 0 && self.cnipr_user@.len() > 0 && self.cnipr_password@.len() > 0),
    {
        !self.cnipr_client_id.as_str().is_empty() && !self.cnipr_user.as_str().is_empty()
            && !self.cnipr_password.as_str().is_empty()
    }

    /// Whether the Lens.org key is set.
    pub fn has_lens(&self) -> (r: bool)
        ensures
            r == (self.lens_api_key@.len() > 0),
    {
        !self.lens_api_key.as_str().is_empty()
    }
}

/// Whether byte `n` of the encoding of `s` starts a character, so that
/// `s` can be cut there.
pub open spec fn cut_ok(s: Seq<char>, n: nat) -> bool {
    byte_len(head_bytes(s, n)) == n
}

/// An API key as the settings page shows it: nothing for an empty key or
/// the sample placeholder; `****` for a key of at most 8 bytes; else its
/// first and last 4 bytes around `****`.
pub open spec fn mask_spec(key: Seq<char>) -> Seq<char> {
    if key.len() == 0 || key == "your-serpapi-key-here"@ {
        Seq::empty()
    } else if byte_len(key) <= 8 {
        "****"@
    } else {
        head_bytes(key, 4) + "****"@ + key.skip(chars_within_bytes(key, (byte_len(key) - 4) as nat) as int)
    }
}

/// Masks an API key (see `mask_spec`). A key longer than 8 bytes must
/// allow a cut after its first 4 bytes and before its last 4.
pub fn mask_api_key(key: &str) -> (r: String)
    requires
        byte_len(key@) <= usize::MAX - 4,
        byte_len(key@) > 8 ==> cut_ok(key@, 4) && cut_ok(key@, (byte_len(key@) - 4) as nat),
    ensures
        r@ == mask_spec(key@),
{
    let v = chars_of(key);
    if v.len() == 0 || crate::routes::query::eq_lit(&v, "your-serpapi-key-here") {
        return String::new();
    }
    let n = byte_len_chars(v.as_slice());
    if n <= 8 {
        return "****".to_string();
    }
    let k1 = byte_prefix(&v, 4);
    let k2 = byte_prefix(&v, n - 4);
    proof {
        crate::text::lemma_byte_len_ge_len(key@);
    }
    let head = slice_range(v.as_slice(), 0, k1);
    let tail = slice_range(v.as_slice(), k2, v.len());
    assert(head@ =~= head_bytes(key@, 4));
    assert(tail@ =~= key@.skip(k2 as int));
    let mut r = string_of(head.as_slice());
    push_str(&mut r, "****");
    let t = string_of(tail.as_slice());
    push_str(&mut r, t.as_str());
    r
}

/// Whether `line` sets `key`: it starts with `key=`.
pub open spec fn sets_key(line: Seq<char>, key: Seq<char>) -> bool {
    starts_with(line, key + "="@)
}

/// The first line that sets `key`, if any.
pub open spec fn first_setting(ls: Seq<Seq<char>>, key: Seq<char>) -> Option<int> {
    if exists|i: int| 0 <= i < ls.len() && sets_key(#[trigger] ls[i], key) {
        Some(choose|i: int| 0 <= i < ls.len() && sets_key(#[trigger] ls[i], key) && forall|j: int|
            0 <= j < i ==> !sets_key(#[trigger] ls[j], key))
    } else {
        None
    }
}

proof fn lemma_first_setting(ls: Seq<Seq<char>>, key: Seq<char>)
    ensures
        match first_setting(ls, key) {
            Some(w) => 0 <= w < ls.len() && sets_key(ls[w], key) && forall|j: int|
                0 <= j < w ==> !sets_key(#[trigger] ls[j], key),
            None => forall|j: int| 0 <= j < ls.len() ==> !sets_key(#[trigger] ls[j], key),
        },
{
    if exists|i: int| 0 <= i < ls.len() && sets_key(#[trigger] ls[i], key) {
        let i0 = choose|i: int| 0 <= i < ls.len() && sets_key(#[trigger] ls[i], key);
        lemma_least_setting(ls, key, i0);
    }
}

proof fn lemma_least_setting(ls: Seq<Seq<char>>, key: Seq<char>, i0: int)
    requires
        0 <= i0 < ls.len(),
        sets_key(ls[i0], key),
    ensures
        exists|i: int| 0 <= i < ls.len() && sets_key(#[trigger] ls[i], key) && forall|j: int|
            0 <= j < i ==> !sets_key(#[trigger] ls[j], key),
    decreases i0,
{
    if exists|j: int| 0 <= j < i0 && sets_key(#[trigger] ls[j], key) {
        let j0 = choose|j: int| 0 <= j < i0 && sets_key(#[trigger] ls[j], key);
        lemma_least_setting(ls, key, j0);
    } else {
        assert(forall|j: int| 0 <= j < i0 ==> !sets_key(#[trigger] ls[j], key));
    }
}

/// The lines of an environment file after setting `key` to `value`,
/// before they are joined.
pub open spec fn env_lines_after(ls: Seq<Seq<char>>, key: Seq<char>, value: Seq<char>) -> Seq<Seq<char>> {
    match first_setting(ls, key) {
        Some(i) => ls.update(i, key + "="@ + value),
        None => ls.push(key + "="@ + value),
    }
}

/// Law: after a setting is written, reading it back gives what was
/// written: the first line that sets `key` is `key=value`; every other
/// line is kept.
pub proof fn lemma_env_update_reads_back(ls: Seq<Seq<char>>, key: Seq<char>, value: Seq<char>)
    ensures
        first_setting(env_lines_after(ls, key, value), key) matches Some(i) && env_lines_after(ls, key, value)[i]
            == key + "="@ + value,
        forall|j: int|
            0 <= j < ls.len() && Some(j) != first_setting(ls, key) ==> env_lines_after(ls, key, value)[j] == ls[j],
{
    let entry = key + "="@ + value;
    let after = env_lines_after(ls, key, value);
    assert(entry.subrange(0, (key + "="@).len() as int) =~= key + "="@);
    assert(sets_key(entry, key));
    lemma_first_setting(ls, key);
    match first_setting(ls, key) {
        Some(w) => {
            assert(after[w] == entry);
            assert forall|j: int| 0 <= j < w implies !sets_key(#[trigger] after[j], key) by {
                assert(after[j] == ls[j]);
            }
            lemma_first_setting(after, key);
            let f = first_setting(after, key)->0;
            if f < w {
                assert(!sets_key(after[f], key));
            }
            if f > w {
                assert(!sets_key(after[w], key));
            }
        },
        None => {
            assert(after[ls.len() as int] == entry);
            assert forall|j: int| 0 <= j < ls.len() implies !sets_key(#[trigger] after[j], key) by {
                assert(after[j] == ls[j]);
            }
            lemma_first_setting(after, key);
            let f = first_setting(after, key)->0;
            if f < ls.len() {
                assert(!sets_key(after[f], key));
            }
        },
    }
}

/// The environment file after setting `key` to `value`: its lines, the
/// first one that sets `key` replaced by `key=value` (or that line added at
/// the end), joined with newlines.
pub open spec fn env_update_spec(content: Seq<char>, key: Seq<char>, value: Seq<char>) -> Seq<char> {
    join(env_lines_after(lines(content), key, value), "\n"@)
}

/// The new text of an environment file that sets `key` to `value`.
pub fn env_file_update(content: &str, key: &str, value: &str) -> (r: String)
    ensures
        r@ == env_update_spec(content@, key@, value@),
{
    let ls = lines_of(chars_of(content).as_slice());
    let mut prefix = key.to_string();
    push_str(&mut prefix, "=");
    let mut entry = prefix.clone();
    push_str(&mut entry, value);
    let pv = chars_of(prefix.as_str());
    let ev = chars_of(entry.as_str());
    let ghost l = lines(content@);
    let mut out: Vec<Vec<char>> = Vec::new();
    let mut found = false;
    let mut i: usize = 0;
    while i < ls.len()
        invariant
            i <= ls@.len(),
            ls.deep_view() == l,
            pv@ == key@ + "="@,
            prefix@ == key@ + "="@,
            ev@ == key@ + "="@ + value@,
            out.deep_view().len() == i,
            !found ==> forall|j: int| 0 <= j < i ==> !sets_key(#[trigger] l[j], key@),
            !found ==> out.deep_view() =~= l.take(i as int),
            found ==> first_setting(l, key@) is Some && 0 <= first_setting(l, key@)->0 < i
                && out.deep_view() =~= l.update(first_setting(l, key@)->0, ev@).take(i as int),
        decreases ls@.len() - i,
    {
        assert(ls.deep_view()[i as int] == ls@[i as int]@);
        let line = &ls[i];
        let ghost before = out.deep_view();
        if !found && crate::text::starts_with_str(line.as_slice(), prefix.as_str()) {
            assert(sets_key(l[i as int], key@));
            assert(first_setting(l, key@) == Some(i as int)) by {
                lemma_first_setting(l, key@);
                let w = first_setting(l, key@)->0;
                if w < i {
                    assert(!sets_key(l[w], key@));
                }
                if w > i {
                    assert(!sets_key(l[i as int], key@));
                }
            }
            let e2 = slice_range(ev.as_slice(), 0, ev.len());
            out.push(e2);
            assert(out.deep_view() =~~= before.push(ev@));
            found = true;
            assert(out.deep_view() =~= l.update(i as int, ev@).take(i + 1));
        } else {
            let lc = slice_range(line.as_slice(), 0, line.len());
            out.push(lc);
            assert(out.deep_view() =~~= before.push(l[i as int]));
            proof {
                if found {
                    assert(out.deep_view() =~= l.update(first_setting(l, key@)->0, ev@).take(i + 1));
                } else {
                    assert(out.deep_view() =~= l.take(i + 1));
                }
            }
        }
        i += 1;
    }
    proof {
        lemma_first_setting(l, key@);
    }
    if !found {
        assert(first_setting(l, key@) is None);
        assert(out.deep_view() =~= l);
        let ghost before = out.deep_view();
        let ghost evv = ev@;
        out.push(ev);
        assert(out.deep_view() =~~= before.push(evv));
        assert(out.deep_view() =~= l.push(key@ + "="@ + value@));
    } else {
        let ghost w = first_setting(l, key@)->0;
        assert(0 <= w < l.len());
        assert(l.update(w, ev@).len() == l.len());
        assert(l.update(w, ev@).take(l.len() as int) =~= l.update(w, ev@));
        assert(out.deep_view() =~= l.update(first_setting(l, key@)->0, key@ + "="@ + value@));
    }
    let nl = chars_of("\n");
    let joined = crate::text::join_chars(&out, nl.as_slice());
    string_of(joined.as_slice())
}


} // verus!
