//! Checks applied to settings submitted from the settings page, and the
//! keys under which they are stored.
use crate::failover::provider_is;
use crate::json::{array_items, get, get_member, items_of, Json};
use crate::pipeline::steps::claims::str_or;
use crate::routes::config::AiFallback;
use crate::text::{
    byte_len, byte_len_le, char_is_alphanumeric, chars_of, decimal, decimal_string, is_alphanumeric, push_str,
    starts_with, starts_with_str, string_of, trim, trim_str,
};
use vstd::prelude::*;

verus! {

/// Why submitted settings are refused.
#[derive(Debug, Clone, Copy, PartialEq, Eq)]
pub enum SettingsError {
    KeyRequired,
    KeyFormat,
    KeyCharacters,
    FieldsRequired,
    UrlProtocol,
    KeyLength,
    ModelLength,
    ModelCharacters,
    FallbacksMissing,
}

impl SettingsError {
    /// The message returned to the settings page.
    pub fn message(&self) -> (m: &'static str)
        ensures
            m@ == match self {
                SettingsError::KeyRequired => "API key is required"@,
                SettingsError::KeyFormat => "Invalid API key format"@,
                SettingsError::KeyCharacters => "API key contains invalid characters"@,
                SettingsError::FieldsRequired => "All fields are required"@,
                SettingsError::UrlProtocol => "URL must use HTTP or HTTPS protocol"@,
                SettingsError::KeyLength => "API key length must be between 8 and 200 characters"@,
                SettingsError::ModelLength => "Model name must be between 2 and 100 characters"@,
                SettingsError::ModelCharacters => "Model name contains invalid characters"@,
                SettingsError::FallbacksMissing => "Missing fallbacks array"@,
            },
    {
        match self {
            SettingsError::KeyRequired => "API key is required",
            SettingsError::KeyFormat => "Invalid API key format",
            SettingsError::KeyCharacters => "API key contains invalid characters",
            SettingsError::FieldsRequired => "All fields are required",
            SettingsError::UrlProtocol => "URL must use HTTP or HTTPS protocol",
            SettingsError::KeyLength => "API key length must be between 8 and 200 characters",
            SettingsError::ModelLength => "Model name must be between 2 and 100 characters",
            SettingsError::ModelCharacters => "Model name contains invalid characters",
            SettingsError::FallbacksMissing => "Missing fallbacks array",
        }
    }
}

/// A character allowed in a SerpAPI key.
pub open spec fn key_char(c: char) -> bool {
    char_is_alphanumeric(c) || c == '-' || c == '_' || c == '.'
}

/// A character allowed in a model name.
pub open spec fn model_char(c: char) -> bool {
    char_is_alphanumeric(c) || c == '-' || c == '_' || c == '.' || c == ':' || c == '/'
}

pub open spec fn all_chars(s: Seq<char>, model: bool) -> bool {
    forall|i: int| 0 <= i < s.len() ==> (if model { model_char(#[trigger] s[i]) } else { key_char(s[i]) })
}

fn chars_allowed(s: &[char], model: bool) -> (r: bool)
    ensures
        r == all_chars(s@, model),
{
    let mut i: usize = 0;
    while i < s.len()
        invariant
            i <= s.len(),
            forall|k: int| 0 <= k < i ==> (if model { model_char(#[trigger] s@[k]) } else { key_char(s@[k]) }),
        decreases s.len() - i,
    {
        let c = s[i];
        let ok = is_alphanumeric(c) || c == '-' || c == '_' || c == '.' || (model && (c == ':' || c == '/'));
        if !ok {
            return false;
        }
        i += 1;
    }
    true
}

/// The outcome of submitting a SerpAPI key: the trimmed key, refused when
/// empty, shorter than 20 or longer than 200 bytes, or holding a character
/// other than a letter, a digit, `-`, `_` or `.`.
pub open spec fn serpapi_key_spec(raw: Seq<char>) -> Result<Seq<char>, SettingsError> {
    let k = trim(raw);
    if k.len() == 0 {
        Err(SettingsError::KeyRequired)
    } else if byte_len(k) < 20 || byte_len(k) > 200 {
        Err(SettingsError::KeyFormat)
    } else if !all_chars(k, false) {
        Err(SettingsError::KeyCharacters)
    } else {
        Ok(k)
    }
}

pub open spec fn outcome_view(r: Result<String, SettingsError>) -> Result<Seq<char>, SettingsError> {
    match r {
        Ok(s) => Ok(s@),
        Err(e) => Err(e),
    }
}

/// Checks a submitted SerpAPI key (see `serpapi_key_spec`).
pub fn check_serpapi_key(raw: &str) -> (r: Result<String, SettingsError>)
    ensures
        outcome_view(r) == serpapi_key_spec(raw@),
{
    let k = trim_str(raw);
    if k.len() == 0 {
        return Err(SettingsError::KeyRequired);
    }
    if byte_len_le(k.as_slice(), 19) || !byte_len_le(k.as_slice(), 200) {
        return Err(SettingsError::KeyFormat);
    }
    if !chars_allowed(k.as_slice(), false) {
        return Err(SettingsError::KeyCharacters);
    }
    Ok(string_of(k.as_slice()))
}

/// The outcome of submitting the primary AI provider: the three trimmed
/// fields, refused when one is empty, when the URL is not http(s), when the
/// key is not 8 to 200 bytes long, when the model name is not 2 to 100
/// bytes long or holds a character other than a letter, a digit, `-`, `_`,
/// `.`, `:` or `/`.
pub open spec fn ai_settings_spec(base_url: Seq<char>, api_key: Seq<char>, model: Seq<char>) -> Result<
    (Seq<char>, Seq<char>, Seq<char>),
    SettingsError,
> {
    let u = trim(base_url);
    let k = trim(api_key);
    let m = trim(model);
    if u.len() == 0 || k.len() == 0 || m.len() == 0 {
        Err(SettingsError::FieldsRequired)
    } else if !starts_with(u, "http://"@) && !starts_with(u, "https://"@) {
        Err(SettingsError::UrlProtocol)
    } else if byte_len(k) < 8 || byte_len(k) > 200 {
        Err(SettingsError::KeyLength)
    } else if byte_len(m) < 2 || byte_len(m) > 100 {
        Err(SettingsError::ModelLength)
    } else if !all_chars(m, true) {
        Err(SettingsError::ModelCharacters)
    } else {
        Ok((u, k, m))
    }
}

/// Checks the submitted primary AI provider (see `ai_settings_spec`).
pub fn check_ai_settings(base_url: &str, api_key: &str, model: &str) -> (r: Result<(String, String, String), SettingsError>)
    ensures
        match r {
            Ok(t) => ai_settings_spec(base_url@, api_key@, model@) == Ok::<(Seq<char>, Seq<char>, Seq<char>), SettingsError>((t.0@, t.1@, t.2@)),
            Err(e) => ai_settings_spec(base_url@, api_key@, model@) == Err::<(Seq<char>, Seq<char>, Seq<char>), SettingsError>(e),
        },
{
    let u = trim_str(base_url);
    let k = trim_str(api_key);
    let m = trim_str(model);
    if u.len() == 0 || k.len() == 0 || m.len() == 0 {
        return Err(SettingsError::FieldsRequired);
    }
    if !starts_with_str(u.as_slice(), "http://") && !starts_with_str(u.as_slice(), "https://") {
        return Err(SettingsError::UrlProtocol);
    }
    if byte_len_le(k.as_slice(), 7) || !byte_len_le(k.as_slice(), 200) {
        return Err(SettingsError::KeyLength);
    }
    if byte_len_le(m.as_slice(), 1) || !byte_len_le(m.as_slice(), 100) {
        return Err(SettingsError::ModelLength);
    }
    if !chars_allowed(m.as_slice(), true) {
        return Err(SettingsError::ModelCharacters);
    }
    Ok((string_of(u.as_slice()), string_of(k.as_slice()), string_of(m.as_slice())))
}

/// How many fallback slots the settings hold.
pub const FALLBACK_SLOTS: usize = 5;

/// The setting key of one field of fallback slot `slot` (from 1):
/// `FALLBACK_AI_<slot>_<field>`.
pub open spec fn slot_key(slot: nat, field: Seq<char>) -> Seq<char> {
    "FALLBACK_AI_"@ + decimal(slot) + "_"@ + field
}

pub fn slot_key_of(slot: u64, field: &str) -> (r: String)
    ensures
        r@ == slot_key(slot as nat, field@),
{
    let mut r = "FALLBACK_AI_".to_string();
    let n = decimal_string(slot);
    push_str(&mut r, n.as_str());
    push_str(&mut r, "_");
    push_str(&mut r, field);
    r
}

/// One submitted fallback kept for saving, with its slot (its position in
/// the submitted list, from 1).
#[derive(Debug, Clone)]
pub struct FallbackSlot {
    pub slot: u64,
    pub fallback: AiFallback,
}

/// Whether `f` is the submitted entry `j` at position `i` (from 0).
pub open spec fn slot_ok(f: FallbackSlot, j: Json, i: int) -> bool {
    &&& f.slot == i + 1
    &&& f.fallback.name@ == str_or(get(Some(j), "name"@), ""@)
    &&& f.fallback.base_url@ == str_or(get(Some(j), "url"@), ""@)
    &&& f.fallback.api_key@ == str_or(get(Some(j), "key"@), ""@)
    &&& f.fallback.model@ == str_or(get(Some(j), "model"@), ""@)
}

/// Whether submitted entry `j` is saved: it has a URL and a key.
pub open spec fn entry_kept(j: Json) -> bool {
    str_or(get(Some(j), "url"@), ""@).len() > 0 && str_or(get(Some(j), "key"@), ""@).len() > 0
}

/// The positions of the submitted entries that are saved.
pub open spec fn kept_positions(xs: Seq<Json>, n: nat) -> Seq<int>
    decreases n,
{
    if n == 0 {
        Seq::empty()
    } else if entry_kept(xs[n - 1]) {
        kept_positions(xs, (n - 1) as nat).push(n - 1)
    } else {
        kept_positions(xs, (n - 1) as nat)
    }
}

fn member_text(j: &Json, k: &str) -> (r: String)
    ensures
        r@ == str_or(get(Some(*j), k@), ""@),
{
    match crate::json::string_value(get_member(Some(j), k)) {
        Some(s) => s,
        None => "".to_string(),
    }
}

/// The fallbacks of a submitted `fallbacks` array that are saved: those
/// with a URL and a key, each with its position as slot; `None` when the
/// request has no such array. The submitted count is returned too: slots
/// after it are cleared.
pub fn submitted_fallbacks(req: &Json) -> (r: Result<(Vec<FallbackSlot>, usize), SettingsError>)
    ensures
        match items_of(get(Some(*req), "fallbacks"@)) {
            None => r == Err::<(Vec<FallbackSlot>, usize), SettingsError>(SettingsError::FallbacksMissing),
            Some(xs) => r matches Ok((v, n)) && n == xs.len() && v@.len() == kept_positions(xs, xs.len()).len()
                && forall|i: int|
                0 <= i < v@.len() ==> slot_ok(
                    #[trigger] v@[i],
                    xs[kept_positions(xs, xs.len())[i]],
                    kept_positions(xs, xs.len())[i],
                ),
        },
{
    let xs = match array_items(get_member(Some(req), "fallbacks")) {
        Some(xs) => xs,
        None => {
            return Err(SettingsError::FallbacksMissing);
        },
    };
    let mut out: Vec<FallbackSlot> = Vec::new();
    let mut i: usize = 0;
    while i < xs.len()
        invariant
            i <= xs@.len(),
            out@.len() == kept_positions(xs@, i as nat).len(),
            forall|k: int|
                0 <= k < out@.len() ==> slot_ok(
                    #[trigger] out@[k],
                    xs@[kept_positions(xs@, i as nat)[k]],
                    kept_positions(xs@, i as nat)[k],
                ),
        decreases xs@.len() - i,
    {
        let j = &xs[i];
        let name = member_text(j, "name");
        let url = member_text(j, "url");
        let key = member_text(j, "key");
        let model = member_text(j, "model");
        if !url.as_str().is_empty() && !key.as_str().is_empty() {
            out.push(
                FallbackSlot {
                    slot: (i as u64) + 1,
                    fallback: AiFallback { name, base_url: url, api_key: key, model },
                },
            );
        }
        i += 1;
    }
    Ok((out, xs.len()))
}

} // verus!
