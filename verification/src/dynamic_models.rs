//! Dynamic model discovery: providers configured in
//! `~/.grok/settings/dynamic-models.json` get the union of the models their
//! server lists and the models their configuration names, sorted by
//! identifier, each with its configured or discovered metadata.
//!
//! Reading the configuration and querying the servers is done by the host;
//! this module holds the decisions: API backend and API key resolution, the
//! endpoint and header texts, and the provider built from a configuration
//! and the discovered models.

use std::collections::HashMap;
use vstd::prelude::*;

use crate::provider::{
    names_unique, registered, ApiBackend, ModelConfig, ProviderConfig, ProviderRegistry,
};
use crate::text::{
    drop_leading, drop_trailing, sort_texts, starts_with_char, str_eq, texts_sorted, trim_both,
    trim_char, trim_end_char, trim_start_char,
};

verus! {

/// Per-model override from the configuration. Sampling overrides are the
/// bit patterns of `f32` values.
#[derive(Debug, Clone)]
pub struct ModelOverride {
    /// Human-readable display name.
    pub name: Option<String>,
    /// Whether the model supports extended thinking.
    pub reasoning: Option<bool>,
    /// Context window size in tokens.
    pub context_window: Option<u64>,
    /// Maximum output tokens.
    pub max_tokens: Option<u32>,
    /// Temperature override (bits of an `f32`).
    pub temperature_bits: Option<u32>,
    /// Top-p override (bits of an `f32`).
    pub top_p_bits: Option<u32>,
}

/// Server configuration from the configuration file. `models` holds the
/// per-model overrides keyed by model identifier (a JSON object: the keys
/// are distinct).
#[derive(Debug, Clone)]
pub struct ServerConfig {
    /// Provider name (e.g. "local-llm", "ollama").
    pub provider: String,
    /// Server URL (e.g. "http://localhost:11434/v1").
    pub base_url: String,
    /// API key env var name or literal key.
    pub api_key: Option<String>,
    /// API type: "chat_completions", "responses", "messages".
    pub api: Option<String>,
    /// Per-model metadata overrides, keyed by model identifier.
    pub models: Option<Vec<(String, ModelOverride)>>,
}

/// A single model entry from a server's `/models` endpoint.
#[derive(Debug, Clone)]
pub struct ModelEntry {
    pub id: String,
    pub name: Option<String>,
}

// ── Provider name abbreviations ─────────────────────────────────────────────

/// Compact display form of a provider name for the model picker.
pub open spec fn abbreviation(name: Seq<char>) -> Seq<char> {
    if name == "corral-local"@ {
        "corral"@
    } else if name == "local-dgx"@ {
        "dgx"@
    } else if name == "local-dgx-proto"@ {
        "dgx-p"@
    } else if name == "local-llm"@ {
        "llm"@
    } else if name == "nvidproxy"@ {
        "nvid"@
    } else if name == "clinepass"@ {
        "cline"@
    } else {
        name
    }
}

/// Abbreviate provider names for compact display in the model picker.
pub fn abbreviate_provider(name: &str) -> (r: &str)
    ensures
        r@ == abbreviation(name@),
{
    if str_eq(name, "corral-local") {
        "corral"
    } else if str_eq(name, "local-dgx") {
        "dgx"
    } else if str_eq(name, "local-dgx-proto") {
        "dgx-p"
    } else if str_eq(name, "local-llm") {
        "llm"
    } else if str_eq(name, "nvidproxy") {
        "nvid"
    } else if str_eq(name, "clinepass") {
        "cline"
    } else {
        name
    }
}

// ── API backend and key ─────────────────────────────────────────────────────

/// The API backend named by the configuration's `api` field:
/// `"responses"` and `"messages"` select those APIs, anything else (and
/// no value) selects chat completions.
pub open spec fn api_backend_of(api: Option<Seq<char>>) -> ApiBackend {
    match api {
        Some(a) => if a == "responses"@ {
            ApiBackend::Responses
        } else if a == "messages"@ {
            ApiBackend::Messages
        } else {
            ApiBackend::ChatCompletions
        },
        None => ApiBackend::ChatCompletions,
    }
}

/// Parse an API backend string to the `ApiBackend` enum.
pub fn parse_api_backend(api: Option<&str>) -> (r: ApiBackend)
    ensures
        r == api_backend_of(
            match api {
                Some(a) => Some(a@),
                None => None,
            },
        ),
{
    match api {
        None => ApiBackend::ChatCompletions,
        Some(a) => {
            if str_eq(a, "responses") {
                ApiBackend::Responses
            } else if str_eq(a, "messages") {
                ApiBackend::Messages
            } else {
                ApiBackend::ChatCompletions
            }
        },
    }
}

/// Where an API key comes from.
#[derive(Debug, Clone)]
pub enum ApiKeySource {
    /// No authentication.
    NoAuth,
    /// The value of the named environment variable, if set.
    EnvVar(String),
    /// The value of the named environment variable if set, else the name
    /// itself as a literal key.
    EnvVarOrLiteral(String),
    /// A literal key.
    Literal(String),
}

/// Every character is an ASCII capital letter or `_`.
pub open spec fn upper_snake(s: Seq<char>) -> bool {
    forall|i: int| 0 <= i < s.len() ==> ('A' <= #[trigger] s[i] <= 'Z' || s[i] == '_')
}

/// The variable name of a `$NAME` or `${NAME}` reference.
pub open spec fn env_reference_name(key: Seq<char>) -> Seq<char> {
    trim_both(trim_both(drop_leading(key, '$'), '{'), '}')
}

/// The source of the configured key `key`: `none`, an empty key or no key
/// means no authentication; `$NAME` / `${NAME}` names an environment
/// variable; a name in capitals and underscores is tried as a variable and
/// else used literally; anything else is a literal key.
pub open spec fn api_key_source_of(key: Option<Seq<char>>, r: ApiKeySource) -> bool {
    match key {
        None => r is NoAuth,
        Some(k) => if k.len() == 0 || k == "none"@ {
            r is NoAuth
        } else if k[0] == '$' {
            r matches ApiKeySource::EnvVar(n) && n@ == env_reference_name(k)
        } else if upper_snake(k) {
            r matches ApiKeySource::EnvVarOrLiteral(n) && n@ == k
        } else {
            r matches ApiKeySource::Literal(n) && n@ == k
        },
    }
}

fn is_upper_snake(s: &str) -> (r: bool)
    ensures
        r == upper_snake(s@),
{
    let n = s.unicode_len();
    let mut i: usize = 0;
    while i < n
        invariant
            n == s@.len(),
            i <= n,
            forall|j: int| 0 <= j < i ==> ('A' <= #[trigger] s@[j] <= 'Z' || s@[j] == '_'),
        decreases n - i,
    {
        let c = s.get_char(i);
        if !((c >= 'A' && c <= 'Z') || c == '_') {
            return false;
        }
        i = i + 1;
    }
    true
}

/// Classify a configured API key.
pub fn api_key_source(api_key: Option<&str>) -> (r: ApiKeySource)
    ensures
        api_key_source_of(
            match api_key {
                Some(k) => Some(k@),
                None => None,
            },
            r,
        ),
{
    let key = match api_key {
        None => {
            return ApiKeySource::NoAuth;
        },
        Some(k) => k,
    };
    if key.is_empty() || str_eq(key, "none") {
        return ApiKeySource::NoAuth;
    }
    if starts_with_char(key, '$') {
        let name = trim_char(trim_char(trim_start_char(key, '$'), '{'), '}');
        return ApiKeySource::EnvVar(name.to_string());
    }
    if is_upper_snake(key) {
        return ApiKeySource::EnvVarOrLiteral(key.to_string());
    }
    ApiKeySource::Literal(key.to_string())
}

/// The API key given the source and the value of the environment variable
/// it names (`None` when unset, or when the source names none).
pub fn resolve_api_key_with(source: ApiKeySource, env_value: Option<String>) -> (r: Option<String>)
    ensures
        match source {
            ApiKeySource::NoAuth => r is None,
            ApiKeySource::EnvVar(_) => r == env_value,
            ApiKeySource::EnvVarOrLiteral(name) => match env_value {
                Some(v) => r == Some(v),
                None => r == Some(name),
            },
            ApiKeySource::Literal(k) => r == Some(k),
        },
{
    match source {
        ApiKeySource::NoAuth => None,
        ApiKeySource::EnvVar(_) => env_value,
        ApiKeySource::EnvVarOrLiteral(name) => match env_value {
            Some(v) => Some(v),
            None => Some(name),
        },
        ApiKeySource::Literal(k) => Some(k),
    }
}

// ── Endpoint texts ──────────────────────────────────────────────────────────

/// The models endpoint of a server: its URL without trailing slashes,
/// followed by `/models`.
pub fn models_endpoint(base_url: &str) -> (r: String)
    ensures
        r@ == drop_trailing(base_url@, '/') + "/models"@,
{
    let mut url = trim_end_char(base_url, '/').to_string();
    url.append("/models");
    url
}

/// The `Authorization` header value for a bearer key.
pub fn bearer_authorization(key: &str) -> (r: String)
    ensures
        r@ == "Bearer "@ + key@,
{
    let mut value = "Bearer ".to_string();
    value.append(key);
    value
}

/// Whether an HTTP status is a success (2xx).
pub fn is_success_status(status: u16) -> (r: bool)
    ensures
        r == (200 <= status < 300),
{
    status >= 200 && status < 300
}

// ── Model discovery ─────────────────────────────────────────────────────────

/// Identifiers of the discovered models, in order.
pub open spec fn discovered_ids(d: Seq<ModelEntry>) -> Seq<String> {
    Seq::new(d.len(), |i: int| d[i].id)
}

/// Identifiers named by the configuration's overrides, in order.
pub open spec fn configured_ids(c: ServerConfig) -> Seq<String> {
    match c.models {
        Some(v) => Seq::new(v@.len(), |i: int| v@[i].0),
        None => Seq::empty(),
    }
}

/// Some text of `ids` equals `t`.
pub open spec fn has_text(ids: Seq<String>, t: Seq<char>) -> bool {
    exists|i: int| 0 <= i < ids.len() && ids[i]@ == t
}

/// `ids` followed by each of `keys`, in order, that is not already there.
pub open spec fn add_missing(ids: Seq<String>, keys: Seq<String>) -> Seq<String>
    decreases keys.len(),
{
    if keys.len() == 0 {
        ids
    } else {
        let base = add_missing(ids, keys.drop_last());
        if has_text(base, keys.last()@) {
            base
        } else {
            base.push(keys.last())
        }
    }
}

/// The union of discovered and configured model identifiers (before
/// sorting).
pub open spec fn model_ids(c: ServerConfig, d: Seq<ModelEntry>) -> Seq<String> {
    add_missing(discovered_ids(d), configured_ids(c))
}

/// The override configured for `id` (the first entry with that key).
pub open spec fn override_for(entries: Seq<(String, ModelOverride)>, id: Seq<char>) -> Option<
    ModelOverride,
>
    decreases entries.len(),
{
    if entries.len() == 0 {
        None
    } else {
        match override_for(entries.drop_last(), id) {
            Some(o) => Some(o),
            None => if entries.last().0@ == id {
                Some(entries.last().1)
            } else {
                None
            },
        }
    }
}

/// The override the configuration holds for `id`, if any.
pub open spec fn configured_override(c: ServerConfig, id: Seq<char>) -> Option<ModelOverride> {
    match c.models {
        Some(v) => override_for(v@, id),
        None => None,
    }
}

/// The discovered entry for `id`: the last one listed with that identifier.
pub open spec fn discovered_for(d: Seq<ModelEntry>, id: Seq<char>) -> Option<ModelEntry>
    decreases d.len(),
{
    if d.len() == 0 {
        None
    } else if d.last().id@ == id {
        Some(d.last())
    } else {
        discovered_for(d.drop_last(), id)
    }
}

/// Display name of a model: the configured name, else the discovered name,
/// else the identifier.
pub open spec fn display_name(o: Option<ModelOverride>, e: Option<ModelEntry>, id: Seq<char>) -> Seq<
    char,
> {
    if o is Some && o.unwrap().name is Some {
        o.unwrap().name.unwrap()@
    } else if e is Some && e.unwrap().name is Some {
        e.unwrap().name.unwrap()@
    } else {
        id
    }
}

/// `m` is the model built for `id` from the configuration `c` and the
/// discovered models `d`: named `"{abbreviated provider}: {display name}"`,
/// with a 128000-token context window unless configured, configured output
/// limit, reasoning flag (default off) and sampling overrides.
pub open spec fn dynamic_model(m: ModelConfig, c: ServerConfig, d: Seq<ModelEntry>, id: String) -> bool {
    let o = configured_override(c, id@);
    let e = discovered_for(d, id@);
    &&& m.id == id
    &&& m.name@ == abbreviation(c.provider@) + ": "@ + display_name(o, e, id@)
    &&& m.context_window == match o {
        Some(ov) => match ov.context_window {
            Some(w) => w,
            None => 128_000u64,
        },
        None => 128_000u64,
    }
    &&& m.max_completion_tokens == match o {
        Some(ov) => ov.max_tokens,
        None => None,
    }
    &&& m.reasoning == match o {
        Some(ov) => ov.reasoning == Some(true),
        None => false,
    }
    &&& m.temperature_bits == match o {
        Some(ov) => ov.temperature_bits,
        None => None,
    }
    &&& m.top_p_bits == match o {
        Some(ov) => ov.top_p_bits,
        None => None,
    }
}

/// `p` is the provider built from `c` and `d` with the models `ids`: the
/// configured name, the base URL without trailing slashes, the configured
/// API backend, no auth variable, the single header
/// `Accept: application/json`, and one model per identifier, in order.
pub open spec fn dynamic_provider(
    p: ProviderConfig,
    c: ServerConfig,
    d: Seq<ModelEntry>,
    ids: Seq<String>,
) -> bool {
    &&& p.name@ == c.provider@
    &&& p.base_url@ == drop_trailing(c.base_url@, '/')
    &&& p.api_backend == api_backend_of(
        match c.api {
            Some(a) => Some(a@),
            None => None,
        },
    )
    &&& p.auth_env_var is None
    &&& exists|k: String, v: String|
        k@ == "Accept"@ && v@ == "application/json"@ && p.extra_headers@ == Map::<
            String,
            String,
        >::empty().insert(k, v)
    &&& p.models@.len() == ids.len()
    &&& forall|k: int| 0 <= k < ids.len() ==> dynamic_model(#[trigger] p.models@[k], c, d, ids[k])
}

/// `HashMap::insert` on a map keyed by `String`: the map afterwards maps
/// `k` to `v` and is otherwise unchanged.
#[verifier::external_body]
fn insert_header(m: &mut HashMap<String, String>, k: String, v: String)
    ensures
        final(m)@ == old(m)@.insert(k, v),
{
    m.insert(k, v);
}

fn contains_text(ids: &Vec<String>, t: &str) -> (r: bool)
    ensures
        r == has_text(ids@, t@),
{
    let mut i: usize = 0;
    while i < ids.len()
        invariant
            i <= ids@.len(),
            forall|j: int| 0 <= j < i ==> ids@[j]@ != t@,
        decreases ids@.len() - i,
    {
        if str_eq(ids[i].as_str(), t) {
            return true;
        }
        i = i + 1;
    }
    false
}

fn collect_model_ids(config: &ServerConfig, discovered: &[ModelEntry]) -> (r: Vec<String>)
    ensures
        r@ == model_ids(*config, discovered@),
{
    let mut ids: Vec<String> = Vec::new();
    let mut i: usize = 0;
    while i < discovered.len()
        invariant
            i <= discovered@.len(),
            ids@ == discovered_ids(discovered@.take(i as int)),
        decreases discovered@.len() - i,
    {
        ids.push(discovered[i].id.clone());
        proof {
            assert(ids@ =~= discovered_ids(discovered@.take(i + 1)));
        }
        i = i + 1;
    }
    proof {
        assert(discovered@.take(i as int) =~= discovered@);
    }
    let ghost base = ids@;
    match &config.models {
        None => {
            proof {
                assert(configured_ids(*config) =~= Seq::<String>::empty());
            }
        },
        Some(entries) => {
            let ghost keys = configured_ids(*config);
            let mut j: usize = 0;
            while j < entries.len()
                invariant
                    keys == Seq::new(entries@.len(), |m: int| entries@[m].0),
                    j <= entries@.len(),
                    ids@ == add_missing(base, keys.take(j as int)),
                decreases entries@.len() - j,
            {
                let key = &entries[j].0;
                proof {
                    assert(keys.take(j + 1).drop_last() =~= keys.take(j as int));
                    assert(keys.take(j + 1).last() == *key);
                }
                if !contains_text(&ids, key.as_str()) {
                    ids.push(key.clone());
                }
                j = j + 1;
            }
            proof {
                assert(keys.take(j as int) =~= keys);
            }
        },
    }
    ids
}

fn find_override<'a>(entries: &'a Vec<(String, ModelOverride)>, id: &str) -> (r: Option<
    &'a ModelOverride,
>)
    ensures
        match override_for(entries@, id@) {
            Some(o) => r is Some && *r.unwrap() == o,
            None => r is None,
        },
{
    let mut i: usize = 0;
    while i < entries.len()
        invariant
            i <= entries@.len(),
            override_for(entries@.take(i as int), id@) is None,
        decreases entries@.len() - i,
    {
        proof {
            assert(entries@.take(i + 1).drop_last() =~= entries@.take(i as int));
        }
        if str_eq(entries[i].0.as_str(), id) {
            proof {
                lemma_override_prefix(entries@, i as int + 1, id@);
            }
            return Some(&entries[i].1);
        }
        i = i + 1;
    }
    proof {
        assert(entries@.take(i as int) =~= entries@);
    }
    None
}

/// A found override is unaffected by the entries after it.
proof fn lemma_override_prefix(entries: Seq<(String, ModelOverride)>, n: int, id: Seq<char>)
    requires
        0 <= n <= entries.len(),
        override_for(entries.take(n), id) is Some,
    ensures
        override_for(entries, id) == override_for(entries.take(n), id),
    decreases entries.len() - n,
{
    if n < entries.len() {
        assert(entries.take(n + 1).drop_last() =~= entries.take(n));
        lemma_override_prefix(entries, n + 1, id);
    } else {
        assert(entries.take(n) =~= entries);
    }
}

fn find_discovered<'a>(discovered: &'a [ModelEntry], id: &str) -> (r: Option<&'a ModelEntry>)
    ensures
        match discovered_for(discovered@, id@) {
            Some(e) => r is Some && *r.unwrap() == e,
            None => r is None,
        },
{
    let mut found: Option<usize> = None;
    let mut i: usize = 0;
    while i < discovered.len()
        invariant
            i <= discovered@.len(),
            match discovered_for(discovered@.take(i as int), id@) {
                Some(e) => found is Some && found.unwrap() < i && discovered@[found.unwrap() as int]
                    == e,
                None => found is None,
            },
        decreases discovered@.len() - i,
    {
        proof {
            assert(discovered@.take(i + 1).drop_last() =~= discovered@.take(i as int));
            assert(discovered@.take(i + 1).last() == discovered@[i as int]);
        }
        if str_eq(discovered[i].id.as_str(), id) {
            found = Some(i);
        }
        i = i + 1;
    }
    proof {
        assert(discovered@.take(i as int) =~= discovered@);
    }
    match found {
        Some(k) => Some(&discovered[k]),
        None => None,
    }
}

fn dynamic_model_config(config: &ServerConfig, discovered: &[ModelEntry], id: &String) -> (r:
    ModelConfig)
    ensures
        dynamic_model(r, *config, discovered@, *id),
{
    let o: Option<&ModelOverride> = match &config.models {
        Some(entries) => find_override(entries, id.as_str()),
        None => None,
    };
    let e = find_discovered(discovered, id.as_str());
    let mut display = id.clone();
    match e {
        Some(en) => match &en.name {
            Some(n) => {
                display = n.clone();
            },
            None => {},
        },
        None => {},
    }
    match o {
        Some(ov) => match &ov.name {
            Some(n) => {
                display = n.clone();
            },
            None => {},
        },
        None => {},
    }
    let mut name = abbreviate_provider(config.provider.as_str()).to_string();
    name.append(": ");
    name.append(display.as_str());
    match o {
        Some(ov) => ModelConfig {
            id: id.clone(),
            name,
            context_window: match ov.context_window {
                Some(w) => w,
                None => 128_000,
            },
            max_completion_tokens: ov.max_tokens,
            reasoning: match ov.reasoning {
                Some(b) => b,
                None => false,
            },
            temperature_bits: ov.temperature_bits,
            top_p_bits: ov.top_p_bits,
        },
        None => ModelConfig {
            id: id.clone(),
            name,
            context_window: 128_000,
            max_completion_tokens: None,
            reasoning: false,
            temperature_bits: None,
            top_p_bits: None,
        },
    }
}

/// Register a provider with the union of its discovered and configured
/// models, sorted by identifier. Nothing is registered when there are no
/// models at all.
pub fn register_provider(
    registry: &mut ProviderRegistry,
    config: &ServerConfig,
    discovered: &[ModelEntry],
    _api_key: Option<String>,
)
    ensures
        names_unique(final(registry).providers()),
        model_ids(*config, discovered@).len() == 0 ==> final(registry).providers() == old(
            registry,
        ).providers(),
        model_ids(*config, discovered@).len() > 0 ==> exists|p: ProviderConfig, ids: Seq<String>|
            ids.to_multiset() == model_ids(*config, discovered@).to_multiset() && texts_sorted(ids)
                && dynamic_provider(p, *config, discovered@, ids) && final(registry).providers()
                == registered(old(registry).providers(), p),
{
    proof {
        use_type_invariant(&*registry);
    }
    broadcast use vstd::seq_lib::group_to_multiset_ensures;

    let api_backend = parse_api_backend(
        match &config.api {
            Some(a) => Some(a.as_str()),
            None => None,
        },
    );
    let mut all_ids = collect_model_ids(config, discovered);
    let ghost unsorted = all_ids@;
    sort_texts(&mut all_ids);
    if all_ids.len() == 0 {
        proof {
            assert(unsorted.to_multiset().len() == 0);
        }
        return ;
    }
    let mut models: Vec<ModelConfig> = Vec::new();
    let mut i: usize = 0;
    while i < all_ids.len()
        invariant
            i <= all_ids@.len(),
            models@.len() == i,
            forall|k: int|
                0 <= k < i ==> dynamic_model(#[trigger] models@[k], *config, discovered@, all_ids@[k]),
        decreases all_ids@.len() - i,
    {
        models.push(dynamic_model_config(config, discovered, &all_ids[i]));
        i = i + 1;
    }
    let mut extra_headers: HashMap<String, String> = HashMap::new();
    let accept = "Accept".to_string();
    let json = "application/json".to_string();
    let ghost k = accept;
    let ghost v = json;
    insert_header(&mut extra_headers, accept, json);
    let provider_config = ProviderConfig {
        name: config.provider.clone(),
        base_url: trim_end_char(config.base_url.as_str(), '/').to_string(),
        api_backend,
        auth_env_var: None,
        extra_headers,
        models,
    };
    let ghost p = provider_config;
    proof {
        assert(unsorted.to_multiset().len() == unsorted.len());
        assert(dynamic_provider(p, *config, discovered@, all_ids@));
    }
    registry.register(provider_config);
}

// ── Laws ────────────────────────────────────────────────────────────────────

/// The override configured at `j` is found for its key when no entry before
/// it has that key.
proof fn lemma_override_at(entries: Seq<(String, ModelOverride)>, j: int, id: Seq<char>)
    requires
        0 <= j < entries.len(),
        entries[j].0@ == id,
        forall|i: int| 0 <= i < j ==> (#[trigger] entries[i]).0@ != id,
    ensures
        override_for(entries, id) == Some(entries[j].1),
    decreases entries.len(),
{
    if j < entries.len() - 1 {
        assert forall|i: int| 0 <= i < j implies (#[trigger] entries.drop_last()[i]).0@ != id by {
            assert(entries.drop_last()[i] == entries[i]);
        }
        assert(entries.drop_last()[j] == entries[j]);
        lemma_override_at(entries.drop_last(), j, id);
    } else {
        lemma_override_absent(entries.drop_last(), id);
    }
}

/// No override is found for a key that no entry has.
proof fn lemma_override_absent(entries: Seq<(String, ModelOverride)>, id: Seq<char>)
    requires
        forall|i: int| 0 <= i < entries.len() ==> (#[trigger] entries[i]).0@ != id,
    ensures
        override_for(entries, id) is None,
    decreases entries.len(),
{
    if entries.len() > 0 {
        assert forall|i: int| 0 <= i < entries.len() - 1 implies (
        #[trigger] entries.drop_last()[i]).0@ != id by {
            assert(entries.drop_last()[i] == entries[i]);
        }
        lemma_override_absent(entries.drop_last(), id);
    }
}

/// A found override is one of the entries with that key.
proof fn lemma_override_found(entries: Seq<(String, ModelOverride)>, id: Seq<char>)
    ensures
        override_for(entries, id) matches Some(o) ==> exists|j: int|
            0 <= j < entries.len() && (#[trigger] entries[j]).0@ == id && entries[j].1 == o,
    decreases entries.len(),
{
    if entries.len() > 0 {
        lemma_override_found(entries.drop_last(), id);
        if let Some(o) = override_for(entries.drop_last(), id) {
            let j = choose|j: int|
                0 <= j < entries.drop_last().len() && (#[trigger] entries.drop_last()[j]).0@ == id
                    && entries.drop_last()[j].1 == o;
            assert(entries[j] == entries.drop_last()[j]);
        } else if entries.last().0@ == id {
            assert(entries[entries.len() - 1] == entries.last());
        }
    }
}

/// The discovered entry at `m` is the one used for its identifier when no
/// later entry has that identifier.
proof fn lemma_discovered_at(d: Seq<ModelEntry>, m: int, id: Seq<char>)
    requires
        0 <= m < d.len(),
        d[m].id@ == id,
        forall|i: int| m < i < d.len() ==> (#[trigger] d[i]).id@ != id,
    ensures
        discovered_for(d, id) == Some(d[m]),
    decreases d.len(),
{
    if m < d.len() - 1 {
        assert(d.last() == d[d.len() - 1]);
        assert forall|i: int| m < i < d.drop_last().len() implies (#[trigger] d.drop_last()[i]).id@
            != id by {
            assert(d.drop_last()[i] == d[i]);
        }
        assert(d.drop_last()[m] == d[m]);
        lemma_discovered_at(d.drop_last(), m, id);
    }
}

/// A discovered entry used for an identifier is one listed with it.
proof fn lemma_discovered_found(d: Seq<ModelEntry>, id: Seq<char>)
    ensures
        discovered_for(d, id) matches Some(e) ==> exists|m: int|
            0 <= m < d.len() && #[trigger] d[m] == e && e.id@ == id,
    decreases d.len(),
{
    if d.len() > 0 {
        lemma_discovered_found(d.drop_last(), id);
        if d.last().id@ == id {
            assert(d[d.len() - 1] == d.last());
        } else if let Some(e) = discovered_for(d.drop_last(), id) {
            let m = choose|m: int| 0 <= m < d.drop_last().len() && #[trigger] d.drop_last()[m] == e && e.id@ == id;
            assert(d[m] == d.drop_last()[m]);
        }
    }
}

/// The configured name wins: when the configuration's override for a model
/// identifier (the first entry with that key) has a name, the registered
/// model is named "{abbreviated provider}: {that name}", whatever name the
/// server lists for the identifier.
pub proof fn law_configured_name_wins(
    p: ProviderConfig,
    c: ServerConfig,
    d: Seq<ModelEntry>,
    ids: Seq<String>,
    k: int,
    j: int,
)
    requires
        dynamic_provider(p, c, d, ids),
        0 <= k < ids.len(),
        c.models is Some,
        0 <= j < c.models.unwrap()@.len(),
        c.models.unwrap()@[j].0@ == ids[k]@,
        forall|i: int| 0 <= i < j ==> (#[trigger] c.models.unwrap()@[i]).0@ != ids[k]@,
        c.models.unwrap()@[j].1.name is Some,
    ensures
        p.models@[k].id == ids[k],
        p.models@[k].name@ == abbreviation(c.provider@) + ": "@ + c.models.unwrap()@[j].1.name.unwrap()@,
{
    assert(dynamic_model(p.models@[k], c, d, ids[k]));
    lemma_override_at(c.models.unwrap()@, j, ids[k]@);
}

/// Without a configured name for an identifier, the name the server lists
/// for it (the last listing of that identifier) is used.
pub proof fn law_discovered_name_without_configured_name(
    p: ProviderConfig,
    c: ServerConfig,
    d: Seq<ModelEntry>,
    ids: Seq<String>,
    k: int,
    m: int,
)
    requires
        dynamic_provider(p, c, d, ids),
        0 <= k < ids.len(),
        c.models matches Some(v) ==> forall|j: int|
            0 <= j < v@.len() && (#[trigger] v@[j]).0@ == ids[k]@ ==> v@[j].1.name is None,
        0 <= m < d.len(),
        d[m].id@ == ids[k]@,
        forall|i: int| m < i < d.len() ==> (#[trigger] d[i]).id@ != ids[k]@,
        d[m].name is Some,
    ensures
        p.models@[k].name@ == abbreviation(c.provider@) + ": "@ + d[m].name.unwrap()@,
{
    assert(dynamic_model(p.models@[k], c, d, ids[k]));
    if let Some(v) = c.models {
        lemma_override_found(v@, ids[k]@);
    }
    lemma_discovered_at(d, m, ids[k]@);
}

/// Without a configured or a listed name, a model is named after its
/// identifier.
pub proof fn law_identifier_name_without_other_names(
    p: ProviderConfig,
    c: ServerConfig,
    d: Seq<ModelEntry>,
    ids: Seq<String>,
    k: int,
)
    requires
        dynamic_provider(p, c, d, ids),
        0 <= k < ids.len(),
        c.models matches Some(v) ==> forall|j: int|
            0 <= j < v@.len() && (#[trigger] v@[j]).0@ == ids[k]@ ==> v@[j].1.name is None,
        forall|m: int| 0 <= m < d.len() && (#[trigger] d[m]).id@ == ids[k]@ ==> d[m].name is None,
    ensures
        p.models@[k].name@ == abbreviation(c.provider@) + ": "@ + ids[k]@,
{
    assert(dynamic_model(p.models@[k], c, d, ids[k]));
    if let Some(v) = c.models {
        lemma_override_found(v@, ids[k]@);
    }
    lemma_discovered_found(d, ids[k]@);
}

/// The override configured for a model identifier (the first entry with
/// that key) gives the model's context window (128000 tokens when it sets
/// none), output limit, reasoning flag (on only when set to `true`) and
/// sampling overrides.
pub proof fn law_configured_limits_apply(
    p: ProviderConfig,
    c: ServerConfig,
    d: Seq<ModelEntry>,
    ids: Seq<String>,
    k: int,
    j: int,
)
    requires
        dynamic_provider(p, c, d, ids),
        0 <= k < ids.len(),
        c.models is Some,
        0 <= j < c.models.unwrap()@.len(),
        c.models.unwrap()@[j].0@ == ids[k]@,
        forall|i: int| 0 <= i < j ==> (#[trigger] c.models.unwrap()@[i]).0@ != ids[k]@,
    ensures
        ({
            let o = c.models.unwrap()@[j].1;
            let m = p.models@[k];
            &&& m.context_window == (if o.context_window is Some {
                o.context_window.unwrap()
            } else {
                128_000u64
            })
            &&& m.max_completion_tokens == o.max_tokens
            &&& m.reasoning == (o.reasoning == Some(true))
            &&& m.temperature_bits == o.temperature_bits
            &&& m.top_p_bits == o.top_p_bits
        }),
{
    assert(dynamic_model(p.models@[k], c, d, ids[k]));
    lemma_override_at(c.models.unwrap()@, j, ids[k]@);
}

/// A model without a configured override gets the defaults: a 128000-token
/// context window, the provider's output limit, no reasoning and no
/// sampling overrides.
pub proof fn law_defaults_without_override(
    p: ProviderConfig,
    c: ServerConfig,
    d: Seq<ModelEntry>,
    ids: Seq<String>,
    k: int,
)
    requires
        dynamic_provider(p, c, d, ids),
        0 <= k < ids.len(),
        c.models matches Some(v) ==> forall|j: int|
            0 <= j < v@.len() ==> (#[trigger] v@[j]).0@ != ids[k]@,
    ensures
        p.models@[k].context_window == 128_000,
        p.models@[k].max_completion_tokens is None,
        !p.models@[k].reasoning,
        p.models@[k].temperature_bits is None,
        p.models@[k].top_p_bits is None,
{
    assert(dynamic_model(p.models@[k], c, d, ids[k]));
    if let Some(v) = c.models {
        lemma_override_absent(v@, ids[k]@);
    }
}

} // verus!
