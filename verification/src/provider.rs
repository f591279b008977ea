//! Provider types for the extension API.
//!
//! Extensions register custom model providers in a [`ProviderRegistry`].
//! Provider names are unique: registering a provider whose name is already
//! present replaces it (last write wins).

use std::collections::HashMap;
use vstd::prelude::*;

use crate::text::{first_index_of, split_once_char, str_eq};

verus! {

/// API protocol for a custom provider.
#[derive(Debug, Clone, Copy, PartialEq, Eq, Structural)]
pub enum ApiBackend {
    /// OpenAI Chat Completions API (`/v1/chat/completions`).
    ChatCompletions,
    /// OpenAI Responses API (`/v1/responses`).
    Responses,
    /// Anthropic Messages API (`/v1/messages`).
    Messages,
}

/// Configuration for a single model offered by a custom provider.
///
/// Sampling overrides are kept as the IEEE-754 bit patterns of the `f32`
/// values (`f32::to_bits`); the library only carries them.
#[derive(Debug, Clone)]
pub struct ModelConfig {
    /// Model identifier used in API requests (e.g. "llama3.1").
    pub id: String,
    /// Human-readable display name (e.g. "Llama 3.1").
    pub name: String,
    /// Total context window size in tokens.
    pub context_window: u64,
    /// Maximum output tokens. `None` uses the provider's default.
    pub max_completion_tokens: Option<u32>,
    /// Whether this model supports extended thinking / reasoning.
    pub reasoning: bool,
    /// Temperature override (bits of an `f32`). `None` uses the provider's default.
    pub temperature_bits: Option<u32>,
    /// Top-p override (bits of an `f32`). `None` uses the provider's default.
    pub top_p_bits: Option<u32>,
}

impl Default for ModelConfig {
    fn default() -> (r: Self)
        ensures
            r.id@ == Seq::<char>::empty(),
            r.name@ == Seq::<char>::empty(),
            r.context_window == 128_000,
            r.max_completion_tokens == Some(4096u32),
            !r.reasoning,
            r.temperature_bits is None,
            r.top_p_bits is None,
    {
        ModelConfig {
            id: String::new(),
            name: String::new(),
            context_window: 128_000,
            max_completion_tokens: Some(4096),
            reasoning: false,
            temperature_bits: None,
            top_p_bits: None,
        }
    }
}

/// A custom model provider registered by an extension.
#[derive(Debug, Clone)]
pub struct ProviderConfig {
    /// Unique provider name (e.g. "ollama"), used in `provider/model` references.
    pub name: String,
    /// API endpoint URL (e.g. "http://localhost:11434/v1").
    pub base_url: String,
    /// Which API protocol this provider speaks.
    pub api_backend: ApiBackend,
    /// Environment variable containing the API key, if any.
    pub auth_env_var: Option<String>,
    /// Extra request headers.
    pub extra_headers: HashMap<String, String>,
    /// Models available from this provider.
    pub models: Vec<ModelConfig>,
}

// ── Lookup specifications ───────────────────────────────────────────────────

/// Position of the provider named `name` (the first one, if several).
pub open spec fn name_index(s: Seq<ProviderConfig>, name: Seq<char>) -> Option<int>
    decreases s.len(),
{
    if s.len() == 0 {
        None
    } else {
        match name_index(s.drop_last(), name) {
            Some(i) => Some(i),
            None => if s.last().name@ == name {
                Some(s.len() - 1)
            } else {
                None
            },
        }
    }
}

/// Position of the first model with identifier `id`.
pub open spec fn model_index(ms: Seq<ModelConfig>, id: Seq<char>) -> Option<int>
    decreases ms.len(),
{
    if ms.len() == 0 {
        None
    } else {
        match model_index(ms.drop_last(), id) {
            Some(j) => Some(j),
            None => if ms.last().id@ == id {
                Some(ms.len() - 1)
            } else {
                None
            },
        }
    }
}

/// Position of the first provider offering a model with identifier `id`.
pub open spec fn provider_offering(s: Seq<ProviderConfig>, id: Seq<char>) -> Option<int>
    decreases s.len(),
{
    if s.len() == 0 {
        None
    } else {
        match provider_offering(s.drop_last(), id) {
            Some(i) => Some(i),
            None => if model_index(s.last().models@, id) is Some {
                Some(s.len() - 1)
            } else {
                None
            },
        }
    }
}

/// `name_index` gives the least position holding `name`.
pub proof fn lemma_name_index(s: Seq<ProviderConfig>, name: Seq<char>)
    ensures
        match name_index(s, name) {
            Some(i) => 0 <= i < s.len() && s[i].name@ == name && forall|j: int|
                0 <= j < i ==> s[j].name@ != name,
            None => forall|j: int| 0 <= j < s.len() ==> s[j].name@ != name,
        },
    decreases s.len(),
{
    if s.len() > 0 {
        lemma_name_index(s.drop_last(), name);
        assert forall|j: int| 0 <= j < s.len() - 1 implies s.drop_last()[j] == s[j] by {}
    }
}

/// `model_index` gives the least position holding `id`.
pub proof fn lemma_model_index(ms: Seq<ModelConfig>, id: Seq<char>)
    ensures
        match model_index(ms, id) {
            Some(j) => 0 <= j < ms.len() && ms[j].id@ == id && forall|m: int|
                0 <= m < j ==> ms[m].id@ != id,
            None => forall|m: int| 0 <= m < ms.len() ==> ms[m].id@ != id,
        },
    decreases ms.len(),
{
    if ms.len() > 0 {
        lemma_model_index(ms.drop_last(), id);
        assert forall|j: int| 0 <= j < ms.len() - 1 implies ms.drop_last()[j] == ms[j] by {}
    }
}

/// `provider_offering` gives the least position of a provider offering `id`.
pub proof fn lemma_provider_offering(s: Seq<ProviderConfig>, id: Seq<char>)
    ensures
        match provider_offering(s, id) {
            Some(i) => 0 <= i < s.len() && model_index(s[i].models@, id) is Some && forall|j: int|
                0 <= j < i ==> model_index(s[j].models@, id) is None,
            None => forall|j: int| 0 <= j < s.len() ==> model_index(s[j].models@, id) is None,
        },
    decreases s.len(),
{
    if s.len() > 0 {
        lemma_provider_offering(s.drop_last(), id);
        assert forall|j: int| 0 <= j < s.len() - 1 implies s.drop_last()[j] == s[j] by {}
    }
}

/// The provider named `name`, if registered.
pub open spec fn lookup(s: Seq<ProviderConfig>, name: Seq<char>) -> Option<ProviderConfig> {
    match name_index(s, name) {
        Some(i) => Some(s[i]),
        None => None,
    }
}

/// No two providers share a name.
pub open spec fn names_unique(s: Seq<ProviderConfig>) -> bool {
    forall|i: int, j: int| 0 <= i < j < s.len() ==> s[i].name@ != s[j].name@
}

/// The providers after registering `c`: it replaces the provider of the
/// same name in place, or is appended.
pub open spec fn registered(s: Seq<ProviderConfig>, c: ProviderConfig) -> Seq<ProviderConfig> {
    match name_index(s, c.name@) {
        Some(i) => s.update(i, c),
        None => s.push(c),
    }
}

/// The providers after removing the one named `name`.
pub open spec fn unregistered(s: Seq<ProviderConfig>, name: Seq<char>) -> Seq<ProviderConfig> {
    match name_index(s, name) {
        Some(i) => s.remove(i),
        None => s,
    }
}

/// Resolution of a model reference to (provider position, model position).
///
/// `"provider/model_id"` (split at the first `/`) looks in the named
/// provider only; a reference without `/` is searched across all providers
/// in registration order.
pub open spec fn resolve(s: Seq<ProviderConfig>, reference: Seq<char>) -> Option<(int, int)> {
    match first_index_of(reference, '/') {
        Some(k) => match name_index(s, reference.take(k)) {
            Some(i) => match model_index(s[i].models@, reference.skip(k + 1)) {
                Some(j) => Some((i, j)),
                None => None,
            },
            None => None,
        },
        None => match provider_offering(s, reference) {
            Some(i) => Some((i, model_index(s[i].models@, reference).unwrap())),
            None => None,
        },
    }
}

/// The models `ms`, each paired with the provider name `name`.
pub open spec fn tagged_models(name: Seq<char>, ms: Seq<ModelConfig>) -> Seq<(Seq<char>, ModelConfig)> {
    Seq::new(ms.len(), |k: int| (name, ms[k]))
}

/// Every model of every provider, paired with its provider's name, in
/// registration order.
pub open spec fn all_model_pairs(s: Seq<ProviderConfig>) -> Seq<(Seq<char>, ModelConfig)>
    decreases s.len(),
{
    if s.len() == 0 {
        Seq::empty()
    } else {
        all_model_pairs(s.drop_last()) + tagged_models(s.last().name@, s.last().models@)
    }
}

// ── Registry ────────────────────────────────────────────────────────────────

/// Registry of extension-provided model providers, populated by provider
/// packs at startup.
pub struct ProviderRegistry {
    providers: Vec<ProviderConfig>,
}

fn find_provider(providers: &Vec<ProviderConfig>, name: &str) -> (r: Option<usize>)
    ensures
        match r {
            Some(i) => name_index(providers@, name@) == Some(i as int) && i < providers@.len(),
            None => name_index(providers@, name@) is None,
        },
{
    let mut i: usize = 0;
    while i < providers.len()
        invariant
            i <= providers@.len(),
            forall|j: int| 0 <= j < i ==> providers@[j].name@ != name@,
        decreases providers@.len() - i,
    {
        if str_eq(providers[i].name.as_str(), name) {
            proof {
                lemma_name_index(providers@, name@);
            }
            return Some(i);
        }
        i = i + 1;
    }
    proof {
        lemma_name_index(providers@, name@);
    }
    None
}

fn find_model(models: &Vec<ModelConfig>, id: &str) -> (r: Option<usize>)
    ensures
        match r {
            Some(j) => model_index(models@, id@) == Some(j as int) && j < models@.len(),
            None => model_index(models@, id@) is None,
        },
{
    let mut j: usize = 0;
    while j < models.len()
        invariant
            j <= models@.len(),
            forall|m: int| 0 <= m < j ==> models@[m].id@ != id@,
        decreases models@.len() - j,
    {
        if str_eq(models[j].id.as_str(), id) {
            proof {
                lemma_model_index(models@, id@);
            }
            return Some(j);
        }
        j = j + 1;
    }
    proof {
        lemma_model_index(models@, id@);
    }
    None
}

impl ProviderRegistry {
    /// The registered providers, in registration order.
    pub closed spec fn providers(&self) -> Seq<ProviderConfig> {
        self.providers@
    }

    /// Provider names are unique in every registry.
    #[verifier::type_invariant]
    pub(crate) open spec fn names_are_unique(&self) -> bool {
        names_unique(self.providers())
    }

    /// Create an empty registry.
    pub fn new() -> (r: Self)
        ensures
            r.providers().len() == 0,
    {
        ProviderRegistry { providers: Vec::new() }
    }

    /// Register a custom provider. If a provider with the same name already
    /// exists, the new registration replaces it (last write wins).
    pub fn register(&mut self, config: ProviderConfig)
        ensures
            names_unique(final(self).providers()),
            final(self).providers() == registered(old(self).providers(), config),
    {
        proof {
            use_type_invariant(&*self);
        }
        let ghost before = self.providers@;
        let ghost c = config;
        let mut providers: Vec<ProviderConfig> = Vec::new();
        std::mem::swap(&mut providers, &mut self.providers);
        proof {
            lemma_name_index(before, config.name@);
        }
        match find_provider(&providers, config.name.as_str()) {
            Some(i) => {
                providers.set(i, config);
                proof {
                    assert forall|a: int, b: int|
                        0 <= a < b < providers@.len() implies providers@[a].name@
                        != providers@[b].name@ by {
                        if a == i as int {
                            assert(before[i as int].name@ == c.name@);
                        } else if b == i as int {
                            assert(before[i as int].name@ == c.name@);
                        }
                    }
                }
            },
            None => {
                providers.push(config);
                proof {
                    assert forall|a: int, b: int|
                        0 <= a < b < providers@.len() implies providers@[a].name@
                        != providers@[b].name@ by {
                        if b == providers@.len() - 1 {
                            assert(before[a].name@ != c.name@);
                        }
                    }
                }
            },
        }
        self.providers = providers;
    }

    /// Remove a provider by name. Returns the removed provider, if any.
    pub fn unregister(&mut self, name: &str) -> (r: Option<ProviderConfig>)
        ensures
            names_unique(final(self).providers()),
            r == lookup(old(self).providers(), name@),
            final(self).providers() == unregistered(old(self).providers(), name@),
    {
        proof {
            use_type_invariant(&*self);
        }
        let ghost before = self.providers@;
        let mut providers: Vec<ProviderConfig> = Vec::new();
        std::mem::swap(&mut providers, &mut self.providers);
        let r = match find_provider(&providers, name) {
            Some(i) => {
                let removed = providers.remove(i);
                proof {
                    assert forall|a: int, b: int|
                        0 <= a < b < providers@.len() implies providers@[a].name@
                        != providers@[b].name@ by {
                        let a0 = if a < i { a } else { a + 1 };
                        let b0 = if b < i { b } else { b + 1 };
                        assert(providers@[a] == before[a0]);
                        assert(providers@[b] == before[b0]);
                    }
                }
                Some(removed)
            },
            None => None,
        };
        self.providers = providers;
        r
    }

    /// Look up a provider by name.
    pub fn get(&self, name: &str) -> (r: Option<&ProviderConfig>)
        ensures
            match r {
                Some(p) => lookup(self.providers(), name@) == Some(*p),
                None => lookup(self.providers(), name@) is None,
            },
    {
        match find_provider(&self.providers, name) {
            Some(i) => Some(&self.providers[i]),
            None => None,
        }
    }

    /// Look up a specific model across all registered providers.
    ///
    /// Accepts both `"model_id"` (searches all providers, in registration
    /// order) and `"provider/model_id"` (searches the named provider).
    pub fn resolve_model(&self, reference: &str) -> (r: Option<(&ProviderConfig, &ModelConfig)>)
        ensures
            match resolve(self.providers(), reference@) {
                Some((i, j)) => r is Some && *r.unwrap().0 == self.providers()[i] && *r.unwrap().1
                    == self.providers()[i].models@[j],
                None => r is None,
            },
    {
        match split_once_char(reference, '/') {
            Some((provider_name, model_id)) => {
                match find_provider(&self.providers, provider_name) {
                    Some(i) => {
                        let provider = &self.providers[i];
                        match find_model(&provider.models, model_id) {
                            Some(j) => Some((provider, &provider.models[j])),
                            None => None,
                        }
                    },
                    None => None,
                }
            },
            None => {
                let mut i: usize = 0;
                while i < self.providers.len()
                    invariant
                        i <= self.providers@.len(),
                        first_index_of(reference@, '/') is None,
                        forall|j: int|
                            0 <= j < i ==> model_index(
                                #[trigger] self.providers@[j].models@,
                                reference@,
                            ) is None,
                    decreases self.providers@.len() - i,
                {
                    let provider = &self.providers[i];
                    match find_model(&provider.models, reference) {
                        Some(j) => {
                            proof {
                                lemma_provider_offering(self.providers@, reference@);
                            }
                            return Some((provider, &provider.models[j]));
                        },
                        None => {},
                    }
                    i = i + 1;
                }
                proof {
                    lemma_provider_offering(self.providers@, reference@);
                }
                None
            },
        }
    }

    /// All registered provider names, in registration order.
    pub fn provider_names(&self) -> (r: Vec<&str>)
        ensures
            r@.len() == self.providers().len(),
            forall|k: int| 0 <= k < r@.len() ==> (#[trigger] r@[k])@ == self.providers()[k].name@,
    {
        let mut out: Vec<&str> = Vec::new();
        let mut i: usize = 0;
        while i < self.providers.len()
            invariant
                i <= self.providers@.len(),
                out@.len() == i,
                forall|k: int| 0 <= k < i ==> (#[trigger] out@[k])@ == self.providers@[k].name@,
            decreases self.providers@.len() - i,
        {
            out.push(self.providers[i].name.as_str());
            i = i + 1;
        }
        out
    }

    /// All models across all providers, with their provider name.
    pub fn all_models(&self) -> (r: Vec<(&str, &ModelConfig)>)
        ensures
            r@.len() == all_model_pairs(self.providers()).len(),
            forall|k: int|
                0 <= k < r@.len() ==> ((#[trigger] r@[k]).0@, *r@[k].1) == all_model_pairs(
                    self.providers(),
                )[k],
    {
        let mut out: Vec<(&str, &ModelConfig)> = Vec::new();
        let mut i: usize = 0;
        while i < self.providers.len()
            invariant
                i <= self.providers@.len(),
                out@.len() == all_model_pairs(self.providers@.take(i as int)).len(),
                forall|k: int|
                    0 <= k < out@.len() ==> ((#[trigger] out@[k]).0@, *out@[k].1) == all_model_pairs(
                        self.providers@.take(i as int),
                    )[k],
            decreases self.providers@.len() - i,
        {
            let p = &self.providers[i];
            let ghost base = all_model_pairs(self.providers@.take(i as int));
            let mut j: usize = 0;
            while j < p.models.len()
                invariant
                    j <= p.models@.len(),
                    out@.len() == base.len() + j,
                    forall|k: int|
                        0 <= k < base.len() ==> ((#[trigger] out@[k]).0@, *out@[k].1) == base[k],
                    forall|k: int|
                        base.len() <= k < out@.len() ==> ((#[trigger] out@[k]).0@, *out@[k].1) == (
                        p.name@, p.models@[k - base.len()]),
                decreases p.models@.len() - j,
            {
                out.push((p.name.as_str(), &p.models[j]));
                j = j + 1;
            }
            proof {
                let t = self.providers@.take(i + 1);
                assert(t.drop_last() =~= self.providers@.take(i as int));
                assert(t.last() == *p);
                let tm = tagged_models(p.name@, p.models@);
                assert(all_model_pairs(t) == base + tm);
                assert forall|k: int| 0 <= k < out@.len() implies ((#[trigger] out@[k]).0@, *out@[k].1)
                    == all_model_pairs(t)[k] by {
                    if k >= base.len() {
                        assert(tm[k - base.len()] == (p.name@, p.models@[k - base.len()]));
                    }
                }
            }
            i = i + 1;
        }
        proof {
            assert(self.providers@.take(i as int) =~= self.providers@);
        }
        out
    }

    /// Whether no providers are registered.
    pub fn is_empty(&self) -> (r: bool)
        ensures
            r == (self.providers().len() == 0),
    {
        self.providers.len() == 0
    }

    /// Number of registered providers.
    pub fn len(&self) -> (r: usize)
        ensures
            r == self.providers().len(),
    {
        self.providers.len()
    }
}

// ── Laws ────────────────────────────────────────────────────────────────────

proof fn lemma_name_index_unique(s: Seq<ProviderConfig>, i: int)
    requires
        names_unique(s),
        0 <= i < s.len(),
    ensures
        name_index(s, s[i].name@) == Some(i),
{
    lemma_name_index(s, s[i].name@);
    let k = name_index(s, s[i].name@).unwrap();
    if k != i {
        if k < i {
            assert(s[k].name@ != s[i].name@);
        } else {
            assert(s[i].name@ != s[k].name@);
        }
    }
}

/// Registering a provider keeps names unique, and afterwards looking up
/// its name gives exactly that provider (last write wins).
pub proof fn law_register_then_get(s: Seq<ProviderConfig>, c: ProviderConfig)
    requires
        names_unique(s),
    ensures
        names_unique(registered(s, c)),
        lookup(registered(s, c), c.name@) == Some(c),
{
    let t = registered(s, c);
    lemma_name_index(s, c.name@);
    match name_index(s, c.name@) {
        Some(i) => {
            assert(t == s.update(i, c));
            assert forall|a: int, b: int| 0 <= a < b < t.len() implies t[a].name@ != t[b].name@ by {
                if a == i || b == i {
                    assert(s[i].name@ == c.name@);
                }
            }
            assert(t[i] == c);
            lemma_name_index_unique(t, i);
        },
        None => {
            assert(t == s.push(c));
            assert forall|a: int, b: int| 0 <= a < b < t.len() implies t[a].name@ != t[b].name@ by {
                if b == s.len() {
                    assert(s[a].name@ != c.name@);
                }
            }
            assert(t[s.len() as int] == c);
            lemma_name_index_unique(t, s.len() as int);
        },
    }
}

/// Registering a provider leaves every other name's provider unchanged.
pub proof fn law_register_keeps_others(s: Seq<ProviderConfig>, c: ProviderConfig, name: Seq<char>)
    requires
        names_unique(s),
        name != c.name@,
    ensures
        lookup(registered(s, c), name) == lookup(s, name),
{
    let t = registered(s, c);
    law_register_then_get(s, c);
    lemma_name_index(s, c.name@);
    lemma_name_index(s, name);
    lemma_name_index(t, name);
    assert forall|k: int| 0 <= k < s.len() && s[k].name@ != c.name@ implies t[k] == s[k] by {}
    match name_index(s, name) {
        Some(k) => {
            assert(t[k] == s[k]);
            lemma_name_index_unique(t, k);
        },
        None => {
            if let Some(k) = name_index(t, name) {
                if k < s.len() {
                    assert(t[k] == s[k]);
                } else {
                    assert(t[k] == c);
                }
            }
        },
    }
}

/// Registering a provider adds one to the count unless its name was
/// already registered.
pub proof fn law_register_len(s: Seq<ProviderConfig>, c: ProviderConfig)
    ensures
        registered(s, c).len() == s.len() + (if lookup(s, c.name@) is Some { 0int } else { 1int }),
{
    lemma_name_index(s, c.name@);
}

/// After unregistering a name, it is no longer registered; other names
/// keep their providers.
pub proof fn law_unregister_removes(s: Seq<ProviderConfig>, name: Seq<char>, other: Seq<char>)
    requires
        names_unique(s),
        other != name,
    ensures
        lookup(unregistered(s, name), name) is None,
        lookup(unregistered(s, name), other) == lookup(s, other),
{
    let t = unregistered(s, name);
    lemma_name_index(s, name);
    lemma_name_index(s, other);
    lemma_name_index(t, name);
    lemma_name_index(t, other);
    match name_index(s, name) {
        Some(i) => {
            assert(t == s.remove(i));
            assert forall|k: int| 0 <= k < t.len() implies t[k] == s[if k < i { k } else { k + 1 }] by {}
            if let Some(k) = name_index(t, name) {
                let k0 = if k < i { k } else { k + 1 };
                assert(t[k] == s[k0]);
                assert(s[k0].name@ == name);
                if k0 != i {
                    if k0 < i {
                        assert(s[k0].name@ != s[i].name@);
                    } else {
                        assert(s[i].name@ != s[k0].name@);
                    }
                }
            }
            match name_index(s, other) {
                Some(k) => {
                    assert(k != i);
                    let k1 = if k < i { k } else { k - 1 };
                    assert(t[k1] == s[k]);
                    assert forall|a: int, b: int| 0 <= a < b < t.len() implies t[a].name@
                        != t[b].name@ by {
                        let a0 = if a < i { a } else { a + 1 };
                        let b0 = if b < i { b } else { b + 1 };
                        assert(t[a] == s[a0]);
                        assert(t[b] == s[b0]);
                    }
                    lemma_name_index_unique(t, k1);
                },
                None => {
                    if let Some(k) = name_index(t, other) {
                        let k0 = if k < i { k } else { k + 1 };
                        assert(t[k] == s[k0]);
                    }
                },
            }
        },
        None => {},
    }
}

/// A qualified reference `provider/model_id` resolves to the named
/// provider and its first model with that identifier, when the provider
/// name holds no `/`.
pub proof fn law_resolve_qualified(
    s: Seq<ProviderConfig>,
    provider: Seq<char>,
    model_id: Seq<char>,
    i: int,
    j: int,
)
    requires
        names_unique(s),
        0 <= i < s.len(),
        s[i].name@ == provider,
        forall|k: int| 0 <= k < provider.len() ==> provider[k] != '/',
        model_index(s[i].models@, model_id) == Some(j),
    ensures
        resolve(s, provider + seq!['/'] + model_id) == Some((i, j)),
{
    let r = provider + seq!['/'] + model_id;
    let n = provider.len() as int;
    assert(r[n] == '/');
    crate::text::lemma_first_index_of(r, '/');
    let k = first_index_of(r, '/').unwrap();
    if k < n {
        assert(r[k] == provider[k]);
    }
    assert(first_index_of(r, '/') == Some(n));
    assert(r.take(n) =~= provider);
    assert(r.skip(n + 1) =~= model_id);
    lemma_name_index_unique(s, i);
}

/// An unqualified model identifier offered by some provider resolves to a
/// provider offering it and to that provider's model with the identifier.
pub proof fn law_resolve_unqualified(s: Seq<ProviderConfig>, model_id: Seq<char>, i: int)
    requires
        0 <= i < s.len(),
        forall|k: int| 0 <= k < model_id.len() ==> model_id[k] != '/',
        model_index(s[i].models@, model_id) is Some,
    ensures
        resolve(s, model_id) is Some,
        s[resolve(s, model_id).unwrap().0].models@[resolve(s, model_id).unwrap().1].id@ == model_id,
{
    crate::text::lemma_first_index_of(model_id, '/');
    lemma_provider_offering(s, model_id);
    let p = provider_offering(s, model_id).unwrap();
    lemma_model_index(s[p].models@, model_id);
}

} // verus!
