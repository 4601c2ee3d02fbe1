//! The configuration: per-provider API keys and models, the custom system
//! prompt, the cache of discovered models, and the rules of the `config`
//! command and of first-time setup.

use crate::error::RewindError;
use crate::provider::{provider_for_key, provider_named, Provider};
use crate::text::{trim, trim_str};
use vstd::prelude::*;
use vstd::string::StringExecFns;

verus! {

/// How long (seconds) a discovered model is considered fresh. 24 hours.
pub const MODEL_CACHE_TTL_SECS: u64 = 86_400;

/// A cached model entry stored in the config file.
#[derive(Debug)]
pub struct CachedModel {
    pub model: String,
    /// Unix timestamp (seconds) when the model was discovered and cached.
    pub cached_at: u64,
}

/// One entry of the model cache.
pub struct CacheEntry {
    pub key: String,
    pub value: CachedModel,
}

/// The model cache: at most one entry per key.
pub struct ModelCache {
    entries: Vec<CacheEntry>,
}

/// The entry at index `i` has key `k`.
pub open spec fn entry_has_key(entries: Seq<CacheEntry>, i: int, k: Seq<char>) -> bool {
    0 <= i < entries.len() && entries[i].key@ == k
}

impl ModelCache {
    /// No two entries share a key.
    #[verifier::type_invariant]
    spec fn unique_keys(self) -> bool {
        forall|i: int, j: int|
            0 <= i < j < self.entries@.len() ==> #[trigger] self.entries@[i].key@
                != #[trigger] self.entries@[j].key@
    }

    /// Number of entries.
    pub closed spec fn count(&self) -> nat {
        self.entries@.len()
    }

    /// Key of the entry at index `i`.
    pub closed spec fn key_at(&self, i: int) -> Seq<char> {
        self.entries@[i].key@
    }
}

impl View for ModelCache {
    type V = Map<Seq<char>, (Seq<char>, u64)>;

    /// The cache as a map from key to (model, time cached).
    closed spec fn view(&self) -> Self::V {
        Map::new(
            |k: Seq<char>| exists|i: int| entry_has_key(self.entries@, i, k),
            |k: Seq<char>|
                {
                    let i = choose|i: int| entry_has_key(self.entries@, i, k);
                    (self.entries@[i].value.model@, self.entries@[i].value.cached_at)
                },
        )
    }
}

impl ModelCache {
    /// An empty cache.
    pub fn new() -> (c: ModelCache)
        ensures
            c@ == Map::<Seq<char>, (Seq<char>, u64)>::empty(),
            c.count() == 0,
    {
        let c = ModelCache { entries: Vec::new() };
        assert(c@ =~= Map::<Seq<char>, (Seq<char>, u64)>::empty());
        c
    }

    /// Index of the entry with key `key`, if any.
    fn find(&self, key: &String) -> (r: Option<usize>)
        ensures
            match r {
                Some(i) => entry_has_key(self.entries@, i as int, key@),
                None => forall|i: int| !entry_has_key(self.entries@, i, key@),
            },
    {
        let mut i: usize = 0;
        while i < self.entries.len()
            invariant
                i <= self.entries@.len(),
                forall|j: int| 0 <= j < i ==> !entry_has_key(self.entries@, j, key@),
            decreases self.entries@.len() - i,
        {
            if self.entries[i].key == *key {
                return Some(i);
            }
            i += 1;
        }
        None
    }

    /// The entry stored under `key`, if any.
    pub fn get(&self, key: &str) -> (r: Option<&CachedModel>)
        ensures
            r is Some <==> self@.contains_key(key@),
            r matches Some(m) ==> self@[key@] == (m.model@, m.cached_at),
    {
        proof {
            use_type_invariant(self);
        }
        let k = String::from_str(key);
        match self.find(&k) {
            Some(i) => {
                proof {
                    let j = choose|j: int| entry_has_key(self.entries@, j, key@);
                    assert(j == i as int);
                }
                Some(&self.entries[i].value)
            },
            None => None,
        }
    }

    /// Stores `value` under `key`, replacing any previous entry.
    pub fn insert(&mut self, key: String, value: CachedModel)
        ensures
            final(self)@ == old(self)@.insert(key@, (value.model@, value.cached_at)),
    {
        proof {
            use_type_invariant(&*self);
        }
        let ghost old_entries = self.entries@;
        let mut entries: Vec<CacheEntry> = Vec::new();
        std::mem::swap(&mut entries, &mut self.entries);
        assert(entries@ == old_entries);
        let found = {
            let probe = ModelCache { entries };
            let f = probe.find(&key);
            entries = probe.entries;
            f
        };
        assert(entries@ == old_entries);
        let ghost kv = (value.model@, value.cached_at);
        match found {
            Some(i) => {
                entries.set(i, CacheEntry { key, value });
            },
            None => {
                entries.push(CacheEntry { key, value });
            },
        }
        assert forall|a: int, b: int| 0 <= a < b < entries@.len() implies #[trigger] entries@[a].key@
            != #[trigger] entries@[b].key@ by {
            match found {
                Some(w) => {
                    assert(old_entries[a].key@ != old_entries[b].key@);
                    assert(entries@[a].key@ == old_entries[a].key@);
                    assert(entries@[b].key@ == old_entries[b].key@);
                },
                None => {
                    if b < old_entries.len() {
                        assert(old_entries[a].key@ != old_entries[b].key@);
                    } else {
                        assert(!entry_has_key(old_entries, a, key@));
                    }
                },
            }
        }
        self.entries = entries;
        proof {
            let old_map = Map::new(
                |k: Seq<char>| exists|i: int| entry_has_key(old_entries, i, k),
                |k: Seq<char>|
                    {
                        let i = choose|i: int| entry_has_key(old_entries, i, k);
                        (old_entries[i].value.model@, old_entries[i].value.cached_at)
                    },
            );
            assert(old(self)@ == old_map);
            assert forall|k: Seq<char>| #[trigger] self@.contains_key(k) <==> old_map.insert(
                key@,
                kv,
            ).contains_key(k) by {
                if k != key@ {
                    if old_map.contains_key(k) {
                        let i = choose|i: int| entry_has_key(old_entries, i, k);
                        assert(entry_has_key(self.entries@, i, k));
                    }
                    if self@.contains_key(k) {
                        let i = choose|i: int| entry_has_key(self.entries@, i, k);
                        assert(entry_has_key(old_entries, i, k));
                    }
                } else {
                    let i = match found {
                        Some(i) => i as int,
                        None => old_entries.len() as int,
                    };
                    assert(entry_has_key(self.entries@, i, k));
                }
            }
            assert forall|k: Seq<char>| #[trigger] self@.contains_key(k) implies self@[k]
                == old_map.insert(key@, kv)[k] by {
                let i = choose|i: int| entry_has_key(self.entries@, i, k);
                if k != key@ {
                    let j = choose|j: int| entry_has_key(old_entries, j, k);
                    assert(entry_has_key(old_entries, i, k));
                    assert(i == j);
                } else {
                    let w = match found {
                        Some(w) => w as int,
                        None => old_entries.len() as int,
                    };
                    assert(entry_has_key(self.entries@, w, k));
                    assert(i == w);
                }
            }
            assert(self@ =~= old_map.insert(key@, kv));
        }
    }
}


impl ModelCache {
    /// Number of entries.
    pub fn len(&self) -> (n: usize)
        ensures
            n == self.count(),
            forall|k: Seq<char>|
                self@.contains_key(k) <==> exists|i: int| 0 <= i < n && #[trigger] self.key_at(i) == k,
    {
        proof {
            assert forall|k: Seq<char>| self@.contains_key(k) <==> exists|i: int|
                0 <= i < self.count() && #[trigger] self.key_at(i) == k by {
                if self@.contains_key(k) {
                    let i = choose|i: int| entry_has_key(self.entries@, i, k);
                    assert(self.key_at(i) == k);
                }
                if exists|i: int| 0 <= i < self.count() && #[trigger] self.key_at(i) == k {
                    let i = choose|i: int| 0 <= i < self.count() && #[trigger] self.key_at(i) == k;
                    assert(entry_has_key(self.entries@, i, k));
                }
            }
        }
        self.entries.len()
    }

    /// The key and value of the entry at index `i`.
    pub fn entry_at(&self, i: usize) -> (r: (&String, &CachedModel))
        requires
            i < self.count(),
        ensures
            r.0@ == self.key_at(i as int),
            self@.contains_key(r.0@),
            self@[r.0@] == (r.1.model@, r.1.cached_at),
    {
        proof {
            use_type_invariant(self);
            let k = self.entries@[i as int].key@;
            assert(entry_has_key(self.entries@, i as int, k));
            let j = choose|j: int| entry_has_key(self.entries@, j, k);
            assert(j == i as int);
        }
        (&self.entries[i].key, &self.entries[i].value)
    }
}


/// The configuration: API keys and custom models per provider, the model
/// cache and an optional custom system prompt.
pub struct Config {
    pub groq_api_key: Option<String>,
    pub gemini_api_key: Option<String>,
    pub openai_api_key: Option<String>,
    pub groq_model: Option<String>,
    pub gemini_model: Option<String>,
    pub openai_model: Option<String>,
    /// Per-provider model cache so `GET /models` is not called on every invocation.
    pub model_cache: ModelCache,
    /// Optional custom system prompt
    pub system_prompt: Option<String>,
}

/// The view of an optional string.
pub open spec fn opt_view(o: Option<String>) -> Option<Seq<char>> {
    match o {
        Some(s) => Some(s@),
        None => None,
    }
}

/// `a` if it is set, else `b`.
pub open spec fn prefer<T>(a: Option<T>, b: Option<T>) -> Option<T> {
    if a is Some {
        a
    } else {
        b
    }
}

impl Config {
    /// The API key configured for a provider.
    pub open spec fn api_key_of(self, p: Provider) -> Option<String> {
        match p {
            Provider::Groq => self.groq_api_key,
            Provider::Gemini => self.gemini_api_key,
            Provider::OpenAi => self.openai_api_key,
        }
    }

    /// The custom model configured for a provider.
    pub open spec fn model_of(self, p: Provider) -> Option<String> {
        match p {
            Provider::Groq => self.groq_model,
            Provider::Gemini => self.gemini_model,
            Provider::OpenAi => self.openai_model,
        }
    }

    /// This configuration with the API key of `p` replaced.
    pub open spec fn with_api_key(self, p: Provider, key: Option<String>) -> Config {
        Config {
            groq_api_key: if p == Provider::Groq {
                key
            } else {
                self.groq_api_key
            },
            gemini_api_key: if p == Provider::Gemini {
                key
            } else {
                self.gemini_api_key
            },
            openai_api_key: if p == Provider::OpenAi {
                key
            } else {
                self.openai_api_key
            },
            ..self
        }
    }

    /// This configuration with the custom model of `p` replaced.
    pub open spec fn with_model(self, p: Provider, model: Option<String>) -> Config {
        Config {
            groq_model: if p == Provider::Groq {
                model
            } else {
                self.groq_model
            },
            gemini_model: if p == Provider::Gemini {
                model
            } else {
                self.gemini_model
            },
            openai_model: if p == Provider::OpenAi {
                model
            } else {
                self.openai_model
            },
            ..self
        }
    }

    /// This configuration overridden by every setting that `other` has;
    /// the model cache stays this configuration's own.
    pub open spec fn merged_with(self, other: Config) -> Config {
        Config {
            groq_api_key: prefer(other.groq_api_key, self.groq_api_key),
            gemini_api_key: prefer(other.gemini_api_key, self.gemini_api_key),
            openai_api_key: prefer(other.openai_api_key, self.openai_api_key),
            groq_model: prefer(other.groq_model, self.groq_model),
            gemini_model: prefer(other.gemini_model, self.gemini_model),
            openai_model: prefer(other.openai_model, self.openai_model),
            system_prompt: prefer(other.system_prompt, self.system_prompt),
            ..self
        }
    }

    /// No key, no model, no custom prompt, an empty cache.
    pub open spec fn is_empty(self) -> bool {
        &&& self.groq_api_key is None
        &&& self.gemini_api_key is None
        &&& self.openai_api_key is None
        &&& self.groq_model is None
        &&& self.gemini_model is None
        &&& self.openai_model is None
        &&& self.system_prompt is None
        &&& self.model_cache@ == Map::<Seq<char>, (Seq<char>, u64)>::empty()
    }

    /// Get the API key for a provider.
    pub fn get_api_key(&self, provider: Provider) -> (r: Option<&String>)
        ensures
            match r {
                Some(k) => self.api_key_of(provider) == Some(*k),
                None => self.api_key_of(provider) is None,
            },
    {
        match provider {
            Provider::Groq => self.groq_api_key.as_ref(),
            Provider::Gemini => self.gemini_api_key.as_ref(),
            Provider::OpenAi => self.openai_api_key.as_ref(),
        }
    }

    /// Set (or clear) the API key for a provider.
    pub fn set_api_key(&mut self, provider: Provider, key: Option<String>)
        ensures
            *final(self) == old(self).with_api_key(provider, key),
    {
        match provider {
            Provider::Groq => self.groq_api_key = key,
            Provider::Gemini => self.gemini_api_key = key,
            Provider::OpenAi => self.openai_api_key = key,
        }
    }

    /// Get the custom model for a provider.
    pub fn get_model(&self, provider: Provider) -> (r: Option<&String>)
        ensures
            match r {
                Some(m) => self.model_of(provider) == Some(*m),
                None => self.model_of(provider) is None,
            },
    {
        match provider {
            Provider::Groq => self.groq_model.as_ref(),
            Provider::Gemini => self.gemini_model.as_ref(),
            Provider::OpenAi => self.openai_model.as_ref(),
        }
    }

    /// Set (or clear) the custom model for a provider.
    pub fn set_model(&mut self, provider: Provider, model: Option<String>)
        ensures
            *final(self) == old(self).with_model(provider, model),
    {
        match provider {
            Provider::Groq => self.groq_model = model,
            Provider::Gemini => self.gemini_model = model,
            Provider::OpenAi => self.openai_model = model,
        }
    }

    /// Merge another Config (e.g. from .rewindrc) into this one, overwriting current values.
    pub fn merge(&mut self, other: Config)
        ensures
            *final(self) == old(self).merged_with(other),
    {
        if other.groq_api_key.is_some() {
            self.groq_api_key = other.groq_api_key;
        }
        if other.gemini_api_key.is_some() {
            self.gemini_api_key = other.gemini_api_key;
        }
        if other.openai_api_key.is_some() {
            self.openai_api_key = other.openai_api_key;
        }
        if other.groq_model.is_some() {
            self.groq_model = other.groq_model;
        }
        if other.gemini_model.is_some() {
            self.gemini_model = other.gemini_model;
        }
        if other.openai_model.is_some() {
            self.openai_model = other.openai_model;
        }
        if other.system_prompt.is_some() {
            self.system_prompt = other.system_prompt;
        }
    }
}

impl Default for Config {
    fn default() -> (r: Config)
        ensures
            r.is_empty(),
    {
        Config {
            groq_api_key: None,
            gemini_api_key: None,
            openai_api_key: None,
            groq_model: None,
            gemini_model: None,
            openai_model: None,
            model_cache: ModelCache::new(),
            system_prompt: None,
        }
    }
}


/// `a - b`, or 0 when `b` is larger (`u64::saturating_sub`).
pub open spec fn saturating_diff(a: u64, b: u64) -> u64 {
    if a >= b {
        (a - b) as u64
    } else {
        0
    }
}

/// The model cached for `p`, if it was cached less than
/// [`MODEL_CACHE_TTL_SECS`] seconds before `now`.
pub open spec fn fresh_cached_model(
    cache: Map<Seq<char>, (Seq<char>, u64)>,
    p: Provider,
    now: u64,
) -> Option<Seq<char>> {
    let k = p.cache_key_spec();
    if cache.contains_key(k) && saturating_diff(now, cache[k].1) < MODEL_CACHE_TTL_SECS {
        Some(cache[k].0)
    } else {
        None
    }
}

/// The system clock's time type, carried through opaquely.
#[verifier::external_type_specification]
#[verifier::external_body]
pub struct ExSystemTime(std::time::SystemTime);

/// The current time.
///
/// Trusted: calls `std::time::SystemTime::now`; nothing is stated of the
/// value, which is the time of the call.
#[verifier::external_body]
fn system_now() -> std::time::SystemTime {
    std::time::SystemTime::now()
}

/// The time elapsed from the Unix epoch to `t`, `None` when `t` is before it.
///
/// Trusted: calls `SystemTime::duration_since` with `UNIX_EPOCH`, its error
/// turned into `None`; nothing is stated of the value.
#[verifier::external_body]
fn since_unix_epoch(t: &std::time::SystemTime) -> Option<std::time::Duration> {
    t.duration_since(std::time::UNIX_EPOCH).ok()
}

/// The whole seconds of a duration.
///
/// Trusted: calls `Duration::as_secs`; nothing is stated of the value, as
/// the library has no view of a `Duration`.
#[verifier::external_body]
fn whole_secs(d: &std::time::Duration) -> u64 {
    d.as_secs()
}

/// Seconds since the Unix epoch, 0 if the clock is before it.
fn unix_time_secs() -> u64 {
    match since_unix_epoch(&system_now()) {
        Some(d) => whole_secs(&d),
        None => 0,
    }
}

impl Config {
    /// Every setting but the model cache is the same in both.
    pub open spec fn same_settings(self, other: Config) -> bool {
        &&& self.groq_api_key == other.groq_api_key
        &&& self.gemini_api_key == other.gemini_api_key
        &&& self.openai_api_key == other.openai_api_key
        &&& self.groq_model == other.groq_model
        &&& self.gemini_model == other.gemini_model
        &&& self.openai_model == other.openai_model
        &&& self.system_prompt == other.system_prompt
    }

    /// The cached model for a provider if it is still fresh at time `now`.
    pub fn cached_model_at(&self, provider: Provider, now: u64) -> (r: Option<String>)
        ensures
            opt_view(r) == fresh_cached_model(self.model_cache@, provider, now),
    {
        match self.model_cache.get(provider.cache_key()) {
            Some(entry) => {
                if now.saturating_sub(entry.cached_at) < MODEL_CACHE_TTL_SECS {
                    Some(entry.model.clone())
                } else {
                    None
                }
            },
            None => None,
        }
    }

    /// Return the cached model for a provider if it is still within the TTL window.
    ///
    /// The result is [`fresh_cached_model`] at the time read from the
    /// system clock, which is left open.
    pub fn get_cached_model(&self, provider: Provider) -> (r: Option<String>)
        ensures
            exists|now: u64|
                #[trigger] fresh_cached_model(self.model_cache@, provider, now) == opt_view(r),
            r matches Some(m) ==> self.model_cache@.contains_key(provider.cache_key_spec())
                && self.model_cache@[provider.cache_key_spec()].0 == m@,
            !self.model_cache@.contains_key(provider.cache_key_spec()) ==> r is None,
    {
        let now = unix_time_secs();
        let r = self.cached_model_at(provider, now);
        assert(fresh_cached_model(self.model_cache@, provider, now) == opt_view(r));
        r
    }

    /// Store a discovered model in the cache with the time `now`.
    pub fn set_cached_model_at(&mut self, provider: Provider, model: String, now: u64)
        ensures
            final(self).same_settings(*old(self)),
            final(self).model_cache@ == old(self).model_cache@.insert(
                provider.cache_key_spec(),
                (model@, now),
            ),
    {
        self.model_cache.insert(
            String::from_str(provider.cache_key()),
            CachedModel { model, cached_at: now },
        );
    }

    /// Store a discovered model in the cache with the current timestamp.
    pub fn set_cached_model(&mut self, provider: Provider, model: String)
        ensures
            final(self).same_settings(*old(self)),
            exists|t: u64|
                final(self).model_cache@ == old(self).model_cache@.insert(
                    provider.cache_key_spec(),
                    (model@, t),
                ),
    {
        let now = unix_time_secs();
        self.set_cached_model_at(provider, model, now);
    }
}

/// Reading a provider's key gives back what was last set for it, and
/// setting one provider's key changes no other setting.
pub proof fn lemma_api_key_read_after_write(c: Config, p: Provider, q: Provider, key: Option<String>)
    ensures
        c.with_api_key(p, key).api_key_of(p) == key,
        q != p ==> c.with_api_key(p, key).api_key_of(q) == c.api_key_of(q),
        c.with_api_key(p, key).model_of(q) == c.model_of(q),
        c.with_api_key(p, key).same_settings(c) <==> c.api_key_of(p) == key,
        c.with_api_key(p, key).model_cache == c.model_cache,
{
}

/// Reading a provider's model gives back what was last set for it, and
/// setting one provider's model changes no other setting.
pub proof fn lemma_model_read_after_write(c: Config, p: Provider, q: Provider, model: Option<String>)
    ensures
        c.with_model(p, model).model_of(p) == model,
        q != p ==> c.with_model(p, model).model_of(q) == c.model_of(q),
        c.with_model(p, model).api_key_of(q) == c.api_key_of(q),
        c.with_model(p, model).system_prompt == c.system_prompt,
        c.with_model(p, model).model_cache == c.model_cache,
{
}

/// Merging takes every setting the other configuration has and keeps the
/// rest; merging a configuration without settings changes nothing, and
/// merging the same configuration twice is the same as once.
pub proof fn lemma_merge_laws(c: Config, other: Config, p: Provider)
    ensures
        c.merged_with(other).api_key_of(p) == prefer(other.api_key_of(p), c.api_key_of(p)),
        c.merged_with(other).model_of(p) == prefer(other.model_of(p), c.model_of(p)),
        c.merged_with(other).system_prompt == prefer(other.system_prompt, c.system_prompt),
        c.merged_with(other).model_cache == c.model_cache,
        other.is_empty() ==> c.merged_with(other) == c,
        c.merged_with(other).merged_with(other) == c.merged_with(other),
{
}

/// A model stored at time `t0` is served from the cache exactly while
/// less than [`MODEL_CACHE_TTL_SECS`] seconds have passed (a clock that
/// went backwards counts as no time passed); storing it leaves the other
/// providers' cached models as they were.
pub proof fn lemma_cached_model_freshness(
    cache: Map<Seq<char>, (Seq<char>, u64)>,
    p: Provider,
    q: Provider,
    model: Seq<char>,
    t0: u64,
    t: u64,
)
    ensures
        fresh_cached_model(cache.insert(p.cache_key_spec(), (model, t0)), p, t) == if saturating_diff(
            t,
            t0,
        ) < MODEL_CACHE_TTL_SECS {
            Some(model)
        } else {
            None
        },
        q != p ==> fresh_cached_model(cache.insert(p.cache_key_spec(), (model, t0)), q, t)
            == fresh_cached_model(cache, q, t),
{
    if q != p {
        crate::provider::lemma_provider_keys_distinct(p, q);
    }
}


/// A key as `config show` prints it: eight stars when its UTF-8 encoding
/// has at most 8 bytes, else its first four and last four bytes (each
/// read as the character of that code) around `...`.
pub open spec fn masked_key(k: Seq<char>) -> Seq<char> {
    let b = vstd::utf8::encode_utf8(k);
    let n = b.len() as int;
    if n <= 8 {
        "********"@
    } else {
        seq![b[0] as char, b[1] as char, b[2] as char, b[3] as char] + "..."@ + seq![
            b[n - 4] as char,
            b[n - 3] as char,
            b[n - 2] as char,
            b[n - 1] as char,
        ]
    }
}

/// Masks an API key for display.
pub fn mask_key(k: &str) -> (r: String)
    ensures
        r@ == masked_key(k@),
{
    let b = k.as_bytes();
    let n = b.len();
    if n <= 8 {
        return String::from_str("********");
    }
    let mut r = String::new();
    crate::text::push_char(&mut r, b[0] as char);
    crate::text::push_char(&mut r, b[1] as char);
    crate::text::push_char(&mut r, b[2] as char);
    crate::text::push_char(&mut r, b[3] as char);
    r.append("...");
    crate::text::push_char(&mut r, b[n - 4] as char);
    crate::text::push_char(&mut r, b[n - 3] as char);
    crate::text::push_char(&mut r, b[n - 2] as char);
    crate::text::push_char(&mut r, b[n - 1] as char);
    proof {
        reveal_strlit("...");
        let bs = vstd::utf8::encode_utf8(k@);
        assert(r@ =~= masked_key(k@));
    }
    r
}


/// The API keys found in the providers' environment variables.
#[derive(Debug)]
pub struct EnvKeys {
    pub groq: Option<String>,
    pub gemini: Option<String>,
    pub openai: Option<String>,
}

impl EnvKeys {
    /// The key found in the environment variable of `p`.
    pub open spec fn key_of(self, p: Provider) -> Option<String> {
        match p {
            Provider::Groq => self.groq,
            Provider::Gemini => self.gemini,
            Provider::OpenAi => self.openai,
        }
    }

    /// The key found in the environment variable of `p`.
    pub fn get(&self, p: Provider) -> (r: Option<&String>)
        ensures
            match r {
                Some(k) => self.key_of(p) == Some(*k),
                None => self.key_of(p) is None,
            },
    {
        match p {
            Provider::Groq => self.groq.as_ref(),
            Provider::Gemini => self.gemini.as_ref(),
            Provider::OpenAi => self.openai.as_ref(),
        }
    }
}

/// The `config` subcommands.
#[derive(Debug)]
pub enum ConfigCommands {
    /// Set an API key (omit the key to enter it securely via hidden prompt)
    SetApiKey { provider: String, key: Option<String> },
    /// Set a custom model for a provider (e.g. if a default model is decommissioned)
    Model { provider: String, model: String },
    /// Clear an API key
    Clear { provider: String },
    /// Set a custom system prompt (omit to clear)
    SystemPrompt { prompt: Option<String> },
    /// Show configured API keys (redacted) and custom models
    Show,
}

/// A change to the configuration.
#[derive(Debug)]
pub enum ConfigChange {
    SetKey(Provider, String),
    SetModel(Provider, String),
    ClearProvider(Provider),
    SetSystemPrompt(Option<String>),
}

/// What a `config` subcommand does next.
#[derive(Debug)]
pub enum ConfigPlan {
    /// Apply the change, save, and report it.
    Apply(ConfigChange),
    /// Read the key for the provider from a hidden prompt first.
    PromptForKey(Provider),
    /// Print the configuration.
    Show,
}

/// The plan of a `config` subcommand; the provider names it carries are
/// parsed first, so an unknown name fails before anything is read.
pub fn plan_config_command(action: ConfigCommands) -> (r: Result<ConfigPlan, RewindError>)
    ensures
        match action {
            ConfigCommands::SetApiKey { provider, key } => match provider_named(provider@) {
                None => r matches Err(RewindError::UnknownProvider { name }) && name@ == provider@,
                Some(p) => match key {
                    Some(k) => r == Ok::<ConfigPlan, RewindError>(
                        ConfigPlan::Apply(ConfigChange::SetKey(p, k)),
                    ),
                    None => r == Ok::<ConfigPlan, RewindError>(ConfigPlan::PromptForKey(p)),
                },
            },
            ConfigCommands::Model { provider, model } => match provider_named(provider@) {
                None => r matches Err(RewindError::UnknownProvider { name }) && name@ == provider@,
                Some(p) => r == Ok::<ConfigPlan, RewindError>(
                    ConfigPlan::Apply(ConfigChange::SetModel(p, model)),
                ),
            },
            ConfigCommands::Clear { provider } => match provider_named(provider@) {
                None => r matches Err(RewindError::UnknownProvider { name }) && name@ == provider@,
                Some(p) => r == Ok::<ConfigPlan, RewindError>(
                    ConfigPlan::Apply(ConfigChange::ClearProvider(p)),
                ),
            },
            ConfigCommands::SystemPrompt { prompt } => r == Ok::<ConfigPlan, RewindError>(
                ConfigPlan::Apply(ConfigChange::SetSystemPrompt(prompt)),
            ),
            ConfigCommands::Show => r == Ok::<ConfigPlan, RewindError>(ConfigPlan::Show),
        },
{
    match action {
        ConfigCommands::SetApiKey { provider, key } => {
            let p = Provider::from_name(provider.as_str())?;
            match key {
                Some(k) => Ok(ConfigPlan::Apply(ConfigChange::SetKey(p, k))),
                None => Ok(ConfigPlan::PromptForKey(p)),
            }
        },
        ConfigCommands::Model { provider, model } => {
            let p = Provider::from_name(provider.as_str())?;
            Ok(ConfigPlan::Apply(ConfigChange::SetModel(p, model)))
        },
        ConfigCommands::Clear { provider } => {
            let p = Provider::from_name(provider.as_str())?;
            Ok(ConfigPlan::Apply(ConfigChange::ClearProvider(p)))
        },
        ConfigCommands::SystemPrompt { prompt } => Ok(
            ConfigPlan::Apply(ConfigChange::SetSystemPrompt(prompt)),
        ),
        ConfigCommands::Show => Ok(ConfigPlan::Show),
    }
}

/// The change a key typed at the hidden prompt makes: the key without
/// surrounding whitespace; an empty key is refused.
pub fn entered_key_change(p: Provider, raw: &str) -> (r: Result<ConfigChange, RewindError>)
    ensures
        trim(raw@).len() == 0 ==> r matches Err(RewindError::EmptyApiKey),
        trim(raw@).len() > 0 ==> (r matches Ok(ConfigChange::SetKey(q, k)) && q == p && k@
            == trim(raw@)),
{
    let k = trim_str(raw);
    if k.as_str().is_empty() {
        Err(RewindError::EmptyApiKey)
    } else {
        Ok(ConfigChange::SetKey(p, k))
    }
}

/// The configuration after a change.
pub open spec fn changed_config(c: Config, change: ConfigChange) -> Config {
    match change {
        ConfigChange::SetKey(p, k) => c.with_api_key(p, Some(k)),
        ConfigChange::SetModel(p, m) => c.with_model(p, Some(m)),
        ConfigChange::ClearProvider(p) => c.with_api_key(p, None).with_model(p, None),
        ConfigChange::SetSystemPrompt(s) => Config { system_prompt: s, ..c },
    }
}

/// The report of a change.
pub open spec fn change_message(change: ConfigChange) -> Seq<char> {
    match change {
        ConfigChange::SetKey(p, _) => "API key for "@ + p.display_name_spec() + " has been set."@,
        ConfigChange::SetModel(p, m) => "Custom model '"@ + m@ + "' for "@ + p.display_name_spec()
            + " has been set."@,
        ConfigChange::ClearProvider(p) => "Settings for "@ + p.display_name_spec()
            + " have been cleared."@,
        ConfigChange::SetSystemPrompt(s) => match s {
            Some(_) => "Custom system prompt has been set."@,
            None => "Custom system prompt has been cleared."@,
        },
    }
}

/// Applies a change to the configuration and returns its report.
pub fn apply_config_change(cfg: &mut Config, change: ConfigChange) -> (msg: String)
    ensures
        *final(cfg) == changed_config(*old(cfg), change),
        msg@ == change_message(change),
{
    match change {
        ConfigChange::SetKey(p, k) => {
            cfg.set_api_key(p, Some(k));
            let mut m = String::from_str("API key for ");
            m.append(p.display_name());
            m.append(" has been set.");
            m
        },
        ConfigChange::SetModel(p, model) => {
            let mut m = String::from_str("Custom model '");
            m.append(model.as_str());
            m.append("' for ");
            m.append(p.display_name());
            m.append(" has been set.");
            cfg.set_model(p, Some(model));
            m
        },
        ConfigChange::ClearProvider(p) => {
            cfg.set_api_key(p, None);
            cfg.set_model(p, None);
            let mut m = String::from_str("Settings for ");
            m.append(p.display_name());
            m.append(" have been cleared.");
            m
        },
        ConfigChange::SetSystemPrompt(s) => {
            let set = s.is_some();
            cfg.system_prompt = s;
            if set {
                String::from_str("Custom system prompt has been set.")
            } else {
                String::from_str("Custom system prompt has been cleared.")
            }
        },
    }
}

/// What `config show` prints of a provider with a key.
#[derive(Debug)]
pub struct KeySummary {
    pub masked_key: String,
    pub model: String,
}

/// What `config show` prints of a provider.
#[derive(Debug)]
pub struct ProviderReport {
    pub provider: Provider,
    /// `None` when no key is configured.
    pub configured: Option<KeySummary>,
}

/// What `config show` prints.
pub struct ConfigReport {
    pub providers: Vec<ProviderReport>,
    pub system_prompt: Option<String>,
}

/// The model `config show` lists for a provider: the custom one, else the
/// default marked as such.
pub open spec fn shown_model(c: Config, p: Provider) -> Seq<char> {
    match c.model_of(p) {
        Some(m) => m@,
        None => p.default_model_spec() + " (default)"@,
    }
}

/// The report of one provider.
pub open spec fn provider_report_ok(c: Config, r: ProviderReport, p: Provider) -> bool {
    &&& r.provider == p
    &&& match c.api_key_of(p) {
        Some(k) => r.configured matches Some(s) && s.masked_key@ == masked_key(k@) && s.model@
            == shown_model(c, p),
        None => r.configured is None,
    }
}

/// The report of one provider.
fn report_provider(cfg: &Config, p: Provider) -> (r: ProviderReport)
    ensures
        provider_report_ok(*cfg, r, p),
{
    match cfg.get_api_key(p) {
        Some(key) => {
            let model = match cfg.get_model(p) {
                Some(m) => m.clone(),
                None => {
                    let mut d = String::from_str(p.default_model());
                    d.append(" (default)");
                    d
                },
            };
            ProviderReport {
                provider: p,
                configured: Some(KeySummary { masked_key: mask_key(key.as_str()), model }),
            }
        },
        None => ProviderReport { provider: p, configured: None },
    }
}

/// The report `config show` prints: each provider in priority order with
/// its masked key and model, then the custom system prompt.
pub fn show_config(cfg: &Config) -> (r: ConfigReport)
    ensures
        r.providers@.len() == 3,
        forall|i: int|
            0 <= i < 3 ==> provider_report_ok(
                *cfg,
                #[trigger] r.providers@[i],
                crate::provider::priority_order()[i],
            ),
        r.system_prompt == cfg.system_prompt,
{
    let mut providers: Vec<ProviderReport> = Vec::new();
    providers.push(report_provider(cfg, Provider::Groq));
    providers.push(report_provider(cfg, Provider::Gemini));
    providers.push(report_provider(cfg, Provider::OpenAi));
    let system_prompt = match &cfg.system_prompt {
        Some(s) => Some(s.clone()),
        None => None,
    };
    ConfigReport { providers, system_prompt }
}

/// Some provider has a key, in the environment or in the configuration.
pub open spec fn any_api_key(env: EnvKeys, cfg: Config) -> bool {
    exists|p: Provider| env.key_of(p) is Some || cfg.api_key_of(p) is Some
}

/// Whether some provider has a key, in the environment or in the
/// configuration; without one, first-time setup is needed.
pub fn has_any_api_key(env: &EnvKeys, cfg: &Config) -> (r: bool)
    ensures
        r == any_api_key(*env, *cfg),
{
    let r = env.groq.is_some() || env.gemini.is_some() || env.openai.is_some()
        || cfg.groq_api_key.is_some() || cfg.gemini_api_key.is_some()
        || cfg.openai_api_key.is_some();
    proof {
        if r {
            let p = if env.groq.is_some() || cfg.groq_api_key.is_some() {
                Provider::Groq
            } else if env.gemini.is_some() || cfg.gemini_api_key.is_some() {
                Provider::Gemini
            } else {
                Provider::OpenAi
            };
            assert(env.key_of(p) is Some || cfg.api_key_of(p) is Some);
        }
    }
    r
}

/// First-time setup with the key the user typed: the key, trimmed, is
/// stored under the provider its prefix suggests; returns that provider
/// and whether the prefix was recognised. An empty key is refused.
pub fn first_time_setup(cfg: &mut Config, raw: &str) -> (r: Result<(Provider, bool), RewindError>)
    ensures
        trim(raw@).len() == 0 ==> (r matches Err(RewindError::NoKeyEntered) && *final(cfg)
            == *old(cfg)),
        trim(raw@).len() > 0 ==> (r matches Ok(d) && d == provider_for_key(trim(raw@))
            && (final(cfg).api_key_of(d.0) matches Some(k) && k@ == trim(raw@))
            && *final(cfg) == old(cfg).with_api_key(d.0, final(cfg).api_key_of(d.0))),
{
    let key = trim_str(raw);
    if key.as_str().is_empty() {
        return Err(RewindError::NoKeyEntered);
    }
    let (provider, exact) = Provider::detect_from_key(key.as_str());
    cfg.set_api_key(provider, Some(key));
    Ok((provider, exact))
}

} // verus!
