//! The supported LLM API providers and their fixed properties.

use crate::error::RewindError;
use crate::text::{
    chars_of, eq_ignore_ascii_case, eq_ignore_ascii_case_exec, starts_with, starts_with_str,
};
use vstd::prelude::*;
use vstd::string::StringExecFns;

verus! {

/// A supported LLM API provider.
#[derive(Debug, Clone, Copy, PartialEq, Eq, Structural)]
pub enum Provider {
    Groq,
    Gemini,
    OpenAi,
}

/// The providers in priority order: Groq first (free tier), then Gemini
/// (free tier), then OpenAI (paid).
pub open spec fn priority_order() -> Seq<Provider> {
    seq![Provider::Groq, Provider::Gemini, Provider::OpenAi]
}

/// The provider a user-typed name denotes, ignoring case.
pub open spec fn provider_named(name: Seq<char>) -> Option<Provider> {
    if eq_ignore_ascii_case(name, "groq"@) {
        Some(Provider::Groq)
    } else if eq_ignore_ascii_case(name, "gemini"@) {
        Some(Provider::Gemini)
    } else if eq_ignore_ascii_case(name, "openai"@) {
        Some(Provider::OpenAi)
    } else {
        None
    }
}

/// The provider an API key's prefix suggests, and whether the prefix was
/// recognised (an unrecognised key is assumed to be an OpenAI key).
pub open spec fn provider_for_key(key: Seq<char>) -> (Provider, bool) {
    if starts_with(key, "gsk_"@) {
        (Provider::Groq, true)
    } else if starts_with(key, "AIza"@) {
        (Provider::Gemini, true)
    } else if starts_with(key, "sk-"@) && !starts_with(key, "sk-ant-"@) {
        (Provider::OpenAi, true)
    } else {
        (Provider::OpenAi, false)
    }
}

impl Provider {
    /// Name of the environment variable holding this provider's API key.
    pub open spec fn env_key_name_spec(self) -> Seq<char> {
        match self {
            Provider::Groq => "GROQ_API_KEY"@,
            Provider::Gemini => "GEMINI_API_KEY"@,
            Provider::OpenAi => "OPENAI_API_KEY"@,
        }
    }

    /// Human-readable name.
    pub open spec fn display_name_spec(self) -> Seq<char> {
        match self {
            Provider::Groq => "Groq"@,
            Provider::Gemini => "Gemini"@,
            Provider::OpenAi => "OpenAI"@,
        }
    }

    /// Model used when none is configured or discovered.
    pub open spec fn default_model_spec(self) -> Seq<char> {
        match self {
            Provider::Groq => "llama-3.3-70b-versatile"@,
            Provider::Gemini => "gemini-2.0-flash"@,
            Provider::OpenAi => "gpt-4o-mini"@,
        }
    }

    /// Lowercase key of this provider's entry in the model cache.
    pub open spec fn cache_key_spec(self) -> Seq<char> {
        match self {
            Provider::Groq => "groq"@,
            Provider::Gemini => "gemini"@,
            Provider::OpenAi => "openai"@,
        }
    }

    /// Default base URL of the provider's OpenAI-compatible API.
    pub open spec fn default_api_base_spec(self) -> Seq<char> {
        match self {
            Provider::Groq => "https://api.groq.com/openai/v1"@,
            Provider::Gemini => "https://generativelanguage.googleapis.com/v1beta/openai"@,
            Provider::OpenAi => "https://api.openai.com/v1"@,
        }
    }

    /// Returns all providers in priority order (Groq > Gemini > OpenAI).
    pub fn all() -> (r: &'static [Provider])
        ensures
            r@ == priority_order(),
    {
        let r: &'static [Provider] = &[Provider::Groq, Provider::Gemini, Provider::OpenAi];
        r
    }

    /// Parses a provider name typed by the user, ignoring case.
    pub fn from_name(name: &str) -> (r: Result<Provider, RewindError>)
        ensures
            match r {
                Ok(p) => provider_named(name@) == Some(p),
                Err(e) => provider_named(name@) is None && (e matches RewindError::UnknownProvider {
                    name: n,
                } && n@ == name@),
            },
    {
        let v = chars_of(name);
        if eq_ignore_ascii_case_exec(&v, &chars_of("groq")) {
            Ok(Provider::Groq)
        } else if eq_ignore_ascii_case_exec(&v, &chars_of("gemini")) {
            Ok(Provider::Gemini)
        } else if eq_ignore_ascii_case_exec(&v, &chars_of("openai")) {
            Ok(Provider::OpenAi)
        } else {
            Err(RewindError::UnknownProvider { name: String::from_str(name) })
        }
    }

    /// Guesses the provider from an API key's prefix; the flag tells
    /// whether the prefix was recognised.
    pub fn detect_from_key(key: &str) -> (r: (Provider, bool))
        ensures
            r == provider_for_key(key@),
    {
        if starts_with_str(key, "gsk_") {
            (Provider::Groq, true)
        } else if starts_with_str(key, "AIza") {
            (Provider::Gemini, true)
        } else if starts_with_str(key, "sk-") && !starts_with_str(key, "sk-ant-") {
            (Provider::OpenAi, true)
        } else {
            (Provider::OpenAi, false)
        }
    }

    /// The environment variable name for this provider's API key.
    pub fn env_key_name(&self) -> (r: &'static str)
        ensures
            r@ == self.env_key_name_spec(),
    {
        match self {
            Provider::Groq => "GROQ_API_KEY",
            Provider::Gemini => "GEMINI_API_KEY",
            Provider::OpenAi => "OPENAI_API_KEY",
        }
    }

    /// Human-readable display name.
    pub fn display_name(&self) -> (r: &'static str)
        ensures
            r@ == self.display_name_spec(),
    {
        match self {
            Provider::Groq => "Groq",
            Provider::Gemini => "Gemini",
            Provider::OpenAi => "OpenAI",
        }
    }

    /// Default model for this provider.
    pub fn default_model(&self) -> (r: &'static str)
        ensures
            r@ == self.default_model_spec(),
    {
        match self {
            Provider::Groq => "llama-3.3-70b-versatile",
            Provider::Gemini => "gemini-2.0-flash",
            Provider::OpenAi => "gpt-4o-mini",
        }
    }

    /// Stable lowercase key used as a cache map entry for this provider.
    pub fn cache_key(&self) -> (r: &'static str)
        ensures
            r@ == self.cache_key_spec(),
    {
        match self {
            Provider::Groq => "groq",
            Provider::Gemini => "gemini",
            Provider::OpenAi => "openai",
        }
    }

    /// Default API base URL for this provider.
    pub fn default_api_base(&self) -> (r: &'static str)
        ensures
            r@ == self.default_api_base_spec(),
    {
        match self {
            Provider::Groq => "https://api.groq.com/openai/v1",
            Provider::Gemini => "https://generativelanguage.googleapis.com/v1beta/openai",
            Provider::OpenAi => "https://api.openai.com/v1",
        }
    }
}


/// Provider names are case-insensitive: two names that differ only in
/// ASCII case denote the same provider (or both none).
pub proof fn lemma_provider_names_ignore_case(a: Seq<char>, b: Seq<char>)
    requires
        eq_ignore_ascii_case(a, b),
    ensures
        provider_named(a) == provider_named(b),
{
    assert forall|t: Seq<char>| eq_ignore_ascii_case(a, t) == eq_ignore_ascii_case(b, t) by {
        if a.len() == t.len() {
            assert forall|i: int| 0 <= i < a.len() implies (crate::text::ascii_lower(a[i])
                == crate::text::ascii_lower(b[i])) by {}
        }
    }
}

/// Every provider is named by its cache key and by its display name.
pub proof fn lemma_provider_names_round_trip(p: Provider)
    ensures
        provider_named(p.cache_key_spec()) == Some(p),
        provider_named(p.display_name_spec()) == Some(p),
{
    reveal_strlit("groq");
    reveal_strlit("gemini");
    reveal_strlit("openai");
    reveal_strlit("Groq");
    reveal_strlit("Gemini");
    reveal_strlit("OpenAI");
    match p {
        Provider::Groq => {
            assert(eq_ignore_ascii_case("Groq"@, "groq"@));
        },
        Provider::Gemini => {
            assert(!eq_ignore_ascii_case("gemini"@, "groq"@));
            assert(eq_ignore_ascii_case("Gemini"@, "gemini"@));
        },
        Provider::OpenAi => {
            assert(crate::text::ascii_lower("openai"@[0]) != crate::text::ascii_lower("gemini"@[0]));
            assert(!eq_ignore_ascii_case("openai"@, "gemini"@));
            assert(crate::text::ascii_lower("OpenAI"@[0]) != crate::text::ascii_lower("gemini"@[0]));
            assert(!eq_ignore_ascii_case("OpenAI"@, "gemini"@));
            assert(eq_ignore_ascii_case("OpenAI"@, "openai"@));
        },
    }
}

/// The priority order lists each provider exactly once.
pub proof fn lemma_priority_order_complete(p: Provider)
    ensures
        priority_order().len() == 3,
        priority_order().contains(p),
        priority_order().no_duplicates(),
{
    let s = priority_order();
    match p {
        Provider::Groq => assert(s[0] == p),
        Provider::Gemini => assert(s[1] == p),
        Provider::OpenAi => assert(s[2] == p),
    }
}

/// Distinct providers have distinct cache keys and environment variables.
pub proof fn lemma_provider_keys_distinct(p: Provider, q: Provider)
    requires
        p != q,
    ensures
        p.cache_key_spec() != q.cache_key_spec(),
        p.env_key_name_spec() != q.env_key_name_spec(),
{
    reveal_strlit("groq");
    reveal_strlit("gemini");
    reveal_strlit("openai");
    reveal_strlit("GROQ_API_KEY");
    reveal_strlit("GEMINI_API_KEY");
    reveal_strlit("OPENAI_API_KEY");
    if p.cache_key_spec().len() == q.cache_key_spec().len() {
        assert(p.cache_key_spec()[0] != q.cache_key_spec()[0]);
    }
    if p.env_key_name_spec().len() == q.env_key_name_spec().len() {
        assert(p.env_key_name_spec()[0] != q.env_key_name_spec()[0]);
    }
}

} // verus!
