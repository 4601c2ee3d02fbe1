//! The decisions around an API call: which provider and key, which base
//! URL and model, what to send, when to retry, and how a reply (whole or
//! streamed) becomes the answer and its token usage.

use crate::config::{any_api_key, fresh_cached_model, prefer, Config, EnvKeys};
use crate::error::RewindError;
use crate::json::{
    count_of, count_spec, json_node, json_node_at, node_view, text_of, text_spec, JsonNode,
    JsonNodeView,
};
use crate::provider::{priority_order, Provider};
use vstd::prelude::*;
use vstd::string::StringExecFns;

verus! {

/// Maximum number of tokens the AI can return in a single response.
pub const MAX_RESPONSE_TOKENS: u32 = 1500;

/// Maximum API attempts.
pub const MAX_RETRIES: u32 = 3;

/// The key to use for a provider: its environment variable, else its
/// configured key.
pub open spec fn key_for(env: EnvKeys, cfg: Config, p: Provider) -> Option<String> {
    prefer(env.key_of(p), cfg.api_key_of(p))
}

/// The first provider, in priority order, that has a key.
pub open spec fn resolved_provider(env: EnvKeys, cfg: Config) -> Option<Provider> {
    if key_for(env, cfg, Provider::Groq) is Some {
        Some(Provider::Groq)
    } else if key_for(env, cfg, Provider::Gemini) is Some {
        Some(Provider::Gemini)
    } else if key_for(env, cfg, Provider::OpenAi) is Some {
        Some(Provider::OpenAi)
    } else {
        None
    }
}

/// The key and provider an API call uses: the first provider in priority
/// order (Groq > Gemini > OpenAI) with a key in its environment variable
/// or, failing that, in the configuration.
pub fn resolve_provider_and_key(env: &EnvKeys, cfg: &Config) -> (r: Result<
    (Provider, String),
    RewindError,
>)
    ensures
        match resolved_provider(*env, *cfg) {
            Some(p) => r matches Ok((q, k)) && q == p && key_for(*env, *cfg, p) == Some(k),
            None => r matches Err(RewindError::ApiKeyNotConfigured),
        },
{
    let all = Provider::all();
    let mut i: usize = 0;
    while i < all.len()
        invariant
            all@ == priority_order(),
            i <= 3,
            forall|j: int| 0 <= j < i ==> key_for(*env, *cfg, #[trigger] priority_order()[j]) is None,
        decreases 3 - i,
    {
        let p = all[i];
        if let Some(k) = env.get(p) {
            return Ok((p, k.clone()));
        }
        if let Some(k) = cfg.get_api_key(p) {
            return Ok((p, k.clone()));
        }
        i += 1;
    }
    assert(key_for(*env, *cfg, priority_order()[0]) is None);
    assert(key_for(*env, *cfg, priority_order()[1]) is None);
    assert(key_for(*env, *cfg, priority_order()[2]) is None);
    Err(RewindError::ApiKeyNotConfigured)
}

/// Where the key in use was found.
#[derive(Debug, Clone, Copy, PartialEq, Eq, Structural)]
pub enum KeySource {
    Environment,
    ConfigFile,
}

/// `s` without its trailing `c`s (`str::trim_end_matches`).
pub open spec fn strip_trailing(s: Seq<char>, c: char) -> Seq<char>
    decreases s.len(),
{
    if s.len() > 0 && s.last() == c {
        strip_trailing(s.drop_last(), c)
    } else {
        s
    }
}

/// `v` without its trailing `c`s.
fn strip_trailing_chars(v: &Vec<char>, c: char) -> (r: String)
    ensures
        r@ == strip_trailing(v@, c),
{
    let mut e = v.len();
    assert(v@.take(e as int) =~= v@);
    while e > 0 && v[e - 1] == c
        invariant
            e <= v@.len(),
            strip_trailing(v@, c) == strip_trailing(v@.take(e as int), c),
        decreases e,
    {
        assert(v@.take(e as int).drop_last() =~= v@.take(e - 1));
        e -= 1;
    }
    assert(v@.subrange(0, e as int) =~= v@.take(e as int));
    crate::text::string_of(v, 0, e)
}

/// The base URL of the API: `OPENAI_API_BASE` if set, else the provider's
/// default, without trailing slashes.
pub fn resolve_api_base(env_base: Option<String>, provider: Provider) -> (r: String)
    ensures
        r@ == strip_trailing(
            match env_base {
                Some(b) => b@,
                None => provider.default_api_base_spec(),
            },
            '/',
        ),
{
    let base = match env_base {
        Some(b) => b,
        None => String::from_str(provider.default_api_base()),
    };
    strip_trailing_chars(&crate::text::chars_of(base.as_str()), '/')
}

/// Where the model of an API call comes from.
#[derive(Debug)]
pub enum ModelChoice {
    /// A model set in `OPENAI_MODEL`, configured, or freshly cached.
    Use(String),
    /// None of these: ask the API for its models.
    Discover,
}

/// The model to use without asking the API: `OPENAI_MODEL`, else the
/// provider's configured model, else its cached model while fresh at `now`.
pub open spec fn known_model(env_model: Option<String>, cfg: Config, p: Provider, now: u64) -> Option<
    Seq<char>,
> {
    match prefer(env_model, cfg.model_of(p)) {
        Some(m) => Some(m@),
        None => fresh_cached_model(cfg.model_cache@, p, now),
    }
}

/// Chooses the model of an API call at time `now`.
pub fn choose_model(env_model: Option<String>, cfg: &Config, provider: Provider, now: u64) -> (r:
    ModelChoice)
    ensures
        match known_model(env_model, *cfg, provider, now) {
            Some(m) => r matches ModelChoice::Use(s) && s@ == m,
            None => r is Discover,
        },
{
    match env_model {
        Some(m) => ModelChoice::Use(m),
        None => match cfg.get_model(provider) {
            Some(m) => ModelChoice::Use(m.clone()),
            None => match cfg.cached_model_at(provider, now) {
                Some(m) => ModelChoice::Use(m),
                None => ModelChoice::Discover,
            },
        },
    }
}

/// What `--verbose` reports about the provider in use.
#[derive(Debug)]
pub struct Diagnostics {
    pub provider: Provider,
    pub source: KeySource,
    pub api_base: String,
    pub model: String,
}

/// The diagnostics of the provider in use at time `now`: the provider of
/// [`resolved_provider`] and where its key was found, the base URL as set
/// (not stripped of slashes), and the model that would be used, or the
/// default marked as to be discovered.
pub fn diagnostics(
    env: &EnvKeys,
    env_base: Option<String>,
    env_model: Option<String>,
    cfg: &Config,
    now: u64,
) -> (r: Option<Diagnostics>)
    ensures
        match resolved_provider(*env, *cfg) {
            None => r is None,
            Some(p) => r matches Some(d) && d.provider == p && d.source == (if env.key_of(p) is Some {
                KeySource::Environment
            } else {
                KeySource::ConfigFile
            }) && d.api_base@ == match env_base {
                Some(b) => b@,
                None => p.default_api_base_spec(),
            } && d.model@ == match known_model(env_model, *cfg, p, now) {
                Some(m) => m,
                None => p.default_model_spec() + " (auto-discover)"@,
            },
        },
{
    let all = Provider::all();
    let mut i: usize = 0;
    while i < all.len()
        invariant
            all@ == priority_order(),
            i <= 3,
            forall|j: int| 0 <= j < i ==> key_for(*env, *cfg, #[trigger] priority_order()[j]) is None,
        decreases 3 - i,
    {
        let p = all[i];
        let source = if env.get(p).is_some() {
            Some(KeySource::Environment)
        } else if cfg.get_api_key(p).is_some() {
            Some(KeySource::ConfigFile)
        } else {
            None
        };
        if let Some(source) = source {
            let api_base = match env_base {
                Some(b) => b,
                None => String::from_str(p.default_api_base()),
            };
            let model = match choose_model(env_model, cfg, p, now) {
                ModelChoice::Use(m) => m,
                ModelChoice::Discover => {
                    let mut d = String::from_str(p.default_model());
                    d.append(" (auto-discover)");
                    d
                },
            };
            return Some(Diagnostics { provider: p, source, api_base, model });
        }
        i += 1;
    }
    assert(key_for(*env, *cfg, priority_order()[0]) is None);
    assert(key_for(*env, *cfg, priority_order()[1]) is None);
    assert(key_for(*env, *cfg, priority_order()[2]) is None);
    None
}


/// The sampling temperature of every request, in tenths (0.7).
pub const REQUEST_TEMPERATURE_TENTHS: u32 = 7;

/// A message of a chat request: its role and its text.
#[derive(Debug)]
pub struct ChatMessage {
    pub role: String,
    pub content: String,
}

/// The request of a chat completion, as the API is sent it.
#[derive(Debug)]
pub struct ChatRequest {
    pub model: String,
    /// The system message, then the user message.
    pub messages: Vec<ChatMessage>,
    /// The sampling temperature, in tenths.
    pub temperature_tenths: u32,
    pub max_tokens: u32,
    pub stream: bool,
    /// Whether the stream is asked to report token usage
    /// (`stream_options.include_usage`); only a streamed request asks.
    pub include_usage: bool,
}

/// The request of a chat completion: a `system` message with the system
/// prompt, then a `user` message with the user prompt, at temperature 0.7,
/// with its answer length capped at [`MAX_RESPONSE_TOKENS`]; a streamed
/// request also asks for the token usage.
pub fn chat_request(model: String, system_prompt: &str, user_prompt: &str, stream: bool) -> (r:
    ChatRequest)
    ensures
        r.model == model,
        r.messages@.len() == 2,
        r.messages@[0].role@ == "system"@,
        r.messages@[0].content@ == system_prompt@,
        r.messages@[1].role@ == "user"@,
        r.messages@[1].content@ == user_prompt@,
        r.temperature_tenths == REQUEST_TEMPERATURE_TENTHS,
        r.max_tokens == MAX_RESPONSE_TOKENS,
        r.stream == stream,
        r.include_usage == stream,
{
    let mut messages: Vec<ChatMessage> = Vec::new();
    messages.push(
        ChatMessage { role: String::from_str("system"), content: String::from_str(system_prompt) },
    );
    messages.push(
        ChatMessage { role: String::from_str("user"), content: String::from_str(user_prompt) },
    );
    ChatRequest {
        model,
        messages,
        temperature_tenths: REQUEST_TEMPERATURE_TENTHS,
        max_tokens: MAX_RESPONSE_TOKENS,
        stream,
        include_usage: stream,
    }
}

/// How an attempt to reach the API ended.
#[derive(Debug)]
pub enum AttemptOutcome {
    /// The API answered with this HTTP status.
    Status(u16),
    /// The request could not be sent or answered.
    ConnectError,
}

/// What to do after an attempt.
#[derive(Debug, PartialEq, Eq, Structural)]
pub enum RetryStep {
    /// Use the response.
    Accept,
    /// Wait this many seconds, then try again.
    RetryAfter(u64),
    /// Fail with the error body the API sent.
    FailWithBody,
    /// Fail: the API could not be reached.
    GiveUp,
}

/// The wait before attempt `attempt + 1`: 1 s, 2 s, 4 s … capped at 30 s.
pub open spec fn backoff_secs(attempt: u32) -> u64 {
    let p = vstd::arithmetic::power2::pow2((attempt - 1) as nat);
    if p < 30 {
        p as u64
    } else {
        30
    }
}

/// A status worth retrying: too many requests, or a server error.
pub open spec fn retryable_status(s: u16) -> bool {
    s == 429 || 500 <= s <= 599
}

/// The step after attempt number `attempt` (counted from 1): a 2xx status
/// is accepted; a retryable status or a connection error is retried after
/// [`backoff_secs`] while fewer than [`MAX_RETRIES`] attempts were made;
/// otherwise the call fails.
pub open spec fn retry_step_spec(attempt: u32, outcome: AttemptOutcome) -> RetryStep {
    match outcome {
        AttemptOutcome::Status(s) => if 200 <= s <= 299 {
            RetryStep::Accept
        } else if attempt < MAX_RETRIES && retryable_status(s) {
            RetryStep::RetryAfter(backoff_secs(attempt))
        } else {
            RetryStep::FailWithBody
        },
        AttemptOutcome::ConnectError => if attempt < MAX_RETRIES {
            RetryStep::RetryAfter(backoff_secs(attempt))
        } else {
            RetryStep::GiveUp
        },
    }
}

/// The wait after attempt `attempt`.
fn backoff(attempt: u32) -> (r: u64)
    requires
        1 <= attempt,
    ensures
        r == backoff_secs(attempt),
{
    let shift = attempt - 1;
    if shift >= 5 {
        proof {
            vstd::arithmetic::power2::lemma2_to64();
            if shift > 5 {
                vstd::arithmetic::power2::lemma_pow2_strictly_increases(5, shift as nat);
            }
        }
        30
    } else {
        proof {
            vstd::arithmetic::power2::lemma2_to64();
            vstd::bits::lemma_u64_shl_is_mul(1, shift as u64);
        }
        let p = 1u64 << (shift as u64);
        if p < 30 {
            p
        } else {
            30
        }
    }
}

/// Decides what follows an attempt to reach the API.
pub fn retry_step(attempt: u32, outcome: AttemptOutcome) -> (r: RetryStep)
    requires
        1 <= attempt,
    ensures
        r == retry_step_spec(attempt, outcome),
{
    match outcome {
        AttemptOutcome::Status(s) => {
            if 200 <= s && s <= 299 {
                RetryStep::Accept
            } else if attempt < MAX_RETRIES && (s == 429 || (500 <= s && s <= 599)) {
                RetryStep::RetryAfter(backoff(attempt))
            } else {
                RetryStep::FailWithBody
            }
        },
        AttemptOutcome::ConnectError => {
            if attempt < MAX_RETRIES {
                RetryStep::RetryAfter(backoff(attempt))
            } else {
                RetryStep::GiveUp
            }
        },
    }
}

/// No call is tried more than [`MAX_RETRIES`] times, and each wait is at
/// most 30 seconds and at least the one before it.
pub proof fn lemma_retry_bounds(attempt: u32, outcome: AttemptOutcome)
    requires
        1 <= attempt,
    ensures
        attempt >= MAX_RETRIES ==> !(retry_step_spec(attempt, outcome) is RetryAfter),
        retry_step_spec(attempt, outcome) matches RetryStep::RetryAfter(w) ==> 1 <= w <= 30,
        attempt + 1 <= u32::MAX ==> backoff_secs(attempt) <= backoff_secs((attempt + 1) as u32),
{
    vstd::arithmetic::power2::lemma_pow2_pos((attempt - 1) as nat);
    vstd::arithmetic::power2::lemma_pow2_strictly_increases((attempt - 1) as nat, attempt as nat);
}

/// Token counts a reply reports, each present when it is an unsigned integer.
#[derive(Debug)]
pub struct TokenCounts {
    pub prompt_tokens: Option<u64>,
    pub completion_tokens: Option<u64>,
}

/// The (prompt, completion) usage of reported counts, when both are there;
/// each count is cut to 32 bits.
pub open spec fn usage_of(c: TokenCounts) -> Option<(u32, u32)> {
    match (c.prompt_tokens, c.completion_tokens) {
        (Some(p), Some(c)) => Some((p as u32, c as u32)),
        _ => None,
    }
}

/// The usage of reported counts.
fn usage_from(c: &TokenCounts) -> (r: Option<(u32, u32)>)
    ensures
        r == usage_of(*c),
{
    match (c.prompt_tokens, c.completion_tokens) {
        (Some(p), Some(c)) => Some((p as u32, c as u32)),
        _ => None,
    }
}

/// The answer of a whole (non-streamed) reply: its message content and the
/// usage its `usage` object reports; a reply without content is an error.
pub fn completion_result(content: Option<String>, usage: Option<TokenCounts>) -> (r: Result<
    (String, Option<(u32, u32)>),
    RewindError,
>)
    ensures
        match content {
            None => r matches Err(RewindError::MissingResponseContent),
            Some(c) => r matches Ok((text, u)) && text == c && u == match usage {
                Some(counts) => usage_of(counts),
                None => None,
            },
        },
{
    match content {
        None => Err(RewindError::MissingResponseContent),
        Some(c) => {
            let u = match &usage {
                Some(counts) => usage_from(counts),
                None => None,
            };
            Ok((c, u))
        },
    }
}

/// The token counts of a usage field: present when the field is, with each
/// count read from its `prompt_tokens` and `completion_tokens` nodes.
pub open spec fn counts_spec(
    field: Option<JsonNodeView>,
    prompt: Option<JsonNodeView>,
    completion: Option<JsonNodeView>,
) -> Option<TokenCounts> {
    match field {
        Some(_) => Some(
            TokenCounts { prompt_tokens: count_spec(prompt), completion_tokens: count_spec(completion) },
        ),
        None => None,
    }
}

/// The token counts of a usage field, from the nodes found for it.
pub fn counts_from_nodes(
    field: Option<JsonNode>,
    prompt: Option<JsonNode>,
    completion: Option<JsonNode>,
) -> (r: Option<TokenCounts>)
    ensures
        r == counts_spec(node_view(field), node_view(prompt), node_view(completion)),
{
    match field {
        Some(_) => Some(
            TokenCounts { prompt_tokens: count_of(prompt), completion_tokens: count_of(completion) },
        ),
        None => None,
    }
}

/// The text of a field of the first choice: the string found there when
/// `choices` is an array.
pub open spec fn choice_text_spec(choices: Option<JsonNodeView>, leaf: Option<JsonNodeView>) -> Option<
    Seq<char>,
> {
    match choices {
        Some(JsonNodeView::Array(_)) => text_spec(leaf),
        _ => None,
    }
}

/// The text of a field of the first choice, from the nodes found for it.
pub fn choice_text_from_nodes(choices: Option<JsonNode>, leaf: Option<JsonNode>) -> (r: Option<
    String,
>)
    ensures
        match r {
            Some(s) => choice_text_spec(node_view(choices), node_view(leaf)) == Some(s@),
            None => choice_text_spec(node_view(choices), node_view(leaf)) is None,
        },
{
    match choices {
        Some(JsonNode::Array(_)) => text_of(leaf),
        _ => None,
    }
}

/// The token counts a JSON document reports under `field`.
pub open spec fn counts_at(text: Seq<char>, field: Seq<char>, prompt: Seq<char>, completion: Seq<char>) -> Option<
    TokenCounts,
> {
    counts_spec(json_node(text, field), json_node(text, prompt), json_node(text, completion))
}

/// The `usage` counts of a reply or payload.
pub open spec fn usage_counts(text: Seq<char>) -> Option<TokenCounts> {
    counts_at(text, "/usage"@, "/usage/prompt_tokens"@, "/usage/completion_tokens"@)
}

/// The `x_groq.usage` counts of a payload.
pub open spec fn groq_usage_counts(text: Seq<char>) -> Option<TokenCounts> {
    counts_at(
        text,
        "/x_groq/usage"@,
        "/x_groq/usage/prompt_tokens"@,
        "/x_groq/usage/completion_tokens"@,
    )
}

/// The text of `choices[0].message.content` in a whole reply.
pub open spec fn message_content(text: Seq<char>) -> Option<Seq<char>> {
    choice_text_spec(json_node(text, "/choices"@), json_node(text, "/choices/0/message/content"@))
}

/// The text of `choices[0].delta.content` in a streamed payload.
pub open spec fn delta_content(text: Seq<char>) -> Option<Seq<char>> {
    choice_text_spec(json_node(text, "/choices"@), json_node(text, "/choices/0/delta/content"@))
}

/// The answer of a whole reply body: an error when the body is not JSON,
/// else [`completion_result`] of its message content and usage.
pub fn completion_from_body(body: &str) -> (r: Result<(String, Option<(u32, u32)>), RewindError>)
    ensures
        json_node(body@, ""@) is None ==> r matches Err(RewindError::UndecodableResponse),
        json_node(body@, ""@) is Some ==> match message_content(body@) {
            None => r matches Err(RewindError::MissingResponseContent),
            Some(c) => r matches Ok((text, u)) && text@ == c && u == match usage_counts(body@) {
                Some(counts) => usage_of(counts),
                None => None,
            },
        },
{
    if json_node_at(body, "").is_none() {
        return Err(RewindError::UndecodableResponse);
    }
    let content = choice_text_from_nodes(
        json_node_at(body, "/choices"),
        json_node_at(body, "/choices/0/message/content"),
    );
    let usage = counts_from_nodes(
        json_node_at(body, "/usage"),
        json_node_at(body, "/usage/prompt_tokens"),
        json_node_at(body, "/usage/completion_tokens"),
    );
    completion_result(content, usage)
}


/// A complete line of a server-sent event stream, as the reader sees it.
#[derive(Debug)]
pub enum SseLine {
    /// `data: [DONE]`: the stream is over.
    Done,
    /// A `data: ` line with its payload.
    Data(String),
    /// Any other line.
    Other,
}

/// The first line held in a stream buffer, without its trailing carriage
/// returns.
pub open spec fn first_sse_line(buf: Seq<char>) -> Seq<char> {
    strip_trailing(buf.take(crate::text::line_end(buf)), '\r')
}

/// How a line is read: `data: [DONE]` (payload trimmed) ends the stream,
/// other `data: ` lines carry a payload, the rest are skipped.
pub open spec fn sse_line_ok(line: Seq<char>, l: SseLine) -> bool {
    if crate::text::starts_with(line, "data: "@) {
        let d = line.skip("data: "@.len() as int);
        if crate::text::trim(d) == "[DONE]"@ {
            l is Done
        } else {
            l matches SseLine::Data(x) && x@ == d
        }
    } else {
        l is Other
    }
}

/// What a `data: ` payload carries.
#[derive(Debug)]
pub struct StreamEvent {
    /// The `usage` field, when the payload has one.
    pub usage: Option<TokenCounts>,
    /// The `x_groq.usage` field, when the payload has one.
    pub groq_usage: Option<TokenCounts>,
    /// The text of `choices[0].delta.content`, when it is a string.
    pub content: Option<String>,
}

/// The event of a `data: ` payload; a payload that is not JSON carries
/// nothing.
pub fn stream_event(data: &str) -> (ev: StreamEvent)
    ensures
        ev.usage == usage_counts(data@),
        ev.groq_usage == groq_usage_counts(data@),
        match ev.content {
            Some(c) => delta_content(data@) == Some(c@),
            None => delta_content(data@) is None,
        },
{
    StreamEvent {
        usage: counts_from_nodes(
            json_node_at(data, "/usage"),
            json_node_at(data, "/usage/prompt_tokens"),
            json_node_at(data, "/usage/completion_tokens"),
        ),
        groq_usage: counts_from_nodes(
            json_node_at(data, "/x_groq/usage"),
            json_node_at(data, "/x_groq/usage/prompt_tokens"),
            json_node_at(data, "/x_groq/usage/completion_tokens"),
        ),
        content: choice_text_from_nodes(
            json_node_at(data, "/choices"),
            json_node_at(data, "/choices/0/delta/content"),
        ),
    }
}

/// What to do after an event.
#[derive(Debug)]
pub struct StreamAction {
    /// Fire the first-token callback now.
    pub fire_callback: bool,
    /// Print this text.
    pub print: Option<String>,
}

/// The usage after a payload with `usage` and `x_groq.usage` fields
/// `usage` and `groq`: that of the first present field, when it reports
/// both counts; otherwise unchanged.
pub open spec fn usage_after(
    old: Option<(u32, u32)>,
    usage: Option<TokenCounts>,
    groq: Option<TokenCounts>,
) -> Option<(u32, u32)> {
    match prefer(usage, groq) {
        Some(c) => match usage_of(c) {
            Some(u) => Some(u),
            None => old,
        },
        None => old,
    }
}

/// The usage after an event.
pub open spec fn updated_usage(old: Option<(u32, u32)>, ev: StreamEvent) -> Option<(u32, u32)> {
    usage_after(old, ev.usage, ev.groq_usage)
}

/// What a streamed reply has given so far: the answer, the usage, whether
/// the first-token callback is still to fire, and whether `data: [DONE]`
/// was read.
pub struct StreamProgress {
    pub response: Seq<char>,
    pub usage: Option<(u32, u32)>,
    pub callback_pending: bool,
    pub done: bool,
}

/// The progress before any text arrived.
pub open spec fn initial_progress() -> StreamProgress {
    StreamProgress { response: Seq::empty(), usage: None, callback_pending: true, done: false }
}

/// The progress after the payload `d` of a `data: ` line: its usage is
/// recorded and its delta content appended, which ends the wait for the
/// first token.
pub open spec fn payload_step(p: StreamProgress, d: Seq<char>) -> StreamProgress {
    let usage = usage_after(p.usage, usage_counts(d), groq_usage_counts(d));
    match delta_content(d) {
        Some(c) => StreamProgress {
            response: p.response + c,
            usage,
            callback_pending: false,
            done: p.done,
        },
        None => StreamProgress {
            response: p.response,
            usage,
            callback_pending: p.callback_pending,
            done: p.done,
        },
    }
}

/// The progress after a complete line: nothing changes once `[DONE]` was
/// read; `data: [DONE]` (payload trimmed) ends the stream; another
/// `data: ` line is a payload; any other line is skipped.
pub open spec fn line_step(p: StreamProgress, line: Seq<char>) -> StreamProgress {
    if p.done {
        p
    } else if crate::text::starts_with(line, "data: "@) {
        let d = line.skip("data: "@.len() as int);
        if crate::text::trim(d) == "[DONE]"@ {
            StreamProgress {
                response: p.response,
                usage: p.usage,
                callback_pending: p.callback_pending,
                done: true,
            }
        } else {
            payload_step(p, d)
        }
    } else {
        p
    }
}

/// The progress after the lines `lines`, in order.
pub open spec fn lines_step(p: StreamProgress, lines: Seq<Seq<char>>) -> StreamProgress
    decreases lines.len(),
{
    if lines.len() == 0 {
        p
    } else {
        lines_step(line_step(p, lines[0]), lines.drop_first())
    }
}

/// The complete lines of a text, each without its `'\n'` and trailing
/// carriage returns; the text after the last `'\n'` is not among them.
pub open spec fn complete_lines(text: Seq<char>) -> Seq<Seq<char>>
    decreases text.len(),
{
    let e = crate::text::line_end(text);
    if e < 0 || e >= text.len() {
        Seq::empty()
    } else {
        seq![first_sse_line(text)] + complete_lines(text.skip(e + 1))
    }
}

/// The text after the last `'\n'` (all of it when there is none).
pub open spec fn unfinished_line(text: Seq<char>) -> Seq<char>
    decreases text.len(),
{
    let e = crate::text::line_end(text);
    if e < 0 || e >= text.len() {
        text
    } else {
        unfinished_line(text.skip(e + 1))
    }
}

/// The buffer and progress after a chunk arrives: its complete lines are
/// read, and what follows the last `'\n'` waits for the next chunk.
pub open spec fn feed_step(buffer: Seq<char>, p: StreamProgress, chunk: Seq<char>) -> (
    Seq<char>,
    StreamProgress,
) {
    let t = buffer + chunk;
    (unfinished_line(t), lines_step(p, complete_lines(t)))
}

/// The buffer and progress after the chunks `chunks` arrive, in order.
pub open spec fn feed_all(chunks: Seq<Seq<char>>) -> (Seq<char>, StreamProgress)
    decreases chunks.len(),
{
    if chunks.len() == 0 {
        (Seq::empty(), initial_progress())
    } else {
        let (b, p) = feed_all(chunks.drop_last());
        feed_step(b, p, chunks.last())
    }
}

/// The chunks of a text, joined in order.
pub open spec fn joined(chunks: Seq<Seq<char>>) -> Seq<char>
    decreases chunks.len(),
{
    if chunks.len() == 0 {
        Seq::empty()
    } else {
        joined(chunks.drop_last()) + chunks.last()
    }
}

/// How many of the actions fire the first-token callback.
pub open spec fn fired(actions: Seq<StreamAction>) -> nat
    decreases actions.len(),
{
    if actions.len() == 0 {
        0
    } else {
        fired(actions.drop_last()) + if actions.last().fire_callback {
            1nat
        } else {
            0nat
        }
    }
}

/// The text the actions print, in order.
pub open spec fn printed(actions: Seq<StreamAction>) -> Seq<char>
    decreases actions.len(),
{
    if actions.len() == 0 {
        Seq::empty()
    } else {
        printed(actions.drop_last()) + match actions.last().print {
            Some(t) => t@,
            None => Seq::empty(),
        }
    }
}

/// The state of a streamed reply: text received but not yet split into
/// lines, the answer so far, the usage so far, whether the first-token
/// callback is still to fire, and whether `data: [DONE]` was read.
pub struct StreamState {
    buffer: Vec<char>,
    response: String,
    usage: Option<(u32, u32)>,
    callback_pending: bool,
    done: bool,
}

impl StreamState {
    /// Text not yet split into lines.
    pub closed spec fn buffer(&self) -> Seq<char> {
        self.buffer@
    }

    /// The answer so far.
    pub closed spec fn response(&self) -> Seq<char> {
        self.response@
    }

    /// The usage so far.
    pub closed spec fn usage(&self) -> Option<(u32, u32)> {
        self.usage
    }

    /// Whether the first-token callback is still to fire.
    pub closed spec fn callback_pending(&self) -> bool {
        self.callback_pending
    }

    /// All of the state but the buffer.
    pub closed spec fn progress(&self) -> StreamProgress {
        StreamProgress {
            response: self.response@,
            usage: self.usage,
            callback_pending: self.callback_pending,
            done: self.done,
        }
    }

    /// The state before any text arrived.
    pub fn new() -> (s: StreamState)
        ensures
            s.buffer() == Seq::<char>::empty(),
            s.response() == Seq::<char>::empty(),
            s.usage() is None,
            s.callback_pending(),
            s.progress() == initial_progress(),
    {
        StreamState {
            buffer: Vec::new(),
            response: String::new(),
            usage: None,
            callback_pending: true,
            done: false,
        }
    }

    /// Adds a chunk of received text.
    pub fn push_chunk(&mut self, text: &str)
        ensures
            final(self).buffer() == old(self).buffer() + text@,
            final(self).response() == old(self).response(),
            final(self).usage() == old(self).usage(),
            final(self).callback_pending() == old(self).callback_pending(),
            final(self).progress() == old(self).progress(),
    {
        let v = crate::text::chars_of(text);
        let ghost start = self.buffer@;
        let mut i: usize = 0;
        while i < v.len()
            invariant
                i <= v@.len(),
                self.buffer@ == start + v@.take(i as int),
                self.response == old(self).response,
                self.usage == old(self).usage,
                self.callback_pending == old(self).callback_pending,
                self.done == old(self).done,
            decreases v@.len() - i,
        {
            self.buffer.push(v[i]);
            assert(v@.take(i + 1) =~= v@.take(i as int).push(v@[i as int]));
            i += 1;
        }
        assert(v@.take(v@.len() as int) =~= v@);
    }

    /// Takes the next complete line out of the buffer, if there is one.
    pub fn next_line(&mut self) -> (r: Option<SseLine>)
        ensures
            final(self).response() == old(self).response(),
            final(self).usage() == old(self).usage(),
            final(self).callback_pending() == old(self).callback_pending(),
            final(self).progress() == old(self).progress(),
            crate::text::line_end(old(self).buffer()) >= old(self).buffer().len() ==> r is None
                && final(self).buffer() == old(self).buffer(),
            crate::text::line_end(old(self).buffer()) < old(self).buffer().len() ==> (r matches Some(
                l,
            ) && sse_line_ok(first_sse_line(old(self).buffer()), l) && final(self).buffer() == old(
                self,
            ).buffer().skip(crate::text::line_end(old(self).buffer()) + 1)),
    {
        let e = crate::text::line_end_from(&self.buffer, 0);
        assert(self.buffer@.skip(0) =~= self.buffer@);
        if e == self.buffer.len() {
            return None;
        }
        let mut hi = e;
        while hi > 0 && self.buffer[hi - 1] == '\r'
            invariant
                hi <= e < self.buffer@.len(),
                first_sse_line(self.buffer@) == strip_trailing(self.buffer@.take(hi as int), '\r'),
            decreases hi,
        {
            assert(self.buffer@.take(hi as int).drop_last() =~= self.buffer@.take(hi - 1));
            hi -= 1;
        }
        assert(self.buffer@.subrange(0, hi as int) =~= self.buffer@.take(hi as int));
        let ghost text = self.buffer@.take(hi as int);
        assert(first_sse_line(self.buffer@) == text);
        let prefix = crate::text::chars_of("data: ");
        let result = if crate::text::occurs_at_exec(&self.buffer, &prefix, 0) && prefix.len() <= hi {
            assert(text.subrange(0, prefix@.len() as int) =~= self.buffer@.subrange(
                0,
                prefix@.len() as int,
            ));
            let payload = crate::text::trim_range(&self.buffer, prefix.len(), hi);
            assert(text.skip(prefix@.len() as int) =~= self.buffer@.subrange(
                prefix@.len() as int,
                hi as int,
            ));
            if payload == String::from_str("[DONE]") {
                SseLine::Done
            } else {
                SseLine::Data(crate::text::string_of(&self.buffer, prefix.len(), hi))
            }
        } else {
            assert(!crate::text::starts_with(text, "data: "@)) by {
                if crate::text::starts_with(text, "data: "@) {
                    assert(self.buffer@.subrange(0, prefix@.len() as int) =~= text.subrange(
                        0,
                        prefix@.len() as int,
                    ));
                }
            }
            SseLine::Other
        };
        let mut rest: Vec<char> = Vec::new();
        let mut i = e + 1;
        while i < self.buffer.len()
            invariant
                e + 1 <= i <= self.buffer@.len(),
                rest@ == self.buffer@.subrange(e + 1, i as int),
            decreases self.buffer@.len() - i,
        {
            rest.push(self.buffer[i]);
            assert(self.buffer@.subrange(e + 1, i + 1) =~= self.buffer@.subrange(e + 1, i as int).push(
                self.buffer@[i as int],
            ));
            i += 1;
        }
        assert(rest@ =~= self.buffer@.skip(e + 1));
        self.buffer = rest;
        Some(result)
    }

    /// Applies a parsed payload: records its usage and appends its content,
    /// which is to be printed; the callback fires with the first content.
    pub fn apply_event(&mut self, ev: StreamEvent) -> (a: StreamAction)
        ensures
            final(self).buffer() == old(self).buffer(),
            final(self).progress().done == old(self).progress().done,
            final(self).usage() == updated_usage(old(self).usage(), ev),
            match ev.content {
                Some(c) => final(self).response() == old(self).response() + c@ && (a.print matches Some(
                    p,
                ) && p@ == c@) && a.fire_callback == old(self).callback_pending()
                    && !final(self).callback_pending(),
                None => final(self).response() == old(self).response() && a.print is None
                    && !a.fire_callback && final(self).callback_pending() == old(
                    self,
                ).callback_pending(),
            },
    {
        let obj = if ev.usage.is_some() {
            ev.usage
        } else {
            ev.groq_usage
        };
        if let Some(c) = &obj {
            if let Some(u) = usage_from(c) {
                self.usage = Some(u);
            }
        }
        match ev.content {
            Some(c) => {
                let fire = self.callback_pending;
                self.callback_pending = false;
                self.response.append(c.as_str());
                StreamAction { fire_callback: fire, print: Some(c) }
            },
            None => StreamAction { fire_callback: false, print: None },
        }
    }

    /// Whether `data: [DONE]` was read.
    pub fn is_done(&self) -> (b: bool)
        ensures
            b == self.progress().done,
    {
        self.done
    }

    /// Takes in a chunk of received text and reads every complete line in
    /// the buffer, in order, until `data: [DONE]`; returns what to do for
    /// each payload read. The callback fires with the first content, which
    /// no printed text precedes; the callbacks fired plus the one still
    /// owed stay what was owed before, so over a stream started by
    /// [`StreamState::new`] and ended by [`StreamState::finish`] the callback
    /// fires exactly once.
    pub fn feed(&mut self, chunk: &str) -> (actions: Vec<StreamAction>)
        ensures
            (final(self).buffer(), final(self).progress()) == feed_step(
                old(self).buffer(),
                old(self).progress(),
                chunk@,
            ),
            final(self).response() == old(self).response() + printed(actions@),
            fired(actions@) == if old(self).callback_pending() && !final(self).callback_pending() {
                1nat
            } else {
                0nat
            },
            fired(actions@) + (if final(self).callback_pending() {
                1nat
            } else {
                0nat
            }) == (if old(self).callback_pending() {
                1nat
            } else {
                0nat
            }),
            final(self).callback_pending() == (old(self).callback_pending() && forall|j: int|
                0 <= j < actions@.len() ==> (#[trigger] actions@[j]).print is None),
            forall|j: int|
                0 <= j < actions@.len() ==> ((#[trigger] actions@[j]).fire_callback <==> (old(
                    self,
                ).callback_pending() && actions@[j].print is Some && forall|i: int|
                    0 <= i < j ==> actions@[i].print is None)),
    {
        let ghost text = self.buffer@ + chunk@;
        let ghost p0 = self.progress();
        self.push_chunk(chunk);
        let mut actions: Vec<StreamAction> = Vec::new();
        assert(printed(actions@) =~= Seq::<char>::empty());
        assert(fired(actions@) == 0);
        assert(self.response@ =~= p0.response + printed(actions@));
        loop
            invariant
                unfinished_line(self.buffer@) == unfinished_line(text),
                lines_step(self.progress(), complete_lines(self.buffer@)) == lines_step(
                    p0,
                    complete_lines(text),
                ),
                self.response@ == p0.response + printed(actions@),
                fired(actions@) == if p0.callback_pending && !self.callback_pending {
                    1nat
                } else {
                    0nat
                },
                self.callback_pending == (p0.callback_pending && forall|j: int|
                    0 <= j < actions@.len() ==> (#[trigger] actions@[j]).print is None),
                forall|j: int|
                    0 <= j < actions@.len() ==> ((#[trigger] actions@[j]).fire_callback <==> (
                    p0.callback_pending && actions@[j].print is Some && forall|i: int|
                        0 <= i < j ==> actions@[i].print is None)),
            ensures
                unfinished_line(self.buffer@) == unfinished_line(text),
                self.progress() == lines_step(p0, complete_lines(text)),
                unfinished_line(self.buffer@) == self.buffer@,
                self.response@ == p0.response + printed(actions@),
                fired(actions@) == if p0.callback_pending && !self.callback_pending {
                    1nat
                } else {
                    0nat
                },
                self.callback_pending == (p0.callback_pending && forall|j: int|
                    0 <= j < actions@.len() ==> (#[trigger] actions@[j]).print is None),
                forall|j: int|
                    0 <= j < actions@.len() ==> ((#[trigger] actions@[j]).fire_callback <==> (
                    p0.callback_pending && actions@[j].print is Some && forall|i: int|
                        0 <= i < j ==> actions@[i].print is None)),
            decreases self.buffer@.len(),
        {
            let ghost b = self.buffer@;
            let ghost before = self.progress();
            proof {
                crate::text::lemma_line_end(b);
            }
            let line = self.next_line();
            match line {
                None => {
                    assert(complete_lines(b) =~= Seq::<Seq<char>>::empty());
                    break;
                },
                Some(l) => {
                    let ghost fl = first_sse_line(b);
                    assert(complete_lines(b) == seq![fl] + complete_lines(self.buffer@));
                    assert((seq![fl] + complete_lines(self.buffer@)).drop_first() =~= complete_lines(
                        self.buffer@,
                    ));
                    if !self.done {
                        match l {
                            SseLine::Done => {
                                self.done = true;
                            },
                            SseLine::Data(x) => {
                                let ghost n = actions@.len();
                                let ghost old_actions = actions@;
                                let a = self.apply_event(stream_event(x.as_str()));
                                actions.push(a);
                                assert(actions@.drop_last() =~= old_actions);
                                assert(forall|i: int| 0 <= i < n ==> actions@[i] == old_actions[i]);
                            },
                            SseLine::Other => {},
                        }
                    }
                    assert(self.progress() == line_step(before, fl));
                },
            }
        }
        actions
    }

    /// The answer and usage of a finished stream, whether it ended with
    /// `data: [DONE]` or not, and whether the first-token callback must
    /// still fire: it is owed once per stream, so when no content came it
    /// fires at the end.
    pub fn finish(self) -> (r: (bool, String, Option<(u32, u32)>))
        ensures
            r.0 == self.callback_pending(),
            r.1@ == self.response(),
            r.2 == self.usage(),
    {
        (self.callback_pending, self.response, self.usage)
    }
}


/// A `'\n'` in `a` is the first one in `a + b` too.
proof fn lemma_line_end_append(a: Seq<char>, b: Seq<char>)
    requires
        crate::text::line_end(a) < a.len(),
    ensures
        crate::text::line_end(a + b) == crate::text::line_end(a),
    decreases a.len(),
{
    if a.len() > 0 && a[0] != '\n' {
        assert((a + b).drop_first() =~= a.drop_first() + b);
        lemma_line_end_append(a.drop_first(), b);
    }
}

/// Splitting `a + b` into lines: the complete lines of `a`, then those of
/// the rest of `a` followed by `b`.
proof fn lemma_lines_append(a: Seq<char>, b: Seq<char>)
    ensures
        complete_lines(a + b) == complete_lines(a) + complete_lines(unfinished_line(a) + b),
        unfinished_line(a + b) == unfinished_line(unfinished_line(a) + b),
    decreases a.len(),
{
    crate::text::lemma_line_end(a);
    let e = crate::text::line_end(a);
    if e >= a.len() {
        assert(complete_lines(a) + complete_lines(a + b) =~= complete_lines(a + b));
    } else {
        lemma_line_end_append(a, b);
        assert((a + b).take(e) =~= a.take(e));
        assert((a + b).skip(e + 1) =~= a.skip(e + 1) + b);
        lemma_lines_append(a.skip(e + 1), b);
        assert(complete_lines(a + b) =~= complete_lines(a) + complete_lines(unfinished_line(a) + b));
    }
}

/// Reading `x + y` is reading `x`, then `y`.
proof fn lemma_lines_step_append(p: StreamProgress, x: Seq<Seq<char>>, y: Seq<Seq<char>>)
    ensures
        lines_step(p, x + y) == lines_step(lines_step(p, x), y),
    decreases x.len(),
{
    if x.len() == 0 {
        assert(x + y =~= y);
    } else {
        assert((x + y).drop_first() =~= x.drop_first() + y);
        lemma_lines_step_append(line_step(p, x[0]), x.drop_first(), y);
    }
}

/// How a streamed reply is cut into chunks does not matter: feeding the
/// chunks one by one leaves the same buffer and the same progress (answer,
/// usage, first-token callback, end of stream) as feeding their
/// concatenation at once, namely the reading of its complete lines in order.
pub proof fn lemma_chunking_irrelevant(chunks: Seq<Seq<char>>)
    ensures
        feed_all(chunks) == feed_all(seq![joined(chunks)]),
        feed_all(chunks) == (
            unfinished_line(joined(chunks)),
            lines_step(initial_progress(), complete_lines(joined(chunks))),
        ),
    decreases chunks.len(),
{
    let one = seq![joined(chunks)];
    assert(one.drop_last() =~= Seq::<Seq<char>>::empty());
    assert(feed_all(one.drop_last()) == (Seq::<char>::empty(), initial_progress()));
    assert(Seq::<char>::empty() + joined(chunks) =~= joined(chunks));
    assert(feed_all(one) == feed_step(Seq::<char>::empty(), initial_progress(), joined(chunks)));
    if chunks.len() == 0 {
        crate::text::lemma_line_end(Seq::<char>::empty());
        assert(complete_lines(Seq::<char>::empty()) =~= Seq::<Seq<char>>::empty());
    } else {
        let rest = chunks.drop_last();
        let c = chunks.last();
        lemma_chunking_irrelevant(rest);
        let j = joined(rest);
        lemma_lines_append(j, c);
        lemma_lines_step_append(initial_progress(), complete_lines(j), complete_lines(unfinished_line(j) + c));
    }
}

/// The provider in use is the first in priority order (Groq > Gemini >
/// OpenAI) that has a key; a key in the environment wins over one in the
/// configuration; and there is one exactly when first-time setup is not
/// needed.
pub proof fn lemma_resolution_follows_priority(env: EnvKeys, cfg: Config, i: int, j: int)
    ensures
        resolved_provider(env, cfg) is Some <==> any_api_key(env, cfg),
        resolved_provider(env, cfg) matches Some(p) ==> key_for(env, cfg, p) is Some,
        0 <= i < j < 3 && resolved_provider(env, cfg) == Some(priority_order()[j]) ==> key_for(
            env,
            cfg,
            priority_order()[i],
        ) is None,
        0 <= i < 3 && env.key_of(priority_order()[i]) is Some ==> key_for(
            env,
            cfg,
            priority_order()[i],
        ) == env.key_of(priority_order()[i]),
{
    if any_api_key(env, cfg) {
        let p = choose|p: Provider| env.key_of(p) is Some || cfg.api_key_of(p) is Some;
        assert(key_for(env, cfg, p) is Some);
    }
    if let Some(p) = resolved_provider(env, cfg) {
        assert(env.key_of(p) is Some || cfg.api_key_of(p) is Some);
    }
}

/// After first-time setup stores a key for a provider, with no key
/// anywhere before, API calls use that provider and that key.
pub proof fn lemma_setup_key_is_used(env: EnvKeys, cfg: Config, p: Provider, k: String)
    requires
        !any_api_key(env, cfg),
    ensures
        resolved_provider(env, cfg.with_api_key(p, Some(k))) == Some(p),
        key_for(env, cfg.with_api_key(p, Some(k)), p) == Some(k),
{
    assert(forall|q: Provider| env.key_of(q) is None && cfg.api_key_of(q) is None);
}


/// The retry policy by status: a 2xx status is accepted at any attempt;
/// a 429 or any 5xx status (500 through 599) is retried after
/// [`backoff_secs`] while fewer than [`MAX_RETRIES`] attempts were made,
/// and fails with the body after that; any other status fails with the
/// body at once; an unreachable API is retried like a 5xx and given up
/// after the last attempt.
pub proof fn lemma_retry_by_status(attempt: u32, s: u16)
    requires
        1 <= attempt,
    ensures
        200 <= s <= 299 ==> retry_step_spec(attempt, AttemptOutcome::Status(s)) == RetryStep::Accept,
        attempt < MAX_RETRIES && (s == 429 || 500 <= s <= 599) ==> retry_step_spec(
            attempt,
            AttemptOutcome::Status(s),
        ) == RetryStep::RetryAfter(backoff_secs(attempt)),
        attempt >= MAX_RETRIES && (s == 429 || 500 <= s <= 599) ==> retry_step_spec(
            attempt,
            AttemptOutcome::Status(s),
        ) == RetryStep::FailWithBody,
        !(200 <= s <= 299) && s != 429 && !(500 <= s <= 599) ==> retry_step_spec(
            attempt,
            AttemptOutcome::Status(s),
        ) == RetryStep::FailWithBody,
        attempt < MAX_RETRIES ==> retry_step_spec(attempt, AttemptOutcome::ConnectError)
            == RetryStep::RetryAfter(backoff_secs(attempt)),
        attempt >= MAX_RETRIES ==> retry_step_spec(attempt, AttemptOutcome::ConnectError)
            == RetryStep::GiveUp,
{
}

} // verus!
