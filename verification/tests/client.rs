use rewind::client::{
    chat_request, choice_text_from_nodes, choose_model, completion_from_body, completion_result,
    counts_from_nodes, diagnostics, resolve_api_base, stream_event,
    resolve_provider_and_key, retry_step, AttemptOutcome, KeySource, ModelChoice, RetryStep,
    SseLine, StreamEvent, StreamState, TokenCounts, MAX_RESPONSE_TOKENS, MAX_RETRIES,
};
use rewind::config::{Config, EnvKeys};
use rewind::error::RewindError;
use rewind::json::JsonNode;
use rewind::provider::Provider;

fn env(groq: Option<&str>, gemini: Option<&str>, openai: Option<&str>) -> EnvKeys {
    EnvKeys {
        groq: groq.map(|s| s.to_string()),
        gemini: gemini.map(|s| s.to_string()),
        openai: openai.map(|s| s.to_string()),
    }
}

#[test]
fn provider_priority_groq_gemini_openai() {
    let mut cfg = Config::default();
    assert_eq!(
        resolve_provider_and_key(&env(None, None, None), &cfg).unwrap_err(),
        RewindError::ApiKeyNotConfigured
    );
    cfg.set_api_key(Provider::OpenAi, Some("cfg-openai".to_string()));
    cfg.set_api_key(Provider::Gemini, Some("cfg-gemini".to_string()));
    assert_eq!(
        resolve_provider_and_key(&env(None, None, Some("env-openai")), &cfg).unwrap(),
        (Provider::Gemini, "cfg-gemini".to_string())
    );
    assert_eq!(
        resolve_provider_and_key(&env(None, Some("env-gemini"), None), &cfg).unwrap(),
        (Provider::Gemini, "env-gemini".to_string())
    );
    assert_eq!(
        resolve_provider_and_key(&env(Some("env-groq"), None, None), &cfg).unwrap(),
        (Provider::Groq, "env-groq".to_string())
    );
}

#[test]
fn api_base_strips_trailing_slashes() {
    assert_eq!(
        resolve_api_base(Some("http://localhost:11434/v1//".to_string()), Provider::Groq),
        "http://localhost:11434/v1"
    );
    assert_eq!(resolve_api_base(None, Provider::OpenAi), "https://api.openai.com/v1");
}

#[test]
fn model_choice_order() {
    let mut cfg = Config::default();
    assert!(matches!(
        choose_model(None, &cfg, Provider::Groq, 5),
        ModelChoice::Discover
    ));
    cfg.set_cached_model_at(Provider::Groq, "cached".to_string(), 5);
    match choose_model(None, &cfg, Provider::Groq, 6) {
        ModelChoice::Use(m) => assert_eq!(m, "cached"),
        ModelChoice::Discover => panic!("expected the cached model"),
    }
    assert!(matches!(
        choose_model(None, &cfg, Provider::Groq, 5 + 86_400),
        ModelChoice::Discover
    ));
    cfg.set_model(Provider::Groq, Some("configured".to_string()));
    match choose_model(None, &cfg, Provider::Groq, 6) {
        ModelChoice::Use(m) => assert_eq!(m, "configured"),
        ModelChoice::Discover => panic!("expected the configured model"),
    }
    match choose_model(Some("env".to_string()), &cfg, Provider::Groq, 6) {
        ModelChoice::Use(m) => assert_eq!(m, "env"),
        ModelChoice::Discover => panic!("expected the environment model"),
    }
}

#[test]
fn diagnostics_report() {
    let mut cfg = Config::default();
    assert!(diagnostics(&env(None, None, None), None, None, &cfg, 0).is_none());
    cfg.set_api_key(Provider::Gemini, Some("k".to_string()));
    let d = diagnostics(&env(None, None, None), Some("http://x/".to_string()), None, &cfg, 0)
        .unwrap();
    assert_eq!(d.provider, Provider::Gemini);
    assert_eq!(d.source, KeySource::ConfigFile);
    assert_eq!(d.api_base, "http://x/");
    assert_eq!(d.model, "gemini-2.0-flash (auto-discover)");
    let d = diagnostics(&env(Some("g"), None, None), None, Some("m".to_string()), &cfg, 0).unwrap();
    assert_eq!(d.provider, Provider::Groq);
    assert_eq!(d.source, KeySource::Environment);
    assert_eq!(d.api_base, "https://api.groq.com/openai/v1");
    assert_eq!(d.model, "m");
}

#[test]
fn request_fields() {
    let r = chat_request("m".to_string(), "sys", "user", true);
    assert_eq!(r.model, "m");
    assert_eq!(r.messages.len(), 2);
    assert_eq!((r.messages[0].role.as_str(), r.messages[0].content.as_str()), ("system", "sys"));
    assert_eq!((r.messages[1].role.as_str(), r.messages[1].content.as_str()), ("user", "user"));
    assert_eq!(r.temperature_tenths, 7);
    assert_eq!(r.max_tokens, MAX_RESPONSE_TOKENS);
    assert!(r.stream);
    assert!(r.include_usage);
    let w = chat_request("m".to_string(), "sys", "user", false);
    assert!(!w.stream);
    assert!(!w.include_usage);
    assert_eq!(w.temperature_tenths, 7);
}

#[test]
fn retries_with_backoff() {
    assert_eq!(retry_step(1, AttemptOutcome::Status(200)), RetryStep::Accept);
    assert_eq!(retry_step(3, AttemptOutcome::Status(204)), RetryStep::Accept);
    assert_eq!(retry_step(1, AttemptOutcome::Status(429)), RetryStep::RetryAfter(1));
    assert_eq!(retry_step(2, AttemptOutcome::Status(503)), RetryStep::RetryAfter(2));
    assert_eq!(retry_step(MAX_RETRIES, AttemptOutcome::Status(503)), RetryStep::FailWithBody);
    assert_eq!(retry_step(1, AttemptOutcome::Status(404)), RetryStep::FailWithBody);
    assert_eq!(retry_step(1, AttemptOutcome::ConnectError), RetryStep::RetryAfter(1));
    assert_eq!(retry_step(MAX_RETRIES, AttemptOutcome::ConnectError), RetryStep::GiveUp);
    assert_eq!(
        RewindError::ConnectionFailed.message(),
        "Failed to connect to the AI API"
    );
    assert_eq!(
        RewindError::ApiError { body: "bad".to_string() }.message(),
        "API returned an error: bad"
    );
}

#[test]
fn whole_reply_result() {
    let counts = TokenCounts {
        prompt_tokens: Some(10),
        completion_tokens: Some(5),
    };
    assert_eq!(
        completion_result(Some("hi".to_string()), Some(counts)).unwrap(),
        ("hi".to_string(), Some((10, 5)))
    );
    let half = TokenCounts {
        prompt_tokens: Some(10),
        completion_tokens: None,
    };
    assert_eq!(
        completion_result(Some("hi".to_string()), Some(half)).unwrap(),
        ("hi".to_string(), None)
    );
    let big = TokenCounts {
        prompt_tokens: Some((1u64 << 32) + 7),
        completion_tokens: Some(1),
    };
    assert_eq!(
        completion_result(Some("x".to_string()), Some(big)).unwrap().1,
        Some((7, 1))
    );
    assert_eq!(
        completion_result(None, None).unwrap_err(),
        RewindError::MissingResponseContent
    );
}

fn event(content: Option<&str>, usage: Option<(u64, u64)>, groq: Option<(u64, u64)>) -> StreamEvent {
    let counts = |u: Option<(u64, u64)>| {
        u.map(|(p, c)| TokenCounts {
            prompt_tokens: Some(p),
            completion_tokens: Some(c),
        })
    };
    StreamEvent {
        usage: counts(usage),
        groq_usage: counts(groq),
        content: content.map(|s| s.to_string()),
    }
}

#[test]
fn stream_lines_and_events() {
    let mut s = StreamState::new();
    s.push_chunk("data: {\"a\":1}\r\n: keep-alive\ndata: par");
    match s.next_line() {
        Some(SseLine::Data(d)) => assert_eq!(d, "{\"a\":1}"),
        _ => panic!("expected a data line"),
    }
    assert!(matches!(s.next_line(), Some(SseLine::Other)));
    assert!(s.next_line().is_none());
    s.push_chunk("tial\ndata:  [DONE] \n");
    match s.next_line() {
        Some(SseLine::Data(d)) => assert_eq!(d, "partial"),
        _ => panic!("expected a data line"),
    }
    assert!(matches!(s.next_line(), Some(SseLine::Done)));
    assert!(s.next_line().is_none());

    let a = s.apply_event(event(None, None, Some((3, 4))));
    assert!(!a.fire_callback);
    assert!(a.print.is_none());
    let a = s.apply_event(event(Some("Hel"), None, None));
    assert!(a.fire_callback);
    assert_eq!(a.print.as_deref(), Some("Hel"));
    let a = s.apply_event(event(Some("lo"), Some((9, 9)), Some((1, 1))));
    assert!(!a.fire_callback);
    assert_eq!(a.print.as_deref(), Some("lo"));
    assert_eq!(s.finish(), (false, "Hello".to_string(), Some((9, 9))));
}

#[test]
fn stream_without_content_still_fires() {
    let mut s = StreamState::new();
    s.push_chunk("data: {}\n");
    assert!(matches!(s.next_line(), Some(SseLine::Data(_))));
    let _ = s.apply_event(event(None, None, None));
    let (fire, text, usage) = s.finish();
    assert!(fire);
    assert_eq!(text, "");
    assert_eq!(usage, None);
}

#[test]
fn whole_reply_body() {
    let body = r#"{"choices":[{"message":{"role":"assistant","content":"Hello"}}],"usage":{"prompt_tokens":12,"completion_tokens":5,"total_tokens":17}}"#;
    assert_eq!(completion_from_body(body).unwrap(), ("Hello".to_string(), Some((12, 5))));
    let no_usage = r#"{"choices":[{"message":{"content":"Hi"}}]}"#;
    assert_eq!(completion_from_body(no_usage).unwrap(), ("Hi".to_string(), None));
    let partial_usage = r#"{"choices":[{"message":{"content":"Hi"}}],"usage":{"prompt_tokens":3}}"#;
    assert_eq!(completion_from_body(partial_usage).unwrap(), ("Hi".to_string(), None));
    let no_content = r#"{"choices":[{"message":{"content":null}}]}"#;
    assert_eq!(completion_from_body(no_content).unwrap_err(), RewindError::MissingResponseContent);
    let choices_object = r#"{"choices":{"0":{"message":{"content":"Hi"}}}}"#;
    assert_eq!(
        completion_from_body(choices_object).unwrap_err(),
        RewindError::MissingResponseContent
    );
    assert_eq!(completion_from_body("<html>").unwrap_err(), RewindError::UndecodableResponse);
    assert_eq!(
        RewindError::UndecodableResponse.message(),
        "error decoding response body"
    );
}

#[test]
fn payload_events() {
    let ev = stream_event(r#"{"choices":[{"delta":{"content":"Hel"}}],"usage":null}"#);
    assert_eq!(ev.content, Some("Hel".to_string()));
    assert!(ev.usage.is_some());
    assert_eq!(ev.usage.as_ref().unwrap().prompt_tokens, None);
    assert!(ev.groq_usage.is_none());

    let ev = stream_event(
        r#"{"choices":[{"delta":{}}],"x_groq":{"usage":{"prompt_tokens":7,"completion_tokens":9}}}"#,
    );
    assert_eq!(ev.content, None);
    assert!(ev.usage.is_none());
    let g = ev.groq_usage.unwrap();
    assert_eq!((g.prompt_tokens, g.completion_tokens), (Some(7), Some(9)));

    let ev = stream_event("not json");
    assert!(ev.content.is_none() && ev.usage.is_none() && ev.groq_usage.is_none());

    // The usage of the last payload replaces the one before.
    let mut state = StreamState::new();
    state.apply_event(stream_event(
        r#"{"choices":[{"delta":{"content":"Hi"}}],"usage":{"prompt_tokens":1,"completion_tokens":1}}"#,
    ));
    state.apply_event(stream_event(
        r#"{"choices":[],"usage":{"prompt_tokens":20,"completion_tokens":2}}"#,
    ));
    state.apply_event(stream_event(r#"{"choices":[],"usage":null}"#));
    assert_eq!(state.finish(), (false, "Hi".to_string(), Some((20, 2))));
}

#[test]
fn node_based_readings() {
    let c = counts_from_nodes(
        Some(JsonNode::Object),
        Some(JsonNode::Number(Some(4))),
        Some(JsonNode::Str("x".to_string())),
    )
    .unwrap();
    assert_eq!((c.prompt_tokens, c.completion_tokens), (Some(4), None));
    assert!(counts_from_nodes(None, Some(JsonNode::Number(Some(4))), None).is_none());
    assert_eq!(
        choice_text_from_nodes(Some(JsonNode::Array(1)), Some(JsonNode::Str("a".to_string()))),
        Some("a".to_string())
    );
    assert_eq!(
        choice_text_from_nodes(Some(JsonNode::Object), Some(JsonNode::Str("a".to_string()))),
        None
    );
}

type StreamRun = (bool, Vec<(bool, Option<String>)>, bool, String, Option<(u32, u32)>);

fn run_chunks(chunks: &[&str]) -> StreamRun {
    let mut s = StreamState::new();
    let mut acts = Vec::new();
    for c in chunks {
        for a in s.feed(c) {
            acts.push((a.fire_callback, a.print));
        }
    }
    let done = s.is_done();
    let (owed, r, u) = s.finish();
    (done, acts, owed, r, u)
}

#[test]
fn stream_chunking_does_not_matter() {
    let whole = "data: {\"choices\":[{\"delta\":{\"content\":\"Hé\"}}]}\r\n\ndata: {\"choices\":[{\"delta\":{\"content\":\"llo\"}}],\"usage\":{\"prompt_tokens\":3,\"completion_tokens\":2}}\ndata: [DONE]\ndata: {\"choices\":[{\"delta\":{\"content\":\"late\"}}]}\n";
    let at_once = run_chunks(&[whole]);
    assert_eq!(at_once.0, true);
    assert_eq!(at_once.2, false);
    assert_eq!(at_once.3, "Héllo");
    assert_eq!(at_once.4, Some((3, 2)));
    assert_eq!(
        at_once.1,
        vec![(true, Some("Hé".to_string())), (false, Some("llo".to_string()))]
    );
    // Cut at every character boundary, and one character at a time.
    let chars: Vec<char> = whole.chars().collect();
    for cut in 0..=chars.len() {
        let a: String = chars[..cut].iter().collect();
        let b: String = chars[cut..].iter().collect();
        assert_eq!(run_chunks(&[&a, &b]), at_once);
    }
    let singles: Vec<String> = chars.iter().map(|c| c.to_string()).collect();
    let refs: Vec<&str> = singles.iter().map(|s| s.as_str()).collect();
    assert_eq!(run_chunks(&refs), at_once);
}

#[test]
fn stream_without_done_keeps_unfinished_line() {
    let (done, acts, owed, r, u) =
        run_chunks(&["data: [DONE", "data: {\"choices\":[{\"delta\":{\"content\":\"x\"}}]}"]);
    assert!(!done);
    assert!(acts.is_empty());
    assert!(owed);
    assert_eq!((r, u), (String::new(), None));
}

#[test]
fn callback_owed_when_done_comes_first() {
    let (done, acts, owed, r, u) = run_chunks(&[
        "data: {\"choices\":[],\"usage\":{\"prompt_tokens\":5,\"completion_tokens\":0}}\n",
        "data: [DONE]\n",
    ]);
    assert!(done);
    assert_eq!(acts, vec![(false, None)]);
    assert!(owed);
    assert_eq!((r, u), (String::new(), Some((5, 0))));
}
