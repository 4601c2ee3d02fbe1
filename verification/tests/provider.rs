use rewind::error::RewindError;
use rewind::provider::Provider;

#[test]
fn test_from_name_valid() {
    assert_eq!(Provider::from_name("groq").unwrap(), Provider::Groq);
    assert_eq!(Provider::from_name("Gemini").unwrap(), Provider::Gemini);
    assert_eq!(Provider::from_name("OPENAI").unwrap(), Provider::OpenAi);
    assert_eq!(Provider::from_name("OpenAI").unwrap(), Provider::OpenAi);
}

#[test]
fn test_from_name_invalid() {
    assert!(Provider::from_name("anthropic").is_err());
    assert!(Provider::from_name("").is_err());
    assert!(Provider::from_name("gro").is_err());
}

#[test]
fn test_detect_from_key() {
    assert_eq!(Provider::detect_from_key("gsk_abc123").0, Provider::Groq);
    assert_eq!(
        Provider::detect_from_key("AIzaSyB_something").0,
        Provider::Gemini
    );
    assert_eq!(Provider::detect_from_key("sk-proj-abc").0, Provider::OpenAi);
    // Unknown prefix falls back to OpenAI
    assert_eq!(Provider::detect_from_key("random_key").0, Provider::OpenAi);
    assert_eq!(Provider::detect_from_key("random_key").1, false);
}

#[test]
fn test_all_providers_priority_order() {
    let all = Provider::all();
    assert_eq!(all.len(), 3);
    assert_eq!(all[0], Provider::Groq);
    assert_eq!(all[1], Provider::Gemini);
    assert_eq!(all[2], Provider::OpenAi);
}

#[test]
fn test_env_key_names() {
    assert_eq!(Provider::Groq.env_key_name(), "GROQ_API_KEY");
    assert_eq!(Provider::Gemini.env_key_name(), "GEMINI_API_KEY");
    assert_eq!(Provider::OpenAi.env_key_name(), "OPENAI_API_KEY");
}

#[test]
fn test_default_models_are_non_empty() {
    for provider in Provider::all() {
        assert!(!provider.default_model().is_empty());
        assert!(!provider.default_api_base().is_empty());
        assert!(!provider.display_name().is_empty());
    }
}

#[test]
fn from_name_error_carries_the_name_and_message() {
    let err = Provider::from_name("Anthropic").unwrap_err();
    assert_eq!(
        err,
        RewindError::UnknownProvider {
            name: "Anthropic".to_string()
        }
    );
    assert_eq!(
        err.message(),
        "Unknown provider: 'Anthropic'. Supported providers are: groq, gemini, openai."
    );
}

#[test]
fn from_name_ignores_case_of_every_letter() {
    assert_eq!(Provider::from_name("gRoQ").unwrap(), Provider::Groq);
    assert_eq!(Provider::from_name("GEMINI").unwrap(), Provider::Gemini);
    assert!(Provider::from_name(" groq").is_err());
    assert!(Provider::from_name("groqq").is_err());
}

#[test]
fn names_round_trip_through_from_name() {
    for &p in Provider::all() {
        assert_eq!(Provider::from_name(p.cache_key()).unwrap(), p);
        assert_eq!(Provider::from_name(p.display_name()).unwrap(), p);
    }
}

#[test]
fn detect_from_key_rejects_anthropic_and_short_keys() {
    assert_eq!(
        Provider::detect_from_key("sk-ant-api03-xyz"),
        (Provider::OpenAi, false)
    );
    assert_eq!(Provider::detect_from_key("sk-"), (Provider::OpenAi, true));
    assert_eq!(Provider::detect_from_key("gsk"), (Provider::OpenAi, false));
    assert_eq!(Provider::detect_from_key(""), (Provider::OpenAi, false));
    assert_eq!(Provider::detect_from_key("gsk_x"), (Provider::Groq, true));
    assert_eq!(Provider::detect_from_key("AIza"), (Provider::Gemini, true));
}

#[test]
fn fixed_properties_of_each_provider() {
    assert_eq!(Provider::Groq.display_name(), "Groq");
    assert_eq!(Provider::Gemini.display_name(), "Gemini");
    assert_eq!(Provider::OpenAi.display_name(), "OpenAI");
    assert_eq!(Provider::Groq.default_model(), "llama-3.3-70b-versatile");
    assert_eq!(Provider::Gemini.default_model(), "gemini-2.0-flash");
    assert_eq!(Provider::OpenAi.default_model(), "gpt-4o-mini");
    assert_eq!(Provider::Groq.cache_key(), "groq");
    assert_eq!(Provider::Gemini.cache_key(), "gemini");
    assert_eq!(Provider::OpenAi.cache_key(), "openai");
    assert_eq!(Provider::Groq.default_api_base(), "https://api.groq.com/openai/v1");
    assert_eq!(
        Provider::Gemini.default_api_base(),
        "https://generativelanguage.googleapis.com/v1beta/openai"
    );
    assert_eq!(Provider::OpenAi.default_api_base(), "https://api.openai.com/v1");
}
