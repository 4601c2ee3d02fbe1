use rewind::config::{
    apply_config_change, entered_key_change, first_time_setup, has_any_api_key, mask_key,
    plan_config_command, show_config, CachedModel, Config, ConfigChange, ConfigCommands,
    ConfigPlan, EnvKeys, ModelCache, MODEL_CACHE_TTL_SECS,
};
use rewind::error::RewindError;
use rewind::provider::Provider;

#[test]
fn test_mask_key_long() {
    let masked = mask_key("gsk_abcdefghijklmnop");
    assert_eq!(masked, "gsk_...mnop");
}

#[test]
fn test_mask_key_short() {
    assert_eq!(mask_key("abc"), "********");
    assert_eq!(mask_key("12345678"), "********");
}

#[test]
fn test_mask_key_exactly_nine() {
    let masked = mask_key("123456789");
    assert_eq!(masked, "1234...6789");
}

#[test]
fn test_config_get_set_api_key() {
    let mut config = Config::default();
    assert!(config.get_api_key(Provider::Groq).is_none());

    config.set_api_key(Provider::Groq, Some("test_key".to_string()));
    assert_eq!(config.get_api_key(Provider::Groq).unwrap(), "test_key");

    config.set_api_key(Provider::Groq, None);
    assert!(config.get_api_key(Provider::Groq).is_none());
}

#[test]
fn test_config_get_set_model() {
    let mut config = Config::default();
    assert!(config.get_model(Provider::Gemini).is_none());

    config.set_model(Provider::Gemini, Some("gemini-pro".to_string()));
    assert_eq!(config.get_model(Provider::Gemini).unwrap(), "gemini-pro");
}

#[test]
fn mask_key_reads_bytes() {
    // Eight bytes in four characters: masked entirely.
    assert_eq!(mask_key("éééé"), "********");
}

#[test]
fn setting_one_provider_leaves_the_others() {
    let mut c = Config::default();
    c.set_api_key(Provider::Gemini, Some("g".to_string()));
    c.set_model(Provider::OpenAi, Some("m".to_string()));
    assert!(c.get_api_key(Provider::Groq).is_none());
    assert!(c.get_api_key(Provider::OpenAi).is_none());
    assert_eq!(c.get_api_key(Provider::Gemini).unwrap(), "g");
    assert!(c.get_model(Provider::Gemini).is_none());
    assert_eq!(c.get_model(Provider::OpenAi).unwrap(), "m");
}

#[test]
fn merge_prefers_the_other_settings() {
    let mut base = Config::default();
    base.set_api_key(Provider::Groq, Some("base-groq".to_string()));
    base.set_api_key(Provider::Gemini, Some("base-gemini".to_string()));
    base.system_prompt = Some("base prompt".to_string());
    let mut local = Config::default();
    local.set_api_key(Provider::Groq, Some("local-groq".to_string()));
    local.set_model(Provider::OpenAi, Some("local-model".to_string()));
    base.merge(local);
    assert_eq!(base.get_api_key(Provider::Groq).unwrap(), "local-groq");
    assert_eq!(base.get_api_key(Provider::Gemini).unwrap(), "base-gemini");
    assert_eq!(base.get_model(Provider::OpenAi).unwrap(), "local-model");
    assert_eq!(base.system_prompt.as_deref(), Some("base prompt"));
    base.merge(Config::default());
    assert_eq!(base.get_api_key(Provider::Groq).unwrap(), "local-groq");
}

#[test]
fn cached_model_is_fresh_for_a_day() {
    let mut c = Config::default();
    c.set_cached_model_at(Provider::Gemini, "gemini-x".to_string(), 1_000);
    assert_eq!(c.cached_model_at(Provider::Gemini, 1_000).as_deref(), Some("gemini-x"));
    assert_eq!(
        c.cached_model_at(Provider::Gemini, 1_000 + MODEL_CACHE_TTL_SECS - 1).as_deref(),
        Some("gemini-x")
    );
    assert_eq!(c.cached_model_at(Provider::Gemini, 1_000 + MODEL_CACHE_TTL_SECS), None);
    // A clock that went back counts as fresh.
    assert_eq!(c.cached_model_at(Provider::Gemini, 10).as_deref(), Some("gemini-x"));
    assert_eq!(c.cached_model_at(Provider::Groq, 1_000), None);
}

#[test]
fn cached_model_with_the_clock() {
    let mut c = Config::default();
    assert_eq!(c.get_cached_model(Provider::Groq), None);
    c.set_cached_model(Provider::Groq, "llama".to_string());
    assert_eq!(c.get_cached_model(Provider::Groq).as_deref(), Some("llama"));
}

#[test]
fn model_cache_replaces_entries() {
    let mut m = ModelCache::new();
    m.insert("groq".to_string(), CachedModel { model: "a".to_string(), cached_at: 1 });
    m.insert("gemini".to_string(), CachedModel { model: "b".to_string(), cached_at: 2 });
    m.insert("groq".to_string(), CachedModel { model: "c".to_string(), cached_at: 3 });
    assert_eq!(m.len(), 2);
    let g = m.get("groq").unwrap();
    assert_eq!((g.model.as_str(), g.cached_at), ("c", 3));
    assert!(m.get("openai").is_none());
    let (k, v) = m.entry_at(1);
    assert_eq!((k.as_str(), v.model.as_str()), ("gemini", "b"));
}

#[test]
fn config_commands_plan_and_apply() {
    let plan = plan_config_command(ConfigCommands::SetApiKey {
        provider: "GROQ".to_string(),
        key: None,
    })
    .unwrap();
    assert!(matches!(plan, ConfigPlan::PromptForKey(Provider::Groq)));
    let err = plan_config_command(ConfigCommands::Clear {
        provider: "mistral".to_string(),
    });
    assert!(matches!(err, Err(RewindError::UnknownProvider { .. })));

    let mut c = Config::default();
    let change = entered_key_change(Provider::Groq, "  gsk_123  \n").unwrap();
    assert_eq!(apply_config_change(&mut c, change), "API key for Groq has been set.");
    assert_eq!(c.get_api_key(Provider::Groq).unwrap(), "gsk_123");
    assert_eq!(
        entered_key_change(Provider::Groq, " \t ").unwrap_err(),
        RewindError::EmptyApiKey
    );

    let plan = plan_config_command(ConfigCommands::Model {
        provider: "openai".to_string(),
        model: "gpt-x".to_string(),
    })
    .unwrap();
    match plan {
        ConfigPlan::Apply(change) => {
            assert_eq!(
                apply_config_change(&mut c, change),
                "Custom model 'gpt-x' for OpenAI has been set."
            );
        }
        _ => panic!("expected a change"),
    }
    assert_eq!(c.get_model(Provider::OpenAi).unwrap(), "gpt-x");

    c.set_model(Provider::Groq, Some("m".to_string()));
    assert_eq!(
        apply_config_change(&mut c, ConfigChange::ClearProvider(Provider::Groq)),
        "Settings for Groq have been cleared."
    );
    assert!(c.get_api_key(Provider::Groq).is_none());
    assert!(c.get_model(Provider::Groq).is_none());

    assert_eq!(
        apply_config_change(&mut c, ConfigChange::SetSystemPrompt(Some("p".to_string()))),
        "Custom system prompt has been set."
    );
    assert_eq!(c.system_prompt.as_deref(), Some("p"));
    assert_eq!(
        apply_config_change(&mut c, ConfigChange::SetSystemPrompt(None)),
        "Custom system prompt has been cleared."
    );
    assert!(c.system_prompt.is_none());
    assert!(matches!(
        plan_config_command(ConfigCommands::Show),
        Ok(ConfigPlan::Show)
    ));
}

#[test]
fn show_config_reports_each_provider() {
    let mut c = Config::default();
    c.set_api_key(Provider::Groq, Some("gsk_abcdefghijklmnop".to_string()));
    c.set_api_key(Provider::OpenAi, Some("sk-12345678".to_string()));
    c.set_model(Provider::OpenAi, Some("gpt-custom".to_string()));
    c.system_prompt = Some("be brief".to_string());
    let r = show_config(&c);
    assert_eq!(r.providers.len(), 3);
    let groq = r.providers[0].configured.as_ref().unwrap();
    assert_eq!(r.providers[0].provider, Provider::Groq);
    assert_eq!(groq.masked_key, "gsk_...mnop");
    assert_eq!(groq.model, "llama-3.3-70b-versatile (default)");
    assert!(r.providers[1].configured.is_none());
    let openai = r.providers[2].configured.as_ref().unwrap();
    assert_eq!(openai.masked_key, "sk-1...5678");
    assert_eq!(openai.model, "gpt-custom");
    assert_eq!(r.system_prompt.as_deref(), Some("be brief"));
}

fn no_env() -> EnvKeys {
    EnvKeys {
        groq: None,
        gemini: None,
        openai: None,
    }
}

#[test]
fn first_time_setup_stores_the_detected_key() {
    let mut c = Config::default();
    assert!(!has_any_api_key(&no_env(), &c));
    let mut env = no_env();
    env.openai = Some("x".to_string());
    assert!(has_any_api_key(&env, &c));

    assert_eq!(
        first_time_setup(&mut c, "   ").unwrap_err(),
        RewindError::NoKeyEntered
    );
    assert_eq!(
        first_time_setup(&mut c, " AIzaXYZ \n").unwrap(),
        (Provider::Gemini, true)
    );
    assert_eq!(c.get_api_key(Provider::Gemini).unwrap(), "AIzaXYZ");
    assert!(has_any_api_key(&no_env(), &c));

    let mut d = Config::default();
    assert_eq!(
        first_time_setup(&mut d, "mystery").unwrap(),
        (Provider::OpenAi, false)
    );
    assert_eq!(d.get_api_key(Provider::OpenAi).unwrap(), "mystery");
}
