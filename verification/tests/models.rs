use rewind::models::{choose_best_model, model_ids};
use rewind::provider::Provider;

fn ids(v: &[&str]) -> Vec<String> {
    v.iter().map(|s| s.to_string()).collect()
}

#[test]
fn no_models_gives_the_default() {
    assert_eq!(choose_best_model(&ids(&[]), Provider::Groq), "llama-3.3-70b-versatile");
    assert_eq!(
        choose_best_model(&ids(&["whisper-large-v3", "Text-Embedding-3"]), Provider::OpenAi),
        "gpt-4o-mini"
    );
}

#[test]
fn groq_preferences() {
    assert_eq!(
        choose_best_model(
            &ids(&["whisper-large-v3", "mixtral-8x7b", "llama-3.1-70b-versatile"]),
            Provider::Groq
        ),
        "llama-3.1-70b-versatile"
    );
    assert_eq!(
        choose_best_model(&ids(&["gemma-7b", "mixtral-8x7b", "llama3-8b"]), Provider::Groq),
        "mixtral-8x7b"
    );
    assert_eq!(
        choose_best_model(&ids(&["gemma-7b", "llama-guard"]), Provider::Groq),
        "llama-guard"
    );
    assert_eq!(choose_best_model(&ids(&["gemma-7b"]), Provider::Groq), "gemma-7b");
}

#[test]
fn gemini_and_openai_preferences() {
    assert_eq!(
        choose_best_model(&ids(&["models/gemini-pro", "models/gemini-1.5-flash"]), Provider::Gemini),
        "models/gemini-1.5-flash"
    );
    assert_eq!(
        choose_best_model(&ids(&["gpt-4", "gpt-3.5-turbo", "GPT-4o-Mini-TTS"]), Provider::OpenAi),
        "gpt-3.5-turbo"
    );
    assert_eq!(
        choose_best_model(&ids(&["o1", "gpt-4", "gpt-4o-mini"]), Provider::OpenAi),
        "gpt-4o-mini"
    );
    assert_eq!(choose_best_model(&ids(&["o1", "gpt-4"]), Provider::OpenAi), "gpt-4");
}

#[test]
fn model_list_body() {
    let body = r#"{"object":"list","data":[{"id":"whisper-large-v3"},{"id":7},{"name":"x"},{"id":"llama-3.1-8b-instant"},{"id":"llama-3.3-70b-versatile"}]}"#;
    assert_eq!(
        model_ids(body),
        vec![
            "whisper-large-v3".to_string(),
            "llama-3.1-8b-instant".to_string(),
            "llama-3.3-70b-versatile".to_string()
        ]
    );
    assert_eq!(choose_best_model(&model_ids(body), Provider::Groq), "llama-3.3-70b-versatile");
    assert!(model_ids(r#"{"data":{"0":{"id":"a"}}}"#).is_empty());
    assert!(model_ids("oops").is_empty());
    assert_eq!(choose_best_model(&model_ids("oops"), Provider::Gemini), "gemini-2.0-flash");
}
