use gptranslate::alternatives::plan_alternatives;
use gptranslate::chat::{azure_translate_plan, openai_translate_plan};
use gptranslate::config::{Config, ModelConfig};
use gptranslate::language::effective_target;
use gptranslate::ollama::ollama_translate_plan;
use gptranslate::provider::{create_provider, is_reasoning_model_name, ProviderKind};
use gptranslate::translation::{parse_response_content, Error, TranslationService};
use gptranslate::translator::translator_target_code;

fn base_config() -> Config {
    let mut c = Config::default();
    c.api_provider = "openai".to_string();
    c.model = "gpt-4o".to_string();
    c.openai_api_key = "test-key".to_string();
    c.target_language = "English".to_string();
    c.alternative_target_language = "Spanish".to_string();
    c
}

#[test]
fn switch_policy_picks_the_alternative_on_a_match() {
    assert_eq!(effective_target("French", "French", "Spanish"), "Spanish");
    assert_eq!(effective_target("German", "French", "Spanish"), "French");
}

#[test]
fn switch_policy_is_case_insensitive() {
    assert_eq!(effective_target("FRENCH", "french", "Spanish"), "Spanish");
    assert_eq!(effective_target("english", "English", "Spanish"), "Spanish");
}

#[test]
fn decoded_reply_carries_the_effective_target() {
    let r = parse_response_content(
        "{\"detected_language\":\"English\",\"translated_text\":\"Hola\"}",
        "English",
        "Spanish",
    );
    assert_eq!(r.target_language, "Spanish");
    let r2 = parse_response_content(
        "{\"detected_language\":\"French\",\"translated_text\":\"Hi\"}",
        "English",
        "Spanish",
    );
    assert_eq!(r2.target_language, "English");
}

#[test]
fn duplicate_requests_inside_the_window_are_refused() {
    let mut s = TranslationService::new(base_config());
    assert!(s.begin_request("the same text", 1_000).is_ok());
    let second = s.begin_request("the same text", 1_400);
    assert!(matches!(second, Err(Error::DuplicateRequest)));
}

#[test]
fn spaced_requests_both_succeed() {
    let mut s = TranslationService::new(base_config());
    assert!(s.begin_request("the same text", 1_000).is_ok());
    assert!(s.begin_request("the same text", 1_600).is_ok());
}

#[test]
fn released_requests_are_never_blocked() {
    let mut s = TranslationService::new(base_config());
    assert!(s.begin_request("the same text", 1_000).is_ok());
    s.end_request("the same text");
    assert!(s.begin_request("the same text", 1_100).is_ok());
}

#[test]
fn an_admitted_retry_renews_the_window() {
    let mut s = TranslationService::new(base_config());
    assert!(s.begin_request("the same text", 1_000).is_ok());
    assert!(s.begin_request("the same text", 1_600).is_ok());
    let third = s.begin_request("the same text", 1_900);
    assert!(matches!(third, Err(Error::DuplicateRequest)));
}

#[test]
fn stale_fingerprints_are_purged() {
    let mut s = TranslationService::new(base_config());
    assert!(s.begin_request("the same text", 0).is_ok());
    assert!(s.begin_request("the same text", 6_000).is_ok());
}

#[test]
fn different_texts_pass_the_gate_together() {
    let mut s = TranslationService::new(base_config());
    assert!(s.begin_request("one text", 1_000).is_ok());
    assert!(s.begin_request("another text", 1_010).is_ok());
}

#[test]
fn provider_selection_never_fails() {
    assert_eq!(create_provider("openai"), ProviderKind::OpenAI);
    assert_eq!(create_provider("azure_openai"), ProviderKind::AzureOpenAI);
    assert_eq!(create_provider("azure_translator"), ProviderKind::AzureTranslator);
    assert_eq!(create_provider("ollama"), ProviderKind::Ollama);
    assert_eq!(create_provider("somebody else"), ProviderKind::OpenAI);
}

#[test]
fn reasoning_models_are_recognized_by_name() {
    assert!(is_reasoning_model_name("gpt-5-mini"));
    assert!(is_reasoning_model_name("GPT-5"));
    assert!(is_reasoning_model_name("o3-mini"));
    assert!(is_reasoning_model_name("o4-mini"));
    assert!(is_reasoning_model_name("codex-mini-latest"));
    assert!(!is_reasoning_model_name("gpt-4o"));
    assert!(!is_reasoning_model_name("llama3"));
}

#[test]
fn fallback_spec_resolves_the_first_enabled_model() {
    let mut c = base_config();
    c.available_models = vec![(
        "openai".to_string(),
        vec![ModelConfig {
            name: "gpt-x".to_string(),
            display_name: "GPT X".to_string(),
            provider: "openai".to_string(),
            is_enabled: true,
            description: None,
        }],
    )];
    c.alternatives_fallback_provider = Some("openai".to_string());
    assert_eq!(
        c.parse_alternatives_fallback(),
        Some(("openai".to_string(), "gpt-x".to_string()))
    );
}

#[test]
fn fallback_spec_with_model_keeps_it() {
    let mut c = base_config();
    c.alternatives_fallback_provider = Some("ollama: llama3 ".to_string());
    assert_eq!(
        c.parse_alternatives_fallback(),
        Some(("ollama".to_string(), "llama3".to_string()))
    );
}

#[test]
fn fallback_spec_rejects_unknown_providers() {
    let mut c = base_config();
    c.alternatives_fallback_provider = Some("bing:x".to_string());
    assert_eq!(c.parse_alternatives_fallback(), None);
    c.alternatives_fallback_provider = Some("   ".to_string());
    assert_eq!(c.parse_alternatives_fallback(), None);
    c.alternatives_fallback_provider = None;
    assert_eq!(c.parse_alternatives_fallback(), None);
}

#[test]
fn fallback_spec_falls_back_to_the_deployment_name() {
    let mut c = base_config();
    c.api_provider = "azure_translator".to_string();
    c.azure_deployment_name = "my-deployment".to_string();
    c.alternatives_fallback_provider = Some("azure_openai".to_string());
    assert_eq!(
        c.parse_alternatives_fallback(),
        Some(("azure_openai".to_string(), "my-deployment".to_string()))
    );
}

#[test]
fn deployment_name_follows_the_model() {
    let mut c = base_config();
    c.api_provider = "azure_openai".to_string();
    c.model = "gpt-4o".to_string();
    c.azure_deployment_name = "old".to_string();
    c.ensure_azure_deployment_consistency();
    assert_eq!(c.azure_deployment_name, "gpt-4o");
}

#[test]
fn openai_plan_carries_the_prompt_and_auth() {
    let plan = openai_translate_plan(&base_config(), "  hello there  ");
    assert_eq!(plan.url, "https://api.openai.com/v1/chat/completions");
    assert_eq!(plan.auth_header_name, "Authorization");
    assert!(plan.auth_header_value.starts_with("Bearer "));
    assert!(plan.body.contains("\"model\":\"gpt-4o\""));
    assert!(plan.body.contains("\"temperature\":0.3"));
    assert!(plan.body.contains("Text to translate: \\\"hello there\\\""));
    assert!(plan.body.contains("\"role\":\"system\""));
}

#[test]
fn openai_plan_uses_reasoning_parameters() {
    let mut c = base_config();
    c.model = "o3-mini".to_string();
    let plan = openai_translate_plan(&c, "hello");
    assert!(plan.body.contains("\"max_completion_tokens\":800"));
    assert!(plan.body.contains("\"reasoning\":{\"effort\":\"medium\"}"));
    assert!(plan.body.contains("\"role\":\"developer\""));
    assert!(!plan.body.contains("temperature"));
}

#[test]
fn azure_plan_requires_a_model_or_deployment() {
    let mut c = base_config();
    c.api_provider = "azure_openai".to_string();
    c.model = "".to_string();
    c.azure_deployment_name = "  ".to_string();
    match azure_translate_plan(&c, "hello") {
        Err(Error::ApiError(m)) => {
            assert_eq!(m, "Model / deployment not configured for Azure OpenAI provider")
        },
        _ => panic!("expected a configuration error"),
    }
}

#[test]
fn azure_plan_builds_both_endpoint_layouts() {
    let mut c = base_config();
    c.api_provider = "azure_openai".to_string();
    c.azure_deployment_name = "dep1".to_string();
    c.azure_api_version = "2024-06-01".to_string();
    c.azure_endpoint = "https://example.cognitiveservices.azure.com/".to_string();
    let plan = azure_translate_plan(&c, "hi").unwrap();
    assert_eq!(
        plan.url,
        "https://example.cognitiveservices.azure.com/openai/deployments/dep1/chat/completions?api-version=2024-06-01"
    );
    assert_eq!(plan.auth_header_name, "api-key");
    c.azure_endpoint = "https://example.services.ai.azure.com".to_string();
    let plan2 = azure_translate_plan(&c, "hi").unwrap();
    assert_eq!(
        plan2.url,
        "https://example.services.ai.azure.com/models/chat/completions?api-version=2024-06-01"
    );
    assert!(plan2.body.contains("\"model\":\"dep1\""));
}

#[test]
fn translator_switch_works_on_codes() {
    let mut c = base_config();
    c.target_language = "English".to_string();
    c.alternative_target_language = "Spanish".to_string();
    assert_eq!(translator_target_code(&c, "en"), "es");
    assert_eq!(translator_target_code(&c, "de"), "en");
}

#[test]
fn ollama_plan_resolves_host_and_port() {
    let mut c = base_config();
    c.api_provider = "ollama".to_string();
    c.model = "llama3".to_string();
    c.ollama_url = Some("http://myhost:1234".to_string());
    let plan = ollama_translate_plan(&c, "hello").unwrap();
    assert_eq!(plan.host, "http://myhost");
    assert_eq!(plan.port, 1234);
    assert_eq!(plan.model, "llama3");
    c.ollama_url = Some("".to_string());
    let plan2 = ollama_translate_plan(&c, "hello").unwrap();
    assert_eq!(plan2.host, "http://localhost");
    assert_eq!(plan2.port, 11434);
}

#[test]
fn ollama_plan_reads_a_parsed_url() {
    let mut c = base_config();
    c.api_provider = "ollama".to_string();
    c.model = "llama3".to_string();
    // A URL the hand-rolled fallback could not read: only a real URL parse
    // yields this host and the default port.
    c.ollama_url = Some("https://example.com".to_string());
    let plan = ollama_translate_plan(&c, "hello").unwrap();
    assert_eq!(plan.host, "https://example.com");
    assert_eq!(plan.port, 11434);
}

#[test]
fn ollama_plan_requires_a_model() {
    let mut c = base_config();
    c.api_provider = "ollama".to_string();
    c.model = " ".to_string();
    match ollama_translate_plan(&c, "hello") {
        Err(Error::ApiError(m)) => assert_eq!(m, "Model not configured for Ollama provider"),
        _ => panic!("expected a configuration error"),
    }
}

#[test]
fn alternatives_use_the_fallback_for_the_translator() {
    let mut c = base_config();
    c.api_provider = "azure_translator".to_string();
    c.alternatives_fallback_provider = Some("openai:gpt-x".to_string());
    let (kind, ac) = plan_alternatives(c, "word", "Spanish").unwrap();
    assert_eq!(kind, ProviderKind::OpenAI);
    assert_eq!(ac.api_provider, "openai");
    assert_eq!(ac.model, "gpt-x");
    assert!(ac.custom_prompt.contains("alternatives"));
}

#[test]
fn alternatives_without_a_fallback_are_refused() {
    let mut c = base_config();
    c.api_provider = "azure_translator".to_string();
    c.alternatives_fallback_provider = None;
    match plan_alternatives(c, "word", "Spanish") {
        Err(Error::ApiError(m)) => assert!(m.contains("cannot generate alternatives")),
        _ => panic!("expected an error"),
    }
}

#[test]
fn alternatives_keep_the_active_chat_provider() {
    let c = base_config();
    let (kind, ac) = plan_alternatives(c, "word", "Spanish").unwrap();
    assert_eq!(kind, ProviderKind::OpenAI);
    assert_eq!(ac.api_provider, "openai");
    assert_eq!(ac.model, "gpt-4o");
    assert!(ac.custom_prompt.contains("Provide up to 5 different word choices"));
}
