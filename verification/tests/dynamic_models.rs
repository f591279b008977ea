use grok_extensions::dynamic_models::{
    abbreviate_provider, api_key_source, bearer_authorization, is_success_status, models_endpoint,
    parse_api_backend, register_provider, resolve_api_key_with, ApiKeySource, ModelEntry,
    ModelOverride, ServerConfig,
};
use grok_extensions::provider::{ApiBackend, ProviderRegistry};

fn server(provider: &str, models: Option<Vec<(String, ModelOverride)>>) -> ServerConfig {
    ServerConfig {
        provider: provider.to_string(),
        base_url: "http://localhost:8080/v1//".to_string(),
        api_key: None,
        api: Some("responses".to_string()),
        models,
    }
}

fn no_override() -> ModelOverride {
    ModelOverride {
        name: None,
        reasoning: None,
        context_window: None,
        max_tokens: None,
        temperature_bits: None,
        top_p_bits: None,
    }
}

fn entry(id: &str, name: Option<&str>) -> ModelEntry {
    ModelEntry { id: id.to_string(), name: name.map(|n| n.to_string()) }
}

#[test]
fn provider_abbreviations() {
    assert_eq!(abbreviate_provider("corral-local"), "corral");
    assert_eq!(abbreviate_provider("local-dgx"), "dgx");
    assert_eq!(abbreviate_provider("local-dgx-proto"), "dgx-p");
    assert_eq!(abbreviate_provider("local-llm"), "llm");
    assert_eq!(abbreviate_provider("nvidproxy"), "nvid");
    assert_eq!(abbreviate_provider("clinepass"), "cline");
    assert_eq!(abbreviate_provider("ollama"), "ollama");
}

#[test]
fn api_backend_parsing() {
    assert_eq!(parse_api_backend(None), ApiBackend::ChatCompletions);
    assert_eq!(parse_api_backend(Some("chat_completions")), ApiBackend::ChatCompletions);
    assert_eq!(parse_api_backend(Some("responses")), ApiBackend::Responses);
    assert_eq!(parse_api_backend(Some("messages")), ApiBackend::Messages);
    assert_eq!(parse_api_backend(Some("unknown")), ApiBackend::ChatCompletions);
}

#[test]
fn api_key_sources() {
    assert!(matches!(api_key_source(None), ApiKeySource::NoAuth));
    assert!(matches!(api_key_source(Some("")), ApiKeySource::NoAuth));
    assert!(matches!(api_key_source(Some("none")), ApiKeySource::NoAuth));
    match api_key_source(Some("$MY_KEY")) {
        ApiKeySource::EnvVar(n) => assert_eq!(n, "MY_KEY"),
        other => panic!("unexpected {:?}", other),
    }
    match api_key_source(Some("${MY_KEY}")) {
        ApiKeySource::EnvVar(n) => assert_eq!(n, "MY_KEY"),
        other => panic!("unexpected {:?}", other),
    }
    match api_key_source(Some("OPENAI_API_KEY")) {
        ApiKeySource::EnvVarOrLiteral(n) => assert_eq!(n, "OPENAI_API_KEY"),
        other => panic!("unexpected {:?}", other),
    }
    match api_key_source(Some("sk-literal")) {
        ApiKeySource::Literal(k) => assert_eq!(k, "sk-literal"),
        other => panic!("unexpected {:?}", other),
    }
}

#[test]
fn api_key_resolution() {
    assert_eq!(resolve_api_key_with(ApiKeySource::NoAuth, Some("x".to_string())), None);
    assert_eq!(
        resolve_api_key_with(ApiKeySource::EnvVar("K".to_string()), Some("v".to_string())),
        Some("v".to_string())
    );
    assert_eq!(resolve_api_key_with(ApiKeySource::EnvVar("K".to_string()), None), None);
    assert_eq!(
        resolve_api_key_with(ApiKeySource::EnvVarOrLiteral("KEY".to_string()), None),
        Some("KEY".to_string())
    );
    assert_eq!(
        resolve_api_key_with(ApiKeySource::EnvVarOrLiteral("KEY".to_string()), Some("v".to_string())),
        Some("v".to_string())
    );
    assert_eq!(
        resolve_api_key_with(ApiKeySource::Literal("abc".to_string()), Some("v".to_string())),
        Some("abc".to_string())
    );
}

#[test]
fn endpoint_texts() {
    assert_eq!(models_endpoint("http://host/v1/"), "http://host/v1/models");
    assert_eq!(models_endpoint("http://host/v1"), "http://host/v1/models");
    assert_eq!(bearer_authorization("k1"), "Bearer k1");
    assert!(is_success_status(200));
    assert!(is_success_status(299));
    assert!(!is_success_status(199));
    assert!(!is_success_status(300));
    assert!(!is_success_status(404));
}

#[test]
fn nothing_registered_without_models() {
    let mut registry = ProviderRegistry::new();
    register_provider(&mut registry, &server("local-llm", None), &[], None);
    assert!(registry.is_empty());
}

#[test]
fn discovered_and_configured_models_are_merged_and_sorted() {
    let mut registry = ProviderRegistry::new();
    let overrides = vec![
        (
            "zeta".to_string(),
            ModelOverride {
                name: Some("Zeta Custom".to_string()),
                reasoning: Some(true),
                context_window: Some(32_000),
                max_tokens: Some(2048),
                temperature_bits: Some(0.5f32.to_bits()),
                top_p_bits: None,
            },
        ),
        ("alpha".to_string(), no_override()),
    ];
    let discovered = vec![entry("beta", Some("Beta Model")), entry("alpha", None)];
    register_provider(&mut registry, &server("local-llm", Some(overrides)), &discovered, None);
    let p = registry.get("local-llm").expect("registered");
    assert_eq!(p.base_url, "http://localhost:8080/v1");
    assert_eq!(p.api_backend, ApiBackend::Responses);
    assert!(p.auth_env_var.is_none());
    assert_eq!(p.extra_headers.len(), 1);
    assert_eq!(p.extra_headers.get("Accept"), Some(&"application/json".to_string()));
    let ids: Vec<&str> = p.models.iter().map(|m| m.id.as_str()).collect();
    assert_eq!(ids, vec!["alpha", "beta", "zeta"]);
    assert_eq!(p.models[0].name, "llm: alpha");
    assert_eq!(p.models[0].context_window, 128_000);
    assert!(!p.models[0].reasoning);
    assert_eq!(p.models[0].max_completion_tokens, None);
    assert_eq!(p.models[1].name, "llm: Beta Model");
    assert_eq!(p.models[2].name, "llm: Zeta Custom");
    assert_eq!(p.models[2].context_window, 32_000);
    assert_eq!(p.models[2].max_completion_tokens, Some(2048));
    assert!(p.models[2].reasoning);
    assert_eq!(p.models[2].temperature_bits.map(f32::from_bits), Some(0.5));
    assert!(p.models[2].top_p_bits.is_none());
}

#[test]
fn configured_only_models_when_discovery_failed() {
    let mut registry = ProviderRegistry::new();
    let overrides = vec![("only".to_string(), no_override())];
    register_provider(&mut registry, &server("ollama", Some(overrides)), &[], Some("k".to_string()));
    let p = registry.get("ollama").expect("registered");
    assert_eq!(p.models.len(), 1);
    assert_eq!(p.models[0].id, "only");
    assert_eq!(p.models[0].name, "ollama: only");
}
