use std::collections::HashMap;

use grok_extensions::provider::{ApiBackend, ModelConfig, ProviderConfig, ProviderRegistry};

fn model(id: &str) -> ModelConfig {
    ModelConfig {
        id: id.to_string(),
        name: format!("Model {}", id),
        ..ModelConfig::default()
    }
}

fn provider(name: &str, url: &str, models: &[&str]) -> ProviderConfig {
    ProviderConfig {
        name: name.to_string(),
        base_url: url.to_string(),
        api_backend: ApiBackend::ChatCompletions,
        auth_env_var: None,
        extra_headers: HashMap::new(),
        models: models.iter().map(|m| model(m)).collect(),
    }
}

#[test]
fn model_config_defaults() {
    let m = ModelConfig::default();
    assert_eq!(m.id, "");
    assert_eq!(m.name, "");
    assert_eq!(m.context_window, 128_000);
    assert_eq!(m.max_completion_tokens, Some(4096));
    assert!(!m.reasoning);
    assert!(m.temperature_bits.is_none());
    assert!(m.top_p_bits.is_none());
}

#[test]
fn new_registry_is_empty() {
    let registry = ProviderRegistry::new();
    assert!(registry.is_empty());
    assert_eq!(registry.len(), 0);
    assert!(registry.get("ollama").is_none());
    assert!(registry.provider_names().is_empty());
    assert!(registry.all_models().is_empty());
}

#[test]
fn register_then_get() {
    let mut registry = ProviderRegistry::new();
    registry.register(provider("ollama", "http://localhost:11434/v1", &["llama3.1"]));
    assert_eq!(registry.len(), 1);
    assert!(!registry.is_empty());
    let p = registry.get("ollama").expect("registered provider");
    assert_eq!(p.base_url, "http://localhost:11434/v1");
    assert!(registry.get("other").is_none());
}

#[test]
fn registering_same_name_replaces_in_place() {
    let mut registry = ProviderRegistry::new();
    registry.register(provider("a", "http://a/1", &["m1"]));
    registry.register(provider("b", "http://b", &["m2"]));
    registry.register(provider("a", "http://a/2", &["m3"]));
    assert_eq!(registry.len(), 2);
    assert_eq!(registry.provider_names(), vec!["a", "b"]);
    assert_eq!(registry.get("a").unwrap().base_url, "http://a/2");
    assert_eq!(registry.get("b").unwrap().base_url, "http://b");
}

#[test]
fn unregister_removes_and_returns_provider() {
    let mut registry = ProviderRegistry::new();
    registry.register(provider("a", "http://a", &["m1"]));
    registry.register(provider("b", "http://b", &["m2"]));
    let removed = registry.unregister("a").expect("was registered");
    assert_eq!(removed.name, "a");
    assert!(registry.get("a").is_none());
    assert_eq!(registry.provider_names(), vec!["b"]);
    assert!(registry.unregister("a").is_none());
    assert_eq!(registry.len(), 1);
}

#[test]
fn resolve_qualified_reference() {
    let mut registry = ProviderRegistry::new();
    registry.register(provider("a", "http://a", &["shared", "only-a"]));
    registry.register(provider("b", "http://b", &["shared"]));
    let (p, m) = registry.resolve_model("b/shared").expect("qualified");
    assert_eq!(p.name, "b");
    assert_eq!(m.id, "shared");
    assert!(registry.resolve_model("b/only-a").is_none());
    assert!(registry.resolve_model("c/shared").is_none());
}

#[test]
fn resolve_unqualified_reference_searches_in_order() {
    let mut registry = ProviderRegistry::new();
    registry.register(provider("a", "http://a", &["only-a", "shared"]));
    registry.register(provider("b", "http://b", &["shared", "only-b"]));
    let (p, m) = registry.resolve_model("shared").expect("unqualified");
    assert_eq!(p.name, "a");
    assert_eq!(m.id, "shared");
    let (p, _) = registry.resolve_model("only-b").expect("second provider");
    assert_eq!(p.name, "b");
    assert!(registry.resolve_model("missing").is_none());
}

#[test]
fn all_models_lists_pairs_in_order() {
    let mut registry = ProviderRegistry::new();
    registry.register(provider("a", "http://a", &["m1", "m2"]));
    registry.register(provider("b", "http://b", &["m3"]));
    let pairs: Vec<(String, String)> = registry
        .all_models()
        .into_iter()
        .map(|(p, m)| (p.to_string(), m.id.clone()))
        .collect();
    assert_eq!(
        pairs,
        vec![
            ("a".to_string(), "m1".to_string()),
            ("a".to_string(), "m2".to_string()),
            ("b".to_string(), "m3".to_string()),
        ]
    );
}
