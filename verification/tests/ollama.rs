use std::path::PathBuf;

use grok_extensions::command::CommandRegistry;
use grok_extensions::hook::{HookAction, HookRegistry, PreToolUseEvent};
use grok_extensions::json::JsonValue;
use grok_extensions::ollama::{
    ollama_base_url, ollama_command_notices, ollama_command_verdict, ollama_provider_config,
    ollama_safety_hook, register_ollama_commands, register_ollama_hooks, register_ollama_provider,
    ListModelsInput, OllamaListModelsTool,
};
use grok_extensions::provider::{ApiBackend, ProviderRegistry};
use grok_extensions::tool::{ExtensionToolKind, ExtensionToolMetadata, ExtensionToolNamespace};

const BLOCK_REASON: &str = "Blocked by grok-ext-ollama: model deletion requires explicit user confirmation. Use 'ollama list' first.";

fn command_input(value: JsonValue) -> JsonValue {
    JsonValue::Object(vec![
        ("cwd".to_string(), JsonValue::String("/tmp".to_string())),
        ("command".to_string(), value),
    ])
}

fn bash_command(command: &str) -> PreToolUseEvent {
    bash_event(command_input(JsonValue::String(command.to_string())))
}

fn bash_event(input: JsonValue) -> PreToolUseEvent {
    PreToolUseEvent { tool_name: "bash".to_string(), input, cwd: PathBuf::from(".") }
}

#[test]
fn base_url_defaults_to_localhost() {
    assert_eq!(ollama_base_url(None), "http://localhost:11434");
    assert_eq!(ollama_base_url(Some("http://gpu:11434".to_string())), "http://gpu:11434");
}

#[test]
fn provider_config_has_three_models() {
    let p = ollama_provider_config("http://localhost:11434");
    assert_eq!(p.name, "ollama");
    assert_eq!(p.base_url, "http://localhost:11434/v1");
    assert_eq!(p.api_backend, ApiBackend::ChatCompletions);
    assert!(p.auth_env_var.is_none());
    assert!(p.extra_headers.is_empty());
    let ids: Vec<&str> = p.models.iter().map(|m| m.id.as_str()).collect();
    assert_eq!(ids, vec!["llama3.1", "codellama", "mistral"]);
    assert_eq!(p.models[0].name, "ollama: Llama 3.1");
    assert_eq!(p.models[0].context_window, 128_000);
    assert_eq!(p.models[1].name, "ollama: Code Llama");
    assert_eq!(p.models[1].context_window, 16_384);
    assert_eq!(p.models[2].name, "ollama: Mistral");
    assert_eq!(p.models[2].context_window, 32_000);
    for m in &p.models {
        assert_eq!(m.max_completion_tokens, Some(4096));
        assert!(!m.reasoning);
        assert!(m.temperature_bits.is_none());
        assert!(m.top_p_bits.is_none());
    }
}

#[test]
fn register_provider_makes_models_resolvable() {
    let mut registry = ProviderRegistry::new();
    register_ollama_provider(&mut registry, "http://localhost:11434");
    assert_eq!(registry.len(), 1);
    let (p, m) = registry.resolve_model("ollama/mistral").expect("resolvable");
    assert_eq!(p.name, "ollama");
    assert_eq!(m.context_window, 32_000);
    assert!(registry.resolve_model("codellama").is_some());
}

#[test]
fn list_models_without_filter_returns_all() {
    let out = OllamaListModelsTool.list_models(
        &ListModelsInput { filter: None },
        "http://localhost:11434".to_string(),
    );
    assert_eq!(out.models, vec!["llama3.1", "codellama", "mistral"]);
    assert_eq!(out.base_url, "http://localhost:11434");
}

#[test]
fn list_models_filters_by_substring() {
    let out = OllamaListModelsTool.list_models(
        &ListModelsInput { filter: Some("llama".to_string()) },
        "u".to_string(),
    );
    assert_eq!(out.models, vec!["llama3.1", "codellama"]);
    let none = OllamaListModelsTool.list_models(
        &ListModelsInput { filter: Some("gpt".to_string()) },
        "u".to_string(),
    );
    assert!(none.models.is_empty());
}

#[test]
fn tool_metadata() {
    let t = OllamaListModelsTool;
    assert_eq!(t.kind(), ExtensionToolKind::Read);
    assert_eq!(t.namespace(), ExtensionToolNamespace::Extension("ollama".to_string()));
    assert_eq!(t.description_template(), "List locally available Ollama models.");
    assert!(t.is_read_only());
}

#[test]
fn command_verdicts() {
    assert!(matches!(ollama_command_verdict("read_file", Some("ollama rm x")), HookAction::Allow));
    assert!(matches!(ollama_command_verdict("bash", None), HookAction::Allow));
    assert!(matches!(ollama_command_verdict("bash", Some("ollama list")), HookAction::Allow));
    assert_eq!(
        ollama_command_verdict("bash", Some("ollama rm llama3.1")).block_reason(),
        Some(BLOCK_REASON)
    );
    assert_eq!(
        ollama_command_verdict("bash", Some("echo hi && ollama delete mistral")).block_reason(),
        Some(BLOCK_REASON)
    );
}

#[test]
fn safety_hook_reads_command_input() {
    assert_eq!(ollama_safety_hook(&bash_command("ollama rm llama3.1")).block_reason(), Some(BLOCK_REASON));
    assert!(!ollama_safety_hook(&bash_command("ollama run llama3.1")).is_blocked());
    assert!(!ollama_safety_hook(&bash_event(command_input(JsonValue::Number("42".to_string())))).is_blocked());
    assert!(!ollama_safety_hook(&bash_event(JsonValue::Object(vec![]))).is_blocked());
    assert!(!ollama_safety_hook(&bash_event(JsonValue::String("ollama rm x".to_string()))).is_blocked());
    let other = PreToolUseEvent {
        tool_name: "write_file".to_string(),
        input: command_input(JsonValue::String("ollama rm x".to_string())),
        cwd: PathBuf::from("."),
    };
    assert!(!ollama_safety_hook(&other).is_blocked());
}

#[test]
fn registered_hook_blocks_model_deletion() {
    let mut registry = HookRegistry::new();
    register_ollama_hooks(&mut registry);
    assert!(registry.has_pre_tool_use_hooks());
    let action = registry.dispatch_pre_tool_use(&bash_command("ollama delete codellama"));
    assert_eq!(action.block_reason(), Some(BLOCK_REASON));
    let action = registry.dispatch_pre_tool_use(&bash_command("ls"));
    assert!(matches!(action, HookAction::Allow));
}

#[test]
fn command_notices() {
    assert_eq!(
        ollama_command_notices("http://localhost:11434"),
        vec![
            "Ollama endpoint: http://localhost:11434".to_string(),
            "Available models: llama3.1, codellama, mistral".to_string(),
        ]
    );
}

#[test]
fn ollama_command_is_registered() {
    let mut registry: CommandRegistry<u32, u32> = CommandRegistry::new();
    register_ollama_commands(&mut registry, 5);
    let cmd = registry.find_command("ollama").expect("registered");
    assert_eq!(cmd.description, "List available Ollama models");
    assert_eq!(cmd.handler, 5);
    assert!(cmd.autocomplete.is_none());
}

#[test]
fn registered_hook_blocks_ollama_rm_with_reason() {
    let mut registry = HookRegistry::new();
    register_ollama_hooks(&mut registry);
    let action = registry.dispatch_pre_tool_use(&bash_command("ollama rm llama3.1"));
    assert_eq!(action.block_reason(), Some(BLOCK_REASON));
    let other = PreToolUseEvent {
        tool_name: "read_file".to_string(),
        input: command_input(JsonValue::String("ollama rm llama3.1".to_string())),
        cwd: PathBuf::from("/"),
    };
    assert!(matches!(registry.dispatch_pre_tool_use(&other), HookAction::Allow));
}
