use std::collections::HashMap;
use std::path::PathBuf;
use std::sync::atomic::{AtomicUsize, Ordering};
use std::sync::Arc;

use grok_extensions::json::JsonValue;
use grok_extensions::hook::{
    BeforeAgentStartEvent, BeforeAgentStartResult, BeforeProviderRequestEvent, ExtensionMessage,
    HookAction, HookRegistry, PostToolUseEvent, PreToolUseEvent, SessionStartEvent,
    SessionStartReason,
};

fn pre_event(tool: &str) -> PreToolUseEvent {
    PreToolUseEvent {
        tool_name: tool.to_string(),
        input: JsonValue::Null,
        cwd: PathBuf::from("."),
    }
}

fn agent_event(prompt: &str, system_prompt: &str) -> BeforeAgentStartEvent {
    BeforeAgentStartEvent {
        prompt: prompt.to_string(),
        system_prompt: system_prompt.to_string(),
        cwd: PathBuf::from("."),
    }
}

fn message(content: &str) -> ExtensionMessage {
    ExtensionMessage {
        custom_type: "note".to_string(),
        content: content.to_string(),
        display: true,
        details: serde_json::Value::Null,
    }
}

#[test]
fn empty_registry_allows_everything() {
    let registry = HookRegistry::new();
    assert!(registry.is_empty());
    assert!(!registry.has_pre_tool_use_hooks());
    let action = registry.dispatch_pre_tool_use(&pre_event("bash"));
    assert!(matches!(action, HookAction::Allow));
}

#[test]
fn blocking_hook_denies_tool_call() {
    let mut registry = HookRegistry::new();
    registry.on_pre_tool_use(|e: &PreToolUseEvent| -> HookAction {
        if e.tool_name == "bash" {
            HookAction::Block { reason: "no shell".to_string() }
        } else {
            HookAction::Allow
        }
    });
    assert!(registry.has_pre_tool_use_hooks());
    assert!(!registry.is_empty());
    let denied = registry.dispatch_pre_tool_use(&pre_event("bash"));
    assert!(denied.is_blocked());
    assert_eq!(denied.block_reason(), Some("no shell"));
    let allowed = registry.dispatch_pre_tool_use(&pre_event("read_file"));
    assert!(!allowed.is_blocked());
    assert_eq!(allowed.block_reason(), None);
}

#[test]
fn first_block_wins_and_later_hooks_are_skipped() {
    let later_calls = Arc::new(AtomicUsize::new(0));
    let counter = later_calls.clone();
    let mut registry = HookRegistry::new();
    registry.on_pre_tool_use(|_e: &PreToolUseEvent| -> HookAction { HookAction::Allow });
    registry.on_pre_tool_use(|_e: &PreToolUseEvent| -> HookAction {
        HookAction::Block { reason: "first".to_string() }
    });
    registry.on_pre_tool_use(move |_e: &PreToolUseEvent| -> HookAction {
        counter.fetch_add(1, Ordering::SeqCst);
        HookAction::Block { reason: "second".to_string() }
    });
    let action = registry.dispatch_pre_tool_use(&pre_event("bash"));
    assert_eq!(action.block_reason(), Some("first"));
    assert_eq!(later_calls.load(Ordering::SeqCst), 0);
}

#[test]
fn no_block_allows_after_consulting_every_hook() {
    let calls = Arc::new(AtomicUsize::new(0));
    let mut registry = HookRegistry::new();
    for _ in 0..3 {
        let counter = calls.clone();
        registry.on_pre_tool_use(move |_e: &PreToolUseEvent| -> HookAction {
            counter.fetch_add(1, Ordering::SeqCst);
            HookAction::Allow
        });
    }
    let action = registry.dispatch_pre_tool_use(&pre_event("edit"));
    assert!(matches!(action, HookAction::Allow));
    assert_eq!(calls.load(Ordering::SeqCst), 3);
}

#[test]
fn system_prompt_is_chained_and_last_override_wins() {
    let mut registry = HookRegistry::new();
    registry.on_before_agent_start(|e: &BeforeAgentStartEvent| -> BeforeAgentStartResult {
        BeforeAgentStartResult {
            message: None,
            system_prompt: Some(format!("{} +A", e.system_prompt)),
        }
    });
    registry.on_before_agent_start(|e: &BeforeAgentStartEvent| -> BeforeAgentStartResult {
        BeforeAgentStartResult {
            message: None,
            system_prompt: Some(format!("{} +B", e.system_prompt)),
        }
    });
    assert!(registry.has_before_agent_start_hooks());
    let result = registry.dispatch_before_agent_start(&agent_event("hi", "base"));
    assert_eq!(result.system_prompt, Some("base +A +B".to_string()));
    assert!(result.message.is_none());
}

#[test]
fn hook_without_prompt_change_keeps_earlier_override() {
    let mut registry = HookRegistry::new();
    registry.on_before_agent_start(|_e: &BeforeAgentStartEvent| -> BeforeAgentStartResult {
        BeforeAgentStartResult { message: None, system_prompt: Some("override".to_string()) }
    });
    registry.on_before_agent_start(|e: &BeforeAgentStartEvent| -> BeforeAgentStartResult {
        BeforeAgentStartResult { message: Some(message(&e.system_prompt)), system_prompt: None }
    });
    let result = registry.dispatch_before_agent_start(&agent_event("hi", "base"));
    assert_eq!(result.system_prompt, Some("override".to_string()));
    assert_eq!(result.message.map(|m| m.content), Some("override".to_string()));
}

#[test]
fn last_injected_message_wins() {
    let mut registry = HookRegistry::new();
    registry.on_before_agent_start(|_e: &BeforeAgentStartEvent| -> BeforeAgentStartResult {
        BeforeAgentStartResult { message: Some(message("one")), system_prompt: None }
    });
    registry.on_before_agent_start(|_e: &BeforeAgentStartEvent| -> BeforeAgentStartResult {
        BeforeAgentStartResult { message: Some(message("two")), system_prompt: None }
    });
    let result = registry.dispatch_before_agent_start(&agent_event("hi", "base"));
    assert_eq!(result.message.map(|m| m.content), Some("two".to_string()));
    assert!(result.system_prompt.is_none());
}

#[test]
fn untouched_prompt_reaches_every_hook() {
    let seen = Arc::new(AtomicUsize::new(0));
    let mut registry = HookRegistry::new();
    for _ in 0..2 {
        let counter = seen.clone();
        registry.on_before_agent_start(move |e: &BeforeAgentStartEvent| -> BeforeAgentStartResult {
            if e.system_prompt == "base" {
                counter.fetch_add(1, Ordering::SeqCst);
            }
            BeforeAgentStartResult::default()
        });
    }
    let result = registry.dispatch_before_agent_start(&agent_event("hi", "base"));
    assert!(result.system_prompt.is_none());
    assert_eq!(seen.load(Ordering::SeqCst), 2);
}

#[test]
fn post_tool_use_and_session_start_hooks_run_in_order() {
    let calls = Arc::new(AtomicUsize::new(0));
    let mut registry = HookRegistry::new();
    let first = calls.clone();
    registry.on_post_tool_use(move |_e: &PostToolUseEvent| {
        assert_eq!(first.fetch_add(1, Ordering::SeqCst), 0);
    });
    let second = calls.clone();
    registry.on_post_tool_use(move |_e: &PostToolUseEvent| {
        assert_eq!(second.fetch_add(1, Ordering::SeqCst), 1);
    });
    let session = calls.clone();
    registry.on_session_start(move |e: &SessionStartEvent| {
        if e.reason == SessionStartReason::Resume {
            session.fetch_add(10, Ordering::SeqCst);
        }
    });
    assert!(registry.has_post_tool_use_hooks());
    assert!(registry.has_session_start_hooks());
    registry.dispatch_post_tool_use(&PostToolUseEvent {
        tool_name: "bash".to_string(),
        input: serde_json::Value::Null,
        output: serde_json::Value::Null,
        is_error: false,
        cwd: PathBuf::from("."),
    });
    assert_eq!(calls.load(Ordering::SeqCst), 2);
    registry.dispatch_session_start(&SessionStartEvent {
        cwd: PathBuf::from("."),
        reason: SessionStartReason::Resume,
    });
    assert_eq!(calls.load(Ordering::SeqCst), 12);
}

#[test]
fn provider_request_hooks_mutate_the_request_in_order() {
    let mut registry = HookRegistry::new();
    registry.on_before_provider_request(|e: &mut BeforeProviderRequestEvent| {
        e.headers.insert("X-Trace".to_string(), "1".to_string());
    });
    registry.on_before_provider_request(|e: &mut BeforeProviderRequestEvent| {
        let previous = e.headers.get("X-Trace").cloned().unwrap_or_default();
        e.headers.insert("X-Trace".to_string(), format!("{}2", previous));
    });
    assert!(registry.has_before_provider_request_hooks());
    let mut event = BeforeProviderRequestEvent {
        model: "llama3.1".to_string(),
        provider: "ollama".to_string(),
        headers: HashMap::new(),
        payload: serde_json::Value::Null,
    };
    registry.dispatch_before_provider_request(&mut event);
    assert_eq!(event.headers.get("X-Trace"), Some(&"12".to_string()));
}

#[test]
fn default_before_agent_start_result_is_empty() {
    let r = BeforeAgentStartResult::default();
    assert!(r.message.is_none());
    assert!(r.system_prompt.is_none());
}
