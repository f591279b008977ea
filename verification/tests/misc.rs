use grok_extensions::agent::AgentHandle;
use grok_extensions::json::JsonValue;
use grok_extensions::pager::agent_handle::PagerAgentHandle;
use grok_extensions::pager::ui_handle::NoOpUiHandle;
use grok_extensions::text::{decimal_string, starts_with_char, trim_char, trim_end_char, trim_start_char};
use grok_extensions::ui::{
    mode_has_ui, non_interactive_confirm, non_interactive_input, non_interactive_select, NotifyLevel,
    RunMode, UiHandle,
};
use grok_extensions::worktree::is_safe_worktree_id;

#[test]
fn safe_worktree_ids() {
    assert!(is_safe_worktree_id("wt-123"));
    assert!(is_safe_worktree_id("feature_branch.v2"));
    assert!(is_safe_worktree_id("A"));
    assert!(is_safe_worktree_id("a.b"));
}

#[test]
fn unsafe_worktree_ids() {
    assert!(!is_safe_worktree_id(""));
    assert!(!is_safe_worktree_id(".hidden"));
    assert!(!is_safe_worktree_id("a..b"));
    assert!(!is_safe_worktree_id("../etc"));
    assert!(!is_safe_worktree_id("a/b"));
    assert!(!is_safe_worktree_id("a b"));
    assert!(!is_safe_worktree_id("naïve"));
    assert!(!is_safe_worktree_id("a\\b"));
}

#[test]
fn run_modes_with_ui() {
    assert!(mode_has_ui(RunMode::Tui));
    assert!(mode_has_ui(RunMode::Rpc));
    assert!(!mode_has_ui(RunMode::Json));
    assert!(!mode_has_ui(RunMode::Print));
}

#[test]
fn non_interactive_dialog_answers() {
    assert_eq!(non_interactive_select(), None);
    assert!(non_interactive_confirm());
    assert_eq!(non_interactive_input(), None);
}

#[test]
fn no_op_ui_handle() {
    let ui = NoOpUiHandle::new(RunMode::Json);
    assert_eq!(ui.mode(), RunMode::Json);
    assert!(!ui.has_ui());
    ui.notify("hello", NotifyLevel::Warning);
    ui.set_status("k", Some("v"));
    ui.set_widget("w", Some(vec!["line".to_string()]));
    let tui = NoOpUiHandle::new(RunMode::Tui);
    assert!(!tui.has_ui());
    assert_eq!(tui.mode(), RunMode::Tui);
}

#[test]
fn pager_agent_handle_reports_state() {
    let mut agent = PagerAgentHandle::new(
        "be helpful".to_string(),
        vec!["bash".to_string()],
        vec!["bash".to_string(), "read_file".to_string()],
        "grok-4".to_string(),
        "high".to_string(),
    );
    assert_eq!(agent.system_prompt(), "be helpful");
    assert_eq!(agent.active_tools(), vec!["bash"]);
    assert_eq!(agent.all_tools(), vec!["bash", "read_file"]);
    assert_eq!(agent.current_model(), "grok-4");
    assert_eq!(agent.thinking_level(), "high");
    agent.set_active_tools(&["read_file", "unknown", "bash"]);
    assert_eq!(agent.active_tools(), vec!["read_file", "bash"]);
    assert_eq!(agent.all_tools(), vec!["bash", "read_file"]);
    agent.set_thinking_level("low");
    assert_eq!(agent.thinking_level(), "low");
    assert_eq!(agent.system_prompt(), "be helpful");
    assert_eq!(agent.current_model(), "grok-4");
}

#[test]
fn empty_agent_handle() {
    let agent = PagerAgentHandle::empty();
    assert_eq!(agent.system_prompt(), "");
    assert!(agent.active_tools().is_empty());
    assert!(agent.all_tools().is_empty());
    assert_eq!(agent.current_model(), "");
    assert_eq!(agent.thinking_level(), "off");
}

#[test]
fn text_helpers() {
    assert!(starts_with_char("$KEY", '$'));
    assert!(!starts_with_char("KEY", '$'));
    assert!(!starts_with_char("", '$'));
    assert_eq!(trim_end_char("http://x///", '/'), "http://x");
    assert_eq!(trim_start_char("$$A", '$'), "A");
    assert_eq!(trim_char("{{A}}", '{'), "A}}");
    assert_eq!(trim_char("}A}", '}'), "A");
    assert_eq!(decimal_string(0), "0");
    assert_eq!(decimal_string(1207), "1207");
}

#[test]
fn json_field_lookup() {
    let v = JsonValue::Object(vec![
        ("a".to_string(), JsonValue::String("first".to_string())),
        ("b".to_string(), JsonValue::Bool(true)),
    ]);
    assert_eq!(v.get("a").and_then(|x| x.as_str()), Some("first"));
    assert!(matches!(v.get("b"), Some(JsonValue::Bool(true))));
    assert!(v.get("b").unwrap().as_str().is_none());
    assert!(v.get("c").is_none());
    assert!(JsonValue::Array(vec![JsonValue::Null]).get("a").is_none());
    assert!(JsonValue::Null.as_str().is_none());
}

#[test]
fn set_active_tools_enables_registered_tools_only() {
    let mut agent = PagerAgentHandle::new(
        String::new(),
        vec!["x".to_string()],
        vec!["y".to_string()],
        String::new(),
        "off".to_string(),
    );
    agent.set_active_tools(&["y"]);
    assert_eq!(agent.active_tools(), vec!["y"]);
    agent.set_active_tools(&["x"]);
    assert!(agent.active_tools().is_empty());
}
