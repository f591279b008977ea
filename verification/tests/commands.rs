use grok_extensions::command::{CommandDef, CommandRegistry, FlagDef, FlagType, ShortcutDef};
use grok_extensions::pager::extension_adapter::{
    extension_command_adapters, register_extension_commands, ExtensionCommandAdapter,
    SlashCommandRegistry,
};
use grok_extensions::pager::reload::ReloadCommand;
use grok_extensions::pager::slash::CommandResult;
use grok_extensions::provider::{ApiBackend, ModelConfig, ProviderConfig, ProviderRegistry};
use grok_extensions::types::AutocompleteItem;

fn command(name: &str, handler: u32) -> CommandDef<u32> {
    CommandDef {
        name: name.to_string(),
        description: format!("{} command", name),
        handler,
        autocomplete: None,
    }
}

fn flag(name: &str) -> FlagDef {
    FlagDef {
        name: name.to_string(),
        description: "a flag".to_string(),
        flag_type: FlagType::Boolean,
        default: serde_json::Value::Bool(false),
    }
}

#[test]
fn empty_command_registry() {
    let registry: CommandRegistry<u32, u32> = CommandRegistry::new();
    assert!(registry.is_empty());
    assert!(!registry.has_commands());
    assert!(!registry.has_shortcuts());
    assert!(!registry.has_flags());
    assert!(registry.find_command("x").is_none());
}

#[test]
fn find_returns_first_registered() {
    let mut registry: CommandRegistry<u32, u32> = CommandRegistry::new();
    registry.register_command(command("deploy", 1));
    registry.register_command(command("status", 2));
    registry.register_command(command("deploy", 3));
    assert_eq!(registry.commands().len(), 3);
    assert_eq!(registry.find_command("deploy").map(|c| c.handler), Some(1));
    assert_eq!(registry.find_command("status").map(|c| c.handler), Some(2));
    assert!(registry.find_command("missing").is_none());
    assert!(registry.has_commands());
    assert!(!registry.is_empty());
}

#[test]
fn shortcuts_and_flags() {
    let mut registry: CommandRegistry<u32, u32> = CommandRegistry::new();
    registry.register_shortcut(ShortcutDef {
        key: "ctrl+shift+p".to_string(),
        description: "palette".to_string(),
        handler: 7,
    });
    registry.register_flag(flag("plan"));
    assert!(registry.has_shortcuts());
    assert!(registry.has_flags());
    assert!(!registry.has_commands());
    assert_eq!(registry.find_shortcut("ctrl+shift+p").map(|s| s.handler), Some(7));
    assert!(registry.find_shortcut("ctrl+p").is_none());
    assert_eq!(registry.find_flag("plan").map(|f| f.flag_type), Some(FlagType::Boolean));
    assert!(registry.find_flag("other").is_none());
    assert_eq!(registry.shortcuts().len(), 1);
    assert_eq!(registry.flags().len(), 1);
}

#[test]
fn adapter_exposes_command() {
    let adapter = ExtensionCommandAdapter::new(command("deploy", 1));
    assert_eq!(adapter.name(), "deploy");
    assert_eq!(adapter.description(), "deploy command");
    assert_eq!(adapter.usage(), "deploy");
    assert!(adapter.takes_args());
    assert!(!adapter.args_required());
    assert!(adapter.suggest_args("x").is_none());
    match adapter.run("prod now") {
        CommandResult::PassThrough(line) => assert_eq!(line, "/deploy prod now"),
        CommandResult::Message(_) => panic!("expected pass-through"),
    }
}

#[test]
fn adapter_suggestions_come_from_autocomplete() {
    let def: CommandDef<u32> = CommandDef {
        name: "env".to_string(),
        description: "pick env".to_string(),
        handler: 0,
        autocomplete: Some(Box::new(|query: &str| -> Vec<AutocompleteItem> {
            vec![
                AutocompleteItem {
                    value: format!("{}prod", query),
                    label: "Production".to_string(),
                    description: Some("live".to_string()),
                },
                AutocompleteItem {
                    value: "dev".to_string(),
                    label: "Development".to_string(),
                    description: None,
                },
            ]
        })),
    };
    let adapter = ExtensionCommandAdapter::new(def);
    let items = adapter.suggest_args("p").expect("has autocomplete");
    assert_eq!(items.len(), 2);
    assert_eq!(items[0].display, "Production");
    assert_eq!(items[0].match_text, "pprod");
    assert_eq!(items[0].insert_text, "pprod");
    assert_eq!(items[0].description, "live");
    assert_eq!(items[1].display, "Development");
    assert_eq!(items[1].description, "");
}

#[test]
fn extension_commands_become_adapters_in_order() {
    let adapters = extension_command_adapters(vec![command("deploy", 1), command("status", 2)]);
    assert_eq!(adapters.len(), 2);
    assert_eq!(adapters[0].name(), "deploy");
    assert_eq!(adapters[1].name(), "status");
    assert_eq!(adapters[1].description(), "status command");
    let none: Vec<ExtensionCommandAdapter<u32>> = extension_command_adapters(Vec::new());
    assert!(none.is_empty());
}

#[test]
fn extension_commands_are_registered_after_builtins() {
    let mut pager: SlashCommandRegistry<&str, u32> = SlashCommandRegistry::new();
    pager.register_builtin("help");
    pager.register_extension(ExtensionCommandAdapter::new(command("early", 0)));
    let mut ext: CommandRegistry<u32, u32> = CommandRegistry::new();
    ext.register_command(command("deploy", 1));
    ext.register_command(command("status", 2));
    register_extension_commands(&mut pager, ext);
    assert_eq!(pager.builtins(), &["help"]);
    let names: Vec<&str> = pager.extension_commands().iter().map(|a| a.name()).collect();
    assert_eq!(names, vec!["early", "deploy", "status"]);
}

#[test]
fn reload_reports_providers_and_models() {
    let cmd = ReloadCommand;
    assert_eq!(cmd.name(), "reload");
    assert_eq!(cmd.description(), "Reload extension providers and skills");
    assert_eq!(cmd.usage(), "/reload");
    assert!(!cmd.takes_args());
    let mut providers = ProviderRegistry::new();
    providers.register(ProviderConfig {
        name: "p".to_string(),
        base_url: "http://p".to_string(),
        api_backend: ApiBackend::Messages,
        auth_env_var: None,
        extra_headers: std::collections::HashMap::new(),
        models: vec![ModelConfig::default(), ModelConfig::default()],
    });
    match cmd.run(&providers) {
        CommandResult::Message(m) => assert_eq!(
            m,
            "Reloaded 1 extension provider(s) with 2 model(s). Note: model catalog changes require restart to take effect."
        ),
        CommandResult::PassThrough(_) => panic!("expected a message"),
    }
    match cmd.run(&ProviderRegistry::new()) {
        CommandResult::Message(m) => assert!(m.starts_with("Reloaded 0 extension provider(s) with 0 model(s).")),
        CommandResult::PassThrough(_) => panic!("expected a message"),
    }
}
