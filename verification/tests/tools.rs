use grok_extensions::tool::{
    ErasedTool, ExtensionToolKind, ExtensionToolNamespace, ExtensionToolRegistry, ToolError,
};
use grok_extensions::tool_bridge::{
    register_extension_tools, ToolKind, ToolNamespace, ToolRegistryBuilder,
};

fn tool(id: &str, kind: ExtensionToolKind, namespace: ExtensionToolNamespace, marker: u32) -> ErasedTool<u32> {
    ErasedTool {
        id: id.to_string(),
        description: format!("{} tool", id),
        kind,
        namespace,
        is_read_only: kind.is_read_only(),
        input_schema: serde_json::Value::Null,
        execute: marker,
    }
}

#[test]
fn tool_error_constructors_and_display() {
    let e = ToolError::new("bad_input", "missing field");
    assert_eq!(e.code, "bad_input");
    assert_eq!(e.message, "missing field");
    assert_eq!(e.to_string(), "[bad_input] missing field");
    let x = ToolError::execution("ollama_list_models", "boom");
    assert_eq!(x.code, "ollama_list_models.execution");
    assert_eq!(x.message, "boom");
    assert_eq!(x.to_string(), "[ollama_list_models.execution] boom");
}

#[test]
fn read_only_kinds() {
    assert!(ExtensionToolKind::Read.is_read_only());
    assert!(ExtensionToolKind::Search.is_read_only());
    assert!(!ExtensionToolKind::Edit.is_read_only());
    assert!(!ExtensionToolKind::Execute.is_read_only());
    assert!(!ExtensionToolKind::Web.is_read_only());
    assert!(!ExtensionToolKind::Other.is_read_only());
}

#[test]
fn insert_then_find() {
    let mut registry: ExtensionToolRegistry<u32> = ExtensionToolRegistry::new();
    assert!(registry.is_empty());
    registry.insert(tool("a", ExtensionToolKind::Read, ExtensionToolNamespace::GrokBuild, 1));
    registry.insert(tool("b", ExtensionToolKind::Edit, ExtensionToolNamespace::OpenCode, 2));
    assert_eq!(registry.len(), 2);
    assert!(!registry.is_empty());
    assert_eq!(registry.tool_ids(), vec!["a", "b"]);
    assert_eq!(registry.find("b").map(|t| t.execute).ok(), Some(2));
}

#[test]
fn find_missing_tool_is_not_found() {
    let registry: ExtensionToolRegistry<u32> = ExtensionToolRegistry::new();
    match registry.find("nope") {
        Ok(_) => panic!("expected an error"),
        Err(e) => {
            assert_eq!(e.code, "not_found");
            assert_eq!(e.message, "Tool not found: nope");
        }
    }
}

#[test]
fn inserting_same_id_replaces_in_place() {
    let mut registry: ExtensionToolRegistry<u32> = ExtensionToolRegistry::new();
    registry.insert(tool("a", ExtensionToolKind::Read, ExtensionToolNamespace::GrokBuild, 1));
    registry.insert(tool("b", ExtensionToolKind::Read, ExtensionToolNamespace::GrokBuild, 2));
    registry.insert(tool("a", ExtensionToolKind::Execute, ExtensionToolNamespace::GrokBuild, 3));
    assert_eq!(registry.len(), 2);
    assert_eq!(registry.tool_ids(), vec!["a", "b"]);
    assert_eq!(registry.find("a").map(|t| t.execute).ok(), Some(3));
}

#[test]
fn tool_info_lists_metadata() {
    let mut registry: ExtensionToolRegistry<u32> = ExtensionToolRegistry::new();
    registry.insert(tool(
        "ollama_list_models",
        ExtensionToolKind::Read,
        ExtensionToolNamespace::Extension("ollama".to_string()),
        9,
    ));
    let infos = registry.tool_info();
    assert_eq!(infos.len(), 1);
    assert_eq!(infos[0].id, "ollama_list_models");
    assert_eq!(infos[0].description, "ollama_list_models tool");
    assert_eq!(infos[0].kind, ExtensionToolKind::Read);
    assert_eq!(infos[0].namespace, ExtensionToolNamespace::Extension("ollama".to_string()));
    assert!(infos[0].is_read_only);
}

#[test]
fn bridge_maps_kinds_and_namespaces() {
    let mut registry: ExtensionToolRegistry<u32> = ExtensionToolRegistry::new();
    registry.insert(tool("w", ExtensionToolKind::Web, ExtensionToolNamespace::Extension("x".to_string()), 1));
    registry.insert(tool("o", ExtensionToolKind::Search, ExtensionToolNamespace::OpenCode, 2));
    registry.insert(tool("g", ExtensionToolKind::Other, ExtensionToolNamespace::GrokBuild, 3));
    let mut builder = ToolRegistryBuilder::new();
    register_extension_tools(&mut builder, &registry);
    let tools = builder.extension_tools();
    assert_eq!(tools.len(), 3);
    assert_eq!(tools[0].id, "w");
    assert_eq!(tools[0].kind, ToolKind::WebSearch);
    assert_eq!(tools[0].namespace, ToolNamespace::GrokBuild);
    assert!(!tools[0].is_read_only);
    assert_eq!(tools[1].kind, ToolKind::Search);
    assert_eq!(tools[1].namespace, ToolNamespace::OpenCode);
    assert!(tools[1].is_read_only);
    assert_eq!(tools[2].kind, ToolKind::Other);
    assert_eq!(tools[2].namespace, ToolNamespace::GrokBuild);
}
