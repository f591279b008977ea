//! Bridge from the extension tool registry to the host's tool registry:
//! every extension tool is registered with the host's kind and namespace.

use vstd::prelude::*;

use crate::tool::{
    info_of, ExtensionToolKind, ExtensionToolNamespace, ExtensionToolRegistry, ToolInfo,
};

verus! {

/// Tool kinds of the host's tool registry.
#[derive(Debug, Clone, Copy, PartialEq, Eq, Structural)]
pub enum ToolKind {
    Read,
    Edit,
    Search,
    Execute,
    WebSearch,
    Other,
}

/// Tool namespaces of the host's tool registry.
#[derive(Debug, Clone, Copy, PartialEq, Eq, Structural)]
pub enum ToolNamespace {
    GrokBuild,
    OpenCode,
}

/// An extension tool as registered with the host.
#[derive(Debug, Clone)]
pub struct RegisteredExtensionTool {
    pub id: String,
    pub description: String,
    pub kind: ToolKind,
    pub namespace: ToolNamespace,
    pub is_read_only: bool,
    pub input_schema: serde_json::Value,
}

/// The host's tool registry builder, as far as extension tools go.
pub struct ToolRegistryBuilder {
    extension_tools: Vec<RegisteredExtensionTool>,
}

/// The host kind of an extension tool kind (web tools are web-search tools).
pub open spec fn host_kind(k: ExtensionToolKind) -> ToolKind {
    match k {
        ExtensionToolKind::Read => ToolKind::Read,
        ExtensionToolKind::Edit => ToolKind::Edit,
        ExtensionToolKind::Search => ToolKind::Search,
        ExtensionToolKind::Execute => ToolKind::Execute,
        ExtensionToolKind::Web => ToolKind::WebSearch,
        ExtensionToolKind::Other => ToolKind::Other,
    }
}

/// The host namespace of an extension tool namespace: extension namespaces
/// map to the host namespace `GrokBuild`.
pub open spec fn host_namespace(n: ExtensionToolNamespace) -> ToolNamespace {
    match n {
        ExtensionToolNamespace::GrokBuild => ToolNamespace::GrokBuild,
        ExtensionToolNamespace::OpenCode => ToolNamespace::OpenCode,
        ExtensionToolNamespace::Extension(_) => ToolNamespace::GrokBuild,
    }
}

/// The registration of the tool described by `info` with the host.
pub open spec fn host_registration(info: ToolInfo) -> RegisteredExtensionTool {
    RegisteredExtensionTool {
        id: info.id,
        description: info.description,
        kind: host_kind(info.kind),
        namespace: host_namespace(info.namespace),
        is_read_only: info.is_read_only,
        input_schema: info.input_schema,
    }
}

fn map_kind(k: ExtensionToolKind) -> (r: ToolKind)
    ensures
        r == host_kind(k),
{
    match k {
        ExtensionToolKind::Read => ToolKind::Read,
        ExtensionToolKind::Edit => ToolKind::Edit,
        ExtensionToolKind::Search => ToolKind::Search,
        ExtensionToolKind::Execute => ToolKind::Execute,
        ExtensionToolKind::Web => ToolKind::WebSearch,
        ExtensionToolKind::Other => ToolKind::Other,
    }
}

fn map_namespace(n: &ExtensionToolNamespace) -> (r: ToolNamespace)
    ensures
        r == host_namespace(*n),
{
    match n {
        ExtensionToolNamespace::GrokBuild => ToolNamespace::GrokBuild,
        ExtensionToolNamespace::OpenCode => ToolNamespace::OpenCode,
        ExtensionToolNamespace::Extension(_) => ToolNamespace::GrokBuild,
    }
}

impl ToolRegistryBuilder {
    /// The extension tools registered so far, in order.
    pub closed spec fn registered(&self) -> Seq<RegisteredExtensionTool> {
        self.extension_tools@
    }

    /// A builder without extension tools.
    pub fn new() -> (r: Self)
        ensures
            r.registered().len() == 0,
    {
        ToolRegistryBuilder { extension_tools: Vec::new() }
    }

    /// Register one extension tool.
    pub fn register_extension_tool(
        &mut self,
        id: String,
        description: String,
        kind: ToolKind,
        namespace: ToolNamespace,
        is_read_only: bool,
        input_schema: serde_json::Value,
    )
        ensures
            final(self).registered() == old(self).registered().push(
                RegisteredExtensionTool {
                    id,
                    description,
                    kind,
                    namespace,
                    is_read_only,
                    input_schema,
                },
            ),
    {
        self.extension_tools.push(
            RegisteredExtensionTool { id, description, kind, namespace, is_read_only, input_schema },
        );
    }

    /// The registered extension tools.
    pub fn extension_tools(&self) -> (r: &[RegisteredExtensionTool])
        ensures
            r@ == self.registered(),
    {
        self.extension_tools.as_slice()
    }
}

/// Register every tool of the extension tool registry with the host's
/// builder, in the registry's order, mapping kinds and namespaces.
pub fn register_extension_tools<E>(
    builder: &mut ToolRegistryBuilder,
    ext_registry: &ExtensionToolRegistry<E>,
)
    ensures
        final(builder).registered().len() == old(builder).registered().len()
            + ext_registry.tool_seq().len(),
        forall|k: int|
            0 <= k < old(builder).registered().len() ==> #[trigger] final(builder).registered()[k]
                == old(builder).registered()[k],
        forall|k: int|
            0 <= k < ext_registry.tool_seq().len() ==> #[trigger] final(builder).registered()[old(
                builder,
            ).registered().len() + k] == host_registration(info_of(ext_registry.tool_seq()[k])),
{
    let infos = ext_registry.tool_info();
    let ghost base = builder.registered();
    let mut i: usize = 0;
    while i < infos.len()
        invariant
            i <= infos@.len(),
            infos@.len() == ext_registry.tool_seq().len(),
            forall|k: int|
                0 <= k < infos@.len() ==> #[trigger] infos@[k] == info_of(ext_registry.tool_seq()[k]),
            builder.registered().len() == base.len() + i,
            forall|k: int| 0 <= k < base.len() ==> #[trigger] builder.registered()[k] == base[k],
            forall|k: int|
                0 <= k < i ==> #[trigger] builder.registered()[base.len() + k] == host_registration(
                    infos@[k],
                ),
        decreases infos@.len() - i,
    {
        let info = &infos[i];
        let kind = map_kind(info.kind);
        let namespace = map_namespace(&info.namespace);
        builder.register_extension_tool(
            info.id.clone(),
            info.description.clone(),
            kind,
            namespace,
            info.is_read_only,
            info.input_schema.clone(),
        );
        i = i + 1;
    }
}

// ── Laws ────────────────────────────────────────────────────────────────────

/// Registering with the host keeps each tool's kind: two tools get the same
/// host kind only when their extension kinds agree, a tool executes on the
/// host exactly when it executes as an extension tool, web tools become
/// web-search tools, and the read and search kinds (the read-only ones)
/// are kept as such. Identity and read-only flag are kept.
pub proof fn law_host_registration_keeps_kind(a: ToolInfo, b: ToolInfo)
    ensures
        host_registration(a).kind == host_registration(b).kind ==> a.kind == b.kind,
        (host_registration(a).kind == ToolKind::Execute) == (a.kind == ExtensionToolKind::Execute),
        (host_registration(a).kind == ToolKind::Edit) == (a.kind == ExtensionToolKind::Edit),
        (host_registration(a).kind == ToolKind::WebSearch) == (a.kind == ExtensionToolKind::Web),
        (host_registration(a).kind == ToolKind::Read) == (a.kind == ExtensionToolKind::Read),
        (host_registration(a).kind == ToolKind::Search) == (a.kind == ExtensionToolKind::Search),
        (host_registration(a).kind == ToolKind::Other) == (a.kind == ExtensionToolKind::Other),
        host_registration(a).id == a.id,
        host_registration(a).is_read_only == a.is_read_only,
        (host_registration(a).namespace == ToolNamespace::OpenCode) == (a.namespace
            == ExtensionToolNamespace::OpenCode),
{
}

} // verus!
