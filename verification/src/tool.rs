//! Extension tool metadata, errors and the extension tool registry.
//!
//! Tool identifiers are unique in the registry: inserting a tool whose
//! identifier is already present replaces it. Executing a tool is
//! asynchronous and done by the host; the registry is generic over the
//! type `E` of the type-erased execution function and never invokes it.

use vstd::prelude::*;

use crate::text::{first_text_index, lemma_first_text_index, str_eq};

verus! {

/// Tool execution error.
#[derive(Debug, Clone)]
pub struct ToolError {
    /// Error code for programmatic handling.
    pub code: String,
    /// Human-readable error message.
    pub message: String,
}

impl ToolError {
    /// Create a new tool error.
    pub fn new(code: &str, message: &str) -> (r: Self)
        ensures
            r.code@ == code@,
            r.message@ == message@,
    {
        ToolError { code: code.to_string(), message: message.to_string() }
    }

    /// Create an execution error: its code is `"{tool_id}.execution"`.
    pub fn execution(tool_id: &str, message: &str) -> (r: Self)
        ensures
            r.code@ == tool_id@ + ".execution"@,
            r.message@ == message@,
    {
        let mut code = tool_id.to_string();
        code.append(".execution");
        ToolError { code, message: message.to_string() }
    }

    /// The error as displayed: `"[{code}] {message}"`.
    pub fn to_string(&self) -> (r: String)
        ensures
            r@ == "["@ + self.code@ + "] "@ + self.message@,
    {
        let mut s = "[".to_string();
        s.append(self.code.as_str());
        s.append("] ");
        s.append(self.message.as_str());
        s
    }
}

/// Extension tool metadata. Extensions implement this alongside their tool.
pub trait ExtensionToolMetadata: Send + Sync {
    /// The tool's category.
    spec fn tool_kind(&self) -> ExtensionToolKind;

    /// High-level category.
    fn kind(&self) -> (r: ExtensionToolKind)
        ensures
            r == self.tool_kind(),
    ;

    /// Namespace grouping.
    fn namespace(&self) -> ExtensionToolNamespace;

    /// Description template (may contain placeholders).
    fn description_template(&self) -> &str;

    /// Whether the tool is read-only; by default, whether its kind is.
    fn is_read_only(&self) -> (r: bool)
        default_ensures
            r == self.tool_kind().read_only(),
    {
        let kind = self.kind();
        kind.is_read_only()
    }
}

/// Tool kind categories.
#[derive(Debug, Clone, Copy, PartialEq, Eq, Hash, Structural)]
pub enum ExtensionToolKind {
    /// Read-only operations (file reads, searches, lists).
    Read,
    /// File editing operations.
    Edit,
    /// Search operations.
    Search,
    /// Command execution.
    Execute,
    /// Web operations.
    Web,
    /// Other/unknown.
    Other,
}

impl ExtensionToolKind {
    /// Read and search kinds are read-only.
    pub open spec fn read_only(self) -> bool {
        self is Read || self is Search
    }

    /// Whether this kind is read-only by default.
    pub fn is_read_only(&self) -> (r: bool)
        ensures
            r == self.read_only(),
    {
        match self {
            ExtensionToolKind::Read | ExtensionToolKind::Search => true,
            _ => false,
        }
    }
}

/// Tool namespace grouping.
#[derive(Debug, Clone, PartialEq, Eq, Hash)]
pub enum ExtensionToolNamespace {
    /// Built-in grok-build tools.
    GrokBuild,
    /// OpenCode-compatible tools.
    OpenCode,
    /// Extension-provided tools (with extension name).
    Extension(String),
}

fn copy_namespace(ns: &ExtensionToolNamespace) -> (r: ExtensionToolNamespace)
    ensures
        r == *ns,
{
    match ns {
        ExtensionToolNamespace::GrokBuild => ExtensionToolNamespace::GrokBuild,
        ExtensionToolNamespace::OpenCode => ExtensionToolNamespace::OpenCode,
        ExtensionToolNamespace::Extension(name) => ExtensionToolNamespace::Extension(name.clone()),
    }
}

/// A type-erased tool entry in the extension tool registry; `E` is the type
/// of its execution function.
pub struct ErasedTool<E> {
    pub id: String,
    pub description: String,
    pub kind: ExtensionToolKind,
    pub namespace: ExtensionToolNamespace,
    pub is_read_only: bool,
    /// The tool's JSON schema for input parameters.
    pub input_schema: serde_json::Value,
    /// Type-erased execution function.
    pub execute: E,
}

/// Information about a registered extension tool.
#[derive(Debug, Clone)]
pub struct ToolInfo {
    pub id: String,
    pub description: String,
    pub kind: ExtensionToolKind,
    pub namespace: ExtensionToolNamespace,
    pub is_read_only: bool,
    pub input_schema: serde_json::Value,
}

/// Identifiers of the tools `ts`, in order.
pub open spec fn tool_id_seq<E>(ts: Seq<ErasedTool<E>>) -> Seq<Seq<char>> {
    Seq::new(ts.len(), |i: int| ts[i].id@)
}

/// No two tools share an identifier.
pub open spec fn tool_ids_unique<E>(ts: Seq<ErasedTool<E>>) -> bool {
    forall|i: int, j: int| 0 <= i < j < ts.len() ==> ts[i].id@ != ts[j].id@
}

/// The tools after inserting `t`: it replaces the tool with the same
/// identifier in place, or is appended.
pub open spec fn tools_inserted<E>(ts: Seq<ErasedTool<E>>, t: ErasedTool<E>) -> Seq<ErasedTool<E>> {
    match first_text_index(tool_id_seq(ts), t.id@) {
        Some(i) => ts.update(i, t),
        None => ts.push(t),
    }
}

/// The listing information of a tool.
pub open spec fn info_of<E>(t: ErasedTool<E>) -> ToolInfo {
    ToolInfo {
        id: t.id,
        description: t.description,
        kind: t.kind,
        namespace: t.namespace,
        is_read_only: t.is_read_only,
        input_schema: t.input_schema,
    }
}

fn tool_position<E>(tools: &Vec<ErasedTool<E>>, tool_id: &str) -> (r: Option<usize>)
    ensures
        match r {
            Some(i) => first_text_index(tool_id_seq(tools@), tool_id@) == Some(i as int)
                && i < tools@.len(),
            None => first_text_index(tool_id_seq(tools@), tool_id@) is None,
        },
{
    let ghost ids = tool_id_seq(tools@);
    let mut i: usize = 0;
    while i < tools.len()
        invariant
            ids == tool_id_seq(tools@),
            i <= tools@.len(),
            forall|j: int| 0 <= j < i ==> ids[j] != tool_id@,
        decreases tools@.len() - i,
    {
        if str_eq(tools[i].id.as_str(), tool_id) {
            proof {
                lemma_first_text_index(ids, tool_id@);
                assert(ids[i as int] == tool_id@);
            }
            return Some(i);
        }
        i = i + 1;
    }
    proof {
        lemma_first_text_index(ids, tool_id@);
    }
    None
}

/// Extension tool registry, populated by tool packs at startup.
pub struct ExtensionToolRegistry<E> {
    tools: Vec<ErasedTool<E>>,
}

impl<E> ExtensionToolRegistry<E> {
    /// The registered tools, in registration order.
    pub closed spec fn tool_seq(&self) -> Seq<ErasedTool<E>> {
        self.tools@
    }

    /// Tool identifiers are unique in every registry.
    #[verifier::type_invariant]
    pub(crate) open spec fn ids_are_unique(&self) -> bool {
        tool_ids_unique(self.tool_seq())
    }

    /// Create an empty registry.
    pub fn new() -> (r: Self)
        ensures
            r.tool_seq().len() == 0,
    {
        ExtensionToolRegistry { tools: Vec::new() }
    }

    /// Insert a type-erased tool under its identifier, replacing a tool
    /// already registered with the same identifier.
    pub fn insert(&mut self, tool: ErasedTool<E>)
        ensures
            tool_ids_unique(final(self).tool_seq()),
            final(self).tool_seq() == tools_inserted(old(self).tool_seq(), tool),
    {
        proof {
            use_type_invariant(&*self);
        }
        let ghost t = tool;
        let ghost before = self.tools@;
        let ghost ids = tool_id_seq(before);
        let mut tools: Vec<ErasedTool<E>> = Vec::new();
        std::mem::swap(&mut tools, &mut self.tools);
        proof {
            lemma_first_text_index(ids, tool.id@);
        }
        match tool_position(&tools, tool.id.as_str()) {
            Some(i) => {
                tools.set(i, tool);
                proof {
                    assert forall|a: int, b: int|
                        0 <= a < b < tools@.len() implies tools@[a].id@ != tools@[b].id@ by {
                        assert(ids[i as int] == t.id@);
                        if a != i as int && b != i as int {
                            assert(before[a] == tools@[a]);
                        } else if a == i as int {
                            assert(ids[b] == before[b].id@);
                        } else {
                            assert(ids[a] == before[a].id@);
                        }
                    }
                }
            },
            None => {
                tools.push(tool);
                proof {
                    assert forall|a: int, b: int|
                        0 <= a < b < tools@.len() implies tools@[a].id@ != tools@[b].id@ by {
                        if b == tools@.len() - 1 {
                            assert(ids[a] == before[a].id@);
                        }
                    }
                }
            },
        }
        self.tools = tools;
    }

    /// All registered tool identifiers, in registration order.
    pub fn tool_ids(&self) -> (r: Vec<&str>)
        ensures
            r@.len() == self.tool_seq().len(),
            forall|k: int| 0 <= k < r@.len() ==> (#[trigger] r@[k])@ == self.tool_seq()[k].id@,
    {
        let mut out: Vec<&str> = Vec::new();
        let mut i: usize = 0;
        while i < self.tools.len()
            invariant
                i <= self.tools@.len(),
                out@.len() == i,
                forall|k: int| 0 <= k < i ==> (#[trigger] out@[k])@ == self.tools@[k].id@,
            decreases self.tools@.len() - i,
        {
            out.push(self.tools[i].id.as_str());
            i = i + 1;
        }
        out
    }

    /// Number of registered tools.
    pub fn len(&self) -> (r: usize)
        ensures
            r == self.tool_seq().len(),
    {
        self.tools.len()
    }

    /// Whether the registry is empty.
    pub fn is_empty(&self) -> (r: bool)
        ensures
            r == (self.tool_seq().len() == 0),
    {
        self.tools.len() == 0
    }

    /// The tool to execute for `tool_id`, or the `not_found` error with
    /// message `"Tool not found: {tool_id}"`.
    pub fn find(&self, tool_id: &str) -> (r: Result<&ErasedTool<E>, ToolError>)
        ensures
            match first_text_index(tool_id_seq(self.tool_seq()), tool_id@) {
                Some(i) => r is Ok && *r.unwrap() == self.tool_seq()[i],
                None => r is Err && r->Err_0.code@ == "not_found"@ && r->Err_0.message@
                    == "Tool not found: "@ + tool_id@,
            },
    {
        match tool_position(&self.tools, tool_id) {
            Some(i) => Ok(&self.tools[i]),
            None => {
                let mut message = "Tool not found: ".to_string();
                message.append(tool_id);
                Err(ToolError { code: "not_found".to_string(), message })
            },
        }
    }

    /// Listing information of every registered tool, in registration order.
    pub fn tool_info(&self) -> (r: Vec<ToolInfo>)
        ensures
            r@.len() == self.tool_seq().len(),
            forall|k: int| 0 <= k < r@.len() ==> #[trigger] r@[k] == info_of(self.tool_seq()[k]),
    {
        let mut out: Vec<ToolInfo> = Vec::new();
        let mut i: usize = 0;
        while i < self.tools.len()
            invariant
                i <= self.tools@.len(),
                out@.len() == i,
                forall|k: int| 0 <= k < i ==> #[trigger] out@[k] == info_of(self.tools@[k]),
            decreases self.tools@.len() - i,
        {
            let t = &self.tools[i];
            out.push(
                ToolInfo {
                    id: t.id.clone(),
                    description: t.description.clone(),
                    kind: t.kind,
                    namespace: copy_namespace(&t.namespace),
                    is_read_only: t.is_read_only,
                    input_schema: t.input_schema.clone(),
                },
            );
            i = i + 1;
        }
        out
    }
}

/// Inserting a tool makes it the one found under its identifier, and the
/// identifiers stay unique.
pub proof fn law_insert_then_find<E>(ts: Seq<ErasedTool<E>>, t: ErasedTool<E>)
    requires
        tool_ids_unique(ts),
    ensures
        tool_ids_unique(tools_inserted(ts, t)),
        match first_text_index(tool_id_seq(tools_inserted(ts, t)), t.id@) {
            Some(i) => tools_inserted(ts, t)[i] == t,
            None => false,
        },
{
    let u = tools_inserted(ts, t);
    let ids = tool_id_seq(ts);
    lemma_first_text_index(ids, t.id@);
    lemma_first_text_index(tool_id_seq(u), t.id@);
    match first_text_index(ids, t.id@) {
        Some(i) => {
            assert(ids[i] == ts[i].id@);
            assert forall|a: int, b: int| 0 <= a < b < u.len() implies u[a].id@ != u[b].id@ by {
                if a != i && b != i {
                    assert(u[a] == ts[a] && u[b] == ts[b]);
                } else if a == i {
                    assert(u[b] == ts[b]);
                } else {
                    assert(u[a] == ts[a]);
                }
            }
            assert(tool_id_seq(u)[i] == t.id@);
            let k = first_text_index(tool_id_seq(u), t.id@).unwrap();
            if k != i {
                assert(tool_id_seq(u)[k] == u[k].id@);
            }
        },
        None => {
            assert forall|a: int, b: int| 0 <= a < b < u.len() implies u[a].id@ != u[b].id@ by {
                if b == ts.len() {
                    assert(ids[a] == ts[a].id@);
                }
            }
            let n = ts.len() as int;
            assert(tool_id_seq(u)[n] == t.id@);
            let k = first_text_index(tool_id_seq(u), t.id@).unwrap();
            if k != n {
                assert(tool_id_seq(u)[k] == u[k].id@);
                assert(u[k] == ts[k]);
                assert(ids[k] == ts[k].id@);
            }
        },
    }
}

} // verus!
