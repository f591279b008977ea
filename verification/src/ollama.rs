//! The Ollama extension: the Ollama provider with its three models, the
//! `ollama_list_models` tool, and the safety hook that blocks model
//! deletion commands.
//!
//! The endpoint comes from `OLLAMA_BASE_URL`, which the host reads; this
//! module holds what is built from it.

use std::collections::HashMap;
use vstd::prelude::*;

use crate::command::{CommandDef, CommandRegistry};
use crate::hook::{
    pre_tool_use_run, HookAction, HookRegistry, PreToolUseEvent, PreToolUseHandler, PreToolUseHook,
};
use crate::json::JsonValue;
use crate::pager::agent_handle::string_views;
use crate::provider::{
    names_unique, registered, ApiBackend, ModelConfig, ProviderConfig, ProviderRegistry,
};
use crate::text::{seq_contains_seq, str_contains, str_eq};
use crate::tool::{ExtensionToolKind, ExtensionToolMetadata, ExtensionToolNamespace};

verus! {

// ── Provider ────────────────────────────────────────────────────────────────

/// The Ollama endpoint: the value of `OLLAMA_BASE_URL` when set, else
/// `http://localhost:11434`.
pub fn ollama_base_url(env_value: Option<String>) -> (r: String)
    ensures
        match env_value {
            Some(v) => r == v,
            None => r@ == "http://localhost:11434"@,
        },
{
    match env_value {
        Some(v) => v,
        None => "http://localhost:11434".to_string(),
    }
}

/// `m` is an Ollama model with the given identifier, display name and
/// context window, 4096 output tokens, no reasoning and no overrides.
pub open spec fn ollama_model(m: ModelConfig, id: Seq<char>, name: Seq<char>, window: u64) -> bool {
    &&& m.id@ == id
    &&& m.name@ == name
    &&& m.context_window == window
    &&& m.max_completion_tokens == Some(4096u32)
    &&& !m.reasoning
    &&& m.temperature_bits is None
    &&& m.top_p_bits is None
}

/// `p` is the Ollama provider for endpoint `base_url`: chat completions at
/// `{base_url}/v1`, no auth, no extra headers, and the models Llama 3.1,
/// Code Llama and Mistral.
pub open spec fn ollama_provider(p: ProviderConfig, base_url: Seq<char>) -> bool {
    &&& p.name@ == "ollama"@
    &&& p.base_url@ == base_url + "/v1"@
    &&& p.api_backend == ApiBackend::ChatCompletions
    &&& p.auth_env_var is None
    &&& p.extra_headers@ == Map::<String, String>::empty()
    &&& p.models@.len() == 3
    &&& ollama_model(p.models@[0], "llama3.1"@, "ollama: Llama 3.1"@, 128_000)
    &&& ollama_model(p.models@[1], "codellama"@, "ollama: Code Llama"@, 16_384)
    &&& ollama_model(p.models@[2], "mistral"@, "ollama: Mistral"@, 32_000)
}

fn ollama_model_config(id: &str, name: &str, context_window: u64) -> (r: ModelConfig)
    ensures
        ollama_model(r, id@, name@, context_window),
{
    ModelConfig {
        id: id.to_string(),
        name: name.to_string(),
        context_window,
        max_completion_tokens: Some(4096),
        reasoning: false,
        temperature_bits: None,
        top_p_bits: None,
    }
}

/// The Ollama provider configuration for the endpoint `base_url`.
pub fn ollama_provider_config(base_url: &str) -> (r: ProviderConfig)
    ensures
        ollama_provider(r, base_url@),
{
    let mut url = base_url.to_string();
    url.append("/v1");
    let mut models: Vec<ModelConfig> = Vec::new();
    models.push(ollama_model_config("llama3.1", "ollama: Llama 3.1", 128_000));
    models.push(ollama_model_config("codellama", "ollama: Code Llama", 16_384));
    models.push(ollama_model_config("mistral", "ollama: Mistral", 32_000));
    ProviderConfig {
        name: "ollama".to_string(),
        base_url: url,
        api_backend: ApiBackend::ChatCompletions,
        auth_env_var: None,
        extra_headers: HashMap::new(),
        models,
    }
}

/// Register Ollama as a custom model provider at the endpoint `base_url`.
pub fn register_ollama_provider(registry: &mut ProviderRegistry, base_url: &str)
    ensures
        names_unique(final(registry).providers()),
        exists|p: ProviderConfig|
            ollama_provider(p, base_url@) && final(registry).providers() == registered(
                old(registry).providers(),
                p,
            ),
{
    let config = ollama_provider_config(base_url);
    let ghost p = config;
    registry.register(config);
    proof {
        assert(ollama_provider(p, base_url@));
    }
}

// ── Tool ────────────────────────────────────────────────────────────────────

/// Tool that lists the locally available Ollama models.
#[derive(Debug, Default)]
pub struct OllamaListModelsTool;

/// Input of `ollama_list_models`.
#[derive(Debug, Clone)]
pub struct ListModelsInput {
    /// Optional substring filter.
    pub filter: Option<String>,
}

/// Output of `ollama_list_models`.
#[derive(Debug, Clone)]
pub struct ListModelsOutput {
    /// Names of available Ollama models.
    pub models: Vec<String>,
    /// Base URL that was queried.
    pub base_url: String,
}

/// The models known to the Ollama extension, in order.
pub open spec fn known_ollama_models() -> Seq<Seq<char>> {
    seq!["llama3.1"@, "codellama"@, "mistral"@]
}

/// The text of an optional filter.
pub open spec fn filter_view(filter: Option<String>) -> Option<Seq<char>> {
    match filter {
        Some(f) => Some(f@),
        None => None,
    }
}

/// The names of `names` that contain `filter` (all of them without a
/// filter), in order.
pub open spec fn matching_names(names: Seq<Seq<char>>, filter: Option<Seq<char>>) -> Seq<Seq<char>>
    decreases names.len(),
{
    if names.len() == 0 {
        Seq::empty()
    } else {
        let base = matching_names(names.drop_last(), filter);
        match filter {
            Some(f) => if seq_contains_seq(names.last(), f) {
                base.push(names.last())
            } else {
                base
            },
            None => base.push(names.last()),
        }
    }
}

impl OllamaListModelsTool {
    /// The known models whose names contain the input's filter, and the
    /// endpoint that was queried.
    pub fn list_models(&self, input: &ListModelsInput, base_url: String) -> (r: ListModelsOutput)
        ensures
            string_views(r.models@) == matching_names(known_ollama_models(), filter_view(input.filter)),
            r.base_url == base_url,
    {
        let known: Vec<&str> = vec!["llama3.1", "codellama", "mistral"];
        let ghost filter = filter_view(input.filter);
        let ghost names = Seq::new(known@.len(), |k: int| known@[k]@);
        proof {
            assert(names =~= known_ollama_models());
        }
        let mut models: Vec<String> = Vec::new();
        let mut i: usize = 0;
        while i < known.len()
            invariant
                i <= known@.len(),
                names == Seq::new(known@.len(), |k: int| known@[k]@),
                string_views(models@) == matching_names(names.take(i as int), filter),
                filter == filter_view(input.filter),
            decreases known@.len() - i,
        {
            let name = known[i];
            proof {
                assert(names.take(i + 1).drop_last() =~= names.take(i as int));
                assert(names.take(i + 1).last() == name@);
            }
            let keep = match &input.filter {
                Some(f) => str_contains(name, f.as_str()),
                None => true,
            };
            if keep {
                let ghost before = models@;
                models.push(name.to_string());
                proof {
                    assert(string_views(models@) =~= string_views(before).push(name@));
                }
            }
            i = i + 1;
        }
        proof {
            assert(names.take(i as int) =~= names);
        }
        ListModelsOutput { models, base_url }
    }
}

impl ExtensionToolMetadata for OllamaListModelsTool {
    open spec fn tool_kind(&self) -> ExtensionToolKind {
        ExtensionToolKind::Read
    }

    fn kind(&self) -> (r: ExtensionToolKind)
        ensures
            r == ExtensionToolKind::Read,
    {
        ExtensionToolKind::Read
    }

    fn namespace(&self) -> (r: ExtensionToolNamespace)
        ensures
            r matches ExtensionToolNamespace::Extension(n) && n@ == "ollama"@,
    {
        ExtensionToolNamespace::Extension("ollama".to_string())
    }

    fn description_template(&self) -> (r: &str)
        ensures
            r@ == "List locally available Ollama models."@,
    {
        "List locally available Ollama models."
    }

    fn is_read_only(&self) -> (r: bool)
        ensures
            r,
    {
        true
    }
}

// ── Safety hook ─────────────────────────────────────────────────────────────

/// The reason given when a model deletion is blocked.
pub open spec fn ollama_block_reason() -> Seq<char> {
    "Blocked by grok-ext-ollama: model deletion requires explicit user confirmation. Use 'ollama list' first."@
}

/// A shell command that deletes an Ollama model.
pub open spec fn deletes_ollama_model(command: Seq<char>) -> bool {
    seq_contains_seq(command, "ollama rm"@) || seq_contains_seq(command, "ollama delete"@)
}

/// The safety hook's answer for a call of `tool_name` whose `command`
/// input is `command`: only bash commands that delete an Ollama model are
/// blocked.
pub open spec fn ollama_verdict(tool_name: Seq<char>, command: Option<Seq<char>>, a: HookAction) -> bool {
    if tool_name == "bash"@ && command is Some && deletes_ollama_model(command.unwrap()) {
        a matches HookAction::Block { reason } && reason@ == ollama_block_reason()
    } else {
        a is Allow
    }
}

/// A bash command is blocked whenever `ollama rm` or `ollama delete`
/// occurs anywhere in it, after any prefix `c` and before any suffix `d`,
/// and the block carries the deletion notice.
pub proof fn law_deletion_anywhere_is_blocked(c: Seq<char>, d: Seq<char>, a: HookAction)
    requires
        ollama_verdict("bash"@, Some(c + "ollama rm"@ + d), a) || ollama_verdict(
            "bash"@,
            Some(c + "ollama delete"@ + d),
            a,
        ),
    ensures
        a matches HookAction::Block { reason } && reason@ == ollama_block_reason(),
{
    reveal_strlit("ollama rm");
    reveal_strlit("ollama delete");
    let rm = c + "ollama rm"@ + d;
    let del = c + "ollama delete"@ + d;
    assert(rm.subrange(c.len() as int, c.len() as int + 9) =~= "ollama rm"@);
    assert(del.subrange(c.len() as int, c.len() as int + 13) =~= "ollama delete"@);
    assert(seq_contains_seq(rm, "ollama rm"@));
    assert(seq_contains_seq(del, "ollama delete"@));
}

/// A bash command in which neither `ollama rm` nor `ollama delete` occurs
/// is allowed, as is every call of another tool.
pub proof fn law_other_commands_are_allowed(tool_name: Seq<char>, command: Option<Seq<char>>, a: HookAction)
    requires
        ollama_verdict(tool_name, command, a),
        tool_name != "bash"@ || command is None || (!seq_contains_seq(command.unwrap(), "ollama rm"@)
            && !seq_contains_seq(command.unwrap(), "ollama delete"@)),
    ensures
        a is Allow,
{
}

/// The safety decision for a tool call, given its tool name and the text
/// of its `command` input (`None` when absent or not a string).
pub fn ollama_command_verdict(tool_name: &str, command: Option<&str>) -> (r: HookAction)
    ensures
        ollama_verdict(
            tool_name@,
            match command {
                Some(c) => Some(c@),
                None => None,
            },
            r,
        ),
{
    if !str_eq(tool_name, "bash") {
        return HookAction::Allow;
    }
    let cmd = match command {
        Some(c) => c,
        None => {
            return HookAction::Allow;
        },
    };
    if str_contains(cmd, "ollama rm") || str_contains(cmd, "ollama delete") {
        return HookAction::Block {
            reason: "Blocked by grok-ext-ollama: model deletion requires explicit user confirmation. Use 'ollama list' first.".to_string(),
        };
    }
    HookAction::Allow
}

/// The text of the `command` input of a tool call, when the input is an
/// object whose `command` entry is a string.
pub open spec fn command_text(input: JsonValue) -> Option<Seq<char>> {
    match input.field("command"@) {
        Some(v) => v.text(),
        None => None,
    }
}

/// A tool call that the safety hook blocks: a bash call whose `command`
/// input deletes an Ollama model.
pub open spec fn deletes_via_bash(event: PreToolUseEvent) -> bool {
    &&& event.tool_name@ == "bash"@
    &&& command_text(event.input) is Some
    &&& deletes_ollama_model(command_text(event.input).unwrap())
}

/// The safety hook: for bash calls, read the `command` input and block
/// model deletion; every other tool call is allowed.
pub fn ollama_safety_hook(event: &PreToolUseEvent) -> (r: HookAction)
    ensures
        ollama_verdict(event.tool_name@, command_text(event.input), r),
{
    if !str_eq(event.tool_name.as_str(), "bash") {
        return HookAction::Allow;
    }
    let command = match event.input.get("command") {
        Some(v) => v.as_str(),
        None => None,
    };
    proof {
        let c = match command {
            Some(c) => Some(c@),
            None => None,
        };
        assert(c == command_text(event.input));
    }
    ollama_command_verdict(event.tool_name.as_str(), command)
}

/// The pre-tool-use callback that blocks Ollama model deletion.
pub struct OllamaSafetyHook;

impl PreToolUseHandler for OllamaSafetyHook {
    open spec fn accepts(&self, event: PreToolUseEvent) -> bool {
        true
    }

    open spec fn answers(&self, event: PreToolUseEvent, action: HookAction) -> bool {
        ollama_verdict(event.tool_name@, command_text(event.input), action)
    }

    fn handle(&self, event: &PreToolUseEvent) -> (action: HookAction) {
        ollama_safety_hook(event)
    }
}

/// With the Ollama safety hook registered alone, a tool call is denied
/// exactly when it is a bash call whose `command` input deletes an Ollama
/// model, and a denial carries the deletion notice.
pub proof fn law_ollama_hook_blocks_exactly_deletions(
    handlers: Seq<PreToolUseHook>,
    event: PreToolUseEvent,
    outcomes: Seq<HookAction>,
    action: HookAction,
)
    requires
        handlers.len() == 1,
        handlers[0].behaves_as(OllamaSafetyHook),
        pre_tool_use_run(handlers, event, outcomes, action),
    ensures
        action.blocks() <==> deletes_via_bash(event),
        action matches HookAction::Block { reason } ==> reason@ == ollama_block_reason(),
{
    if outcomes.len() == 0 {
        assert(outcomes.len() == handlers.len());
    }
    assert(handlers[0].answers(event, outcomes[0]));
    assert(OllamaSafetyHook.answers(event, outcomes[0]));
}

/// Register the pre-tool-use hook that blocks dangerous Ollama commands.
pub fn register_ollama_hooks(registry: &mut HookRegistry)
    ensures
        final(registry).pre_tool_use_handlers().len() == old(registry).pre_tool_use_handlers().len()
            + 1,
        final(registry).pre_tool_use_handlers().drop_last() == old(registry).pre_tool_use_handlers(),
        final(registry).pre_tool_use_handlers().last().behaves_as(OllamaSafetyHook),
        final(registry).post_tool_use_handlers() == old(registry).post_tool_use_handlers(),
        final(registry).session_start_handlers() == old(registry).session_start_handlers(),
        final(registry).before_agent_start_handlers() == old(registry).before_agent_start_handlers(),
        final(registry).before_provider_request_handlers() == old(
            registry,
        ).before_provider_request_handlers(),
{
    registry.on_pre_tool_use(OllamaSafetyHook);
}

// ── Command ─────────────────────────────────────────────────────────────────

/// The notices the `/ollama` command shows, both at `Info` level: the
/// endpoint, then the known models.
pub fn ollama_command_notices(base_url: &str) -> (r: Vec<String>)
    ensures
        r@.len() == 2,
        r@[0]@ == "Ollama endpoint: "@ + base_url@,
        r@[1]@ == "Available models: llama3.1, codellama, mistral"@,
{
    let mut endpoint = "Ollama endpoint: ".to_string();
    endpoint.append(base_url);
    let mut notices: Vec<String> = Vec::new();
    notices.push(endpoint);
    notices.push("Available models: llama3.1, codellama, mistral".to_string());
    notices
}

/// Register the `/ollama` command, which lists the Ollama models
/// interactively; `handler` shows the notices of [`ollama_command_notices`].
pub fn register_ollama_commands<C, S>(registry: &mut CommandRegistry<C, S>, handler: C)
    ensures
        final(registry).command_seq().len() == old(registry).command_seq().len() + 1,
        final(registry).command_seq().drop_last() == old(registry).command_seq(),
        final(registry).command_seq().last().name@ == "ollama"@,
        final(registry).command_seq().last().description@ == "List available Ollama models"@,
        final(registry).command_seq().last().handler == handler,
        final(registry).command_seq().last().autocomplete is None,
        final(registry).shortcut_seq() == old(registry).shortcut_seq(),
        final(registry).flag_seq() == old(registry).flag_seq(),
{
    registry.register_command(
        CommandDef {
            name: "ollama".to_string(),
            description: "List available Ollama models".to_string(),
            handler,
            autocomplete: None,
        },
    );
}

} // verus!
