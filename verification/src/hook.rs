//! Hook types for the extension API.
//!
//! Extensions register event callbacks in a [`HookRegistry`]. Callbacks run
//! in registration order. For pre-tool-use hooks the first `Block` wins and
//! denies the tool call; before-agent-start hooks are chained, each one
//! seeing the system prompt as modified by the hooks before it.

use std::collections::HashMap;
use std::path::PathBuf;
use vstd::prelude::*;

use crate::json::JsonValue;

verus! {

/// An event emitted before a tool executes.
#[derive(Debug)]
pub struct PreToolUseEvent {
    /// Name of the tool about to execute (e.g. "bash", "read_file").
    pub tool_name: String,
    /// The tool's input parameters as JSON.
    pub input: JsonValue,
    /// Current working directory.
    pub cwd: PathBuf,
}

/// An event emitted after a tool executes. Observers cannot block it.
#[derive(Debug, Clone)]
pub struct PostToolUseEvent {
    /// Name of the tool that executed.
    pub tool_name: String,
    /// The tool's input parameters as JSON.
    pub input: serde_json::Value,
    /// The tool's output as JSON.
    pub output: serde_json::Value,
    /// Whether the tool execution resulted in an error.
    pub is_error: bool,
    /// Current working directory.
    pub cwd: PathBuf,
}

/// An event emitted when a session starts.
#[derive(Debug, Clone)]
pub struct SessionStartEvent {
    /// The current working directory.
    pub cwd: PathBuf,
    /// Session start reason.
    pub reason: SessionStartReason,
}

/// Why a session is starting.
#[derive(Debug, Clone, Copy, PartialEq, Eq)]
pub enum SessionStartReason {
    /// Fresh startup.
    Startup,
    /// New session within an existing process.
    New,
    /// Resuming a previous session.
    Resume,
    /// Extension reload.
    Reload,
}

/// An event emitted before the agent starts processing a prompt.
#[derive(Debug, Clone)]
pub struct BeforeAgentStartEvent {
    /// The user's prompt text.
    pub prompt: String,
    /// The current system prompt (may have been modified by earlier hooks).
    pub system_prompt: String,
    /// Current working directory.
    pub cwd: PathBuf,
}

/// Result from a before-agent-start hook.
#[derive(Debug, Clone)]
pub struct BeforeAgentStartResult {
    /// Inject a message into the LLM context.
    pub message: Option<ExtensionMessage>,
    /// Modify the system prompt (chained across extensions).
    pub system_prompt: Option<String>,
}

impl Default for BeforeAgentStartResult {
    fn default() -> (r: Self)
        ensures
            r.message is None,
            r.system_prompt is None,
    {
        BeforeAgentStartResult { message: None, system_prompt: None }
    }
}

/// A message that can be injected into the LLM context.
#[derive(Debug, Clone)]
pub struct ExtensionMessage {
    /// Extension-defined type for routing and rendering.
    pub custom_type: String,
    /// Message content (sent to the LLM).
    pub content: String,
    /// Whether to display in the TUI.
    pub display: bool,
    /// Additional structured data (for rendering, not sent to the LLM).
    pub details: serde_json::Value,
}

/// An event emitted before a provider request is sent. Hooks may mutate
/// the headers and the payload.
#[derive(Debug, Clone)]
pub struct BeforeProviderRequestEvent {
    /// The model being requested.
    pub model: String,
    /// The provider name.
    pub provider: String,
    /// Request headers (mutable).
    pub headers: HashMap<String, String>,
    /// The request payload as JSON (mutable).
    pub payload: serde_json::Value,
}

/// The action a hook callback returns.
#[derive(Debug, Clone)]
pub enum HookAction {
    /// Allow the operation to proceed.
    Allow,
    /// Block the operation with a reason shown to the model.
    Block { reason: String },
}

impl HookAction {
    /// Whether this action blocks the operation.
    pub open spec fn blocks(self) -> bool {
        self is Block
    }

    /// Whether this action blocks the operation.
    pub fn is_blocked(&self) -> (r: bool)
        ensures
            r == self.blocks(),
    {
        match self {
            HookAction::Block { .. } => true,
            HookAction::Allow => false,
        }
    }

    /// Extract the block reason, if any.
    pub fn block_reason(&self) -> (r: Option<&str>)
        ensures
            match self {
                HookAction::Block { reason } => r is Some && r.unwrap()@ == reason@,
                HookAction::Allow => r is None,
            },
    {
        match self {
            HookAction::Block { reason } => Some(reason.as_str()),
            HookAction::Allow => None,
        }
    }
}

// ── Handler traits ──────────────────────────────────────────────────────────
//
// Each kind of callback is a trait with a blanket implementation for the
// matching closures, so `Box::new(|event: &PreToolUseEvent| ...)` registers
// a closure. `accepts` is the callback's precondition and `answers` relates
// an event to the possible answers of the callback.

/// A pre-tool-use callback.
pub trait PreToolUseHandler: Send + Sync {
    /// The callback may be invoked on `event`.
    spec fn accepts(&self, event: PreToolUseEvent) -> bool;

    /// `action` is a possible answer of the callback to `event`.
    spec fn answers(&self, event: PreToolUseEvent, action: HookAction) -> bool;

    /// Invoke the callback.
    fn handle(&self, event: &PreToolUseEvent) -> (action: HookAction)
        requires
            self.accepts(*event),
        ensures
            self.answers(*event, action),
    ;
}

impl<F: Fn(&PreToolUseEvent) -> HookAction + Send + Sync> PreToolUseHandler for F {
    open spec fn accepts(&self, event: PreToolUseEvent) -> bool {
        call_requires(*self, (&event,))
    }

    open spec fn answers(&self, event: PreToolUseEvent, action: HookAction) -> bool {
        call_ensures(*self, (&event,), action)
    }

    fn handle(&self, event: &PreToolUseEvent) -> (action: HookAction) {
        (*self)(event)
    }
}

/// A post-tool-use callback.
pub trait PostToolUseHandler: Send + Sync {
    /// The callback may be invoked on `event`.
    spec fn accepts(&self, event: PostToolUseEvent) -> bool;

    /// The callback has run on `event` (its effects are its own).
    spec fn ran_on(&self, event: PostToolUseEvent) -> bool;

    /// Invoke the callback.
    fn handle(&self, event: &PostToolUseEvent)
        requires
            self.accepts(*event),
        ensures
            self.ran_on(*event),
    ;
}

impl<F: Fn(&PostToolUseEvent) + Send + Sync> PostToolUseHandler for F {
    open spec fn accepts(&self, event: PostToolUseEvent) -> bool {
        call_requires(*self, (&event,))
    }

    open spec fn ran_on(&self, event: PostToolUseEvent) -> bool {
        call_ensures(*self, (&event,), ())
    }

    fn handle(&self, event: &PostToolUseEvent) {
        (*self)(event)
    }
}

/// A session-start callback.
pub trait SessionStartHandler: Send + Sync {
    /// The callback may be invoked on `event`.
    spec fn accepts(&self, event: SessionStartEvent) -> bool;

    /// The callback has run on `event` (its effects are its own).
    spec fn ran_on(&self, event: SessionStartEvent) -> bool;

    /// Invoke the callback.
    fn handle(&self, event: &SessionStartEvent)
        requires
            self.accepts(*event),
        ensures
            self.ran_on(*event),
    ;
}

impl<F: Fn(&SessionStartEvent) + Send + Sync> SessionStartHandler for F {
    open spec fn accepts(&self, event: SessionStartEvent) -> bool {
        call_requires(*self, (&event,))
    }

    open spec fn ran_on(&self, event: SessionStartEvent) -> bool {
        call_ensures(*self, (&event,), ())
    }

    fn handle(&self, event: &SessionStartEvent) {
        (*self)(event)
    }
}

/// A before-agent-start callback.
pub trait BeforeAgentStartHandler: Send + Sync {
    /// The callback may be invoked on `event`.
    spec fn accepts(&self, event: BeforeAgentStartEvent) -> bool;

    /// `result` is a possible answer of the callback to `event`.
    spec fn answers(&self, event: BeforeAgentStartEvent, result: BeforeAgentStartResult) -> bool;

    /// Invoke the callback.
    fn handle(&self, event: &BeforeAgentStartEvent) -> (result: BeforeAgentStartResult)
        requires
            self.accepts(*event),
        ensures
            self.answers(*event, result),
    ;
}

impl<F: Fn(&BeforeAgentStartEvent) -> BeforeAgentStartResult + Send + Sync> BeforeAgentStartHandler for F {
    open spec fn accepts(&self, event: BeforeAgentStartEvent) -> bool {
        call_requires(*self, (&event,))
    }

    open spec fn answers(&self, event: BeforeAgentStartEvent, result: BeforeAgentStartResult) -> bool {
        call_ensures(*self, (&event,), result)
    }

    fn handle(&self, event: &BeforeAgentStartEvent) -> (result: BeforeAgentStartResult) {
        (*self)(event)
    }
}

/// A before-provider-request callback, which may mutate the request.
pub trait ProviderRequestHandler: Send + Sync {
    /// The callback may be invoked on any request event.
    spec fn accepts_any(&self) -> bool;

    /// `after` is a possible result of the callback rewriting `before`.
    spec fn rewrites(&self, before: BeforeProviderRequestEvent, after: BeforeProviderRequestEvent) -> bool;

    /// Invoke the callback.
    fn handle(&self, event: &mut BeforeProviderRequestEvent)
        requires
            self.accepts_any(),
        ensures
            self.rewrites(*old(event), *final(event)),
    ;
}

impl<F: Fn(&mut BeforeProviderRequestEvent) + Send + Sync> ProviderRequestHandler for F {
    open spec fn accepts_any(&self) -> bool {
        forall|e: &mut BeforeProviderRequestEvent| call_requires(*self, (e,))
    }

    /// A closure's effect on the request involves the final value of its
    /// `&mut` argument, which a relation between two requests cannot refer
    /// to; as a relation it admits every result, and `handle` states the
    /// effect of the call itself.
    open spec fn rewrites(&self, before: BeforeProviderRequestEvent, after: BeforeProviderRequestEvent) -> bool {
        true
    }

    /// The request after the call is the final value of the closure's
    /// argument in a run of the closure on the request before the call.
    fn handle(&self, event: &mut BeforeProviderRequestEvent)
        ensures
            exists|e: &mut BeforeProviderRequestEvent|
                *e == *old(event) && *final(e) == *final(event) && call_ensures(*self, (e,), ()),
    {
        (*self)(event)
    }
}

// ── Registered callbacks ────────────────────────────────────────────────────
//
// A registered callback keeps the extension's closure behind a trait object,
// so callbacks of different extensions share one list, and behaves exactly
// as the closure it was made from.

/// A registered pre-tool-use callback.
pub struct PreToolUseHook {
    callback: Box<dyn PreToolUseHandler>,
}

impl PreToolUseHook {
    /// This callback is invoked on the same events and answers the same as
    /// `handler`.
    pub open spec fn behaves_as<H: PreToolUseHandler>(&self, handler: H) -> bool {
        &&& forall|e: PreToolUseEvent| #[trigger] self.accepts(e) == handler.accepts(e)
        &&& forall|e: PreToolUseEvent, a: HookAction|
            #[trigger] self.answers(e, a) == handler.answers(e, a)
    }

    /// Register `handler` as a pre-tool-use callback.
    pub fn new<H: PreToolUseHandler + 'static>(handler: H) -> (r: Self)
        ensures
            r.behaves_as(handler),
    {
        PreToolUseHook { callback: Box::new(handler) }
    }
}

impl PreToolUseHandler for PreToolUseHook {
    closed spec fn accepts(&self, event: PreToolUseEvent) -> bool {
        self.callback.accepts(event)
    }

    closed spec fn answers(&self, event: PreToolUseEvent, action: HookAction) -> bool {
        self.callback.answers(event, action)
    }

    fn handle(&self, event: &PreToolUseEvent) -> (action: HookAction) {
        self.callback.handle(event)
    }
}

/// A registered post-tool-use callback.
pub struct PostToolUseHook {
    callback: Box<dyn PostToolUseHandler>,
}

impl PostToolUseHook {
    /// This callback is invoked on the same events and answers the same as
    /// `handler`.
    pub open spec fn behaves_as<H: PostToolUseHandler>(&self, handler: H) -> bool {
        &&& forall|e: PostToolUseEvent| #[trigger] self.accepts(e) == handler.accepts(e)
        &&& forall|e: PostToolUseEvent| #[trigger] self.ran_on(e) == handler.ran_on(e)
    }

    /// Register `handler` as a post-tool-use callback.
    pub fn new<H: PostToolUseHandler + 'static>(handler: H) -> (r: Self)
        ensures
            r.behaves_as(handler),
    {
        PostToolUseHook { callback: Box::new(handler) }
    }
}

impl PostToolUseHandler for PostToolUseHook {
    closed spec fn accepts(&self, event: PostToolUseEvent) -> bool {
        self.callback.accepts(event)
    }

    closed spec fn ran_on(&self, event: PostToolUseEvent) -> bool {
        self.callback.ran_on(event)
    }

    fn handle(&self, event: &PostToolUseEvent) {
        self.callback.handle(event)
    }
}

/// A registered session-start callback.
pub struct SessionStartHook {
    callback: Box<dyn SessionStartHandler>,
}

impl SessionStartHook {
    /// This callback is invoked on the same events and answers the same as
    /// `handler`.
    pub open spec fn behaves_as<H: SessionStartHandler>(&self, handler: H) -> bool {
        &&& forall|e: SessionStartEvent| #[trigger] self.accepts(e) == handler.accepts(e)
        &&& forall|e: SessionStartEvent| #[trigger] self.ran_on(e) == handler.ran_on(e)
    }

    /// Register `handler` as a session-start callback.
    pub fn new<H: SessionStartHandler + 'static>(handler: H) -> (r: Self)
        ensures
            r.behaves_as(handler),
    {
        SessionStartHook { callback: Box::new(handler) }
    }
}

impl SessionStartHandler for SessionStartHook {
    closed spec fn accepts(&self, event: SessionStartEvent) -> bool {
        self.callback.accepts(event)
    }

    closed spec fn ran_on(&self, event: SessionStartEvent) -> bool {
        self.callback.ran_on(event)
    }

    fn handle(&self, event: &SessionStartEvent) {
        self.callback.handle(event)
    }
}

/// A registered before-agent-start callback.
pub struct BeforeAgentStartHook {
    callback: Box<dyn BeforeAgentStartHandler>,
}

impl BeforeAgentStartHook {
    /// This callback is invoked on the same events and answers the same as
    /// `handler`.
    pub open spec fn behaves_as<H: BeforeAgentStartHandler>(&self, handler: H) -> bool {
        &&& forall|e: BeforeAgentStartEvent| #[trigger] self.accepts(e) == handler.accepts(e)
        &&& forall|e: BeforeAgentStartEvent, b: BeforeAgentStartResult|
            #[trigger] self.answers(e, b) == handler.answers(e, b)
    }

    /// Register `handler` as a before-agent-start callback.
    pub fn new<H: BeforeAgentStartHandler + 'static>(handler: H) -> (r: Self)
        ensures
            r.behaves_as(handler),
    {
        BeforeAgentStartHook { callback: Box::new(handler) }
    }
}

impl BeforeAgentStartHandler for BeforeAgentStartHook {
    closed spec fn accepts(&self, event: BeforeAgentStartEvent) -> bool {
        self.callback.accepts(event)
    }

    closed spec fn answers(&self, event: BeforeAgentStartEvent, result: BeforeAgentStartResult) -> bool {
        self.callback.answers(event, result)
    }

    fn handle(&self, event: &BeforeAgentStartEvent) -> (result: BeforeAgentStartResult) {
        self.callback.handle(event)
    }
}

/// A registered before-provider-request callback.
pub struct ProviderRequestHook {
    callback: Box<dyn ProviderRequestHandler>,
}

impl ProviderRequestHook {
    /// This callback is invoked on the same events and answers the same as
    /// `handler`.
    pub open spec fn behaves_as<H: ProviderRequestHandler>(&self, handler: H) -> bool {
        &&& self.accepts_any() == handler.accepts_any()
        &&& forall|b: BeforeProviderRequestEvent, a: BeforeProviderRequestEvent|
            #[trigger] self.rewrites(b, a) == handler.rewrites(b, a)
    }

    /// Register `handler` as a before-provider-request callback.
    pub fn new<H: ProviderRequestHandler + 'static>(handler: H) -> (r: Self)
        ensures
            r.behaves_as(handler),
    {
        ProviderRequestHook { callback: Box::new(handler) }
    }
}

impl ProviderRequestHandler for ProviderRequestHook {
    closed spec fn accepts_any(&self) -> bool {
        self.callback.accepts_any()
    }

    closed spec fn rewrites(&self, before: BeforeProviderRequestEvent, after: BeforeProviderRequestEvent) -> bool {
        self.callback.rewrites(before, after)
    }

    fn handle(&self, event: &mut BeforeProviderRequestEvent) {
        self.callback.handle(event)
    }
}

// ── Runs of the callbacks ───────────────────────────────────────────────────

/// `outcomes` are the answers of the pre-tool-use callbacks `handlers`, in
/// registration order, to `event`, and `action` is the dispatch result: the
/// run stops at the first `Block`, which is the result; if none of the
/// callbacks blocks, every callback answered and the result is `Allow`.
pub open spec fn pre_tool_use_run(
    handlers: Seq<PreToolUseHook>,
    event: PreToolUseEvent,
    outcomes: Seq<HookAction>,
    action: HookAction,
) -> bool {
    &&& outcomes.len() <= handlers.len()
    &&& forall|i: int| 0 <= i < outcomes.len() ==> handlers[i].answers(event, #[trigger] outcomes[i])
    &&& forall|i: int| 0 <= i < outcomes.len() - 1 ==> !(#[trigger] outcomes[i]).blocks()
    &&& if outcomes.len() > 0 && outcomes.last().blocks() {
        action == outcomes.last()
    } else {
        outcomes.len() == handlers.len() && action == HookAction::Allow
    }
}

/// `steps` are the request as each of the before-provider-request callbacks
/// `handlers` receives it, in registration order, followed by the request
/// as the last one leaves it: each callback rewrites the request it
/// receives into the next one.
pub open spec fn provider_request_run(
    handlers: Seq<ProviderRequestHook>,
    steps: Seq<BeforeProviderRequestEvent>,
) -> bool {
    &&& steps.len() == handlers.len() + 1
    &&& forall|i: int|
        0 <= i < handlers.len() ==> (#[trigger] handlers[i]).rewrites(steps[i], steps[i + 1])
}

/// The last system prompt that one of `results` sets, if any.
pub open spec fn last_system_prompt(results: Seq<BeforeAgentStartResult>) -> Option<String>
    decreases results.len(),
{
    if results.len() == 0 {
        None
    } else {
        match results.last().system_prompt {
            Some(p) => Some(p),
            None => last_system_prompt(results.drop_last()),
        }
    }
}

/// The last message that one of `results` injects, if any.
pub open spec fn last_message(results: Seq<BeforeAgentStartResult>) -> Option<ExtensionMessage>
    decreases results.len(),
{
    if results.len() == 0 {
        None
    } else {
        match results.last().message {
            Some(m) => Some(m),
            None => last_message(results.drop_last()),
        }
    }
}

/// The event as the callback after `results` sees it: the original event
/// with the system prompt chained through the earlier answers.
pub open spec fn chained_event(
    event: BeforeAgentStartEvent,
    results: Seq<BeforeAgentStartResult>,
) -> BeforeAgentStartEvent {
    BeforeAgentStartEvent {
        prompt: event.prompt,
        system_prompt: match last_system_prompt(results) {
            Some(p) => p,
            None => event.system_prompt,
        },
        cwd: event.cwd,
    }
}

/// `results` are the answers of the before-agent-start callbacks
/// `handlers`, all of them in registration order, each to the event with
/// the system prompt as the earlier callbacks left it.
pub open spec fn before_agent_start_run(
    handlers: Seq<BeforeAgentStartHook>,
    event: BeforeAgentStartEvent,
    results: Seq<BeforeAgentStartResult>,
) -> bool {
    &&& results.len() == handlers.len()
    &&& forall|i: int|
        0 <= i < results.len() ==> handlers[i].answers(
            chained_event(event, results.take(i)),
            #[trigger] results[i],
        )
}

/// The combined result of a run: the last system prompt set and the last
/// message injected.
pub open spec fn combined_result(
    results: Seq<BeforeAgentStartResult>,
    r: BeforeAgentStartResult,
) -> bool {
    &&& r.system_prompt == last_system_prompt(results)
    &&& r.message == last_message(results)
}

// ── Registry ────────────────────────────────────────────────────────────────

/// Registry of extension-provided event callbacks, populated by hook packs
/// at startup.
pub struct HookRegistry {
    pre_tool_use: Vec<PreToolUseHook>,
    post_tool_use: Vec<PostToolUseHook>,
    session_start: Vec<SessionStartHook>,
    before_agent_start: Vec<BeforeAgentStartHook>,
    before_provider_request: Vec<ProviderRequestHook>,
}

impl HookRegistry {
    /// Pre-tool-use callbacks, in registration order.
    pub closed spec fn pre_tool_use_handlers(&self) -> Seq<PreToolUseHook> {
        self.pre_tool_use@
    }

    /// Post-tool-use callbacks, in registration order.
    pub closed spec fn post_tool_use_handlers(&self) -> Seq<PostToolUseHook> {
        self.post_tool_use@
    }

    /// Session-start callbacks, in registration order.
    pub closed spec fn session_start_handlers(&self) -> Seq<SessionStartHook> {
        self.session_start@
    }

    /// Before-agent-start callbacks, in registration order.
    pub closed spec fn before_agent_start_handlers(&self) -> Seq<BeforeAgentStartHook> {
        self.before_agent_start@
    }

    /// Before-provider-request callbacks, in registration order.
    pub closed spec fn before_provider_request_handlers(&self) -> Seq<ProviderRequestHook> {
        self.before_provider_request@
    }

    /// Create an empty registry.
    pub fn new() -> (r: Self)
        ensures
            r.pre_tool_use_handlers().len() == 0,
            r.post_tool_use_handlers().len() == 0,
            r.session_start_handlers().len() == 0,
            r.before_agent_start_handlers().len() == 0,
            r.before_provider_request_handlers().len() == 0,
    {
        HookRegistry {
            pre_tool_use: Vec::new(),
            post_tool_use: Vec::new(),
            session_start: Vec::new(),
            before_agent_start: Vec::new(),
            before_provider_request: Vec::new(),
        }
    }

    /// Register a pre-tool-use callback. Callbacks run in registration
    /// order and the first `Block` wins.
    pub fn on_pre_tool_use<H: PreToolUseHandler + 'static>(&mut self, handler: H)
        ensures
            final(self).pre_tool_use_handlers().len() == old(self).pre_tool_use_handlers().len() + 1,
            final(self).pre_tool_use_handlers().drop_last() == old(self).pre_tool_use_handlers(),
            final(self).pre_tool_use_handlers().last().behaves_as(handler),
            final(self).post_tool_use_handlers() == old(self).post_tool_use_handlers(),
            final(self).session_start_handlers() == old(self).session_start_handlers(),
            final(self).before_agent_start_handlers() == old(self).before_agent_start_handlers(),
            final(self).before_provider_request_handlers() == old(
                self,
            ).before_provider_request_handlers(),
    {
        self.pre_tool_use.push(PreToolUseHook::new(handler));
    }

    /// Register a post-tool-use callback, called after each tool execution.
    pub fn on_post_tool_use<H: PostToolUseHandler + 'static>(&mut self, handler: H)
        ensures
            final(self).post_tool_use_handlers().len() == old(self).post_tool_use_handlers().len() + 1,
            final(self).post_tool_use_handlers().drop_last() == old(self).post_tool_use_handlers(),
            final(self).post_tool_use_handlers().last().behaves_as(handler),
            final(self).pre_tool_use_handlers() == old(self).pre_tool_use_handlers(),
            final(self).session_start_handlers() == old(self).session_start_handlers(),
            final(self).before_agent_start_handlers() == old(self).before_agent_start_handlers(),
            final(self).before_provider_request_handlers() == old(
                self,
            ).before_provider_request_handlers(),
    {
        self.post_tool_use.push(PostToolUseHook::new(handler));
    }

    /// Register a session-start callback.
    pub fn on_session_start<H: SessionStartHandler + 'static>(&mut self, handler: H)
        ensures
            final(self).session_start_handlers().len() == old(self).session_start_handlers().len() + 1,
            final(self).session_start_handlers().drop_last() == old(self).session_start_handlers(),
            final(self).session_start_handlers().last().behaves_as(handler),
            final(self).pre_tool_use_handlers() == old(self).pre_tool_use_handlers(),
            final(self).post_tool_use_handlers() == old(self).post_tool_use_handlers(),
            final(self).before_agent_start_handlers() == old(self).before_agent_start_handlers(),
            final(self).before_provider_request_handlers() == old(
                self,
            ).before_provider_request_handlers(),
    {
        self.session_start.push(SessionStartHook::new(handler));
    }

    /// Register a before-agent-start callback (chained across extensions).
    pub fn on_before_agent_start<H: BeforeAgentStartHandler + 'static>(&mut self, handler: H)
        ensures
            final(self).before_agent_start_handlers().len() == old(self).before_agent_start_handlers().len() + 1,
            final(self).before_agent_start_handlers().drop_last() == old(self).before_agent_start_handlers(),
            final(self).before_agent_start_handlers().last().behaves_as(handler),
            final(self).pre_tool_use_handlers() == old(self).pre_tool_use_handlers(),
            final(self).post_tool_use_handlers() == old(self).post_tool_use_handlers(),
            final(self).session_start_handlers() == old(self).session_start_handlers(),
            final(self).before_provider_request_handlers() == old(
                self,
            ).before_provider_request_handlers(),
    {
        self.before_agent_start.push(BeforeAgentStartHook::new(handler));
    }

    /// Register a before-provider-request callback.
    pub fn on_before_provider_request<H: ProviderRequestHandler + 'static>(&mut self, handler: H)
        ensures
            final(self).before_provider_request_handlers().len() == old(self).before_provider_request_handlers().len() + 1,
            final(self).before_provider_request_handlers().drop_last() == old(self).before_provider_request_handlers(),
            final(self).before_provider_request_handlers().last().behaves_as(handler),
            final(self).pre_tool_use_handlers() == old(self).pre_tool_use_handlers(),
            final(self).post_tool_use_handlers() == old(self).post_tool_use_handlers(),
            final(self).session_start_handlers() == old(self).session_start_handlers(),
            final(self).before_agent_start_handlers() == old(self).before_agent_start_handlers(),
    {
        self.before_provider_request.push(ProviderRequestHook::new(handler));
    }

    /// Run the pre-tool-use callbacks in order; the first `Block` is the
    /// result, and `Allow` when none blocks.
    pub fn dispatch_pre_tool_use(&self, event: &PreToolUseEvent) -> (action: HookAction)
        requires
            forall|i: int|
                0 <= i < self.pre_tool_use_handlers().len() ==> (
                #[trigger] self.pre_tool_use_handlers()[i]).accepts(*event),
        ensures
            exists|outcomes: Seq<HookAction>|
                pre_tool_use_run(self.pre_tool_use_handlers(), *event, outcomes, action),
    {
        let ghost handlers = self.pre_tool_use@;
        assert(handlers == self.pre_tool_use_handlers());
        assert(forall|j: int| 0 <= j < handlers.len() ==> (#[trigger] handlers[j]).accepts(*event));
        let ghost mut outcomes: Seq<HookAction> = Seq::empty();
        let mut i: usize = 0;
        while i < self.pre_tool_use.len()
            invariant
                handlers == self.pre_tool_use@,
                i <= handlers.len(),
                outcomes.len() == i,
                forall|j: int| 0 <= j < handlers.len() ==> (#[trigger] handlers[j]).accepts(*event),
                forall|j: int| 0 <= j < i ==> handlers[j].answers(*event, #[trigger] outcomes[j]),
                forall|j: int| 0 <= j < i ==> !(#[trigger] outcomes[j]).blocks(),
            decreases handlers.len() - i,
        {
            let action = self.pre_tool_use[i].handle(event);
            proof {
                outcomes = outcomes.push(action);
            }
            if action.is_blocked() {
                proof {
                    assert(pre_tool_use_run(self.pre_tool_use_handlers(), *event, outcomes, action));
                }
                return action;
            }
            i = i + 1;
        }
        proof {
            assert(pre_tool_use_run(self.pre_tool_use_handlers(), *event, outcomes, HookAction::Allow));
        }
        HookAction::Allow
    }

    /// Run the post-tool-use callbacks in order.
    pub fn dispatch_post_tool_use(&self, event: &PostToolUseEvent)
        requires
            forall|i: int|
                0 <= i < self.post_tool_use_handlers().len() ==> (
                #[trigger] self.post_tool_use_handlers()[i]).accepts(*event),
        ensures
            forall|i: int|
                0 <= i < self.post_tool_use_handlers().len() ==> (
                #[trigger] self.post_tool_use_handlers()[i]).ran_on(*event),
    {
        proof {
            assert(self.post_tool_use_handlers() == self.post_tool_use@);
        }
        let mut i: usize = 0;
        while i < self.post_tool_use.len()
            invariant
                i <= self.post_tool_use@.len(),
                forall|j: int|
                    0 <= j < self.post_tool_use@.len() ==> (#[trigger] self.post_tool_use@[j]).accepts(
                        *event,
                    ),
                forall|j: int| 0 <= j < i ==> (#[trigger] self.post_tool_use@[j]).ran_on(*event),
            decreases self.post_tool_use@.len() - i,
        {
            self.post_tool_use[i].handle(event);
            i = i + 1;
        }
    }

    /// Run the session-start callbacks in order.
    pub fn dispatch_session_start(&self, event: &SessionStartEvent)
        requires
            forall|i: int|
                0 <= i < self.session_start_handlers().len() ==> (
                #[trigger] self.session_start_handlers()[i]).accepts(*event),
        ensures
            forall|i: int|
                0 <= i < self.session_start_handlers().len() ==> (
                #[trigger] self.session_start_handlers()[i]).ran_on(*event),
    {
        proof {
            assert(self.session_start_handlers() == self.session_start@);
        }
        let mut i: usize = 0;
        while i < self.session_start.len()
            invariant
                i <= self.session_start@.len(),
                forall|j: int|
                    0 <= j < self.session_start@.len() ==> (#[trigger] self.session_start@[j]).accepts(
                        *event,
                    ),
                forall|j: int| 0 <= j < i ==> (#[trigger] self.session_start@[j]).ran_on(*event),
            decreases self.session_start@.len() - i,
        {
            self.session_start[i].handle(event);
            i = i + 1;
        }
    }

    /// Run the before-agent-start callbacks in order, chaining system
    /// prompt modifications; the last prompt set and the last message
    /// injected are the result.
    pub fn dispatch_before_agent_start(&self, event: &BeforeAgentStartEvent) -> (r:
        BeforeAgentStartResult)
        requires
            forall|i: int, e: BeforeAgentStartEvent|
                0 <= i < self.before_agent_start_handlers().len()
                    ==> #[trigger] self.before_agent_start_handlers()[i].accepts(e),
        ensures
            exists|results: Seq<BeforeAgentStartResult>|
                before_agent_start_run(self.before_agent_start_handlers(), *event, results)
                    && combined_result(results, r),
    {
        let ghost handlers = self.before_agent_start@;
        proof {
            assert(handlers == self.before_agent_start_handlers());
        }
        let ghost mut results: Seq<BeforeAgentStartResult> = Seq::empty();
        let mut result = BeforeAgentStartResult { message: None, system_prompt: None };
        let mut current_event = BeforeAgentStartEvent {
            prompt: event.prompt.clone(),
            system_prompt: event.system_prompt.clone(),
            cwd: event.cwd.clone(),
        };
        let mut i: usize = 0;
        while i < self.before_agent_start.len()
            invariant
                handlers == self.before_agent_start@,
                i <= handlers.len(),
                results.len() == i,
                forall|j: int, e: BeforeAgentStartEvent|
                    0 <= j < handlers.len() ==> #[trigger] handlers[j].accepts(e),
                forall|j: int|
                    0 <= j < i ==> handlers[j].answers(
                        chained_event(*event, results.take(j)),
                        #[trigger] results[j],
                    ),
                current_event == chained_event(*event, results),
                result.system_prompt == last_system_prompt(results),
                result.message == last_message(results),
            decreases handlers.len() - i,
        {
            let handler_result = self.before_agent_start[i].handle(&current_event);
            let ghost answered = handler_result;
            let ghost before = results;
            let BeforeAgentStartResult { message, system_prompt } = handler_result;
            if let Some(new_prompt) = system_prompt {
                current_event.system_prompt = new_prompt.clone();
                result.system_prompt = Some(new_prompt);
            }
            if let Some(msg) = message {
                result.message = Some(msg);
            }
            proof {
                results = results.push(answered);
                assert(results.take(i as int) =~= before);
                assert(results.drop_last() =~= before);
                assert forall|j: int| 0 <= j < i + 1 implies handlers[j].answers(
                    chained_event(*event, results.take(j)),
                    #[trigger] results[j],
                ) by {
                    if j < i {
                        assert(results.take(j) =~= before.take(j));
                    }
                }
            }
            i = i + 1;
        }
        proof {
            assert(before_agent_start_run(self.before_agent_start_handlers(), *event, results));
            assert(combined_result(results, result));
        }
        result
    }

    /// Run the before-provider-request callbacks in order; each may mutate
    /// the request, and each sees the request as the ones before it left it.
    pub fn dispatch_before_provider_request(&self, event: &mut BeforeProviderRequestEvent)
        requires
            forall|i: int|
                0 <= i < self.before_provider_request_handlers().len() ==> (
                #[trigger] self.before_provider_request_handlers()[i]).accepts_any(),
        ensures
            exists|steps: Seq<BeforeProviderRequestEvent>|
                provider_request_run(self.before_provider_request_handlers(), steps)
                    && steps[0] == *old(event) && steps.last() == *final(event),
    {
        let ghost handlers = self.before_provider_request@;
        proof {
            assert(handlers == self.before_provider_request_handlers());
        }
        let ghost mut steps: Seq<BeforeProviderRequestEvent> = seq![*event];
        let mut i: usize = 0;
        while i < self.before_provider_request.len()
            invariant
                handlers == self.before_provider_request@,
                i <= handlers.len(),
                forall|j: int| 0 <= j < handlers.len() ==> (#[trigger] handlers[j]).accepts_any(),
                steps.len() == i + 1,
                steps[0] == *old(event),
                steps.last() == *event,
                forall|j: int|
                    0 <= j < i ==> (#[trigger] handlers[j]).rewrites(steps[j], steps[j + 1]),
            decreases handlers.len() - i,
        {
            let ghost before = *event;
            self.before_provider_request[i].handle(event);
            proof {
                let prev = steps;
                steps = steps.push(*event);
                assert(steps[i as int] == before);
                assert forall|j: int| 0 <= j < i + 1 implies (#[trigger] handlers[j]).rewrites(
                    steps[j],
                    steps[j + 1],
                ) by {
                    if j < i {
                        assert(steps[j] == prev[j] && steps[j + 1] == prev[j + 1]);
                    }
                }
            }
            i = i + 1;
        }
        proof {
            assert(provider_request_run(handlers, steps));
        }
    }

    /// Whether any pre-tool-use hooks are registered.
    pub fn has_pre_tool_use_hooks(&self) -> (r: bool)
        ensures
            r == (self.pre_tool_use_handlers().len() > 0),
    {
        self.pre_tool_use.len() > 0
    }

    /// Whether any post-tool-use hooks are registered.
    pub fn has_post_tool_use_hooks(&self) -> (r: bool)
        ensures
            r == (self.post_tool_use_handlers().len() > 0),
    {
        self.post_tool_use.len() > 0
    }

    /// Whether any session-start hooks are registered.
    pub fn has_session_start_hooks(&self) -> (r: bool)
        ensures
            r == (self.session_start_handlers().len() > 0),
    {
        self.session_start.len() > 0
    }

    /// Whether any before-agent-start hooks are registered.
    pub fn has_before_agent_start_hooks(&self) -> (r: bool)
        ensures
            r == (self.before_agent_start_handlers().len() > 0),
    {
        self.before_agent_start.len() > 0
    }

    /// Whether any before-provider-request hooks are registered.
    pub fn has_before_provider_request_hooks(&self) -> (r: bool)
        ensures
            r == (self.before_provider_request_handlers().len() > 0),
    {
        self.before_provider_request.len() > 0
    }

    /// Whether no hooks are registered at all.
    pub fn is_empty(&self) -> (r: bool)
        ensures
            r == (self.pre_tool_use_handlers().len() == 0 && self.post_tool_use_handlers().len()
                == 0 && self.session_start_handlers().len() == 0
                && self.before_agent_start_handlers().len() == 0
                && self.before_provider_request_handlers().len() == 0),
    {
        self.pre_tool_use.len() == 0 && self.post_tool_use.len() == 0 && self.session_start.len()
            == 0 && self.before_agent_start.len() == 0 && self.before_provider_request.len() == 0
    }
}

// ── Laws ────────────────────────────────────────────────────────────────────

/// If any pre-tool-use callback can only block the event, the dispatch
/// result blocks: the tool call is denied.
pub proof fn law_any_blocking_hook_denies(
    handlers: Seq<PreToolUseHook>,
    event: PreToolUseEvent,
    outcomes: Seq<HookAction>,
    action: HookAction,
    k: int,
)
    requires
        0 <= k < handlers.len(),
        forall|a: HookAction| #[trigger] handlers[k].answers(event, a) ==> a.blocks(),
        pre_tool_use_run(handlers, event, outcomes, action),
    ensures
        action.blocks(),
{
    if !action.blocks() {
        if outcomes.len() > 0 && outcomes.last().blocks() {
        } else {
            assert(handlers[k].answers(event, outcomes[k]));
            if k < outcomes.len() - 1 {
                assert(!outcomes[k].blocks());
            }
        }
    }
}

/// If no pre-tool-use callback ever blocks the event, the dispatch result
/// is `Allow` and every callback was consulted.
pub proof fn law_no_block_allows(
    handlers: Seq<PreToolUseHook>,
    event: PreToolUseEvent,
    outcomes: Seq<HookAction>,
    action: HookAction,
)
    requires
        forall|k: int, a: HookAction|
            0 <= k < handlers.len() && #[trigger] handlers[k].answers(event, a) ==> !a.blocks(),
        pre_tool_use_run(handlers, event, outcomes, action),
    ensures
        action == HookAction::Allow,
        outcomes.len() == handlers.len(),
{
    if outcomes.len() > 0 {
        let l = outcomes.len() - 1;
        assert(handlers[l].answers(event, outcomes[l]));
    }
}

/// The first block wins: when the callbacks before position `k` never
/// block and the callback at `k` always answers `b`, a blocking action, the
/// dispatch result is `b`, whatever the later callbacks would answer.
pub proof fn law_first_block_wins(
    handlers: Seq<PreToolUseHook>,
    event: PreToolUseEvent,
    outcomes: Seq<HookAction>,
    action: HookAction,
    k: int,
    b: HookAction,
)
    requires
        0 <= k < handlers.len(),
        b.blocks(),
        forall|j: int, a: HookAction|
            0 <= j < k && #[trigger] handlers[j].answers(event, a) ==> !a.blocks(),
        forall|a: HookAction| #[trigger] handlers[k].answers(event, a) ==> a == b,
        pre_tool_use_run(handlers, event, outcomes, action),
    ensures
        action == b,
        outcomes.len() == k + 1,
{
    assert forall|j: int| 0 <= j < outcomes.len() && j < k implies !(#[trigger] outcomes[j]).blocks() by {
        assert(handlers[j].answers(event, outcomes[j]));
    }
    if outcomes.len() <= k {
        if outcomes.len() > 0 {
            assert(!outcomes.last().blocks());
        }
        assert(outcomes.len() == handlers.len());
        assert(false);
    }
    assert(handlers[k].answers(event, outcomes[k]));
    assert(outcomes[k] == b);
    if outcomes.len() > k + 1 {
        assert(!outcomes[k].blocks());
    }
}

/// A post-tool-use callback runs on every event dispatched to the
/// registry holding it, failed tool calls included: when every registered
/// callback has run on `event` (what `dispatch_post_tool_use` ensures), the
/// handler registered at `k` has run on it.
pub proof fn law_post_tool_use_observer_runs<H: PostToolUseHandler>(
    handlers: Seq<PostToolUseHook>,
    handler: H,
    event: PostToolUseEvent,
    k: int,
)
    requires
        0 <= k < handlers.len(),
        handlers[k].behaves_as(handler),
        forall|i: int| 0 <= i < handlers.len() ==> (#[trigger] handlers[i]).ran_on(event),
    ensures
        handler.ran_on(event),
{
    assert(handlers[k].ran_on(event));
}

/// A session-start callback runs on every session-start event dispatched
/// to the registry holding it.
pub proof fn law_session_start_observer_runs<H: SessionStartHandler>(
    handlers: Seq<SessionStartHook>,
    handler: H,
    event: SessionStartEvent,
    k: int,
)
    requires
        0 <= k < handlers.len(),
        handlers[k].behaves_as(handler),
        forall|i: int| 0 <= i < handlers.len() ==> (#[trigger] handlers[i]).ran_on(event),
    ensures
        handler.ran_on(event),
{
    assert(handlers[k].ran_on(event));
}

/// The last system prompt set wins: when answer `k` sets the system prompt
/// and no later answer does, the chained prompt after all of the answers is
/// the one set at `k`.
pub proof fn law_last_prompt_override_wins(results: Seq<BeforeAgentStartResult>, k: int)
    requires
        0 <= k < results.len(),
        results[k].system_prompt is Some,
        forall|j: int| k < j < results.len() ==> (#[trigger] results[j]).system_prompt is None,
    ensures
        last_system_prompt(results) == results[k].system_prompt,
    decreases results.len(),
{
    if k < results.len() - 1 {
        assert(results.drop_last()[k] == results[k]);
        assert forall|j: int| k < j < results.drop_last().len() implies (
        #[trigger] results.drop_last()[j]).system_prompt is None by {
            assert(results.drop_last()[j] == results[j]);
        }
        law_last_prompt_override_wins(results.drop_last(), k);
    }
}

/// The last injected message wins: when answer `k` injects a message and no
/// later answer does, the message after all of the answers is the one
/// injected at `k`.
pub proof fn law_last_message_wins(results: Seq<BeforeAgentStartResult>, k: int)
    requires
        0 <= k < results.len(),
        results[k].message is Some,
        forall|j: int| k < j < results.len() ==> (#[trigger] results[j]).message is None,
    ensures
        last_message(results) == results[k].message,
    decreases results.len(),
{
    if k < results.len() - 1 {
        assert(results.drop_last()[k] == results[k]);
        assert forall|j: int| k < j < results.drop_last().len() implies (
        #[trigger] results.drop_last()[j]).message is None by {
            assert(results.drop_last()[j] == results[j]);
        }
        law_last_message_wins(results.drop_last(), k);
    }
}

/// When no before-agent-start callback sets a system prompt, every callback
/// sees the original event and the combined result leaves the prompt unset.
pub proof fn law_untouched_prompt_reaches_every_hook(
    handlers: Seq<BeforeAgentStartHook>,
    event: BeforeAgentStartEvent,
    results: Seq<BeforeAgentStartResult>,
    r: BeforeAgentStartResult,
)
    requires
        before_agent_start_run(handlers, event, results),
        combined_result(results, r),
        forall|j: int| 0 <= j < results.len() ==> (#[trigger] results[j]).system_prompt is None,
    ensures
        r.system_prompt is None,
        forall|j: int|
            0 <= j < results.len() ==> #[trigger] handlers[j].answers(event, results[j]),
{
    lemma_no_prompt_set(results);
    assert forall|j: int| 0 <= j < results.len() implies #[trigger] handlers[j].answers(
        event,
        results[j],
    ) by {
        assert forall|m: int| 0 <= m < results.take(j).len() implies (
        #[trigger] results.take(j)[m]).system_prompt is None by {
            assert(results.take(j)[m] == results[m]);
        }
        lemma_no_prompt_set(results.take(j));
        assert(chained_event(event, results.take(j)) == event);
    }
}

proof fn lemma_no_prompt_set(results: Seq<BeforeAgentStartResult>)
    requires
        forall|j: int| 0 <= j < results.len() ==> (#[trigger] results[j]).system_prompt is None,
    ensures
        last_system_prompt(results) is None,
    decreases results.len(),
{
    if results.len() > 0 {
        assert(results.last().system_prompt is None);
        assert forall|j: int| 0 <= j < results.drop_last().len() implies (
        #[trigger] results.drop_last()[j]).system_prompt is None by {
            assert(results.drop_last()[j] == results[j]);
        }
        lemma_no_prompt_set(results.drop_last());
    }
}

} // verus!
