# grok_extensions

The extension surfaces of the Grok Build agent, verified with Verus:

- `hook`: hook events, callbacks and the `HookRegistry`. Pre-tool-use
  callbacks run in registration order and the first `Block` wins;
  before-agent-start callbacks are chained, the last prompt and the last
  message set being the result.
- `provider`: model providers and the `ProviderRegistry` (names unique, last
  registration wins) with `provider/model` and bare-model resolution.
- `command`, `types`: slash commands, shortcuts and flags (generic over the
  host's handler types).
- `tool`, `tool_bridge`: tool metadata and errors, the extension tool
  registry (identifiers unique) and its bridge to the host's tool registry.
- `ui`, `session`, `agent`, `theme`: the synchronous parts of the
  extension context.
- `pager`: the pager-side adapters (agent handle, no-op UI handle, slash
  command adapters and the slash-command registry, `/reload`).
- `dynamic_models`, `ollama`: the logic of the bundled extensions.
- `worktree`: validation of worktree identifiers.
- `json`: the JSON values the library reads (tool inputs), converted by
  the host from its parsed JSON.
- `text`, `opaque`: text helpers and the outside types carried opaquely.

`app/` holds what Verus does not take: the process-wide pack registries
filled by `#[ctor]` functions, asynchronous dialogs and tool execution, the
channel-backed pager handles, serde copies of the configuration types, and
the file, environment and HTTP access of the bundled extensions.
