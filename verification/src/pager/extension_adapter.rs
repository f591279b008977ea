//! Adapter that presents an extension `CommandDef` as a pager slash
//! command.

use vstd::prelude::*;

use crate::command::{AutocompleteProvider, CommandDef, CommandRegistry};
use crate::pager::slash::{ArgItem, CommandResult};
use crate::types::AutocompleteItem;

verus! {

/// The suggestion `a` shows the autocomplete item `item`: label as display,
/// value as match and insert text, description or empty text.
pub open spec fn arg_item_shows(a: ArgItem, item: AutocompleteItem) -> bool {
    &&& a.display@ == item.label@
    &&& a.match_text@ == item.value@
    &&& a.insert_text@ == item.value@
    &&& a.description@ == match item.description {
        Some(d) => d@,
        None => Seq::<char>::empty(),
    }
}

/// The adapter `a` presents the command `c`: same name, description,
/// handler and autocomplete provider.
pub open spec fn adapts<H>(a: ExtensionCommandAdapter<H>, c: CommandDef<H>) -> bool {
    &&& a.spec_name() == c.name@
    &&& a.spec_description() == c.description@
    &&& a.spec_handler() == c.handler
    &&& a.spec_autocomplete() == c.autocomplete
}

/// Adapter that wraps an extension command as a pager slash command. `H`
/// is the type of the command's handler.
pub struct ExtensionCommandAdapter<H> {
    name: String,
    description: String,
    _handler: H,
    _autocomplete: Option<Box<dyn AutocompleteProvider>>,
}

fn arg_item_of(item: &AutocompleteItem) -> (r: ArgItem)
    ensures
        arg_item_shows(r, *item),
{
    ArgItem {
        display: item.label.clone(),
        match_text: item.value.clone(),
        insert_text: item.value.clone(),
        description: match &item.description {
            Some(d) => d.clone(),
            None => String::new(),
        },
    }
}

impl<H> ExtensionCommandAdapter<H> {
    /// The command name held.
    pub closed spec fn spec_name(&self) -> Seq<char> {
        self.name@
    }

    /// The description held.
    pub closed spec fn spec_description(&self) -> Seq<char> {
        self.description@
    }

    /// The command handler held.
    pub closed spec fn spec_handler(&self) -> H {
        self._handler
    }

    /// The autocomplete provider held.
    pub closed spec fn spec_autocomplete(&self) -> Option<Box<dyn AutocompleteProvider>> {
        self._autocomplete
    }

    /// Create an adapter from an extension command definition.
    pub fn new(cmd: CommandDef<H>) -> (r: Self)
        ensures
            adapts(r, cmd),
    {
        ExtensionCommandAdapter {
            name: cmd.name,
            description: cmd.description,
            _handler: cmd.handler,
            _autocomplete: cmd.autocomplete,
        }
    }

    /// The command name.
    pub fn name(&self) -> (r: &str)
        ensures
            r@ == self.spec_name(),
    {
        self.name.as_str()
    }

    /// The command description.
    pub fn description(&self) -> (r: &str)
        ensures
            r@ == self.spec_description(),
    {
        self.description.as_str()
    }

    /// The usage line: the command name.
    pub fn usage(&self) -> (r: &str)
        ensures
            r@ == self.spec_name(),
    {
        self.name.as_str()
    }

    /// Extension commands take arguments.
    pub fn takes_args(&self) -> (r: bool)
        ensures
            r,
    {
        true
    }

    /// Arguments are optional.
    pub fn args_required(&self) -> (r: bool)
        ensures
            !r,
    {
        false
    }

    /// Argument suggestions from the command's autocomplete provider, or
    /// `None` when it has none.
    pub fn suggest_args(&self, args_query: &str) -> (r: Option<Vec<ArgItem>>)
        requires
            self.spec_autocomplete() matches Some(ac) ==> ac.accepts(args_query@),
        ensures
            match self.spec_autocomplete() {
                None => r is None,
                Some(ac) => r is Some && exists|items: Seq<AutocompleteItem>|
                    ac.suggests(args_query@, items) && r.unwrap()@.len() == items.len() && forall|k: int|
                        0 <= k < items.len() ==> arg_item_shows(#[trigger] r.unwrap()@[k], items[k]),
            },
    {
        match &self._autocomplete {
            None => None,
            Some(autocomplete) => {
                let items = autocomplete.complete(args_query);
                let mut out: Vec<ArgItem> = Vec::new();
                let mut i: usize = 0;
                while i < items.len()
                    invariant
                        i <= items@.len(),
                        out@.len() == i,
                        forall|k: int| 0 <= k < i ==> arg_item_shows(#[trigger] out@[k], items@[k]),
                    decreases items@.len() - i,
                {
                    out.push(arg_item_of(&items[i]));
                    i = i + 1;
                }
                Some(out)
            },
        }
    }

    /// Extension commands run asynchronously in the shell: the command
    /// line `"/{name} {args}"` is handed on.
    pub fn run(&self, args: &str) -> (r: CommandResult)
        ensures
            r matches CommandResult::PassThrough(line) && line@ == "/"@ + self.spec_name() + " "@
                + args@,
    {
        let mut line = "/".to_string();
        line.append(self.name.as_str());
        line.append(" ");
        line.append(args);
        CommandResult::PassThrough(line)
    }
}

/// The extension commands as slash-command adapters: one adapter per
/// command, in order.
pub fn extension_command_adapters<H>(commands: Vec<CommandDef<H>>) -> (r: Vec<ExtensionCommandAdapter<H>>)
    ensures
        r@.len() == commands@.len(),
        forall|k: int| 0 <= k < r@.len() ==> adapts(#[trigger] r@[k], commands@[k]),
{
    let ghost all = commands@;
    let mut rest = commands;
    let mut out: Vec<ExtensionCommandAdapter<H>> = Vec::new();
    while rest.len() > 0
        invariant
            out@.len() + rest@.len() == all.len(),
            rest@ == all.skip(out@.len() as int),
            forall|k: int| 0 <= k < out@.len() ==> adapts(#[trigger] out@[k], all[k]),
        decreases rest@.len(),
    {
        let ghost n = out@.len();
        let cmd = rest.remove(0);
        proof {
            assert(cmd == all[n as int]);
            assert(rest@ =~= all.skip(n as int + 1));
        }
        out.push(ExtensionCommandAdapter::new(cmd));
    }
    out
}

/// Register every extension command of `ext_commands` into the pager's
/// command registry, as slash-command adapters in registration order; the
/// commands already there are kept.
pub fn register_extension_commands<B, C, S>(
    registry: &mut SlashCommandRegistry<B, C>,
    ext_commands: CommandRegistry<C, S>,
)
    ensures
        final(registry).builtin_seq() == old(registry).builtin_seq(),
        final(registry).extension_seq().len() == old(registry).extension_seq().len()
            + ext_commands.command_seq().len(),
        final(registry).extension_seq().take(old(registry).extension_seq().len() as int) == old(
            registry,
        ).extension_seq(),
        forall|k: int|
            0 <= k < ext_commands.command_seq().len() ==> adapts(
                #[trigger] final(registry).extension_seq()[old(registry).extension_seq().len() + k],
                ext_commands.command_seq()[k],
            ),
{
    let adapters = extension_command_adapters(ext_commands.into_commands());
    let ghost base = registry.extension_seq();
    let ghost all = adapters@;
    let mut rest = adapters;
    let ghost mut i: int = 0;
    while rest.len() > 0
        invariant
            i + rest@.len() == all.len(),
            0 <= i,
            rest@ == all.skip(i),
            registry.builtin_seq() == old(registry).builtin_seq(),
            base == old(registry).extension_seq(),
            registry.extension_seq() == base + all.take(i),
        decreases rest@.len(),
    {
        let adapter = rest.remove(0);
        proof {
            assert(adapter == all[i]);
            assert(rest@ =~= all.skip(i + 1));
            assert(all.take(i + 1) =~= all.take(i).push(all[i]));
        }
        registry.register_extension(adapter);
        proof {
            i = i + 1;
        }
    }
    proof {
        assert(all.take(i) =~= all);
    }
}

/// The pager's slash-command registry: its built-in commands (of the
/// host's type `B`) and the extension commands, as adapters over handlers
/// of type `H`, each in registration order.
pub struct SlashCommandRegistry<B, H> {
    builtins: Vec<B>,
    extensions: Vec<ExtensionCommandAdapter<H>>,
}

impl<B, H> SlashCommandRegistry<B, H> {
    /// The built-in commands, in registration order.
    pub closed spec fn builtin_seq(&self) -> Seq<B> {
        self.builtins@
    }

    /// The extension commands, in registration order.
    pub closed spec fn extension_seq(&self) -> Seq<ExtensionCommandAdapter<H>> {
        self.extensions@
    }

    /// An empty registry.
    pub fn new() -> (r: Self)
        ensures
            r.builtin_seq().len() == 0,
            r.extension_seq().len() == 0,
    {
        SlashCommandRegistry { builtins: Vec::new(), extensions: Vec::new() }
    }

    /// Register a built-in command.
    pub fn register_builtin(&mut self, command: B)
        ensures
            final(self).builtin_seq() == old(self).builtin_seq().push(command),
            final(self).extension_seq() == old(self).extension_seq(),
    {
        self.builtins.push(command);
    }

    /// Register an extension command adapter.
    pub fn register_extension(&mut self, adapter: ExtensionCommandAdapter<H>)
        ensures
            final(self).extension_seq() == old(self).extension_seq().push(adapter),
            final(self).builtin_seq() == old(self).builtin_seq(),
    {
        self.extensions.push(adapter);
    }

    /// The built-in commands.
    pub fn builtins(&self) -> (r: &[B])
        ensures
            r@ == self.builtin_seq(),
    {
        self.builtins.as_slice()
    }

    /// The extension commands.
    pub fn extension_commands(&self) -> (r: &[ExtensionCommandAdapter<H>])
        ensures
            r@ == self.extension_seq(),
    {
        self.extensions.as_slice()
    }
}

} // verus!
