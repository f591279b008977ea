//! Command types for the extension API.
//!
//! Extensions register slash commands, keyboard shortcuts and CLI flags in
//! a [`CommandRegistry`]. Lookups by name (or key) give the first
//! registration with that name.
//!
//! Command and shortcut handlers are asynchronous and run by the host; the
//! registry is generic over their types (`C` for commands, `S` for
//! shortcuts) and never invokes them.

use vstd::prelude::*;

use crate::text::{first_text_index, lemma_first_text_index, str_eq};
use crate::types::AutocompleteItem;

verus! {

/// An autocomplete provider for command arguments.
pub trait AutocompleteProvider: Send + Sync {
    /// The provider may be invoked on `query`.
    spec fn accepts(&self, query: Seq<char>) -> bool;

    /// `items` is a possible answer of the provider to `query`.
    spec fn suggests(&self, query: Seq<char>, items: Seq<AutocompleteItem>) -> bool;

    /// Invoke the provider.
    fn complete(&self, query: &str) -> (items: Vec<AutocompleteItem>)
        requires
            self.accepts(query@),
        ensures
            self.suggests(query@, items@),
    ;
}

impl<F: Fn(&str) -> Vec<AutocompleteItem> + Send + Sync> AutocompleteProvider for F {
    open spec fn accepts(&self, query: Seq<char>) -> bool {
        forall|q: &str| q@ == query ==> call_requires(*self, (q,))
    }

    open spec fn suggests(&self, query: Seq<char>, items: Seq<AutocompleteItem>) -> bool {
        exists|q: &str, v: Vec<AutocompleteItem>|
            q@ == query && v@ == items && call_ensures(*self, (q,), v)
    }

    fn complete(&self, query: &str) -> (items: Vec<AutocompleteItem>) {
        (*self)(query)
    }
}

/// A slash command registered by an extension, invoked by the user typing
/// `/name`. `H` is the type of its handler.
pub struct CommandDef<H> {
    /// Command name (without the leading `/`).
    pub name: String,
    /// Human-readable description shown in help.
    pub description: String,
    /// The command handler.
    pub handler: H,
    /// Optional autocomplete provider for command arguments.
    pub autocomplete: Option<Box<dyn AutocompleteProvider>>,
}

/// A keyboard shortcut registered by an extension. `H` is the type of its
/// handler.
pub struct ShortcutDef<H> {
    /// Key combination (e.g. "ctrl+shift+p").
    pub key: String,
    /// Human-readable description.
    pub description: String,
    /// The shortcut handler.
    pub handler: H,
}

/// A CLI flag registered by an extension.
#[derive(Debug, Clone)]
pub struct FlagDef {
    /// Flag name (e.g. "plan").
    pub name: String,
    /// Human-readable description.
    pub description: String,
    /// The flag type.
    pub flag_type: FlagType,
    /// Default value.
    pub default: serde_json::Value,
}

/// Supported flag types.
#[derive(Debug, Clone, Copy, PartialEq, Eq, Structural)]
pub enum FlagType {
    Boolean,
    String,
    Integer,
}

/// Names of the commands `cs`, in order.
pub open spec fn command_names<H>(cs: Seq<CommandDef<H>>) -> Seq<Seq<char>> {
    Seq::new(cs.len(), |i: int| cs[i].name@)
}

/// Keys of the shortcuts `ss`, in order.
pub open spec fn shortcut_keys<H>(ss: Seq<ShortcutDef<H>>) -> Seq<Seq<char>> {
    Seq::new(ss.len(), |i: int| ss[i].key@)
}

/// Names of the flags `fs`, in order.
pub open spec fn flag_names(fs: Seq<FlagDef>) -> Seq<Seq<char>> {
    Seq::new(fs.len(), |i: int| fs[i].name@)
}

/// Registry of extension-provided commands, shortcuts and flags, populated
/// by command packs at startup.
pub struct CommandRegistry<C, S> {
    commands: Vec<CommandDef<C>>,
    shortcuts: Vec<ShortcutDef<S>>,
    flags: Vec<FlagDef>,
}

impl<C, S> CommandRegistry<C, S> {
    /// Registered commands, in registration order.
    pub closed spec fn command_seq(&self) -> Seq<CommandDef<C>> {
        self.commands@
    }

    /// Registered shortcuts, in registration order.
    pub closed spec fn shortcut_seq(&self) -> Seq<ShortcutDef<S>> {
        self.shortcuts@
    }

    /// Registered flags, in registration order.
    pub closed spec fn flag_seq(&self) -> Seq<FlagDef> {
        self.flags@
    }

    /// Create an empty registry.
    pub fn new() -> (r: Self)
        ensures
            r.command_seq().len() == 0,
            r.shortcut_seq().len() == 0,
            r.flag_seq().len() == 0,
    {
        CommandRegistry { commands: Vec::new(), shortcuts: Vec::new(), flags: Vec::new() }
    }

    /// Register a slash command.
    pub fn register_command(&mut self, command: CommandDef<C>)
        ensures
            final(self).command_seq() == old(self).command_seq().push(command),
            final(self).shortcut_seq() == old(self).shortcut_seq(),
            final(self).flag_seq() == old(self).flag_seq(),
    {
        self.commands.push(command);
    }

    /// Register a keyboard shortcut.
    pub fn register_shortcut(&mut self, shortcut: ShortcutDef<S>)
        ensures
            final(self).shortcut_seq() == old(self).shortcut_seq().push(shortcut),
            final(self).command_seq() == old(self).command_seq(),
            final(self).flag_seq() == old(self).flag_seq(),
    {
        self.shortcuts.push(shortcut);
    }

    /// Register a CLI flag.
    pub fn register_flag(&mut self, flag: FlagDef)
        ensures
            final(self).flag_seq() == old(self).flag_seq().push(flag),
            final(self).command_seq() == old(self).command_seq(),
            final(self).shortcut_seq() == old(self).shortcut_seq(),
    {
        self.flags.push(flag);
    }

    /// All registered commands.
    pub fn commands(&self) -> (r: &[CommandDef<C>])
        ensures
            r@ == self.command_seq(),
    {
        self.commands.as_slice()
    }

    /// Take the registered commands out of the registry, in registration
    /// order.
    pub fn into_commands(self) -> (r: Vec<CommandDef<C>>)
        ensures
            r@ == self.command_seq(),
    {
        self.commands
    }

    /// All registered shortcuts.
    pub fn shortcuts(&self) -> (r: &[ShortcutDef<S>])
        ensures
            r@ == self.shortcut_seq(),
    {
        self.shortcuts.as_slice()
    }

    /// All registered flags.
    pub fn flags(&self) -> (r: &[FlagDef])
        ensures
            r@ == self.flag_seq(),
    {
        self.flags.as_slice()
    }

    /// Find a command by name (the first registered with that name).
    pub fn find_command(&self, name: &str) -> (r: Option<&CommandDef<C>>)
        ensures
            match first_text_index(command_names(self.command_seq()), name@) {
                Some(i) => r is Some && *r.unwrap() == self.command_seq()[i],
                None => r is None,
            },
    {
        let ghost names = command_names(self.commands@);
        let mut i: usize = 0;
        while i < self.commands.len()
            invariant
                names == command_names(self.commands@),
                i <= self.commands@.len(),
                forall|j: int| 0 <= j < i ==> names[j] != name@,
            decreases self.commands@.len() - i,
        {
            if str_eq(self.commands[i].name.as_str(), name) {
                proof {
                    lemma_first_text_index(names, name@);
                    assert(names[i as int] == name@);
                }
                return Some(&self.commands[i]);
            }
            i = i + 1;
        }
        proof {
            lemma_first_text_index(names, name@);
        }
        None
    }

    /// Find a shortcut by key combination (the first registered with it).
    pub fn find_shortcut(&self, key: &str) -> (r: Option<&ShortcutDef<S>>)
        ensures
            match first_text_index(shortcut_keys(self.shortcut_seq()), key@) {
                Some(i) => r is Some && *r.unwrap() == self.shortcut_seq()[i],
                None => r is None,
            },
    {
        let ghost keys = shortcut_keys(self.shortcuts@);
        let mut i: usize = 0;
        while i < self.shortcuts.len()
            invariant
                keys == shortcut_keys(self.shortcuts@),
                i <= self.shortcuts@.len(),
                forall|j: int| 0 <= j < i ==> keys[j] != key@,
            decreases self.shortcuts@.len() - i,
        {
            if str_eq(self.shortcuts[i].key.as_str(), key) {
                proof {
                    lemma_first_text_index(keys, key@);
                    assert(keys[i as int] == key@);
                }
                return Some(&self.shortcuts[i]);
            }
            i = i + 1;
        }
        proof {
            lemma_first_text_index(keys, key@);
        }
        None
    }

    /// Find a flag by name (the first registered with that name).
    pub fn find_flag(&self, name: &str) -> (r: Option<&FlagDef>)
        ensures
            match first_text_index(flag_names(self.flag_seq()), name@) {
                Some(i) => r is Some && *r.unwrap() == self.flag_seq()[i],
                None => r is None,
            },
    {
        let ghost names = flag_names(self.flags@);
        let mut i: usize = 0;
        while i < self.flags.len()
            invariant
                names == flag_names(self.flags@),
                i <= self.flags@.len(),
                forall|j: int| 0 <= j < i ==> names[j] != name@,
            decreases self.flags@.len() - i,
        {
            if str_eq(self.flags[i].name.as_str(), name) {
                proof {
                    lemma_first_text_index(names, name@);
                    assert(names[i as int] == name@);
                }
                return Some(&self.flags[i]);
            }
            i = i + 1;
        }
        proof {
            lemma_first_text_index(names, name@);
        }
        None
    }

    /// Whether any commands are registered.
    pub fn has_commands(&self) -> (r: bool)
        ensures
            r == (self.command_seq().len() > 0),
    {
        self.commands.len() > 0
    }

    /// Whether any shortcuts are registered.
    pub fn has_shortcuts(&self) -> (r: bool)
        ensures
            r == (self.shortcut_seq().len() > 0),
    {
        self.shortcuts.len() > 0
    }

    /// Whether any flags are registered.
    pub fn has_flags(&self) -> (r: bool)
        ensures
            r == (self.flag_seq().len() > 0),
    {
        self.flags.len() > 0
    }

    /// Whether the registry is empty.
    pub fn is_empty(&self) -> (r: bool)
        ensures
            r == (self.command_seq().len() == 0 && self.shortcut_seq().len() == 0
                && self.flag_seq().len() == 0),
    {
        self.commands.len() == 0 && self.shortcuts.len() == 0 && self.flags.len() == 0
    }
}

/// A command registered under `name` is found by name afterwards, unless a
/// command of that name was registered before it (the first one wins).
pub proof fn law_find_first_registered<C>(cs: Seq<CommandDef<C>>, c: CommandDef<C>)
    ensures
        first_text_index(command_names(cs.push(c)), c.name@) == match first_text_index(
            command_names(cs),
            c.name@,
        ) {
            Some(i) => Some(i),
            None => Some(cs.len() as int),
        },
{
    let names = command_names(cs.push(c));
    assert(names.drop_last() =~= command_names(cs));
    assert(names.last() == c.name@);
}

} // verus!
