//! Agent handle backed by a snapshot of the pager's agent state.

use vstd::prelude::*;

use crate::agent::AgentHandle;
use crate::text::str_eq;

verus! {

/// Agent handle that wraps the pager's agent state: system prompt, active
/// tools, all tools, model and thinking level.
pub struct PagerAgentHandle {
    system_prompt: String,
    active_tools: Vec<String>,
    all_tools: Vec<String>,
    current_model: String,
    thinking_level: String,
}

/// The texts of `v`, as `&str` views.
pub open spec fn str_views(v: Seq<&str>) -> Seq<Seq<char>> {
    Seq::new(v.len(), |i: int| v[i]@)
}

/// The texts of `v`.
pub open spec fn string_views(v: Seq<String>) -> Seq<Seq<char>> {
    Seq::new(v.len(), |i: int| v[i]@)
}

fn borrow_all(v: &Vec<String>) -> (r: Vec<&str>)
    ensures
        str_views(r@) == string_views(v@),
{
    let mut out: Vec<&str> = Vec::new();
    let mut i: usize = 0;
    while i < v.len()
        invariant
            i <= v@.len(),
            out@.len() == i,
            forall|k: int| 0 <= k < i ==> (#[trigger] out@[k])@ == v@[k]@,
        decreases v@.len() - i,
    {
        out.push(v[i].as_str());
        i = i + 1;
    }
    proof {
        assert(str_views(out@) =~= string_views(v@));
    }
    out
}

/// The names of `names`, in order, that occur in `registered`.
pub open spec fn registered_names(names: Seq<Seq<char>>, registered: Seq<Seq<char>>) -> Seq<Seq<char>>
    decreases names.len(),
{
    if names.len() == 0 {
        Seq::empty()
    } else {
        let base = registered_names(names.drop_last(), registered);
        if registered.contains(names.last()) {
            base.push(names.last())
        } else {
            base
        }
    }
}

fn is_registered(tools: &Vec<String>, name: &str) -> (r: bool)
    ensures
        r == string_views(tools@).contains(name@),
{
    let mut i: usize = 0;
    while i < tools.len()
        invariant
            i <= tools@.len(),
            forall|j: int| 0 <= j < i ==> tools@[j]@ != name@,
        decreases tools@.len() - i,
    {
        if str_eq(tools[i].as_str(), name) {
            proof {
                assert(string_views(tools@)[i as int] == name@);
            }
            return true;
        }
        i = i + 1;
    }
    proof {
        if string_views(tools@).contains(name@) {
            let k = choose|k: int| 0 <= k < string_views(tools@).len() && string_views(tools@)[k] == name@;
            assert(tools@[k]@ == name@);
        }
    }
    false
}

impl PagerAgentHandle {
    /// The system prompt held.
    pub closed spec fn spec_system_prompt(&self) -> Seq<char> {
        self.system_prompt@
    }

    /// The active tool names held.
    pub closed spec fn spec_active_tools(&self) -> Seq<Seq<char>> {
        string_views(self.active_tools@)
    }

    /// All tool names held.
    pub closed spec fn spec_all_tools(&self) -> Seq<Seq<char>> {
        string_views(self.all_tools@)
    }

    /// The model identifier held.
    pub closed spec fn spec_current_model(&self) -> Seq<char> {
        self.current_model@
    }

    /// The thinking level held.
    pub closed spec fn spec_thinking_level(&self) -> Seq<char> {
        self.thinking_level@
    }

    /// Create a new agent handle with the given state.
    pub fn new(
        system_prompt: String,
        active_tools: Vec<String>,
        all_tools: Vec<String>,
        current_model: String,
        thinking_level: String,
    ) -> (r: Self)
        ensures
            r.spec_system_prompt() == system_prompt@,
            r.spec_active_tools() == string_views(active_tools@),
            r.spec_all_tools() == string_views(all_tools@),
            r.spec_current_model() == current_model@,
            r.spec_thinking_level() == thinking_level@,
    {
        PagerAgentHandle { system_prompt, active_tools, all_tools, current_model, thinking_level }
    }

    /// Create an empty agent handle: no prompt, no tools, no model, and
    /// thinking level `"off"`.
    pub fn empty() -> (r: Self)
        ensures
            r.spec_system_prompt() == Seq::<char>::empty(),
            r.spec_active_tools() == Seq::<Seq<char>>::empty(),
            r.spec_all_tools() == Seq::<Seq<char>>::empty(),
            r.spec_current_model() == Seq::<char>::empty(),
            r.spec_thinking_level() == "off"@,
    {
        let r = PagerAgentHandle {
            system_prompt: String::new(),
            active_tools: Vec::new(),
            all_tools: Vec::new(),
            current_model: String::new(),
            thinking_level: "off".to_string(),
        };
        proof {
            assert(string_views(r.active_tools@) =~= Seq::<Seq<char>>::empty());
            assert(string_views(r.all_tools@) =~= Seq::<Seq<char>>::empty());
        }
        r
    }
}

impl AgentHandle for PagerAgentHandle {
    fn system_prompt(&self) -> (r: &str)
        ensures
            r@ == self.spec_system_prompt(),
    {
        self.system_prompt.as_str()
    }

    fn active_tools(&self) -> (r: Vec<&str>)
        ensures
            str_views(r@) == self.spec_active_tools(),
    {
        borrow_all(&self.active_tools)
    }

    fn all_tools(&self) -> (r: Vec<&str>)
        ensures
            str_views(r@) == self.spec_all_tools(),
    {
        borrow_all(&self.all_tools)
    }

    /// The named tools that are registered become the active tools, in
    /// the order given; unknown names are ignored.
    fn set_active_tools(&mut self, names: &[&str])
        ensures
            final(self).spec_active_tools() == registered_names(str_views(names@), old(self).spec_all_tools()),
            final(self).spec_all_tools() == old(self).spec_all_tools(),
            final(self).spec_system_prompt() == old(self).spec_system_prompt(),
            final(self).spec_current_model() == old(self).spec_current_model(),
            final(self).spec_thinking_level() == old(self).spec_thinking_level(),
    {
        let ghost all = string_views(self.all_tools@);
        let mut active: Vec<String> = Vec::new();
        let mut i: usize = 0;
        while i < names.len()
            invariant
                i <= names@.len(),
                all == string_views(self.all_tools@),
                string_views(active@) == registered_names(str_views(names@).take(i as int), all),
            decreases names@.len() - i,
        {
            let name = names[i];
            proof {
                assert(str_views(names@).take(i + 1).drop_last() =~= str_views(names@).take(i as int));
                assert(str_views(names@).take(i + 1).last() == name@);
            }
            if is_registered(&self.all_tools, name) {
                let ghost before = active@;
                active.push(name.to_string());
                proof {
                    assert(string_views(active@) =~= string_views(before).push(name@));
                }
            }
            i = i + 1;
        }
        proof {
            assert(str_views(names@).take(i as int) =~= str_views(names@));
        }
        self.active_tools = active;
    }

    fn current_model(&self) -> (r: &str)
        ensures
            r@ == self.spec_current_model(),
    {
        self.current_model.as_str()
    }

    fn thinking_level(&self) -> (r: &str)
        ensures
            r@ == self.spec_thinking_level(),
    {
        self.thinking_level.as_str()
    }

    /// The thinking level becomes `level`.
    fn set_thinking_level(&mut self, level: &str)
        ensures
            final(self).spec_thinking_level() == level@,
            final(self).spec_active_tools() == old(self).spec_active_tools(),
            final(self).spec_all_tools() == old(self).spec_all_tools(),
            final(self).spec_system_prompt() == old(self).spec_system_prompt(),
            final(self).spec_current_model() == old(self).spec_current_model(),
    {
        self.thinking_level = level.to_string();
    }
}

} // verus!
