//! The registry of tools an agent may call.

use crate::agent::{
    check_args, text_result, tool_name_rule, valid_tool_name, validate_arguments,
    validate_tool_name, AgentError, ToolError,
};
use crate::types::{definitions_view, ToolCall, ToolDefinition, ToolDefinitionV};
use vstd::prelude::*;
use vstd::utf8::encode_utf8;

verus! {

/// Tools by name, each with the definition it was registered under. Names are
/// valid and distinct; definitions keep the order of registration.
pub struct ToolRegistry<T> {
    entries: Vec<(ToolDefinition, T)>,
}

/// The names of a list of definitions.
pub open spec fn names_of(defs: Seq<ToolDefinitionV>) -> Seq<Seq<char>> {
    defs.map_values(|d: ToolDefinitionV| d.name)
}

/// The message of the error for a second tool of the same name.
pub open spec fn duplicate_message(name: Seq<char>) -> Seq<char> {
    "duplicate tool `"@ + name + "`"@
}

impl<T> ToolRegistry<T> {
    /// The definitions, in order of registration.
    pub closed spec fn spec_definitions(self) -> Seq<ToolDefinitionV> {
        Seq::new(self.entries@.len(), |i: int| self.entries@[i].0@)
    }

    /// The tools, in order of registration.
    pub closed spec fn spec_tools(self) -> Seq<T> {
        Seq::new(self.entries@.len(), |i: int| self.entries@[i].1)
    }

    /// Every name is a valid tool name, and no two tools share one.
    pub open spec fn wf(self) -> bool {
        &&& self.spec_tools().len() == self.spec_definitions().len()
        &&& forall|i: int|
            0 <= i < self.spec_definitions().len() ==> valid_tool_name(
                encode_utf8(#[trigger] self.spec_definitions()[i].name),
            )
        &&& forall|i: int, j: int|
            0 <= i < j < self.spec_definitions().len() ==> #[trigger] self.spec_definitions()[i].name
                != #[trigger] self.spec_definitions()[j].name
    }

    /// The index of the tool named `name`, or -1.
    pub open spec fn index_of(self, name: Seq<char>) -> int {
        if exists|i: int|
            0 <= i < self.spec_definitions().len() && #[trigger] self.spec_definitions()[i].name
                == name {
            choose|i: int|
                0 <= i < self.spec_definitions().len() && #[trigger] self.spec_definitions()[i].name
                    == name
        } else {
            -1
        }
    }

    /// An empty registry.
    pub fn new() -> (r: Self)
        ensures
            r.wf(),
            r.spec_definitions().len() == 0,
    {
        ToolRegistry { entries: Vec::new() }
    }

    /// Registers `tool` under `definition`. The name must be 1 to 64 ASCII
    /// letters, digits, `_` or `-`, and not taken; otherwise the registry is
    /// unchanged and a configuration error says why.
    pub fn register(&mut self, definition: ToolDefinition, tool: T) -> (r: Result<(), AgentError>)
        requires
            old(self).wf(),
        ensures
            final(self).wf(),
            r is Ok <==> valid_tool_name(encode_utf8(definition.name@)) && old(self).index_of(
                definition.name@,
            ) == -1,
            r is Ok ==> final(self).spec_definitions() == old(self).spec_definitions().push(
                definition@,
            ) && final(self).spec_tools() == old(self).spec_tools().push(tool),
            r is Err ==> final(self).spec_definitions() == old(self).spec_definitions()
                && final(self).spec_tools() == old(self).spec_tools(),
            !valid_tool_name(encode_utf8(definition.name@)) ==> (r matches Err(
                AgentError::Configuration(m),
            ) && m@ == tool_name_rule()),
            valid_tool_name(encode_utf8(definition.name@)) && old(self).index_of(definition.name@)
                != -1 ==> (r matches Err(AgentError::Configuration(m)) && m@ == duplicate_message(
                definition.name@,
            )),
    {
        match validate_tool_name(definition.name.as_str()) {
            Err(e) => return Err(e),
            Ok(()) => {},
        }
        match self.find(definition.name.as_str()) {
            Some(_) => {
                let mut m = String::from_str("duplicate tool `");
                m.append(definition.name.as_str());
                m.append("`");
                return Err(AgentError::Configuration(m));
            },
            None => {},
        }
        let ghost defs = self.spec_definitions();
        let ghost tools = self.spec_tools();
        let ghost d = definition@;
        self.entries.push((definition, tool));
        assert(self.spec_definitions() =~= defs.push(d));
        assert(self.spec_tools() =~= tools.push(tool));
        Ok(())
    }

    /// The index of the tool named `name`.
    fn find(&self, name: &str) -> (r: Option<usize>)
        requires
            self.wf(),
        ensures
            match r {
                Some(i) => i < self.spec_definitions().len() && self.spec_definitions()[i as int].name
                    == name@ && self.index_of(name@) == i,
                None => self.index_of(name@) == -1,
            },
    {
        let wanted = name.to_owned();
        let mut i: usize = 0;
        while i < self.entries.len()
            invariant
                i <= self.entries@.len(),
                wanted@ == name@,
                self.wf(),
                forall|j: int| 0 <= j < i ==> #[trigger] self.spec_definitions()[j].name != name@,
            decreases self.entries@.len() - i,
        {
            if self.entries[i].0.name == wanted {
                assert(self.spec_definitions()[i as int].name == name@);
                return Some(i);
            }
            assert(self.spec_definitions()[i as int].name != name@);
            i = i + 1;
        }
        None
    }

    /// The tool named `name`.
    pub fn get(&self, name: &str) -> (r: Option<&T>)
        requires
            self.wf(),
        ensures
            match r {
                Some(t) => self.index_of(name@) >= 0 && *t == self.spec_tools()[self.index_of(
                    name@,
                )],
                None => self.index_of(name@) == -1,
            },
    {
        match self.find(name) {
            Some(i) => Some(&self.entries[i].1),
            None => None,
        }
    }

    /// The definition of the tool named `name`.
    pub fn definition(&self, name: &str) -> (r: Option<&ToolDefinition>)
        requires
            self.wf(),
        ensures
            match r {
                Some(d) => self.index_of(name@) >= 0 && d@ == self.spec_definitions()[self.index_of(
                    name@,
                )],
                None => self.index_of(name@) == -1,
            },
    {
        match self.find(name) {
            Some(i) => Some(&self.entries[i].0),
            None => None,
        }
    }

    /// The definitions, in order of registration.
    pub fn definitions(&self) -> (r: Vec<ToolDefinition>)
        ensures
            definitions_view(r@) == self.spec_definitions(),
    {
        let mut out: Vec<ToolDefinition> = Vec::new();
        let mut i: usize = 0;
        while i < self.entries.len()
            invariant
                i <= self.entries@.len(),
                out@.len() == i,
                forall|j: int| 0 <= j < i ==> #[trigger] out@[j]@ == self.entries@[j].0@,
            decreases self.entries@.len() - i,
        {
            out.push(self.entries[i].0.clone());
            i = i + 1;
        }
        assert(definitions_view(out@) =~= self.spec_definitions());
        out
    }

    /// Looks up the tool a model called and checks its arguments against the
    /// tool's parameter schema, before anything runs.
    pub fn prepare_call(&self, call: &ToolCall) -> (r: Result<&T, ToolError>)
        requires
            self.wf(),
        ensures
            self.index_of(call.name@) == -1 ==> r matches Err(ToolError::Unknown),
            self.index_of(call.name@) >= 0 ==> match check_args(
                self.spec_definitions()[self.index_of(call.name@)].parameters,
                call.arguments@,
            ) {
                Ok(()) => r matches Ok(t) && *t == self.spec_tools()[self.index_of(call.name@)],
                Err(reason) => r matches Err(ToolError::InvalidArguments(m)) && m@ == reason,
            },
    {
        match self.find(call.name.as_str()) {
            None => Err(ToolError::Unknown),
            Some(i) => {
                let checked = validate_arguments(&self.entries[i].0.parameters, &call.arguments);
                match checked {
                    Ok(()) => Ok(&self.entries[i].1),
                    Err(reason) => Err(ToolError::InvalidArguments(reason)),
                }
            },
        }
    }
}

impl<T: Clone> Clone for ToolRegistry<T> {
    /// A registry with the same definitions, in the same order, and clones of
    /// the tools.
    fn clone(&self) -> (r: Self)
        ensures
            r.spec_definitions() == self.spec_definitions(),
            r.spec_tools().len() == self.spec_tools().len(),
            self.wf() ==> r.wf(),
    {
        let mut entries: Vec<(ToolDefinition, T)> = Vec::new();
        let mut i: usize = 0;
        while i < self.entries.len()
            invariant
                i <= self.entries@.len(),
                entries@.len() == i,
                forall|j: int| 0 <= j < i ==> (#[trigger] entries@[j]).0@ == self.entries@[j].0@,
            decreases self.entries@.len() - i,
        {
            entries.push((self.entries[i].0.clone(), self.entries[i].1.clone()));
            i = i + 1;
        }
        let r = ToolRegistry { entries };
        assert(r.spec_definitions() =~= self.spec_definitions());
        r
    }
}

/// No two registered tools share a name.
pub proof fn lemma_registry_names_distinct<T>(registry: ToolRegistry<T>, i: int, j: int)
    requires
        registry.wf(),
        0 <= i < registry.spec_definitions().len(),
        0 <= j < registry.spec_definitions().len(),
        i != j,
    ensures
        registry.spec_definitions()[i].name != registry.spec_definitions()[j].name,
{
    if i < j {
        assert(registry.spec_definitions()[i].name != registry.spec_definitions()[j].name);
    } else {
        assert(registry.spec_definitions()[j].name != registry.spec_definitions()[i].name);
    }
}

/// A tool found after it was registered: in a registry whose definitions and
/// tools grew by `definition` and `tool`, the name of `definition` leads to
/// `tool`.
pub proof fn lemma_registered_tool_is_found<T>(
    before: ToolRegistry<T>,
    after: ToolRegistry<T>,
    definition: ToolDefinitionV,
    tool: T,
)
    requires
        after.wf(),
        after.spec_definitions() == before.spec_definitions().push(definition),
        after.spec_tools() == before.spec_tools().push(tool),
    ensures
        after.index_of(definition.name) == before.spec_definitions().len(),
        after.spec_tools()[after.index_of(definition.name)] == tool,
{
    let n = before.spec_definitions().len() as int;
    assert(after.spec_definitions()[n].name == definition.name);
    let i = after.index_of(definition.name);
    assert(0 <= i < after.spec_definitions().len());
    assert(after.spec_definitions()[i].name == definition.name);
    if i != n {
        lemma_registry_names_distinct(after, i, n);
    }
}

} // verus!
