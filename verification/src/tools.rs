//! Tools that a model may call, and the per-turn lookup from name to tool.

use crate::text::str_eq;
use vstd::prelude::*;

verus! {

/// What a tool tells a model about itself. Invoking a tool is the caller's
/// business; a turn only needs to describe tools and to find them by name.
pub trait Tool {
    /// The characters of the tool's name.
    spec fn spec_name(&self) -> Seq<char>;

    /// The characters of the tool's description.
    spec fn spec_description(&self) -> Seq<char>;

    /// The characters of the JSON schema of the tool's arguments.
    spec fn spec_parameters(&self) -> Seq<char>;

    /// The name by which a model calls the tool.
    fn name(&self) -> (name: &str)
        ensures
            name@ == self.spec_name(),
    ;

    /// What the tool does, in words for the model.
    fn description(&self) -> (description: &str)
        ensures
            description@ == self.spec_description(),
    ;

    /// The JSON schema of the tool's arguments, as text.
    fn parameters(&self) -> (schema: String)
        ensures
            schema@ == self.spec_parameters(),
    ;
}

/// A call named a tool that is not registered.
#[derive(Clone, Debug, PartialEq, Eq)]
pub struct ToolError {
    pub name: String,
}

impl ToolError {
    /// The error in words: `Tool <name> not found`.
    pub fn to_string(&self) -> (text: String)
        ensures
            text@ == "Tool "@ + self.name@ + " not found"@,
    {
        let mut text = "Tool ".to_owned();
        text.append(self.name.as_str());
        text.append(" not found");
        text
    }
}

/// The position of the first tool with the given name, or the number of
/// tools if there is none.
pub open spec fn name_position<T: Tool>(tools: Seq<T>, name: Seq<char>) -> int
    decreases tools.len(),
{
    if tools.len() == 0 {
        0
    } else if tools[0].spec_name() == name {
        0
    } else {
        1 + name_position(tools.drop_first(), name)
    }
}

/// The lookup that a list of tools stands for: each name leads to the first
/// tool of that name.
pub open spec fn lookup<T: Tool>(tools: Seq<T>) -> Map<Seq<char>, T> {
    Map::new(
        |name: Seq<char>| name_position(tools, name) < tools.len(),
        |name: Seq<char>| tools[name_position(tools, name)],
    )
}

/// What `name_position` finds: the first tool of the name, or the end.
pub proof fn lemma_name_position<T: Tool>(tools: Seq<T>, name: Seq<char>)
    ensures
        0 <= name_position(tools, name) <= tools.len(),
        forall|j: int| 0 <= j < name_position(tools, name) ==> (#[trigger] tools[j]).spec_name() != name,
        name_position(tools, name) < tools.len() ==> tools[name_position(tools, name)].spec_name() == name,
    decreases tools.len(),
{
    if tools.len() == 0 {
    } else if tools[0].spec_name() == name {
    } else {
        let rest = tools.drop_first();
        lemma_name_position(rest, name);
        assert forall|j: int| 0 <= j < name_position(tools, name) implies (#[trigger] tools[j]).spec_name()
            != name by {
            if j > 0 {
                assert(tools[j] == rest[j - 1]);
            }
        }
        if name_position(tools, name) < tools.len() {
            assert(tools[name_position(tools, name)] == rest[name_position(rest, name)]);
        }
    }
}

/// A place with no tool of the name before it, which holds one or is the
/// end, is the place that `name_position` finds.
pub proof fn lemma_name_position_is<T: Tool>(tools: Seq<T>, name: Seq<char>, at: int)
    requires
        0 <= at <= tools.len(),
        forall|j: int| 0 <= j < at ==> (#[trigger] tools[j]).spec_name() != name,
        at < tools.len() ==> tools[at].spec_name() == name,
    ensures
        name_position(tools, name) == at,
{
    lemma_name_position(tools, name);
    let found = name_position(tools, name);
    if found < at {
        assert(tools[found].spec_name() != name);
    } else if at < found {
        assert(tools[at].spec_name() != name);
    }
}

/// Putting a tool in the place of the first one of its name, or at the end
/// if there is none, is an insertion into the lookup.
pub proof fn lemma_register<T: Tool>(tools: Seq<T>, tool: T)
    ensures
        ({
            let at = name_position(tools, tool.spec_name());
            let after = if at < tools.len() {
                tools.update(at, tool)
            } else {
                tools.push(tool)
            };
            lookup(after) == lookup(tools).insert(tool.spec_name(), tool)
        }),
{
    let own = tool.spec_name();
    let at = name_position(tools, own);
    lemma_name_position(tools, own);
    let after = if at < tools.len() {
        tools.update(at, tool)
    } else {
        tools.push(tool)
    };
    assert forall|name: Seq<char>|
        (#[trigger] lookup(after).dom().contains(name)) == lookup(tools).insert(own, tool).dom().contains(
            name,
        ) && (lookup(after).dom().contains(name) ==> lookup(after)[name] == lookup(tools).insert(
            own,
            tool,
        )[name]) by {
        if name == own {
            lemma_name_position_is(after, own, at);
        } else {
            lemma_name_position(tools, name);
            let found = name_position(tools, name);
            assert forall|j: int| 0 <= j < found implies (#[trigger] after[j]).spec_name() != name by {
                if j < tools.len() && j != at {
                    assert(after[j] == tools[j]);
                }
            }
            if found < tools.len() {
                assert(found != at);
                assert(after[found] == tools[found]);
                lemma_name_position_is(after, name, found);
            } else {
                assert forall|j: int| 0 <= j < after.len() implies (#[trigger] after[j]).spec_name()
                    != name by {
                    if j < tools.len() && j != at {
                        assert(after[j] == tools[j]);
                        assert(tools[j].spec_name() != name);
                    }
                }
                lemma_name_position_is(after, name, after.len() as int);
            }
        }
    }
    assert(lookup(after) =~= lookup(tools).insert(own, tool));
}

/// The position of the last tool with the given name, or -1 if there is
/// none.
pub open spec fn last_position<T: Tool>(tools: Seq<T>, name: Seq<char>) -> int
    decreases tools.len(),
{
    if tools.len() == 0 {
        -1
    } else if tools.last().spec_name() == name {
        tools.len() - 1
    } else {
        last_position(tools.drop_last(), name)
    }
}

/// The lookup that results from registering some tools one after the
/// other: each name leads to the last tool of that name.
pub open spec fn registered<T: Tool>(tools: Seq<T>) -> Map<Seq<char>, T> {
    Map::new(
        |name: Seq<char>| last_position(tools, name) >= 0,
        |name: Seq<char>| tools[last_position(tools, name)],
    )
}

/// What `last_position` finds: the last tool of the name, or nothing.
pub proof fn lemma_last_position<T: Tool>(tools: Seq<T>, name: Seq<char>)
    ensures
        -1 <= last_position(tools, name) < tools.len(),
        last_position(tools, name) >= 0 ==> tools[last_position(tools, name)].spec_name() == name,
        forall|j: int|
            last_position(tools, name) < j < tools.len() ==> (#[trigger] tools[j]).spec_name() != name,
    decreases tools.len(),
{
    if tools.len() > 0 && tools.last().spec_name() != name {
        let head = tools.drop_last();
        lemma_last_position(head, name);
        assert forall|j: int| last_position(tools, name) < j < tools.len() implies (#[trigger] tools[j]).spec_name()
            != name by {
            if j < head.len() {
                assert(tools[j] == head[j]);
            }
        }
        if last_position(tools, name) >= 0 {
            assert(tools[last_position(tools, name)] == head[last_position(head, name)]);
        }
    }
}

/// Registering one more tool is an insertion into the lookup.
pub proof fn lemma_registered_next<T: Tool>(tools: Seq<T>, tool: T)
    ensures
        registered(tools.push(tool)) == registered(tools).insert(tool.spec_name(), tool),
{
    let more = tools.push(tool);
    assert(more.drop_last() =~= tools);
    assert(more.last() == tool);
    assert forall|name: Seq<char>|
        (#[trigger] registered(more).dom().contains(name)) == registered(tools).insert(
            tool.spec_name(),
            tool,
        ).dom().contains(name) && (registered(more).dom().contains(name) ==> registered(more)[name]
            == registered(tools).insert(tool.spec_name(), tool)[name]) by {
        lemma_last_position(tools, name);
        if name != tool.spec_name() && last_position(tools, name) >= 0 {
            assert(more[last_position(tools, name)] == tools[last_position(tools, name)]);
        }
    }
    assert(registered(more) =~= registered(tools).insert(tool.spec_name(), tool));
}

/// The tools of one turn, found by name.
pub struct ToolRegistry<T: Tool> {
    tools: Vec<T>,
}

impl<T: Tool> View for ToolRegistry<T> {
    type V = Map<Seq<char>, T>;

    closed spec fn view(&self) -> Map<Seq<char>, T> {
        lookup(self.tools@)
    }
}

impl<T: Tool> ToolRegistry<T> {
    /// A registry without tools.
    pub fn new() -> (registry: Self)
        ensures
            registry@ == Map::<Seq<char>, T>::empty(),
    {
        let registry = ToolRegistry { tools: Vec::new() };
        assert(lookup(registry.tools@) =~= Map::<Seq<char>, T>::empty());
        registry
    }

    /// Registers a tool under its name. A tool registered earlier under the
    /// same name is replaced.
    pub fn register(&mut self, t: T)
        ensures
            final(self)@ == old(self)@.insert(t.spec_name(), t),
    {
        let at = self.find(t.name());
        proof {
            lemma_register(self.tools@, t);
        }
        if at < self.tools.len() {
            self.tools.set(at, t);
        } else {
            self.tools.push(t);
        }
    }

    /// The place of the first tool of the given name, or the number of tools.
    fn find(&self, name: &str) -> (at: usize)
        ensures
            at == name_position(self.tools@, name@),
            at <= self.tools@.len(),
    {
        let mut at: usize = 0;
        while at < self.tools.len()
            invariant
                at <= self.tools.len(),
                forall|j: int| 0 <= j < at ==> (#[trigger] self.tools@[j]).spec_name() != name@,
            ensures
                at <= self.tools.len(),
                at < self.tools.len() ==> self.tools@[at as int].spec_name() == name@,
            decreases self.tools.len() - at,
        {
            if str_eq(self.tools[at].name(), name) {
                break;
            }
            at += 1;
        }
        proof {
            lemma_name_position_is(self.tools@, name@, at as int);
        }
        at
    }

    /// Whether a tool is registered under the given name.
    pub fn contains(&self, name: &str) -> (found: bool)
        ensures
            found == self@.contains_key(name@),
    {
        self.find(name) < self.tools.len()
    }

    /// The tool registered under the given name, if there is one.
    pub fn resolve(&self, name: &str) -> (tool: Option<&T>)
        ensures
            match tool {
                Some(t) => self@.contains_key(name@) && *t == self@[name@],
                None => !self@.contains_key(name@),
            },
    {
        let at = self.find(name);
        if at < self.tools.len() {
            Some(&self.tools[at])
        } else {
            None
        }
    }
}

/// A tool of any kind as a turn sees it: its name, description and schema,
/// together with whatever the caller needs to invoke it.
#[derive(Clone, Debug)]
pub struct ToolEntry<H> {
    pub name: String,
    pub description: String,
    /// The JSON schema of the arguments, as text.
    pub parameters: String,
    /// What the caller invokes.
    pub handle: H,
}

impl<H> ToolEntry<H> {
    /// The entry that describes `tool` and carries `handle`.
    pub fn of<T: Tool>(tool: &T, handle: H) -> (entry: Self)
        ensures
            entry.name@ == tool.spec_name(),
            entry.description@ == tool.spec_description(),
            entry.parameters@ == tool.spec_parameters(),
            entry.handle == handle,
    {
        ToolEntry {
            name: tool.name().to_owned(),
            description: tool.description().to_owned(),
            parameters: tool.parameters(),
            handle,
        }
    }
}

impl<H> Tool for ToolEntry<H> {
    open spec fn spec_name(&self) -> Seq<char> {
        self.name@
    }

    open spec fn spec_description(&self) -> Seq<char> {
        self.description@
    }

    open spec fn spec_parameters(&self) -> Seq<char> {
        self.parameters@
    }

    fn name(&self) -> (name: &str) {
        self.name.as_str()
    }

    fn description(&self) -> (description: &str) {
        self.description.as_str()
    }

    fn parameters(&self) -> (schema: String) {
        self.parameters.clone()
    }
}

/// The JSON schema of two numbers `a` and `b`.
pub const ADD_PARAMETERS: &'static str =
    "{\"type\":\"object\",\"properties\":{\"a\":{\"type\":\"number\",\"description\":\"First number\"},\"b\":{\"type\":\"number\",\"description\":\"Second number\"}},\"required\":[\"a\",\"b\"]}";

/// The JSON schema of no arguments.
pub const NO_PARAMETERS: &'static str = "{\"type\":\"object\",\"properties\":{},\"required\":[]}";

/// The JSON schema of one search term, `content`.
pub const SEARCH_PARAMETERS: &'static str =
    "{\"type\":\"object\",\"properties\":{\"content\":{\"type\":\"string\",\"description\":\"Search term to send to knowledge base\"}},\"required\":[\"content\"]}";

/// Adds two numbers.
#[derive(Clone, Copy, Debug, PartialEq, Eq)]
pub struct AddTool;

impl Tool for AddTool {
    open spec fn spec_name(&self) -> Seq<char> {
        "calculator"@
    }

    open spec fn spec_description(&self) -> Seq<char> {
        "Add some numbers"@
    }

    open spec fn spec_parameters(&self) -> Seq<char> {
        ADD_PARAMETERS@
    }

    fn name(&self) -> (name: &str) {
        "calculator"
    }

    fn description(&self) -> (description: &str) {
        "Add some numbers"
    }

    fn parameters(&self) -> (schema: String) {
        ADD_PARAMETERS.to_owned()
    }
}

/// Tells the current time.
#[derive(Clone, Copy, Debug, PartialEq, Eq)]
pub struct TimeTool;

impl Tool for TimeTool {
    open spec fn spec_name(&self) -> Seq<char> {
        "time"@
    }

    open spec fn spec_description(&self) -> Seq<char> {
        "Get current time"@
    }

    open spec fn spec_parameters(&self) -> Seq<char> {
        NO_PARAMETERS@
    }

    fn name(&self) -> (name: &str) {
        "time"
    }

    fn description(&self) -> (description: &str) {
        "Get current time"
    }

    fn parameters(&self) -> (schema: String) {
        NO_PARAMETERS.to_owned()
    }
}

/// Searches the knowledge base on Paul Graham.
#[derive(Clone, Copy, Debug, PartialEq, Eq)]
pub struct KnowledgeBasePaulGraham;

impl Tool for KnowledgeBasePaulGraham {
    open spec fn spec_name(&self) -> Seq<char> {
        "knowledge_base_paul_graham"@
    }

    open spec fn spec_description(&self) -> Seq<char> {
        "Knowledge base containing information on Paul Graham"@
    }

    open spec fn spec_parameters(&self) -> Seq<char> {
        SEARCH_PARAMETERS@
    }

    fn name(&self) -> (name: &str) {
        "knowledge_base_paul_graham"
    }

    fn description(&self) -> (description: &str) {
        "Knowledge base containing information on Paul Graham"
    }

    fn parameters(&self) -> (schema: String) {
        SEARCH_PARAMETERS.to_owned()
    }
}

} // verus!
