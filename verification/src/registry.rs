//! The tool registry: a capability is a named, schema-described operation
//! the model may ask the engine to run. The registry maps a tool name to
//! its declarative schema and supports profile-scoped subsets.

use vstd::prelude::*;

use crate::text::str_eq;

verus! {

/// One parameter of a tool's declarative schema.
pub struct ParamSpec {
    pub name: String,
    pub kind: String,
    pub description: String,
    pub required: bool,
}

/// The mathematical shape of a schema parameter.
pub ghost struct ParamModel {
    pub name: Seq<char>,
    pub kind: Seq<char>,
    pub description: Seq<char>,
    pub required: bool,
}

impl View for ParamSpec {
    type V = ParamModel;

    open spec fn view(&self) -> ParamModel {
        ParamModel {
            name: self.name@,
            kind: self.kind@,
            description: self.description@,
            required: self.required,
        }
    }
}

/// A tool's declarative schema: its name, what it does, and the shape of
/// its parameter object.
pub struct ToolSchema {
    pub name: String,
    pub description: String,
    pub params: Vec<ParamSpec>,
}

/// The mathematical shape of a tool schema.
pub ghost struct SchemaModel {
    pub name: Seq<char>,
    pub description: Seq<char>,
    pub params: Seq<ParamModel>,
}

impl View for ToolSchema {
    type V = SchemaModel;

    open spec fn view(&self) -> SchemaModel {
        SchemaModel {
            name: self.name@,
            description: self.description@,
            params: self.params@.map_values(|p: ParamSpec| p@),
        }
    }
}

/// The capability interface: every tool announces a name, a description,
/// and a declarative schema.
pub trait Tool {
    /// The tool's name in specifications.
    spec fn spec_name(&self) -> Seq<char>;

    /// The tool's description in specifications.
    spec fn spec_description(&self) -> Seq<char>;

    /// The tool's schema in specifications.
    spec fn spec_schema(&self) -> SchemaModel;

    /// The name under which the registry and the model address this tool.
    fn name(&self) -> (r: String)
        ensures
            r@ == self.spec_name(),
    ;

    /// A short account of what the tool does.
    fn description(&self) -> (r: String)
        ensures
            r@ == self.spec_description(),
    ;

    /// The declarative schema handed to the model.
    fn schema(&self) -> (r: ToolSchema)
        ensures
            r@ == self.spec_schema(),
    ;
}

/// An ordered collection of tool schemas, looked up by name.
pub struct Registry {
    tools: Vec<ToolSchema>,
}

impl Registry {
    /// The registered schemas, in registration order.
    pub closed spec fn schemas(self) -> Seq<SchemaModel> {
        self.tools@.map_values(|t: ToolSchema| t@)
    }

    /// The registered names, in registration order.
    pub open spec fn names(self) -> Seq<Seq<char>> {
        self.schemas().map_values(|s: SchemaModel| s.name)
    }

    /// Whether a tool of this name is registered.
    pub open spec fn spec_has(self, name: Seq<char>) -> bool {
        self.names().contains(name)
    }

    /// An empty registry.
    pub fn new() -> (r: Registry)
        ensures
            r.schemas() == Seq::<SchemaModel>::empty(),
    {
        let r = Registry { tools: Vec::new() };
        proof {
            assert(r.schemas() =~= Seq::<SchemaModel>::empty());
        }
        r
    }

    /// Registers one more tool schema at the end.
    pub fn register(&mut self, t: ToolSchema)
        ensures
            final(self).schemas() == old(self).schemas().push(t@),
    {
        self.tools.push(t);
        proof {
            assert(self.schemas() =~= old(self).schemas().push(t@));
        }
    }

    /// The number of registered tools.
    pub fn len(&self) -> (n: usize)
        ensures
            n == self.schemas().len(),
    {
        self.tools.len()
    }

    /// The schema at position `i`.
    pub fn get(&self, i: usize) -> (t: &ToolSchema)
        requires
            i < self.schemas().len(),
        ensures
            t@ == self.schemas()[i as int],
    {
        &self.tools[i]
    }

    /// Whether a tool of this name is registered.
    pub fn has_tool(&self, name: &str) -> (r: bool)
        ensures
            r == self.spec_has(name@),
    {
        let n = self.tools.len();
        let mut i: usize = 0;
        while i < n
            invariant
                i <= n,
                n == self.tools@.len(),
                forall|k: int| 0 <= k < i ==> self.names()[k] != name@,
            decreases n - i,
        {
            if str_eq(self.tools[i].name.as_str(), name) {
                proof {
                    assert(self.names()[i as int] == name@);
                }
                return true;
            }
            i = i + 1;
        }
        proof {
            if self.spec_has(name@) {
                let w = choose|w: int| 0 <= w < self.names().len() && self.names()[w] == name@;
                assert(false);
            }
        }
        false
    }
}

} // verus!
