//! The part of the module graph that code generation reads: for each module
//! its binding identifiers, its async status and its build metadata.

use vstd::prelude::*;
use vstd::string::StringExecFns;

verus! {

/// The identity of a module, or of a runtime module. Two identifiers are the
/// same when their texts are.
#[derive(Clone, Debug, PartialEq, Eq)]
pub struct Identifier {
    text: String,
}

impl View for Identifier {
    type V = Seq<char>;

    closed spec fn view(&self) -> Seq<char> {
        self.text@
    }
}

impl Identifier {
    /// The identifier with the given text.
    pub fn new(text: &str) -> (id: Identifier)
        ensures
            id@ == text@,
    {
        Identifier { text: String::from_str(text) }
    }

    /// The identifier's text.
    pub fn as_str(&self) -> (text: &str)
        ensures
            text@ == self@,
    {
        self.text.as_str()
    }

    /// Whether both identifiers name the same thing.
    pub fn same(&self, other: &Identifier) -> (equal: bool)
        ensures
            equal == (self@ == other@),
    {
        self.text == other.text
    }

    /// A second handle on the same identity.
    pub fn duplicate(&self) -> (copy: Identifier)
        ensures
            copy@ == self@,
    {
        Identifier { text: self.text.clone() }
    }
}

/// The name under which a module's body sees its exports object.
#[derive(Clone, Copy, Debug, PartialEq, Eq, Structural)]
pub enum ExportsArgument {
    Exports,
    WebpackExports,
}

impl ExportsArgument {
    pub open spec fn name_spec(self) -> Seq<char> {
        match self {
            ExportsArgument::Exports => "exports"@,
            ExportsArgument::WebpackExports => "__webpack_exports__"@,
        }
    }

    /// The identifier as it is written in generated code.
    pub fn name(self) -> (text: &'static str)
        ensures
            text@ == self.name_spec(),
    {
        match self {
            ExportsArgument::Exports => "exports",
            ExportsArgument::WebpackExports => "__webpack_exports__",
        }
    }
}

/// The name under which a module's body sees its module object.
#[derive(Clone, Copy, Debug, PartialEq, Eq, Structural)]
pub enum ModuleArgument {
    Module,
    WebpackModule,
}

impl ModuleArgument {
    pub open spec fn name_spec(self) -> Seq<char> {
        match self {
            ModuleArgument::Module => "module"@,
            ModuleArgument::WebpackModule => "__webpack_module__"@,
        }
    }

    /// The identifier as it is written in generated code.
    pub fn name(self) -> (text: &'static str)
        ensures
            text@ == self.name_spec(),
    {
        match self {
            ModuleArgument::Module => "module",
            ModuleArgument::WebpackModule => "__webpack_module__",
        }
    }
}

/// What the build recorded about a module's body.
#[derive(Clone, Copy, Debug, PartialEq, Eq, Structural)]
pub struct BuildMeta {
    /// The body suspends at its top level.
    pub has_top_level_await: bool,
}

/// What the graph knows of a module, without the module's identity.
pub struct ModuleRecord {
    pub exports_argument: ExportsArgument,
    pub module_argument: ModuleArgument,
    pub is_async: bool,
    pub build_meta: Option<BuildMeta>,
}

impl ModuleRecord {
    /// Whether the build saw a top-level suspend in the module's body.
    pub open spec fn has_top_level_await(self) -> bool {
        self.build_meta matches Some(meta) && meta.has_top_level_await
    }
}

/// The graph's entry for one module.
#[derive(Clone, Debug, PartialEq, Eq)]
pub struct ModuleGraphModule {
    pub module_identifier: Identifier,
    pub exports_argument: ExportsArgument,
    pub module_argument: ModuleArgument,
    pub is_async: bool,
    pub build_meta: Option<BuildMeta>,
}

impl ModuleGraphModule {
    /// The entry without the module's identity.
    pub open spec fn record(self) -> ModuleRecord {
        ModuleRecord {
            exports_argument: self.exports_argument,
            module_argument: self.module_argument,
            is_async: self.is_async,
            build_meta: self.build_meta,
        }
    }

    pub fn get_exports_argument(&self) -> (argument: ExportsArgument)
        ensures
            argument == self.exports_argument,
    {
        self.exports_argument
    }

    pub fn get_module_argument(&self) -> (argument: ModuleArgument)
        ensures
            argument == self.module_argument,
    {
        self.module_argument
    }
}

/// The records that a sequence of entries amounts to: for each identity the
/// entry that was added last.
pub open spec fn records_of(entries: Seq<ModuleGraphModule>) -> Map<Seq<char>, ModuleRecord>
    decreases entries.len(),
{
    if entries.len() == 0 {
        Map::empty()
    } else {
        records_of(entries.drop_last()).insert(
            entries.last().module_identifier@,
            entries.last().record(),
        )
    }
}

/// No entry at or after `from` has the identity `id`, so the entries before
/// `from` decide what the graph holds for `id`.
proof fn lemma_records_skip_tail(entries: Seq<ModuleGraphModule>, id: Seq<char>, from: int)
    requires
        0 <= from <= entries.len(),
        forall|j: int| from <= j < entries.len() ==> entries[j].module_identifier@ != id,
    ensures
        records_of(entries).dom().contains(id) == records_of(entries.take(from)).dom().contains(
            id,
        ),
        records_of(entries).dom().contains(id) ==> records_of(entries)[id] == records_of(
            entries.take(from),
        )[id],
    decreases entries.len() - from,
{
    if from == entries.len() {
        assert(entries.take(from) =~= entries);
    } else {
        let shorter = entries.drop_last();
        assert(shorter.take(from) =~= entries.take(from));
        lemma_records_skip_tail(shorter, id, from);
    }
}

/// The modules of a compilation, by identity.
#[derive(Clone, Debug, PartialEq, Eq)]
pub struct ModuleGraph {
    entries: Vec<ModuleGraphModule>,
}

impl View for ModuleGraph {
    type V = Map<Seq<char>, ModuleRecord>;

    closed spec fn view(&self) -> Map<Seq<char>, ModuleRecord> {
        records_of(self.entries@)
    }
}

impl ModuleGraph {
    /// The graph without modules.
    pub fn new() -> (graph: ModuleGraph)
        ensures
            graph@ == Map::<Seq<char>, ModuleRecord>::empty(),
    {
        ModuleGraph { entries: Vec::new() }
    }

    /// Records `entry` under its identity, in place of what the graph held
    /// for that identity before.
    pub fn add_module_graph_module(&mut self, entry: ModuleGraphModule)
        ensures
            final(self)@ == old(self)@.insert(entry.module_identifier@, entry.record()),
    {
        self.entries.push(entry);
        proof {
            assert(self.entries@.drop_last() =~= old(self).entries@);
        }
    }

    /// The entry of the module `identifier`, if the graph has one.
    pub fn module_graph_module_by_identifier(&self, identifier: &Identifier) -> (found: Option<
        &ModuleGraphModule,
    >)
        ensures
            found is Some == self@.dom().contains(identifier@),
            found matches Some(entry) ==> entry.module_identifier@ == identifier@
                && entry.record() == self@[identifier@],
    {
        let mut at: usize = self.entries.len();
        while at > 0
            invariant
                at <= self.entries.len(),
                forall|j: int|
                    at <= j < self.entries.len() ==> self.entries[j].module_identifier@
                        != identifier@,
            decreases at,
        {
            at = at - 1;
            if self.entries[at].module_identifier.same(identifier) {
                proof {
                    lemma_records_skip_tail(self.entries@, identifier@, at + 1);
                }
                return Some(&self.entries[at]);
            }
        }
        proof {
            lemma_records_skip_tail(self.entries@, identifier@, 0);
        }
        None
    }

    /// Whether the module `identifier` is asynchronous; `None` where the graph
    /// does not hold the module.
    pub fn is_async(&self, identifier: &Identifier) -> (answer: Option<bool>)
        ensures
            answer is Some == self@.dom().contains(identifier@),
            answer matches Some(flag) ==> flag == self@[identifier@].is_async,
    {
        match self.module_graph_module_by_identifier(identifier) {
            Some(entry) => Some(entry.is_async),
            None => None,
        }
    }
}

/// The state of one compilation, as far as code generation reads it.
#[derive(Clone, Debug, PartialEq, Eq)]
pub struct Compilation {
    pub module_graph: ModuleGraph,
}

} // verus!
