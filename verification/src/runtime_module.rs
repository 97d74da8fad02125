//! Runtime modules: named blocks of support code that the bundle carries
//! when generated code requires them.

use vstd::prelude::*;
use crate::export_webpack_require::ExportWebpackRequireRuntimeModule;
use crate::module_graph::{Compilation, Identifier, ModuleRecord};
use crate::runtime_globals::{RuntimeGlobal, RuntimeGlobals};

verus! {

/// A block of support code. Its name and its text are fixed by the module
/// and the compilation: generating twice gives the same text.
pub trait RuntimeModule {
    /// The module's name.
    spec fn name_spec(&self) -> Seq<char>;

    /// The module's text for a compilation with the given module graph.
    spec fn source_spec(&self, module_graph: Map<Seq<char>, ModuleRecord>) -> Seq<char>;

    /// Whether the text is wrapped in a scope of its own.
    spec fn isolated(&self) -> bool;

    /// The name under which the bundle carries the module.
    fn name(&self) -> (name: Identifier)
        ensures
            name@ == self.name_spec(),
    ;

    /// The module's text.
    fn generate(&self, compilation: &Compilation) -> (source: String)
        ensures
            source@ == self.source_spec(compilation.module_graph@),
    ;

    /// Whether the text must be wrapped in a scope of its own, so that what
    /// it declares stays out of the code around it.
    fn should_isolate(&self) -> (isolate: bool)
        ensures
            isolate == self.isolated(),
    ;
}

/// A runtime module as the bundle carries it: its name, its text, and
/// whether the text is wrapped in a scope of its own.
#[derive(Clone, Debug, PartialEq, Eq)]
pub struct RuntimeModuleOutput {
    pub name: Identifier,
    pub source: String,
    pub isolate: bool,
}

/// A generated runtime module as contracts speak of it.
pub struct RuntimeModuleOutputView {
    pub name: Seq<char>,
    pub source: Seq<char>,
    pub isolate: bool,
}

impl View for RuntimeModuleOutput {
    type V = RuntimeModuleOutputView;

    open spec fn view(&self) -> RuntimeModuleOutputView {
        RuntimeModuleOutputView { name: self.name@, source: self.source@, isolate: self.isolate }
    }
}

/// The generated runtime modules as contracts speak of them.
pub open spec fn output_views(modules: Seq<RuntimeModuleOutput>) -> Seq<RuntimeModuleOutputView> {
    modules.map_values(|module: RuntimeModuleOutput| module@)
}

/// The module that exports the module loader, as the bundle carries it.
pub open spec fn export_webpack_require_output() -> RuntimeModuleOutputView {
    RuntimeModuleOutputView {
        name: "webpack/runtime/export_webpack_runtime"@,
        source: "export default __webpack_require__;"@,
        isolate: true,
    }
}

/// The runtime modules that a bundle with the given requirements carries, in
/// the order in which it carries them. A chunk that installs itself from
/// outside needs the module loader exported.
pub open spec fn runtime_modules_for(requirements: Set<RuntimeGlobal>) -> Seq<
    RuntimeModuleOutputView,
> {
    if requirements.contains(RuntimeGlobal::ExternalInstallChunk) {
        seq![export_webpack_require_output()]
    } else {
        Seq::empty()
    }
}

/// Generates the runtime modules that `requirements` ask for, each once.
/// What comes out depends on the members of `requirements` alone.
pub fn instantiate_runtime_modules(
    requirements: &RuntimeGlobals,
    compilation: &Compilation,
) -> (modules: Vec<RuntimeModuleOutput>)
    ensures
        output_views(modules@) == runtime_modules_for(requirements@),
{
    let mut modules: Vec<RuntimeModuleOutput> = Vec::new();
    if requirements.contains(RuntimeGlobal::ExternalInstallChunk) {
        let module = ExportWebpackRequireRuntimeModule::new();
        modules.push(
            RuntimeModuleOutput {
                name: module.name(),
                source: module.generate(compilation),
                isolate: module.should_isolate(),
            },
        );
    }
    modules
}

/// Instantiation is deterministic: requirement sets with the same members
/// give the same runtime modules with the same texts, in the same order,
/// however the sets were filled.
pub proof fn lemma_instantiation_is_deterministic(
    first: Set<RuntimeGlobal>,
    second: Set<RuntimeGlobal>,
)
    requires
        forall|global: RuntimeGlobal| first.contains(global) == second.contains(global),
    ensures
        runtime_modules_for(first) == runtime_modules_for(second),
{
}

} // verus!
