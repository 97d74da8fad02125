//! The runtime module that exports the module loader.

use vstd::prelude::*;
use vstd::string::StringExecFns;
use crate::module_graph::{Compilation, Identifier, ModuleRecord};
use crate::runtime_module::RuntimeModule;

verus! {

/// Exports the internal module loader as the default export of the runtime.
/// Its text is the same in every compilation.
#[derive(Clone, Debug, PartialEq, Eq)]
pub struct ExportWebpackRequireRuntimeModule {
    id: Identifier,
}

impl ExportWebpackRequireRuntimeModule {
    pub fn new() -> (module: ExportWebpackRequireRuntimeModule)
        ensures
            module.name_spec() == "webpack/runtime/export_webpack_runtime"@,
    {
        ExportWebpackRequireRuntimeModule {
            id: Identifier::new("webpack/runtime/export_webpack_runtime"),
        }
    }
}

impl RuntimeModule for ExportWebpackRequireRuntimeModule {
    closed spec fn name_spec(&self) -> Seq<char> {
        self.id@
    }

    open spec fn source_spec(&self, module_graph: Map<Seq<char>, ModuleRecord>) -> Seq<char> {
        "export default __webpack_require__;"@
    }

    open spec fn isolated(&self) -> bool {
        true
    }

    fn name(&self) -> (name: Identifier) {
        self.id.duplicate()
    }

    fn generate(&self, _compilation: &Compilation) -> (source: String) {
        String::from_str("export default __webpack_require__;")
    }

    fn should_isolate(&self) -> (isolate: bool) {
        true
    }
}

} // verus!
