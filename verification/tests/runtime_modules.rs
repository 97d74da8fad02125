use bundler_codegen::export_webpack_require::ExportWebpackRequireRuntimeModule;
use bundler_codegen::module_graph::{
    Compilation, ExportsArgument, Identifier, ModuleArgument, ModuleGraph, ModuleGraphModule,
};
use bundler_codegen::runtime_globals::{RuntimeGlobal, RuntimeGlobals};
use bundler_codegen::runtime_module::{
    instantiate_runtime_modules, RuntimeModule, RuntimeModuleOutput,
};
use bundler_codegen::template_replace_source::TemplateReplaceSource;

fn empty_compilation() -> Compilation {
    Compilation { module_graph: ModuleGraph::new() }
}

#[test]
fn export_webpack_require_has_a_fixed_name_and_text() {
    let module = ExportWebpackRequireRuntimeModule::new();
    assert_eq!(module.name(), Identifier::new("webpack/runtime/export_webpack_runtime"));
    assert_eq!(module.name().as_str(), "webpack/runtime/export_webpack_runtime");
    assert_eq!(module.generate(&empty_compilation()), "export default __webpack_require__;");
    assert!(module.should_isolate());
}

#[test]
fn export_webpack_require_ignores_the_compilation() {
    let mut module_graph = ModuleGraph::new();
    module_graph.add_module_graph_module(ModuleGraphModule {
        module_identifier: Identifier::new("a"),
        exports_argument: ExportsArgument::Exports,
        module_argument: ModuleArgument::Module,
        is_async: true,
        build_meta: None,
    });
    let module = ExportWebpackRequireRuntimeModule::new();
    assert_eq!(
        module.generate(&Compilation { module_graph }),
        module.generate(&empty_compilation())
    );
}

#[test]
fn runtime_modules_follow_the_requirements() {
    let compilation = empty_compilation();
    let mut requirements = RuntimeGlobals::new();
    assert!(instantiate_runtime_modules(&requirements, &compilation).is_empty());
    requirements.insert(RuntimeGlobal::MakeNamespaceObject);
    requirements.insert(RuntimeGlobal::AsyncModule);
    assert!(instantiate_runtime_modules(&requirements, &compilation).is_empty());
    requirements.insert(RuntimeGlobal::ExternalInstallChunk);
    assert_eq!(
        instantiate_runtime_modules(&requirements, &compilation),
        vec![RuntimeModuleOutput {
            name: Identifier::new("webpack/runtime/export_webpack_runtime"),
            source: "export default __webpack_require__;".to_string(),
            isolate: true,
        }]
    );
}

#[test]
fn instantiation_does_not_depend_on_the_order_of_requirements() {
    let compilation = empty_compilation();
    let mut first = RuntimeGlobals::new();
    first.insert(RuntimeGlobal::ExternalInstallChunk);
    first.insert(RuntimeGlobal::Exports);
    let mut second = RuntimeGlobals::new();
    second.insert(RuntimeGlobal::Exports);
    second.insert(RuntimeGlobal::ExternalInstallChunk);
    second.insert(RuntimeGlobal::Exports);
    let once = instantiate_runtime_modules(&first, &compilation);
    assert_eq!(once, instantiate_runtime_modules(&second, &compilation));
    assert_eq!(once, instantiate_runtime_modules(&first, &compilation));
    assert_eq!(once.len(), 1);
}

#[test]
fn unedited_text_comes_out_as_it_went_in() {
    let text = TemplateReplaceSource::new("import a from 'a';".to_string());
    assert_eq!(text.source(), "import a from 'a';");
    assert_eq!(TemplateReplaceSource::new(String::new()).source(), "");
}

#[test]
fn edits_are_made_at_their_ranges_whatever_their_order() {
    let mut text = TemplateReplaceSource::new("export default answer;".to_string());
    assert!(text.can_replace(15, 21));
    text.replace(15, 21, "42".to_string());
    assert!(text.can_replace(0, 15));
    text.replace(0, 15, "__webpack_exports__.default = ".to_string());
    assert!(text.can_replace(22, 22));
    text.replace(22, 22, "\n".to_string());
    assert_eq!(text.source(), "__webpack_exports__.default = 42;\n");
}

#[test]
fn ranges_count_characters() {
    let mut text = TemplateReplaceSource::new("é=1;ü=2;".to_string());
    text.replace(4, 5, "u".to_string());
    text.replace(0, 1, "e".to_string());
    assert_eq!(text.source(), "e=1;u=2;");
}

#[test]
fn insertion_goes_before_the_range_that_starts_at_its_place() {
    let mut text = TemplateReplaceSource::new("abcdef".to_string());
    text.replace(2, 4, "X".to_string());
    text.replace(2, 2, "<".to_string());
    text.replace(4, 4, ">".to_string());
    assert_eq!(text.source(), "ab<X>ef");
}

#[test]
fn overlapping_ranges_are_not_accepted() {
    let mut text = TemplateReplaceSource::new("abcdef".to_string());
    text.replace(1, 3, "X".to_string());
    text.replace(5, 5, "Y".to_string());
    assert!(!text.can_replace(0, 2));
    assert!(!text.can_replace(2, 4));
    assert!(!text.can_replace(1, 3));
    assert!(!text.can_replace(2, 2));
    assert!(!text.can_replace(5, 5));
    assert!(!text.can_replace(0, 6));
    assert!(!text.can_replace(4, 3));
    assert!(!text.can_replace(6, 7));
    assert!(text.can_replace(0, 1));
    assert!(text.can_replace(1, 1));
    assert!(text.can_replace(3, 5));
    assert!(text.can_replace(3, 3));
    assert!(text.can_replace(5, 6));
    assert!(text.can_replace(6, 6));
}
