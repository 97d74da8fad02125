//! The dependency template of modules with namespace-style exports.
//!
//! It marks the module's exports object as a namespace object and, where the
//! module is asynchronous, runs the rest of the module's body behind an async
//! boundary.

use vstd::prelude::*;
use vstd::string::StringExecFns;
use crate::init_fragment::{
    emitted, first_of_each_key_upto, fragment_views, in_emission_order, is_emission_order, lists,
    lemma_emission_order_unique, lemma_repeated_fragment_is_dropped, rendered, InitFragmentKey, InitFragmentKeyView, InitFragmentStage, InitFragmentView,
    NormalInitFragment,
};
use crate::module_graph::{ExportsArgument, ModuleArgument};
use crate::runtime_globals::RuntimeGlobal;
use crate::template_context::{DependencyTemplate, TemplateContext, TemplateContextView};
use crate::template_replace_source::{ReplacementView, TemplateReplaceSource};

verus! {

/// The fragment that marks the exports object named `exports` as a namespace
/// object.
pub open spec fn namespace_fragment(exports: ExportsArgument) -> InitFragmentView {
    InitFragmentView {
        content: RuntimeGlobal::MakeNamespaceObject.name_spec() + "("@ + exports.name_spec()
            + ");\n"@,
        stage: InitFragmentStage::StageHarmonyExports,
        position: 0,
        key: InitFragmentKeyView::HarmonyCompatibility,
        end_content: None,
    }
}

/// What the closing text of an async boundary hands the runtime besides the
/// body: the mark of a module that suspends at its top level, or nothing.
pub open spec fn deferred_marker(has_top_level_await: bool) -> Seq<char> {
    if has_top_level_await {
        ", 1"@
    } else {
        ""@
    }
}

/// The fragment that runs the body of the module `module` behind an async
/// boundary. It opens an async function that is handed to the runtime
/// together with the module object named `argument`, and a `try` block
/// around the body. Its closing text reports the body's completion, or the
/// error that the body threw.
pub open spec fn async_boundary_fragment(
    module: Seq<char>,
    argument: ModuleArgument,
    has_top_level_await: bool,
) -> InitFragmentView {
    InitFragmentView {
        content: RuntimeGlobal::AsyncModule.name_spec() + "("@ + argument.name_spec()
            + ", async function (__webpack_handle_async_dependencies__, __webpack_async_result__) { try {\n"@,
        stage: InitFragmentStage::StageAsyncBoundary,
        position: 0,
        key: InitFragmentKeyView::AsyncBoundary(module),
        end_content: Some(
            "\n__webpack_async_result__();\n} catch(e) { __webpack_async_result__(e); } }"@
                + deferred_marker(has_top_level_await) + ");"@,
        ),
    }
}

/// The context after the template has run on `context`. The module's record
/// in the graph decides: every module requires the namespace helper and its
/// exports object and gets the namespace fragment; an asynchronous module
/// also requires its module object and the async helper and gets the async
/// boundary fragment.
pub open spec fn generated(context: TemplateContextView) -> TemplateContextView {
    let record = context.module_graph[context.module];
    let required = context.runtime_requirements.insert(RuntimeGlobal::MakeNamespaceObject).insert(
        RuntimeGlobal::Exports,
    );
    let fragments = context.init_fragments.push(namespace_fragment(record.exports_argument));
    if record.is_async {
        TemplateContextView {
            module: context.module,
            module_graph: context.module_graph,
            runtime_requirements: required.insert(RuntimeGlobal::Module).insert(
                RuntimeGlobal::AsyncModule,
            ),
            init_fragments: fragments.push(
                async_boundary_fragment(
                    context.module,
                    record.module_argument,
                    record.has_top_level_await(),
                ),
            ),
        }
    } else {
        TemplateContextView {
            module: context.module,
            module_graph: context.module_graph,
            runtime_requirements: required,
            init_fragments: fragments,
        }
    }
}

/// Marks a module's exports as a namespace object.
#[derive(Clone, Copy, Debug, PartialEq, Eq, Structural)]
pub struct HarmonyCompatibilityDependency;

impl DependencyTemplate for HarmonyCompatibilityDependency {
    /// The graph of the compilation must hold the module: a module whose code
    /// is being generated has a record there.
    open spec fn applies_to(
        &self,
        parsed: Seq<char>,
        edits: Seq<ReplacementView>,
        context: TemplateContextView,
    ) -> bool {
        context.module_graph.dom().contains(context.module)
    }

    open spec fn contributes(&self, context: TemplateContextView) -> TemplateContextView {
        generated(context)
    }

    /// The template leaves the module's text as it is.
    open spec fn edits_after(
        &self,
        parsed: Seq<char>,
        edits: Seq<ReplacementView>,
        context: TemplateContextView,
    ) -> Seq<ReplacementView> {
        edits
    }

    /// Runs the template for the module of `context`: it contributes
    /// fragments and requirements, as `generated` says.
    fn apply(&self, source: &mut TemplateReplaceSource, context: &mut TemplateContext) {
        let compilation = context.compilation;
        let entry = compilation.module_graph.module_graph_module_by_identifier(
            &context.module,
        ).unwrap();
        let ghost before = fragment_views(context.init_fragments@);
        context.runtime_requirements.insert(RuntimeGlobal::MakeNamespaceObject);
        context.runtime_requirements.insert(RuntimeGlobal::Exports);
        let mut content = String::from_str(RuntimeGlobal::MakeNamespaceObject.name());
        content.append("(");
        content.append(entry.get_exports_argument().name());
        content.append(");\n");
        context.init_fragments.push(
            NormalInitFragment::new(
                content,
                InitFragmentStage::StageHarmonyExports,
                0,
                InitFragmentKey::HarmonyCompatibility,
                None,
            ),
        );
        let ghost first = namespace_fragment(entry.exports_argument);
        proof {
            assert(fragment_views(context.init_fragments@) =~= before.push(first));
        }
        let is_async = match compilation.module_graph.is_async(&context.module) {
            Some(flag) => flag,
            None => false,
        };
        if is_async {
            context.runtime_requirements.insert(RuntimeGlobal::Module);
            context.runtime_requirements.insert(RuntimeGlobal::AsyncModule);
            let mut opening = String::from_str(RuntimeGlobal::AsyncModule.name());
            opening.append("(");
            opening.append(entry.get_module_argument().name());
            opening.append(
                ", async function (__webpack_handle_async_dependencies__, __webpack_async_result__) { try {\n",
            );
            let has_top_level_await = match entry.build_meta {
                Some(meta) => meta.has_top_level_await,
                None => false,
            };
            let mut closing = String::from_str(
                "\n__webpack_async_result__();\n} catch(e) { __webpack_async_result__(e); } }",
            );
            closing.append(
                if has_top_level_await {
                    ", 1"
                } else {
                    ""
                },
            );
            closing.append(");");
            context.init_fragments.push(
                NormalInitFragment::new(
                    opening,
                    InitFragmentStage::StageAsyncBoundary,
                    0,
                    InitFragmentKey::AsyncBoundary(context.module.duplicate()),
                    Some(closing),
                ),
            );
            proof {
                assert(fragment_views(context.init_fragments@) =~= before.push(first).push(
                    async_boundary_fragment(
                        context.module@,
                        entry.module_argument,
                        entry.record().has_top_level_await(),
                    ),
                ));
            }
        }
    }
}

/// What the template contributes depends on the module's async status alone.
/// For an asynchronous module it contributes the namespace fragment and then
/// the async boundary fragment, and requires the async helper. For any other
/// module it contributes the namespace fragment only, and the async helper
/// is required after the run only if it was required before.
pub proof fn lemma_fragments_follow_async_status(context: TemplateContextView)
    ensures
        ({
            let record = context.module_graph[context.module];
            let after = generated(context);
            let first = namespace_fragment(record.exports_argument);
            let second = async_boundary_fragment(
                context.module,
                record.module_argument,
                record.has_top_level_await(),
            );
            &&& after.runtime_requirements.contains(RuntimeGlobal::MakeNamespaceObject)
            &&& after.runtime_requirements.contains(RuntimeGlobal::Exports)
            &&& record.is_async ==> after.init_fragments == context.init_fragments + seq![
                first,
                second,
            ] && after.runtime_requirements.contains(RuntimeGlobal::Module)
                && after.runtime_requirements.contains(RuntimeGlobal::AsyncModule)
            &&& !record.is_async ==> after.init_fragments == context.init_fragments + seq![first]
                && (after.runtime_requirements.contains(RuntimeGlobal::AsyncModule)
                <==> context.runtime_requirements.contains(RuntimeGlobal::AsyncModule))
        }),
{
}

/// The first run of the template on a module emits what it contributes: in a
/// context without fragments, the namespace fragment is emitted, and behind
/// it the async boundary fragment where the module is asynchronous.
pub proof fn lemma_first_run_emits_its_fragments(context: TemplateContextView)
    requires
        context.init_fragments.len() == 0,
    ensures
        emitted(generated(context).init_fragments) == generated(context).init_fragments,
{
    let fragments = generated(context).init_fragments;
    let order = Seq::new(fragments.len(), |i: int| i);
    assert forall|i: int| 0 <= i < fragments.len() implies #[trigger] lists(order, i) by {
        assert(order[i] == i);
    }
    assert(is_emission_order(fragments, order));
    lemma_emission_order_unique(fragments, order);
    assert(in_emission_order(fragments) =~= fragments);
    reveal_with_fuel(first_of_each_key_upto, 3);
    assert(emitted(fragments) =~= fragments);
}

/// Running the template again changes nothing that is emitted. After a
/// second run the same fragments are emitted in the same order as after the
/// first, any body renders to the same text, and the same capabilities are
/// required.
pub proof fn lemma_generation_is_idempotent(context: TemplateContextView, body: Seq<char>)
    ensures
        emitted(generated(generated(context)).init_fragments) == emitted(
            generated(context).init_fragments,
        ),
        rendered(generated(generated(context)).init_fragments, body) == rendered(
            generated(context).init_fragments,
            body,
        ),
        generated(generated(context)).runtime_requirements == generated(
            context,
        ).runtime_requirements,
{
    let record = context.module_graph[context.module];
    let once = generated(context);
    let first = namespace_fragment(record.exports_argument);
    let start = context.init_fragments.len() as int;
    assert(once.init_fragments[start] == first);
    lemma_repeated_fragment_is_dropped(once.init_fragments, first);
    if record.is_async {
        let second = async_boundary_fragment(
            context.module,
            record.module_argument,
            record.has_top_level_await(),
        );
        let more = once.init_fragments.push(first);
        assert(more[start + 1] == second);
        lemma_repeated_fragment_is_dropped(more, second);
    }
}

} // verus!
