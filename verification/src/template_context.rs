//! The state that the dependency templates of one module share while the
//! module's code is generated.

use vstd::prelude::*;
use crate::init_fragment::{
    fragment_views, render_init_fragments, rendered, InitFragmentView, NormalInitFragment,
};
use crate::module_graph::{Compilation, Identifier, ModuleRecord};
use crate::runtime_globals::{RuntimeGlobal, RuntimeGlobals};
use crate::template_replace_source::{spliced, ReplacementView, TemplateReplaceSource};

verus! {

/// What every dependency template of a module is handed, one after the
/// other: the compilation to read from, the module whose code is generated,
/// and the two accumulators that the templates fill.
#[derive(Debug)]
pub struct TemplateContext<'a> {
    pub compilation: &'a Compilation,
    /// The module whose code is being generated.
    pub module: Identifier,
    /// The runtime capabilities that the generated code asks for.
    pub runtime_requirements: RuntimeGlobals,
    /// The fragments contributed so far, in the order of contribution.
    pub init_fragments: Vec<NormalInitFragment>,
}

/// A template context as contracts speak of it.
pub struct TemplateContextView {
    pub module: Seq<char>,
    pub module_graph: Map<Seq<char>, ModuleRecord>,
    pub runtime_requirements: Set<RuntimeGlobal>,
    pub init_fragments: Seq<InitFragmentView>,
}

impl<'a> View for TemplateContext<'a> {
    type V = TemplateContextView;

    open spec fn view(&self) -> TemplateContextView {
        TemplateContextView {
            module: self.module@,
            module_graph: self.compilation.module_graph@,
            runtime_requirements: self.runtime_requirements@,
            init_fragments: fragment_views(self.init_fragments@),
        }
    }
}

impl<'a> TemplateContext<'a> {
    /// The context in which generation of `module` starts: nothing is
    /// required yet and no fragment has been contributed.
    pub fn new(compilation: &'a Compilation, module: Identifier) -> (context: TemplateContext<'a>)
        ensures
            context@ == (TemplateContextView {
                module: module@,
                module_graph: compilation.module_graph@,
                runtime_requirements: Set::empty(),
                init_fragments: Seq::empty(),
            }),
    {
        let context = TemplateContext {
            compilation,
            module,
            runtime_requirements: RuntimeGlobals::new(),
            init_fragments: Vec::new(),
        };
        proof {
            assert(fragment_views(context.init_fragments@) =~= Seq::<InitFragmentView>::empty());
        }
        context
    }
}

/// A unit of code generation: what one dependency of a module contributes to
/// the module's code. The scheduler runs the templates of a module one after
/// the other on the module's text and context.
pub trait DependencyTemplate {
    /// Whether the template can run on a module's text `parsed` with the
    /// `edits` made so far, in `context`.
    spec fn applies_to(
        &self,
        parsed: Seq<char>,
        edits: Seq<ReplacementView>,
        context: TemplateContextView,
    ) -> bool;

    /// The context after the template has run in `context`.
    spec fn contributes(&self, context: TemplateContextView) -> TemplateContextView;

    /// The edits of the module's text after the template has run in
    /// `context`, where `edits` were made before.
    spec fn edits_after(
        &self,
        parsed: Seq<char>,
        edits: Seq<ReplacementView>,
        context: TemplateContextView,
    ) -> Seq<ReplacementView>;

    /// Runs the template: it may edit the module's text, contribute init
    /// fragments and register runtime requirements.
    fn apply(&self, source: &mut TemplateReplaceSource, context: &mut TemplateContext)
        requires
            self.applies_to(old(source).parsed(), old(source).edits(), old(context)@),
        ensures
            final(context)@ == self.contributes(old(context)@),
            final(source).parsed() == old(source).parsed(),
            final(source).edits() == self.edits_after(
                old(source).parsed(),
                old(source).edits(),
                old(context)@,
            ),
    ;
}

/// The text of a module when all its templates have run: the body with the
/// templates' edits made, between what opens and what closes the fragments
/// that the templates contributed.
pub fn finalize_module(source: &TemplateReplaceSource, context: &TemplateContext) -> (text: String)
    ensures
        text@ == rendered(context@.init_fragments, spliced(source.parsed(), source.edits())),
{
    let body = source.source();
    render_init_fragments(body.as_str(), &context.init_fragments)
}

} // verus!
