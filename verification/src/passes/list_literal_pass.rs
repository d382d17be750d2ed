//! The pass that turns list literals into applications of list functions.
use crate::ast::{
    all_nodes_definitions, view_list_elements, view_list_elements_rec, ExprV, Expression,
};
use crate::configuration::{ListLiteralConfiguration, ListLiteralNames};
use crate::convert::{
    lemma_convert_module_keeps_state,
    children_all, convert_module, convert_module_spec, lemma_convert_module_all_nodes,
    ExpressionConverter,
};
use crate::desugar::list_literal_desugarer::{
    desugar_list, desugar_list_elements, lemma_list_node, not_list_literal,
};
use crate::error::{CompileError, ErrorV};
use crate::module::{Module, ModuleV};
use crate::pass::Pass;
use vstd::prelude::*;

verus! {

/// Compiles list literals into applications of the configured list functions.
pub struct ListLiteralPass {
    configuration: ListLiteralConfiguration,
}

impl View for ListLiteralPass {
    type V = ListLiteralNames;

    closed spec fn view(&self) -> ListLiteralNames {
        self.configuration@
    }
}

impl ExpressionConverter for ListLiteralPass {
    open spec fn well_formed(&self) -> bool {
        true
    }

    open spec fn converted(state: ListLiteralNames, e: ExprV) -> (ListLiteralNames, ExprV) {
        match e {
            ExprV::List { elements } => (
                state,
                desugar_list(
                    state.empty_list_variable_name,
                    state.concatenate_function_name,
                    state.prepend_function_name,
                    elements,
                ),
            ),
            _ => (state, e),
        }
    }

    fn convert(&mut self, e: Expression) -> (r: Expression) {
        broadcast use crate::ast::group_ast_view;

        match e {
            Expression::List { elements } => {
                assert(view_list_elements_rec(elements@) == view_list_elements(elements@));
                desugar_list_elements(
                    self.configuration.empty_list_variable_name(),
                    self.configuration.concatenate_function_name(),
                    self.configuration.prepend_function_name(),
                    elements,
                )
            },
            _ => e,
        }
    }
}

impl ListLiteralPass {
    pub fn new(configuration: ListLiteralConfiguration) -> (r: Self)
        ensures
            r@ == configuration@,
    {
        ListLiteralPass { configuration }
    }

    /// Compiles every list literal in the module's definitions.
    pub fn compile(&mut self, module: &Module) -> (r: Result<Module, CompileError>)
        ensures
            final(self)@ == old(self)@,
            r matches Ok(m) && m@ == convert_module_spec::<ListLiteralPass>(old(self)@, module@).1,
    {
        proof {
            lemma_convert_module_keeps_state::<ListLiteralPass>(self@, module@);
        }
        Ok(convert_module(self, module))
    }
}

/// After the pass, no list literal is left in any definition.
pub proof fn lemma_list_literals_compiled(names: ListLiteralNames, m: ModuleV)
    ensures
        all_nodes_definitions(
            convert_module_spec::<ListLiteralPass>(names, m).1.definitions,
            |e: ExprV| not_list_literal(e),
        ),
{
    let p = |e: ExprV| not_list_literal(e);
    assert forall|c: ListLiteralNames, x: ExprV| children_all(x, p) implies (
    #[trigger] ListLiteralPass::converted(c, x)).1.all_nodes(p) by {
        lemma_list_node(c, x);
    }
    lemma_convert_module_all_nodes::<ListLiteralPass>(names, m, p);
}

impl Pass for ListLiteralPass {
    open spec fn handles(&self, module: ModuleV) -> bool {
        true
    }

    open spec fn compiled(&self, module: ModuleV) -> Result<ModuleV, ErrorV> {
        Ok(convert_module_spec::<ListLiteralPass>(self@, module).1)
    }

    open spec fn leaves(&self, module: ModuleV, after: Self) -> bool {
        after@ == self@
    }

    fn compile(&mut self, module: &Module) -> (r: Result<Module, CompileError>) {
        ListLiteralPass::compile(self, module)
    }
}

} // verus!
