//! Transformation of not-equal operations into equal operations.
use crate::ast::{all_nodes_definitions, ExprV, Expression};
use crate::convert::{
    children_all, convert_module, convert_module_spec, lemma_convert_module_all_nodes,
    ExpressionConverter,
};
use crate::desugar::not_equal_operation_desugarer::{
    desugar_not_equal_node, desugar_not_equal_operation, lemma_not_equal_node,
    not_not_equal_operation,
};
use crate::error::CompileError;
use crate::module::{Module, ModuleV};
use vstd::prelude::*;

verus! {

/// Transforms not-equal operations into negated equal operations.
pub struct NotEqualOperationTransformer {}

impl View for NotEqualOperationTransformer {
    type V = ();

    open spec fn view(&self) -> () {
        ()
    }
}

impl ExpressionConverter for NotEqualOperationTransformer {
    open spec fn well_formed(&self) -> bool {
        true
    }

    open spec fn converted(state: (), e: ExprV) -> ((), ExprV) {
        ((), desugar_not_equal_operation(e))
    }

    fn convert(&mut self, e: Expression) -> (r: Expression) {
        desugar_not_equal_node(e)
    }
}

impl NotEqualOperationTransformer {
    pub fn new() -> (r: Self) {
        NotEqualOperationTransformer {}
    }

    /// Transforms every not-equal operation in the module's definitions.
    pub fn transform(&self, module: &Module) -> (r: Result<Module, CompileError>)
        ensures
            r matches Ok(m) && m@ == convert_module_spec::<NotEqualOperationTransformer>((), module@).1,
    {
        let mut converter = NotEqualOperationTransformer {};
        Ok(convert_module(&mut converter, module))
    }
}

/// After the transformation, no not-equal operation is left in any definition.
pub proof fn lemma_not_equal_operations_transformed(m: ModuleV)
    ensures
        all_nodes_definitions(
            convert_module_spec::<NotEqualOperationTransformer>((), m).1.definitions,
            |e: ExprV| not_not_equal_operation(e),
        ),
{
    let p = |e: ExprV| not_not_equal_operation(e);
    assert forall|c: (), x: ExprV| children_all(x, p) implies (
    #[trigger] NotEqualOperationTransformer::converted(c, x)).1.all_nodes(p) by {
        lemma_not_equal_node(x);
    }
    lemma_convert_module_all_nodes::<NotEqualOperationTransformer>((), m, p);
}

} // verus!
