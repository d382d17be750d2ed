//! Desugaring of not-equal operations into equal operations.
use crate::ast::{all_nodes_definitions, ExprV, Expression, Operator};
use crate::convert::{
    children_all, convert_module, convert_module_spec, converter_establishes,
    lemma_all_nodes_children, lemma_convert_module_all_nodes, ExpressionConverter,
};
use crate::error::CompileError;
use crate::module::{Module, ModuleV};
use vstd::prelude::*;

verus! {

/// `a != b` becomes `if a == b then false else true`, with the operation's
/// type kept; other expressions are kept.
pub open spec fn desugar_not_equal_operation(e: ExprV) -> ExprV {
    match e {
        ExprV::Operation { type_, operator: Operator::NotEqual, lhs, rhs } => ExprV::If {
            condition: Box::new(ExprV::Operation { type_, operator: Operator::Equal, lhs, rhs }),
            then: Box::new(ExprV::Boolean { value: false }),
            else_: Box::new(ExprV::Boolean { value: true }),
        },
        _ => e,
    }
}

/// Whether the expression is not a not-equal operation.
pub open spec fn not_not_equal_operation(e: ExprV) -> bool {
    !(e matches ExprV::Operation { operator, .. } && operator == Operator::NotEqual)
}

/// Rewrites one node as [`desugar_not_equal_operation`] says.
pub fn desugar_not_equal_node(e: Expression) -> (r: Expression)
    ensures
        r@ == desugar_not_equal_operation(e@),
{
    match e {
        Expression::Operation { type_, operator, lhs, rhs } => match operator {
            Operator::NotEqual => {
                let f = Expression::Boolean { value: false };
                let t = Expression::Boolean { value: true };
                assert(f@ == ExprV::Boolean { value: false });
                assert(t@ == ExprV::Boolean { value: true });
                let ghost (tv, lv, rv) = (type_@, lhs@, rhs@);
                let c = Expression::Operation { type_, operator: Operator::Equal, lhs, rhs };
                assert(c@ == ExprV::Operation {
                    type_: tv,
                    operator: Operator::Equal,
                    lhs: Box::new(lv),
                    rhs: Box::new(rv),
                });
                Expression::If { condition: Box::new(c), then: Box::new(f), else_: Box::new(t) }
            },
            _ => Expression::Operation { type_, operator, lhs, rhs },
        },
        _ => e,
    }
}

/// Desugars not-equal operations.
pub struct NotEqualOperationDesugarer {}

impl View for NotEqualOperationDesugarer {
    type V = ();

    open spec fn view(&self) -> () {
        ()
    }
}

impl ExpressionConverter for NotEqualOperationDesugarer {
    open spec fn well_formed(&self) -> bool {
        true
    }

    open spec fn converted(state: (), e: ExprV) -> ((), ExprV) {
        ((), desugar_not_equal_operation(e))
    }

    fn convert(&mut self, e: Expression) -> (r: Expression) {
        desugar_not_equal_node(e)
    }
}

impl NotEqualOperationDesugarer {
    pub fn new() -> (r: Self) {
        NotEqualOperationDesugarer {}
    }

    /// Desugars every not-equal operation in the module's definitions.
    pub fn desugar(&mut self, module: &Module) -> (r: Result<Module, CompileError>)
        ensures
            r matches Ok(m) && m@ == convert_module_spec::<NotEqualOperationDesugarer>((), module@).1,
    {
        Ok(convert_module(self, module))
    }
}

/// Converting a node as [`desugar_not_equal_operation`] says leaves no
/// not-equal operation where none was inside the node.
pub proof fn lemma_not_equal_node(x: ExprV)
    ensures
        children_all(x, |e: ExprV| not_not_equal_operation(e)) ==> desugar_not_equal_operation(
            x,
        ).all_nodes(|e: ExprV| not_not_equal_operation(e)),
{
    let p = |e: ExprV| not_not_equal_operation(e);
    lemma_all_nodes_children(x, p);
    assert(ExprV::Boolean { value: false }.all_nodes(p));
    assert(ExprV::Boolean { value: true }.all_nodes(p));
    if let ExprV::Operation { type_, operator: Operator::NotEqual, lhs, rhs } = x {
        if children_all(x, p) {
            assert(ExprV::Operation { type_, operator: Operator::Equal, lhs, rhs }.all_nodes(p));
        }
    }
}

/// After desugaring, no not-equal operation is left in any definition.
pub proof fn lemma_not_equal_operations_desugared(m: ModuleV)
    ensures
        all_nodes_definitions(
            convert_module_spec::<NotEqualOperationDesugarer>((), m).1.definitions,
            |e: ExprV| not_not_equal_operation(e),
        ),
{
    let p = |e: ExprV| not_not_equal_operation(e);
    assert forall|c: (), x: ExprV| children_all(x, p) implies (
    #[trigger] NotEqualOperationDesugarer::converted(c, x)).1.all_nodes(p) by {
        lemma_not_equal_node(x);
    }
    lemma_convert_module_all_nodes::<NotEqualOperationDesugarer>((), m, p);
}

} // verus!
