//! Desugaring of boolean operators into if expressions.
use crate::ast::{ExprV, Expression, Operator, all_nodes_definitions};
use crate::convert::{
    children_all, convert_module, convert_module_spec, converter_establishes,
    lemma_all_nodes_children, lemma_convert_module_all_nodes, ExpressionConverter,
};
use crate::error::CompileError;
use crate::module::{Module, ModuleV};
use vstd::prelude::*;

verus! {

/// `a && b` becomes `if a then b else false`, and `a || b` becomes
/// `if a then true else b`; other expressions are kept.
pub open spec fn desugar_boolean_operation(e: ExprV) -> ExprV {
    match e {
        ExprV::Operation { operator: Operator::And, lhs, rhs, .. } => ExprV::If {
            condition: lhs,
            then: rhs,
            else_: Box::new(ExprV::Boolean { value: false }),
        },
        ExprV::Operation { operator: Operator::Or, lhs, rhs, .. } => ExprV::If {
            condition: lhs,
            then: Box::new(ExprV::Boolean { value: true }),
            else_: rhs,
        },
        _ => e,
    }
}

/// Whether the expression is not a boolean operation.
pub open spec fn not_boolean_operation(e: ExprV) -> bool {
    !(e matches ExprV::Operation { operator, .. } && (operator == Operator::And || operator
        == Operator::Or))
}

/// Desugars the boolean operations `&&` and `||`.
pub struct BooleanOperationDesugarer {}

impl View for BooleanOperationDesugarer {
    type V = ();

    open spec fn view(&self) -> () {
        ()
    }
}

impl ExpressionConverter for BooleanOperationDesugarer {
    open spec fn well_formed(&self) -> bool {
        true
    }

    open spec fn converted(state: (), e: ExprV) -> ((), ExprV) {
        ((), desugar_boolean_operation(e))
    }

    fn convert(&mut self, e: Expression) -> (r: Expression) {
        match e {
            Expression::Operation { type_, operator, lhs, rhs } => match operator {
                Operator::And => {
                    let f = Expression::Boolean { value: false };
                    assert(f@ == ExprV::Boolean { value: false });
                    Expression::If { condition: lhs, then: rhs, else_: Box::new(f) }
                },
                Operator::Or => {
                    let t = Expression::Boolean { value: true };
                    assert(t@ == ExprV::Boolean { value: true });
                    Expression::If { condition: lhs, then: Box::new(t), else_: rhs }
                },
                _ => Expression::Operation { type_, operator, lhs, rhs },
            },
            _ => e,
        }
    }
}

impl BooleanOperationDesugarer {
    pub fn new() -> (r: Self) {
        BooleanOperationDesugarer {}
    }

    /// Desugars every boolean operation in the module's definitions.
    pub fn desugar(&mut self, module: &Module) -> (r: Result<Module, CompileError>)
        ensures
            r matches Ok(m) && m@ == convert_module_spec::<BooleanOperationDesugarer>((), module@).1,
    {
        Ok(convert_module(self, module))
    }
}

/// After desugaring, no boolean operation is left in any definition.
pub proof fn lemma_boolean_operations_desugared(m: ModuleV)
    ensures
        all_nodes_definitions(
            convert_module_spec::<BooleanOperationDesugarer>((), m).1.definitions,
            |e: ExprV| not_boolean_operation(e),
        ),
{
    let p = |e: ExprV| not_boolean_operation(e);
    assert forall|c: (), x: ExprV| children_all(x, p) implies (
    #[trigger] BooleanOperationDesugarer::converted(c, x)).1.all_nodes(p) by {
        lemma_all_nodes_children(x, p);
        assert(ExprV::Boolean { value: false }.all_nodes(p));
        assert(ExprV::Boolean { value: true }.all_nodes(p));
    }
    assert(converter_establishes::<BooleanOperationDesugarer>(p));
    lemma_convert_module_all_nodes::<BooleanOperationDesugarer>((), m, p);
}

} // verus!
