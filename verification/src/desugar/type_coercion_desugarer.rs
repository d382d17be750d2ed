//! Explicit coercions of values to union types, before type inference ends.
use crate::ast::{
    all_nodes_definitions, DefinitionV, ExprV, Expression, FunctionDefinition, ValueDefinition,
};
use crate::module::ModuleV;
use crate::error::{CompileError, ErrorV};
use crate::expression_type_extractor::ExpressionTypeExtractor;
use crate::names::StringMap;
use crate::reference_type_resolver::{ReferenceTypeResolver};
use crate::transform::type_coercion_transformer::{
    coerce_definition, coerce_expression_to, coerces_within, coercions_within,
    definition_result_keeps_coercions, expression_result_keeps_coercions,
    lemma_coercions_within, lemma_definition_coercions_within, lemma_typed_module_coercions,
    TypeCoercer,
};
use crate::transform::typed_meta_transformer::{typed_module, TypedTransformer};
use crate::type_equality_checker::TypeEqualityChecker;
use crate::types::{Type, TypeV};
use vstd::prelude::*;

verus! {

/// Coerces values to union types where their types differ: arguments of
/// applications, branches of if expressions, elements of record constructions
/// and bodies of definitions.
pub struct TypeCoercionDesugarer {
    coercer: TypeCoercer,
}

impl TypeCoercionDesugarer {
    pub fn new(
        reference_type_resolver: ReferenceTypeResolver,
        type_equality_checker: TypeEqualityChecker,
        expression_type_extractor: ExpressionTypeExtractor,
    ) -> (r: Self)
        ensures
            r@.0 == reference_type_resolver.environment(),
            r@.1 <==> ({
                let env = reference_type_resolver.environment();
                &&& type_equality_checker.reference_type_resolver.environment() == env
                &&& expression_type_extractor.environment() == env
                &&& expression_type_extractor.well_formed()
            }),
    {
        TypeCoercionDesugarer {
            coercer: TypeCoercer::new(
                reference_type_resolver,
                type_equality_checker,
                expression_type_extractor,
            ),
        }
    }
}

impl View for TypeCoercionDesugarer {
    type V = (Map<Seq<char>, TypeV>, bool);

    closed spec fn view(&self) -> (Map<Seq<char>, TypeV>, bool) {
        (self.coercer.environment(), self.coercer.well_formed())
    }
}

impl TypedTransformer for TypeCoercionDesugarer {
    open spec fn transforms_expression(
        state: (Map<Seq<char>, TypeV>, bool),
        e: ExprV,
        variables: Map<Seq<char>, TypeV>,
    ) -> bool {
        state.1 && coerce_expression_to(state.0, e, variables, false) is Some
    }

    open spec fn transformed_expression(
        state: (Map<Seq<char>, TypeV>, bool),
        e: ExprV,
        variables: Map<Seq<char>, TypeV>,
    ) -> ((Map<Seq<char>, TypeV>, bool), Result<ExprV, ErrorV>) {
        (state, coerce_expression_to(state.0, e, variables, false)->0)
    }

    open spec fn transforms_definition(
        state: (Map<Seq<char>, TypeV>, bool),
        d: DefinitionV,
        variables: Map<Seq<char>, TypeV>,
    ) -> bool {
        state.1 && coerce_definition(state.0, d, variables, false) is Some
    }

    open spec fn transformed_definition(
        state: (Map<Seq<char>, TypeV>, bool),
        d: DefinitionV,
        variables: Map<Seq<char>, TypeV>,
    ) -> ((Map<Seq<char>, TypeV>, bool), Result<DefinitionV, ErrorV>) {
        (state, coerce_definition(state.0, d, variables, false)->0)
    }

    fn transform_function_definition(
        &mut self,
        function_definition: &FunctionDefinition,
        variables: &StringMap<Type>,
    ) -> (r: Result<FunctionDefinition, CompileError>) {
        self.coercer.coerce_function_definition(function_definition, variables, false)
    }

    fn transform_variable_definition(
        &mut self,
        variable_definition: &ValueDefinition,
        variables: &StringMap<Type>,
    ) -> (r: Result<ValueDefinition, CompileError>) {
        self.coercer.coerce_value_definition(variable_definition, variables, false)
    }

    fn transform_expression(&mut self, expression: &Expression, variables: &StringMap<Type>) -> (r:
        Result<Expression, CompileError>) {
        match expression {
            Expression::Application { .. } => self.coercer.coerce_application(
                expression,
                variables,
                false,
            ),
            Expression::If { .. } => self.coercer.coerce_if(expression, variables, false),
            Expression::RecordConstruction { .. } => self.coercer.coerce_record_construction(
                expression,
                variables,
                false,
            ),
            Expression::Boolean { .. } => Ok(expression.deep_clone()),
            Expression::Let { .. } => Ok(expression.deep_clone()),
            Expression::NoneLiteral => Ok(expression.deep_clone()),
            Expression::Number { .. } => Ok(expression.deep_clone()),
            Expression::Operation { .. } => Ok(expression.deep_clone()),
            Expression::Variable { .. } => Ok(expression.deep_clone()),
            _ => {
                assert(false);
                Err(CompileError::TypesNotMatched)
            },
        }
    }
}


/// The type coercion desugarer inserts coercions to union types only: in a
/// module whose coercions all go to unions, every coercion goes to a union
/// afterwards.
pub proof fn lemma_desugarer_coercions_to_unions(
    env: Map<Seq<char>, TypeV>,
    s: (Map<Seq<char>, TypeV>, bool),
    m: ModuleV,
)
    requires
        all_nodes_definitions(m.definitions, |x: ExprV| coerces_within(x, false)),
    ensures
        typed_module::<TypeCoercionDesugarer>(env, s, m) matches Some((_, Ok(r)))
            ==> all_nodes_definitions(r.definitions, |x: ExprV| coerces_within(x, false)),
{
    assert forall|st: (Map<Seq<char>, TypeV>, bool), x: ExprV, variables: Map<Seq<char>, TypeV>|
        coercions_within(x, false) && TypeCoercionDesugarer::transforms_expression(
            st,
            x,
            variables,
        ) implies expression_result_keeps_coercions(
        (#[trigger] TypeCoercionDesugarer::transformed_expression(st, x, variables)).1,
        false,
    ) by {
        lemma_coercions_within(st.0, x, variables, false);
    }
    assert forall|st: (Map<Seq<char>, TypeV>, bool), d: DefinitionV, variables: Map<Seq<char>, TypeV>|
        coercions_within(d.body(), false) && TypeCoercionDesugarer::transforms_definition(
            st,
            d,
            variables,
        ) implies definition_result_keeps_coercions(
        (#[trigger] TypeCoercionDesugarer::transformed_definition(st, d, variables)).1,
        false,
    ) by {
        lemma_definition_coercions_within(st.0, d, variables, false);
    }
    lemma_typed_module_coercions::<TypeCoercionDesugarer>(env, s, m, false);
}

} // verus!
