//! The types of expressions whose types were inferred.
use crate::ast::{
    group_ast_view, view_definitions, view_definitions_rec, DefinitionV, ExprV, Expression,
    Operator,
};
use crate::error::{view_result, CompileError, ErrorV};
use crate::names::StringMap;
use crate::type_canonicalizer::{canonicalizable, canonicalize, TypeCanonicalizer};
use crate::types::{Type, TypeV};
use vstd::prelude::*;

verus! {

/// The variables in scope after the definitions of a let expression, in order.
pub open spec fn let_variables(variables: Map<Seq<char>, TypeV>, definitions: Seq<DefinitionV>) -> Map<
    Seq<char>,
    TypeV,
>
    decreases definitions.len(),
{
    if definitions.len() == 0 {
        variables
    } else {
        let_variables(variables, definitions.drop_last()).insert(
            definitions.last().name(),
            definitions.last().type_(),
        )
    }
}

/// The type of an expression given the types of the variables in scope:
/// the result type of the function type of an application's function; the
/// canonical union of both branches of an if expression; the type of the body
/// of a let expression with its definitions in scope; the type that a record
/// construction or type coercion names; and the type of literals and
/// operations. `None` for the expressions whose type is not extracted, for an
/// application of a value whose type is not a function type, for an unknown
/// variable, and where canonicalization does not end.
pub open spec fn extract_type(
    env: Map<Seq<char>, TypeV>,
    e: ExprV,
    variables: Map<Seq<char>, TypeV>,
) -> Option<Result<TypeV, ErrorV>>
    decreases e,
{
    match e {
        ExprV::Application { function, .. } => match extract_type(env, *function, variables) {
            Some(Ok(TypeV::Function { result, .. })) => Some(Ok(*result)),
            Some(Err(error)) => Some(Err(error)),
            _ => None,
        },
        ExprV::Boolean { .. } => Some(Ok(TypeV::Boolean)),
        ExprV::If { then, else_, .. } => match extract_type(env, *then, variables) {
            None => None,
            Some(Err(error)) => Some(Err(error)),
            Some(Ok(x)) => match extract_type(env, *else_, variables) {
                None => None,
                Some(Err(error)) => Some(Err(error)),
                Some(Ok(y)) => {
                    let union = TypeV::Union { types: seq![x, y] };
                    if canonicalizable(env, union) {
                        Some(canonicalize(env, union))
                    } else {
                        None
                    }
                },
            },
        },
        ExprV::Let { definitions, expression } => extract_type(
            env,
            *expression,
            let_variables(variables, definitions),
        ),
        ExprV::NoneLiteral => Some(Ok(TypeV::NoneType)),
        ExprV::Number { .. } => Some(Ok(TypeV::Number)),
        ExprV::Operation { operator, .. } => match operator {
            Operator::Add | Operator::Subtract | Operator::Multiply | Operator::Divide => Some(
                Ok(TypeV::Number),
            ),
            Operator::And | Operator::Or => None,
            _ => Some(Ok(TypeV::Boolean)),
        },
        ExprV::RecordConstruction { type_, .. } => Some(Ok(type_)),
        ExprV::TypeCoercion { to, .. } => Some(Ok(to)),
        ExprV::Variable { name } => if variables.contains_key(name) {
            Some(Ok(variables[name]))
        } else {
            None
        },
        _ => None,
    }
}

/// Extracts the types of typed expressions.
pub struct ExpressionTypeExtractor {
    type_canonicalizer: TypeCanonicalizer,
}

impl ExpressionTypeExtractor {
    /// The types that references resolve to.
    pub closed spec fn environment(&self) -> Map<Seq<char>, TypeV> {
        self.type_canonicalizer.environment()
    }

    /// The canonicalizer is well formed.
    pub closed spec fn well_formed(&self) -> bool {
        self.type_canonicalizer.well_formed()
    }

    pub fn new(type_canonicalizer: TypeCanonicalizer) -> (r: Self)
        ensures
            r.environment() == type_canonicalizer.environment(),
            r.well_formed() == type_canonicalizer.well_formed(),
    {
        ExpressionTypeExtractor { type_canonicalizer }
    }

    /// The type of the expression as [`extract_type`] says.
    pub fn extract(&self, expression: &Expression, variables: &StringMap<Type>) -> (r: Result<
        Type,
        CompileError,
    >)
        requires
            self.well_formed(),
            extract_type(self.environment(), expression@, variables@) is Some,
        ensures
            view_result(r) == extract_type(self.environment(), expression@, variables@)->0,
        decreases expression,
    {
        broadcast use group_ast_view;

        match expression {
            Expression::Application { function, .. } => {
                let t = self.extract(function, variables)?;
                match t {
                    Type::Function { result, .. } => Ok(*result),
                    _ => {
                        assert(false);
                        Err(CompileError::TypesNotMatched)
                    },
                }
            },
            Expression::Boolean { .. } => Ok(Type::Boolean),
            Expression::If { then, else_, .. } => {
                let x = self.extract(then, variables)?;
                let y = self.extract(else_, variables)?;
                let ghost (xv, yv) = (x@, y@);
                let mut types: Vec<Type> = Vec::new();
                types.push(x);
                types.push(y);
                assert(crate::types::view_types_rec(types@) == seq![xv, yv]) by {
                    broadcast use crate::types::group_type_view;

                    assert(crate::types::view_types(types@) =~= seq![xv, yv]);
                }
                let union = Type::Union { types };
                self.type_canonicalizer.canonicalize(&union)
            },
            Expression::Let { definitions, expression: body } => {
                assert(view_definitions_rec(definitions@) == view_definitions(definitions@));
                let ghost ds = view_definitions(definitions@);
                let mut scope = variables.deep_clone();
                let mut i: usize = 0;
                while i < definitions.len()
                    invariant
                        i <= definitions@.len(),
                        ds == view_definitions(definitions@),
                        scope@ == let_variables(variables@, ds.take(i as int)),
                    decreases definitions.len() - i,
                {
                    let definition = &definitions[i];
                    scope.insert(definition.name().clone(), definition.type_().deep_clone());
                    assert(ds.take(i + 1).drop_last() =~= ds.take(i as int));
                    i += 1;
                }
                assert(ds.take(i as int) =~= ds);
                self.extract(body, &scope)
            },
            Expression::NoneLiteral => Ok(Type::NoneType),
            Expression::Number { .. } => Ok(Type::Number),
            Expression::Operation { operator, .. } => match operator {
                Operator::Add | Operator::Subtract | Operator::Multiply | Operator::Divide => Ok(
                    Type::Number,
                ),
                _ => Ok(Type::Boolean),
            },
            Expression::RecordConstruction { type_, .. } => Ok(type_.deep_clone()),
            Expression::TypeCoercion { to, .. } => Ok(to.deep_clone()),
            Expression::Variable { name } => match variables.get(name.as_str()) {
                Some(t) => Ok(t.deep_clone()),
                None => {
                    assert(false);
                    Err(CompileError::VariableNotFound { name: name.clone() })
                },
            },
            _ => {
                assert(false);
                Err(CompileError::TypesNotMatched)
            },
        }
    }
}

} // verus!
