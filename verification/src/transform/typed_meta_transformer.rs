//! A traversal of modules that knows the types of the variables in scope and
//! hands every expression and definition, after its inner expressions, to a
//! component transformer.
use crate::ast::{
    all_nodes_alternatives, all_nodes_definitions, all_nodes_list_elements,
    all_nodes_record_elements, clone_strings, group_ast_view, view_alternatives, view_alternatives_rec, view_definitions,
    view_definitions_rec, view_list_elements, view_list_elements_rec, view_record_elements,
    view_record_elements_rec, view_strings, Alternative, AlternativeV, Definition, DefinitionV,
    ExprV, Expression, FunctionDefinition, ListElement, ListElementV, ValueDefinition,
};
use crate::error::{view_result, CompileError, ErrorV};
use crate::module::{
    clone_builtin_interfaces, clone_imports, clone_type_definitions, Export, Module, ModuleV,
};
use crate::module_environment_creator::{module_variables, ModuleEnvironmentCreator};
use crate::names::StringMap;
use crate::reference_type_resolver::{resolve, ReferenceTypeResolver};
use crate::types::{view_types, Type, TypeV};
use vstd::prelude::*;

verus! {

/// The model of a result that holds a function definition.
pub open spec fn view_function_result(r: Result<FunctionDefinition, CompileError>) -> Result<
    DefinitionV,
    ErrorV,
> {
    match r {
        Ok(d) => Ok(Definition::FunctionDefinition(d)@),
        Err(e) => Err(e@),
    }
}

/// The model of a result that holds a value definition.
pub open spec fn view_value_result(r: Result<ValueDefinition, CompileError>) -> Result<
    DefinitionV,
    ErrorV,
> {
    match r {
        Ok(d) => Ok(Definition::ValueDefinition(d)@),
        Err(e) => Err(e@),
    }
}

/// A transformation of single expressions and definitions that knows the
/// types of the variables in scope.
pub trait TypedTransformer: View + Sized {
    /// Whether the transformer handles the expression.
    spec fn transforms_expression(
        state: Self::V,
        e: ExprV,
        variables: Map<Seq<char>, TypeV>,
    ) -> bool;

    /// The state after transforming the expression, and the result.
    spec fn transformed_expression(
        state: Self::V,
        e: ExprV,
        variables: Map<Seq<char>, TypeV>,
    ) -> (Self::V, Result<ExprV, ErrorV>);

    /// Whether the transformer handles the definition.
    spec fn transforms_definition(
        state: Self::V,
        d: DefinitionV,
        variables: Map<Seq<char>, TypeV>,
    ) -> bool;

    /// The state after transforming the definition, and the result.
    spec fn transformed_definition(
        state: Self::V,
        d: DefinitionV,
        variables: Map<Seq<char>, TypeV>,
    ) -> (Self::V, Result<DefinitionV, ErrorV>);

    fn transform_function_definition(
        &mut self,
        function_definition: &FunctionDefinition,
        variables: &StringMap<Type>,
    ) -> (r: Result<FunctionDefinition, CompileError>)
        requires
            Self::transforms_definition(
                old(self)@,
                Definition::FunctionDefinition(*function_definition)@,
                variables@,
            ),
        ensures
            (final(self)@, view_function_result(r)) == Self::transformed_definition(
                old(self)@,
                Definition::FunctionDefinition(*function_definition)@,
                variables@,
            ),
    ;

    fn transform_variable_definition(
        &mut self,
        variable_definition: &ValueDefinition,
        variables: &StringMap<Type>,
    ) -> (r: Result<ValueDefinition, CompileError>)
        requires
            Self::transforms_definition(
                old(self)@,
                Definition::ValueDefinition(*variable_definition)@,
                variables@,
            ),
        ensures
            (final(self)@, view_value_result(r)) == Self::transformed_definition(
                old(self)@,
                Definition::ValueDefinition(*variable_definition)@,
                variables@,
            ),
    ;

    fn transform_expression(&mut self, expression: &Expression, variables: &StringMap<Type>) -> (r:
        Result<Expression, CompileError>)
        requires
            Self::transforms_expression(old(self)@, expression@, variables@),
        ensures
            (final(self)@, view_result(r)) == Self::transformed_expression(
                old(self)@,
                expression@,
                variables@,
            ),
    ;
}

/// The variables in scope with the first `n` names bound to the first `n`
/// types.
pub open spec fn insert_zip(
    variables: Map<Seq<char>, TypeV>,
    names: Seq<Seq<char>>,
    types: Seq<TypeV>,
    n: nat,
) -> Map<Seq<char>, TypeV>
    decreases n,
{
    if n == 0 {
        variables
    } else {
        insert_zip(variables, names, types, (n - 1) as nat).insert(
            names[n - 1],
            types[n - 1],
        )
    }
}

/// The variables in scope with the arguments of a function bound to the
/// argument types of its function type, as far as both go.
pub open spec fn argument_variables(
    variables: Map<Seq<char>, TypeV>,
    arguments: Seq<Seq<char>>,
    function_type: TypeV,
) -> Map<Seq<char>, TypeV> {
    let types = function_type.arguments();
    insert_zip(
        variables,
        arguments,
        types,
        if arguments.len() <= types.len() {
            arguments.len()
        } else {
            types.len()
        },
    )
}

/// The variables in scope with the names of the function definitions bound to
/// their types.
pub open spec fn function_variables(
    variables: Map<Seq<char>, TypeV>,
    definitions: Seq<DefinitionV>,
) -> Map<Seq<char>, TypeV>
    decreases definitions.len(),
{
    if definitions.len() == 0 {
        variables
    } else {
        let rest = function_variables(variables, definitions.drop_last());
        if definitions.last() is Function {
            rest.insert(definitions.last().name(), definitions.last().type_())
        } else {
            rest
        }
    }
}

/// The component's answer for an expression whose inner expressions were
/// transformed.
pub open spec fn then_component<D: TypedTransformer>(
    inner: Option<(D::V, Result<ExprV, ErrorV>)>,
    variables: Map<Seq<char>, TypeV>,
) -> Option<(D::V, Result<ExprV, ErrorV>)> {
    match inner {
        None => None,
        Some((s, Err(e))) => Some((s, Err(e))),
        Some((s, Ok(node))) => if D::transforms_expression(s, node, variables) {
            Some(D::transformed_expression(s, node, variables))
        } else {
            None
        },
    }
}

/// The transformation of an expression: its inner expressions with the
/// variables in scope there, then the expression itself by the component.
/// The non-empty alternative of a list case sees its first name bound to the
/// element type of the resolved list type and its rest name to the list type.
/// `None` where the component does not handle an expression, for record
/// updates, type coercions and record element operators, which earlier passes
/// remove, for functions whose types do not resolve to function types and for
/// list cases whose types do not resolve to list types.
pub open spec fn typed_expression<D: TypedTransformer>(
    env: Map<Seq<char>, TypeV>,
    s: D::V,
    e: ExprV,
    variables: Map<Seq<char>, TypeV>,
) -> Option<(D::V, Result<ExprV, ErrorV>)>
    decreases e, 2nat,
{
    then_component::<D>(typed_inner::<D>(env, s, e, variables), variables)
}

/// The expression with its inner expressions transformed.
pub open spec fn typed_inner<D: TypedTransformer>(
    env: Map<Seq<char>, TypeV>,
    s: D::V,
    e: ExprV,
    variables: Map<Seq<char>, TypeV>,
) -> Option<(D::V, Result<ExprV, ErrorV>)>
    decreases e, 1nat,
{
    match e {
        ExprV::Application { function, argument } => match typed_expression::<D>(
            env,
            s,
            *function,
            variables,
        ) {
            None => None,
            Some((s1, Err(x))) => Some((s1, Err(x))),
            Some((s1, Ok(f))) => match typed_expression::<D>(env, s1, *argument, variables) {
                None => None,
                Some((s2, Err(x))) => Some((s2, Err(x))),
                Some((s2, Ok(a))) => Some(
                    (
                        s2,
                        Ok(ExprV::Application { function: Box::new(f), argument: Box::new(a) }),
                    ),
                ),
            },
        },
        ExprV::Case { type_, name, argument, alternatives } => match typed_expression::<D>(
            env,
            s,
            *argument,
            variables,
        ) {
            None => None,
            Some((s1, Err(x))) => Some((s1, Err(x))),
            Some((s1, Ok(a))) => match typed_alternatives::<D>(
                env,
                s1,
                name,
                alternatives,
                variables,
            ) {
                None => None,
                Some((s2, Err(x))) => Some((s2, Err(x))),
                Some((s2, Ok(alts))) => Some(
                    (
                        s2,
                        Ok(
                            ExprV::Case {
                                type_,
                                name,
                                argument: Box::new(a),
                                alternatives: alts,
                            },
                        ),
                    ),
                ),
            },
        },
        ExprV::If { condition, then, else_ } => match typed_expression::<D>(
            env,
            s,
            *condition,
            variables,
        ) {
            None => None,
            Some((s1, Err(x))) => Some((s1, Err(x))),
            Some((s1, Ok(c))) => match typed_expression::<D>(env, s1, *then, variables) {
                None => None,
                Some((s2, Err(x))) => Some((s2, Err(x))),
                Some((s2, Ok(t))) => match typed_expression::<D>(env, s2, *else_, variables) {
                    None => None,
                    Some((s3, Err(x))) => Some((s3, Err(x))),
                    Some((s3, Ok(z))) => Some(
                        (
                            s3,
                            Ok(
                                ExprV::If {
                                    condition: Box::new(c),
                                    then: Box::new(t),
                                    else_: Box::new(z),
                                },
                            ),
                        ),
                    ),
                },
            },
        },
        ExprV::Let { definitions, expression } => match typed_let_definitions::<D>(
            env,
            s,
            definitions,
            function_variables(variables, definitions),
        ) {
            None => None,
            Some((s1, Err(x))) => Some((s1, Err(x))),
            Some((s1, Ok((ds, scope)))) => match typed_expression::<D>(
                env,
                s1,
                *expression,
                scope,
            ) {
                None => None,
                Some((s2, Err(x))) => Some((s2, Err(x))),
                Some((s2, Ok(body))) => Some(
                    (s2, Ok(ExprV::Let { definitions: ds, expression: Box::new(body) })),
                ),
            },
        },
        ExprV::ListCase {
            argument,
            type_,
            first_name,
            rest_name,
            empty_alternative,
            non_empty_alternative,
        } => match typed_expression::<D>(env, s, *argument, variables) {
            None => None,
            Some((s1, Err(x))) => Some((s1, Err(x))),
            Some((s1, Ok(a))) => match typed_expression::<D>(env, s1, *empty_alternative, variables) {
                None => None,
                Some((s2, Err(x))) => Some((s2, Err(x))),
                Some((s2, Ok(y))) => match resolve(env, type_) {
                    Err(x) => Some((s2, Err(x))),
                    Ok(TypeV::List { element }) => match typed_expression::<D>(
                        env,
                        s2,
                        *non_empty_alternative,
                        variables.insert(first_name, *element).insert(rest_name, type_),
                    ) {
                        None => None,
                        Some((s3, Err(x))) => Some((s3, Err(x))),
                        Some((s3, Ok(z))) => Some(
                            (
                                s3,
                                Ok(
                                    ExprV::ListCase {
                                        argument: Box::new(a),
                                        type_,
                                        first_name,
                                        rest_name,
                                        empty_alternative: Box::new(y),
                                        non_empty_alternative: Box::new(z),
                                    },
                                ),
                            ),
                        ),
                    },
                    Ok(_) => None,
                },
            },
        },
        ExprV::List { elements } => match typed_list_elements::<D>(env, s, elements, variables) {
            None => None,
            Some((s1, Err(x))) => Some((s1, Err(x))),
            Some((s1, Ok(es))) => Some((s1, Ok(ExprV::List { elements: es }))),
        },
        ExprV::Operation { type_, operator, lhs, rhs } => match typed_expression::<D>(
            env,
            s,
            *lhs,
            variables,
        ) {
            None => None,
            Some((s1, Err(x))) => Some((s1, Err(x))),
            Some((s1, Ok(l))) => match typed_expression::<D>(env, s1, *rhs, variables) {
                None => None,
                Some((s2, Err(x))) => Some((s2, Err(x))),
                Some((s2, Ok(r))) => Some(
                    (
                        s2,
                        Ok(
                            ExprV::Operation {
                                type_,
                                operator,
                                lhs: Box::new(l),
                                rhs: Box::new(r),
                            },
                        ),
                    ),
                ),
            },
        },
        ExprV::RecordConstruction { type_, elements } => match typed_record_elements::<D>(
            env,
            s,
            elements,
            variables,
        ) {
            None => None,
            Some((s1, Err(x))) => Some((s1, Err(x))),
            Some((s1, Ok(es))) => Some(
                (s1, Ok(ExprV::RecordConstruction { type_, elements: es })),
            ),
        },
        ExprV::RecordElementOperation { type_, key, argument } => match typed_expression::<D>(
            env,
            s,
            *argument,
            variables,
        ) {
            None => None,
            Some((s1, Err(x))) => Some((s1, Err(x))),
            Some((s1, Ok(a))) => Some(
                (s1, Ok(ExprV::RecordElementOperation { type_, key, argument: Box::new(a) })),
            ),
        },
        ExprV::Boolean { .. } => Some((s, Ok(e))),
        ExprV::NoneLiteral => Some((s, Ok(e))),
        ExprV::Number { .. } => Some((s, Ok(e))),
        ExprV::String { .. } => Some((s, Ok(e))),
        ExprV::Variable { .. } => Some((s, Ok(e))),
        _ => None,
    }
}

pub open spec fn typed_alternatives<D: TypedTransformer>(
    env: Map<Seq<char>, TypeV>,
    s: D::V,
    name: Seq<char>,
    alternatives: Seq<AlternativeV>,
    variables: Map<Seq<char>, TypeV>,
) -> Option<(D::V, Result<Seq<AlternativeV>, ErrorV>)>
    decreases alternatives,
{
    if alternatives.len() == 0 {
        Some((s, Ok(Seq::empty())))
    } else {
        match typed_alternatives::<D>(env, s, name, alternatives.drop_last(), variables) {
            None => None,
            Some((s1, Err(x))) => Some((s1, Err(x))),
            Some((s1, Ok(previous))) => {
                let last = alternatives.last();
                match typed_expression::<D>(
                    env,
                    s1,
                    last.expression,
                    variables.insert(name, last.type_),
                ) {
                    None => None,
                    Some((s2, Err(x))) => Some((s2, Err(x))),
                    Some((s2, Ok(x))) => Some(
                        (s2, Ok(previous.push(AlternativeV { type_: last.type_, expression: x }))),
                    ),
                }
            },
        }
    }
}

/// The definitions of a let expression in order, each with the variables in
/// scope at it; a value definition brings its name into scope for the
/// definitions after it and the body. Gives the transformed definitions and
/// the variables in scope for the body.
pub open spec fn typed_let_definitions<D: TypedTransformer>(
    env: Map<Seq<char>, TypeV>,
    s: D::V,
    definitions: Seq<DefinitionV>,
    variables: Map<Seq<char>, TypeV>,
) -> Option<(D::V, Result<(Seq<DefinitionV>, Map<Seq<char>, TypeV>), ErrorV>)>
    decreases definitions,
{
    if definitions.len() == 0 {
        Some((s, Ok((Seq::empty(), variables))))
    } else {
        match typed_let_definitions::<D>(env, s, definitions.drop_last(), variables) {
            None => None,
            Some((s1, Err(x))) => Some((s1, Err(x))),
            Some((s1, Ok((previous, scope)))) => {
                let last = definitions.last();
                match typed_definition::<D>(env, s1, last, scope) {
                    None => None,
                    Some((s2, Err(x))) => Some((s2, Err(x))),
                    Some((s2, Ok(d))) => Some(
                        (
                            s2,
                            Ok(
                                (
                                    previous.push(d),
                                    if last is Value {
                                        scope.insert(last.name(), last.type_())
                                    } else {
                                        scope
                                    },
                                ),
                            ),
                        ),
                    ),
                }
            },
        }
    }
}

/// The transformation of a definition: a function's body with its arguments
/// in scope, bound to the argument types of its resolved function type; a
/// value's body with the variables in scope; then the definition itself by the
/// component.
pub open spec fn typed_definition<D: TypedTransformer>(
    env: Map<Seq<char>, TypeV>,
    s: D::V,
    d: DefinitionV,
    variables: Map<Seq<char>, TypeV>,
) -> Option<(D::V, Result<DefinitionV, ErrorV>)>
    decreases d,
{
    match d {
        DefinitionV::Function { name, arguments, body, type_ } => match resolve(env, type_) {
            Err(x) => Some((s, Err(x))),
            Ok(function_type) => if !(function_type is Function) {
                None
            } else {
                let scope = argument_variables(variables, arguments, function_type);
                match typed_expression::<D>(env, s, body, scope) {
                    None => None,
                    Some((s1, Err(x))) => Some((s1, Err(x))),
                    Some((s1, Ok(b))) => {
                        let transformed = DefinitionV::Function { name, arguments, body: b, type_ };
                        if D::transforms_definition(s1, transformed, scope) {
                            Some(D::transformed_definition(s1, transformed, scope))
                        } else {
                            None
                        }
                    },
                }
            },
        },
        DefinitionV::Value { name, body, type_ } => match typed_expression::<D>(
            env,
            s,
            body,
            variables,
        ) {
            None => None,
            Some((s1, Err(x))) => Some((s1, Err(x))),
            Some((s1, Ok(b))) => {
                let transformed = DefinitionV::Value { name, body: b, type_ };
                if D::transforms_definition(s1, transformed, variables) {
                    Some(D::transformed_definition(s1, transformed, variables))
                } else {
                    None
                }
            },
        },
    }
}

pub open spec fn typed_list_elements<D: TypedTransformer>(
    env: Map<Seq<char>, TypeV>,
    s: D::V,
    elements: Seq<ListElementV>,
    variables: Map<Seq<char>, TypeV>,
) -> Option<(D::V, Result<Seq<ListElementV>, ErrorV>)>
    decreases elements,
{
    if elements.len() == 0 {
        Some((s, Ok(Seq::empty())))
    } else {
        match typed_list_elements::<D>(env, s, elements.drop_last(), variables) {
            None => None,
            Some((s1, Err(x))) => Some((s1, Err(x))),
            Some((s1, Ok(previous))) => match elements.last() {
                ListElementV::Multiple(e) => match typed_expression::<D>(env, s1, e, variables) {
                    None => None,
                    Some((s2, Err(x))) => Some((s2, Err(x))),
                    Some((s2, Ok(x))) => Some((s2, Ok(previous.push(ListElementV::Multiple(x))))),
                },
                ListElementV::Single(e) => match typed_expression::<D>(env, s1, e, variables) {
                    None => None,
                    Some((s2, Err(x))) => Some((s2, Err(x))),
                    Some((s2, Ok(x))) => Some((s2, Ok(previous.push(ListElementV::Single(x))))),
                },
            },
        }
    }
}

pub open spec fn typed_record_elements<D: TypedTransformer>(
    env: Map<Seq<char>, TypeV>,
    s: D::V,
    elements: Seq<(Seq<char>, ExprV)>,
    variables: Map<Seq<char>, TypeV>,
) -> Option<(D::V, Result<Seq<(Seq<char>, ExprV)>, ErrorV>)>
    decreases elements,
{
    if elements.len() == 0 {
        Some((s, Ok(Seq::empty())))
    } else {
        match typed_record_elements::<D>(env, s, elements.drop_last(), variables) {
            None => None,
            Some((s1, Err(x))) => Some((s1, Err(x))),
            Some((s1, Ok(previous))) => match typed_expression::<D>(
                env,
                s1,
                elements.last().1,
                variables,
            ) {
                None => None,
                Some((s2, Err(x))) => Some((s2, Err(x))),
                Some((s2, Ok(x))) => Some((s2, Ok(previous.push((elements.last().0, x))))),
            },
        }
    }
}

/// The definitions of a module in order, each with the module's variables in
/// scope.
pub open spec fn typed_module_definitions<D: TypedTransformer>(
    env: Map<Seq<char>, TypeV>,
    s: D::V,
    definitions: Seq<DefinitionV>,
    variables: Map<Seq<char>, TypeV>,
) -> Option<(D::V, Result<Seq<DefinitionV>, ErrorV>)>
    decreases definitions.len(),
{
    if definitions.len() == 0 {
        Some((s, Ok(Seq::empty())))
    } else {
        match typed_module_definitions::<D>(env, s, definitions.drop_last(), variables) {
            None => None,
            Some((s1, Err(x))) => Some((s1, Err(x))),
            Some((s1, Ok(previous))) => match typed_definition::<D>(
                env,
                s1,
                definitions.last(),
                variables,
            ) {
                None => None,
                Some((s2, Err(x))) => Some((s2, Err(x))),
                Some((s2, Ok(d))) => Some((s2, Ok(previous.push(d)))),
            },
        }
    }
}

/// The transformation of a module: its definitions with the module's
/// variables in scope; everything else is kept.
pub open spec fn typed_module<D: TypedTransformer>(
    env: Map<Seq<char>, TypeV>,
    s: D::V,
    m: ModuleV,
) -> Option<(D::V, Result<ModuleV, ErrorV>)> {
    match typed_module_definitions::<D>(env, s, m.definitions, module_variables(m)) {
        None => None,
        Some((s1, Err(x))) => Some((s1, Err(x))),
        Some((s1, Ok(ds))) => Some((s1, Ok(ModuleV { definitions: ds, ..m }))),
    }
}

/// Whether a definition's body has the predicate at every node.
pub open spec fn definition_all_nodes(d: DefinitionV, p: spec_fn(ExprV) -> bool) -> bool {
    match d {
        DefinitionV::Function { body, .. } => body.all_nodes(p),
        DefinitionV::Value { body, .. } => body.all_nodes(p),
    }
}

/// Whether the component keeps, with its state, each expression that has the
/// predicate and each definition whose body has it at every node: the
/// expressions and definitions in which it has nothing to transform.
pub open spec fn component_keeps<D: TypedTransformer>(p: spec_fn(ExprV) -> bool) -> bool {
    &&& forall|s: D::V, e: ExprV, v: Map<Seq<char>, TypeV>|
        p(e) && D::transforms_expression(s, e, v) ==> #[trigger] D::transformed_expression(s, e, v)
            == (s, Ok::<ExprV, ErrorV>(e))
    &&& forall|s: D::V, d: DefinitionV, v: Map<Seq<char>, TypeV>|
        definition_all_nodes(d, p) && D::transforms_definition(s, d, v)
            ==> #[trigger] D::transformed_definition(s, d, v) == (s, Ok::<DefinitionV, ErrorV>(d))
}

/// Whether a transformation that ended kept the state and, where it went
/// through, gave back the given value.
pub open spec fn keeps_result<S, T>(r: Option<(S, Result<T, ErrorV>)>, s: S, x: T) -> bool {
    match r {
        None => true,
        Some((s1, Err(_))) => s1 == s,
        Some((s1, Ok(y))) => s1 == s && y == x,
    }
}

/// Whether a transformation of let definitions that ended kept the state and,
/// where it went through, gave back the given definitions.
pub open spec fn keeps_let_result<S>(
    r: Option<(S, Result<(Seq<DefinitionV>, Map<Seq<char>, TypeV>), ErrorV>)>,
    s: S,
    ds: Seq<DefinitionV>,
) -> bool {
    match r {
        None => true,
        Some((s1, Err(_))) => s1 == s,
        Some((s1, Ok((y, _)))) => s1 == s && y == ds,
    }
}

pub proof fn lemma_typed_expression_keeps<D: TypedTransformer>(
    env: Map<Seq<char>, TypeV>,
    s: D::V,
    e: ExprV,
    v: Map<Seq<char>, TypeV>,
    p: spec_fn(ExprV) -> bool,
)
    requires
        component_keeps::<D>(p),
        e.all_nodes(p),
    ensures
        keeps_result(typed_expression::<D>(env, s, e, v), s, e),
    decreases e, 2nat,
{
    lemma_typed_inner_keeps::<D>(env, s, e, v, p);
}

pub proof fn lemma_typed_inner_keeps<D: TypedTransformer>(
    env: Map<Seq<char>, TypeV>,
    s: D::V,
    e: ExprV,
    v: Map<Seq<char>, TypeV>,
    p: spec_fn(ExprV) -> bool,
)
    requires
        component_keeps::<D>(p),
        e.all_nodes(p),
    ensures
        keeps_result(typed_inner::<D>(env, s, e, v), s, e),
    decreases e, 1nat,
{
    match e {
        ExprV::Application { function, argument } => {
            lemma_typed_expression_keeps::<D>(env, s, *function, v, p);
            lemma_typed_expression_keeps::<D>(env, s, *argument, v, p);
        },
        ExprV::Case { name, argument, alternatives, .. } => {
            lemma_typed_expression_keeps::<D>(env, s, *argument, v, p);
            lemma_typed_alternatives_keep::<D>(env, s, name, alternatives, v, p);
        },
        ExprV::If { condition, then, else_ } => {
            lemma_typed_expression_keeps::<D>(env, s, *condition, v, p);
            lemma_typed_expression_keeps::<D>(env, s, *then, v, p);
            lemma_typed_expression_keeps::<D>(env, s, *else_, v, p);
        },
        ExprV::Let { definitions, expression } => {
            lemma_typed_let_definitions_keep::<D>(
                env,
                s,
                definitions,
                function_variables(v, definitions),
                p,
            );
            match typed_let_definitions::<D>(env, s, definitions, function_variables(v, definitions)) {
                Some((_, Ok((_, scope)))) => {
                    lemma_typed_expression_keeps::<D>(env, s, *expression, scope, p);
                },
                _ => {},
            }
        },
        ExprV::List { elements } => {
            lemma_typed_list_elements_keep::<D>(env, s, elements, v, p);
        },
        ExprV::ListCase {
            argument,
            type_,
            first_name,
            rest_name,
            empty_alternative,
            non_empty_alternative,
        } => {
            lemma_typed_expression_keeps::<D>(env, s, *argument, v, p);
            lemma_typed_expression_keeps::<D>(env, s, *empty_alternative, v, p);
            if let Ok(TypeV::List { element }) = resolve(env, type_) {
                lemma_typed_expression_keeps::<D>(
                    env,
                    s,
                    *non_empty_alternative,
                    v.insert(first_name, *element).insert(rest_name, type_),
                    p,
                );
            }
        },
        ExprV::Operation { lhs, rhs, .. } => {
            lemma_typed_expression_keeps::<D>(env, s, *lhs, v, p);
            lemma_typed_expression_keeps::<D>(env, s, *rhs, v, p);
        },
        ExprV::RecordConstruction { elements, .. } => {
            lemma_typed_record_elements_keep::<D>(env, s, elements, v, p);
        },
        ExprV::RecordElementOperation { argument, .. } => {
            lemma_typed_expression_keeps::<D>(env, s, *argument, v, p);
        },
        _ => {},
    }
}

pub proof fn lemma_typed_alternatives_keep<D: TypedTransformer>(
    env: Map<Seq<char>, TypeV>,
    s: D::V,
    name: Seq<char>,
    alternatives: Seq<AlternativeV>,
    v: Map<Seq<char>, TypeV>,
    p: spec_fn(ExprV) -> bool,
)
    requires
        component_keeps::<D>(p),
        all_nodes_alternatives(alternatives, p),
    ensures
        keeps_result(typed_alternatives::<D>(env, s, name, alternatives, v), s, alternatives),
    decreases alternatives,
{
    if alternatives.len() == 0 {
        assert(alternatives =~= Seq::empty());
    } else {
        lemma_typed_alternatives_keep::<D>(env, s, name, alternatives.drop_last(), v, p);
        let last = alternatives.last();
        lemma_typed_expression_keeps::<D>(env, s, last.expression, v.insert(name, last.type_), p);
        assert(alternatives.drop_last().push(
            AlternativeV { type_: last.type_, expression: last.expression },
        ) =~= alternatives);
    }
}

pub proof fn lemma_typed_let_definitions_keep<D: TypedTransformer>(
    env: Map<Seq<char>, TypeV>,
    s: D::V,
    definitions: Seq<DefinitionV>,
    v: Map<Seq<char>, TypeV>,
    p: spec_fn(ExprV) -> bool,
)
    requires
        component_keeps::<D>(p),
        all_nodes_definitions(definitions, p),
    ensures
        keeps_let_result(typed_let_definitions::<D>(env, s, definitions, v), s, definitions),
    decreases definitions,
{
    if definitions.len() == 0 {
        assert(definitions =~= Seq::empty());
    } else {
        lemma_typed_let_definitions_keep::<D>(env, s, definitions.drop_last(), v, p);
        match typed_let_definitions::<D>(env, s, definitions.drop_last(), v) {
            Some((_, Ok((_, scope)))) => {
                lemma_typed_definition_keeps::<D>(env, s, definitions.last(), scope, p);
            },
            _ => {},
        }
        assert(definitions.drop_last().push(definitions.last()) =~= definitions);
    }
}

pub proof fn lemma_typed_definition_keeps<D: TypedTransformer>(
    env: Map<Seq<char>, TypeV>,
    s: D::V,
    d: DefinitionV,
    v: Map<Seq<char>, TypeV>,
    p: spec_fn(ExprV) -> bool,
)
    requires
        component_keeps::<D>(p),
        definition_all_nodes(d, p),
    ensures
        keeps_result(typed_definition::<D>(env, s, d, v), s, d),
    decreases d,
{
    match d {
        DefinitionV::Function { arguments, body, type_, .. } => {
            if let Ok(function_type) = resolve(env, type_) {
                lemma_typed_expression_keeps::<D>(
                    env,
                    s,
                    body,
                    argument_variables(v, arguments, function_type),
                    p,
                );
            }
        },
        DefinitionV::Value { body, .. } => {
            lemma_typed_expression_keeps::<D>(env, s, body, v, p);
        },
    }
}

pub proof fn lemma_typed_list_elements_keep<D: TypedTransformer>(
    env: Map<Seq<char>, TypeV>,
    s: D::V,
    elements: Seq<ListElementV>,
    v: Map<Seq<char>, TypeV>,
    p: spec_fn(ExprV) -> bool,
)
    requires
        component_keeps::<D>(p),
        all_nodes_list_elements(elements, p),
    ensures
        keeps_result(typed_list_elements::<D>(env, s, elements, v), s, elements),
    decreases elements,
{
    if elements.len() == 0 {
        assert(elements =~= Seq::empty());
    } else {
        lemma_typed_list_elements_keep::<D>(env, s, elements.drop_last(), v, p);
        match elements.last() {
            ListElementV::Multiple(e) => lemma_typed_expression_keeps::<D>(env, s, e, v, p),
            ListElementV::Single(e) => lemma_typed_expression_keeps::<D>(env, s, e, v, p),
        }
        assert(elements.drop_last().push(elements.last()) =~= elements);
    }
}

pub proof fn lemma_typed_record_elements_keep<D: TypedTransformer>(
    env: Map<Seq<char>, TypeV>,
    s: D::V,
    elements: Seq<(Seq<char>, ExprV)>,
    v: Map<Seq<char>, TypeV>,
    p: spec_fn(ExprV) -> bool,
)
    requires
        component_keeps::<D>(p),
        all_nodes_record_elements(elements, p),
    ensures
        keeps_result(typed_record_elements::<D>(env, s, elements, v), s, elements),
    decreases elements,
{
    if elements.len() == 0 {
        assert(elements =~= Seq::empty());
    } else {
        lemma_typed_record_elements_keep::<D>(env, s, elements.drop_last(), v, p);
        lemma_typed_expression_keeps::<D>(env, s, elements.last().1, v, p);
        assert(elements.drop_last().push((elements.last().0, elements.last().1)) =~= elements);
    }
}

pub proof fn lemma_typed_module_definitions_keep<D: TypedTransformer>(
    env: Map<Seq<char>, TypeV>,
    s: D::V,
    definitions: Seq<DefinitionV>,
    v: Map<Seq<char>, TypeV>,
    p: spec_fn(ExprV) -> bool,
)
    requires
        component_keeps::<D>(p),
        all_nodes_definitions(definitions, p),
    ensures
        keeps_result(typed_module_definitions::<D>(env, s, definitions, v), s, definitions),
    decreases definitions.len(),
{
    if definitions.len() == 0 {
        assert(definitions =~= Seq::empty());
    } else {
        lemma_typed_module_definitions_keep::<D>(env, s, definitions.drop_last(), v, p);
        lemma_typed_definition_keeps::<D>(env, s, definitions.last(), v, p);
        assert(definitions.drop_last().push(definitions.last()) =~= definitions);
    }
}

/// A module in which the component has nothing to transform comes back
/// unchanged: where the transformation ends without an error, it gives the
/// module itself, and the component's state is kept either way.
pub proof fn lemma_typed_module_identity<D: TypedTransformer>(
    env: Map<Seq<char>, TypeV>,
    s: D::V,
    m: ModuleV,
    p: spec_fn(ExprV) -> bool,
)
    requires
        component_keeps::<D>(p),
        all_nodes_definitions(m.definitions, p),
    ensures
        keeps_result(typed_module::<D>(env, s, m), s, m),
{
    lemma_typed_module_definitions_keep::<D>(env, s, m.definitions, module_variables(m), p);
}

/// The model of a result that holds a definition.
pub open spec fn view_definition_result(r: Result<Definition, CompileError>) -> Result<
    DefinitionV,
    ErrorV,
> {
    match r {
        Ok(d) => Ok(d@),
        Err(e) => Err(e@),
    }
}

/// The model of a result that holds a module.
pub open spec fn view_module_result(r: Result<Module, CompileError>) -> Result<ModuleV, ErrorV> {
    match r {
        Ok(m) => Ok(m@),
        Err(e) => Err(e@),
    }
}

/// The variables in scope with the function definitions' names bound.
pub fn insert_function_variables(variables: &mut StringMap<Type>, definitions: &Vec<Definition>)
    ensures
        final(variables)@ == function_variables(old(variables)@, view_definitions(definitions@)),
{
    let ghost ds = view_definitions(definitions@);
    let mut i: usize = 0;
    while i < definitions.len()
        invariant
            i <= definitions@.len(),
            ds == view_definitions(definitions@),
            variables@ == function_variables(old(variables)@, ds.take(i as int)),
        decreases definitions.len() - i,
    {
        if let Definition::FunctionDefinition(f) = &definitions[i] {
            variables.insert(f.name.clone(), f.type_.deep_clone());
        }
        assert(ds.take(i + 1).drop_last() =~= ds.take(i as int));
        i += 1;
    }
    assert(ds.take(i as int) =~= ds);
}

/// The variables in scope with the arguments bound to the argument types of a
/// function type, as far as both go.
pub fn insert_argument_variables(
    variables: &mut StringMap<Type>,
    arguments: &Vec<String>,
    function_type: &Type,
)
    ensures
        final(variables)@ == argument_variables(
            old(variables)@,
            view_strings(arguments@),
            function_type@,
        ),
{
    let types = function_type.arguments();
    let n = if arguments.len() <= types.len() {
        arguments.len()
    } else {
        types.len()
    };
    let mut i: usize = 0;
    while i < n
        invariant
            i <= n,
            n <= arguments@.len(),
            n <= types@.len(),
            variables@ == insert_zip(
                old(variables)@,
                view_strings(arguments@),
                view_types(types@),
                i as nat,
            ),
        decreases n - i,
    {
        variables.insert(arguments[i].clone(), types[i].deep_clone());
        i += 1;
    }
}

/// Transforms modules with a component transformer, keeping track of the types
/// of the variables in scope.
pub struct TypedMetaTransformer<D> {
    component_transformer: D,
    reference_type_resolver: ReferenceTypeResolver,
}

impl<D: TypedTransformer> View for TypedMetaTransformer<D> {
    type V = D::V;

    closed spec fn view(&self) -> D::V {
        self.component_transformer@
    }
}

impl<D: TypedTransformer> TypedMetaTransformer<D> {
    /// The types that references resolve to.
    pub closed spec fn environment(&self) -> Map<Seq<char>, TypeV> {
        self.reference_type_resolver.environment()
    }

    pub fn new(
        component_transformer: D,
        module_environment_creator: ModuleEnvironmentCreator,
        reference_type_resolver: ReferenceTypeResolver,
    ) -> (r: Self)
        ensures
            r@ == component_transformer@,
            r.environment() == reference_type_resolver.environment(),
    {
        TypedMetaTransformer { component_transformer, reference_type_resolver }
    }

    /// Transforms every definition of the module as [`typed_module`] says.
    pub fn transform(&mut self, module: &Module) -> (r: Result<Module, CompileError>)
        requires
            typed_module::<D>(old(self).environment(), old(self)@, module@) is Some,
        ensures
            final(self).environment() == old(self).environment(),
            (final(self)@, view_module_result(r)) == typed_module::<D>(
                old(self).environment(),
                old(self)@,
                module@,
            )->0,
    {
        let variables = ModuleEnvironmentCreator::create(module);
        assert(module@.definitions.take(module.definitions@.len() as int) =~= module@.definitions);
        let definitions = self.transform_definitions(module, module.definitions.len(), &variables)?;
        Ok(
            Module {
                path: module.path.deep_clone(),
                export: Export { names: clone_strings(&module.export.names) },
                imports: clone_imports(&module.imports),
                ffi_imports: clone_builtin_interfaces(&module.ffi_imports),
                type_definitions: clone_type_definitions(&module.type_definitions),
                definitions,
            },
        )
    }

    fn transform_definitions(
        &mut self,
        module: &Module,
        n: usize,
        variables: &StringMap<Type>,
    ) -> (r: Result<Vec<Definition>, CompileError>)
        requires
            n <= module.definitions@.len(),
            typed_module_definitions::<D>(
                old(self).environment(),
                old(self)@,
                module@.definitions.take(n as int),
                variables@,
            ) is Some,
        ensures
            final(self).environment() == old(self).environment(),
            (final(self)@, match r {
                Ok(v) => Ok(view_definitions(v@)),
                Err(e) => Err(e@),
            }) == typed_module_definitions::<D>(
                old(self).environment(),
                old(self)@,
                module@.definitions.take(n as int),
                variables@,
            )->0,
        decreases n,
    {
        if n == 0 {
            let r: Vec<Definition> = Vec::new();
            assert(view_definitions(r@) =~= Seq::<DefinitionV>::empty());
            return Ok(r);
        }
        let ghost s = module@.definitions.take(n as int);
        assert(s.drop_last() =~= module@.definitions.take(n - 1));
        let mut previous = self.transform_definitions(module, n - 1, variables)?;
        let d = self.transform_definition(&module.definitions[n - 1], variables)?;
        let ghost before = view_definitions(previous@);
        previous.push(d);
        assert(view_definitions(previous@) =~= before.push(view_definitions(previous@).last()));
        Ok(previous)
    }

    fn transform_definition(&mut self, definition: &Definition, variables: &StringMap<Type>) -> (r:
        Result<Definition, CompileError>)
        requires
            typed_definition::<D>(old(self).environment(), old(self)@, definition@, variables@) is Some,
        ensures
            final(self).environment() == old(self).environment(),
            (final(self)@, view_definition_result(r)) == typed_definition::<D>(
                old(self).environment(),
                old(self)@,
                definition@,
                variables@,
            )->0,
        decreases definition, 3nat,
    {
        match definition {
            Definition::FunctionDefinition(f) => {
                let x = self.transform_function_definition(f, variables)?;
                Ok(Definition::FunctionDefinition(x))
            },
            Definition::ValueDefinition(v) => {
                let x = self.transform_variable_definition(v, variables)?;
                Ok(Definition::ValueDefinition(x))
            },
        }
    }

    fn transform_function_definition(
        &mut self,
        function_definition: &FunctionDefinition,
        variables: &StringMap<Type>,
    ) -> (r: Result<FunctionDefinition, CompileError>)
        requires
            typed_definition::<D>(
                old(self).environment(),
                old(self)@,
                Definition::FunctionDefinition(*function_definition)@,
                variables@,
            ) is Some,
        ensures
            final(self).environment() == old(self).environment(),
            (final(self)@, view_function_result(r)) == typed_definition::<D>(
                old(self).environment(),
                old(self)@,
                Definition::FunctionDefinition(*function_definition)@,
                variables@,
            )->0,
        decreases function_definition, 2nat,
    {
        let function_type = match self.reference_type_resolver.resolve_to_function(
            &function_definition.type_,
        )? {
            Some(t) => t,
            None => {
                assert(false);
                return Err(CompileError::TypesNotMatched);
            },
        };
        let mut scope = variables.deep_clone();
        insert_argument_variables(&mut scope, &function_definition.arguments, &function_type);
        let body = self.transform_expression(&function_definition.body, &scope)?;
        let transformed = FunctionDefinition {
            name: function_definition.name.clone(),
            arguments: clone_strings(&function_definition.arguments),
            body,
            type_: function_definition.type_.deep_clone(),
        };
        self.component_transformer.transform_function_definition(&transformed, &scope)
    }

    fn transform_variable_definition(
        &mut self,
        variable_definition: &ValueDefinition,
        variables: &StringMap<Type>,
    ) -> (r: Result<ValueDefinition, CompileError>)
        requires
            typed_definition::<D>(
                old(self).environment(),
                old(self)@,
                Definition::ValueDefinition(*variable_definition)@,
                variables@,
            ) is Some,
        ensures
            final(self).environment() == old(self).environment(),
            (final(self)@, view_value_result(r)) == typed_definition::<D>(
                old(self).environment(),
                old(self)@,
                Definition::ValueDefinition(*variable_definition)@,
                variables@,
            )->0,
        decreases variable_definition, 2nat,
    {
        let body = self.transform_expression(&variable_definition.body, variables)?;
        let transformed = ValueDefinition {
            name: variable_definition.name.clone(),
            body,
            type_: variable_definition.type_.deep_clone(),
        };
        self.component_transformer.transform_variable_definition(&transformed, variables)
    }

    fn transform_expression(&mut self, expression: &Expression, variables: &StringMap<Type>) -> (r:
        Result<Expression, CompileError>)
        requires
            typed_expression::<D>(old(self).environment(), old(self)@, expression@, variables@) is Some,
        ensures
            final(self).environment() == old(self).environment(),
            (final(self)@, view_result(r)) == typed_expression::<D>(
                old(self).environment(),
                old(self)@,
                expression@,
                variables@,
            )->0,
        decreases expression, 1nat,
    {
        broadcast use group_ast_view;

        let node = match expression {
            Expression::Application { function, argument } => {
                let f = self.transform_expression(function, variables)?;
                let a = self.transform_expression(argument, variables)?;
                let nd = Expression::Application { function: Box::new(f), argument: Box::new(a) };
                nd
            },
            Expression::Case { type_, name, argument, alternatives } => {
                let nd = self.transform_case(expression, type_, name, argument, alternatives, variables)?;
                nd
            },
            Expression::If { condition, then, else_ } => {
                let c = self.transform_expression(condition, variables)?;
                let t = self.transform_expression(then, variables)?;
                let z = self.transform_expression(else_, variables)?;
                Expression::If { condition: Box::new(c), then: Box::new(t), else_: Box::new(z) }
            },
            Expression::Let { definitions, expression: body } => {
                let nd = self.transform_let(expression, definitions, body, variables)?;
                nd
            },
            Expression::List { elements } => {
                assert(view_list_elements_rec(elements@) == view_list_elements(elements@));
                assert(view_list_elements(elements@).take(elements@.len() as int)
                    =~= view_list_elements(elements@));
                let es = self.transform_list_elements(expression, elements, elements.len(), variables)?;
                assert(view_list_elements_rec(es@) == view_list_elements(es@));
                let nd = Expression::List { elements: es };
                nd
            },
            Expression::ListCase {
                argument,
                type_,
                first_name,
                rest_name,
                empty_alternative,
                non_empty_alternative,
            } => {
                let a = self.transform_expression(argument, variables)?;
                let y = self.transform_expression(empty_alternative, variables)?;
                let element = match self.reference_type_resolver.resolve_to_list(type_)? {
                    Some(Type::List { element }) => element,
                    _ => {
                        assert(false);
                        return Err(CompileError::TypesNotMatched);
                    },
                };
                let mut scope = variables.deep_clone();
                scope.insert(first_name.clone(), (*element).deep_clone());
                scope.insert(rest_name.clone(), type_.deep_clone());
                let z = self.transform_expression(non_empty_alternative, &scope)?;
                Expression::ListCase {
                    argument: Box::new(a),
                    type_: type_.deep_clone(),
                    first_name: first_name.clone(),
                    rest_name: rest_name.clone(),
                    empty_alternative: Box::new(y),
                    non_empty_alternative: Box::new(z),
                }
            },
            Expression::Operation { type_, operator, lhs, rhs } => {
                let l = self.transform_expression(lhs, variables)?;
                let r = self.transform_expression(rhs, variables)?;
                Expression::Operation {
                    type_: type_.deep_clone(),
                    operator: *operator,
                    lhs: Box::new(l),
                    rhs: Box::new(r),
                }
            },
            Expression::RecordConstruction { type_, elements } => {
                assert(view_record_elements_rec(elements@) == view_record_elements(elements@));
                assert(view_record_elements(elements@).take(elements@.len() as int)
                    =~= view_record_elements(elements@));
                let es = self.transform_record_elements(
                    expression,
                    elements,
                    elements.len(),
                    variables,
                )?;
                assert(view_record_elements_rec(es@) == view_record_elements(es@));
                Expression::RecordConstruction { type_: type_.deep_clone(), elements: es }
            },
            Expression::RecordElementOperation { type_, key, argument } => {
                let a = self.transform_expression(argument, variables)?;
                Expression::RecordElementOperation {
                    type_: type_.deep_clone(),
                    key: key.clone(),
                    argument: Box::new(a),
                }
            },
            Expression::Boolean { .. } => {
                let nd = expression.deep_clone();
                nd
            },
            Expression::NoneLiteral => expression.deep_clone(),
            Expression::Number { .. } => expression.deep_clone(),
            Expression::String { .. } => expression.deep_clone(),
            Expression::Variable { .. } => expression.deep_clone(),
            _ => {
                assert(false);
                return Err(CompileError::TypesNotMatched);
            },
        };
        assert(typed_inner::<D>(self.environment(), old(self)@, expression@, variables@) == Some(
            (self@, Ok::<ExprV, ErrorV>(node@)),
        ));
        self.component_transformer.transform_expression(&node, variables)
    }

    fn transform_case(
        &mut self,
        parent: &Expression,
        type_: &Type,
        name: &String,
        argument: &Expression,
        alternatives: &Vec<Alternative>,
        variables: &StringMap<Type>,
    ) -> (r: Result<Expression, CompileError>)
        requires
            parent matches Expression::Case { type_: t, name: n, argument: a, alternatives: l } && *t
                == *type_ && *n == *name && *a == *argument && l == alternatives,
            typed_inner::<D>(old(self).environment(), old(self)@, parent@, variables@) is Some,
        ensures
            final(self).environment() == old(self).environment(),
            (final(self)@, view_result(r)) == typed_inner::<D>(
                old(self).environment(),
                old(self)@,
                parent@,
                variables@,
            )->0,
        decreases parent, 0nat, alternatives@.len() + 1,
    {
        broadcast use group_ast_view;

        assert(decreases_to!(parent => *argument));
        let a = self.transform_expression(argument, variables)?;
        assert(view_alternatives_rec(alternatives@) == view_alternatives(alternatives@));
        assert(view_alternatives(alternatives@).take(alternatives@.len() as int)
            =~= view_alternatives(alternatives@));
        let alts = self.transform_alternatives(
            parent,
            name,
            alternatives,
            alternatives.len(),
            variables,
        )?;
        assert(view_alternatives_rec(alts@) == view_alternatives(alts@));
        Ok(
            Expression::Case {
                type_: type_.deep_clone(),
                name: name.clone(),
                argument: Box::new(a),
                alternatives: alts,
            },
        )
    }

    fn transform_let(
        &mut self,
        parent: &Expression,
        definitions: &Vec<Definition>,
        body: &Expression,
        variables: &StringMap<Type>,
    ) -> (r: Result<Expression, CompileError>)
        requires
            parent matches Expression::Let { definitions: d, expression: b } && d == definitions
                && *b == *body,
            typed_inner::<D>(old(self).environment(), old(self)@, parent@, variables@) is Some,
        ensures
            final(self).environment() == old(self).environment(),
            (final(self)@, view_result(r)) == typed_inner::<D>(
                old(self).environment(),
                old(self)@,
                parent@,
                variables@,
            )->0,
        decreases parent, 0nat, definitions@.len() + 1,
    {
        broadcast use group_ast_view;

        let mut scope = variables.deep_clone();
        insert_function_variables(&mut scope, definitions);
        assert(view_definitions_rec(definitions@) == view_definitions(definitions@));
        assert(view_definitions(definitions@).take(definitions@.len() as int) =~= view_definitions(
            definitions@,
        ));
        let (ds, scope) = self.transform_let_definitions(
            parent,
            definitions,
            definitions.len(),
            &scope,
        )?;
        assert(decreases_to!(parent => *body));
        let b = self.transform_expression(body, &scope)?;
        assert(view_definitions_rec(ds@) == view_definitions(ds@));
        Ok(Expression::Let { definitions: ds, expression: Box::new(b) })
    }

    fn transform_alternatives(
        &mut self,
        parent: &Expression,
        name: &String,
        alternatives: &Vec<Alternative>,
        n: usize,
        variables: &StringMap<Type>,
    ) -> (r: Result<Vec<Alternative>, CompileError>)
        requires
            parent matches Expression::Case { alternatives: a, .. } && a == alternatives,
            n <= alternatives@.len(),
            typed_alternatives::<D>(
                old(self).environment(),
                old(self)@,
                name@,
                view_alternatives(alternatives@).take(n as int),
                variables@,
            ) is Some,
        ensures
            final(self).environment() == old(self).environment(),
            (final(self)@, match r {
                Ok(v) => Ok(view_alternatives(v@)),
                Err(e) => Err(e@),
            }) == typed_alternatives::<D>(
                old(self).environment(),
                old(self)@,
                name@,
                view_alternatives(alternatives@).take(n as int),
                variables@,
            )->0,
        decreases parent, 0nat, n,
    {
        if n == 0 {
            let r: Vec<Alternative> = Vec::new();
            assert(view_alternatives(r@) =~= Seq::<AlternativeV>::empty());
            return Ok(r);
        }
        let ghost s = view_alternatives(alternatives@).take(n as int);
        assert(s.drop_last() =~= view_alternatives(alternatives@).take(n - 1));
        let mut previous = self.transform_alternatives(parent, name, alternatives, n - 1, variables)?;
        let alternative = &alternatives[n - 1];
        let mut scope = variables.deep_clone();
        scope.insert(name.clone(), alternative.type_.deep_clone());
        assert(decreases_to!(parent => *alternatives));
        assert(decreases_to!(alternatives => alternatives@[n - 1].expression));
        let x = self.transform_expression(&alternative.expression, &scope)?;
        let ghost before = view_alternatives(previous@);
        previous.push(Alternative { type_: alternative.type_.deep_clone(), expression: x });
        assert(view_alternatives(previous@) =~= before.push(view_alternatives(previous@).last()));
        Ok(previous)
    }

    fn transform_let_definitions(
        &mut self,
        parent: &Expression,
        definitions: &Vec<Definition>,
        n: usize,
        variables: &StringMap<Type>,
    ) -> (r: Result<(Vec<Definition>, StringMap<Type>), CompileError>)
        requires
            parent matches Expression::Let { definitions: d, .. } && d == definitions,
            n <= definitions@.len(),
            typed_let_definitions::<D>(
                old(self).environment(),
                old(self)@,
                view_definitions(definitions@).take(n as int),
                variables@,
            ) is Some,
        ensures
            final(self).environment() == old(self).environment(),
            (final(self)@, match r {
                Ok((v, m)) => Ok((view_definitions(v@), m@)),
                Err(e) => Err(e@),
            }) == typed_let_definitions::<D>(
                old(self).environment(),
                old(self)@,
                view_definitions(definitions@).take(n as int),
                variables@,
            )->0,
        decreases parent, 0nat, n,
    {
        if n == 0 {
            let r: Vec<Definition> = Vec::new();
            assert(view_definitions(r@) =~= Seq::<DefinitionV>::empty());
            return Ok((r, variables.deep_clone()));
        }
        let ghost s = view_definitions(definitions@).take(n as int);
        assert(s.drop_last() =~= view_definitions(definitions@).take(n - 1));
        let (mut previous, mut scope) = self.transform_let_definitions(
            parent,
            definitions,
            n - 1,
            variables,
        )?;
        assert(decreases_to!(parent => *definitions));
        assert(decreases_to!(definitions => definitions@[n - 1]));
        let definition = &definitions[n - 1];
        let d = self.transform_definition(definition, &scope)?;
        if let Definition::ValueDefinition(v) = definition {
            scope.insert(v.name.clone(), v.type_.deep_clone());
        }
        let ghost before = view_definitions(previous@);
        previous.push(d);
        assert(view_definitions(previous@) =~= before.push(view_definitions(previous@).last()));
        Ok((previous, scope))
    }

    fn transform_list_elements(
        &mut self,
        parent: &Expression,
        elements: &Vec<ListElement>,
        n: usize,
        variables: &StringMap<Type>,
    ) -> (r: Result<Vec<ListElement>, CompileError>)
        requires
            parent matches Expression::List { elements: e } && e == elements,
            n <= elements@.len(),
            typed_list_elements::<D>(
                old(self).environment(),
                old(self)@,
                view_list_elements(elements@).take(n as int),
                variables@,
            ) is Some,
        ensures
            final(self).environment() == old(self).environment(),
            (final(self)@, match r {
                Ok(v) => Ok(view_list_elements(v@)),
                Err(e) => Err(e@),
            }) == typed_list_elements::<D>(
                old(self).environment(),
                old(self)@,
                view_list_elements(elements@).take(n as int),
                variables@,
            )->0,
        decreases parent, 0nat, n,
    {
        if n == 0 {
            let r: Vec<ListElement> = Vec::new();
            assert(view_list_elements(r@) =~= Seq::<ListElementV>::empty());
            return Ok(r);
        }
        let ghost s = view_list_elements(elements@).take(n as int);
        assert(s.drop_last() =~= view_list_elements(elements@).take(n - 1));
        let mut previous = self.transform_list_elements(parent, elements, n - 1, variables)?;
        assert(decreases_to!(parent => *elements));
        let ghost before = view_list_elements(previous@);
        match &elements[n - 1] {
            ListElement::Multiple(x) => {
                assert(decreases_to!(elements => elements@[n - 1]->Multiple_0));
                let y = self.transform_expression(x, variables)?;
                previous.push(ListElement::Multiple(y));
            },
            ListElement::Single(x) => {
                assert(decreases_to!(elements => elements@[n - 1]->Single_0));
                let y = self.transform_expression(x, variables)?;
                previous.push(ListElement::Single(y));
            },
        }
        assert(view_list_elements(previous@) =~= before.push(view_list_elements(previous@).last()));
        Ok(previous)
    }

    fn transform_record_elements(
        &mut self,
        parent: &Expression,
        elements: &Vec<(String, Expression)>,
        n: usize,
        variables: &StringMap<Type>,
    ) -> (r: Result<Vec<(String, Expression)>, CompileError>)
        requires
            parent matches Expression::RecordConstruction { elements: e, .. } && e == elements,
            n <= elements@.len(),
            typed_record_elements::<D>(
                old(self).environment(),
                old(self)@,
                view_record_elements(elements@).take(n as int),
                variables@,
            ) is Some,
        ensures
            final(self).environment() == old(self).environment(),
            (final(self)@, match r {
                Ok(v) => Ok(view_record_elements(v@)),
                Err(e) => Err(e@),
            }) == typed_record_elements::<D>(
                old(self).environment(),
                old(self)@,
                view_record_elements(elements@).take(n as int),
                variables@,
            )->0,
        decreases parent, 0nat, n,
    {
        if n == 0 {
            let r: Vec<(String, Expression)> = Vec::new();
            assert(view_record_elements(r@) =~= Seq::<(Seq<char>, ExprV)>::empty());
            return Ok(r);
        }
        let ghost s = view_record_elements(elements@).take(n as int);
        assert(s.drop_last() =~= view_record_elements(elements@).take(n - 1));
        let mut previous = self.transform_record_elements(parent, elements, n - 1, variables)?;
        assert(decreases_to!(parent => *elements));
        assert(decreases_to!(elements => elements@[n - 1].1));
        let x = self.transform_expression(&elements[n - 1].1, variables)?;
        let ghost before = view_record_elements(previous@);
        previous.push((elements[n - 1].0.clone(), x));
        assert(view_record_elements(previous@) =~= before.push(view_record_elements(previous@).last()));
        Ok(previous)
    }
}

} // verus!
