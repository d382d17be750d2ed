//! Explicit coercions of values to union and any types.
use crate::ast::{
    all_nodes_alternatives, all_nodes_definitions, all_nodes_list_elements,
    all_nodes_record_elements, lemma_all_nodes_alternatives, lemma_all_nodes_definitions,
    lemma_all_nodes_list_elements, lemma_all_nodes_record_elements, AlternativeV, ListElementV,
    clone_strings, group_ast_view, view_record_elements, view_record_elements_rec, view_strings,
    Definition, DefinitionV, ExprV, Expression, FunctionDefinition, ValueDefinition,
};
use crate::error::{view_result, CompileError, ErrorV};
use crate::expression_type_extractor::{extract_type, ExpressionTypeExtractor};
use crate::names::{str_equal, StringMap};
use crate::reference_type_resolver::{resolve, ReferenceTypeResolver};
use crate::convert::lemma_all_nodes_children;
use crate::module::ModuleV;
use crate::module_environment_creator::module_variables;
use crate::transform::typed_meta_transformer::{
    argument_variables, function_variables, insert_argument_variables, typed_alternatives,
    typed_definition, typed_expression, typed_inner, typed_let_definitions, typed_list_elements,
    typed_module, typed_module_definitions, typed_record_elements, view_function_result,
    view_value_result, TypedTransformer,
};
use crate::type_canonicalizer::{canonicalizable, canonicalize, TypeCanonicalizer};
use crate::type_equality_checker::{equality_decidable, types_equal, TypeEqualityChecker};
use crate::types::{group_type_view, view_named_types, view_named_types_rec, view_types, Type, TypeV};
use vstd::prelude::*;

verus! {

/// The expression coerced to `to_type`: kept when its type equals the target
/// type once both are resolved, and wrapped in a type coercion from the one to
/// the other where the target is a union or the any type. `None` where the
/// expression's type is not extracted, a comparison does not end, or the
/// target is another type that differs.
pub open spec fn coerce_type(
    env: Map<Seq<char>, TypeV>,
    e: ExprV,
    to_type: TypeV,
    variables: Map<Seq<char>, TypeV>,
    to_any: bool,
) -> Option<Result<ExprV, ErrorV>> {
    match extract_type(env, e, variables) {
        None => None,
        Some(Err(x)) => Some(Err(x)),
        Some(Ok(t)) => match resolve(env, t) {
            Err(x) => Some(Err(x)),
            Ok(from) => match resolve(env, to_type) {
                Err(x) => Some(Err(x)),
                Ok(to) => if !equality_decidable(env, from, to) {
                    None
                } else {
                    match types_equal(env, from, to) {
                        Err(x) => Some(Err(x)),
                        Ok(true) => Some(Ok(e)),
                        Ok(false) => if to is Union || (to_any && to is Any) {
                            Some(
                                Ok(
                                    ExprV::TypeCoercion {
                                        argument: Box::new(e),
                                        from: from,
                                        to: to,
                                    },
                                ),
                            )
                        } else {
                            None
                        },
                    }
                },
            },
        },
    }
}

/// The type of the first record element with the given key.
pub open spec fn element_type(elements: Seq<(Seq<char>, TypeV)>, key: Seq<char>) -> Option<TypeV>
    decreases elements.len(),
{
    if elements.len() == 0 {
        None
    } else if elements[0].0 == key {
        Some(elements[0].1)
    } else {
        element_type(elements.drop_first(), key)
    }
}

/// The elements of a record construction, each coerced to the type of the
/// record's element with its key.
pub open spec fn coerce_record_elements(
    env: Map<Seq<char>, TypeV>,
    elements: Seq<(Seq<char>, ExprV)>,
    record_elements: Seq<(Seq<char>, TypeV)>,
    variables: Map<Seq<char>, TypeV>,
    to_any: bool,
) -> Option<Result<Seq<(Seq<char>, ExprV)>, ErrorV>>
    decreases elements.len(),
{
    if elements.len() == 0 {
        Some(Ok(Seq::empty()))
    } else {
        match coerce_record_elements(env, elements.drop_last(), record_elements, variables, to_any) {
            None => None,
            Some(Err(x)) => Some(Err(x)),
            Some(Ok(previous)) => match element_type(record_elements, elements.last().0) {
                None => None,
                Some(t) => match coerce_type(env, elements.last().1, t, variables, to_any) {
                    None => None,
                    Some(Err(x)) => Some(Err(x)),
                    Some(Ok(x)) => Some(Ok(previous.push((elements.last().0, x)))),
                },
            },
        }
    }
}

/// The coercions that the transformer inserts into an expression whose inner
/// expressions were transformed: an application's argument to the argument type
/// of its function's type; both branches of an if expression to the type of
/// the if expression; both operands of an operation to the canonical union of
/// their types; each element of a record construction to its type in the
/// record. Other expressions are kept; `None` for those not handled here.
pub open spec fn coerce_expression(
    env: Map<Seq<char>, TypeV>,
    e: ExprV,
    variables: Map<Seq<char>, TypeV>,
) -> Option<Result<ExprV, ErrorV>> {
    coerce_expression_to(env, e, variables, true)
}

/// The coercions inserted into an expression whose inner expressions were
/// transformed, as [`coerce_expression`] says where `transformer` holds.
/// Otherwise, as the desugaring before type inference does: no coercions to
/// the any type, operations kept, and record element operations not handled.
pub open spec fn coerce_expression_to(
    env: Map<Seq<char>, TypeV>,
    e: ExprV,
    variables: Map<Seq<char>, TypeV>,
    transformer: bool,
) -> Option<Result<ExprV, ErrorV>> {
    match e {
        ExprV::Application { function, argument } => match extract_type(env, *function, variables) {
            None => None,
            Some(Err(x)) => Some(Err(x)),
            Some(Ok(TypeV::Function { argument: a, .. })) => match coerce_type(
                env,
                *argument,
                *a,
                variables,
                transformer,
            ) {
                None => None,
                Some(Err(x)) => Some(Err(x)),
                Some(Ok(x)) => Some(Ok(ExprV::Application { function, argument: Box::new(x) })),
            },
            Some(Ok(_)) => None,
        },
        ExprV::If { condition, then, else_ } => match extract_type(env, e, variables) {
            None => None,
            Some(Err(x)) => Some(Err(x)),
            Some(Ok(t)) => match coerce_type(env, *then, t, variables, transformer) {
                None => None,
                Some(Err(x)) => Some(Err(x)),
                Some(Ok(y)) => match coerce_type(env, *else_, t, variables, transformer) {
                    None => None,
                    Some(Err(x)) => Some(Err(x)),
                    Some(Ok(z)) => Some(
                        Ok(ExprV::If { condition, then: Box::new(y), else_: Box::new(z) }),
                    ),
                },
            },
        },
        ExprV::Operation { .. } => if !transformer {
            Some(Ok(e))
        } else {
            coerce_operation(env, e, variables)
        },
        ExprV::RecordConstruction { type_, elements } => match resolve(env, type_) {
            Err(x) => Some(Err(x)),
            Ok(TypeV::Record { elements: record_elements, .. }) => match coerce_record_elements(
                env,
                elements,
                record_elements,
                variables,
                transformer,
            ) {
                None => None,
                Some(Err(x)) => Some(Err(x)),
                Some(Ok(es)) => Some(Ok(ExprV::RecordConstruction { type_, elements: es })),
            },
            Ok(_) => None,
        },
        ExprV::Boolean { .. } => Some(Ok(e)),
        ExprV::Let { .. } => Some(Ok(e)),
        ExprV::NoneLiteral => Some(Ok(e)),
        ExprV::Number { .. } => Some(Ok(e)),
        ExprV::RecordElementOperation { .. } => if transformer {
            Some(Ok(e))
        } else {
            None
        },
        ExprV::Variable { .. } => Some(Ok(e)),
        _ => None,
    }
}

/// Whether `r` is the expression `b` brought to the type `t`: kept where the
/// expression's type already equals `t` once both are resolved, and otherwise
/// wrapped in a coercion from the one to the other, where `t` resolves to a
/// union or the any type.
pub open spec fn brought_to(
    env: Map<Seq<char>, TypeV>,
    b: ExprV,
    r: ExprV,
    t: TypeV,
    variables: Map<Seq<char>, TypeV>,
) -> bool {
    &&& extract_type(env, b, variables) matches Some(Ok(bt))
    &&& resolve(env, bt) matches Ok(from)
    &&& resolve(env, t) matches Ok(to)
    &&& ((r == b && types_equal(env, from, to) == Ok::<bool, ErrorV>(true)) || (types_equal(
        env,
        from,
        to,
    ) == Ok::<bool, ErrorV>(false) && (to is Union || to is Any) && r == ExprV::TypeCoercion {
        argument: Box::new(b),
        from,
        to,
    }))
}

/// Coercing an if expression keeps its condition and brings both of its
/// branches to the type of the if expression.
pub proof fn lemma_if_branches_coerced(
    env: Map<Seq<char>, TypeV>,
    e: ExprV,
    variables: Map<Seq<char>, TypeV>,
    transformer: bool,
)
    ensures
        e matches ExprV::If { condition, then, else_ } ==> (coerce_expression_to(
            env,
            e,
            variables,
            transformer,
        ) matches Some(Ok(r)) ==> (r matches ExprV::If { condition: c, then: y, else_: z }
            && c == condition && (extract_type(env, e, variables) matches Some(Ok(t))
            && brought_to(env, *then, *y, t, variables) && brought_to(
            env,
            *else_,
            *z,
            t,
            variables,
        )))),
{
}

/// Coercing an application keeps its function and brings its argument to the
/// argument type of the function's type.
pub proof fn lemma_application_argument_coerced(
    env: Map<Seq<char>, TypeV>,
    e: ExprV,
    variables: Map<Seq<char>, TypeV>,
    transformer: bool,
)
    ensures
        e matches ExprV::Application { function, argument } ==> (coerce_expression_to(
            env,
            e,
            variables,
            transformer,
        ) matches Some(Ok(r)) ==> (r matches ExprV::Application { function: f, argument: a }
            && f == function && (extract_type(env, *function, variables) matches Some(
            Ok(TypeV::Function { argument: t, .. }),
        ) && brought_to(env, *argument, *a, *t, variables)))),
{
}

/// Both operands of an operation coerced to the canonical union of their types.
pub open spec fn coerce_operation(
    env: Map<Seq<char>, TypeV>,
    e: ExprV,
    variables: Map<Seq<char>, TypeV>,
) -> Option<Result<ExprV, ErrorV>> {
    match e {
        ExprV::Operation { type_, operator, lhs, rhs } => match extract_type(env, *lhs, variables) {
            None => None,
            Some(Err(x)) => Some(Err(x)),
            Some(Ok(l)) => match extract_type(env, *rhs, variables) {
                None => None,
                Some(Err(x)) => Some(Err(x)),
                Some(Ok(r)) => {
                    let union = TypeV::Union { types: seq![l, r] };
                    if !canonicalizable(env, union) {
                        None
                    } else {
                        match canonicalize(env, union) {
                            Err(x) => Some(Err(x)),
                            Ok(t) => match coerce_type(env, *lhs, t, variables, true) {
                                None => None,
                                Some(Err(x)) => Some(Err(x)),
                                Some(Ok(x)) => match coerce_type(env, *rhs, t, variables, true) {
                                    None => None,
                                    Some(Err(y)) => Some(Err(y)),
                                    Some(Ok(y)) => Some(
                                        Ok(
                                            ExprV::Operation {
                                                type_,
                                                operator,
                                                lhs: Box::new(x),
                                                rhs: Box::new(y),
                                            },
                                        ),
                                    ),
                                },
                            },
                        }
                    }
                },
            },
        },
        _ => None,
    }
}

/// The coercion of a definition's body to its type: a function's body, with
/// its arguments in scope, to the last result type of its function type; a
/// value's body to the value's type. `None` for a function definition whose
/// type is not a function type.
pub open spec fn coerce_definition(
    env: Map<Seq<char>, TypeV>,
    d: DefinitionV,
    variables: Map<Seq<char>, TypeV>,
    to_any: bool,
) -> Option<Result<DefinitionV, ErrorV>> {
    match d {
        DefinitionV::Function { name, arguments, body, type_ } => if !(type_ is Function) {
            None
        } else {
            match coerce_type(
                env,
                body,
                type_.last_result(),
                argument_variables(variables, arguments, type_),
                to_any,
            ) {
                None => None,
                Some(Err(x)) => Some(Err(x)),
                Some(Ok(b)) => Some(Ok(DefinitionV::Function { name, arguments, body: b, type_ })),
            }
        },
        DefinitionV::Value { name, body, type_ } => match coerce_type(
            env,
            body,
            type_,
            variables,
            to_any,
        ) {
            None => None,
            Some(Err(x)) => Some(Err(x)),
            Some(Ok(b)) => Some(Ok(DefinitionV::Value { name, body: b, type_ })),
        },
    }
}

/// The parts that coercions need: resolution of references, comparison of
/// types and the types of expressions.
pub struct TypeCoercer {
    reference_type_resolver: ReferenceTypeResolver,
    type_equality_checker: TypeEqualityChecker,
    expression_type_extractor: ExpressionTypeExtractor,
}

impl TypeCoercer {
    /// The types that references resolve to.
    pub closed spec fn environment(&self) -> Map<Seq<char>, TypeV> {
        self.reference_type_resolver.environment()
    }

    /// All parts resolve references in the same environment.
    pub closed spec fn well_formed(&self) -> bool {
        let env = self.reference_type_resolver.environment();
        &&& self.type_equality_checker.reference_type_resolver.environment() == env
        &&& self.expression_type_extractor.environment() == env
        &&& self.expression_type_extractor.well_formed()
    }

    pub fn new(
        reference_type_resolver: ReferenceTypeResolver,
        type_equality_checker: TypeEqualityChecker,
        expression_type_extractor: ExpressionTypeExtractor,
    ) -> (r: Self)
        ensures
            r.environment() == reference_type_resolver.environment(),
            r.well_formed() <==> ({
                let env = reference_type_resolver.environment();
                &&& type_equality_checker.reference_type_resolver.environment() == env
                &&& expression_type_extractor.environment() == env
                &&& expression_type_extractor.well_formed()
            }),
    {
        TypeCoercer { reference_type_resolver, type_equality_checker, expression_type_extractor }
    }

    /// The expression coerced as [`coerce_type`] says.
    pub fn coerce_type(
        &self,
        expression: &Expression,
        to_type: &Type,
        variables: &StringMap<Type>,
        to_any: bool,
    ) -> (r: Result<Expression, CompileError>)
        requires
            self.well_formed(),
            coerce_type(self.environment(), expression@, to_type@, variables@, to_any) is Some,
        ensures
            view_result(r) == coerce_type(
                self.environment(),
                expression@,
                to_type@,
                variables@,
                to_any,
            )->0,
    {
        let extracted = self.expression_type_extractor.extract(expression, variables)?;
        let from_type = self.reference_type_resolver.resolve(&extracted)?;
        let to_type = self.reference_type_resolver.resolve(to_type)?;
        if self.type_equality_checker.equal(&from_type, &to_type)? {
            Ok(expression.deep_clone())
        } else if to_type.is_union() || (to_any && to_type.is_any()) {
            Ok(
                Expression::TypeCoercion {
                    argument: Box::new(expression.deep_clone()),
                    from: from_type,
                    to: to_type,
                },
            )
        } else {
            assert(false);
            Err(CompileError::TypesNotMatched)
        }
    }

    /// The first `n` elements of a record construction coerced as
    /// [`coerce_record_elements`] says.
    pub fn coerce_record_elements(
        &self,
        elements: &Vec<(String, Expression)>,
        n: usize,
        record_elements: &Vec<(String, Type)>,
        variables: &StringMap<Type>,
        to_any: bool,
    ) -> (r: Result<Vec<(String, Expression)>, CompileError>)
        requires
            n <= elements@.len(),
            self.well_formed(),
            coerce_record_elements(
                self.environment(),
                view_record_elements(elements@).take(n as int),
                view_named_types(record_elements@),
                variables@,
                to_any,
            ) is Some,
        ensures
            match r {
                Ok(v) => Ok(view_record_elements(v@)),
                Err(e) => Err(e@),
            } == coerce_record_elements(
                self.environment(),
                view_record_elements(elements@).take(n as int),
                view_named_types(record_elements@),
                variables@,
                to_any,
            )->0,
        decreases n,
    {
        if n == 0 {
            let r: Vec<(String, Expression)> = Vec::new();
            assert(view_record_elements(r@) =~= Seq::<(Seq<char>, ExprV)>::empty());
            return Ok(r);
        }
        let ghost s = view_record_elements(elements@).take(n as int);
        assert(s.drop_last() =~= view_record_elements(elements@).take(n - 1));
        let mut previous = self.coerce_record_elements(
            elements,
            n - 1,
            record_elements,
            variables,
            to_any,
        )?;
        let key = &elements[n - 1].0;
        let ghost rs = view_named_types(record_elements@);
        let mut j: usize = 0;
        assert(rs.skip(0) =~= rs);
        while j < record_elements.len() && !str_equal(record_elements[j].0.as_str(), key.as_str())
            invariant
                j <= record_elements@.len(),
                rs == view_named_types(record_elements@),
                element_type(rs, key@) == element_type(rs.skip(j as int), key@),
            decreases record_elements.len() - j,
        {
            assert(rs.skip(j as int).drop_first() =~= rs.skip(j + 1));
            j += 1;
        }
        if j == record_elements.len() {
            assert(rs.skip(j as int) =~= Seq::<(Seq<char>, TypeV)>::empty());
            assert(false);
            return Err(CompileError::TypesNotMatched);
        }
        assert(rs.skip(j as int)[0] == rs[j as int]);
        let x = self.coerce_type(&elements[n - 1].1, &record_elements[j].1, variables, to_any)?;
        let ghost before = view_record_elements(previous@);
        previous.push((key.clone(), x));
        assert(view_record_elements(previous@) =~= before.push(view_record_elements(previous@).last()));
        Ok(previous)
    }

    /// The elements of a record construction coerced to their types in the
    /// record type that the construction's type resolves to.
    pub fn coerce_record_construction(
        &self,
        expression: &Expression,
        variables: &StringMap<Type>,
        to_any: bool,
    ) -> (r: Result<Expression, CompileError>)
        requires
            expression is RecordConstruction,
            self.well_formed(),
            coerce_expression_to(self.environment(), expression@, variables@, to_any) is Some,
        ensures
            view_result(r) == coerce_expression_to(
                self.environment(),
                expression@,
                variables@,
                to_any,
            )->0,
    {
        broadcast use group_ast_view, group_type_view;

        match expression {
            Expression::RecordConstruction { type_, elements } => {
                let resolved = self.reference_type_resolver.resolve(type_)?;
                match &resolved {
                    Type::Record { elements: record_elements, .. } => {
                        assert(view_record_elements_rec(elements@) == view_record_elements(elements@));
                        assert(view_named_types_rec(record_elements@) == view_named_types(
                            record_elements@,
                        ));
                        assert(view_record_elements(elements@).take(elements@.len() as int)
                            =~= view_record_elements(elements@));
                        let es = self.coerce_record_elements(
                            elements,
                            elements.len(),
                            record_elements,
                            variables,
                            to_any,
                        )?;
                        assert(view_record_elements_rec(es@) == view_record_elements(es@));
                        Ok(Expression::RecordConstruction { type_: type_.deep_clone(), elements: es })
                    },
                    _ => {
                        assert(false);
                        Err(CompileError::TypesNotMatched)
                    },
                }
            },
            _ => {
                assert(false);
                Err(CompileError::TypesNotMatched)
            },
        }
    }

    /// An application with its argument coerced to the argument type of its
    /// function's type.
    pub fn coerce_application(
        &self,
        expression: &Expression,
        variables: &StringMap<Type>,
        to_any: bool,
    ) -> (r: Result<Expression, CompileError>)
        requires
            expression is Application,
            self.well_formed(),
            coerce_expression_to(self.environment(), expression@, variables@, to_any) is Some,
        ensures
            view_result(r) == coerce_expression_to(
                self.environment(),
                expression@,
                variables@,
                to_any,
            )->0,
    {
        match expression {
            Expression::Application { function, argument } => {
                let function_type = self.expression_type_extractor.extract(function, variables)?;
                match function_type {
                    Type::Function { argument: argument_type, .. } => {
                        let x = self.coerce_type(argument, &argument_type, variables, to_any)?;
                        Ok(
                            Expression::Application {
                                function: Box::new((**function).deep_clone()),
                                argument: Box::new(x),
                            },
                        )
                    },
                    _ => {
                        assert(false);
                        Err(CompileError::TypesNotMatched)
                    },
                }
            },
            _ => {
                assert(false);
                Err(CompileError::TypesNotMatched)
            },
        }
    }

    /// An if expression with both branches coerced to its type.
    pub fn coerce_if(&self, expression: &Expression, variables: &StringMap<Type>, to_any: bool) -> (r:
        Result<Expression, CompileError>)
        requires
            expression is If,
            self.well_formed(),
            coerce_expression_to(self.environment(), expression@, variables@, to_any) is Some,
        ensures
            view_result(r) == coerce_expression_to(
                self.environment(),
                expression@,
                variables@,
                to_any,
            )->0,
    {
        match expression {
            Expression::If { condition, then, else_ } => {
                let result_type = self.expression_type_extractor.extract(expression, variables)?;
                let y = self.coerce_type(then, &result_type, variables, to_any)?;
                let z = self.coerce_type(else_, &result_type, variables, to_any)?;
                Ok(
                    Expression::If {
                        condition: Box::new((**condition).deep_clone()),
                        then: Box::new(y),
                        else_: Box::new(z),
                    },
                )
            },
            _ => {
                assert(false);
                Err(CompileError::TypesNotMatched)
            },
        }
    }

    /// A function definition with its body coerced to the last result type of
    /// its type, with its arguments in scope.
    pub fn coerce_function_definition(
        &self,
        function_definition: &FunctionDefinition,
        variables: &StringMap<Type>,
        to_any: bool,
    ) -> (r: Result<FunctionDefinition, CompileError>)
        requires
            self.well_formed(),
            coerce_definition(
                self.environment(),
                Definition::FunctionDefinition(*function_definition)@,
                variables@,
                to_any,
            ) is Some,
        ensures
            view_function_result(r) == coerce_definition(
                self.environment(),
                Definition::FunctionDefinition(*function_definition)@,
                variables@,
                to_any,
            )->0,
    {
        let mut scope = variables.deep_clone();
        insert_argument_variables(&mut scope, &function_definition.arguments, &function_definition.type_);
        let result_type = function_definition.type_.last_result();
        let body = self.coerce_type(&function_definition.body, &result_type, &scope, to_any)?;
        Ok(
            FunctionDefinition {
                name: function_definition.name.clone(),
                arguments: clone_strings(&function_definition.arguments),
                body,
                type_: function_definition.type_.deep_clone(),
            },
        )
    }

    /// A value definition with its body coerced to its type.
    pub fn coerce_value_definition(
        &self,
        value_definition: &ValueDefinition,
        variables: &StringMap<Type>,
        to_any: bool,
    ) -> (r: Result<ValueDefinition, CompileError>)
        requires
            self.well_formed(),
            coerce_definition(
                self.environment(),
                Definition::ValueDefinition(*value_definition)@,
                variables@,
                to_any,
            ) is Some,
        ensures
            view_value_result(r) == coerce_definition(
                self.environment(),
                Definition::ValueDefinition(*value_definition)@,
                variables@,
                to_any,
            )->0,
    {
        let body = self.coerce_type(&value_definition.body, &value_definition.type_, variables, to_any)?;
        Ok(
            ValueDefinition {
                name: value_definition.name.clone(),
                body,
                type_: value_definition.type_.deep_clone(),
            },
        )
    }
}

/// Transforms coercions of values to union types and to the any type; it does
/// not transform coercions from functions to functions.
pub struct TypeCoercionTransformer {
    coercer: TypeCoercer,
    type_canonicalizer: TypeCanonicalizer,
}

impl TypeCoercionTransformer {
    /// The coercer is well formed and the canonicalizer uses its environment.
    pub closed spec fn well_formed(&self) -> bool {
        &&& self.coercer.well_formed()
        &&& self.type_canonicalizer.environment() == self.coercer.environment()
        &&& self.type_canonicalizer.well_formed()
    }

    pub fn new(
        reference_type_resolver: ReferenceTypeResolver,
        type_equality_checker: TypeEqualityChecker,
        expression_type_extractor: ExpressionTypeExtractor,
        type_canonicalizer: TypeCanonicalizer,
    ) -> (r: Self)
        ensures
            r@.0 == reference_type_resolver.environment(),
            r@.1 <==> ({
                let env = reference_type_resolver.environment();
                &&& type_equality_checker.reference_type_resolver.environment() == env
                &&& expression_type_extractor.environment() == env
                &&& expression_type_extractor.well_formed()
                &&& type_canonicalizer.environment() == env
                &&& type_canonicalizer.well_formed()
            }),
    {
        TypeCoercionTransformer {
            coercer: TypeCoercer::new(
                reference_type_resolver,
                type_equality_checker,
                expression_type_extractor,
            ),
            type_canonicalizer,
        }
    }
}

impl View for TypeCoercionTransformer {
    type V = (Map<Seq<char>, TypeV>, bool);

    closed spec fn view(&self) -> (Map<Seq<char>, TypeV>, bool) {
        (self.coercer.environment(), self.well_formed())
    }
}

impl TypedTransformer for TypeCoercionTransformer {
    open spec fn transforms_expression(
        state: (Map<Seq<char>, TypeV>, bool),
        e: ExprV,
        variables: Map<Seq<char>, TypeV>,
    ) -> bool {
        state.1 && coerce_expression(state.0, e, variables) is Some
    }

    open spec fn transformed_expression(
        state: (Map<Seq<char>, TypeV>, bool),
        e: ExprV,
        variables: Map<Seq<char>, TypeV>,
    ) -> ((Map<Seq<char>, TypeV>, bool), Result<ExprV, ErrorV>) {
        (state, coerce_expression(state.0, e, variables)->0)
    }

    open spec fn transforms_definition(
        state: (Map<Seq<char>, TypeV>, bool),
        d: DefinitionV,
        variables: Map<Seq<char>, TypeV>,
    ) -> bool {
        state.1 && coerce_definition(state.0, d, variables, true) is Some
    }

    open spec fn transformed_definition(
        state: (Map<Seq<char>, TypeV>, bool),
        d: DefinitionV,
        variables: Map<Seq<char>, TypeV>,
    ) -> ((Map<Seq<char>, TypeV>, bool), Result<DefinitionV, ErrorV>) {
        (state, coerce_definition(state.0, d, variables, true)->0)
    }

    fn transform_function_definition(
        &mut self,
        function_definition: &FunctionDefinition,
        variables: &StringMap<Type>,
    ) -> (r: Result<FunctionDefinition, CompileError>) {
        self.coercer.coerce_function_definition(function_definition, variables, true)
    }

    fn transform_variable_definition(
        &mut self,
        variable_definition: &ValueDefinition,
        variables: &StringMap<Type>,
    ) -> (r: Result<ValueDefinition, CompileError>) {
        self.coercer.coerce_value_definition(variable_definition, variables, true)
    }

    fn transform_expression(&mut self, expression: &Expression, variables: &StringMap<Type>) -> (r:
        Result<Expression, CompileError>) {
        broadcast use group_ast_view, group_type_view;

        match expression {
            Expression::Application { .. } => self.coercer.coerce_application(
                expression,
                variables,
                true,
            ),
            Expression::If { .. } => self.coercer.coerce_if(expression, variables, true),
            Expression::Operation { type_, operator, lhs, rhs } => {
                let l = self.coercer.expression_type_extractor.extract(lhs, variables)?;
                let r = self.coercer.expression_type_extractor.extract(rhs, variables)?;
                let ghost (lv, rv) = (l@, r@);
                let mut types: Vec<Type> = Vec::new();
                types.push(l);
                types.push(r);
                assert(crate::types::view_types_rec(types@) == seq![lv, rv]) by {
                    assert(view_types(types@) =~= seq![lv, rv]);
                }
                let union = Type::Union { types };
                let argument_type = self.type_canonicalizer.canonicalize(&union)?;
                let x = self.coercer.coerce_type(lhs, &argument_type, variables, true)?;
                let y = self.coercer.coerce_type(rhs, &argument_type, variables, true)?;
                Ok(
                    Expression::Operation {
                        type_: type_.deep_clone(),
                        operator: *operator,
                        lhs: Box::new(x),
                        rhs: Box::new(y),
                    },
                )
            },
            Expression::RecordConstruction { .. } => self.coercer.coerce_record_construction(
                expression,
                variables,
                true,
            ),
            Expression::Boolean { .. } => Ok(expression.deep_clone()),
            Expression::Let { .. } => Ok(expression.deep_clone()),
            Expression::NoneLiteral => Ok(expression.deep_clone()),
            Expression::Number { .. } => Ok(expression.deep_clone()),
            Expression::RecordElementOperation { .. } => Ok(expression.deep_clone()),
            Expression::Variable { .. } => Ok(expression.deep_clone()),
            _ => {
                assert(false);
                Err(CompileError::TypesNotMatched)
            },
        }
    }
}


/// Whether a type coercion, if the expression is one, coerces to a union or,
/// where `to_any` holds, to the any type.
pub open spec fn coerces_within(e: ExprV, to_any: bool) -> bool {
    e matches ExprV::TypeCoercion { to, .. } ==> (to is Union || (to_any && to is Any))
}

/// Coercing an expression adds at most a coercion to a union or, where
/// `to_any` holds, to the any type.
proof fn lemma_coerce_type_within(
    env: Map<Seq<char>, TypeV>,
    e: ExprV,
    to_type: TypeV,
    variables: Map<Seq<char>, TypeV>,
    to_any: bool,
)
    requires
        e.all_nodes(|x: ExprV| coerces_within(x, to_any)),
    ensures
        coerce_type(env, e, to_type, variables, to_any) matches Some(Ok(r)) ==> r.all_nodes(
            |x: ExprV| coerces_within(x, to_any),
        ),
{
}

proof fn lemma_coerce_record_elements_within(
    env: Map<Seq<char>, TypeV>,
    elements: Seq<(Seq<char>, ExprV)>,
    record_elements: Seq<(Seq<char>, TypeV)>,
    variables: Map<Seq<char>, TypeV>,
    to_any: bool,
)
    requires
        all_nodes_record_elements(elements, |x: ExprV| coerces_within(x, to_any)),
    ensures
        coerce_record_elements(env, elements, record_elements, variables, to_any) matches Some(
            Ok(r),
        ) ==> all_nodes_record_elements(r, |x: ExprV| coerces_within(x, to_any)),
    decreases elements.len(),
{
    let p = |x: ExprV| coerces_within(x, to_any);
    if elements.len() > 0 {
        lemma_coerce_record_elements_within(
            env,
            elements.drop_last(),
            record_elements,
            variables,
            to_any,
        );
        if let Some(Ok(previous)) = coerce_record_elements(
            env,
            elements.drop_last(),
            record_elements,
            variables,
            to_any,
        ) {
            if let Some(t) = element_type(record_elements, elements.last().0) {
                lemma_all_nodes_record_elements(elements, p, elements.len() - 1);
                lemma_coerce_type_within(env, elements.last().1, t, variables, to_any);
                if let Some(Ok(x)) = coerce_type(env, elements.last().1, t, variables, to_any) {
                    assert(previous.push((elements.last().0, x)).drop_last() =~= previous);
                }
            }
        }
    }
}

/// Coercing at one node, with coercions to the any type where `to_any`
/// holds, an expression whose coercions all go to unions (or the any type
/// where `to_any` holds) gives an expression whose coercions do too.
pub proof fn lemma_coercions_within(
    env: Map<Seq<char>, TypeV>,
    e: ExprV,
    variables: Map<Seq<char>, TypeV>,
    to_any: bool,
)
    requires
        e.all_nodes(|x: ExprV| coerces_within(x, to_any)),
    ensures
        coerce_expression_to(env, e, variables, to_any) matches Some(Ok(r)) ==> r.all_nodes(
            |x: ExprV| coerces_within(x, to_any),
        ),
{
    let p = |x: ExprV| coerces_within(x, to_any);
    match e {
        ExprV::Application { function, argument } => {
            if let Some(Ok(TypeV::Function { argument: a, .. })) = extract_type(
                env,
                *function,
                variables,
            ) {
                lemma_coerce_type_within(env, *argument, *a, variables, to_any);
            }
        },
        ExprV::If { condition, then, else_ } => {
            if let Some(Ok(t)) = extract_type(env, e, variables) {
                lemma_coerce_type_within(env, *then, t, variables, to_any);
                lemma_coerce_type_within(env, *else_, t, variables, to_any);
            }
        },
        ExprV::Operation { lhs, rhs, .. } => {
            if to_any {
                if let (Some(Ok(l)), Some(Ok(r))) = (
                    extract_type(env, *lhs, variables),
                    extract_type(env, *rhs, variables),
                ) {
                    let union = TypeV::Union { types: seq![l, r] };
                    if let Ok(t) = canonicalize(env, union) {
                        lemma_coerce_type_within(env, *lhs, t, variables, true);
                        lemma_coerce_type_within(env, *rhs, t, variables, true);
                    }
                }
            }
        },
        ExprV::RecordConstruction { type_, elements } => {
            if let Ok(TypeV::Record { elements: record_elements, .. }) = resolve(env, type_) {
                lemma_coerce_record_elements_within(
                    env,
                    elements,
                    record_elements,
                    variables,
                    to_any,
                );
            }
        },
        _ => {},
    }
}

/// Coercing the body of a definition whose coercions all go to unions (or
/// the any type where `to_any` holds) gives a definition whose coercions do
/// too.
pub proof fn lemma_definition_coercions_within(
    env: Map<Seq<char>, TypeV>,
    d: DefinitionV,
    variables: Map<Seq<char>, TypeV>,
    to_any: bool,
)
    requires
        d.body().all_nodes(|x: ExprV| coerces_within(x, to_any)),
    ensures
        coerce_definition(env, d, variables, to_any) matches Some(Ok(r)) ==> r.body().all_nodes(
            |x: ExprV| coerces_within(x, to_any),
        ),
{
    match d {
        DefinitionV::Function { arguments, body, type_, .. } => {
            if type_ is Function {
                lemma_coerce_type_within(
                    env,
                    body,
                    type_.last_result(),
                    argument_variables(variables, arguments, type_),
                    to_any,
                );
            }
        },
        DefinitionV::Value { body, type_, .. } => {
            lemma_coerce_type_within(env, body, type_, variables, to_any);
        },
    }
}


/// Whether every coercion in the expression goes to a union or, where
/// `to_any` holds, to the any type.
pub open spec fn coercions_within(e: ExprV, to_any: bool) -> bool {
    e.all_nodes(|x: ExprV| coerces_within(x, to_any))
}

/// Whether a transformed expression, if there is one, has its coercions
/// going to unions or, where `to_any` holds, to the any type.
pub open spec fn expression_result_keeps_coercions(r: Result<ExprV, ErrorV>, to_any: bool) -> bool {
    match r {
        Ok(x) => coercions_within(x, to_any),
        Err(_) => true,
    }
}

/// Whether a transformed definition, if there is one, has its coercions going
/// to unions or, where `to_any` holds, to the any type.
pub open spec fn definition_result_keeps_coercions(
    r: Result<DefinitionV, ErrorV>,
    to_any: bool,
) -> bool {
    match r {
        Ok(d) => coercions_within(d.body(), to_any),
        Err(_) => true,
    }
}

/// Whether a component transformer keeps every coercion going to a union or,
/// where `to_any` holds, to the any type: for each expression and each
/// definition body it transforms.
pub open spec fn component_keeps_coercions<D: TypedTransformer>(to_any: bool) -> bool {
    &&& forall|s: D::V, x: ExprV, variables: Map<Seq<char>, TypeV>|
        coercions_within(x, to_any) && D::transforms_expression(s, x, variables)
            ==> expression_result_keeps_coercions(
            (#[trigger] D::transformed_expression(s, x, variables)).1,
            to_any,
        )
    &&& forall|s: D::V, d: DefinitionV, variables: Map<Seq<char>, TypeV>|
        coercions_within(d.body(), to_any) && D::transforms_definition(s, d, variables)
            ==> definition_result_keeps_coercions(
            (#[trigger] D::transformed_definition(s, d, variables)).1,
            to_any,
        )
}

proof fn lemma_typed_expression_coercions<D: TypedTransformer>(
    env: Map<Seq<char>, TypeV>,
    s: D::V,
    e: ExprV,
    variables: Map<Seq<char>, TypeV>,
    to_any: bool,
)
    requires
        component_keeps_coercions::<D>(to_any),
        coercions_within(e, to_any),
    ensures
        typed_expression::<D>(env, s, e, variables) matches Some((_, Ok(r)))
            ==> coercions_within(r, to_any),
    decreases e, 2nat,
{
    lemma_typed_inner_coercions::<D>(env, s, e, variables, to_any);
}

proof fn lemma_typed_inner_coercions<D: TypedTransformer>(
    env: Map<Seq<char>, TypeV>,
    s: D::V,
    e: ExprV,
    variables: Map<Seq<char>, TypeV>,
    to_any: bool,
)
    requires
        component_keeps_coercions::<D>(to_any),
        coercions_within(e, to_any),
    ensures
        typed_inner::<D>(env, s, e, variables) matches Some((_, Ok(r)))
            ==> coercions_within(r, to_any),
    decreases e, 1nat,
{
    let p = |x: ExprV| coerces_within(x, to_any);
    lemma_all_nodes_children(e, p);
    match e {
        ExprV::Application { function, argument } => {
            lemma_typed_expression_coercions::<D>(env, s, *function, variables, to_any);
            if let Some((s1, Ok(f))) = typed_expression::<D>(env, s, *function, variables) {
                lemma_typed_expression_coercions::<D>(env, s1, *argument, variables, to_any);
            }
        },
        ExprV::Case { name, argument, alternatives, .. } => {
            lemma_typed_expression_coercions::<D>(env, s, *argument, variables, to_any);
            if let Some((s1, Ok(a))) = typed_expression::<D>(env, s, *argument, variables) {
                lemma_typed_alternatives_coercions::<D>(env, s1, name, alternatives, variables, to_any);
            }
        },
        ExprV::If { condition, then, else_ } => {
            lemma_typed_expression_coercions::<D>(env, s, *condition, variables, to_any);
            if let Some((s1, Ok(c))) = typed_expression::<D>(env, s, *condition, variables) {
                lemma_typed_expression_coercions::<D>(env, s1, *then, variables, to_any);
                if let Some((s2, Ok(t))) = typed_expression::<D>(env, s1, *then, variables) {
                    lemma_typed_expression_coercions::<D>(env, s2, *else_, variables, to_any);
                }
            }
        },
        ExprV::Let { definitions, expression } => {
            let scope = function_variables(variables, definitions);
            lemma_typed_let_definitions_coercions::<D>(env, s, definitions, scope, to_any);
            if let Some((s1, Ok((ds, inner)))) = typed_let_definitions::<D>(
                env,
                s,
                definitions,
                scope,
            ) {
                lemma_typed_expression_coercions::<D>(env, s1, *expression, inner, to_any);
            }
        },
        ExprV::List { elements } => {
            lemma_typed_list_elements_coercions::<D>(env, s, elements, variables, to_any);
        },
        ExprV::ListCase {
            argument,
            type_,
            first_name,
            rest_name,
            empty_alternative,
            non_empty_alternative,
        } => {
            lemma_typed_expression_coercions::<D>(env, s, *argument, variables, to_any);
            if let Some((s1, Ok(a))) = typed_expression::<D>(env, s, *argument, variables) {
                lemma_typed_expression_coercions::<D>(env, s1, *empty_alternative, variables, to_any);
                if let Some((s2, Ok(y))) = typed_expression::<D>(
                    env,
                    s1,
                    *empty_alternative,
                    variables,
                ) {
                    if let Ok(TypeV::List { element }) = resolve(env, type_) {
                        lemma_typed_expression_coercions::<D>(
                            env,
                            s2,
                            *non_empty_alternative,
                            variables.insert(first_name, *element).insert(rest_name, type_),
                            to_any,
                        );
                    }
                }
            }
        },
        ExprV::Operation { lhs, rhs, .. } => {
            lemma_typed_expression_coercions::<D>(env, s, *lhs, variables, to_any);
            if let Some((s1, Ok(l))) = typed_expression::<D>(env, s, *lhs, variables) {
                lemma_typed_expression_coercions::<D>(env, s1, *rhs, variables, to_any);
            }
        },
        ExprV::RecordConstruction { elements, .. } => {
            lemma_typed_record_elements_coercions::<D>(env, s, elements, variables, to_any);
        },
        ExprV::RecordElementOperation { argument, .. } => {
            lemma_typed_expression_coercions::<D>(env, s, *argument, variables, to_any);
        },
        _ => {},
    }
}

proof fn lemma_typed_alternatives_coercions<D: TypedTransformer>(
    env: Map<Seq<char>, TypeV>,
    s: D::V,
    name: Seq<char>,
    alternatives: Seq<AlternativeV>,
    variables: Map<Seq<char>, TypeV>,
    to_any: bool,
)
    requires
        component_keeps_coercions::<D>(to_any),
        all_nodes_alternatives(alternatives, |x: ExprV| coerces_within(x, to_any)),
    ensures
        typed_alternatives::<D>(env, s, name, alternatives, variables) matches Some((_, Ok(r)))
            ==> all_nodes_alternatives(r, |x: ExprV| coerces_within(x, to_any)),
    decreases alternatives,
{
    let p = |x: ExprV| coerces_within(x, to_any);
    if alternatives.len() > 0 {
        lemma_typed_alternatives_coercions::<D>(env, s, name, alternatives.drop_last(), variables, to_any);
        if let Some((s1, Ok(previous))) = typed_alternatives::<D>(
            env,
            s,
            name,
            alternatives.drop_last(),
            variables,
        ) {
            let last = alternatives.last();
            lemma_all_nodes_alternatives(alternatives, p, alternatives.len() - 1);
            lemma_typed_expression_coercions::<D>(
                env,
                s1,
                last.expression,
                variables.insert(name, last.type_), to_any,
            );
            if let Some((s2, Ok(x))) = typed_expression::<D>(
                env,
                s1,
                last.expression,
                variables.insert(name, last.type_),
            ) {
                let a = AlternativeV { type_: last.type_, expression: x };
                assert(previous.push(a).drop_last() =~= previous);
            }
        }
    }
}

proof fn lemma_typed_let_definitions_coercions<D: TypedTransformer>(
    env: Map<Seq<char>, TypeV>,
    s: D::V,
    definitions: Seq<DefinitionV>,
    variables: Map<Seq<char>, TypeV>,
    to_any: bool,
)
    requires
        component_keeps_coercions::<D>(to_any),
        all_nodes_definitions(definitions, |x: ExprV| coerces_within(x, to_any)),
    ensures
        typed_let_definitions::<D>(env, s, definitions, variables) matches Some((_, Ok((r, _))))
            ==> all_nodes_definitions(r, |x: ExprV| coerces_within(x, to_any)),
    decreases definitions,
{
    let p = |x: ExprV| coerces_within(x, to_any);
    if definitions.len() > 0 {
        lemma_typed_let_definitions_coercions::<D>(env, s, definitions.drop_last(), variables, to_any);
        if let Some((s1, Ok((previous, scope)))) = typed_let_definitions::<D>(
            env,
            s,
            definitions.drop_last(),
            variables,
        ) {
            lemma_all_nodes_definitions(definitions, p, definitions.len() - 1);
            lemma_typed_definition_coercions::<D>(env, s1, definitions.last(), scope, to_any);
            if let Some((s2, Ok(d))) = typed_definition::<D>(env, s1, definitions.last(), scope) {
                assert(previous.push(d).drop_last() =~= previous);
                assert(previous.push(d).last() == d);
                assert(d.body().all_nodes(p));
            }
        }
    }
}

proof fn lemma_typed_definition_coercions<D: TypedTransformer>(
    env: Map<Seq<char>, TypeV>,
    s: D::V,
    d: DefinitionV,
    variables: Map<Seq<char>, TypeV>,
    to_any: bool,
)
    requires
        component_keeps_coercions::<D>(to_any),
        coercions_within(d.body(), to_any),
    ensures
        typed_definition::<D>(env, s, d, variables) matches Some((_, Ok(r)))
            ==> coercions_within(r.body(), to_any),
    decreases d,
{
    match d {
        DefinitionV::Function { name, arguments, body, type_ } => {
            if let Ok(function_type) = resolve(env, type_) {
                let scope = argument_variables(variables, arguments, function_type);
                lemma_typed_expression_coercions::<D>(env, s, body, scope, to_any);
                if let Some((s1, Ok(b))) = typed_expression::<D>(env, s, body, scope) {
                    let transformed = DefinitionV::Function { name, arguments, body: b, type_ };
                    assert(transformed.body() == b);
                }
            }
        },
        DefinitionV::Value { name, body, type_ } => {
            lemma_typed_expression_coercions::<D>(env, s, body, variables, to_any);
            if let Some((s1, Ok(b))) = typed_expression::<D>(env, s, body, variables) {
                let transformed = DefinitionV::Value { name, body: b, type_ };
                assert(transformed.body() == b);
            }
        },
    }
}

proof fn lemma_typed_list_elements_coercions<D: TypedTransformer>(
    env: Map<Seq<char>, TypeV>,
    s: D::V,
    elements: Seq<ListElementV>,
    variables: Map<Seq<char>, TypeV>,
    to_any: bool,
)
    requires
        component_keeps_coercions::<D>(to_any),
        all_nodes_list_elements(elements, |x: ExprV| coerces_within(x, to_any)),
    ensures
        typed_list_elements::<D>(env, s, elements, variables) matches Some((_, Ok(r)))
            ==> all_nodes_list_elements(r, |x: ExprV| coerces_within(x, to_any)),
    decreases elements,
{
    let p = |x: ExprV| coerces_within(x, to_any);
    if elements.len() > 0 {
        lemma_typed_list_elements_coercions::<D>(env, s, elements.drop_last(), variables, to_any);
        if let Some((s1, Ok(previous))) = typed_list_elements::<D>(
            env,
            s,
            elements.drop_last(),
            variables,
        ) {
            lemma_all_nodes_list_elements(elements, p, elements.len() - 1);
            match elements.last() {
                ListElementV::Multiple(e) => {
                    lemma_typed_expression_coercions::<D>(env, s1, e, variables, to_any);
                    if let Some((s2, Ok(x))) = typed_expression::<D>(env, s1, e, variables) {
                        assert(previous.push(ListElementV::Multiple(x)).drop_last() =~= previous);
                    }
                },
                ListElementV::Single(e) => {
                    lemma_typed_expression_coercions::<D>(env, s1, e, variables, to_any);
                    if let Some((s2, Ok(x))) = typed_expression::<D>(env, s1, e, variables) {
                        assert(previous.push(ListElementV::Single(x)).drop_last() =~= previous);
                    }
                },
            }
        }
    }
}

proof fn lemma_typed_record_elements_coercions<D: TypedTransformer>(
    env: Map<Seq<char>, TypeV>,
    s: D::V,
    elements: Seq<(Seq<char>, ExprV)>,
    variables: Map<Seq<char>, TypeV>,
    to_any: bool,
)
    requires
        component_keeps_coercions::<D>(to_any),
        all_nodes_record_elements(elements, |x: ExprV| coerces_within(x, to_any)),
    ensures
        typed_record_elements::<D>(env, s, elements, variables) matches Some((_, Ok(r)))
            ==> all_nodes_record_elements(r, |x: ExprV| coerces_within(x, to_any)),
    decreases elements,
{
    let p = |x: ExprV| coerces_within(x, to_any);
    if elements.len() > 0 {
        lemma_typed_record_elements_coercions::<D>(env, s, elements.drop_last(), variables, to_any);
        if let Some((s1, Ok(previous))) = typed_record_elements::<D>(
            env,
            s,
            elements.drop_last(),
            variables,
        ) {
            lemma_all_nodes_record_elements(elements, p, elements.len() - 1);
            lemma_typed_expression_coercions::<D>(env, s1, elements.last().1, variables, to_any);
            if let Some((s2, Ok(x))) = typed_expression::<D>(env, s1, elements.last().1, variables) {
                assert(previous.push((elements.last().0, x)).drop_last() =~= previous);
            }
        }
    }
}

proof fn lemma_typed_module_definitions_coercions<D: TypedTransformer>(
    env: Map<Seq<char>, TypeV>,
    s: D::V,
    definitions: Seq<DefinitionV>,
    variables: Map<Seq<char>, TypeV>,
    to_any: bool,
)
    requires
        component_keeps_coercions::<D>(to_any),
        all_nodes_definitions(definitions, |x: ExprV| coerces_within(x, to_any)),
    ensures
        typed_module_definitions::<D>(env, s, definitions, variables) matches Some((_, Ok(r)))
            ==> all_nodes_definitions(r, |x: ExprV| coerces_within(x, to_any)),
    decreases definitions.len(),
{
    let p = |x: ExprV| coerces_within(x, to_any);
    if definitions.len() > 0 {
        lemma_typed_module_definitions_coercions::<D>(env, s, definitions.drop_last(), variables, to_any);
        if let Some((s1, Ok(previous))) = typed_module_definitions::<D>(
            env,
            s,
            definitions.drop_last(),
            variables,
        ) {
            lemma_all_nodes_definitions(definitions, p, definitions.len() - 1);
            lemma_typed_definition_coercions::<D>(env, s1, definitions.last(), variables, to_any);
            if let Some((s2, Ok(d))) = typed_definition::<D>(
                env,
                s1,
                definitions.last(),
                variables,
            ) {
                assert(previous.push(d).drop_last() =~= previous);
                assert(previous.push(d).last() == d);
                assert(d.body().all_nodes(p));
            }
        }
    }
}

/// A typed transformation whose component keeps every coercion going to a
/// union (or the any type where `to_any` holds) keeps it so in a whole
/// module.
pub proof fn lemma_typed_module_coercions<D: TypedTransformer>(
    env: Map<Seq<char>, TypeV>,
    s: D::V,
    m: ModuleV,
    to_any: bool,
)
    requires
        component_keeps_coercions::<D>(to_any),
        all_nodes_definitions(m.definitions, |x: ExprV| coerces_within(x, to_any)),
    ensures
        typed_module::<D>(env, s, m) matches Some((_, Ok(r))) ==> all_nodes_definitions(
            r.definitions,
            |x: ExprV| coerces_within(x, to_any),
        ),
{
    lemma_typed_module_definitions_coercions::<D>(env, s, m.definitions, module_variables(m), to_any);
}

/// The type coercion transformer keeps every coercion going to a union or the
/// any type: in a module whose coercions all do, the coercions it inserts do
/// too.
pub proof fn lemma_transformer_coercions(
    env: Map<Seq<char>, TypeV>,
    s: (Map<Seq<char>, TypeV>, bool),
    m: ModuleV,
)
    requires
        all_nodes_definitions(m.definitions, |x: ExprV| coerces_within(x, true)),
    ensures
        typed_module::<TypeCoercionTransformer>(env, s, m) matches Some((_, Ok(r)))
            ==> all_nodes_definitions(r.definitions, |x: ExprV| coerces_within(x, true)),
{
    assert forall|st: (Map<Seq<char>, TypeV>, bool), x: ExprV, variables: Map<Seq<char>, TypeV>|
        coercions_within(x, true) && TypeCoercionTransformer::transforms_expression(
            st,
            x,
            variables,
        ) implies expression_result_keeps_coercions(
        (#[trigger] TypeCoercionTransformer::transformed_expression(st, x, variables)).1,
        true,
    ) by {
        lemma_coercions_within(st.0, x, variables, true);
    }
    assert forall|st: (Map<Seq<char>, TypeV>, bool), d: DefinitionV, variables: Map<Seq<char>, TypeV>|
        coercions_within(d.body(), true) && TypeCoercionTransformer::transforms_definition(
            st,
            d,
            variables,
        ) implies definition_result_keeps_coercions(
        (#[trigger] TypeCoercionTransformer::transformed_definition(st, d, variables)).1,
        true,
    ) by {
        lemma_definition_coercions_within(st.0, d, variables, true);
    }
    lemma_typed_module_coercions::<TypeCoercionTransformer>(env, s, m, true);
}

} // verus!
