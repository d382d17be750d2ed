//! Transformation of equal operations into code specific to the operands' type.
use crate::ast::{
    all_nodes_alternatives, all_nodes_definitions, view_alternatives, view_alternatives_rec, view_definitions, view_definitions_rec,
    Alternative, AlternativeV, Definition, DefinitionV, ExprV, Expression, FunctionDefinition,
    Operator,
};
use crate::configuration::ListTypeConfiguration;
use crate::error::{view_result, CompileError, ErrorV};
use crate::names::{NameGenerator, NameGeneratorV};
use crate::reference_type_resolver::{resolve, ReferenceTypeResolver};
use crate::type_comparability_checker::{
    comparability_decidable, comparable, TypeComparabilityChecker,
};
use crate::type_equality_checker::{equality_decidable, types_equal, TypeEqualityChecker};
use crate::type_order::{sort_type_vec, sort_types};
use crate::types::{view_types, view_types_rec, Type, TypeV};
use vstd::prelude::*;

verus! {

pub open spec fn variable_v(name: Seq<char>) -> ExprV {
    ExprV::Variable { name }
}

pub open spec fn boolean_v(value: bool) -> ExprV {
    ExprV::Boolean { value }
}

pub open spec fn application_v(function: ExprV, argument: ExprV) -> ExprV {
    ExprV::Application { function: Box::new(function), argument: Box::new(argument) }
}

pub open spec fn if_v(condition: ExprV, then: ExprV, else_: ExprV) -> ExprV {
    ExprV::If { condition: Box::new(condition), then: Box::new(then), else_: Box::new(else_) }
}

pub open spec fn case_v(
    type_: TypeV,
    name: Seq<char>,
    argument: ExprV,
    alternatives: Seq<AlternativeV>,
) -> ExprV {
    ExprV::Case { type_, name, argument: Box::new(argument), alternatives }
}

/// The type `Any -> Any -> Boolean`.
pub open spec fn element_equal_type() -> TypeV {
    TypeV::Function {
        argument: Box::new(TypeV::Any),
        result: Box::new(
            TypeV::Function { argument: Box::new(TypeV::Any), result: Box::new(TypeV::Boolean) },
        ),
    }
}

/// The function `$equalElements` that compares two list elements of the given
/// type with `equal`, and answers `false` for values of other types.
pub open spec fn equal_elements_definition(element: TypeV, equal: ExprV) -> DefinitionV {
    DefinitionV::Function {
        name: "$equalElements"@,
        arguments: seq!["lhs"@, "rhs"@],
        body: case_v(
            TypeV::Any,
            "lhs"@,
            variable_v("lhs"@),
            seq![
                AlternativeV {
                    type_: element,
                    expression: case_v(
                        TypeV::Any,
                        "rhs"@,
                        variable_v("rhs"@),
                        seq![
                            AlternativeV { type_: element, expression: equal },
                            AlternativeV { type_: TypeV::Any, expression: boolean_v(false) },
                        ],
                    ),
                },
                AlternativeV { type_: TypeV::Any, expression: boolean_v(false) },
            ],
        ),
        type_: element_equal_type(),
    }
}

/// The comparison of two lists: the list equality function applied to
/// `$equalElements` and both lists.
pub open spec fn list_equal(
    equal_function: Seq<char>,
    element: TypeV,
    equal: ExprV,
    lhs: ExprV,
    rhs: ExprV,
) -> ExprV {
    ExprV::Let {
        definitions: seq![equal_elements_definition(element, equal)],
        expression: Box::new(
            application_v(
                application_v(
                    application_v(variable_v(equal_function), variable_v("$equalElements"@)),
                    lhs,
                ),
                rhs,
            ),
        ),
    }
}

/// The transformation of `lhs == rhs` at type `t`, looking at most `fuel`
/// levels deep: `None` when the fuel runs out or a type met is not inferred or
/// not comparable in finite time. Otherwise the name generator after the
/// transformation and the transformed expression or the error.
///
/// The type is resolved first. Booleans compare by if expressions; `None`
/// values are always equal; numbers and strings compare by the primitive
/// operation; lists by the list equality function with a function that
/// compares elements; records by their record's equality function when the
/// record type is comparable; unions by a case expression over both operands,
/// with one alternative per member type in the ordering of types,
/// which compares values of equal member types and answers `false` otherwise.
/// Any and function types cannot be compared.
pub open spec fn transform_equal_fuel(
    env: Map<Seq<char>, TypeV>,
    equal_function: Seq<char>,
    g: NameGeneratorV,
    t: TypeV,
    lhs: ExprV,
    rhs: ExprV,
    fuel: nat,
) -> Option<(NameGeneratorV, Result<ExprV, ErrorV>)>
    decreases fuel, 0nat, 0nat,
{
    if fuel == 0 {
        None
    } else {
        match resolve(env, t) {
            Err(e) => Some((g, Err(e))),
            Ok(resolved) => match resolved {
                TypeV::Any => Some((g, Err(ErrorV::AnyEqualOperation))),
                TypeV::Boolean => Some(
                    (
                        g,
                        Ok(
                            if_v(
                                lhs,
                                if_v(rhs, boolean_v(true), boolean_v(false)),
                                if_v(rhs, boolean_v(false), boolean_v(true)),
                            ),
                        ),
                    ),
                ),
                TypeV::Function { .. } => Some((g, Err(ErrorV::FunctionEqualOperation))),
                TypeV::List { element } => match transform_equal_fuel(
                    env,
                    equal_function,
                    g,
                    *element,
                    variable_v("lhs"@),
                    variable_v("rhs"@),
                    (fuel - 1) as nat,
                ) {
                    None => None,
                    Some((g1, Err(e))) => Some((g1, Err(e))),
                    Some((g1, Ok(equal))) => Some(
                        (g1, Ok(list_equal(equal_function, *element, equal, lhs, rhs))),
                    ),
                },
                TypeV::NoneType => Some((g, Ok(boolean_v(true)))),
                TypeV::Number => Some(
                    (
                        g,
                        Ok(
                            ExprV::Operation {
                                type_: t,
                                operator: Operator::Equal,
                                lhs: Box::new(lhs),
                                rhs: Box::new(rhs),
                            },
                        ),
                    ),
                ),
                TypeV::String => Some(
                    (
                        g,
                        Ok(
                            ExprV::Operation {
                                type_: t,
                                operator: Operator::Equal,
                                lhs: Box::new(lhs),
                                rhs: Box::new(rhs),
                            },
                        ),
                    ),
                ),
                TypeV::Record { name, .. } => if !comparability_decidable(env, t) {
                    None
                } else {
                    match comparable(env, t) {
                        Err(e) => Some((g, Err(e))),
                        Ok(true) => Some(
                            (
                                g,
                                Ok(
                                    application_v(
                                        application_v(variable_v(name + ".$equal"@), lhs),
                                        rhs,
                                    ),
                                ),
                            ),
                        ),
                        Ok(false) => Some((g, Err(ErrorV::RecordEqualOperation))),
                    }
                },
                TypeV::Union { types } => {
                    let lhs_name = g.name();
                    let rhs_name = g.next().name();
                    match union_alternatives(
                        env,
                        equal_function,
                        g.next().next(),
                        resolved,
                        sort_types(types),
                        sort_types(types),
                        lhs_name,
                        rhs_name,
                        rhs,
                        (fuel - 1) as nat,
                    ) {
                        None => None,
                        Some((g1, Err(e))) => Some((g1, Err(e))),
                        Some((g1, Ok(alternatives))) => Some(
                            (g1, Ok(case_v(resolved, lhs_name, lhs, alternatives))),
                        ),
                    }
                },
                _ => None,
            },
        }
    }
}

/// The alternatives of the outer case expression of a union comparison, one
/// for each member type of the left operand, in order.
pub open spec fn union_alternatives(
    env: Map<Seq<char>, TypeV>,
    equal_function: Seq<char>,
    g: NameGeneratorV,
    union: TypeV,
    lhs_types: Seq<TypeV>,
    rhs_types: Seq<TypeV>,
    lhs_name: Seq<char>,
    rhs_name: Seq<char>,
    rhs: ExprV,
    fuel: nat,
) -> Option<(NameGeneratorV, Result<Seq<AlternativeV>, ErrorV>)>
    decreases fuel, 2nat, lhs_types.len(),
{
    if lhs_types.len() == 0 {
        Some((g, Ok(Seq::empty())))
    } else {
        match union_alternatives(
            env,
            equal_function,
            g,
            union,
            lhs_types.drop_last(),
            rhs_types,
            lhs_name,
            rhs_name,
            rhs,
            fuel,
        ) {
            None => None,
            Some((g1, Err(e))) => Some((g1, Err(e))),
            Some((g1, Ok(previous))) => match inner_alternatives(
                env,
                equal_function,
                g1,
                lhs_types.last(),
                rhs_types,
                lhs_name,
                rhs_name,
                fuel,
            ) {
                None => None,
                Some((g2, Err(e))) => Some((g2, Err(e))),
                Some((g2, Ok(inner))) => Some(
                    (
                        g2,
                        Ok(
                            previous.push(
                                AlternativeV {
                                    type_: lhs_types.last(),
                                    expression: case_v(union, rhs_name, rhs, inner),
                                },
                            ),
                        ),
                    ),
                ),
            },
        }
    }
}

/// The alternatives of an inner case expression of a union comparison, one for
/// each member type of the right operand: the comparison at that type where it
/// equals the left operand's type, and `false` otherwise.
pub open spec fn inner_alternatives(
    env: Map<Seq<char>, TypeV>,
    equal_function: Seq<char>,
    g: NameGeneratorV,
    lhs_type: TypeV,
    rhs_types: Seq<TypeV>,
    lhs_name: Seq<char>,
    rhs_name: Seq<char>,
    fuel: nat,
) -> Option<(NameGeneratorV, Result<Seq<AlternativeV>, ErrorV>)>
    decreases fuel, 1nat, rhs_types.len(),
{
    if rhs_types.len() == 0 {
        Some((g, Ok(Seq::empty())))
    } else {
        match inner_alternatives(
            env,
            equal_function,
            g,
            lhs_type,
            rhs_types.drop_last(),
            lhs_name,
            rhs_name,
            fuel,
        ) {
            None => None,
            Some((g1, Err(e))) => Some((g1, Err(e))),
            Some((g1, Ok(previous))) => {
                let rhs_type = rhs_types.last();
                if !equality_decidable(env, lhs_type, rhs_type) {
                    None
                } else {
                    match types_equal(env, lhs_type, rhs_type) {
                        Err(e) => Some((g1, Err(e))),
                        Ok(false) => Some(
                            (
                                g1,
                                Ok(
                                    previous.push(
                                        AlternativeV { type_: rhs_type, expression: boolean_v(false) },
                                    ),
                                ),
                            ),
                        ),
                        Ok(true) => match transform_equal_fuel(
                            env,
                            equal_function,
                            g1,
                            rhs_type,
                            variable_v(lhs_name),
                            variable_v(rhs_name),
                            fuel,
                        ) {
                            None => None,
                            Some((g2, Err(e))) => Some((g2, Err(e))),
                            Some((g2, Ok(x))) => Some(
                                (
                                    g2,
                                    Ok(
                                        previous.push(
                                            AlternativeV { type_: rhs_type, expression: x },
                                        ),
                                    ),
                                ),
                            ),
                        },
                    }
                }
            },
        }
    }
}

/// The transformation of `lhs == rhs` ends.
pub open spec fn equal_transformation_ends(
    env: Map<Seq<char>, TypeV>,
    equal_function: Seq<char>,
    g: NameGeneratorV,
    t: TypeV,
    lhs: ExprV,
    rhs: ExprV,
) -> bool {
    exists|fuel: nat| #[trigger] transform_equal_fuel(env, equal_function, g, t, lhs, rhs, fuel) is Some
}

/// The transformation of `lhs == rhs` in the sense of [`transform_equal_fuel`].
pub open spec fn transform_equal(
    env: Map<Seq<char>, TypeV>,
    equal_function: Seq<char>,
    g: NameGeneratorV,
    t: TypeV,
    lhs: ExprV,
    rhs: ExprV,
) -> (NameGeneratorV, Result<ExprV, ErrorV>) {
    transform_equal_fuel(
        env,
        equal_function,
        g,
        t,
        lhs,
        rhs,
        choose|fuel: nat| #[trigger] transform_equal_fuel(env, equal_function, g, t, lhs, rhs, fuel) is Some,
    )->0
}

/// The truth value of an expression built of boolean literals and if
/// expressions; `None` for other expressions.
pub open spec fn boolean_value(e: ExprV) -> Option<bool>
    decreases e,
{
    match e {
        ExprV::Boolean { value } => Some(value),
        ExprV::If { condition, then, else_ } => match boolean_value(*condition) {
            Some(true) => boolean_value(*then),
            Some(false) => boolean_value(*else_),
            None => None,
        },
        _ => None,
    }
}

/// An equal operation at a type that resolves to `None` or to booleans is
/// transformed into an expression that decides the equality of its operands:
/// two `None` values are always equal, whatever the operands are, and two
/// boolean literals are equal exactly when their values are. Numbers and
/// strings are compared by the primitive equal operation on the operands as
/// they are, and the any and function types cannot be compared. The name
/// generator is left as it was in all these cases.
pub proof fn lemma_transform_equal_decides(
    env: Map<Seq<char>, TypeV>,
    equal_function: Seq<char>,
    g: NameGeneratorV,
    t: TypeV,
    lhs: ExprV,
    rhs: ExprV,
)
    requires
        equal_transformation_ends(env, equal_function, g, t, lhs, rhs),
    ensures
        resolve(env, t) == Ok::<TypeV, ErrorV>(TypeV::NoneType) ==> transform_equal(
            env,
            equal_function,
            g,
            t,
            lhs,
            rhs,
        ).0 == g && (transform_equal(env, equal_function, g, t, lhs, rhs).1 matches Ok(x)
            && boolean_value(x) == Some(true)),
        resolve(env, t) == Ok::<TypeV, ErrorV>(TypeV::Boolean) ==> (lhs matches ExprV::Boolean {
            value: a,
        } ==> (rhs matches ExprV::Boolean { value: b } ==> transform_equal(
            env,
            equal_function,
            g,
            t,
            lhs,
            rhs,
        ).0 == g && (transform_equal(env, equal_function, g, t, lhs, rhs).1 matches Ok(x)
            && boolean_value(x) == Some(a == b)))),
        resolve(env, t) == Ok::<TypeV, ErrorV>(TypeV::Number) || resolve(env, t) == Ok::<
            TypeV,
            ErrorV,
        >(TypeV::String) ==> transform_equal(env, equal_function, g, t, lhs, rhs).0 == g && (
        transform_equal(env, equal_function, g, t, lhs, rhs).1 matches Ok(
            ExprV::Operation { operator, lhs: l, rhs: r, .. },
        ) && operator == Operator::Equal && *l == lhs && *r == rhs),
        resolve(env, t) == Ok::<TypeV, ErrorV>(TypeV::Any) ==> transform_equal(
            env,
            equal_function,
            g,
            t,
            lhs,
            rhs,
        ) == (g, Err::<ExprV, ErrorV>(ErrorV::AnyEqualOperation)),
        resolve(env, t) matches Ok(TypeV::Function { .. }) ==> transform_equal(
            env,
            equal_function,
            g,
            t,
            lhs,
            rhs,
        ) == (g, Err::<ExprV, ErrorV>(ErrorV::FunctionEqualOperation)),
{
    let fuel = choose|fuel: nat|
        #[trigger] transform_equal_fuel(env, equal_function, g, t, lhs, rhs, fuel) is Some;
    assert(fuel > 0);
    if let (ExprV::Boolean { value: a }, ExprV::Boolean { value: b }) = (lhs, rhs) {
        let when_true = if_v(rhs, boolean_v(true), boolean_v(false));
        let when_false = if_v(rhs, boolean_v(false), boolean_v(true));
        assert(boolean_value(lhs) == Some(a));
        assert(boolean_value(rhs) == Some(b));
        assert(boolean_value(boolean_v(true)) == Some(true));
        assert(boolean_value(boolean_v(false)) == Some(false));
        assert(boolean_value(when_true) == Some(b));
        assert(boolean_value(when_false) == Some(!b));
        assert(boolean_value(if_v(lhs, when_true, when_false)) == Some(a == b));
    }
}

/// The models of a result that holds alternatives.
pub open spec fn view_alternatives_result(r: Result<Vec<Alternative>, CompileError>) -> Result<
    Seq<AlternativeV>,
    ErrorV,
> {
    match r {
        Ok(v) => Ok(view_alternatives(v@)),
        Err(e) => Err(e@),
    }
}

fn variable(name: &str) -> (r: Expression)
    ensures
        r@ == variable_v(name@),
{
    Expression::Variable { name: String::from_str(name) }
}

fn boolean(value: bool) -> (r: Expression)
    ensures
        r@ == boolean_v(value),
{
    Expression::Boolean { value }
}

fn application(function: Expression, argument: Expression) -> (r: Expression)
    ensures
        r@ == application_v(function@, argument@),
{
    Expression::Application { function: Box::new(function), argument: Box::new(argument) }
}

fn if_(condition: Expression, then: Expression, else_: Expression) -> (r: Expression)
    ensures
        r@ == if_v(condition@, then@, else_@),
{
    Expression::If { condition: Box::new(condition), then: Box::new(then), else_: Box::new(else_) }
}

fn case(type_: Type, name: String, argument: Expression, alternatives: Vec<Alternative>) -> (r:
    Expression)
    ensures
        r@ == case_v(type_@, name@, argument@, view_alternatives(alternatives@)),
{
    broadcast use crate::ast::group_ast_view;

    let r = Expression::Case { type_, name, argument: Box::new(argument), alternatives };
    assert(view_alternatives_rec(alternatives@) == view_alternatives(alternatives@));
    r
}

/// Transforms equal operations into comparisons specific to the type of their
/// operands.
pub struct EqualOperationTransformer {
    name_generator: NameGenerator,
    reference_type_resolver: ReferenceTypeResolver,
    type_comparability_checker: TypeComparabilityChecker,
    type_equality_checker: TypeEqualityChecker,
    list_type_configuration: ListTypeConfiguration,
}

impl EqualOperationTransformer {
    /// The types that references resolve to.
    pub closed spec fn environment(&self) -> Map<Seq<char>, TypeV> {
        self.reference_type_resolver.environment()
    }

    /// The name of the list equality function.
    pub closed spec fn equal_function_name(&self) -> Seq<char> {
        self.list_type_configuration@.equal_function_name
    }

    /// The generator of the names of the compared operands of unions.
    pub closed spec fn names(&self) -> NameGeneratorV {
        self.name_generator@
    }

    /// All checkers resolve references in the same environment.
    pub closed spec fn well_formed(&self) -> bool {
        &&& self.type_comparability_checker.reference_type_resolver.environment()
            == self.environment()
        &&& self.type_equality_checker.reference_type_resolver.environment()
            == self.environment()
    }

    pub fn new(
        reference_type_resolver: ReferenceTypeResolver,
        type_comparability_checker: TypeComparabilityChecker,
        type_equality_checker: TypeEqualityChecker,
        list_type_configuration: ListTypeConfiguration,
    ) -> (r: Self)
        ensures
            r.environment() == reference_type_resolver.environment(),
            r.equal_function_name() == list_type_configuration@.equal_function_name,
            r.names() == (NameGeneratorV { prefix: "equal_operation_argument_"@, index: 0 }),
            r.well_formed() <==> (type_comparability_checker.reference_type_resolver.environment()
                == reference_type_resolver.environment()
                && type_equality_checker.reference_type_resolver.environment()
                == reference_type_resolver.environment()),
    {
        EqualOperationTransformer {
            name_generator: NameGenerator::new("equal_operation_argument_"),
            reference_type_resolver,
            type_comparability_checker,
            type_equality_checker,
            list_type_configuration,
        }
    }

    /// Transforms an equal operation as [`transform_equal`] says, for which the
    /// checkers must see the resolver's types; other expressions are kept.
    pub fn transform(&mut self, expression: &Expression) -> (r: Result<Expression, CompileError>)
        requires
            match expression@ {
                ExprV::Operation { type_, operator: Operator::Equal, lhs, rhs } => old(
                    self,
                ).well_formed() && equal_transformation_ends(
                    old(self).environment(),
                    old(self).equal_function_name(),
                    old(self).names(),
                    type_,
                    *lhs,
                    *rhs,
                ),
                _ => true,
            },
        ensures
            old(self).well_formed() ==> final(self).well_formed(),
            final(self).environment() == old(self).environment(),
            final(self).equal_function_name() == old(self).equal_function_name(),
            match expression@ {
                ExprV::Operation { type_, operator: Operator::Equal, lhs, rhs } => (
                    final(self).names(),
                    view_result(r),
                ) == transform_equal(
                    old(self).environment(),
                    old(self).equal_function_name(),
                    old(self).names(),
                    type_,
                    *lhs,
                    *rhs,
                ),
                _ => final(self).names() == old(self).names() && (r matches Ok(x) && x@
                    == expression@),
            },
    {
        match expression {
            Expression::Operation { type_, operator: Operator::Equal, lhs, rhs } => {
                let ghost fuel = choose|fuel: nat|
                    #[trigger] transform_equal_fuel(
                        self.environment(),
                        self.equal_function_name(),
                        self.names(),
                        type_@,
                        lhs@,
                        rhs@,
                        fuel,
                    ) is Some;
                self.transform_equal_operation(type_, lhs, rhs, Ghost(fuel))
            },
            _ => Ok(expression.deep_clone()),
        }
    }

    fn transform_equal_operation(
        &mut self,
        type_: &Type,
        lhs: &Expression,
        rhs: &Expression,
        Ghost(fuel): Ghost<nat>,
    ) -> (r: Result<Expression, CompileError>)
        requires
            old(self).well_formed(),
            transform_equal_fuel(
                old(self).environment(),
                old(self).equal_function_name(),
                old(self).names(),
                type_@,
                lhs@,
                rhs@,
                fuel,
            ) is Some,
        ensures
            final(self).well_formed(),
            final(self).environment() == old(self).environment(),
            final(self).equal_function_name() == old(self).equal_function_name(),
            (final(self).names(), view_result(r)) == transform_equal_fuel(
                old(self).environment(),
                old(self).equal_function_name(),
                old(self).names(),
                type_@,
                lhs@,
                rhs@,
                fuel,
            )->0,
        decreases fuel, 0nat, 0nat,
    {
        broadcast use crate::types::group_type_view, crate::ast::group_ast_view;

        let resolved = self.reference_type_resolver.resolve(type_)?;
        match &resolved {
            Type::Any => Err(CompileError::AnyEqualOperation),
            Type::Boolean => {
                let inner_true = if_(rhs.deep_clone(), boolean(true), boolean(false));
                let inner_false = if_(rhs.deep_clone(), boolean(false), boolean(true));
                Ok(if_(lhs.deep_clone(), inner_true, inner_false))
            },
            Type::Function { .. } => Err(CompileError::FunctionEqualOperation),
            Type::List { element } => {
                let lhs_variable = variable("lhs");
                let rhs_variable = variable("rhs");
                let equal = self.transform_equal_operation(
                    element,
                    &lhs_variable,
                    &rhs_variable,
                    Ghost((fuel - 1) as nat),
                )?;
                let ghost ev = (**element)@;
                let ghost equal_v = equal@;
                let mut inner: Vec<Alternative> = Vec::new();
                inner.push(Alternative { type_: element.deep_clone(), expression: equal });
                inner.push(Alternative { type_: Type::Any, expression: boolean(false) });
                assert(view_alternatives(inner@) =~= seq![
                    AlternativeV { type_: ev, expression: equal_v },
                    AlternativeV { type_: TypeV::Any, expression: boolean_v(false) },
                ]);
                let inner_case = case(Type::Any, String::from_str("rhs"), variable("rhs"), inner);
                let ghost inner_case_v = inner_case@;
                let mut outer: Vec<Alternative> = Vec::new();
                outer.push(Alternative { type_: element.deep_clone(), expression: inner_case });
                outer.push(Alternative { type_: Type::Any, expression: boolean(false) });
                assert(view_alternatives(outer@) =~= seq![
                    AlternativeV { type_: ev, expression: inner_case_v },
                    AlternativeV { type_: TypeV::Any, expression: boolean_v(false) },
                ]);
                let body = case(Type::Any, String::from_str("lhs"), variable("lhs"), outer);
                let mut arguments: Vec<String> = Vec::new();
                arguments.push(String::from_str("lhs"));
                arguments.push(String::from_str("rhs"));
                let any1 = Type::Any;
                let any2 = Type::Any;
                let boolean_type = Type::Boolean;
                assert(any1@ == TypeV::Any && any2@ == TypeV::Any);
                assert(boolean_type@ == TypeV::Boolean);
                let result_type = Type::Function {
                    argument: Box::new(any1),
                    result: Box::new(boolean_type),
                };
                assert(result_type@ == TypeV::Function {
                    argument: Box::new(TypeV::Any),
                    result: Box::new(TypeV::Boolean),
                });
                let element_type = Type::Function {
                    argument: Box::new(any2),
                    result: Box::new(result_type),
                };
                assert(element_type@ == element_equal_type());
                let definition = Definition::FunctionDefinition(
                    FunctionDefinition {
                        name: String::from_str("$equalElements"),
                        arguments,
                        body,
                        type_: element_type,
                    },
                );
                let ghost dv = definition@;
                assert(dv->Function_arguments =~= seq!["lhs"@, "rhs"@]);
                assert(dv == equal_elements_definition(ev, equal_v));
                let mut definitions: Vec<Definition> = Vec::new();
                definitions.push(definition);
                assert(view_definitions(definitions@) =~= seq![dv]);
                assert(view_definitions_rec(definitions@) == view_definitions(definitions@));
                let function = application(
                    variable(self.list_type_configuration.equal_function_name()),
                    variable("$equalElements"),
                );
                let applied = application(application(function, lhs.deep_clone()), rhs.deep_clone());
                let ghost applied_v = applied@;
                let r = Expression::Let { definitions, expression: Box::new(applied) };
                assert(r@ == list_equal(self.equal_function_name(), ev, equal_v, lhs@, rhs@));
                Ok(r)
            },
            Type::NoneType => Ok(boolean(true)),
            Type::Number => Ok(
                Expression::Operation {
                    type_: type_.deep_clone(),
                    operator: Operator::Equal,
                    lhs: Box::new(lhs.deep_clone()),
                    rhs: Box::new(rhs.deep_clone()),
                },
            ),
            Type::String => Ok(
                Expression::Operation {
                    type_: type_.deep_clone(),
                    operator: Operator::Equal,
                    lhs: Box::new(lhs.deep_clone()),
                    rhs: Box::new(rhs.deep_clone()),
                },
            ),
            Type::Record { name, .. } => {
                if self.type_comparability_checker.check(type_)? {
                    let function_name = name.clone().concat(".$equal");
                    Ok(
                        application(
                            application(variable(function_name.as_str()), lhs.deep_clone()),
                            rhs.deep_clone(),
                        ),
                    )
                } else {
                    Err(CompileError::RecordEqualOperation)
                }
            },
            Type::Union { types } => {
                assert(view_types_rec(types@) == view_types(types@));
                let sorted = sort_type_vec(types);
                assert(view_types(sorted@).take(sorted@.len() as int) =~= view_types(sorted@));
                let lhs_name = self.name_generator.generate();
                let rhs_name = self.name_generator.generate();
                let alternatives = self.union_alternatives(
                    &resolved,
                    &sorted,
                    sorted.len(),
                    &sorted,
                    &lhs_name,
                    &rhs_name,
                    rhs,
                    Ghost((fuel - 1) as nat),
                )?;
                Ok(case(resolved.deep_clone(), lhs_name, lhs.deep_clone(), alternatives))
            },
            _ => {
                assert(false);
                Err(CompileError::AnyEqualOperation)
            },
        }
    }

    fn union_alternatives(
        &mut self,
        union: &Type,
        lhs_types: &Vec<Type>,
        n: usize,
        rhs_types: &Vec<Type>,
        lhs_name: &String,
        rhs_name: &String,
        rhs: &Expression,
        Ghost(fuel): Ghost<nat>,
    ) -> (r: Result<Vec<Alternative>, CompileError>)
        requires
            n <= lhs_types@.len(),
            old(self).well_formed(),
            union_alternatives(
                old(self).environment(),
                old(self).equal_function_name(),
                old(self).names(),
                union@,
                view_types(lhs_types@).take(n as int),
                view_types(rhs_types@),
                lhs_name@,
                rhs_name@,
                rhs@,
                fuel,
            ) is Some,
        ensures
            final(self).well_formed(),
            final(self).environment() == old(self).environment(),
            final(self).equal_function_name() == old(self).equal_function_name(),
            (final(self).names(), view_alternatives_result(r)) == union_alternatives(
                old(self).environment(),
                old(self).equal_function_name(),
                old(self).names(),
                union@,
                view_types(lhs_types@).take(n as int),
                view_types(rhs_types@),
                lhs_name@,
                rhs_name@,
                rhs@,
                fuel,
            )->0,
        decreases fuel, 2nat, n,
    {
        if n == 0 {
            let r: Vec<Alternative> = Vec::new();
            assert(view_alternatives(r@) =~= Seq::<AlternativeV>::empty());
            return Ok(r);
        }
        let ghost s = view_types(lhs_types@).take(n as int);
        assert(s.drop_last() =~= view_types(lhs_types@).take(n - 1));
        assert(s.last() == lhs_types@[n - 1]@);
        let mut previous = self.union_alternatives(
            union,
            lhs_types,
            n - 1,
            rhs_types,
            lhs_name,
            rhs_name,
            rhs,
            Ghost(fuel),
        )?;
        assert(view_types(rhs_types@).take(rhs_types@.len() as int) =~= view_types(rhs_types@));
        let inner = self.inner_alternatives(
            &lhs_types[n - 1],
            rhs_types,
            rhs_types.len(),
            lhs_name,
            rhs_name,
            Ghost(fuel),
        )?;
        let ghost before = view_alternatives(previous@);
        let expression = case(union.deep_clone(), rhs_name.clone(), rhs.deep_clone(), inner);
        previous.push(Alternative { type_: lhs_types[n - 1].deep_clone(), expression });
        assert(view_alternatives(previous@) =~= before.push(view_alternatives(previous@).last()));
        Ok(previous)
    }

    fn inner_alternatives(
        &mut self,
        lhs_type: &Type,
        rhs_types: &Vec<Type>,
        n: usize,
        lhs_name: &String,
        rhs_name: &String,
        Ghost(fuel): Ghost<nat>,
    ) -> (r: Result<Vec<Alternative>, CompileError>)
        requires
            n <= rhs_types@.len(),
            old(self).well_formed(),
            inner_alternatives(
                old(self).environment(),
                old(self).equal_function_name(),
                old(self).names(),
                lhs_type@,
                view_types(rhs_types@).take(n as int),
                lhs_name@,
                rhs_name@,
                fuel,
            ) is Some,
        ensures
            final(self).well_formed(),
            final(self).environment() == old(self).environment(),
            final(self).equal_function_name() == old(self).equal_function_name(),
            (final(self).names(), view_alternatives_result(r)) == inner_alternatives(
                old(self).environment(),
                old(self).equal_function_name(),
                old(self).names(),
                lhs_type@,
                view_types(rhs_types@).take(n as int),
                lhs_name@,
                rhs_name@,
                fuel,
            )->0,
        decreases fuel, 1nat, n,
    {
        if n == 0 {
            let r: Vec<Alternative> = Vec::new();
            assert(view_alternatives(r@) =~= Seq::<AlternativeV>::empty());
            return Ok(r);
        }
        let ghost s = view_types(rhs_types@).take(n as int);
        assert(s.drop_last() =~= view_types(rhs_types@).take(n - 1));
        assert(s.last() == rhs_types@[n - 1]@);
        let mut previous = self.inner_alternatives(
            lhs_type,
            rhs_types,
            n - 1,
            lhs_name,
            rhs_name,
            Ghost(fuel),
        )?;
        let rhs_type = &rhs_types[n - 1];
        let expression = if self.type_equality_checker.equal(lhs_type, rhs_type)? {
            let lhs_variable = variable(lhs_name.as_str());
            let rhs_variable = variable(rhs_name.as_str());
            self.transform_equal_operation(rhs_type, &lhs_variable, &rhs_variable, Ghost(fuel))?
        } else {
            boolean(false)
        };
        let ghost before = view_alternatives(previous@);
        previous.push(Alternative { type_: rhs_type.deep_clone(), expression });
        assert(view_alternatives(previous@) =~= before.push(view_alternatives(previous@).last()));
        Ok(previous)
    }
}


/// Whether an equal operation, if the expression is one, compares numbers or
/// strings.
pub open spec fn primitive_equality(env: Map<Seq<char>, TypeV>, e: ExprV) -> bool {
    e matches ExprV::Operation { operator: Operator::Equal, type_, .. } ==> (resolve(env, type_)
        matches Ok(t) && (t is Number || t is String))
}

proof fn lemma_all_nodes_alternatives_push(
    s: Seq<AlternativeV>,
    a: AlternativeV,
    p: spec_fn(ExprV) -> bool,
)
    requires
        all_nodes_alternatives(s, p),
        a.expression.all_nodes(p),
    ensures
        all_nodes_alternatives(s.push(a), p),
{
    assert(s.push(a).drop_last() =~= s);
}

proof fn lemma_equal_elements_all_nodes(element: TypeV, equal: ExprV, p: spec_fn(ExprV) -> bool)
    requires
        equal.all_nodes(p),
        forall|x: ExprV| !(x is Operation) ==> #[trigger] p(x),
    ensures
        equal_elements_definition(element, equal).body().all_nodes(p),
{
    let f = AlternativeV { type_: TypeV::Any, expression: boolean_v(false) };
    assert(boolean_v(false).all_nodes(p));
    assert(variable_v("lhs"@).all_nodes(p));
    assert(variable_v("rhs"@).all_nodes(p));
    lemma_all_nodes_alternatives_push(Seq::empty(), AlternativeV { type_: element, expression: equal }, p);
    assert(seq![AlternativeV { type_: element, expression: equal }] =~= Seq::<AlternativeV>::empty().push(
        AlternativeV { type_: element, expression: equal },
    ));
    lemma_all_nodes_alternatives_push(seq![AlternativeV { type_: element, expression: equal }], f, p);
    let inner_alts = seq![AlternativeV { type_: element, expression: equal }, f];
    assert(inner_alts =~= seq![AlternativeV { type_: element, expression: equal }].push(f));
    let inner = case_v(TypeV::Any, "rhs"@, variable_v("rhs"@), inner_alts);
    assert(inner.all_nodes(p));
    let first = AlternativeV { type_: element, expression: inner };
    lemma_all_nodes_alternatives_push(Seq::empty(), first, p);
    assert(seq![first] =~= Seq::<AlternativeV>::empty().push(first));
    lemma_all_nodes_alternatives_push(seq![first], f, p);
    assert(seq![first, f] =~= seq![first].push(f));
}

/// A comparison that the transformation produces holds no equal operation on
/// other types than numbers and strings, except inside its operands.
proof fn lemma_transform_equal_fuel_primitive(
    env: Map<Seq<char>, TypeV>,
    equal_function: Seq<char>,
    g: NameGeneratorV,
    t: TypeV,
    lhs: ExprV,
    rhs: ExprV,
    fuel: nat,
)
    requires
        lhs.all_nodes(|e: ExprV| primitive_equality(env, e)),
        rhs.all_nodes(|e: ExprV| primitive_equality(env, e)),
    ensures
        transform_equal_fuel(env, equal_function, g, t, lhs, rhs, fuel) matches Some((_, Ok(r)))
            ==> r.all_nodes(|e: ExprV| primitive_equality(env, e)),
    decreases fuel, 0nat, 0nat,
{
    let p = |e: ExprV| primitive_equality(env, e);
    if fuel > 0 {
        if let Ok(resolved) = resolve(env, t) {
            assert(boolean_v(true).all_nodes(p));
            assert(boolean_v(false).all_nodes(p));
            match resolved {
                TypeV::Boolean => {
                    assert(if_v(rhs, boolean_v(true), boolean_v(false)).all_nodes(p));
                    assert(if_v(rhs, boolean_v(false), boolean_v(true)).all_nodes(p));
                },
                TypeV::List { element } => {
                    assert(variable_v("lhs"@).all_nodes(p));
                    assert(variable_v("rhs"@).all_nodes(p));
                    lemma_transform_equal_fuel_primitive(
                        env,
                        equal_function,
                        g,
                        *element,
                        variable_v("lhs"@),
                        variable_v("rhs"@),
                        (fuel - 1) as nat,
                    );
                    if let Some((g1, Ok(equal))) = transform_equal_fuel(
                        env,
                        equal_function,
                        g,
                        *element,
                        variable_v("lhs"@),
                        variable_v("rhs"@),
                        (fuel - 1) as nat,
                    ) {
                        lemma_equal_elements_all_nodes(*element, equal, p);
                        let d = equal_elements_definition(*element, equal);
                        let ds = seq![d];
                        assert(ds.drop_last() =~= Seq::<DefinitionV>::empty());
                        assert(all_nodes_definitions(ds.drop_last(), p));
                        assert(ds.last() == d);
                        assert(all_nodes_definitions(ds, p));
                        let call = application_v(
                            application_v(
                                application_v(
                                    variable_v(equal_function),
                                    variable_v("$equalElements"@),
                                ),
                                lhs,
                            ),
                            rhs,
                        );
                        assert(variable_v(equal_function).all_nodes(p));
                        assert(variable_v("$equalElements"@).all_nodes(p));
                        let inner = application_v(
                            variable_v(equal_function),
                            variable_v("$equalElements"@),
                        );
                        assert(inner.all_nodes(p));
                        assert(application_v(inner, lhs).all_nodes(p));
                        assert(call.all_nodes(p));
                        assert(list_equal(equal_function, *element, equal, lhs, rhs).all_nodes(p));
                    }
                },
                TypeV::Record { name, .. } => {
                    assert(variable_v(name + ".$equal"@).all_nodes(p));
                    assert(application_v(variable_v(name + ".$equal"@), lhs).all_nodes(p));
                },
                TypeV::Union { types } => {
                    lemma_union_alternatives_primitive(
                        env,
                        equal_function,
                        g.next().next(),
                        resolved,
                        sort_types(types),
                        sort_types(types),
                        g.name(),
                        g.next().name(),
                        rhs,
                        (fuel - 1) as nat,
                    );
                },
                _ => {},
            }
        }
    }
}

proof fn lemma_union_alternatives_primitive(
    env: Map<Seq<char>, TypeV>,
    equal_function: Seq<char>,
    g: NameGeneratorV,
    union: TypeV,
    lhs_types: Seq<TypeV>,
    rhs_types: Seq<TypeV>,
    lhs_name: Seq<char>,
    rhs_name: Seq<char>,
    rhs: ExprV,
    fuel: nat,
)
    requires
        rhs.all_nodes(|e: ExprV| primitive_equality(env, e)),
    ensures
        union_alternatives(
            env,
            equal_function,
            g,
            union,
            lhs_types,
            rhs_types,
            lhs_name,
            rhs_name,
            rhs,
            fuel,
        ) matches Some((_, Ok(r))) ==> all_nodes_alternatives(
            r,
            |e: ExprV| primitive_equality(env, e),
        ),
    decreases fuel, 2nat, lhs_types.len(),
{
    let p = |e: ExprV| primitive_equality(env, e);
    if lhs_types.len() > 0 {
        lemma_union_alternatives_primitive(
            env,
            equal_function,
            g,
            union,
            lhs_types.drop_last(),
            rhs_types,
            lhs_name,
            rhs_name,
            rhs,
            fuel,
        );
        if let Some((g1, Ok(previous))) = union_alternatives(
            env,
            equal_function,
            g,
            union,
            lhs_types.drop_last(),
            rhs_types,
            lhs_name,
            rhs_name,
            rhs,
            fuel,
        ) {
            lemma_inner_alternatives_primitive(
                env,
                equal_function,
                g1,
                lhs_types.last(),
                rhs_types,
                lhs_name,
                rhs_name,
                fuel,
            );
            if let Some((g2, Ok(inner))) = inner_alternatives(
                env,
                equal_function,
                g1,
                lhs_types.last(),
                rhs_types,
                lhs_name,
                rhs_name,
                fuel,
            ) {
                let c = case_v(union, rhs_name, rhs, inner);
                assert(c.all_nodes(p));
                lemma_all_nodes_alternatives_push(
                    previous,
                    AlternativeV { type_: lhs_types.last(), expression: c },
                    p,
                );
            }
        }
    }
}

proof fn lemma_inner_alternatives_primitive(
    env: Map<Seq<char>, TypeV>,
    equal_function: Seq<char>,
    g: NameGeneratorV,
    lhs_type: TypeV,
    rhs_types: Seq<TypeV>,
    lhs_name: Seq<char>,
    rhs_name: Seq<char>,
    fuel: nat,
)
    ensures
        inner_alternatives(
            env,
            equal_function,
            g,
            lhs_type,
            rhs_types,
            lhs_name,
            rhs_name,
            fuel,
        ) matches Some((_, Ok(r))) ==> all_nodes_alternatives(
            r,
            |e: ExprV| primitive_equality(env, e),
        ),
    decreases fuel, 1nat, rhs_types.len(),
{
    let p = |e: ExprV| primitive_equality(env, e);
    if rhs_types.len() > 0 {
        lemma_inner_alternatives_primitive(
            env,
            equal_function,
            g,
            lhs_type,
            rhs_types.drop_last(),
            lhs_name,
            rhs_name,
            fuel,
        );
        if let Some((g1, Ok(previous))) = inner_alternatives(
            env,
            equal_function,
            g,
            lhs_type,
            rhs_types.drop_last(),
            lhs_name,
            rhs_name,
            fuel,
        ) {
            let rhs_type = rhs_types.last();
            assert(variable_v(lhs_name).all_nodes(p));
            assert(variable_v(rhs_name).all_nodes(p));
            assert(boolean_v(false).all_nodes(p));
            lemma_transform_equal_fuel_primitive(
                env,
                equal_function,
                g1,
                rhs_type,
                variable_v(lhs_name),
                variable_v(rhs_name),
                fuel,
            );
            lemma_all_nodes_alternatives_push(
                previous,
                AlternativeV { type_: rhs_type, expression: boolean_v(false) },
                p,
            );
            if let Some((g2, Ok(x))) = transform_equal_fuel(
                env,
                equal_function,
                g1,
                rhs_type,
                variable_v(lhs_name),
                variable_v(rhs_name),
                fuel,
            ) {
                lemma_all_nodes_alternatives_push(
                    previous,
                    AlternativeV { type_: rhs_type, expression: x },
                    p,
                );
            }
        }
    }
}

/// The transformation of an equal operation leaves equal operations on
/// numbers and strings only: none on other types is left outside its
/// operands.
pub proof fn lemma_transform_equal_primitive(
    env: Map<Seq<char>, TypeV>,
    equal_function: Seq<char>,
    g: NameGeneratorV,
    t: TypeV,
    lhs: ExprV,
    rhs: ExprV,
)
    requires
        equal_transformation_ends(env, equal_function, g, t, lhs, rhs),
        lhs.all_nodes(|e: ExprV| primitive_equality(env, e)),
        rhs.all_nodes(|e: ExprV| primitive_equality(env, e)),
    ensures
        transform_equal(env, equal_function, g, t, lhs, rhs) matches (_, Ok(r)) ==> r.all_nodes(
            |e: ExprV| primitive_equality(env, e),
        ),
{
    let fuel = choose|fuel: nat|
        #[trigger] transform_equal_fuel(env, equal_function, g, t, lhs, rhs, fuel) is Some;
    lemma_transform_equal_fuel_primitive(env, equal_function, g, t, lhs, rhs, fuel);
}

} // verus!
