//! Binding of arguments of function types to variables, so that functions are
//! passed as variables of exactly the expected type.
use crate::ast::{
    clone_strings, group_ast_view, view_definitions, view_definitions_rec, view_record_elements,
    view_record_elements_rec, view_strings, Definition, DefinitionV, ExprV, Expression,
    FunctionDefinition, ValueDefinition,
};
use crate::error::{view_result, CompileError, ErrorV};
use crate::expression_type_extractor::{extract_type, ExpressionTypeExtractor};
use crate::global_name_renamer::has_functions;
use crate::module::{
    clone_builtin_interfaces, clone_imports, clone_type_definitions, Export, Module, ModuleV,
};
use crate::module_environment_creator::{module_variables, ModuleEnvironmentCreator};
use crate::names::{str_equal, NameGenerator, NameGeneratorV, StringMap};
use crate::reference_type_resolver::{resolve, ReferenceTypeResolver};
use crate::transform::type_coercion_transformer::element_type;
use crate::transform::typed_meta_transformer::{view_definition_result, view_module_result};
use crate::type_equality_checker::{equality_decidable, types_equal, TypeEqualityChecker};
use crate::types::{group_type_view, view_named_types, view_named_types_rec, Type, TypeV};
use vstd::prelude::*;

verus! {

/// The variables in scope in a function's body: the arguments bound to the
/// argument types of its curried function type, one level per argument.
/// `None` where the type has fewer levels than there are arguments.
pub open spec fn curried_scope(
    variables: Map<Seq<char>, TypeV>,
    arguments: Seq<Seq<char>>,
    t: TypeV,
) -> Option<Map<Seq<char>, TypeV>>
    decreases arguments.len(),
{
    if arguments.len() == 0 {
        Some(variables)
    } else {
        match t {
            TypeV::Function { argument, result } => curried_scope(
                variables.insert(arguments[0], *argument),
                arguments.drop_first(),
                *result,
            ),
            _ => None,
        }
    }
}

/// The variables in scope for the definitions of a let expression: the
/// function names, and the value names too when the let expression defines
/// functions.
pub open spec fn let_scope(variables: Map<Seq<char>, TypeV>, definitions: Seq<DefinitionV>, values: bool) -> Map<
    Seq<char>,
    TypeV,
>
    decreases definitions.len(),
{
    if definitions.len() == 0 {
        variables
    } else {
        let rest = let_scope(variables, definitions.drop_last(), values);
        if definitions.last() is Function || values {
            rest.insert(definitions.last().name(), definitions.last().type_())
        } else {
            rest
        }
    }
}

/// The desugaring of an expression: applications get their arguments bound as
/// [`fta_argument`] says for the argument type of their function's type, and
/// record constructions their elements for the elements' types in the record
/// type; if expressions, let expressions and operations are desugared inside,
/// where an operation loses its type. `None` for expressions not handled.
pub open spec fn fta_expression(
    env: Map<Seq<char>, TypeV>,
    g: NameGeneratorV,
    e: ExprV,
    variables: Map<Seq<char>, TypeV>,
) -> Option<(NameGeneratorV, Result<ExprV, ErrorV>)>
    decreases e, 1nat,
{
    match e {
        ExprV::Application { function, argument } => match extract_type(env, *function, variables) {
            None => None,
            Some(Err(x)) => Some((g, Err(x))),
            Some(Ok(TypeV::Function { argument: a, .. })) => match fta_expression(
                env,
                g,
                *function,
                variables,
            ) {
                None => None,
                Some((g1, Err(x))) => Some((g1, Err(x))),
                Some((g1, Ok(f))) => match fta_argument(env, g1, *argument, *a, variables) {
                    None => None,
                    Some((g2, Err(x))) => Some((g2, Err(x))),
                    Some((g2, Ok(x))) => Some(
                        (g2, Ok(ExprV::Application { function: Box::new(f), argument: Box::new(x) })),
                    ),
                },
            },
            Some(Ok(_)) => None,
        },
        ExprV::If { condition, then, else_ } => match fta_expression(env, g, *condition, variables) {
            None => None,
            Some((g1, Err(x))) => Some((g1, Err(x))),
            Some((g1, Ok(c))) => match fta_expression(env, g1, *then, variables) {
                None => None,
                Some((g2, Err(x))) => Some((g2, Err(x))),
                Some((g2, Ok(t))) => match fta_expression(env, g2, *else_, variables) {
                    None => None,
                    Some((g3, Err(x))) => Some((g3, Err(x))),
                    Some((g3, Ok(z))) => Some(
                        (
                            g3,
                            Ok(
                                ExprV::If {
                                    condition: Box::new(c),
                                    then: Box::new(t),
                                    else_: Box::new(z),
                                },
                            ),
                        ),
                    ),
                },
            },
        },
        ExprV::Let { definitions, expression } => match fta_let_definitions(
            env,
            g,
            definitions,
            let_scope(variables, definitions, has_functions(definitions)),
        ) {
            None => None,
            Some((g1, Err(x))) => Some((g1, Err(x))),
            Some((g1, Ok((ds, scope)))) => match fta_expression(env, g1, *expression, scope) {
                None => None,
                Some((g2, Err(x))) => Some((g2, Err(x))),
                Some((g2, Ok(b))) => Some(
                    (g2, Ok(ExprV::Let { definitions: ds, expression: Box::new(b) })),
                ),
            },
        },
        ExprV::Operation { operator, lhs, rhs, .. } => match fta_expression(env, g, *lhs, variables) {
            None => None,
            Some((g1, Err(x))) => Some((g1, Err(x))),
            Some((g1, Ok(l))) => match fta_expression(env, g1, *rhs, variables) {
                None => None,
                Some((g2, Err(x))) => Some((g2, Err(x))),
                Some((g2, Ok(r))) => Some(
                    (
                        g2,
                        Ok(
                            ExprV::Operation {
                                type_: TypeV::Unknown,
                                operator,
                                lhs: Box::new(l),
                                rhs: Box::new(r),
                            },
                        ),
                    ),
                ),
            },
        },
        ExprV::RecordConstruction { type_, elements } => match resolve(env, type_) {
            Err(x) => Some((g, Err(x))),
            Ok(TypeV::Record { elements: record_elements, .. }) => match fta_record_elements(
                env,
                g,
                elements,
                record_elements,
                variables,
            ) {
                None => None,
                Some((g1, Err(x))) => Some((g1, Err(x))),
                Some((g1, Ok(es))) => Some(
                    (g1, Ok(ExprV::RecordConstruction { type_, elements: es })),
                ),
            },
            Ok(_) => None,
        },
        ExprV::Boolean { .. } => Some((g, Ok(e))),
        ExprV::NoneLiteral => Some((g, Ok(e))),
        ExprV::Number { .. } => Some((g, Ok(e))),
        ExprV::Variable { .. } => Some((g, Ok(e))),
        _ => None,
    }
}

/// An argument desugared and, where the expected type resolves to a function
/// type and the argument is not a variable of an equal type, bound to a
/// generated name of the expected type.
pub open spec fn fta_argument(
    env: Map<Seq<char>, TypeV>,
    g: NameGeneratorV,
    e: ExprV,
    to_type: TypeV,
    variables: Map<Seq<char>, TypeV>,
) -> Option<(NameGeneratorV, Result<ExprV, ErrorV>)>
    decreases e, 2nat,
{
    match fta_expression(env, g, e, variables) {
        None => None,
        Some((g1, Err(x))) => Some((g1, Err(x))),
        Some((g1, Ok(x))) => match extract_type(env, x, variables) {
            None => None,
            Some(Err(y)) => Some((g1, Err(y))),
            Some(Ok(t)) => match resolve(env, t) {
                Err(y) => Some((g1, Err(y))),
                Ok(from) => match resolve(env, to_type) {
                    Err(y) => Some((g1, Err(y))),
                    Ok(to) => if !(to is Function) {
                        Some((g1, Ok(x)))
                    } else if !equality_decidable(env, from, to) {
                        None
                    } else {
                        match types_equal(env, from, to) {
                            Err(y) => Some((g1, Err(y))),
                            Ok(equal) => if equal && x is Variable {
                                Some((g1, Ok(x)))
                            } else {
                                Some(
                                    (
                                        g1.next(),
                                        Ok(
                                            ExprV::Let {
                                                definitions: seq![
                                                    DefinitionV::Value {
                                                        name: g1.name(),
                                                        body: x,
                                                        type_: to,
                                                    },
                                                ],
                                                expression: Box::new(
                                                    ExprV::Variable { name: g1.name() },
                                                ),
                                            },
                                        ),
                                    ),
                                )
                            },
                        }
                    },
                },
            },
        },
    }
}

pub open spec fn fta_record_elements(
    env: Map<Seq<char>, TypeV>,
    g: NameGeneratorV,
    elements: Seq<(Seq<char>, ExprV)>,
    record_elements: Seq<(Seq<char>, TypeV)>,
    variables: Map<Seq<char>, TypeV>,
) -> Option<(NameGeneratorV, Result<Seq<(Seq<char>, ExprV)>, ErrorV>)>
    decreases elements, 0nat,
{
    if elements.len() == 0 {
        Some((g, Ok(Seq::empty())))
    } else {
        match fta_record_elements(env, g, elements.drop_last(), record_elements, variables) {
            None => None,
            Some((g1, Err(x))) => Some((g1, Err(x))),
            Some((g1, Ok(previous))) => match element_type(record_elements, elements.last().0) {
                None => None,
                Some(t) => match fta_argument(env, g1, elements.last().1, t, variables) {
                    None => None,
                    Some((g2, Err(x))) => Some((g2, Err(x))),
                    Some((g2, Ok(x))) => Some((g2, Ok(previous.push((elements.last().0, x))))),
                },
            },
        }
    }
}

/// The definitions of a let expression in order; a value definition brings its
/// name into scope for the definitions after it and the body.
pub open spec fn fta_let_definitions(
    env: Map<Seq<char>, TypeV>,
    g: NameGeneratorV,
    definitions: Seq<DefinitionV>,
    variables: Map<Seq<char>, TypeV>,
) -> Option<(NameGeneratorV, Result<(Seq<DefinitionV>, Map<Seq<char>, TypeV>), ErrorV>)>
    decreases definitions, 0nat,
{
    if definitions.len() == 0 {
        Some((g, Ok((Seq::empty(), variables))))
    } else {
        match fta_let_definitions(env, g, definitions.drop_last(), variables) {
            None => None,
            Some((g1, Err(x))) => Some((g1, Err(x))),
            Some((g1, Ok((previous, scope)))) => {
                let last = definitions.last();
                match fta_definition(env, g1, last, scope) {
                    None => None,
                    Some((g2, Err(x))) => Some((g2, Err(x))),
                    Some((g2, Ok(d))) => Some(
                        (
                            g2,
                            Ok(
                                (
                                    previous.push(d),
                                    if last is Value {
                                        scope.insert(last.name(), last.type_())
                                    } else {
                                        scope
                                    },
                                ),
                            ),
                        ),
                    ),
                }
            },
        }
    }
}

/// The desugaring of a definition's body, with a function's arguments in
/// scope as [`curried_scope`] says.
pub open spec fn fta_definition(
    env: Map<Seq<char>, TypeV>,
    g: NameGeneratorV,
    d: DefinitionV,
    variables: Map<Seq<char>, TypeV>,
) -> Option<(NameGeneratorV, Result<DefinitionV, ErrorV>)>
    decreases d, 3nat,
{
    match d {
        DefinitionV::Function { name, arguments, body, type_ } => match curried_scope(
            variables,
            arguments,
            type_,
        ) {
            None => None,
            Some(scope) => match fta_expression(env, g, body, scope) {
                None => None,
                Some((g1, Err(x))) => Some((g1, Err(x))),
                Some((g1, Ok(b))) => Some(
                    (g1, Ok(DefinitionV::Function { name, arguments, body: b, type_ })),
                ),
            },
        },
        DefinitionV::Value { name, body, type_ } => match fta_expression(env, g, body, variables) {
            None => None,
            Some((g1, Err(x))) => Some((g1, Err(x))),
            Some((g1, Ok(b))) => Some((g1, Ok(DefinitionV::Value { name, body: b, type_ }))),
        },
    }
}

/// The definitions of a module in order, each with the module's variables in
/// scope.
pub open spec fn fta_module_definitions(
    env: Map<Seq<char>, TypeV>,
    g: NameGeneratorV,
    definitions: Seq<DefinitionV>,
    variables: Map<Seq<char>, TypeV>,
) -> Option<(NameGeneratorV, Result<Seq<DefinitionV>, ErrorV>)>
    decreases definitions.len(),
{
    if definitions.len() == 0 {
        Some((g, Ok(Seq::empty())))
    } else {
        match fta_module_definitions(env, g, definitions.drop_last(), variables) {
            None => None,
            Some((g1, Err(x))) => Some((g1, Err(x))),
            Some((g1, Ok(previous))) => match fta_definition(env, g1, definitions.last(), variables) {
                None => None,
                Some((g2, Err(x))) => Some((g2, Err(x))),
                Some((g2, Ok(d))) => Some((g2, Ok(previous.push(d)))),
            },
        }
    }
}

/// The desugaring of a module: its definitions with the module's variables in
/// scope; everything else is kept.
pub open spec fn fta_module(env: Map<Seq<char>, TypeV>, g: NameGeneratorV, m: ModuleV) -> Option<
    (NameGeneratorV, Result<ModuleV, ErrorV>),
> {
    match fta_module_definitions(env, g, m.definitions, module_variables(m)) {
        None => None,
        Some((g1, Err(x))) => Some((g1, Err(x))),
        Some((g1, Ok(ds))) => Some((g1, Ok(ModuleV { definitions: ds, ..m }))),
    }
}

/// The variables in scope with the let definitions' names as
/// [`let_scope`] says.
pub fn insert_let_scope(variables: &mut StringMap<Type>, definitions: &Vec<Definition>, values: bool)
    ensures
        final(variables)@ == let_scope(old(variables)@, view_definitions(definitions@), values),
{
    let ghost ds = view_definitions(definitions@);
    let mut i: usize = 0;
    while i < definitions.len()
        invariant
            i <= definitions@.len(),
            ds == view_definitions(definitions@),
            variables@ == let_scope(old(variables)@, ds.take(i as int), values),
        decreases definitions.len() - i,
    {
        let is_function = matches!(&definitions[i], Definition::FunctionDefinition(_));
        if is_function || values {
            variables.insert(definitions[i].name().clone(), definitions[i].type_().deep_clone());
        }
        assert(ds.take(i + 1).drop_last() =~= ds.take(i as int));
        i += 1;
    }
    assert(ds.take(i as int) =~= ds);
}

/// Whether one of the definitions is a function definition.
pub fn defines_functions(definitions: &Vec<Definition>) -> (r: bool)
    ensures
        r == has_functions(view_definitions(definitions@)),
{
    let ghost ds = view_definitions(definitions@);
    let mut i: usize = 0;
    while i < definitions.len()
        invariant
            i <= definitions@.len(),
            ds == view_definitions(definitions@),
            forall|j: int| 0 <= j < i ==> !((#[trigger] ds[j]) is Function),
        decreases definitions.len() - i,
    {
        if let Definition::FunctionDefinition(_) = &definitions[i] {
            assert(ds[i as int] is Function);
            return true;
        }
        i += 1;
    }
    false
}

/// Binds arguments of function types to variables of exactly the expected
/// types.
pub struct FunctionTypeArgumentDesugarer {
    name_generator: NameGenerator,
    reference_type_resolver: ReferenceTypeResolver,
    type_equality_checker: TypeEqualityChecker,
    expression_type_extractor: ExpressionTypeExtractor,
}

impl FunctionTypeArgumentDesugarer {
    /// The types that references resolve to.
    pub closed spec fn environment(&self) -> Map<Seq<char>, TypeV> {
        self.reference_type_resolver.environment()
    }

    /// The generator of the names of bound arguments.
    pub closed spec fn names(&self) -> NameGeneratorV {
        self.name_generator@
    }

    /// All parts use the same environment.
    pub closed spec fn well_formed(&self) -> bool {
        let env = self.environment();
        &&& self.type_equality_checker.reference_type_resolver.environment() == env
        &&& self.expression_type_extractor.environment() == env
        &&& self.expression_type_extractor.well_formed()
    }

    pub fn new(
        reference_type_resolver: ReferenceTypeResolver,
        type_equality_checker: TypeEqualityChecker,
        expression_type_extractor: ExpressionTypeExtractor,
    ) -> (r: Self)
        ensures
            r.environment() == reference_type_resolver.environment(),
            r.names() == (NameGeneratorV { prefix: "fta_function_"@, index: 0 }),
            r.well_formed() <==> ({
                let env = reference_type_resolver.environment();
                &&& type_equality_checker.reference_type_resolver.environment() == env
                &&& expression_type_extractor.environment() == env
                &&& expression_type_extractor.well_formed()
            }),
    {
        FunctionTypeArgumentDesugarer {
            name_generator: NameGenerator::new("fta_function_"),
            reference_type_resolver,
            type_equality_checker,
            expression_type_extractor,
        }
    }

    /// Desugars every definition of the module as [`fta_module`] says.
    pub fn desugar(&mut self, module: &Module) -> (r: Result<Module, CompileError>)
        requires
            old(self).well_formed(),
            fta_module(old(self).environment(), old(self).names(), module@) is Some,
        ensures
            final(self).well_formed(),
            final(self).environment() == old(self).environment(),
            (final(self).names(), view_module_result(r)) == fta_module(
                old(self).environment(),
                old(self).names(),
                module@,
            )->0,
    {
        let variables = ModuleEnvironmentCreator::create(module);
        assert(module@.definitions.take(module.definitions@.len() as int) =~= module@.definitions);
        let definitions = self.desugar_definitions(module, module.definitions.len(), &variables)?;
        Ok(
            Module {
                path: module.path.deep_clone(),
                export: Export { names: clone_strings(&module.export.names) },
                imports: clone_imports(&module.imports),
                ffi_imports: clone_builtin_interfaces(&module.ffi_imports),
                type_definitions: clone_type_definitions(&module.type_definitions),
                definitions,
            },
        )
    }

    fn desugar_definitions(&mut self, module: &Module, n: usize, variables: &StringMap<Type>) -> (r:
        Result<Vec<Definition>, CompileError>)
        requires
            n <= module.definitions@.len(),
            old(self).well_formed(),
            fta_module_definitions(
                old(self).environment(),
                old(self).names(),
                module@.definitions.take(n as int),
                variables@,
            ) is Some,
        ensures
            final(self).well_formed(),
            final(self).environment() == old(self).environment(),
            (final(self).names(), match r {
                Ok(v) => Ok(view_definitions(v@)),
                Err(e) => Err(e@),
            }) == fta_module_definitions(
                old(self).environment(),
                old(self).names(),
                module@.definitions.take(n as int),
                variables@,
            )->0,
        decreases n,
    {
        if n == 0 {
            let r: Vec<Definition> = Vec::new();
            assert(view_definitions(r@) =~= Seq::<DefinitionV>::empty());
            return Ok(r);
        }
        let ghost s = module@.definitions.take(n as int);
        assert(s.drop_last() =~= module@.definitions.take(n - 1));
        let mut previous = self.desugar_definitions(module, n - 1, variables)?;
        let d = self.desugar_definition(&module.definitions[n - 1], variables)?;
        let ghost before = view_definitions(previous@);
        previous.push(d);
        assert(view_definitions(previous@) =~= before.push(view_definitions(previous@).last()));
        Ok(previous)
    }

    fn desugar_definition(&mut self, definition: &Definition, variables: &StringMap<Type>) -> (r:
        Result<Definition, CompileError>)
        requires
            old(self).well_formed(),
            fta_definition(old(self).environment(), old(self).names(), definition@, variables@) is Some,
        ensures
            final(self).well_formed(),
            final(self).environment() == old(self).environment(),
            (final(self).names(), view_definition_result(r)) == fta_definition(
                old(self).environment(),
                old(self).names(),
                definition@,
                variables@,
            )->0,
        decreases definition, 4nat,
    {
        match definition {
            Definition::FunctionDefinition(f) => {
                let x = self.desugar_function_definition(f, variables)?;
                Ok(Definition::FunctionDefinition(x))
            },
            Definition::ValueDefinition(v) => {
                let body = self.desugar_expression(&v.body, variables)?;
                Ok(
                    Definition::ValueDefinition(
                        ValueDefinition { name: v.name.clone(), body, type_: v.type_.deep_clone() },
                    ),
                )
            },
        }
    }

    fn desugar_function_definition(
        &mut self,
        function_definition: &FunctionDefinition,
        variables: &StringMap<Type>,
    ) -> (r: Result<FunctionDefinition, CompileError>)
        requires
            old(self).well_formed(),
            fta_definition(
                old(self).environment(),
                old(self).names(),
                Definition::FunctionDefinition(*function_definition)@,
                variables@,
            ) is Some,
        ensures
            final(self).well_formed(),
            final(self).environment() == old(self).environment(),
            (final(self).names(), match r {
                Ok(d) => Ok(Definition::FunctionDefinition(d)@),
                Err(e) => Err(e@),
            }) == fta_definition(
                old(self).environment(),
                old(self).names(),
                Definition::FunctionDefinition(*function_definition)@,
                variables@,
            )->0,
        decreases function_definition, 3nat,
    {
        let ghost arguments = view_strings(function_definition.arguments@);
        let mut scope = variables.deep_clone();
        let mut type_ = function_definition.type_.deep_clone();
        let mut i: usize = 0;
        assert(arguments.skip(0) =~= arguments);
        while i < function_definition.arguments.len()
            invariant
                i <= function_definition.arguments@.len(),
                arguments == view_strings(function_definition.arguments@),
                curried_scope(variables@, arguments, function_definition.type_@) == curried_scope(
                    scope@,
                    arguments.skip(i as int),
                    type_@,
                ),
                curried_scope(variables@, arguments, function_definition.type_@) is Some,
            decreases function_definition.arguments.len() - i,
        {
            assert(arguments.skip(i as int)[0] == arguments[i as int]);
            assert(arguments.skip(i as int).drop_first() =~= arguments.skip(i + 1));
            match type_ {
                Type::Function { argument, result } => {
                    scope.insert(function_definition.arguments[i].clone(), *argument);
                    type_ = *result;
                },
                _ => {
                    assert(false);
                    return Err(CompileError::TypesNotMatched);
                },
            }
            i += 1;
        }
        assert(arguments.skip(i as int) =~= Seq::<Seq<char>>::empty());
        let body = self.desugar_expression(&function_definition.body, &scope)?;
        Ok(
            FunctionDefinition {
                name: function_definition.name.clone(),
                arguments: clone_strings(&function_definition.arguments),
                body,
                type_: function_definition.type_.deep_clone(),
            },
        )
    }

    fn desugar_expression(&mut self, expression: &Expression, variables: &StringMap<Type>) -> (r:
        Result<Expression, CompileError>)
        requires
            old(self).well_formed(),
            fta_expression(old(self).environment(), old(self).names(), expression@, variables@) is Some,
        ensures
            final(self).well_formed(),
            final(self).environment() == old(self).environment(),
            (final(self).names(), view_result(r)) == fta_expression(
                old(self).environment(),
                old(self).names(),
                expression@,
                variables@,
            )->0,
        decreases expression, 1nat,
    {
        broadcast use group_ast_view, group_type_view;

        match expression {
            Expression::Application { function, argument } => {
                let function_type = self.expression_type_extractor.extract(function, variables)?;
                match function_type {
                    Type::Function { argument: argument_type, .. } => {
                        let f = self.desugar_expression(function, variables)?;
                        let x = self.desugar_function_type_argument(argument, &argument_type, variables)?;
                        Ok(Expression::Application { function: Box::new(f), argument: Box::new(x) })
                    },
                    _ => {
                        assert(false);
                        Err(CompileError::TypesNotMatched)
                    },
                }
            },
            Expression::If { condition, then, else_ } => {
                let c = self.desugar_expression(condition, variables)?;
                let t = self.desugar_expression(then, variables)?;
                let z = self.desugar_expression(else_, variables)?;
                Ok(Expression::If { condition: Box::new(c), then: Box::new(t), else_: Box::new(z) })
            },
            Expression::Let { definitions, expression: body } => self.desugar_let(
                expression,
                definitions,
                body,
                variables,
            ),
            Expression::Operation { operator, lhs, rhs, .. } => {
                let l = self.desugar_expression(lhs, variables)?;
                let r = self.desugar_expression(rhs, variables)?;
                Ok(
                    Expression::Operation {
                        type_: Type::Unknown,
                        operator: *operator,
                        lhs: Box::new(l),
                        rhs: Box::new(r),
                    },
                )
            },
            Expression::RecordConstruction { type_, elements } => {
                let resolved = self.reference_type_resolver.resolve(type_)?;
                match &resolved {
                    Type::Record { elements: record_elements, .. } => {
                        assert(view_record_elements_rec(elements@) == view_record_elements(elements@));
                        assert(view_named_types_rec(record_elements@) == view_named_types(
                            record_elements@,
                        ));
                        assert(view_record_elements(elements@).take(elements@.len() as int)
                            =~= view_record_elements(elements@));
                        let es = self.desugar_record_elements(
                            expression,
                            elements,
                            elements.len(),
                            record_elements,
                            variables,
                        )?;
                        assert(view_record_elements_rec(es@) == view_record_elements(es@));
                        Ok(Expression::RecordConstruction { type_: type_.deep_clone(), elements: es })
                    },
                    _ => {
                        assert(false);
                        Err(CompileError::TypesNotMatched)
                    },
                }
            },
            Expression::Boolean { .. } => Ok(expression.deep_clone()),
            Expression::NoneLiteral => Ok(expression.deep_clone()),
            Expression::Number { .. } => Ok(expression.deep_clone()),
            Expression::Variable { .. } => Ok(expression.deep_clone()),
            _ => {
                assert(false);
                Err(CompileError::TypesNotMatched)
            },
        }
    }

    fn desugar_let(
        &mut self,
        parent: &Expression,
        definitions: &Vec<Definition>,
        body: &Expression,
        variables: &StringMap<Type>,
    ) -> (r: Result<Expression, CompileError>)
        requires
            parent matches Expression::Let { definitions: d, expression: b } && d == definitions
                && *b == *body,
            old(self).well_formed(),
            fta_expression(old(self).environment(), old(self).names(), parent@, variables@) is Some,
        ensures
            final(self).well_formed(),
            final(self).environment() == old(self).environment(),
            (final(self).names(), view_result(r)) == fta_expression(
                old(self).environment(),
                old(self).names(),
                parent@,
                variables@,
            )->0,
        decreases parent, 0nat, definitions@.len() + 1,
    {
        broadcast use group_ast_view;

        assert(view_definitions_rec(definitions@) == view_definitions(definitions@));
        let values = defines_functions(definitions);
        let mut scope = variables.deep_clone();
        insert_let_scope(&mut scope, definitions, values);
        assert(view_definitions(definitions@).take(definitions@.len() as int) =~= view_definitions(
            definitions@,
        ));
        let (ds, scope) = self.desugar_let_definitions(parent, definitions, definitions.len(), &scope)?;
        assert(decreases_to!(parent => *body));
        let b = self.desugar_expression(body, &scope)?;
        assert(view_definitions_rec(ds@) == view_definitions(ds@));
        Ok(Expression::Let { definitions: ds, expression: Box::new(b) })
    }

    fn desugar_let_definitions(
        &mut self,
        parent: &Expression,
        definitions: &Vec<Definition>,
        n: usize,
        variables: &StringMap<Type>,
    ) -> (r: Result<(Vec<Definition>, StringMap<Type>), CompileError>)
        requires
            parent matches Expression::Let { definitions: d, .. } && d == definitions,
            n <= definitions@.len(),
            old(self).well_formed(),
            fta_let_definitions(
                old(self).environment(),
                old(self).names(),
                view_definitions(definitions@).take(n as int),
                variables@,
            ) is Some,
        ensures
            final(self).well_formed(),
            final(self).environment() == old(self).environment(),
            (final(self).names(), match r {
                Ok((v, m)) => Ok((view_definitions(v@), m@)),
                Err(e) => Err(e@),
            }) == fta_let_definitions(
                old(self).environment(),
                old(self).names(),
                view_definitions(definitions@).take(n as int),
                variables@,
            )->0,
        decreases parent, 0nat, n,
    {
        if n == 0 {
            let r: Vec<Definition> = Vec::new();
            assert(view_definitions(r@) =~= Seq::<DefinitionV>::empty());
            return Ok((r, variables.deep_clone()));
        }
        let ghost s = view_definitions(definitions@).take(n as int);
        assert(s.drop_last() =~= view_definitions(definitions@).take(n - 1));
        let (mut previous, mut scope) = self.desugar_let_definitions(
            parent,
            definitions,
            n - 1,
            variables,
        )?;
        assert(decreases_to!(parent => *definitions));
        assert(decreases_to!(definitions => definitions@[n - 1]));
        let definition = &definitions[n - 1];
        let d = self.desugar_definition(definition, &scope)?;
        if let Definition::ValueDefinition(v) = definition {
            scope.insert(v.name.clone(), v.type_.deep_clone());
        }
        let ghost before = view_definitions(previous@);
        previous.push(d);
        assert(view_definitions(previous@) =~= before.push(view_definitions(previous@).last()));
        Ok((previous, scope))
    }

    fn desugar_record_elements(
        &mut self,
        parent: &Expression,
        elements: &Vec<(String, Expression)>,
        n: usize,
        record_elements: &Vec<(String, Type)>,
        variables: &StringMap<Type>,
    ) -> (r: Result<Vec<(String, Expression)>, CompileError>)
        requires
            parent matches Expression::RecordConstruction { elements: e, .. } && e == elements,
            n <= elements@.len(),
            old(self).well_formed(),
            fta_record_elements(
                old(self).environment(),
                old(self).names(),
                view_record_elements(elements@).take(n as int),
                view_named_types(record_elements@),
                variables@,
            ) is Some,
        ensures
            final(self).well_formed(),
            final(self).environment() == old(self).environment(),
            (final(self).names(), match r {
                Ok(v) => Ok(view_record_elements(v@)),
                Err(e) => Err(e@),
            }) == fta_record_elements(
                old(self).environment(),
                old(self).names(),
                view_record_elements(elements@).take(n as int),
                view_named_types(record_elements@),
                variables@,
            )->0,
        decreases parent, 0nat, n,
    {
        if n == 0 {
            let r: Vec<(String, Expression)> = Vec::new();
            assert(view_record_elements(r@) =~= Seq::<(Seq<char>, ExprV)>::empty());
            return Ok(r);
        }
        let ghost s = view_record_elements(elements@).take(n as int);
        assert(s.drop_last() =~= view_record_elements(elements@).take(n - 1));
        let mut previous = self.desugar_record_elements(
            parent,
            elements,
            n - 1,
            record_elements,
            variables,
        )?;
        let key = &elements[n - 1].0;
        let ghost rs = view_named_types(record_elements@);
        let mut j: usize = 0;
        assert(rs.skip(0) =~= rs);
        while j < record_elements.len() && !str_equal(record_elements[j].0.as_str(), key.as_str())
            invariant
                j <= record_elements@.len(),
                rs == view_named_types(record_elements@),
                element_type(rs, key@) == element_type(rs.skip(j as int), key@),
            decreases record_elements.len() - j,
        {
            assert(rs.skip(j as int).drop_first() =~= rs.skip(j + 1));
            j += 1;
        }
        if j == record_elements.len() {
            assert(rs.skip(j as int) =~= Seq::<(Seq<char>, TypeV)>::empty());
            assert(false);
            return Err(CompileError::TypesNotMatched);
        }
        assert(rs.skip(j as int)[0] == rs[j as int]);
        assert(decreases_to!(parent => *elements));
        assert(decreases_to!(elements => elements@[n - 1].1));
        let x = self.desugar_function_type_argument(
            &elements[n - 1].1,
            &record_elements[j].1,
            variables,
        )?;
        let ghost before = view_record_elements(previous@);
        previous.push((key.clone(), x));
        assert(view_record_elements(previous@) =~= before.push(view_record_elements(previous@).last()));
        Ok(previous)
    }

    fn desugar_function_type_argument(
        &mut self,
        expression: &Expression,
        to_type: &Type,
        variables: &StringMap<Type>,
    ) -> (r: Result<Expression, CompileError>)
        requires
            old(self).well_formed(),
            fta_argument(
                old(self).environment(),
                old(self).names(),
                expression@,
                to_type@,
                variables@,
            ) is Some,
        ensures
            final(self).well_formed(),
            final(self).environment() == old(self).environment(),
            (final(self).names(), view_result(r)) == fta_argument(
                old(self).environment(),
                old(self).names(),
                expression@,
                to_type@,
                variables@,
            )->0,
        decreases expression, 2nat,
    {
        broadcast use group_ast_view;

        let x = self.desugar_expression(expression, variables)?;
        let extracted = self.expression_type_extractor.extract(&x, variables)?;
        let from_type = self.reference_type_resolver.resolve(&extracted)?;
        let to_type = self.reference_type_resolver.resolve(to_type)?;
        if !to_type.is_function() {
            return Ok(x);
        }
        let equal = self.type_equality_checker.equal(&from_type, &to_type)?;
        if equal && matches!(x, Expression::Variable { .. }) {
            return Ok(x);
        }
        let ghost xv = x@;
        let ghost tv = to_type@;
        let name = self.name_generator.generate();
        let definition = Definition::ValueDefinition(
            ValueDefinition { name: name.clone(), body: x, type_: to_type },
        );
        let ghost dv = definition@;
        assert(dv == DefinitionV::Value { name: name@, body: xv, type_: tv });
        let mut definitions: Vec<Definition> = Vec::new();
        definitions.push(definition);
        assert(view_definitions(definitions@) =~= seq![dv]);
        assert(view_definitions_rec(definitions@) == view_definitions(definitions@));
        let variable = Expression::Variable { name };
        assert(variable@ == ExprV::Variable { name: name@ });
        Ok(Expression::Let { definitions, expression: Box::new(variable) })
    }
}

} // verus!
