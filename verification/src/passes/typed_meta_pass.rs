//! A pass over modules that knows the types of the variables in scope and
//! hands every expression and definition, after its inner expressions, to a
//! child pass.
use crate::ast::{
    clone_strings, group_ast_view, view_alternatives, view_alternatives_rec, view_definitions,
    view_definitions_rec, view_record_elements, view_record_elements_rec, Alternative, AlternativeV,
    Definition, DefinitionV, ExprV, Expression, FunctionDefinition, ValueDefinition,
};
use crate::desugar::function_type_argument_desugarer::{
    defines_functions, insert_let_scope, let_scope,
};
use crate::error::{view_result, CompileError, ErrorV};
use crate::global_name_renamer::has_functions;
use crate::module::{
    clone_builtin_interfaces, clone_imports, clone_type_definitions, Export, Module, ModuleV,
};
use crate::module_environment_creator::{module_variables, ModuleEnvironmentCreator};
use crate::names::StringMap;
use crate::transform::typed_meta_transformer::{
    argument_variables, insert_argument_variables, view_definition_result, view_function_result,
    view_module_result, view_value_result,
};
use crate::types::{Type, TypeV};
use crate::pass::Pass;
use vstd::prelude::*;

verus! {

/// A compilation of single expressions and definitions that knows the types
/// of the variables in scope.
pub trait TypedPass: View + Sized {
    /// Whether the pass handles the expression.
    spec fn compiles_expression(
        state: Self::V,
        e: ExprV,
        variables: Map<Seq<char>, TypeV>,
    ) -> bool;

    /// The state after compiling the expression, and the result.
    spec fn compiled_expression(
        state: Self::V,
        e: ExprV,
        variables: Map<Seq<char>, TypeV>,
    ) -> (Self::V, Result<ExprV, ErrorV>);

    /// Whether the pass handles the definition.
    spec fn compiles_definition(
        state: Self::V,
        d: DefinitionV,
        variables: Map<Seq<char>, TypeV>,
    ) -> bool;

    /// The state after compiling the definition, and the result.
    spec fn compiled_definition(
        state: Self::V,
        d: DefinitionV,
        variables: Map<Seq<char>, TypeV>,
    ) -> (Self::V, Result<DefinitionV, ErrorV>);

    fn compile_function_definition(
        &mut self,
        function_definition: &FunctionDefinition,
        variables: &StringMap<Type>,
    ) -> (r: Result<FunctionDefinition, CompileError>)
        requires
            Self::compiles_definition(
                old(self)@,
                Definition::FunctionDefinition(*function_definition)@,
                variables@,
            ),
        ensures
            (final(self)@, view_function_result(r)) == Self::compiled_definition(
                old(self)@,
                Definition::FunctionDefinition(*function_definition)@,
                variables@,
            ),
    ;

    fn compile_value_definition(
        &mut self,
        value_definition: &ValueDefinition,
        variables: &StringMap<Type>,
    ) -> (r: Result<ValueDefinition, CompileError>)
        requires
            Self::compiles_definition(
                old(self)@,
                Definition::ValueDefinition(*value_definition)@,
                variables@,
            ),
        ensures
            (final(self)@, view_value_result(r)) == Self::compiled_definition(
                old(self)@,
                Definition::ValueDefinition(*value_definition)@,
                variables@,
            ),
    ;

    fn compile_expression(&mut self, expression: &Expression, variables: &StringMap<Type>) -> (r:
        Result<Expression, CompileError>)
        requires
            Self::compiles_expression(old(self)@, expression@, variables@),
        ensures
            (final(self)@, view_result(r)) == Self::compiled_expression(
                old(self)@,
                expression@,
                variables@,
            ),
    ;
}

/// The child pass's answer for an expression whose inner expressions were
/// compiled.
pub open spec fn then_child<D: TypedPass>(
    inner: Option<(D::V, Result<ExprV, ErrorV>)>,
    variables: Map<Seq<char>, TypeV>,
) -> Option<(D::V, Result<ExprV, ErrorV>)> {
    match inner {
        None => None,
        Some((s, Err(e))) => Some((s, Err(e))),
        Some((s, Ok(node))) => if D::compiles_expression(s, node, variables) {
            Some(D::compiled_expression(s, node, variables))
        } else {
            None
        },
    }
}

/// The compilation of an expression: its inner expressions with the
/// variables in scope there, then the expression itself by the child pass.
/// `None` where the child pass does not handle an expression, for list
/// literals, record updates, type coercions and record element operators,
/// which earlier passes remove, and for functions whose types are not function
/// types.
pub open spec fn pass_expression<D: TypedPass>(
    s: D::V,
    e: ExprV,
    variables: Map<Seq<char>, TypeV>,
) -> Option<(D::V, Result<ExprV, ErrorV>)>
    decreases e, 2nat,
{
    then_child::<D>(pass_inner::<D>(s, e, variables), variables)
}

/// The expression with its inner expressions compiled.
pub open spec fn pass_inner<D: TypedPass>(
    s: D::V,
    e: ExprV,
    variables: Map<Seq<char>, TypeV>,
) -> Option<(D::V, Result<ExprV, ErrorV>)>
    decreases e, 1nat,
{
    match e {
        ExprV::Application { function, argument } => match pass_expression::<D>(
            s,
            *function,
            variables,
        ) {
            None => None,
            Some((s1, Err(x))) => Some((s1, Err(x))),
            Some((s1, Ok(f))) => match pass_expression::<D>(s1, *argument, variables) {
                None => None,
                Some((s2, Err(x))) => Some((s2, Err(x))),
                Some((s2, Ok(a))) => Some(
                    (
                        s2,
                        Ok(ExprV::Application { function: Box::new(f), argument: Box::new(a) }),
                    ),
                ),
            },
        },
        ExprV::Case { type_, name, argument, alternatives } => match pass_expression::<D>(
            s,
            *argument,
            variables,
        ) {
            None => None,
            Some((s1, Err(x))) => Some((s1, Err(x))),
            Some((s1, Ok(a))) => match pass_alternatives::<D>(
                s1,
                name,
                alternatives,
                variables,
            ) {
                None => None,
                Some((s2, Err(x))) => Some((s2, Err(x))),
                Some((s2, Ok(alts))) => Some(
                    (
                        s2,
                        Ok(
                            ExprV::Case {
                                type_,
                                name,
                                argument: Box::new(a),
                                alternatives: alts,
                            },
                        ),
                    ),
                ),
            },
        },
        ExprV::If { condition, then, else_ } => match pass_expression::<D>(
            s,
            *condition,
            variables,
        ) {
            None => None,
            Some((s1, Err(x))) => Some((s1, Err(x))),
            Some((s1, Ok(c))) => match pass_expression::<D>(s1, *then, variables) {
                None => None,
                Some((s2, Err(x))) => Some((s2, Err(x))),
                Some((s2, Ok(t))) => match pass_expression::<D>(s2, *else_, variables) {
                    None => None,
                    Some((s3, Err(x))) => Some((s3, Err(x))),
                    Some((s3, Ok(z))) => Some(
                        (
                            s3,
                            Ok(
                                ExprV::If {
                                    condition: Box::new(c),
                                    then: Box::new(t),
                                    else_: Box::new(z),
                                },
                            ),
                        ),
                    ),
                },
            },
        },
        ExprV::Let { definitions, expression } => match pass_let_definitions::<D>(
            s,
            definitions,
            let_scope(variables, definitions, has_functions(definitions)),
        ) {
            None => None,
            Some((s1, Err(x))) => Some((s1, Err(x))),
            Some((s1, Ok((ds, scope)))) => match pass_expression::<D>(
                s1,
                *expression,
                scope,
            ) {
                None => None,
                Some((s2, Err(x))) => Some((s2, Err(x))),
                Some((s2, Ok(body))) => Some(
                    (s2, Ok(ExprV::Let { definitions: ds, expression: Box::new(body) })),
                ),
            },
        },
        ExprV::Operation { type_, operator, lhs, rhs } => match pass_expression::<D>(
            s,
            *lhs,
            variables,
        ) {
            None => None,
            Some((s1, Err(x))) => Some((s1, Err(x))),
            Some((s1, Ok(l))) => match pass_expression::<D>(s1, *rhs, variables) {
                None => None,
                Some((s2, Err(x))) => Some((s2, Err(x))),
                Some((s2, Ok(r))) => Some(
                    (
                        s2,
                        Ok(
                            ExprV::Operation {
                                type_,
                                operator,
                                lhs: Box::new(l),
                                rhs: Box::new(r),
                            },
                        ),
                    ),
                ),
            },
        },
        ExprV::RecordConstruction { type_, elements } => match pass_record_elements::<D>(
            s,
            elements,
            variables,
        ) {
            None => None,
            Some((s1, Err(x))) => Some((s1, Err(x))),
            Some((s1, Ok(es))) => Some(
                (s1, Ok(ExprV::RecordConstruction { type_, elements: es })),
            ),
        },
        ExprV::RecordElementOperation { type_, key, argument } => match pass_expression::<D>(
            s,
            *argument,
            variables,
        ) {
            None => None,
            Some((s1, Err(x))) => Some((s1, Err(x))),
            Some((s1, Ok(a))) => Some(
                (s1, Ok(ExprV::RecordElementOperation { type_, key, argument: Box::new(a) })),
            ),
        },
        ExprV::Boolean { .. } => Some((s, Ok(e))),
        ExprV::NoneLiteral => Some((s, Ok(e))),
        ExprV::Number { .. } => Some((s, Ok(e))),
        ExprV::Variable { .. } => Some((s, Ok(e))),
        _ => None,
    }
}

pub open spec fn pass_alternatives<D: TypedPass>(
    s: D::V,
    name: Seq<char>,
    alternatives: Seq<AlternativeV>,
    variables: Map<Seq<char>, TypeV>,
) -> Option<(D::V, Result<Seq<AlternativeV>, ErrorV>)>
    decreases alternatives,
{
    if alternatives.len() == 0 {
        Some((s, Ok(Seq::empty())))
    } else {
        match pass_alternatives::<D>(s, name, alternatives.drop_last(), variables) {
            None => None,
            Some((s1, Err(x))) => Some((s1, Err(x))),
            Some((s1, Ok(previous))) => {
                let last = alternatives.last();
                match pass_expression::<D>(
                    s1,
                    last.expression,
                    variables.insert(name, last.type_),
                ) {
                    None => None,
                    Some((s2, Err(x))) => Some((s2, Err(x))),
                    Some((s2, Ok(x))) => Some(
                        (s2, Ok(previous.push(AlternativeV { type_: last.type_, expression: x }))),
                    ),
                }
            },
        }
    }
}

/// The definitions of a let expression in order, each with the variables in
/// scope at it; a value definition brings its name into scope for the
/// definitions after it and the body. Gives the compiled definitions and
/// the variables in scope for the body.
pub open spec fn pass_let_definitions<D: TypedPass>(
    s: D::V,
    definitions: Seq<DefinitionV>,
    variables: Map<Seq<char>, TypeV>,
) -> Option<(D::V, Result<(Seq<DefinitionV>, Map<Seq<char>, TypeV>), ErrorV>)>
    decreases definitions,
{
    if definitions.len() == 0 {
        Some((s, Ok((Seq::empty(), variables))))
    } else {
        match pass_let_definitions::<D>(s, definitions.drop_last(), variables) {
            None => None,
            Some((s1, Err(x))) => Some((s1, Err(x))),
            Some((s1, Ok((previous, scope)))) => {
                let last = definitions.last();
                match pass_definition::<D>(s1, last, scope) {
                    None => None,
                    Some((s2, Err(x))) => Some((s2, Err(x))),
                    Some((s2, Ok(d))) => Some(
                        (
                            s2,
                            Ok(
                                (
                                    previous.push(d),
                                    if last is Value {
                                        scope.insert(last.name(), last.type_())
                                    } else {
                                        scope
                                    },
                                ),
                            ),
                        ),
                    ),
                }
            },
        }
    }
}

/// The compilation of a definition: a function's body with its arguments in
/// scope, bound to the argument types of its function type; a value's body with
/// the variables in scope; then the definition itself by the child pass.
pub open spec fn pass_definition<D: TypedPass>(
    s: D::V,
    d: DefinitionV,
    variables: Map<Seq<char>, TypeV>,
) -> Option<(D::V, Result<DefinitionV, ErrorV>)>
    decreases d,
{
    match d {
        DefinitionV::Function { name, arguments, body, type_ } => if !(type_ is Function) {
            None
        } else {
            let scope = argument_variables(variables, arguments, type_);
            match pass_expression::<D>(s, body, scope) {
                None => None,
                Some((s1, Err(x))) => Some((s1, Err(x))),
                Some((s1, Ok(b))) => {
                    let compiled = DefinitionV::Function { name, arguments, body: b, type_ };
                    if D::compiles_definition(s1, compiled, scope) {
                        Some(D::compiled_definition(s1, compiled, scope))
                    } else {
                        None
                    }
                },
            }
        },
        DefinitionV::Value { name, body, type_ } => match pass_expression::<D>(
            s,
            body,
            variables,
        ) {
            None => None,
            Some((s1, Err(x))) => Some((s1, Err(x))),
            Some((s1, Ok(b))) => {
                let compiled = DefinitionV::Value { name, body: b, type_ };
                if D::compiles_definition(s1, compiled, variables) {
                    Some(D::compiled_definition(s1, compiled, variables))
                } else {
                    None
                }
            },
        },
    }
}

pub open spec fn pass_record_elements<D: TypedPass>(
    s: D::V,
    elements: Seq<(Seq<char>, ExprV)>,
    variables: Map<Seq<char>, TypeV>,
) -> Option<(D::V, Result<Seq<(Seq<char>, ExprV)>, ErrorV>)>
    decreases elements,
{
    if elements.len() == 0 {
        Some((s, Ok(Seq::empty())))
    } else {
        match pass_record_elements::<D>(s, elements.drop_last(), variables) {
            None => None,
            Some((s1, Err(x))) => Some((s1, Err(x))),
            Some((s1, Ok(previous))) => match pass_expression::<D>(
                s1,
                elements.last().1,
                variables,
            ) {
                None => None,
                Some((s2, Err(x))) => Some((s2, Err(x))),
                Some((s2, Ok(x))) => Some((s2, Ok(previous.push((elements.last().0, x))))),
            },
        }
    }
}

/// The definitions of a module in order, each with the module's variables in
/// scope.
pub open spec fn pass_module_definitions<D: TypedPass>(
    s: D::V,
    definitions: Seq<DefinitionV>,
    variables: Map<Seq<char>, TypeV>,
) -> Option<(D::V, Result<Seq<DefinitionV>, ErrorV>)>
    decreases definitions.len(),
{
    if definitions.len() == 0 {
        Some((s, Ok(Seq::empty())))
    } else {
        match pass_module_definitions::<D>(s, definitions.drop_last(), variables) {
            None => None,
            Some((s1, Err(x))) => Some((s1, Err(x))),
            Some((s1, Ok(previous))) => match pass_definition::<D>(
                s1,
                definitions.last(),
                variables,
            ) {
                None => None,
                Some((s2, Err(x))) => Some((s2, Err(x))),
                Some((s2, Ok(d))) => Some((s2, Ok(previous.push(d)))),
            },
        }
    }
}

/// The compilation of a module: its definitions with the module's variables
/// in scope; everything else is kept.
pub open spec fn pass_module<D: TypedPass>(
    s: D::V,
    m: ModuleV,
) -> Option<(D::V, Result<ModuleV, ErrorV>)> {
    match pass_module_definitions::<D>(s, m.definitions, module_variables(m)) {
        None => None,
        Some((s1, Err(x))) => Some((s1, Err(x))),
        Some((s1, Ok(ds))) => Some((s1, Ok(ModuleV { definitions: ds, ..m }))),
    }
}

/// Compiles modules with a child pass, keeping track of the types of the
/// variables in scope.
pub struct TypedMetaPass<D> {
    child_pass: D,
}

impl<D: TypedPass> View for TypedMetaPass<D> {
    type V = D::V;

    closed spec fn view(&self) -> D::V {
        self.child_pass@
    }
}

impl<D: TypedPass> TypedMetaPass<D> {
    pub fn new(child_pass: D) -> (r: Self)
        ensures
            r@ == child_pass@,
    {
        TypedMetaPass { child_pass }
    }

    /// Compiles every definition of the module as [`pass_module`] says.
    pub fn compile(&mut self, module: &Module) -> (r: Result<Module, CompileError>)
        requires
            pass_module::<D>(old(self)@, module@) is Some,
        ensures
            (final(self)@, view_module_result(r)) == pass_module::<D>(
                old(self)@,
                module@,
            )->0,
    {
        let variables = ModuleEnvironmentCreator::create(module);
        assert(module@.definitions.take(module.definitions@.len() as int) =~= module@.definitions);
        let definitions = self.compile_definitions(module, module.definitions.len(), &variables)?;
        Ok(
            Module {
                path: module.path.deep_clone(),
                export: Export { names: clone_strings(&module.export.names) },
                imports: clone_imports(&module.imports),
                ffi_imports: clone_builtin_interfaces(&module.ffi_imports),
                type_definitions: clone_type_definitions(&module.type_definitions),
                definitions,
            },
        )
    }

    fn compile_definitions(
        &mut self,
        module: &Module,
        n: usize,
        variables: &StringMap<Type>,
    ) -> (r: Result<Vec<Definition>, CompileError>)
        requires
            n <= module.definitions@.len(),
            pass_module_definitions::<D>(
                old(self)@,
                module@.definitions.take(n as int),
                variables@,
            ) is Some,
        ensures
            (final(self)@, match r {
                Ok(v) => Ok(view_definitions(v@)),
                Err(e) => Err(e@),
            }) == pass_module_definitions::<D>(
                old(self)@,
                module@.definitions.take(n as int),
                variables@,
            )->0,
        decreases n,
    {
        if n == 0 {
            let r: Vec<Definition> = Vec::new();
            assert(view_definitions(r@) =~= Seq::<DefinitionV>::empty());
            return Ok(r);
        }
        let ghost s = module@.definitions.take(n as int);
        assert(s.drop_last() =~= module@.definitions.take(n - 1));
        let mut previous = self.compile_definitions(module, n - 1, variables)?;
        let d = self.compile_definition(&module.definitions[n - 1], variables)?;
        let ghost before = view_definitions(previous@);
        previous.push(d);
        assert(view_definitions(previous@) =~= before.push(view_definitions(previous@).last()));
        Ok(previous)
    }

    fn compile_definition(&mut self, definition: &Definition, variables: &StringMap<Type>) -> (r:
        Result<Definition, CompileError>)
        requires
            pass_definition::<D>(old(self)@, definition@, variables@) is Some,
        ensures
            (final(self)@, view_definition_result(r)) == pass_definition::<D>(
                old(self)@,
                definition@,
                variables@,
            )->0,
        decreases definition, 3nat,
    {
        match definition {
            Definition::FunctionDefinition(f) => {
                let x = self.compile_function_definition(f, variables)?;
                Ok(Definition::FunctionDefinition(x))
            },
            Definition::ValueDefinition(v) => {
                let x = self.compile_value_definition(v, variables)?;
                Ok(Definition::ValueDefinition(x))
            },
        }
    }

    fn compile_function_definition(
        &mut self,
        function_definition: &FunctionDefinition,
        variables: &StringMap<Type>,
    ) -> (r: Result<FunctionDefinition, CompileError>)
        requires
            pass_definition::<D>(
                old(self)@,
                Definition::FunctionDefinition(*function_definition)@,
                variables@,
            ) is Some,
        ensures
            (final(self)@, view_function_result(r)) == pass_definition::<D>(
                old(self)@,
                Definition::FunctionDefinition(*function_definition)@,
                variables@,
            )->0,
        decreases function_definition, 2nat,
    {
        if !function_definition.type_.is_function() {
            assert(false);
            return Err(CompileError::TypesNotMatched);
        }
        let mut scope = variables.deep_clone();
        insert_argument_variables(
            &mut scope,
            &function_definition.arguments,
            &function_definition.type_,
        );
        let body = self.compile_expression(&function_definition.body, &scope)?;
        let compiled = FunctionDefinition {
            name: function_definition.name.clone(),
            arguments: clone_strings(&function_definition.arguments),
            body,
            type_: function_definition.type_.deep_clone(),
        };
        self.child_pass.compile_function_definition(&compiled, &scope)
    }

    fn compile_value_definition(
        &mut self,
        value_definition: &ValueDefinition,
        variables: &StringMap<Type>,
    ) -> (r: Result<ValueDefinition, CompileError>)
        requires
            pass_definition::<D>(
                old(self)@,
                Definition::ValueDefinition(*value_definition)@,
                variables@,
            ) is Some,
        ensures
            (final(self)@, view_value_result(r)) == pass_definition::<D>(
                old(self)@,
                Definition::ValueDefinition(*value_definition)@,
                variables@,
            )->0,
        decreases value_definition, 2nat,
    {
        let body = self.compile_expression(&value_definition.body, variables)?;
        let compiled = ValueDefinition {
            name: value_definition.name.clone(),
            body,
            type_: value_definition.type_.deep_clone(),
        };
        self.child_pass.compile_value_definition(&compiled, variables)
    }

    fn compile_expression(&mut self, expression: &Expression, variables: &StringMap<Type>) -> (r:
        Result<Expression, CompileError>)
        requires
            pass_expression::<D>(old(self)@, expression@, variables@) is Some,
        ensures
            (final(self)@, view_result(r)) == pass_expression::<D>(
                old(self)@,
                expression@,
                variables@,
            )->0,
        decreases expression, 1nat,
    {
        broadcast use group_ast_view;

        let node = match expression {
            Expression::Application { function, argument } => {
                let f = self.compile_expression(function, variables)?;
                let a = self.compile_expression(argument, variables)?;
                let nd = Expression::Application { function: Box::new(f), argument: Box::new(a) };
                nd
            },
            Expression::Case { type_, name, argument, alternatives } => {
                let nd = self.compile_case(expression, type_, name, argument, alternatives, variables)?;
                nd
            },
            Expression::If { condition, then, else_ } => {
                let c = self.compile_expression(condition, variables)?;
                let t = self.compile_expression(then, variables)?;
                let z = self.compile_expression(else_, variables)?;
                Expression::If { condition: Box::new(c), then: Box::new(t), else_: Box::new(z) }
            },
            Expression::Let { definitions, expression: body } => {
                let nd = self.compile_let(expression, definitions, body, variables)?;
                nd
            },
            Expression::Operation { type_, operator, lhs, rhs } => {
                let l = self.compile_expression(lhs, variables)?;
                let r = self.compile_expression(rhs, variables)?;
                Expression::Operation {
                    type_: type_.deep_clone(),
                    operator: *operator,
                    lhs: Box::new(l),
                    rhs: Box::new(r),
                }
            },
            Expression::RecordConstruction { type_, elements } => {
                assert(view_record_elements_rec(elements@) == view_record_elements(elements@));
                assert(view_record_elements(elements@).take(elements@.len() as int)
                    =~= view_record_elements(elements@));
                let es = self.compile_record_elements(
                    expression,
                    elements,
                    elements.len(),
                    variables,
                )?;
                assert(view_record_elements_rec(es@) == view_record_elements(es@));
                Expression::RecordConstruction { type_: type_.deep_clone(), elements: es }
            },
            Expression::RecordElementOperation { type_, key, argument } => {
                let a = self.compile_expression(argument, variables)?;
                Expression::RecordElementOperation {
                    type_: type_.deep_clone(),
                    key: key.clone(),
                    argument: Box::new(a),
                }
            },
            Expression::Boolean { .. } => {
                let nd = expression.deep_clone();
                nd
            },
            Expression::NoneLiteral => expression.deep_clone(),
            Expression::Number { .. } => expression.deep_clone(),
            Expression::Variable { .. } => expression.deep_clone(),
            _ => {
                assert(false);
                return Err(CompileError::TypesNotMatched);
            },
        };
        assert(pass_inner::<D>(old(self)@, expression@, variables@) == Some(
            (self@, Ok::<ExprV, ErrorV>(node@)),
        ));
        self.child_pass.compile_expression(&node, variables)
    }

    fn compile_case(
        &mut self,
        parent: &Expression,
        type_: &Type,
        name: &String,
        argument: &Expression,
        alternatives: &Vec<Alternative>,
        variables: &StringMap<Type>,
    ) -> (r: Result<Expression, CompileError>)
        requires
            parent matches Expression::Case { type_: t, name: n, argument: a, alternatives: l } && *t
                == *type_ && *n == *name && *a == *argument && l == alternatives,
            pass_inner::<D>(old(self)@, parent@, variables@) is Some,
        ensures
            (final(self)@, view_result(r)) == pass_inner::<D>(
                old(self)@,
                parent@,
                variables@,
            )->0,
        decreases parent, 0nat, alternatives@.len() + 1,
    {
        broadcast use group_ast_view;

        assert(decreases_to!(parent => *argument));
        let a = self.compile_expression(argument, variables)?;
        assert(view_alternatives_rec(alternatives@) == view_alternatives(alternatives@));
        assert(view_alternatives(alternatives@).take(alternatives@.len() as int)
            =~= view_alternatives(alternatives@));
        let alts = self.compile_alternatives(
            parent,
            name,
            alternatives,
            alternatives.len(),
            variables,
        )?;
        assert(view_alternatives_rec(alts@) == view_alternatives(alts@));
        Ok(
            Expression::Case {
                type_: type_.deep_clone(),
                name: name.clone(),
                argument: Box::new(a),
                alternatives: alts,
            },
        )
    }

    fn compile_let(
        &mut self,
        parent: &Expression,
        definitions: &Vec<Definition>,
        body: &Expression,
        variables: &StringMap<Type>,
    ) -> (r: Result<Expression, CompileError>)
        requires
            parent matches Expression::Let { definitions: d, expression: b } && d == definitions
                && *b == *body,
            pass_inner::<D>(old(self)@, parent@, variables@) is Some,
        ensures
            (final(self)@, view_result(r)) == pass_inner::<D>(
                old(self)@,
                parent@,
                variables@,
            )->0,
        decreases parent, 0nat, definitions@.len() + 1,
    {
        broadcast use group_ast_view;

        assert(view_definitions_rec(definitions@) == view_definitions(definitions@));
        let values = defines_functions(definitions);
        let mut scope = variables.deep_clone();
        insert_let_scope(&mut scope, definitions, values);
        assert(view_definitions(definitions@).take(definitions@.len() as int) =~= view_definitions(
            definitions@,
        ));
        let (ds, scope) = self.compile_let_definitions(
            parent,
            definitions,
            definitions.len(),
            &scope,
        )?;
        assert(decreases_to!(parent => *body));
        let b = self.compile_expression(body, &scope)?;
        assert(view_definitions_rec(ds@) == view_definitions(ds@));
        Ok(Expression::Let { definitions: ds, expression: Box::new(b) })
    }

    fn compile_alternatives(
        &mut self,
        parent: &Expression,
        name: &String,
        alternatives: &Vec<Alternative>,
        n: usize,
        variables: &StringMap<Type>,
    ) -> (r: Result<Vec<Alternative>, CompileError>)
        requires
            parent matches Expression::Case { alternatives: a, .. } && a == alternatives,
            n <= alternatives@.len(),
            pass_alternatives::<D>(
                old(self)@,
                name@,
                view_alternatives(alternatives@).take(n as int),
                variables@,
            ) is Some,
        ensures
            (final(self)@, match r {
                Ok(v) => Ok(view_alternatives(v@)),
                Err(e) => Err(e@),
            }) == pass_alternatives::<D>(
                old(self)@,
                name@,
                view_alternatives(alternatives@).take(n as int),
                variables@,
            )->0,
        decreases parent, 0nat, n,
    {
        if n == 0 {
            let r: Vec<Alternative> = Vec::new();
            assert(view_alternatives(r@) =~= Seq::<AlternativeV>::empty());
            return Ok(r);
        }
        let ghost s = view_alternatives(alternatives@).take(n as int);
        assert(s.drop_last() =~= view_alternatives(alternatives@).take(n - 1));
        let mut previous = self.compile_alternatives(parent, name, alternatives, n - 1, variables)?;
        let alternative = &alternatives[n - 1];
        let mut scope = variables.deep_clone();
        scope.insert(name.clone(), alternative.type_.deep_clone());
        assert(decreases_to!(parent => *alternatives));
        assert(decreases_to!(alternatives => alternatives@[n - 1].expression));
        let x = self.compile_expression(&alternative.expression, &scope)?;
        let ghost before = view_alternatives(previous@);
        previous.push(Alternative { type_: alternative.type_.deep_clone(), expression: x });
        assert(view_alternatives(previous@) =~= before.push(view_alternatives(previous@).last()));
        Ok(previous)
    }

    fn compile_let_definitions(
        &mut self,
        parent: &Expression,
        definitions: &Vec<Definition>,
        n: usize,
        variables: &StringMap<Type>,
    ) -> (r: Result<(Vec<Definition>, StringMap<Type>), CompileError>)
        requires
            parent matches Expression::Let { definitions: d, .. } && d == definitions,
            n <= definitions@.len(),
            pass_let_definitions::<D>(
                old(self)@,
                view_definitions(definitions@).take(n as int),
                variables@,
            ) is Some,
        ensures
            (final(self)@, match r {
                Ok((v, m)) => Ok((view_definitions(v@), m@)),
                Err(e) => Err(e@),
            }) == pass_let_definitions::<D>(
                old(self)@,
                view_definitions(definitions@).take(n as int),
                variables@,
            )->0,
        decreases parent, 0nat, n,
    {
        if n == 0 {
            let r: Vec<Definition> = Vec::new();
            assert(view_definitions(r@) =~= Seq::<DefinitionV>::empty());
            return Ok((r, variables.deep_clone()));
        }
        let ghost s = view_definitions(definitions@).take(n as int);
        assert(s.drop_last() =~= view_definitions(definitions@).take(n - 1));
        let (mut previous, mut scope) = self.compile_let_definitions(
            parent,
            definitions,
            n - 1,
            variables,
        )?;
        assert(decreases_to!(parent => *definitions));
        assert(decreases_to!(definitions => definitions@[n - 1]));
        let definition = &definitions[n - 1];
        let d = self.compile_definition(definition, &scope)?;
        if let Definition::ValueDefinition(v) = definition {
            scope.insert(v.name.clone(), v.type_.deep_clone());
        }
        let ghost before = view_definitions(previous@);
        previous.push(d);
        assert(view_definitions(previous@) =~= before.push(view_definitions(previous@).last()));
        Ok((previous, scope))
    }

    fn compile_record_elements(
        &mut self,
        parent: &Expression,
        elements: &Vec<(String, Expression)>,
        n: usize,
        variables: &StringMap<Type>,
    ) -> (r: Result<Vec<(String, Expression)>, CompileError>)
        requires
            parent matches Expression::RecordConstruction { elements: e, .. } && e == elements,
            n <= elements@.len(),
            pass_record_elements::<D>(
                old(self)@,
                view_record_elements(elements@).take(n as int),
                variables@,
            ) is Some,
        ensures
            (final(self)@, match r {
                Ok(v) => Ok(view_record_elements(v@)),
                Err(e) => Err(e@),
            }) == pass_record_elements::<D>(
                old(self)@,
                view_record_elements(elements@).take(n as int),
                variables@,
            )->0,
        decreases parent, 0nat, n,
    {
        if n == 0 {
            let r: Vec<(String, Expression)> = Vec::new();
            assert(view_record_elements(r@) =~= Seq::<(Seq<char>, ExprV)>::empty());
            return Ok(r);
        }
        let ghost s = view_record_elements(elements@).take(n as int);
        assert(s.drop_last() =~= view_record_elements(elements@).take(n - 1));
        let mut previous = self.compile_record_elements(parent, elements, n - 1, variables)?;
        assert(decreases_to!(parent => *elements));
        assert(decreases_to!(elements => elements@[n - 1].1));
        let x = self.compile_expression(&elements[n - 1].1, variables)?;
        let ghost before = view_record_elements(previous@);
        previous.push((elements[n - 1].0.clone(), x));
        assert(view_record_elements(previous@) =~= before.push(view_record_elements(previous@).last()));
        Ok(previous)
    }
}

impl<D: TypedPass> Pass for TypedMetaPass<D> {
    open spec fn handles(&self, module: ModuleV) -> bool {
        pass_module::<D>(self@, module) is Some
    }

    open spec fn compiled(&self, module: ModuleV) -> Result<ModuleV, ErrorV> {
        (pass_module::<D>(self@, module)->0).1
    }

    open spec fn leaves(&self, module: ModuleV, after: Self) -> bool {
        after@ == (pass_module::<D>(self@, module)->0).0
    }

    fn compile(&mut self, module: &Module) -> (r: Result<Module, CompileError>) {
        TypedMetaPass::<D>::compile(self, module)
    }
}

} // verus!
