//! Desugaring of applications of non-variable functions.
use crate::ast::{
    view_definitions, view_definitions_rec, Definition, DefinitionV, ExprV, Expression,
    ValueDefinition,
};
use crate::convert::{convert_module, convert_module_spec, ExpressionConverter};
use crate::module::Module;
use crate::names::{NameGenerator, NameGeneratorV};
use crate::types::{Type, TypeV};
use vstd::prelude::*;

verus! {

/// An application whose function is neither a variable nor an application
/// gets its function bound to a generated name; a let expression as the
/// function is opened instead, so that it applies its body.
pub open spec fn desugar_non_variable_application(state: NameGeneratorV, e: ExprV) -> (
    NameGeneratorV,
    ExprV,
) {
    match e {
        ExprV::Application { function, argument } => match *function {
            ExprV::Application { .. } => (state, e),
            ExprV::Variable { .. } => (state, e),
            ExprV::Let { definitions, expression } => (
                state,
                ExprV::Let {
                    definitions,
                    expression: Box::new(ExprV::Application { function: expression, argument }),
                },
            ),
            _ => (
                state.next(),
                ExprV::Let {
                    definitions: seq![
                        DefinitionV::Value {
                            name: state.name(),
                            body: *function,
                            type_: TypeV::Unknown,
                        },
                    ],
                    expression: Box::new(
                        ExprV::Application {
                            function: Box::new(ExprV::Variable { name: state.name() }),
                            argument,
                        },
                    ),
                },
            ),
        },
        _ => (state, e),
    }
}

/// The names of the functions bound by the desugaring.
pub struct NonVariableApplicationDesugarer {
    pub names: NameGenerator,
}

impl View for NonVariableApplicationDesugarer {
    type V = NameGeneratorV;

    open spec fn view(&self) -> NameGeneratorV {
        self.names@
    }
}

impl ExpressionConverter for NonVariableApplicationDesugarer {
    open spec fn well_formed(&self) -> bool {
        true
    }

    open spec fn converted(state: NameGeneratorV, e: ExprV) -> (NameGeneratorV, ExprV) {
        desugar_non_variable_application(state, e)
    }

    fn convert(&mut self, e: Expression) -> (r: Expression) {
        broadcast use crate::ast::group_ast_view;

        match e {
            Expression::Application { function, argument } => {
                let ghost a = argument@;
                let ghost fv = (*function)@;
                match *function {
                    Expression::Application { function: f, argument: x } => {
                        let inner = Expression::Application { function: f, argument: x };
                        assert(inner@ == fv);
                        Expression::Application { function: Box::new(inner), argument }
                    },
                    Expression::Variable { name } => {
                        let inner = Expression::Variable { name };
                        assert(inner@ == fv);
                        Expression::Application { function: Box::new(inner), argument }
                    },
                    Expression::Let { definitions, expression } => {
                        let ghost ds = view_definitions_rec(definitions@);
                        let ghost x = (*expression)@;
                        let inner = Expression::Application { function: expression, argument };
                        assert(inner@ == ExprV::Application { function: Box::new(x), argument: Box::new(a) });
                        let r = Expression::Let { definitions, expression: Box::new(inner) };
                        assert(r@->Let_definitions == ds);
                        r
                    },
                    other => {
                        let ghost o = other@;
                        let name = self.names.generate();
                        let definition = Definition::ValueDefinition(
                            ValueDefinition { name: name.clone(), body: other, type_: Type::Unknown },
                        );
                        let ghost dv = definition@;
                        assert(dv == DefinitionV::Value {
                            name: name@,
                            body: o,
                            type_: TypeV::Unknown,
                        });
                        let mut definitions: Vec<Definition> = Vec::new();
                        definitions.push(definition);
                        assert(view_definitions(definitions@) =~= seq![dv]);
                        assert(view_definitions_rec(definitions@) == view_definitions(definitions@));
                        let variable = Expression::Variable { name };
                        assert(variable@ == ExprV::Variable { name: name@ });
                        let application = Expression::Application {
                            function: Box::new(variable),
                            argument,
                        };
                        assert(application@ == ExprV::Application {
                            function: Box::new(ExprV::Variable { name: name@ }),
                            argument: Box::new(a),
                        });
                        Expression::Let { definitions, expression: Box::new(application) }
                    },
                }
            },
            _ => e,
        }
    }
}

/// The starting name: `generated_function_0`.
pub open spec fn generated_function_names() -> NameGeneratorV {
    NameGeneratorV { prefix: "generated_function_"@, index: 0 }
}

/// Binds the functions of applications that are not variables or
/// applications to generated names, so that every application applies a
/// variable or another application.
pub fn desugar_non_variable_applications(module: &Module) -> (r: Module)
    ensures
        r@ == convert_module_spec::<NonVariableApplicationDesugarer>(
            generated_function_names(),
            module@,
        ).1,
{
    let mut desugarer = NonVariableApplicationDesugarer {
        names: NameGenerator::new("generated_function_"),
    };
    convert_module(&mut desugarer, module)
}

} // verus!
