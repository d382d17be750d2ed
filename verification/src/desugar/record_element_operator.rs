//! Desugaring of record element operators into functions.
use crate::ast::{
    all_nodes_definitions, view_definitions, view_definitions_rec, Definition, DefinitionV, ExprV, Expression, FunctionDefinition,
};
use crate::convert::{
    children_all, convert_module, convert_module_spec, lemma_all_nodes_children,
    lemma_convert_module_all_nodes, ExpressionConverter,
};
use crate::module::{Module, ModuleV};
use crate::names::{NameGenerator, NameGeneratorV};
use crate::types::{Type, TypeV};
use vstd::prelude::*;

verus! {

/// The function that a record element operator `.key` becomes: a let
/// expression that defines a function of one argument, named `function`, that
/// takes the element `key` of its argument, named `argument`.
pub open spec fn record_element_function(
    key: Seq<char>,
    function: Seq<char>,
    argument: Seq<char>,
) -> ExprV {
    ExprV::Let {
        definitions: seq![
            DefinitionV::Function {
                name: function,
                arguments: seq![argument],
                body: ExprV::RecordElementOperation {
                    type_: TypeV::Unknown,
                    key,
                    argument: Box::new(ExprV::Variable { name: argument }),
                },
                type_: TypeV::Unknown,
            },
        ],
        expression: Box::new(ExprV::Variable { name: function }),
    }
}

/// The names of the functions and of their arguments that record element
/// operators become.
pub struct RecordElementOperatorDesugarer {
    pub function_names: NameGenerator,
    pub argument_names: NameGenerator,
}

impl View for RecordElementOperatorDesugarer {
    type V = (NameGeneratorV, NameGeneratorV);

    open spec fn view(&self) -> (NameGeneratorV, NameGeneratorV) {
        (self.function_names@, self.argument_names@)
    }
}

impl ExpressionConverter for RecordElementOperatorDesugarer {
    open spec fn well_formed(&self) -> bool {
        true
    }

    open spec fn converted(state: (NameGeneratorV, NameGeneratorV), e: ExprV) -> (
        (NameGeneratorV, NameGeneratorV),
        ExprV,
    ) {
        match e {
            ExprV::RecordElementOperator { key } => (
                (state.0.next(), state.1.next()),
                record_element_function(key, state.0.name(), state.1.name()),
            ),
            _ => (state, e),
        }
    }

    fn convert(&mut self, e: Expression) -> (r: Expression) {
        broadcast use crate::ast::group_ast_view;

        match e {
            Expression::RecordElementOperator { key } => {
                let ghost k = key@;
                let function_name = self.function_names.generate();
                let argument_name = self.argument_names.generate();
                let argument = Expression::Variable { name: argument_name.clone() };
                assert(argument@ == ExprV::Variable { name: argument_name@ });
                let body = Expression::RecordElementOperation {
                    type_: Type::Unknown,
                    key,
                    argument: Box::new(argument),
                };
                assert(body@ == ExprV::RecordElementOperation {
                    type_: TypeV::Unknown,
                    key: k,
                    argument: Box::new(ExprV::Variable { name: argument_name@ }),
                });
                let mut arguments: Vec<String> = Vec::new();
                arguments.push(argument_name);
                let definition = Definition::FunctionDefinition(
                    FunctionDefinition {
                        name: function_name.clone(),
                        arguments,
                        body,
                        type_: Type::Unknown,
                    },
                );
                let ghost dv = definition@;
                assert(dv->Function_arguments =~= seq![argument_name@]);
                let mut definitions: Vec<Definition> = Vec::new();
                definitions.push(definition);
                assert(view_definitions(definitions@) =~= seq![dv]);
                assert(view_definitions_rec(definitions@) == view_definitions(definitions@));
                let expression = Expression::Variable { name: function_name };
                assert(expression@ == ExprV::Variable { name: function_name@ });
                let r = Expression::Let { definitions, expression: Box::new(expression) };
                assert(r@ == record_element_function(k, function_name@, argument_name@));
                r
            },
            _ => e,
        }
    }
}

/// The starting names: `record_element_operator_function_0` and
/// `record_element_operator_argument_0`.
pub open spec fn record_element_operator_names() -> (NameGeneratorV, NameGeneratorV) {
    (
        NameGeneratorV { prefix: "record_element_operator_function_"@, index: 0 },
        NameGeneratorV { prefix: "record_element_operator_argument_"@, index: 0 },
    )
}

/// Turns every record element operator `.key` into a let-bound function that
/// takes the element `key` of its argument.
pub fn desugar_record_element_operators(module: &Module) -> (r: Module)
    ensures
        r@ == convert_module_spec::<RecordElementOperatorDesugarer>(
            record_element_operator_names(),
            module@,
        ).1,
{
    let mut desugarer = RecordElementOperatorDesugarer {
        function_names: NameGenerator::new("record_element_operator_function_"),
        argument_names: NameGenerator::new("record_element_operator_argument_"),
    };
    convert_module(&mut desugarer, module)
}

/// Whether the expression is not a record element operator.
pub open spec fn not_record_element_operator(e: ExprV) -> bool {
    !(e is RecordElementOperator)
}

/// After desugaring, no record element operator is left in any definition.
pub proof fn lemma_record_element_operators_desugared(
    state: (NameGeneratorV, NameGeneratorV),
    m: ModuleV,
)
    ensures
        all_nodes_definitions(
            convert_module_spec::<RecordElementOperatorDesugarer>(state, m).1.definitions,
            |e: ExprV| not_record_element_operator(e),
        ),
{
    let p = |e: ExprV| not_record_element_operator(e);
    assert forall|c: (NameGeneratorV, NameGeneratorV), x: ExprV| children_all(x, p) implies (
    #[trigger] RecordElementOperatorDesugarer::converted(c, x)).1.all_nodes(p) by {
        lemma_all_nodes_children(x, p);
        if let ExprV::RecordElementOperator { key } = x {
            let r = record_element_function(key, c.0.name(), c.1.name());
            let body = ExprV::RecordElementOperation {
                type_: TypeV::Unknown,
                key,
                argument: Box::new(ExprV::Variable { name: c.1.name() }),
            };
            assert(ExprV::Variable { name: c.1.name() }.all_nodes(p));
            assert(body.all_nodes(p));
            let ds = r->Let_definitions;
            assert(ds.drop_last() =~= Seq::<DefinitionV>::empty());
            assert(all_nodes_definitions(Seq::<DefinitionV>::empty(), p));
            assert(ds.last()->Function_body == body);
            assert(all_nodes_definitions(ds, p));
            assert(ExprV::Variable { name: c.0.name() }.all_nodes(p));
        }
    }
    lemma_convert_module_all_nodes::<RecordElementOperatorDesugarer>(state, m, p);
}

} // verus!
