//! Functions that every module gets.
use crate::ast::{
    clone_definitions, view_definitions, Definition, DefinitionV, ExprV, Expression,
    FunctionDefinition,
};
use crate::module::{
    clone_builtin_interfaces, clone_imports, clone_type_definitions, Export, Module, ModuleV,
};
use crate::types::{Type, TypeV};
use vstd::prelude::*;

verus! {

/// The definition of `not : Boolean -> Boolean` with `not x = if x then false
/// else true`.
pub open spec fn not_definition() -> DefinitionV {
    DefinitionV::Function {
        name: "not"@,
        arguments: seq!["x"@],
        body: ExprV::If {
            condition: Box::new(ExprV::Variable { name: "x"@ }),
            then: Box::new(ExprV::Boolean { value: false }),
            else_: Box::new(ExprV::Boolean { value: true }),
        },
        type_: TypeV::Function {
            argument: Box::new(TypeV::Boolean),
            result: Box::new(TypeV::Boolean),
        },
    }
}

/// Adds the built-in functions to modules.
pub struct BuiltinFunctionCreator {}

impl BuiltinFunctionCreator {
    pub fn new() -> (r: Self) {
        BuiltinFunctionCreator {}
    }

    /// The module with the built-in function `not` after its own definitions.
    pub fn create(&mut self, module: &Module) -> (r: Module)
        ensures
            r@ == (ModuleV {
                definitions: module@.definitions.push(not_definition()),
                ..module@
            }),
    {
        let condition = Expression::Variable { name: String::from_str("x") };
        let then = Expression::Boolean { value: false };
        let else_ = Expression::Boolean { value: true };
        assert(condition@ == ExprV::Variable { name: "x"@ });
        assert(then@ == ExprV::Boolean { value: false });
        assert(else_@ == ExprV::Boolean { value: true });
        let body = Expression::If {
            condition: Box::new(condition),
            then: Box::new(then),
            else_: Box::new(else_),
        };
        let argument = Type::Boolean;
        let result = Type::Boolean;
        assert(argument@ == TypeV::Boolean && result@ == TypeV::Boolean);
        let type_ = Type::Function { argument: Box::new(argument), result: Box::new(result) };
        let mut arguments: Vec<String> = Vec::new();
        arguments.push(String::from_str("x"));
        let not = Definition::FunctionDefinition(
            FunctionDefinition { name: String::from_str("not"), arguments, body, type_ },
        );
        assert(not@->Function_arguments =~= seq!["x"@]);
        assert(not@ == not_definition());
        let mut definitions = clone_definitions(&module.definitions);
        let ghost before = view_definitions(definitions@);
        definitions.push(not);
        assert(view_definitions(definitions@) =~= before.push(not_definition()));
        Module {
            path: module.path.deep_clone(),
            export: Export { names: crate::ast::clone_strings(&module.export.names) },
            imports: clone_imports(&module.imports),
            ffi_imports: clone_builtin_interfaces(&module.ffi_imports),
            type_definitions: clone_type_definitions(&module.type_definitions),
            definitions,
        }
    }
}

} // verus!
