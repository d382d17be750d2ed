use ein::error::CompileError;
use ein::ast::{Definition, Expression, FunctionDefinition, ValueDefinition};
use ein::desugar::reference_types::{remove_reference_types, resolve_function_reference_types};
use ein::last_result_type_calculator::LastResultTypeCalculator;
use ein::module::{BuiltinInterface, Export, Import, Module, ModuleInterface, ModulePath, Package, TypeDefinition};
use ein::module_environment_creator::ModuleEnvironmentCreator;
use ein::names::NameGenerator;
use ein::reference_type_resolver::ReferenceTypeResolver;
use ein::type_comparability_checker::TypeComparabilityChecker;
use ein::types::Type;

fn s(x: &str) -> String {
    x.to_string()
}

fn number() -> Type {
    Type::Number
}

fn function(argument: Type, result: Type) -> Type {
    Type::Function { argument: Box::new(argument), result: Box::new(result) }
}

fn reference(name: &str) -> Type {
    Type::Reference { name: s(name) }
}

fn record(name: &str, elements: Vec<(&str, Type)>) -> Type {
    Type::Record {
        name: s(name),
        elements: elements.into_iter().map(|(k, t)| (s(k), t)).collect(),
    }
}

fn num_literal(value: f64) -> Expression {
    Expression::Number { value: value.to_bits() }
}

fn root_path() -> ModulePath {
    ModulePath::new(Package::new("", ""), vec![])
}

fn same<T: std::fmt::Debug>(a: &T, b: &T) -> bool {
    format!("{:?}", a) == format!("{:?}", b)
}

#[test]
fn generate_name() {
    let mut generator = NameGenerator::new("name");

    assert_eq!(generator.generate(), "name0");
    assert_eq!(generator.generate(), "name1");
}

#[test]
fn last_result() {
    let calculator = || LastResultTypeCalculator::new(ReferenceTypeResolver::new(&Module::dummy()));

    assert!(calculator()
        .calculate(&function(number(), number()), 1)
        .unwrap()
        .equals(&number()));

    assert!(calculator()
        .calculate(&function(number(), function(number(), number())), 2)
        .unwrap()
        .equals(&number()));

    assert!(calculator()
        .calculate(&function(number(), function(number(), number())), 1)
        .unwrap()
        .equals(&function(number(), number())));

    assert!(calculator()
        .calculate(
            &function(number(), function(number(), function(number(), number()))),
            3
        )
        .unwrap()
        .equals(&number()));
}

#[test]
fn check_comparability_of_record_type() {
    assert!(TypeComparabilityChecker::new(ReferenceTypeResolver::new(&Module::dummy()))
        .check(&record("foo", vec![]))
        .unwrap());
}

#[test]
fn check_comparability_of_record_type_with_function_member() {
    assert!(!TypeComparabilityChecker::new(ReferenceTypeResolver::new(&Module::dummy()))
        .check(&record("foo", vec![("foo", function(number(), number()))]))
        .unwrap());
}

#[test]
fn check_comparability_of_record_type_with_any_member() {
    assert!(!TypeComparabilityChecker::new(ReferenceTypeResolver::new(&Module::dummy()))
        .check(&record("foo", vec![("foo", Type::Any)]))
        .unwrap());
}

#[test]
fn resolve_resolved_type() {
    assert!(ReferenceTypeResolver::new(&Module::dummy())
        .resolve(&number())
        .unwrap()
        .equals(&number()));
}

#[test]
fn resolve_type_in_imported_module() {
    assert!(ReferenceTypeResolver::new(&Module::new(
        root_path(),
        Export { names: vec![] },
        vec![Import {
            module_interface: ModuleInterface {
                path: ModulePath::new(Package::new("Foo", ""), vec![]),
                exported_names: vec![],
                types: vec![(s("Foo"), number())],
                functions: vec![],
                variables: vec![],
            },
            qualified: true,
        }],
        vec![],
        vec![],
        vec![],
    ))
    .resolve(&reference("Foo"))
    .unwrap()
    .equals(&number()));
}

#[test]
fn resolve_type_in_ffi_import() {
    assert!(ReferenceTypeResolver::new(&Module::new(
        root_path(),
        Export { names: vec![] },
        vec![],
        vec![BuiltinInterface { types: vec![(s("Foo"), number())], functions: vec![] }],
        vec![],
        vec![],
    ))
    .resolve(&reference("Foo"))
    .unwrap()
    .equals(&number()));
}

#[test]
fn include_ffi_functions() {
    let environment = ModuleEnvironmentCreator::create(&Module::new(
        root_path(),
        Export { names: vec![] },
        vec![],
        vec![BuiltinInterface {
            types: vec![],
            functions: vec![(s("foo"), function(number(), number()))],
        }],
        vec![],
        vec![],
    ));

    assert_eq!(environment.len(), 1);
    assert!(environment.get("foo").unwrap().equals(&function(number(), number())));
}

#[test]
fn do_not_remove_reference_types_if_none_exists() {
    assert!(same(&remove_reference_types(&Module::dummy()), &Module::dummy()));
}

#[test]
fn reference_types_remove_reference_type_in_type_definition() {
    assert!(same(
        &remove_reference_types(&Module::new(
            root_path(),
            Export { names: vec![] },
            vec![],
            vec![],
            vec![
                TypeDefinition { name: s("Foo"), type_: number() },
                TypeDefinition { name: s("Bar"), type_: reference("Foo") },
            ],
            vec![],
        )),
        &Module::new(
            root_path(),
            Export { names: vec![] },
            vec![],
            vec![],
            vec![
                TypeDefinition { name: s("Foo"), type_: number() },
                TypeDefinition { name: s("Bar"), type_: number() },
            ],
            vec![],
        )
    ));
}

#[test]
fn reference_types_remove_reference_type_in_definition() {
    assert!(same(
        &remove_reference_types(&Module::new(
            root_path(),
            Export { names: vec![] },
            vec![],
            vec![],
            vec![TypeDefinition { name: s("Foo"), type_: number() }],
            vec![Definition::ValueDefinition(ValueDefinition {
                name: s("x"),
                body: num_literal(42.0),
                type_: reference("Foo"),
            })],
        )),
        &Module::new(
            root_path(),
            Export { names: vec![] },
            vec![],
            vec![],
            vec![TypeDefinition { name: s("Foo"), type_: number() }],
            vec![Definition::ValueDefinition(ValueDefinition {
                name: s("x"),
                body: num_literal(42.0),
                type_: number(),
            })],
        )
    ));
}

fn external_interface() -> Import {
    Import {
        module_interface: ModuleInterface {
            path: ModulePath::new(Package::new("Module", ""), vec![]),
            exported_names: vec![],
            types: vec![(s("Foo"), number())],
            functions: vec![],
            variables: vec![],
        },
        qualified: true,
    }
}

#[test]
fn remove_reference_type_in_type_definition() {
    assert!(same(
        &remove_reference_types(&Module::new(
            root_path(),
            Export { names: vec![] },
            vec![external_interface()],
            vec![],
            vec![TypeDefinition { name: s("Bar"), type_: reference("Module.Foo") }],
            vec![],
        )),
        &Module::new(
            root_path(),
            Export { names: vec![] },
            vec![external_interface()],
            vec![],
            vec![TypeDefinition { name: s("Bar"), type_: number() }],
            vec![],
        )
    ));
}

#[test]
fn remove_reference_type_in_definition() {
    assert!(same(
        &remove_reference_types(&Module::new(
            root_path(),
            Export { names: vec![] },
            vec![external_interface()],
            vec![],
            vec![],
            vec![Definition::ValueDefinition(ValueDefinition {
                name: s("x"),
                body: num_literal(42.0),
                type_: reference("Module.Foo"),
            })],
        )),
        &Module::new(
            root_path(),
            Export { names: vec![] },
            vec![external_interface()],
            vec![],
            vec![],
            vec![Definition::ValueDefinition(ValueDefinition {
                name: s("x"),
                body: num_literal(42.0),
                type_: number(),
            })],
        )
    ));
}

#[test]
fn resolve_function_reference_types_() {
    let module = |result: Type| {
        Module::new(
            root_path(),
            Export { names: vec![] },
            vec![],
            vec![],
            vec![TypeDefinition { name: s("Foo"), type_: number() }],
            vec![Definition::FunctionDefinition(FunctionDefinition {
                name: s("f"),
                arguments: vec![s("x")],
                body: num_literal(42.0),
                type_: function(number(), result),
            })],
        )
    };

    assert!(same(
        &resolve_function_reference_types(&module(reference("Foo"))),
        &module(number())
    ));
}

fn module_with_circular_aliases() -> Module {
    Module::from_definitions_and_type_definitions(
        vec![
            TypeDefinition { name: s("A"), type_: reference("B") },
            TypeDefinition { name: s("B"), type_: reference("A") },
            TypeDefinition { name: s("C"), type_: reference("C") },
            TypeDefinition { name: s("Foo"), type_: reference("Bar") },
            TypeDefinition { name: s("Bar"), type_: number() },
        ],
        vec![],
    )
}

#[test]
fn resolve_type_beside_circular_aliases() {
    let resolver = ReferenceTypeResolver::new(&module_with_circular_aliases());
    assert!(resolver.resolve(&reference("Foo")).unwrap().equals(&number()));
    assert!(resolver.resolve_reference("Bar").unwrap().equals(&number()));
    assert_eq!(resolver.is_function(&reference("Foo")).unwrap(), false);
    assert!(matches!(
        resolver.resolve(&reference("Baz")),
        Err(CompileError::TypeNotFound { name }) if name == "Baz"
    ));
}

#[test]
fn report_circular_type_references() {
    let resolver = ReferenceTypeResolver::new(&module_with_circular_aliases());
    assert!(matches!(
        resolver.resolve(&reference("A")),
        Err(CompileError::CircularTypeReference { name }) if name == "A"
    ));
    assert!(matches!(
        resolver.resolve_reference("B"),
        Err(CompileError::CircularTypeReference { name }) if name == "B"
    ));
    assert!(matches!(
        resolver.is_any(&reference("C")),
        Err(CompileError::CircularTypeReference { name }) if name == "C"
    ));
}
