use ein::ast::{Definition, Expression, FunctionDefinition, ValueDefinition};
use ein::error::CompileError;
use ein::global_name_map_creator::GlobalNameMapCreator;
use ein::global_name_qualifier::GlobalNameQualifier;
use ein::global_name_validator::GlobalNameValidator;
use ein::module::{Export, Import, Module, ModuleInterface, ModulePath, Package, TypeDefinition};
use ein::module_interface_compiler::ModuleInterfaceCompiler;
use ein::names::StringMap;
use ein::passes::elementless_record_pass::ElementlessRecordPass;
use ein::pass::Pass;
use ein::passes::partial_application_pass::PartialApplicationPass;
use ein::record_id_qualifier::RecordIdQualifier;
use ein::reference_type_resolver::ReferenceTypeResolver;
use ein::type_canonicalizer::TypeCanonicalizer;
use ein::type_equality_checker::TypeEqualityChecker;
use ein::type_order::sort_type_vec;
use ein::types::Type;

fn s(x: &str) -> String {
    x.to_string()
}

fn number() -> Type {
    Type::Number
}

fn none() -> Type {
    Type::NoneType
}

fn boolean() -> Type {
    Type::Boolean
}

fn function(argument: Type, result: Type) -> Type {
    Type::Function { argument: Box::new(argument), result: Box::new(result) }
}

// A union type holds its members as a set laid out in the ordering of types.
fn union(types: Vec<Type>) -> Type {
    Type::Union { types: sort_type_vec(&types) }
}

fn reference(name: &str) -> Type {
    Type::Reference { name: s(name) }
}

fn record(name: &str, elements: Vec<(&str, Type)>) -> Type {
    Type::Record { name: s(name), elements: elements.into_iter().map(|(k, t)| (s(k), t)).collect() }
}

fn num(value: f64) -> Expression {
    Expression::Number { value: value.to_bits() }
}

fn var(name: &str) -> Expression {
    Expression::Variable { name: s(name) }
}

fn app(function: Expression, argument: Expression) -> Expression {
    Expression::Application { function: Box::new(function), argument: Box::new(argument) }
}

fn fdef(name: &str, arguments: Vec<&str>, body: Expression, type_: Type) -> Definition {
    Definition::FunctionDefinition(FunctionDefinition {
        name: s(name),
        arguments: arguments.into_iter().map(s).collect(),
        body,
        type_,
    })
}

fn vdef(name: &str, body: Expression, type_: Type) -> Definition {
    Definition::ValueDefinition(ValueDefinition { name: s(name), body, type_ })
}

fn tdef(name: &str, type_: Type) -> TypeDefinition {
    TypeDefinition { name: s(name), type_ }
}

fn path(package: &str, components: Vec<&str>) -> ModulePath {
    ModulePath::new(Package::new(package, ""), components.into_iter().map(s).collect())
}

fn module(path: ModulePath, imports: Vec<Import>, type_definitions: Vec<TypeDefinition>, definitions: Vec<Definition>) -> Module {
    Module::new(path, Export { names: vec![] }, imports, vec![], type_definitions, definitions)
}

fn same<T: std::fmt::Debug>(a: &T, b: &T) -> bool {
    format!("{:?}", a) == format!("{:?}", b)
}

fn canonicalizer(module: &Module) -> TypeCanonicalizer {
    TypeCanonicalizer::new(
        ReferenceTypeResolver::new(module),
        TypeEqualityChecker::new(ReferenceTypeResolver::new(module)),
    )
}

fn canonicalize(type_: Type) -> Type {
    canonicalizer(&Module::dummy()).canonicalize(&type_).unwrap()
}

#[test]
fn canonicalize_duplicate_types() {
    assert!(canonicalize(union(vec![none(), none()])).equals(&none()));
}

#[test]
fn canonicalize_nested_union_types() {
    assert!(canonicalize(union(vec![union(vec![none(), none()]), none()])).equals(&none()));
}

#[test]
fn canonicalize_deeply_nested_union_types() {
    assert!(canonicalize(union(vec![union(vec![union(vec![none(), none()]), none()]), none()]))
        .equals(&none()));
}

#[test]
fn canonicalize_union_types_in_record_type() {
    let canonical = canonicalize(record("Foo", vec![("foo", union(vec![none(), none()]))]));
    match canonical {
        Type::Record { elements, .. } => {
            assert_eq!(elements.len(), 1);
            assert_eq!(elements[0].0, "foo");
            assert!(elements[0].1.equals(&none()));
        },
        _ => panic!("not a record type"),
    }
}

#[test]
fn canonicalize_union_types_including_any_types() {
    assert!(canonicalize(union(vec![Type::Any, none()])).equals(&Type::Any));
}

#[test]
fn canonicalize_union_types_including_any_types_in_record_types() {
    assert!(canonicalize(record("Foo", vec![("foo", union(vec![Type::Any, none()]))]))
        .equals(&record("Foo", vec![("foo", Type::Any)])));
}

#[test]
fn do_not_canonicalize_normal_union_types() {
    assert!(canonicalize(union(vec![boolean(), none()])).equals(&union(vec![boolean(), none()])));
}

#[test]
fn canonicalize_record_types_in_union_types() {
    assert!(canonicalize(union(vec![record("Foo", vec![]), record("Foo", vec![])]))
        .equals(&record("Foo", vec![])));
}

fn foo_boolean_module() -> Module {
    Module::from_definitions_and_type_definitions(vec![tdef("Foo", boolean())], vec![])
}

#[test]
fn canonicalize_union_type_resolving_reference_types() {
    let canonical = canonicalizer(&foo_boolean_module())
        .canonicalize(&union(vec![reference("Foo"), boolean(), none()]))
        .unwrap();
    assert!(canonical.equals(&union(vec![boolean(), none()])));
}

#[test]
fn canonicalize_union_type_not_resolving_reference_types() {
    let canonical = canonicalizer(&foo_boolean_module())
        .canonicalize(&union(vec![reference("Foo"), none()]))
        .unwrap();
    assert!(canonical.equals(&union(vec![reference("Foo"), none()])));
}

#[test]
fn canonicalize_unsorted_union_members_in_the_ordering_of_types() {
    let canonical = canonicalizer(&foo_boolean_module())
        .canonicalize(&Type::Union { types: vec![reference("Foo"), boolean(), none()] })
        .unwrap();
    assert!(canonical.equals(&Type::Union { types: vec![boolean(), none()] }));
    let kept = canonicalizer(&foo_boolean_module())
        .canonicalize(&Type::Union { types: vec![reference("Foo"), none()] })
        .unwrap();
    assert!(kept.equals(&Type::Union { types: vec![none(), reference("Foo")] }));
}

#[test]
fn canonicalize_function_types_inside() {
    assert!(canonicalize(function(union(vec![none(), none()]), union(vec![Type::Any, number()])))
        .equals(&function(none(), Type::Any)));
}

#[test]
fn fail_to_canonicalize_union_of_unknown_reference() {
    let error = canonicalize_error(union(vec![reference("Bar"), none()]));
    assert!(same(&error, &CompileError::TypeNotFound { name: s("Bar") }));
}

fn canonicalize_error(type_: Type) -> CompileError {
    canonicalizer(&Module::dummy()).canonicalize(&type_).unwrap_err()
}

#[test]
fn equal() {
    let record_type = || record("Foo", vec![]);
    let module = Module::from_definitions_and_type_definitions(vec![tdef("Foo", record_type())], vec![]);
    let checker = TypeEqualityChecker::new(ReferenceTypeResolver::new(&module));
    let cases = vec![
        ((boolean(), boolean()), true),
        ((boolean(), none()), false),
        ((reference("Foo"), reference("Foo")), true),
        ((reference("Foo"), record_type()), true),
        ((record_type(), reference("Foo")), true),
        ((record_type(), record_type()), true),
        ((union(vec![boolean(), none()]), union(vec![boolean(), none()])), true),
        ((union(vec![boolean(), none(), number()]), union(vec![boolean(), none()])), false),
        ((union(vec![none(), record_type()]), union(vec![none(), reference("Foo")])), true),
    ];
    for ((one, other), result) in cases {
        assert_eq!(checker.equal(&one, &other).unwrap(), result);
    }
}

fn assert_single_name(map: &StringMap<String>, key: &str, value: &str) {
    assert_eq!(map.len(), 1);
    assert_eq!(map.get(key).unwrap(), value);
}

#[test]
fn create_name_map_from_variable_definition() {
    let names = GlobalNameMapCreator::create(&Module::from_definitions(vec![vdef(
        "x",
        Expression::NoneLiteral,
        none(),
    )]));
    assert_single_name(&names, "x", "().x");
}

#[test]
fn create_name_map_from_function_definition() {
    let names = GlobalNameMapCreator::create(&Module::from_definitions(vec![fdef(
        "f",
        vec!["x"],
        Expression::NoneLiteral,
        function(none(), none()),
    )]));
    assert_single_name(&names, "f", "().f");
}

#[test]
fn create_name_map_from_type_definition() {
    let names = GlobalNameMapCreator::create(&Module::from_definitions_and_type_definitions(
        vec![tdef("x", none())],
        vec![],
    ));
    assert_single_name(&names, "x", "().x");
}

fn import_of_m(qualified: bool) -> Import {
    Import {
        module_interface: ModuleInterface {
            path: path("p", vec!["m"]),
            exported_names: vec![s("x")],
            types: vec![],
            functions: vec![],
            variables: vec![(s("x"), none())],
        },
        qualified,
    }
}

#[test]
fn create_name_map_from_qualified_import() {
    let names = GlobalNameMapCreator::create(&module(path("", vec![]), vec![import_of_m(true)], vec![], vec![]));
    assert_single_name(&names, "m.x", "p().m.x");
}

#[test]
fn create_name_map_from_unqualified_import() {
    let names = GlobalNameMapCreator::create(&module(path("", vec![]), vec![import_of_m(false)], vec![], vec![]));
    assert_single_name(&names, "x", "p().m.x");
}

#[test]
fn qualify_names_in_value_definitions() {
    let input = module(path("M", vec![]), vec![], vec![], vec![vdef("x", num(42.0), number())]);
    let qualified = GlobalNameQualifier::new(&input, &vec![]).qualify(&input);
    let expected = module(path("M", vec![]), vec![], vec![], vec![vdef("M().x", num(42.0), number())]);
    assert!(same(&qualified, &expected));
}

fn import_of_b() -> Import {
    Import {
        module_interface: ModuleInterface {
            path: path("A", vec!["B"]),
            exported_names: vec![],
            types: vec![],
            functions: vec![],
            variables: vec![(s("y"), number())],
        },
        qualified: true,
    }
}

#[test]
fn global_name_qualifier_qualify_names_in_imported_modules() {
    let input = module(path("M", vec![]), vec![import_of_b()], vec![], vec![vdef("x", var("B.y"), number())]);
    let qualified = GlobalNameQualifier::new(&input, &vec![]).qualify(&input);
    let expected =
        module(path("M", vec![]), vec![import_of_b()], vec![], vec![vdef("M().x", var("A().B.y"), number())]);
    assert!(same(&qualified, &expected));
}

#[test]
fn do_not_qualify_excluded_names() {
    let create = || module(path("M", vec![]), vec![], vec![], vec![vdef("x", num(42.0), number())]);
    let input = create();
    let qualified = GlobalNameQualifier::new(&input, &vec![s("x")]).qualify(&input);
    assert!(same(&qualified, &create()));
}

#[test]
fn qualify_names_in_type_definitions() {
    let input = module(path("M", vec![]), vec![], vec![tdef("x", none())], vec![]);
    let qualified = GlobalNameQualifier::new(&input, &vec![]).qualify(&input);
    let expected = module(path("M", vec![]), vec![], vec![tdef("M().x", none())], vec![]);
    assert!(same(&qualified, &expected));
}

#[test]
fn compile_empty_module_interface() {
    let interface = ModuleInterfaceCompiler::new().compile(&Module::from_definitions(vec![])).unwrap();
    let expected = ModuleInterface {
        path: path("", vec![]),
        exported_names: vec![],
        types: vec![],
        functions: vec![],
        variables: vec![],
    };
    assert!(same(&interface, &expected));
}

#[test]
fn compile_module_interface_with_definition() {
    let input = Module::new(
        path("P", vec!["M"]),
        Export { names: vec![s("x")] },
        vec![],
        vec![],
        vec![],
        vec![vdef("P().M.x", num(42.0), number())],
    );
    let interface = ModuleInterfaceCompiler::new().compile(&input).unwrap();
    let expected = ModuleInterface {
        path: path("P", vec!["M"]),
        exported_names: vec![s("x")],
        types: vec![],
        functions: vec![],
        variables: vec![(s("P().M.x"), number())],
    };
    assert!(same(&interface, &expected));
}

#[test]
fn fail_to_compile_module_interface_due_to_missing_exported_name() {
    let input = Module::new(path("P", vec!["M"]), Export { names: vec![s("x")] }, vec![], vec![], vec![], vec![]);
    let error = ModuleInterfaceCompiler::new().compile(&input).unwrap_err();
    assert!(same(&error, &CompileError::ExportedNameNotFound { name: s("x") }));
}

#[test]
fn validate_duplicate_names() {
    let input = Module::from_definitions(vec![vdef("x", num(42.0), number()), vdef("x", num(42.0), number())]);
    let error = GlobalNameValidator::new().validate(&input).unwrap_err();
    assert!(same(&error, &CompileError::DuplicateNames { name: s("x"), earlier: 0, later: 1 }));
}

#[test]
fn validate_distinct_names() {
    let input = Module::from_definitions(vec![vdef("x", num(42.0), number()), vdef("y", num(42.0), number())]);
    assert!(GlobalNameValidator::new().validate(&input).is_ok());
}

#[test]
fn qualify() {
    let input = module(path("Package", vec!["A", "B"]), vec![], vec![tdef("Foo", record("Foo", vec![]))], vec![]);
    let expected = module(
        path("Package", vec!["A", "B"]),
        vec![],
        vec![tdef("Foo", record("Package().A.B.Foo", vec![]))],
        vec![],
    );
    assert!(same(&RecordIdQualifier::new().qualify(&input), &expected));
}

#[test]
fn compile_elementless_record_type_definitions() {
    let record_type = || record("Foo", vec![]);
    let input = Module::from_definitions_and_type_definitions(vec![tdef("Foo", record_type())], vec![]);
    let expected = Module::from_definitions_and_type_definitions(
        vec![tdef("Foo", record_type())],
        vec![vdef(
            "Foo",
            Expression::RecordConstruction { type_: record_type(), elements: vec![] },
            record_type(),
        )],
    );
    assert!(same(&ElementlessRecordPass::new().compile(&input), &expected));
}

#[test]
fn complement_an_omitted_argument_of_value_definition() {
    let input = Module::from_definitions(vec![vdef("f", var("g"), function(number(), number()))]);
    let expected = Module::from_definitions(vec![fdef(
        "f",
        vec!["pa_argument_0"],
        app(var("g"), var("pa_argument_0")),
        function(number(), number()),
    )]);
    assert!(same(&PartialApplicationPass::new().compile(&input).unwrap(), &expected));
}

#[test]
fn complement_2_omitted_arguments_of_value_definition() {
    let function_type = || function(number(), function(number(), number()));
    let input = Module::from_definitions(vec![vdef("f", var("g"), function_type())]);
    let expected = Module::from_definitions(vec![fdef(
        "f",
        vec!["pa_argument_0", "pa_argument_1"],
        app(app(var("g"), var("pa_argument_0")), var("pa_argument_1")),
        function_type(),
    )]);
    assert!(same(&PartialApplicationPass::new().compile(&input).unwrap(), &expected));
}

#[test]
fn partial_application_pass_complement_an_omitted_argument_of_function_definition() {
    let function_type = || function(number(), function(number(), number()));
    let input = Module::from_definitions(vec![fdef("f", vec!["x"], var("g"), function_type())]);
    let expected = Module::from_definitions(vec![fdef(
        "f",
        vec!["x", "pa_argument_0"],
        app(var("g"), var("pa_argument_0")),
        function_type(),
    )]);
    assert!(same(&PartialApplicationPass::new().compile(&input).unwrap(), &expected));
}

#[test]
fn partial_application_pass_complement_2_omitted_arguments_of_function_definition() {
    let function_type = || function(number(), function(number(), function(number(), number())));
    let input = Module::from_definitions(vec![fdef("f", vec!["x"], var("g"), function_type())]);
    let expected = Module::from_definitions(vec![fdef(
        "f",
        vec!["x", "pa_argument_0", "pa_argument_1"],
        app(app(var("g"), var("pa_argument_0")), var("pa_argument_1")),
        function_type(),
    )]);
    assert!(same(&PartialApplicationPass::new().compile(&input).unwrap(), &expected));
}

fn compile_with_pass<P: Pass>(pass: &mut P, module: &Module) -> Module {
    pass.compile(module).unwrap()
}

#[test]
fn compile_through_pass_trait() {
    let input = Module::from_definitions(vec![vdef("f", var("g"), function(number(), number()))]);
    let expected = Module::from_definitions(vec![fdef(
        "f",
        vec!["pa_argument_0"],
        app(var("g"), var("pa_argument_0")),
        function(number(), number()),
    )]);
    assert!(same(&compile_with_pass(&mut PartialApplicationPass::new(), &input), &expected));
}

#[test]
fn report_first_repeated_name_with_both_positions() {
    let input = Module::from_definitions(vec![
        vdef("x", num(1.0), number()),
        vdef("y", num(2.0), number()),
        vdef("z", num(3.0), number()),
        vdef("y", num(4.0), number()),
        vdef("x", num(5.0), number()),
    ]);
    let error = GlobalNameValidator::new().validate(&input).unwrap_err();
    assert!(same(&error, &CompileError::DuplicateNames { name: s("y"), earlier: 1, later: 3 }));
}
