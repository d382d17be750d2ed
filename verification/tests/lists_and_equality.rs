use ein::ast::{Alternative, Definition, Expression, FunctionDefinition, ListElement, Operator, ValueDefinition};
use ein::builtin_function_creator::BuiltinFunctionCreator;
use ein::configuration::{ListLiteralConfiguration, ListTypeConfiguration};
use ein::desugar::list_literal_desugarer::ListLiteralDesugarer;
use ein::desugar::list_type_desugarer::ListTypeDesugarer;
use ein::error::CompileError;
use ein::global_name_renamer::GlobalNameRenamer;
use ein::module::{Export, Module, ModulePath, Package, TypeDefinition};
use ein::names::{NameGenerator, StringMap};
use ein::passes::list_literal_pass::ListLiteralPass;
use ein::reference_type_resolver::ReferenceTypeResolver;
use ein::transform::equal_operation_transformer::EqualOperationTransformer;
use ein::transform::function_type_argument_transformer::FunctionTypeArgumentTransformer;
use ein::transform::list_literal_transformer::ListLiteralTransformer;
use ein::transform::not_equal_operation_transformer::NotEqualOperationTransformer;
use ein::transform::type_coercion_transformer::TypeCoercionTransformer;
use ein::transform::typed_meta_transformer::TypedMetaTransformer;
use ein::expression_type_extractor::ExpressionTypeExtractor;
use ein::module_environment_creator::ModuleEnvironmentCreator;
use ein::type_canonicalizer::TypeCanonicalizer;
use ein::type_comparability_checker::TypeComparabilityChecker;
use ein::type_equality_checker::TypeEqualityChecker;
use ein::types::Type;

fn s(x: &str) -> String {
    x.to_string()
}

fn same<T: std::fmt::Debug>(a: &T, b: &T) -> bool {
    format!("{:?}", a) == format!("{:?}", b)
}

fn num(value: f64) -> Expression {
    Expression::Number { value: value.to_bits() }
}

fn var(name: &str) -> Expression {
    Expression::Variable { name: s(name) }
}

fn boolean(value: bool) -> Expression {
    Expression::Boolean { value }
}

fn app(function: Expression, argument: Expression) -> Expression {
    Expression::Application { function: Box::new(function), argument: Box::new(argument) }
}

fn if_(condition: Expression, then: Expression, else_: Expression) -> Expression {
    Expression::If { condition: Box::new(condition), then: Box::new(then), else_: Box::new(else_) }
}

fn list(element: Type) -> Type {
    Type::List { element: Box::new(element) }
}

fn function(argument: Type, result: Type) -> Type {
    Type::Function { argument: Box::new(argument), result: Box::new(result) }
}

fn vdef(name: &str, body: Expression, type_: Type) -> Definition {
    Definition::ValueDefinition(ValueDefinition { name: s(name), body, type_ })
}

fn literal_configuration() -> ListLiteralConfiguration {
    ListLiteralConfiguration::new("emptyList", "concatenateLists", "equalLists", "prependToList", "GenericList")
}

fn type_configuration() -> ListTypeConfiguration {
    ListTypeConfiguration::new(
        "emptyList",
        "concatenateLists",
        "equalLists",
        "prependToList",
        "deconstruct",
        "first",
        "rest",
        "GenericList",
        "FirstRest",
    )
}

fn list_literal(elements: Vec<ListElement>) -> Expression {
    Expression::List { elements }
}

fn expected_list_expression() -> Expression {
    app(
        app(var("prependToList"), num(1.0)),
        app(app(var("concatenateLists"), var("xs")), var("emptyList")),
    )
}

#[test]
fn desugar_list_literal_into_list_functions() {
    let module = Module::from_definitions(vec![vdef(
        "x",
        list_literal(vec![ListElement::Single(num(1.0)), ListElement::Multiple(var("xs"))]),
        list(Type::Number),
    )]);
    let desugared = ListLiteralDesugarer::new(literal_configuration()).desugar(&module).unwrap();
    let expected = Module::from_definitions(vec![vdef("x", expected_list_expression(), list(Type::Number))]);
    assert!(same(&desugared, &expected));
}

#[test]
fn desugar_empty_list_literal_into_empty_list_variable() {
    let module = Module::from_definitions(vec![vdef("x", list_literal(vec![]), list(Type::Number))]);
    let desugared = ListLiteralDesugarer::new(literal_configuration()).desugar(&module).unwrap();
    let expected = Module::from_definitions(vec![vdef("x", var("emptyList"), list(Type::Number))]);
    assert!(same(&desugared, &expected));
}

#[test]
fn compile_list_literal_in_pass() {
    let module = Module::from_definitions(vec![vdef(
        "x",
        list_literal(vec![ListElement::Single(num(1.0)), ListElement::Multiple(var("xs"))]),
        list(Type::Number),
    )]);
    let compiled = ListLiteralPass::new(literal_configuration()).compile(&module).unwrap();
    let expected = Module::from_definitions(vec![vdef("x", expected_list_expression(), list(Type::Number))]);
    assert!(same(&compiled, &expected));
}

#[test]
fn transform_list_literal_elements() {
    let transformed = ListLiteralTransformer::new(type_configuration())
        .transform(&vec![ListElement::Single(num(1.0)), ListElement::Multiple(var("xs"))]);
    assert!(same(&transformed, &expected_list_expression()));
}

#[test]
fn desugar_list_types_everywhere() {
    let module = Module::new(
        ModulePath::new(Package::new("", ""), vec![]),
        Export { names: vec![] },
        vec![],
        vec![],
        vec![TypeDefinition { name: s("Numbers"), type_: list(Type::Number) }],
        vec![vdef(
            "f",
            Expression::TypeCoercion {
                argument: Box::new(var("xs")),
                from: list(list(Type::Number)),
                to: Type::Any,
            },
            function(list(Type::Boolean), Type::Number),
        )],
    );
    let desugared = ListTypeDesugarer::new(literal_configuration()).desugar(&module).unwrap();
    let reference = || Type::Reference { name: s("GenericList") };
    let expected = Module::new(
        ModulePath::new(Package::new("", ""), vec![]),
        Export { names: vec![] },
        vec![],
        vec![],
        vec![TypeDefinition { name: s("Numbers"), type_: reference() }],
        vec![vdef(
            "f",
            Expression::TypeCoercion { argument: Box::new(var("xs")), from: reference(), to: Type::Any },
            function(reference(), Type::Number),
        )],
    );
    assert!(same(&desugared, &expected));
}

#[test]
fn keep_types_without_lists_when_desugaring_list_types() {
    let create = || {
        Module::from_definitions(vec![Definition::FunctionDefinition(FunctionDefinition {
            name: s("f"),
            arguments: vec![s("x")],
            body: Expression::Case {
                type_: Type::Any,
                name: s("y"),
                argument: Box::new(var("x")),
                alternatives: vec![Alternative { type_: Type::Number, expression: var("y") }],
            },
            type_: function(Type::Any, Type::Number),
        })])
    };
    let desugared = ListTypeDesugarer::new(literal_configuration()).desugar(&create()).unwrap();
    assert!(same(&desugared, &create()));
}

#[test]
fn create_builtin_not_function() {
    let module = BuiltinFunctionCreator::new().create(&Module::from_definitions(vec![]));
    let expected = Module::from_definitions(vec![Definition::FunctionDefinition(FunctionDefinition {
        name: s("not"),
        arguments: vec![s("x")],
        body: if_(var("x"), boolean(false), boolean(true)),
        type_: function(Type::Boolean, Type::Boolean),
    })]);
    assert!(same(&module, &expected));
}

fn equal_transformer() -> EqualOperationTransformer {
    let module = Module::from_definitions(vec![]);
    EqualOperationTransformer::new(
        ReferenceTypeResolver::new(&module),
        TypeComparabilityChecker::new(ReferenceTypeResolver::new(&module)),
        TypeEqualityChecker::new(ReferenceTypeResolver::new(&module)),
        type_configuration(),
    )
}

fn equal(type_: Type) -> Expression {
    Expression::Operation { type_, operator: Operator::Equal, lhs: Box::new(var("x")), rhs: Box::new(var("y")) }
}

#[test]
fn transform_boolean_equal_operation() {
    let transformed = equal_transformer().transform(&equal(Type::Boolean)).unwrap();
    let expected = if_(
        var("x"),
        if_(var("y"), boolean(true), boolean(false)),
        if_(var("y"), boolean(false), boolean(true)),
    );
    assert!(same(&transformed, &expected));
}

#[test]
fn fail_to_transform_equal_operation_of_any_type() {
    let error = equal_transformer().transform(&equal(Type::Any)).unwrap_err();
    assert!(same(&error, &CompileError::AnyEqualOperation));
}

#[test]
fn fail_to_transform_equal_operation_of_function_type() {
    let error = equal_transformer().transform(&equal(function(Type::Number, Type::Number))).unwrap_err();
    assert!(same(&error, &CompileError::FunctionEqualOperation));
}

#[test]
fn keep_number_equal_operation() {
    let transformed = equal_transformer().transform(&equal(Type::Number)).unwrap();
    assert!(same(&transformed, &equal(Type::Number)));
}

#[test]
fn transform_not_equal_operation() {
    let operation = Expression::Operation {
        type_: Type::Number,
        operator: Operator::NotEqual,
        lhs: Box::new(var("x")),
        rhs: Box::new(var("y")),
    };
    let module = Module::from_definitions(vec![vdef("z", operation, Type::Boolean)]);
    let transformed = NotEqualOperationTransformer::new().transform(&module).unwrap();
    let expected = Module::from_definitions(vec![vdef(
        "z",
        if_(equal(Type::Number), boolean(false), boolean(true)),
        Type::Boolean,
    )]);
    assert!(same(&transformed, &expected));
}

#[test]
fn generate_distinct_names() {
    let mut generator = NameGenerator::new("x");
    let first = generator.generate();
    let second = generator.generate();
    assert_eq!(first, "x0");
    assert_eq!(second, "x1");
}

#[test]
fn qualify_list_literal_configuration() {
    let mut names: StringMap<String> = StringMap::new();
    names.insert(s("emptyList"), s("Core().emptyList"));
    let qualified = literal_configuration().qualify(&names);
    assert_eq!(qualified.empty_list_variable_name(), "Core().emptyList");
    assert_eq!(qualified.concatenate_function_name(), "concatenateLists");
    assert_eq!(qualified.list_type_name(), "GenericList");
}

fn equality_checker() -> TypeEqualityChecker {
    let module = Module::from_definitions_and_type_definitions(
        vec![TypeDefinition { name: s("Foo"), type_: Type::Union { types: vec![Type::Number, Type::NoneType] } }],
        vec![],
    );
    TypeEqualityChecker::new(ReferenceTypeResolver::new(&module))
}

#[test]
fn type_equality_is_reflexive() {
    let checker = equality_checker();
    for type_ in vec![
        Type::Number,
        Type::Reference { name: s("Foo") },
        Type::Union { types: vec![Type::Boolean, Type::Reference { name: s("Foo") }] },
        function(Type::Number, Type::Boolean),
    ] {
        assert!(checker.equal(&type_, &type_).unwrap());
    }
}

#[test]
fn type_equality_is_symmetric() {
    let checker = equality_checker();
    let types = vec![
        Type::Number,
        Type::Reference { name: s("Foo") },
        Type::Union { types: vec![Type::Number, Type::NoneType] },
        Type::Union { types: vec![Type::NoneType, Type::Number] },
    ];
    for one in &types {
        for other in &types {
            assert_eq!(checker.equal(one, other).unwrap(), checker.equal(other, one).unwrap());
        }
    }
    assert!(checker.equal(&types[1], &types[2]).unwrap());
    assert!(checker.equal(&types[2], &types[3]).unwrap());
    assert!(!checker.equal(&types[0], &types[2]).unwrap());
}

#[test]
fn rename_nothing_with_empty_names() {
    let create = || {
        Module::from_definitions(vec![Definition::FunctionDefinition(FunctionDefinition {
            name: s("f"),
            arguments: vec![s("x")],
            body: app(var("g"), var("x")),
            type_: function(Type::Number, Type::Number),
        })])
    };
    let renamed = GlobalNameRenamer::new(StringMap::new()).rename(&create());
    assert!(same(&renamed, &create()));
}

#[test]
fn bind_function_arguments_to_let_bound_variables() {
    let module = Module::from_definitions(vec![vdef("y", app(var("f"), num(1.0)), Type::Number)]);
    let transformed = FunctionTypeArgumentTransformer::new().transform(&module).unwrap();
    let expected = Module::from_definitions(vec![vdef(
        "y",
        app(
            var("f"),
            Expression::Let {
                definitions: vec![vdef("fta_function_0", num(1.0), Type::Unknown)],
                expression: Box::new(var("fta_function_0")),
            },
        ),
        Type::Number,
    )]);
    assert!(same(&transformed, &expected));
}

fn record_type(elements: Vec<(&str, Type)>) -> Type {
    Type::Record { name: s("Foo"), elements: elements.into_iter().map(|(k, t)| (s(k), t)).collect() }
}

#[test]
fn transform_record_equal_operation_into_equal_function_call() {
    let transformed = equal_transformer().transform(&equal(record_type(vec![("x", Type::Number)]))).unwrap();
    assert!(same(&transformed, &app(app(var("Foo.$equal"), var("x")), var("y"))));
}

#[test]
fn fail_to_transform_equal_operation_of_record_with_function_element() {
    let error = equal_transformer()
        .transform(&equal(record_type(vec![("f", function(Type::Number, Type::Number))])))
        .unwrap_err();
    assert!(same(&error, &CompileError::RecordEqualOperation));
}

fn equal_operations_are_primitive(expression: &Expression) -> bool {
    match expression {
        Expression::Application { function, argument } => {
            equal_operations_are_primitive(function) && equal_operations_are_primitive(argument)
        }
        Expression::Case { argument, alternatives, .. } => {
            equal_operations_are_primitive(argument)
                && alternatives.iter().all(|a| equal_operations_are_primitive(&a.expression))
        }
        Expression::If { condition, then, else_ } => {
            equal_operations_are_primitive(condition)
                && equal_operations_are_primitive(then)
                && equal_operations_are_primitive(else_)
        }
        Expression::Let { definitions, expression } => {
            definitions.iter().all(|d| match d {
                Definition::FunctionDefinition(f) => equal_operations_are_primitive(&f.body),
                Definition::ValueDefinition(v) => equal_operations_are_primitive(&v.body),
            }) && equal_operations_are_primitive(expression)
        }
        Expression::Operation { type_, operator, lhs, rhs } => {
            (!matches!(operator, Operator::Equal) || matches!(type_, Type::Number | Type::String))
                && equal_operations_are_primitive(lhs)
                && equal_operations_are_primitive(rhs)
        }
        _ => true,
    }
}

#[test]
fn leave_only_primitive_equal_operations() {
    for type_ in vec![
        Type::Union { types: vec![Type::Number, Type::NoneType, Type::Boolean] },
        list(Type::Number),
        list(Type::Union { types: vec![Type::Number, Type::String] }),
    ] {
        let transformed = equal_transformer().transform(&equal(type_)).unwrap();
        assert!(equal_operations_are_primitive(&transformed));
        assert!(!matches!(transformed, Expression::Operation { .. }));
    }
}

fn coercion_transformer(module: &Module) -> TypedMetaTransformer<TypeCoercionTransformer> {
    let resolver = || ReferenceTypeResolver::new(module);
    let canonicalizer = || TypeCanonicalizer::new(resolver(), TypeEqualityChecker::new(resolver()));
    TypedMetaTransformer::new(
        TypeCoercionTransformer::new(
            resolver(),
            TypeEqualityChecker::new(resolver()),
            ExpressionTypeExtractor::new(canonicalizer()),
            canonicalizer(),
        ),
        ModuleEnvironmentCreator {},
        resolver(),
    )
}

#[test]
fn coerce_values_to_any_and_union_types() {
    let union = || Type::Union { types: vec![Type::Number, Type::NoneType] };
    let module = Module::from_definitions(vec![
        vdef("x", num(42.0), Type::Any),
        vdef("y", num(42.0), union()),
        vdef("z", num(42.0), Type::Number),
    ]);
    let transformed = coercion_transformer(&module).transform(&module).unwrap();
    let expected = Module::from_definitions(vec![
        vdef(
            "x",
            Expression::TypeCoercion { argument: Box::new(num(42.0)), from: Type::Number, to: Type::Any },
            Type::Any,
        ),
        vdef(
            "y",
            Expression::TypeCoercion { argument: Box::new(num(42.0)), from: Type::Number, to: union() },
            union(),
        ),
        vdef("z", num(42.0), Type::Number),
    ]);
    assert!(same(&transformed, &expected));
}

#[test]
fn keep_module_with_nothing_to_coerce() {
    let module = Module::from_definitions_and_type_definitions(
        vec![TypeDefinition { name: "A".to_string(), type_: Type::Reference { name: "A".to_string() } }],
        vec![
            vdef("z", num(42.0), Type::Number),
            vdef("w", Expression::Boolean { value: true }, Type::Boolean),
        ],
    );
    let transformed = coercion_transformer(&module).transform(&module).unwrap();
    assert!(same(&transformed, &module));
}

#[test]
fn rename_list_case_but_not_its_bound_names() {
    let list_case = |first: &str, rest: &str, empty: &str| Expression::ListCase {
        argument: Box::new(var("x")),
        type_: list(Type::Number),
        first_name: s("x"),
        rest_name: s("xs"),
        empty_alternative: Box::new(var(empty)),
        non_empty_alternative: Box::new(app(app(var("f"), var(first)), var(rest))),
    };
    let argument_renamed = |e: Expression| match e {
        Expression::ListCase {
            type_,
            first_name,
            rest_name,
            empty_alternative,
            non_empty_alternative,
            ..
        } => Expression::ListCase {
            argument: Box::new(var("M.x")),
            type_,
            first_name,
            rest_name,
            empty_alternative,
            non_empty_alternative,
        },
        other => other,
    };
    let mut names = StringMap::new();
    names.insert(s("x"), s("M.x"));
    names.insert(s("xs"), s("M.xs"));
    let module = Module::from_definitions(vec![vdef("y", list_case("x", "xs", "xs"), Type::Number)]);
    let renamed = GlobalNameRenamer::new(names).rename(&module);
    let expected = Module::from_definitions(vec![vdef(
        "y",
        argument_renamed(list_case("x", "xs", "M.xs")),
        Type::Number,
    )]);
    assert!(same(&renamed, &expected));
}
