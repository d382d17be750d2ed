use ein::ast::{Alternative, Definition, Expression, FunctionDefinition, Operator, ValueDefinition};
use ein::desugar::boolean_operation_desugarer::BooleanOperationDesugarer;
use ein::desugar::desugar_with_types;
use ein::desugar::desugar_without_types;
use ein::desugar::non_variable_application::desugar_non_variable_applications;
use ein::desugar::not_equal_operation_desugarer::NotEqualOperationDesugarer;
use ein::desugar::partial_applications::PartialApplicationDesugarer;
use ein::desugar::record_element_operator::desugar_record_element_operators;
use ein::desugar::record_update_desugarer::RecordUpdateDesugarer;
use ein::module::{Module, TypeDefinition};
use ein::type_order::sort_type_vec;
use ein::types::Type;

fn s(x: &str) -> String {
    x.to_string()
}

fn number() -> Type {
    Type::Number
}

fn none() -> Type {
    Type::NoneType
}

fn boolean() -> Type {
    Type::Boolean
}

fn function(argument: Type, result: Type) -> Type {
    Type::Function { argument: Box::new(argument), result: Box::new(result) }
}

// A union type holds its members as a set laid out in the ordering of types.
fn union(types: Vec<Type>) -> Type {
    Type::Union { types: sort_type_vec(&types) }
}

fn reference(name: &str) -> Type {
    Type::Reference { name: s(name) }
}

fn record(name: &str, elements: Vec<(&str, Type)>) -> Type {
    Type::Record { name: s(name), elements: elements.into_iter().map(|(k, t)| (s(k), t)).collect() }
}

fn num(value: f64) -> Expression {
    Expression::Number { value: value.to_bits() }
}

fn var(name: &str) -> Expression {
    Expression::Variable { name: s(name) }
}

fn app(function: Expression, argument: Expression) -> Expression {
    Expression::Application { function: Box::new(function), argument: Box::new(argument) }
}

fn let_(definitions: Vec<Definition>, expression: Expression) -> Expression {
    Expression::Let { definitions, expression: Box::new(expression) }
}

fn if_(condition: Expression, then: Expression, else_: Expression) -> Expression {
    Expression::If { condition: Box::new(condition), then: Box::new(then), else_: Box::new(else_) }
}

fn coercion(argument: Expression, from: Type, to: Type) -> Expression {
    Expression::TypeCoercion { argument: Box::new(argument), from, to }
}

fn fdef(name: &str, arguments: Vec<&str>, body: Expression, type_: Type) -> Definition {
    Definition::FunctionDefinition(FunctionDefinition {
        name: s(name),
        arguments: arguments.into_iter().map(s).collect(),
        body,
        type_,
    })
}

fn vdef(name: &str, body: Expression, type_: Type) -> Definition {
    Definition::ValueDefinition(ValueDefinition { name: s(name), body, type_ })
}

fn same<T: std::fmt::Debug>(a: &T, b: &T) -> bool {
    format!("{:?}", a) == format!("{:?}", b)
}

fn number_or_none() -> Type {
    union(vec![number(), none()])
}

#[test]
fn desugar_function_definition() {
    let create_module = |body: Expression| {
        Module::from_definitions(vec![
            fdef("f", vec!["x"], num(42.0), function(number_or_none(), number())),
            fdef("g", vec!["x"], body, function(number(), number_or_none())),
        ])
    };

    let desugared = desugar_with_types(&create_module(app(var("f"), num(42.0)))).unwrap();
    let expected = create_module(coercion(
        app(var("f"), coercion(num(42.0), number(), number_or_none())),
        number(),
        number_or_none(),
    ));
    assert!(same(&desugared, &expected));
}

#[test]
fn desugar_value_definition() {
    let create_module =
        |expression: Expression| Module::from_definitions(vec![vdef("x", expression, number_or_none())]);

    let desugared = desugar_with_types(&create_module(num(42.0))).unwrap();
    assert!(same(&desugared, &create_module(coercion(num(42.0), number(), number_or_none()))));
}

#[test]
fn desugar_application() {
    let create_module = |argument: Expression| {
        Module::from_definitions(vec![
            fdef("f", vec!["x"], num(42.0), function(number_or_none(), number())),
            vdef("x", app(var("f"), argument), number()),
        ])
    };

    let desugared = desugar_with_types(&create_module(num(42.0))).unwrap();
    assert!(same(&desugared, &create_module(coercion(num(42.0), number(), number_or_none()))));
}

#[test]
fn desugar_let_value_expression() {
    let create_module = |expression: Expression| {
        Module::from_definitions(vec![vdef(
            "x",
            let_(vec![vdef("y", expression, number_or_none())], num(42.0)),
            number(),
        )])
    };

    let desugared = desugar_with_types(&create_module(num(42.0))).unwrap();
    assert!(same(&desugared, &create_module(coercion(num(42.0), number(), number_or_none()))));
}

#[test]
fn desugar_let_function_expression() {
    let create_module = |body: Expression| {
        Module::from_definitions(vec![
            fdef("f", vec!["x"], num(42.0), function(number_or_none(), number())),
            vdef(
                "x",
                let_(vec![fdef("g", vec!["x"], body, function(number(), number_or_none()))], num(42.0)),
                number(),
            ),
        ])
    };

    let desugared = desugar_with_types(&create_module(app(var("f"), num(42.0)))).unwrap();
    let expected = create_module(coercion(
        app(var("f"), coercion(num(42.0), number(), number_or_none())),
        number(),
        number_or_none(),
    ));
    assert!(same(&desugared, &expected));
}

#[test]
fn desugar_record_construction() {
    let create_module = |expression: Expression| {
        Module::from_definitions_and_type_definitions(
            vec![TypeDefinition { name: s("Foo"), type_: record("Foo", vec![("foo", number_or_none())]) }],
            vec![vdef(
                "x",
                Expression::RecordConstruction { type_: reference("Foo"), elements: vec![(s("foo"), expression)] },
                reference("Foo"),
            )],
        )
    };

    let desugared = desugar_with_types(&create_module(num(42.0))).unwrap();
    assert!(same(&desugared, &create_module(coercion(num(42.0), number(), number_or_none()))));
}

#[test]
fn desugar_union() {
    let lower = || union(vec![number(), none()]);
    let upper = || union(vec![boolean(), number(), none()]);
    let create_module = |expression1: Expression, expression2: Expression| {
        Module::from_definitions(vec![vdef("x", expression1, lower()), vdef("y", expression2, upper())])
    };

    let desugared = desugar_with_types(&create_module(num(42.0), var("x"))).unwrap();
    let expected =
        create_module(coercion(num(42.0), number(), lower()), coercion(var("x"), lower(), upper()));
    assert!(same(&desugared, &expected));
}

#[test]
fn desugar_function() {
    let lower = || none();
    let upper = || union(vec![boolean(), none()]);
    let create_module = |definition: Definition| {
        Module::from_definitions(vec![
            fdef("f", vec!["x"], Expression::NoneLiteral, function(upper(), lower())),
            vdef("x", let_(vec![definition], Expression::NoneLiteral), none()),
        ])
    };

    let desugared =
        desugar_with_types(&create_module(vdef("g", var("f"), function(lower(), upper())))).unwrap();
    let expected = create_module(fdef(
        "g",
        vec!["pa_argument_0"],
        coercion(app(var("f"), coercion(var("pa_argument_0"), lower(), upper())), lower(), upper()),
        function(lower(), upper()),
    ));
    assert!(same(&desugared, &expected));
}

#[test]
fn desugar_function_as_argument() {
    let lower = || none();
    let upper = || union(vec![boolean(), none()]);
    let create_module = |expression: Expression| {
        Module::from_definitions(vec![
            fdef("f", vec!["x"], Expression::NoneLiteral, function(upper(), lower())),
            fdef("g", vec!["x"], Expression::NoneLiteral, function(function(lower(), upper()), lower())),
            vdef("x", app(var("g"), expression), lower()),
        ])
    };

    let desugared = desugar_with_types(&create_module(var("f"))).unwrap();
    let expected = create_module(let_(
        vec![fdef(
            "fta_function_0",
            vec!["pa_argument_0"],
            coercion(app(var("f"), coercion(var("pa_argument_0"), lower(), upper())), lower(), upper()),
            function(lower(), upper()),
        )],
        var("fta_function_0"),
    ));
    assert!(same(&desugared, &expected));
}

fn f_definition() -> Definition {
    fdef("f", vec!["y"], var("y"), function(number(), number()))
}

#[test]
fn convert_non_variable_applications() {
    let module = Module::from_definitions(vec![vdef(
        "x",
        app(let_(vec![f_definition()], var("f")), var("z")),
        number(),
    )]);
    let expected = Module::from_definitions(vec![vdef(
        "x",
        let_(vec![f_definition()], app(var("f"), var("z"))),
        number(),
    )]);
    assert!(same(&desugar_non_variable_applications(&module), &expected));
}

#[test]
fn convert_non_variable_applications_wrapped_by_another_applications() {
    let module = Module::from_definitions(vec![vdef(
        "x",
        app(app(let_(vec![f_definition()], var("f")), var("z")), var("z")),
        number(),
    )]);
    let expected = Module::from_definitions(vec![vdef(
        "x",
        let_(vec![f_definition()], app(app(var("f"), var("z")), var("z"))),
        number(),
    )]);
    assert!(same(&desugar_non_variable_applications(&module), &expected));
}

#[test]
fn do_no_convert_variable_applications() {
    let create = || Module::from_definitions(vec![vdef("x", app(var("f"), var("y")), number())]);
    assert!(same(&desugar_non_variable_applications(&create()), &create()));
}

#[test]
fn bind_functions_of_non_variable_applications() {
    let module = Module::from_definitions(vec![vdef(
        "x",
        app(if_(Expression::Boolean { value: true }, var("f"), var("g")), num(1.0)),
        number(),
    )]);
    let expected = Module::from_definitions(vec![vdef(
        "x",
        let_(
            vec![vdef(
                "generated_function_0",
                if_(Expression::Boolean { value: true }, var("f"), var("g")),
                Type::Unknown,
            )],
            app(var("generated_function_0"), num(1.0)),
        ),
        number(),
    )]);
    assert!(same(&desugar_non_variable_applications(&module), &expected));
}

#[test]
fn do_not_convert_value_definitions_of_variables() {
    let create = || Module::from_definitions(vec![vdef("f", var("g"), function(number(), number()))]);
    let desugared = PartialApplicationDesugarer::new().desugar(&create()).unwrap();
    assert!(same(&desugared, &create()));
}

#[test]
fn convert_value_definitions_of_applications() {
    let function_type = || function(number(), number());
    let module = Module::from_definitions(vec![vdef("f", app(var("g"), var("x")), function_type())]);
    let expected = Module::from_definitions(vec![vdef(
        "f",
        let_(
            vec![fdef(
                "pa_function_0",
                vec!["pa_argument_0"],
                app(app(var("g"), var("x")), var("pa_argument_0")),
                function_type(),
            )],
            var("pa_function_0"),
        ),
        function_type(),
    )]);
    let desugared = PartialApplicationDesugarer::new().desugar(&module).unwrap();
    assert!(same(&desugared, &expected));
}

#[test]
fn partial_applications_complement_an_omitted_argument_of_function_definition() {
    let function_type = || function(number(), function(number(), number()));
    let module = Module::from_definitions(vec![fdef("f", vec!["x"], var("g"), function_type())]);
    let expected = Module::from_definitions(vec![fdef(
        "f",
        vec!["x", "pa_argument_0"],
        app(var("g"), var("pa_argument_0")),
        function_type(),
    )]);
    let desugared = PartialApplicationDesugarer::new().desugar(&module).unwrap();
    assert!(same(&desugared, &expected));
}

#[test]
fn partial_applications_complement_2_omitted_arguments_of_function_definition() {
    let function_type = || function(number(), function(number(), function(number(), number())));
    let module = Module::from_definitions(vec![fdef("f", vec!["x"], var("g"), function_type())]);
    let expected = Module::from_definitions(vec![fdef(
        "f",
        vec!["x", "pa_argument_0", "pa_argument_1"],
        app(app(var("g"), var("pa_argument_0")), var("pa_argument_1")),
        function_type(),
    )]);
    let desugared = PartialApplicationDesugarer::new().desugar(&module).unwrap();
    assert!(same(&desugared, &expected));
}

#[test]
fn desugar_record_element_operator() {
    let module = Module::from_definitions(vec![vdef(
        "x",
        Expression::RecordElementOperator { key: s("foo") },
        Type::Unknown,
    )]);
    let expected = Module::from_definitions(vec![vdef(
        "x",
        let_(
            vec![fdef(
                "record_element_operator_function_0",
                vec!["record_element_operator_argument_0"],
                Expression::RecordElementOperation {
                    type_: Type::Unknown,
                    key: s("foo"),
                    argument: Box::new(var("record_element_operator_argument_0")),
                },
                Type::Unknown,
            )],
            var("record_element_operator_function_0"),
        ),
        Type::Unknown,
    )]);
    assert!(same(&desugar_record_element_operators(&module), &expected));
}

fn foo_record_type() -> Type {
    record("Foo", vec![("foo", none()), ("bar", none())])
}

#[test]
fn desugar_record_update() {
    let module = Module::from_definitions_and_type_definitions(
        vec![TypeDefinition { name: s("Foo"), type_: foo_record_type() }],
        vec![vdef(
            "x",
            Expression::RecordUpdate {
                reference: s("Foo"),
                argument: Box::new(var("foo")),
                elements: vec![(s("bar"), Expression::NoneLiteral)],
            },
            reference("Foo"),
        )],
    );
    let expected = Module::from_definitions_and_type_definitions(
        vec![TypeDefinition { name: s("Foo"), type_: foo_record_type() }],
        vec![vdef(
            "x",
            let_(
                vec![vdef("record_update_argument_0", var("foo"), reference("Foo"))],
                Expression::RecordConstruction {
                    type_: reference("Foo"),
                    elements: vec![
                        (s("foo"), app(var("Foo.foo"), var("record_update_argument_0"))),
                        (s("bar"), Expression::NoneLiteral),
                    ],
                },
            ),
            reference("Foo"),
        )],
    );
    let desugared = RecordUpdateDesugarer::new().desugar(&module).unwrap();
    assert!(same(&desugared, &expected));
    let without_types = desugar_without_types(&module).unwrap();
    assert!(same(&without_types, &expected));
}

#[test]
fn fail_to_desugar_record_update_of_unknown_type() {
    let module = Module::from_definitions(vec![vdef(
        "x",
        Expression::RecordUpdate {
            reference: s("Foo"),
            argument: Box::new(var("foo")),
            elements: vec![],
        },
        reference("Foo"),
    )]);
    let error = RecordUpdateDesugarer::new().desugar(&module).unwrap_err();
    assert!(same(&error, &ein::error::CompileError::TypeNotFound { name: s("Foo") }));
}

#[test]
fn desugar_boolean_operations() {
    let operation = |operator: Operator| Expression::Operation {
        type_: boolean(),
        operator,
        lhs: Box::new(var("a")),
        rhs: Box::new(var("b")),
    };
    let module = Module::from_definitions(vec![
        vdef("x", operation(Operator::And), boolean()),
        vdef("y", operation(Operator::Or), boolean()),
    ]);
    let expected = Module::from_definitions(vec![
        vdef("x", if_(var("a"), var("b"), Expression::Boolean { value: false }), boolean()),
        vdef("y", if_(var("a"), Expression::Boolean { value: true }, var("b")), boolean()),
    ]);
    let desugared = BooleanOperationDesugarer::new().desugar(&module).unwrap();
    assert!(same(&desugared, &expected));
}

#[test]
fn desugar_nested_boolean_operations() {
    let and = |lhs: Expression, rhs: Expression| Expression::Operation {
        type_: boolean(),
        operator: Operator::And,
        lhs: Box::new(lhs),
        rhs: Box::new(rhs),
    };
    let module = Module::from_definitions(vec![vdef("x", and(and(var("a"), var("b")), var("c")), boolean())]);
    let expected = Module::from_definitions(vec![vdef(
        "x",
        if_(
            if_(var("a"), var("b"), Expression::Boolean { value: false }),
            var("c"),
            Expression::Boolean { value: false },
        ),
        boolean(),
    )]);
    let desugared = BooleanOperationDesugarer::new().desugar(&module).unwrap();
    assert!(same(&desugared, &expected));
}

#[test]
fn desugar_not_equal_operations() {
    let operation = |operator: Operator| Expression::Operation {
        type_: number(),
        operator,
        lhs: Box::new(num(1.0)),
        rhs: Box::new(num(2.0)),
    };
    let module = Module::from_definitions(vec![vdef("x", operation(Operator::NotEqual), boolean())]);
    let expected = Module::from_definitions(vec![vdef(
        "x",
        if_(operation(Operator::Equal), Expression::Boolean { value: false }, Expression::Boolean {
            value: true,
        }),
        boolean(),
    )]);
    let desugared = NotEqualOperationDesugarer::new().desugar(&module).unwrap();
    assert!(same(&desugared, &expected));
}

#[test]
fn keep_case_alternatives_when_desugaring() {
    let case = Expression::Case {
        type_: union(vec![number(), none()]),
        name: s("y"),
        argument: Box::new(var("x")),
        alternatives: vec![Alternative { type_: number(), expression: var("y") }],
    };
    let module = Module::from_definitions(vec![vdef("z", case, number())]);
    let desugared = BooleanOperationDesugarer::new().desugar(&module).unwrap();
    assert!(same(&desugared, &module));
}

#[test]
fn desugar_without_types_keeps_module_without_record_updates() {
    let module = Module::from_definitions_and_type_definitions(
        vec![TypeDefinition { name: s("Foo"), type_: foo_record_type() }],
        vec![
            vdef(
                "x",
                Expression::RecordConstruction {
                    type_: reference("Foo"),
                    elements: vec![(s("foo"), Expression::NoneLiteral), (s("bar"), var("y"))],
                },
                reference("Foo"),
            ),
            vdef("y", app(var("f"), Expression::NoneLiteral), none()),
        ],
    );
    let desugared = desugar_without_types(&module).unwrap();
    assert!(same(&desugared, &module));
}

#[test]
fn desugar_record_update_beside_circular_type_alias() {
    let type_definitions = || {
        vec![
            TypeDefinition { name: s("Foo"), type_: foo_record_type() },
            TypeDefinition { name: s("A"), type_: reference("B") },
            TypeDefinition { name: s("B"), type_: reference("A") },
        ]
    };
    let module = Module::from_definitions_and_type_definitions(
        type_definitions(),
        vec![vdef(
            "x",
            Expression::RecordUpdate {
                reference: s("Foo"),
                argument: Box::new(var("foo")),
                elements: vec![(s("bar"), Expression::NoneLiteral)],
            },
            reference("Foo"),
        )],
    );
    let expected = Module::from_definitions_and_type_definitions(
        type_definitions(),
        vec![vdef(
            "x",
            let_(
                vec![vdef("record_update_argument_0", var("foo"), reference("Foo"))],
                Expression::RecordConstruction {
                    type_: reference("Foo"),
                    elements: vec![
                        (s("foo"), app(var("Foo.foo"), var("record_update_argument_0"))),
                        (s("bar"), Expression::NoneLiteral),
                    ],
                },
            ),
            reference("Foo"),
        )],
    );
    assert!(same(&desugar_without_types(&module).unwrap(), &expected));
}
