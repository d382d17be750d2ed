//! Removal of partial applications: function definitions get their omitted
//! arguments, and values of function types become functions.
use crate::ast::{
    clone_strings, group_ast_view, view_alternatives, view_alternatives_rec, view_definitions,
    view_definitions_rec, view_strings, Alternative, AlternativeV, Definition, DefinitionV, ExprV,
    Expression, FunctionDefinition, ValueDefinition,
};
use crate::convert::{
    condition_held_before, convert_all_definitions_spec, convert_definition_spec,
    convert_definitions, convert_each_definition, convert_expression_spec,
    convert_module_definitions_spec, lemma_condition_held_before,
    lemma_convert_module_definitions_len, DefinitionConverter, ExpressionConverter, LetDefinitions,
};
use crate::error::CompileError;
use crate::module::Module;
use crate::names::{NameGenerator, NameGeneratorV};
use crate::types::{Type, TypeV};
use vstd::prelude::*;

verus! {

/// The expression applied to variables of the given names, in order.
pub open spec fn apply_arguments(e: ExprV, names: Seq<Seq<char>>) -> ExprV
    decreases names.len(),
{
    if names.len() == 0 {
        e
    } else {
        ExprV::Application {
            function: Box::new(apply_arguments(e, names.drop_last())),
            argument: Box::new(ExprV::Variable { name: names.last() }),
        }
    }
}

/// The next `k` names of a generator, and the generator after them.
pub open spec fn generated_names(g: NameGeneratorV, k: nat) -> (NameGeneratorV, Seq<Seq<char>>)
    decreases k,
{
    if k == 0 {
        (g, Seq::empty())
    } else {
        let (g1, names) = generated_names(g, (k - 1) as nat);
        (g1.next(), names.push(g1.name()))
    }
}

/// The expression with the variables applied at the places where its value
/// comes from: applications and variables are applied; if expressions in both
/// branches; let expressions in their bodies; where `pass` holds, also case
/// expressions in their alternatives, and record element operations are
/// applied. `false` where another expression is met.
pub open spec fn apply_arguments_recursively(e: ExprV, names: Seq<Seq<char>>, pass: bool) -> (
    bool,
    ExprV,
)
    decreases e,
{
    match e {
        ExprV::Application { .. } => (true, apply_arguments(e, names)),
        ExprV::Variable { .. } => (true, apply_arguments(e, names)),
        ExprV::RecordElementOperation { .. } => (pass, if pass {
            apply_arguments(e, names)
        } else {
            e
        }),
        ExprV::Case { type_, name, argument, alternatives } => if pass {
            let (ok, alts) = apply_arguments_to_alternatives(alternatives, names);
            (ok, ExprV::Case { type_, name, argument, alternatives: alts })
        } else {
            (false, e)
        },
        ExprV::If { condition, then, else_ } => {
            let (ok1, x) = apply_arguments_recursively(*then, names, pass);
            let (ok2, y) = apply_arguments_recursively(*else_, names, pass);
            (ok1 && ok2, ExprV::If { condition, then: Box::new(x), else_: Box::new(y) })
        },
        ExprV::Let { definitions, expression } => {
            let (ok, x) = apply_arguments_recursively(*expression, names, pass);
            (ok, ExprV::Let { definitions, expression: Box::new(x) })
        },
        _ => (false, e),
    }
}

pub open spec fn apply_arguments_to_alternatives(
    alternatives: Seq<AlternativeV>,
    names: Seq<Seq<char>>,
) -> (bool, Seq<AlternativeV>)
    decreases alternatives,
{
    if alternatives.len() == 0 {
        (true, Seq::empty())
    } else {
        let (ok1, previous) = apply_arguments_to_alternatives(alternatives.drop_last(), names);
        let (ok2, x) = apply_arguments_recursively(alternatives.last().expression, names, true);
        (ok1 && ok2, previous.push(AlternativeV { type_: alternatives.last().type_, expression: x }))
    }
}

/// A function definition with fewer arguments than its function type gets the
/// omitted ones, with generated names, and its body applied to them. The flag
/// of the state turns `false` where the type is not a function type, the
/// definition has more arguments than its type, or the body cannot be applied.
pub open spec fn complement_arguments(state: (NameGeneratorV, bool, bool), d: DefinitionV) -> (
    (NameGeneratorV, bool, bool),
    DefinitionV,
) {
    match d {
        DefinitionV::Function { name, arguments, body, type_ } => if !(type_ is Function) {
            ((state.0, false, state.2), d)
        } else {
            let n = type_.arguments().len();
            if arguments.len() == n {
                (state, d)
            } else if arguments.len() > n {
                ((state.0, false, state.2), d)
            } else {
                let (g, names) = generated_names(state.0, (n - arguments.len()) as nat);
                let (ok, b) = apply_arguments_recursively(body, names, state.2);
                (
                    (g, state.1 && ok, state.2),
                    DefinitionV::Function { name, arguments: arguments + names, body: b, type_ },
                )
            }
        },
        _ => (state, d),
    }
}

/// Whether the expression is an application whose last arguments are the
/// variables of the given names, in order.
pub open spec fn applied_to_variables(e: ExprV, names: Seq<Seq<char>>) -> bool
    decreases names.len(),
{
    if names.len() == 0 {
        true
    } else {
        match e {
            ExprV::Application { function, argument } => *argument == (ExprV::Variable {
                name: names.last(),
            }) && applied_to_variables(*function, names.drop_last()),
            _ => false,
        }
    }
}

/// Whether every place where the expression's value comes from is applied to
/// the variables of the given names: both branches of an if expression, the
/// body of a let expression, each alternative of a case expression, and any
/// other expression itself.
pub open spec fn value_places_applied(e: ExprV, names: Seq<Seq<char>>) -> bool
    decreases e,
{
    match e {
        ExprV::If { then, else_, .. } => value_places_applied(*then, names)
            && value_places_applied(*else_, names),
        ExprV::Let { expression, .. } => value_places_applied(*expression, names),
        ExprV::Case { alternatives, .. } => alternatives_applied(alternatives, names),
        _ => applied_to_variables(e, names),
    }
}

/// Whether every alternative's expression has its value places applied.
pub open spec fn alternatives_applied(alternatives: Seq<AlternativeV>, names: Seq<Seq<char>>) -> bool
    decreases alternatives,
{
    if alternatives.len() == 0 {
        true
    } else {
        alternatives_applied(alternatives.drop_last(), names) && value_places_applied(
            alternatives.last().expression,
            names,
        )
    }
}

proof fn lemma_apply_arguments_applied(e: ExprV, names: Seq<Seq<char>>)
    ensures
        applied_to_variables(apply_arguments(e, names), names),
    decreases names.len(),
{
    if names.len() > 0 {
        lemma_apply_arguments_applied(e, names.drop_last());
    }
}

/// Where applying arguments through an expression goes through, every place
/// where its value comes from is applied to all the argument variables, in
/// order.
pub proof fn lemma_value_places_applied(e: ExprV, names: Seq<Seq<char>>, pass: bool)
    ensures
        apply_arguments_recursively(e, names, pass).0 ==> value_places_applied(
            apply_arguments_recursively(e, names, pass).1,
            names,
        ),
    decreases e,
{
    match e {
        ExprV::Application { .. } => lemma_apply_arguments_applied(e, names),
        ExprV::Variable { .. } => lemma_apply_arguments_applied(e, names),
        ExprV::RecordElementOperation { .. } => lemma_apply_arguments_applied(e, names),
        ExprV::Case { alternatives, .. } => lemma_alternatives_applied(alternatives, names),
        ExprV::If { then, else_, .. } => {
            lemma_value_places_applied(*then, names, pass);
            lemma_value_places_applied(*else_, names, pass);
        },
        ExprV::Let { expression, .. } => lemma_value_places_applied(*expression, names, pass),
        _ => {},
    }
}

proof fn lemma_alternatives_applied(alternatives: Seq<AlternativeV>, names: Seq<Seq<char>>)
    ensures
        apply_arguments_to_alternatives(alternatives, names).0 ==> alternatives_applied(
            apply_arguments_to_alternatives(alternatives, names).1,
            names,
        ),
    decreases alternatives,
{
    if alternatives.len() > 0 {
        lemma_alternatives_applied(alternatives.drop_last(), names);
        lemma_value_places_applied(alternatives.last().expression, names, true);
        let r = apply_arguments_to_alternatives(alternatives, names).1;
        let previous = apply_arguments_to_alternatives(alternatives.drop_last(), names).1;
        assert(r.drop_last() =~= previous);
    }
}

/// A function definition that gets its omitted arguments keeps its own
/// arguments first, takes as many arguments as its type has, and has every
/// place where its body's value comes from applied to the added arguments.
pub proof fn lemma_complemented_definition_applied(state: (NameGeneratorV, bool, bool), d: DefinitionV)
    ensures
        ({
            let (s, r) = complement_arguments(state, d);
            s.1 ==> match (d, r) {
                (
                    DefinitionV::Function { arguments: before, .. },
                    DefinitionV::Function { arguments: after, body, type_, .. },
                ) => after.len() == type_.arguments().len() && after.take(before.len() as int)
                    == before && value_places_applied(
                    body,
                    after.subrange(before.len() as int, after.len() as int),
                ),
                _ => true,
            }
        }),
{
    if let DefinitionV::Function { arguments, body, type_, .. } = d {
        if type_ is Function {
            let n = type_.arguments().len();
            if arguments.len() == n {
                let after = arguments;
                assert(after.subrange(arguments.len() as int, after.len() as int) =~= Seq::<
                    Seq<char>,
                >::empty());
                lemma_empty_names_applied(body);
                assert(after.take(arguments.len() as int) =~= arguments);
            } else if arguments.len() < n {
                let (g, names) = generated_names(state.0, (n - arguments.len()) as nat);
                lemma_generated_names_len(state.0, (n - arguments.len()) as nat);
                lemma_value_places_applied(body, names, state.2);
                let after = arguments + names;
                assert(after.subrange(arguments.len() as int, after.len() as int) =~= names);
                assert(after.take(arguments.len() as int) =~= arguments);
            }
        }
    }
}

proof fn lemma_empty_names_applied(e: ExprV)
    ensures
        value_places_applied(e, Seq::empty()),
    decreases e,
{
    match e {
        ExprV::If { then, else_, .. } => {
            lemma_empty_names_applied(*then);
            lemma_empty_names_applied(*else_);
        },
        ExprV::Let { expression, .. } => lemma_empty_names_applied(*expression),
        ExprV::Case { alternatives, .. } => lemma_empty_names_alternatives_applied(alternatives),
        _ => {},
    }
}

proof fn lemma_empty_names_alternatives_applied(alternatives: Seq<AlternativeV>)
    ensures
        alternatives_applied(alternatives, Seq::empty()),
    decreases alternatives,
{
    if alternatives.len() > 0 {
        lemma_empty_names_alternatives_applied(alternatives.drop_last());
        lemma_empty_names_applied(alternatives.last().expression);
    }
}

/// The body of a value of a function type with its applications bound to
/// functions of the value's type, with generated names and no arguments,
/// looking through if and let expressions. `false` where another expression
/// than a variable is met.
pub open spec fn convert_partial_applications(g: NameGeneratorV, e: ExprV, t: TypeV) -> (
    NameGeneratorV,
    bool,
    ExprV,
)
    decreases e,
{
    match e {
        ExprV::Application { .. } => (
            g.next(),
            true,
            ExprV::Let {
                definitions: seq![
                    DefinitionV::Function {
                        name: g.name(),
                        arguments: Seq::empty(),
                        body: e,
                        type_: t,
                    },
                ],
                expression: Box::new(ExprV::Variable { name: g.name() }),
            },
        ),
        ExprV::If { condition, then, else_ } => {
            let (g1, ok1, x) = convert_partial_applications(g, *then, t);
            let (g2, ok2, y) = convert_partial_applications(g1, *else_, t);
            (g2, ok1 && ok2, ExprV::If { condition, then: Box::new(x), else_: Box::new(y) })
        },
        ExprV::Let { definitions, expression } => {
            let (g1, ok, x) = convert_partial_applications(g, *expression, t);
            (g1, ok, ExprV::Let { definitions, expression: Box::new(x) })
        },
        ExprV::Variable { .. } => (g, true, e),
        _ => (g, false, e),
    }
}

/// A value definition of a function type with its partial applications
/// converted as [`convert_partial_applications`] says.
pub open spec fn convert_value_partial_applications(state: (NameGeneratorV, bool), d: DefinitionV) -> (
    (NameGeneratorV, bool),
    DefinitionV,
) {
    match d {
        DefinitionV::Value { name, body, type_ } => if type_ is Function {
            let (g, ok, b) = convert_partial_applications(state.0, body, type_);
            ((g, state.1 && ok), DefinitionV::Value { name, body: b, type_ })
        } else {
            (state, d)
        },
        _ => (state, d),
    }
}

/// Applies the expression to variables of the given names.
pub fn apply_arguments_exec(e: Expression, names: &Vec<String>) -> (r: Expression)
    ensures
        r@ == apply_arguments(e@, view_strings(names@)),
{
    let ghost ns = view_strings(names@);
    let ghost ev = e@;
    let mut r = e;
    let mut i: usize = 0;
    assert(ns.take(0) =~= Seq::<Seq<char>>::empty());
    while i < names.len()
        invariant
            i <= names@.len(),
            ns == view_strings(names@),
            r@ == apply_arguments(ev, ns.take(i as int)),
        decreases names.len() - i,
    {
        let v = Expression::Variable { name: names[i].clone() };
        assert(v@ == ExprV::Variable { name: ns[i as int] });
        r = Expression::Application { function: Box::new(r), argument: Box::new(v) };
        assert(ns.take(i + 1).drop_last() =~= ns.take(i as int));
        i += 1;
    }
    assert(ns.take(i as int) =~= ns);
    r
}

/// Applies the expression as [`apply_arguments_recursively`] says.
pub fn apply_arguments_recursively_exec(e: &Expression, names: &Vec<String>, pass: bool) -> (r: (
    bool,
    Expression,
))
    ensures
        (r.0, (r.1)@) == apply_arguments_recursively(e@, view_strings(names@), pass),
    decreases e, 1nat,
{
    broadcast use group_ast_view;

    match e {
        Expression::Application { .. } => (true, apply_arguments_exec(e.deep_clone(), names)),
        Expression::Variable { .. } => (true, apply_arguments_exec(e.deep_clone(), names)),
        Expression::RecordElementOperation { .. } => if pass {
            (true, apply_arguments_exec(e.deep_clone(), names))
        } else {
            (false, e.deep_clone())
        },
        Expression::Case { type_, name, argument, alternatives } => if pass {
            assert(view_alternatives_rec(alternatives@) == view_alternatives(alternatives@));
            assert(view_alternatives(alternatives@).take(alternatives@.len() as int)
                =~= view_alternatives(alternatives@));
            let (ok, alts) = apply_arguments_to_alternatives_exec(
                e,
                alternatives,
                alternatives.len(),
                names,
            );
            assert(view_alternatives_rec(alts@) == view_alternatives(alts@));
            (
                ok,
                Expression::Case {
                    type_: type_.deep_clone(),
                    name: name.clone(),
                    argument: Box::new((**argument).deep_clone()),
                    alternatives: alts,
                },
            )
        } else {
            (false, e.deep_clone())
        },
        Expression::If { condition, then, else_ } => {
            let (ok1, x) = apply_arguments_recursively_exec(then, names, pass);
            let (ok2, y) = apply_arguments_recursively_exec(else_, names, pass);
            (
                ok1 && ok2,
                Expression::If {
                    condition: Box::new((**condition).deep_clone()),
                    then: Box::new(x),
                    else_: Box::new(y),
                },
            )
        },
        Expression::Let { definitions, expression } => {
            let (ok, x) = apply_arguments_recursively_exec(expression, names, pass);
            let ds = crate::ast::clone_definitions(definitions);
            assert(view_definitions_rec(ds@) == view_definitions(ds@));
            assert(view_definitions_rec(definitions@) == view_definitions(definitions@));
            (ok, Expression::Let { definitions: ds, expression: Box::new(x) })
        },
        _ => (false, e.deep_clone()),
    }
}

fn apply_arguments_to_alternatives_exec(
    parent: &Expression,
    alternatives: &Vec<Alternative>,
    n: usize,
    names: &Vec<String>,
) -> (r: (bool, Vec<Alternative>))
    requires
        parent matches Expression::Case { alternatives: a, .. } && a == alternatives,
        n <= alternatives@.len(),
    ensures
        (r.0, view_alternatives(r.1@)) == apply_arguments_to_alternatives(
            view_alternatives(alternatives@).take(n as int),
            view_strings(names@),
        ),
    decreases parent, 0nat, n,
{
    if n == 0 {
        let r: Vec<Alternative> = Vec::new();
        assert(view_alternatives(r@) =~= Seq::<AlternativeV>::empty());
        return (true, r);
    }
    let ghost s = view_alternatives(alternatives@).take(n as int);
    assert(s.drop_last() =~= view_alternatives(alternatives@).take(n - 1));
    let (ok1, mut previous) = apply_arguments_to_alternatives_exec(parent, alternatives, n - 1, names);
    assert(decreases_to!(parent => *alternatives));
    assert(decreases_to!(alternatives => alternatives@[n - 1].expression));
    let (ok2, x) = apply_arguments_recursively_exec(&alternatives[n - 1].expression, names, true);
    let ghost before = view_alternatives(previous@);
    previous.push(Alternative { type_: alternatives[n - 1].type_.deep_clone(), expression: x });
    assert(view_alternatives(previous@) =~= before.push(view_alternatives(previous@).last()));
    (ok1 && ok2, previous)
}

/// Complements omitted arguments of function definitions.
pub struct ArgumentComplement {
    pub names: NameGenerator,
    pub ok: bool,
    pub pass: bool,
}

impl View for ArgumentComplement {
    type V = (NameGeneratorV, bool, bool);

    open spec fn view(&self) -> (NameGeneratorV, bool, bool) {
        (self.names@, self.ok, self.pass)
    }
}

impl DefinitionConverter for ArgumentComplement {
    open spec fn converted_definition(state: (NameGeneratorV, bool, bool), d: DefinitionV) -> (
        (NameGeneratorV, bool, bool),
        DefinitionV,
    ) {
        complement_arguments(state, d)
    }

    fn convert_definition(&mut self, d: Definition) -> (r: Definition) {
        match d {
            Definition::FunctionDefinition(f) => {
                if !f.type_.is_function() {
                    self.ok = false;
                    return Definition::FunctionDefinition(f);
                }
                let types = f.type_.arguments();
                if f.arguments.len() == types.len() {
                    return Definition::FunctionDefinition(f);
                }
                if f.arguments.len() > types.len() {
                    self.ok = false;
                    return Definition::FunctionDefinition(f);
                }
                let k = types.len() - f.arguments.len();
                let ghost g0 = self.names@;
                let mut omitted: Vec<String> = Vec::new();
                let mut i: usize = 0;
                while i < k
                    invariant
                        i <= k,
                        (self.names@, view_strings(omitted@)) == generated_names(g0, i as nat),
                        self.ok == old(self).ok,
                        self.pass == old(self).pass,
                    decreases k - i,
                {
                    let ghost before = view_strings(omitted@);
                    let name = self.names.generate();
                    omitted.push(name);
                    assert(view_strings(omitted@) =~= before.push(name@));
                    i += 1;
                }
                let (ok, body) = apply_arguments_recursively_exec(&f.body, &omitted, self.pass);
                let mut arguments = clone_strings(&f.arguments);
                let ghost before = view_strings(arguments@);
                let mut j: usize = 0;
                while j < omitted.len()
                    invariant
                        j <= omitted@.len(),
                        view_strings(arguments@) == before + view_strings(omitted@).take(j as int),
                    decreases omitted.len() - j,
                {
                    let ghost a = view_strings(arguments@);
                    arguments.push(omitted[j].clone());
                    assert(view_strings(arguments@) =~= a.push(omitted@[j as int]@));
                    assert(view_strings(omitted@).take(j + 1) =~= view_strings(omitted@).take(
                        j as int,
                    ).push(omitted@[j as int]@));
                    j += 1;
                }
                assert(view_strings(omitted@).take(j as int) =~= view_strings(omitted@));
                self.ok = self.ok && ok;
                let r = Definition::FunctionDefinition(
                    FunctionDefinition { name: f.name, arguments, body, type_: f.type_ },
                );
                r
            },
            _ => d,
        }
    }
}

/// Converts partial applications in values of function types.
pub struct PartialApplicationValues {
    pub names: NameGenerator,
    pub ok: bool,
}

impl View for PartialApplicationValues {
    type V = (NameGeneratorV, bool);

    open spec fn view(&self) -> (NameGeneratorV, bool) {
        (self.names@, self.ok)
    }
}

/// Converts partial applications as [`convert_partial_applications`] says.
fn convert_partial_applications_exec(names: &mut NameGenerator, e: &Expression, t: &Type) -> (r: (
    bool,
    Expression,
))
    ensures
        (final(names)@, r.0, (r.1)@) == convert_partial_applications(old(names)@, e@, t@),
    decreases e,
{
    broadcast use group_ast_view;

    match e {
        Expression::Application { .. } => {
            let name = names.generate();
            let definition = Definition::FunctionDefinition(
                FunctionDefinition {
                    name: name.clone(),
                    arguments: Vec::new(),
                    body: e.deep_clone(),
                    type_: t.deep_clone(),
                },
            );
            let ghost dv = definition@;
            assert(dv->Function_arguments =~= Seq::<Seq<char>>::empty());
            assert(dv == DefinitionV::Function {
                name: name@,
                arguments: Seq::empty(),
                body: e@,
                type_: t@,
            });
            let mut definitions: Vec<Definition> = Vec::new();
            definitions.push(definition);
            assert(view_definitions(definitions@) =~= seq![dv]);
            assert(view_definitions_rec(definitions@) == view_definitions(definitions@));
            let variable = Expression::Variable { name };
            assert(variable@ == ExprV::Variable { name: name@ });
            (true, Expression::Let { definitions, expression: Box::new(variable) })
        },
        Expression::If { condition, then, else_ } => {
            let (ok1, x) = convert_partial_applications_exec(names, then, t);
            let (ok2, y) = convert_partial_applications_exec(names, else_, t);
            (
                ok1 && ok2,
                Expression::If {
                    condition: Box::new((**condition).deep_clone()),
                    then: Box::new(x),
                    else_: Box::new(y),
                },
            )
        },
        Expression::Let { definitions, expression } => {
            let (ok, x) = convert_partial_applications_exec(names, expression, t);
            let ds = crate::ast::clone_definitions(definitions);
            assert(view_definitions_rec(ds@) == view_definitions(ds@));
            assert(view_definitions_rec(definitions@) == view_definitions(definitions@));
            (ok, Expression::Let { definitions: ds, expression: Box::new(x) })
        },
        Expression::Variable { .. } => (true, e.deep_clone()),
        _ => (false, e.deep_clone()),
    }
}

impl DefinitionConverter for PartialApplicationValues {
    open spec fn converted_definition(state: (NameGeneratorV, bool), d: DefinitionV) -> (
        (NameGeneratorV, bool),
        DefinitionV,
    ) {
        convert_value_partial_applications(state, d)
    }

    fn convert_definition(&mut self, d: Definition) -> (r: Definition) {
        match d {
            Definition::ValueDefinition(v) => {
                if v.type_.is_function() {
                    let (ok, body) = convert_partial_applications_exec(&mut self.names, &v.body, &v.type_);
                    self.ok = self.ok && ok;
                    Definition::ValueDefinition(ValueDefinition { name: v.name, body, type_: v.type_ })
                } else {
                    Definition::ValueDefinition(v)
                }
            },
            _ => d,
        }
    }
}

/// Removes partial applications before type inference.
pub struct PartialApplicationDesugarer {
    function_name_generator: NameGenerator,
    argument_name_generator: NameGenerator,
}

/// The result of desugaring: value definitions first, then function
/// definitions; with the generators after it and whether the module was in the
/// supported form.
pub open spec fn desugar_partial_applications(
    functions: NameGeneratorV,
    arguments: NameGeneratorV,
    m: crate::module::ModuleV,
) -> (NameGeneratorV, NameGeneratorV, bool, crate::module::ModuleV) {
    let (s1, m1) = convert_all_definitions_spec::<PartialApplicationValues>((functions, true), m);
    let (s2, m2) = convert_all_definitions_spec::<ArgumentComplement>((arguments, true, false), m1);
    (s1.0, s2.0, s1.1 && s2.1, m2)
}

impl PartialApplicationDesugarer {
    /// The generator of the names of functions bound to partial applications.
    pub closed spec fn function_names(&self) -> NameGeneratorV {
        self.function_name_generator@
    }

    /// The generator of the names of complemented arguments.
    pub closed spec fn argument_names(&self) -> NameGeneratorV {
        self.argument_name_generator@
    }

    pub fn new() -> (r: Self)
        ensures
            r.function_names() == (NameGeneratorV { prefix: "pa_function_"@, index: 0 }),
            r.argument_names() == (NameGeneratorV { prefix: "pa_argument_"@, index: 0 }),
    {
        PartialApplicationDesugarer {
            function_name_generator: NameGenerator::new("pa_function_"),
            argument_name_generator: NameGenerator::new("pa_argument_"),
        }
    }

    /// Converts partial applications in values of function types, then
    /// complements omitted arguments of all function definitions, those
    /// inside let expressions too; the module must be in the form that
    /// [`desugar_partial_applications`] accepts.
    pub fn desugar(&mut self, module: &Module) -> (r: Result<Module, CompileError>)
        requires
            desugar_partial_applications(
                old(self).function_names(),
                old(self).argument_names(),
                module@,
            ).2,
        ensures
            ({
                let (f, a, ok, m) = desugar_partial_applications(
                    old(self).function_names(),
                    old(self).argument_names(),
                    module@,
                );
                &&& final(self).function_names() == f
                &&& final(self).argument_names() == a
                &&& r matches Ok(x) && x@ == m
            }),
    {
        let mut function_names = NameGenerator::new("");
        std::mem::swap(&mut function_names, &mut self.function_name_generator);
        let values = PartialApplicationValues { names: function_names, ok: true };
        let (values, m1) = convert_definitions(values, module);
        self.function_name_generator = values.names;
        let mut argument_names = NameGenerator::new("");
        std::mem::swap(&mut argument_names, &mut self.argument_name_generator);
        let functions = ArgumentComplement { names: argument_names, ok: true, pass: false };
        let (functions, m2) = convert_definitions(functions, &m1);
        self.argument_name_generator = functions.names;
        Ok(m2)
    }
}


/// Whether a function definition takes as many arguments as its type has;
/// value definitions always do.
pub open spec fn saturated(d: DefinitionV) -> bool {
    d is Function ==> d.type_() is Function && d->Function_arguments.len()
        == d.type_().arguments().len()
}

proof fn lemma_generated_names_len(g: NameGeneratorV, k: nat)
    ensures
        generated_names(g, k).1.len() == k,
    decreases k,
{
    if k > 0 {
        lemma_generated_names_len(g, (k - 1) as nat);
    }
}

/// Complementing arguments keeps the flag down once it is down, and leaves
/// a function definition saturated while the flag stays up.
proof fn lemma_complement_arguments(state: (NameGeneratorV, bool, bool), d: DefinitionV)
    ensures
        complement_arguments(state, d).0.1 ==> state.1,
        complement_arguments(state, d).0.1 ==> saturated(complement_arguments(state, d).1),
{
    if let DefinitionV::Function { arguments, type_, .. } = d {
        if type_ is Function {
            let n = type_.arguments().len();
            if arguments.len() < n {
                lemma_generated_names_len(state.0, (n - arguments.len()) as nat);
            }
        }
    }
}

proof fn lemma_each_definition_keeps_flag_down(
    state: (NameGeneratorV, bool, bool),
    definitions: Seq<DefinitionV>,
)
    ensures
        convert_each_definition::<ArgumentComplement>(state, definitions).0.1 ==> state.1,
    decreases definitions.len(),
{
    if definitions.len() > 0 {
        lemma_each_definition_keeps_flag_down(state, definitions.drop_last());
        let (s1, previous) = convert_each_definition::<ArgumentComplement>(
            state,
            definitions.drop_last(),
        );
        lemma_complement_arguments(s1, definitions.last());
    }
}

/// Whether the flag of a complement state is up.
pub open spec fn flag_up(state: (NameGeneratorV, bool, bool)) -> bool {
    state.1
}

proof fn lemma_let_definitions_keep_flag_down()
    ensures
        condition_held_before::<LetDefinitions<ArgumentComplement>>(
            |s: (NameGeneratorV, bool, bool)| flag_up(s),
        ),
{
    assert forall|c: (NameGeneratorV, bool, bool), x: ExprV|
        flag_up((#[trigger] LetDefinitions::<ArgumentComplement>::converted(c, x)).0) implies flag_up(
        c,
    ) by {
        if let ExprV::Let { definitions: ds, .. } = x {
            lemma_each_definition_keeps_flag_down(c, ds);
        }
    }
}

/// One module definition: its let definitions, then itself.
proof fn lemma_module_definition_saturated(state: (NameGeneratorV, bool, bool), d: DefinitionV)
    ensures
        ({
            let (s2, inner) = convert_definition_spec::<LetDefinitions<ArgumentComplement>>(state, d);
            let (s3, r) = complement_arguments(s2, inner);
            s3.1 ==> state.1 && saturated(r)
        }),
{
    let (s2, inner) = convert_definition_spec::<LetDefinitions<ArgumentComplement>>(state, d);
    lemma_let_definitions_keep_flag_down();
    lemma_condition_held_before::<LetDefinitions<ArgumentComplement>>(
        state,
        d.body(),
        |s: (NameGeneratorV, bool, bool)| flag_up(s),
    );
    assert(s2 == convert_expression_spec::<LetDefinitions<ArgumentComplement>>(state, d.body()).0);
    lemma_complement_arguments(s2, inner);
}

/// Whether every definition takes as many arguments as its type has.
#[verifier::opaque]
pub open spec fn all_saturated(definitions: Seq<DefinitionV>) -> bool {
    forall|i: int| 0 <= i < definitions.len() ==> saturated(#[trigger] definitions[i])
}

proof fn lemma_all_saturated_push(definitions: Seq<DefinitionV>, d: DefinitionV)
    requires
        all_saturated(definitions),
        saturated(d),
    ensures
        all_saturated(definitions.push(d)),
{
    reveal(all_saturated);
    assert forall|i: int| 0 <= i < definitions.push(d).len() implies saturated(
        #[trigger] definitions.push(d)[i],
    ) by {
        if i < definitions.len() {
            assert(definitions.push(d)[i] == definitions[i]);
        }
    }
}

/// After the complement of arguments goes through, every definition of the
/// module takes as many arguments as its type has.
pub proof fn lemma_module_definitions_saturated(
    state: (NameGeneratorV, bool, bool),
    definitions: Seq<DefinitionV>,
)
    ensures
        ({
            let (s, r) = convert_module_definitions_spec::<ArgumentComplement>(state, definitions);
            s.1 ==> state.1 && all_saturated(r)
        }),
    decreases definitions.len(),
{
    if definitions.len() == 0 {
        reveal(all_saturated);
    } else {
        lemma_module_definitions_saturated(state, definitions.drop_last());
        let (s1, previous) = convert_module_definitions_spec::<ArgumentComplement>(
            state,
            definitions.drop_last(),
        );
        lemma_module_definition_saturated(s1, definitions.last());
        let (s2, inner) = convert_definition_spec::<LetDefinitions<ArgumentComplement>>(
            s1,
            definitions.last(),
        );
        let (s3, d) = complement_arguments(s2, inner);
        assert(convert_module_definitions_spec::<ArgumentComplement>(state, definitions) == (
            s3,
            previous.push(d),
        ));
        if s3.1 {
            lemma_all_saturated_push(previous, d);
        }
    }
}

/// When desugaring goes through, every function definition of the module
/// takes as many arguments as its type has.
pub proof fn lemma_function_definitions_saturated(
    functions: NameGeneratorV,
    arguments: NameGeneratorV,
    m: crate::module::ModuleV,
)
    ensures
        ({
            let (f, a, ok, r) = desugar_partial_applications(functions, arguments, m);
            ok ==> forall|i: int| 0 <= i < r.definitions.len() ==> saturated(#[trigger] r.definitions[i])
        }),
{
    let (s1, m1) = convert_all_definitions_spec::<PartialApplicationValues>((functions, true), m);
    lemma_module_definitions_saturated((arguments, true, false), m1.definitions);
    reveal(all_saturated);
    lemma_convert_module_definitions_len::<ArgumentComplement>((arguments, true, false), m1.definitions);
}

} // verus!
