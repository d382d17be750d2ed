//! Bottom-up conversion of the expressions of a module.
//!
//! A converter is applied to every expression node after the node's
//! subexpressions were converted, from left to right; let definitions are
//! converted before the body of their let expression. A converter may keep a
//! state, such as a name generator, which is threaded through the traversal.
use crate::ast::{
    all_nodes_alternatives, all_nodes_definitions, all_nodes_list_elements,
    all_nodes_record_elements, clone_strings, group_ast_view, view_alternatives,
    view_alternatives_rec, view_definitions, view_definitions_rec, view_list_elements,
    view_list_elements_rec, view_record_elements, view_record_elements_rec, Alternative,
    AlternativeV, Definition, DefinitionV, ExprV, Expression, FunctionDefinition, ListElement,
    ListElementV, ValueDefinition,
};
use crate::module::{
    clone_builtin_interfaces, clone_imports, clone_type_definitions, Export, Module, ModuleV,
};
use vstd::prelude::*;

verus! {

/// A rewrite of single expression nodes, with a state of its own.
pub trait ExpressionConverter: View + Sized {
    /// What holds of the converter before and after each conversion.
    spec fn well_formed(&self) -> bool;

    /// The state after converting the node, and the node's replacement.
    spec fn converted(state: Self::V, e: ExprV) -> (Self::V, ExprV);

    /// Converts one node whose subexpressions were converted already.
    fn convert(&mut self, e: Expression) -> (r: Expression)
        requires
            old(self).well_formed(),
        ensures
            final(self).well_formed(),
            (final(self)@, r@) == Self::converted(old(self)@, e@),
    ;
}

/// The conversion of an expression: subexpressions first, then the node itself.
pub open spec fn convert_expression_spec<C: ExpressionConverter>(c: C::V, e: ExprV) -> (C::V, ExprV)
    decreases e,
{
    match e {
        ExprV::Application { function, argument } => {
            let (c1, f) = convert_expression_spec::<C>(c, *function);
            let (c2, a) = convert_expression_spec::<C>(c1, *argument);
            C::converted(c2, ExprV::Application { function: Box::new(f), argument: Box::new(a) })
        },
        ExprV::Case { type_, name, argument, alternatives } => {
            let (c1, a) = convert_expression_spec::<C>(c, *argument);
            let (c2, alts) = convert_alternatives_spec::<C>(c1, alternatives);
            C::converted(c2, ExprV::Case { type_, name, argument: Box::new(a), alternatives: alts })
        },
        ExprV::If { condition, then, else_ } => {
            let (c1, x) = convert_expression_spec::<C>(c, *condition);
            let (c2, y) = convert_expression_spec::<C>(c1, *then);
            let (c3, z) = convert_expression_spec::<C>(c2, *else_);
            C::converted(c3, 
                ExprV::If { condition: Box::new(x), then: Box::new(y), else_: Box::new(z) },
            )
        },
        ExprV::Let { definitions, expression } => {
            let (c1, ds) = convert_definitions_spec::<C>(c, definitions);
            let (c2, x) = convert_expression_spec::<C>(c1, *expression);
            C::converted(c2, ExprV::Let { definitions: ds, expression: Box::new(x) })
        },
        ExprV::List { elements } => {
            let (c1, es) = convert_list_elements_spec::<C>(c, elements);
            C::converted(c1, ExprV::List { elements: es })
        },
        ExprV::ListCase {
            argument,
            type_,
            first_name,
            rest_name,
            empty_alternative,
            non_empty_alternative,
        } => {
            let (c1, a) = convert_expression_spec::<C>(c, *argument);
            let (c2, x) = convert_expression_spec::<C>(c1, *empty_alternative);
            let (c3, y) = convert_expression_spec::<C>(c2, *non_empty_alternative);
            C::converted(c3, 
                ExprV::ListCase {
                    argument: Box::new(a),
                    type_,
                    first_name,
                    rest_name,
                    empty_alternative: Box::new(x),
                    non_empty_alternative: Box::new(y),
                },
            )
        },
        ExprV::Operation { type_, operator, lhs, rhs } => {
            let (c1, x) = convert_expression_spec::<C>(c, *lhs);
            let (c2, y) = convert_expression_spec::<C>(c1, *rhs);
            C::converted(c2, 
                ExprV::Operation { type_, operator, lhs: Box::new(x), rhs: Box::new(y) },
            )
        },
        ExprV::RecordConstruction { type_, elements } => {
            let (c1, es) = convert_record_elements_spec::<C>(c, elements);
            C::converted(c1, ExprV::RecordConstruction { type_, elements: es })
        },
        ExprV::RecordElementOperation { type_, key, argument } => {
            let (c1, x) = convert_expression_spec::<C>(c, *argument);
            C::converted(c1, ExprV::RecordElementOperation { type_, key, argument: Box::new(x) })
        },
        ExprV::RecordUpdate { reference, argument, elements } => {
            let (c1, x) = convert_expression_spec::<C>(c, *argument);
            let (c2, es) = convert_record_elements_spec::<C>(c1, elements);
            C::converted(c2, ExprV::RecordUpdate { reference, argument: Box::new(x), elements: es })
        },
        ExprV::TypeCoercion { argument, from, to } => {
            let (c1, x) = convert_expression_spec::<C>(c, *argument);
            C::converted(c1, ExprV::TypeCoercion { argument: Box::new(x), from, to })
        },
        _ => C::converted(c, e),
    }
}

pub open spec fn convert_alternatives_spec<C: ExpressionConverter>(
    c: C::V,
    s: Seq<AlternativeV>,
) -> (C::V, Seq<AlternativeV>)
    decreases s,
{
    if s.len() == 0 {
        (c, Seq::empty())
    } else {
        let (c1, previous) = convert_alternatives_spec::<C>(c, s.drop_last());
        let (c2, x) = convert_expression_spec::<C>(c1, s.last().expression);
        (c2, previous.push(AlternativeV { type_: s.last().type_, expression: x }))
    }
}

/// The conversion of a definition: its body is converted.
pub open spec fn convert_definition_spec<C: ExpressionConverter>(c: C::V, d: DefinitionV) -> (
    C::V,
    DefinitionV,
)
    decreases d,
{
    match d {
        DefinitionV::Function { name, arguments, body, type_ } => {
            let (c1, b) = convert_expression_spec::<C>(c, body);
            (c1, DefinitionV::Function { name, arguments, body: b, type_ })
        },
        DefinitionV::Value { name, body, type_ } => {
            let (c1, b) = convert_expression_spec::<C>(c, body);
            (c1, DefinitionV::Value { name, body: b, type_ })
        },
    }
}

pub open spec fn convert_definitions_spec<C: ExpressionConverter>(
    c: C::V,
    s: Seq<DefinitionV>,
) -> (C::V, Seq<DefinitionV>)
    decreases s,
{
    if s.len() == 0 {
        (c, Seq::empty())
    } else {
        let (c1, previous) = convert_definitions_spec::<C>(c, s.drop_last());
        let (c2, d) = convert_definition_spec::<C>(c1, s.last());
        (c2, previous.push(d))
    }
}

pub open spec fn convert_list_elements_spec<C: ExpressionConverter>(
    c: C::V,
    s: Seq<ListElementV>,
) -> (C::V, Seq<ListElementV>)
    decreases s,
{
    if s.len() == 0 {
        (c, Seq::empty())
    } else {
        let (c1, previous) = convert_list_elements_spec::<C>(c, s.drop_last());
        match s.last() {
            ListElementV::Multiple(e) => {
                let (c2, x) = convert_expression_spec::<C>(c1, e);
                (c2, previous.push(ListElementV::Multiple(x)))
            },
            ListElementV::Single(e) => {
                let (c2, x) = convert_expression_spec::<C>(c1, e);
                (c2, previous.push(ListElementV::Single(x)))
            },
        }
    }
}

pub open spec fn convert_record_elements_spec<C: ExpressionConverter>(
    c: C::V,
    s: Seq<(Seq<char>, ExprV)>,
) -> (C::V, Seq<(Seq<char>, ExprV)>)
    decreases s,
{
    if s.len() == 0 {
        (c, Seq::empty())
    } else {
        let (c1, previous) = convert_record_elements_spec::<C>(c, s.drop_last());
        let (c2, x) = convert_expression_spec::<C>(c1, s.last().1);
        (c2, previous.push((s.last().0, x)))
    }
}

/// The conversion of a module: the bodies of its definitions in order.
pub open spec fn convert_module_spec<C: ExpressionConverter>(c: C::V, m: ModuleV) -> (C::V, ModuleV) {
    let (c1, ds) = convert_definitions_spec::<C>(c, m.definitions);
    (c1, ModuleV { definitions: ds, ..m })
}

/// Converts an expression and all expressions in it.
pub fn convert_expression<C: ExpressionConverter>(c: &mut C, e: &Expression) -> (r: Expression)
    requires
        old(c).well_formed(),
    ensures
        final(c).well_formed(),
        (final(c)@, r@) == convert_expression_spec::<C>(old(c)@, e@),
    decreases e,
{
    broadcast use group_ast_view;

    let node = match e {
        Expression::Application { function, argument } => {
            let f = convert_expression(c, function);
            let a = convert_expression(c, argument);
            Expression::Application { function: Box::new(f), argument: Box::new(a) }
        },
        Expression::Case { type_, name, argument, alternatives } => {
            let a = convert_expression(c, argument);
            let alts = convert_alternatives(c, e, alternatives);
            Expression::Case {
                type_: type_.deep_clone(),
                name: name.clone(),
                argument: Box::new(a),
                alternatives: alts,
            }
        },
        Expression::If { condition, then, else_ } => {
            let x = convert_expression(c, condition);
            let y = convert_expression(c, then);
            let z = convert_expression(c, else_);
            Expression::If { condition: Box::new(x), then: Box::new(y), else_: Box::new(z) }
        },
        Expression::Let { definitions, expression } => {
            let ds = convert_let_definitions(c, e, definitions);
            let x = convert_expression(c, expression);
            Expression::Let { definitions: ds, expression: Box::new(x) }
        },
        Expression::List { elements } => {
            let es = convert_list_elements(c, e, elements);
            Expression::List { elements: es }
        },
        Expression::ListCase {
            argument,
            type_,
            first_name,
            rest_name,
            empty_alternative,
            non_empty_alternative,
        } => {
            let a = convert_expression(c, argument);
            let x = convert_expression(c, empty_alternative);
            let y = convert_expression(c, non_empty_alternative);
            Expression::ListCase {
                argument: Box::new(a),
                type_: type_.deep_clone(),
                first_name: first_name.clone(),
                rest_name: rest_name.clone(),
                empty_alternative: Box::new(x),
                non_empty_alternative: Box::new(y),
            }
        },
        Expression::Operation { type_, operator, lhs, rhs } => {
            let x = convert_expression(c, lhs);
            let y = convert_expression(c, rhs);
            Expression::Operation {
                type_: type_.deep_clone(),
                operator: *operator,
                lhs: Box::new(x),
                rhs: Box::new(y),
            }
        },
        Expression::RecordConstruction { type_, elements } => {
            let es = convert_record_elements(c, e, elements);
            Expression::RecordConstruction { type_: type_.deep_clone(), elements: es }
        },
        Expression::RecordElementOperation { type_, key, argument } => {
            let x = convert_expression(c, argument);
            Expression::RecordElementOperation {
                type_: type_.deep_clone(),
                key: key.clone(),
                argument: Box::new(x),
            }
        },
        Expression::RecordUpdate { reference, argument, elements } => {
            let x = convert_expression(c, argument);
            let es = convert_record_elements(c, e, elements);
            Expression::RecordUpdate { reference: reference.clone(), argument: Box::new(x), elements: es }
        },
        Expression::TypeCoercion { argument, from, to } => {
            let x = convert_expression(c, argument);
            Expression::TypeCoercion {
                argument: Box::new(x),
                from: from.deep_clone(),
                to: to.deep_clone(),
            }
        },
        _ => e.deep_clone(),
    };
    c.convert(node)
}

fn convert_alternatives<C: ExpressionConverter>(
    c: &mut C,
    e: &Expression,
    alternatives: &Vec<Alternative>,
) -> (r: Vec<Alternative>)
    requires
        old(c).well_formed(),
        e matches Expression::Case { alternatives: a, .. } && a == alternatives,
    ensures
        final(c).well_formed(),
        (final(c)@, view_alternatives_rec(r@)) == convert_alternatives_spec::<C>(
            old(c)@,
            view_alternatives_rec(alternatives@),
        ),
    decreases e, 0nat,
{
    broadcast use group_ast_view;

    let ghost s = view_alternatives(alternatives@);
    let mut r: Vec<Alternative> = Vec::new();
    let mut i: usize = 0;
    while i < alternatives.len()
        invariant
            i <= alternatives@.len(),
            s == view_alternatives(alternatives@),
            e matches Expression::Case { alternatives: a, .. } && a == alternatives,
            c.well_formed(),
            (c@, view_alternatives(r@)) == convert_alternatives_spec::<C>(old(c)@, s.take(i as int)),
        decreases alternatives.len() - i,
    {
        assert(decreases_to!(e => *alternatives));
        assert(decreases_to!(alternatives => alternatives@[i as int].expression));
        let ghost before = view_alternatives(r@);
        let x = convert_expression(c, &alternatives[i].expression);
        r.push(Alternative { type_: alternatives[i].type_.deep_clone(), expression: x });
        assert(s.take(i + 1).drop_last() =~= s.take(i as int));
        assert(view_alternatives(r@) =~= before.push(view_alternatives(r@).last()));
        i += 1;
    }
    assert(s.take(i as int) =~= s);
    r
}

fn convert_let_definitions<C: ExpressionConverter>(
    c: &mut C,
    e: &Expression,
    definitions: &Vec<Definition>,
) -> (r: Vec<Definition>)
    requires
        old(c).well_formed(),
        e matches Expression::Let { definitions: d, .. } && d == definitions,
    ensures
        final(c).well_formed(),
        (final(c)@, view_definitions_rec(r@)) == convert_definitions_spec::<C>(
            old(c)@,
            view_definitions_rec(definitions@),
        ),
    decreases e, 0nat,
{
    broadcast use group_ast_view;

    let ghost s = view_definitions(definitions@);
    let mut r: Vec<Definition> = Vec::new();
    let mut i: usize = 0;
    while i < definitions.len()
        invariant
            i <= definitions@.len(),
            s == view_definitions(definitions@),
            e matches Expression::Let { definitions: d, .. } && d == definitions,
            c.well_formed(),
            (c@, view_definitions(r@)) == convert_definitions_spec::<C>(old(c)@, s.take(i as int)),
        decreases definitions.len() - i,
    {
        assert(decreases_to!(e => *definitions));
        assert(decreases_to!(definitions => definitions@[i as int]));
        let ghost before = view_definitions(r@);
        let d = convert_definition(c, &definitions[i]);
        r.push(d);
        assert(s.take(i + 1).drop_last() =~= s.take(i as int));
        assert(view_definitions(r@) =~= before.push(view_definitions(r@).last()));
        i += 1;
    }
    assert(s.take(i as int) =~= s);
    r
}

/// Converts the body of a definition.
pub fn convert_definition<C: ExpressionConverter>(c: &mut C, d: &Definition) -> (r: Definition)
    requires
        old(c).well_formed(),
    ensures
        final(c).well_formed(),
        (final(c)@, r@) == convert_definition_spec::<C>(old(c)@, d@),
    decreases d,
{
    match d {
        Definition::FunctionDefinition(f) => {
            let b = convert_expression(c, &f.body);
            Definition::FunctionDefinition(
                FunctionDefinition {
                    name: f.name.clone(),
                    arguments: clone_strings(&f.arguments),
                    body: b,
                    type_: f.type_.deep_clone(),
                },
            )
        },
        Definition::ValueDefinition(v) => {
            let b = convert_expression(c, &v.body);
            Definition::ValueDefinition(
                ValueDefinition { name: v.name.clone(), body: b, type_: v.type_.deep_clone() },
            )
        },
    }
}

fn convert_list_elements<C: ExpressionConverter>(
    c: &mut C,
    e: &Expression,
    elements: &Vec<ListElement>,
) -> (r: Vec<ListElement>)
    requires
        old(c).well_formed(),
        e matches Expression::List { elements: l } && l == elements,
    ensures
        final(c).well_formed(),
        (final(c)@, view_list_elements_rec(r@)) == convert_list_elements_spec::<C>(
            old(c)@,
            view_list_elements_rec(elements@),
        ),
    decreases e, 0nat,
{
    broadcast use group_ast_view;

    let ghost s = view_list_elements(elements@);
    let mut r: Vec<ListElement> = Vec::new();
    let mut i: usize = 0;
    while i < elements.len()
        invariant
            i <= elements@.len(),
            s == view_list_elements(elements@),
            e matches Expression::List { elements: l } && l == elements,
            c.well_formed(),
            (c@, view_list_elements(r@)) == convert_list_elements_spec::<C>(old(c)@, s.take(i as int)),
        decreases elements.len() - i,
    {
        assert(decreases_to!(e => *elements));
        let ghost before = view_list_elements(r@);
        match &elements[i] {
            ListElement::Multiple(x) => {
                assert(decreases_to!(elements => elements@[i as int]->Multiple_0));
                let y = convert_expression(c, x);
                r.push(ListElement::Multiple(y));
            },
            ListElement::Single(x) => {
                assert(decreases_to!(elements => elements@[i as int]->Single_0));
                let y = convert_expression(c, x);
                r.push(ListElement::Single(y));
            },
        }
        assert(s.take(i + 1).drop_last() =~= s.take(i as int));
        assert(view_list_elements(r@) =~= before.push(view_list_elements(r@).last()));
        i += 1;
    }
    assert(s.take(i as int) =~= s);
    r
}

fn convert_record_elements<C: ExpressionConverter>(
    c: &mut C,
    e: &Expression,
    elements: &Vec<(String, Expression)>,
) -> (r: Vec<(String, Expression)>)
    requires
        old(c).well_formed(),
        (e matches Expression::RecordConstruction { elements: l, .. } && l == elements) || (
        e matches Expression::RecordUpdate { elements: l, .. } && l == elements),
    ensures
        final(c).well_formed(),
        (final(c)@, view_record_elements_rec(r@)) == convert_record_elements_spec::<C>(
            old(c)@,
            view_record_elements_rec(elements@),
        ),
    decreases e, 0nat,
{
    broadcast use group_ast_view;

    let ghost s = view_record_elements(elements@);
    let mut r: Vec<(String, Expression)> = Vec::new();
    let mut i: usize = 0;
    while i < elements.len()
        invariant
            i <= elements@.len(),
            s == view_record_elements(elements@),
            (e matches Expression::RecordConstruction { elements: l, .. } && l == elements) || (
            e matches Expression::RecordUpdate { elements: l, .. } && l == elements),
            c.well_formed(),
            (c@, view_record_elements(r@)) == convert_record_elements_spec::<C>(
                old(c)@,
                s.take(i as int),
            ),
        decreases elements.len() - i,
    {
        assert(decreases_to!(e => *elements));
        assert(decreases_to!(elements => elements@[i as int].1));
        let ghost before = view_record_elements(r@);
        let x = convert_expression(c, &elements[i].1);
        r.push((elements[i].0.clone(), x));
        assert(s.take(i + 1).drop_last() =~= s.take(i as int));
        assert(view_record_elements(r@) =~= before.push(view_record_elements(r@).last()));
        i += 1;
    }
    assert(s.take(i as int) =~= s);
    r
}

/// Converts the expressions of all definitions of a module; everything else
/// is kept.
pub fn convert_module<C: ExpressionConverter>(c: &mut C, module: &Module) -> (r: Module)
    requires
        old(c).well_formed(),
    ensures
        final(c).well_formed(),
        (final(c)@, r@) == convert_module_spec::<C>(old(c)@, module@),
{
    let ghost s = module@.definitions;
    let mut definitions: Vec<Definition> = Vec::new();
    let mut i: usize = 0;
    while i < module.definitions.len()
        invariant
            i <= module.definitions@.len(),
            s == module@.definitions,
            c.well_formed(),
            (c@, view_definitions(definitions@)) == convert_definitions_spec::<C>(
                old(c)@,
                s.take(i as int),
            ),
        decreases module.definitions.len() - i,
    {
        let ghost before = view_definitions(definitions@);
        let d = convert_definition(c, &module.definitions[i]);
        definitions.push(d);
        assert(s.take(i + 1).drop_last() =~= s.take(i as int));
        assert(view_definitions(definitions@) =~= before.push(view_definitions(definitions@).last()));
        i += 1;
    }
    assert(s.take(i as int) =~= s);
    Module {
        path: module.path.deep_clone(),
        export: Export { names: clone_strings(&module.export.names) },
        imports: clone_imports(&module.imports),
        ffi_imports: clone_builtin_interfaces(&module.ffi_imports),
        type_definitions: clone_type_definitions(&module.type_definitions),
        definitions,
    }
}

/// Whether the predicate holds of all expressions strictly inside the expression.
pub open spec fn children_all(e: ExprV, p: spec_fn(ExprV) -> bool) -> bool {
    match e {
        ExprV::Application { function, argument } => (*function).all_nodes(p) && (
        *argument).all_nodes(p),
        ExprV::Case { argument, alternatives, .. } => (*argument).all_nodes(p)
            && all_nodes_alternatives(alternatives, p),
        ExprV::If { condition, then, else_ } => (*condition).all_nodes(p) && (*then).all_nodes(p)
            && (*else_).all_nodes(p),
        ExprV::Let { definitions, expression } => all_nodes_definitions(definitions, p) && (
        *expression).all_nodes(p),
        ExprV::List { elements } => all_nodes_list_elements(elements, p),
        ExprV::ListCase { argument, empty_alternative, non_empty_alternative, .. } => (
        *argument).all_nodes(p) && (*empty_alternative).all_nodes(p) && (
        *non_empty_alternative).all_nodes(p),
        ExprV::Operation { lhs, rhs, .. } => (*lhs).all_nodes(p) && (*rhs).all_nodes(p),
        ExprV::RecordConstruction { elements, .. } => all_nodes_record_elements(elements, p),
        ExprV::RecordElementOperation { argument, .. } => (*argument).all_nodes(p),
        ExprV::RecordUpdate { argument, elements, .. } => (*argument).all_nodes(p)
            && all_nodes_record_elements(elements, p),
        ExprV::TypeCoercion { argument, .. } => (*argument).all_nodes(p),
        _ => true,
    }
}

/// A predicate holds of all nodes of an expression exactly when it holds of the
/// expression and of all nodes inside it.
pub proof fn lemma_all_nodes_children(e: ExprV, p: spec_fn(ExprV) -> bool)
    ensures
        e.all_nodes(p) == (p(e) && children_all(e, p)),
{
}

/// Whether converting a node whose inner expressions all satisfy the predicate
/// always gives an expression all of whose nodes satisfy it.
pub open spec fn converter_establishes<C: ExpressionConverter>(p: spec_fn(ExprV) -> bool) -> bool {
    forall|c: C::V, x: ExprV| children_all(x, p) ==> (#[trigger] C::converted(c, x)).1.all_nodes(p)
}

/// A converter that establishes a predicate at each node establishes it at
/// every node of a converted expression.
pub proof fn lemma_convert_all_nodes<C: ExpressionConverter>(
    c: C::V,
    e: ExprV,
    p: spec_fn(ExprV) -> bool,
)
    requires
        converter_establishes::<C>(p),
    ensures
        convert_expression_spec::<C>(c, e).1.all_nodes(p),
    decreases e,
{
    match e {
        ExprV::Application { function, argument } => {
            let (c1, f) = convert_expression_spec::<C>(c, *function);
            lemma_convert_all_nodes::<C>(c, *function, p);
            lemma_convert_all_nodes::<C>(c1, *argument, p);
        },
        ExprV::Case { type_, name, argument, alternatives } => {
            let (c1, a) = convert_expression_spec::<C>(c, *argument);
            lemma_convert_all_nodes::<C>(c, *argument, p);
            lemma_convert_alternatives_all_nodes::<C>(c1, alternatives, p);
        },
        ExprV::If { condition, then, else_ } => {
            let (c1, x) = convert_expression_spec::<C>(c, *condition);
            let (c2, y) = convert_expression_spec::<C>(c1, *then);
            lemma_convert_all_nodes::<C>(c, *condition, p);
            lemma_convert_all_nodes::<C>(c1, *then, p);
            lemma_convert_all_nodes::<C>(c2, *else_, p);
        },
        ExprV::ListCase { argument, empty_alternative, non_empty_alternative, .. } => {
            let (c1, x) = convert_expression_spec::<C>(c, *argument);
            let (c2, y) = convert_expression_spec::<C>(c1, *empty_alternative);
            lemma_convert_all_nodes::<C>(c, *argument, p);
            lemma_convert_all_nodes::<C>(c1, *empty_alternative, p);
            lemma_convert_all_nodes::<C>(c2, *non_empty_alternative, p);
        },
        ExprV::Let { definitions, expression } => {
            let (c1, ds) = convert_definitions_spec::<C>(c, definitions);
            lemma_convert_definitions_all_nodes::<C>(c, definitions, p);
            lemma_convert_all_nodes::<C>(c1, *expression, p);
        },
        ExprV::List { elements } => {
            lemma_convert_list_elements_all_nodes::<C>(c, elements, p);
        },
        ExprV::Operation { type_, operator, lhs, rhs } => {
            let (c1, x) = convert_expression_spec::<C>(c, *lhs);
            lemma_convert_all_nodes::<C>(c, *lhs, p);
            lemma_convert_all_nodes::<C>(c1, *rhs, p);
        },
        ExprV::RecordConstruction { type_, elements } => {
            lemma_convert_record_elements_all_nodes::<C>(c, elements, p);
        },
        ExprV::RecordElementOperation { type_, key, argument } => {
            lemma_convert_all_nodes::<C>(c, *argument, p);
        },
        ExprV::RecordUpdate { reference, argument, elements } => {
            let (c1, x) = convert_expression_spec::<C>(c, *argument);
            lemma_convert_all_nodes::<C>(c, *argument, p);
            lemma_convert_record_elements_all_nodes::<C>(c1, elements, p);
        },
        ExprV::TypeCoercion { argument, from, to } => {
            lemma_convert_all_nodes::<C>(c, *argument, p);
        },
        _ => {},
    }
}

pub proof fn lemma_convert_alternatives_all_nodes<C: ExpressionConverter>(
    c: C::V,
    s: Seq<AlternativeV>,
    p: spec_fn(ExprV) -> bool,
)
    requires
        converter_establishes::<C>(p),
    ensures
        all_nodes_alternatives(convert_alternatives_spec::<C>(c, s).1, p),
    decreases s,
{
    if s.len() > 0 {
        let (c1, previous) = convert_alternatives_spec::<C>(c, s.drop_last());
        lemma_convert_alternatives_all_nodes::<C>(c, s.drop_last(), p);
        lemma_convert_all_nodes::<C>(c1, s.last().expression, p);
        let r = convert_alternatives_spec::<C>(c, s).1;
        assert(r.drop_last() =~= previous);
    }
}

pub proof fn lemma_convert_definitions_all_nodes<C: ExpressionConverter>(
    c: C::V,
    s: Seq<DefinitionV>,
    p: spec_fn(ExprV) -> bool,
)
    requires
        converter_establishes::<C>(p),
    ensures
        all_nodes_definitions(convert_definitions_spec::<C>(c, s).1, p),
    decreases s,
{
    if s.len() > 0 {
        let (c1, previous) = convert_definitions_spec::<C>(c, s.drop_last());
        lemma_convert_definitions_all_nodes::<C>(c, s.drop_last(), p);
        let (c2, d) = convert_definition_spec::<C>(c1, s.last());
        match s.last() {
            DefinitionV::Function { body, .. } => lemma_convert_all_nodes::<C>(c1, body, p),
            DefinitionV::Value { body, .. } => lemma_convert_all_nodes::<C>(c1, body, p),
        }
        assert(d.body().all_nodes(p));
        let r = convert_definitions_spec::<C>(c, s).1;
        assert(r.drop_last() =~= previous);
        assert(r.last() == d);
        assert(all_nodes_definitions(previous, p));
        assert(match r.last() {
            DefinitionV::Function { body, .. } => body.all_nodes(p),
            DefinitionV::Value { body, .. } => body.all_nodes(p),
        });
    }
}

pub proof fn lemma_convert_list_elements_all_nodes<C: ExpressionConverter>(
    c: C::V,
    s: Seq<ListElementV>,
    p: spec_fn(ExprV) -> bool,
)
    requires
        converter_establishes::<C>(p),
    ensures
        all_nodes_list_elements(convert_list_elements_spec::<C>(c, s).1, p),
    decreases s,
{
    if s.len() > 0 {
        let (c1, previous) = convert_list_elements_spec::<C>(c, s.drop_last());
        lemma_convert_list_elements_all_nodes::<C>(c, s.drop_last(), p);
        match s.last() {
            ListElementV::Multiple(e) => lemma_convert_all_nodes::<C>(c1, e, p),
            ListElementV::Single(e) => lemma_convert_all_nodes::<C>(c1, e, p),
        }
        let r = convert_list_elements_spec::<C>(c, s).1;
        assert(r.drop_last() =~= previous);
    }
}

pub proof fn lemma_convert_record_elements_all_nodes<C: ExpressionConverter>(
    c: C::V,
    s: Seq<(Seq<char>, ExprV)>,
    p: spec_fn(ExprV) -> bool,
)
    requires
        converter_establishes::<C>(p),
    ensures
        all_nodes_record_elements(convert_record_elements_spec::<C>(c, s).1, p),
    decreases s,
{
    if s.len() > 0 {
        let (c1, previous) = convert_record_elements_spec::<C>(c, s.drop_last());
        lemma_convert_record_elements_all_nodes::<C>(c, s.drop_last(), p);
        lemma_convert_all_nodes::<C>(c1, s.last().1, p);
        let r = convert_record_elements_spec::<C>(c, s).1;
        assert(r.drop_last() =~= previous);
    }
}

/// A converter that establishes a predicate at each node establishes it at
/// every node of every definition of a converted module.
pub proof fn lemma_convert_module_all_nodes<C: ExpressionConverter>(
    c: C::V,
    m: ModuleV,
    p: spec_fn(ExprV) -> bool,
)
    requires
        converter_establishes::<C>(p),
    ensures
        all_nodes_definitions(convert_module_spec::<C>(c, m).1.definitions, p),
{
    lemma_convert_definitions_all_nodes::<C>(c, m.definitions, p);
}

/// Whether converting a node never changes the converter's state.
pub open spec fn converter_keeps_state<C: ExpressionConverter>() -> bool {
    forall|c: C::V, x: ExprV| (#[trigger] C::converted(c, x)).0 == c
}

/// A converter that never changes its state at a node keeps it over a whole
/// expression.
pub proof fn lemma_convert_keeps_state<C: ExpressionConverter>(c: C::V, e: ExprV)
    requires
        converter_keeps_state::<C>(),
    ensures
        convert_expression_spec::<C>(c, e).0 == c,
    decreases e,
{
    match e {
        ExprV::Application { function, argument } => {
            lemma_convert_keeps_state::<C>(c, *function);
            lemma_convert_keeps_state::<C>(c, *argument);
        },
        ExprV::Case { argument, alternatives, .. } => {
            lemma_convert_keeps_state::<C>(c, *argument);
            lemma_convert_alternatives_keep_state::<C>(c, alternatives);
        },
        ExprV::If { condition, then, else_ } => {
            lemma_convert_keeps_state::<C>(c, *condition);
            lemma_convert_keeps_state::<C>(c, *then);
            lemma_convert_keeps_state::<C>(c, *else_);
        },
        ExprV::ListCase { argument, empty_alternative, non_empty_alternative, .. } => {
            lemma_convert_keeps_state::<C>(c, *argument);
            lemma_convert_keeps_state::<C>(c, *empty_alternative);
            lemma_convert_keeps_state::<C>(c, *non_empty_alternative);
        },
        ExprV::Let { definitions, expression } => {
            lemma_convert_definitions_keep_state::<C>(c, definitions);
            lemma_convert_keeps_state::<C>(c, *expression);
        },
        ExprV::List { elements } => {
            lemma_convert_list_elements_keep_state::<C>(c, elements);
        },
        ExprV::Operation { lhs, rhs, .. } => {
            lemma_convert_keeps_state::<C>(c, *lhs);
            lemma_convert_keeps_state::<C>(c, *rhs);
        },
        ExprV::RecordConstruction { elements, .. } => {
            lemma_convert_record_elements_keep_state::<C>(c, elements);
        },
        ExprV::RecordElementOperation { argument, .. } => {
            lemma_convert_keeps_state::<C>(c, *argument);
        },
        ExprV::RecordUpdate { argument, elements, .. } => {
            lemma_convert_keeps_state::<C>(c, *argument);
            lemma_convert_record_elements_keep_state::<C>(c, elements);
        },
        ExprV::TypeCoercion { argument, .. } => {
            lemma_convert_keeps_state::<C>(c, *argument);
        },
        _ => {},
    }
}

pub proof fn lemma_convert_alternatives_keep_state<C: ExpressionConverter>(
    c: C::V,
    s: Seq<AlternativeV>,
)
    requires
        converter_keeps_state::<C>(),
    ensures
        convert_alternatives_spec::<C>(c, s).0 == c,
    decreases s,
{
    if s.len() > 0 {
        lemma_convert_alternatives_keep_state::<C>(c, s.drop_last());
        lemma_convert_keeps_state::<C>(c, s.last().expression);
    }
}

pub proof fn lemma_convert_definitions_keep_state<C: ExpressionConverter>(
    c: C::V,
    s: Seq<DefinitionV>,
)
    requires
        converter_keeps_state::<C>(),
    ensures
        convert_definitions_spec::<C>(c, s).0 == c,
    decreases s,
{
    if s.len() > 0 {
        lemma_convert_definitions_keep_state::<C>(c, s.drop_last());
        match s.last() {
            DefinitionV::Function { body, .. } => lemma_convert_keeps_state::<C>(c, body),
            DefinitionV::Value { body, .. } => lemma_convert_keeps_state::<C>(c, body),
        }
        assert(convert_definition_spec::<C>(c, s.last()).0 == c);
    }
}

pub proof fn lemma_convert_list_elements_keep_state<C: ExpressionConverter>(
    c: C::V,
    s: Seq<ListElementV>,
)
    requires
        converter_keeps_state::<C>(),
    ensures
        convert_list_elements_spec::<C>(c, s).0 == c,
    decreases s,
{
    if s.len() > 0 {
        lemma_convert_list_elements_keep_state::<C>(c, s.drop_last());
        match s.last() {
            ListElementV::Multiple(e) => lemma_convert_keeps_state::<C>(c, e),
            ListElementV::Single(e) => lemma_convert_keeps_state::<C>(c, e),
        }
    }
}

pub proof fn lemma_convert_record_elements_keep_state<C: ExpressionConverter>(
    c: C::V,
    s: Seq<(Seq<char>, ExprV)>,
)
    requires
        converter_keeps_state::<C>(),
    ensures
        convert_record_elements_spec::<C>(c, s).0 == c,
    decreases s,
{
    if s.len() > 0 {
        lemma_convert_record_elements_keep_state::<C>(c, s.drop_last());
        lemma_convert_keeps_state::<C>(c, s.last().1);
    }
}

/// A converter that never changes its state keeps it over a whole module.
pub proof fn lemma_convert_module_keeps_state<C: ExpressionConverter>(c: C::V, m: ModuleV)
    requires
        converter_keeps_state::<C>(),
    ensures
        convert_module_spec::<C>(c, m).0 == c,
{
    lemma_convert_definitions_keep_state::<C>(c, m.definitions);
}

/// Whether the converter keeps each node that satisfies the predicate, with
/// its state.
pub open spec fn converter_keeps_nodes<C: ExpressionConverter>(p: spec_fn(ExprV) -> bool) -> bool {
    forall|c: C::V, x: ExprV| p(x) ==> #[trigger] C::converted(c, x) == (c, x)
}

/// A converter that keeps each node satisfying a predicate keeps an expression
/// all of whose nodes satisfy it, with its state.
pub proof fn lemma_convert_identity<C: ExpressionConverter>(
    c: C::V,
    e: ExprV,
    p: spec_fn(ExprV) -> bool,
)
    requires
        converter_keeps_nodes::<C>(p),
        e.all_nodes(p),
    ensures
        convert_expression_spec::<C>(c, e) == (c, e),
    decreases e,
{
    match e {
        ExprV::Application { function, argument } => {
            lemma_convert_identity::<C>(c, *function, p);
            lemma_convert_identity::<C>(c, *argument, p);
        },
        ExprV::Case { argument, alternatives, .. } => {
            lemma_convert_identity::<C>(c, *argument, p);
            lemma_convert_alternatives_identity::<C>(c, alternatives, p);
        },
        ExprV::If { condition, then, else_ } => {
            lemma_convert_identity::<C>(c, *condition, p);
            lemma_convert_identity::<C>(c, *then, p);
            lemma_convert_identity::<C>(c, *else_, p);
        },
        ExprV::ListCase { argument, empty_alternative, non_empty_alternative, .. } => {
            lemma_convert_identity::<C>(c, *argument, p);
            lemma_convert_identity::<C>(c, *empty_alternative, p);
            lemma_convert_identity::<C>(c, *non_empty_alternative, p);
        },
        ExprV::Let { definitions, expression } => {
            lemma_convert_definitions_identity::<C>(c, definitions, p);
            lemma_convert_identity::<C>(c, *expression, p);
        },
        ExprV::List { elements } => {
            lemma_convert_list_elements_identity::<C>(c, elements, p);
        },
        ExprV::Operation { lhs, rhs, .. } => {
            lemma_convert_identity::<C>(c, *lhs, p);
            lemma_convert_identity::<C>(c, *rhs, p);
        },
        ExprV::RecordConstruction { elements, .. } => {
            lemma_convert_record_elements_identity::<C>(c, elements, p);
        },
        ExprV::RecordElementOperation { argument, .. } => {
            lemma_convert_identity::<C>(c, *argument, p);
        },
        ExprV::RecordUpdate { argument, elements, .. } => {
            lemma_convert_identity::<C>(c, *argument, p);
            lemma_convert_record_elements_identity::<C>(c, elements, p);
        },
        ExprV::TypeCoercion { argument, .. } => {
            lemma_convert_identity::<C>(c, *argument, p);
        },
        _ => {},
    }
}

pub proof fn lemma_convert_alternatives_identity<C: ExpressionConverter>(
    c: C::V,
    s: Seq<AlternativeV>,
    p: spec_fn(ExprV) -> bool,
)
    requires
        converter_keeps_nodes::<C>(p),
        all_nodes_alternatives(s, p),
    ensures
        convert_alternatives_spec::<C>(c, s) == (c, s),
    decreases s,
{
    if s.len() > 0 {
        lemma_convert_alternatives_identity::<C>(c, s.drop_last(), p);
        lemma_convert_identity::<C>(c, s.last().expression, p);
        assert(s.drop_last().push(AlternativeV { type_: s.last().type_, expression: s.last().expression }) =~= s);
    }
}

pub proof fn lemma_convert_definitions_identity<C: ExpressionConverter>(
    c: C::V,
    s: Seq<DefinitionV>,
    p: spec_fn(ExprV) -> bool,
)
    requires
        converter_keeps_nodes::<C>(p),
        all_nodes_definitions(s, p),
    ensures
        convert_definitions_spec::<C>(c, s) == (c, s),
    decreases s,
{
    if s.len() > 0 {
        lemma_convert_definitions_identity::<C>(c, s.drop_last(), p);
        match s.last() {
            DefinitionV::Function { body, .. } => lemma_convert_identity::<C>(c, body, p),
            DefinitionV::Value { body, .. } => lemma_convert_identity::<C>(c, body, p),
        }
        assert(convert_definition_spec::<C>(c, s.last()) == (c, s.last()));
        assert(s.drop_last().push(s.last()) =~= s);
    }
}

pub proof fn lemma_convert_list_elements_identity<C: ExpressionConverter>(
    c: C::V,
    s: Seq<ListElementV>,
    p: spec_fn(ExprV) -> bool,
)
    requires
        converter_keeps_nodes::<C>(p),
        all_nodes_list_elements(s, p),
    ensures
        convert_list_elements_spec::<C>(c, s) == (c, s),
    decreases s,
{
    if s.len() > 0 {
        lemma_convert_list_elements_identity::<C>(c, s.drop_last(), p);
        match s.last() {
            ListElementV::Multiple(e) => lemma_convert_identity::<C>(c, e, p),
            ListElementV::Single(e) => lemma_convert_identity::<C>(c, e, p),
        }
        assert(s.drop_last().push(s.last()) =~= s);
    }
}

pub proof fn lemma_convert_record_elements_identity<C: ExpressionConverter>(
    c: C::V,
    s: Seq<(Seq<char>, ExprV)>,
    p: spec_fn(ExprV) -> bool,
)
    requires
        converter_keeps_nodes::<C>(p),
        all_nodes_record_elements(s, p),
    ensures
        convert_record_elements_spec::<C>(c, s) == (c, s),
    decreases s,
{
    if s.len() > 0 {
        lemma_convert_record_elements_identity::<C>(c, s.drop_last(), p);
        lemma_convert_identity::<C>(c, s.last().1, p);
        assert(s.drop_last().push((s.last().0, s.last().1)) =~= s);
    }
}

/// A converter that keeps each node satisfying a predicate keeps a module all
/// of whose expressions satisfy it everywhere, with its state.
pub proof fn lemma_convert_module_identity<C: ExpressionConverter>(
    c: C::V,
    m: ModuleV,
    p: spec_fn(ExprV) -> bool,
)
    requires
        converter_keeps_nodes::<C>(p),
        all_nodes_definitions(m.definitions, p),
    ensures
        convert_module_spec::<C>(c, m) == (c, m),
{
    lemma_convert_definitions_identity::<C>(c, m.definitions, p);
}

/// Whether a condition on the state that holds after converting a node held
/// before it too.
pub open spec fn condition_held_before<C: ExpressionConverter>(q: spec_fn(C::V) -> bool) -> bool {
    forall|c: C::V, x: ExprV| q((#[trigger] C::converted(c, x)).0) ==> q(c)
}

/// Whether converting a node whose inner expressions all satisfy a
/// predicate gives an expression all of whose nodes satisfy it, whenever
/// the state after the node satisfies a condition.
pub open spec fn converter_establishes_when<C: ExpressionConverter>(
    p: spec_fn(ExprV) -> bool,
    q: spec_fn(C::V) -> bool,
) -> bool {
    forall|c: C::V, x: ExprV|
        children_all(x, p) && q((#[trigger] C::converted(c, x)).0) ==> C::converted(
            c,
            x,
        ).1.all_nodes(p)
}

/// A condition that holds after converting an expression held before it.
pub proof fn lemma_condition_held_before<C: ExpressionConverter>(
    c: C::V,
    e: ExprV,
    q: spec_fn(C::V) -> bool,
)
    requires
        condition_held_before::<C>(q),
    ensures
        q(convert_expression_spec::<C>(c, e).0) ==> q(c),
    decreases e,
{
    match e {
        ExprV::Application { function, argument } => {
            let (c1, f) = convert_expression_spec::<C>(c, *function);
            lemma_condition_held_before::<C>(c, *function, q);
            lemma_condition_held_before::<C>(c1, *argument, q);
        },
        ExprV::Case { argument, alternatives, .. } => {
            let (c1, a) = convert_expression_spec::<C>(c, *argument);
            lemma_condition_held_before::<C>(c, *argument, q);
            lemma_alternatives_condition_held_before::<C>(c1, alternatives, q);
        },
        ExprV::If { condition, then, else_ } => {
            let (c1, x) = convert_expression_spec::<C>(c, *condition);
            let (c2, y) = convert_expression_spec::<C>(c1, *then);
            lemma_condition_held_before::<C>(c, *condition, q);
            lemma_condition_held_before::<C>(c1, *then, q);
            lemma_condition_held_before::<C>(c2, *else_, q);
        },
        ExprV::ListCase { argument, empty_alternative, non_empty_alternative, .. } => {
            let (c1, x) = convert_expression_spec::<C>(c, *argument);
            let (c2, y) = convert_expression_spec::<C>(c1, *empty_alternative);
            lemma_condition_held_before::<C>(c, *argument, q);
            lemma_condition_held_before::<C>(c1, *empty_alternative, q);
            lemma_condition_held_before::<C>(c2, *non_empty_alternative, q);
        },
        ExprV::Let { definitions, expression } => {
            let (c1, ds) = convert_definitions_spec::<C>(c, definitions);
            lemma_definitions_condition_held_before::<C>(c, definitions, q);
            lemma_condition_held_before::<C>(c1, *expression, q);
        },
        ExprV::List { elements } => {
            lemma_list_elements_condition_held_before::<C>(c, elements, q);
        },
        ExprV::Operation { lhs, rhs, .. } => {
            let (c1, x) = convert_expression_spec::<C>(c, *lhs);
            lemma_condition_held_before::<C>(c, *lhs, q);
            lemma_condition_held_before::<C>(c1, *rhs, q);
        },
        ExprV::RecordConstruction { elements, .. } => {
            lemma_record_elements_condition_held_before::<C>(c, elements, q);
        },
        ExprV::RecordElementOperation { argument, .. } => {
            lemma_condition_held_before::<C>(c, *argument, q);
        },
        ExprV::RecordUpdate { argument, elements, .. } => {
            let (c1, x) = convert_expression_spec::<C>(c, *argument);
            lemma_condition_held_before::<C>(c, *argument, q);
            lemma_record_elements_condition_held_before::<C>(c1, elements, q);
        },
        ExprV::TypeCoercion { argument, .. } => {
            lemma_condition_held_before::<C>(c, *argument, q);
        },
        _ => {},
    }
}

pub proof fn lemma_alternatives_condition_held_before<C: ExpressionConverter>(
    c: C::V,
    s: Seq<AlternativeV>,
    q: spec_fn(C::V) -> bool,
)
    requires
        condition_held_before::<C>(q),
    ensures
        q(convert_alternatives_spec::<C>(c, s).0) ==> q(c),
    decreases s,
{
    if s.len() > 0 {
        let (c1, previous) = convert_alternatives_spec::<C>(c, s.drop_last());
        lemma_alternatives_condition_held_before::<C>(c, s.drop_last(), q);
        lemma_condition_held_before::<C>(c1, s.last().expression, q);
    }
}

pub proof fn lemma_definitions_condition_held_before<C: ExpressionConverter>(
    c: C::V,
    s: Seq<DefinitionV>,
    q: spec_fn(C::V) -> bool,
)
    requires
        condition_held_before::<C>(q),
    ensures
        q(convert_definitions_spec::<C>(c, s).0) ==> q(c),
    decreases s,
{
    if s.len() > 0 {
        let (c1, previous) = convert_definitions_spec::<C>(c, s.drop_last());
        lemma_definitions_condition_held_before::<C>(c, s.drop_last(), q);
        lemma_condition_held_before::<C>(c1, s.last().body(), q);
        assert(convert_definition_spec::<C>(c1, s.last()).0 == convert_expression_spec::<C>(
            c1,
            s.last().body(),
        ).0);
    }
}

pub proof fn lemma_list_elements_condition_held_before<C: ExpressionConverter>(
    c: C::V,
    s: Seq<ListElementV>,
    q: spec_fn(C::V) -> bool,
)
    requires
        condition_held_before::<C>(q),
    ensures
        q(convert_list_elements_spec::<C>(c, s).0) ==> q(c),
    decreases s,
{
    if s.len() > 0 {
        let (c1, previous) = convert_list_elements_spec::<C>(c, s.drop_last());
        lemma_list_elements_condition_held_before::<C>(c, s.drop_last(), q);
        match s.last() {
            ListElementV::Multiple(e) => lemma_condition_held_before::<C>(c1, e, q),
            ListElementV::Single(e) => lemma_condition_held_before::<C>(c1, e, q),
        }
    }
}

pub proof fn lemma_record_elements_condition_held_before<C: ExpressionConverter>(
    c: C::V,
    s: Seq<(Seq<char>, ExprV)>,
    q: spec_fn(C::V) -> bool,
)
    requires
        condition_held_before::<C>(q),
    ensures
        q(convert_record_elements_spec::<C>(c, s).0) ==> q(c),
    decreases s,
{
    if s.len() > 0 {
        let (c1, previous) = convert_record_elements_spec::<C>(c, s.drop_last());
        lemma_record_elements_condition_held_before::<C>(c, s.drop_last(), q);
        lemma_condition_held_before::<C>(c1, s.last().1, q);
    }
}

/// A converter that establishes a predicate at each node whenever the state
/// after the node satisfies a condition that then held before it too
/// establishes the predicate at every node of a converted expression whose
/// final state satisfies the condition.
pub proof fn lemma_convert_all_nodes_when<C: ExpressionConverter>(
    c: C::V,
    e: ExprV,
    p: spec_fn(ExprV) -> bool,
    q: spec_fn(C::V) -> bool,
)
    requires
        converter_establishes_when::<C>(p, q),
        condition_held_before::<C>(q),
    ensures
        q(convert_expression_spec::<C>(c, e).0) ==> convert_expression_spec::<C>(c, e).1.all_nodes(
            p,
        ),
    decreases e,
{
    match e {
        ExprV::Application { function, argument } => {
            let (c1, f) = convert_expression_spec::<C>(c, *function);
            let (c2, a) = convert_expression_spec::<C>(c1, *argument);
            lemma_condition_held_before::<C>(c1, *argument, q);
            lemma_convert_all_nodes_when::<C>(c, *function, p, q);
            lemma_convert_all_nodes_when::<C>(c1, *argument, p, q);
        },
        ExprV::Case { argument, alternatives, .. } => {
            let (c1, a) = convert_expression_spec::<C>(c, *argument);
            lemma_alternatives_condition_held_before::<C>(c1, alternatives, q);
            lemma_convert_all_nodes_when::<C>(c, *argument, p, q);
            lemma_convert_alternatives_all_nodes_when::<C>(c1, alternatives, p, q);
        },
        ExprV::If { condition, then, else_ } => {
            let (c1, x) = convert_expression_spec::<C>(c, *condition);
            let (c2, y) = convert_expression_spec::<C>(c1, *then);
            lemma_condition_held_before::<C>(c1, *then, q);
            lemma_condition_held_before::<C>(c2, *else_, q);
            lemma_convert_all_nodes_when::<C>(c, *condition, p, q);
            lemma_convert_all_nodes_when::<C>(c1, *then, p, q);
            lemma_convert_all_nodes_when::<C>(c2, *else_, p, q);
        },
        ExprV::ListCase { argument, empty_alternative, non_empty_alternative, .. } => {
            let (c1, x) = convert_expression_spec::<C>(c, *argument);
            let (c2, y) = convert_expression_spec::<C>(c1, *empty_alternative);
            lemma_condition_held_before::<C>(c1, *empty_alternative, q);
            lemma_condition_held_before::<C>(c2, *non_empty_alternative, q);
            lemma_convert_all_nodes_when::<C>(c, *argument, p, q);
            lemma_convert_all_nodes_when::<C>(c1, *empty_alternative, p, q);
            lemma_convert_all_nodes_when::<C>(c2, *non_empty_alternative, p, q);
        },
        ExprV::Let { definitions, expression } => {
            let (c1, ds) = convert_definitions_spec::<C>(c, definitions);
            lemma_condition_held_before::<C>(c1, *expression, q);
            lemma_convert_definitions_all_nodes_when::<C>(c, definitions, p, q);
            lemma_convert_all_nodes_when::<C>(c1, *expression, p, q);
        },
        ExprV::List { elements } => {
            lemma_convert_list_elements_all_nodes_when::<C>(c, elements, p, q);
        },
        ExprV::Operation { lhs, rhs, .. } => {
            let (c1, x) = convert_expression_spec::<C>(c, *lhs);
            lemma_condition_held_before::<C>(c1, *rhs, q);
            lemma_convert_all_nodes_when::<C>(c, *lhs, p, q);
            lemma_convert_all_nodes_when::<C>(c1, *rhs, p, q);
        },
        ExprV::RecordConstruction { elements, .. } => {
            lemma_convert_record_elements_all_nodes_when::<C>(c, elements, p, q);
        },
        ExprV::RecordElementOperation { argument, .. } => {
            lemma_convert_all_nodes_when::<C>(c, *argument, p, q);
        },
        ExprV::RecordUpdate { argument, elements, .. } => {
            let (c1, x) = convert_expression_spec::<C>(c, *argument);
            lemma_record_elements_condition_held_before::<C>(c1, elements, q);
            lemma_convert_all_nodes_when::<C>(c, *argument, p, q);
            lemma_convert_record_elements_all_nodes_when::<C>(c1, elements, p, q);
        },
        ExprV::TypeCoercion { argument, .. } => {
            lemma_convert_all_nodes_when::<C>(c, *argument, p, q);
        },
        _ => {},
    }
}

pub proof fn lemma_convert_alternatives_all_nodes_when<C: ExpressionConverter>(
    c: C::V,
    s: Seq<AlternativeV>,
    p: spec_fn(ExprV) -> bool,
    q: spec_fn(C::V) -> bool,
)
    requires
        converter_establishes_when::<C>(p, q),
        condition_held_before::<C>(q),
    ensures
        q(convert_alternatives_spec::<C>(c, s).0) ==> all_nodes_alternatives(
            convert_alternatives_spec::<C>(c, s).1,
            p,
        ),
    decreases s,
{
    if s.len() > 0 {
        let (c1, previous) = convert_alternatives_spec::<C>(c, s.drop_last());
        lemma_condition_held_before::<C>(c1, s.last().expression, q);
        lemma_convert_alternatives_all_nodes_when::<C>(c, s.drop_last(), p, q);
        lemma_convert_all_nodes_when::<C>(c1, s.last().expression, p, q);
        let r = convert_alternatives_spec::<C>(c, s).1;
        assert(r.drop_last() =~= previous);
    }
}

pub proof fn lemma_convert_definitions_all_nodes_when<C: ExpressionConverter>(
    c: C::V,
    s: Seq<DefinitionV>,
    p: spec_fn(ExprV) -> bool,
    q: spec_fn(C::V) -> bool,
)
    requires
        converter_establishes_when::<C>(p, q),
        condition_held_before::<C>(q),
    ensures
        q(convert_definitions_spec::<C>(c, s).0) ==> all_nodes_definitions(
            convert_definitions_spec::<C>(c, s).1,
            p,
        ),
    decreases s,
{
    if s.len() > 0 {
        let (c1, previous) = convert_definitions_spec::<C>(c, s.drop_last());
        let (c2, d) = convert_definition_spec::<C>(c1, s.last());
        lemma_condition_held_before::<C>(c1, s.last().body(), q);
        lemma_convert_definitions_all_nodes_when::<C>(c, s.drop_last(), p, q);
        lemma_convert_all_nodes_when::<C>(c1, s.last().body(), p, q);
        assert(c2 == convert_expression_spec::<C>(c1, s.last().body()).0);
        assert(d.body() == convert_expression_spec::<C>(c1, s.last().body()).1);
        let r = convert_definitions_spec::<C>(c, s).1;
        assert(r.drop_last() =~= previous);
        assert(r.last() == d);
        assert(q(c2) ==> match r.last() {
            DefinitionV::Function { body, .. } => body.all_nodes(p),
            DefinitionV::Value { body, .. } => body.all_nodes(p),
        });
    }
}

pub proof fn lemma_convert_list_elements_all_nodes_when<C: ExpressionConverter>(
    c: C::V,
    s: Seq<ListElementV>,
    p: spec_fn(ExprV) -> bool,
    q: spec_fn(C::V) -> bool,
)
    requires
        converter_establishes_when::<C>(p, q),
        condition_held_before::<C>(q),
    ensures
        q(convert_list_elements_spec::<C>(c, s).0) ==> all_nodes_list_elements(
            convert_list_elements_spec::<C>(c, s).1,
            p,
        ),
    decreases s,
{
    if s.len() > 0 {
        let (c1, previous) = convert_list_elements_spec::<C>(c, s.drop_last());
        lemma_convert_list_elements_all_nodes_when::<C>(c, s.drop_last(), p, q);
        match s.last() {
            ListElementV::Multiple(e) => {
                lemma_condition_held_before::<C>(c1, e, q);
                lemma_convert_all_nodes_when::<C>(c1, e, p, q);
            },
            ListElementV::Single(e) => {
                lemma_condition_held_before::<C>(c1, e, q);
                lemma_convert_all_nodes_when::<C>(c1, e, p, q);
            },
        }
        let r = convert_list_elements_spec::<C>(c, s).1;
        assert(r.drop_last() =~= previous);
    }
}

pub proof fn lemma_convert_record_elements_all_nodes_when<C: ExpressionConverter>(
    c: C::V,
    s: Seq<(Seq<char>, ExprV)>,
    p: spec_fn(ExprV) -> bool,
    q: spec_fn(C::V) -> bool,
)
    requires
        converter_establishes_when::<C>(p, q),
        condition_held_before::<C>(q),
    ensures
        q(convert_record_elements_spec::<C>(c, s).0) ==> all_nodes_record_elements(
            convert_record_elements_spec::<C>(c, s).1,
            p,
        ),
    decreases s,
{
    if s.len() > 0 {
        let (c1, previous) = convert_record_elements_spec::<C>(c, s.drop_last());
        lemma_condition_held_before::<C>(c1, s.last().1, q);
        lemma_convert_record_elements_all_nodes_when::<C>(c, s.drop_last(), p, q);
        lemma_convert_all_nodes_when::<C>(c1, s.last().1, p, q);
        let r = convert_record_elements_spec::<C>(c, s).1;
        assert(r.drop_last() =~= previous);
    }
}

/// [`lemma_convert_all_nodes_when`] for all definitions of a module.
pub proof fn lemma_convert_module_all_nodes_when<C: ExpressionConverter>(
    c: C::V,
    m: ModuleV,
    p: spec_fn(ExprV) -> bool,
    q: spec_fn(C::V) -> bool,
)
    requires
        converter_establishes_when::<C>(p, q),
        condition_held_before::<C>(q),
    ensures
        q(convert_module_spec::<C>(c, m).0) ==> all_nodes_definitions(
            convert_module_spec::<C>(c, m).1.definitions,
            p,
        ),
{
    lemma_convert_definitions_all_nodes_when::<C>(c, m.definitions, p, q);
}

/// The predicate holds of all nodes of the elements of a record construction
/// when it holds of all nodes of each element.
pub proof fn lemma_all_nodes_record_elements_from_each(
    s: Seq<(Seq<char>, ExprV)>,
    p: spec_fn(ExprV) -> bool,
)
    requires
        forall|i: int| 0 <= i < s.len() ==> (#[trigger] s[i]).1.all_nodes(p),
    ensures
        all_nodes_record_elements(s, p),
    decreases s.len(),
{
    if s.len() > 0 {
        assert forall|i: int| 0 <= i < s.drop_last().len() implies (
        #[trigger] s.drop_last()[i]).1.all_nodes(p) by {
            assert(s.drop_last()[i] == s[i]);
        }
        lemma_all_nodes_record_elements_from_each(s.drop_last(), p);
        assert(s[s.len() - 1] == s.last());
    }
}

/// A rewrite of single definitions, with a state of its own.
pub trait DefinitionConverter: View + Sized {
    /// The state after converting the definition, and its replacement.
    spec fn converted_definition(state: Self::V, d: DefinitionV) -> (Self::V, DefinitionV);

    /// Converts one definition whose inner definitions were converted already.
    fn convert_definition(&mut self, d: Definition) -> (r: Definition)
        ensures
            (final(self)@, r@) == Self::converted_definition(old(self)@, d@),
    ;
}

/// The definitions converted in order.
pub open spec fn convert_each_definition<C: DefinitionConverter>(
    state: C::V,
    definitions: Seq<DefinitionV>,
) -> (C::V, Seq<DefinitionV>)
    decreases definitions.len(),
{
    if definitions.len() == 0 {
        (state, Seq::empty())
    } else {
        let (s1, previous) = convert_each_definition::<C>(state, definitions.drop_last());
        let (s2, d) = C::converted_definition(s1, definitions.last());
        (s2, previous.push(d))
    }
}

/// A definition converter applied to the definitions of let expressions.
pub struct LetDefinitions<C> {
    pub converter: C,
}

impl<C: DefinitionConverter> View for LetDefinitions<C> {
    type V = C::V;

    open spec fn view(&self) -> C::V {
        self.converter@
    }
}

impl<C: DefinitionConverter> ExpressionConverter for LetDefinitions<C> {
    open spec fn well_formed(&self) -> bool {
        true
    }

    open spec fn converted(state: C::V, e: ExprV) -> (C::V, ExprV) {
        match e {
            ExprV::Let { definitions, expression } => {
                let (s1, ds) = convert_each_definition::<C>(state, definitions);
                (s1, ExprV::Let { definitions: ds, expression })
            },
            _ => (state, e),
        }
    }

    fn convert(&mut self, e: Expression) -> (r: Expression) {
        broadcast use group_ast_view;

        match e {
            Expression::Let { definitions, expression } => {
                let ghost ds = view_definitions(definitions@);
                assert(view_definitions_rec(definitions@) == ds);
                let mut converted: Vec<Definition> = Vec::new();
                let mut i: usize = 0;
                while i < definitions.len()
                    invariant
                        i <= definitions@.len(),
                        ds == view_definitions(definitions@),
                        (self@, view_definitions(converted@)) == convert_each_definition::<C>(
                            old(self)@,
                            ds.take(i as int),
                        ),
                    decreases definitions.len() - i,
                {
                    let ghost before = view_definitions(converted@);
                    let d = self.converter.convert_definition(definitions[i].deep_clone());
                    converted.push(d);
                    assert(ds.take(i + 1).drop_last() =~= ds.take(i as int));
                    assert(view_definitions(converted@) =~= before.push(d@));
                    i += 1;
                }
                assert(ds.take(i as int) =~= ds);
                assert(view_definitions_rec(converted@) == view_definitions(converted@));
                Expression::Let { definitions: converted, expression }
            },
            _ => e,
        }
    }
}

/// The conversion of the definitions of a module, inner ones first: each
/// module definition after the definitions of the let expressions in its body.
pub open spec fn convert_module_definitions_spec<C: DefinitionConverter>(
    state: C::V,
    definitions: Seq<DefinitionV>,
) -> (C::V, Seq<DefinitionV>)
    decreases definitions.len(),
{
    if definitions.len() == 0 {
        (state, Seq::empty())
    } else {
        let (s1, previous) = convert_module_definitions_spec::<C>(state, definitions.drop_last());
        let (s2, inner) = convert_definition_spec::<LetDefinitions<C>>(s1, definitions.last());
        let (s3, d) = C::converted_definition(s2, inner);
        (s3, previous.push(d))
    }
}

/// Converting the definitions of a module keeps their number.
pub proof fn lemma_convert_module_definitions_len<C: DefinitionConverter>(
    state: C::V,
    definitions: Seq<DefinitionV>,
)
    ensures
        convert_module_definitions_spec::<C>(state, definitions).1.len() == definitions.len(),
    decreases definitions.len(),
{
    if definitions.len() > 0 {
        lemma_convert_module_definitions_len::<C>(state, definitions.drop_last());
    }
}

/// The conversion of all definitions of a module, as
/// [`convert_module_definitions_spec`] says; everything else is kept.
pub open spec fn convert_all_definitions_spec<C: DefinitionConverter>(state: C::V, m: ModuleV) -> (
    C::V,
    ModuleV,
) {
    let (s1, ds) = convert_module_definitions_spec::<C>(state, m.definitions);
    (s1, ModuleV { definitions: ds, ..m })
}

/// Converts all definitions of a module, those inside let expressions too;
/// gives back the converter with the module.
pub fn convert_definitions<C: DefinitionConverter>(c: C, module: &Module) -> (r: (C, Module))
    ensures
        (r.0@, r.1@) == convert_all_definitions_spec::<C>(c@, module@),
{
    let ghost s = module@.definitions;
    let ghost start = c@;
    let mut wrapper = LetDefinitions { converter: c };
    let mut definitions: Vec<Definition> = Vec::new();
    let mut i: usize = 0;
    while i < module.definitions.len()
        invariant
            i <= module.definitions@.len(),
            s == module@.definitions,
            (wrapper@, view_definitions(definitions@)) == convert_module_definitions_spec::<C>(
                start,
                s.take(i as int),
            ),
        decreases module.definitions.len() - i,
    {
        let ghost before = view_definitions(definitions@);
        let inner = convert_definition(&mut wrapper, &module.definitions[i]);
        let d = wrapper.converter.convert_definition(inner);
        definitions.push(d);
        assert(s.take(i + 1).drop_last() =~= s.take(i as int));
        assert(view_definitions(definitions@) =~= before.push(d@));
        i += 1;
    }
    assert(s.take(i as int) =~= s);
    let m = Module {
        path: module.path.deep_clone(),
        export: Export { names: clone_strings(&module.export.names) },
        imports: clone_imports(&module.imports),
        ffi_imports: clone_builtin_interfaces(&module.ffi_imports),
        type_definitions: clone_type_definitions(&module.type_definitions),
        definitions,
    };
    (wrapper.converter, m)
}

} // verus!
