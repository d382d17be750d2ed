//! Binding of function arguments to let-bound variables.
use crate::ast::{
    all_nodes_definitions, lemma_all_nodes_record_elements, view_definitions, view_definitions_rec, view_record_elements,
    view_record_elements_rec, Definition, DefinitionV, ExprV, Expression, ValueDefinition,
};
use crate::convert::{
    children_all, convert_module, convert_module_spec, lemma_all_nodes_children,
    lemma_all_nodes_record_elements_from_each, lemma_convert_module_all_nodes,
    ExpressionConverter,
};
use crate::error::CompileError;
use crate::global_name_renamer::renamable;
use crate::module::{Module, ModuleV};
use crate::names::{NameGenerator, NameGeneratorV};
use crate::types::{Type, TypeV};
use vstd::prelude::*;

verus! {

/// The expression bound to a variable by a let expression that gives the
/// variable back.
pub open spec fn let_bound(name: Seq<char>, e: ExprV) -> ExprV {
    ExprV::Let {
        definitions: seq![DefinitionV::Value { name, body: e, type_: TypeV::Unknown }],
        expression: Box::new(ExprV::Variable { name }),
    }
}

/// Record elements bound to generated names, in order.
pub open spec fn bind_record_elements(state: NameGeneratorV, s: Seq<(Seq<char>, ExprV)>) -> (
    NameGeneratorV,
    Seq<(Seq<char>, ExprV)>,
)
    decreases s.len(),
{
    if s.len() == 0 {
        (state, Seq::empty())
    } else {
        let (state1, previous) = bind_record_elements(state, s.drop_last());
        (state1.next(), previous.push((s.last().0, let_bound(state1.name(), s.last().1))))
    }
}

/// The argument of an application and the elements of a record construction
/// get bound to generated names; other expressions are kept.
pub open spec fn bind_function_arguments(state: NameGeneratorV, e: ExprV) -> (
    NameGeneratorV,
    ExprV,
) {
    match e {
        ExprV::Application { function, argument } => (
            state.next(),
            ExprV::Application {
                function,
                argument: Box::new(let_bound(state.name(), *argument)),
            },
        ),
        ExprV::RecordConstruction { type_, elements } => {
            let (state1, bound) = bind_record_elements(state, elements);
            (state1, ExprV::RecordConstruction { type_, elements: bound })
        },
        _ => (state, e),
    }
}

/// Binds arguments to let-bound variables so that partial applications can be
/// removed later.
pub struct FunctionTypeArgumentTransformer {
    name_generator: NameGenerator,
}

impl View for FunctionTypeArgumentTransformer {
    type V = NameGeneratorV;

    closed spec fn view(&self) -> NameGeneratorV {
        self.name_generator@
    }
}

/// Binds an expression to a fresh name.
fn bind(names: &mut NameGenerator, e: Expression) -> (r: Expression)
    ensures
        final(names)@ == old(names)@.next(),
        r@ == let_bound(old(names)@.name(), e@),
{
    broadcast use crate::ast::group_ast_view;

    let ghost x = e@;
    let name = names.generate();
    let definition = Definition::ValueDefinition(
        ValueDefinition { name: name.clone(), body: e, type_: Type::Unknown },
    );
    let ghost dv = definition@;
    assert(dv == DefinitionV::Value { name: name@, body: x, type_: TypeV::Unknown });
    let mut definitions: Vec<Definition> = Vec::new();
    definitions.push(definition);
    assert(view_definitions(definitions@) =~= seq![dv]);
    assert(view_definitions_rec(definitions@) == view_definitions(definitions@));
    let variable = Expression::Variable { name };
    assert(variable@ == ExprV::Variable { name: name@ });
    Expression::Let { definitions, expression: Box::new(variable) }
}

impl ExpressionConverter for FunctionTypeArgumentTransformer {
    open spec fn well_formed(&self) -> bool {
        true
    }

    open spec fn converted(state: NameGeneratorV, e: ExprV) -> (NameGeneratorV, ExprV) {
        bind_function_arguments(state, e)
    }

    fn convert(&mut self, e: Expression) -> (r: Expression) {
        broadcast use crate::ast::group_ast_view;

        match e {
            Expression::Application { function, argument } => {
                let ghost f = (*function)@;
                let bound = bind(&mut self.name_generator, *argument);
                let ghost b = bound@;
                let r = Expression::Application { function, argument: Box::new(bound) };
                assert(r@ == ExprV::Application { function: Box::new(f), argument: Box::new(b) });
                r
            },
            Expression::RecordConstruction { type_, elements } => {
                let ghost s = view_record_elements(elements@);
                assert(view_record_elements_rec(elements@) == s);
                let ghost start = self.name_generator@;
                let mut bound: Vec<(String, Expression)> = Vec::new();
                let mut i: usize = 0;
                while i < elements.len()
                    invariant
                        i <= elements@.len(),
                        s == view_record_elements(elements@),
                        (self.name_generator@, view_record_elements(bound@)) == bind_record_elements(
                            start,
                            s.take(i as int),
                        ),
                    decreases elements.len() - i,
                {
                    let ghost before = view_record_elements(bound@);
                    let x = bind(&mut self.name_generator, elements[i].1.deep_clone());
                    bound.push((elements[i].0.clone(), x));
                    assert(s.take(i + 1).drop_last() =~= s.take(i as int));
                    assert(view_record_elements(bound@) =~= before.push(
                        view_record_elements(bound@).last(),
                    ));
                    i += 1;
                }
                assert(s.take(i as int) =~= s);
                assert(view_record_elements_rec(bound@) == view_record_elements(bound@));
                Expression::RecordConstruction { type_, elements: bound }
            },
            _ => e,
        }
    }
}

/// The starting name: `fta_function_0`.
pub open spec fn function_type_argument_names() -> NameGeneratorV {
    NameGeneratorV { prefix: "fta_function_"@, index: 0 }
}

impl FunctionTypeArgumentTransformer {
    pub fn new() -> (r: Self)
        ensures
            r@ == function_type_argument_names(),
    {
        FunctionTypeArgumentTransformer { name_generator: NameGenerator::new("fta_function_") }
    }

    /// Binds the arguments of all applications and the elements of all record
    /// constructions in the module's definitions; the module must hold no
    /// record updates or type coercions, which earlier passes remove.
    pub fn transform(&mut self, module: &Module) -> (r: Result<Module, CompileError>)
        requires
            all_nodes_definitions(module@.definitions, |e: ExprV| renamable(e)),
        ensures
            r matches Ok(m) && (final(self)@, m@) == convert_module_spec::<
                FunctionTypeArgumentTransformer,
            >(old(self)@, module@),
    {
        Ok(convert_module(self, module))
    }
}


/// Whether the expression is a let expression that binds one value to a
/// name and gives back the variable of that name.
pub open spec fn let_bound_variable(e: ExprV) -> bool {
    e matches ExprV::Let { definitions, expression } && definitions.len() == 1
        && definitions[0] is Value && *expression == ExprV::Variable { name: definitions[0].name() }
}

/// Whether the argument of an application, or every element of a record
/// construction, is a let-bound variable.
pub open spec fn arguments_bound(e: ExprV) -> bool {
    match e {
        ExprV::Application { argument, .. } => let_bound_variable(*argument),
        ExprV::RecordConstruction { elements, .. } => forall|i: int|
            0 <= i < elements.len() ==> let_bound_variable(#[trigger] elements[i].1),
        _ => true,
    }
}

/// The name that a let expression binds first.
pub open spec fn binding_name(e: ExprV) -> Seq<char> {
    e->Let_definitions[0].name()
}

/// Each bound record element binds the expression of the element.
proof fn lemma_bind_record_elements(state: NameGeneratorV, s: Seq<(Seq<char>, ExprV)>)
    ensures
        bind_record_elements(state, s).1.len() == s.len(),
        forall|i: int|
            0 <= i < s.len() ==> #[trigger] bind_record_elements(state, s).1[i] == (
                s[i].0,
                let_bound(binding_name(bind_record_elements(state, s).1[i].1), s[i].1),
            ),
    decreases s.len(),
{
    if s.len() > 0 {
        lemma_bind_record_elements(state, s.drop_last());
        let (state1, previous) = bind_record_elements(state, s.drop_last());
        let r = bind_record_elements(state, s).1;
        assert forall|i: int| 0 <= i < s.len() implies #[trigger] r[i] == (
            s[i].0,
            let_bound(binding_name(r[i].1), s[i].1),
        ) by {
            if i < s.len() - 1 {
                assert(r[i] == previous[i]);
                assert(s.drop_last()[i] == s[i]);
            } else {
                assert(r[i] == (s[i].0, let_bound(state1.name(), s[i].1)));
                assert(binding_name(let_bound(state1.name(), s[i].1)) == state1.name());
            }
        }
    }
}

/// A let-bound variable whose bound expression satisfies the predicate at all
/// nodes satisfies it at all nodes too.
proof fn lemma_let_bound_all_nodes(name: Seq<char>, e: ExprV)
    requires
        e.all_nodes(|x: ExprV| arguments_bound(x)),
    ensures
        let_bound(name, e).all_nodes(|x: ExprV| arguments_bound(x)),
        let_bound_variable(let_bound(name, e)),
{
    let p = |x: ExprV| arguments_bound(x);
    let d = DefinitionV::Value { name, body: e, type_: TypeV::Unknown };
    let ds = seq![d];
    assert(ds.drop_last() =~= Seq::<DefinitionV>::empty());
    assert(all_nodes_definitions(ds.drop_last(), p));
    assert(ds.last() == d);
    assert(all_nodes_definitions(ds, p));
    assert(ExprV::Variable { name }.all_nodes(p));
}

/// After the transformation, the argument of every application and every
/// element of every record construction is a let-bound variable.
pub proof fn lemma_function_arguments_bound(g: NameGeneratorV, m: ModuleV)
    ensures
        all_nodes_definitions(
            convert_module_spec::<FunctionTypeArgumentTransformer>(g, m).1.definitions,
            |e: ExprV| arguments_bound(e),
        ),
{
    let p = |e: ExprV| arguments_bound(e);
    assert forall|c: NameGeneratorV, x: ExprV| children_all(x, p) implies (
    #[trigger] FunctionTypeArgumentTransformer::converted(c, x)).1.all_nodes(p) by {
        lemma_all_nodes_children(x, p);
        match x {
            ExprV::Application { function, argument } => {
                lemma_let_bound_all_nodes(c.name(), *argument);
            },
            ExprV::RecordConstruction { type_, elements } => {
                lemma_bind_record_elements(c, elements);
                let bound = bind_record_elements(c, elements).1;
                assert forall|i: int| 0 <= i < bound.len() implies (#[trigger] bound[i]).1.all_nodes(p)
                    && let_bound_variable(bound[i].1) by {
                    let name = binding_name(bound[i].1);
                    lemma_all_nodes_record_elements(elements, p, i);
                    lemma_let_bound_all_nodes(name, elements[i].1);
                }
                lemma_all_nodes_record_elements_from_each(bound, p);
                let y = ExprV::RecordConstruction { type_, elements: bound };
                assert(p(y));
            },
            _ => {},
        }
    }
    lemma_convert_module_all_nodes::<FunctionTypeArgumentTransformer>(g, m, p);
}

} // verus!
