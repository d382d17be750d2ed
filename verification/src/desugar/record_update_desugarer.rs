//! Desugaring of record updates into record constructions.
use crate::ast::{
    all_nodes_definitions, all_nodes_record_elements, group_ast_view, view_definitions, view_definitions_rec, view_record_elements,
    view_record_elements_rec, Definition, DefinitionV, ExprV, Expression, ValueDefinition,
};
use crate::convert::{
    children_all, condition_held_before, convert_module, convert_module_spec,
    lemma_all_nodes_children, lemma_all_nodes_record_elements_from_each,
    lemma_convert_module_all_nodes_when, lemma_convert_module_identity, ExpressionConverter,
};
use crate::error::{CompileError, ErrorV};
use crate::module::{Module, ModuleV};
use crate::names::{str_equal, NameGenerator, NameGeneratorV};
use crate::reference_type_resolver::{
    module_type_environment, resolve, ReferenceTypeResolver,
};
use crate::types::{group_type_view, view_named_types, view_named_types_rec, Type, TypeV};
use vstd::prelude::*;

verus! {

/// The expression of the first element with the given key.
pub open spec fn lookup_element(elements: Seq<(Seq<char>, ExprV)>, key: Seq<char>) -> Option<ExprV>
    decreases elements.len(),
{
    if elements.len() == 0 {
        None
    } else if elements[0].0 == key {
        Some(elements[0].1)
    } else {
        lookup_element(elements.drop_first(), key)
    }
}

/// Whether a record type has an element with the given key.
pub open spec fn has_key(record_elements: Seq<(Seq<char>, TypeV)>, key: Seq<char>) -> bool {
    exists|i: int| 0 <= i < record_elements.len() && (#[trigger] record_elements[i]).0 == key
}

/// The elements of the record in the order of the record type: an updated
/// element gets its new expression, the others the value of the record's
/// getter function, `Name.key`, applied to the variable `argument`.
pub open spec fn updated_elements(
    record_elements: Seq<(Seq<char>, TypeV)>,
    updates: Seq<(Seq<char>, ExprV)>,
    reference: Seq<char>,
    argument: Seq<char>,
) -> Seq<(Seq<char>, ExprV)>
    decreases record_elements.len(),
{
    if record_elements.len() == 0 {
        Seq::empty()
    } else {
        let key = record_elements.last().0;
        updated_elements(record_elements.drop_last(), updates, reference, argument).push(
            (
                key,
                match lookup_element(updates, key) {
                    Some(x) => x,
                    None => ExprV::Application {
                        function: Box::new(ExprV::Variable { name: reference + "."@ + key }),
                        argument: Box::new(ExprV::Variable { name: argument }),
                    },
                },
            ),
        )
    }
}

/// The updates whose keys the record type does not have, in order.
pub open spec fn extra_updates(
    updates: Seq<(Seq<char>, ExprV)>,
    record_elements: Seq<(Seq<char>, TypeV)>,
) -> Seq<(Seq<char>, ExprV)>
    decreases updates.len(),
{
    if updates.len() == 0 {
        Seq::empty()
    } else {
        let previous = extra_updates(updates.drop_last(), record_elements);
        if has_key(record_elements, updates.last().0) {
            previous
        } else {
            previous.push(updates.last())
        }
    }
}

/// The state of the desugaring: the generator of argument names, the types
/// that references resolve to, the first error, and whether every record
/// update so far named a record type.
pub type RecordUpdateState = (NameGeneratorV, Map<Seq<char>, TypeV>, Option<ErrorV>, bool);

/// A record update `Name{...argument, key: value}` becomes a let expression
/// that binds `argument` to a generated name and constructs the record from
/// the updated elements and the other elements of the bound record. After an
/// error or a record update of another type, expressions are kept.
pub open spec fn desugar_record_update(state: RecordUpdateState, e: ExprV) -> (
    RecordUpdateState,
    ExprV,
) {
    let (g, env, error, ok) = state;
    if error is Some || !ok {
        (state, e)
    } else {
        match e {
            ExprV::RecordUpdate { reference, argument, elements } => match resolve(
                env,
                TypeV::Reference { name: reference },
            ) {
                Err(x) => ((g, env, Some(x), ok), e),
                Ok(TypeV::Record { elements: record_elements, .. }) => {
                    let record_type = TypeV::Reference { name: reference };
                    (
                        (g.next(), env, error, ok),
                        ExprV::Let {
                            definitions: seq![
                                DefinitionV::Value {
                                    name: g.name(),
                                    body: *argument,
                                    type_: record_type,
                                },
                            ],
                            expression: Box::new(
                                ExprV::RecordConstruction {
                                    type_: record_type,
                                    elements: updated_elements(
                                        record_elements,
                                        elements,
                                        reference,
                                        g.name(),
                                    ) + extra_updates(elements, record_elements),
                                },
                            ),
                        },
                    )
                },
                Ok(_) => ((g, env, error, false), e),
            },
            _ => (state, e),
        }
    }
}

/// The converter that desugars record updates.
pub struct RecordUpdateConverter {
    names: NameGenerator,
    resolver: ReferenceTypeResolver,
    error: Option<CompileError>,
    ok: bool,
}

impl View for RecordUpdateConverter {
    type V = RecordUpdateState;

    closed spec fn view(&self) -> RecordUpdateState {
        (
            self.names@,
            self.resolver.environment(),
            match self.error {
                Some(e) => Some(e@),
                None => None,
            },
            self.ok,
        )
    }
}

fn lookup_element_exec(elements: &Vec<(String, Expression)>, key: &str) -> (r: Option<usize>)
    ensures
        match r {
            Some(i) => i < elements@.len() && lookup_element(view_record_elements(elements@), key@)
                == Some(elements@[i as int].1@),
            None => lookup_element(view_record_elements(elements@), key@) is None,
        },
{
    let ghost s = view_record_elements(elements@);
    let mut i: usize = 0;
    assert(s.skip(0) =~= s);
    while i < elements.len()
        invariant
            i <= elements@.len(),
            s == view_record_elements(elements@),
            lookup_element(s, key@) == lookup_element(s.skip(i as int), key@),
        decreases elements.len() - i,
    {
        if str_equal(elements[i].0.as_str(), key) {
            assert(s.skip(i as int)[0] == s[i as int]);
            return Some(i);
        }
        assert(s.skip(i as int).drop_first() =~= s.skip(i + 1));
        i += 1;
    }
    assert(s.skip(i as int) =~= Seq::<(Seq<char>, ExprV)>::empty());
    None
}

fn has_key_exec(record_elements: &Vec<(String, Type)>, key: &str) -> (r: bool)
    ensures
        r == has_key(view_named_types(record_elements@), key@),
{
    let ghost s = view_named_types(record_elements@);
    let mut i: usize = 0;
    while i < record_elements.len()
        invariant
            i <= record_elements@.len(),
            s == view_named_types(record_elements@),
            forall|j: int| 0 <= j < i ==> (#[trigger] s[j]).0 != key@,
        decreases record_elements.len() - i,
    {
        if str_equal(record_elements[i].0.as_str(), key) {
            assert(s[i as int].0 == key@);
            return true;
        }
        i += 1;
    }
    false
}

/// The record construction's elements as [`updated_elements`] and
/// [`extra_updates`] say.
fn record_elements_after_update(
    record_elements: &Vec<(String, Type)>,
    updates: &Vec<(String, Expression)>,
    reference: &String,
    argument: &String,
) -> (r: Vec<(String, Expression)>)
    ensures
        view_record_elements(r@) == updated_elements(
            view_named_types(record_elements@),
            view_record_elements(updates@),
            reference@,
            argument@,
        ) + extra_updates(view_record_elements(updates@), view_named_types(record_elements@)),
{
    let ghost rs = view_named_types(record_elements@);
    let ghost us = view_record_elements(updates@);
    let mut r: Vec<(String, Expression)> = Vec::new();
    let mut i: usize = 0;
    while i < record_elements.len()
        invariant
            i <= record_elements@.len(),
            rs == view_named_types(record_elements@),
            us == view_record_elements(updates@),
            view_record_elements(r@) == updated_elements(rs.take(i as int), us, reference@, argument@),
        decreases record_elements.len() - i,
    {
        let key = &record_elements[i].0;
        let value = match lookup_element_exec(updates, key.as_str()) {
            Some(j) => updates[j].1.deep_clone(),
            None => {
                let getter = Expression::Variable { name: reference.clone().concat(".").concat(key.as_str()) };
                let variable = Expression::Variable { name: argument.clone() };
                assert(getter@ == ExprV::Variable { name: reference@ + "."@ + key@ });
                assert(variable@ == ExprV::Variable { name: argument@ });
                Expression::Application { function: Box::new(getter), argument: Box::new(variable) }
            },
        };
        let ghost before = view_record_elements(r@);
        r.push((key.clone(), value));
        assert(rs.take(i + 1).drop_last() =~= rs.take(i as int));
        assert(view_record_elements(r@) =~= before.push(view_record_elements(r@).last()));
        i += 1;
    }
    assert(rs.take(i as int) =~= rs);
    let ghost updated = view_record_elements(r@);
    let mut j: usize = 0;
    while j < updates.len()
        invariant
            j <= updates@.len(),
            rs == view_named_types(record_elements@),
            us == view_record_elements(updates@),
            view_record_elements(r@) == updated + extra_updates(us.take(j as int), rs),
        decreases updates.len() - j,
    {
        assert(us.take(j + 1).drop_last() =~= us.take(j as int));
        if !has_key_exec(record_elements, updates[j].0.as_str()) {
            let ghost before = view_record_elements(r@);
            r.push((updates[j].0.clone(), updates[j].1.deep_clone()));
            assert(view_record_elements(r@) =~= before.push(us[j as int]));
            assert(updated + extra_updates(us.take(j + 1), rs) =~= (updated + extra_updates(
                us.take(j as int),
                rs,
            )).push(us[j as int]));
        }
        j += 1;
    }
    assert(us.take(j as int) =~= us);
    r
}

impl ExpressionConverter for RecordUpdateConverter {
    closed spec fn well_formed(&self) -> bool {
        true
    }

    open spec fn converted(state: RecordUpdateState, e: ExprV) -> (RecordUpdateState, ExprV) {
        desugar_record_update(state, e)
    }

    fn convert(&mut self, e: Expression) -> (r: Expression) {
        broadcast use group_ast_view, group_type_view;

        if self.error.is_some() || !self.ok {
            return e;
        }
        match e {
            Expression::RecordUpdate { reference, argument, elements } => {
                let ghost ev = Expression::RecordUpdate { reference, argument, elements }@;
                match self.resolver.resolve_reference(reference.as_str()) {
                    Err(x) => {
                        self.error = Some(x);
                        Expression::RecordUpdate { reference, argument, elements }
                    },
                    Ok(resolved) => match &resolved {
                        Type::Record { elements: record_elements, .. } => {
                            let ghost a = (*argument)@;
                            let name = self.names.generate();
                            let record_type = Type::Reference { name: reference.clone() };
                            let definition = Definition::ValueDefinition(
                                ValueDefinition {
                                    name: name.clone(),
                                    body: *argument,
                                    type_: record_type.deep_clone(),
                                },
                            );
                            let ghost dv = definition@;
                            assert(dv == DefinitionV::Value {
                                name: name@,
                                body: a,
                                type_: TypeV::Reference { name: reference@ },
                            });
                            let mut definitions: Vec<Definition> = Vec::new();
                            definitions.push(definition);
                            assert(view_definitions(definitions@) =~= seq![dv]);
                            assert(view_definitions_rec(definitions@) == view_definitions(definitions@));
                            assert(view_record_elements_rec(elements@) == view_record_elements(elements@));
                            assert(view_named_types_rec(record_elements@) == view_named_types(record_elements@));
                            let constructed = record_elements_after_update(
                                record_elements,
                                &elements,
                                &reference,
                                &name,
                            );
                            assert(view_record_elements_rec(constructed@) == view_record_elements(constructed@));
                            let construction = Expression::RecordConstruction {
                                type_: record_type,
                                elements: constructed,
                            };
                            assert(construction@ == ExprV::RecordConstruction {
                                type_: TypeV::Reference { name: reference@ },
                                elements: view_record_elements(constructed@),
                            });
                            let r = Expression::Let { definitions, expression: Box::new(construction) };
                            assert(r@ == desugar_record_update(old(self)@, ev).1);
                            assert(self@ == desugar_record_update(old(self)@, ev).0);
                            r
                        },
                        _ => {
                            self.ok = false;
                            Expression::RecordUpdate { reference, argument, elements }
                        },
                    },
                }
            },
            _ => e,
        }
    }
}

/// The result of desugaring a module's record updates, from a state with the
/// given generator and the types the module sees: the state after it and the
/// module.
pub open spec fn desugar_record_updates(g: NameGeneratorV, m: ModuleV) -> (RecordUpdateState, ModuleV) {
    convert_module_spec::<RecordUpdateConverter>((g, module_type_environment(m), None, true), m)
}

/// A module without record updates comes back unchanged from the desugaring,
/// with no error, no name drawn and nothing refused.
pub proof fn lemma_desugar_record_updates_identity(g: NameGeneratorV, m: ModuleV)
    requires
        all_nodes_definitions(m.definitions, |e: ExprV| not_record_update(e)),
    ensures
        desugar_record_updates(g, m) == ((g, module_type_environment(m), None::<ErrorV>, true), m),
{
    let p = |e: ExprV| not_record_update(e);
    assert forall|c: RecordUpdateState, x: ExprV| p(x) implies #[trigger] RecordUpdateConverter::converted(c, x) == (c, x) by {}
    lemma_convert_module_identity::<RecordUpdateConverter>(
        (g, module_type_environment(m), None, true),
        m,
        p,
    );
}

/// Desugars record updates into record constructions.
pub struct RecordUpdateDesugarer {
    name_generator: NameGenerator,
}

impl RecordUpdateDesugarer {
    /// The generator of the names of the bound records.
    pub closed spec fn names(&self) -> NameGeneratorV {
        self.name_generator@
    }

    pub fn new() -> (r: Self)
        ensures
            r.names() == (NameGeneratorV { prefix: "record_update_argument_"@, index: 0 }),
    {
        RecordUpdateDesugarer { name_generator: NameGenerator::new("record_update_argument_") }
    }

    /// Desugars every record update of the module as [`desugar_record_update`]
    /// says: the first error that resolving a record type gives, or the module.
    /// Every record update must name a record type.
    pub fn desugar(&mut self, module: &Module) -> (r: Result<Module, CompileError>)
        requires
            desugar_record_updates(old(self).names(), module@).0.3,
        ensures
            ({
                let (state, m) = desugar_record_updates(old(self).names(), module@);
                &&& final(self).names() == state.0
                &&& match state.2 {
                    Some(x) => r matches Err(y) && y@ == x,
                    None => r matches Ok(y) && y@ == m,
                }
            }),
    {
        let mut names = NameGenerator::new("");
        std::mem::swap(&mut names, &mut self.name_generator);
        let mut converter = RecordUpdateConverter {
            names,
            resolver: ReferenceTypeResolver::new(module),
            error: None,
            ok: true,
        };
        let m = convert_module(&mut converter, module);
        self.name_generator = converter.names;
        match converter.error {
            Some(x) => Err(x),
            None => Ok(m),
        }
    }
}


/// Whether the expression is not a record update.
pub open spec fn not_record_update(e: ExprV) -> bool {
    !(e is RecordUpdate)
}

/// Whether desugaring went through: no error and every record update named a
/// record type.
pub open spec fn desugaring_succeeded(state: RecordUpdateState) -> bool {
    state.2 is None && state.3
}

/// An element that a lookup finds is one of the elements.
proof fn lemma_lookup_element_found(elements: Seq<(Seq<char>, ExprV)>, key: Seq<char>)
    ensures
        lookup_element(elements, key) matches Some(x) ==> exists|i: int|
            0 <= i < elements.len() && (#[trigger] elements[i]).1 == x,
    decreases elements.len(),
{
    if elements.len() > 0 && elements[0].0 != key {
        lemma_lookup_element_found(elements.drop_first(), key);
        if let Some(x) = lookup_element(elements, key) {
            let i = choose|i: int|
                0 <= i < elements.drop_first().len() && (#[trigger] elements.drop_first()[i]).1
                    == x;
            assert(elements[i + 1] == elements.drop_first()[i]);
        }
    }
}

/// The elements of an updated record are updates or applications of getters.
proof fn lemma_updated_elements_all_nodes(
    record_elements: Seq<(Seq<char>, TypeV)>,
    updates: Seq<(Seq<char>, ExprV)>,
    reference: Seq<char>,
    argument: Seq<char>,
)
    requires
        all_nodes_record_elements(updates, |e: ExprV| not_record_update(e)),
    ensures
        all_nodes_record_elements(
            updated_elements(record_elements, updates, reference, argument),
            |e: ExprV| not_record_update(e),
        ),
    decreases record_elements.len(),
{
    let p = |e: ExprV| not_record_update(e);
    if record_elements.len() > 0 {
        lemma_updated_elements_all_nodes(record_elements.drop_last(), updates, reference, argument);
        let key = record_elements.last().0;
        lemma_lookup_element_found(updates, key);
        if let Some(x) = lookup_element(updates, key) {
            let i = choose|i: int| 0 <= i < updates.len() && (#[trigger] updates[i]).1 == x;
            crate::ast::lemma_all_nodes_record_elements(updates, p, i);
        } else {
            let f = ExprV::Variable { name: reference + "."@ + key };
            let a = ExprV::Variable { name: argument };
            assert(f.all_nodes(p));
            assert(a.all_nodes(p));
            assert(ExprV::Application { function: Box::new(f), argument: Box::new(a) }.all_nodes(p));
        }
        let r = updated_elements(record_elements, updates, reference, argument);
        assert(r.drop_last() =~= updated_elements(
            record_elements.drop_last(),
            updates,
            reference,
            argument,
        ));
    }
}

/// The extra updates are some of the updates.
proof fn lemma_extra_updates_all_nodes(
    updates: Seq<(Seq<char>, ExprV)>,
    record_elements: Seq<(Seq<char>, TypeV)>,
)
    requires
        all_nodes_record_elements(updates, |e: ExprV| not_record_update(e)),
    ensures
        all_nodes_record_elements(
            extra_updates(updates, record_elements),
            |e: ExprV| not_record_update(e),
        ),
    decreases updates.len(),
{
    if updates.len() > 0 {
        lemma_extra_updates_all_nodes(updates.drop_last(), record_elements);
        let r = extra_updates(updates, record_elements);
        if !has_key(record_elements, updates.last().0) {
            assert(r.drop_last() =~= extra_updates(updates.drop_last(), record_elements));
        }
    }
}

proof fn lemma_all_nodes_record_elements_concat(
    a: Seq<(Seq<char>, ExprV)>,
    b: Seq<(Seq<char>, ExprV)>,
    p: spec_fn(ExprV) -> bool,
)
    requires
        all_nodes_record_elements(a, p),
        all_nodes_record_elements(b, p),
    ensures
        all_nodes_record_elements(a + b, p),
{
    assert forall|i: int| 0 <= i < (a + b).len() implies (#[trigger] (a + b)[i]).1.all_nodes(p) by {
        if i < a.len() {
            crate::ast::lemma_all_nodes_record_elements(a, p, i);
        } else {
            crate::ast::lemma_all_nodes_record_elements(b, p, i - a.len());
        }
    }
    lemma_all_nodes_record_elements_from_each(a + b, p);
}

/// When desugaring goes through, no record update is left in any definition.
pub proof fn lemma_record_updates_desugared(g: NameGeneratorV, m: ModuleV)
    ensures
        desugaring_succeeded(desugar_record_updates(g, m).0) ==> all_nodes_definitions(
            desugar_record_updates(g, m).1.definitions,
            |e: ExprV| not_record_update(e),
        ),
{
    let p = |e: ExprV| not_record_update(e);
    let q = |s: RecordUpdateState| desugaring_succeeded(s);
    assert forall|c: RecordUpdateState, x: ExprV|
        q((#[trigger] RecordUpdateConverter::converted(c, x)).0) implies q(c) by {}
    assert(condition_held_before::<RecordUpdateConverter>(q));
    assert forall|c: RecordUpdateState, x: ExprV|
        children_all(x, p) && q((#[trigger] RecordUpdateConverter::converted(c, x)).0) implies RecordUpdateConverter::converted(
        c,
        x,
    ).1.all_nodes(p) by {
        lemma_all_nodes_children(x, p);
        if let ExprV::RecordUpdate { reference, argument, elements } = x {
            let (g1, env, error, ok) = c;
            if let Ok(TypeV::Record { elements: record_elements, .. }) = resolve(
                env,
                TypeV::Reference { name: reference },
            ) {
                lemma_updated_elements_all_nodes(record_elements, elements, reference, g1.name());
                lemma_extra_updates_all_nodes(elements, record_elements);
                lemma_all_nodes_record_elements_concat(
                    updated_elements(record_elements, elements, reference, g1.name()),
                    extra_updates(elements, record_elements),
                    p,
                );
                let d = DefinitionV::Value {
                    name: g1.name(),
                    body: *argument,
                    type_: TypeV::Reference { name: reference },
                };
                let ds = seq![d];
                assert(ds.drop_last() =~= Seq::<DefinitionV>::empty());
                assert(all_nodes_definitions(ds.drop_last(), p));
                assert(ds.last() == d);
                assert((*argument).all_nodes(p));
                assert(all_nodes_definitions(ds, p));
                let record_type = TypeV::Reference { name: reference };
                let construction = ExprV::RecordConstruction {
                    type_: record_type,
                    elements: updated_elements(record_elements, elements, reference, g1.name())
                        + extra_updates(elements, record_elements),
                };
                assert(construction.all_nodes(p));
                let y = ExprV::Let { definitions: ds, expression: Box::new(construction) };
                assert(y.all_nodes(p));
                if error is None && ok {
                    assert(RecordUpdateConverter::converted(c, x).1 == y);
                }
            }
        }
    }
    lemma_convert_module_all_nodes_when::<RecordUpdateConverter>(
        (g, module_type_environment(m), None, true),
        m,
        p,
        q,
    );
}

} // verus!
