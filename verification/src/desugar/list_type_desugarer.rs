//! Desugaring of list types into references to the configured list type.
use crate::ast::{
    all_nodes_alternatives, all_nodes_definitions, group_ast_view, view_alternatives, view_definitions, Alternative,
    AlternativeV, Definition, DefinitionV, ExprV, Expression,
};
use crate::configuration::{ListLiteralConfiguration, ListLiteralNames};
use crate::convert::{
    children_all, convert_module, convert_module_spec, converter_establishes,
    lemma_all_nodes_children, lemma_convert_module_all_nodes, lemma_convert_module_keeps_state,
    ExpressionConverter,
};
use crate::error::CompileError;
use crate::module::{view_type_definitions, Module, ModuleV, TypeDefinition};
use crate::types::{
    group_type_view, view_named_types, view_named_types_rec, view_types, view_types_rec, Type,
    TypeV,
};
use vstd::prelude::*;

verus! {

/// The type with every list type in it, however deep, replaced by a
/// reference to the type named `name`.
pub open spec fn list_types_desugared(t: TypeV, name: Seq<char>) -> TypeV
    decreases t,
{
    match t {
        TypeV::Function { argument, result } => TypeV::Function {
            argument: Box::new(list_types_desugared(*argument, name)),
            result: Box::new(list_types_desugared(*result, name)),
        },
        TypeV::List { .. } => TypeV::Reference { name },
        TypeV::Record { name: record_name, elements } => TypeV::Record {
            name: record_name,
            elements: list_types_desugared_named(elements, name),
        },
        TypeV::Union { types } => TypeV::Union { types: list_types_desugared_seq(types, name) },
        _ => t,
    }
}

/// [`list_types_desugared`] on each type of a sequence.
pub open spec fn list_types_desugared_seq(s: Seq<TypeV>, name: Seq<char>) -> Seq<TypeV>
    decreases s,
{
    if s.len() == 0 {
        Seq::empty()
    } else {
        list_types_desugared_seq(s.drop_last(), name).push(list_types_desugared(s.last(), name))
    }
}

/// [`list_types_desugared`] on each type of a sequence of named types.
pub open spec fn list_types_desugared_named(s: Seq<(Seq<char>, TypeV)>, name: Seq<char>) -> Seq<
    (Seq<char>, TypeV),
>
    decreases s,
{
    if s.len() == 0 {
        Seq::empty()
    } else {
        list_types_desugared_named(s.drop_last(), name).push(
            (s.last().0, list_types_desugared(s.last().1, name)),
        )
    }
}

/// Whether no list type occurs in the type.
pub open spec fn list_free(t: TypeV) -> bool
    decreases t,
{
    match t {
        TypeV::Function { argument, result } => list_free(*argument) && list_free(*result),
        TypeV::List { .. } => false,
        TypeV::Record { elements, .. } => list_free_named(elements),
        TypeV::Union { types } => list_free_seq(types),
        _ => true,
    }
}

pub open spec fn list_free_seq(s: Seq<TypeV>) -> bool
    decreases s,
{
    s.len() == 0 || (list_free_seq(s.drop_last()) && list_free(s.last()))
}

pub open spec fn list_free_named(s: Seq<(Seq<char>, TypeV)>) -> bool
    decreases s,
{
    s.len() == 0 || (list_free_named(s.drop_last()) && list_free(s.last().1))
}

proof fn lemma_list_types_desugared_seq(s: Seq<TypeV>, name: Seq<char>)
    ensures
        list_types_desugared_seq(s, name) =~= Seq::new(
            s.len(),
            |i: int| list_types_desugared(s[i], name),
        ),
    decreases s.len(),
{
    if s.len() > 0 {
        lemma_list_types_desugared_seq(s.drop_last(), name);
        assert forall|i: int| 0 <= i < s.len() - 1 implies s.drop_last()[i] == s[i] by {}
    }
}

proof fn lemma_list_types_desugared_named(s: Seq<(Seq<char>, TypeV)>, name: Seq<char>)
    ensures
        list_types_desugared_named(s, name) =~= Seq::new(
            s.len(),
            |i: int| (s[i].0, list_types_desugared(s[i].1, name)),
        ),
    decreases s.len(),
{
    if s.len() > 0 {
        lemma_list_types_desugared_named(s.drop_last(), name);
        assert forall|i: int| 0 <= i < s.len() - 1 implies s.drop_last()[i] == s[i] by {}
    }
}

/// No list type is left in a desugared type.
pub proof fn lemma_list_types_desugared_list_free(t: TypeV, name: Seq<char>)
    ensures
        list_free(list_types_desugared(t, name)),
    decreases t,
{
    match t {
        TypeV::Function { argument, result } => {
            lemma_list_types_desugared_list_free(*argument, name);
            lemma_list_types_desugared_list_free(*result, name);
        },
        TypeV::Record { elements, .. } => {
            lemma_list_types_desugared_named_list_free(elements, name);
        },
        TypeV::Union { types } => {
            lemma_list_types_desugared_seq_list_free(types, name);
        },
        _ => {},
    }
}

proof fn lemma_list_types_desugared_seq_list_free(s: Seq<TypeV>, name: Seq<char>)
    ensures
        list_free_seq(list_types_desugared_seq(s, name)),
    decreases s,
{
    if s.len() > 0 {
        lemma_list_types_desugared_seq_list_free(s.drop_last(), name);
        lemma_list_types_desugared_list_free(s.last(), name);
        let r = list_types_desugared_seq(s, name);
        assert(r.drop_last() =~= list_types_desugared_seq(s.drop_last(), name));
    }
}

proof fn lemma_list_types_desugared_named_list_free(s: Seq<(Seq<char>, TypeV)>, name: Seq<char>)
    ensures
        list_free_named(list_types_desugared_named(s, name)),
    decreases s,
{
    if s.len() > 0 {
        lemma_list_types_desugared_named_list_free(s.drop_last(), name);
        lemma_list_types_desugared_list_free(s.last().1, name);
        let r = list_types_desugared_named(s, name);
        assert(r.drop_last() =~= list_types_desugared_named(s.drop_last(), name));
    }
}

/// The type with its list types replaced by references to `name`.
#[verifier::loop_isolation(false)]
pub fn desugar_list_types(t: &Type, name: &String) -> (r: Type)
    ensures
        r@ == list_types_desugared(t@, name@),
    decreases t,
{
    broadcast use group_type_view;

    match t {
        Type::Function { argument, result } => Type::Function {
            argument: Box::new(desugar_list_types(argument, name)),
            result: Box::new(desugar_list_types(result, name)),
        },
        Type::List { .. } => Type::Reference { name: name.clone() },
        Type::Record { name: record_name, elements } => {
            let mut r: Vec<(String, Type)> = Vec::new();
            let mut i: usize = 0;
            while i < elements.len()
                invariant
                    i <= elements@.len(),
                    r@.len() == i,
                    forall|j: int|
                        0 <= j < i ==> #[trigger] r@[j].0@ == elements@[j].0@ && r@[j].1@
                            == list_types_desugared(elements@[j].1@, name@),
                decreases elements.len() - i,
            {
                assert(decreases_to!(t => elements));
                assert(decreases_to!(elements => elements@[i as int].1));
                let x = desugar_list_types(&elements[i].1, name);
                r.push((elements[i].0.clone(), x));
                i += 1;
            }
            proof {
                lemma_list_types_desugared_named(view_named_types(elements@), name@);
                assert(view_named_types_rec(r@) == view_named_types(r@));
                assert(view_named_types_rec(elements@) == view_named_types(elements@));
                assert(view_named_types(r@) =~= list_types_desugared_named(
                    view_named_types(elements@),
                    name@,
                ));
            }
            Type::Record { name: record_name.clone(), elements: r }
        },
        Type::Union { types } => {
            let mut r: Vec<Type> = Vec::new();
            let mut i: usize = 0;
            while i < types.len()
                invariant
                    i <= types@.len(),
                    r@.len() == i,
                    forall|j: int|
                        0 <= j < i ==> #[trigger] r@[j]@ == list_types_desugared(
                            types@[j]@,
                            name@,
                        ),
                decreases types.len() - i,
            {
                assert(decreases_to!(t => types));
                assert(decreases_to!(types => types@[i as int]));
                let x = desugar_list_types(&types[i], name);
                r.push(x);
                i += 1;
            }
            proof {
                lemma_list_types_desugared_seq(view_types(types@), name@);
                assert(view_types_rec(r@) == view_types(r@));
                assert(view_types_rec(types@) == view_types(types@));
                assert(view_types(r@) =~= list_types_desugared_seq(view_types(types@), name@));
            }
            Type::Union { types: r }
        },
        _ => t.deep_clone(),
    }
}

/// The expression node with the list types of the types it carries itself
/// desugared: those of case expressions and their alternatives, of let
/// definitions, operations, record constructions, record element operations
/// and type coercions. Inner expressions are kept.
pub open spec fn node_list_types_desugared(e: ExprV, name: Seq<char>) -> ExprV {
    match e {
        ExprV::Case { type_, name: variable, argument, alternatives } => ExprV::Case {
            type_: list_types_desugared(type_, name),
            name: variable,
            argument,
            alternatives: alternatives.map_values(
                |a: AlternativeV|
                    AlternativeV {
                        type_: list_types_desugared(a.type_, name),
                        expression: a.expression,
                    },
            ),
        },
        ExprV::Let { definitions, expression } => ExprV::Let {
            definitions: definitions.map_values(
                |d: DefinitionV| d.with_type(list_types_desugared(d.type_(), name)),
            ),
            expression,
        },
        ExprV::Operation { type_, operator, lhs, rhs } => ExprV::Operation {
            type_: list_types_desugared(type_, name),
            operator,
            lhs,
            rhs,
        },
        ExprV::RecordConstruction { type_, elements } => ExprV::RecordConstruction {
            type_: list_types_desugared(type_, name),
            elements,
        },
        ExprV::RecordElementOperation { type_, key, argument } => ExprV::RecordElementOperation {
            type_: list_types_desugared(type_, name),
            key,
            argument,
        },
        ExprV::TypeCoercion { argument, from, to } => ExprV::TypeCoercion {
            argument,
            from: list_types_desugared(from, name),
            to: list_types_desugared(to, name),
        },
        _ => e,
    }
}

/// Whether no list type occurs among the types that the node carries itself.
pub open spec fn node_list_free(e: ExprV) -> bool {
    match e {
        ExprV::Case { type_, alternatives, .. } => list_free(type_) && forall|i: int|
            0 <= i < alternatives.len() ==> list_free(#[trigger] alternatives[i].type_),
        ExprV::Let { definitions, .. } => forall|i: int|
            0 <= i < definitions.len() ==> list_free(#[trigger] definitions[i].type_()),
        ExprV::Operation { type_, .. } => list_free(type_),
        ExprV::RecordConstruction { type_, .. } => list_free(type_),
        ExprV::RecordElementOperation { type_, .. } => list_free(type_),
        ExprV::TypeCoercion { from, to, .. } => list_free(from) && list_free(to),
        _ => true,
    }
}

/// Desugars list types into references to the list type of a configuration.
pub struct ListTypeDesugarer {
    configuration: ListLiteralConfiguration,
}

impl View for ListTypeDesugarer {
    type V = ListLiteralNames;

    closed spec fn view(&self) -> ListLiteralNames {
        self.configuration@
    }
}

impl ExpressionConverter for ListTypeDesugarer {
    open spec fn well_formed(&self) -> bool {
        true
    }

    open spec fn converted(state: ListLiteralNames, e: ExprV) -> (ListLiteralNames, ExprV) {
        (state, node_list_types_desugared(e, state.list_type_name))
    }

    fn convert(&mut self, e: Expression) -> (r: Expression) {
        let name = self.configuration.list_type_name().to_string();
        desugar_node_list_types(e, &name)
    }
}

/// Desugars the types that a case expression carries itself.
fn desugar_case_list_types(
    type_: Type,
    variable: String,
    argument: Box<Expression>,
    alternatives: Vec<Alternative>,
    name: &String,
) -> (r: Expression)
    ensures
        r@ == node_list_types_desugared(
            ExprV::Case {
                type_: type_@,
                name: variable@,
                argument: Box::new((*argument)@),
                alternatives: view_alternatives(alternatives@),
            },
            name@,
        ),
{
    broadcast use group_ast_view;

    let ghost s = view_alternatives(alternatives@);
    let mut converted: Vec<Alternative> = Vec::new();
    let mut i: usize = 0;
    while i < alternatives.len()
        invariant
            i <= alternatives@.len(),
            s == view_alternatives(alternatives@),
            converted@.len() == i,
            forall|j: int|
                0 <= j < i ==> (#[trigger] converted@[j])@ == (AlternativeV {
                    type_: list_types_desugared(s[j].type_, name@),
                    expression: s[j].expression,
                }),
        decreases alternatives.len() - i,
    {
        converted.push(
            Alternative {
                type_: desugar_list_types(&alternatives[i].type_, name),
                expression: alternatives[i].expression.deep_clone(),
            },
        );
        i += 1;
    }
    let ghost expected = s.map_values(
        |a: AlternativeV|
            AlternativeV { type_: list_types_desugared(a.type_, name@), expression: a.expression },
    );
    assert(view_alternatives(converted@) =~= expected);
    assert(crate::ast::view_alternatives_rec(converted@) == view_alternatives(converted@));
    Expression::Case {
        type_: desugar_list_types(&type_, name),
        name: variable,
        argument,
        alternatives: converted,
    }
}

/// Desugars the types that an expression node carries itself.
fn desugar_node_list_types(e: Expression, list_type: &String) -> (r: Expression)
    ensures
        r@ == node_list_types_desugared(e@, list_type@),
{
    broadcast use group_ast_view;

    match e {
        Expression::Case { type_, name: variable, argument, alternatives } => {
            assert(e@->Case_alternatives == crate::ast::view_alternatives_rec(alternatives@));
            desugar_case_list_types(type_, variable, argument, alternatives, list_type)
        },
        Expression::Let { definitions, expression } => {
            let ghost s = view_definitions(definitions@);
            let mut r: Vec<Definition> = Vec::new();
            let mut i: usize = 0;
            while i < definitions.len()
                invariant
                    i <= definitions@.len(),
                    s == view_definitions(definitions@),
                    r@.len() == i,
                    forall|j: int|
                        0 <= j < i ==> (#[trigger] r@[j])@ == s[j].with_type(
                            list_types_desugared(s[j].type_(), list_type@),
                        ),
                decreases definitions.len() - i,
            {
                let t = desugar_list_types(definitions[i].type_(), list_type);
                r.push(definitions[i].with_type(t));
                i += 1;
            }
            let ghost expected = s.map_values(
                |d: DefinitionV| d.with_type(list_types_desugared(d.type_(), list_type@)),
            );
            assert(view_definitions(r@) =~= expected);
            assert(e@->Let_definitions == crate::ast::view_definitions_rec(definitions@));
            assert(crate::ast::view_definitions_rec(r@) == view_definitions(r@));
            assert(e@->Let_expression == Box::new((*expression)@));
            let ghost xv = (*expression)@;
            let x = Expression::Let { definitions: r, expression };
            assert(x@ == ExprV::Let { definitions: expected, expression: Box::new(xv) });
            x
        },
        Expression::Operation { type_, operator, lhs, rhs } => Expression::Operation {
            type_: desugar_list_types(&type_, list_type),
            operator,
            lhs,
            rhs,
        },
        Expression::RecordConstruction { type_, elements } => Expression::RecordConstruction {
            type_: desugar_list_types(&type_, list_type),
            elements,
        },
        Expression::RecordElementOperation { type_, key, argument } =>
            Expression::RecordElementOperation {
                type_: desugar_list_types(&type_, list_type),
                key,
                argument,
            },
        Expression::TypeCoercion { argument, from, to } => Expression::TypeCoercion {
            argument,
            from: desugar_list_types(&from, list_type),
            to: desugar_list_types(&to, list_type),
        },
        _ => e,
    }
}

/// The module with every list type replaced by a reference to `name`: in
/// type definitions, in the types of definitions, and in all types that its
/// expressions carry. Paths, exports and imports are kept.
pub open spec fn module_list_types_desugared(m: ModuleV, names: ListLiteralNames) -> ModuleV {
    let converted = convert_module_spec::<ListTypeDesugarer>(names, m).1;
    ModuleV {
        type_definitions: m.type_definitions.map_values(
            |p: (Seq<char>, TypeV)| (p.0, list_types_desugared(p.1, names.list_type_name)),
        ),
        definitions: converted.definitions.map_values(
            |d: DefinitionV| d.with_type(list_types_desugared(d.type_(), names.list_type_name)),
        ),
        ..m
    }
}

impl ListTypeDesugarer {
    pub fn new(configuration: ListLiteralConfiguration) -> (r: Self)
        ensures
            r@ == configuration@,
    {
        ListTypeDesugarer { configuration }
    }

    /// Replaces every list type in the module by a reference to the list
    /// type of the configuration.
    pub fn desugar(&mut self, module: &Module) -> (r: Result<Module, CompileError>)
        ensures
            final(self)@ == old(self)@,
            r matches Ok(m) && m@ == module_list_types_desugared(module@, old(self)@),
    {
        let name = self.configuration.list_type_name().to_string();
        let converted = convert_module(self, module);
        let ghost m = module@;
        proof {
            lemma_convert_module_keeps_state::<ListTypeDesugarer>(old(self)@, m);
        }
        let mut type_definitions: Vec<TypeDefinition> = Vec::new();
        let mut i: usize = 0;
        while i < module.type_definitions.len()
            invariant
                i <= module.type_definitions@.len(),
                m == module@,
                type_definitions@.len() == i,
                forall|j: int|
                    0 <= j < i ==> (#[trigger] type_definitions@[j]).name@ == m.type_definitions[j].0
                        && type_definitions@[j].type_@ == list_types_desugared(
                        m.type_definitions[j].1,
                        name@,
                    ),
            decreases module.type_definitions.len() - i,
        {
            type_definitions.push(
                TypeDefinition {
                    name: module.type_definitions[i].name.clone(),
                    type_: desugar_list_types(&module.type_definitions[i].type_, &name),
                },
            );
            i += 1;
        }
        let ghost c = converted@;
        let mut definitions: Vec<Definition> = Vec::new();
        let mut i: usize = 0;
        while i < converted.definitions.len()
            invariant
                i <= converted.definitions@.len(),
                c == converted@,
                definitions@.len() == i,
                forall|j: int|
                    0 <= j < i ==> (#[trigger] definitions@[j])@ == c.definitions[j].with_type(
                        list_types_desugared(c.definitions[j].type_(), name@),
                    ),
            decreases converted.definitions.len() - i,
        {
            let t = desugar_list_types(converted.definitions[i].type_(), &name);
            definitions.push(converted.definitions[i].with_type(t));
            i += 1;
        }
        let r = Module {
            path: converted.path,
            export: converted.export,
            imports: converted.imports,
            ffi_imports: converted.ffi_imports,
            type_definitions,
            definitions,
        };
        assert(r@.type_definitions =~= module_list_types_desugared(m, self@).type_definitions);
        assert(r@.definitions =~= module_list_types_desugared(m, self@).definitions);
        Ok(r)
    }
}

/// Desugaring a node leaves no list type among the types it carries.
proof fn lemma_node_list_free(x: ExprV, name: Seq<char>)
    ensures
        node_list_free(node_list_types_desugared(x, name)),
{
    match x {
        ExprV::Case { type_, alternatives, .. } => {
            lemma_list_types_desugared_list_free(type_, name);
            assert forall|i: int| 0 <= i < alternatives.len() implies list_free(
                list_types_desugared(alternatives[i].type_, name),
            ) by {
                lemma_list_types_desugared_list_free(alternatives[i].type_, name);
            }
        },
        ExprV::Let { definitions, .. } => {
            assert forall|i: int| 0 <= i < definitions.len() implies list_free(
                definitions[i].with_type(list_types_desugared(definitions[i].type_(), name)).type_(),
            ) by {
                lemma_list_types_desugared_list_free(definitions[i].type_(), name);
                assert(definitions[i].with_type(list_types_desugared(definitions[i].type_(), name)).type_()
                    == list_types_desugared(definitions[i].type_(), name));
            }
        },
        ExprV::Operation { type_, .. } => lemma_list_types_desugared_list_free(type_, name),
        ExprV::RecordConstruction { type_, .. } => lemma_list_types_desugared_list_free(type_, name),
        ExprV::RecordElementOperation { type_, .. } => lemma_list_types_desugared_list_free(
            type_,
            name,
        ),
        ExprV::TypeCoercion { from, to, .. } => {
            lemma_list_types_desugared_list_free(from, name);
            lemma_list_types_desugared_list_free(to, name);
        },
        _ => {},
    }
}

proof fn lemma_alternatives_retyped(s: Seq<AlternativeV>, name: Seq<char>, p: spec_fn(ExprV) -> bool)
    ensures
        all_nodes_alternatives(
            s.map_values(
                |a: AlternativeV|
                    AlternativeV {
                        type_: list_types_desugared(a.type_, name),
                        expression: a.expression,
                    },
            ),
            p,
        ) == all_nodes_alternatives(s, p),
    decreases s.len(),
{
    if s.len() > 0 {
        lemma_alternatives_retyped(s.drop_last(), name, p);
        let g = |a: AlternativeV|
            AlternativeV { type_: list_types_desugared(a.type_, name), expression: a.expression };
        assert(s.map_values(g).drop_last() =~= s.drop_last().map_values(g));
    }
}

proof fn lemma_definitions_retyped(s: Seq<DefinitionV>, name: Seq<char>, p: spec_fn(ExprV) -> bool)
    ensures
        all_nodes_definitions(
            s.map_values(|d: DefinitionV| d.with_type(list_types_desugared(d.type_(), name))),
            p,
        ) == all_nodes_definitions(s, p),
    decreases s.len(),
{
    if s.len() > 0 {
        lemma_definitions_retyped(s.drop_last(), name, p);
        let g = |d: DefinitionV| d.with_type(list_types_desugared(d.type_(), name));
        assert(s.map_values(g).drop_last() =~= s.drop_last().map_values(g));
    }
}

/// After desugaring, no list type is left: not in type definitions, not in
/// the types of definitions, and not among the types that any expression
/// node of a definition carries.
pub proof fn lemma_list_types_desugared(m: ModuleV, names: ListLiteralNames)
    ensures
        forall|i: int|
            0 <= i < m.type_definitions.len() ==> list_free(
                #[trigger] module_list_types_desugared(m, names).type_definitions[i].1,
            ),
        forall|i: int|
            0 <= i < module_list_types_desugared(m, names).definitions.len() ==> list_free(
                #[trigger] module_list_types_desugared(m, names).definitions[i].type_(),
            ),
        all_nodes_definitions(
            module_list_types_desugared(m, names).definitions,
            |e: ExprV| node_list_free(e),
        ),
{
    let name = names.list_type_name;
    let p = |e: ExprV| node_list_free(e);
    let r = module_list_types_desugared(m, names);
    assert forall|i: int| 0 <= i < m.type_definitions.len() implies list_free(
        r.type_definitions[i].1,
    ) by {
        lemma_list_types_desugared_list_free(m.type_definitions[i].1, name);
    }
    let converted = convert_module_spec::<ListTypeDesugarer>(names, m).1;
    assert forall|i: int| 0 <= i < r.definitions.len() implies list_free(
        #[trigger] r.definitions[i].type_(),
    ) by {
        lemma_list_types_desugared_list_free(converted.definitions[i].type_(), name);
    }
    assert forall|c: ListLiteralNames, x: ExprV| children_all(x, p) implies (
    #[trigger] ListTypeDesugarer::converted(c, x)).1.all_nodes(p) by {
        let y = node_list_types_desugared(x, c.list_type_name);
        lemma_all_nodes_children(y, p);
        lemma_node_list_free(x, c.list_type_name);
        match x {
            ExprV::Case { alternatives, .. } => {
                lemma_alternatives_retyped(alternatives, c.list_type_name, p);
            },
            ExprV::Let { definitions, .. } => {
                lemma_definitions_retyped(definitions, c.list_type_name, p);
            },
            _ => {},
        }
    }
    assert(converter_establishes::<ListTypeDesugarer>(p));
    lemma_convert_module_all_nodes::<ListTypeDesugarer>(names, m, p);
    lemma_definitions_retyped(converted.definitions, name, p);
}

} // verus!
