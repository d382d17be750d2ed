//! Renaming of global names, respecting local bindings.
use crate::ast::{
    clone_strings, group_ast_view, lemma_all_nodes_alternatives, lemma_all_nodes_definitions,
    lemma_all_nodes_list_elements, lemma_all_nodes_record_elements, view_alternatives,
    view_definitions, view_list_elements, view_record_elements, view_strings, Alternative,
    AlternativeV, Definition, DefinitionV, ExprV, Expression, FunctionDefinition, ListElement,
    ListElementV, ValueDefinition, all_nodes_definitions, view_alternatives_rec,
    view_definitions_rec, view_list_elements_rec, view_record_elements_rec,
};
use crate::configuration::{qualified_name, qualify_name};
use crate::module::{
    clone_builtin_interfaces, clone_imports, view_type_definitions, Export, Module, ModuleV,
    TypeDefinition,
};
use crate::types::TypeV;
use crate::names::StringMap;
use vstd::prelude::*;

verus! {

/// The expressions that renaming handles: type coercions and record updates
/// are introduced only by later passes.
pub open spec fn renamable(e: ExprV) -> bool {
    !(e is TypeCoercion) && !(e is RecordUpdate)
}

/// A map with the given names removed in order.
pub open spec fn remove_all(m: Map<Seq<char>, Seq<char>>, names: Seq<Seq<char>>) -> Map<
    Seq<char>,
    Seq<char>,
>
    decreases names.len(),
{
    if names.len() == 0 {
        m
    } else {
        remove_all(m, names.drop_last()).remove(names.last())
    }
}

/// Whether one of the definitions is a function definition.
pub open spec fn has_functions(definitions: Seq<DefinitionV>) -> bool {
    exists|i: int| 0 <= i < definitions.len() && (#[trigger] definitions[i]) is Function
}

/// The names shadowed by a let expression before its definitions are renamed:
/// its function names, and also its value names when it defines functions.
pub open spec fn remove_let_scope(
    m: Map<Seq<char>, Seq<char>>,
    definitions: Seq<DefinitionV>,
    recursive: bool,
) -> Map<Seq<char>, Seq<char>>
    decreases definitions.len(),
{
    if definitions.len() == 0 {
        m
    } else {
        let rest = remove_let_scope(m, definitions.drop_last(), recursive);
        if definitions.last() is Function || recursive {
            rest.remove(definitions.last().name())
        } else {
            rest
        }
    }
}

/// The expression with the free occurrences of names in `names` replaced by
/// their entries: names bound by function arguments, case expressions, list
/// case expressions and let definitions are not replaced where they are bound.
pub open spec fn rename_expression(e: ExprV, names: Map<Seq<char>, Seq<char>>) -> ExprV
    decreases e,
{
    match e {
        ExprV::Application { function, argument } => ExprV::Application {
            function: Box::new(rename_expression(*function, names)),
            argument: Box::new(rename_expression(*argument, names)),
        },
        ExprV::Case { type_, name, argument, alternatives } => ExprV::Case {
            type_,
            name,
            argument: Box::new(rename_expression(*argument, names)),
            alternatives: rename_alternatives(alternatives, names.remove(name)),
        },
        ExprV::If { condition, then, else_ } => ExprV::If {
            condition: Box::new(rename_expression(*condition, names)),
            then: Box::new(rename_expression(*then, names)),
            else_: Box::new(rename_expression(*else_, names)),
        },
        ExprV::Let { definitions, expression } => {
            let scope = remove_let_scope(names, definitions, has_functions(definitions));
            let (renamed, inner) = rename_let_definitions(definitions, scope);
            ExprV::Let {
                definitions: renamed,
                expression: Box::new(rename_expression(*expression, inner)),
            }
        },
        ExprV::List { elements } => ExprV::List {
            elements: rename_list_elements(elements, names),
        },
        ExprV::ListCase {
            argument,
            type_,
            first_name,
            rest_name,
            empty_alternative,
            non_empty_alternative,
        } => ExprV::ListCase {
            argument: Box::new(rename_expression(*argument, names)),
            type_,
            first_name,
            rest_name,
            empty_alternative: Box::new(rename_expression(*empty_alternative, names)),
            non_empty_alternative: Box::new(
                rename_expression(*non_empty_alternative, names.remove(first_name).remove(rest_name)),
            ),
        },
        ExprV::Operation { type_, operator, lhs, rhs } => ExprV::Operation {
            type_,
            operator,
            lhs: Box::new(rename_expression(*lhs, names)),
            rhs: Box::new(rename_expression(*rhs, names)),
        },
        ExprV::RecordConstruction { type_, elements } => ExprV::RecordConstruction {
            type_,
            elements: rename_record_elements(elements, names),
        },
        ExprV::RecordElementOperation { type_, key, argument } => ExprV::RecordElementOperation {
            type_,
            key,
            argument: Box::new(rename_expression(*argument, names)),
        },
        ExprV::Variable { name } => ExprV::Variable { name: qualified_name(name, names) },
        _ => e,
    }
}

/// Renaming of a definition inside a let expression or a module body: the
/// arguments of a function shadow global names in its body.
pub open spec fn rename_definition_body(d: DefinitionV, names: Map<Seq<char>, Seq<char>>) -> DefinitionV
    decreases d,
{
    match d {
        DefinitionV::Function { name, arguments, body, type_ } => DefinitionV::Function {
            name,
            arguments,
            body: rename_expression(body, remove_all(names, arguments)),
            type_,
        },
        DefinitionV::Value { name, body, type_ } => DefinitionV::Value {
            name,
            body: rename_expression(body, names),
            type_,
        },
    }
}

/// Renaming of let definitions in order: a value name shadows global names in
/// the definitions after it; returns the renamed definitions and the names
/// left for the body of the let expression.
pub open spec fn rename_let_definitions(
    definitions: Seq<DefinitionV>,
    names: Map<Seq<char>, Seq<char>>,
) -> (Seq<DefinitionV>, Map<Seq<char>, Seq<char>>)
    decreases definitions,
{
    if definitions.len() == 0 {
        (Seq::empty(), names)
    } else {
        let (previous, scope) = rename_let_definitions(definitions.drop_last(), names);
        let last = definitions.last();
        (
            previous.push(rename_definition_body(last, scope)),
            if last is Value {
                scope.remove(last.name())
            } else {
                scope
            },
        )
    }
}

pub open spec fn rename_alternatives(s: Seq<AlternativeV>, names: Map<Seq<char>, Seq<char>>) -> Seq<
    AlternativeV,
>
    decreases s,
{
    if s.len() == 0 {
        Seq::empty()
    } else {
        rename_alternatives(s.drop_last(), names).push(
            AlternativeV {
                type_: s.last().type_,
                expression: rename_expression(s.last().expression, names),
            },
        )
    }
}

pub open spec fn rename_list_elements(
    s: Seq<ListElementV>,
    names: Map<Seq<char>, Seq<char>>,
) -> Seq<ListElementV>
    decreases s,
{
    if s.len() == 0 {
        Seq::empty()
    } else {
        rename_list_elements(s.drop_last(), names).push(
            match s.last() {
                ListElementV::Multiple(e) => ListElementV::Multiple(rename_expression(e, names)),
                ListElementV::Single(e) => ListElementV::Single(rename_expression(e, names)),
            },
        )
    }
}

pub open spec fn rename_record_elements(
    s: Seq<(Seq<char>, ExprV)>,
    names: Map<Seq<char>, Seq<char>>,
) -> Seq<(Seq<char>, ExprV)>
    decreases s,
{
    if s.len() == 0 {
        Seq::empty()
    } else {
        rename_record_elements(s.drop_last(), names).push(
            (s.last().0, rename_expression(s.last().1, names)),
        )
    }
}

/// Renaming of a definition of a module: its name is renamed too.
pub open spec fn rename_module_definition(d: DefinitionV, names: Map<Seq<char>, Seq<char>>) -> DefinitionV {
    match rename_definition_body(d, names) {
        DefinitionV::Function { name, arguments, body, type_ } => DefinitionV::Function {
            name: qualified_name(name, names),
            arguments,
            body,
            type_,
        },
        DefinitionV::Value { name, body, type_ } => DefinitionV::Value {
            name: qualified_name(name, names),
            body,
            type_,
        },
    }
}

/// Type definitions with their names renamed.
pub open spec fn rename_type_definitions(
    s: Seq<(Seq<char>, TypeV)>,
    names: Map<Seq<char>, Seq<char>>,
) -> Seq<(Seq<char>, TypeV)> {
    s.map_values(|p: (Seq<char>, TypeV)| (qualified_name(p.0, names), p.1))
}

/// Renames global names in a module by a map from old to new names.
pub struct GlobalNameRenamer {
    names: StringMap<String>,
}

impl GlobalNameRenamer {
    /// The map from old to new names.
    pub closed spec fn names(&self) -> Map<Seq<char>, Seq<char>> {
        self.names@
    }

    pub fn new(names: StringMap<String>) -> (r: Self)
        ensures
            r.names() == names@,
    {
        GlobalNameRenamer { names }
    }

    /// The module with the names of its type definitions and definitions
    /// and the free names in the definitions' bodies renamed; paths, exports
    /// and imports are kept.
    pub fn rename(&self, module: &Module) -> (r: Module)
        requires
            all_nodes_definitions(module@.definitions, |e: ExprV| renamable(e)),
        ensures
            r@ == (ModuleV {
                type_definitions: rename_type_definitions(module@.type_definitions, self.names()),
                definitions: module@.definitions.map_values(
                    |d: DefinitionV| rename_module_definition(d, self.names()),
                ),
                ..module@
            }),
    {
        broadcast use group_ast_view;

        let ghost m = module@;
        let mut definitions: Vec<Definition> = Vec::new();
        let mut i: usize = 0;
        while i < module.definitions.len()
            invariant
                i <= module.definitions@.len(),
                m == module@,
                all_nodes_definitions(m.definitions, |e: ExprV| renamable(e)),
                definitions@.len() == i,
                forall|j: int|
                    0 <= j < i ==> (#[trigger] definitions@[j])@ == rename_module_definition(
                        m.definitions[j],
                        self.names(),
                    ),
            decreases module.definitions.len() - i,
        {
            proof {
                lemma_all_nodes_definitions(m.definitions, |e: ExprV| renamable(e), i as int);
            }
            let renamed = match &module.definitions[i] {
                Definition::FunctionDefinition(d) => {
                    let f = self.rename_function_definition(d, &self.names);
                    Definition::FunctionDefinition(
                        FunctionDefinition {
                            name: qualify_name(&f.name, &self.names),
                            arguments: f.arguments,
                            body: f.body,
                            type_: f.type_,
                        },
                    )
                },
                Definition::ValueDefinition(d) => {
                    let v = self.rename_value_definition(d, &self.names);
                    Definition::ValueDefinition(
                        ValueDefinition {
                            name: qualify_name(&v.name, &self.names),
                            body: v.body,
                            type_: v.type_,
                        },
                    )
                },
            };
            definitions.push(renamed);
            i += 1;
        }
        let r = Module {
            path: module.path.deep_clone(),
            export: Export { names: clone_strings(&module.export.names) },
            imports: clone_imports(&module.imports),
            ffi_imports: clone_builtin_interfaces(&module.ffi_imports),
            type_definitions: self.rename_type_definitions(&module.type_definitions),
            definitions,
        };
        assert(r@.definitions =~= m.definitions.map_values(
            |d: DefinitionV| rename_module_definition(d, self.names()),
        ));
        r
    }

    fn rename_type_definitions(&self, s: &Vec<TypeDefinition>) -> (r: Vec<TypeDefinition>)
        ensures
            view_type_definitions(r@) == rename_type_definitions(view_type_definitions(s@), self.names()),
    {
        let mut r: Vec<TypeDefinition> = Vec::new();
        let mut i: usize = 0;
        while i < s.len()
            invariant
                i <= s.len(),
                r@.len() == i,
                forall|j: int|
                    0 <= j < i ==> #[trigger] r@[j].name@ == qualified_name(s@[j].name@, self.names())
                        && r@[j].type_@ == s@[j].type_@,
            decreases s.len() - i,
        {
            r.push(
                TypeDefinition {
                    name: qualify_name(&s[i].name, &self.names),
                    type_: s[i].type_.deep_clone(),
                },
            );
            i += 1;
        }
        assert(view_type_definitions(r@) =~= rename_type_definitions(
            view_type_definitions(s@),
            self.names(),
        ));
        r
    }

    fn rename_function_definition(
        &self,
        definition: &FunctionDefinition,
        names: &StringMap<String>,
    ) -> (r: FunctionDefinition)
        requires
            definition.body@.all_nodes(|e: ExprV| renamable(e)),
        ensures
            Definition::FunctionDefinition(r)@ == rename_definition_body(
                Definition::FunctionDefinition(*definition)@,
                names@,
            ),
        decreases definition, 1nat,
    {
        let mut scope = names.deep_clone();
        let mut i: usize = 0;
        let ghost arguments = view_strings(definition.arguments@);
        while i < definition.arguments.len()
            invariant
                i <= definition.arguments@.len(),
                arguments == view_strings(definition.arguments@),
                scope@ == remove_all(names@, arguments.take(i as int)),
            decreases definition.arguments.len() - i,
        {
            scope.remove(definition.arguments[i].as_str());
            assert(arguments.take(i + 1).drop_last() =~= arguments.take(i as int));
            i += 1;
        }
        assert(arguments.take(i as int) =~= arguments);
        FunctionDefinition {
            name: definition.name.clone(),
            arguments: clone_strings(&definition.arguments),
            body: self.rename_expression(&definition.body, &scope),
            type_: definition.type_.deep_clone(),
        }
    }

    fn rename_value_definition(
        &self,
        definition: &ValueDefinition,
        names: &StringMap<String>,
    ) -> (r: ValueDefinition)
        requires
            definition.body@.all_nodes(|e: ExprV| renamable(e)),
        ensures
            Definition::ValueDefinition(r)@ == rename_definition_body(
                Definition::ValueDefinition(*definition)@,
                names@,
            ),
        decreases definition, 1nat,
    {
        ValueDefinition {
            name: definition.name.clone(),
            body: self.rename_expression(&definition.body, names),
            type_: definition.type_.deep_clone(),
        }
    }

    #[verifier::loop_isolation(false)]
    fn rename_expression(&self, expression: &Expression, names: &StringMap<String>) -> (r: Expression)
        requires
            expression@.all_nodes(|e: ExprV| renamable(e)),
        ensures
            r@ == rename_expression(expression@, names@),
        decreases expression, 1nat,
    {
        broadcast use group_ast_view;

        let ghost p = |e: ExprV| renamable(e);
        match expression {
            Expression::Application { function, argument } => Expression::Application {
                function: Box::new(self.rename_expression(function, names)),
                argument: Box::new(self.rename_expression(argument, names)),
            },
            Expression::Case { type_, name, argument, alternatives } => {
                assert(view_alternatives_rec(alternatives@) == view_alternatives(alternatives@));
                let mut scope = names.deep_clone();
                scope.remove(name.as_str());
                let mut renamed: Vec<Alternative> = Vec::new();
                let mut i: usize = 0;
                while i < alternatives.len()
                    invariant
                        i <= alternatives@.len(),
                        renamed@.len() == i,
                        forall|j: int|
                            0 <= j < i ==> (#[trigger] renamed@[j])@ == (AlternativeV {
                                type_: alternatives@[j].type_@,
                                expression: rename_expression(
                                    alternatives@[j].expression@,
                                    scope@,
                                ),
                            }),
                    decreases alternatives.len() - i,
                {
                    proof {
                        lemma_all_nodes_alternatives(view_alternatives(alternatives@), p, i as int);
                    }
                    assert(decreases_to!(expression => alternatives));
                    assert(decreases_to!(alternatives => alternatives@[i as int].expression));
                    let e = self.rename_expression(&alternatives[i].expression, &scope);
                    renamed.push(Alternative { type_: alternatives[i].type_.deep_clone(), expression: e });
                    i += 1;
                }
                proof {
                    lemma_rename_alternatives(view_alternatives(alternatives@), scope@);
                    assert(view_alternatives_rec(renamed@) =~= rename_alternatives(
                        view_alternatives(alternatives@),
                        scope@,
                    ));
                }
                Expression::Case {
                    type_: type_.deep_clone(),
                    name: name.clone(),
                    argument: Box::new(self.rename_expression(argument, names)),
                    alternatives: renamed,
                }
            },
            Expression::ListCase {
                argument,
                type_,
                first_name,
                rest_name,
                empty_alternative,
                non_empty_alternative,
            } => {
                let mut scope = names.deep_clone();
                scope.remove(first_name.as_str());
                scope.remove(rest_name.as_str());
                Expression::ListCase {
                    argument: Box::new(self.rename_expression(argument, names)),
                    type_: type_.deep_clone(),
                    first_name: first_name.clone(),
                    rest_name: rest_name.clone(),
                    empty_alternative: Box::new(self.rename_expression(empty_alternative, names)),
                    non_empty_alternative: Box::new(
                        self.rename_expression(non_empty_alternative, &scope),
                    ),
                }
            },
            Expression::If { condition, then, else_ } => Expression::If {
                condition: Box::new(self.rename_expression(condition, names)),
                then: Box::new(self.rename_expression(then, names)),
                else_: Box::new(self.rename_expression(else_, names)),
            },
            Expression::Let { definitions, expression: body } => {
                assert(view_definitions_rec(definitions@) == view_definitions(definitions@));
                let ghost ds = view_definitions(definitions@);
                let mut recursive = false;
                let mut i: usize = 0;
                while i < definitions.len()
                    invariant
                        i <= definitions@.len(),
                        recursive == (exists|j: int| 0 <= j < i && (#[trigger] ds[j]) is Function),
                    decreases definitions.len() - i,
                {
                    if let Definition::FunctionDefinition(_) = &definitions[i] {
                        assert(ds[i as int] is Function);
                        recursive = true;
                    }
                    i += 1;
                }
                assert(recursive == has_functions(ds));
                let mut scope = names.deep_clone();
                let mut i: usize = 0;
                while i < definitions.len()
                    invariant
                        i <= definitions@.len(),
                        recursive == has_functions(ds),
                        scope@ == remove_let_scope(names@, ds.take(i as int), recursive),
                    decreases definitions.len() - i,
                {
                    let is_function = matches!(&definitions[i], Definition::FunctionDefinition(_));
                    if is_function || recursive {
                        scope.remove(definitions[i].name().as_str());
                    }
                    assert(ds.take(i + 1).drop_last() =~= ds.take(i as int));
                    i += 1;
                }
                assert(ds.take(i as int) =~= ds);
                let ghost start = scope@;
                let mut renamed: Vec<Definition> = Vec::new();
                let mut i: usize = 0;
                while i < definitions.len()
                    invariant
                        i <= definitions@.len(),
                        start == remove_let_scope(names@, ds, has_functions(ds)),
                        (view_definitions(renamed@), scope@) == rename_let_definitions(
                            ds.take(i as int),
                            start,
                        ),
                    decreases definitions.len() - i,
                {
                    proof {
                        lemma_all_nodes_definitions(ds, p, i as int);
                    }
                    assert(decreases_to!(expression => definitions));
                    assert(decreases_to!(definitions => definitions@[i as int]));
                    let ghost before = view_definitions(renamed@);
                    match &definitions[i] {
                        Definition::FunctionDefinition(d) => {
                            let f = self.rename_function_definition(d, &scope);
                            renamed.push(Definition::FunctionDefinition(f));
                        },
                        Definition::ValueDefinition(d) => {
                            let v = self.rename_value_definition(d, &scope);
                            renamed.push(Definition::ValueDefinition(v));
                            scope.remove(d.name.as_str());
                        },
                    }
                    assert(ds.take(i + 1).drop_last() =~= ds.take(i as int));
                    assert(view_definitions(renamed@) =~= before.push(view_definitions(renamed@).last()));
                    i += 1;
                }
                assert(ds.take(i as int) =~= ds);
                assert(view_definitions_rec(renamed@) == view_definitions(renamed@));
                Expression::Let {
                    definitions: renamed,
                    expression: Box::new(self.rename_expression(body, &scope)),
                }
            },
            Expression::List { elements } => {
                assert(view_list_elements_rec(elements@) == view_list_elements(elements@));
                let mut renamed: Vec<ListElement> = Vec::new();
                let mut i: usize = 0;
                while i < elements.len()
                    invariant
                        i <= elements@.len(),
                        view_list_elements(renamed@) == rename_list_elements(
                            view_list_elements(elements@).take(i as int),
                            names@,
                        ),
                    decreases elements.len() - i,
                {
                    proof {
                        lemma_all_nodes_list_elements(view_list_elements(elements@), p, i as int);
                    }
                    assert(decreases_to!(expression => elements));
                    let ghost before = view_list_elements(renamed@);
                    match &elements[i] {
                        ListElement::Multiple(e) => {
                            assert(decreases_to!(elements => elements@[i as int]->Multiple_0));
                            renamed.push(ListElement::Multiple(self.rename_expression(e, names)));
                        },
                        ListElement::Single(e) => {
                            assert(decreases_to!(elements => elements@[i as int]->Single_0));
                            renamed.push(ListElement::Single(self.rename_expression(e, names)));
                        },
                    }
                    assert(view_list_elements(elements@).take(i + 1).drop_last()
                        =~= view_list_elements(elements@).take(i as int));
                    assert(view_list_elements(renamed@) =~= before.push(
                        view_list_elements(renamed@).last(),
                    ));
                    i += 1;
                }
                assert(view_list_elements(elements@).take(i as int) =~= view_list_elements(
                    elements@,
                ));
                assert(view_list_elements_rec(renamed@) == view_list_elements(renamed@));
                Expression::List { elements: renamed }
            },
            Expression::Operation { type_, operator, lhs, rhs } => Expression::Operation {
                type_: type_.deep_clone(),
                operator: *operator,
                lhs: Box::new(self.rename_expression(lhs, names)),
                rhs: Box::new(self.rename_expression(rhs, names)),
            },
            Expression::RecordConstruction { type_, elements } => {
                let renamed = self.rename_record_elements(expression, elements, names);
                Expression::RecordConstruction { type_: type_.deep_clone(), elements: renamed }
            },
            Expression::RecordElementOperation { type_, key, argument } =>
                Expression::RecordElementOperation {
                    type_: type_.deep_clone(),
                    key: key.clone(),
                    argument: Box::new(self.rename_expression(argument, names)),
                },
            Expression::Variable { name } => Expression::Variable {
                name: qualify_name(name, names),
            },
            Expression::RecordUpdate { .. } => {
                assert(false);
                expression.deep_clone()
            },
            Expression::TypeCoercion { .. } => {
                assert(false);
                expression.deep_clone()
            },
            _ => expression.deep_clone(),
        }
    }

    #[verifier::loop_isolation(false)]
    fn rename_record_elements(
        &self,
        expression: &Expression,
        elements: &Vec<(String, Expression)>,
        names: &StringMap<String>,
    ) -> (r: Vec<(String, Expression)>)
        requires
            expression matches Expression::RecordConstruction { elements: e, .. } && e == elements,
            expression@.all_nodes(|e: ExprV| renamable(e)),
        ensures
            view_record_elements_rec(r@) == rename_record_elements(
                view_record_elements_rec(elements@),
                names@,
            ),
        decreases expression, 0nat,
    {
        broadcast use group_ast_view;

        let ghost p = |e: ExprV| renamable(e);
        assert(view_record_elements_rec(elements@) == view_record_elements(elements@));
        let mut renamed: Vec<(String, Expression)> = Vec::new();
        let mut i: usize = 0;
        while i < elements.len()
            invariant
                i <= elements@.len(),
                view_record_elements(renamed@) == rename_record_elements(
                    view_record_elements(elements@).take(i as int),
                    names@,
                ),
            decreases elements.len() - i,
        {
            proof {
                lemma_all_nodes_record_elements(view_record_elements(elements@), p, i as int);
            }
            assert(decreases_to!(expression => *elements));
            assert(decreases_to!(elements => elements@[i as int].1));
            let ghost before = view_record_elements(renamed@);
            let e = self.rename_expression(&elements[i].1, names);
            renamed.push((elements[i].0.clone(), e));
            assert(view_record_elements(elements@).take(i + 1).drop_last()
                =~= view_record_elements(elements@).take(i as int));
            assert(view_record_elements(renamed@) =~= before.push(
                view_record_elements(renamed@).last(),
            ));
            i += 1;
        }
        assert(view_record_elements(elements@).take(i as int) =~= view_record_elements(
            elements@,
        ));
        renamed
    }
}

/// The sequence-wise and index-wise renaming of alternatives agree.
pub proof fn lemma_rename_alternatives(s: Seq<AlternativeV>, names: Map<Seq<char>, Seq<char>>)
    ensures
        rename_alternatives(s, names) =~= Seq::new(
            s.len(),
            |i: int|
                AlternativeV { type_: s[i].type_, expression: rename_expression(s[i].expression, names) },
        ),
    decreases s.len(),
{
    if s.len() > 0 {
        lemma_rename_alternatives(s.drop_last(), names);
        assert forall|i: int| 0 <= i < s.len() - 1 implies s.drop_last()[i] == s[i] by {}
    }
}


proof fn lemma_remove_all_empty(names: Seq<Seq<char>>)
    ensures
        remove_all(Map::empty(), names) == Map::<Seq<char>, Seq<char>>::empty(),
    decreases names.len(),
{
    if names.len() > 0 {
        lemma_remove_all_empty(names.drop_last());
        assert(Map::<Seq<char>, Seq<char>>::empty().remove(names.last()) =~= Map::empty());
    }
}

proof fn lemma_remove_let_scope_empty(definitions: Seq<DefinitionV>, recursive: bool)
    ensures
        remove_let_scope(Map::empty(), definitions, recursive) == Map::<
            Seq<char>,
            Seq<char>,
        >::empty(),
    decreases definitions.len(),
{
    if definitions.len() > 0 {
        lemma_remove_let_scope_empty(definitions.drop_last(), recursive);
        assert(Map::<Seq<char>, Seq<char>>::empty().remove(definitions.last().name())
            =~= Map::empty());
    }
}

proof fn lemma_remove_all_remove_keys(m: Map<Seq<char>, Seq<char>>, names: Seq<Seq<char>>)
    ensures
        remove_all(m, names) == m.remove_keys(names.to_set()),
    decreases names.len(),
{
    if names.len() == 0 {
        assert(m.remove_keys(names.to_set()) =~= m);
    } else {
        lemma_remove_all_remove_keys(m, names.drop_last());
        assert forall|k: Seq<char>| names.to_set().contains(k) <==> (names.drop_last().to_set().contains(k)
            || k == names.last()) by {
            if names.contains(k) {
                let i = choose|i: int| 0 <= i < names.len() && names[i] == k;
                if i < names.len() - 1 {
                    assert(names.drop_last()[i] == k);
                }
            }
            if names.drop_last().contains(k) {
                let i = choose|i: int| 0 <= i < names.drop_last().len() && names.drop_last()[i] == k;
                assert(names[i] == k);
            }
            if k == names.last() {
                assert(names[names.len() - 1] == k);
            }
        }
        assert(remove_all(m, names) =~= m.remove_keys(names.to_set()));
    }
}

/// Arguments shadow global names: the body of a renamed function definition
/// does not depend on what the names map the function's arguments to, so it
/// is the same as when the arguments are left out of the names.
pub proof fn lemma_arguments_shadow_names(d: DefinitionV, names: Map<Seq<char>, Seq<char>>)
    ensures
        d matches DefinitionV::Function { arguments, .. } ==> rename_definition_body(d, names)
            == rename_definition_body(d, names.remove_keys(arguments.to_set()))
            && rename_module_definition(d, names)->Function_body == rename_module_definition(
            d,
            names.remove_keys(arguments.to_set()),
        )->Function_body,
{
    if let DefinitionV::Function { arguments, .. } = d {
        let s = arguments.to_set();
        lemma_remove_all_remove_keys(names, arguments);
        lemma_remove_all_remove_keys(names.remove_keys(s), arguments);
        assert(names.remove_keys(s).remove_keys(s) =~= names.remove_keys(s));
    }
}

/// A function definition whose arguments are the only names that the renaming
/// maps keeps its body unchanged.
pub proof fn lemma_arguments_only_keep_body(d: DefinitionV, names: Map<Seq<char>, Seq<char>>)
    ensures
        d matches DefinitionV::Function { arguments, body, .. } ==> (names.dom().subset_of(
            arguments.to_set(),
        ) ==> rename_definition_body(d, names)->Function_body == body
            && rename_module_definition(d, names)->Function_body == body),
{
    if let DefinitionV::Function { arguments, body, .. } = d {
        if names.dom().subset_of(arguments.to_set()) {
            lemma_remove_all_remove_keys(names, arguments);
            assert(names.remove_keys(arguments.to_set()) =~= Map::<Seq<char>, Seq<char>>::empty());
            lemma_rename_nothing(body);
        }
    }
}

/// Names bound by case and list case expressions shadow global names: the
/// alternatives of a renamed case expression do not depend on what the names
/// map its bound name to, and neither does the non-empty alternative of a list
/// case on what they map its first and rest names to.
pub proof fn lemma_case_names_shadow_names(e: ExprV, names: Map<Seq<char>, Seq<char>>)
    ensures
        e matches ExprV::Case { name, .. } ==> rename_expression(e, names)->Case_alternatives
            == rename_expression(e, names.remove(name))->Case_alternatives,
        e matches ExprV::ListCase { first_name, rest_name, .. } ==> rename_expression(
            e,
            names,
        )->ListCase_non_empty_alternative == rename_expression(
            e,
            names.remove(first_name).remove(rest_name),
        )->ListCase_non_empty_alternative,
{
    if let ExprV::Case { name, .. } = e {
        assert(names.remove(name).remove(name) =~= names.remove(name));
    }
    if let ExprV::ListCase { first_name, rest_name, .. } = e {
        assert(names.remove(first_name).remove(rest_name).remove(first_name).remove(rest_name)
            =~= names.remove(first_name).remove(rest_name));
    }
}

/// Renaming by the empty map changes nothing.
pub proof fn lemma_rename_nothing(e: ExprV)
    ensures
        rename_expression(e, Map::empty()) == e,
    decreases e,
{
    let empty = Map::<Seq<char>, Seq<char>>::empty();
    match e {
        ExprV::Application { function, argument } => {
            lemma_rename_nothing(*function);
            lemma_rename_nothing(*argument);
        },
        ExprV::Case { argument, alternatives, name, .. } => {
            lemma_rename_nothing(*argument);
            assert(empty.remove(name) =~= empty);
            lemma_rename_nothing_alternatives(alternatives);
        },
        ExprV::If { condition, then, else_ } => {
            lemma_rename_nothing(*condition);
            lemma_rename_nothing(*then);
            lemma_rename_nothing(*else_);
        },
        ExprV::Let { definitions, expression } => {
            lemma_remove_let_scope_empty(definitions, has_functions(definitions));
            lemma_rename_nothing_let_definitions(definitions);
            lemma_rename_nothing(*expression);
        },
        ExprV::List { elements } => lemma_rename_nothing_list_elements(elements),
        ExprV::ListCase {
            argument,
            first_name,
            rest_name,
            empty_alternative,
            non_empty_alternative,
            ..
        } => {
            lemma_rename_nothing(*argument);
            lemma_rename_nothing(*empty_alternative);
            assert(empty.remove(first_name).remove(rest_name) =~= empty);
            lemma_rename_nothing(*non_empty_alternative);
        },
        ExprV::Operation { lhs, rhs, .. } => {
            lemma_rename_nothing(*lhs);
            lemma_rename_nothing(*rhs);
        },
        ExprV::RecordConstruction { elements, .. } => lemma_rename_nothing_record_elements(
            elements,
        ),
        ExprV::RecordElementOperation { argument, .. } => lemma_rename_nothing(*argument),
        _ => {},
    }
}

proof fn lemma_rename_nothing_alternatives(s: Seq<AlternativeV>)
    ensures
        rename_alternatives(s, Map::empty()) == s,
    decreases s,
{
    if s.len() > 0 {
        lemma_rename_nothing_alternatives(s.drop_last());
        lemma_rename_nothing(s.last().expression);
        assert(rename_alternatives(s, Map::empty()) =~= s);
    }
}

proof fn lemma_rename_nothing_let_definitions(s: Seq<DefinitionV>)
    ensures
        rename_let_definitions(s, Map::empty()) == (s, Map::<Seq<char>, Seq<char>>::empty()),
    decreases s,
{
    let empty = Map::<Seq<char>, Seq<char>>::empty();
    if s.len() > 0 {
        lemma_rename_nothing_let_definitions(s.drop_last());
        let last = s.last();
        match last {
            DefinitionV::Function { arguments, body, .. } => {
                lemma_remove_all_empty(arguments);
                lemma_rename_nothing(body);
            },
            DefinitionV::Value { body, .. } => {
                lemma_rename_nothing(body);
            },
        }
        assert(empty.remove(last.name()) =~= empty);
        assert(rename_definition_body(last, empty) == last);
        assert(rename_let_definitions(s.drop_last(), empty).0 == s.drop_last());
        assert(rename_let_definitions(s, empty).0 == s.drop_last().push(last));
        assert(s.drop_last().push(last) =~= s);
    }
}

proof fn lemma_rename_nothing_list_elements(s: Seq<ListElementV>)
    ensures
        rename_list_elements(s, Map::empty()) == s,
    decreases s,
{
    if s.len() > 0 {
        lemma_rename_nothing_list_elements(s.drop_last());
        match s.last() {
            ListElementV::Multiple(e) => lemma_rename_nothing(e),
            ListElementV::Single(e) => lemma_rename_nothing(e),
        }
        assert(rename_list_elements(s, Map::empty()) =~= s);
    }
}

proof fn lemma_rename_nothing_record_elements(s: Seq<(Seq<char>, ExprV)>)
    ensures
        rename_record_elements(s, Map::empty()) == s,
    decreases s,
{
    if s.len() > 0 {
        lemma_rename_nothing_record_elements(s.drop_last());
        lemma_rename_nothing(s.last().1);
        assert(rename_record_elements(s, Map::empty()) =~= s);
    }
}

/// A renamer with no names keeps every definition of a module as it is.
pub proof fn lemma_rename_module_nothing(definitions: Seq<DefinitionV>)
    ensures
        definitions.map_values(|d: DefinitionV| rename_module_definition(d, Map::empty()))
            == definitions,
{
    let empty = Map::<Seq<char>, Seq<char>>::empty();
    assert forall|i: int| 0 <= i < definitions.len() implies rename_module_definition(
        #[trigger] definitions[i],
        empty,
    ) == definitions[i] by {
        match definitions[i] {
            DefinitionV::Function { arguments, body, .. } => {
                lemma_remove_all_empty(arguments);
                lemma_rename_nothing(body);
            },
            DefinitionV::Value { body, .. } => lemma_rename_nothing(body),
        }
    }
    assert(definitions.map_values(|d: DefinitionV| rename_module_definition(d, empty))
        =~= definitions);
}

} // verus!
