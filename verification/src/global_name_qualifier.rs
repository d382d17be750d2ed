//! Qualification of the global names of a module by module paths.
use crate::ast::{all_nodes_definitions, DefinitionV, ExprV};
use crate::global_name_map_creator::own_name_pairs;
use crate::global_name_renamer::{
    remove_all, rename_module_definition, rename_type_definitions, renamable, GlobalNameRenamer,
};
use crate::module::{fully_qualify_name, qualify_name, ImportV, Module, ModuleV};
use crate::names::StringMap;
use crate::reference_type_resolver::{insert_pairs, lemma_insert_pairs_agreeing};
use crate::ast::view_strings;
use vstd::prelude::*;

verus! {

/// The variables of an import under names qualified by the module's last
/// path component, each mapped to its fully qualified name.
pub open spec fn import_variable_pairs(import: ImportV) -> Seq<(Seq<char>, Seq<char>)> {
    import.interface.variables.map_values(
        |p: (Seq<char>, crate::types::TypeV)|
            (qualify_name(import.interface.path, p.0), fully_qualify_name(import.interface.path, p.0)),
    )
}

/// The qualified variables of all imports inserted in order.
pub open spec fn insert_import_variable_names(
    m: Map<Seq<char>, Seq<char>>,
    imports: Seq<ImportV>,
) -> Map<Seq<char>, Seq<char>>
    decreases imports.len(),
{
    if imports.len() == 0 {
        m
    } else {
        insert_pairs(
            insert_import_variable_names(m, imports.drop_last()),
            import_variable_pairs(imports.last()),
        )
    }
}

/// The names to qualify in a module: imported variables under their
/// qualified names, type definitions and definitions.
pub open spec fn names_to_qualify(m: ModuleV) -> Map<Seq<char>, Seq<char>> {
    insert_pairs(
        insert_pairs(
            insert_import_variable_names(Map::empty(), m.imports),
            own_name_pairs(m.path, m.type_definitions.map_values(|p: (Seq<char>, crate::types::TypeV)| p.0)),
        ),
        own_name_pairs(m.path, m.definitions.map_values(|d: DefinitionV| d.name())),
    )
}

/// Inserts the names of imported variables, type definitions and definitions.
pub fn insert_names_to_qualify(module: &Module, names: &mut StringMap<String>, with_types: bool)
    ensures
        with_types ==> final(names)@ == insert_pairs(
            insert_pairs(
                insert_import_variable_names(old(names)@, module@.imports),
                own_name_pairs(module@.path, module@.type_definitions.map_values(|p: (Seq<char>, crate::types::TypeV)| p.0)),
            ),
            own_name_pairs(module@.path, module@.definitions.map_values(|d: DefinitionV| d.name())),
        ),
        !with_types ==> final(names)@ == insert_pairs(
            insert_import_variable_names(old(names)@, module@.imports),
            own_name_pairs(module@.path, module@.definitions.map_values(|d: DefinitionV| d.name())),
        ),
{
    let ghost m = module@;
    let ghost start = names@;
    let mut i: usize = 0;
    while i < module.imports.len()
        invariant
            i <= module.imports@.len(),
            m == module@,
            names@ == insert_import_variable_names(start, m.imports.take(i as int)),
        decreases module.imports.len() - i,
    {
        let interface = &module.imports[i].module_interface;
        let ghost base = names@;
        let ghost pairs = import_variable_pairs(m.imports[i as int]);
        assert(m.imports[i as int] == module.imports@[i as int]@);
        let mut j: usize = 0;
        while j < interface.variables.len()
            invariant
                j <= interface.variables@.len(),
                i < module.imports@.len(),
                m == module@,
                *interface == module.imports@[i as int].module_interface,
                pairs == import_variable_pairs(m.imports[i as int]),
                m.imports[i as int] == module.imports@[i as int]@,
                pairs.len() == interface.variables@.len(),
                names@ == insert_pairs(base, pairs.take(j as int)),
            decreases interface.variables.len() - j,
        {
            let name = interface.variables[j].0.as_str();
            let key = interface.path.qualify_name(name);
            let value = interface.path.fully_qualify_name(name);
            assert(pairs[j as int] == (key@, value@));
            names.insert(key, value);
            assert(pairs.take(j + 1).drop_last() =~= pairs.take(j as int));
            j += 1;
        }
        assert(pairs.take(j as int) =~= pairs);
        assert(m.imports.take(i + 1).drop_last() =~= m.imports.take(i as int));
        i += 1;
    }
    assert(m.imports.take(i as int) =~= m.imports);
    if with_types {
        let ghost base = names@;
        let ghost pairs = own_name_pairs(m.path, m.type_definitions.map_values(|p: (Seq<char>, crate::types::TypeV)| p.0));
        let mut i: usize = 0;
        while i < module.type_definitions.len()
            invariant
                i <= module.type_definitions@.len(),
                m == module@,
                pairs == own_name_pairs(m.path, m.type_definitions.map_values(|p: (Seq<char>, crate::types::TypeV)| p.0)),
                names@ == insert_pairs(base, pairs.take(i as int)),
            decreases module.type_definitions.len() - i,
        {
            let name = &module.type_definitions[i].name;
            let value = module.path.fully_qualify_name(name.as_str());
            assert(pairs[i as int] == (name@, value@));
            names.insert(name.clone(), value);
            assert(pairs.take(i + 1).drop_last() =~= pairs.take(i as int));
            i += 1;
        }
        assert(pairs.take(i as int) =~= pairs);
    }
    let ghost base = names@;
    let ghost pairs = own_name_pairs(m.path, m.definitions.map_values(|d: DefinitionV| d.name()));
    let mut i: usize = 0;
    while i < module.definitions.len()
        invariant
            i <= module.definitions@.len(),
            m == module@,
            pairs == own_name_pairs(m.path, m.definitions.map_values(|d: DefinitionV| d.name())),
            names@ == insert_pairs(base, pairs.take(i as int)),
        decreases module.definitions.len() - i,
    {
        let name = module.definitions[i].name();
        let value = module.path.fully_qualify_name(name.as_str());
        assert(pairs[i as int] == (name@, value@));
        names.insert(name.clone(), value);
        assert(pairs.take(i + 1).drop_last() =~= pairs.take(i as int));
        i += 1;
    }
    assert(pairs.take(i as int) =~= pairs);
}

/// Qualifies the global names of a module, except excluded ones.
pub struct GlobalNameQualifier {
    global_name_renamer: GlobalNameRenamer,
}

impl GlobalNameQualifier {
    /// The map from old to new names that the qualifier applies.
    pub closed spec fn names(&self) -> Map<Seq<char>, Seq<char>> {
        self.global_name_renamer.names()
    }

    /// A qualifier for the imported variables, type definitions and
    /// definitions of the module, except the excluded names.
    pub fn new(module: &Module, excluded_names: &Vec<String>) -> (r: Self)
        ensures
            r.names() == remove_all(names_to_qualify(module@), view_strings(excluded_names@)),
    {
        let mut names: StringMap<String> = StringMap::new();
        insert_names_to_qualify(module, &mut names, true);
        let ghost excluded = view_strings(excluded_names@);
        let ghost all = names@;
        let mut i: usize = 0;
        while i < excluded_names.len()
            invariant
                i <= excluded_names@.len(),
                excluded == view_strings(excluded_names@),
                names@ == remove_all(all, excluded.take(i as int)),
            decreases excluded_names.len() - i,
        {
            names.remove(excluded_names[i].as_str());
            assert(excluded.take(i + 1).drop_last() =~= excluded.take(i as int));
            i += 1;
        }
        assert(excluded.take(i as int) =~= excluded);
        GlobalNameQualifier { global_name_renamer: GlobalNameRenamer::new(names) }
    }

    /// The module with its global names qualified.
    pub fn qualify(&self, module: &Module) -> (r: Module)
        requires
            all_nodes_definitions(module@.definitions, |e: ExprV| renamable(e)),
        ensures
            r@ == (ModuleV {
                type_definitions: rename_type_definitions(module@.type_definitions, self.names()),
                definitions: module@.definitions.map_values(
                    |d: DefinitionV| rename_module_definition(d, self.names()),
                ),
                ..module@
            }),
    {
        self.global_name_renamer.rename(module)
    }
}

/// Qualifies names in the outputs of compilation: imported variables and
/// definitions, and some special names.
pub struct NameQualifier {
    names: StringMap<String>,
}

impl NameQualifier {
    /// The map from old to new names.
    pub closed spec fn names(&self) -> Map<Seq<char>, Seq<char>> {
        self.names@
    }

    /// A qualifier for the imported variables and definitions of the module,
    /// with the special names added last.
    pub fn new(module: &Module, special_names: &StringMap<String>) -> (r: Self)
        ensures
            r.names() == insert_pairs(
                insert_pairs(
                    insert_import_variable_names(Map::empty(), module@.imports),
                    own_name_pairs(module@.path, module@.definitions.map_values(|d: DefinitionV| d.name())),
                ),
                special_names.pairs(),
            ),
    {
        let mut names: StringMap<String> = StringMap::new();
        insert_names_to_qualify(module, &mut names, false);
        let ghost base = names@;
        let ghost pairs = special_names.pairs();
        let mut i: usize = 0;
        while i < special_names.len()
            invariant
                i <= pairs.len(),
                pairs == special_names.pairs(),
                names@ == insert_pairs(base, pairs.take(i as int)),
            decreases pairs.len() - i,
        {
            let key = special_names.key_at(i);
            let value = special_names.value_at(i);
            assert(pairs[i as int] == (key@, value@));
            names.insert(key.clone(), value.clone());
            assert(pairs.take(i + 1).drop_last() =~= pairs.take(i as int));
            i += 1;
        }
        assert(pairs.take(i as int) =~= pairs);
        NameQualifier { names }
    }
}


/// Removing names other than `k` keeps the entry of `k`.
proof fn lemma_remove_all_keeps(m: Map<Seq<char>, Seq<char>>, names: Seq<Seq<char>>, k: Seq<char>)
    requires
        m.contains_key(k),
        !names.contains(k),
    ensures
        remove_all(m, names).contains_key(k),
        remove_all(m, names)[k] == m[k],
    decreases names.len(),
{
    if names.len() > 0 {
        assert(!names.drop_last().contains(k)) by {
            if names.drop_last().contains(k) {
                let l = choose|l: int| 0 <= l < names.drop_last().len() && names.drop_last()[l] == k;
                assert(names[l] == k);
            }
        }
        assert(names.last() != k) by {
            assert(names[names.len() - 1] == names.last());
        }
        lemma_remove_all_keeps(m, names.drop_last(), k);
    }
}

/// Every definition of a module whose name is not excluded gets the name
/// qualified by the module's path.
pub proof fn lemma_definitions_fully_qualified(m: ModuleV, excluded: Seq<Seq<char>>, i: int)
    requires
        0 <= i < m.definitions.len(),
        !excluded.contains(m.definitions[i].name()),
    ensures
        rename_module_definition(
            m.definitions[i],
            remove_all(names_to_qualify(m), excluded),
        ).name() == fully_qualify_name(m.path, m.definitions[i].name()),
{
    let k = m.definitions[i].name();
    let v = fully_qualify_name(m.path, k);
    let pairs = own_name_pairs(m.path, m.definitions.map_values(|d: DefinitionV| d.name()));
    let base = insert_pairs(
        insert_import_variable_names(Map::empty(), m.imports),
        own_name_pairs(
            m.path,
            m.type_definitions.map_values(|p: (Seq<char>, crate::types::TypeV)| p.0),
        ),
    );
    assert(pairs[i] == (k, v));
    lemma_insert_pairs_agreeing(base, pairs, k, v, i);
    lemma_remove_all_keeps(names_to_qualify(m), excluded, k);
}

} // verus!
