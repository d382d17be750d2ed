//! The map from the names a module uses to fully qualified names.
use crate::ast::DefinitionV;
use crate::module::{fully_qualify_name, qualify_name, ImportV, Module, ModuleV, PathV};
use crate::names::StringMap;
use crate::reference_type_resolver::{insert_pairs, lemma_insert_pairs_agreeing};
use vstd::prelude::*;

verus! {

/// The exported names of an import under their local names, each mapped to
/// its fully qualified name.
pub open spec fn import_name_pairs(import: ImportV) -> Seq<(Seq<char>, Seq<char>)> {
    import.interface.exported_names.map_values(
        |name: Seq<char>|
            (
                if import.qualified {
                    qualify_name(import.interface.path, name)
                } else {
                    name
                },
                fully_qualify_name(import.interface.path, name),
            ),
    )
}

/// The exported names of all imports inserted in order.
pub open spec fn insert_import_names(m: Map<Seq<char>, Seq<char>>, imports: Seq<ImportV>) -> Map<
    Seq<char>,
    Seq<char>,
>
    decreases imports.len(),
{
    if imports.len() == 0 {
        m
    } else {
        insert_pairs(insert_import_names(m, imports.drop_last()), import_name_pairs(imports.last()))
    }
}

/// Names of a module's own type definitions and definitions, each mapped to
/// its name fully qualified by the module's path.
pub open spec fn own_name_pairs(path: PathV, names: Seq<Seq<char>>) -> Seq<(Seq<char>, Seq<char>)> {
    names.map_values(|name: Seq<char>| (name, fully_qualify_name(path, name)))
}

/// The map of global names of a module: exported names of imports, then
/// type definition names, then definition names.
pub open spec fn global_names(m: ModuleV) -> Map<Seq<char>, Seq<char>> {
    insert_pairs(
        insert_pairs(
            insert_import_names(Map::empty(), m.imports),
            own_name_pairs(m.path, m.type_definitions.map_values(|p: (Seq<char>, crate::types::TypeV)| p.0)),
        ),
        own_name_pairs(m.path, m.definitions.map_values(|d: DefinitionV| d.name())),
    )
}

/// Creates the map of global names of a module.
pub struct GlobalNameMapCreator {}

impl GlobalNameMapCreator {
    /// The map from the names that the module uses for imported and own
    /// global names to their fully qualified names.
    pub fn create(module: &Module) -> (r: StringMap<String>)
        ensures
            r@ == global_names(module@),
    {
        let ghost m = module@;
        let mut names: StringMap<String> = StringMap::new();
        let mut i: usize = 0;
        while i < module.imports.len()
            invariant
                i <= module.imports@.len(),
                m == module@,
                names@ == insert_import_names(Map::empty(), m.imports.take(i as int)),
            decreases module.imports.len() - i,
        {
            let import = &module.imports[i];
            let interface = &import.module_interface;
            let ghost base = names@;
            let ghost pairs = import_name_pairs(m.imports[i as int]);
            assert(m.imports[i as int] == module.imports@[i as int]@);
            let mut j: usize = 0;
            while j < interface.exported_names.len()
                invariant
                    j <= interface.exported_names@.len(),
                    i < module.imports@.len(),
                    m == module@,
                    *import == module.imports@[i as int],
                    *interface == import.module_interface,
                    pairs == import_name_pairs(m.imports[i as int]),
                    m.imports[i as int] == import@,
                    pairs.len() == interface.exported_names@.len(),
                    names@ == insert_pairs(base, pairs.take(j as int)),
                decreases interface.exported_names.len() - j,
            {
                let name = interface.exported_names[j].as_str();
                let key = if import.qualified {
                    interface.path.qualify_name(name)
                } else {
                    name.to_owned()
                };
                let value = interface.path.fully_qualify_name(name);
                assert(pairs[j as int] == (key@, value@));
                names.insert(key, value);
                assert(pairs.take(j + 1).drop_last() =~= pairs.take(j as int));
                j += 1;
            }
            assert(pairs.take(j as int) =~= pairs);
            assert(m.imports.take(i + 1).drop_last() =~= m.imports.take(i as int));
            i += 1;
        }
        assert(m.imports.take(i as int) =~= m.imports);
        let ghost base = names@;
        let ghost pairs = own_name_pairs(m.path, m.type_definitions.map_values(|p: (Seq<char>, crate::types::TypeV)| p.0));
        let mut i: usize = 0;
        while i < module.type_definitions.len()
            invariant
                i <= module.type_definitions@.len(),
                m == module@,
                pairs == own_name_pairs(m.path, m.type_definitions.map_values(|p: (Seq<char>, crate::types::TypeV)| p.0)),
                names@ == insert_pairs(base, pairs.take(i as int)),
            decreases module.type_definitions.len() - i,
        {
            let name = &module.type_definitions[i].name;
            let value = module.path.fully_qualify_name(name.as_str());
            assert(pairs[i as int] == (name@, value@));
            names.insert(name.clone(), value);
            assert(pairs.take(i + 1).drop_last() =~= pairs.take(i as int));
            i += 1;
        }
        assert(pairs.take(i as int) =~= pairs);
        let ghost base = names@;
        let ghost pairs = own_name_pairs(m.path, m.definitions.map_values(|d: DefinitionV| d.name()));
        let mut i: usize = 0;
        while i < module.definitions.len()
            invariant
                i <= module.definitions@.len(),
                m == module@,
                pairs == own_name_pairs(m.path, m.definitions.map_values(|d: DefinitionV| d.name())),
                names@ == insert_pairs(base, pairs.take(i as int)),
            decreases module.definitions.len() - i,
        {
            let name = module.definitions[i].name();
            let value = module.path.fully_qualify_name(name.as_str());
            assert(pairs[i as int] == (name@, value@));
            names.insert(name.clone(), value);
            assert(pairs.take(i + 1).drop_last() =~= pairs.take(i as int));
            i += 1;
        }
        assert(pairs.take(i as int) =~= pairs);
        names
    }
}


/// Every definition of a module is named in the global name map by its name
/// fully qualified by the module's path.
pub proof fn lemma_definition_names_fully_qualified(m: ModuleV, i: int)
    requires
        0 <= i < m.definitions.len(),
    ensures
        global_names(m).contains_key(m.definitions[i].name()),
        global_names(m)[m.definitions[i].name()] == fully_qualify_name(
            m.path,
            m.definitions[i].name(),
        ),
{
    let k = m.definitions[i].name();
    let pairs = own_name_pairs(m.path, m.definitions.map_values(|d: DefinitionV| d.name()));
    assert(pairs[i] == (k, fully_qualify_name(m.path, k)));
    lemma_insert_pairs_agreeing(
        insert_pairs(
            insert_import_names(Map::empty(), m.imports),
            own_name_pairs(
                m.path,
                m.type_definitions.map_values(|p: (Seq<char>, crate::types::TypeV)| p.0),
            ),
        ),
        pairs,
        k,
        fully_qualify_name(m.path, k),
        i,
    );
}

} // verus!
