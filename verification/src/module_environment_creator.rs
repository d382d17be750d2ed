//! The types of the variables that the definitions of a module can see.
use crate::ast::DefinitionV;
use crate::module::{BuiltinInterfaceV, ImportV, Module, ModuleV};
use crate::names::StringMap;
use crate::reference_type_resolver::{insert_named_types, insert_pairs};
use crate::types::{Type, TypeV};
use vstd::prelude::*;

verus! {

/// The functions and then the variables of all imported interfaces inserted in order.
pub open spec fn insert_import_variables(m: Map<Seq<char>, TypeV>, imports: Seq<ImportV>) -> Map<
    Seq<char>,
    TypeV,
>
    decreases imports.len(),
{
    if imports.len() == 0 {
        m
    } else {
        insert_pairs(
            insert_pairs(
                insert_import_variables(m, imports.drop_last()),
                imports.last().interface.functions,
            ),
            imports.last().interface.variables,
        )
    }
}

/// The functions of all foreign interfaces inserted in order.
pub open spec fn insert_builtin_functions(
    m: Map<Seq<char>, TypeV>,
    interfaces: Seq<BuiltinInterfaceV>,
) -> Map<Seq<char>, TypeV>
    decreases interfaces.len(),
{
    if interfaces.len() == 0 {
        m
    } else {
        insert_pairs(insert_builtin_functions(m, interfaces.drop_last()), interfaces.last().functions)
    }
}

/// The names and types of definitions.
pub open spec fn definition_types(definitions: Seq<DefinitionV>) -> Seq<(Seq<char>, TypeV)> {
    definitions.map_values(|d: DefinitionV| (d.name(), d.type_()))
}

/// The variables that a module sees with their types: the functions and
/// variables of its imports, the functions of its foreign imports and its own
/// definitions, later names replacing earlier ones.
pub open spec fn module_variables(m: ModuleV) -> Map<Seq<char>, TypeV> {
    insert_pairs(
        insert_builtin_functions(insert_import_variables(Map::empty(), m.imports), m.ffi_imports),
        definition_types(m.definitions),
    )
}

/// Creates the environment of variables of a module.
pub struct ModuleEnvironmentCreator {}

impl ModuleEnvironmentCreator {
    /// The variables that the module sees, with their types.
    pub fn create(module: &Module) -> (r: StringMap<Type>)
        ensures
            r@ == module_variables(module@),
    {
        let mut map: StringMap<Type> = StringMap::new();
        let ghost m = module@;
        let mut i: usize = 0;
        while i < module.imports.len()
            invariant
                i <= module.imports@.len(),
                m == module@,
                map@ == insert_import_variables(Map::empty(), m.imports.take(i as int)),
            decreases module.imports.len() - i,
        {
            insert_named_types(&mut map, &module.imports[i].module_interface.functions);
            insert_named_types(&mut map, &module.imports[i].module_interface.variables);
            assert(m.imports.take(i + 1).drop_last() =~= m.imports.take(i as int));
            i += 1;
        }
        assert(m.imports.take(i as int) =~= m.imports);
        let ghost base = map@;
        let mut i: usize = 0;
        while i < module.ffi_imports.len()
            invariant
                i <= module.ffi_imports@.len(),
                m == module@,
                base == insert_import_variables(Map::empty(), m.imports),
                map@ == insert_builtin_functions(base, m.ffi_imports.take(i as int)),
            decreases module.ffi_imports.len() - i,
        {
            insert_named_types(&mut map, &module.ffi_imports[i].functions);
            assert(m.ffi_imports.take(i + 1).drop_last() =~= m.ffi_imports.take(i as int));
            i += 1;
        }
        assert(m.ffi_imports.take(i as int) =~= m.ffi_imports);
        let ghost base = map@;
        let mut i: usize = 0;
        while i < module.definitions.len()
            invariant
                i <= module.definitions@.len(),
                m == module@,
                map@ == insert_pairs(base, definition_types(m.definitions).take(i as int)),
            decreases module.definitions.len() - i,
        {
            let definition = &module.definitions[i];
            map.insert(definition.name().clone(), definition.type_().deep_clone());
            assert(definition_types(m.definitions).take(i + 1).drop_last()
                =~= definition_types(m.definitions).take(i as int));
            i += 1;
        }
        assert(definition_types(m.definitions).take(i as int) =~= definition_types(m.definitions));
        map
    }
}

} // verus!
