//! Replacement of type references by the types they name.
use crate::ast::{clone_strings, view_definitions, DefinitionV};
use crate::module::{
    clone_builtin_interfaces, clone_imports, qualify_name, view_type_definitions, Export, ImportV,
    Module, ModuleV, TypeDefinition,
};
use crate::names::StringMap;
use crate::reference_type_resolver::{insert_pairs, module_type_environment, ReferenceTypeResolver};
use crate::types::{substitute_references, view_named_types, Type, TypeV};
use vstd::prelude::*;

verus! {

/// The types of an import under the names by which the importing module
/// refers to them: qualified by the module name for a qualified import.
pub open spec fn import_type_names(import: ImportV) -> Seq<(Seq<char>, TypeV)> {
    import.interface.types.map_values(
        |p: (Seq<char>, TypeV)|
            (
                if import.qualified {
                    qualify_name(import.interface.path, p.0)
                } else {
                    p.0
                },
                p.1,
            ),
    )
}

/// The types of all imports inserted in order under their local names.
pub open spec fn insert_local_import_types(m: Map<Seq<char>, TypeV>, imports: Seq<ImportV>) -> Map<
    Seq<char>,
    TypeV,
>
    decreases imports.len(),
{
    if imports.len() == 0 {
        m
    } else {
        insert_pairs(insert_local_import_types(m, imports.drop_last()), import_type_names(imports.last()))
    }
}

/// The named types by which references in a module are replaced: the types
/// of its imports under their local names, then its own type definitions.
pub open spec fn reference_environment(m: ModuleV) -> Map<Seq<char>, TypeV> {
    insert_pairs(insert_local_import_types(Map::empty(), m.imports), m.type_definitions)
}

/// The module with the types of its type definitions and definitions
/// replaced by the given function, and everything else kept.
pub open spec fn with_substituted_types(m: ModuleV, env: Map<Seq<char>, TypeV>) -> ModuleV {
    ModuleV {
        type_definitions: m.type_definitions.map_values(
            |p: (Seq<char>, TypeV)| (p.0, substitute_references(p.1, env)),
        ),
        definitions: m.definitions.map_values(
            |d: DefinitionV| d.with_type(substitute_references(d.type_(), env)),
        ),
        ..m
    }
}

/// A module with the given type definitions and definitions and the other
/// parts of `module` copied.
fn rebuild_with_types(module: &Module, env: &StringMap<Type>) -> (r: Module)
    ensures
        r@ == with_substituted_types(module@, env@),
{
    let ghost m = module@;
    let mut type_definitions: Vec<TypeDefinition> = Vec::new();
    let mut i: usize = 0;
    while i < module.type_definitions.len()
        invariant
            i <= module.type_definitions@.len(),
            m == module@,
            type_definitions@.len() == i,
            forall|j: int|
                0 <= j < i ==> (#[trigger] type_definitions@[j]).name@ == m.type_definitions[j].0
                    && type_definitions@[j].type_@ == substitute_references(
                    m.type_definitions[j].1,
                    env@,
                ),
        decreases module.type_definitions.len() - i,
    {
        let definition = &module.type_definitions[i];
        type_definitions.push(
            TypeDefinition {
                name: definition.name.clone(),
                type_: definition.type_.resolve_reference_types(env),
            },
        );
        i += 1;
    }
    let mut definitions: Vec<crate::ast::Definition> = Vec::new();
    let mut i: usize = 0;
    while i < module.definitions.len()
        invariant
            i <= module.definitions@.len(),
            m == module@,
            definitions@.len() == i,
            forall|j: int|
                0 <= j < i ==> (#[trigger] definitions@[j])@ == m.definitions[j].with_type(
                    substitute_references(m.definitions[j].type_(), env@),
                ),
        decreases module.definitions.len() - i,
    {
        let definition = &module.definitions[i];
        let t = definition.type_().resolve_reference_types(env);
        definitions.push(definition.with_type(t));
        i += 1;
    }
    let r = Module {
        path: module.path.deep_clone(),
        export: Export { names: clone_strings(&module.export.names) },
        imports: clone_imports(&module.imports),
        ffi_imports: clone_builtin_interfaces(&module.ffi_imports),
        type_definitions,
        definitions,
    };
    assert(r@.type_definitions =~= with_substituted_types(m, env@).type_definitions);
    assert(r@.definitions =~= with_substituted_types(m, env@).definitions);
    r
}

/// Replaces references in the types of type definitions and definitions by
/// the types they name among the module's imports (under their local names)
/// and type definitions.
pub fn remove_reference_types(module: &Module) -> (r: Module)
    ensures
        r@ == with_substituted_types(module@, reference_environment(module@)),
{
    let ghost m = module@;
    let mut environment: StringMap<Type> = StringMap::new();
    let mut i: usize = 0;
    while i < module.imports.len()
        invariant
            i <= module.imports@.len(),
            m == module@,
            environment@ == insert_local_import_types(Map::empty(), m.imports.take(i as int)),
        decreases module.imports.len() - i,
    {
        let import = &module.imports[i];
        let interface = &import.module_interface;
        let ghost base = environment@;
        let ghost pairs = import_type_names(m.imports[i as int]);
        let mut j: usize = 0;
        while j < interface.types.len()
            invariant
                j <= interface.types@.len(),
                m == module@,
                i < module.imports@.len(),
                *import == module.imports@[i as int],
                *interface == import.module_interface,
                pairs == import_type_names(m.imports[i as int]),
                pairs.len() == interface.types@.len(),
                environment@ == insert_pairs(base, pairs.take(j as int)),
            decreases interface.types.len() - j,
        {
            let name = if import.qualified {
                interface.path.qualify_name(interface.types[j].0.as_str())
            } else {
                interface.types[j].0.clone()
            };
            assert(view_named_types(interface.types@)[j as int] == (
                interface.types@[j as int].0@,
                interface.types@[j as int].1@,
            ));
            assert(m.imports[i as int] == module.imports@[i as int]@);
            assert(pairs[j as int] == (name@, interface.types@[j as int].1@));
            environment.insert(name, interface.types[j].1.deep_clone());
            assert(pairs.take(j + 1).drop_last() =~= pairs.take(j as int));
            j += 1;
        }
        assert(pairs.take(j as int) =~= pairs);
        assert(m.imports.take(i + 1).drop_last() =~= m.imports.take(i as int));
        i += 1;
    }
    assert(m.imports.take(i as int) =~= m.imports);
    let ghost base = environment@;
    let mut i: usize = 0;
    while i < module.type_definitions.len()
        invariant
            i <= module.type_definitions@.len(),
            m == module@,
            environment@ == insert_pairs(base, m.type_definitions.take(i as int)),
        decreases module.type_definitions.len() - i,
    {
        environment.insert(
            module.type_definitions[i].name.clone(),
            module.type_definitions[i].type_.deep_clone(),
        );
        assert(m.type_definitions.take(i + 1).drop_last() =~= m.type_definitions.take(i as int));
        i += 1;
    }
    assert(m.type_definitions.take(i as int) =~= m.type_definitions);
    rebuild_with_types(module, &environment)
}

/// Replaces references in the types of definitions (not type definitions)
/// by the types they name among all types the module sees.
pub fn resolve_function_reference_types(module: &Module) -> (r: Module)
    ensures
        r@.path == module@.path,
        r@.export == module@.export,
        r@.imports == module@.imports,
        r@.ffi_imports == module@.ffi_imports,
        r@.type_definitions == module@.type_definitions,
        r@.definitions == module@.definitions.map_values(
            |d: DefinitionV|
                d.with_type(substitute_references(d.type_(), module_type_environment(module@))),
        ),
{
    let resolver = ReferenceTypeResolver::new(module);
    let environment = resolver.into_environment();
    let r = rebuild_with_types(module, &environment);
    let ghost m = module@;
    let ghost env = module_type_environment(m);
    let mut type_definitions: Vec<TypeDefinition> = Vec::new();
    let mut i: usize = 0;
    while i < module.type_definitions.len()
        invariant
            i <= module.type_definitions@.len(),
            m == module@,
            type_definitions@.len() == i,
            forall|j: int|
                0 <= j < i ==> (#[trigger] type_definitions@[j]).name@ == m.type_definitions[j].0
                    && type_definitions@[j].type_@ == m.type_definitions[j].1,
        decreases module.type_definitions.len() - i,
    {
        type_definitions.push(
            TypeDefinition {
                name: module.type_definitions[i].name.clone(),
                type_: module.type_definitions[i].type_.deep_clone(),
            },
        );
        i += 1;
    }
    let mut r = r;
    r.type_definitions = type_definitions;
    assert(r@.type_definitions =~= m.type_definitions);
    r
}

} // verus!
