//! Qualification of the names of record types by the module path.
use crate::ast::{clone_definitions, clone_strings};
use crate::module::{
    clone_builtin_interfaces, clone_imports, fully_qualify_name, Export, Module, ModuleV, PathV,
    TypeDefinition,
};
use crate::types::{clone_named_types, group_type_view, view_named_types, view_named_types_rec, Type, TypeV};
use vstd::prelude::*;

verus! {

/// A type definition whose record type is renamed by the fully qualified name
/// of the definition; other type definitions are kept.
pub open spec fn qualify_record_id(path: PathV, definition: (Seq<char>, TypeV)) -> (Seq<char>, TypeV) {
    match definition.1 {
        TypeV::Record { elements, .. } => (
            definition.0,
            TypeV::Record { name: fully_qualify_name(path, definition.0), elements },
        ),
        _ => definition,
    }
}

/// Qualifies the identities of record types.
pub struct RecordIdQualifier {}

impl RecordIdQualifier {
    pub fn new() -> (r: Self) {
        RecordIdQualifier {}
    }

    /// The module with each record type definition named by the fully
    /// qualified name of the definition; all else is kept.
    pub fn qualify(&self, module: &Module) -> (r: Module)
        ensures
            r@ == (ModuleV {
                type_definitions: module@.type_definitions.map_values(
                    |d: (Seq<char>, TypeV)| qualify_record_id(module@.path, d),
                ),
                ..module@
            }),
    {
        broadcast use group_type_view;

        let ghost m = module@;
        let mut type_definitions: Vec<TypeDefinition> = Vec::new();
        let mut i: usize = 0;
        while i < module.type_definitions.len()
            invariant
                i <= module.type_definitions@.len(),
                m == module@,
                type_definitions@.len() == i,
                forall|j: int|
                    0 <= j < i ==> ((#[trigger] type_definitions@[j]).name@, type_definitions@[j].type_@)
                        == qualify_record_id(m.path, m.type_definitions[j]),
            decreases module.type_definitions.len() - i,
        {
            let definition = &module.type_definitions[i];
            let type_ = match &definition.type_ {
                Type::Record { name: _, elements } => {
                    let cloned = clone_named_types(elements);
                    proof {
                        crate::types::lemma_view_named_types_rec(cloned@);
                        crate::types::lemma_view_named_types_rec(elements@);
                    }
                    Type::Record {
                        name: module.path.fully_qualify_name(definition.name.as_str()),
                        elements: cloned,
                    }
                },
                _ => definition.type_.deep_clone(),
            };
            type_definitions.push(TypeDefinition { name: definition.name.clone(), type_ });
            i += 1;
        }
        let r = Module {
            path: module.path.deep_clone(),
            export: Export { names: clone_strings(&module.export.names) },
            imports: clone_imports(&module.imports),
            ffi_imports: clone_builtin_interfaces(&module.ffi_imports),
            type_definitions,
            definitions: clone_definitions(&module.definitions),
        };
        assert(r@.type_definitions =~= m.type_definitions.map_values(
            |d: (Seq<char>, TypeV)| qualify_record_id(m.path, d),
        ));
        r
    }
}

} // verus!
