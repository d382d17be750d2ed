//! Compilation of the interface that a module offers to its importers.
use crate::ast::{clone_strings, view_strings, DefinitionV};
use crate::error::{CompileError, ErrorV};
use crate::module::{fully_qualify_name, InterfaceV, Module, ModuleInterface, ModuleV};
use crate::names::str_equal;
use crate::types::{view_named_types, Type, TypeV};
use vstd::prelude::*;

verus! {

/// Whether the module defines a type or a value under the fully qualified
/// form of the exported name.
pub open spec fn export_defined(m: ModuleV, name: Seq<char>) -> bool {
    let qualified = fully_qualify_name(m.path, name);
    (exists|i: int| 0 <= i < m.type_definitions.len() && #[trigger] m.type_definitions[i].0 == qualified)
        || (exists|i: int| 0 <= i < m.definitions.len() && (#[trigger] m.definitions[i]).name() == qualified)
}

/// The interface of a module whose exports are all defined.
pub open spec fn module_interface(m: ModuleV) -> InterfaceV {
    InterfaceV {
        path: m.path,
        exported_names: m.export,
        types: m.type_definitions,
        functions: Seq::empty(),
        variables: m.definitions.map_values(|d: DefinitionV| (d.name(), d.type_())),
    }
}

/// Compiles module interfaces.
pub struct ModuleInterfaceCompiler {}

impl ModuleInterfaceCompiler {
    pub fn new() -> (r: Self) {
        ModuleInterfaceCompiler {}
    }

    /// The interface of the module: its path, exported names, type
    /// definitions and the names and types of its definitions; fails with the
    /// first exported name that the module does not define.
    pub fn compile(&self, module: &Module) -> (r: Result<ModuleInterface, CompileError>)
        ensures
            r matches Ok(i) ==> i@ == module_interface(module@),
            r is Ok <==> forall|k: int|
                0 <= k < module@.export.len() ==> export_defined(module@, #[trigger] module@.export[k]),
            r matches Err(e) ==> exists|k: int|
                0 <= k < module@.export.len() && !export_defined(module@, #[trigger] module@.export[k])
                    && (forall|l: int| 0 <= l < k ==> export_defined(module@, module@.export[l]))
                    && e@ == (ErrorV::ExportedNameNotFound { name: module@.export[k] }),
    {
        let ghost m = module@;
        let mut k: usize = 0;
        while k < module.export.names.len()
            invariant
                k <= module.export.names@.len(),
                m == module@,
                forall|l: int| 0 <= l < k ==> export_defined(m, #[trigger] m.export[l]),
            decreases module.export.names.len() - k,
        {
            let name = &module.export.names[k];
            let qualified = module.path.fully_qualify_name(name.as_str());
            let mut found = false;
            let mut i: usize = 0;
            while i < module.type_definitions.len()
                invariant
                    i <= module.type_definitions@.len(),
                    m == module@,
                    found ==> exists|j: int| 0 <= j < m.type_definitions.len() && #[trigger] m.type_definitions[j].0 == qualified@,
                    !found ==> forall|j: int| 0 <= j < i ==> #[trigger] m.type_definitions[j].0 != qualified@,
                decreases module.type_definitions.len() - i,
            {
                if str_equal(module.type_definitions[i].name.as_str(), qualified.as_str()) {
                    assert(m.type_definitions[i as int].0 == qualified@);
                    found = true;
                }
                i += 1;
            }
            let mut i: usize = 0;
            while i < module.definitions.len()
                invariant
                    i <= module.definitions@.len(),
                    m == module@,
                    found ==> (exists|j: int| 0 <= j < m.type_definitions.len() && #[trigger] m.type_definitions[j].0 == qualified@)
                        || (exists|j: int| 0 <= j < m.definitions.len() && (#[trigger] m.definitions[j]).name() == qualified@),
                    !found ==> forall|j: int| 0 <= j < m.type_definitions.len() ==> #[trigger] m.type_definitions[j].0 != qualified@,
                    !found ==> forall|j: int| 0 <= j < i ==> (#[trigger] m.definitions[j]).name() != qualified@,
                decreases module.definitions.len() - i,
            {
                let defined = module.definitions[i].name();
                assert(m.definitions[i as int] == module.definitions@[i as int]@);
                if str_equal(defined.as_str(), qualified.as_str()) {
                    found = true;
                }
                i += 1;
            }
            assert(m.export[k as int] == name@);
            if !found {
                return Err(CompileError::ExportedNameNotFound { name: name.clone() });
            }
            k += 1;
        }
        let mut variables: Vec<(String, Type)> = Vec::new();
        let mut i: usize = 0;
        while i < module.definitions.len()
            invariant
                i <= module.definitions@.len(),
                m == module@,
                variables@.len() == i,
                forall|j: int|
                    0 <= j < i ==> ((#[trigger] variables@[j]).0@, variables@[j].1@) == (
                        m.definitions[j].name(),
                        m.definitions[j].type_(),
                    ),
            decreases module.definitions.len() - i,
        {
            let definition = &module.definitions[i];
            assert(m.definitions[i as int] == module.definitions@[i as int]@);
            variables.push((definition.name().clone(), definition.type_().deep_clone()));
            i += 1;
        }
        let mut types: Vec<(String, Type)> = Vec::new();
        let mut i: usize = 0;
        while i < module.type_definitions.len()
            invariant
                i <= module.type_definitions@.len(),
                m == module@,
                types@.len() == i,
                forall|j: int|
                    0 <= j < i ==> ((#[trigger] types@[j]).0@, types@[j].1@) == m.type_definitions[j],
            decreases module.type_definitions.len() - i,
        {
            types.push(
                (module.type_definitions[i].name.clone(), module.type_definitions[i].type_.deep_clone()),
            );
            i += 1;
        }
        let r = ModuleInterface {
            path: module.path.deep_clone(),
            exported_names: clone_strings(&module.export.names),
            types,
            functions: Vec::new(),
            variables,
        };
        assert(r@.types =~= m.type_definitions);
        assert(r@.functions =~= Seq::<(Seq<char>, TypeV)>::empty());
        assert(r@.variables =~= m.definitions.map_values(|d: DefinitionV| (d.name(), d.type_())));
        Ok(r)
    }
}

} // verus!
