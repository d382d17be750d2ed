//! Validation of the names that a module defines.
use crate::ast::DefinitionV;
use crate::error::{CompileError, ErrorV};
use crate::module::Module;
use crate::names::str_equal;
use vstd::prelude::*;

verus! {

/// Whether the definition at index `j` repeats the name of an earlier one.
pub open spec fn repeats_earlier_name(definitions: Seq<DefinitionV>, j: int) -> bool {
    exists|i: int| 0 <= i < j && (#[trigger] definitions[i]).name() == definitions[j].name()
}

/// Validates the names of the definitions of a module.
pub struct GlobalNameValidator {}

impl GlobalNameValidator {
    pub fn new() -> (r: Self) {
        GlobalNameValidator {}
    }

    /// Fails at the first definition whose name an earlier definition already
    /// has, naming both; succeeds when all names are distinct.
    pub fn validate(&self, module: &Module) -> (r: Result<(), CompileError>)
        ensures
            r is Ok <==> forall|j: int|
                0 <= j < module@.definitions.len() ==> !repeats_earlier_name(module@.definitions, j),
            r matches Err(e) ==> exists|i: int, j: int|
                0 <= i < j < module@.definitions.len()
                    && module@.definitions[i].name() == module@.definitions[j].name()
                    && (forall|k: int| 0 <= k < j ==> !repeats_earlier_name(module@.definitions, k))
                    && e@ == (ErrorV::DuplicateNames {
                        name: module@.definitions[j].name(),
                        earlier: i as nat,
                        later: j as nat,
                    }),
    {
        let ghost ds = module@.definitions;
        let mut j: usize = 0;
        while j < module.definitions.len()
            invariant
                j <= module.definitions@.len(),
                ds == module@.definitions,
                forall|k: int| 0 <= k < j ==> !repeats_earlier_name(ds, k),
            decreases module.definitions.len() - j,
        {
            let name = module.definitions[j].name();
            assert(ds[j as int] == module.definitions@[j as int]@);
            let mut i: usize = 0;
            while i < j
                invariant
                    i <= j < module.definitions@.len(),
                    ds == module@.definitions,
                    name@ == ds[j as int].name(),
                    forall|k: int| 0 <= k < j ==> !repeats_earlier_name(ds, k),
                    forall|k: int| 0 <= k < i ==> (#[trigger] ds[k]).name() != ds[j as int].name(),
                decreases j - i,
            {
                assert(ds[i as int] == module.definitions@[i as int]@);
                if str_equal(module.definitions[i].name().as_str(), name.as_str()) {
                    proof {
                        assert(ds[i as int].name() == ds[j as int].name());
                        assert(repeats_earlier_name(ds, j as int));
                    }
                    return Err(CompileError::DuplicateNames { name: name.clone(), earlier: i, later: j });
                }
                i += 1;
            }
            j += 1;
        }
        Ok(())
    }
}

} // verus!
