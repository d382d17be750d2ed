//! A compilation of whole modules.
use crate::error::{CompileError, ErrorV};
use crate::module::{Module, ModuleV};
use crate::transform::typed_meta_transformer::view_module_result;
use vstd::prelude::*;

verus! {

/// A pass that compiles a module into another one or fails.
pub trait Pass: Sized {
    /// Whether the pass handles the module.
    spec fn handles(&self, module: ModuleV) -> bool;

    /// What compiling the module gives.
    spec fn compiled(&self, module: ModuleV) -> Result<ModuleV, ErrorV>;

    /// Whether `after` is the pass as compiling the module leaves it.
    spec fn leaves(&self, module: ModuleV, after: Self) -> bool;

    fn compile(&mut self, module: &Module) -> (r: Result<Module, CompileError>)
        requires
            old(self).handles(module@),
        ensures
            view_module_result(r) == old(self).compiled(module@),
            old(self).leaves(module@, *final(self)),
    ;
}

} // verus!
