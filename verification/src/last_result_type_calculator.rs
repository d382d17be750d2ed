//! The result type of a function after a number of applications.
use crate::error::{view_result, CompileError, ErrorV};
use crate::reference_type_resolver::{resolve, ReferenceTypeResolver};
use crate::types::{Type, TypeV};
use vstd::prelude::*;

verus! {

/// The type left after applying `count` arguments to a value of type `t`,
/// resolving references at each step.
pub open spec fn last_result(env: Map<Seq<char>, TypeV>, t: TypeV, count: nat) -> Result<
    TypeV,
    ErrorV,
>
    decreases count,
{
    if count == 0 {
        Ok(t)
    } else {
        match resolve(env, t) {
            Err(e) => Err(e),
            Ok(r) => match r {
                TypeV::Function { result, .. } => last_result(env, *result, (count - 1) as nat),
                _ => Ok(r),
            },
        }
    }
}

/// Every step of the calculation meets a function type (or fails to resolve).
pub open spec fn applicable(env: Map<Seq<char>, TypeV>, t: TypeV, count: nat) -> bool
    decreases count,
{
    count == 0 || match resolve(env, t) {
        Err(_) => true,
        Ok(r) => match r {
            TypeV::Function { result, .. } => applicable(env, *result, (count - 1) as nat),
            _ => false,
        },
    }
}

/// Calculates result types of partially or fully applied functions.
pub struct LastResultTypeCalculator {
    pub reference_type_resolver: ReferenceTypeResolver,
}

impl LastResultTypeCalculator {
    pub fn new(reference_type_resolver: ReferenceTypeResolver) -> (r: Self)
        ensures
            r.reference_type_resolver == reference_type_resolver,
    {
        LastResultTypeCalculator { reference_type_resolver }
    }

    /// The type left after applying `argument_count` arguments to a value of the type.
    pub fn calculate(&self, type_: &Type, argument_count: usize) -> (r: Result<Type, CompileError>)
        requires
            applicable(self.reference_type_resolver.environment(), type_@, argument_count as nat),
        ensures
            view_result(r) == last_result(
                self.reference_type_resolver.environment(),
                type_@,
                argument_count as nat,
            ),
        decreases argument_count,
    {
        if argument_count == 0 {
            Ok(type_.deep_clone())
        } else {
            let resolved = self.reference_type_resolver.resolve(type_)?;
            match resolved {
                Type::Function { argument: _, result } => self.calculate(&*result, argument_count - 1),
                _ => {
                    assert(false);
                    Ok(resolved)
                },
            }
        }
    }
}

} // verus!
