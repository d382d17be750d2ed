//! Errors of compilation.
use vstd::prelude::*;

verus! {

/// An error found while compiling a module.
#[derive(Debug)]
pub enum CompileError {
    AnyEqualOperation,
    CaseArgumentTypeInvalid,
    CircularInitialization,
    /// A chain of type references from the named type comes back to a name
    /// that it has passed, so following it never reaches a type.
    CircularTypeReference { name: String },
    /// Two definitions of a module share a name: the positions of the earlier
    /// and the later one among the module's definitions.
    DuplicateNames { name: String, earlier: usize, later: usize },
    ExportedNameNotFound { name: String },
    FunctionEqualOperation,
    MixedDefinitionsInLet,
    RecordEqualOperation,
    TypeNotFound { name: String },
    TypesNotMatched,
    VariableNotFound { name: String },
}

/// The model of a [`CompileError`].
pub enum ErrorV {
    AnyEqualOperation,
    CaseArgumentTypeInvalid,
    CircularInitialization,
    CircularTypeReference { name: Seq<char> },
    DuplicateNames { name: Seq<char>, earlier: nat, later: nat },
    ExportedNameNotFound { name: Seq<char> },
    FunctionEqualOperation,
    MixedDefinitionsInLet,
    RecordEqualOperation,
    TypeNotFound { name: Seq<char> },
    TypesNotMatched,
    VariableNotFound { name: Seq<char> },
}

impl View for CompileError {
    type V = ErrorV;

    open spec fn view(&self) -> ErrorV {
        match self {
            CompileError::AnyEqualOperation => ErrorV::AnyEqualOperation,
            CompileError::CaseArgumentTypeInvalid => ErrorV::CaseArgumentTypeInvalid,
            CompileError::CircularInitialization => ErrorV::CircularInitialization,
            CompileError::CircularTypeReference { name } => ErrorV::CircularTypeReference {
                name: name@,
            },
            CompileError::DuplicateNames { name, earlier, later } => ErrorV::DuplicateNames {
                name: name@,
                earlier: *earlier as nat,
                later: *later as nat,
            },
            CompileError::ExportedNameNotFound { name } => ErrorV::ExportedNameNotFound {
                name: name@,
            },
            CompileError::FunctionEqualOperation => ErrorV::FunctionEqualOperation,
            CompileError::MixedDefinitionsInLet => ErrorV::MixedDefinitionsInLet,
            CompileError::RecordEqualOperation => ErrorV::RecordEqualOperation,
            CompileError::TypeNotFound { name } => ErrorV::TypeNotFound { name: name@ },
            CompileError::TypesNotMatched => ErrorV::TypesNotMatched,
            CompileError::VariableNotFound { name } => ErrorV::VariableNotFound { name: name@ },
        }
    }
}

/// The model of a result: the model of its value or of its error.
pub open spec fn view_result<T: View>(r: Result<T, CompileError>) -> Result<T::V, ErrorV> {
    match r {
        Ok(v) => Ok(v@),
        Err(e) => Err(e@),
    }
}

} // verus!
