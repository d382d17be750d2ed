//! Desugaring of modules before and during type inference.
pub mod boolean_operation_desugarer;
pub mod function_type_argument_desugarer;
pub mod list_literal_desugarer;
pub mod list_type_desugarer;
pub mod non_variable_application;
pub mod not_equal_operation_desugarer;
pub mod partial_applications;
pub mod record_element_operator;
pub mod record_update_desugarer;
pub mod type_coercion_desugarer;
pub mod reference_types;

use crate::ast::{all_nodes_definitions, ExprV};
use crate::error::{CompileError, ErrorV};
use crate::expression_type_extractor::ExpressionTypeExtractor;
use crate::module::{Module, ModuleV};
use crate::module_environment_creator::ModuleEnvironmentCreator;
use crate::names::NameGeneratorV;
use crate::reference_type_resolver::{module_type_environment, ReferenceTypeResolver};
use crate::transform::typed_meta_transformer::{typed_module, view_module_result, TypedMetaTransformer};
use crate::type_canonicalizer::TypeCanonicalizer;
use crate::type_equality_checker::TypeEqualityChecker;
use function_type_argument_desugarer::{fta_module, FunctionTypeArgumentDesugarer};
use crate::passes::partial_application_pass::{compile_partial_applications, PartialApplicationPass};
use record_update_desugarer::{
    desugar_record_updates, lemma_desugar_record_updates_identity, not_record_update,
    RecordUpdateDesugarer,
};
use type_coercion_desugarer::TypeCoercionDesugarer;
use vstd::prelude::*;

verus! {

/// The desugaring that needs no types: record updates become record
/// constructions, exactly as [`RecordUpdateDesugarer::desugar`] does from a
/// fresh desugarer. Every record update reached before the first error must
/// name a type that resolves to a record type.
pub fn desugar_without_types(module: &Module) -> (r: Result<Module, CompileError>)
    requires
        desugar_record_updates(
            NameGeneratorV { prefix: "record_update_argument_"@, index: 0 },
            module@,
        ).0.3,
    ensures
        ({
            let (state, m) = desugar_record_updates(
                NameGeneratorV { prefix: "record_update_argument_"@, index: 0 },
                module@,
            );
            match state.2 {
                Some(x) => r matches Err(y) && y@ == x,
                None => r matches Ok(y) && y@ == m,
            }
        }),
{
    RecordUpdateDesugarer::new().desugar(module)
}


/// The desugaring that needs no types accepts a module without record updates
/// and gives it back unchanged.
pub proof fn lemma_desugar_without_types_identity(m: ModuleV)
    requires
        all_nodes_definitions(m.definitions, |e: ExprV| not_record_update(e)),
    ensures
        ({
            let (state, r) = desugar_record_updates(
                NameGeneratorV { prefix: "record_update_argument_"@, index: 0 },
                m,
            );
            state.3 && state.2 is None && r == m
        }),
{
    lemma_desugar_record_updates_identity(
        NameGeneratorV { prefix: "record_update_argument_"@, index: 0 },
        m,
    );
}

/// The desugaring that needs types: function type arguments are bound to
/// variables, values of function types become functions and partial
/// applications are removed, and values are coerced to union types; all with
/// the types that the input module sees. `None` where a stage does not
/// handle the module.
pub open spec fn desugar_with_types_spec(m: ModuleV) -> Option<Result<ModuleV, ErrorV>> {
    let env = module_type_environment(m);
    match fta_module(env, NameGeneratorV { prefix: "fta_function_"@, index: 0 }, m) {
        None => None,
        Some((_, Err(e))) => Some(Err(e)),
        Some((_, Ok(m1))) => {
            let (_, ok, m2) = compile_partial_applications(
                NameGeneratorV { prefix: "pa_argument_"@, index: 0 },
                m1,
            );
            if !ok {
                None
            } else {
                match typed_module::<TypeCoercionDesugarer>(env, (env, true), m2) {
                    None => None,
                    Some((_, r)) => Some(r),
                }
            }
        },
    }
}

fn create_type_extractor(module: &Module) -> (r: ExpressionTypeExtractor)
    ensures
        r.environment() == module_type_environment(module@),
        r.well_formed(),
{
    ExpressionTypeExtractor::new(
        TypeCanonicalizer::new(
            ReferenceTypeResolver::new(module),
            TypeEqualityChecker::new(ReferenceTypeResolver::new(module)),
        ),
    )
}

/// Desugars the module as [`desugar_with_types_spec`] says.
pub fn desugar_with_types(module: &Module) -> (r: Result<Module, CompileError>)
    requires
        desugar_with_types_spec(module@) is Some,
    ensures
        view_module_result(r) == desugar_with_types_spec(module@)->0,
{
    let mut function_type_arguments = FunctionTypeArgumentDesugarer::new(
        ReferenceTypeResolver::new(module),
        TypeEqualityChecker::new(ReferenceTypeResolver::new(module)),
        create_type_extractor(module),
    );
    let m1 = function_type_arguments.desugar(module)?;
    let m2 = PartialApplicationPass::new().compile(&m1)?;
    let coercions = TypeCoercionDesugarer::new(
        ReferenceTypeResolver::new(module),
        TypeEqualityChecker::new(ReferenceTypeResolver::new(module)),
        create_type_extractor(module),
    );
    let mut transformer = TypedMetaTransformer::new(
        coercions,
        ModuleEnvironmentCreator {},
        ReferenceTypeResolver::new(module),
    );
    transformer.transform(&m2)
}

} // verus!
