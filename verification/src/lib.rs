pub mod types;
pub mod type_order;
pub mod ast;
pub mod names;
pub mod module;
pub mod error;
pub mod reference_type_resolver;
pub mod last_result_type_calculator;
pub mod type_comparability_checker;
pub mod module_environment_creator;
pub mod desugar;
pub mod configuration;
pub mod global_name_renamer;
pub mod global_name_map_creator;
pub mod global_name_qualifier;
pub mod global_name_validator;
pub mod record_id_qualifier;
pub mod module_interface_compiler;
pub mod pass;
pub mod passes;
pub mod type_equality_checker;
pub mod convert;
pub mod transform;
pub mod type_canonicalizer;
pub mod expression_type_extractor;
pub mod builtin_function_creator;
