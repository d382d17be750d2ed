pub mod equal_operation_transformer;
pub mod function_type_argument_transformer;
pub mod list_literal_transformer;
pub mod not_equal_operation_transformer;
pub mod typed_meta_transformer;
pub mod type_coercion_transformer;
