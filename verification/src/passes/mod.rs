//! Passes over whole modules.
pub mod elementless_record_pass;
pub mod list_literal_pass;
pub mod partial_application_pass;
pub mod typed_meta_pass;
