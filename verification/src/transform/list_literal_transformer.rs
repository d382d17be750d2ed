//! Transformation of list literals into applications of list functions.
use crate::ast::{clone_list_elements, view_list_elements, ListElement, Expression};
use crate::configuration::{ListTypeConfiguration, ListTypeNames};
use crate::desugar::list_literal_desugarer::{desugar_list, desugar_list_elements};
use vstd::prelude::*;

verus! {

/// Transforms list literals with the functions of a list type configuration.
pub struct ListLiteralTransformer {
    configuration: ListTypeConfiguration,
}

impl ListLiteralTransformer {
    /// The names of the list functions used.
    pub closed spec fn names(&self) -> ListTypeNames {
        self.configuration@
    }

    pub fn new(configuration: ListTypeConfiguration) -> (r: Self)
        ensures
            r.names() == configuration@,
    {
        ListLiteralTransformer { configuration }
    }

    /// The expression that a list literal with the given elements becomes.
    pub fn transform(&self, elements: &Vec<ListElement>) -> (r: Expression)
        ensures
            r@ == desugar_list(
                self.names().empty_list_variable_name,
                self.names().concatenate_function_name,
                self.names().prepend_function_name,
                view_list_elements(elements@),
            ),
    {
        desugar_list_elements(
            self.configuration.empty_list_variable_name(),
            self.configuration.concatenate_function_name(),
            self.configuration.prepend_function_name(),
            clone_list_elements(elements),
        )
    }
}

} // verus!
