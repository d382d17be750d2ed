//! Values for record types without elements.
use crate::ast::{clone_definitions, clone_strings, view_definitions, Definition, DefinitionV, ExprV, Expression, ValueDefinition};
use crate::module::{clone_builtin_interfaces, clone_imports, clone_type_definitions, Export, Module, ModuleV};
use crate::types::{group_type_view, view_named_types_rec, TypeV};
use vstd::prelude::*;

verus! {

/// The value definitions that a type definition adds: for a record type
/// without elements, a value of the same name constructing the record.
pub open spec fn elementless_record_values(definition: (Seq<char>, TypeV)) -> Seq<DefinitionV> {
    match definition.1 {
        TypeV::Record { elements, .. } => if elements.len() == 0 {
            seq![
                DefinitionV::Value {
                    name: definition.0,
                    body: ExprV::RecordConstruction { type_: definition.1, elements: Seq::empty() },
                    type_: definition.1,
                },
            ]
        } else {
            Seq::empty()
        },
        _ => Seq::empty(),
    }
}

/// The definitions that all type definitions add, in order.
pub open spec fn all_elementless_record_values(definitions: Seq<(Seq<char>, TypeV)>) -> Seq<DefinitionV>
    decreases definitions.len(),
{
    if definitions.len() == 0 {
        Seq::empty()
    } else {
        all_elementless_record_values(definitions.drop_last()) + elementless_record_values(
            definitions.last(),
        )
    }
}

/// Adds a value for each record type without elements.
pub struct ElementlessRecordPass {}

impl ElementlessRecordPass {
    pub fn new() -> (r: Self) {
        ElementlessRecordPass {}
    }

    /// The module with, after its definitions, a value definition for each
    /// record type definition without elements, named as the type.
    pub fn compile(&mut self, module: &Module) -> (r: Module)
        ensures
            r@ == (ModuleV {
                definitions: module@.definitions + all_elementless_record_values(
                    module@.type_definitions,
                ),
                ..module@
            }),
    {
        broadcast use group_type_view;

        let ghost m = module@;
        let mut definitions = clone_definitions(&module.definitions);
        let mut i: usize = 0;
        while i < module.type_definitions.len()
            invariant
                i <= module.type_definitions@.len(),
                m == module@,
                view_definitions(definitions@) == m.definitions + all_elementless_record_values(
                    m.type_definitions.take(i as int),
                ),
            decreases module.type_definitions.len() - i,
        {
            let definition = &module.type_definitions[i];
            let ghost before = view_definitions(definitions@);
            if let crate::types::Type::Record { name: _, elements } = &definition.type_ {
                if elements.len() == 0 {
                    proof {
                        crate::types::lemma_view_named_types_rec(elements@);
                    }
                    definitions.push(
                        Definition::ValueDefinition(
                            ValueDefinition {
                                name: definition.name.clone(),
                                body: Expression::RecordConstruction {
                                    type_: definition.type_.deep_clone(),
                                    elements: Vec::new(),
                                },
                                type_: definition.type_.deep_clone(),
                            },
                        ),
                    );
                    proof {
                        crate::ast::lemma_view_record_elements_rec(Seq::empty());
                    }
                    assert(view_definitions(definitions@) =~= before + elementless_record_values(
                        m.type_definitions[i as int],
                    ));
                } else {
                    proof {
                        crate::types::lemma_view_named_types_rec(elements@);
                    }
                    assert(elementless_record_values(m.type_definitions[i as int]) =~= Seq::<DefinitionV>::empty());
                    assert(view_definitions(definitions@) =~= before + elementless_record_values(
                        m.type_definitions[i as int],
                    ));
                }
            } else {
                assert(elementless_record_values(m.type_definitions[i as int]) =~= Seq::<DefinitionV>::empty());
                assert(view_definitions(definitions@) =~= before + elementless_record_values(
                    m.type_definitions[i as int],
                ));
            }
            assert(m.type_definitions.take(i + 1).drop_last() =~= m.type_definitions.take(i as int));
            assert(m.definitions + all_elementless_record_values(m.type_definitions.take(i + 1))
                =~= m.definitions + all_elementless_record_values(m.type_definitions.take(i as int))
                + elementless_record_values(m.type_definitions[i as int]));
            i += 1;
        }
        assert(m.type_definitions.take(i as int) =~= m.type_definitions);
        Module {
            path: module.path.deep_clone(),
            export: Export { names: clone_strings(&module.export.names) },
            imports: clone_imports(&module.imports),
            ffi_imports: clone_builtin_interfaces(&module.ffi_imports),
            type_definitions: clone_type_definitions(&module.type_definitions),
            definitions,
        }
    }
}

} // verus!
