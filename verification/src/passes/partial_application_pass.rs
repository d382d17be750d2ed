//! The pass that removes partial applications after type inference.
use crate::ast::{view_strings, Definition, DefinitionV, FunctionDefinition};
use crate::convert::{
    convert_all_definitions_spec, convert_definitions, lemma_convert_module_definitions_len,
    DefinitionConverter,
};
use crate::desugar::partial_applications::{
    all_saturated, lemma_module_definitions_saturated, saturated, ArgumentComplement,
};
use crate::error::{CompileError, ErrorV};
use crate::module::{Module, ModuleV};
use crate::names::{NameGenerator, NameGeneratorV};
use crate::pass::Pass;
use vstd::prelude::*;

verus! {

/// A value definition of a function type becomes a function definition
/// without arguments; other definitions are kept.
pub open spec fn function_value_definition(d: DefinitionV) -> DefinitionV {
    match d {
        DefinitionV::Value { name, body, type_ } => if type_ is Function {
            DefinitionV::Function { name, arguments: Seq::empty(), body, type_ }
        } else {
            d
        },
        _ => d,
    }
}

/// Turns values of function types into function definitions.
pub struct FunctionValues {}

impl View for FunctionValues {
    type V = ();

    open spec fn view(&self) -> () {
        ()
    }
}

impl DefinitionConverter for FunctionValues {
    open spec fn converted_definition(state: (), d: DefinitionV) -> ((), DefinitionV) {
        ((), function_value_definition(d))
    }

    fn convert_definition(&mut self, d: Definition) -> (r: Definition) {
        match d {
            Definition::ValueDefinition(v) => if v.type_.is_function() {
                let r = Definition::FunctionDefinition(
                    FunctionDefinition {
                        name: v.name,
                        arguments: Vec::new(),
                        body: v.body,
                        type_: v.type_,
                    },
                );
                assert(r@->Function_arguments =~= Seq::<Seq<char>>::empty());
                r
            } else {
                Definition::ValueDefinition(v)
            },
            _ => d,
        }
    }
}

/// The result of the pass: values of function types become functions, then
/// function definitions get their omitted arguments; with the generator after
/// it and whether the module was in the supported form.
pub open spec fn compile_partial_applications(names: NameGeneratorV, m: ModuleV) -> (
    NameGeneratorV,
    bool,
    ModuleV,
) {
    let (_, m1) = convert_all_definitions_spec::<FunctionValues>((), m);
    let (s2, m2) = convert_all_definitions_spec::<ArgumentComplement>((names, true, true), m1);
    (s2.0, s2.1, m2)
}

/// Removes partial applications by complementing omitted arguments.
pub struct PartialApplicationPass {
    name_generator: NameGenerator,
}

impl PartialApplicationPass {
    /// The generator of the names of complemented arguments.
    pub closed spec fn names(&self) -> NameGeneratorV {
        self.name_generator@
    }

    pub fn new() -> (r: Self)
        ensures
            r.names() == (NameGeneratorV { prefix: "pa_argument_"@, index: 0 }),
    {
        PartialApplicationPass { name_generator: NameGenerator::new("pa_argument_") }
    }

    /// Compiles the module as [`compile_partial_applications`] says; the
    /// module must be in the form that it accepts.
    pub fn compile(&mut self, module: &Module) -> (r: Result<Module, CompileError>)
        requires
            compile_partial_applications(old(self).names(), module@).1,
        ensures
            ({
                let (g, ok, m) = compile_partial_applications(old(self).names(), module@);
                final(self).names() == g && (r matches Ok(x) && x@ == m)
            }),
    {
        let (_, m1) = convert_definitions(FunctionValues {}, module);
        let mut names = NameGenerator::new("");
        std::mem::swap(&mut names, &mut self.name_generator);
        let functions = ArgumentComplement { names, ok: true, pass: true };
        let (functions, m2) = convert_definitions(functions, &m1);
        self.name_generator = functions.names;
        Ok(m2)
    }
}


/// When the pass goes through, every function definition of the module
/// takes as many arguments as its type has.
pub proof fn lemma_partial_applications_compiled(names: NameGeneratorV, m: ModuleV)
    ensures
        ({
            let (g, ok, r) = compile_partial_applications(names, m);
            ok ==> forall|i: int| 0 <= i < r.definitions.len() ==> saturated(#[trigger] r.definitions[i])
        }),
{
    let (_, m1) = convert_all_definitions_spec::<FunctionValues>((), m);
    lemma_module_definitions_saturated((names, true, true), m1.definitions);
    lemma_convert_module_definitions_len::<ArgumentComplement>((names, true, true), m1.definitions);
    reveal(all_saturated);
}

impl Pass for PartialApplicationPass {
    open spec fn handles(&self, module: ModuleV) -> bool {
        compile_partial_applications(self.names(), module).1
    }

    open spec fn compiled(&self, module: ModuleV) -> Result<ModuleV, ErrorV> {
        Ok(compile_partial_applications(self.names(), module).2)
    }

    open spec fn leaves(&self, module: ModuleV, after: Self) -> bool {
        after.names() == compile_partial_applications(self.names(), module).0
    }

    fn compile(&mut self, module: &Module) -> (r: Result<Module, CompileError>) {
        PartialApplicationPass::compile(self, module)
    }
}

} // verus!
