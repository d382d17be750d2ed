//! Modules, their paths and their interfaces.
use crate::ast::{
    clone_definitions, clone_strings, view_definitions, view_strings, Definition, DefinitionV,
};
use crate::types::{clone_named_types, view_named_types, Type, TypeV};
use vstd::prelude::*;

verus! {

/// A package: a name and a version.
#[derive(Debug)]
pub struct Package {
    pub name: String,
    pub version: String,
}

/// The path of a module: its package and the components inside the package.
#[derive(Debug)]
pub struct ModulePath {
    pub package: Package,
    pub components: Vec<String>,
}

/// The model of a [`ModulePath`].
pub struct PathV {
    pub package_name: Seq<char>,
    pub package_version: Seq<char>,
    pub components: Seq<Seq<char>>,
}

impl View for ModulePath {
    type V = PathV;

    open spec fn view(&self) -> PathV {
        PathV {
            package_name: self.package.name@,
            package_version: self.package.version@,
            components: view_strings(self.components@),
        }
    }
}

/// The components each preceded by a dot.
pub open spec fn dotted(components: Seq<Seq<char>>) -> Seq<char>
    decreases components.len(),
{
    if components.len() == 0 {
        Seq::empty()
    } else {
        dotted(components.drop_last()) + seq!['.'] + components.last()
    }
}

/// A name qualified by the last component of a path (or by the package name
/// of a path without components), as imported names are written.
pub open spec fn qualify_name(path: PathV, name: Seq<char>) -> Seq<char> {
    (if path.components.len() == 0 {
        path.package_name
    } else {
        path.components.last()
    }) + seq!['.'] + name
}

/// A name qualified by a whole path: the package name, its version in
/// parentheses, the dotted components and the name.
pub open spec fn fully_qualify_name(path: PathV, name: Seq<char>) -> Seq<char> {
    path.package_name + seq!['('] + path.package_version + seq![')'] + dotted(path.components)
        + seq!['.'] + name
}

impl Package {
    pub fn new(name: &str, version: &str) -> (r: Package)
        ensures
            r.name@ == name@,
            r.version@ == version@,
    {
        Package { name: String::from_str(name), version: String::from_str(version) }
    }
}

impl ModulePath {
    pub fn new(package: Package, components: Vec<String>) -> (r: ModulePath)
        ensures
            r.package == package,
            r.components == components,
    {
        ModulePath { package, components }
    }

    /// A copy of the path with the same model.
    pub fn deep_clone(&self) -> (r: ModulePath)
        ensures
            r@ == self@,
    {
        let components = clone_strings(&self.components);
        ModulePath {
            package: Package { name: self.package.name.clone(), version: self.package.version.clone() },
            components,
        }
    }

    /// The name qualified by the last component of the path.
    pub fn qualify_name(&self, name: &str) -> (r: String)
        ensures
            r@ == qualify_name(self@, name@),
    {
        let mut r = if self.components.len() == 0 {
            self.package.name.clone()
        } else {
            self.components[self.components.len() - 1].clone()
        };
        r.append(".");
        r.append(name);
        proof {
            reveal_strlit(".");
        }
        assert(r@ =~= qualify_name(self@, name@));
        r
    }

    /// The name qualified by the whole path.
    pub fn fully_qualify_name(&self, name: &str) -> (r: String)
        ensures
            r@ == fully_qualify_name(self@, name@),
    {
        proof {
            reveal_strlit(".");
            reveal_strlit("(");
            reveal_strlit(")");
        }
        let mut r = self.package.name.clone();
        r.append("(");
        r.append(self.package.version.as_str());
        r.append(")");
        let mut i: usize = 0;
        while i < self.components.len()
            invariant
                i <= self.components@.len(),
                r@ == self@.package_name + seq!['('] + self@.package_version + seq![')'] + dotted(
                    self@.components.take(i as int),
                ),
                ".".view() == seq!['.'],
            decreases self.components.len() - i,
        {
            let ghost before = r@;
            r.append(".");
            r.append(self.components[i].as_str());
            assert(self@.components.take(i + 1).drop_last() =~= self@.components.take(i as int));
            assert(r@ =~= before + seq!['.'] + self@.components.take(i + 1).last());
            i += 1;
        }
        assert(self@.components.take(i as int) =~= self@.components);
        r.append(".");
        r.append(name);
        assert(r@ =~= fully_qualify_name(self@, name@));
        r
    }
}

/// The names that a module exports.
#[derive(Debug)]
pub struct Export {
    pub names: Vec<String>,
}

/// What an imported module offers: its path, exported names, types, functions
/// and variables.
#[derive(Debug)]
pub struct ModuleInterface {
    pub path: ModulePath,
    pub exported_names: Vec<String>,
    pub types: Vec<(String, Type)>,
    pub functions: Vec<(String, Type)>,
    pub variables: Vec<(String, Type)>,
}

/// An import of a module; a qualified import names its members with the
/// module's last path component.
#[derive(Debug)]
pub struct Import {
    pub module_interface: ModuleInterface,
    pub qualified: bool,
}

/// An interface of foreign functions and types.
#[derive(Debug)]
pub struct BuiltinInterface {
    pub types: Vec<(String, Type)>,
    pub functions: Vec<(String, Type)>,
}

/// A definition of a named type.
#[derive(Debug)]
pub struct TypeDefinition {
    pub name: String,
    pub type_: Type,
}

/// A module.
#[derive(Debug)]
pub struct Module {
    pub path: ModulePath,
    pub export: Export,
    pub imports: Vec<Import>,
    pub ffi_imports: Vec<BuiltinInterface>,
    pub type_definitions: Vec<TypeDefinition>,
    pub definitions: Vec<Definition>,
}

/// The model of a [`ModuleInterface`].
pub struct InterfaceV {
    pub path: PathV,
    pub exported_names: Seq<Seq<char>>,
    pub types: Seq<(Seq<char>, TypeV)>,
    pub functions: Seq<(Seq<char>, TypeV)>,
    pub variables: Seq<(Seq<char>, TypeV)>,
}

/// The model of an [`Import`].
pub struct ImportV {
    pub interface: InterfaceV,
    pub qualified: bool,
}

/// The model of a [`BuiltinInterface`].
pub struct BuiltinInterfaceV {
    pub types: Seq<(Seq<char>, TypeV)>,
    pub functions: Seq<(Seq<char>, TypeV)>,
}

/// The model of a [`Module`].
pub struct ModuleV {
    pub path: PathV,
    pub export: Seq<Seq<char>>,
    pub imports: Seq<ImportV>,
    pub ffi_imports: Seq<BuiltinInterfaceV>,
    pub type_definitions: Seq<(Seq<char>, TypeV)>,
    pub definitions: Seq<DefinitionV>,
}

impl View for ModuleInterface {
    type V = InterfaceV;

    open spec fn view(&self) -> InterfaceV {
        InterfaceV {
            path: self.path@,
            exported_names: view_strings(self.exported_names@),
            types: view_named_types(self.types@),
            functions: view_named_types(self.functions@),
            variables: view_named_types(self.variables@),
        }
    }
}

impl View for Import {
    type V = ImportV;

    open spec fn view(&self) -> ImportV {
        ImportV { interface: self.module_interface@, qualified: self.qualified }
    }
}

impl View for BuiltinInterface {
    type V = BuiltinInterfaceV;

    open spec fn view(&self) -> BuiltinInterfaceV {
        BuiltinInterfaceV {
            types: view_named_types(self.types@),
            functions: view_named_types(self.functions@),
        }
    }
}

/// The models of type definitions as (name, type) pairs.
pub open spec fn view_type_definitions(s: Seq<TypeDefinition>) -> Seq<(Seq<char>, TypeV)> {
    Seq::new(s.len(), |i: int| (s[i].name@, s[i].type_@))
}

/// The models of a sequence of imports.
pub open spec fn view_imports(s: Seq<Import>) -> Seq<ImportV> {
    Seq::new(s.len(), |i: int| s[i]@)
}

/// The models of a sequence of foreign interfaces.
pub open spec fn view_builtin_interfaces(s: Seq<BuiltinInterface>) -> Seq<BuiltinInterfaceV> {
    Seq::new(s.len(), |i: int| s[i]@)
}

impl View for Module {
    type V = ModuleV;

    open spec fn view(&self) -> ModuleV {
        ModuleV {
            path: self.path@,
            export: view_strings(self.export.names@),
            imports: view_imports(self.imports@),
            ffi_imports: view_builtin_interfaces(self.ffi_imports@),
            type_definitions: view_type_definitions(self.type_definitions@),
            definitions: view_definitions(self.definitions@),
        }
    }
}

impl ModuleInterface {
    /// A copy of the interface with the same model.
    pub fn deep_clone(&self) -> (r: ModuleInterface)
        ensures
            r@ == self@,
    {
        ModuleInterface {
            path: self.path.deep_clone(),
            exported_names: clone_strings(&self.exported_names),
            types: clone_named_types(&self.types),
            functions: clone_named_types(&self.functions),
            variables: clone_named_types(&self.variables),
        }
    }
}

/// A copy of a vector of imports.
pub fn clone_imports(s: &Vec<Import>) -> (r: Vec<Import>)
    ensures
        view_imports(r@) == view_imports(s@),
{
    let mut r: Vec<Import> = Vec::new();
    let mut i: usize = 0;
    while i < s.len()
        invariant
            i <= s.len(),
            r@.len() == i,
            forall|j: int| 0 <= j < i ==> #[trigger] r@[j]@ == s@[j]@,
        decreases s.len() - i,
    {
        r.push(
            Import { module_interface: s[i].module_interface.deep_clone(), qualified: s[i].qualified },
        );
        i += 1;
    }
    assert(view_imports(r@) =~= view_imports(s@));
    r
}

/// A copy of a vector of foreign interfaces.
pub fn clone_builtin_interfaces(s: &Vec<BuiltinInterface>) -> (r: Vec<BuiltinInterface>)
    ensures
        view_builtin_interfaces(r@) == view_builtin_interfaces(s@),
{
    let mut r: Vec<BuiltinInterface> = Vec::new();
    let mut i: usize = 0;
    while i < s.len()
        invariant
            i <= s.len(),
            r@.len() == i,
            forall|j: int| 0 <= j < i ==> #[trigger] r@[j]@ == s@[j]@,
        decreases s.len() - i,
    {
        r.push(
            BuiltinInterface {
                types: clone_named_types(&s[i].types),
                functions: clone_named_types(&s[i].functions),
            },
        );
        i += 1;
    }
    assert(view_builtin_interfaces(r@) =~= view_builtin_interfaces(s@));
    r
}

/// A copy of a vector of type definitions.
pub fn clone_type_definitions(s: &Vec<TypeDefinition>) -> (r: Vec<TypeDefinition>)
    ensures
        view_type_definitions(r@) == view_type_definitions(s@),
{
    let mut r: Vec<TypeDefinition> = Vec::new();
    let mut i: usize = 0;
    while i < s.len()
        invariant
            i <= s.len(),
            r@.len() == i,
            forall|j: int|
                0 <= j < i ==> #[trigger] r@[j].name@ == s@[j].name@ && r@[j].type_@
                    == s@[j].type_@,
        decreases s.len() - i,
    {
        r.push(TypeDefinition { name: s[i].name.clone(), type_: s[i].type_.deep_clone() });
        i += 1;
    }
    assert(view_type_definitions(r@) =~= view_type_definitions(s@));
    r
}

impl Module {
    /// A module of the given parts.
    pub fn new(
        path: ModulePath,
        export: Export,
        imports: Vec<Import>,
        ffi_imports: Vec<BuiltinInterface>,
        type_definitions: Vec<TypeDefinition>,
        definitions: Vec<Definition>,
    ) -> (r: Module)
        ensures
            r.path == path,
            r.export == export,
            r.imports == imports,
            r.ffi_imports == ffi_imports,
            r.type_definitions == type_definitions,
            r.definitions == definitions,
    {
        Module { path, export, imports, ffi_imports, type_definitions, definitions }
    }

    /// The model of the path of a module of the root package without components.
    pub open spec fn empty_path() -> PathV {
        PathV { package_name: Seq::empty(), package_version: Seq::empty(), components: Seq::empty() }
    }

    /// A module without imports, type definitions or definitions, at the
    /// root of a package with an empty name and version.
    pub fn dummy() -> (r: Module)
        ensures
            r@ == (ModuleV {
                path: Module::empty_path(),
                export: Seq::empty(),
                imports: Seq::empty(),
                ffi_imports: Seq::empty(),
                type_definitions: Seq::empty(),
                definitions: Seq::empty(),
            }),
    {
        let r = Module::from_definitions_and_type_definitions(Vec::new(), Vec::new());
        assert(r@.type_definitions =~= Seq::<(Seq<char>, TypeV)>::empty());
        assert(r@.definitions =~= Seq::<DefinitionV>::empty());
        r
    }

    /// A module with the given definitions and nothing else.
    pub fn from_definitions(definitions: Vec<Definition>) -> (r: Module)
        ensures
            r@ == (ModuleV {
                path: Module::empty_path(),
                export: Seq::empty(),
                imports: Seq::empty(),
                ffi_imports: Seq::empty(),
                type_definitions: Seq::empty(),
                definitions: view_definitions(definitions@),
            }),
    {
        let r = Module::from_definitions_and_type_definitions(Vec::new(), definitions);
        assert(r@.type_definitions =~= Seq::<(Seq<char>, TypeV)>::empty());
        r
    }

    /// A module with the given type definitions and definitions and nothing else.
    pub fn from_definitions_and_type_definitions(
        type_definitions: Vec<TypeDefinition>,
        definitions: Vec<Definition>,
    ) -> (r: Module)
        ensures
            r@ == (ModuleV {
                path: Module::empty_path(),
                export: Seq::empty(),
                imports: Seq::empty(),
                ffi_imports: Seq::empty(),
                type_definitions: view_type_definitions(type_definitions@),
                definitions: view_definitions(definitions@),
            }),
    {
        let r = Module {
            path: ModulePath { package: Package::new("", ""), components: Vec::new() },
            export: Export { names: Vec::new() },
            imports: Vec::new(),
            ffi_imports: Vec::new(),
            type_definitions,
            definitions,
        };
        proof {
            reveal_strlit("");
            assert(r@.path.components =~= Seq::<Seq<char>>::empty());
            assert(r@.export =~= Seq::<Seq<char>>::empty());
            assert(r@.imports =~= Seq::<ImportV>::empty());
            assert(r@.ffi_imports =~= Seq::<BuiltinInterfaceV>::empty());
            assert(r@.path.package_name =~= Seq::<char>::empty());
            assert(r@.path.package_version =~= Seq::<char>::empty());
        }
        r
    }

    /// A copy of the module with the same model.
    pub fn deep_clone(&self) -> (r: Module)
        ensures
            r@ == self@,
    {
        Module {
            path: self.path.deep_clone(),
            export: Export { names: clone_strings(&self.export.names) },
            imports: clone_imports(&self.imports),
            ffi_imports: clone_builtin_interfaces(&self.ffi_imports),
            type_definitions: clone_type_definitions(&self.type_definitions),
            definitions: clone_definitions(&self.definitions),
        }
    }
}

} // verus!
