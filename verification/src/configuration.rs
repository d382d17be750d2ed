//! Names of the functions and types that compiled code relies on.
use crate::names::StringMap;
use vstd::prelude::*;

verus! {

/// A name replaced by its entry in `names`, if any.
pub open spec fn qualified_name(name: Seq<char>, names: Map<Seq<char>, Seq<char>>) -> Seq<char> {
    if names.contains_key(name) {
        names[name]
    } else {
        name
    }
}

/// A name replaced by its entry in `names`, if any.
pub fn qualify_name(name: &String, names: &StringMap<String>) -> (r: String)
    ensures
        r@ == qualified_name(name@, names@),
{
    match names.get(name.as_str()) {
        Some(qualified) => qualified.clone(),
        None => name.clone(),
    }
}

/// Names of the list functions that list literals become.
#[derive(Debug)]
pub struct ListLiteralConfiguration {
    empty_list_variable_name: String,
    concatenate_function_name: String,
    equal_function_name: String,
    prepend_function_name: String,
    list_type_name: String,
}

/// The model of a [`ListLiteralConfiguration`]: its names.
pub struct ListLiteralNames {
    pub empty_list_variable_name: Seq<char>,
    pub concatenate_function_name: Seq<char>,
    pub equal_function_name: Seq<char>,
    pub prepend_function_name: Seq<char>,
    pub list_type_name: Seq<char>,
}

impl View for ListLiteralConfiguration {
    type V = ListLiteralNames;

    closed spec fn view(&self) -> ListLiteralNames {
        ListLiteralNames {
            empty_list_variable_name: self.empty_list_variable_name@,
            concatenate_function_name: self.concatenate_function_name@,
            equal_function_name: self.equal_function_name@,
            prepend_function_name: self.prepend_function_name@,
            list_type_name: self.list_type_name@,
        }
    }
}

impl ListLiteralNames {
    /// Every name replaced by its entry in `names`, if any.
    pub open spec fn qualify(self, names: Map<Seq<char>, Seq<char>>) -> ListLiteralNames {
        ListLiteralNames {
            empty_list_variable_name: qualified_name(self.empty_list_variable_name, names),
            concatenate_function_name: qualified_name(self.concatenate_function_name, names),
            equal_function_name: qualified_name(self.equal_function_name, names),
            prepend_function_name: qualified_name(self.prepend_function_name, names),
            list_type_name: qualified_name(self.list_type_name, names),
        }
    }
}

impl ListLiteralConfiguration {
    pub fn new(empty_list_variable_name: &str, concatenate_function_name: &str, equal_function_name: &str, prepend_function_name: &str, list_type_name: &str) -> (r: Self)
        ensures
            r@.empty_list_variable_name == empty_list_variable_name@,
            r@.concatenate_function_name == concatenate_function_name@,
            r@.equal_function_name == equal_function_name@,
            r@.prepend_function_name == prepend_function_name@,
            r@.list_type_name == list_type_name@,
    {
        ListLiteralConfiguration {
            empty_list_variable_name: String::from_str(empty_list_variable_name),
            concatenate_function_name: String::from_str(concatenate_function_name),
            equal_function_name: String::from_str(equal_function_name),
            prepend_function_name: String::from_str(prepend_function_name),
            list_type_name: String::from_str(list_type_name),
        }
    }


    pub fn empty_list_variable_name(&self) -> (r: &str)
        ensures
            r@ == self@.empty_list_variable_name,
    {
        self.empty_list_variable_name.as_str()
    }


    pub fn concatenate_function_name(&self) -> (r: &str)
        ensures
            r@ == self@.concatenate_function_name,
    {
        self.concatenate_function_name.as_str()
    }


    pub fn equal_function_name(&self) -> (r: &str)
        ensures
            r@ == self@.equal_function_name,
    {
        self.equal_function_name.as_str()
    }


    pub fn prepend_function_name(&self) -> (r: &str)
        ensures
            r@ == self@.prepend_function_name,
    {
        self.prepend_function_name.as_str()
    }


    pub fn list_type_name(&self) -> (r: &str)
        ensures
            r@ == self@.list_type_name,
    {
        self.list_type_name.as_str()
    }


    /// The configuration with every name replaced by its entry in `names`, if any.
    pub fn qualify(&self, names: &StringMap<String>) -> (r: Self)
        ensures
            r@ == self@.qualify(names@),
    {
        ListLiteralConfiguration {
            empty_list_variable_name: qualify_name(&self.empty_list_variable_name, names),
            concatenate_function_name: qualify_name(&self.concatenate_function_name, names),
            equal_function_name: qualify_name(&self.equal_function_name, names),
            prepend_function_name: qualify_name(&self.prepend_function_name, names),
            list_type_name: qualify_name(&self.list_type_name, names),
        }
    }
}

/// Names of the functions and types of the list implementation.
#[derive(Debug)]
pub struct ListTypeConfiguration {
    empty_list_variable_name: String,
    concatenate_function_name: String,
    equal_function_name: String,
    prepend_function_name: String,
    deconstruct_function_name: String,
    first_function_name: String,
    rest_function_name: String,
    list_type_name: String,
    first_rest_type_name: String,
}

/// The model of a [`ListTypeConfiguration`]: its names.
pub struct ListTypeNames {
    pub empty_list_variable_name: Seq<char>,
    pub concatenate_function_name: Seq<char>,
    pub equal_function_name: Seq<char>,
    pub prepend_function_name: Seq<char>,
    pub deconstruct_function_name: Seq<char>,
    pub first_function_name: Seq<char>,
    pub rest_function_name: Seq<char>,
    pub list_type_name: Seq<char>,
    pub first_rest_type_name: Seq<char>,
}

impl View for ListTypeConfiguration {
    type V = ListTypeNames;

    closed spec fn view(&self) -> ListTypeNames {
        ListTypeNames {
            empty_list_variable_name: self.empty_list_variable_name@,
            concatenate_function_name: self.concatenate_function_name@,
            equal_function_name: self.equal_function_name@,
            prepend_function_name: self.prepend_function_name@,
            deconstruct_function_name: self.deconstruct_function_name@,
            first_function_name: self.first_function_name@,
            rest_function_name: self.rest_function_name@,
            list_type_name: self.list_type_name@,
            first_rest_type_name: self.first_rest_type_name@,
        }
    }
}

impl ListTypeNames {
    /// Every name replaced by its entry in `names`, if any.
    pub open spec fn qualify(self, names: Map<Seq<char>, Seq<char>>) -> ListTypeNames {
        ListTypeNames {
            empty_list_variable_name: qualified_name(self.empty_list_variable_name, names),
            concatenate_function_name: qualified_name(self.concatenate_function_name, names),
            equal_function_name: qualified_name(self.equal_function_name, names),
            prepend_function_name: qualified_name(self.prepend_function_name, names),
            deconstruct_function_name: qualified_name(self.deconstruct_function_name, names),
            first_function_name: qualified_name(self.first_function_name, names),
            rest_function_name: qualified_name(self.rest_function_name, names),
            list_type_name: qualified_name(self.list_type_name, names),
            first_rest_type_name: qualified_name(self.first_rest_type_name, names),
        }
    }
}

impl ListTypeConfiguration {
    pub fn new(empty_list_variable_name: &str, concatenate_function_name: &str, equal_function_name: &str, prepend_function_name: &str, deconstruct_function_name: &str, first_function_name: &str, rest_function_name: &str, list_type_name: &str, first_rest_type_name: &str) -> (r: Self)
        ensures
            r@.empty_list_variable_name == empty_list_variable_name@,
            r@.concatenate_function_name == concatenate_function_name@,
            r@.equal_function_name == equal_function_name@,
            r@.prepend_function_name == prepend_function_name@,
            r@.deconstruct_function_name == deconstruct_function_name@,
            r@.first_function_name == first_function_name@,
            r@.rest_function_name == rest_function_name@,
            r@.list_type_name == list_type_name@,
            r@.first_rest_type_name == first_rest_type_name@,
    {
        ListTypeConfiguration {
            empty_list_variable_name: String::from_str(empty_list_variable_name),
            concatenate_function_name: String::from_str(concatenate_function_name),
            equal_function_name: String::from_str(equal_function_name),
            prepend_function_name: String::from_str(prepend_function_name),
            deconstruct_function_name: String::from_str(deconstruct_function_name),
            first_function_name: String::from_str(first_function_name),
            rest_function_name: String::from_str(rest_function_name),
            list_type_name: String::from_str(list_type_name),
            first_rest_type_name: String::from_str(first_rest_type_name),
        }
    }


    pub fn empty_list_variable_name(&self) -> (r: &str)
        ensures
            r@ == self@.empty_list_variable_name,
    {
        self.empty_list_variable_name.as_str()
    }


    pub fn concatenate_function_name(&self) -> (r: &str)
        ensures
            r@ == self@.concatenate_function_name,
    {
        self.concatenate_function_name.as_str()
    }


    pub fn equal_function_name(&self) -> (r: &str)
        ensures
            r@ == self@.equal_function_name,
    {
        self.equal_function_name.as_str()
    }


    pub fn prepend_function_name(&self) -> (r: &str)
        ensures
            r@ == self@.prepend_function_name,
    {
        self.prepend_function_name.as_str()
    }


    pub fn deconstruct_function_name(&self) -> (r: &str)
        ensures
            r@ == self@.deconstruct_function_name,
    {
        self.deconstruct_function_name.as_str()
    }


    pub fn first_function_name(&self) -> (r: &str)
        ensures
            r@ == self@.first_function_name,
    {
        self.first_function_name.as_str()
    }


    pub fn rest_function_name(&self) -> (r: &str)
        ensures
            r@ == self@.rest_function_name,
    {
        self.rest_function_name.as_str()
    }


    pub fn list_type_name(&self) -> (r: &str)
        ensures
            r@ == self@.list_type_name,
    {
        self.list_type_name.as_str()
    }


    pub fn first_rest_type_name(&self) -> (r: &str)
        ensures
            r@ == self@.first_rest_type_name,
    {
        self.first_rest_type_name.as_str()
    }


    /// The configuration with every name replaced by its entry in `names`, if any.
    pub fn qualify(&self, names: &StringMap<String>) -> (r: Self)
        ensures
            r@ == self@.qualify(names@),
    {
        ListTypeConfiguration {
            empty_list_variable_name: qualify_name(&self.empty_list_variable_name, names),
            concatenate_function_name: qualify_name(&self.concatenate_function_name, names),
            equal_function_name: qualify_name(&self.equal_function_name, names),
            prepend_function_name: qualify_name(&self.prepend_function_name, names),
            deconstruct_function_name: qualify_name(&self.deconstruct_function_name, names),
            first_function_name: qualify_name(&self.first_function_name, names),
            rest_function_name: qualify_name(&self.rest_function_name, names),
            list_type_name: qualify_name(&self.list_type_name, names),
            first_rest_type_name: qualify_name(&self.first_rest_type_name, names),
        }
    }
}

/// The name of the function that compares strings.
#[derive(Debug)]
pub struct StringTypeConfiguration {
    pub equal_function_name: String,
}

/// The name of the system type.
#[derive(Debug)]
pub struct SystemTypeConfiguration {
    pub system_type_name: String,
}

impl SystemTypeConfiguration {
    /// The configuration with its name replaced by its entry in `names`, if any.
    pub fn qualify(&self, names: &StringMap<String>) -> (r: Self)
        ensures
            r.system_type_name@ == qualified_name(self.system_type_name@, names@),
    {
        SystemTypeConfiguration { system_type_name: qualify_name(&self.system_type_name, names) }
    }
}

/// Names that compilation needs: of the main function in source and object
/// code, of the runtime's allocation and panic functions, and of the list,
/// string and system types.
#[derive(Debug)]
pub struct CompileConfiguration {
    pub source_main_function_name: String,
    pub object_main_function_name: String,
    pub malloc_function_name: String,
    pub panic_function_name: String,
    pub list_type_configuration: ListTypeConfiguration,
    pub string_type_configuration: StringTypeConfiguration,
    pub system_type_configuration: SystemTypeConfiguration,
}

impl CompileConfiguration {
    /// The configuration with the names of the list and system types and
    /// functions replaced by their entries in `names`; the other names are kept.
    pub fn qualify(&self, names: &StringMap<String>) -> (r: Self)
        ensures
            r.source_main_function_name@ == self.source_main_function_name@,
            r.object_main_function_name@ == self.object_main_function_name@,
            r.malloc_function_name@ == self.malloc_function_name@,
            r.panic_function_name@ == self.panic_function_name@,
            r.list_type_configuration@ == self.list_type_configuration@.qualify(names@),
            r.string_type_configuration.equal_function_name@
                == self.string_type_configuration.equal_function_name@,
            r.system_type_configuration.system_type_name@ == qualified_name(
                self.system_type_configuration.system_type_name@,
                names@,
            ),
    {
        CompileConfiguration {
            source_main_function_name: self.source_main_function_name.clone(),
            object_main_function_name: self.object_main_function_name.clone(),
            malloc_function_name: self.malloc_function_name.clone(),
            panic_function_name: self.panic_function_name.clone(),
            list_type_configuration: self.list_type_configuration.qualify(names),
            string_type_configuration: StringTypeConfiguration {
                equal_function_name: self.string_type_configuration.equal_function_name.clone(),
            },
            system_type_configuration: self.system_type_configuration.qualify(names),
        }
    }
}

} // verus!
