//! Types of the language and their mathematical model.
use vstd::prelude::*;

verus! {


/// A type of the language.
///
/// Record elements are kept as an association list in the order in which they
/// were given; keys are expected to be distinct.
#[derive(Debug)]
pub enum Type {
    Any,
    Boolean,
    Function { argument: Box<Type>, result: Box<Type> },
    List { element: Box<Type> },
    NoneType,
    Number,
    Record { name: String, elements: Vec<(String, Type)> },
    Reference { name: String },
    String,
    Union { types: Vec<Type> },
    Unknown,
    Variable { id: usize },
}

/// The mathematical model of a [`Type`]: names become character sequences and
/// vectors become sequences.
pub enum TypeV {
    Any,
    Boolean,
    Function { argument: Box<TypeV>, result: Box<TypeV> },
    List { element: Box<TypeV> },
    NoneType,
    Number,
    Record { name: Seq<char>, elements: Seq<(Seq<char>, TypeV)> },
    Reference { name: Seq<char> },
    String,
    Union { types: Seq<TypeV> },
    Unknown,
    Variable { id: usize },
}

impl View for Type {
    type V = TypeV;

    open spec fn view(&self) -> TypeV
        decreases self,
    {
        match self {
            Type::Any => TypeV::Any,
            Type::Boolean => TypeV::Boolean,
            Type::Function { argument, result } => TypeV::Function {
                argument: Box::new((**argument).view()),
                result: Box::new((**result).view()),
            },
            Type::List { element } => TypeV::List { element: Box::new((**element).view()) },
            Type::NoneType => TypeV::NoneType,
            Type::Number => TypeV::Number,
            Type::Record { name, elements } => TypeV::Record {
                name: name@,
                elements: view_named_types_rec(elements@),
            },
            Type::Reference { name } => TypeV::Reference { name: name@ },
            Type::String => TypeV::String,
            Type::Union { types } => TypeV::Union { types: view_types_rec(types@) },
            Type::Unknown => TypeV::Unknown,
            Type::Variable { id } => TypeV::Variable { id: *id },
        }
    }
}

/// The models of a sequence of types, element by element.
pub open spec fn view_types_rec(s: Seq<Type>) -> Seq<TypeV>
    decreases s,
{
    if s.len() == 0 {
        Seq::empty()
    } else {
        view_types_rec(s.drop_last()).push(s.last().view())
    }
}

/// The models of a sequence of named types, element by element.
pub open spec fn view_named_types_rec(s: Seq<(String, Type)>) -> Seq<(Seq<char>, TypeV)>
    decreases s,
{
    if s.len() == 0 {
        Seq::empty()
    } else {
        view_named_types_rec(s.drop_last()).push((s.last().0@, s.last().1.view()))
    }
}

/// The models of a sequence of types.
pub open spec fn view_types(s: Seq<Type>) -> Seq<TypeV> {
    Seq::new(s.len(), |i: int| s[i]@)
}

/// The models of a sequence of named types (record elements, environments).
pub open spec fn view_named_types(s: Seq<(String, Type)>) -> Seq<(Seq<char>, TypeV)> {
    Seq::new(s.len(), |i: int| (s[i].0@, s[i].1@))
}

/// The recursive and the index-wise models of a sequence of types agree.
pub broadcast proof fn lemma_view_types_rec(s: Seq<Type>)
    ensures
        #[trigger] view_types_rec(s) == view_types(s),
    decreases s.len(),
{
    if s.len() > 0 {
        lemma_view_types_rec(s.drop_last());
        assert(view_types_rec(s) == view_types_rec(s.drop_last()).push(s.last().view()));
        assert(view_types_rec(s).len() == s.len());
        assert forall|i: int| 0 <= i < s.len() implies view_types_rec(s)[i] == view_types(s)[i] by {
            if i < s.len() - 1 {
                assert(view_types_rec(s)[i] == view_types_rec(s.drop_last())[i]);
                assert(view_types(s.drop_last())[i] == s.drop_last()[i]@);
            }
        }
        assert(view_types_rec(s) =~= view_types(s));
    } else {
        assert(view_types_rec(s) =~= view_types(s));
    }
}

/// The recursive and the index-wise models of a sequence of named types agree.
pub broadcast proof fn lemma_view_named_types_rec(s: Seq<(String, Type)>)
    ensures
        #[trigger] view_named_types_rec(s) == view_named_types(s),
    decreases s.len(),
{
    if s.len() > 0 {
        lemma_view_named_types_rec(s.drop_last());
        assert(view_named_types_rec(s) == view_named_types_rec(s.drop_last()).push((s.last().0@, s.last().1.view())));
        assert(view_named_types_rec(s).len() == s.len());
        assert forall|i: int| 0 <= i < s.len() implies view_named_types_rec(s)[i] == view_named_types(s)[i] by {
            if i < s.len() - 1 {
                assert(view_named_types_rec(s)[i] == view_named_types_rec(s.drop_last())[i]);
                assert(view_named_types(s.drop_last())[i] == (s.drop_last()[i].0@, s.drop_last()[i].1@));
            }
        }
        assert(view_named_types_rec(s) =~= view_named_types(s));
    } else {
        assert(view_named_types_rec(s) =~= view_named_types(s));
    }
}

pub broadcast group group_type_view {
    lemma_view_types_rec,
    lemma_view_named_types_rec,
}

impl TypeV {
    /// The argument types of a curried function type, outermost first.
    pub open spec fn arguments(self) -> Seq<TypeV>
        decreases self,
    {
        match self {
            TypeV::Function { argument, result } => seq![*argument] + (*result).arguments(),
            _ => Seq::empty(),
        }
    }

    /// The result type after all arguments of a curried function type are applied.
    pub open spec fn last_result(self) -> TypeV
        decreases self,
    {
        match self {
            TypeV::Function { argument, result } => (*result).last_result(),
            _ => self,
        }
    }

    /// Whether the type is a union type.
    pub open spec fn is_union(self) -> bool {
        self is Union
    }

    /// Whether the type is the any type.
    pub open spec fn is_any(self) -> bool {
        self is Any
    }

    /// Whether the type is a function type.
    pub open spec fn is_function(self) -> bool {
        self is Function
    }
}

impl Type {
    /// The argument types of a curried function type, outermost first; none
    /// for other types.
    pub fn arguments(&self) -> (r: Vec<Type>)
        ensures
            view_types(r@) == self@.arguments(),
        decreases self,
    {
        match self {
            Type::Function { argument, result } => {
                let rest = (**result).arguments();
                let mut r: Vec<Type> = Vec::new();
                r.push((**argument).deep_clone());
                let mut i: usize = 0;
                while i < rest.len()
                    invariant
                        i <= rest@.len(),
                        view_types(r@) == seq![(**argument)@] + view_types(rest@).take(i as int),
                    decreases rest.len() - i,
                {
                    let ghost before = view_types(r@);
                    r.push(rest[i].deep_clone());
                    assert(view_types(r@) =~= before.push(rest@[i as int]@));
                    assert(view_types(rest@).take(i + 1) =~= view_types(rest@).take(i as int).push(
                        rest@[i as int]@,
                    ));
                    assert(view_types(r@) =~= seq![(**argument)@] + view_types(rest@).take(i + 1));
                    i += 1;
                }
                assert(view_types(rest@).take(i as int) =~= view_types(rest@));
                r
            },
            _ => {
                let r: Vec<Type> = Vec::new();
                assert(view_types(r@) =~= Seq::<TypeV>::empty());
                r
            },
        }
    }

    /// The result type after all arguments of a curried function type are
    /// applied; the type itself for other types.
    pub fn last_result(&self) -> (r: Type)
        ensures
            r@ == self@.last_result(),
        decreases self,
    {
        match self {
            Type::Function { result, .. } => (**result).last_result(),
            _ => self.deep_clone(),
        }
    }

    /// Whether the type is the any type.
    pub fn is_any(&self) -> (r: bool)
        ensures
            r == self@.is_any(),
    {
        matches!(self, Type::Any)
    }

    /// Whether the type is a function type.
    pub fn is_function(&self) -> (r: bool)
        ensures
            r == self@.is_function(),
    {
        matches!(self, Type::Function { .. })
    }

    /// Whether the type is a union type.
    pub fn is_union(&self) -> (r: bool)
        ensures
            r == self@.is_union(),
    {
        matches!(self, Type::Union { .. })
    }

    /// A copy of the type with the same model.
    pub fn deep_clone(&self) -> (r: Type)
        ensures
            r@ == self@,
        decreases self,
    {
        broadcast use group_type_view;

        match self {
            Type::Any => Type::Any,
            Type::Boolean => Type::Boolean,
            Type::Function { argument, result } => Type::Function {
                argument: Box::new((**argument).deep_clone()),
                result: Box::new((**result).deep_clone()),
            },
            Type::List { element } => Type::List { element: Box::new((**element).deep_clone()) },
            Type::NoneType => Type::NoneType,
            Type::Number => Type::Number,
            Type::Record { name, elements } => {
                let cloned = clone_named_types(elements);
                let r = Type::Record { name: name.clone(), elements: cloned };
                assert(view_named_types_rec(cloned@) == view_named_types_rec(elements@));
                r
            },
            Type::Reference { name } => Type::Reference { name: name.clone() },
            Type::String => Type::String,
            Type::Union { types } => {
                let cloned = clone_types(types);
                assert(view_types_rec(cloned@) == view_types_rec(types@));
                Type::Union { types: cloned }
            },
            Type::Unknown => Type::Unknown,
            Type::Variable { id } => Type::Variable { id: *id },
        }
    }

    /// Whether two types have the same model.
    pub fn equals(&self, other: &Type) -> (r: bool)
        ensures
            r == (self@ == other@),
        decreases self,
    {
        broadcast use group_type_view;

        match (self, other) {
            (Type::Any, Type::Any) => true,
            (Type::Boolean, Type::Boolean) => true,
            (
                Type::Function { argument: a1, result: r1 },
                Type::Function { argument: a2, result: r2 },
            ) => {
                let a = (**a1).equals(&**a2);
                let r = (**r1).equals(&**r2);
                a && r
            },
            (Type::List { element: e1 }, Type::List { element: e2 }) => (**e1).equals(&**e2),
            (Type::NoneType, Type::NoneType) => true,
            (Type::Number, Type::Number) => true,
            (Type::Record { name: n1, elements: e1 }, Type::Record { name: n2, elements: e2 }) => {
                let n = *n1 == *n2;
                let e = named_types_equal(e1, e2);
                assert(view_named_types_rec(e1@) == view_named_types(e1@));
                assert(view_named_types_rec(e2@) == view_named_types(e2@));
                n && e
            },
            (Type::Reference { name: n1 }, Type::Reference { name: n2 }) => *n1 == *n2,
            (Type::String, Type::String) => true,
            (Type::Union { types: t1 }, Type::Union { types: t2 }) => {
                let r = types_equal(t1, t2);
                assert(view_types_rec(t1@) == view_types(t1@));
                assert(view_types_rec(t2@) == view_types(t2@));
                r
            },
            (Type::Unknown, Type::Unknown) => true,
            (Type::Variable { id: i1 }, Type::Variable { id: i2 }) => *i1 == *i2,
            _ => false,
        }
    }
}

/// A copy of a vector of types with the same models.
pub fn clone_types(types: &Vec<Type>) -> (r: Vec<Type>)
    ensures
        view_types(r@) == view_types(types@),
    decreases types,
{
    let mut r: Vec<Type> = Vec::new();
    let mut i: usize = 0;
    while i < types.len()
        invariant
            i <= types.len(),
            r@.len() == i,
            forall|j: int| 0 <= j < i ==> #[trigger] r@[j]@ == types@[j]@,
        decreases types.len() - i,
    {
        assert(decreases_to!(types => types@[i as int]));
        let t = types[i].deep_clone();
        r.push(t);
        i += 1;
    }
    assert(view_types(r@) =~= view_types(types@));
    r
}

/// A copy of a vector of named types with the same models.
pub fn clone_named_types(elements: &Vec<(String, Type)>) -> (r: Vec<(String, Type)>)
    ensures
        view_named_types(r@) == view_named_types(elements@),
    decreases elements,
{
    let mut r: Vec<(String, Type)> = Vec::new();
    let mut i: usize = 0;
    while i < elements.len()
        invariant
            i <= elements.len(),
            r@.len() == i,
            forall|j: int| 0 <= j < i ==> #[trigger] r@[j].0@ == elements@[j].0@ && r@[j].1@ == elements@[j].1@,
        decreases elements.len() - i,
    {
        assert(decreases_to!(elements => elements@[i as int].1));
        let t = elements[i].1.deep_clone();
        r.push((elements[i].0.clone(), t));
        i += 1;
    }
    assert(view_named_types(r@) =~= view_named_types(elements@));
    r
}

/// Whether two vectors of types have the same models.
pub fn types_equal(a: &Vec<Type>, b: &Vec<Type>) -> (r: bool)
    ensures
        r == (view_types(a@) == view_types(b@)),
    decreases a,
{
    if a.len() != b.len() {
        assert(view_types(a@).len() != view_types(b@).len());
        return false;
    }
    let mut i: usize = 0;
    while i < a.len()
        invariant
            i <= a.len(),
            a.len() == b.len(),
            forall|j: int| 0 <= j < i ==> a@[j]@ == b@[j]@,
        decreases a.len() - i,
    {
        assert(decreases_to!(a => a@[i as int]));
        if !a[i].equals(&b[i]) {
            assert(view_types(a@)[i as int] != view_types(b@)[i as int]);
            return false;
        }
        i += 1;
    }
    assert(view_types(a@) =~= view_types(b@));
    true
}

/// Whether two vectors of named types have the same models.
pub fn named_types_equal(a: &Vec<(String, Type)>, b: &Vec<(String, Type)>) -> (r: bool)
    ensures
        r == (view_named_types(a@) == view_named_types(b@)),
    decreases a,
{
    if a.len() != b.len() {
        assert(view_named_types(a@).len() != view_named_types(b@).len());
        return false;
    }
    let mut i: usize = 0;
    while i < a.len()
        invariant
            i <= a.len(),
            a.len() == b.len(),
            forall|j: int| 0 <= j < i ==> a@[j].0@ == b@[j].0@ && a@[j].1@ == b@[j].1@,
        decreases a.len() - i,
    {
        assert(decreases_to!(a => a@[i as int].1));
        let same_name = a[i].0 == b[i].0;
        if !same_name || !a[i].1.equals(&b[i].1) {
            assert(view_named_types(a@)[i as int] != view_named_types(b@)[i as int]);
            return false;
        }
        i += 1;
    }
    assert(view_named_types(a@) =~= view_named_types(b@));
    true
}

/// The type with every reference to a name of the environment replaced by the
/// type of that name; references to other names are kept.
pub open spec fn substitute_references(t: TypeV, env: Map<Seq<char>, TypeV>) -> TypeV
    decreases t,
{
    match t {
        TypeV::Function { argument, result } => TypeV::Function {
            argument: Box::new(substitute_references(*argument, env)),
            result: Box::new(substitute_references(*result, env)),
        },
        TypeV::List { element } => TypeV::List {
            element: Box::new(substitute_references(*element, env)),
        },
        TypeV::Record { name, elements } => TypeV::Record {
            name,
            elements: substitute_references_named(elements, env),
        },
        TypeV::Reference { name } => if env.contains_key(name) {
            env[name]
        } else {
            t
        },
        TypeV::Union { types } => TypeV::Union { types: substitute_references_seq(types, env) },
        _ => t,
    }
}

/// [`substitute_references`] on each type of a sequence.
pub open spec fn substitute_references_seq(s: Seq<TypeV>, env: Map<Seq<char>, TypeV>) -> Seq<
    TypeV,
>
    decreases s,
{
    if s.len() == 0 {
        Seq::empty()
    } else {
        substitute_references_seq(s.drop_last(), env).push(
            substitute_references(s.last(), env),
        )
    }
}

/// [`substitute_references`] on each type of a sequence of named types.
pub open spec fn substitute_references_named(
    s: Seq<(Seq<char>, TypeV)>,
    env: Map<Seq<char>, TypeV>,
) -> Seq<(Seq<char>, TypeV)>
    decreases s,
{
    if s.len() == 0 {
        Seq::empty()
    } else {
        substitute_references_named(s.drop_last(), env).push(
            (s.last().0, substitute_references(s.last().1, env)),
        )
    }
}

pub proof fn lemma_substitute_references_seq(s: Seq<TypeV>, env: Map<Seq<char>, TypeV>)
    ensures
        substitute_references_seq(s, env) =~= Seq::new(
            s.len(),
            |i: int| substitute_references(s[i], env),
        ),
    decreases s.len(),
{
    if s.len() > 0 {
        lemma_substitute_references_seq(s.drop_last(), env);
        assert forall|i: int| 0 <= i < s.len() - 1 implies s.drop_last()[i] == s[i] by {}
    }
}

pub proof fn lemma_substitute_references_named(
    s: Seq<(Seq<char>, TypeV)>,
    env: Map<Seq<char>, TypeV>,
)
    ensures
        substitute_references_named(s, env) =~= Seq::new(
            s.len(),
            |i: int| (s[i].0, substitute_references(s[i].1, env)),
        ),
    decreases s.len(),
{
    if s.len() > 0 {
        lemma_substitute_references_named(s.drop_last(), env);
        assert forall|i: int| 0 <= i < s.len() - 1 implies s.drop_last()[i] == s[i] by {}
    }
}

impl Type {
    /// The type with references to names of the environment replaced by
    /// their types.
    #[verifier::loop_isolation(false)]
    pub fn resolve_reference_types(&self, environment: &crate::names::StringMap<Type>) -> (r: Type)
        ensures
            r@ == substitute_references(self@, environment@),
        decreases self,
    {
        broadcast use group_type_view;

        match self {
            Type::Function { argument, result } => Type::Function {
                argument: Box::new((**argument).resolve_reference_types(environment)),
                result: Box::new((**result).resolve_reference_types(environment)),
            },
            Type::List { element } => Type::List {
                element: Box::new((**element).resolve_reference_types(environment)),
            },
            Type::Record { name, elements } => {
                let mut r: Vec<(String, Type)> = Vec::new();
                let mut i: usize = 0;
                while i < elements.len()
                    invariant
                        i <= elements@.len(),
                        r@.len() == i,
                        forall|j: int|
                            0 <= j < i ==> #[trigger] r@[j].0@ == elements@[j].0@ && r@[j].1@
                                == substitute_references(elements@[j].1@, environment@),
                    decreases elements.len() - i,
                {
                    assert(decreases_to!(self => elements));
                    assert(decreases_to!(elements => elements@[i as int].1));
                    let t = elements[i].1.resolve_reference_types(environment);
                    r.push((elements[i].0.clone(), t));
                    i += 1;
                }
                proof {
                    lemma_substitute_references_named(view_named_types(elements@), environment@);
                    assert(view_named_types_rec(r@) == view_named_types(r@));
                    assert(view_named_types_rec(elements@) == view_named_types(elements@));
                    assert(view_named_types(r@) =~= substitute_references_named(
                        view_named_types(elements@),
                        environment@,
                    ));
                }
                Type::Record { name: name.clone(), elements: r }
            },
            Type::Reference { name } => match environment.get(name.as_str()) {
                Some(t) => t.deep_clone(),
                None => self.deep_clone(),
            },
            Type::Union { types } => {
                let mut r: Vec<Type> = Vec::new();
                let mut i: usize = 0;
                while i < types.len()
                    invariant
                        i <= types@.len(),
                        r@.len() == i,
                        forall|j: int|
                            0 <= j < i ==> #[trigger] r@[j]@ == substitute_references(
                                types@[j]@,
                                environment@,
                            ),
                    decreases types.len() - i,
                {
                    assert(decreases_to!(self => types));
                    assert(decreases_to!(types => types@[i as int]));
                    let t = types[i].resolve_reference_types(environment);
                    r.push(t);
                    i += 1;
                }
                proof {
                    lemma_substitute_references_seq(view_types(types@), environment@);
                    assert(view_types_rec(r@) == view_types(r@));
                    assert(view_types_rec(types@) == view_types(types@));
                    assert(view_types(r@) =~= substitute_references_seq(
                        view_types(types@),
                        environment@,
                    ));
                }
                Type::Union { types: r }
            },
            _ => self.deep_clone(),
        }
    }
}

impl crate::names::DeepClone for Type {
    fn deep_clone(&self) -> (r: Type) {
        Type::deep_clone(self)
    }
}

} // verus!
