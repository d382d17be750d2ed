//! Expressions and definitions of the language and their mathematical model.
use crate::types::{clone_types, Type, TypeV};
use vstd::prelude::*;

verus! {

/// Binary operators.
#[derive(Clone, Copy, Debug, PartialEq, Eq, Structural)]
pub enum Operator {
    Add,
    Subtract,
    Multiply,
    Divide,
    Equal,
    NotEqual,
    LessThan,
    LessThanOrEqual,
    GreaterThan,
    GreaterThanOrEqual,
    And,
    Or,
}

/// An expression.
///
/// Number literals are kept as the bit pattern of their IEEE 754 double value;
/// record elements are association lists in the order in which they were given.
#[derive(Debug)]
pub enum Expression {
    Application { function: Box<Expression>, argument: Box<Expression> },
    Boolean { value: bool },
    Case { type_: Type, name: String, argument: Box<Expression>, alternatives: Vec<Alternative> },
    If { condition: Box<Expression>, then: Box<Expression>, else_: Box<Expression> },
    Let { definitions: Vec<Definition>, expression: Box<Expression> },
    List { elements: Vec<ListElement> },
    ListCase {
        argument: Box<Expression>,
        type_: Type,
        first_name: String,
        rest_name: String,
        empty_alternative: Box<Expression>,
        non_empty_alternative: Box<Expression>,
    },
    NoneLiteral,
    Number { value: u64 },
    Operation { type_: Type, operator: Operator, lhs: Box<Expression>, rhs: Box<Expression> },
    RecordConstruction { type_: Type, elements: Vec<(String, Expression)> },
    RecordElementOperation { type_: Type, key: String, argument: Box<Expression> },
    RecordElementOperator { key: String },
    RecordUpdate { reference: String, argument: Box<Expression>, elements: Vec<(String, Expression)> },
    String { value: String },
    TypeCoercion { argument: Box<Expression>, from: Type, to: Type },
    Variable { name: String },
}

/// An alternative of a case expression.
#[derive(Debug)]
pub struct Alternative {
    pub type_: Type,
    pub expression: Expression,
}

/// An element of a list literal: a single element or a spread list.
#[derive(Debug)]
pub enum ListElement {
    Multiple(Expression),
    Single(Expression),
}

/// A definition of a function with its (curried) arguments.
#[derive(Debug)]
pub struct FunctionDefinition {
    pub name: String,
    pub arguments: Vec<String>,
    pub body: Expression,
    pub type_: Type,
}

/// A definition of a value.
#[derive(Debug)]
pub struct ValueDefinition {
    pub name: String,
    pub body: Expression,
    pub type_: Type,
}

/// A definition in a module or in a let expression.
#[derive(Debug)]
pub enum Definition {
    FunctionDefinition(FunctionDefinition),
    ValueDefinition(ValueDefinition),
}

/// The model of an [`Expression`].
pub enum ExprV {
    Application { function: Box<ExprV>, argument: Box<ExprV> },
    Boolean { value: bool },
    Case { type_: TypeV, name: Seq<char>, argument: Box<ExprV>, alternatives: Seq<AlternativeV> },
    If { condition: Box<ExprV>, then: Box<ExprV>, else_: Box<ExprV> },
    Let { definitions: Seq<DefinitionV>, expression: Box<ExprV> },
    List { elements: Seq<ListElementV> },
    ListCase {
        argument: Box<ExprV>,
        type_: TypeV,
        first_name: Seq<char>,
        rest_name: Seq<char>,
        empty_alternative: Box<ExprV>,
        non_empty_alternative: Box<ExprV>,
    },
    NoneLiteral,
    Number { value: u64 },
    Operation { type_: TypeV, operator: Operator, lhs: Box<ExprV>, rhs: Box<ExprV> },
    RecordConstruction { type_: TypeV, elements: Seq<(Seq<char>, ExprV)> },
    RecordElementOperation { type_: TypeV, key: Seq<char>, argument: Box<ExprV> },
    RecordElementOperator { key: Seq<char> },
    RecordUpdate { reference: Seq<char>, argument: Box<ExprV>, elements: Seq<(Seq<char>, ExprV)> },
    String { value: Seq<char> },
    TypeCoercion { argument: Box<ExprV>, from: TypeV, to: TypeV },
    Variable { name: Seq<char> },
}

/// The model of an [`Alternative`].
pub struct AlternativeV {
    pub type_: TypeV,
    pub expression: ExprV,
}

/// The model of a [`ListElement`].
pub enum ListElementV {
    Multiple(ExprV),
    Single(ExprV),
}

/// The model of a [`Definition`].
pub enum DefinitionV {
    Function { name: Seq<char>, arguments: Seq<Seq<char>>, body: ExprV, type_: TypeV },
    Value { name: Seq<char>, body: ExprV, type_: TypeV },
}

/// The models of a sequence of strings.
pub open spec fn view_strings(s: Seq<String>) -> Seq<Seq<char>> {
    Seq::new(s.len(), |i: int| s[i]@)
}

impl DefinitionV {
    pub open spec fn name(self) -> Seq<char> {
        match self {
            DefinitionV::Function { name, .. } => name,
            DefinitionV::Value { name, .. } => name,
        }
    }

    pub open spec fn type_(self) -> TypeV {
        match self {
            DefinitionV::Function { type_, .. } => type_,
            DefinitionV::Value { type_, .. } => type_,
        }
    }

    pub open spec fn body(self) -> ExprV {
        match self {
            DefinitionV::Function { body, .. } => body,
            DefinitionV::Value { body, .. } => body,
        }
    }

    pub open spec fn is_function(self) -> bool {
        self is Function
    }

    /// The same definition with another type.
    pub open spec fn with_type(self, t: TypeV) -> DefinitionV {
        match self {
            DefinitionV::Function { name, arguments, body, .. } => DefinitionV::Function {
                name,
                arguments,
                body,
                type_: t,
            },
            DefinitionV::Value { name, body, .. } => DefinitionV::Value { name, body, type_: t },
        }
    }
}

impl View for Expression {
    type V = ExprV;

    open spec fn view(&self) -> ExprV
        decreases self,
    {
        match self {
            Expression::Application { function, argument } => ExprV::Application {
                function: Box::new((**function).view()),
                argument: Box::new((**argument).view()),
            },
            Expression::Boolean { value } => ExprV::Boolean { value: *value },
            Expression::Case { type_, name, argument, alternatives } => ExprV::Case {
                type_: type_@,
                name: name@,
                argument: Box::new((**argument).view()),
                alternatives: view_alternatives_rec(alternatives@),
            },
            Expression::If { condition, then, else_ } => ExprV::If {
                condition: Box::new((**condition).view()),
                then: Box::new((**then).view()),
                else_: Box::new((**else_).view()),
            },
            Expression::Let { definitions, expression } => ExprV::Let {
                definitions: view_definitions_rec(definitions@),
                expression: Box::new((**expression).view()),
            },
            Expression::List { elements } => ExprV::List {
                elements: view_list_elements_rec(elements@),
            },
            Expression::ListCase {
                argument,
                type_,
                first_name,
                rest_name,
                empty_alternative,
                non_empty_alternative,
            } => ExprV::ListCase {
                argument: Box::new((**argument).view()),
                type_: type_@,
                first_name: first_name@,
                rest_name: rest_name@,
                empty_alternative: Box::new((**empty_alternative).view()),
                non_empty_alternative: Box::new((**non_empty_alternative).view()),
            },
            Expression::NoneLiteral => ExprV::NoneLiteral,
            Expression::Number { value } => ExprV::Number { value: *value },
            Expression::Operation { type_, operator, lhs, rhs } => ExprV::Operation {
                type_: type_@,
                operator: *operator,
                lhs: Box::new((**lhs).view()),
                rhs: Box::new((**rhs).view()),
            },
            Expression::RecordConstruction { type_, elements } => ExprV::RecordConstruction {
                type_: type_@,
                elements: view_record_elements_rec(elements@),
            },
            Expression::RecordElementOperation { type_, key, argument } =>
                ExprV::RecordElementOperation {
                    type_: type_@,
                    key: key@,
                    argument: Box::new((**argument).view()),
                },
            Expression::RecordElementOperator { key } => ExprV::RecordElementOperator { key: key@ },
            Expression::RecordUpdate { reference, argument, elements } => ExprV::RecordUpdate {
                reference: reference@,
                argument: Box::new((**argument).view()),
                elements: view_record_elements_rec(elements@),
            },
            Expression::String { value } => ExprV::String { value: value@ },
            Expression::TypeCoercion { argument, from, to } => ExprV::TypeCoercion {
                argument: Box::new((**argument).view()),
                from: from@,
                to: to@,
            },
            Expression::Variable { name } => ExprV::Variable { name: name@ },
        }
    }
}

impl View for Alternative {
    type V = AlternativeV;

    open spec fn view(&self) -> AlternativeV
        decreases self,
    {
        AlternativeV { type_: self.type_@, expression: self.expression.view() }
    }
}

impl View for ListElement {
    type V = ListElementV;

    open spec fn view(&self) -> ListElementV
        decreases self,
    {
        match self {
            ListElement::Multiple(e) => ListElementV::Multiple(e.view()),
            ListElement::Single(e) => ListElementV::Single(e.view()),
        }
    }
}

impl View for Definition {
    type V = DefinitionV;

    open spec fn view(&self) -> DefinitionV
        decreases self,
    {
        match self {
            Definition::FunctionDefinition(d) => DefinitionV::Function {
                name: d.name@,
                arguments: view_strings(d.arguments@),
                body: d.body.view(),
                type_: d.type_@,
            },
            Definition::ValueDefinition(d) => DefinitionV::Value {
                name: d.name@,
                body: d.body.view(),
                type_: d.type_@,
            },
        }
    }
}

pub open spec fn view_alternatives_rec(s: Seq<Alternative>) -> Seq<AlternativeV>
    decreases s,
{
    if s.len() == 0 {
        Seq::empty()
    } else {
        view_alternatives_rec(s.drop_last()).push(s.last().view())
    }
}

pub open spec fn view_definitions_rec(s: Seq<Definition>) -> Seq<DefinitionV>
    decreases s,
{
    if s.len() == 0 {
        Seq::empty()
    } else {
        view_definitions_rec(s.drop_last()).push(s.last().view())
    }
}

pub open spec fn view_list_elements_rec(s: Seq<ListElement>) -> Seq<ListElementV>
    decreases s,
{
    if s.len() == 0 {
        Seq::empty()
    } else {
        view_list_elements_rec(s.drop_last()).push(s.last().view())
    }
}

pub open spec fn view_record_elements_rec(s: Seq<(String, Expression)>) -> Seq<(Seq<char>, ExprV)>
    decreases s,
{
    if s.len() == 0 {
        Seq::empty()
    } else {
        view_record_elements_rec(s.drop_last()).push((s.last().0@, s.last().1.view()))
    }
}

/// The models of a sequence of alternatives.
pub open spec fn view_alternatives(s: Seq<Alternative>) -> Seq<AlternativeV> {
    Seq::new(s.len(), |i: int| s[i]@)
}

/// The models of a sequence of definitions.
pub open spec fn view_definitions(s: Seq<Definition>) -> Seq<DefinitionV> {
    Seq::new(s.len(), |i: int| s[i]@)
}

/// The models of a sequence of list elements.
pub open spec fn view_list_elements(s: Seq<ListElement>) -> Seq<ListElementV> {
    Seq::new(s.len(), |i: int| s[i]@)
}

/// The models of a sequence of record elements.
pub open spec fn view_record_elements(s: Seq<(String, Expression)>) -> Seq<(Seq<char>, ExprV)> {
    Seq::new(s.len(), |i: int| (s[i].0@, s[i].1@))
}

pub broadcast proof fn lemma_view_alternatives_rec(s: Seq<Alternative>)
    ensures
        #[trigger] view_alternatives_rec(s) == view_alternatives(s),
    decreases s.len(),
{
    if s.len() > 0 {
        lemma_view_alternatives_rec(s.drop_last());
        assert(view_alternatives_rec(s) == view_alternatives_rec(s.drop_last()).push(s.last()@));
        assert forall|i: int| 0 <= i < s.len() implies view_alternatives_rec(s)[i]
            == view_alternatives(s)[i] by {
            if i < s.len() - 1 {
                assert(view_alternatives_rec(s)[i] == view_alternatives_rec(s.drop_last())[i]);
                assert(view_alternatives(s.drop_last())[i] == s.drop_last()[i]@);
            }
        }
    }
    assert(view_alternatives_rec(s) =~= view_alternatives(s));
}

pub broadcast proof fn lemma_view_definitions_rec(s: Seq<Definition>)
    ensures
        #[trigger] view_definitions_rec(s) == view_definitions(s),
    decreases s.len(),
{
    if s.len() > 0 {
        lemma_view_definitions_rec(s.drop_last());
        assert(view_definitions_rec(s) == view_definitions_rec(s.drop_last()).push(s.last()@));
        assert forall|i: int| 0 <= i < s.len() implies view_definitions_rec(s)[i]
            == view_definitions(s)[i] by {
            if i < s.len() - 1 {
                assert(view_definitions_rec(s)[i] == view_definitions_rec(s.drop_last())[i]);
                assert(view_definitions(s.drop_last())[i] == s.drop_last()[i]@);
            }
        }
    }
    assert(view_definitions_rec(s) =~= view_definitions(s));
}

pub broadcast proof fn lemma_view_list_elements_rec(s: Seq<ListElement>)
    ensures
        #[trigger] view_list_elements_rec(s) == view_list_elements(s),
    decreases s.len(),
{
    if s.len() > 0 {
        lemma_view_list_elements_rec(s.drop_last());
        assert(view_list_elements_rec(s) == view_list_elements_rec(s.drop_last()).push(
            s.last()@,
        ));
        assert forall|i: int| 0 <= i < s.len() implies view_list_elements_rec(s)[i]
            == view_list_elements(s)[i] by {
            if i < s.len() - 1 {
                assert(view_list_elements_rec(s)[i] == view_list_elements_rec(s.drop_last())[i]);
                assert(view_list_elements(s.drop_last())[i] == s.drop_last()[i]@);
            }
        }
    }
    assert(view_list_elements_rec(s) =~= view_list_elements(s));
}

pub broadcast proof fn lemma_view_record_elements_rec(s: Seq<(String, Expression)>)
    ensures
        #[trigger] view_record_elements_rec(s) == view_record_elements(s),
    decreases s.len(),
{
    if s.len() > 0 {
        lemma_view_record_elements_rec(s.drop_last());
        assert(view_record_elements_rec(s) == view_record_elements_rec(s.drop_last()).push(
            (s.last().0@, s.last().1@),
        ));
        assert forall|i: int| 0 <= i < s.len() implies view_record_elements_rec(s)[i]
            == view_record_elements(s)[i] by {
            if i < s.len() - 1 {
                assert(view_record_elements_rec(s)[i] == view_record_elements_rec(
                    s.drop_last(),
                )[i]);
                assert(view_record_elements(s.drop_last())[i] == (
                    s.drop_last()[i].0@,
                    s.drop_last()[i].1@,
                ));
            }
        }
    }
    assert(view_record_elements_rec(s) =~= view_record_elements(s));
}

pub broadcast group group_ast_view {
    lemma_view_alternatives_rec,
    lemma_view_definitions_rec,
    lemma_view_list_elements_rec,
    lemma_view_record_elements_rec,
}

impl Expression {
    /// A copy of the expression with the same model.
    pub fn deep_clone(&self) -> (r: Expression)
        ensures
            r@ == self@,
        decreases self,
    {
        broadcast use group_ast_view;

        match self {
            Expression::Application { function, argument } => Expression::Application {
                function: Box::new((**function).deep_clone()),
                argument: Box::new((**argument).deep_clone()),
            },
            Expression::Boolean { value } => Expression::Boolean { value: *value },
            Expression::Case { type_, name, argument, alternatives } => {
                let cloned = clone_alternatives(alternatives);
                assert(view_alternatives_rec(cloned@) == view_alternatives_rec(alternatives@));
                Expression::Case {
                    type_: type_.deep_clone(),
                    name: name.clone(),
                    argument: Box::new((**argument).deep_clone()),
                    alternatives: cloned,
                }
            },
            Expression::If { condition, then, else_ } => Expression::If {
                condition: Box::new((**condition).deep_clone()),
                then: Box::new((**then).deep_clone()),
                else_: Box::new((**else_).deep_clone()),
            },
            Expression::Let { definitions, expression } => {
                let cloned = clone_definitions(definitions);
                assert(view_definitions_rec(cloned@) == view_definitions_rec(definitions@));
                Expression::Let {
                    definitions: cloned,
                    expression: Box::new((**expression).deep_clone()),
                }
            },
            Expression::List { elements } => {
                let cloned = clone_list_elements(elements);
                assert(view_list_elements_rec(cloned@) == view_list_elements_rec(elements@));
                Expression::List { elements: cloned }
            },
            Expression::ListCase {
                argument,
                type_,
                first_name,
                rest_name,
                empty_alternative,
                non_empty_alternative,
            } => Expression::ListCase {
                argument: Box::new((**argument).deep_clone()),
                type_: type_.deep_clone(),
                first_name: first_name.clone(),
                rest_name: rest_name.clone(),
                empty_alternative: Box::new((**empty_alternative).deep_clone()),
                non_empty_alternative: Box::new((**non_empty_alternative).deep_clone()),
            },
            Expression::NoneLiteral => Expression::NoneLiteral,
            Expression::Number { value } => Expression::Number { value: *value },
            Expression::Operation { type_, operator, lhs, rhs } => Expression::Operation {
                type_: type_.deep_clone(),
                operator: *operator,
                lhs: Box::new((**lhs).deep_clone()),
                rhs: Box::new((**rhs).deep_clone()),
            },
            Expression::RecordConstruction { type_, elements } => {
                let cloned = clone_record_elements(elements);
                assert(view_record_elements_rec(cloned@) == view_record_elements_rec(elements@));
                Expression::RecordConstruction { type_: type_.deep_clone(), elements: cloned }
            },
            Expression::RecordElementOperation { type_, key, argument } =>
                Expression::RecordElementOperation {
                    type_: type_.deep_clone(),
                    key: key.clone(),
                    argument: Box::new((**argument).deep_clone()),
                },
            Expression::RecordElementOperator { key } => Expression::RecordElementOperator {
                key: key.clone(),
            },
            Expression::RecordUpdate { reference, argument, elements } => {
                let cloned = clone_record_elements(elements);
                assert(view_record_elements_rec(cloned@) == view_record_elements_rec(elements@));
                Expression::RecordUpdate {
                    reference: reference.clone(),
                    argument: Box::new((**argument).deep_clone()),
                    elements: cloned,
                }
            },
            Expression::String { value } => Expression::String { value: value.clone() },
            Expression::TypeCoercion { argument, from, to } => Expression::TypeCoercion {
                argument: Box::new((**argument).deep_clone()),
                from: from.deep_clone(),
                to: to.deep_clone(),
            },
            Expression::Variable { name } => Expression::Variable { name: name.clone() },
        }
    }
}

impl Definition {
    /// A copy of the definition with the same model.
    pub fn deep_clone(&self) -> (r: Definition)
        ensures
            r@ == self@,
        decreases self,
    {
        match self {
            Definition::FunctionDefinition(d) => {
                let arguments = clone_strings(&d.arguments);
                Definition::FunctionDefinition(
                    FunctionDefinition {
                        name: d.name.clone(),
                        arguments,
                        body: d.body.deep_clone(),
                        type_: d.type_.deep_clone(),
                    },
                )
            },
            Definition::ValueDefinition(d) => Definition::ValueDefinition(
                ValueDefinition {
                    name: d.name.clone(),
                    body: d.body.deep_clone(),
                    type_: d.type_.deep_clone(),
                },
            ),
        }
    }

    /// A copy of the definition with another type.
    pub fn with_type(&self, type_: Type) -> (r: Definition)
        ensures
            r@ == self@.with_type(type_@),
    {
        match self {
            Definition::FunctionDefinition(d) => Definition::FunctionDefinition(
                FunctionDefinition {
                    name: d.name.clone(),
                    arguments: clone_strings(&d.arguments),
                    body: d.body.deep_clone(),
                    type_,
                },
            ),
            Definition::ValueDefinition(d) => Definition::ValueDefinition(
                ValueDefinition { name: d.name.clone(), body: d.body.deep_clone(), type_ },
            ),
        }
    }

    /// The name of the definition.
    pub fn name(&self) -> (r: &String)
        ensures
            r@ == self@.name(),
    {
        match self {
            Definition::FunctionDefinition(d) => &d.name,
            Definition::ValueDefinition(d) => &d.name,
        }
    }

    /// The type of the definition.
    pub fn type_(&self) -> (r: &Type)
        ensures
            r@ == self@.type_(),
    {
        match self {
            Definition::FunctionDefinition(d) => &d.type_,
            Definition::ValueDefinition(d) => &d.type_,
        }
    }
}

/// A copy of a vector of strings.
pub fn clone_strings(s: &Vec<String>) -> (r: Vec<String>)
    ensures
        view_strings(r@) == view_strings(s@),
{
    let mut r: Vec<String> = Vec::new();
    let mut i: usize = 0;
    while i < s.len()
        invariant
            i <= s.len(),
            r@.len() == i,
            forall|j: int| 0 <= j < i ==> #[trigger] r@[j]@ == s@[j]@,
        decreases s.len() - i,
    {
        r.push(s[i].clone());
        i += 1;
    }
    assert(view_strings(r@) =~= view_strings(s@));
    r
}

/// A copy of a vector of alternatives.
pub fn clone_alternatives(s: &Vec<Alternative>) -> (r: Vec<Alternative>)
    ensures
        view_alternatives(r@) == view_alternatives(s@),
    decreases s,
{
    let mut r: Vec<Alternative> = Vec::new();
    let mut i: usize = 0;
    while i < s.len()
        invariant
            i <= s.len(),
            r@.len() == i,
            forall|j: int| 0 <= j < i ==> #[trigger] r@[j]@ == s@[j]@,
        decreases s.len() - i,
    {
        assert(decreases_to!(s => s@[i as int].expression));
        let a = Alternative { type_: s[i].type_.deep_clone(), expression: s[i].expression.deep_clone() };
        r.push(a);
        i += 1;
    }
    assert(view_alternatives(r@) =~= view_alternatives(s@));
    r
}

/// A copy of a vector of definitions.
pub fn clone_definitions(s: &Vec<Definition>) -> (r: Vec<Definition>)
    ensures
        view_definitions(r@) == view_definitions(s@),
    decreases s,
{
    let mut r: Vec<Definition> = Vec::new();
    let mut i: usize = 0;
    while i < s.len()
        invariant
            i <= s.len(),
            r@.len() == i,
            forall|j: int| 0 <= j < i ==> #[trigger] r@[j]@ == s@[j]@,
        decreases s.len() - i,
    {
        assert(decreases_to!(s => s@[i as int]));
        let d = s[i].deep_clone();
        r.push(d);
        i += 1;
    }
    assert(view_definitions(r@) =~= view_definitions(s@));
    r
}

/// A copy of a vector of list elements.
pub fn clone_list_elements(s: &Vec<ListElement>) -> (r: Vec<ListElement>)
    ensures
        view_list_elements(r@) == view_list_elements(s@),
    decreases s,
{
    let mut r: Vec<ListElement> = Vec::new();
    let mut i: usize = 0;
    while i < s.len()
        invariant
            i <= s.len(),
            r@.len() == i,
            forall|j: int| 0 <= j < i ==> #[trigger] r@[j]@ == s@[j]@,
        decreases s.len() - i,
    {
        let e = match &s[i] {
            ListElement::Multiple(e) => {
                assert(decreases_to!(s => s@[i as int]->Multiple_0));
                ListElement::Multiple(e.deep_clone())
            },
            ListElement::Single(e) => {
                assert(decreases_to!(s => s@[i as int]->Single_0));
                ListElement::Single(e.deep_clone())
            },
        };
        r.push(e);
        i += 1;
    }
    assert(view_list_elements(r@) =~= view_list_elements(s@));
    r
}

/// A copy of a vector of record elements.
pub fn clone_record_elements(s: &Vec<(String, Expression)>) -> (r: Vec<(String, Expression)>)
    ensures
        view_record_elements(r@) == view_record_elements(s@),
    decreases s,
{
    let mut r: Vec<(String, Expression)> = Vec::new();
    let mut i: usize = 0;
    while i < s.len()
        invariant
            i <= s.len(),
            r@.len() == i,
            forall|j: int| 0 <= j < i ==> #[trigger] r@[j].0@ == s@[j].0@ && r@[j].1@ == s@[j].1@,
        decreases s.len() - i,
    {
        assert(decreases_to!(s => s@[i as int].1));
        let e = s[i].1.deep_clone();
        r.push((s[i].0.clone(), e));
        i += 1;
    }
    assert(view_record_elements(r@) =~= view_record_elements(s@));
    r
}

impl ExprV {
    /// Whether the predicate holds of the expression and of all expressions in
    /// it, including the bodies of definitions in let expressions.
    pub open spec fn all_nodes(self, p: spec_fn(ExprV) -> bool) -> bool
        decreases self,
    {
        p(self) && match self {
            ExprV::Application { function, argument } => (*function).all_nodes(p) && (
            *argument).all_nodes(p),
            ExprV::Case { argument, alternatives, .. } => (*argument).all_nodes(p)
                && all_nodes_alternatives(alternatives, p),
            ExprV::If { condition, then, else_ } => (*condition).all_nodes(p) && (
            *then).all_nodes(p) && (*else_).all_nodes(p),
            ExprV::Let { definitions, expression } => all_nodes_definitions(definitions, p) && (
            *expression).all_nodes(p),
            ExprV::List { elements } => all_nodes_list_elements(elements, p),
            ExprV::ListCase { argument, empty_alternative, non_empty_alternative, .. } => (
            *argument).all_nodes(p) && (*empty_alternative).all_nodes(p) && (
            *non_empty_alternative).all_nodes(p),
            ExprV::Operation { lhs, rhs, .. } => (*lhs).all_nodes(p) && (*rhs).all_nodes(p),
            ExprV::RecordConstruction { elements, .. } => all_nodes_record_elements(elements, p),
            ExprV::RecordElementOperation { argument, .. } => (*argument).all_nodes(p),
            ExprV::RecordUpdate { argument, elements, .. } => (*argument).all_nodes(p)
                && all_nodes_record_elements(elements, p),
            ExprV::TypeCoercion { argument, .. } => (*argument).all_nodes(p),
            _ => true,
        }
    }
}

pub open spec fn all_nodes_alternatives(s: Seq<AlternativeV>, p: spec_fn(ExprV) -> bool) -> bool
    decreases s,
{
    s.len() == 0 || (all_nodes_alternatives(s.drop_last(), p) && s.last().expression.all_nodes(p))
}

pub open spec fn all_nodes_definitions(s: Seq<DefinitionV>, p: spec_fn(ExprV) -> bool) -> bool
    decreases s,
{
    s.len() == 0 || (all_nodes_definitions(s.drop_last(), p) && match s.last() {
        DefinitionV::Function { body, .. } => body.all_nodes(p),
        DefinitionV::Value { body, .. } => body.all_nodes(p),
    })
}

pub open spec fn all_nodes_list_elements(s: Seq<ListElementV>, p: spec_fn(ExprV) -> bool) -> bool
    decreases s,
{
    s.len() == 0 || (all_nodes_list_elements(s.drop_last(), p) && match s.last() {
        ListElementV::Multiple(e) => e.all_nodes(p),
        ListElementV::Single(e) => e.all_nodes(p),
    })
}

pub open spec fn all_nodes_record_elements(
    s: Seq<(Seq<char>, ExprV)>,
    p: spec_fn(ExprV) -> bool,
) -> bool
    decreases s,
{
    s.len() == 0 || (all_nodes_record_elements(s.drop_last(), p) && s.last().1.all_nodes(p))
}

pub proof fn lemma_all_nodes_alternatives(s: Seq<AlternativeV>, p: spec_fn(ExprV) -> bool, i: int)
    requires
        all_nodes_alternatives(s, p),
        0 <= i < s.len(),
    ensures
        s[i].expression.all_nodes(p),
    decreases s.len(),
{
    if i < s.len() - 1 {
        lemma_all_nodes_alternatives(s.drop_last(), p, i);
    }
}

pub proof fn lemma_all_nodes_definitions(s: Seq<DefinitionV>, p: spec_fn(ExprV) -> bool, i: int)
    requires
        all_nodes_definitions(s, p),
        0 <= i < s.len(),
    ensures
        s[i].body().all_nodes(p),
    decreases s.len(),
{
    if i < s.len() - 1 {
        lemma_all_nodes_definitions(s.drop_last(), p, i);
    }
}

pub proof fn lemma_all_nodes_list_elements(
    s: Seq<ListElementV>,
    p: spec_fn(ExprV) -> bool,
    i: int,
)
    requires
        all_nodes_list_elements(s, p),
        0 <= i < s.len(),
    ensures
        match s[i] {
            ListElementV::Multiple(e) => e.all_nodes(p),
            ListElementV::Single(e) => e.all_nodes(p),
        },
    decreases s.len(),
{
    if i < s.len() - 1 {
        lemma_all_nodes_list_elements(s.drop_last(), p, i);
    }
}

pub proof fn lemma_all_nodes_record_elements(
    s: Seq<(Seq<char>, ExprV)>,
    p: spec_fn(ExprV) -> bool,
    i: int,
)
    requires
        all_nodes_record_elements(s, p),
        0 <= i < s.len(),
    ensures
        s[i].1.all_nodes(p),
    decreases s.len(),
{
    if i < s.len() - 1 {
        lemma_all_nodes_record_elements(s.drop_last(), p, i);
    }
}

} // verus!
