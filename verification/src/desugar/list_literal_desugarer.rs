//! Desugaring of list literals into applications of list functions.
use crate::ast::{
    all_nodes_definitions, ExprV, Expression, ListElement, ListElementV, view_list_elements,
    view_list_elements_rec, lemma_all_nodes_list_elements,
};
use crate::configuration::{ListLiteralConfiguration, ListLiteralNames};
use crate::convert::{
    lemma_convert_module_keeps_state,
    children_all, convert_module, convert_module_spec, lemma_all_nodes_children,
    lemma_convert_module_all_nodes, ExpressionConverter,
};
use crate::error::CompileError;
use crate::module::{Module, ModuleV};
use vstd::prelude::*;

verus! {

/// The expression that a list literal becomes: the empty list variable for no
/// elements; for a spread element first, the concatenation of that list and the
/// rest; for a single element first, the element prepended to the rest.
pub open spec fn desugar_list(
    empty: Seq<char>,
    concatenate: Seq<char>,
    prepend: Seq<char>,
    elements: Seq<ListElementV>,
) -> ExprV
    decreases elements.len(),
{
    if elements.len() == 0 {
        ExprV::Variable { name: empty }
    } else {
        let rest = desugar_list(empty, concatenate, prepend, elements.drop_first());
        let (function, element) = match elements[0] {
            ListElementV::Multiple(e) => (concatenate, e),
            ListElementV::Single(e) => (prepend, e),
        };
        ExprV::Application {
            function: Box::new(
                ExprV::Application {
                    function: Box::new(ExprV::Variable { name: function }),
                    argument: Box::new(element),
                },
            ),
            argument: Box::new(rest),
        }
    }
}

/// Builds the expression of [`desugar_list`] from owned list elements.
pub fn desugar_list_elements(
    empty: &str,
    concatenate: &str,
    prepend: &str,
    elements: Vec<ListElement>,
) -> (r: Expression)
    ensures
        r@ == desugar_list(empty@, concatenate@, prepend@, view_list_elements(elements@)),
{
    let ghost all = view_list_elements(elements@);
    let ghost n = elements@.len() as int;
    let mut elements = elements;
    let mut r = Expression::Variable { name: String::from_str(empty) };
    assert(all.subrange(n, n) =~= Seq::<ListElementV>::empty());
    while elements.len() > 0
        invariant
            elements@.len() <= n,
            n == all.len(),
            forall|j: int| 0 <= j < elements@.len() ==> (#[trigger] elements@[j])@ == all[j],
            r@ == desugar_list(
                empty@,
                concatenate@,
                prepend@,
                all.subrange(elements@.len() as int, n),
            ),
        decreases elements.len(),
    {
        let k = elements.len() - 1;
        let element = elements.pop().unwrap();
        let ghost s = all.subrange(k as int, n);
        assert(s.drop_first() =~= all.subrange(k + 1, n));
        assert(s[0] == element@);
        let ghost rest = r@;
        let (function, argument) = match element {
            ListElement::Multiple(x) => (concatenate, x),
            ListElement::Single(x) => (prepend, x),
        };
        let ghost x = argument@;
        let variable = Expression::Variable { name: String::from_str(function) };
        assert(variable@ == ExprV::Variable { name: function@ });
        let inner = Expression::Application { function: Box::new(variable), argument: Box::new(argument) };
        assert(inner@ == ExprV::Application {
            function: Box::new(ExprV::Variable { name: function@ }),
            argument: Box::new(x),
        });
        r = Expression::Application { function: Box::new(inner), argument: Box::new(r) };
    }
    assert(all.subrange(0, n) =~= all);
    r
}

/// A desugared list literal satisfies a predicate at all its nodes when its
/// elements do and the predicate holds of variables and applications.
pub proof fn lemma_desugar_list_all_nodes(
    empty: Seq<char>,
    concatenate: Seq<char>,
    prepend: Seq<char>,
    elements: Seq<ListElementV>,
    p: spec_fn(ExprV) -> bool,
)
    requires
        forall|i: int|
            0 <= i < elements.len() ==> match #[trigger] elements[i] {
                ListElementV::Multiple(e) => e.all_nodes(p),
                ListElementV::Single(e) => e.all_nodes(p),
            },
        forall|name: Seq<char>| #[trigger] p(ExprV::Variable { name }),
        forall|f: Box<ExprV>, a: Box<ExprV>|
            #[trigger] p(ExprV::Application { function: f, argument: a }),
    ensures
        desugar_list(empty, concatenate, prepend, elements).all_nodes(p),
    decreases elements.len(),
{
    if elements.len() > 0 {
        assert forall|i: int| 0 <= i < elements.drop_first().len() implies match #[trigger] elements.drop_first()[i] {
            ListElementV::Multiple(e) => e.all_nodes(p),
            ListElementV::Single(e) => e.all_nodes(p),
        } by {
            assert(elements.drop_first()[i] == elements[i + 1]);
        }
        lemma_desugar_list_all_nodes(empty, concatenate, prepend, elements.drop_first(), p);
        let (function, element) = match elements[0] {
            ListElementV::Multiple(e) => (concatenate, e),
            ListElementV::Single(e) => (prepend, e),
        };
        assert(element.all_nodes(p));
        assert(ExprV::Variable { name: function }.all_nodes(p));
        let inner = ExprV::Application {
            function: Box::new(ExprV::Variable { name: function }),
            argument: Box::new(element),
        };
        assert(inner.all_nodes(p));
    } else {
        assert(ExprV::Variable { name: empty }.all_nodes(p));
    }
}

/// Whether the expression is not a list literal.
pub open spec fn not_list_literal(e: ExprV) -> bool {
    !(e is List)
}

/// Converting list literals as [`desugar_list`] says leaves no list literal
/// where none was inside the node.
pub proof fn lemma_list_node(names: ListLiteralNames, x: ExprV)
    ensures
        children_all(x, |e: ExprV| not_list_literal(e)) ==> (match x {
            ExprV::List { elements } => desugar_list(
                names.empty_list_variable_name,
                names.concatenate_function_name,
                names.prepend_function_name,
                elements,
            ),
            _ => x,
        }).all_nodes(|e: ExprV| not_list_literal(e)),
{
    let p = |e: ExprV| not_list_literal(e);
    lemma_all_nodes_children(x, p);
    if let ExprV::List { elements } = x {
        if children_all(x, p) {
            assert forall|i: int| 0 <= i < elements.len() implies match #[trigger] elements[i] {
                ListElementV::Multiple(e) => e.all_nodes(p),
                ListElementV::Single(e) => e.all_nodes(p),
            } by {
                lemma_all_nodes_list_elements(elements, p, i);
            }
            lemma_desugar_list_all_nodes(
                names.empty_list_variable_name,
                names.concatenate_function_name,
                names.prepend_function_name,
                elements,
                p,
            );
        }
    }
}

/// Desugars list literals into applications of the configured list functions.
pub struct ListLiteralDesugarer {
    configuration: ListLiteralConfiguration,
}

impl View for ListLiteralDesugarer {
    type V = ListLiteralNames;

    closed spec fn view(&self) -> ListLiteralNames {
        self.configuration@
    }
}

impl ExpressionConverter for ListLiteralDesugarer {
    open spec fn well_formed(&self) -> bool {
        true
    }

    open spec fn converted(state: ListLiteralNames, e: ExprV) -> (ListLiteralNames, ExprV) {
        match e {
            ExprV::List { elements } => (
                state,
                desugar_list(
                    state.empty_list_variable_name,
                    state.concatenate_function_name,
                    state.prepend_function_name,
                    elements,
                ),
            ),
            _ => (state, e),
        }
    }

    fn convert(&mut self, e: Expression) -> (r: Expression) {
        broadcast use crate::ast::group_ast_view;

        match e {
            Expression::List { elements } => {
                assert(view_list_elements_rec(elements@) == view_list_elements(elements@));
                desugar_list_elements(
                    self.configuration.empty_list_variable_name(),
                    self.configuration.concatenate_function_name(),
                    self.configuration.prepend_function_name(),
                    elements,
                )
            },
            _ => e,
        }
    }
}

impl ListLiteralDesugarer {
    pub fn new(configuration: ListLiteralConfiguration) -> (r: Self)
        ensures
            r@ == configuration@,
    {
        ListLiteralDesugarer { configuration }
    }

    /// Desugars every list literal in the module's definitions.
    pub fn desugar(&mut self, module: &Module) -> (r: Result<Module, CompileError>)
        ensures
            final(self)@ == old(self)@,
            r matches Ok(m) && m@ == convert_module_spec::<ListLiteralDesugarer>(
                old(self)@,
                module@,
            ).1,
    {
        proof {
            lemma_convert_module_keeps_state::<ListLiteralDesugarer>(self@, module@);
        }
        Ok(convert_module(self, module))
    }
}

/// After desugaring, no list literal is left in any definition.
pub proof fn lemma_list_literals_desugared(names: ListLiteralNames, m: ModuleV)
    ensures
        all_nodes_definitions(
            convert_module_spec::<ListLiteralDesugarer>(names, m).1.definitions,
            |e: ExprV| not_list_literal(e),
        ),
{
    let p = |e: ExprV| not_list_literal(e);
    assert forall|c: ListLiteralNames, x: ExprV| children_all(x, p) implies (
    #[trigger] ListLiteralDesugarer::converted(c, x)).1.all_nodes(p) by {
        lemma_list_node(c, x);
    }
    lemma_convert_module_all_nodes::<ListLiteralDesugarer>(names, m, p);
}

} // verus!
