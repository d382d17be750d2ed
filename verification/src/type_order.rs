//! The ordering of types in which union types hold their members, and sorting
//! by it: variants in the order Any, Boolean, Function, List, None, Number,
//! Record, Reference, String, Union, Unknown, Variable; types of the same
//! variant by their parts, in order.
use crate::types::{group_type_view, view_types, Type, TypeV};
use vstd::prelude::*;

verus! {

/// The position of a type's variant in the ordering.
pub open spec fn variant_index(t: TypeV) -> int {
    match t {
        TypeV::Any => 0,
        TypeV::Boolean => 1,
        TypeV::Function { .. } => 2,
        TypeV::List { .. } => 3,
        TypeV::NoneType => 4,
        TypeV::Number => 5,
        TypeV::Record { .. } => 6,
        TypeV::Reference { .. } => 7,
        TypeV::String => 8,
        TypeV::Union { .. } => 9,
        TypeV::Unknown => 10,
        TypeV::Variable { .. } => 11,
    }
}

/// The order of two integers: -1, 0 or 1.
pub open spec fn int_order(a: int, b: int) -> int {
    if a < b {
        -1
    } else if a > b {
        1
    } else {
        0
    }
}

/// The lexicographic order of two strings by their characters' code points.
pub open spec fn chars_order(a: Seq<char>, b: Seq<char>) -> int
    decreases a.len(),
{
    if a.len() == 0 {
        if b.len() == 0 {
            0
        } else {
            -1
        }
    } else if b.len() == 0 {
        1
    } else if (a[0] as u32) != (b[0] as u32) {
        int_order(a[0] as u32 as int, b[0] as u32 as int)
    } else {
        chars_order(a.drop_first(), b.drop_first())
    }
}

/// The order of two types: -1 when `a` comes first, 1 when `b` does, 0 when
/// neither does.
pub open spec fn type_order(a: TypeV, b: TypeV) -> int
    decreases a,
{
    if variant_index(a) != variant_index(b) {
        int_order(variant_index(a), variant_index(b))
    } else {
        match a {
            TypeV::Function { argument: x1, result: y1 } => match b {
                TypeV::Function { argument: x2, result: y2 } => {
                    let c = type_order(*x1, *x2);
                    if c != 0 {
                        c
                    } else {
                        type_order(*y1, *y2)
                    }
                },
                _ => 0,
            },
            TypeV::List { element: x } => match b {
                TypeV::List { element: y } => type_order(*x, *y),
                _ => 0,
            },
            TypeV::Record { name: n1, elements: e1 } => match b {
                TypeV::Record { name: n2, elements: e2 } => {
                    let c = chars_order(n1, n2);
                    if c != 0 {
                        c
                    } else {
                        named_types_order(e1, e2)
                    }
                },
                _ => 0,
            },
            TypeV::Reference { name: n1 } => match b {
                TypeV::Reference { name: n2 } => chars_order(n1, n2),
                _ => 0,
            },
            TypeV::Union { types: t1 } => match b {
                TypeV::Union { types: t2 } => types_order(t1, t2),
                _ => 0,
            },
            TypeV::Variable { id: i } => match b {
                TypeV::Variable { id: j } => int_order(i as int, j as int),
                _ => 0,
            },
            _ => 0,
        }
    }
}

/// The lexicographic order of two sequences of types.
pub open spec fn types_order(a: Seq<TypeV>, b: Seq<TypeV>) -> int
    decreases a,
{
    if a.len() == 0 {
        if b.len() == 0 {
            0
        } else {
            -1
        }
    } else if b.len() == 0 {
        1
    } else {
        let c = type_order(a[0], b[0]);
        if c != 0 {
            c
        } else {
            types_order(a.drop_first(), b.drop_first())
        }
    }
}

/// The lexicographic order of two sequences of named types: names first.
pub open spec fn named_types_order(a: Seq<(Seq<char>, TypeV)>, b: Seq<(Seq<char>, TypeV)>) -> int
    decreases a,
{
    if a.len() == 0 {
        if b.len() == 0 {
            0
        } else {
            -1
        }
    } else if b.len() == 0 {
        1
    } else {
        let c = chars_order(a[0].0, b[0].0);
        if c != 0 {
            c
        } else {
            let d = type_order(a[0].1, b[0].1);
            if d != 0 {
                d
            } else {
                named_types_order(a.drop_first(), b.drop_first())
            }
        }
    }
}

/// The type inserted into a sorted sequence before the first type that does
/// not come before it; left out when a type of the same order is met first.
pub open spec fn insert_type(s: Seq<TypeV>, t: TypeV) -> Seq<TypeV>
    decreases s.len(),
{
    if s.len() == 0 {
        seq![t]
    } else {
        let c = type_order(t, s[0]);
        if c < 0 {
            seq![t] + s
        } else if c == 0 {
            s
        } else {
            seq![s[0]] + insert_type(s.drop_first(), t)
        }
    }
}

/// The types sorted by the ordering, each inserted in turn, without repeats.
pub open spec fn sort_types(s: Seq<TypeV>) -> Seq<TypeV>
    decreases s.len(),
{
    if s.len() == 0 {
        Seq::empty()
    } else {
        insert_type(sort_types(s.drop_last()), s.last())
    }
}

/// Sorting keeps only types of the input.
pub proof fn lemma_sort_types_members(s: Seq<TypeV>)
    ensures
        forall|i: int| 0 <= i < sort_types(s).len() ==> s.contains(#[trigger] sort_types(s)[i]),
    decreases s.len(),
{
    if s.len() > 0 {
        lemma_sort_types_members(s.drop_last());
        lemma_insert_type_members(sort_types(s.drop_last()), s.last());
        assert forall|i: int| 0 <= i < sort_types(s).len() implies s.contains(
            #[trigger] sort_types(s)[i],
        ) by {
            let x = sort_types(s)[i];
            if x == s.last() {
                assert(s[s.len() - 1] == x);
            } else {
                let k = choose|k: int|
                    0 <= k < sort_types(s.drop_last()).len() && sort_types(s.drop_last())[k] == x;
                assert(s.drop_last().contains(sort_types(s.drop_last())[k]));
                let l = choose|l: int| 0 <= l < s.drop_last().len() && s.drop_last()[l] == x;
                assert(s[l] == x);
            }
        }
    }
}

proof fn lemma_insert_type_members(s: Seq<TypeV>, t: TypeV)
    ensures
        forall|i: int|
            0 <= i < insert_type(s, t).len() ==> #[trigger] insert_type(s, t)[i] == t
                || exists|k: int| 0 <= k < s.len() && s[k] == insert_type(s, t)[i],
    decreases s.len(),
{
    if s.len() > 0 {
        lemma_insert_type_members(s.drop_first(), t);
        let r = insert_type(s, t);
        assert forall|i: int| 0 <= i < r.len() implies #[trigger] r[i] == t || exists|k: int|
            0 <= k < s.len() && s[k] == r[i] by {
            let c = type_order(t, s[0]);
            if c < 0 {
                if i > 0 {
                    assert(s[i - 1] == r[i]);
                }
            } else if c == 0 {
                assert(s[i] == r[i]);
            } else if i == 0 {
                assert(s[0] == r[0]);
            } else {
                let rest = insert_type(s.drop_first(), t);
                assert(r[i] == rest[i - 1]);
                if rest[i - 1] != t {
                    let k = choose|k: int|
                        0 <= k < s.drop_first().len() && s.drop_first()[k] == rest[i - 1];
                    assert(s[k + 1] == r[i]);
                }
            }
        }
    }
}

/// Inserting past a prefix of types that come before the inserted one.
proof fn lemma_insert_type_prefix(s: Seq<TypeV>, t: TypeV, i: int)
    requires
        0 <= i <= s.len(),
        forall|j: int| 0 <= j < i ==> type_order(t, #[trigger] s[j]) > 0,
    ensures
        insert_type(s, t) == s.take(i) + insert_type(s.skip(i), t),
    decreases i,
{
    if i > 0 {
        assert forall|j: int| 0 <= j < i - 1 implies type_order(t, #[trigger] s.drop_first()[j])
            > 0 by {
            assert(s.drop_first()[j] == s[j + 1]);
        }
        lemma_insert_type_prefix(s.drop_first(), t, i - 1);
        assert(s.drop_first().skip(i - 1) =~= s.skip(i));
        assert(seq![s[0]] + s.drop_first().take(i - 1) =~= s.take(i));
        assert(type_order(t, s[0]) > 0);
    } else {
        assert(s.take(0) + insert_type(s.skip(0), t) =~= insert_type(s, t)) by {
            assert(s.skip(0) =~= s);
        }
    }
}

/// The order of two types.
pub fn compare_types(a: &Type, b: &Type) -> (r: i8)
    ensures
        r as int == type_order(a@, b@),
    decreases a,
{
    broadcast use group_type_view;

    let ia = variant_of(a);
    let ib = variant_of(b);
    if ia != ib {
        return if ia < ib {
            -1
        } else {
            1
        };
    }
    match a {
        Type::Function { argument: x1, result: y1 } => match b {
            Type::Function { argument: x2, result: y2 } => {
                let c = compare_types(x1, x2);
                if c != 0 {
                    c
                } else {
                    compare_types(y1, y2)
                }
            },
            _ => 0,
        },
        Type::List { element: x } => match b {
            Type::List { element: y } => compare_types(x, y),
            _ => 0,
        },
        Type::Record { name: n1, elements: e1 } => match b {
            Type::Record { name: n2, elements: e2 } => {
                let c = compare_strings(n1.as_str(), n2.as_str());
                if c != 0 {
                    c
                } else {
                    assert(crate::types::view_named_types_rec(e1@)
                        == crate::types::view_named_types(e1@));
                    assert(crate::types::view_named_types_rec(e2@)
                        == crate::types::view_named_types(e2@));
                    assert(crate::types::view_named_types(e1@).skip(0)
                        =~= crate::types::view_named_types(e1@));
                    assert(crate::types::view_named_types(e2@).skip(0)
                        =~= crate::types::view_named_types(e2@));
                    compare_named_types(a, e1, e2, 0)
                }
            },
            _ => 0,
        },
        Type::Reference { name: n1 } => match b {
            Type::Reference { name: n2 } => compare_strings(n1.as_str(), n2.as_str()),
            _ => 0,
        },
        Type::Union { types: t1 } => match b {
            Type::Union { types: t2 } => {
                assert(crate::types::view_types_rec(t1@) == view_types(t1@));
                assert(crate::types::view_types_rec(t2@) == view_types(t2@));
                assert(view_types(t1@).skip(0) =~= view_types(t1@));
                assert(view_types(t2@).skip(0) =~= view_types(t2@));
                compare_type_lists(a, t1, t2, 0)
            },
            _ => 0,
        },
        Type::Variable { id: i } => match b {
            Type::Variable { id: j } => if *i < *j {
                -1
            } else if *i > *j {
                1
            } else {
                0
            },
            _ => 0,
        },
        _ => 0,
    }
}

fn variant_of(t: &Type) -> (r: u8)
    ensures
        r as int == variant_index(t@),
{
    match t {
        Type::Any => 0,
        Type::Boolean => 1,
        Type::Function { .. } => 2,
        Type::List { .. } => 3,
        Type::NoneType => 4,
        Type::Number => 5,
        Type::Record { .. } => 6,
        Type::Reference { .. } => 7,
        Type::String => 8,
        Type::Union { .. } => 9,
        Type::Unknown => 10,
        Type::Variable { .. } => 11,
    }
}

/// The lexicographic order of two strings by code points.
pub fn compare_strings(a: &str, b: &str) -> (r: i8)
    ensures
        r as int == chars_order(a@, b@),
{
    let n = a.unicode_len();
    let m = b.unicode_len();
    let mut i: usize = 0;
    assert(a@.skip(0) =~= a@);
    assert(b@.skip(0) =~= b@);
    while i < n && i < m
        invariant
            i <= n,
            i <= m,
            n == a@.len(),
            m == b@.len(),
            chars_order(a@, b@) == chars_order(a@.skip(i as int), b@.skip(i as int)),
        decreases n - i,
    {
        let x = a.get_char(i) as u32;
        let y = b.get_char(i) as u32;
        assert(a@.skip(i as int)[0] == a@[i as int]);
        assert(b@.skip(i as int)[0] == b@[i as int]);
        if x != y {
            return if x < y {
                -1
            } else {
                1
            };
        }
        assert(a@.skip(i as int).drop_first() =~= a@.skip(i + 1));
        assert(b@.skip(i as int).drop_first() =~= b@.skip(i + 1));
        i += 1;
    }
    if i < m {
        -1
    } else if i < n {
        1
    } else {
        0
    }
}

fn compare_type_lists(parent: &Type, a: &Vec<Type>, b: &Vec<Type>, i: usize) -> (r: i8)
    requires
        parent matches Type::Union { types: t } && t == a,
        i <= a@.len(),
        i <= b@.len(),
    ensures
        r as int == types_order(view_types(a@).skip(i as int), view_types(b@).skip(i as int)),
    decreases parent, a@.len() - i,
{
    let ghost sa = view_types(a@).skip(i as int);
    let ghost sb = view_types(b@).skip(i as int);
    assert(sa.len() == a@.len() - i);
    assert(sb.len() == b@.len() - i);
    if i >= a.len() {
        return if i < b.len() {
            -1
        } else {
            0
        };
    }
    if i >= b.len() {
        return 1;
    }
    assert(sa[0] == a@[i as int]@);
    assert(sb[0] == b@[i as int]@);
    assert(decreases_to!(parent => *a));
    assert(decreases_to!(a => a@[i as int]));
    let c = compare_types(&a[i], &b[i]);
    if c != 0 {
        return c;
    }
    assert(sa.drop_first() =~= view_types(a@).skip(i + 1));
    assert(sb.drop_first() =~= view_types(b@).skip(i + 1));
    compare_type_lists(parent, a, b, i + 1)
}

fn compare_named_types(
    parent: &Type,
    a: &Vec<(String, Type)>,
    b: &Vec<(String, Type)>,
    i: usize,
) -> (r: i8)
    requires
        parent matches Type::Record { elements: e, .. } && e == a,
        i <= a@.len(),
        i <= b@.len(),
    ensures
        r as int == named_types_order(
            crate::types::view_named_types(a@).skip(i as int),
            crate::types::view_named_types(b@).skip(i as int),
        ),
    decreases parent, a@.len() - i,
{
    let ghost sa = crate::types::view_named_types(a@).skip(i as int);
    let ghost sb = crate::types::view_named_types(b@).skip(i as int);
    assert(sa.len() == a@.len() - i);
    assert(sb.len() == b@.len() - i);
    if i >= a.len() {
        return if i < b.len() {
            -1
        } else {
            0
        };
    }
    if i >= b.len() {
        return 1;
    }
    assert(sa[0] == (a@[i as int].0@, a@[i as int].1@));
    assert(sb[0] == (b@[i as int].0@, b@[i as int].1@));
    let c = compare_strings(a[i].0.as_str(), b[i].0.as_str());
    if c != 0 {
        return c;
    }
    assert(decreases_to!(parent => *a));
    assert(decreases_to!(a => a@[i as int].1));
    let d = compare_types(&a[i].1, &b[i].1);
    if d != 0 {
        return d;
    }
    assert(sa.drop_first() =~= crate::types::view_named_types(a@).skip(i + 1));
    assert(sb.drop_first() =~= crate::types::view_named_types(b@).skip(i + 1));
    compare_named_types(parent, a, b, i + 1)
}

/// The type inserted into a sorted vector as [`insert_type`] says.
#[verifier::loop_isolation(false)]
pub fn insert_type_sorted(s: Vec<Type>, t: Type) -> (r: Vec<Type>)
    ensures
        view_types(r@) == insert_type(view_types(s@), t@),
{
    let ghost sv = view_types(s@);
    let mut s = s;
    let mut i: usize = 0;
    while i < s.len()
        invariant
            i <= s@.len(),
            sv == view_types(s@),
            forall|j: int| 0 <= j < i ==> type_order(t@, #[trigger] sv[j]) > 0,
        decreases s.len() - i,
    {
        let c = compare_types(&t, &s[i]);
        if c <= 0 {
            proof {
                lemma_insert_type_prefix(sv, t@, i as int);
                assert(sv.skip(i as int)[0] == sv[i as int]);
                assert(sv[i as int] == s@[i as int]@);
                assert(sv.skip(i as int).len() > 0);
            }
            if c == 0 {
                assert(insert_type(sv.skip(i as int), t@) == sv.skip(i as int));
                assert(sv.take(i as int) + sv.skip(i as int) =~= sv);
                return s;
            }
            let ghost tv = t@;
            s.insert(i, t);
            assert(view_types(s@) =~= sv.take(i as int) + (seq![tv] + sv.skip(i as int)));
            return s;
        }
        i += 1;
    }
    proof {
        lemma_insert_type_prefix(sv, t@, i as int);
        assert(sv.skip(i as int) =~= Seq::<TypeV>::empty());
        assert(sv.take(i as int) =~= sv);
    }
    let ghost tv = t@;
    s.push(t);
    assert(view_types(s@) =~= sv + seq![tv]);
    s
}

/// The types sorted as [`sort_types`] says.
pub fn sort_type_vec(types: &Vec<Type>) -> (r: Vec<Type>)
    ensures
        view_types(r@) == sort_types(view_types(types@)),
{
    let ghost s = view_types(types@);
    let mut r: Vec<Type> = Vec::new();
    let mut i: usize = 0;
    while i < types.len()
        invariant
            i <= types@.len(),
            s == view_types(types@),
            view_types(r@) == sort_types(s.take(i as int)),
        decreases types.len() - i,
    {
        assert(s.take(i + 1).drop_last() =~= s.take(i as int));
        assert(s.take(i + 1).last() == types@[i as int]@);
        r = insert_type_sorted(r, types[i].deep_clone());
        i += 1;
    }
    assert(s.take(i as int) =~= s);
    r
}

} // verus!
