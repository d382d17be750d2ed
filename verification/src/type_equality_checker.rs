//! Equality of types up to references and record identities.
use crate::error::{view_result, CompileError, ErrorV};
use crate::reference_type_resolver::{resolve, ReferenceTypeResolver};
use crate::type_order::{sort_type_vec, sort_types};
use crate::types::{group_type_view, view_types, view_types_rec, Type, TypeV};
use vstd::prelude::*;

verus! {

/// Equality of two types looking at most `fuel` levels deep; `None` when the
/// fuel runs out.
///
/// Both types are resolved first; records are equal when their names are;
/// unions when their members, laid out in the ordering of types, are pairwise
/// equal; other types when
/// they are the same.
pub open spec fn equal_fuel(env: Map<Seq<char>, TypeV>, a: TypeV, b: TypeV, fuel: nat) -> Option<
    Result<bool, ErrorV>,
>
    decreases fuel, 0nat,
{
    if fuel == 0 {
        None
    } else {
        match resolve(env, a) {
            Err(e) => Some(Err(e)),
            Ok(x) => match resolve(env, b) {
                Err(e) => Some(Err(e)),
                Ok(y) => match (x, y) {
                    (TypeV::Record { name: n1, .. }, TypeV::Record { name: n2, .. }) => Some(
                        Ok(n1 == n2),
                    ),
                    (TypeV::Union { types: t1 }, TypeV::Union { types: t2 }) => if sort_types(
                        t1,
                    ).len() != sort_types(t2).len() {
                        Some(Ok(false))
                    } else {
                        all_equal_fuel(env, sort_types(t1), sort_types(t2), (fuel - 1) as nat)
                    },
                    _ => Some(Ok(x == y)),
                },
            },
        }
    }
}

/// Pairwise equality of two sequences of types of the same length: the first
/// error in order, or whether all pairs are equal.
pub open spec fn all_equal_fuel(
    env: Map<Seq<char>, TypeV>,
    a: Seq<TypeV>,
    b: Seq<TypeV>,
    fuel: nat,
) -> Option<Result<bool, ErrorV>>
    decreases fuel, a.len(),
{
    if a.len() == 0 {
        Some(Ok(true))
    } else {
        match equal_fuel(env, a[0], b[0], fuel) {
            None => None,
            Some(Err(e)) => Some(Err(e)),
            Some(Ok(x)) => match all_equal_fuel(env, a.drop_first(), b.drop_first(), fuel) {
                None => None,
                Some(Err(e)) => Some(Err(e)),
                Some(Ok(y)) => Some(Ok(x && y)),
            },
        }
    }
}

/// The comparison of two types ends.
pub open spec fn equality_decidable(env: Map<Seq<char>, TypeV>, a: TypeV, b: TypeV) -> bool {
    exists|fuel: nat| #[trigger] equal_fuel(env, a, b, fuel) is Some
}

/// Whether two types are equal in the sense of [`equal_fuel`].
pub open spec fn types_equal(env: Map<Seq<char>, TypeV>, a: TypeV, b: TypeV) -> Result<bool, ErrorV> {
    equal_fuel(env, a, b, choose|fuel: nat| #[trigger] equal_fuel(env, a, b, fuel) is Some)->0
}

pub proof fn lemma_equal_fuel_monotonic(
    env: Map<Seq<char>, TypeV>,
    a: TypeV,
    b: TypeV,
    fuel: nat,
    more: nat,
)
    requires
        equal_fuel(env, a, b, fuel) is Some,
        fuel <= more,
    ensures
        equal_fuel(env, a, b, more) == equal_fuel(env, a, b, fuel),
    decreases fuel, 0nat,
{
    if let Ok(x) = resolve(env, a) {
        if let Ok(y) = resolve(env, b) {
            if let (TypeV::Union { types: t1 }, TypeV::Union { types: t2 }) = (x, y) {
                if sort_types(t1).len() == sort_types(t2).len() {
                    lemma_all_equal_fuel_monotonic(
                        env,
                        sort_types(t1),
                        sort_types(t2),
                        (fuel - 1) as nat,
                        (more - 1) as nat,
                    );
                }
            }
        }
    }
}

pub proof fn lemma_all_equal_fuel_monotonic(
    env: Map<Seq<char>, TypeV>,
    a: Seq<TypeV>,
    b: Seq<TypeV>,
    fuel: nat,
    more: nat,
)
    requires
        all_equal_fuel(env, a, b, fuel) is Some,
        fuel <= more,
    ensures
        all_equal_fuel(env, a, b, more) == all_equal_fuel(env, a, b, fuel),
    decreases fuel, a.len(),
{
    if a.len() > 0 {
        lemma_equal_fuel_monotonic(env, a[0], b[0], fuel, more);
        if equal_fuel(env, a[0], b[0], fuel) matches Some(Ok(_)) {
            lemma_all_equal_fuel_monotonic(env, a.drop_first(), b.drop_first(), fuel, more);
        }
    }
}

/// Any sufficient fuel gives the result of [`types_equal`].
pub proof fn lemma_equal_with_any_fuel(env: Map<Seq<char>, TypeV>, a: TypeV, b: TypeV, fuel: nat)
    requires
        equal_fuel(env, a, b, fuel) is Some,
    ensures
        equal_fuel(env, a, b, fuel)->0 == types_equal(env, a, b),
{
    let f = choose|f: nat| #[trigger] equal_fuel(env, a, b, f) is Some;
    assert(equal_fuel(env, a, b, f) is Some);
    if f <= fuel {
        lemma_equal_fuel_monotonic(env, a, b, f, fuel);
    } else {
        lemma_equal_fuel_monotonic(env, a, b, fuel, f);
    }
}

/// Whether a comparison that ended without an error found equality.
pub open spec fn true_unless_error(r: Result<bool, ErrorV>) -> bool {
    match r {
        Ok(x) => x,
        Err(_) => true,
    }
}

proof fn lemma_equal_fuel_reflexive(env: Map<Seq<char>, TypeV>, a: TypeV, fuel: nat)
    ensures
        equal_fuel(env, a, a, fuel) matches Some(r) ==> true_unless_error(r),
    decreases fuel, 0nat,
{
    if fuel > 0 {
        if let Ok(TypeV::Union { types }) = resolve(env, a) {
            lemma_all_equal_fuel_reflexive(env, sort_types(types), (fuel - 1) as nat);
        }
    }
}

proof fn lemma_all_equal_fuel_reflexive(env: Map<Seq<char>, TypeV>, a: Seq<TypeV>, fuel: nat)
    ensures
        all_equal_fuel(env, a, a, fuel) matches Some(r) ==> true_unless_error(r),
    decreases fuel, a.len(),
{
    if a.len() > 0 {
        lemma_equal_fuel_reflexive(env, a[0], fuel);
        lemma_all_equal_fuel_reflexive(env, a.drop_first(), fuel);
    }
}

proof fn lemma_equal_fuel_symmetric(env: Map<Seq<char>, TypeV>, a: TypeV, b: TypeV, fuel: nat)
    ensures
        equal_fuel(env, a, b, fuel) matches Some(Ok(x)) ==> (equal_fuel(env, b, a, fuel) matches Some(
            Ok(y),
        ) ==> x == y),
    decreases fuel, 0nat,
{
    if fuel > 0 {
        if let (Ok(TypeV::Union { types: t1 }), Ok(TypeV::Union { types: t2 })) = (
            resolve(env, a),
            resolve(env, b),
        ) {
            if sort_types(t1).len() == sort_types(t2).len() {
                lemma_all_equal_fuel_symmetric(env, sort_types(t1), sort_types(t2), (fuel - 1) as nat);
            }
        }
    }
}

proof fn lemma_all_equal_fuel_symmetric(
    env: Map<Seq<char>, TypeV>,
    a: Seq<TypeV>,
    b: Seq<TypeV>,
    fuel: nat,
)
    requires
        a.len() == b.len(),
    ensures
        all_equal_fuel(env, a, b, fuel) matches Some(Ok(x)) ==> (all_equal_fuel(
            env,
            b,
            a,
            fuel,
        ) matches Some(Ok(y)) ==> x == y),
    decreases fuel, a.len(),
{
    if a.len() > 0 {
        lemma_equal_fuel_symmetric(env, a[0], b[0], fuel);
        lemma_all_equal_fuel_symmetric(env, a.drop_first(), b.drop_first(), fuel);
    }
}

/// Type equality is reflexive: a type is equal to itself whenever the
/// comparison ends without an error.
pub proof fn lemma_types_equal_reflexive(env: Map<Seq<char>, TypeV>, a: TypeV)
    requires
        equality_decidable(env, a, a),
    ensures
        true_unless_error(types_equal(env, a, a)),
{
    let fuel = choose|fuel: nat| #[trigger] equal_fuel(env, a, a, fuel) is Some;
    lemma_equal_fuel_reflexive(env, a, fuel);
}

/// Type equality is symmetric: comparing two types in either order gives the
/// same answer whenever both comparisons end without an error.
pub proof fn lemma_types_equal_symmetric(env: Map<Seq<char>, TypeV>, a: TypeV, b: TypeV)
    requires
        equality_decidable(env, a, b),
        equality_decidable(env, b, a),
        types_equal(env, a, b) is Ok,
        types_equal(env, b, a) is Ok,
    ensures
        types_equal(env, a, b) == types_equal(env, b, a),
{
    let f = choose|fuel: nat| #[trigger] equal_fuel(env, a, b, fuel) is Some;
    let g = choose|fuel: nat| #[trigger] equal_fuel(env, b, a, fuel) is Some;
    let fuel = if f <= g { g } else { f };
    lemma_equal_fuel_monotonic(env, a, b, f, fuel);
    lemma_equal_fuel_monotonic(env, b, a, g, fuel);
    lemma_equal_fuel_symmetric(env, a, b, fuel);
}

/// A type that is not a reference resolves to itself.
proof fn lemma_resolve_non_reference(env: Map<Seq<char>, TypeV>, t: TypeV)
    requires
        !(t is Reference),
    ensures
        resolve(env, t) == Ok::<TypeV, ErrorV>(t),
{
    assert(crate::reference_type_resolver::resolve_with_fuel(env, t, 0) is Some);
}

proof fn lemma_all_equal_fuel_pairs(
    env: Map<Seq<char>, TypeV>,
    a: Seq<TypeV>,
    b: Seq<TypeV>,
    fuel: nat,
)
    requires
        a.len() == b.len(),
        all_equal_fuel(env, a, b, fuel) == Some(Ok::<bool, ErrorV>(true)),
    ensures
        forall|i: int|
            0 <= i < a.len() ==> equal_fuel(env, a[i], b[i], fuel) == Some(
                Ok::<bool, ErrorV>(true),
            ),
    decreases a.len(),
{
    if a.len() > 0 {
        lemma_all_equal_fuel_pairs(env, a.drop_first(), b.drop_first(), fuel);
        assert forall|i: int| 0 <= i < a.len() implies equal_fuel(env, a[i], b[i], fuel) == Some(
            Ok::<bool, ErrorV>(true),
        ) by {
            if i > 0 {
                assert(a.drop_first()[i - 1] == a[i]);
                assert(b.drop_first()[i - 1] == b[i]);
            }
        }
    }
}

proof fn lemma_all_equal_from_pairs(env: Map<Seq<char>, TypeV>, a: Seq<TypeV>, b: Seq<TypeV>) -> (fuel: nat)
    requires
        a.len() == b.len(),
        forall|i: int|
            0 <= i < a.len() ==> equality_decidable(env, a[i], b[i]) && types_equal(env, a[i], b[i])
                == Ok::<bool, ErrorV>(true),
    ensures
        all_equal_fuel(env, a, b, fuel) == Some(Ok::<bool, ErrorV>(true)),
    decreases a.len(),
{
    if a.len() == 0 {
        0
    } else {
        assert(equality_decidable(env, a[0], b[0]));
        let f0 = choose|f: nat| #[trigger] equal_fuel(env, a[0], b[0], f) is Some;
        lemma_equal_with_any_fuel(env, a[0], b[0], f0);
        assert forall|i: int| 0 <= i < a.drop_first().len() implies equality_decidable(
            env,
            a.drop_first()[i],
            b.drop_first()[i],
        ) && types_equal(env, a.drop_first()[i], b.drop_first()[i]) == Ok::<bool, ErrorV>(true) by {
            assert(a.drop_first()[i] == a[i + 1]);
            assert(b.drop_first()[i] == b[i + 1]);
        }
        let f1 = lemma_all_equal_from_pairs(env, a.drop_first(), b.drop_first());
        let f = if f0 <= f1 {
            f1
        } else {
            f0
        };
        lemma_equal_fuel_monotonic(env, a[0], b[0], f0, f);
        lemma_all_equal_fuel_monotonic(env, a.drop_first(), b.drop_first(), f1, f);
        f
    }
}

/// Two unions are equal exactly when their members, laid out in the ordering
/// of types, are as many and pair up as equal: an equal pair of unions has
/// every member pair equal, and unions whose member pairs are all equal are
/// equal.
pub proof fn lemma_union_equality_pairwise(env: Map<Seq<char>, TypeV>, t1: Seq<TypeV>, t2: Seq<TypeV>)
    ensures
        equality_decidable(env, TypeV::Union { types: t1 }, TypeV::Union { types: t2 })
            && types_equal(env, TypeV::Union { types: t1 }, TypeV::Union { types: t2 }) == Ok::<
            bool,
            ErrorV,
        >(true) ==> sort_types(t1).len() == sort_types(t2).len() && forall|i: int|
            0 <= i < sort_types(t1).len() ==> equality_decidable(
                env,
                sort_types(t1)[i],
                sort_types(t2)[i],
            ) && types_equal(env, sort_types(t1)[i], sort_types(t2)[i]) == Ok::<bool, ErrorV>(
                true,
            ),
        sort_types(t1).len() == sort_types(t2).len() && (forall|i: int|
            0 <= i < sort_types(t1).len() ==> equality_decidable(
                env,
                sort_types(t1)[i],
                sort_types(t2)[i],
            ) && types_equal(env, sort_types(t1)[i], sort_types(t2)[i]) == Ok::<bool, ErrorV>(true))
            ==> equality_decidable(env, TypeV::Union { types: t1 }, TypeV::Union { types: t2 })
            && types_equal(env, TypeV::Union { types: t1 }, TypeV::Union { types: t2 }) == Ok::<
            bool,
            ErrorV,
        >(true),
{
    let u1 = TypeV::Union { types: t1 };
    let u2 = TypeV::Union { types: t2 };
    let s1 = sort_types(t1);
    let s2 = sort_types(t2);
    lemma_resolve_non_reference(env, u1);
    lemma_resolve_non_reference(env, u2);
    if equality_decidable(env, u1, u2) && types_equal(env, u1, u2) == Ok::<bool, ErrorV>(true) {
        let fuel = choose|fuel: nat| #[trigger] equal_fuel(env, u1, u2, fuel) is Some;
        assert(fuel > 0);
        assert(s1.len() == s2.len());
        lemma_all_equal_fuel_pairs(env, s1, s2, (fuel - 1) as nat);
        assert forall|i: int| 0 <= i < s1.len() implies equality_decidable(env, s1[i], s2[i])
            && types_equal(env, s1[i], s2[i]) == Ok::<bool, ErrorV>(true) by {
            assert(equal_fuel(env, s1[i], s2[i], (fuel - 1) as nat) is Some);
            lemma_equal_with_any_fuel(env, s1[i], s2[i], (fuel - 1) as nat);
        }
    }
    if s1.len() == s2.len() && (forall|i: int|
        0 <= i < s1.len() ==> equality_decidable(env, s1[i], s2[i]) && types_equal(env, s1[i], s2[i])
            == Ok::<bool, ErrorV>(true)) {
        let f = lemma_all_equal_from_pairs(env, s1, s2);
        assert(equal_fuel(env, u1, u2, f + 1) == Some(Ok::<bool, ErrorV>(true)));
        lemma_equal_with_any_fuel(env, u1, u2, f + 1);
    }
}

/// Checks types for equality.
pub struct TypeEqualityChecker {
    pub reference_type_resolver: ReferenceTypeResolver,
}

impl TypeEqualityChecker {
    pub fn new(reference_type_resolver: ReferenceTypeResolver) -> (r: Self)
        ensures
            r.reference_type_resolver == reference_type_resolver,
    {
        TypeEqualityChecker { reference_type_resolver }
    }

    /// Whether the types are equal once resolved: records by name, unions
    /// member by member, other types structurally.
    pub fn equal(&self, one: &Type, other: &Type) -> (r: Result<bool, CompileError>)
        requires
            equality_decidable(self.reference_type_resolver.environment(), one@, other@),
        ensures
            view_result(r) == types_equal(self.reference_type_resolver.environment(), one@, other@),
    {
        let ghost env = self.reference_type_resolver.environment();
        let ghost fuel = choose|fuel: nat| #[trigger] equal_fuel(env, one@, other@, fuel) is Some;
        proof {
            lemma_equal_with_any_fuel(env, one@, other@, fuel);
        }
        self.equal_with_fuel(one, other, Ghost(fuel))
    }

    /// Equality with a bound on the depth of the comparison.
    pub fn equal_with_fuel(&self, one: &Type, other: &Type, Ghost(fuel): Ghost<nat>) -> (r: Result<
        bool,
        CompileError,
    >)
        requires
            equal_fuel(self.reference_type_resolver.environment(), one@, other@, fuel) is Some,
        ensures
            view_result(r) == equal_fuel(
                self.reference_type_resolver.environment(),
                one@,
                other@,
                fuel,
            )->0,
        decreases fuel, 0nat,
    {
        broadcast use group_type_view;

        let one = self.reference_type_resolver.resolve(one)?;
        let other = self.reference_type_resolver.resolve(other)?;
        match (&one, &other) {
            (Type::Record { name: n1, .. }, Type::Record { name: n2, .. }) => Ok(*n1 == *n2),
            (Type::Union { types: t1 }, Type::Union { types: t2 }) => {
                assert(view_types_rec(t1@) == view_types(t1@));
                assert(view_types_rec(t2@) == view_types(t2@));
                let s1 = sort_type_vec(t1);
                let s2 = sort_type_vec(t2);
                if s1.len() != s2.len() {
                    Ok(false)
                } else {
                    assert(view_types(s1@).skip(0) =~= view_types(s1@));
                    assert(view_types(s2@).skip(0) =~= view_types(s2@));
                    self.all_equal(&s1, &s2, 0, Ghost((fuel - 1) as nat))
                }
            },
            _ => Ok(one.equals(&other)),
        }
    }

    fn all_equal(&self, a: &Vec<Type>, b: &Vec<Type>, start: usize, Ghost(fuel): Ghost<nat>) -> (r: Result<
        bool,
        CompileError,
    >)
        requires
            start <= a@.len(),
            a@.len() == b@.len(),
            all_equal_fuel(
                self.reference_type_resolver.environment(),
                view_types(a@).skip(start as int),
                view_types(b@).skip(start as int),
                fuel,
            ) is Some,
        ensures
            view_result(r) == all_equal_fuel(
                self.reference_type_resolver.environment(),
                view_types(a@).skip(start as int),
                view_types(b@).skip(start as int),
                fuel,
            )->0,
        decreases fuel, a@.len() - start + 1,
    {
        if start == a.len() {
            return Ok(true);
        }
        let ghost sa = view_types(a@).skip(start as int);
        let ghost sb = view_types(b@).skip(start as int);
        assert(sa[0] == a@[start as int]@);
        assert(sb[0] == b@[start as int]@);
        assert(sa.drop_first() =~= view_types(a@).skip(start + 1));
        assert(sb.drop_first() =~= view_types(b@).skip(start + 1));
        let x = self.equal_with_fuel(&a[start], &b[start], Ghost(fuel))?;
        let y = self.all_equal(a, b, start + 1, Ghost(fuel))?;
        Ok(x && y)
    }
}

} // verus!
