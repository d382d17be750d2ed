//! Canonical forms of types: unions flattened, without duplicates.
use crate::error::{view_result, CompileError, ErrorV};
use crate::reference_type_resolver::{resolve, ReferenceTypeResolver};
use crate::type_equality_checker::{equality_decidable, types_equal, TypeEqualityChecker};
use crate::type_order::{lemma_sort_types_members, sort_type_vec, sort_types};
use crate::types::{
    group_type_view, view_named_types, view_named_types_rec, view_types, view_types_rec, Type,
    TypeV,
};
use vstd::prelude::*;

verus! {

/// The member types of a union with members `types`, with members that
/// resolve to unions replaced by their own member types, laid out in the
/// ordering of types, recursively, at most
/// `fuel` levels deep; members that are not unions are kept unresolved.
pub open spec fn member_types_fuel(env: Map<Seq<char>, TypeV>, types: Seq<TypeV>, fuel: nat) -> Option<
    Result<Seq<TypeV>, ErrorV>,
>
    decreases fuel, types.len(),
{
    if types.len() == 0 {
        Some(Ok(Seq::empty()))
    } else {
        match member_types_fuel(env, types.drop_last(), fuel) {
            None => None,
            Some(Err(e)) => Some(Err(e)),
            Some(Ok(previous)) => match resolve(env, types.last()) {
                Err(e) => Some(Err(e)),
                Ok(TypeV::Union { types: inner }) => if fuel == 0 {
                    None
                } else {
                    match member_types_fuel(env, sort_types(inner), (fuel - 1) as nat) {
                        None => None,
                        Some(Err(e)) => Some(Err(e)),
                        Some(Ok(members)) => Some(Ok(previous + members)),
                    }
                },
                Ok(_) => Some(Ok(previous.push(types.last()))),
            },
        }
    }
}

/// Whether a type equal to `t` is among `types`, comparing in order: the first
/// error, or the answer; `None` where a comparison does not end.
pub open spec fn contains_equal(env: Map<Seq<char>, TypeV>, types: Seq<TypeV>, t: TypeV) -> Option<
    Result<bool, ErrorV>,
>
    decreases types.len(),
{
    if types.len() == 0 {
        Some(Ok(false))
    } else {
        match contains_equal(env, types.drop_last(), t) {
            None => None,
            Some(Err(e)) => Some(Err(e)),
            Some(Ok(true)) => Some(Ok(true)),
            Some(Ok(false)) => if !equality_decidable(env, t, types.last()) {
                None
            } else {
                Some(types_equal(env, t, types.last()))
            },
        }
    }
}

/// The types with those equal to an earlier one left out.
pub open spec fn distinct_types(env: Map<Seq<char>, TypeV>, types: Seq<TypeV>) -> Option<
    Result<Seq<TypeV>, ErrorV>,
>
    decreases types.len(),
{
    if types.len() == 0 {
        Some(Ok(Seq::empty()))
    } else {
        match distinct_types(env, types.drop_last()) {
            None => None,
            Some(Err(e)) => Some(Err(e)),
            Some(Ok(kept)) => match contains_equal(env, kept, types.last()) {
                None => None,
                Some(Err(e)) => Some(Err(e)),
                Some(Ok(true)) => Some(Ok(kept)),
                Some(Ok(false)) => Some(Ok(kept.push(types.last()))),
            },
        }
    }
}

/// The canonical form of a union whose members are canonical. Union types
/// hold their members as a set laid out in the ordering of types, so the
/// members are first sorted, without repeats. Then: the any type if a member
/// type is the any type; otherwise the member types, flattened, with those
/// equal to an earlier one left out, as a union sorted again, or the single
/// one of them.
pub open spec fn canonicalize_union_fuel(env: Map<Seq<char>, TypeV>, types: Seq<TypeV>, fuel: nat) -> Option<
    Result<TypeV, ErrorV>,
> {
    match member_types_fuel(env, sort_types(types), fuel) {
        None => None,
        Some(Err(e)) => Some(Err(e)),
        Some(Ok(all)) => if all.contains(TypeV::Any) {
            Some(Ok(TypeV::Any))
        } else {
            match distinct_types(env, all) {
                None => None,
                Some(Err(e)) => Some(Err(e)),
                Some(Ok(kept)) => if kept.len() == 0 {
                    None
                } else if kept.len() == 1 {
                    Some(Ok(kept[0]))
                } else {
                    Some(Ok(TypeV::Union { types: sort_types(kept) }))
                },
            }
        },
    }
}

/// The canonical form of a type: its inner types first, then unions as
/// [`canonicalize_union_fuel`] says; `None` where the union members nest
/// deeper than `fuel` through references, a comparison does not end, or a
/// union has no members.
pub open spec fn canonicalize_fuel(env: Map<Seq<char>, TypeV>, t: TypeV, fuel: nat) -> Option<
    Result<TypeV, ErrorV>,
>
    decreases t,
{
    match t {
        TypeV::Function { argument, result } => match canonicalize_fuel(env, *argument, fuel) {
            None => None,
            Some(Err(e)) => Some(Err(e)),
            Some(Ok(a)) => match canonicalize_fuel(env, *result, fuel) {
                None => None,
                Some(Err(e)) => Some(Err(e)),
                Some(Ok(r)) => Some(
                    Ok(TypeV::Function { argument: Box::new(a), result: Box::new(r) }),
                ),
            },
        },
        TypeV::List { element } => match canonicalize_fuel(env, *element, fuel) {
            None => None,
            Some(Err(e)) => Some(Err(e)),
            Some(Ok(x)) => Some(Ok(TypeV::List { element: Box::new(x) })),
        },
        TypeV::Record { name, elements } => match canonicalize_named_fuel(env, elements, fuel) {
            None => None,
            Some(Err(e)) => Some(Err(e)),
            Some(Ok(es)) => Some(Ok(TypeV::Record { name, elements: es })),
        },
        TypeV::Union { types } => match canonicalize_all_fuel(env, types, fuel) {
            None => None,
            Some(Err(e)) => Some(Err(e)),
            Some(Ok(ts)) => canonicalize_union_fuel(env, ts, fuel),
        },
        _ => Some(Ok(t)),
    }
}

pub open spec fn canonicalize_all_fuel(env: Map<Seq<char>, TypeV>, ts: Seq<TypeV>, fuel: nat) -> Option<
    Result<Seq<TypeV>, ErrorV>,
>
    decreases ts,
{
    if ts.len() == 0 {
        Some(Ok(Seq::empty()))
    } else {
        match canonicalize_all_fuel(env, ts.drop_last(), fuel) {
            None => None,
            Some(Err(e)) => Some(Err(e)),
            Some(Ok(previous)) => match canonicalize_fuel(env, ts.last(), fuel) {
                None => None,
                Some(Err(e)) => Some(Err(e)),
                Some(Ok(x)) => Some(Ok(previous.push(x))),
            },
        }
    }
}

pub open spec fn canonicalize_named_fuel(
    env: Map<Seq<char>, TypeV>,
    ts: Seq<(Seq<char>, TypeV)>,
    fuel: nat,
) -> Option<Result<Seq<(Seq<char>, TypeV)>, ErrorV>>
    decreases ts,
{
    if ts.len() == 0 {
        Some(Ok(Seq::empty()))
    } else {
        match canonicalize_named_fuel(env, ts.drop_last(), fuel) {
            None => None,
            Some(Err(e)) => Some(Err(e)),
            Some(Ok(previous)) => match canonicalize_fuel(env, ts.last().1, fuel) {
                None => None,
                Some(Err(e)) => Some(Err(e)),
                Some(Ok(x)) => Some(Ok(previous.push((ts.last().0, x)))),
            },
        }
    }
}

/// Canonicalization of the type ends.
pub open spec fn canonicalizable(env: Map<Seq<char>, TypeV>, t: TypeV) -> bool {
    exists|fuel: nat| #[trigger] canonicalize_fuel(env, t, fuel) is Some
}

/// The canonical form of a type in the sense of [`canonicalize_fuel`].
pub open spec fn canonicalize(env: Map<Seq<char>, TypeV>, t: TypeV) -> Result<TypeV, ErrorV> {
    canonicalize_fuel(env, t, choose|fuel: nat| #[trigger] canonicalize_fuel(env, t, fuel) is Some)->0
}

/// The models of a result that holds types.
pub open spec fn view_types_result(r: Result<Vec<Type>, CompileError>) -> Result<Seq<TypeV>, ErrorV> {
    match r {
        Ok(v) => Ok(view_types(v@)),
        Err(e) => Err(e@),
    }
}

/// A type that is not among `types` up to equality is unequal to each of them.
proof fn lemma_contains_equal_false(env: Map<Seq<char>, TypeV>, types: Seq<TypeV>, t: TypeV)
    ensures
        contains_equal(env, types, t) == Some(Ok::<bool, ErrorV>(false)) ==> forall|i: int|
            0 <= i < types.len() ==> types_equal(env, t, #[trigger] types[i]) == Ok::<
                bool,
                ErrorV,
            >(false),
    decreases types.len(),
{
    if types.len() > 0 {
        lemma_contains_equal_false(env, types.drop_last(), t);
        if contains_equal(env, types, t) == Some(Ok::<bool, ErrorV>(false)) {
            assert forall|i: int| 0 <= i < types.len() implies types_equal(
                env,
                t,
                #[trigger] types[i],
            ) == Ok::<bool, ErrorV>(false) by {
                if i < types.len() - 1 {
                    assert(types.drop_last()[i] == types[i]);
                }
            }
        }
    }
}

/// The kept types are pairwise unequal, later ones to earlier ones, and each
/// is one of the given types.
proof fn lemma_distinct_types(env: Map<Seq<char>, TypeV>, types: Seq<TypeV>)
    ensures
        distinct_types(env, types) matches Some(Ok(kept)) ==> {
            &&& forall|i: int, j: int|
                0 <= i < j < kept.len() ==> types_equal(env, #[trigger] kept[j], #[trigger] kept[i])
                    == Ok::<bool, ErrorV>(false)
            &&& forall|i: int| 0 <= i < kept.len() ==> types.contains(#[trigger] kept[i])
        },
    decreases types.len(),
{
    if types.len() > 0 {
        lemma_distinct_types(env, types.drop_last());
        if let Some(Ok(kept)) = distinct_types(env, types.drop_last()) {
            lemma_contains_equal_false(env, kept, types.last());
            assert forall|i: int| 0 <= i < kept.len() implies types.contains(#[trigger] kept[i]) by {
                let k = choose|k: int| 0 <= k < types.drop_last().len() && types.drop_last()[k] == kept[i];
                assert(types[k] == kept[i]);
            }
            assert(types.contains(types.last())) by {
                assert(types[types.len() - 1] == types.last());
            }
            if let Some(Ok(r)) = distinct_types(env, types) {
                if r.len() > kept.len() {
                    assert(r == kept.push(types.last()));
                    assert forall|i: int, j: int| 0 <= i < j < r.len() implies types_equal(
                        env,
                        #[trigger] r[j],
                        #[trigger] r[i],
                    ) == Ok::<bool, ErrorV>(false) by {
                        if j == r.len() - 1 {
                            assert(r[i] == kept[i]);
                        } else {
                            assert(r[i] == kept[i] && r[j] == kept[j]);
                        }
                    }
                    assert forall|i: int| 0 <= i < r.len() implies types.contains(#[trigger] r[i]) by {
                        if i < kept.len() {
                            assert(r[i] == kept[i]);
                        }
                    }
                }
            }
        }
    }
}

/// The member types of a union resolve, and not to unions.
proof fn lemma_member_types_flat(env: Map<Seq<char>, TypeV>, types: Seq<TypeV>, fuel: nat)
    ensures
        member_types_fuel(env, types, fuel) matches Some(Ok(all)) ==> forall|i: int|
            0 <= i < all.len() ==> (resolve(env, #[trigger] all[i]) matches Ok(x) && !(x is Union)),
    decreases fuel, types.len(),
{
    if types.len() > 0 {
        lemma_member_types_flat(env, types.drop_last(), fuel);
        if let Some(Ok(previous)) = member_types_fuel(env, types.drop_last(), fuel) {
            if let Ok(TypeV::Union { types: inner }) = resolve(env, types.last()) {
                if fuel > 0 {
                    lemma_member_types_flat(env, sort_types(inner), (fuel - 1) as nat);
                    if let Some(Ok(members)) = member_types_fuel(
                        env,
                        sort_types(inner),
                        (fuel - 1) as nat,
                    ) {
                        let all = previous + members;
                        assert forall|i: int| 0 <= i < all.len() implies (resolve(
                            env,
                            #[trigger] all[i],
                        ) matches Ok(x) && !(x is Union)) by {
                            if i < previous.len() {
                                assert(all[i] == previous[i]);
                            } else {
                                assert(all[i] == members[i - previous.len()]);
                            }
                        }
                    }
                }
            } else if let Some(Ok(all)) = member_types_fuel(env, types, fuel) {
                assert forall|i: int| 0 <= i < all.len() implies (resolve(
                    env,
                    #[trigger] all[i],
                ) matches Ok(x) && !(x is Union)) by {
                    if i < previous.len() {
                        assert(all[i] == previous[i]);
                    }
                }
            }
        }
    }
}

/// Whether a union is canonical: no member is the any type, and each member
/// resolves to a type that is not a union.
pub open spec fn canonical_union(env: Map<Seq<char>, TypeV>, types: Seq<TypeV>) -> bool {
    forall|i: int|
        0 <= i < types.len() ==> #[trigger] types[i] != TypeV::Any && (resolve(env, types[i]) matches Ok(
            x,
        ) && !(x is Union))
}

/// A union that canonicalization gives back is canonical: flattened and
/// without the any type.
pub proof fn lemma_canonical_unions(env: Map<Seq<char>, TypeV>, t: TypeV)
    requires
        canonicalizable(env, t),
    ensures
        canonicalize(env, t) matches Ok(TypeV::Union { types }) ==> canonical_union(env, types),
{
    let fuel = choose|fuel: nat| #[trigger] canonicalize_fuel(env, t, fuel) is Some;
    if let TypeV::Union { types } = t {
        if let Some(Ok(ts)) = canonicalize_all_fuel(env, types, fuel) {
            lemma_member_types_flat(env, sort_types(ts), fuel);
            if let Some(Ok(all)) = member_types_fuel(env, sort_types(ts), fuel) {
                if !all.contains(TypeV::Any) {
                    lemma_distinct_types(env, all);
                    if let Some(Ok(kept)) = distinct_types(env, all) {
                        lemma_sort_types_members(kept);
                        let sorted = sort_types(kept);
                        assert forall|i: int| 0 <= i < sorted.len() implies #[trigger] sorted[i]
                            != TypeV::Any && (resolve(env, sorted[i]) matches Ok(x) && !(
                        x is Union)) by {
                            let j = choose|j: int| 0 <= j < kept.len() && kept[j] == sorted[i];
                            let k = choose|k: int| 0 <= k < all.len() && all[k] == kept[j];
                            assert(all[k] == kept[j]);
                        }
                    }
                }
            }
        }
    }
}

/// Brings types into a canonical form.
pub struct TypeCanonicalizer {
    reference_type_resolver: ReferenceTypeResolver,
    type_equality_checker: TypeEqualityChecker,
}

impl TypeCanonicalizer {
    /// The types that references resolve to.
    pub closed spec fn environment(&self) -> Map<Seq<char>, TypeV> {
        self.reference_type_resolver.environment()
    }

    /// Both the resolver and the equality checker use the same environment.
    pub closed spec fn well_formed(&self) -> bool {
        self.type_equality_checker.reference_type_resolver.environment() == self.environment()
    }

    pub fn new(
        reference_type_resolver: ReferenceTypeResolver,
        type_equality_checker: TypeEqualityChecker,
    ) -> (r: Self)
        ensures
            r.environment() == reference_type_resolver.environment(),
            r.well_formed() <==> type_equality_checker.reference_type_resolver.environment()
                == reference_type_resolver.environment(),
    {
        TypeCanonicalizer { reference_type_resolver, type_equality_checker }
    }

    /// The canonical form of the type.
    pub fn canonicalize(&self, type_: &Type) -> (r: Result<Type, CompileError>)
        requires
            self.well_formed(),
            canonicalizable(self.environment(), type_@),
        ensures
            view_result(r) == canonicalize(self.environment(), type_@),
    {
        let ghost fuel = choose|fuel: nat|
            #[trigger] canonicalize_fuel(self.environment(), type_@, fuel) is Some;
        self.canonicalize_type(type_, Ghost(fuel))
    }

    fn canonicalize_type(&self, type_: &Type, Ghost(fuel): Ghost<nat>) -> (r: Result<
        Type,
        CompileError,
    >)
        requires
            self.well_formed(),
            canonicalize_fuel(self.environment(), type_@, fuel) is Some,
        ensures
            view_result(r) == canonicalize_fuel(self.environment(), type_@, fuel)->0,
        decreases type_, 1nat, 0nat,
    {
        broadcast use group_type_view;

        match type_ {
            Type::Function { argument, result } => {
                let a = self.canonicalize_type(argument, Ghost(fuel))?;
                let r = self.canonicalize_type(result, Ghost(fuel))?;
                Ok(Type::Function { argument: Box::new(a), result: Box::new(r) })
            },
            Type::List { element } => {
                let x = self.canonicalize_type(element, Ghost(fuel))?;
                Ok(Type::List { element: Box::new(x) })
            },
            Type::Record { name, elements } => {
                assert(view_named_types_rec(elements@) == view_named_types(elements@));
                assert(view_named_types(elements@).take(elements@.len() as int) =~= view_named_types(
                    elements@,
                ));
                let es = self.canonicalize_elements(type_, elements, elements.len(), Ghost(fuel))?;
                assert(view_named_types_rec(es@) == view_named_types(es@));
                Ok(Type::Record { name: name.clone(), elements: es })
            },
            Type::Union { types } => {
                assert(view_types_rec(types@) == view_types(types@));
                assert(view_types(types@).take(types@.len() as int) =~= view_types(types@));
                let ts = self.canonicalize_members(type_, types, types.len(), Ghost(fuel))?;
                self.canonicalize_union_shallowly(&ts, Ghost(fuel))
            },
            _ => Ok(type_.deep_clone()),
        }
    }

    fn canonicalize_members(
        &self,
        parent: &Type,
        types: &Vec<Type>,
        n: usize,
        Ghost(fuel): Ghost<nat>,
    ) -> (r: Result<Vec<Type>, CompileError>)
        requires
            parent matches Type::Union { types: t } && t == types,
            n <= types@.len(),
            self.well_formed(),
            canonicalize_all_fuel(self.environment(), view_types(types@).take(n as int), fuel) is Some,
        ensures
            view_types_result(r) == canonicalize_all_fuel(
                self.environment(),
                view_types(types@).take(n as int),
                fuel,
            )->0,
        decreases parent, 0nat, n,
    {
        if n == 0 {
            let r: Vec<Type> = Vec::new();
            assert(view_types(r@) =~= Seq::<TypeV>::empty());
            return Ok(r);
        }
        let ghost s = view_types(types@).take(n as int);
        assert(s.drop_last() =~= view_types(types@).take(n - 1));
        assert(s.last() == types@[n - 1]@);
        let mut previous = self.canonicalize_members(parent, types, n - 1, Ghost(fuel))?;
        assert(decreases_to!(parent => *types));
        assert(decreases_to!(types => types@[n - 1]));
        let x = self.canonicalize_type(&types[n - 1], Ghost(fuel))?;
        let ghost before = view_types(previous@);
        previous.push(x);
        assert(view_types(previous@) =~= before.push(view_types(previous@).last()));
        Ok(previous)
    }

    fn canonicalize_elements(
        &self,
        parent: &Type,
        elements: &Vec<(String, Type)>,
        n: usize,
        Ghost(fuel): Ghost<nat>,
    ) -> (r: Result<Vec<(String, Type)>, CompileError>)
        requires
            parent matches Type::Record { elements: e, .. } && e == elements,
            n <= elements@.len(),
            self.well_formed(),
            canonicalize_named_fuel(
                self.environment(),
                view_named_types(elements@).take(n as int),
                fuel,
            ) is Some,
        ensures
            match r {
                Ok(v) => canonicalize_named_fuel(
                    self.environment(),
                    view_named_types(elements@).take(n as int),
                    fuel,
                )->0 == Ok::<Seq<(Seq<char>, TypeV)>, ErrorV>(view_named_types(v@)),
                Err(e) => canonicalize_named_fuel(
                    self.environment(),
                    view_named_types(elements@).take(n as int),
                    fuel,
                )->0 == Err::<Seq<(Seq<char>, TypeV)>, ErrorV>(e@),
            },
        decreases parent, 0nat, n,
    {
        if n == 0 {
            let r: Vec<(String, Type)> = Vec::new();
            assert(view_named_types(r@) =~= Seq::<(Seq<char>, TypeV)>::empty());
            return Ok(r);
        }
        let ghost s = view_named_types(elements@).take(n as int);
        assert(s.drop_last() =~= view_named_types(elements@).take(n - 1));
        assert(s.last() == (elements@[n - 1].0@, elements@[n - 1].1@));
        let mut previous = self.canonicalize_elements(parent, elements, n - 1, Ghost(fuel))?;
        assert(decreases_to!(parent => *elements));
        assert(decreases_to!(elements => elements@[n - 1].1));
        let x = self.canonicalize_type(&elements[n - 1].1, Ghost(fuel))?;
        let ghost before = view_named_types(previous@);
        previous.push((elements[n - 1].0.clone(), x));
        assert(view_named_types(previous@) =~= before.push(view_named_types(previous@).last()));
        Ok(previous)
    }

    /// The canonical form of a union whose members are canonical.
    fn canonicalize_union_shallowly(&self, types: &Vec<Type>, Ghost(fuel): Ghost<nat>) -> (r: Result<
        Type,
        CompileError,
    >)
        requires
            self.well_formed(),
            canonicalize_union_fuel(self.environment(), view_types(types@), fuel) is Some,
        ensures
            view_result(r) == canonicalize_union_fuel(self.environment(), view_types(types@), fuel)->0,
    {
        let sorted = sort_type_vec(types);
        assert(view_types(sorted@).take(sorted@.len() as int) =~= view_types(sorted@));
        let all = self.get_member_types(&sorted, sorted.len(), Ghost(fuel))?;
        let ghost all_v = view_types(all@);
        assert(member_types_fuel(self.environment(), sort_types(view_types(types@)), fuel) == Some(
            Ok::<Seq<TypeV>, ErrorV>(all_v),
        ));
        let mut i: usize = 0;
        while i < all.len()
            invariant
                i <= all@.len(),
                all_v == view_types(all@),
                member_types_fuel(self.environment(), sort_types(view_types(types@)), fuel) == Some(
                    Ok::<Seq<TypeV>, ErrorV>(all_v),
                ),
                forall|j: int| 0 <= j < i ==> all_v[j] != TypeV::Any,
            decreases all.len() - i,
        {
            if all[i].is_any() {
                assert(all_v[i as int] == TypeV::Any);
                assert(all_v.contains(TypeV::Any));
                let any = Type::Any;
                assert(any@ == TypeV::Any);
                return Ok(any);
            }
            i += 1;
        }
        assert(!all_v.contains(TypeV::Any));
        assert(all_v.take(all@.len() as int) =~= all_v);
        let kept = self.distinct_types(&all, all.len())?;
        if kept.len() == 1 {
            Ok(kept[0].deep_clone())
        } else if kept.len() == 0 {
            assert(false);
            Ok(Type::Any)
        } else {
            let sorted_kept = sort_type_vec(&kept);
            assert(view_types_rec(sorted_kept@) == view_types(sorted_kept@)) by {
                broadcast use group_type_view;
            }
            Ok(Type::Union { types: sorted_kept })
        }
    }

    fn get_member_types(&self, types: &Vec<Type>, n: usize, Ghost(fuel): Ghost<nat>) -> (r: Result<
        Vec<Type>,
        CompileError,
    >)
        requires
            n <= types@.len(),
            member_types_fuel(self.environment(), view_types(types@).take(n as int), fuel) is Some,
        ensures
            view_types_result(r) == member_types_fuel(
                self.environment(),
                view_types(types@).take(n as int),
                fuel,
            )->0,
        decreases fuel, n,
    {
        broadcast use group_type_view;

        if n == 0 {
            let r: Vec<Type> = Vec::new();
            assert(view_types(r@) =~= Seq::<TypeV>::empty());
            return Ok(r);
        }
        let ghost s = view_types(types@).take(n as int);
        assert(s.drop_last() =~= view_types(types@).take(n - 1));
        assert(s.last() == types@[n - 1]@);
        let mut previous = self.get_member_types(types, n - 1, Ghost(fuel))?;
        let resolved = self.reference_type_resolver.resolve(&types[n - 1])?;
        match &resolved {
            Type::Union { types: inner } => {
                assert(view_types_rec(inner@) == view_types(inner@));
                let sorted = sort_type_vec(inner);
                assert(view_types(sorted@).take(sorted@.len() as int) =~= view_types(sorted@));
                let members = self.get_member_types(&sorted, sorted.len(), Ghost((fuel - 1) as nat))?;
                let ghost before = view_types(previous@);
                let mut j: usize = 0;
                while j < members.len()
                    invariant
                        j <= members@.len(),
                        view_types(previous@) == before + view_types(members@).take(j as int),
                    decreases members.len() - j,
                {
                    let ghost pv = view_types(previous@);
                    previous.push(members[j].deep_clone());
                    assert(view_types(previous@) =~= pv.push(members@[j as int]@));
                    assert(view_types(members@).take(j + 1) =~= view_types(members@).take(
                        j as int,
                    ).push(members@[j as int]@));
                    assert(view_types(previous@) =~= before + view_types(members@).take(j + 1));
                    j += 1;
                }
                assert(view_types(members@).take(j as int) =~= view_types(members@));
                Ok(previous)
            },
            _ => {
                let ghost before = view_types(previous@);
                previous.push(types[n - 1].deep_clone());
                assert(view_types(previous@) =~= before.push(types@[n - 1]@));
                Ok(previous)
            },
        }
    }

    fn contains_equal(&self, types: &Vec<Type>, n: usize, type_: &Type) -> (r: Result<
        bool,
        CompileError,
    >)
        requires
            n <= types@.len(),
            self.well_formed(),
            contains_equal(self.environment(), view_types(types@).take(n as int), type_@) is Some,
        ensures
            view_result(r) == contains_equal(
                self.environment(),
                view_types(types@).take(n as int),
                type_@,
            )->0,
        decreases n,
    {
        if n == 0 {
            return Ok(false);
        }
        let ghost s = view_types(types@).take(n as int);
        assert(s.drop_last() =~= view_types(types@).take(n - 1));
        assert(s.last() == types@[n - 1]@);
        if self.contains_equal(types, n - 1, type_)? {
            return Ok(true);
        }
        self.type_equality_checker.equal(type_, &types[n - 1])
    }

    fn distinct_types(&self, types: &Vec<Type>, n: usize) -> (r: Result<Vec<Type>, CompileError>)
        requires
            n <= types@.len(),
            self.well_formed(),
            distinct_types(self.environment(), view_types(types@).take(n as int)) is Some,
        ensures
            view_types_result(r) == distinct_types(
                self.environment(),
                view_types(types@).take(n as int),
            )->0,
        decreases n,
    {
        if n == 0 {
            let r: Vec<Type> = Vec::new();
            assert(view_types(r@) =~= Seq::<TypeV>::empty());
            return Ok(r);
        }
        let ghost s = view_types(types@).take(n as int);
        assert(s.drop_last() =~= view_types(types@).take(n - 1));
        assert(s.last() == types@[n - 1]@);
        let mut kept = self.distinct_types(types, n - 1)?;
        assert(view_types(kept@).take(kept@.len() as int) =~= view_types(kept@));
        if !self.contains_equal(&kept, kept.len(), &types[n - 1])? {
            let ghost before = view_types(kept@);
            kept.push(types[n - 1].deep_clone());
            assert(view_types(kept@) =~= before.push(types@[n - 1]@));
        }
        Ok(kept)
    }
}

} // verus!
