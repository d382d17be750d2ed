//! Whether values of a type can be compared for equality.
use crate::error::{view_result, CompileError, ErrorV};
use crate::names::contains_string;
use crate::reference_type_resolver::{resolve, ReferenceTypeResolver};
use crate::types::{view_named_types, view_types, Type, TypeV, group_type_view, view_types_rec, view_named_types_rec};
use crate::ast::view_strings;
use vstd::prelude::*;

verus! {

/// Comparability of a type, looking at most `fuel` levels deep; `None` when
/// the fuel runs out or a type that has not been inferred is met.
///
/// Record types already being checked (`records`) count as comparable, so
/// that recursive records are checked once.
pub open spec fn comparable_fuel(
    env: Map<Seq<char>, TypeV>,
    t: TypeV,
    records: Seq<Seq<char>>,
    fuel: nat,
) -> Option<Result<bool, ErrorV>>
    decreases fuel, 0nat,
{
    if fuel == 0 {
        None
    } else {
        match t {
            TypeV::Any => Some(Ok(false)),
            TypeV::Boolean => Some(Ok(true)),
            TypeV::Function { .. } => Some(Ok(false)),
            TypeV::List { element } => comparable_fuel(env, *element, records, (fuel - 1) as nat),
            TypeV::NoneType => Some(Ok(true)),
            TypeV::Number => Some(Ok(true)),
            TypeV::Record { name, elements } => if records.contains(name) {
                Some(Ok(true))
            } else {
                all_comparable_fuel(
                    env,
                    elements.map_values(|e: (Seq<char>, TypeV)| e.1),
                    records.push(name),
                    (fuel - 1) as nat,
                )
            },
            TypeV::Reference { name } => match resolve(env, t) {
                Err(e) => Some(Err(e)),
                Ok(r) => comparable_fuel(env, r, records, (fuel - 1) as nat),
            },
            TypeV::String => Some(Ok(true)),
            TypeV::Union { types } => all_comparable_fuel(env, types, records, (fuel - 1) as nat),
            TypeV::Unknown => None,
            TypeV::Variable { .. } => None,
        }
    }
}

/// Comparability of all types of a sequence: the first error in order, or
/// whether all are comparable.
pub open spec fn all_comparable_fuel(
    env: Map<Seq<char>, TypeV>,
    ts: Seq<TypeV>,
    records: Seq<Seq<char>>,
    fuel: nat,
) -> Option<Result<bool, ErrorV>>
    decreases fuel, ts.len(),
{
    if ts.len() == 0 {
        Some(Ok(true))
    } else {
        match comparable_fuel(env, ts[0], records, fuel) {
            None => None,
            Some(Err(e)) => Some(Err(e)),
            Some(Ok(b)) => match all_comparable_fuel(env, ts.drop_first(), records, fuel) {
                None => None,
                Some(Err(e)) => Some(Err(e)),
                Some(Ok(c)) => Some(Ok(b && c)),
            },
        }
    }
}

/// The check of comparability of the type ends.
pub open spec fn comparability_decidable(env: Map<Seq<char>, TypeV>, t: TypeV) -> bool {
    exists|fuel: nat| #[trigger] comparable_fuel(env, t, Seq::empty(), fuel) is Some
}

/// Whether values of the type can be compared: no function or any type occurs
/// in it, through lists, record elements, unions and references.
pub open spec fn comparable(env: Map<Seq<char>, TypeV>, t: TypeV) -> Result<bool, ErrorV> {
    comparable_fuel(
        env,
        t,
        Seq::empty(),
        choose|fuel: nat| #[trigger] comparable_fuel(env, t, Seq::empty(), fuel) is Some,
    )->0
}

/// More fuel does not change a finished check.
pub proof fn lemma_comparable_fuel_monotonic(
    env: Map<Seq<char>, TypeV>,
    t: TypeV,
    records: Seq<Seq<char>>,
    fuel: nat,
    more: nat,
)
    requires
        comparable_fuel(env, t, records, fuel) is Some,
        fuel <= more,
    ensures
        comparable_fuel(env, t, records, more) == comparable_fuel(env, t, records, fuel),
    decreases fuel, 0nat,
{
    match t {
        TypeV::List { element } => {
            lemma_comparable_fuel_monotonic(
                env,
                *element,
                records,
                (fuel - 1) as nat,
                (more - 1) as nat,
            );
        },
        TypeV::Record { name, elements } => {
            if !records.contains(name) {
                lemma_all_comparable_fuel_monotonic(
                    env,
                    elements.map_values(|e: (Seq<char>, TypeV)| e.1),
                    records.push(name),
                    (fuel - 1) as nat,
                    (more - 1) as nat,
                );
            }
        },
        TypeV::Reference { name } => {
            if let Ok(r) = resolve(env, t) {
                lemma_comparable_fuel_monotonic(
                    env,
                    r,
                    records,
                    (fuel - 1) as nat,
                    (more - 1) as nat,
                );
            }
        },
        TypeV::Union { types } => {
            lemma_all_comparable_fuel_monotonic(
                env,
                types,
                records,
                (fuel - 1) as nat,
                (more - 1) as nat,
            );
        },
        _ => {},
    }
}

/// More fuel does not change a finished check of a sequence.
pub proof fn lemma_all_comparable_fuel_monotonic(
    env: Map<Seq<char>, TypeV>,
    ts: Seq<TypeV>,
    records: Seq<Seq<char>>,
    fuel: nat,
    more: nat,
)
    requires
        all_comparable_fuel(env, ts, records, fuel) is Some,
        fuel <= more,
    ensures
        all_comparable_fuel(env, ts, records, more) == all_comparable_fuel(env, ts, records, fuel),
    decreases fuel, ts.len(),
{
    if ts.len() > 0 {
        lemma_comparable_fuel_monotonic(env, ts[0], records, fuel, more);
        if comparable_fuel(env, ts[0], records, fuel) matches Some(Ok(_)) {
            lemma_all_comparable_fuel_monotonic(env, ts.drop_first(), records, fuel, more);
        }
    }
}

/// Checks whether values of types can be compared for equality.
pub struct TypeComparabilityChecker {
    pub reference_type_resolver: ReferenceTypeResolver,
}

impl TypeComparabilityChecker {
    pub fn new(reference_type_resolver: ReferenceTypeResolver) -> (r: Self)
        ensures
            r.reference_type_resolver == reference_type_resolver,
    {
        TypeComparabilityChecker { reference_type_resolver }
    }

    /// Whether values of the type can be compared for equality.
    pub fn check(&self, type_: &Type) -> (r: Result<bool, CompileError>)
        requires
            comparability_decidable(self.reference_type_resolver.environment(), type_@),
        ensures
            view_result(r) == comparable(self.reference_type_resolver.environment(), type_@),
    {
        let ghost env = self.reference_type_resolver.environment();
        let ghost fuel = choose|fuel: nat| #[trigger] comparable_fuel(env, type_@, Seq::empty(), fuel) is Some;
        let names: Vec<String> = Vec::new();
        assert(view_strings(names@) =~= Seq::<Seq<char>>::empty());
        self.check_with_cache(type_, &names, Ghost(fuel))
    }

    fn check_with_cache(
        &self,
        type_: &Type,
        record_names: &Vec<String>,
        Ghost(fuel): Ghost<nat>,
    ) -> (r: Result<bool, CompileError>)
        requires
            comparable_fuel(
                self.reference_type_resolver.environment(),
                type_@,
                view_strings(record_names@),
                fuel,
            ) is Some,
        ensures
            view_result(r) == comparable_fuel(
                self.reference_type_resolver.environment(),
                type_@,
                view_strings(record_names@),
                fuel,
            )->0,
        decreases fuel, 0nat,
    {
        broadcast use group_type_view;

        let ghost env = self.reference_type_resolver.environment();
        let ghost names = view_strings(record_names@);
        match type_ {
            Type::Any => Ok(false),
            Type::Boolean => Ok(true),
            Type::Function { .. } => Ok(false),
            Type::List { element } => self.check_with_cache(&**element, record_names, Ghost((fuel - 1) as nat)),
            Type::NoneType => Ok(true),
            Type::Number => Ok(true),
            Type::Record { name, elements } => {
                let found = contains_string(record_names, name.as_str());
                if found {
                    Ok(true)
                } else {
                    let mut extended = crate::ast::clone_strings(record_names);
                    extended.push(name.clone());
                    assert(view_strings(extended@) =~= names.push(name@));
                    let mut types: Vec<Type> = Vec::new();
                    let mut j: usize = 0;
                    while j < elements.len()
                        invariant
                            j <= elements@.len(),
                            types@.len() == j,
                            forall|k: int| 0 <= k < j ==> #[trigger] types@[k]@ == elements@[k].1@,
                        decreases elements.len() - j,
                    {
                        types.push(elements[j].1.deep_clone());
                        j += 1;
                    }
                    assert(view_named_types_rec(elements@) == view_named_types(elements@));
                    assert(view_types(types@) =~= view_named_types(elements@).map_values(
                        |e: (Seq<char>, TypeV)| e.1,
                    ));
                    assert(view_types(types@).skip(0) =~= view_types(types@));
                    self.check_all(&types, 0, &extended, Ghost((fuel - 1) as nat))
                }
            },
            Type::Reference { name } => {
                let resolved = self.reference_type_resolver.resolve(type_)?;
                self.check_with_cache(&resolved, record_names, Ghost((fuel - 1) as nat))
            },
            Type::String => Ok(true),
            Type::Union { types } => {
                assert(view_types_rec(types@) == view_types(types@));
                assert(view_types(types@).skip(0) =~= view_types(types@));
                self.check_all(types, 0, record_names, Ghost((fuel - 1) as nat))
            },
            Type::Unknown => {
                assert(false);
                Ok(false)
            },
            Type::Variable { .. } => {
                assert(false);
                Ok(false)
            },
        }
    }

    fn check_all(
        &self,
        types: &Vec<Type>,
        start: usize,
        record_names: &Vec<String>,
        Ghost(fuel): Ghost<nat>,
    ) -> (r: Result<bool, CompileError>)
        requires
            start <= types@.len(),
            all_comparable_fuel(
                self.reference_type_resolver.environment(),
                view_types(types@).skip(start as int),
                view_strings(record_names@),
                fuel,
            ) is Some,
        ensures
            view_result(r) == all_comparable_fuel(
                self.reference_type_resolver.environment(),
                view_types(types@).skip(start as int),
                view_strings(record_names@),
                fuel,
            )->0,
        decreases fuel, types@.len() - start + 1,
    {
        let ghost ts = view_types(types@).skip(start as int);
        if start == types.len() {
            return Ok(true);
        }
        assert(ts[0] == types@[start as int]@);
        assert(ts.drop_first() =~= view_types(types@).skip(start + 1));
        let b = self.check_with_cache(&types[start], record_names, Ghost(fuel))?;
        let c = self.check_all(types, start + 1, record_names, Ghost(fuel))?;
        Ok(b && c)
    }
}

} // verus!
