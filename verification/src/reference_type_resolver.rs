//! Resolution of type references through the types that a module can see.
use crate::error::{CompileError, ErrorV};
use crate::module::{view_imports, view_builtin_interfaces, view_type_definitions, ImportV, BuiltinInterfaceV, Module, ModuleV};
use crate::names::StringMap;
use crate::types::{view_named_types, Type, TypeV};
use vstd::prelude::*;

verus! {

/// A map with the given named values inserted in order, later ones replacing
/// earlier ones of the same name.
pub open spec fn insert_pairs<V>(m: Map<Seq<char>, V>, s: Seq<(Seq<char>, V)>) -> Map<
    Seq<char>,
    V,
>
    decreases s.len(),
{
    if s.len() == 0 {
        m
    } else {
        insert_pairs(m, s.drop_last()).insert(s.last().0, s.last().1)
    }
}

/// A key whose every pair carries the same value maps to that value after
/// the pairs are inserted.
pub proof fn lemma_insert_pairs_agreeing<V>(
    m: Map<Seq<char>, V>,
    pairs: Seq<(Seq<char>, V)>,
    k: Seq<char>,
    v: V,
    j: int,
)
    requires
        0 <= j < pairs.len(),
        pairs[j].0 == k,
        forall|l: int| 0 <= l < pairs.len() && (#[trigger] pairs[l]).0 == k ==> pairs[l].1 == v,
    ensures
        insert_pairs(m, pairs).contains_key(k),
        insert_pairs(m, pairs)[k] == v,
    decreases pairs.len(),
{
    if pairs.last().0 != k {
        assert(j < pairs.len() - 1);
        assert forall|l: int| 0 <= l < pairs.drop_last().len() && (
        #[trigger] pairs.drop_last()[l]).0 == k implies pairs.drop_last()[l].1 == v by {
            assert(pairs.drop_last()[l] == pairs[l]);
        }
        assert(pairs.drop_last()[j] == pairs[j]);
        lemma_insert_pairs_agreeing(m, pairs.drop_last(), k, v, j);
    } else {
        assert(pairs[pairs.len() - 1] == pairs.last());
    }
}

/// The types of all imported interfaces inserted in order.
pub open spec fn insert_import_types(m: Map<Seq<char>, TypeV>, imports: Seq<ImportV>) -> Map<
    Seq<char>,
    TypeV,
>
    decreases imports.len(),
{
    if imports.len() == 0 {
        m
    } else {
        insert_pairs(insert_import_types(m, imports.drop_last()), imports.last().interface.types)
    }
}

/// The types of all foreign interfaces inserted in order.
pub open spec fn insert_builtin_types(
    m: Map<Seq<char>, TypeV>,
    interfaces: Seq<BuiltinInterfaceV>,
) -> Map<Seq<char>, TypeV>
    decreases interfaces.len(),
{
    if interfaces.len() == 0 {
        m
    } else {
        insert_pairs(insert_builtin_types(m, interfaces.drop_last()), interfaces.last().types)
    }
}

/// The named types that a module sees: the types of its imports, then of its
/// foreign imports, then its own type definitions, later names replacing
/// earlier ones.
pub open spec fn module_type_environment(m: ModuleV) -> Map<Seq<char>, TypeV> {
    insert_pairs(
        insert_builtin_types(insert_import_types(Map::empty(), m.imports), m.ffi_imports),
        m.type_definitions,
    )
}

/// Follows references through the environment at most `fuel` times; `None`
/// when the fuel runs out first.
pub open spec fn resolve_with_fuel(env: Map<Seq<char>, TypeV>, t: TypeV, fuel: nat) -> Option<
    Result<TypeV, ErrorV>,
>
    decreases fuel,
{
    match t {
        TypeV::Reference { name } => if !env.contains_key(name) {
            Some(Err(ErrorV::TypeNotFound { name }))
        } else if fuel == 0 {
            None
        } else {
            resolve_with_fuel(env, env[name], (fuel - 1) as nat)
        },
        _ => Some(Ok(t)),
    }
}

/// Following references from the type ends.
pub open spec fn resolvable(env: Map<Seq<char>, TypeV>, t: TypeV) -> bool {
    exists|fuel: nat| #[trigger] resolve_with_fuel(env, t, fuel) is Some
}

/// The type that a type resolves to: itself unless it is a reference, the
/// resolution of the referenced type otherwise, or an error for an unknown name.
/// A reference whose chain comes back to a name that it has passed never
/// reaches a type; it is reported as circular.
pub open spec fn resolve(env: Map<Seq<char>, TypeV>, t: TypeV) -> Result<TypeV, ErrorV> {
    if resolvable(env, t) {
        resolve_with_fuel(env, t, choose|fuel: nat| #[trigger] resolve_with_fuel(env, t, fuel) is Some)->0
    } else {
        Err(ErrorV::CircularTypeReference { name: reference_name(t) })
    }
}

/// The name of a reference type, empty for other types.
pub open spec fn reference_name(t: TypeV) -> Seq<char> {
    match t {
        TypeV::Reference { name } => name,
        _ => Seq::empty(),
    }
}

/// A chain of references: each entry but the last refers by the given name to
/// a type of the environment, which is the next entry.
pub open spec fn reference_path(
    env: Map<Seq<char>, TypeV>,
    path: Seq<TypeV>,
    names: Seq<Seq<char>>,
) -> bool {
    &&& path.len() == names.len() + 1
    &&& forall|k: int|
        0 <= k < names.len() ==> #[trigger] path[k] == TypeV::Reference { name: names[k] }
            && env.contains_key(names[k]) && path[k + 1] == env[names[k]]
}

/// Resolving from an entry of a chain walks the chain to a later entry first.
pub proof fn lemma_reference_path_fuel(
    env: Map<Seq<char>, TypeV>,
    path: Seq<TypeV>,
    names: Seq<Seq<char>>,
    i: int,
    j: int,
    fuel: nat,
)
    requires
        reference_path(env, path, names),
        0 <= i <= j < path.len(),
    ensures
        resolve_with_fuel(env, path[i], fuel) == if fuel < j - i {
            None
        } else {
            resolve_with_fuel(env, path[j], (fuel - (j - i)) as nat)
        },
    decreases j - i,
{
    if i < j {
        assert(path[i] == TypeV::Reference { name: names[i] });
        if fuel > 0 {
            lemma_reference_path_fuel(env, path, names, i + 1, j, (fuel - 1) as nat);
        }
    }
}

/// A chain that comes back to one of its entries never ends.
pub proof fn lemma_reference_cycle(
    env: Map<Seq<char>, TypeV>,
    path: Seq<TypeV>,
    names: Seq<Seq<char>>,
    i: int,
    fuel: nat,
)
    requires
        reference_path(env, path, names),
        0 <= i < names.len(),
        path.last() == path[i],
    ensures
        resolve_with_fuel(env, path[i], fuel) is None,
    decreases fuel,
{
    let j = names.len() as int;
    lemma_reference_path_fuel(env, path, names, i, j, fuel);
    if fuel >= j - i {
        lemma_reference_cycle(env, path, names, i, (fuel - (j - i)) as nat);
    }
}

/// More fuel does not change a finished resolution.
pub proof fn lemma_resolve_fuel_monotonic(
    env: Map<Seq<char>, TypeV>,
    t: TypeV,
    fuel: nat,
    more: nat,
)
    requires
        resolve_with_fuel(env, t, fuel) is Some,
        fuel <= more,
    ensures
        resolve_with_fuel(env, t, more) == resolve_with_fuel(env, t, fuel),
    decreases fuel,
{
    if let TypeV::Reference { name } = t {
        if env.contains_key(name) && fuel > 0 {
            lemma_resolve_fuel_monotonic(env, env[name], (fuel - 1) as nat, (more - 1) as nat);
        }
    }
}

/// A list of distinct names drawn from another list is no longer than it.
pub proof fn lemma_distinct_keys_bound(a: Seq<Seq<char>>, b: Seq<Seq<char>>)
    requires
        a.no_duplicates(),
        forall|k: int| 0 <= k < a.len() ==> #[trigger] b.contains(a[k]),
    ensures
        a.len() <= b.len(),
{
    broadcast use vstd::seq_lib::seq_to_set_is_finite;

    a.unique_seq_to_set();
    b.lemma_cardinality_of_set();
    assert forall|x: Seq<char>| a.to_set().contains(x) implies b.to_set().contains(x) by {
        let k = choose|k: int| 0 <= k < a.len() && a[k] == x;
        assert(b.contains(a[k]));
    }
    vstd::set_lib::lemma_len_subset(a.to_set(), b.to_set());
}

/// Any sufficient fuel gives the resolution.
pub proof fn lemma_resolve_with_any_fuel(env: Map<Seq<char>, TypeV>, t: TypeV, fuel: nat)
    requires
        resolve_with_fuel(env, t, fuel) is Some,
    ensures
        resolve_with_fuel(env, t, fuel)->0 == resolve(env, t),
{
    let f = choose|f: nat| #[trigger] resolve_with_fuel(env, t, f) is Some;
    assert(resolve_with_fuel(env, t, f) is Some);
    if f <= fuel {
        lemma_resolve_fuel_monotonic(env, t, f, fuel);
    } else {
        lemma_resolve_fuel_monotonic(env, t, fuel, f);
    }
}

/// A resolution is never a reference.
pub proof fn lemma_resolved_not_reference(env: Map<Seq<char>, TypeV>, t: TypeV, fuel: nat)
    requires
        resolve_with_fuel(env, t, fuel) matches Some(Ok(_)),
    ensures
        !(resolve_with_fuel(env, t, fuel)->0->Ok_0 is Reference),
    decreases fuel,
{
    if let TypeV::Reference { name } = t {
        if env.contains_key(name) && fuel > 0 {
            lemma_resolved_not_reference(env, env[name], (fuel - 1) as nat);
        }
    }
}

/// Inserts named types into a map in order.
pub fn insert_named_types(map: &mut StringMap<Type>, s: &Vec<(String, Type)>)
    ensures
        final(map)@ == insert_pairs(old(map)@, view_named_types(s@)),
{
    let mut i: usize = 0;
    while i < s.len()
        invariant
            i <= s.len(),
            map@ == insert_pairs(old(map)@, view_named_types(s@).take(i as int)),
        decreases s.len() - i,
    {
        map.insert(s[i].0.clone(), s[i].1.deep_clone());
        assert(view_named_types(s@).take(i + 1).drop_last() =~= view_named_types(s@).take(
            i as int,
        ));
        i += 1;
    }
    assert(view_named_types(s@).take(s.len() as int) =~= view_named_types(s@));
}

/// The environment of named types that a module sees.
pub fn create_type_environment(module: &Module) -> (r: StringMap<Type>)
    ensures
        r@ == module_type_environment(module@),
{
    let mut map: StringMap<Type> = StringMap::new();
    let ghost m = module@;
    let mut i: usize = 0;
    while i < module.imports.len()
        invariant
            i <= module.imports@.len(),
            m == module@,
            map@ == insert_import_types(Map::empty(), m.imports.take(i as int)),
        decreases module.imports.len() - i,
    {
        insert_named_types(&mut map, &module.imports[i].module_interface.types);
        assert(m.imports.take(i + 1).drop_last() =~= m.imports.take(i as int));
        i += 1;
    }
    assert(m.imports.take(i as int) =~= m.imports);
    let ghost base = map@;
    let mut i: usize = 0;
    while i < module.ffi_imports.len()
        invariant
            i <= module.ffi_imports@.len(),
            m == module@,
            base == insert_import_types(Map::empty(), m.imports),
            map@ == insert_builtin_types(base, m.ffi_imports.take(i as int)),
        decreases module.ffi_imports.len() - i,
    {
        insert_named_types(&mut map, &module.ffi_imports[i].types);
        assert(m.ffi_imports.take(i + 1).drop_last() =~= m.ffi_imports.take(i as int));
        i += 1;
    }
    assert(m.ffi_imports.take(i as int) =~= m.ffi_imports);
    let ghost base = map@;
    let mut i: usize = 0;
    while i < module.type_definitions.len()
        invariant
            i <= module.type_definitions@.len(),
            m == module@,
            map@ == insert_pairs(base, m.type_definitions.take(i as int)),
        decreases module.type_definitions.len() - i,
    {
        map.insert(
            module.type_definitions[i].name.clone(),
            module.type_definitions[i].type_.deep_clone(),
        );
        assert(m.type_definitions.take(i + 1).drop_last() =~= m.type_definitions.take(i as int));
        i += 1;
    }
    assert(m.type_definitions.take(i as int) =~= m.type_definitions);
    map
}

/// Resolves type references with the types that a module sees.
pub struct ReferenceTypeResolver {
    environment: StringMap<Type>,
}

impl ReferenceTypeResolver {
    /// The named types known to the resolver.
    pub closed spec fn environment(&self) -> Map<Seq<char>, TypeV> {
        self.environment@
    }

    /// A resolver for the types seen by the module: those of its imports, of
    /// its foreign imports and of its type definitions.
    pub fn new(module: &Module) -> (r: Self)
        ensures
            r.environment() == module_type_environment(module@),
    {
        ReferenceTypeResolver { environment: create_type_environment(module) }
    }

    /// The environment, given up by the resolver.
    pub fn into_environment(self) -> (r: StringMap<Type>)
        ensures
            r@ == self.environment(),
    {
        self.environment
    }

    /// Resolves the type of the given name.
    pub fn resolve_reference(&self, name: &str) -> (r: Result<Type, CompileError>)
        ensures
            crate::error::view_result(r) == resolve(
                self.environment(),
                TypeV::Reference { name: name@ },
            ),
    {
        let t = Type::Reference { name: String::from_str(name) };
        self.resolve(&t)
    }

    /// Follows references until a type that is not a reference. A chain that
    /// comes back to a name that it has passed is reported as circular, under
    /// the name of the given reference.
    pub fn resolve(&self, type_: &Type) -> (r: Result<Type, CompileError>)
        ensures
            crate::error::view_result(r) == resolve(self.environment(), type_@),
    {
        let ghost env = self.environment();
        let ghost mut path: Seq<TypeV> = seq![type_@];
        let mut names: Vec<String> = Vec::new();
        let mut current = type_;
        loop
            invariant
                env == self.environment(),
                reference_path(env, path, crate::ast::view_strings(names@)),
                path[0] == type_@,
                path.last() == current@,
                crate::ast::view_strings(names@).no_duplicates(),
            decreases self.environment.key_order().len() - names.len(),
        {
            let ghost seen = crate::ast::view_strings(names@);
            match current {
                Type::Reference { name } => {
                    if crate::names::contains_string(&names, name.as_str()) {
                        proof {
                            let i = choose|i: int| 0 <= i < seen.len() && seen[i] == name@;
                            assert(path[0] == TypeV::Reference { name: seen[0] });
                            assert(path[i] == path.last());
                            assert forall|fuel: nat|
                                !(#[trigger] resolve_with_fuel(env, type_@, fuel) is Some) by {
                                lemma_reference_path_fuel(env, path, seen, 0, i, fuel);
                                if fuel >= i {
                                    lemma_reference_cycle(env, path, seen, i, (fuel - i) as nat);
                                }
                            }
                        }
                        return Err(CompileError::CircularTypeReference { name: names[0].clone() });
                    }
                    match self.environment.get(name.as_str()) {
                        Some(next) => {
                            proof {
                                self.environment.lemma_key_listed(name@);
                                let grown = seen.push(name@);
                                assert forall|k: int| 0 <= k < grown.len() implies
                                    #[trigger] self.environment.key_order().contains(grown[k]) by {
                                    if k < seen.len() {
                                        assert(path[k] == TypeV::Reference { name: seen[k] });
                                        self.environment.lemma_key_listed(seen[k]);
                                    }
                                }
                                lemma_distinct_keys_bound(grown, self.environment.key_order());
                                path = path.push(next@);
                            }
                            names.push(name.clone());
                            proof {
                                assert(crate::ast::view_strings(names@) =~= seen.push(name@));
                            }
                            current = next;
                        },
                        None => {
                            proof {
                                lemma_reference_path_fuel(
                                    env,
                                    path,
                                    seen,
                                    0,
                                    seen.len() as int,
                                    (seen.len() + 1) as nat,
                                );
                                lemma_resolve_with_any_fuel(env, type_@, (seen.len() + 1) as nat);
                            }
                            return Err(CompileError::TypeNotFound { name: name.clone() });
                        },
                    }
                },
                _ => {
                    proof {
                        lemma_reference_path_fuel(
                            env,
                            path,
                            seen,
                            0,
                            seen.len() as int,
                            seen.len() as nat,
                        );
                        lemma_resolve_with_any_fuel(env, type_@, seen.len() as nat);
                    }
                    return Ok(current.deep_clone());
                },
            }
        }
    }

    /// The resolved type if it is the any type.
    pub fn resolve_to_any(&self, type_: &Type) -> (r: Result<Option<Type>, CompileError>)
        ensures
            resolve(self.environment(), type_@) is Err ==> r is Err && r->Err_0@ == resolve(
                self.environment(),
                type_@,
            )->Err_0,
            resolve(self.environment(), type_@) matches Ok(t) ==> r matches Ok(o) && (if t is Any {
                o matches Some(u) && u@ == t
            } else {
                o is None
            }),
    {
        let t = self.resolve(type_)?;
        Ok(if t.is_any() { Some(t) } else { None })
    }

    /// The resolved type if it is a function type.
    pub fn resolve_to_function(&self, type_: &Type) -> (r: Result<Option<Type>, CompileError>)
        ensures
            resolve(self.environment(), type_@) is Err ==> r is Err && r->Err_0@ == resolve(
                self.environment(),
                type_@,
            )->Err_0,
            resolve(self.environment(), type_@) matches Ok(t) ==> r matches Ok(o) && (
            if t is Function {
                o matches Some(u) && u@ == t
            } else {
                o is None
            }),
    {
        let t = self.resolve(type_)?;
        Ok(if t.is_function() { Some(t) } else { None })
    }

    /// The resolved type if it is a list type.
    pub fn resolve_to_list(&self, type_: &Type) -> (r: Result<Option<Type>, CompileError>)
        ensures
            resolve(self.environment(), type_@) is Err ==> r is Err && r->Err_0@ == resolve(
                self.environment(),
                type_@,
            )->Err_0,
            resolve(self.environment(), type_@) matches Ok(t) ==> r matches Ok(o) && (if t is List {
                o matches Some(u) && u@ == t
            } else {
                o is None
            }),
    {
        let t = self.resolve(type_)?;
        Ok(if matches!(t, Type::List { .. }) { Some(t) } else { None })
    }

    /// The resolved type if it is a record type.
    pub fn resolve_to_record(&self, type_: &Type) -> (r: Result<Option<Type>, CompileError>)
        ensures
            resolve(self.environment(), type_@) is Err ==> r is Err && r->Err_0@ == resolve(
                self.environment(),
                type_@,
            )->Err_0,
            resolve(self.environment(), type_@) matches Ok(t) ==> r matches Ok(o) && (
            if t is Record {
                o matches Some(u) && u@ == t
            } else {
                o is None
            }),
    {
        let t = self.resolve(type_)?;
        Ok(if matches!(t, Type::Record { .. }) { Some(t) } else { None })
    }

    /// Whether the type resolves to the any type.
    pub fn is_any(&self, type_: &Type) -> (r: Result<bool, CompileError>)
        ensures
            match resolve(self.environment(), type_@) {
                Ok(t) => r == Ok::<bool, CompileError>(t is Any),
                Err(e) => r is Err && r->Err_0@ == e,
            },
    {
        let t = self.resolve(type_)?;
        Ok(t.is_any())
    }

    /// Whether the type resolves to a function type.
    pub fn is_function(&self, type_: &Type) -> (r: Result<bool, CompileError>)
        ensures
            match resolve(self.environment(), type_@) {
                Ok(t) => r == Ok::<bool, CompileError>(t is Function),
                Err(e) => r is Err && r->Err_0@ == e,
            },
    {
        let t = self.resolve(type_)?;
        Ok(t.is_function())
    }

    /// Whether the type resolves to a list type.
    pub fn is_list(&self, type_: &Type) -> (r: Result<bool, CompileError>)
        ensures
            match resolve(self.environment(), type_@) {
                Ok(t) => r == Ok::<bool, CompileError>(t is List),
                Err(e) => r is Err && r->Err_0@ == e,
            },
    {
        let t = self.resolve(type_)?;
        Ok(matches!(t, Type::List { .. }))
    }

    /// Whether the type resolves to a union type.
    pub fn is_union(&self, type_: &Type) -> (r: Result<bool, CompileError>)
        ensures
            match resolve(self.environment(), type_@) {
                Ok(t) => r == Ok::<bool, CompileError>(t is Union),
                Err(e) => r is Err && r->Err_0@ == e,
            },
    {
        let t = self.resolve(type_)?;
        Ok(t.is_union())
    }
}

} // verus!
