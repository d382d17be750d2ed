//! Maps keyed by names, and generation of fresh names.
use vstd::prelude::*;

verus! {

/// Values that can be copied into values with the same model.
pub trait DeepClone: View + Sized {
    fn deep_clone(&self) -> (r: Self)
        ensures
            r@ == self@,
    ;
}

impl DeepClone for String {
    fn deep_clone(&self) -> (r: String) {
        self.clone()
    }
}

/// A map from names to values, kept as a list of entries with distinct keys in
/// the order in which the keys were first inserted.
pub struct StringMap<T: View> {
    entries: Vec<(String, T)>,
}

/// The model of a list of entries: each key maps to the value of its entry.
pub open spec fn entries_map<T: View>(s: Seq<(String, T)>) -> Map<Seq<char>, T::V> {
    Map::new(
        |k: Seq<char>| exists|i: int| 0 <= i < s.len() && #[trigger] s[i].0@ == k,
        |k: Seq<char>| s[choose|i: int| 0 <= i < s.len() && #[trigger] s[i].0@ == k].1@,
    )
}

/// No two entries share a key.
pub open spec fn distinct_keys<T>(s: Seq<(String, T)>) -> bool {
    forall|i: int, j: int|
        0 <= i < s.len() && 0 <= j < s.len() && i != j ==> #[trigger] s[i].0@ != #[trigger] s[j].0@
}

/// With distinct keys, the entry at index `i` decides the value of its key.
pub proof fn lemma_entries_map_at<T: View>(s: Seq<(String, T)>, i: int)
    requires
        distinct_keys(s),
        0 <= i < s.len(),
    ensures
        entries_map(s).contains_key(s[i].0@),
        entries_map(s)[s[i].0@] == s[i].1@,
{
    let k = s[i].0@;
    assert(exists|j: int| 0 <= j < s.len() && #[trigger] s[j].0@ == k);
    let j = choose|j: int| 0 <= j < s.len() && #[trigger] s[j].0@ == k;
    assert(i == j);
}

/// Appending an entry with a new key inserts it into the model.
proof fn lemma_entries_map_push<T: View>(s: Seq<(String, T)>, key: String, value: T)
    requires
        distinct_keys(s),
        !entries_map(s).contains_key(key@),
    ensures
        distinct_keys(s.push((key, value))),
        entries_map(s.push((key, value))) == entries_map(s).insert(key@, value@),
{
    let t = s.push((key, value));
    assert forall|i: int, j: int|
        0 <= i < t.len() && 0 <= j < t.len() && i != j implies #[trigger] t[i].0@
        != #[trigger] t[j].0@ by {
        if i < s.len() && j < s.len() {
            assert(t[i] == s[i] && t[j] == s[j]);
        } else if i < s.len() {
            assert(t[i] == s[i]);
            if s[i].0@ == key@ {
                lemma_entries_map_at(s, i);
            }
        } else if j < s.len() {
            assert(t[j] == s[j]);
            if s[j].0@ == key@ {
                lemma_entries_map_at(s, j);
            }
        }
    }
    assert forall|k: Seq<char>|
        #[trigger] entries_map(t).contains_key(k) == entries_map(s).insert(
            key@,
            value@,
        ).contains_key(k) by {
        if entries_map(s).contains_key(k) {
            let i = choose|i: int| 0 <= i < s.len() && #[trigger] s[i].0@ == k;
            assert(t[i] == s[i]);
        }
        if entries_map(t).contains_key(k) {
            let i = choose|i: int| 0 <= i < t.len() && #[trigger] t[i].0@ == k;
            if i < s.len() {
                assert(t[i] == s[i]);
            }
        }
        if k == key@ {
            assert(t[s.len() as int].0@ == k);
        }
    }
    assert forall|k: Seq<char>| #[trigger] entries_map(t).contains_key(k) implies entries_map(t)[k]
        == entries_map(s).insert(key@, value@)[k] by {
        let i = choose|i: int| 0 <= i < t.len() && #[trigger] t[i].0@ == k;
        lemma_entries_map_at(t, i);
        if i < s.len() {
            assert(t[i] == s[i]);
            lemma_entries_map_at(s, i);
        }
    }
    assert(entries_map(t) =~= entries_map(s).insert(key@, value@));
}

/// Replacing the value of an existing entry updates the model.
proof fn lemma_entries_map_update<T: View>(s: Seq<(String, T)>, i: int, key: String, value: T)
    requires
        distinct_keys(s),
        0 <= i < s.len(),
        s[i].0@ == key@,
    ensures
        distinct_keys(s.update(i, (key, value))),
        entries_map(s.update(i, (key, value))) == entries_map(s).insert(key@, value@),
{
    let t = s.update(i, (key, value));
    assert forall|a: int, b: int|
        0 <= a < t.len() && 0 <= b < t.len() && a != b implies #[trigger] t[a].0@
        != #[trigger] t[b].0@ by {
        assert(t[a].0@ == s[a].0@ && t[b].0@ == s[b].0@);
    }
    assert forall|k: Seq<char>|
        #[trigger] entries_map(t).contains_key(k) == entries_map(s).insert(
            key@,
            value@,
        ).contains_key(k) by {
        if entries_map(s).contains_key(k) {
            let j = choose|j: int| 0 <= j < s.len() && #[trigger] s[j].0@ == k;
            assert(t[j].0@ == s[j].0@);
        }
        if entries_map(t).contains_key(k) {
            let j = choose|j: int| 0 <= j < t.len() && #[trigger] t[j].0@ == k;
            assert(t[j].0@ == s[j].0@);
        }
        if k == key@ {
            assert(t[i].0@ == k);
        }
    }
    assert forall|k: Seq<char>| #[trigger] entries_map(t).contains_key(k) implies entries_map(t)[k]
        == entries_map(s).insert(key@, value@)[k] by {
        let j = choose|j: int| 0 <= j < t.len() && #[trigger] t[j].0@ == k;
        lemma_entries_map_at(t, j);
        if j != i {
            assert(t[j] == s[j]);
            lemma_entries_map_at(s, j);
        }
    }
    assert(entries_map(t) =~= entries_map(s).insert(key@, value@));
}

/// Removing the entry at index `i` removes its key from the model.
proof fn lemma_entries_map_remove<T: View>(s: Seq<(String, T)>, i: int)
    requires
        distinct_keys(s),
        0 <= i < s.len(),
    ensures
        distinct_keys(s.remove(i)),
        entries_map(s.remove(i)) == entries_map(s).remove(s[i].0@),
{
    let t = s.remove(i);
    let key = s[i].0@;
    assert forall|j: int| 0 <= j < t.len() implies #[trigger] t[j] == (if j < i {
        s[j]
    } else {
        s[j + 1]
    }) by {}
    assert forall|a: int, b: int|
        0 <= a < t.len() && 0 <= b < t.len() && a != b implies #[trigger] t[a].0@
        != #[trigger] t[b].0@ by {
        let a2 = if a < i { a } else { a + 1 };
        let b2 = if b < i { b } else { b + 1 };
        assert(t[a] == s[a2] && t[b] == s[b2]);
    }
    assert forall|k: Seq<char>|
        #[trigger] entries_map(t).contains_key(k) == entries_map(s).remove(key).contains_key(
            k,
        ) by {
        if entries_map(t).contains_key(k) {
            let j = choose|j: int| 0 <= j < t.len() && #[trigger] t[j].0@ == k;
            let j2 = if j < i { j } else { j + 1 };
            assert(t[j] == s[j2]);
            assert(s[j2].0@ == k);
            assert(j2 != i);
        }
        if entries_map(s).remove(key).contains_key(k) {
            let j = choose|j: int| 0 <= j < s.len() && #[trigger] s[j].0@ == k;
            assert(j != i);
            let j2 = if j < i { j } else { j - 1 };
            assert(t[j2] == s[j]);
        }
    }
    assert forall|k: Seq<char>| #[trigger] entries_map(t).contains_key(k) implies entries_map(t)[k]
        == entries_map(s).remove(key)[k] by {
        let j = choose|j: int| 0 <= j < t.len() && #[trigger] t[j].0@ == k;
        let j2 = if j < i { j } else { j + 1 };
        assert(t[j] == s[j2]);
        lemma_entries_map_at(t, j);
        lemma_entries_map_at(s, j2);
    }
    assert(entries_map(t) =~= entries_map(s).remove(key));
}

impl<T: View> View for StringMap<T> {
    type V = Map<Seq<char>, T::V>;

    closed spec fn view(&self) -> Map<Seq<char>, T::V> {
        entries_map(self.entries@)
    }
}

impl<T: View> StringMap<T> {
    #[verifier::type_invariant]
    spec fn well_formed(self) -> bool {
        distinct_keys(self.entries@)
    }

    /// The keys in the order in which they were first inserted.
    pub closed spec fn key_order(self) -> Seq<Seq<char>> {
        Seq::new(self.entries@.len(), |i: int| self.entries@[i].0@)
    }

    /// The entries as (key, value) pairs in the order in which the keys were
    /// first inserted.
    pub closed spec fn pairs(self) -> Seq<(Seq<char>, T::V)> {
        Seq::new(self.entries@.len(), |i: int| (self.entries@[i].0@, self.entries@[i].1@))
    }

    /// An empty map.
    pub fn new() -> (r: Self)
        ensures
            r@ == Map::<Seq<char>, T::V>::empty(),
            r.key_order() == Seq::<Seq<char>>::empty(),
    {
        let r = StringMap { entries: Vec::new() };
        assert(r@ =~= Map::<Seq<char>, T::V>::empty());
        assert(r.key_order() =~= Seq::<Seq<char>>::empty());
        r
    }

    /// The index of the entry with the given key.
    fn find(&self, key: &str) -> (r: Option<usize>)
        ensures
            r matches Some(i) ==> i < self.entries@.len() && self.entries@[i as int].0@ == key@,
            r is None ==> !self@.contains_key(key@),
    {
        let mut i: usize = 0;
        while i < self.entries.len()
            invariant
                i <= self.entries@.len(),
                forall|j: int| 0 <= j < i ==> #[trigger] self.entries@[j].0@ != key@,
            decreases self.entries.len() - i,
        {
            if str_equal(self.entries[i].0.as_str(), key) {
                return Some(i);
            }
            i += 1;
        }
        None
    }

    /// Whether the key has a value.
    pub fn contains_key(&self, key: &str) -> (r: bool)
        ensures
            r == self@.contains_key(key@),
    {
        proof {
            use_type_invariant(self);
        }
        match self.find(key) {
            Some(i) => {
                proof {
                    lemma_entries_map_at(self.entries@, i as int);
                }
                true
            },
            None => false,
        }
    }

    /// The value of the key, if any.
    pub fn get(&self, key: &str) -> (r: Option<&T>)
        ensures
            r matches Some(v) ==> self@.contains_key(key@) && v@ == self@[key@],
            r is None ==> !self@.contains_key(key@),
    {
        proof {
            use_type_invariant(self);
        }
        match self.find(key) {
            Some(i) => {
                proof {
                    lemma_entries_map_at(self.entries@, i as int);
                }
                Some(&self.entries[i].1)
            },
            None => None,
        }
    }

    /// Sets the value of the key, replacing any earlier one.
    pub fn insert(&mut self, key: String, value: T)
        ensures
            final(self)@ == old(self)@.insert(key@, value@),
            old(self)@.contains_key(key@) ==> final(self).key_order() == old(self).key_order(),
            !old(self)@.contains_key(key@) ==> final(self).key_order() == old(
                self,
            ).key_order().push(key@),
    {
        proof {
            use_type_invariant(&*self);
        }
        match self.find(key.as_str()) {
            Some(i) => {
                proof {
                    lemma_entries_map_update(self.entries@, i as int, key, value);
                    lemma_entries_map_at(self.entries@, i as int);
                }
                let ghost old_order = self.key_order();
                let mut entries = Vec::new();
                std::mem::swap(&mut entries, &mut self.entries);
                entries.set(i, (key, value));
                self.entries = entries;
                proof {
                    assert(self.key_order() =~= old_order);
                }
            },
            None => {
                proof {
                    lemma_entries_map_push(self.entries@, key, value);
                }
                let ghost old_order = self.key_order();
                let ghost k = key@;
                let mut entries = Vec::new();
                std::mem::swap(&mut entries, &mut self.entries);
                entries.push((key, value));
                self.entries = entries;
                proof {
                    assert(self.key_order() =~= old_order.push(k));
                }
            },
        }
    }

    /// Removes the key and its value, if any.
    pub fn remove(&mut self, key: &str)
        ensures
            final(self)@ == old(self)@.remove(key@),
    {
        proof {
            use_type_invariant(&*self);
        }
        match self.find(key) {
            Some(i) => {
                proof {
                    lemma_entries_map_remove(self.entries@, i as int);
                }
                let mut entries = Vec::new();
                std::mem::swap(&mut entries, &mut self.entries);
                entries.remove(i);
                self.entries = entries;
            },
            None => {
                assert(self@ =~= old(self)@.remove(key@));
            },
        }
    }

    /// The number of keys.
    pub fn len(&self) -> (r: usize)
        ensures
            r == self.key_order().len(),
            r == self.pairs().len(),
    {
        self.entries.len()
    }

    /// The key at the given position of the insertion order.
    pub fn key_at(&self, i: usize) -> (r: &String)
        requires
            i < self.key_order().len(),
        ensures
            r@ == self.key_order()[i as int],
            r@ == self.pairs()[i as int].0,
            self@.contains_key(r@),
    {
        proof {
            use_type_invariant(self);
            lemma_entries_map_at(self.entries@, i as int);
        }
        &self.entries[i].0
    }

    /// The value at the given position of the insertion order.
    pub fn value_at(&self, i: usize) -> (r: &T)
        requires
            i < self.key_order().len(),
        ensures
            r@ == self@[self.key_order()[i as int]],
            r@ == self.pairs()[i as int].1,
    {
        proof {
            use_type_invariant(self);
            lemma_entries_map_at(self.entries@, i as int);
        }
        &self.entries[i].1
    }

    /// Every key of the map stands in the insertion order.
    pub proof fn lemma_key_listed(&self, k: Seq<char>)
        requires
            self@.contains_key(k),
        ensures
            self.key_order().contains(k),
    {
        let i = choose|i: int| 0 <= i < self.entries@.len() && #[trigger] self.entries@[i].0@ == k;
        assert(self.key_order()[i] == k);
    }
}

/// Whether two strings consist of the same characters.
pub fn str_equal(a: &str, b: &str) -> (r: bool)
    ensures
        r == (a@ == b@),
{
    let n = a.unicode_len();
    if n != b.unicode_len() {
        return false;
    }
    let mut i: usize = 0;
    while i < n
        invariant
            i <= n,
            n == a@.len(),
            n == b@.len(),
            forall|j: int| 0 <= j < i ==> a@[j] == b@[j],
        decreases n - i,
    {
        if a.get_char(i) != b.get_char(i) {
            return false;
        }
        i += 1;
    }
    assert(a@ =~= b@);
    true
}

/// Whether one of the strings consists of the same characters as `s`.
pub fn contains_string(v: &Vec<String>, s: &str) -> (r: bool)
    ensures
        r == crate::ast::view_strings(v@).contains(s@),
{
    let mut i: usize = 0;
    while i < v.len()
        invariant
            i <= v@.len(),
            forall|j: int| 0 <= j < i ==> #[trigger] v@[j]@ != s@,
        decreases v.len() - i,
    {
        if str_equal(v[i].as_str(), s) {
            assert(crate::ast::view_strings(v@)[i as int] == s@);
            return true;
        }
        i += 1;
    }
    assert forall|j: int| 0 <= j < v@.len() implies crate::ast::view_strings(v@)[j] != s@ by {
        assert(v@[j]@ != s@);
    }
    false
}

impl<T: DeepClone> StringMap<T> {
    /// A copy of the map with the same model and key order.
    pub fn deep_clone(&self) -> (r: Self)
        ensures
            r@ == self@,
            r.key_order() == self.key_order(),
    {
        proof {
            use_type_invariant(self);
        }
        let mut entries: Vec<(String, T)> = Vec::new();
        let mut i: usize = 0;
        while i < self.entries.len()
            invariant
                i <= self.entries@.len(),
                entries@.len() == i,
                forall|j: int|
                    0 <= j < i ==> (#[trigger] entries@[j]).0@ == self.entries@[j].0@
                        && entries@[j].1@ == self.entries@[j].1@,
            decreases self.entries.len() - i,
        {
            let value = self.entries[i].1.deep_clone();
            entries.push((self.entries[i].0.clone(), value));
            i += 1;
        }
        assert(distinct_keys(entries@)) by {
            assert forall|a: int, b: int|
                0 <= a < entries@.len() && 0 <= b < entries@.len() && a != b implies #[trigger] entries@[a].0@
                != #[trigger] entries@[b].0@ by {
                assert(self.entries@[a].0@ != self.entries@[b].0@);
            }
        }
        let r = StringMap { entries };
        assert forall|k: Seq<char>| #[trigger] r@.contains_key(k) == self@.contains_key(k) by {
            if r@.contains_key(k) {
                let j = choose|j: int| 0 <= j < r.entries@.len() && #[trigger] r.entries@[j].0@ == k;
                assert(self.entries@[j].0@ == k);
            }
            if self@.contains_key(k) {
                let j = choose|j: int| 0 <= j < self.entries@.len() && #[trigger] self.entries@[j].0@ == k;
                assert(r.entries@[j].0@ == k);
            }
        }
        assert forall|k: Seq<char>| #[trigger] r@.contains_key(k) implies r@[k] == self@[k] by {
            let j = choose|j: int| 0 <= j < r.entries@.len() && #[trigger] r.entries@[j].0@ == k;
            lemma_entries_map_at(r.entries@, j);
            lemma_entries_map_at(self.entries@, j);
        }
        assert(r@ =~= self@);
        assert(r.key_order() =~= self.key_order());
        r
    }
}

/// The decimal digits of a natural number, most significant first.
pub open spec fn decimal(n: nat) -> Seq<char>
    decreases n,
{
    if n < 10 {
        seq![digit_char(n)]
    } else {
        decimal(n / 10).push(digit_char(n % 10))
    }
}

/// The character of a decimal digit.
pub open spec fn digit_char(d: nat) -> char {
    if d == 0 {
        '0'
    } else if d == 1 {
        '1'
    } else if d == 2 {
        '2'
    } else if d == 3 {
        '3'
    } else if d == 4 {
        '4'
    } else if d == 5 {
        '5'
    } else if d == 6 {
        '6'
    } else if d == 7 {
        '7'
    } else if d == 8 {
        '8'
    } else {
        '9'
    }
}

/// The string of a single decimal digit.
fn digit_string(d: usize) -> (r: String)
    requires
        d < 10,
    ensures
        r@ == seq![digit_char(d as nat)],
{
    let s = if d == 0 {
        "0"
    } else if d == 1 {
        "1"
    } else if d == 2 {
        "2"
    } else if d == 3 {
        "3"
    } else if d == 4 {
        "4"
    } else if d == 5 {
        "5"
    } else if d == 6 {
        "6"
    } else if d == 7 {
        "7"
    } else if d == 8 {
        "8"
    } else {
        "9"
    };
    proof {
        reveal_strlit("0");
        reveal_strlit("1");
        reveal_strlit("2");
        reveal_strlit("3");
        reveal_strlit("4");
        reveal_strlit("5");
        reveal_strlit("6");
        reveal_strlit("7");
        reveal_strlit("8");
        reveal_strlit("9");
    }
    let r = String::from_str(s);
    assert(r@ =~= seq![digit_char(d as nat)]);
    r
}

/// The decimal representation of a number.
pub fn decimal_string(n: usize) -> (r: String)
    ensures
        r@ == decimal(n as nat),
    decreases n,
{
    if n < 10 {
        digit_string(n)
    } else {
        let mut s = decimal_string(n / 10);
        let d = digit_string(n % 10);
        s.append(d.as_str());
        assert(s@ =~= decimal(n as nat));
        s
    }
}

/// The value of a decimal digit character.
pub open spec fn digit_value(c: char) -> nat {
    if c == '1' {
        1
    } else if c == '2' {
        2
    } else if c == '3' {
        3
    } else if c == '4' {
        4
    } else if c == '5' {
        5
    } else if c == '6' {
        6
    } else if c == '7' {
        7
    } else if c == '8' {
        8
    } else if c == '9' {
        9
    } else {
        0
    }
}

/// The number that a sequence of decimal digits denotes.
pub open spec fn decimal_value(s: Seq<char>) -> nat
    decreases s.len(),
{
    if s.len() == 0 {
        0
    } else {
        decimal_value(s.drop_last()) * 10 + digit_value(s.last())
    }
}

/// Reading the decimal representation of a number gives the number back.
pub proof fn lemma_decimal_value(n: nat)
    ensures
        decimal_value(decimal(n)) == n,
    decreases n,
{
    let s = decimal(n);
    if n < 10 {
        assert(s.drop_last() =~= Seq::<char>::empty());
    } else {
        lemma_decimal_value(n / 10);
        assert(s.drop_last() =~= decimal(n / 10));
        assert(s.last() == digit_char(n % 10));
        assert((n / 10) * 10 + n % 10 == n) by (nonlinear_arith);
    }
}

/// Names generated at different indices differ, whatever the prefix.
pub proof fn lemma_generated_names_distinct(prefix: Seq<char>, i: usize, j: usize)
    requires
        i != j,
    ensures
        generated_name(prefix, i) != generated_name(prefix, j),
{
    let a = generated_name(prefix, i);
    let b = generated_name(prefix, j);
    if a == b {
        assert(a.subrange(prefix.len() as int, a.len() as int) =~= decimal(i as nat));
        assert(b.subrange(prefix.len() as int, b.len() as int) =~= decimal(j as nat));
        lemma_decimal_value(i as nat);
        lemma_decimal_value(j as nat);
    }
}

/// A generator whose counter has not reached its end produces a name that
/// differs from the one before it.
pub proof fn lemma_next_name_differs(g: NameGeneratorV)
    requires
        g.index < usize::MAX,
    ensures
        g.next().name() != g.name(),
{
    assert(g.next().index == g.index + 1);
    lemma_generated_names_distinct(g.prefix, g.index, g.next().index);
}

/// A generator of names made of a prefix and a counter.
///
/// The counter wraps around after `usize::MAX`, as an atomic counter does.
pub struct NameGenerator {
    pub index: usize,
    pub prefix: String,
}

/// The name that a generator with the given prefix produces at the given index.
pub open spec fn generated_name(prefix: Seq<char>, index: usize) -> Seq<char> {
    prefix + decimal(index as nat)
}

/// The model of a [`NameGenerator`]: its prefix and the index of its next name.
pub struct NameGeneratorV {
    pub prefix: Seq<char>,
    pub index: usize,
}

impl NameGeneratorV {
    /// The name that the generator produces next.
    pub open spec fn name(self) -> Seq<char> {
        generated_name(self.prefix, self.index)
    }

    /// The generator after producing a name.
    pub open spec fn next(self) -> NameGeneratorV {
        NameGeneratorV { prefix: self.prefix, index: self.index.wrapping_add(1) }
    }
}

impl View for NameGenerator {
    type V = NameGeneratorV;

    open spec fn view(&self) -> NameGeneratorV {
        NameGeneratorV { prefix: self.prefix@, index: self.index }
    }
}

impl NameGenerator {
    /// A generator whose first name has the index 0.
    pub fn new(prefix: &str) -> (r: Self)
        ensures
            r.index == 0,
            r.prefix@ == prefix@,
            r@ == (NameGeneratorV { prefix: prefix@, index: 0 }),
    {
        NameGenerator { index: 0, prefix: String::from_str(prefix) }
    }

    /// The next name: the prefix followed by the current index, which then advances.
    pub fn generate(&mut self) -> (r: String)
        ensures
            r@ == generated_name(old(self).prefix@, old(self).index),
            r@ == old(self)@.name(),
            final(self)@ == old(self)@.next(),
            final(self).prefix == old(self).prefix,
            final(self).index == old(self).index.wrapping_add(1),
    {
        let index = self.index;
        self.index = self.index.wrapping_add(1);
        let d = decimal_string(index);
        let r = self.prefix.clone().concat(d.as_str());
        r
    }
}

} // verus!
