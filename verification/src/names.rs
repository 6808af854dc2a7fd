//! Sets and maps keyed by vehicle name, kept in the order in which names are shown.
//!
//! Names are ordered as strings are: by their UTF-8 bytes. Both collections keep
//! their names strictly ascending, so walking them is deterministic.
use vstd::prelude::*;
use vstd::string::*;
use vstd::utf8::*;
use crate::text;

verus! {

/// Lexicographic order on bytes.
pub open spec fn bytes_lt(a: Seq<u8>, b: Seq<u8>) -> bool
    decreases a.len(),
{
    if b.len() == 0 {
        false
    } else if a.len() == 0 {
        true
    } else {
        a[0] < b[0] || (a[0] == b[0] && bytes_lt(a.drop_first(), b.drop_first()))
    }
}

/// The order of names: that of their UTF-8 bytes.
pub open spec fn name_lt(a: Seq<char>, b: Seq<char>) -> bool {
    bytes_lt(encode_utf8(a), encode_utf8(b))
}

/// Every name is smaller than each one after it.
pub open spec fn ascending(names: Seq<Seq<char>>) -> bool {
    forall|i: int, j: int|
        0 <= i < j < names.len() ==> name_lt(#[trigger] names[i], #[trigger] names[j])
}

/// The names of a finite set in ascending order.
pub open spec fn sorted_names(names: Set<Seq<char>>) -> Seq<Seq<char>> {
    choose|s: Seq<Seq<char>>| #[trigger] ascending(s) && s.to_set() == names
}

proof fn lemma_bytes_lt_irreflexive(a: Seq<u8>)
    ensures
        !bytes_lt(a, a),
    decreases a.len(),
{
    if a.len() > 0 {
        lemma_bytes_lt_irreflexive(a.drop_first());
    }
}

proof fn lemma_bytes_lt_transitive(a: Seq<u8>, b: Seq<u8>, c: Seq<u8>)
    requires
        bytes_lt(a, b),
        bytes_lt(b, c),
    ensures
        bytes_lt(a, c),
    decreases a.len(),
{
    if a.len() > 0 && a[0] == b[0] && b[0] == c[0] {
        lemma_bytes_lt_transitive(a.drop_first(), b.drop_first(), c.drop_first());
    }
}

/// The order of names is strict: no name is before itself.
pub proof fn lemma_name_lt_irreflexive(a: Seq<char>)
    ensures
        !name_lt(a, a),
{
    lemma_bytes_lt_irreflexive(encode_utf8(a));
}

/// The order of names is transitive.
pub proof fn lemma_name_lt_transitive(a: Seq<char>, b: Seq<char>, c: Seq<char>)
    requires
        name_lt(a, b),
        name_lt(b, c),
    ensures
        name_lt(a, c),
{
    lemma_bytes_lt_transitive(encode_utf8(a), encode_utf8(b), encode_utf8(c));
}

proof fn lemma_ascending_no_duplicates(s: Seq<Seq<char>>)
    requires
        ascending(s),
    ensures
        s.no_duplicates(),
{
    assert forall|i: int, j: int| 0 <= i < s.len() && 0 <= j < s.len() && i != j implies s[i]
        != s[j] by {
        if i < j {
            lemma_name_lt_irreflexive(s[i]);
            assert(name_lt(s[i], s[j]));
        } else {
            lemma_name_lt_irreflexive(s[j]);
            assert(name_lt(s[j], s[i]));
        }
    }
}

/// An ascending sequence is determined by the names in it: it is their sorted order.
pub proof fn lemma_ascending_is_sorted(s: Seq<Seq<char>>)
    requires
        ascending(s),
    ensures
        s == sorted_names(s.to_set()),
        s.to_set().finite(),
        s.to_set().len() == s.len(),
{
    let t = sorted_names(s.to_set());
    assert(ascending(s) && s.to_set() == s.to_set());
    assert(ascending(t) && t.to_set() == s.to_set());
    lemma_ascending_unique(s, t);
    lemma_ascending_no_duplicates(s);
    s.unique_seq_to_set();
    vstd::seq_lib::seq_to_set_is_finite(s);
}

proof fn lemma_ascending_unique(s: Seq<Seq<char>>, t: Seq<Seq<char>>)
    requires
        ascending(s),
        ascending(t),
        s.to_set() == t.to_set(),
    ensures
        s == t,
    decreases s.len(),
{
    lemma_ascending_no_duplicates(s);
    lemma_ascending_no_duplicates(t);
    s.unique_seq_to_set();
    t.unique_seq_to_set();
    assert(s.len() == t.len());
    if s.len() > 0 {
        // The greatest name is last in both.
        let last = s.len() - 1;
        assert(s.to_set().contains(s[last]));
        assert(t.to_set().contains(t[last]));
        let i = choose|i: int| 0 <= i < t.len() && t[i] == s[last];
        let j = choose|j: int| 0 <= j < s.len() && s[j] == t[last];
        assert(t.contains(s[last]));
        assert(s.contains(t[last]));
        if i < last && j < last {
            assert(name_lt(t[i], t[last]));
            assert(name_lt(s[j], s[last]));
            lemma_name_lt_transitive(s[last], t[last], s[last]);
            lemma_name_lt_irreflexive(s[last]);
        }
        assert(s[last] == t[last]);
        let s1 = s.drop_last();
        let t1 = t.drop_last();
        assert(s1.to_set() == t1.to_set()) by {
            assert forall|x: Seq<char>| s1.to_set().contains(x) == t1.to_set().contains(x) by {
                if s1.contains(x) {
                    let k = choose|k: int| 0 <= k < s1.len() && s1[k] == x;
                    assert(s[k] == x);
                    assert(s.to_set().contains(x));
                    assert(t.contains(x));
                    let m = choose|m: int| 0 <= m < t.len() && t[m] == x;
                    assert(m != last);
                    assert(t1[m] == x);
                }
                if t1.contains(x) {
                    let k = choose|k: int| 0 <= k < t1.len() && t1[k] == x;
                    assert(t[k] == x);
                    assert(t.to_set().contains(x));
                    assert(s.contains(x));
                    let m = choose|m: int| 0 <= m < s.len() && s[m] == x;
                    assert(m != last);
                    assert(s1[m] == x);
                }
            }
        }
        lemma_ascending_unique(s1, t1);
        assert(s == s1.push(s[last]));
        assert(t == t1.push(t[last]));
    }
}

proof fn lemma_bytes_lt_total(a: Seq<u8>, b: Seq<u8>)
    ensures
        a == b || bytes_lt(a, b) || bytes_lt(b, a),
    decreases a.len(),
{
    if a.len() == 0 || b.len() == 0 {
        if a.len() == 0 && b.len() == 0 {
            assert(a =~= b);
        }
    } else {
        lemma_bytes_lt_total(a.drop_first(), b.drop_first());
        if a[0] == b[0] && a.drop_first() == b.drop_first() {
            assert(a =~= seq![a[0]] + a.drop_first());
            assert(b =~= seq![b[0]] + b.drop_first());
        }
    }
}

/// Of two different names one is before the other.
pub proof fn lemma_name_lt_total(a: Seq<char>, b: Seq<char>)
    ensures
        a == b || name_lt(a, b) || name_lt(b, a),
{
    lemma_bytes_lt_total(encode_utf8(a), encode_utf8(b));
    if encode_utf8(a) == encode_utf8(b) {
        lemma_encode_utf8_injective(a, b);
    }
}

/// Where a name belongs in an ascending sequence that does not hold it.
proof fn lemma_place(s: Seq<Seq<char>>, name: Seq<char>) -> (at: int)
    requires
        ascending(s),
        !s.contains(name),
    ensures
        0 <= at <= s.len(),
        forall|k: int| 0 <= k < at ==> name_lt(#[trigger] s[k], name),
        forall|k: int| at <= k < s.len() ==> name_lt(name, #[trigger] s[k]),
    decreases s.len(),
{
    if s.len() == 0 {
        0
    } else {
        let last = s.len() - 1;
        let rest = s.drop_last();
        assert(s[last] != name);
        lemma_name_lt_total(s[last], name);
        if name_lt(s[last], name) {
            assert forall|k: int| 0 <= k < s.len() implies name_lt(#[trigger] s[k], name) by {
                if k < last {
                    lemma_name_lt_transitive(s[k], s[last], name);
                }
            }
            s.len() as int
        } else {
            assert forall|x: Seq<char>| rest.contains(x) implies s.contains(x) by {
                let k = choose|k: int| 0 <= k < rest.len() && rest[k] == x;
                assert(s[k] == x);
            }
            let at = lemma_place(rest, name);
            assert forall|k: int| 0 <= k < at implies name_lt(#[trigger] s[k], name) by {
                assert(s[k] == rest[k]);
            }
            assert forall|k: int| at <= k < s.len() implies name_lt(name, #[trigger] s[k]) by {
                if k < last {
                    assert(s[k] == rest[k]);
                }
            }
            at
        }
    }
}

/// Every finite set of names has a sorted order: ascending, with the same names.
pub proof fn lemma_sorted_names(set: Set<Seq<char>>)
    requires
        set.finite(),
    ensures
        ascending(sorted_names(set)),
        sorted_names(set).to_set() == set,
        sorted_names(set).len() == set.len(),
    decreases set.len(),
{
    let witness = if set.len() == 0 {
        assert(set =~= Set::empty());
        Seq::<Seq<char>>::empty()
    } else {
        let name = set.choose();
        let rest = set.remove(name);
        lemma_sorted_names(rest);
        let s = sorted_names(rest);
        assert(!s.contains(name)) by {
            assert(!s.to_set().contains(name));
        }
        let at = lemma_place(s, name);
        lemma_insert_ascending(s, at, name);
        assert(rest.insert(name) =~= set);
        s.insert(at, name)
    };
    assert(witness.to_set() =~= set);
    assert(ascending(witness));
    lemma_ascending_is_sorted(witness);
}

/// How two names compare.
enum NameOrder {
    Before,
    Same,
    After,
}

/// Different texts have different UTF-8 bytes.
pub proof fn lemma_encode_utf8_injective(a: Seq<char>, b: Seq<char>)
    requires
        encode_utf8(a) == encode_utf8(b),
    ensures
        a == b,
{
    encode_utf8_decode_utf8(a);
    encode_utf8_decode_utf8(b);
}

/// Compares two names byte by byte.
fn order_of(a: &str, b: &str) -> (r: NameOrder)
    ensures
        r is Before <==> name_lt(a@, b@),
        r is Same <==> a@ == b@,
        r is After <==> name_lt(b@, a@),
{
    let x = a.as_bytes();
    let y = b.as_bytes();
    let mut i: usize = 0;
    assert(x@.skip(0) == x@);
    assert(y@.skip(0) == y@);
    proof {
        lemma_name_lt_irreflexive(a@);
    }
    while i < x.len() && i < y.len()
        invariant
            i <= x.len(),
            i <= y.len(),
            x@ == encode_utf8(a@),
            y@ == encode_utf8(b@),
            forall|k: int| 0 <= k < i ==> x@[k] == y@[k],
            bytes_lt(x@, y@) == bytes_lt(x@.skip(i as int), y@.skip(i as int)),
            bytes_lt(y@, x@) == bytes_lt(y@.skip(i as int), x@.skip(i as int)),
            !name_lt(a@, a@),
        decreases x.len() - i,
    {
        assert(x@.skip(i as int)[0] == x@[i as int]);
        assert(y@.skip(i as int)[0] == y@[i as int]);
        assert(x@.skip(i as int).drop_first() == x@.skip(i + 1));
        assert(y@.skip(i as int).drop_first() == y@.skip(i + 1));
        if x[i] < y[i] {
            return NameOrder::Before;
        }
        if y[i] < x[i] {
            return NameOrder::After;
        }
        i = i + 1;
    }
    if i < y.len() {
        NameOrder::Before
    } else if i < x.len() {
        NameOrder::After
    } else {
        proof {
            assert(x@ == y@);
            lemma_encode_utf8_injective(a@, b@);
        }
        NameOrder::Same
    }
}

/// A set of names.
#[derive(Debug, Clone)]
pub struct NameSet {
    names: Vec<String>,
}

impl View for NameSet {
    type V = Set<Seq<char>>;

    closed spec fn view(&self) -> Set<Seq<char>> {
        text::texts(self.names@).to_set()
    }
}

impl NameSet {
    /// The names are strictly ascending.
    pub closed spec fn wf(&self) -> bool {
        ascending(text::texts(self.names@))
    }

    /// A well-formed set holds finitely many names.
    pub proof fn lemma_finite(&self)
        requires
            self.wf(),
        ensures
            self@.finite(),
    {
        lemma_ascending_is_sorted(text::texts(self.names@));
    }

    /// The empty set.
    pub fn new() -> (r: NameSet)
        ensures
            r.wf(),
            r@ == Set::<Seq<char>>::empty(),
    {
        let r = NameSet { names: Vec::new() };
        assert(r@ =~= Set::<Seq<char>>::empty());
        r
    }

    /// The set of the given names.
    pub fn from_names(names: &Vec<String>) -> (r: NameSet)
        ensures
            r.wf(),
            r@ == text::texts(names@).to_set(),
    {
        let mut out: NameSet = NameSet::new();
        let ghost given = text::texts(names@);
        let mut i: usize = 0;
        assert(given.take(0).to_set() =~= Set::<Seq<char>>::empty());
        while i < names.len()
            invariant
                i <= names@.len(),
                given == text::texts(names@),
                out.wf(),
                out@ == given.take(i as int).to_set(),
            decreases names.len() - i,
        {
            out.insert(names[i].clone());
            proof {
                assert(given.take(i + 1) == given.take(i as int).push(given[i as int]));
                given.take(i as int).lemma_push_to_set_commute(given[i as int]);
            }
            i = i + 1;
        }
        assert(given.take(given.len() as int) == given);
        out
    }

    /// The number of names.
    pub fn len(&self) -> (n: usize)
        requires
            self.wf(),
        ensures
            n == self@.len(),
    {
        proof {
            lemma_ascending_is_sorted(text::texts(self.names@));
        }
        self.names.len()
    }

    /// Where `name` is or belongs, and whether it is there.
    fn find(&self, name: &str) -> (r: (usize, bool))
        requires
            self.wf(),
        ensures
            r.0 <= self.names@.len(),
            forall|k: int| 0 <= k < r.0 ==> name_lt(#[trigger] self.names@[k]@, name@),
            r.1 ==> r.0 < self.names@.len() && self.names@[r.0 as int]@ == name@,
            !r.1 ==> forall|k: int|
                r.0 <= k < self.names@.len() ==> name_lt(name@, #[trigger] self.names@[k]@),
            r.1 == self@.contains(name@),
    {
        let ghost seen = text::texts(self.names@);
        let mut i: usize = 0;
        while i < self.names.len()
            invariant
                i <= self.names@.len(),
                self.wf(),
                seen == text::texts(self.names@),
                forall|k: int| 0 <= k < i ==> name_lt(#[trigger] self.names@[k]@, name@),
            decreases self.names.len() - i,
        {
            match order_of(self.names[i].as_str(), name) {
                NameOrder::Before => {},
                NameOrder::Same => {
                    assert(seen[i as int] == name@);
                    assert(seen.contains(name@));
                    return (i, true);
                },
                NameOrder::After => {
                    assert forall|k: int| i <= k < self.names@.len() implies name_lt(
                        name@,
                        #[trigger] self.names@[k]@,
                    ) by {
                        assert(seen[k] == self.names@[k]@);
                        assert(seen[i as int] == self.names@[i as int]@);
                        if k > i {
                            assert(name_lt(seen[i as int], seen[k]));
                            lemma_name_lt_transitive(name@, seen[i as int], seen[k]);
                        }
                    }
                    proof {
                        self.lemma_absent(name@, i as int);
                    }
                    return (i, false);
                },
            }
            i = i + 1;
        }
        proof {
            self.lemma_absent(name@, i as int);
        }
        (i, false)
    }

    proof fn lemma_absent(&self, name: Seq<char>, at: int)
        requires
            0 <= at <= self.names@.len(),
            forall|k: int| 0 <= k < at ==> name_lt(#[trigger] self.names@[k]@, name),
            forall|k: int|
                at <= k < self.names@.len() ==> name_lt(name, #[trigger] self.names@[k]@),
        ensures
            !self@.contains(name),
    {
        let seen = text::texts(self.names@);
        if seen.contains(name) {
            let k = choose|k: int| 0 <= k < seen.len() && seen[k] == name;
            assert(self.names@[k]@ == name);
            lemma_name_lt_irreflexive(name);
        }
    }

    /// Whether `name` is in the set.
    pub fn contains(&self, name: &str) -> (r: bool)
        requires
            self.wf(),
        ensures
            r == self@.contains(name@),
    {
        self.find(name).1
    }

    /// Adds `name`.
    pub fn insert(&mut self, name: String)
        requires
            old(self).wf(),
        ensures
            final(self).wf(),
            final(self)@ == old(self)@.insert(name@),
    {
        let (at, found) = self.find(name.as_str());
        let ghost before = text::texts(self.names@);
        let ghost added = name@;
        if !found {
            self.names.insert(at, name);
            proof {
                lemma_insert_ascending(before, at as int, added);
                assert(text::texts(self.names@) == before.insert(at as int, added));
            }
        } else {
            assert(self@.insert(added) =~= self@);
        }
    }

    /// The names in ascending order.
    pub fn to_names(&self) -> (r: Vec<String>)
        requires
            self.wf(),
        ensures
            text::texts(r@) == sorted_names(self@),
            ascending(text::texts(r@)),
            text::texts(r@).to_set() == self@,
            text::texts(r@).no_duplicates(),
    {
        proof {
            lemma_ascending_is_sorted(text::texts(self.names@));
            lemma_ascending_no_duplicates(text::texts(self.names@));
        }
        copy_names(&self.names)
    }
}

/// A map from names to values.
#[derive(Debug, Clone)]
pub struct NameMap<V> {
    names: NameSet,
    values: Vec<V>,
}

impl<V: View> View for NameMap<V> {
    type V = Map<Seq<char>, V::V>;

    closed spec fn view(&self) -> Map<Seq<char>, V::V> {
        Map::new(
            |name: Seq<char>| self.names@.contains(name),
            |name: Seq<char>| self.values@[text::texts(self.names.names@).index_of(name)]@,
        )
    }
}

impl<V: View> NameMap<V> {
    /// The names are strictly ascending, and each has one value.
    pub closed spec fn wf(&self) -> bool {
        &&& self.names.wf()
        &&& self.names.names@.len() == self.values@.len()
    }

    proof fn lemma_lookup(&self, at: int)
        requires
            self.wf(),
            0 <= at < self.values@.len(),
        ensures
            self@.contains_key(self.names.names@[at]@),
            self@[self.names.names@[at]@] == self.values@[at]@,
    {
        let seen = text::texts(self.names.names@);
        lemma_ascending_no_duplicates(seen);
        assert(seen[at] == self.names.names@[at]@);
        assert(seen.contains(seen[at]));
    }

    /// A well-formed map holds finitely many names.
    pub proof fn lemma_finite(&self)
        requires
            self.wf(),
        ensures
            self@.dom().finite(),
    {
        self.names.lemma_finite();
        assert(self@.dom() =~= self.names@);
    }

    /// The empty map.
    pub fn new() -> (r: NameMap<V>)
        ensures
            r.wf(),
            r@ == Map::<Seq<char>, V::V>::empty(),
    {
        let r = NameMap { names: NameSet { names: Vec::new() }, values: Vec::new() };
        assert(r@ =~= Map::<Seq<char>, V::V>::empty());
        r
    }

    /// The number of names.
    pub fn len(&self) -> (n: usize)
        requires
            self.wf(),
        ensures
            n == self@.len(),
    {
        assert(self@.dom() =~= self.names@);
        self.names.len()
    }

    /// Whether `name` has a value.
    pub fn contains_key(&self, name: &str) -> (r: bool)
        requires
            self.wf(),
        ensures
            r == self@.contains_key(name@),
    {
        self.names.contains(name)
    }

    /// The value of `name`, where it has one.
    pub fn get(&self, name: &str) -> (r: Option<&V>)
        requires
            self.wf(),
        ensures
            r is Some <==> self@.contains_key(name@),
            r matches Some(v) ==> v@ == self@[name@],
    {
        let (at, found) = self.names.find(name);
        if found {
            proof {
                self.lemma_lookup(at as int);
            }
            Some(&self.values[at])
        } else {
            None
        }
    }

    /// Gives `name` the value `value`, in place of any that it had.
    pub fn insert(&mut self, name: String, value: V)
        requires
            old(self).wf(),
        ensures
            final(self).wf(),
            final(self)@ == old(self)@.insert(name@, value@),
    {
        let (at, found) = self.names.find(name.as_str());
        let ghost before = *self;
        let ghost added = name@;
        let ghost given = value@;
        if found {
            self.values.set(at, value);
        } else {
            let ghost seen = text::texts(self.names.names@);
            self.names.names.insert(at, name);
            self.values.insert(at, value);
            proof {
                lemma_insert_ascending(seen, at as int, added);
                assert(text::texts(self.names.names@) == seen.insert(at as int, added));
            }
        }
        proof {
            assert(self.wf());
            assert forall|k: Seq<char>| #[trigger]
                self@.contains_key(k) == before@.insert(added, given).contains_key(k) by {
                if found {
                    assert(before.names.names@ == self.names.names@);
                }
            }
            assert forall|k: Seq<char>| self@.contains_key(k) implies #[trigger] self@[k]
                == before@.insert(added, given)[k] by {
                let seen = text::texts(self.names.names@);
                assert(seen.contains(k));
                let i = choose|i: int| 0 <= i < seen.len() && seen[i] == k;
                assert(self.names.names@[i]@ == k);
                self.lemma_lookup(i);
                if k != added {
                    let i0 = if found || i < at { i } else { i - 1 };
                    assert(before.names.names@[i0]@ == k);
                    before.lemma_lookup(i0);
                } else {
                    assert(self.names.names@[at as int]@ == k);
                    self.lemma_lookup(at as int);
                }
            }
            assert(self@ =~= before@.insert(added, given));
        }
    }

    /// The names that have a value.
    pub fn keys(&self) -> (r: &NameSet)
        requires
            self.wf(),
        ensures
            r.wf(),
            r@ == self@.dom(),
    {
        assert(self@.dom() =~= self.names@);
        &self.names
    }
}

proof fn lemma_insert_ascending(s: Seq<Seq<char>>, at: int, name: Seq<char>)
    requires
        ascending(s),
        0 <= at <= s.len(),
        forall|k: int| 0 <= k < at ==> name_lt(#[trigger] s[k], name),
        forall|k: int| at <= k < s.len() ==> name_lt(name, #[trigger] s[k]),
    ensures
        ascending(s.insert(at, name)),
        s.insert(at, name).to_set() == s.to_set().insert(name),
{
    let t = s.insert(at, name);
    assert forall|i: int, j: int| 0 <= i < j < t.len() implies name_lt(
        #[trigger] t[i],
        #[trigger] t[j],
    ) by {
        let i0 = if i < at { i } else { i - 1 };
        let j0 = if j < at { j } else { j - 1 };
        if i != at {
            assert(t[i] == s[i0]);
        }
        if j != at {
            assert(t[j] == s[j0]);
        }
    }
    assert forall|x: Seq<char>| t.to_set().contains(x) == s.to_set().insert(name).contains(x) by {
        if s.contains(x) {
            let k = choose|k: int| 0 <= k < s.len() && s[k] == x;
            let k1 = if k < at { k } else { k + 1 };
            assert(t[k1] == x);
        }
        assert(t[at] == name);
        if t.contains(x) && x != name {
            let k = choose|k: int| 0 <= k < t.len() && t[k] == x;
            let k0 = if k < at { k } else { k - 1 };
            assert(s[k0] == x);
        }
    }
    assert(t.to_set() =~= s.to_set().insert(name));
}

/// A copy of each name, in order.
pub fn copy_names(names: &Vec<String>) -> (r: Vec<String>)
    ensures
        text::texts(r@) == text::texts(names@),
        r@ == names@,
{
    let mut out: Vec<String> = Vec::new();
    let mut i: usize = 0;
    while i < names.len()
        invariant
            i <= names@.len(),
            out@ == names@.take(i as int),
        decreases names.len() - i,
    {
        out.push(names[i].clone());
        assert(names@.take(i + 1) == names@.take(i as int).push(names@[i as int]));
        i = i + 1;
    }
    assert(names@.take(names@.len() as int) == names@);
    out
}

} // verus!
