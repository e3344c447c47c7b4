//! Names in order, and the sets and maps that are keyed by them.

use vstd::prelude::*;
use vstd::string::*;

use crate::dup::Dup;
use crate::text;

verus! {

// ---- order ---------------------------------------------------------------

/// `a` comes before `b`: by the first character in which they differ, a text
/// before any that continues it.
pub open spec fn before(a: Seq<char>, b: Seq<char>) -> bool
    decreases a.len(),
{
    if b.len() == 0 {
        false
    } else if a.len() == 0 {
        true
    } else if a[0] == b[0] {
        before(a.skip(1), b.skip(1))
    } else {
        a[0] < b[0]
    }
}

pub proof fn before_irreflexive(a: Seq<char>)
    ensures
        !before(a, a),
    decreases a.len(),
{
    if a.len() > 0 {
        before_irreflexive(a.skip(1));
    }
}

pub proof fn before_transitive(a: Seq<char>, b: Seq<char>, c: Seq<char>)
    requires
        before(a, b),
        before(b, c),
    ensures
        before(a, c),
    decreases a.len(),
{
    if a.len() > 0 && a[0] == b[0] && b[0] == c[0] {
        before_transitive(a.skip(1), b.skip(1), c.skip(1));
    }
}

pub proof fn before_total(a: Seq<char>, b: Seq<char>)
    ensures
        before(a, b) || a == b || before(b, a),
    decreases a.len(),
{
    if a.len() == 0 && b.len() == 0 {
        assert(a =~= b);
    } else if a.len() > 0 && b.len() > 0 && a[0] == b[0] {
        before_total(a.skip(1), b.skip(1));
        if a.skip(1) == b.skip(1) {
            assert(a.skip(1).len() == b.skip(1).len());
            assert forall|i: int| 0 <= i < a.len() implies a[i] == b[i] by {
                if i > 0 {
                    assert(a[i] == a.skip(1)[i - 1]);
                    assert(b[i] == b.skip(1)[i - 1]);
                }
            }
            assert(a =~= b);
        }
    }
}

/// Whether `a` comes before `b`.
pub fn comes_before(a: &str, b: &str) -> (r: bool)
    ensures
        r == before(a@, b@),
{
    let x = text::chars_of(a);
    let y = text::chars_of(b);
    let mut i: usize = 0;
    assert(x@.skip(0) =~= x@);
    assert(y@.skip(0) =~= y@);
    loop
        invariant
            x@ == a@,
            y@ == b@,
            i <= x@.len(),
            i <= y@.len(),
            before(a@, b@) == before(x@.skip(i as int), y@.skip(i as int)),
        decreases x@.len() - i,
    {
        if i == y.len() {
            return false;
        }
        if i == x.len() {
            return true;
        }
        if x[i] != y[i] {
            return x[i] < y[i];
        }
        assert(x@.skip(i as int).skip(1) =~= x@.skip(i + 1));
        assert(y@.skip(i as int).skip(1) =~= y@.skip(i + 1));
        i = i + 1;
    }
}

/// Each name comes before all that follow it.
pub open spec fn in_strict_order(s: Seq<Seq<char>>) -> bool {
    forall|i: int, j: int| 0 <= i < j < s.len() ==> before(#[trigger] s[i], #[trigger] s[j])
}

/// Strictly ordered sequences of the same names are the same sequence.
pub proof fn strict_order_is_unique(s: Seq<Seq<char>>, t: Seq<Seq<char>>)
    requires
        in_strict_order(s),
        in_strict_order(t),
        s.to_set() == t.to_set(),
    ensures
        s == t,
    decreases s.len(),
{
    if s.len() == 0 {
        if t.len() > 0 {
            assert(t.to_set().contains(t[0]));
            assert(s.to_set().contains(t[0]));
        }
        assert(s =~= t);
    } else {
        assert(s.to_set().contains(s.last()));
        assert(t.contains(s.last()));
        assert(t.len() > 0);
        assert(t.to_set().contains(t.last()));
        assert(s.contains(t.last()));
        let i = choose|i: int| 0 <= i < s.len() && s[i] == t.last();
        let j = choose|j: int| 0 <= j < t.len() && t[j] == s.last();
        if s.last() != t.last() {
            assert(before(s[i], s[s.len() - 1]));
            assert(before(t[j], t[t.len() - 1]));
            before_transitive(s.last(), t.last(), s.last());
            before_irreflexive(s.last());
        }
        let s1 = s.drop_last();
        let t1 = t.drop_last();
        assert forall|x: Seq<char>| s1.to_set().contains(x) == t1.to_set().contains(x) by {
            if s1.contains(x) {
                let k = choose|k: int| 0 <= k < s1.len() && s1[k] == x;
                assert(s[k] == x);
                assert(before(s[k], s[s.len() - 1]));
                before_irreflexive(x);
                assert(s.to_set().contains(x));
                assert(t.contains(x));
                let m = choose|m: int| 0 <= m < t.len() && t[m] == x;
                assert(t1[m] == x);
            }
            if t1.contains(x) {
                let k = choose|k: int| 0 <= k < t1.len() && t1[k] == x;
                assert(t[k] == x);
                assert(before(t[k], t[t.len() - 1]));
                before_irreflexive(x);
                assert(t.to_set().contains(x));
                assert(s.contains(x));
                let m = choose|m: int| 0 <= m < s.len() && s[m] == x;
                assert(s1[m] == x);
            }
        }
        assert(s1.to_set() =~= t1.to_set());
        strict_order_is_unique(s1, t1);
        assert(s =~= s1.push(s.last()));
        assert(t =~= t1.push(t.last()));
    }
}

/// The names of a set, in order.
pub open spec fn ordered(names: Set<Seq<char>>) -> Seq<Seq<char>> {
    choose|s: Seq<Seq<char>>| in_strict_order(s) && s.to_set() == names
}

proof fn lemma_ordered(s: Seq<Seq<char>>)
    requires
        in_strict_order(s),
    ensures
        ordered(s.to_set()) == s,
{
    strict_order_is_unique(ordered(s.to_set()), s);
}

/// The names that `keys` holds.
pub open spec fn texts(keys: Seq<String>) -> Seq<Seq<char>> {
    Seq::new(keys.len(), |i: int| keys[i]@)
}

/// The place of `name` in ordered names, and whether it stands there.
fn place(keys: &Vec<String>, name: &str) -> (r: (usize, bool))
    requires
        in_strict_order(texts(keys@)),
    ensures
        r.0 <= keys@.len(),
        r.1 == texts(keys@).contains(name@),
        r.1 ==> r.0 < keys@.len() && keys@[r.0 as int]@ == name@,
        forall|i: int| 0 <= i < r.0 ==> before(#[trigger] keys@[i]@, name@),
        !r.1 ==> forall|i: int| r.0 <= i < keys@.len() ==> before(name@, #[trigger] keys@[i]@),
{
    let ghost t = texts(keys@);
    let mut lo: usize = 0;
    let mut hi: usize = keys.len();
    while lo < hi
        invariant
            t == texts(keys@),
            in_strict_order(t),
            lo <= hi <= keys@.len(),
            forall|i: int| 0 <= i < lo ==> before(#[trigger] keys@[i]@, name@),
            forall|i: int| hi <= i < keys@.len() ==> before(name@, #[trigger] keys@[i]@),
        decreases hi - lo,
    {
        let mid: usize = lo + (hi - lo) / 2;
        if comes_before(keys[mid].as_str(), name) {
            assert forall|i: int| 0 <= i <= mid implies before(#[trigger] keys@[i]@, name@) by {
                if i < mid {
                    assert(before(t[i], t[mid as int]));
                    before_transitive(t[i], t[mid as int], name@);
                }
            }
            lo = mid + 1;
        } else if comes_before(name, keys[mid].as_str()) {
            assert forall|i: int| mid <= i < keys@.len() implies before(
                name@,
                #[trigger] keys@[i]@,
            ) by {
                if i > mid {
                    assert(before(t[mid as int], t[i]));
                    before_transitive(name@, t[mid as int], t[i]);
                }
            }
            hi = mid;
        } else {
            proof {
                before_total(t[mid as int], name@);
                assert(t[mid as int] == name@);
                assert forall|i: int| 0 <= i < mid implies before(#[trigger] keys@[i]@, name@) by {
                    assert(before(t[i], t[mid as int]));
                }
            }
            return (mid, true);
        }
    }
    assert forall|i: int| 0 <= i < keys@.len() implies t[i] != name@ by {
        before_irreflexive(name@);
        assert(t[i] == keys@[i]@);
    }
    (lo, false)
}

/// Putting a name in its place keeps the order.
proof fn lemma_put(t: Seq<Seq<char>>, p: int, name: Seq<char>)
    requires
        in_strict_order(t),
        0 <= p <= t.len(),
        forall|i: int| 0 <= i < p ==> before(#[trigger] t[i], name),
        forall|i: int| p <= i < t.len() ==> before(name, #[trigger] t[i]),
    ensures
        in_strict_order(t.insert(p, name)),
        t.insert(p, name).to_set() == t.to_set().insert(name),
{
    let u = t.insert(p, name);
    assert forall|x: Seq<char>| u.to_set().contains(x) == t.to_set().insert(name).contains(x) by {
        if u.contains(x) {
            let i = choose|i: int| 0 <= i < u.len() && u[i] == x;
            if i < p {
                assert(t[i] == x);
            } else if i > p {
                assert(t[i - 1] == x);
            }
        }
        if t.contains(x) {
            let i = choose|i: int| 0 <= i < t.len() && t[i] == x;
            if i < p {
                assert(u[i] == x);
            } else {
                assert(u[i + 1] == x);
            }
        }
        assert(u[p] == name);
    }
    assert(u.to_set() =~= t.to_set().insert(name));
}

/// Taking a name out keeps the order.
proof fn lemma_drop(t: Seq<Seq<char>>, p: int)
    requires
        in_strict_order(t),
        0 <= p < t.len(),
    ensures
        in_strict_order(t.remove(p)),
        t.remove(p).to_set() == t.to_set().remove(t[p]),
{
    let u = t.remove(p);
    assert forall|x: Seq<char>| u.to_set().contains(x) == t.to_set().remove(t[p]).contains(x) by {
        if u.contains(x) {
            let i = choose|i: int| 0 <= i < u.len() && u[i] == x;
            before_irreflexive(x);
            if i < p {
                assert(t[i] == x);
                assert(before(t[i], t[p]));
            } else {
                assert(t[i + 1] == x);
                assert(before(t[p], t[i + 1]));
            }
        }
        if t.contains(x) && x != t[p] {
            let i = choose|i: int| 0 <= i < t.len() && t[i] == x;
            if i < p {
                assert(u[i] == x);
            } else {
                assert(u[i - 1] == x);
            }
        }
    }
    assert(u.to_set() =~= t.to_set().remove(t[p]));
}

/// Every finite set of names has an order.
pub proof fn lemma_ordered_finite(names: Set<Seq<char>>)
    requires
        names.finite(),
    ensures
        in_strict_order(ordered(names)),
        ordered(names).to_set() == names,
{
    lemma_order_exists(names);
}

proof fn lemma_order_exists(names: Set<Seq<char>>)
    requires
        names.finite(),
    ensures
        exists|s: Seq<Seq<char>>| in_strict_order(s) && #[trigger] s.to_set() == names,
    decreases names.len(),
{
    if names.len() == 0 {
        let s = Seq::<Seq<char>>::empty();
        assert(s.to_set() =~= names);
        assert(in_strict_order(s));
    } else {
        let x = names.choose();
        let rest = names.remove(x);
        lemma_order_exists(rest);
        let s = choose|s: Seq<Seq<char>>| in_strict_order(s) && #[trigger] s.to_set() == rest;
        let p = lemma_place_exists(s, x);
        lemma_put(s, p, x);
        assert(rest.insert(x) =~= names);
        assert(s.insert(p, x).to_set() == names);
    }
}

/// A name that is not among ordered ones has a place between them.
proof fn lemma_place_exists(s: Seq<Seq<char>>, x: Seq<char>) -> (p: int)
    requires
        in_strict_order(s),
        !s.to_set().contains(x),
    ensures
        0 <= p <= s.len(),
        forall|i: int| 0 <= i < p ==> before(#[trigger] s[i], x),
        forall|i: int| p <= i < s.len() ==> before(x, #[trigger] s[i]),
    decreases s.len(),
{
    if s.len() == 0 {
        0
    } else {
        let d = s.drop_last();
        let y = s.last();
        assert(s.contains(y));
        before_total(x, y);
        if before(y, x) {
            assert forall|i: int| 0 <= i < s.len() implies before(#[trigger] s[i], x) by {
                if i < s.len() - 1 {
                    assert(before(s[i], s[s.len() - 1]));
                    before_transitive(s[i], y, x);
                }
            }
            s.len() as int
        } else {
            assert(!d.to_set().contains(x)) by {
                if d.contains(x) {
                    let k = choose|k: int| 0 <= k < d.len() && d[k] == x;
                    assert(s[k] == x);
                }
            }
            let p = lemma_place_exists(d, x);
            assert forall|i: int| 0 <= i < p implies before(#[trigger] s[i], x) by {
                assert(d[i] == s[i]);
            }
            assert forall|i: int| p <= i < s.len() implies before(x, #[trigger] s[i]) by {
                if i < d.len() {
                    assert(d[i] == s[i]);
                }
            }
            p
        }
    }
}

// ---- sets ----------------------------------------------------------------

/// A set of names, kept in order.
#[derive(Debug)]
pub struct NameSet {
    keys: Vec<String>,
}

impl View for NameSet {
    type V = Set<Seq<char>>;

    closed spec fn view(&self) -> Set<Seq<char>> {
        texts(self.keys@).to_set()
    }
}

impl DeepView for NameSet {
    type V = Set<Seq<char>>;

    open spec fn deep_view(&self) -> Set<Seq<char>> {
        self@
    }
}

impl NameSet {
    #[verifier::type_invariant]
    spec fn in_order(self) -> bool {
        in_strict_order(texts(self.keys@))
    }

    pub fn new() -> (r: NameSet)
        ensures
            r@ == Set::<Seq<char>>::empty(),
    {
        let r = NameSet { keys: Vec::new() };
        assert(r@ =~= Set::<Seq<char>>::empty());
        r
    }

    pub fn contains(&self, name: &str) -> (r: bool)
        ensures
            r == self@.contains(name@),
    {
        proof {
            use_type_invariant(self);
        }
        place(&self.keys, name).1
    }

    /// Puts `name` in; tells whether it was not there.
    pub fn insert(&mut self, name: &str) -> (r: bool)
        ensures
            final(self)@ == old(self)@.insert(name@),
            r == !old(self)@.contains(name@),
    {
        proof {
            use_type_invariant(&*self);
        }
        let ghost t = texts(self.keys@);
        let (p, found) = place(&self.keys, name);
        if found {
            assert(self@ =~= self@.insert(name@));
            return false;
        }
        let mut keys: Vec<String> = Vec::new();
        std::mem::swap(&mut self.keys, &mut keys);
        keys.insert(p, text::owned(name));
        proof {
            lemma_put(t, p as int, name@);
            assert(texts(keys@) =~= t.insert(p as int, name@));
        }
        *self = NameSet { keys };
        true
    }

    /// Takes `name` out; tells whether it was there.
    pub fn remove(&mut self, name: &str) -> (r: bool)
        ensures
            final(self)@ == old(self)@.remove(name@),
            r == old(self)@.contains(name@),
    {
        proof {
            use_type_invariant(&*self);
        }
        let ghost t = texts(self.keys@);
        let (p, found) = place(&self.keys, name);
        if !found {
            assert(self@ =~= self@.remove(name@));
            return false;
        }
        let mut keys: Vec<String> = Vec::new();
        std::mem::swap(&mut self.keys, &mut keys);
        keys.remove(p);
        proof {
            lemma_drop(t, p as int);
            assert(texts(keys@) =~= t.remove(p as int));
        }
        *self = NameSet { keys };
        true
    }

    pub fn is_empty(&self) -> (r: bool)
        ensures
            r == (self@ == Set::<Seq<char>>::empty()),
    {
        let r = self.keys.len() == 0;
        proof {
            if r {
                assert(self@ =~= Set::<Seq<char>>::empty());
            } else {
                assert(texts(self.keys@)[0] == self.keys@[0]@);
                assert(self@.contains(self.keys@[0]@));
            }
        }
        r
    }

    /// The names in order.
    pub fn names(&self) -> (r: &Vec<String>)
        ensures
            r.deep_view() == ordered(self@),
            r.deep_view().to_set() == self@,
            in_strict_order(r.deep_view()),
    {
        proof {
            use_type_invariant(self);
            lemma_ordered(texts(self.keys@));
            assert(self.keys.deep_view() =~= texts(self.keys@));
        }
        &self.keys
    }

    pub fn len(&self) -> (r: usize)
        ensures
            r == ordered(self@).len(),
    {
        proof {
            use_type_invariant(self);
            lemma_ordered(texts(self.keys@));
        }
        self.keys.len()
    }

    /// The set of the names in `names`.
    pub fn from_names(names: &Vec<String>) -> (r: NameSet)
        ensures
            r@ == names.deep_view().to_set(),
    {
        let mut r = NameSet::new();
        let ghost t = names.deep_view();
        let mut i: usize = 0;
        assert(t.take(0).to_set() =~= Set::<Seq<char>>::empty());
        while i < names.len()
            invariant
                t == names.deep_view(),
                i <= names@.len(),
                r@ == t.take(i as int).to_set(),
            decreases names@.len() - i,
        {
            r.insert(names[i].as_str());
            proof {
                let a = t.take(i as int);
                assert(t.take(i + 1) =~= a.push(t[i as int]));
                a.lemma_push_to_set_commute(t[i as int]);
            }
            i = i + 1;
        }
        assert(t.take(i as int) =~= t);
        r
    }
}

impl Dup for NameSet {
    fn dup(&self) -> (r: Self) {
        proof {
            use_type_invariant(self);
        }
        let keys = self.keys.dup();
        assert(texts(keys@) =~= keys.deep_view());
        assert(texts(self.keys@) =~= self.keys.deep_view());
        NameSet { keys }
    }
}

// ---- maps ----------------------------------------------------------------

/// A map from names to values, kept in the order of the names.
#[derive(Debug)]
#[verifier::reject_recursive_types(V)]
pub struct NameMap<V> {
    keys: Vec<String>,
    values: Vec<V>,
}

/// The map that takes each name to the value at its place.
spec fn paired<V>(keys: Seq<Seq<char>>, values: Seq<V>) -> Map<Seq<char>, V> {
    Map::new(|k: Seq<char>| keys.contains(k), |k: Seq<char>| values[keys.index_of(k)])
}

proof fn lemma_index_of(keys: Seq<Seq<char>>, i: int)
    requires
        in_strict_order(keys),
        0 <= i < keys.len(),
    ensures
        keys.index_of(keys[i]) == i,
        keys.contains(keys[i]),
{
    let j = keys.index_of(keys[i]);
    assert(keys.contains(keys[i]));
    before_irreflexive(keys[i]);
    if j < i {
        assert(before(keys[j], keys[i]));
    } else if i < j {
        assert(before(keys[i], keys[j]));
    }
}

impl<V> View for NameMap<V> {
    type V = Map<Seq<char>, V>;

    closed spec fn view(&self) -> Map<Seq<char>, V> {
        paired(texts(self.keys@), self.values@)
    }
}

impl<V: DeepView> DeepView for NameMap<V> {
    type V = Map<Seq<char>, V::V>;

    open spec fn deep_view(&self) -> Map<Seq<char>, V::V> {
        Map::new(|k: Seq<char>| self@.contains_key(k), |k: Seq<char>| self@[k].deep_view())
    }
}

impl<V> NameMap<V> {
    #[verifier::type_invariant]
    spec fn in_order(self) -> bool {
        in_strict_order(texts(self.keys@)) && self.keys@.len() == self.values@.len()
    }

    pub fn new() -> (r: NameMap<V>)
        ensures
            r@ == Map::<Seq<char>, V>::empty(),
    {
        let r = NameMap { keys: Vec::new(), values: Vec::new() };
        assert(r@ =~= Map::<Seq<char>, V>::empty());
        r
    }

    pub fn get(&self, name: &str) -> (r: Option<&V>)
        ensures
            match r {
                Some(v) => self@.contains_key(name@) && self@[name@] == *v,
                None => !self@.contains_key(name@),
            },
    {
        proof {
            use_type_invariant(self);
        }
        let (p, found) = place(&self.keys, name);
        if found {
            proof {
                lemma_index_of(texts(self.keys@), p as int);
            }
            Some(&self.values[p])
        } else {
            None
        }
    }

    /// Makes `name` stand for `value`.
    pub fn insert(&mut self, name: &str, value: V)
        ensures
            final(self)@ == old(self)@.insert(name@, value),
    {
        proof {
            use_type_invariant(&*self);
        }
        let ghost t = texts(self.keys@);
        let ghost m = self@;
        let (p, found) = place(&self.keys, name);
        let mut keys: Vec<String> = Vec::new();
        let mut values: Vec<V> = Vec::new();
        let mut whole: NameMap<V> = NameMap { keys, values };
        std::mem::swap(self, &mut whole);
        let NameMap { mut keys, mut values } = whole;
        if found {
            values.set(p, value);
            assert(texts(keys@) == t);
            *self = NameMap { keys, values };
            proof {
                lemma_index_of(t, p as int);
                assert forall|k: Seq<char>| #[trigger] t.contains(k) implies self@[k] == m.insert(
                    name@,
                    value,
                )[k] by {
                    let i = choose|i: int| 0 <= i < t.len() && t[i] == k;
                    lemma_index_of(t, i);
                }
                assert(self@ =~= m.insert(name@, value));
            }
        } else {
            keys.insert(p, text::owned(name));
            values.insert(p, value);
            let ghost u = t.insert(p as int, name@);
            proof {
                lemma_put(t, p as int, name@);
                assert(texts(keys@) =~= u);
            }
            *self = NameMap { keys, values };
            proof {
                assert forall|k: Seq<char>| #[trigger] u.contains(k) implies self@[k] == m.insert(
                    name@,
                    value,
                )[k] by {
                    let i = choose|i: int| 0 <= i < u.len() && u[i] == k;
                    lemma_index_of(u, i);
                    if i < p {
                        assert(t[i] == k);
                        lemma_index_of(t, i);
                    } else if i > p {
                        assert(t[i - 1] == k);
                        lemma_index_of(t, i - 1);
                    }
                }
                assert forall|k: Seq<char>| u.contains(k) == m.insert(name@, value).contains_key(
                    k,
                ) by {
                    assert(u.to_set().contains(k) == t.to_set().insert(name@).contains(k));
                }
                assert(self@ =~= m.insert(name@, value));
            }
        }
    }

    /// Takes `name` out.
    pub fn remove(&mut self, name: &str)
        ensures
            final(self)@ == old(self)@.remove(name@),
    {
        proof {
            use_type_invariant(&*self);
        }
        let ghost t = texts(self.keys@);
        let ghost m = self@;
        let (p, found) = place(&self.keys, name);
        if !found {
            assert(self@ =~= m.remove(name@));
            return;
        }
        let mut whole: NameMap<V> = NameMap { keys: Vec::new(), values: Vec::new() };
        std::mem::swap(self, &mut whole);
        let NameMap { mut keys, mut values } = whole;
        keys.remove(p);
        values.remove(p);
        let ghost u = t.remove(p as int);
        proof {
            lemma_drop(t, p as int);
            assert(texts(keys@) =~= u);
        }
        *self = NameMap { keys, values };
        proof {
            assert forall|k: Seq<char>| #[trigger] u.contains(k) implies self@[k] == m[k] by {
                let i = choose|i: int| 0 <= i < u.len() && u[i] == k;
                lemma_index_of(u, i);
                if i < p {
                    assert(t[i] == k);
                    lemma_index_of(t, i);
                } else {
                    assert(t[i + 1] == k);
                    lemma_index_of(t, i + 1);
                }
            }
            assert forall|k: Seq<char>| u.contains(k) == m.remove(name@).contains_key(k) by {
                assert(u.to_set().contains(k) == t.to_set().remove(name@).contains(k));
            }
            assert(self@ =~= m.remove(name@));
        }
    }

    pub fn len(&self) -> (r: usize)
        ensures
            r == ordered(self@.dom()).len(),
    {
        proof {
            use_type_invariant(self);
            lemma_ordered(texts(self.keys@));
            assert(self@.dom() =~= texts(self.keys@).to_set());
        }
        self.keys.len()
    }

    /// The names in order.
    pub fn names(&self) -> (r: &Vec<String>)
        ensures
            r.deep_view() == ordered(self@.dom()),
            r.deep_view().to_set() == self@.dom(),
            in_strict_order(r.deep_view()),
    {
        proof {
            use_type_invariant(self);
            lemma_ordered(texts(self.keys@));
            assert(self@.dom() =~= texts(self.keys@).to_set());
            assert(self.keys.deep_view() =~= texts(self.keys@));
        }
        &self.keys
    }
}

impl<V: DeepView> NameMap<V> {
    /// `insert`, in terms of the deep view.
    pub fn put(&mut self, name: &str, value: V)
        ensures
            final(self).deep_view() == old(self).deep_view().insert(name@, value.deep_view()),
    {
        self.insert(name, value);
        assert(self.deep_view() =~= old(self).deep_view().insert(name@, value.deep_view()));
    }

    /// `remove`, in terms of the deep view.
    pub fn drop_name(&mut self, name: &str)
        ensures
            final(self).deep_view() == old(self).deep_view().remove(name@),
    {
        self.remove(name);
        assert(self.deep_view() =~= old(self).deep_view().remove(name@));
    }
}

impl<V: Dup> Dup for NameMap<V> {
    fn dup(&self) -> (r: Self) {
        proof {
            use_type_invariant(self);
        }
        let keys = self.keys.dup();
        let values = self.values.dup();
        assert(texts(keys@) =~= keys.deep_view());
        assert(texts(self.keys@) =~= self.keys.deep_view());
        assert(values.deep_view().len() == self.values.deep_view().len());
        let r = NameMap { keys, values };
        proof {
            let t = texts(self.keys@);
            assert forall|k: Seq<char>| #[trigger] t.contains(k) implies r@[k].deep_view()
                == self@[k].deep_view() by {
                let i = t.index_of(k);
                assert(values.deep_view()[i] == self.values.deep_view()[i]);
            }
            assert(r.deep_view() =~= self.deep_view());
        }
        r
    }
}

} // verus!
