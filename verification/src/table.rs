//! Tables keyed by text, which remember the order in which their keys were
//! first seen.

use vstd::prelude::*;

verus! {

/// Equality of string slices, `<str as PartialEq>::eq`: two slices are equal
/// exactly when they hold the same characters.
pub assume_specification[ <str as PartialEq>::eq ](a: &str, b: &str) -> (same: bool)
    ensures
        same == (a@ == b@),
;

/// The mathematical content of a table: its keys in the order of their first
/// insertion, and the value held under each key.
pub struct TableView<V> {
    pub order: Seq<Seq<char>>,
    pub map: Map<Seq<char>, V>,
}

impl<V> TableView<V> {
    /// The table without entries.
    pub open spec fn empty() -> Self {
        TableView { order: Seq::empty(), map: Map::empty() }
    }

    /// Every key is listed once, and the listed keys are those with a value.
    pub open spec fn wf(self) -> bool {
        &&& self.order.no_duplicates()
        &&& forall|k: Seq<char>| self.order.contains(k) <==> #[trigger] self.map.contains_key(k)
    }

    /// Whether there is a value under `key`.
    pub open spec fn contains(self, key: Seq<char>) -> bool {
        self.map.contains_key(key)
    }

    /// The value under `key`.
    pub open spec fn get(self, key: Seq<char>) -> V
        recommends
            self.contains(key),
    {
        self.map[key]
    }

    /// The value under `key`, or `default` where the key is absent.
    pub open spec fn get_or(self, key: Seq<char>, default: V) -> V {
        if self.contains(key) {
            self.map[key]
        } else {
            default
        }
    }

    /// The table with `value` under `key`: a known key keeps its place, a
    /// new key is listed last.
    pub open spec fn insert(self, key: Seq<char>, value: V) -> Self {
        TableView {
            order: if self.map.contains_key(key) {
                self.order
            } else {
                self.order.push(key)
            },
            map: self.map.insert(key, value),
        }
    }

    /// The number of entries.
    pub open spec fn len(self) -> nat {
        self.order.len()
    }

    /// The values in the order of their keys.
    pub open spec fn values(self) -> Seq<V> {
        Seq::new(self.order.len(), |i: int| self.map[self.order[i]])
    }

    /// The table with every value replaced by its image under `f`.
    pub open spec fn map_values(self, f: spec_fn(V) -> V) -> Self {
        TableView { order: self.order, map: self.map.map_values(f) }
    }

    /// Inserting keeps a table well formed.
    pub proof fn lemma_insert_wf(self, key: Seq<char>, value: V)
        requires
            self.wf(),
        ensures
            self.insert(key, value).wf(),
    {
        let t = self.insert(key, value);
        if !self.map.contains_key(key) {
            assert(!self.order.contains(key));
            assert forall|i: int, j: int|
                0 <= i < t.order.len() && 0 <= j < t.order.len() && i != j implies t.order[i]
                != t.order[j] by {
                if i < self.order.len() {
                    assert(self.order.contains(self.order[i]));
                }
                if j < self.order.len() {
                    assert(self.order.contains(self.order[j]));
                }
            }
        }
        assert forall|k: Seq<char>| t.order.contains(k) <==> #[trigger] t.map.contains_key(k) by {
            if t.order.contains(k) {
                let i = choose|i: int| 0 <= i < t.order.len() && t.order[i] == k;
                if i < self.order.len() {
                    assert(self.order.contains(k));
                }
            }
            if t.map.contains_key(k) {
                if k == key {
                    if self.map.contains_key(key) {
                        assert(self.order.contains(key));
                    } else {
                        assert(t.order[self.order.len() as int] == key);
                    }
                } else {
                    assert(self.order.contains(k));
                    let i = choose|i: int| 0 <= i < self.order.len() && self.order[i] == k;
                    assert(t.order[i] == k);
                }
            }
        }
    }
}

/// A table from text keys to values, kept as two parallel lists in the order
/// in which the keys were first inserted.
#[derive(Debug, Clone, PartialEq, Eq)]
pub struct Table<V> {
    pub keys: Vec<String>,
    pub values: Vec<V>,
}

impl<V: View> View for Table<V> {
    type V = TableView<V::V>;

    open spec fn view(&self) -> TableView<V::V> {
        TableView {
            order: self.key_views(),
            map: Map::new(
                |k: Seq<char>| self.key_views().contains(k),
                |k: Seq<char>| self.values@[self.key_views().index_of(k)]@,
            ),
        }
    }
}

impl<V: View> Table<V> {
    /// The keys as character sequences, in order.
    pub open spec fn key_views(&self) -> Seq<Seq<char>> {
        Seq::new(self.keys@.len(), |i: int| self.keys@[i]@)
    }

    /// There is a value for every key, and no key occurs twice.
    pub open spec fn wf(&self) -> bool {
        &&& self.keys@.len() == self.values@.len()
        &&& self.key_views().no_duplicates()
    }

    /// The entry at position `i` is what the view holds under its key.
    pub proof fn lemma_entry(&self, i: int)
        requires
            self.wf(),
            0 <= i < self.keys@.len(),
        ensures
            self@.order[i] == self.keys@[i]@,
            self@.map.contains_key(self.keys@[i]@),
            self@.map[self.keys@[i]@] == self.values@[i]@,
            self.key_views().index_of(self.keys@[i]@) == i,
    {
        let ks = self.key_views();
        assert(ks[i] == self.keys@[i]@);
        assert(ks.contains(self.keys@[i]@));
        let j = ks.index_of(self.keys@[i]@);
        assert(0 <= j < ks.len() && ks[j] == self.keys@[i]@);
    }

    /// A key of the view stands at some position.
    pub proof fn lemma_position(&self, key: Seq<char>) -> (i: int)
        requires
            self.wf(),
            self@.contains(key),
        ensures
            0 <= i < self.keys@.len(),
            self.keys@[i]@ == key,
            self@.map[key] == self.values@[i]@,
    {
        let ks = self.key_views();
        let i = ks.index_of(key);
        assert(0 <= i < ks.len() && ks[i] == key);
        i
    }

    /// The view of a well-formed table is well formed.
    pub proof fn lemma_view_wf(&self)
        requires
            self.wf(),
        ensures
            self@.wf(),
            self@.order.len() == self.keys@.len(),
    {
    }

    /// A table that differs from `before` in the value at position `i` alone
    /// holds, in the view, that value under the same key.
    pub proof fn lemma_value_set(before: &Self, after: &Self, i: int)
        requires
            before.wf(),
            0 <= i < before.keys@.len(),
            after.keys@ == before.keys@,
            after.values@.len() == before.values@.len(),
            forall|j: int|
                0 <= j < before.values@.len() && j != i ==> after.values@[j] == before.values@[j],
        ensures
            after.wf(),
            after@.wf(),
            after@ == before@.insert(before.keys@[i]@, after.values@[i]@),
    {
        assert(after.key_views() =~= before.key_views());
        before.lemma_entry(i);
        let key = before.keys@[i]@;
        let expect = before@.insert(key, after.values@[i]@);
        assert forall|k: Seq<char>| #[trigger] after@.map.contains_key(k) implies after@.map[k]
            == expect.map[k] by {
            let j = after.key_views().index_of(k);
            assert(0 <= j < after.key_views().len() && after.key_views()[j] == k);
            if j == i {
            } else {
                assert(k != key);
            }
        }
        assert(after@.map =~= expect.map);
    }

    /// A table that extends `before` by one entry under a new key holds, in
    /// the view, that entry too.
    pub proof fn lemma_entry_added(before: &Self, after: &Self, key: String, value: V)
        requires
            before.wf(),
            !before@.contains(key@),
            after.keys@ == before.keys@.push(key),
            after.values@ == before.values@.push(value),
        ensures
            after.wf(),
            after@.wf(),
            after@ == before@.insert(key@, value@),
    {
        let n = before.keys@.len() as int;
        let bk = before.key_views();
        let ak = after.key_views();
        assert(ak =~= bk.push(key@));
        assert forall|a: int, b: int| 0 <= a < ak.len() && 0 <= b < ak.len() && a != b implies ak[a]
            != ak[b] by {
            if a < n {
                assert(bk.contains(bk[a]));
            }
            if b < n {
                assert(bk.contains(bk[b]));
            }
        }
        let expect = before@.insert(key@, value@);
        assert forall|k: Seq<char>| after@.map.contains_key(k) <==> expect.map.contains_key(k) by {
            if ak.contains(k) {
                let j = choose|j: int| 0 <= j < ak.len() && ak[j] == k;
                if j < n {
                    assert(bk.contains(k));
                }
            }
            if bk.contains(k) {
                let j = choose|j: int| 0 <= j < bk.len() && bk[j] == k;
                assert(ak[j] == k);
            }
            assert(ak[n] == key@);
        }
        assert forall|k: Seq<char>| #[trigger] after@.map.contains_key(k) implies after@.map[k]
            == expect.map[k] by {
            let j = ak.index_of(k);
            assert(0 <= j < ak.len() && ak[j] == k);
            if j < n {
                assert(bk[j] == k);
                assert(bk.contains(k));
                let j2 = bk.index_of(k);
                assert(0 <= j2 < bk.len() && bk[j2] == k);
                assert(ak[j2] == k);
            }
        }
        assert(after@.map =~= expect.map);
    }

    /// Makes the empty table.
    pub fn new() -> (table: Self)
        ensures
            table.wf(),
            table@.wf(),
            table@ == TableView::<V::V>::empty(),
    {
        let table = Table { keys: Vec::new(), values: Vec::new() };
        assert(table.key_views() =~= Seq::<Seq<char>>::empty());
        assert(table@.map =~= Map::<Seq<char>, V::V>::empty());
        table
    }

    /// The number of entries.
    pub fn len(&self) -> (n: usize)
        requires
            self.wf(),
        ensures
            n == self@.len(),
    {
        self.keys.len()
    }

    /// Checks that the table is well formed: that there is a value for
    /// every key and that no key occurs twice.
    pub fn is_well_formed(&self) -> (ok: bool)
        ensures
            ok == self.wf(),
    {
        if self.keys.len() != self.values.len() {
            return false;
        }
        let mut i: usize = 0;
        while i < self.keys.len()
            invariant
                i <= self.keys@.len(),
                forall|a: int, b: int| 0 <= a < b < i ==> self.keys@[a]@ != self.keys@[b]@,
            decreases self.keys@.len() - i,
        {
            let mut j: usize = 0;
            while j < i
                invariant
                    j <= i < self.keys@.len(),
                    forall|a: int| 0 <= a < j ==> self.keys@[a]@ != self.keys@[i as int]@,
                decreases i - j,
            {
                if self.keys[j].as_str().eq(self.keys[i].as_str()) {
                    proof {
                        let views = self.key_views();
                        assert(views[j as int] == views[i as int]);
                    }
                    return false;
                }
                j += 1;
            }
            i += 1;
        }
        proof {
            let views = self.key_views();
            assert forall|a: int, b: int|
                0 <= a < views.len() && 0 <= b < views.len() && a != b implies views[a]
                != views[b] by {
                if a < b {
                    assert(self.keys@[a]@ != self.keys@[b]@);
                } else {
                    assert(self.keys@[b]@ != self.keys@[a]@);
                }
            }
        }
        true
    }

    /// Finds the position of `key`.
    pub fn position(&self, key: &str) -> (found: Option<usize>)
        requires
            self.wf(),
        ensures
            match found {
                Some(i) => i < self.keys@.len() && self.keys@[i as int]@ == key@ && self@.contains(
                    key@,
                ) && self@.get(key@) == self.values@[i as int]@,
                None => !self@.contains(key@),
            },
    {
        let mut i: usize = 0;
        while i < self.keys.len()
            invariant
                self.wf(),
                i <= self.keys@.len(),
                forall|j: int| 0 <= j < i ==> self.keys@[j]@ != key@,
            decreases self.keys@.len() - i,
        {
            if self.keys[i].as_str().eq(key) {
                proof {
                    self.lemma_entry(i as int);
                }
                return Some(i);
            }
            i += 1;
        }
        proof {
            if self@.contains(key@) {
                let j = self.lemma_position(key@);
            }
        }
        None
    }

    /// Whether `key` has a value.
    pub fn contains_key(&self, key: &str) -> (found: bool)
        requires
            self.wf(),
        ensures
            found == self@.contains(key@),
    {
        self.position(key).is_some()
    }

    /// The value under `key`, if any.
    pub fn get(&self, key: &str) -> (value: Option<&V>)
        requires
            self.wf(),
        ensures
            match value {
                Some(v) => self@.contains(key@) && v@ == self@.get(key@),
                None => !self@.contains(key@),
            },
    {
        match self.position(key) {
            Some(i) => Some(&self.values[i]),
            None => None,
        }
    }

    /// Puts `value` under `key`, replacing what was there, and returns the
    /// position of the entry.
    pub fn insert(&mut self, key: String, value: V) -> (index: usize)
        requires
            old(self).wf(),
        ensures
            final(self).wf(),
            final(self)@.wf(),
            final(self)@ == old(self)@.insert(key@, value@),
            index < final(self).keys@.len(),
            final(self).keys@[index as int]@ == key@,
            final(self).values@ == if old(self)@.contains(key@) {
                old(self).values@.update(index as int, value)
            } else {
                old(self).values@.push(value)
            },
    {
        let ghost before = *self;
        match self.position(key.as_str()) {
            Some(i) => {
                self.values[i] = value;
                proof {
                    Self::lemma_value_set(&before, self, i as int);
                    assert(self.values@ =~= before.values@.update(i as int, value));
                }
                i
            },
            None => {
                let index = self.keys.len();
                self.keys.push(key);
                self.values.push(value);
                proof {
                    Self::lemma_entry_added(&before, self, key, value);
                }
                index
            },
        }
    }
}

/// The sum of a list of amounts.
pub open spec fn sum_of(amounts: Seq<u64>) -> nat
    decreases amounts.len(),
{
    if amounts.len() == 0 {
        0
    } else {
        sum_of(amounts.drop_last()) + amounts.last() as nat
    }
}

/// No amount of a list exceeds the sum of the list.
pub proof fn lemma_sum_of_bounds(amounts: Seq<u64>, i: int)
    requires
        0 <= i < amounts.len(),
    ensures
        amounts[i] <= sum_of(amounts),
        sum_of(amounts) <= amounts.len() * u64::MAX,
    decreases amounts.len(),
{
    let rest = amounts.drop_last();
    let n = rest.len();
    if i < n {
        lemma_sum_of_bounds(rest, i);
    } else if n > 0 {
        lemma_sum_of_bounds(rest, 0);
    }
    assert(sum_of(rest) <= n * u64::MAX) by {
        if n == 0 {
            assert(sum_of(rest) == 0);
            assert(n * u64::MAX == 0) by (nonlinear_arith)
                requires
                    n == 0,
            ;
        }
    }
    assert((n + 1) * u64::MAX == n * u64::MAX + u64::MAX) by (nonlinear_arith);
    assert(amounts.len() == n + 1);
}

/// The amounts of a table, each raised by `amount` and held at the largest
/// representable amount.
pub open spec fn raised_by(amounts: TableView<u64>, amount: u64) -> TableView<u64> {
    amounts.map_values(|held: u64| crate::economy::sat_add(held, amount))
}

/// The counters of a table after each of the first `n` of `keys` has been
/// counted once; a key without a counter starts one.
pub open spec fn counted(counters: TableView<u64>, keys: Seq<Seq<char>>, n: nat) -> TableView<u64>
    decreases n,
{
    if n == 0 {
        counters
    } else {
        let earlier = counted(counters, keys, (n - 1) as nat);
        earlier.insert(keys[n - 1], crate::economy::sat_add(earlier.get_or(keys[n - 1], 0), 1))
    }
}

impl Table<u64> {
    /// Raises every amount by `amount`.
    pub fn raise_all(&mut self, amount: u64)
        requires
            old(self).wf(),
        ensures
            final(self).wf(),
            final(self).keys == old(self).keys,
            final(self)@ == raised_by(old(self)@, amount),
    {
        let ghost before = *self;
        let mut i: usize = 0;
        while i < self.values.len()
            invariant
                before.wf(),
                i <= self.values@.len(),
                self.keys == before.keys,
                self.values@.len() == before.values@.len(),
                forall|j: int|
                    0 <= j < i ==> self.values@[j] == crate::economy::sat_add(
                        before.values@[j],
                        amount,
                    ),
                forall|j: int| i <= j < self.values@.len() ==> self.values@[j] == before.values@[j],
            decreases self.values@.len() - i,
        {
            let held: u64 = self.values[i];
            self.values[i] = held.saturating_add(amount);
            i += 1;
        }
        proof {
            Self::lemma_values_mapped(
                &before,
                self,
                |held: u64| crate::economy::sat_add(held, amount),
            );
        }
    }

    /// Counts each of `keys` once.
    pub fn count_each(&mut self, keys: &Vec<String>)
        requires
            old(self).wf(),
        ensures
            final(self).wf(),
            final(self)@ == counted(
                old(self)@,
                Seq::new(keys@.len(), |i: int| keys@[i]@),
                keys@.len(),
            ),
    {
        let ghost before = self@;
        let ghost names = Seq::new(keys@.len(), |i: int| keys@[i]@);
        let mut i: usize = 0;
        while i < keys.len()
            invariant
                self.wf(),
                i <= keys@.len(),
                names == Seq::new(keys@.len(), |i: int| keys@[i]@),
                self@ == counted(before, names, i as nat),
            decreases keys@.len() - i,
        {
            self.credit(keys[i].as_str(), 1);
            i += 1;
        }
    }

    /// The amount under `key`: nothing for an unknown key.
    pub fn amount(&self, key: &str) -> (amount: u64)
        requires
            self.wf(),
        ensures
            amount == self@.get_or(key@, 0),
    {
        match self.position(key) {
            Some(i) => self.values[i],
            None => 0,
        }
    }

    /// Adds `amount` to what stands under `key`, starting from nothing for
    /// an unknown key. The sum is held at the largest representable amount.
    pub fn credit(&mut self, key: &str, amount: u64)
        requires
            old(self).wf(),
        ensures
            final(self).wf(),
            final(self)@.wf(),
            final(self)@ == old(self)@.insert(
                key@,
                crate::economy::sat_add(old(self)@.get_or(key@, 0), amount),
            ),
    {
        let ghost before = *self;
        match self.position(key) {
            Some(i) => {
                self.values[i] = self.values[i].saturating_add(amount);
                proof {
                    Self::lemma_value_set(&before, self, i as int);
                }
            },
            None => {
                self.insert(key.to_owned(), amount);
            },
        }
    }

    /// The sum of all amounts.
    pub fn total(&self) -> (total: u128)
        requires
            self.wf(),
        ensures
            total == sum_of(self@.values()),
            forall|i: int| 0 <= i < self.values@.len() ==> self.values@[i] <= total,
    {
        let mut total: u128 = 0;
        let mut i: usize = 0;
        proof {
            self.lemma_values();
        }
        while i < self.values.len()
            invariant
                self.wf(),
                i <= self.values@.len(),
                self@.values() == self.values@,
                total == sum_of(self.values@.take(i as int)),
                total <= i * u64::MAX,
            decreases self.values@.len() - i,
        {
            proof {
                assert(self.values@.take(i + 1).drop_last() =~= self.values@.take(i as int));
                assert((i + 1) * u64::MAX == i * u64::MAX + u64::MAX) by (nonlinear_arith);
                assert(i * u64::MAX <= usize::MAX * u64::MAX) by (nonlinear_arith)
                    requires
                        i <= usize::MAX,
                ;
            }
            total = total + self.values[i] as u128;
            i += 1;
        }
        proof {
            assert(self.values@.take(i as int) =~= self.values@);
            assert forall|j: int| 0 <= j < self.values@.len() implies self.values@[j] <= total by {
                lemma_sum_of_bounds(self.values@, j);
            }
        }
        total
    }
}

impl<V: View> Table<V> {
    /// A table with the keys of `before`, each of whose values is the image
    /// under `f` of the value that `before` holds there, is `before` mapped
    /// by `f`.
    pub proof fn lemma_values_mapped(before: &Self, after: &Self, f: spec_fn(V::V) -> V::V)
        requires
            before.wf(),
            after.keys@ == before.keys@,
            after.values@.len() == before.values@.len(),
            forall|j: int|
                0 <= j < before.values@.len() ==> after.values@[j]@ == f(before.values@[j]@),
        ensures
            after.wf(),
            after@.wf(),
            after@ == before@.map_values(f),
    {
        assert(after.key_views() =~= before.key_views());
        let expect = before@.map_values(f);
        assert forall|k: Seq<char>| #[trigger] after@.map.contains_key(k) implies after@.map[k]
            == expect.map[k] by {
            let j = after.key_views().index_of(k);
            assert(0 <= j < after.key_views().len() && after.key_views()[j] == k);
        }
        assert(after@.map =~= expect.map);
    }

    /// The values of the view, in order, are the views of the stored values.
    pub proof fn lemma_values(&self)
        requires
            self.wf(),
        ensures
            self@.values() == Seq::new(self.values@.len(), |i: int| self.values@[i]@),
    {
        assert forall|i: int| 0 <= i < self.keys@.len() implies self@.map[self@.order[i]]
            == self.values@[i]@ by {
            self.lemma_entry(i);
        }
        assert(self@.values() =~= Seq::new(self.values@.len(), |i: int| self.values@[i]@));
    }
}

} // verus!
