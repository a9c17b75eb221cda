//! Records kept under distinct addresses.
use vstd::prelude::*;
use crate::address::Address;

verus! {

/// Whether some row is kept under `k`.
pub(crate) open spec fn has_key<V>(rows: Seq<(Address, V)>, k: Address) -> bool {
    exists|i: int| 0 <= i < rows.len() && (#[trigger] rows[i]).0 == k
}

/// The place of a row kept under `k`.
pub(crate) open spec fn index_of<V>(rows: Seq<(Address, V)>, k: Address) -> int {
    choose|i: int| 0 <= i < rows.len() && (#[trigger] rows[i]).0 == k
}

/// No two rows are kept under one address.
pub(crate) open spec fn distinct_keys<V>(rows: Seq<(Address, V)>) -> bool {
    forall|i: int, j: int|
        0 <= i < j < rows.len() ==> (#[trigger] rows[i]).0 != (#[trigger] rows[j]).0
}

/// The rows as a map from address to record.
pub(crate) open spec fn rows_map<V>(rows: Seq<(Address, V)>) -> Map<Address, V> {
    Map::new(|k: Address| has_key(rows, k), |k: Address| rows[index_of(rows, k)].1)
}

/// Row `i` is what the map holds under its address.
pub(crate) proof fn lemma_row<V>(rows: Seq<(Address, V)>, i: int)
    requires
        distinct_keys(rows),
        0 <= i < rows.len(),
    ensures
        rows_map(rows).contains_key(rows[i].0),
        rows_map(rows)[rows[i].0] == rows[i].1,
        index_of(rows, rows[i].0) == i,
{
    let k = rows[i].0;
    assert(has_key(rows, k));
    let j = index_of(rows, k);
    assert(0 <= j < rows.len() && rows[j].0 == k);
    if j < i {
        assert(rows[j].0 != rows[i].0);
    }
    if i < j {
        assert(rows[i].0 != rows[j].0);
    }
}

/// A row appended under a fresh address is an insertion into the map.
pub(crate) proof fn lemma_push<V>(rows: Seq<(Address, V)>, k: Address, v: V)
    requires
        distinct_keys(rows),
        !has_key(rows, k),
    ensures
        distinct_keys(rows.push((k, v))),
        rows_map(rows.push((k, v))) == rows_map(rows).insert(k, v),
{
    let next = rows.push((k, v));
    assert forall|i: int, j: int| 0 <= i < j < next.len() implies (#[trigger] next[i]).0 != (
    #[trigger] next[j]).0 by {
        if j < rows.len() {
            assert(rows[i].0 != rows[j].0);
        } else {
            assert(rows[i].0 != k);
        }
    }
    assert forall|a: Address| #[trigger] rows_map(next).contains_key(a) == rows_map(rows).insert(k, v).contains_key(a) by {
        if has_key(next, a) {
            let i = index_of(next, a);
            if i < rows.len() {
                assert(rows[i].0 == a);
            }
        }
        if has_key(rows, a) {
            let i = index_of(rows, a);
            assert(next[i].0 == a);
        }
        if a == k {
            assert(next[rows.len() as int].0 == a);
        }
    }
    assert forall|a: Address| #[trigger] rows_map(next).contains_key(a) implies rows_map(next)[a] == rows_map(rows).insert(k, v)[a] by {
        let i = index_of(next, a);
        lemma_row(next, i);
        if i < rows.len() {
            assert(rows[i] == next[i]);
            lemma_row(rows, i);
        }
    }
    assert(rows_map(next) =~= rows_map(rows).insert(k, v));
}

/// A record replaced in place is an insertion under the same address.
pub(crate) proof fn lemma_update<V>(rows: Seq<(Address, V)>, i: int, v: V)
    requires
        distinct_keys(rows),
        0 <= i < rows.len(),
    ensures
        distinct_keys(rows.update(i, (rows[i].0, v))),
        rows_map(rows.update(i, (rows[i].0, v))) == rows_map(rows).insert(rows[i].0, v),
{
    let k = rows[i].0;
    let next = rows.update(i, (k, v));
    assert forall|a: int, b: int| 0 <= a < b < next.len() implies (#[trigger] next[a]).0 != (
    #[trigger] next[b]).0 by {
        assert(rows[a].0 != rows[b].0);
    }
    assert forall|a: Address| #[trigger] rows_map(next).contains_key(a) == rows_map(rows).insert(k, v).contains_key(a) by {
        if has_key(next, a) {
            let j = index_of(next, a);
            assert(rows[j].0 == a);
        }
        if has_key(rows, a) {
            let j = index_of(rows, a);
            assert(next[j].0 == a);
        }
        if a == k {
            assert(next[i].0 == a);
        }
    }
    assert forall|a: Address| #[trigger] rows_map(next).contains_key(a) implies rows_map(next)[a] == rows_map(rows).insert(k, v)[a] by {
        let j = index_of(next, a);
        lemma_row(next, j);
        if j != i {
            assert(rows[j] == next[j]);
            lemma_row(rows, j);
            lemma_row(rows, i);
        }
    }
    assert(rows_map(next) =~= rows_map(rows).insert(k, v));
}

/// A row taken out is a removal from the map.
pub(crate) proof fn lemma_remove<V>(rows: Seq<(Address, V)>, i: int)
    requires
        distinct_keys(rows),
        0 <= i < rows.len(),
    ensures
        distinct_keys(rows.remove(i)),
        rows_map(rows.remove(i)) == rows_map(rows).remove(rows[i].0),
{
    let k = rows[i].0;
    let next = rows.remove(i);
    assert forall|a: int, b: int| 0 <= a < b < next.len() implies (#[trigger] next[a]).0 != (
    #[trigger] next[b]).0 by {
        let a0 = if a < i { a } else { a + 1 };
        let b0 = if b < i { b } else { b + 1 };
        assert(next[a] == rows[a0]);
        assert(next[b] == rows[b0]);
        assert(rows[a0].0 != rows[b0].0);
    }
    assert forall|a: Address| #[trigger] rows_map(next).contains_key(a) == rows_map(rows).remove(k).contains_key(a) by {
        if has_key(next, a) {
            let j = index_of(next, a);
            let j0 = if j < i { j } else { j + 1 };
            assert(next[j] == rows[j0]);
            assert(rows[j0].0 == a);
            if a == k {
                lemma_row(rows, i);
                lemma_row(rows, j0);
            }
        }
        if has_key(rows, a) && a != k {
            let j = index_of(rows, a);
            let j1 = if j < i { j } else { j - 1 };
            assert(next[j1] == rows[j]);
            assert(next[j1].0 == a);
        }
    }
    assert forall|a: Address| #[trigger] rows_map(next).contains_key(a) implies rows_map(next)[a] == rows_map(rows).remove(k)[a] by {
        let j = index_of(next, a);
        lemma_row(next, j);
        let j0 = if j < i { j } else { j + 1 };
        assert(next[j] == rows[j0]);
        lemma_row(rows, j0);
    }
    assert(rows_map(next) =~= rows_map(rows).remove(k));
}

/// Records kept under distinct addresses, in the order in which they came.
pub(crate) struct Table<V> {
    rows: Vec<(Address, V)>,
}

impl<V: Copy> Table<V> {
    /// The rows, oldest first.
    pub(crate) closed spec fn rows(&self) -> Seq<(Address, V)> {
        self.rows@
    }

    /// No address occurs twice.
    pub(crate) open spec fn wf(&self) -> bool {
        distinct_keys(self.rows())
    }

    /// The table as a map.
    pub(crate) open spec fn view(&self) -> Map<Address, V> {
        rows_map(self.rows())
    }

    /// An empty table.
    pub(crate) fn new() -> (t: Self)
        ensures
            t.wf(),
            t.rows() == Seq::<(Address, V)>::empty(),
            t@ == Map::<Address, V>::empty(),
    {
        let t = Table { rows: Vec::new() };
        assert(t@ =~= Map::<Address, V>::empty());
        t
    }

    /// The number of rows.
    pub(crate) fn len(&self) -> (n: usize)
        ensures
            n == self.rows().len(),
    {
        self.rows.len()
    }

    /// The row at place `i`.
    pub(crate) fn row(&self, i: usize) -> (r: (Address, V))
        requires
            i < self.rows().len(),
        ensures
            r == self.rows()[i as int],
    {
        self.rows[i]
    }

    /// The place of the row kept under `k`, if there is one.
    pub(crate) fn position(&self, k: &Address) -> (r: Option<usize>)
        requires
            self.wf(),
        ensures
            r is Some <==> self@.contains_key(*k),
            r matches Some(i) ==> i < self.rows().len() && self.rows()[i as int] == (*k, self@[*k]),
    {
        let mut i: usize = 0;
        while i < self.rows.len()
            invariant
                self.wf(),
                i <= self.rows@.len(),
                forall|j: int| 0 <= j < i ==> (#[trigger] self.rows@[j]).0 != *k,
            decreases self.rows@.len() - i,
        {
            if self.rows[i].0 == *k {
                proof {
                    lemma_row(self.rows@, i as int);
                }
                return Some(i);
            }
            i += 1;
        }
        None
    }

    /// The record kept under `k`, if there is one.
    pub(crate) fn get(&self, k: &Address) -> (r: Option<V>)
        requires
            self.wf(),
        ensures
            r == (if self@.contains_key(*k) { Some(self@[*k]) } else { None }),
    {
        match self.position(k) {
            Some(i) => Some(self.rows[i].1),
            None => None,
        }
    }

    /// Keeps `v` under the fresh address `k`.
    pub(crate) fn insert(&mut self, k: Address, v: V)
        requires
            old(self).wf(),
            !old(self)@.contains_key(k),
        ensures
            final(self).wf(),
            final(self).rows() == old(self).rows().push((k, v)),
            final(self)@ == old(self)@.insert(k, v),
    {
        proof {
            lemma_push(self.rows@, k, v);
        }
        self.rows.push((k, v));
    }

    /// Replaces the record at place `i`.
    pub(crate) fn set(&mut self, i: usize, v: V)
        requires
            old(self).wf(),
            i < old(self).rows().len(),
        ensures
            final(self).wf(),
            final(self).rows() == old(self).rows().update(i as int, (old(self).rows()[i as int].0, v)),
            final(self)@ == old(self)@.insert(old(self).rows()[i as int].0, v),
    {
        proof {
            lemma_update(self.rows@, i as int, v);
        }
        let k = self.rows[i].0;
        self.rows[i] = (k, v);
    }

    /// Takes out the row at place `i`.
    pub(crate) fn remove(&mut self, i: usize)
        requires
            old(self).wf(),
            i < old(self).rows().len(),
        ensures
            final(self).wf(),
            final(self).rows() == old(self).rows().remove(i as int),
            final(self)@ == old(self)@.remove(old(self).rows()[i as int].0),
    {
        proof {
            lemma_remove(self.rows@, i as int);
        }
        self.rows.remove(i);
    }
}

} // verus!
