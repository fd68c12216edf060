//! The connection table: a mapping from four-tuple to connection,
//! lifecycle-managed by insert-on-SYN and remove-on-terminal-state.
//! Its model is a `Map` from `Quad` to the connection model, and every
//! stored connection is well formed and keyed by its own quad.

use vstd::prelude::*;

use crate::conn::{Connection, ConnView, Quad};

verus! {

pub struct ConnectionTable {
    entries: Vec<(Quad, Connection)>,
}

impl ConnectionTable {
    /// Some entry carries the quad.
    pub closed spec fn has_quad(self, q: Quad) -> bool {
        exists|i: int| 0 <= i < self.entries@.len() && (#[trigger] self.entries@[i]).0 == q
    }

    /// The index of the entry carrying the quad (unique when the table
    /// is well formed).
    pub closed spec fn index_of(self, q: Quad) -> int {
        choose|i: int| 0 <= i < self.entries@.len() && (#[trigger] self.entries@[i]).0 == q
    }

    /// The connection model stored under the quad.
    pub closed spec fn conn_at(self, q: Quad) -> ConnView {
        self.entries@[self.index_of(q)].1@
    }

    /// The table as a map from quad to connection model.
    pub open spec fn contents(self) -> Map<Quad, ConnView> {
        Map::new(|q: Quad| self.has_quad(q), |q: Quad| self.conn_at(q))
    }

    /// Each quad maps to exactly one live connection; every stored
    /// connection is well formed and belongs to the quad it is keyed by.
    pub closed spec fn well_formed(self) -> bool {
        &&& forall|i: int, j: int| 0 <= i < j < self.entries@.len()
            ==> (#[trigger] self.entries@[i]).0 != (#[trigger] self.entries@[j]).0
        &&& forall|i: int| 0 <= i < self.entries@.len()
            ==> (#[trigger] self.entries@[i]).1@.wf() && self.entries@[i].1@.quad == self.entries@[i].0
    }

    proof fn lemma_at_index(self, i: int)
        requires
            self.well_formed(),
            0 <= i < self.entries@.len(),
        ensures
            self.has_quad(self.entries@[i].0),
            self.index_of(self.entries@[i].0) == i,
            self.contents().contains_key(self.entries@[i].0),
            self.contents()[self.entries@[i].0] == self.entries@[i].1@,
    {
        let q = self.entries@[i].0;
        assert(self.has_quad(q));
        let j = self.index_of(q);
        assert(0 <= j < self.entries@.len() && self.entries@[j].0 == q);
        if i != j {
            if i < j {
                assert(self.entries@[i].0 != self.entries@[j].0);
            } else {
                assert(self.entries@[j].0 != self.entries@[i].0);
            }
        }
    }

    /// An empty table.
    pub fn new() -> (r: ConnectionTable)
        ensures
            r.well_formed(),
            r.contents() == Map::<Quad, ConnView>::empty(),
    {
        let r = ConnectionTable { entries: Vec::new() };
        proof {
            assert(r.contents() =~= Map::<Quad, ConnView>::empty());
        }
        r
    }

    fn find(&self, q: Quad) -> (r: Option<usize>)
        ensures
            match r {
                Some(i) => i < self.entries@.len() && self.entries@[i as int].0 == q,
                None => !self.has_quad(q),
            },
    {
        let n = self.entries.len();
        let mut i: usize = 0;
        while i < n
            invariant
                n == self.entries@.len(),
                i <= n,
                forall|j: int| 0 <= j < i ==> (#[trigger] self.entries@[j]).0 != q,
            decreases n - i,
        {
            if self.entries[i].0 == q {
                return Some(i);
            }
            i += 1;
        }
        None
    }

    /// Look the quad up; `None` when no connection exists for it.
    pub fn lookup_or_none(&self, q: Quad) -> (r: Option<&Connection>)
        requires
            self.well_formed(),
        ensures
            match r {
                Some(c) => self.contents().contains_key(q) && c@ == self.contents()[q],
                None => !self.contents().contains_key(q),
            },
    {
        match self.find(q) {
            Some(i) => {
                proof {
                    self.lemma_at_index(i as int);
                }
                Some(&self.entries[i].1)
            }
            None => None,
        }
    }

    /// Insert a connection under a quad not yet present.
    pub fn insert(&mut self, q: Quad, c: Connection)
        requires
            old(self).well_formed(),
            !old(self).contents().contains_key(q),
            c@.wf(),
            c@.quad == q,
        ensures
            final(self).well_formed(),
            final(self).contents() == old(self).contents().insert(q, c@),
    {
        let ghost old_table = *old(self);
        self.entries.push((q, c));
        proof {
            let s0 = old_table.entries@;
            let s1 = self.entries@;
            assert(s1 == s0.push((q, c)));
            assert forall|i: int, j: int| 0 <= i < j < s1.len()
                implies (#[trigger] s1[i]).0 != (#[trigger] s1[j]).0 by {
                if j < s0.len() {
                    assert(s0[i] == s1[i] && s0[j] == s1[j]);
                } else {
                    assert(s1[j].0 == q);
                    assert(s1[i] == s0[i]);
                    assert(old_table.has_quad(s0[i].0) == old_table.contents().contains_key(s0[i].0));
                    if s1[i].0 == q {
                        assert(old_table.has_quad(q));
                    }
                }
            }
            assert forall|i: int| 0 <= i < s1.len()
                implies (#[trigger] s1[i]).1@.wf() && s1[i].1@.quad == s1[i].0 by {
                if i < s0.len() {
                    assert(s0[i] == s1[i]);
                }
            }
            assert forall|q2: Quad| #[trigger] self.has_quad(q2)
                implies old_table.contents().insert(q, c@).contains_key(q2) by {
                let i = choose|i: int| 0 <= i < s1.len() && (#[trigger] s1[i]).0 == q2;
                if i < s0.len() {
                    assert(old_table.has_quad(q2));
                }
            }
            assert forall|q2: Quad| old_table.contents().insert(q, c@).contains_key(q2)
                implies #[trigger] self.has_quad(q2)
                    && self.conn_at(q2) == old_table.contents().insert(q, c@)[q2] by {
                if q2 == q {
                    assert(s1[s0.len() as int].0 == q);
                    self.lemma_at_index(s0.len() as int);
                } else {
                    let i = choose|i: int| 0 <= i < s0.len() && (#[trigger] s0[i]).0 == q2;
                    assert(s1[i] == s0[i]);
                    self.lemma_at_index(i);
                    old_table.lemma_at_index(i);
                }
            }
            assert(self.contents() =~= old_table.contents().insert(q, c@));
        }
    }

    /// Remove and return the connection stored under the quad, if any.
    pub fn remove(&mut self, q: Quad) -> (r: Option<Connection>)
        requires
            old(self).well_formed(),
        ensures
            final(self).well_formed(),
            match r {
                Some(c) => old(self).contents().contains_key(q) && c@ == old(self).contents()[q]
                    && c@.wf() && c@.quad == q
                    && final(self).contents() == old(self).contents().remove(q),
                None => !old(self).contents().contains_key(q)
                    && final(self).contents() == old(self).contents(),
            },
    {
        let found = self.find(q);
        match found {
            None => {
                proof {
                    assert(self.contents() =~= old(self).contents());
                }
                None
            }
            Some(i) => {
                proof {
                    old(self).lemma_at_index(i as int);
                }
                let ghost old_table = *old(self);
                let pair = self.entries.remove(i);
                proof {
                    let s0 = old_table.entries@;
                    let s1 = self.entries@;
                    let k = i as int;
                    assert(s1 == s0.remove(k));
                    assert(s1.len() == s0.len() - 1);
                    assert(forall|j: int| 0 <= j < k ==> s1[j] == s0[j]);
                    assert(forall|j: int| k <= j < s1.len() ==> s1[j] == s0[j + 1]);
                    assert forall|a: int, b: int| 0 <= a < b < s1.len()
                        implies (#[trigger] s1[a]).0 != (#[trigger] s1[b]).0 by {
                        let a0 = if a < k { a } else { a + 1 };
                        let b0 = if b < k { b } else { b + 1 };
                        assert(s1[a] == s0[a0] && s1[b] == s0[b0]);
                    }
                    assert forall|a: int| 0 <= a < s1.len()
                        implies (#[trigger] s1[a]).1@.wf() && s1[a].1@.quad == s1[a].0 by {
                        let a0 = if a < k { a } else { a + 1 };
                        assert(s1[a] == s0[a0]);
                    }
                    assert forall|q2: Quad| #[trigger] self.has_quad(q2)
                        implies old_table.contents().remove(q).contains_key(q2) by {
                        let a = choose|a: int| 0 <= a < s1.len() && (#[trigger] s1[a]).0 == q2;
                        let a0 = if a < k { a } else { a + 1 };
                        assert(s1[a] == s0[a0]);
                        assert(old_table.has_quad(q2));
                        if q2 == q {
                            old_table.lemma_at_index(a0);
                            assert(old_table.index_of(q) == k);
                        }
                    }
                    assert forall|q2: Quad| old_table.contents().remove(q).contains_key(q2)
                        implies #[trigger] self.has_quad(q2)
                            && self.conn_at(q2) == old_table.contents().remove(q)[q2] by {
                        let a0 = choose|a0: int| 0 <= a0 < s0.len() && (#[trigger] s0[a0]).0 == q2;
                        old_table.lemma_at_index(a0);
                        assert(a0 != k);
                        let a = if a0 < k { a0 } else { a0 - 1 };
                        assert(s1[a] == s0[a0]);
                        assert(self.has_quad(q2));
                        self.lemma_at_index(a);
                    }
                    assert(self.contents() =~= old_table.contents().remove(q));
                }
                Some(pair.1)
            }
        }
    }

    /// The quads of all live connections, for the caller driving the
    /// cooperative timer.
    pub fn quads(&self) -> (r: Vec<Quad>)
        requires
            self.well_formed(),
        ensures
            forall|i: int| 0 <= i < r@.len() ==> self.contents().contains_key(#[trigger] r@[i]),
            forall|q: Quad| #[trigger] self.contents().contains_key(q) ==> r@.contains(q),
    {
        let n = self.entries.len();
        let mut r: Vec<Quad> = Vec::new();
        let mut i: usize = 0;
        while i < n
            invariant
                self.well_formed(),
                n == self.entries@.len(),
                i <= n,
                r@.len() == i,
                forall|j: int| 0 <= j < i ==> r@[j] == (#[trigger] self.entries@[j]).0,
            decreases n - i,
        {
            r.push(self.entries[i].0);
            i += 1;
        }
        proof {
            assert forall|j: int| 0 <= j < r@.len()
                implies self.contents().contains_key(#[trigger] r@[j]) by {
                self.lemma_at_index(j);
            }
            assert forall|q: Quad| #[trigger] self.contents().contains_key(q)
                implies r@.contains(q) by {
                let j = self.index_of(q);
                assert(r@[j] == q);
            }
        }
        r
    }
}

} // verus!
