use vstd::prelude::*;

verus! {

/// The documents whose ingestion is in flight. A document is admitted only
/// while it is not in the table, so at most one run per document is under
/// way at any time.
pub struct LeaseTable {
    held: Vec<u128>,
}

impl View for LeaseTable {
    type V = Set<u128>;

    closed spec fn view(&self) -> Set<u128> {
        Set::new(|id: u128| self.held@.contains(id))
    }
}

/// What a request for the lease of `id` gets while `held` are in flight, and
/// what is in flight afterwards.
pub open spec fn acquire_outcome(held: Set<u128>, id: u128) -> (bool, Set<u128>) {
    (!held.contains(id), held.insert(id))
}

/// What is in flight after the lease of `id` is given back.
pub open spec fn release_outcome(held: Set<u128>, id: u128) -> Set<u128> {
    held.remove(id)
}

impl LeaseTable {
    /// A table with nothing in flight.
    pub fn new() -> (table: LeaseTable)
        ensures
            table@ == Set::<u128>::empty(),
    {
        let table = LeaseTable { held: Vec::new() };
        assert(table@ =~= Set::<u128>::empty());
        table
    }

    /// Tells whether a run for `id` is in flight.
    pub fn is_held(&self, id: u128) -> (held: bool)
        ensures
            held == self@.contains(id),
    {
        let mut i: usize = 0;
        while i < self.held.len()
            invariant
                i <= self.held.len(),
                forall|j: int| 0 <= j < i ==> self.held@[j] != id,
            decreases self.held.len() - i,
        {
            if self.held[i] == id {
                return true;
            }
            i = i + 1;
        }
        false
    }

    /// Asks for the lease of `id`. It is granted exactly when no run for
    /// `id` is in flight; either way `id` is in flight afterwards.
    pub fn try_acquire(&mut self, id: u128) -> (granted: bool)
        ensures
            (granted, final(self)@) == acquire_outcome(old(self)@, id),
    {
        if self.is_held(id) {
            assert(self@ =~= self@.insert(id));
            false
        } else {
            let ghost before = self.held@;
            self.held.push(id);
            assert forall|x: u128| self.held@.contains(x) <==> (before.contains(x) || x == id) by {
                if before.contains(x) {
                    let j = choose|j: int| 0 <= j < before.len() && before[j] == x;
                    assert(self.held@[j] == x);
                }
                if x == id {
                    assert(self.held@[before.len() as int] == id);
                }
            }
            assert(self@ =~= old(self)@.insert(id));
            true
        }
    }

    /// Gives the lease of `id` back: no run for `id` is in flight
    /// afterwards, and the other leases stay.
    pub fn release(&mut self, id: u128)
        ensures
            final(self)@ == release_outcome(old(self)@, id),
    {
        let mut kept: Vec<u128> = Vec::new();
        let mut i: usize = 0;
        while i < self.held.len()
            invariant
                i <= self.held.len(),
                forall|x: u128|
                    kept@.contains(x) <==> (x != id && self.held@.take(i as int).contains(x)),
            decreases self.held.len() - i,
        {
            let ghost before = kept@;
            let ghost seen = self.held@.take(i as int);
            let ghost next = self.held@.take(i + 1);
            let v = self.held[i];
            if v != id {
                kept.push(v);
            }
            i = i + 1;
            proof {
                assert(next == self.held@.take(i as int));
                assert forall|x: u128|
                    kept@.contains(x) <==> (x != id && self.held@.take(i as int).contains(x)) by {
                    if kept@.contains(x) {
                        let j = choose|j: int| 0 <= j < kept@.len() && kept@[j] == x;
                        if j < before.len() {
                            assert(before[j] == x);
                            assert(before.contains(x));
                            let m = choose|m: int| 0 <= m < seen.len() && seen[m] == x;
                            assert(next[m] == x);
                        } else {
                            assert(next[i - 1] == x);
                        }
                    }
                    if x != id && next.contains(x) {
                        let m = choose|m: int| 0 <= m < next.len() && next[m] == x;
                        if m < i - 1 {
                            assert(seen[m] == x);
                            assert(before.contains(x));
                            let j = choose|j: int| 0 <= j < before.len() && before[j] == x;
                            assert(kept@[j] == x);
                        } else {
                            assert(kept@[before.len() as int] == x);
                        }
                    }
                }
            }
        }
        assert(self.held@.take(self.held.len() as int) =~= self.held@);
        self.held = kept;
        assert(self@ =~= old(self)@.remove(id));
    }
}

/// While a run for a document is in flight, a second request for the same
/// document is refused, whatever other documents come and go in between;
/// once the lease is given back the document is admitted again.
pub proof fn lemma_single_flight(held: Set<u128>, id: u128, other: u128)
    requires
        other != id,
    ensures
        acquire_outcome(acquire_outcome(held, id).1, id).0 == false,
        acquire_outcome(acquire_outcome(acquire_outcome(held, id).1, other).1, id).0 == false,
        acquire_outcome(release_outcome(acquire_outcome(held, id).1, other), id).0 == false,
        acquire_outcome(release_outcome(acquire_outcome(held, id).1, id), id).0 == true,
{
}

} // verus!
