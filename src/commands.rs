//! The hub's table of command handles, one per registered job, through which
//! it can reach that job's connection.

use vstd::prelude::*;
use crate::job::JobId;

verus! {

/// Handles keyed by job name; at most one handle per name.
pub struct CommandTable<H> {
    entries: Vec<(JobId, H)>,
}

impl<H> CommandTable<H> {
    /// The entries as (name, handle) pairs.
    pub closed spec fn pairs(&self) -> Seq<(Seq<char>, H)> {
        self.entries@.map_values(|e: (JobId, H)| (e.0@, e.1))
    }

    /// No name occurs twice.
    pub closed spec fn wf(&self) -> bool {
        forall|i: int, j: int|
            0 <= i < j < self.pairs().len() ==> self.pairs()[i].0 != self.pairs()[j].0
    }

    /// The table as a map from job name to handle.
    pub closed spec fn handles(&self) -> Map<Seq<char>, H> {
        Map::new(
            |k: Seq<char>| exists|i: int| 0 <= i < self.pairs().len() && self.pairs()[i].0 == k,
            |k: Seq<char>|
                self.pairs()[choose|i: int| 0 <= i < self.pairs().len() && self.pairs()[i].0 == k].1,
        )
    }

    proof fn lemma_entry(&self, i: int)
        requires
            self.wf(),
            0 <= i < self.pairs().len(),
        ensures
            self.handles().dom().contains(self.pairs()[i].0),
            self.handles()[self.pairs()[i].0] == self.pairs()[i].1,
    {
        let k = self.pairs()[i].0;
        assert(self.handles().dom().contains(k));
        let c = choose|c: int| 0 <= c < self.pairs().len() && self.pairs()[c].0 == k;
        assert(c == i);
    }

    /// An empty table.
    pub fn new() -> (r: CommandTable<H>)
        ensures
            r.wf(),
            r.handles() == Map::<Seq<char>, H>::empty(),
    {
        let r = CommandTable { entries: Vec::new() };
        assert(r.handles() =~= Map::<Seq<char>, H>::empty());
        r
    }

    /// The position of the entry named `id`.
    fn position(&self, id: &JobId) -> (r: Option<usize>)
        requires
            self.wf(),
        ensures
            r matches Some(i) ==> i < self.pairs().len() && self.pairs()[i as int].0 == id@,
            r is None ==> !self.handles().dom().contains(id@),
    {
        let mut i: usize = 0;
        while i < self.entries.len()
            invariant
                i <= self.entries@.len(),
                forall|j: int| 0 <= j < i ==> self.pairs()[j].0 != id@,
            decreases self.entries@.len() - i,
        {
            if self.entries[i].0.0 == id.0 {
                return Some(i);
            }
            i = i + 1;
        }
        None
    }

    /// Records `handle` for the job named `id`, replacing an earlier one.
    pub fn record(&mut self, id: JobId, handle: H)
        requires
            old(self).wf(),
        ensures
            final(self).wf(),
            final(self).handles() == old(self).handles().insert(id@, handle),
    {
        let ghost k = id@;
        let ghost before = self.handles();
        match self.position(&id) {
            Some(i) => {
                self.entries.set(i, (id, handle));
                assert(self.pairs() =~= old(self).pairs().update(i as int, (k, handle)));
            },
            None => {
                self.entries.push((id, handle));
                assert(self.pairs() =~= old(self).pairs().push((k, handle)));
            },
        }
        assert forall|a: int, b: int| 0 <= a < b < self.pairs().len() implies self.pairs()[a].0
            != self.pairs()[b].0 by {
            if a < old(self).pairs().len() && b < old(self).pairs().len() {
            } else {
                if self.pairs()[a].0 == self.pairs()[b].0 {
                    old(self).lemma_entry(a);
                }
            }
        }
        assert forall|x: Seq<char>| #[trigger] self.handles().dom().contains(x) <==> before.insert(
            k,
            handle,
        ).dom().contains(x) by {
            if before.dom().contains(x) {
                let j = choose|j: int| 0 <= j < old(self).pairs().len() && old(self).pairs()[j].0 == x;
                assert(self.pairs()[j].0 == x || self.pairs()[j].0 == k);
            }
            if self.handles().dom().contains(x) && x != k {
                let j = choose|j: int| 0 <= j < self.pairs().len() && self.pairs()[j].0 == x;
                assert(old(self).pairs()[j].0 == x);
            }
            if x == k {
                assert(self.pairs()[self.pairs().len() - 1].0 == k || exists|j: int|
                    0 <= j < self.pairs().len() && self.pairs()[j].0 == k);
            }
        }
        assert forall|x: Seq<char>| #[trigger] self.handles().dom().contains(x) implies self.handles()[x]
            == before.insert(k, handle)[x] by {
            let j = choose|j: int| 0 <= j < self.pairs().len() && self.pairs()[j].0 == x;
            self.lemma_entry(j);
            if x != k {
                assert(old(self).pairs()[j] == self.pairs()[j]);
                old(self).lemma_entry(j);
            }
        }
        assert(self.handles() =~= before.insert(k, handle));
    }

    /// Removes and returns the handle of the job named `id`, if there is one.
    pub fn forget(&mut self, id: &JobId) -> (r: Option<H>)
        requires
            old(self).wf(),
        ensures
            final(self).wf(),
            final(self).handles() == old(self).handles().remove(id@),
            r == if old(self).handles().dom().contains(id@) {
                Some(old(self).handles()[id@])
            } else {
                None
            },
    {
        let ghost before = self.handles();
        match self.position(id) {
            Some(i) => {
                proof {
                    old(self).lemma_entry(i as int);
                }
                let (_, handle) = self.entries.remove(i);
                assert(self.pairs() =~= old(self).pairs().remove(i as int));
                assert forall|x: Seq<char>| #[trigger] self.handles().dom().contains(x)
                    <==> before.remove(id@).dom().contains(x) by {
                    if before.dom().contains(x) && x != id@ {
                        let j = choose|j: int|
                            0 <= j < old(self).pairs().len() && old(self).pairs()[j].0 == x;
                        if j < i {
                            assert(self.pairs()[j].0 == x);
                        } else {
                            assert(self.pairs()[j - 1].0 == x);
                        }
                    }
                    if self.handles().dom().contains(x) {
                        let j = choose|j: int| 0 <= j < self.pairs().len() && self.pairs()[j].0 == x;
                        if j < i {
                            assert(old(self).pairs()[j].0 == x);
                        } else {
                            assert(old(self).pairs()[j + 1].0 == x);
                        }
                    }
                }
                assert forall|x: Seq<char>| #[trigger] self.handles().dom().contains(x) implies self.handles()[x]
                    == before.remove(id@)[x] by {
                    let j = choose|j: int| 0 <= j < self.pairs().len() && self.pairs()[j].0 == x;
                    self.lemma_entry(j);
                    if j < i {
                        old(self).lemma_entry(j);
                    } else {
                        old(self).lemma_entry(j + 1);
                    }
                }
                assert(self.handles() =~= before.remove(id@));
                Some(handle)
            },
            None => {
                assert(before.remove(id@) =~= before);
                None
            },
        }
    }

    /// The handle of the job named `id`, if there is one.
    pub fn get(&self, id: &JobId) -> (r: Option<&H>)
        requires
            self.wf(),
        ensures
            r == if self.handles().dom().contains(id@) {
                Some(&self.handles()[id@])
            } else {
                None
            },
    {
        match self.position(id) {
            Some(i) => {
                proof {
                    self.lemma_entry(i as int);
                }
                Some(&self.entries[i].1)
            },
            None => None,
        }
    }
}

} // verus!
