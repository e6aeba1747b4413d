//! A jobset store held in memory: records kept in ascending order of id.
use vstd::prelude::*;

use crate::model::Jobset;

verus! {

/// Why the store refused a write.
#[derive(Clone, Copy, Debug, PartialEq, Eq, Structural)]
pub enum StoreError {
    NotFound,
}

/// Whether `s` holds a record with id `id`.
pub open spec fn has_id(s: Seq<Jobset>, id: i32) -> bool {
    exists|k: int| 0 <= k < s.len() && (#[trigger] s[k]).id == Some(id)
}

/// The position of the record with id `id` in `s`, where `has_id(s, id)`.
pub open spec fn index_of(s: Seq<Jobset>, id: i32) -> int {
    choose|k: int| 0 <= k < s.len() && (#[trigger] s[k]).id == Some(id)
}

pub open spec fn in_project(project_id: i32) -> spec_fn(Jobset) -> bool {
    |j: Jobset| j.project_id == Some(project_id)
}

/// Every record has an id, and ids ascend strictly.
pub open spec fn ids_ascending(s: Seq<Jobset>) -> bool {
    &&& forall|k: int| 0 <= k < s.len() ==> (#[trigger] s[k]).id is Some
    &&& forall|a: int, b: int| 0 <= a < b < s.len() ==> s[a].id->0 < s[b].id->0
}

pub struct MemoryStore {
    jobsets: Vec<Jobset>,
}

impl MemoryStore {
    /// The stored records, in ascending order of id.
    pub closed spec fn records(&self) -> Seq<Jobset> {
        self.jobsets@
    }

    pub open spec fn wf(&self) -> bool {
        ids_ascending(self.records())
    }

    pub fn new() -> (r: MemoryStore)
        ensures
            r.wf(),
            r.records() == Seq::<Jobset>::empty(),
    {
        MemoryStore { jobsets: Vec::new() }
    }

    /// Adds a record under the next free id, one above the largest stored id
    /// (or 1 in an empty store); gives that id, or `None` when no id is left.
    pub fn create(&mut self, project_id: i32, name: String, description: String, flake: String) -> (r: Option<i32>)
        requires
            old(self).wf(),
        ensures
            final(self).wf(),
            r is None ==> final(self).records() == old(self).records(),
            r is Some ==> final(self).records() == old(self).records().push(Jobset {
                id: r,
                project_id: Some(project_id),
                name,
                description,
                flake,
                last_checked: None,
                last_evaluated: None,
                evaluation_took: None,
                state: Some(crate::model::JobsetState::UNKNOWN),
            }),
            r is Some ==> !has_id(old(self).records(), r->0),
    {
        let n = self.jobsets.len();
        let id: i32 = if n == 0 {
            1
        } else {
            let last = self.jobsets[n - 1].id.unwrap();
            if last == i32::MAX {
                return None;
            }
            last + 1
        };
        if id <= 0 {
            return None;
        }
        let j = Jobset::new(Some(id), Some(project_id), name, description, flake);
        self.jobsets.push(j);
        proof {
            assert(!has_id(old(self).records(), id));
        }
        Some(id)
    }

    /// The record with id `id`, if one is stored.
    pub fn get_jobset(&self, id: i32) -> (r: Option<Jobset>)
        requires
            self.wf(),
        ensures
            r is None <==> !has_id(self.records(), id),
            r is Some ==> r->0 == self.records()[index_of(self.records(), id)],
    {
        let mut i: usize = 0;
        while i < self.jobsets.len()
            invariant
                i <= self.jobsets@.len(),
                forall|k: int| 0 <= k < i ==> (#[trigger] self.jobsets@[k]).id != Some(id),
                ids_ascending(self.jobsets@),
            decreases self.jobsets@.len() - i,
        {
            if self.jobsets[i].id == Some(id) {
                proof {
                    assert(has_id(self.jobsets@, id));
                    let k = index_of(self.jobsets@, id);
                    if k < i {
                        assert(self.jobsets@[k].id->0 < self.jobsets@[i as int].id->0);
                    } else if k > i {
                        assert(self.jobsets@[i as int].id->0 < self.jobsets@[k].id->0);
                    }
                }
                return Some(self.jobsets[i].duplicate());
            }
            i = i + 1;
        }
        None
    }

    /// The records of project `project_id`, in ascending order of id.
    pub fn get_project_jobsets(&self, project_id: i32) -> (r: Vec<Jobset>)
        requires
            self.wf(),
        ensures
            r@ == self.records().filter(in_project(project_id)),
    {
        let mut r: Vec<Jobset> = Vec::new();
        let mut i: usize = 0;
        while i < self.jobsets.len()
            invariant
                i <= self.jobsets@.len(),
                r@ == self.jobsets@.take(i as int).filter(in_project(project_id)),
            decreases self.jobsets@.len() - i,
        {
            proof {
                assert(self.jobsets@.take(i + 1).drop_last() =~= self.jobsets@.take(i as int));
                reveal_with_fuel(Seq::filter, 1);
            }
            if self.jobsets[i].project_id == Some(project_id) {
                r.push(self.jobsets[i].duplicate());
            }
            i = i + 1;
        }
        proof {
            assert(self.jobsets@.take(i as int) =~= self.jobsets@);
        }
        r
    }

    /// Replaces the stored record that has the id of `j` by `j`; refuses a
    /// record whose id is not stored.
    pub fn update_jobset(&mut self, j: Jobset) -> (r: Result<(), StoreError>)
        requires
            old(self).wf(),
        ensures
            final(self).wf(),
            r is Err <==> (j.id is None || !has_id(old(self).records(), j.id->0)),
            r is Err ==> r == Err::<(), StoreError>(StoreError::NotFound) && final(self).records() == old(self).records(),
            r is Ok ==> final(self).records() == old(self).records().update(index_of(old(self).records(), j.id->0), j),
    {
        let id = match j.id {
            None => {
                return Err(StoreError::NotFound);
            },
            Some(id) => id,
        };
        let mut i: usize = 0;
        while i < self.jobsets.len()
            invariant
                i <= self.jobsets@.len(),
                self.jobsets@ == old(self).jobsets@,
                j.id == Some(id),
                ids_ascending(self.jobsets@),
                forall|k: int| 0 <= k < i ==> (#[trigger] self.jobsets@[k]).id != Some(id),
            decreases self.jobsets@.len() - i,
        {
            if self.jobsets[i].id == Some(id) {
                let ghost before = self.jobsets@;
                proof {
                    assert(before[i as int].id == Some(id));
                    assert(has_id(before, id));
                    let k = index_of(before, id);
                    if k < i {
                        assert(before[k].id->0 < before[i as int].id->0);
                    } else if k > i {
                        assert(before[i as int].id->0 < before[k].id->0);
                    }
                }
                self.jobsets.set(i, j);
                proof {
                    assert(self.jobsets@ =~= before.update(i as int, j));
                    assert forall|k: int| 0 <= k < self.jobsets@.len() implies (#[trigger] self.jobsets@[k]).id is Some by {
                        if k != i {
                            assert(self.jobsets@[k] == before[k]);
                        }
                    }
                    assert forall|a: int, b: int| 0 <= a < b < self.jobsets@.len() implies self.jobsets@[a].id->0 < self.jobsets@[b].id->0 by {
                        assert(self.jobsets@[a].id == before[a].id);
                        assert(self.jobsets@[b].id == before[b].id);
                    }
                }
                return Ok(());
            }
            i = i + 1;
        }
        Err(StoreError::NotFound)
    }
}

} // verus!
