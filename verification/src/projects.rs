//! Projects: children of accounts, and their store.

use vstd::prelude::*;

use crate::outcome::{DeleteOutcome, UpdateOutcome};

verus! {

/// A project record. `account_id` names the owning account and is never
/// changed after creation.
#[derive(Debug, PartialEq, Eq)]
pub struct Project {
    pub id: u64,
    pub name: String,
    pub version: String,
    pub description: String,
    pub repository: String,
    pub account_id: u64,
    pub created_at: i64,
    pub updated_at: i64,
}

/// Mathematical image of a `Project`.
#[verifier::ext_equal]
pub struct ProjectModel {
    pub id: u64,
    pub name: Seq<char>,
    pub version: Seq<char>,
    pub description: Seq<char>,
    pub repository: Seq<char>,
    pub account_id: u64,
    pub created_at: i64,
    pub updated_at: i64,
}

impl View for Project {
    type V = ProjectModel;

    open spec fn view(&self) -> ProjectModel {
        ProjectModel {
            id: self.id,
            name: self.name@,
            version: self.version@,
            description: self.description@,
            repository: self.repository@,
            account_id: self.account_id,
            created_at: self.created_at,
            updated_at: self.updated_at,
        }
    }
}

impl Clone for Project {
    fn clone(&self) -> (res: Self)
        ensures
            res@ == self@,
    {
        let res = Project {
            id: self.id,
            name: self.name.clone(),
            version: self.version.clone(),
            description: self.description.clone(),
            repository: self.repository.clone(),
            account_id: self.account_id,
            created_at: self.created_at,
            updated_at: self.updated_at,
        };
        proof {
            assert(res@ =~= self@);
        }
        res
    }
}

/// Input for creating or updating a project.
#[derive(Debug, PartialEq, Eq)]
pub struct ProjectDto {
    pub name: String,
    pub version: String,
    pub description: String,
    pub repository: String,
}

/// The project store: records with unique ids drawn from a counter.
pub struct ProjectStore {
    pub items: Vec<Project>,
    pub next_id: u64,
}

impl ProjectStore {
    /// The stored records, in insertion order, as their models.
    pub open spec fn s(&self) -> Seq<ProjectModel> {
        Seq::new(self.items@.len(), |i: int| self.items@[i]@)
    }

    /// Ids are unique and below the counter.
    pub open spec fn wf(&self) -> bool {
        &&& forall|i: int, j: int|
            0 <= i < self.s().len() && 0 <= j < self.s().len() && i != j
                ==> #[trigger] self.s()[i].id != #[trigger] self.s()[j].id
        &&& forall|i: int| 0 <= i < self.s().len() ==> #[trigger] self.s()[i].id < self.next_id
    }

    pub open spec fn contains_id(&self, id: u64) -> bool {
        exists|i: int| 0 <= i < self.s().len() && #[trigger] self.s()[i].id == id
    }

    pub open spec fn idx_of(&self, id: u64) -> int {
        choose|i: int| 0 <= i < self.s().len() && #[trigger] self.s()[i].id == id
    }

    /// The record with the given id, if any.
    pub open spec fn spec_get(&self, id: u64) -> Option<ProjectModel> {
        if self.contains_id(id) {
            Some(self.s()[self.idx_of(id)])
        } else {
            None
        }
    }

    /// The projects of `s`, kept in order, owned by the given account.
    pub open spec fn spec_account_projects(s: Seq<ProjectModel>, account_id: u64) -> Seq<
        ProjectModel,
    >
        decreases s.len(),
    {
        if s.len() == 0 {
            Seq::empty()
        } else {
            let rest = Self::spec_account_projects(s.drop_last(), account_id);
            if s.last().account_id == account_id {
                rest.push(s.last())
            } else {
                rest
            }
        }
    }

    /// An id occurs at exactly one index.
    pub proof fn lemma_idx_of(&self, i: int)
        requires
            self.wf(),
            0 <= i < self.s().len(),
        ensures
            self.contains_id(self.s()[i].id),
            self.idx_of(self.s()[i].id) == i,
    {
        assert(self.contains_id(self.s()[i].id));
    }

    /// An empty store.
    pub fn new() -> (r: Self)
        ensures
            r.wf(),
            r.s().len() == 0,
            r.next_id == 1,
    {
        ProjectStore { items: Vec::new(), next_id: 1 }
    }

    /// All projects, in insertion order.
    #[verifier::loop_isolation(false)]
    pub fn get_all(&self) -> (r: Vec<Project>)
        ensures
            r@.len() == self.s().len(),
            forall|i: int| 0 <= i < r@.len() ==> #[trigger] r@[i]@ == self.s()[i],
    {
        let mut r: Vec<Project> = Vec::new();
        let mut k: usize = 0;
        while k < self.items.len()
            invariant
                k <= self.s().len(),
                r@.len() == k,
                forall|i: int| 0 <= i < k ==> #[trigger] r@[i]@ == self.s()[i],
            decreases self.s().len() - k,
        {
            r.push(self.items[k].clone());
            k = k + 1;
        }
        r
    }

    /// Fetch a project by id.
    #[verifier::loop_isolation(false)]
    pub fn get_by_id(&self, id: u64) -> (r: Option<Project>)
        requires
            self.wf(),
        ensures
            r is Some <==> self.contains_id(id),
            r is Some ==> r->0@ == self.spec_get(id)->0,
    {
        let mut k: usize = 0;
        while k < self.items.len()
            invariant
                k <= self.s().len(),
                forall|i: int| 0 <= i < k ==> #[trigger] self.s()[i].id != id,
            decreases self.s().len() - k,
        {
            if self.items[k].id == id {
                proof {
                    self.lemma_idx_of(k as int);
                }
                return Some(self.items[k].clone());
            }
            k = k + 1;
        }
        None
    }

    /// The projects owned by an account, in store order.
    #[verifier::loop_isolation(false)]
    pub fn get_account_projects(&self, account_id: u64) -> (r: Vec<Project>)
        ensures
            Seq::new(r@.len(), |i: int| r@[i]@) == Self::spec_account_projects(
                self.s(),
                account_id,
            ),
    {
        let mut r: Vec<Project> = Vec::new();
        let mut k: usize = 0;
        while k < self.items.len()
            invariant
                k <= self.s().len(),
                Seq::new(r@.len(), |i: int| r@[i]@) == Self::spec_account_projects(
                    self.s().take(k as int),
                    account_id,
                ),
            decreases self.s().len() - k,
        {
            let ghost prefix = self.s().take(k as int);
            let ghost next = self.s().take(k as int + 1);
            proof {
                assert(next.drop_last() =~= prefix);
                assert(next.last() == self.s()[k as int]);
            }
            if self.items[k].account_id == account_id {
                r.push(self.items[k].clone());
                proof {
                    assert(Seq::new(r@.len(), |i: int| r@[i]@) =~= Self::spec_account_projects(
                        prefix,
                        account_id,
                    ).push(next.last()));
                }
            }
            k = k + 1;
        }
        proof {
            assert(self.s().take(self.s().len() as int) =~= self.s());
        }
        r
    }

    /// Create a project under the given account, stamping both
    /// timestamps with `now`. Returns the new project's id.
    pub fn create(&mut self, account_id: u64, data: ProjectDto, now: i64) -> (r: u64)
        requires
            old(self).wf(),
            old(self).next_id < u64::MAX,
        ensures
            final(self).wf(),
            r == old(self).next_id,
            final(self).next_id == old(self).next_id + 1,
            final(self).s() == old(self).s().push(
                ProjectModel {
                    id: old(self).next_id,
                    name: data.name@,
                    version: data.version@,
                    description: data.description@,
                    repository: data.repository@,
                    account_id: account_id,
                    created_at: now,
                    updated_at: now,
                },
            ),
    {
        let id = self.next_id;
        self.items.push(
            Project {
                id,
                name: data.name,
                version: data.version,
                description: data.description,
                repository: data.repository,
                account_id,
                created_at: now,
                updated_at: now,
            },
        );
        self.next_id = self.next_id + 1;
        proof {
            assert forall|i: int| 0 <= i < self.s().len() && i != old(self).s().len()
                implies #[trigger] self.s()[i] == old(self).s()[i] by {}
            assert(self.s() =~= old(self).s().push(self.s().last()));
            assert(self.s().last() =~= ProjectModel {
                id: old(self).next_id,
                name: self.s().last().name,
                version: self.s().last().version,
                description: self.s().last().description,
                repository: self.s().last().repository,
                account_id: account_id,
                created_at: now,
                updated_at: now,
            });
        }
        id
    }

    /// Update a project's describing fields, re-stamping `updated_at`.
    /// The owning account is never touched. A missing id matches
    /// nothing; an update that changes nothing counts as matched but not
    /// modified.
    #[verifier::loop_isolation(false)]
    pub fn update(&mut self, id: u64, data: ProjectDto, now: i64) -> (r: UpdateOutcome)
        requires
            old(self).wf(),
        ensures
            final(self).wf(),
            final(self).next_id == old(self).next_id,
            !old(self).contains_id(id) ==> r.matched_count == 0 && r.modified_count == 0 && final(self).s() == old(self).s(),
            old(self).contains_id(id) ==> {
                let i = old(self).idx_of(id);
                let u = old(self).s()[i];
                let nu = ProjectModel {
                    name: data.name@,
                    version: data.version@,
                    description: data.description@,
                    repository: data.repository@,
                    updated_at: now,
                    ..u
                };
                &&& r.matched_count == 1
                &&& (u == nu ==> r.modified_count == 0 && final(self).s() == old(self).s())
                &&& (u != nu ==> r.modified_count == 1 && final(self).s() == old(self).s().update(
                    i,
                    nu,
                ))
            },
    {
        let mut k: usize = 0;
        while k < self.items.len()
            invariant
                *self == *old(self),
                k <= self.s().len(),
                forall|i: int| 0 <= i < k ==> #[trigger] self.s()[i].id != id,
            decreases self.s().len() - k,
        {
            if self.items[k].id == id {
                proof {
                    self.lemma_idx_of(k as int);
                }
                let same = self.items[k].name == data.name && self.items[k].version == data.version
                    && self.items[k].description == data.description && self.items[k].repository
                    == data.repository && self.items[k].updated_at == now;
                if same {
                    proof {
                        assert(old(self).s()[k as int] =~= ProjectModel {
                            name: data.name@,
                            version: data.version@,
                            description: data.description@,
                            repository: data.repository@,
                            updated_at: now,
                            ..old(self).s()[k as int]
                        });
                    }
                    return UpdateOutcome { matched_count: 1, modified_count: 0 };
                }
                let mut nu = self.items[k].clone();
                nu.name = data.name;
                nu.version = data.version;
                nu.description = data.description;
                nu.repository = data.repository;
                nu.updated_at = now;
                proof {
                    assert(nu@ =~= ProjectModel {
                        name: nu.name@,
                        version: nu.version@,
                        description: nu.description@,
                        repository: nu.repository@,
                        updated_at: now,
                        ..old(self).s()[k as int]
                    });
                    assert(old(self).s()[k as int] != nu@);
                }
                self.items.set(k, nu);
                proof {
                    assert(self.s() =~= old(self).s().update(k as int, self.s()[k as int]));
                    assert forall|i: int| 0 <= i < self.s().len() implies #[trigger] self.s()[i].id
                        == old(self).s()[i].id by {
                        if i != k as int {
                            assert(self.s()[i] == old(self).s()[i]);
                        }
                    }
                }
                return UpdateOutcome { matched_count: 1, modified_count: 1 };
            }
            k = k + 1;
        }
        UpdateOutcome { matched_count: 0, modified_count: 0 }
    }

    /// Delete a project. The outcome reports how many rows were removed.
    #[verifier::loop_isolation(false)]
    pub fn delete(&mut self, id: u64) -> (r: DeleteOutcome)
        requires
            old(self).wf(),
        ensures
            final(self).wf(),
            final(self).next_id == old(self).next_id,
            !old(self).contains_id(id) ==> r.deleted_count == 0 && final(self).s() == old(self).s(),
            old(self).contains_id(id) ==> r.deleted_count == 1 && final(self).s() == old(self).s().remove(old(self).idx_of(id)),
            !final(self).contains_id(id),
    {
        let mut k: usize = 0;
        while k < self.items.len()
            invariant
                *self == *old(self),
                k <= self.s().len(),
                forall|i: int| 0 <= i < k ==> #[trigger] self.s()[i].id != id,
            decreases self.s().len() - k,
        {
            if self.items[k].id == id {
                proof {
                    self.lemma_idx_of(k as int);
                }
                self.items.remove(k);
                proof {
                    let k0 = k as int;
                    assert(self.s() =~= old(self).s().remove(k0));
                    assert forall|i: int| 0 <= i < self.s().len() implies #[trigger] self.s()[i].id
                        != id && self.s()[i].id < self.next_id by {
                        if i < k0 {
                            assert(self.s()[i] == old(self).s()[i]);
                        } else {
                            assert(self.s()[i] == old(self).s()[i + 1]);
                        }
                    }
                    assert forall|i: int, j: int|
                        0 <= i < self.s().len() && 0 <= j < self.s().len() && i
                            != j implies #[trigger] self.s()[i].id != #[trigger] self.s()[j].id by {
                        let ii = if i < k0 {
                            i
                        } else {
                            i + 1
                        };
                        let jj = if j < k0 {
                            j
                        } else {
                            j + 1
                        };
                        assert(self.s()[i] == old(self).s()[ii]);
                        assert(self.s()[j] == old(self).s()[jj]);
                    }
                }
                return DeleteOutcome { deleted_count: 1 };
            }
            k = k + 1;
        }
        DeleteOutcome { deleted_count: 0 }
    }
}

} // verus!
