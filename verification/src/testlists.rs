//! Test lists: children of projects, and their store. A test list
//! carries the owning account's id as well, denormalized so that
//! authorization needs a single fetch.

use vstd::prelude::*;

use crate::outcome::{DeleteOutcome, UpdateOutcome};
use crate::strutil::clone_string_vec;

verus! {

/// A test list record. `account_id` and `project_id` are copied from
/// the parent project at creation and never changed.
#[derive(Debug, PartialEq, Eq)]
pub struct Testlist {
    pub id: u64,
    pub account_id: u64,
    pub project_id: u64,
    pub name: String,
    pub description: String,
    pub created_at: i64,
    pub updated_at: i64,
}

/// Mathematical image of a `Testlist`.
#[verifier::ext_equal]
pub struct TestlistModel {
    pub id: u64,
    pub account_id: u64,
    pub project_id: u64,
    pub name: Seq<char>,
    pub description: Seq<char>,
    pub created_at: i64,
    pub updated_at: i64,
}

impl View for Testlist {
    type V = TestlistModel;

    open spec fn view(&self) -> TestlistModel {
        TestlistModel {
            id: self.id,
            account_id: self.account_id,
            project_id: self.project_id,
            name: self.name@,
            description: self.description@,
            created_at: self.created_at,
            updated_at: self.updated_at,
        }
    }
}

impl Clone for Testlist {
    fn clone(&self) -> (res: Self)
        ensures
            res@ == self@,
    {
        let res = Testlist {
            id: self.id,
            account_id: self.account_id,
            project_id: self.project_id,
            name: self.name.clone(),
            description: self.description.clone(),
            created_at: self.created_at,
            updated_at: self.updated_at,
        };
        proof {
            assert(res@ =~= self@);
        }
        res
    }
}

/// Input for creating or updating a test list.
#[derive(Debug, PartialEq, Eq)]
pub struct TestlistDto {
    pub name: String,
    pub description: String,
}

/// A check row as some clients render it inside a test list view.
#[derive(Debug, PartialEq, Eq)]
pub struct TestCheck {
    pub id: u64,
    pub testlist_id: u64,
    pub name: String,
    pub description: String,
    pub expected: String,
    pub tags: Vec<String>,
    pub created_at: i64,
    pub updated_at: i64,
}

impl Clone for TestCheck {
    fn clone(&self) -> (res: Self) {
        TestCheck {
            id: self.id,
            testlist_id: self.testlist_id,
            name: self.name.clone(),
            description: self.description.clone(),
            expected: self.expected.clone(),
            tags: clone_string_vec(&self.tags),
            created_at: self.created_at,
            updated_at: self.updated_at,
        }
    }
}

/// Input shape matching `TestCheck`.
#[derive(Debug, PartialEq, Eq)]
pub struct TestCheckDto {
    pub name: String,
    pub description: String,
    pub expected: String,
    pub tags: Vec<String>,
}

/// The test list store: records with unique ids drawn from a counter.
pub struct TestlistStore {
    pub items: Vec<Testlist>,
    pub next_id: u64,
}

impl TestlistStore {
    /// The stored records, in insertion order, as their models.
    pub open spec fn s(&self) -> Seq<TestlistModel> {
        Seq::new(self.items@.len(), |i: int| self.items@[i]@)
    }

    /// Ids are unique and below the counter.
    pub open spec fn wf(&self) -> bool {
        &&& forall|i: int, j: int|
            0 <= i < self.s().len() && 0 <= j < self.s().len() && i != j
                ==> #[trigger] self.s()[i].id != #[trigger] self.s()[j].id
        &&& forall|i: int| 0 <= i < self.s().len() ==> #[trigger] self.s()[i].id < self.next_id
    }

    pub open spec fn contains_id(&self, id: u64) -> bool {
        exists|i: int| 0 <= i < self.s().len() && #[trigger] self.s()[i].id == id
    }

    pub open spec fn idx_of(&self, id: u64) -> int {
        choose|i: int| 0 <= i < self.s().len() && #[trigger] self.s()[i].id == id
    }

    /// The record with the given id, if any.
    pub open spec fn spec_get(&self, id: u64) -> Option<TestlistModel> {
        if self.contains_id(id) {
            Some(self.s()[self.idx_of(id)])
        } else {
            None
        }
    }

    /// The test lists of `s`, kept in order, under the given project.
    pub open spec fn spec_project_testlists(s: Seq<TestlistModel>, project_id: u64) -> Seq<
        TestlistModel,
    >
        decreases s.len(),
    {
        if s.len() == 0 {
            Seq::empty()
        } else {
            let rest = Self::spec_project_testlists(s.drop_last(), project_id);
            if s.last().project_id == project_id {
                rest.push(s.last())
            } else {
                rest
            }
        }
    }

    /// An id occurs at exactly one index.
    pub proof fn lemma_idx_of(&self, i: int)
        requires
            self.wf(),
            0 <= i < self.s().len(),
        ensures
            self.contains_id(self.s()[i].id),
            self.idx_of(self.s()[i].id) == i,
    {
        assert(self.contains_id(self.s()[i].id));
    }

    /// An empty store.
    pub fn new() -> (r: Self)
        ensures
            r.wf(),
            r.s().len() == 0,
            r.next_id == 1,
    {
        TestlistStore { items: Vec::new(), next_id: 1 }
    }

    /// All test lists, in insertion order.
    #[verifier::loop_isolation(false)]
    pub fn get_all(&self) -> (r: Vec<Testlist>)
        ensures
            r@.len() == self.s().len(),
            forall|i: int| 0 <= i < r@.len() ==> #[trigger] r@[i]@ == self.s()[i],
    {
        let mut r: Vec<Testlist> = Vec::new();
        let mut k: usize = 0;
        while k < self.items.len()
            invariant
                k <= self.s().len(),
                r@.len() == k,
                forall|i: int| 0 <= i < k ==> #[trigger] r@[i]@ == self.s()[i],
            decreases self.s().len() - k,
        {
            r.push(self.items[k].clone());
            k = k + 1;
        }
        r
    }

    /// Fetch a test list by id.
    #[verifier::loop_isolation(false)]
    pub fn get_testlist_by_id(&self, id: u64) -> (r: Option<Testlist>)
        requires
            self.wf(),
        ensures
            r is Some <==> self.contains_id(id),
            r is Some ==> r->0@ == self.spec_get(id)->0,
    {
        let mut k: usize = 0;
        while k < self.items.len()
            invariant
                k <= self.s().len(),
                forall|i: int| 0 <= i < k ==> #[trigger] self.s()[i].id != id,
            decreases self.s().len() - k,
        {
            if self.items[k].id == id {
                proof {
                    self.lemma_idx_of(k as int);
                }
                return Some(self.items[k].clone());
            }
            k = k + 1;
        }
        None
    }

    /// The test lists under a project, in store order.
    #[verifier::loop_isolation(false)]
    pub fn get_project_testlists(&self, project_id: u64) -> (r: Vec<Testlist>)
        ensures
            Seq::new(r@.len(), |i: int| r@[i]@) == Self::spec_project_testlists(
                self.s(),
                project_id,
            ),
    {
        let mut r: Vec<Testlist> = Vec::new();
        let mut k: usize = 0;
        while k < self.items.len()
            invariant
                k <= self.s().len(),
                Seq::new(r@.len(), |i: int| r@[i]@) == Self::spec_project_testlists(
                    self.s().take(k as int),
                    project_id,
                ),
            decreases self.s().len() - k,
        {
            let ghost prefix = self.s().take(k as int);
            let ghost next = self.s().take(k as int + 1);
            proof {
                assert(next.drop_last() =~= prefix);
                assert(next.last() == self.s()[k as int]);
            }
            if self.items[k].project_id == project_id {
                r.push(self.items[k].clone());
                proof {
                    assert(Seq::new(r@.len(), |i: int| r@[i]@) =~= Self::spec_project_testlists(
                        prefix,
                        project_id,
                    ).push(next.last()));
                }
            }
            k = k + 1;
        }
        proof {
            assert(self.s().take(self.s().len() as int) =~= self.s());
        }
        r
    }

    /// Create a test list under the given account and project, stamping
    /// both timestamps with `now`. Returns the new test list's id.
    pub fn create_testlist(
        &mut self,
        account_id: u64,
        project_id: u64,
        data: TestlistDto,
        now: i64,
    ) -> (r: u64)
        requires
            old(self).wf(),
            old(self).next_id < u64::MAX,
        ensures
            final(self).wf(),
            r == old(self).next_id,
            final(self).next_id == old(self).next_id + 1,
            final(self).s() == old(self).s().push(
                TestlistModel {
                    id: old(self).next_id,
                    account_id: account_id,
                    project_id: project_id,
                    name: data.name@,
                    description: data.description@,
                    created_at: now,
                    updated_at: now,
                },
            ),
    {
        let id = self.next_id;
        self.items.push(
            Testlist {
                id,
                account_id,
                project_id,
                name: data.name,
                description: data.description,
                created_at: now,
                updated_at: now,
            },
        );
        self.next_id = self.next_id + 1;
        proof {
            assert forall|i: int| 0 <= i < self.s().len() && i != old(self).s().len()
                implies #[trigger] self.s()[i] == old(self).s()[i] by {}
            assert(self.s() =~= old(self).s().push(self.s().last()));
            assert(self.s().last() =~= TestlistModel {
                id: old(self).next_id,
                account_id: account_id,
                project_id: project_id,
                name: self.s().last().name,
                description: self.s().last().description,
                created_at: now,
                updated_at: now,
            });
        }
        id
    }

    /// Update a test list's name and description, re-stamping
    /// `updated_at`. A missing id matches nothing; an update that
    /// changes nothing counts as matched but not modified.
    #[verifier::loop_isolation(false)]
    pub fn update_testlist(&mut self, id: u64, data: TestlistDto, now: i64) -> (r: UpdateOutcome)
        requires
            old(self).wf(),
        ensures
            final(self).wf(),
            final(self).next_id == old(self).next_id,
            !old(self).contains_id(id) ==> r.matched_count == 0 && r.modified_count == 0
                && final(self).s() == old(self).s(),
            old(self).contains_id(id) ==> {
                let i = old(self).idx_of(id);
                let u = old(self).s()[i];
                let nu = TestlistModel { name: data.name@, description: data.description@, updated_at: now, ..u };
                &&& r.matched_count == 1
                &&& (u == nu ==> r.modified_count == 0 && final(self).s() == old(self).s())
                &&& (u != nu ==> r.modified_count == 1 && final(self).s() == old(self).s().update(
                    i,
                    nu,
                ))
            },
    {
        let mut k: usize = 0;
        while k < self.items.len()
            invariant
                *self == *old(self),
                k <= self.s().len(),
                forall|i: int| 0 <= i < k ==> #[trigger] self.s()[i].id != id,
            decreases self.s().len() - k,
        {
            if self.items[k].id == id {
                proof {
                    self.lemma_idx_of(k as int);
                }
                let same = self.items[k].name == data.name && self.items[k].description
                    == data.description && self.items[k].updated_at == now;
                if same {
                    proof {
                        assert(old(self).s()[k as int] =~= TestlistModel {
                            name: data.name@,
                            description: data.description@,
                            updated_at: now,
                            ..old(self).s()[k as int]
                        });
                    }
                    return UpdateOutcome { matched_count: 1, modified_count: 0 };
                }
                let mut nu = self.items[k].clone();
                nu.name = data.name;
                nu.description = data.description;
                nu.updated_at = now;
                proof {
                    assert(nu@ =~= TestlistModel {
                        name: nu.name@,
                        description: nu.description@,
                        updated_at: now,
                        ..old(self).s()[k as int]
                    });
                    assert(old(self).s()[k as int] != nu@);
                }
                self.items.set(k, nu);
                proof {
                    assert(self.s() =~= old(self).s().update(k as int, self.s()[k as int]));
                    assert forall|i: int| 0 <= i < self.s().len() implies #[trigger] self.s()[i].id
                        == old(self).s()[i].id by {
                        if i != k as int {
                            assert(self.s()[i] == old(self).s()[i]);
                        }
                    }
                }
                return UpdateOutcome { matched_count: 1, modified_count: 1 };
            }
            k = k + 1;
        }
        UpdateOutcome { matched_count: 0, modified_count: 0 }
    }

    /// Delete a test list row. The outcome reports how many rows were
    /// removed. Cascading removal of the list's checks is the caller's
    /// duty and precedes this call.
    #[verifier::loop_isolation(false)]
    pub fn delete_testlist(&mut self, id: u64) -> (r: DeleteOutcome)
        requires
            old(self).wf(),
        ensures
            final(self).wf(),
            final(self).next_id == old(self).next_id,
            !old(self).contains_id(id) ==> r.deleted_count == 0 && final(self).s() == old(self).s(),
            old(self).contains_id(id) ==> r.deleted_count == 1 && final(self).s() == old(
                self,
            ).s().remove(old(self).idx_of(id)),
            !final(self).contains_id(id),
    {
        let mut k: usize = 0;
        while k < self.items.len()
            invariant
                *self == *old(self),
                k <= self.s().len(),
                forall|i: int| 0 <= i < k ==> #[trigger] self.s()[i].id != id,
            decreases self.s().len() - k,
        {
            if self.items[k].id == id {
                proof {
                    self.lemma_idx_of(k as int);
                }
                self.items.remove(k);
                proof {
                    let k0 = k as int;
                    assert(self.s() =~= old(self).s().remove(k0));
                    assert forall|i: int| 0 <= i < self.s().len() implies #[trigger] self.s()[i].id
                        != id && self.s()[i].id < self.next_id by {
                        if i < k0 {
                            assert(self.s()[i] == old(self).s()[i]);
                        } else {
                            assert(self.s()[i] == old(self).s()[i + 1]);
                        }
                    }
                    assert forall|i: int, j: int|
                        0 <= i < self.s().len() && 0 <= j < self.s().len() && i
                            != j implies #[trigger] self.s()[i].id != #[trigger] self.s()[j].id by {
                        let ii = if i < k0 {
                            i
                        } else {
                            i + 1
                        };
                        let jj = if j < k0 {
                            j
                        } else {
                            j + 1
                        };
                        assert(self.s()[i] == old(self).s()[ii]);
                        assert(self.s()[j] == old(self).s()[jj]);
                    }
                }
                return DeleteOutcome { deleted_count: 1 };
            }
            k = k + 1;
        }
        DeleteOutcome { deleted_count: 0 }
    }
}

} // verus!
