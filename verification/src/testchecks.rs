//! Test checks: the ordered children of a test list. Each check carries
//! a zero-based position within its list; creation appends after the
//! largest existing position, and reordering assigns positions from a
//! caller-supplied id list, ignoring ids that belong to another list. A
//! payload that names only some of a list's checks can leave two checks
//! at the same position, so position uniqueness is not a store
//! invariant; the sorted listing tolerates ties.

use vstd::prelude::*;

use crate::outcome::DeleteOutcome;
use crate::outcome::UpdateOutcome;
use crate::strutil::{clone_string_vec, strs};

verus! {

/// A test check record. The three ancestor ids are copied from the
/// parent test list at creation and never changed.
#[derive(Debug, PartialEq, Eq)]
pub struct Testcheck {
    pub id: u64,
    pub testlist_id: u64,
    pub project_id: u64,
    pub account_id: u64,
    pub name: String,
    pub description: String,
    pub expected: String,
    pub tags: Vec<String>,
    pub position: u16,
    pub created_at: i64,
    pub updated_at: i64,
}

/// Mathematical image of a `Testcheck`.
#[verifier::ext_equal]
pub struct TestcheckModel {
    pub id: u64,
    pub testlist_id: u64,
    pub project_id: u64,
    pub account_id: u64,
    pub name: Seq<char>,
    pub description: Seq<char>,
    pub expected: Seq<char>,
    pub tags: Seq<Seq<char>>,
    pub position: u16,
    pub created_at: i64,
    pub updated_at: i64,
}

impl View for Testcheck {
    type V = TestcheckModel;

    open spec fn view(&self) -> TestcheckModel {
        TestcheckModel {
            id: self.id,
            testlist_id: self.testlist_id,
            project_id: self.project_id,
            account_id: self.account_id,
            name: self.name@,
            description: self.description@,
            expected: self.expected@,
            tags: strs(self.tags),
            position: self.position,
            created_at: self.created_at,
            updated_at: self.updated_at,
        }
    }
}

impl Clone for Testcheck {
    fn clone(&self) -> (res: Self)
        ensures
            res@ == self@,
    {
        let res = Testcheck {
            id: self.id,
            testlist_id: self.testlist_id,
            project_id: self.project_id,
            account_id: self.account_id,
            name: self.name.clone(),
            description: self.description.clone(),
            expected: self.expected.clone(),
            tags: clone_string_vec(&self.tags),
            position: self.position,
            created_at: self.created_at,
            updated_at: self.updated_at,
        };
        proof {
            assert(res@ =~= self@);
        }
        res
    }
}

/// Input for creating or updating a test check.
#[derive(Debug, PartialEq, Eq)]
pub struct TestcheckDto {
    pub name: String,
    pub description: String,
    pub expected: String,
    pub tags: Vec<String>,
}

/// The largest position among the checks of a test list, or -1 when it
/// has none.
pub open spec fn spec_max_position(s: Seq<TestcheckModel>, testlist_id: u64) -> int
    decreases s.len(),
{
    if s.len() == 0 {
        -1
    } else {
        let rest = spec_max_position(s.drop_last(), testlist_id);
        if s.last().testlist_id == testlist_id && s.last().position > rest {
            s.last().position as int
        } else {
            rest
        }
    }
}

/// The index of the last occurrence of `id` in `ids`, or -1.
pub open spec fn spec_last_index_of(ids: Seq<u64>, id: u64) -> int
    decreases ids.len(),
{
    if ids.len() == 0 {
        -1
    } else if ids.last() == id {
        ids.len() - 1
    } else {
        spec_last_index_of(ids.drop_last(), id)
    }
}

/// Whether the list `testlist_id` has a check with the given id.
pub open spec fn spec_has_check(s: Seq<TestcheckModel>, testlist_id: u64, id: u64) -> bool {
    exists|j: int| 0 <= j < s.len() && #[trigger] s[j].id == id && s[j].testlist_id == testlist_id
}

/// How many entries of a reorder payload name a check of the given
/// list: each entry counts exactly when the list has a check with that
/// id, so entries naming another list's checks are excluded.
pub open spec fn spec_reorder_count(s: Seq<TestcheckModel>, testlist_id: u64, ids: Seq<u64>) -> int
    decreases ids.len(),
{
    if ids.len() == 0 {
        0
    } else {
        spec_reorder_count(s, testlist_id, ids.drop_last()) + if spec_has_check(
            s,
            testlist_id,
            ids.last(),
        ) {
            1int
        } else {
            0int
        }
    }
}

/// The store contents after a reorder of the given list with payload
/// `ids`: every check of the list named by the payload takes the
/// payload index of its id's last occurrence as its position; every
/// other check is untouched.
pub open spec fn spec_reordered(
    s0: Seq<TestcheckModel>,
    testlist_id: u64,
    ids: Seq<u64>,
) -> Seq<TestcheckModel> {
    Seq::new(
        s0.len(),
        |j: int|
            {
                let u = s0[j];
                if u.testlist_id == testlist_id && spec_last_index_of(ids, u.id) >= 0 {
                    TestcheckModel { position: spec_last_index_of(ids, u.id) as u16, ..u }
                } else {
                    u
                }
            },
    )
}

/// The test check store: records with unique ids drawn from a counter.
pub struct TestcheckStore {
    pub items: Vec<Testcheck>,
    pub next_id: u64,
}

impl TestcheckStore {
    /// The stored records, in insertion order, as their models.
    pub open spec fn s(&self) -> Seq<TestcheckModel> {
        Seq::new(self.items@.len(), |i: int| self.items@[i]@)
    }

    /// Ids are unique and below the counter.
    pub open spec fn wf(&self) -> bool {
        &&& forall|i: int, j: int|
            0 <= i < self.s().len() && 0 <= j < self.s().len() && i != j
                ==> #[trigger] self.s()[i].id != #[trigger] self.s()[j].id
        &&& forall|i: int| 0 <= i < self.s().len() ==> #[trigger] self.s()[i].id < self.next_id
    }

    pub open spec fn contains_id(&self, id: u64) -> bool {
        exists|i: int| 0 <= i < self.s().len() && #[trigger] self.s()[i].id == id
    }

    pub open spec fn idx_of(&self, id: u64) -> int {
        choose|i: int| 0 <= i < self.s().len() && #[trigger] self.s()[i].id == id
    }

    /// The record with the given id, if any.
    pub open spec fn spec_get(&self, id: u64) -> Option<TestcheckModel> {
        if self.contains_id(id) {
            Some(self.s()[self.idx_of(id)])
        } else {
            None
        }
    }

    /// The checks of `s`, kept in order, under the given test list.
    pub open spec fn spec_testlist_testchecks(s: Seq<TestcheckModel>, testlist_id: u64) -> Seq<
        TestcheckModel,
    >
        decreases s.len(),
    {
        if s.len() == 0 {
            Seq::empty()
        } else {
            let rest = Self::spec_testlist_testchecks(s.drop_last(), testlist_id);
            if s.last().testlist_id == testlist_id {
                rest.push(s.last())
            } else {
                rest
            }
        }
    }

    /// The checks of `s`, kept in order, not under the given test list.
    pub open spec fn spec_without_testlist(s: Seq<TestcheckModel>, testlist_id: u64) -> Seq<
        TestcheckModel,
    >
        decreases s.len(),
    {
        if s.len() == 0 {
            Seq::empty()
        } else {
            let rest = Self::spec_without_testlist(s.drop_last(), testlist_id);
            if s.last().testlist_id != testlist_id {
                rest.push(s.last())
            } else {
                rest
            }
        }
    }

    /// An id occurs at exactly one index.
    pub proof fn lemma_idx_of(&self, i: int)
        requires
            self.wf(),
            0 <= i < self.s().len(),
        ensures
            self.contains_id(self.s()[i].id),
            self.idx_of(self.s()[i].id) == i,
    {
        assert(self.contains_id(self.s()[i].id));
    }

    /// An empty store.
    pub fn new() -> (r: Self)
        ensures
            r.wf(),
            r.s().len() == 0,
            r.next_id == 1,
    {
        TestcheckStore { items: Vec::new(), next_id: 1 }
    }

    /// All test checks, in insertion order.
    #[verifier::loop_isolation(false)]
    pub fn get_all(&self) -> (r: Vec<Testcheck>)
        ensures
            r@.len() == self.s().len(),
            forall|i: int| 0 <= i < r@.len() ==> #[trigger] r@[i]@ == self.s()[i],
    {
        let mut r: Vec<Testcheck> = Vec::new();
        let mut k: usize = 0;
        while k < self.items.len()
            invariant
                k <= self.s().len(),
                r@.len() == k,
                forall|i: int| 0 <= i < k ==> #[trigger] r@[i]@ == self.s()[i],
            decreases self.s().len() - k,
        {
            r.push(self.items[k].clone());
            k = k + 1;
        }
        r
    }

    /// Fetch a test check by id.
    #[verifier::loop_isolation(false)]
    pub fn get_testcheck_by_id(&self, id: u64) -> (r: Option<Testcheck>)
        requires
            self.wf(),
        ensures
            r is Some <==> self.contains_id(id),
            r is Some ==> r->0@ == self.spec_get(id)->0,
    {
        let mut k: usize = 0;
        while k < self.items.len()
            invariant
                k <= self.s().len(),
                forall|i: int| 0 <= i < k ==> #[trigger] self.s()[i].id != id,
            decreases self.s().len() - k,
        {
            if self.items[k].id == id {
                proof {
                    self.lemma_idx_of(k as int);
                }
                return Some(self.items[k].clone());
            }
            k = k + 1;
        }
        None
    }

    /// The checks of a test list, sorted by position. The result is a
    /// rearrangement of the list's checks in the store; positions come
    /// out in nondecreasing order.
    #[verifier::loop_isolation(false)]
    pub fn get_testlist_testchecks(&self, testlist_id: u64) -> (r: Vec<Testcheck>)
        ensures
            Seq::new(r@.len(), |i: int| r@[i]@).to_multiset() == Self::spec_testlist_testchecks(
                self.s(),
                testlist_id,
            ).to_multiset(),
            forall|i: int, j: int|
                0 <= i < j < r@.len() ==> #[trigger] r@[i]@.position <= #[trigger] r@[j]@.position,
            forall|i: int| 0 <= i < r@.len() ==> #[trigger] r@[i]@.testlist_id == testlist_id,
    {
        broadcast use vstd::seq_lib::group_to_multiset_ensures;

        let mut pool: Vec<Testcheck> = Vec::new();
        let mut k: usize = 0;
        while k < self.items.len()
            invariant
                k <= self.s().len(),
                Seq::new(pool@.len(), |i: int| pool@[i]@) == Self::spec_testlist_testchecks(
                    self.s().take(k as int),
                    testlist_id,
                ),
            decreases self.s().len() - k,
        {
            let ghost prefix = self.s().take(k as int);
            let ghost next = self.s().take(k as int + 1);
            proof {
                assert(next.drop_last() =~= prefix);
                assert(next.last() == self.s()[k as int]);
            }
            if self.items[k].testlist_id == testlist_id {
                pool.push(self.items[k].clone());
                proof {
                    assert(Seq::new(pool@.len(), |i: int| pool@[i]@)
                        =~= Self::spec_testlist_testchecks(prefix, testlist_id).push(next.last()));
                }
            }
            k = k + 1;
        }
        proof {
            assert(self.s().take(self.s().len() as int) =~= self.s());
        }
        let ghost children = Self::spec_testlist_testchecks(self.s(), testlist_id);
        proof {
            assert forall|i: int| 0 <= i < pool@.len() implies #[trigger] pool@[i]@.testlist_id
                == testlist_id by {
                Self::lemma_children_of_list(self.s(), testlist_id, i);
            }
        }
        let mut out: Vec<Testcheck> = Vec::new();
        while pool.len() > 0
            invariant
                Seq::new(out@.len(), |i: int| out@[i]@).to_multiset().add(
                    Seq::new(pool@.len(), |i: int| pool@[i]@).to_multiset(),
                ) =~= children.to_multiset(),
                forall|i: int, j: int|
                    0 <= i < j < out@.len() ==> #[trigger] out@[i]@.position
                        <= #[trigger] out@[j]@.position,
                forall|i: int, j: int|
                    0 <= i < out@.len() && 0 <= j < pool@.len() ==> #[trigger] out@[i]@.position
                        <= #[trigger] pool@[j]@.position,
                forall|i: int| 0 <= i < out@.len() ==> #[trigger] out@[i]@.testlist_id
                    == testlist_id,
                forall|i: int| 0 <= i < pool@.len() ==> #[trigger] pool@[i]@.testlist_id
                    == testlist_id,
            decreases pool@.len(),
        {
            let mut mi: usize = 0;
            let mut mk: usize = 1;
            while mk < pool.len()
                invariant
                    mi < mk <= pool@.len(),
                    forall|i: int| 0 <= i < mk ==> pool@[mi as int]@.position
                        <= #[trigger] pool@[i]@.position,
                decreases pool@.len() - mk,
            {
                if pool[mk].position < pool[mi].position {
                    mi = mk;
                }
                mk = mk + 1;
            }
            let ghost pool_before = Seq::new(pool@.len(), |i: int| pool@[i]@);
            let ghost out_before = Seq::new(out@.len(), |i: int| out@[i]@);
            let item = pool.remove(mi);
            proof {
                assert(Seq::new(pool@.len(), |i: int| pool@[i]@) =~= pool_before.remove(mi as int));
                assert(pool_before.remove(mi as int).to_multiset() == pool_before.to_multiset()
                    .remove(pool_before[mi as int]));
                assert(pool_before[mi as int] == item@);
                assert(pool_before.to_multiset().count(item@) > 0) by {
                    assert(pool_before.contains(item@));
                }
            }
            out.push(item);
            proof {
                broadcast use vstd::multiset::group_multiset_axioms;

                let out_now = Seq::new(out@.len(), |i: int| out@[i]@);
                let pool_now = Seq::new(pool@.len(), |i: int| pool@[i]@);
                assert(out_now =~= out_before.push(item@));
                assert(out_now.to_multiset() == out_before.to_multiset().insert(item@));
                assert forall|e: TestcheckModel|
                    out_now.to_multiset().count(e) + pool_now.to_multiset().count(e)
                        == children.to_multiset().count(e) by {
                    assert(out_before.to_multiset().count(e) + pool_before.to_multiset().count(e)
                        == children.to_multiset().count(e));
                }
                assert(out_now.to_multiset().add(pool_now.to_multiset())
                    =~= children.to_multiset());
            }
        }
        out
    }

    /// A list has no more checks than the store has rows.
    pub proof fn lemma_children_len(s: Seq<TestcheckModel>, testlist_id: u64)
        ensures
            Self::spec_testlist_testchecks(s, testlist_id).len() <= s.len(),
        decreases s.len(),
    {
        if s.len() > 0 {
            Self::lemma_children_len(s.drop_last(), testlist_id);
        }
    }

    /// Every check selected for a list belongs to that list.
    proof fn lemma_children_of_list(s: Seq<TestcheckModel>, testlist_id: u64, i: int)
        requires
            0 <= i < Self::spec_testlist_testchecks(s, testlist_id).len(),
        ensures
            Self::spec_testlist_testchecks(s, testlist_id)[i].testlist_id == testlist_id,
        decreases s.len(),
    {
        if s.len() > 0 {
            let rest = Self::spec_testlist_testchecks(s.drop_last(), testlist_id);
            if i < rest.len() {
                Self::lemma_children_of_list(s.drop_last(), testlist_id, i);
            }
        }
    }

    /// The next position for a check created under the given list: one
    /// past the largest existing position, or zero for the first check.
    #[verifier::loop_isolation(false)]
    pub fn get_next_position(&self, testlist_id: u64) -> (r: u16)
        requires
            spec_max_position(self.s(), testlist_id) < u16::MAX,
        ensures
            r == spec_max_position(self.s(), testlist_id) + 1,
    {
        let mut best: u16 = 0;
        let mut found = false;
        let mut k: usize = 0;
        while k < self.items.len()
            invariant
                k <= self.s().len(),
                !found ==> spec_max_position(self.s().take(k as int), testlist_id) == -1,
                found ==> best == spec_max_position(self.s().take(k as int), testlist_id),
                best <= spec_max_position(self.s(), testlist_id) || !found,
            decreases self.s().len() - k,
        {
            let ghost prefix = self.s().take(k as int);
            let ghost next = self.s().take(k as int + 1);
            proof {
                assert(next.drop_last() =~= prefix);
                assert(next.last() == self.s()[k as int]);
                Self::lemma_max_position_grows(self.s(), testlist_id, k as int + 1);
            }
            if self.items[k].testlist_id == testlist_id {
                if !found || self.items[k].position > best {
                    best = self.items[k].position;
                }
                found = true;
            }
            k = k + 1;
        }
        proof {
            assert(self.s().take(self.s().len() as int) =~= self.s());
        }
        if found {
            best + 1
        } else {
            0
        }
    }

    /// The largest position over a prefix never exceeds the largest
    /// position over the whole sequence.
    proof fn lemma_max_position_grows(s: Seq<TestcheckModel>, testlist_id: u64, n: int)
        requires
            0 <= n <= s.len(),
        ensures
            spec_max_position(s.take(n), testlist_id) <= spec_max_position(s, testlist_id),
        decreases s.len() - n,
    {
        if n == s.len() {
            assert(s.take(n) =~= s);
        } else {
            Self::lemma_max_position_grows(s, testlist_id, n + 1);
            assert(s.take(n + 1).drop_last() =~= s.take(n));
        }
    }

    /// Create a check under the given list, at the next free position,
    /// stamping both timestamps with `now`. Returns the new check's id.
    pub fn create_testcheck(
        &mut self,
        account_id: u64,
        project_id: u64,
        testlist_id: u64,
        data: TestcheckDto,
        now: i64,
    ) -> (r: u64)
        requires
            old(self).wf(),
            old(self).next_id < u64::MAX,
            spec_max_position(old(self).s(), testlist_id) < u16::MAX,
        ensures
            final(self).wf(),
            r == old(self).next_id,
            final(self).next_id == old(self).next_id + 1,
            final(self).s() == old(self).s().push(
                TestcheckModel {
                    id: old(self).next_id,
                    testlist_id: testlist_id,
                    project_id: project_id,
                    account_id: account_id,
                    name: data.name@,
                    description: data.description@,
                    expected: data.expected@,
                    tags: strs(data.tags),
                    position: (spec_max_position(old(self).s(), testlist_id) + 1) as u16,
                    created_at: now,
                    updated_at: now,
                },
            ),
    {
        let position = self.get_next_position(testlist_id);
        let id = self.next_id;
        self.items.push(
            Testcheck {
                id,
                testlist_id,
                project_id,
                account_id,
                name: data.name,
                description: data.description,
                expected: data.expected,
                tags: data.tags,
                position,
                created_at: now,
                updated_at: now,
            },
        );
        self.next_id = self.next_id + 1;
        proof {
            assert forall|i: int| 0 <= i < self.s().len() && i != old(self).s().len()
                implies #[trigger] self.s()[i] == old(self).s()[i] by {}
            assert(self.s() =~= old(self).s().push(self.s().last()));
            assert(self.s().last() =~= TestcheckModel {
                id: old(self).next_id,
                testlist_id: testlist_id,
                project_id: project_id,
                account_id: account_id,
                name: self.s().last().name,
                description: self.s().last().description,
                expected: self.s().last().expected,
                tags: self.s().last().tags,
                position: position,
                created_at: now,
                updated_at: now,
            });
        }
        id
    }

    /// Update a check's describing fields, re-stamping `updated_at`.
    /// Position and ancestry are untouched. A missing id matches
    /// nothing; an update that changes nothing counts as matched but not
    /// modified.
    #[verifier::loop_isolation(false)]
    pub fn update_testcheck(&mut self, id: u64, data: TestcheckDto, now: i64) -> (r: UpdateOutcome)
        requires
            old(self).wf(),
        ensures
            final(self).wf(),
            final(self).next_id == old(self).next_id,
            !old(self).contains_id(id) ==> r.matched_count == 0 && r.modified_count == 0
                && final(self).s() == old(self).s(),
            old(self).contains_id(id) ==> {
                let i = old(self).idx_of(id);
                let u = old(self).s()[i];
                let nu = TestcheckModel {
                    name: data.name@,
                    description: data.description@,
                    expected: data.expected@,
                    tags: strs(data.tags),
                    updated_at: now,
                    ..u
                };
                &&& r.matched_count == 1
                &&& (u == nu ==> r.modified_count == 0 && final(self).s() == old(self).s())
                &&& (u != nu ==> r.modified_count == 1 && final(self).s() == old(self).s().update(
                    i,
                    nu,
                ))
            },
    {
        let mut k: usize = 0;
        while k < self.items.len()
            invariant
                *self == *old(self),
                k <= self.s().len(),
                forall|i: int| 0 <= i < k ==> #[trigger] self.s()[i].id != id,
            decreases self.s().len() - k,
        {
            if self.items[k].id == id {
                proof {
                    self.lemma_idx_of(k as int);
                }
                let same = self.items[k].name == data.name && self.items[k].description
                    == data.description && self.items[k].expected == data.expected
                    && string_vecs_equal(&self.items[k].tags, &data.tags) && self.items[k].updated_at
                    == now;
                if same {
                    proof {
                        assert(strs(old(self).items@[k as int].tags) =~= strs(data.tags));
                        assert(old(self).s()[k as int] =~= TestcheckModel {
                            name: data.name@,
                            description: data.description@,
                            expected: data.expected@,
                            tags: strs(data.tags),
                            updated_at: now,
                            ..old(self).s()[k as int]
                        });
                    }
                    return UpdateOutcome { matched_count: 1, modified_count: 0 };
                }
                let mut nu = self.items[k].clone();
                nu.name = data.name;
                nu.description = data.description;
                nu.expected = data.expected;
                nu.tags = data.tags;
                nu.updated_at = now;
                proof {
                    assert(nu@ =~= TestcheckModel {
                        name: nu.name@,
                        description: nu.description@,
                        expected: nu.expected@,
                        tags: strs(nu.tags),
                        updated_at: now,
                        ..old(self).s()[k as int]
                    });
                    assert(old(self).s()[k as int] != nu@);
                }
                self.items.set(k, nu);
                proof {
                    assert(self.s() =~= old(self).s().update(k as int, self.s()[k as int]));
                    assert forall|i: int| 0 <= i < self.s().len() implies #[trigger] self.s()[i].id
                        == old(self).s()[i].id by {
                        if i != k as int {
                            assert(self.s()[i] == old(self).s()[i]);
                        }
                    }
                }
                return UpdateOutcome { matched_count: 1, modified_count: 1 };
            }
            k = k + 1;
        }
        UpdateOutcome { matched_count: 0, modified_count: 0 }
    }

    /// Delete a check. The outcome reports how many rows were removed.
    #[verifier::loop_isolation(false)]
    pub fn delete_testcheck(&mut self, id: u64) -> (r: DeleteOutcome)
        requires
            old(self).wf(),
        ensures
            final(self).wf(),
            final(self).next_id == old(self).next_id,
            !old(self).contains_id(id) ==> r.deleted_count == 0 && final(self).s() == old(self).s(),
            old(self).contains_id(id) ==> r.deleted_count == 1 && final(self).s() == old(
                self,
            ).s().remove(old(self).idx_of(id)),
            !final(self).contains_id(id),
    {
        let mut k: usize = 0;
        while k < self.items.len()
            invariant
                *self == *old(self),
                k <= self.s().len(),
                forall|i: int| 0 <= i < k ==> #[trigger] self.s()[i].id != id,
            decreases self.s().len() - k,
        {
            if self.items[k].id == id {
                proof {
                    self.lemma_idx_of(k as int);
                }
                self.items.remove(k);
                proof {
                    let k0 = k as int;
                    assert(self.s() =~= old(self).s().remove(k0));
                    assert forall|i: int| 0 <= i < self.s().len() implies #[trigger] self.s()[i].id
                        != id && self.s()[i].id < self.next_id by {
                        if i < k0 {
                            assert(self.s()[i] == old(self).s()[i]);
                        } else {
                            assert(self.s()[i] == old(self).s()[i + 1]);
                        }
                    }
                    assert forall|i: int, j: int|
                        0 <= i < self.s().len() && 0 <= j < self.s().len() && i
                            != j implies #[trigger] self.s()[i].id != #[trigger] self.s()[j].id by {
                        let ii = if i < k0 {
                            i
                        } else {
                            i + 1
                        };
                        let jj = if j < k0 {
                            j
                        } else {
                            j + 1
                        };
                        assert(self.s()[i] == old(self).s()[ii]);
                        assert(self.s()[j] == old(self).s()[jj]);
                    }
                }
                return DeleteOutcome { deleted_count: 1 };
            }
            k = k + 1;
        }
        DeleteOutcome { deleted_count: 0 }
    }

    /// Delete every check of a test list. The outcome reports how many
    /// rows were removed; afterwards the list has no checks left.
    #[verifier::loop_isolation(false)]
    pub fn delete_testlist_testchecks(&mut self, testlist_id: u64) -> (r: DeleteOutcome)
        requires
            old(self).wf(),
        ensures
            final(self).wf(),
            final(self).next_id == old(self).next_id,
            final(self).s() == Self::spec_without_testlist(old(self).s(), testlist_id),
            r.deleted_count == old(self).s().len() - final(self).s().len(),
            forall|i: int| 0 <= i < final(self).s().len() ==> #[trigger] final(self).s()[i].testlist_id != testlist_id,
    {
        let mut kept: Vec<Testcheck> = Vec::new();
        let mut k: usize = 0;
        while k < self.items.len()
            invariant
                *self == *old(self),
                k <= self.s().len(),
                kept@.len() <= k,
                Seq::new(kept@.len(), |i: int| kept@[i]@) == Self::spec_without_testlist(
                    self.s().take(k as int),
                    testlist_id,
                ),
            decreases self.s().len() - k,
        {
            let ghost prefix = self.s().take(k as int);
            let ghost next = self.s().take(k as int + 1);
            proof {
                assert(next.drop_last() =~= prefix);
                assert(next.last() == self.s()[k as int]);
            }
            if self.items[k].testlist_id != testlist_id {
                kept.push(self.items[k].clone());
                proof {
                    assert(Seq::new(kept@.len(), |i: int| kept@[i]@)
                        =~= Self::spec_without_testlist(prefix, testlist_id).push(next.last()));
                }
            }
            k = k + 1;
        }
        proof {
            assert(old(self).s().take(old(self).s().len() as int) =~= old(self).s());
        }
        let removed = self.items.len() - kept.len();
        self.items = kept;
        let r = DeleteOutcome { deleted_count: removed as u64 };
        proof {
            let fin = Self::spec_without_testlist(old(self).s(), testlist_id);
            assert(self.s() =~= fin);
            Self::lemma_without_testlist_sub(old(self).s(), testlist_id);
            assert forall|i: int| 0 <= i < self.s().len() implies #[trigger] self.s()[
                i
            ].testlist_id != testlist_id && self.s()[i].id < self.next_id by {
                let j = choose|j: int| 0 <= j < old(self).s().len() && old(self).s()[j] == fin[i];
            }
            assert forall|i: int, j: int|
                0 <= i < self.s().len() && 0 <= j < self.s().len() && i
                    != j implies #[trigger] self.s()[i].id != #[trigger] self.s()[j].id by {
                let a = if i < j { i } else { j };
                let b = if i < j { j } else { i };
                let (ii, jj): (int, int) = choose|ii: int, jj: int|
                    0 <= ii < jj < old(self).s().len() && old(self).s()[ii] == fin[a] && old(
                        self,
                    ).s()[jj] == fin[b];
                assert(old(self).s()[ii].id != old(self).s()[jj].id);
            }
        }
        r
    }

    /// Every remaining check after removing a list's checks is a check
    /// of the original store outside that list, and distinct entries
    /// come from distinct original entries.
    proof fn lemma_without_testlist_sub(s: Seq<TestcheckModel>, testlist_id: u64)
        ensures
            forall|i: int|
                0 <= i < Self::spec_without_testlist(s, testlist_id).len()
                    ==> #[trigger] Self::spec_without_testlist(s, testlist_id)[i].testlist_id
                    != testlist_id,
            forall|i: int|
                0 <= i < Self::spec_without_testlist(s, testlist_id).len() ==> exists|j: int|
                    0 <= j < s.len() && s[j] == #[trigger] Self::spec_without_testlist(
                        s,
                        testlist_id,
                    )[i],
            Self::spec_without_testlist(s, testlist_id).len() <= s.len(),
            forall|i: int, j: int|
                0 <= i < j < Self::spec_without_testlist(s, testlist_id).len() ==> exists|
                    ii: int,
                    jj: int,
                |
                    0 <= ii < jj < s.len() && s[ii] == #[trigger] Self::spec_without_testlist(
                        s,
                        testlist_id,
                    )[i] && s[jj] == #[trigger] Self::spec_without_testlist(s, testlist_id)[j],
        decreases s.len(),
    {
        if s.len() > 0 {
            Self::lemma_without_testlist_sub(s.drop_last(), testlist_id);
            let rest = Self::spec_without_testlist(s.drop_last(), testlist_id);
            let whole = Self::spec_without_testlist(s, testlist_id);
            assert forall|i: int| 0 <= i < whole.len() implies exists|j: int|
                0 <= j < s.len() && s[j] == #[trigger] whole[i] by {
                if i < rest.len() {
                    let j = choose|j: int| 0 <= j < s.drop_last().len() && s.drop_last()[j] == rest[i];
                    assert(s[j] == whole[i]);
                } else {
                    assert(s[s.len() - 1] == whole[i]);
                }
            }
            assert forall|i: int, j: int| 0 <= i < j < whole.len() implies exists|ii: int, jj: int|
                0 <= ii < jj < s.len() && s[ii] == #[trigger] whole[i] && s[jj]
                    == #[trigger] whole[j] by {
                if j < rest.len() {
                    let (ii, jj): (int, int) = choose|ii: int, jj: int|
                        0 <= ii < jj < s.drop_last().len() && s.drop_last()[ii] == rest[i]
                            && s.drop_last()[jj] == rest[j];
                    assert(s[ii] == whole[i] && s[jj] == whole[j]);
                } else {
                    let ii = choose|ii: int|
                        0 <= ii < s.drop_last().len() && s.drop_last()[ii] == rest[i];
                    assert(s[ii] == whole[i] && s[s.len() - 1] == whole[j]);
                }
            }
        }
    }

    /// Reorder the checks of a test list: the payload lists check ids in
    /// their new order, and each check of this list named by the payload
    /// takes the payload index of its id as its position. Payload
    /// entries naming a check of another list, or no check at all, are
    /// skipped and excluded from the returned count.
    #[verifier::loop_isolation(false)]
    pub fn update_testlist_testchecks_positions(&mut self, testlist_id: u64, ids: &Vec<u64>) -> (r:
        i32)
        requires
            old(self).wf(),
            ids@.len() <= u16::MAX,
        ensures
            final(self).wf(),
            final(self).next_id == old(self).next_id,
            final(self).s() == spec_reordered(old(self).s(), testlist_id, ids@),
            r == spec_reorder_count(old(self).s(), testlist_id, ids@),
    {
        let ghost s0 = old(self).s();
        let mut updates: i32 = 0;
        let mut i: usize = 0;
        proof {
            assert(self.s() =~= spec_reordered(s0, testlist_id, ids@.take(0)));
        }
        while i < ids.len()
            invariant
                i <= ids@.len(),
                self.next_id == old(self).next_id,
                self.s().len() == s0.len(),
                self.s() == spec_reordered(s0, testlist_id, ids@.take(i as int)),
                forall|j: int| 0 <= j < s0.len() ==> #[trigger] self.s()[j].id == s0[j].id
                    && self.s()[j].testlist_id == s0[j].testlist_id,
                self.wf(),
                updates == spec_reorder_count(s0, testlist_id, ids@.take(i as int)),
                updates <= i,
            decreases ids@.len() - i,
        {
            let ghost before = *self;
            let ghost tk = ids@.take(i as int);
            let ghost tk1 = ids@.take(i as int + 1);
            proof {
                assert(tk1.drop_last() =~= tk);
                assert(tk1.last() == ids@[i as int]);
            }
            let id = ids[i];
            match self.find_in_list(testlist_id, id) {
                Some(k) => {
                    proof {
                        self.lemma_idx_of(k as int);
                        assert(spec_has_check(s0, testlist_id, id)) by {
                            assert(s0[k as int].id == id && s0[k as int].testlist_id
                                == testlist_id);
                        }
                    }
                    let mut nu = self.items[k].clone();
                    nu.position = i as u16;
                    proof {
                        assert(nu@ =~= TestcheckModel {
                            position: i as u16,
                            ..before.s()[k as int]
                        });
                    }
                    self.items.set(k, nu);
                    updates = updates + 1;
                    proof {
                        assert(self.s() =~= before.s().update(k as int, nu@));
                        assert forall|j: int| 0 <= j < self.s().len() implies #[trigger] self.s()[
                            j
                        ] == spec_reordered(s0, testlist_id, tk1)[j] by {
                            if j != k as int {
                                assert(self.s()[j] == before.s()[j]);
                                assert(before.s()[j].id != before.s()[k as int].id);
                                assert(s0[j].id != id);
                                assert(spec_last_index_of(tk1, s0[j].id) == spec_last_index_of(
                                    tk,
                                    s0[j].id,
                                ));
                            } else {
                                assert(spec_last_index_of(tk1, s0[j].id) == i);
                            }
                        }
                        assert(self.s() =~= spec_reordered(s0, testlist_id, tk1));
                        assert forall|j: int| 0 <= j < self.s().len()
                            implies #[trigger] self.s()[j].id == s0[j].id && self.s()[
                            j
                        ].testlist_id == s0[j].testlist_id by {
                            if j != k as int {
                                assert(self.s()[j] == before.s()[j]);
                            }
                        }
                    }
                },
                None => {
                    proof {
                        assert(!spec_has_check(s0, testlist_id, id)) by {
                            if spec_has_check(s0, testlist_id, id) {
                                let j = choose|j: int|
                                    0 <= j < s0.len() && #[trigger] s0[j].id == id && s0[
                                        j
                                    ].testlist_id == testlist_id;
                                assert(before.s()[j].id == id && before.s()[j].testlist_id
                                    == testlist_id);
                            }
                        }
                        assert forall|j: int| 0 <= j < self.s().len() implies #[trigger] self.s()[
                            j
                        ] == spec_reordered(s0, testlist_id, tk1)[j] by {
                            if s0[j].testlist_id == testlist_id {
                                assert(s0[j].id != id);
                                assert(spec_last_index_of(tk1, s0[j].id) == spec_last_index_of(
                                    tk,
                                    s0[j].id,
                                ));
                            }
                        }
                        assert(self.s() =~= spec_reordered(s0, testlist_id, tk1));
                    }
                },
            }
            i = i + 1;
        }
        proof {
            assert(ids@.take(ids@.len() as int) =~= ids@);
        }
        updates
    }

    /// The index of the check of the given list with the given id.
    #[verifier::loop_isolation(false)]
    fn find_in_list(&self, testlist_id: u64, id: u64) -> (r: Option<usize>)
        ensures
            r is Some ==> r->0 < self.s().len() && self.s()[r->0 as int].id == id && self.s()[
                r->0 as int
            ].testlist_id == testlist_id,
            r is None ==> !spec_has_check(self.s(), testlist_id, id),
    {
        let mut k: usize = 0;
        while k < self.items.len()
            invariant
                k <= self.s().len(),
                forall|j: int| 0 <= j < k ==> #[trigger] self.s()[j].id != id || self.s()[
                    j
                ].testlist_id != testlist_id,
            decreases self.s().len() - k,
        {
            if self.items[k].id == id && self.items[k].testlist_id == testlist_id {
                return Some(k);
            }
            k = k + 1;
        }
        None
    }
}

/// Whether two string vectors hold the same character sequences.
#[verifier::loop_isolation(false)]
pub fn string_vecs_equal(a: &Vec<String>, b: &Vec<String>) -> (r: bool)
    ensures
        r == (strs(*a) == strs(*b)),
{
    if a.len() != b.len() {
        proof {
            assert(strs(*a).len() != strs(*b).len());
        }
        return false;
    }
    let mut k: usize = 0;
    while k < a.len()
        invariant
            k <= a@.len(),
            a@.len() == b@.len(),
            forall|i: int| 0 <= i < k ==> #[trigger] a@[i]@ == b@[i]@,
        decreases a@.len() - k,
    {
        if !(a[k] == b[k]) {
            proof {
                assert(strs(*a)[k as int] != strs(*b)[k as int]);
            }
            return false;
        }
        k = k + 1;
    }
    proof {
        assert(strs(*a) =~= strs(*b));
    }
    true
}

} // verus!
