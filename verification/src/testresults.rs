//! Test results: one per check of the executed list, created together
//! with the report and denormalizing the check's fields at that
//! instant. The `updated` flag stays false until the first submission.

use vstd::prelude::*;

use crate::outcome::{DeleteOutcome, UpdateOutcome};
use crate::strutil::{clone_string_vec, strs};
use crate::testchecks::Testcheck;
use crate::testreports::{clone_executors, TestExecutor};

verus! {

/// A test result record.
#[derive(Debug, PartialEq, Eq)]
pub struct Testresult {
    pub id: u64,
    pub account_id: u64,
    pub testreport_id: u64,
    pub testcheck_id: u64,
    pub name: String,
    pub description: String,
    pub expected: String,
    pub tags: Vec<String>,
    pub position: u16,
    pub updated: bool,
    pub pass: bool,
    pub flacky: bool,
    pub automated: bool,
    pub notes: String,
    pub url_issue: String,
    pub url_result: String,
    pub executors: Vec<TestExecutor>,
    pub created_at: i64,
    pub updated_at: i64,
}

/// Mathematical image of a `Testresult`.
#[verifier::ext_equal]
pub struct TestresultModel {
    pub id: u64,
    pub account_id: u64,
    pub testreport_id: u64,
    pub testcheck_id: u64,
    pub name: Seq<char>,
    pub description: Seq<char>,
    pub expected: Seq<char>,
    pub tags: Seq<Seq<char>>,
    pub position: u16,
    pub updated: bool,
    pub pass: bool,
    pub flacky: bool,
    pub automated: bool,
    pub notes: Seq<char>,
    pub url_issue: Seq<char>,
    pub url_result: Seq<char>,
    pub executors: Seq<TestExecutor>,
    pub created_at: i64,
    pub updated_at: i64,
}

impl View for Testresult {
    type V = TestresultModel;

    open spec fn view(&self) -> TestresultModel {
        TestresultModel {
            id: self.id,
            account_id: self.account_id,
            testreport_id: self.testreport_id,
            testcheck_id: self.testcheck_id,
            name: self.name@,
            description: self.description@,
            expected: self.expected@,
            tags: strs(self.tags),
            position: self.position,
            updated: self.updated,
            pass: self.pass,
            flacky: self.flacky,
            automated: self.automated,
            notes: self.notes@,
            url_issue: self.url_issue@,
            url_result: self.url_result@,
            executors: self.executors@,
            created_at: self.created_at,
            updated_at: self.updated_at,
        }
    }
}

impl Clone for Testresult {
    fn clone(&self) -> (res: Self)
        ensures
            res@ == self@,
    {
        let res = Testresult {
            id: self.id,
            account_id: self.account_id,
            testreport_id: self.testreport_id,
            testcheck_id: self.testcheck_id,
            name: self.name.clone(),
            description: self.description.clone(),
            expected: self.expected.clone(),
            tags: clone_string_vec(&self.tags),
            position: self.position,
            updated: self.updated,
            pass: self.pass,
            flacky: self.flacky,
            automated: self.automated,
            notes: self.notes.clone(),
            url_issue: self.url_issue.clone(),
            url_result: self.url_result.clone(),
            executors: clone_executors(&self.executors),
            created_at: self.created_at,
            updated_at: self.updated_at,
        };
        proof {
            assert(res@ =~= self@);
        }
        res
    }
}

/// Input carrying a result submission.
#[derive(Debug, PartialEq, Eq)]
pub struct TestresultDto {
    pub pass: bool,
    pub flacky: bool,
    pub automated: bool,
    pub notes: String,
    pub url_issue: String,
    pub url_result: String,
}

/// The fresh result created for one check of a report: the check's
/// fields denormalized, all outcome fields at their defaults.
pub open spec fn spec_fresh_result(
    id: u64,
    testreport_id: u64,
    check: crate::testchecks::TestcheckModel,
    now: i64,
) -> TestresultModel {
    TestresultModel {
        id: id,
        account_id: check.account_id,
        testreport_id: testreport_id,
        testcheck_id: check.id,
        name: check.name,
        description: check.description,
        expected: check.expected,
        tags: check.tags,
        position: check.position,
        updated: false,
        pass: false,
        flacky: false,
        automated: false,
        notes: Seq::empty(),
        url_issue: Seq::empty(),
        url_result: Seq::empty(),
        executors: Seq::empty(),
        created_at: now,
        updated_at: now,
    }
}

/// The part of a check that a fresh result denormalizes, together with
/// the check's id and owning account.
#[verifier::ext_equal]
pub struct CheckSnapshot {
    pub testcheck_id: u64,
    pub account_id: u64,
    pub name: Seq<char>,
    pub description: Seq<char>,
    pub expected: Seq<char>,
    pub tags: Seq<Seq<char>>,
    pub position: u16,
}

pub open spec fn spec_snap_of_check(c: crate::testchecks::TestcheckModel) -> CheckSnapshot {
    CheckSnapshot {
        testcheck_id: c.id,
        account_id: c.account_id,
        name: c.name,
        description: c.description,
        expected: c.expected,
        tags: c.tags,
        position: c.position,
    }
}

pub open spec fn spec_snap_of_result(rm: TestresultModel) -> CheckSnapshot {
    CheckSnapshot {
        testcheck_id: rm.testcheck_id,
        account_id: rm.account_id,
        name: rm.name,
        description: rm.description,
        expected: rm.expected,
        tags: rm.tags,
        position: rm.position,
    }
}

/// The snapshots of a sequence of checks, in order.
pub open spec fn spec_check_snaps(s: Seq<crate::testchecks::TestcheckModel>) -> Seq<CheckSnapshot> {
    Seq::new(s.len(), |i: int| spec_snap_of_check(s[i]))
}

/// Rearranging a sequence of checks rearranges their snapshots: two
/// sequences with the same multiset of checks have the same multiset of
/// snapshots.
pub proof fn lemma_check_snaps_multiset(
    s1: Seq<crate::testchecks::TestcheckModel>,
    s2: Seq<crate::testchecks::TestcheckModel>,
)
    requires
        s1.to_multiset() == s2.to_multiset(),
    ensures
        spec_check_snaps(s1).to_multiset() == spec_check_snaps(s2).to_multiset(),
    decreases s1.len(),
{
    broadcast use vstd::seq_lib::group_to_multiset_ensures;
    broadcast use vstd::multiset::group_multiset_axioms;

    if s1.len() == 0 {
        assert(s2.to_multiset().len() == 0);
        assert(s2.len() == 0);
        assert(spec_check_snaps(s1) =~= spec_check_snaps(s2));
    } else {
        let x = s1.last();
        assert(s1.contains(x));
        assert(s1.to_multiset().count(x) > 0);
        assert(s2.to_multiset().count(x) > 0);
        assert(s2.contains(x));
        let k = choose|k: int| 0 <= k < s2.len() && s2[k] == x;
        let s1p = s1.drop_last();
        let s2p = s2.remove(k);
        assert(s1 =~= s1p.push(x));
        assert(s1p.push(x).to_multiset() == s1p.to_multiset().insert(x));
        assert(s2p.to_multiset() == s2.to_multiset().remove(x));
        assert(s1p.to_multiset() =~= s2p.to_multiset()) by {
            assert forall|e: crate::testchecks::TestcheckModel|
                s1p.to_multiset().count(e) == s2p.to_multiset().count(e) by {
                assert(s1.to_multiset().count(e) == s2.to_multiset().count(e));
            }
        }
        lemma_check_snaps_multiset(s1p, s2p);
        let sn1 = spec_check_snaps(s1);
        let sn1p = spec_check_snaps(s1p);
        let sn2 = spec_check_snaps(s2);
        let sn2p = spec_check_snaps(s2p);
        assert(sn1 =~= sn1p.push(spec_snap_of_check(x)));
        assert(sn1p.push(spec_snap_of_check(x)).to_multiset() == sn1p.to_multiset().insert(
            spec_snap_of_check(x),
        ));
        assert(sn2p =~= sn2.remove(k));
        assert(sn2.remove(k).to_multiset() == sn2.to_multiset().remove(sn2[k]));
        assert(sn2[k] == spec_snap_of_check(x));
        assert(sn1.to_multiset() =~= sn2.to_multiset()) by {
            assert forall|e: CheckSnapshot| sn1.to_multiset().count(e) == sn2.to_multiset().count(
                e,
            ) by {
                assert(sn1p.to_multiset().count(e) == sn2p.to_multiset().count(e));
            }
        }
    }
}

/// The test result store: records with unique ids drawn from a counter.
pub struct TestresultStore {
    pub items: Vec<Testresult>,
    pub next_id: u64,
}

impl TestresultStore {
    /// The stored records, in insertion order, as their models.
    pub open spec fn s(&self) -> Seq<TestresultModel> {
        Seq::new(self.items@.len(), |i: int| self.items@[i]@)
    }

    /// Ids are unique and below the counter.
    pub open spec fn wf(&self) -> bool {
        &&& forall|i: int, j: int|
            0 <= i < self.s().len() && 0 <= j < self.s().len() && i != j
                ==> #[trigger] self.s()[i].id != #[trigger] self.s()[j].id
        &&& forall|i: int| 0 <= i < self.s().len() ==> #[trigger] self.s()[i].id < self.next_id
    }

    pub open spec fn contains_id(&self, id: u64) -> bool {
        exists|i: int| 0 <= i < self.s().len() && #[trigger] self.s()[i].id == id
    }

    pub open spec fn idx_of(&self, id: u64) -> int {
        choose|i: int| 0 <= i < self.s().len() && #[trigger] self.s()[i].id == id
    }

    /// The record with the given id, if any.
    pub open spec fn spec_get(&self, id: u64) -> Option<TestresultModel> {
        if self.contains_id(id) {
            Some(self.s()[self.idx_of(id)])
        } else {
            None
        }
    }

    /// The results of `s`, kept in order, under the given report.
    pub open spec fn spec_testreport_testresults(s: Seq<TestresultModel>, testreport_id: u64) -> Seq<
        TestresultModel,
    >
        decreases s.len(),
    {
        if s.len() == 0 {
            Seq::empty()
        } else {
            let rest = Self::spec_testreport_testresults(s.drop_last(), testreport_id);
            if s.last().testreport_id == testreport_id {
                rest.push(s.last())
            } else {
                rest
            }
        }
    }

    /// The results of `s`, kept in order, not under the given report.
    pub open spec fn spec_without_testreport(s: Seq<TestresultModel>, testreport_id: u64) -> Seq<
        TestresultModel,
    >
        decreases s.len(),
    {
        if s.len() == 0 {
            Seq::empty()
        } else {
            let rest = Self::spec_without_testreport(s.drop_last(), testreport_id);
            if s.last().testreport_id != testreport_id {
                rest.push(s.last())
            } else {
                rest
            }
        }
    }

    /// An id occurs at exactly one index.
    pub proof fn lemma_idx_of(&self, i: int)
        requires
            self.wf(),
            0 <= i < self.s().len(),
        ensures
            self.contains_id(self.s()[i].id),
            self.idx_of(self.s()[i].id) == i,
    {
        assert(self.contains_id(self.s()[i].id));
    }

    /// An empty store.
    pub fn new() -> (r: Self)
        ensures
            r.wf(),
            r.s().len() == 0,
            r.next_id == 1,
    {
        TestresultStore { items: Vec::new(), next_id: 1 }
    }

    /// All test results, in insertion order.
    #[verifier::loop_isolation(false)]
    pub fn get_all(&self) -> (r: Vec<Testresult>)
        ensures
            r@.len() == self.s().len(),
            forall|i: int| 0 <= i < r@.len() ==> #[trigger] r@[i]@ == self.s()[i],
    {
        let mut r: Vec<Testresult> = Vec::new();
        let mut k: usize = 0;
        while k < self.items.len()
            invariant
                k <= self.s().len(),
                r@.len() == k,
                forall|i: int| 0 <= i < k ==> #[trigger] r@[i]@ == self.s()[i],
            decreases self.s().len() - k,
        {
            r.push(self.items[k].clone());
            k = k + 1;
        }
        r
    }

    /// Fetch a test result by id.
    #[verifier::loop_isolation(false)]
    pub fn get_testresult_by_id(&self, id: u64) -> (r: Option<Testresult>)
        requires
            self.wf(),
        ensures
            r is Some <==> self.contains_id(id),
            r is Some ==> r->0@ == self.spec_get(id)->0,
    {
        let mut k: usize = 0;
        while k < self.items.len()
            invariant
                k <= self.s().len(),
                forall|i: int| 0 <= i < k ==> #[trigger] self.s()[i].id != id,
            decreases self.s().len() - k,
        {
            if self.items[k].id == id {
                proof {
                    self.lemma_idx_of(k as int);
                }
                return Some(self.items[k].clone());
            }
            k = k + 1;
        }
        None
    }

    /// The results under a report, in store order.
    #[verifier::loop_isolation(false)]
    pub fn get_testreport_testresults(&self, testreport_id: u64) -> (r: Vec<Testresult>)
        ensures
            Seq::new(r@.len(), |i: int| r@[i]@) == Self::spec_testreport_testresults(
                self.s(),
                testreport_id,
            ),
    {
        let mut r: Vec<Testresult> = Vec::new();
        let mut k: usize = 0;
        while k < self.items.len()
            invariant
                k <= self.s().len(),
                Seq::new(r@.len(), |i: int| r@[i]@) == Self::spec_testreport_testresults(
                    self.s().take(k as int),
                    testreport_id,
                ),
            decreases self.s().len() - k,
        {
            let ghost prefix = self.s().take(k as int);
            let ghost next = self.s().take(k as int + 1);
            proof {
                assert(next.drop_last() =~= prefix);
                assert(next.last() == self.s()[k as int]);
            }
            if self.items[k].testreport_id == testreport_id {
                r.push(self.items[k].clone());
                proof {
                    assert(Seq::new(r@.len(), |i: int| r@[i]@)
                        =~= Self::spec_testreport_testresults(prefix, testreport_id).push(
                        next.last(),
                    ));
                }
            }
            k = k + 1;
        }
        proof {
            assert(self.s().take(self.s().len() as int) =~= self.s());
        }
        r
    }

    /// Create the result of one check under a report, denormalizing the
    /// check's fields; the outcome fields start at their defaults and
    /// the `updated` flag is false. Returns the new result's id.
    pub fn create_testresult(&mut self, testreport_id: u64, testcheck: &Testcheck, now: i64) -> (r:
        u64)
        requires
            old(self).wf(),
            old(self).next_id < u64::MAX,
        ensures
            final(self).wf(),
            r == old(self).next_id,
            final(self).next_id == old(self).next_id + 1,
            final(self).s() == old(self).s().push(
                spec_fresh_result(old(self).next_id, testreport_id, testcheck@, now),
            ),
    {
        let id = self.next_id;
        self.items.push(
            Testresult {
                id,
                account_id: testcheck.account_id,
                testreport_id,
                testcheck_id: testcheck.id,
                name: testcheck.name.clone(),
                description: testcheck.description.clone(),
                expected: testcheck.expected.clone(),
                tags: clone_string_vec(&testcheck.tags),
                position: testcheck.position,
                updated: false,
                pass: false,
                flacky: false,
                automated: false,
                notes: String::new(),
                url_issue: String::new(),
                url_result: String::new(),
                executors: Vec::new(),
                created_at: now,
                updated_at: now,
            },
        );
        self.next_id = self.next_id + 1;
        proof {
            assert forall|i: int| 0 <= i < self.s().len() && i != old(self).s().len()
                implies #[trigger] self.s()[i] == old(self).s()[i] by {}
            assert(self.s().last() =~= spec_fresh_result(
                old(self).next_id,
                testreport_id,
                testcheck@,
                now,
            ));
            assert(self.s() =~= old(self).s().push(self.s().last()));
        }
        id
    }

    /// Record a submission on a result: the outcome fields are replaced,
    /// the `updated` flag is raised, and `updated_at` is re-stamped. A
    /// missing id matches nothing; a submission that changes nothing
    /// counts as matched but not modified.
    #[verifier::loop_isolation(false)]
    pub fn update_testresult(&mut self, id: u64, data: TestresultDto, now: i64) -> (r:
        UpdateOutcome)
        requires
            old(self).wf(),
        ensures
            final(self).wf(),
            final(self).next_id == old(self).next_id,
            !old(self).contains_id(id) ==> r.matched_count == 0 && r.modified_count == 0
                && final(self).s() == old(self).s(),
            old(self).contains_id(id) ==> {
                let i = old(self).idx_of(id);
                let u = old(self).s()[i];
                let nu = TestresultModel {
                    updated: true,
                    pass: data.pass,
                    flacky: data.flacky,
                    automated: data.automated,
                    notes: data.notes@,
                    url_issue: data.url_issue@,
                    url_result: data.url_result@,
                    updated_at: now,
                    ..u
                };
                &&& r.matched_count == 1
                &&& (u == nu ==> r.modified_count == 0 && final(self).s() == old(self).s())
                &&& (u != nu ==> r.modified_count == 1 && final(self).s() == old(self).s().update(
                    i,
                    nu,
                ))
            },
    {
        let mut k: usize = 0;
        while k < self.items.len()
            invariant
                *self == *old(self),
                k <= self.s().len(),
                forall|i: int| 0 <= i < k ==> #[trigger] self.s()[i].id != id,
            decreases self.s().len() - k,
        {
            if self.items[k].id == id {
                proof {
                    self.lemma_idx_of(k as int);
                }
                let same = self.items[k].updated && self.items[k].pass == data.pass
                    && self.items[k].flacky == data.flacky && self.items[k].automated
                    == data.automated && self.items[k].notes == data.notes
                    && self.items[k].url_issue == data.url_issue && self.items[k].url_result
                    == data.url_result && self.items[k].updated_at == now;
                if same {
                    proof {
                        assert(old(self).s()[k as int] =~= TestresultModel {
                            updated: true,
                            pass: data.pass,
                            flacky: data.flacky,
                            automated: data.automated,
                            notes: data.notes@,
                            url_issue: data.url_issue@,
                            url_result: data.url_result@,
                            updated_at: now,
                            ..old(self).s()[k as int]
                        });
                    }
                    return UpdateOutcome { matched_count: 1, modified_count: 0 };
                }
                let mut nu = self.items[k].clone();
                nu.updated = true;
                nu.pass = data.pass;
                nu.flacky = data.flacky;
                nu.automated = data.automated;
                nu.notes = data.notes;
                nu.url_issue = data.url_issue;
                nu.url_result = data.url_result;
                nu.updated_at = now;
                proof {
                    assert(nu@ =~= TestresultModel {
                        updated: true,
                        pass: nu.pass,
                        flacky: nu.flacky,
                        automated: nu.automated,
                        notes: nu.notes@,
                        url_issue: nu.url_issue@,
                        url_result: nu.url_result@,
                        updated_at: now,
                        ..old(self).s()[k as int]
                    });
                    assert(old(self).s()[k as int] != nu@);
                }
                self.items.set(k, nu);
                proof {
                    assert(self.s() =~= old(self).s().update(k as int, self.s()[k as int]));
                    assert forall|i: int| 0 <= i < self.s().len() implies #[trigger] self.s()[i].id
                        == old(self).s()[i].id by {
                        if i != k as int {
                            assert(self.s()[i] == old(self).s()[i]);
                        }
                    }
                }
                return UpdateOutcome { matched_count: 1, modified_count: 1 };
            }
            k = k + 1;
        }
        UpdateOutcome { matched_count: 0, modified_count: 0 }
    }

    /// Delete a result. The outcome reports how many rows were removed.
    #[verifier::loop_isolation(false)]
    pub fn delete_testresult(&mut self, id: u64) -> (r: DeleteOutcome)
        requires
            old(self).wf(),
        ensures
            final(self).wf(),
            final(self).next_id == old(self).next_id,
            !old(self).contains_id(id) ==> r.deleted_count == 0 && final(self).s() == old(self).s(),
            old(self).contains_id(id) ==> r.deleted_count == 1 && final(self).s() == old(
                self,
            ).s().remove(old(self).idx_of(id)),
            !final(self).contains_id(id),
    {
        let mut k: usize = 0;
        while k < self.items.len()
            invariant
                *self == *old(self),
                k <= self.s().len(),
                forall|i: int| 0 <= i < k ==> #[trigger] self.s()[i].id != id,
            decreases self.s().len() - k,
        {
            if self.items[k].id == id {
                proof {
                    self.lemma_idx_of(k as int);
                }
                self.items.remove(k);
                proof {
                    let k0 = k as int;
                    assert(self.s() =~= old(self).s().remove(k0));
                    assert forall|i: int| 0 <= i < self.s().len() implies #[trigger] self.s()[i].id
                        != id && self.s()[i].id < self.next_id by {
                        if i < k0 {
                            assert(self.s()[i] == old(self).s()[i]);
                        } else {
                            assert(self.s()[i] == old(self).s()[i + 1]);
                        }
                    }
                    assert forall|i: int, j: int|
                        0 <= i < self.s().len() && 0 <= j < self.s().len() && i
                            != j implies #[trigger] self.s()[i].id != #[trigger] self.s()[j].id by {
                        let ii = if i < k0 {
                            i
                        } else {
                            i + 1
                        };
                        let jj = if j < k0 {
                            j
                        } else {
                            j + 1
                        };
                        assert(self.s()[i] == old(self).s()[ii]);
                        assert(self.s()[j] == old(self).s()[jj]);
                    }
                }
                return DeleteOutcome { deleted_count: 1 };
            }
            k = k + 1;
        }
        DeleteOutcome { deleted_count: 0 }
    }

    /// Delete every result of a report. The outcome reports how many
    /// rows were removed; afterwards the report has no results left.
    #[verifier::loop_isolation(false)]
    pub fn delete_testreport_testresults(&mut self, testreport_id: u64) -> (r: DeleteOutcome)
        requires
            old(self).wf(),
        ensures
            final(self).wf(),
            final(self).next_id == old(self).next_id,
            final(self).s() == Self::spec_without_testreport(old(self).s(), testreport_id),
            r.deleted_count == old(self).s().len() - final(self).s().len(),
            forall|i: int|
                0 <= i < final(self).s().len() ==> #[trigger] final(self).s()[i].testreport_id
                    != testreport_id,
    {
        let mut kept: Vec<Testresult> = Vec::new();
        let mut k: usize = 0;
        while k < self.items.len()
            invariant
                *self == *old(self),
                k <= self.s().len(),
                kept@.len() <= k,
                Seq::new(kept@.len(), |i: int| kept@[i]@) == Self::spec_without_testreport(
                    self.s().take(k as int),
                    testreport_id,
                ),
            decreases self.s().len() - k,
        {
            let ghost prefix = self.s().take(k as int);
            let ghost next = self.s().take(k as int + 1);
            proof {
                assert(next.drop_last() =~= prefix);
                assert(next.last() == self.s()[k as int]);
            }
            if self.items[k].testreport_id != testreport_id {
                kept.push(self.items[k].clone());
                proof {
                    assert(Seq::new(kept@.len(), |i: int| kept@[i]@)
                        =~= Self::spec_without_testreport(prefix, testreport_id).push(next.last()));
                }
            }
            k = k + 1;
        }
        proof {
            assert(old(self).s().take(old(self).s().len() as int) =~= old(self).s());
        }
        let removed = self.items.len() - kept.len();
        self.items = kept;
        let r = DeleteOutcome { deleted_count: removed as u64 };
        proof {
            let fin = Self::spec_without_testreport(old(self).s(), testreport_id);
            assert(self.s() =~= fin);
            Self::lemma_without_testreport_sub(old(self).s(), testreport_id);
            assert forall|i: int| 0 <= i < self.s().len() implies #[trigger] self.s()[
                i
            ].testreport_id != testreport_id && self.s()[i].id < self.next_id by {
                let j = choose|j: int| 0 <= j < old(self).s().len() && old(self).s()[j] == fin[i];
            }
            assert forall|i: int, j: int|
                0 <= i < self.s().len() && 0 <= j < self.s().len() && i
                    != j implies #[trigger] self.s()[i].id != #[trigger] self.s()[j].id by {
                let a = if i < j {
                    i
                } else {
                    j
                };
                let b = if i < j {
                    j
                } else {
                    i
                };
                let (ii, jj): (int, int) = choose|ii: int, jj: int|
                    0 <= ii < jj < old(self).s().len() && old(self).s()[ii] == fin[a] && old(
                        self,
                    ).s()[jj] == fin[b];
                assert(old(self).s()[ii].id != old(self).s()[jj].id);
            }
        }
        r
    }

    /// Every remaining result after removing a report's results is a
    /// result of the original store outside that report, and distinct
    /// entries come from distinct original entries.
    proof fn lemma_without_testreport_sub(s: Seq<TestresultModel>, testreport_id: u64)
        ensures
            forall|i: int|
                0 <= i < Self::spec_without_testreport(s, testreport_id).len()
                    ==> #[trigger] Self::spec_without_testreport(s, testreport_id)[i].testreport_id
                    != testreport_id,
            forall|i: int|
                0 <= i < Self::spec_without_testreport(s, testreport_id).len() ==> exists|j: int|
                    0 <= j < s.len() && s[j] == #[trigger] Self::spec_without_testreport(
                        s,
                        testreport_id,
                    )[i],
            Self::spec_without_testreport(s, testreport_id).len() <= s.len(),
            forall|i: int, j: int|
                0 <= i < j < Self::spec_without_testreport(s, testreport_id).len() ==> exists|
                    ii: int,
                    jj: int,
                |
                    0 <= ii < jj < s.len() && s[ii] == #[trigger] Self::spec_without_testreport(
                        s,
                        testreport_id,
                    )[i] && s[jj] == #[trigger] Self::spec_without_testreport(s, testreport_id)[j],
        decreases s.len(),
    {
        if s.len() > 0 {
            Self::lemma_without_testreport_sub(s.drop_last(), testreport_id);
            let rest = Self::spec_without_testreport(s.drop_last(), testreport_id);
            let whole = Self::spec_without_testreport(s, testreport_id);
            assert forall|i: int| 0 <= i < whole.len() implies exists|j: int|
                0 <= j < s.len() && s[j] == #[trigger] whole[i] by {
                if i < rest.len() {
                    let j = choose|j: int|
                        0 <= j < s.drop_last().len() && s.drop_last()[j] == rest[i];
                    assert(s[j] == whole[i]);
                } else {
                    assert(s[s.len() - 1] == whole[i]);
                }
            }
            assert forall|i: int, j: int| 0 <= i < j < whole.len() implies exists|ii: int, jj: int|
                0 <= ii < jj < s.len() && s[ii] == #[trigger] whole[i] && s[jj]
                    == #[trigger] whole[j] by {
                if j < rest.len() {
                    let (ii, jj): (int, int) = choose|ii: int, jj: int|
                        0 <= ii < jj < s.drop_last().len() && s.drop_last()[ii] == rest[i]
                            && s.drop_last()[jj] == rest[j];
                    assert(s[ii] == whole[i] && s[jj] == whole[j]);
                } else {
                    let ii = choose|ii: int|
                        0 <= ii < s.drop_last().len() && s.drop_last()[ii] == rest[i];
                    assert(s[ii] == whole[i] && s[s.len() - 1] == whole[j]);
                }
            }
        }
    }
}

} // verus!
