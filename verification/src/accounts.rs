//! Accounts: the root of the tenancy tree, and their store.

use vstd::prelude::*;

use crate::outcome::{DeleteOutcome, UpdateOutcome};
use crate::strcmp::{lemma_lex_le_total, lemma_lex_le_trans, lex_le, str_le};

verus! {

/// An account record.
#[derive(Debug, PartialEq, Eq)]
pub struct Account {
    pub id: u64,
    pub name: String,
    pub created_at: i64,
    pub updated_at: i64,
}

/// Mathematical image of an `Account`.
#[verifier::ext_equal]
pub struct AccountModel {
    pub id: u64,
    pub name: Seq<char>,
    pub created_at: i64,
    pub updated_at: i64,
}

impl View for Account {
    type V = AccountModel;

    open spec fn view(&self) -> AccountModel {
        AccountModel {
            id: self.id,
            name: self.name@,
            created_at: self.created_at,
            updated_at: self.updated_at,
        }
    }
}

impl Clone for Account {
    fn clone(&self) -> (res: Self)
        ensures
            res@ == self@,
    {
        let res = Account {
            id: self.id,
            name: self.name.clone(),
            created_at: self.created_at,
            updated_at: self.updated_at,
        };
        proof {
            assert(res@ =~= self@);
        }
        res
    }
}

/// Input for creating or renaming an account.
#[derive(Debug, PartialEq, Eq)]
pub struct AccountDto {
    pub name: String,
}

/// A page of accounts together with the total count.
#[derive(Debug, PartialEq, Eq)]
pub struct AccountsList {
    pub list: Vec<Account>,
    pub total: u64,
}

/// An account as it appears in a login response: the account record
/// joined with the caller's manager flag on it.
#[derive(Debug, PartialEq, Eq)]
pub struct LoginAccount {
    pub id: u64,
    pub name: String,
    pub created_at: i64,
    pub updated_at: i64,
    pub is_manager: bool,
}

/// Mathematical image of a `LoginAccount`.
#[verifier::ext_equal]
pub struct LoginAccountModel {
    pub id: u64,
    pub name: Seq<char>,
    pub created_at: i64,
    pub updated_at: i64,
    pub is_manager: bool,
}

impl View for LoginAccount {
    type V = LoginAccountModel;

    open spec fn view(&self) -> LoginAccountModel {
        LoginAccountModel {
            id: self.id,
            name: self.name@,
            created_at: self.created_at,
            updated_at: self.updated_at,
            is_manager: self.is_manager,
        }
    }
}

/// Whether account `a` sorts at or before `b` by name, under the given
/// direction.
pub open spec fn spec_account_in_order(a: AccountModel, b: AccountModel, asc: bool) -> bool {
    if asc {
        lex_le(a.name, b.name)
    } else {
        lex_le(b.name, a.name)
    }
}

/// The ordering on accounts is total.
pub proof fn lemma_account_order_total(a: AccountModel, b: AccountModel, asc: bool)
    ensures
        spec_account_in_order(a, b, asc) || spec_account_in_order(b, a, asc),
{
    lemma_lex_le_total(a.name, b.name);
    lemma_lex_le_total(b.name, a.name);
}

/// The ordering on accounts is transitive.
pub proof fn lemma_account_order_trans(a: AccountModel, b: AccountModel, c: AccountModel, asc: bool)
    requires
        spec_account_in_order(a, b, asc),
        spec_account_in_order(b, c, asc),
    ensures
        spec_account_in_order(a, c, asc),
{
    if asc {
        lemma_lex_le_trans(a.name, b.name, c.name);
    } else {
        lemma_lex_le_trans(c.name, b.name, a.name);
    }
}

/// The sort an account listing's query values request: the name field
/// is the only one the allow-list admits.
pub open spec fn spec_account_sort_of(name: Seq<char>, dir: Seq<char>) -> Option<bool> {
    if name == "name"@ && dir == "asc"@ {
        Some(true)
    } else if name == "name"@ && dir == "desc"@ {
        Some(false)
    } else {
        None
    }
}

/// Parse the sort query values against the allow-list.
pub fn parse_account_sort(sort_by: &String, sort_dir: &String) -> (r: Option<bool>)
    ensures
        r == spec_account_sort_of(sort_by@, sort_dir@),
{
    if *sort_by == String::from_str("name") && *sort_dir == String::from_str("asc") {
        Some(true)
    } else if *sort_by == String::from_str("name") && *sort_dir == String::from_str("desc") {
        Some(false)
    } else {
        None
    }
}

/// A page cut from a sorted rearrangement of the stored accounts.
pub open spec fn spec_sorted_account_page(
    perm: Seq<AccountModel>,
    src: Seq<AccountModel>,
    page: Seq<AccountModel>,
    skip: int,
    limit: int,
    asc: bool,
) -> bool {
    &&& perm.to_multiset() == src.to_multiset()
    &&& perm.len() == src.len()
    &&& (forall|i: int, j: int|
        0 <= i < j < perm.len() ==> spec_account_in_order(
            #[trigger] perm[i],
            #[trigger] perm[j],
            asc,
        ))
    &&& page.len() == (if perm.len() <= skip {
        0int
    } else if perm.len() - skip < limit {
        perm.len() - skip
    } else {
        limit
    })
    &&& (forall|i: int| 0 <= i < page.len() ==> #[trigger] page[i] == perm[skip + i])
}

/// The account store: records with unique ids drawn from a counter.
pub struct AccountStore {
    pub items: Vec<Account>,
    pub next_id: u64,
}

impl AccountStore {
    /// The stored records, in insertion order, as their models.
    pub open spec fn s(&self) -> Seq<AccountModel> {
        Seq::new(self.items@.len(), |i: int| self.items@[i]@)
    }

    /// Ids are unique and below the counter.
    pub open spec fn wf(&self) -> bool {
        &&& forall|i: int, j: int|
            0 <= i < self.s().len() && 0 <= j < self.s().len() && i != j
                ==> #[trigger] self.s()[i].id != #[trigger] self.s()[j].id
        &&& forall|i: int| 0 <= i < self.s().len() ==> #[trigger] self.s()[i].id < self.next_id
    }

    pub open spec fn contains_id(&self, id: u64) -> bool {
        exists|i: int| 0 <= i < self.s().len() && #[trigger] self.s()[i].id == id
    }

    pub open spec fn idx_of(&self, id: u64) -> int {
        choose|i: int| 0 <= i < self.s().len() && #[trigger] self.s()[i].id == id
    }

    /// The record with the given id, if any.
    pub open spec fn spec_get(&self, id: u64) -> Option<AccountModel> {
        if self.contains_id(id) {
            Some(self.s()[self.idx_of(id)])
        } else {
            None
        }
    }

    /// An id occurs at exactly one index.
    pub proof fn lemma_idx_of(&self, i: int)
        requires
            self.wf(),
            0 <= i < self.s().len(),
        ensures
            self.contains_id(self.s()[i].id),
            self.idx_of(self.s()[i].id) == i,
    {
        assert(self.contains_id(self.s()[i].id));
    }

    /// An empty store.
    pub fn new() -> (r: Self)
        ensures
            r.wf(),
            r.s().len() == 0,
            r.next_id == 1,
    {
        AccountStore { items: Vec::new(), next_id: 1 }
    }

    /// All accounts, in insertion order.
    #[verifier::loop_isolation(false)]
    pub fn get_all_accounts(&self) -> (r: Vec<Account>)
        ensures
            r@.len() == self.s().len(),
            forall|i: int| 0 <= i < r@.len() ==> #[trigger] r@[i]@ == self.s()[i],
    {
        let mut r: Vec<Account> = Vec::new();
        let mut k: usize = 0;
        while k < self.items.len()
            invariant
                k <= self.s().len(),
                r@.len() == k,
                forall|i: int| 0 <= i < k ==> #[trigger] r@[i]@ == self.s()[i],
            decreases self.s().len() - k,
        {
            r.push(self.items[k].clone());
            k = k + 1;
        }
        r
    }

    /// Fetch an account by id.
    #[verifier::loop_isolation(false)]
    pub fn get_account_by_id(&self, id: u64) -> (r: Option<Account>)
        requires
            self.wf(),
        ensures
            r is Some <==> self.contains_id(id),
            r is Some ==> r->0@ == self.spec_get(id)->0,
    {
        let mut k: usize = 0;
        while k < self.items.len()
            invariant
                k <= self.s().len(),
                forall|i: int| 0 <= i < k ==> #[trigger] self.s()[i].id != id,
            decreases self.s().len() - k,
        {
            if self.items[k].id == id {
                proof {
                    self.lemma_idx_of(k as int);
                }
                return Some(self.items[k].clone());
            }
            k = k + 1;
        }
        None
    }

    /// The accounts of `s`, kept in order, whose ids occur in `ids`.
    pub open spec fn spec_ids_filter(s: Seq<AccountModel>, ids: Seq<u64>) -> Seq<AccountModel>
        decreases s.len(),
    {
        if s.len() == 0 {
            Seq::empty()
        } else {
            let rest = Self::spec_ids_filter(s.drop_last(), ids);
            if ids.contains(s.last().id) {
                rest.push(s.last())
            } else {
                rest
            }
        }
    }

    /// The accounts whose ids occur in `ids`, in store order.
    #[verifier::loop_isolation(false)]
    pub fn get_accounts_by_object_ids(&self, ids: &Vec<u64>) -> (r: Vec<Account>)
        ensures
            Seq::new(r@.len(), |i: int| r@[i]@) == Self::spec_ids_filter(self.s(), ids@),
    {
        let mut r: Vec<Account> = Vec::new();
        let mut k: usize = 0;
        while k < self.items.len()
            invariant
                k <= self.s().len(),
                Seq::new(r@.len(), |i: int| r@[i]@) == Self::spec_ids_filter(
                    self.s().take(k as int),
                    ids@,
                ),
            decreases self.s().len() - k,
        {
            let ghost prefix = self.s().take(k as int);
            let ghost next = self.s().take(k as int + 1);
            proof {
                assert(next.drop_last() =~= prefix);
                assert(next.last() == self.s()[k as int]);
            }
            let mut m: usize = 0;
            let mut found = false;
            while m < ids.len()
                invariant
                    m <= ids@.len(),
                    found == exists|i: int| 0 <= i < m && ids@[i] == self.items@[k as int].id,
                decreases ids@.len() - m,
            {
                if ids[m] == self.items[k].id {
                    found = true;
                    proof {
                        assert(ids@[m as int] == self.items@[k as int].id);
                    }
                    m = ids.len();
                } else {
                    m = m + 1;
                }
            }
            proof {
                assert(found == ids@.contains(self.s()[k as int].id));
            }
            if found {
                r.push(self.items[k].clone());
                proof {
                    assert(Seq::new(r@.len(), |i: int| r@[i]@) =~= Self::spec_ids_filter(
                        prefix,
                        ids@,
                    ).push(next.last()));
                }
            } else {
                proof {
                    assert(Self::spec_ids_filter(next, ids@) == Self::spec_ids_filter(
                        prefix,
                        ids@,
                    ));
                }
            }
            k = k + 1;
        }
        proof {
            assert(self.s().take(self.s().len() as int) =~= self.s());
        }
        r
    }

    /// A page of accounts in store order: up to `limit` records
    /// starting at `skip`, together with the total count.
    #[verifier::loop_isolation(false)]
    fn page_accounts(&self, skip: usize, limit: usize) -> (r: AccountsList)
        requires
            self.wf(),
        ensures
            r.total == self.s().len(),
            r.list@.len() == (if self.s().len() <= skip {
                0int
            } else if self.s().len() - skip < limit {
                self.s().len() - skip
            } else {
                limit as int
            }),
            forall|i: int|
                0 <= i < r.list@.len() ==> #[trigger] r.list@[i]@ == self.s()[skip + i],
    {
        let total = self.items.len() as u64;
        let mut list: Vec<Account> = Vec::new();
        if skip >= self.items.len() {
            return AccountsList { list, total };
        }
        let remaining = self.items.len() - skip;
        let take = if remaining < limit {
            remaining
        } else {
            limit
        };
        let end = skip + take;
        let mut k = skip;
        while k < end
            invariant
                skip <= k <= end,
                list@.len() == k - skip,
                forall|i: int| 0 <= i < list@.len() ==> #[trigger] list@[i]@ == self.s()[skip + i],
            decreases end - k,
        {
            list.push(self.items[k].clone());
            k = k + 1;
        }
        AccountsList { list, total }
    }

    /// Compare two accounts by name under the direction.
    fn account_le(a: &Account, b: &Account, asc: bool) -> (r: bool)
        ensures
            r == spec_account_in_order(a@, b@, asc),
    {
        if asc {
            str_le(&a.name, &b.name)
        } else {
            str_le(&b.name, &a.name)
        }
    }

    /// The stored accounts rearranged into sorted order by name.
    #[verifier::loop_isolation(false)]
    pub fn sorted_accounts(&self, asc: bool) -> (r: Vec<Account>)
        ensures
            Seq::new(r@.len(), |i: int| r@[i]@).to_multiset() == self.s().to_multiset(),
            r@.len() == self.s().len(),
            forall|i: int, j: int|
                0 <= i < j < r@.len() ==> spec_account_in_order(
                    #[trigger] r@[i]@,
                    #[trigger] r@[j]@,
                    asc,
                ),
    {
        broadcast use vstd::seq_lib::group_to_multiset_ensures;
        broadcast use vstd::multiset::group_multiset_axioms;

        let mut pool: Vec<Account> = Vec::new();
        let mut k: usize = 0;
        while k < self.items.len()
            invariant
                k <= self.s().len(),
                pool@.len() == k,
                forall|i: int| 0 <= i < k ==> #[trigger] pool@[i]@ == self.s()[i],
            decreases self.s().len() - k,
        {
            pool.push(self.items[k].clone());
            k = k + 1;
        }
        proof {
            assert(Seq::new(pool@.len(), |i: int| pool@[i]@) =~= self.s());
        }
        let ghost src = self.s();
        let mut out: Vec<Account> = Vec::new();
        while pool.len() > 0
            invariant
                Seq::new(out@.len(), |i: int| out@[i]@).to_multiset().add(
                    Seq::new(pool@.len(), |i: int| pool@[i]@).to_multiset(),
                ) =~= src.to_multiset(),
                out@.len() + pool@.len() == src.len(),
                forall|i: int, j: int|
                    0 <= i < j < out@.len() ==> spec_account_in_order(
                        #[trigger] out@[i]@,
                        #[trigger] out@[j]@,
                        asc,
                    ),
                forall|i: int, j: int|
                    0 <= i < out@.len() && 0 <= j < pool@.len() ==> spec_account_in_order(
                        #[trigger] out@[i]@,
                        #[trigger] pool@[j]@,
                        asc,
                    ),
            decreases pool@.len(),
        {
            proof {
                lemma_account_order_total(pool@[0]@, pool@[0]@, asc);
            }
            let mut mi: usize = 0;
            let mut mk: usize = 1;
            while mk < pool.len()
                invariant
                    mi < mk <= pool@.len(),
                    forall|i: int|
                        0 <= i < mk ==> spec_account_in_order(
                            pool@[mi as int]@,
                            #[trigger] pool@[i]@,
                            asc,
                        ),
                decreases pool@.len() - mk,
            {
                if Self::account_le(&pool[mk], &pool[mi], asc) {
                    proof {
                        assert forall|i: int| 0 <= i < mk + 1 implies spec_account_in_order(
                            pool@[mk as int]@,
                            #[trigger] pool@[i]@,
                            asc,
                        ) by {
                            if i < mk {
                                lemma_account_order_trans(
                                    pool@[mk as int]@,
                                    pool@[mi as int]@,
                                    pool@[i]@,
                                    asc,
                                );
                            } else {
                                lemma_account_order_total(pool@[mk as int]@, pool@[mk as int]@, asc);
                            }
                        }
                    }
                    mi = mk;
                } else {
                    proof {
                        lemma_account_order_total(pool@[mk as int]@, pool@[mi as int]@, asc);
                    }
                }
                mk = mk + 1;
            }
            let ghost pool_before = Seq::new(pool@.len(), |i: int| pool@[i]@);
            let ghost out_before = Seq::new(out@.len(), |i: int| out@[i]@);
            let item = pool.remove(mi);
            proof {
                assert(Seq::new(pool@.len(), |i: int| pool@[i]@) =~= pool_before.remove(mi as int));
                assert(pool_before.remove(mi as int).to_multiset() == pool_before.to_multiset()
                    .remove(pool_before[mi as int]));
                assert(pool_before[mi as int] == item@);
                assert(pool_before.to_multiset().count(item@) > 0) by {
                    assert(pool_before.contains(item@));
                }
            }
            out.push(item);
            proof {
                let out_now = Seq::new(out@.len(), |i: int| out@[i]@);
                let pool_now = Seq::new(pool@.len(), |i: int| pool@[i]@);
                assert(out_now =~= out_before.push(item@));
                assert(out_now.to_multiset() == out_before.to_multiset().insert(item@));
                assert forall|e: AccountModel|
                    out_now.to_multiset().count(e) + pool_now.to_multiset().count(e)
                        == src.to_multiset().count(e) by {
                    assert(out_before.to_multiset().count(e) + pool_before.to_multiset().count(e)
                        == src.to_multiset().count(e));
                }
                assert(out_now.to_multiset().add(pool_now.to_multiset()) =~= src.to_multiset());
                assert forall|i: int, j: int|
                    0 <= i < out_now.len() && 0 <= j
                        < pool_now.len() implies spec_account_in_order(
                    #[trigger] out_now[i],
                    #[trigger] pool_now[j],
                    asc,
                ) by {
                    let jj = if j < mi as int {
                        j
                    } else {
                        j + 1
                    };
                    assert(pool_now[j] == pool_before[jj]);
                    if i < out_before.len() {
                        assert(out_now[i] == out_before[i]);
                    } else {
                        assert(out_now[i] == item@);
                    }
                }
                assert forall|i: int, j: int|
                    0 <= i < j < out_now.len() implies spec_account_in_order(
                    #[trigger] out_now[i],
                    #[trigger] out_now[j],
                    asc,
                ) by {
                    if j < out_before.len() {
                        assert(out_now[i] == out_before[i] && out_now[j] == out_before[j]);
                    } else {
                        assert(out_now[j] == item@ && out_now[i] == out_before[i]);
                        assert(spec_account_in_order(out_before[i], pool_before[mi as int], asc));
                    }
                }
            }
        }
        out
    }

    /// A page of accounts with the total count. When the sort query
    /// names the name field and a direction, the page is cut from the
    /// accounts sorted by name; any other sort query leaves the store
    /// order in place.
    #[verifier::loop_isolation(false)]
    pub fn get_accounts(
        &self,
        skip: usize,
        limit: usize,
        sort_by: &String,
        sort_dir: &String,
    ) -> (r: AccountsList)
        requires
            self.wf(),
        ensures
            r.total == self.s().len(),
            spec_account_sort_of(sort_by@, sort_dir@) is None ==> r.list@.len() == (if self.s().len()
                <= skip {
                0int
            } else if self.s().len() - skip < limit {
                self.s().len() - skip
            } else {
                limit as int
            }) && (forall|i: int|
                0 <= i < r.list@.len() ==> #[trigger] r.list@[i]@ == self.s()[skip + i]),
            spec_account_sort_of(sort_by@, sort_dir@) is Some ==> exists|perm: Seq<AccountModel>|
                #![trigger perm.to_multiset()]
                spec_sorted_account_page(
                    perm,
                    self.s(),
                    Seq::new(r.list@.len(), |i: int| r.list@[i]@),
                    skip as int,
                    limit as int,
                    spec_account_sort_of(sort_by@, sort_dir@)->0,
                ),
    {
        let total = self.items.len() as u64;
        match parse_account_sort(sort_by, sort_dir) {
            None => self.page_accounts(skip, limit),
            Some(asc) => {
                let sorted = self.sorted_accounts(asc);
                let ghost perm = Seq::new(sorted@.len(), |i: int| sorted@[i]@);
                let mut list: Vec<Account> = Vec::new();
                if skip >= sorted.len() {
                    proof {
                        assert(spec_sorted_account_page(
                            perm,
                            self.s(),
                            Seq::new(list@.len(), |i: int| list@[i]@),
                            skip as int,
                            limit as int,
                            asc,
                        ));
                    }
                    return AccountsList { list, total };
                }
                let remaining = sorted.len() - skip;
                let take = if remaining < limit {
                    remaining
                } else {
                    limit
                };
                let end = skip + take;
                let mut k = skip;
                while k < end
                    invariant
                        skip <= k <= end,
                        end <= sorted@.len(),
                        list@.len() == k - skip,
                        forall|i: int|
                            0 <= i < list@.len() ==> #[trigger] list@[i]@ == perm[skip + i],
                    decreases end - k,
                {
                    list.push(sorted[k].clone());
                    k = k + 1;
                }
                proof {
                    assert(spec_sorted_account_page(
                        perm,
                        self.s(),
                        Seq::new(list@.len(), |i: int| list@[i]@),
                        skip as int,
                        limit as int,
                        asc,
                    ));
                }
                AccountsList { list, total }
            },
        }
    }

    /// Create an account named by the input, stamping both timestamps
    /// with `now`. Returns the new account's id.
    pub fn create_account(&mut self, data: AccountDto, now: i64) -> (r: u64)
        requires
            old(self).wf(),
            old(self).next_id < u64::MAX,
        ensures
            final(self).wf(),
            r == old(self).next_id,
            final(self).next_id == old(self).next_id + 1,
            final(self).s() == old(self).s().push(
                AccountModel { id: old(self).next_id, name: data.name@, created_at: now, updated_at: now },
            ),
    {
        let id = self.next_id;
        self.items.push(Account { id, name: data.name, created_at: now, updated_at: now });
        self.next_id = self.next_id + 1;
        proof {
            assert forall|i: int| 0 <= i < self.s().len() && i != old(self).s().len()
                implies #[trigger] self.s()[i] == old(self).s()[i] by {}
            assert(self.s() =~= old(self).s().push(self.s().last()));
            assert(self.s().last() =~= AccountModel {
                id: old(self).next_id,
                name: data.name@,
                created_at: now,
                updated_at: now,
            });
        }
        id
    }

    /// Rename an account, re-stamping `updated_at`. A missing id
    /// matches nothing; a rename that changes nothing counts as matched
    /// but not modified.
    #[verifier::loop_isolation(false)]
    pub fn update_account(&mut self, id: u64, data: AccountDto, now: i64) -> (r: UpdateOutcome)
        requires
            old(self).wf(),
        ensures
            final(self).wf(),
            final(self).next_id == old(self).next_id,
            !old(self).contains_id(id) ==> r.matched_count == 0 && r.modified_count == 0 && final(self).s() == old(self).s(),
            old(self).contains_id(id) ==> {
                let i = old(self).idx_of(id);
                let u = old(self).s()[i];
                let nu = AccountModel { name: data.name@, updated_at: now, ..u };
                &&& r.matched_count == 1
                &&& (u == nu ==> r.modified_count == 0 && final(self).s() == old(self).s())
                &&& (u != nu ==> r.modified_count == 1 && final(self).s() == old(self).s().update(
                    i,
                    nu,
                ))
            },
    {
        let mut k: usize = 0;
        while k < self.items.len()
            invariant
                *self == *old(self),
                k <= self.s().len(),
                forall|i: int| 0 <= i < k ==> #[trigger] self.s()[i].id != id,
            decreases self.s().len() - k,
        {
            if self.items[k].id == id {
                proof {
                    self.lemma_idx_of(k as int);
                }
                let same = self.items[k].name == data.name && self.items[k].updated_at == now;
                if same {
                    proof {
                        assert(old(self).s()[k as int] =~= AccountModel {
                            name: data.name@,
                            updated_at: now,
                            ..old(self).s()[k as int]
                        });
                    }
                    return UpdateOutcome { matched_count: 1, modified_count: 0 };
                }
                let mut nu = self.items[k].clone();
                nu.name = data.name;
                nu.updated_at = now;
                proof {
                    assert(nu@ =~= AccountModel {
                        name: nu.name@,
                        updated_at: now,
                        ..old(self).s()[k as int]
                    });
                    assert(old(self).s()[k as int] != nu@);
                }
                self.items.set(k, nu);
                proof {
                    assert(self.s() =~= old(self).s().update(k as int, self.s()[k as int]));
                    assert forall|i: int| 0 <= i < self.s().len() implies #[trigger] self.s()[i].id
                        == old(self).s()[i].id by {
                        if i != k as int {
                            assert(self.s()[i] == old(self).s()[i]);
                        }
                    }
                }
                return UpdateOutcome { matched_count: 1, modified_count: 1 };
            }
            k = k + 1;
        }
        UpdateOutcome { matched_count: 0, modified_count: 0 }
    }

    /// Delete an account. The outcome reports how many rows were
    /// removed.
    #[verifier::loop_isolation(false)]
    pub fn delete_account(&mut self, id: u64) -> (r: DeleteOutcome)
        requires
            old(self).wf(),
        ensures
            final(self).wf(),
            final(self).next_id == old(self).next_id,
            !old(self).contains_id(id) ==> r.deleted_count == 0 && final(self).s() == old(self).s(),
            old(self).contains_id(id) ==> r.deleted_count == 1 && final(self).s() == old(self).s().remove(old(self).idx_of(id)),
            !final(self).contains_id(id),
    {
        let mut k: usize = 0;
        while k < self.items.len()
            invariant
                *self == *old(self),
                k <= self.s().len(),
                forall|i: int| 0 <= i < k ==> #[trigger] self.s()[i].id != id,
            decreases self.s().len() - k,
        {
            if self.items[k].id == id {
                proof {
                    self.lemma_idx_of(k as int);
                }
                self.items.remove(k);
                proof {
                    let k0 = k as int;
                    assert(self.s() =~= old(self).s().remove(k0));
                    assert forall|i: int| 0 <= i < self.s().len() implies #[trigger] self.s()[i].id
                        != id && self.s()[i].id < self.next_id by {
                        if i < k0 {
                            assert(self.s()[i] == old(self).s()[i]);
                        } else {
                            assert(self.s()[i] == old(self).s()[i + 1]);
                        }
                    }
                    assert forall|i: int, j: int|
                        0 <= i < self.s().len() && 0 <= j < self.s().len() && i
                            != j implies #[trigger] self.s()[i].id != #[trigger] self.s()[j].id by {
                        let ii = if i < k0 {
                            i
                        } else {
                            i + 1
                        };
                        let jj = if j < k0 {
                            j
                        } else {
                            j + 1
                        };
                        assert(self.s()[i] == old(self).s()[ii]);
                        assert(self.s()[j] == old(self).s()[jj]);
                    }
                }
                return DeleteOutcome { deleted_count: 1 };
            }
            k = k + 1;
        }
        DeleteOutcome { deleted_count: 0 }
    }
}

} // verus!
