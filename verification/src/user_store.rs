//! The identity store: user records with unique ids and unique e-mail
//! addresses, credential verification, and password changes.

use vstd::prelude::*;

use crate::errors::{JsonError, JsonErrorModel};
use crate::strcmp::{lemma_lex_le_total, lemma_lex_le_trans, lex_le, str_le};
use crate::outcome::{DeleteOutcome, UpdateOutcome};
use crate::passwords::{bcrypt_valid_hash, hash_password, password_matches, verify_password};
use crate::sessions::LoginDto;
use crate::strutil::strs;
use crate::users::{User, UserDetailsDto, UserDto, UserModel};

verus! {

/// The fields a user listing may be sorted by: the fixed allow-list
/// that keeps arbitrary field names out of the query layer.
#[derive(Clone, Copy, Debug, PartialEq, Eq, Structural)]
pub enum SortField {
    Email,
    Firstname,
    Lastname,
}

/// The sort key of a user under a sortable field.
pub open spec fn spec_user_key(u: UserModel, f: SortField) -> Seq<char> {
    match f {
        SortField::Email => u.email,
        SortField::Firstname => u.firstname,
        SortField::Lastname => u.lastname,
    }
}

/// Whether `a` sorts at or before `b` under the field and direction.
pub open spec fn spec_user_in_order(a: UserModel, b: UserModel, f: SortField, asc: bool) -> bool {
    if asc {
        lex_le(spec_user_key(a, f), spec_user_key(b, f))
    } else {
        lex_le(spec_user_key(b, f), spec_user_key(a, f))
    }
}

/// The ordering on users is total.
pub proof fn lemma_user_order_total(a: UserModel, b: UserModel, f: SortField, asc: bool)
    ensures
        spec_user_in_order(a, b, f, asc) || spec_user_in_order(b, a, f, asc),
{
    lemma_lex_le_total(spec_user_key(a, f), spec_user_key(b, f));
    lemma_lex_le_total(spec_user_key(b, f), spec_user_key(a, f));
}

/// The ordering on users is transitive.
pub proof fn lemma_user_order_trans(
    a: UserModel,
    b: UserModel,
    c: UserModel,
    f: SortField,
    asc: bool,
)
    requires
        spec_user_in_order(a, b, f, asc),
        spec_user_in_order(b, c, f, asc),
    ensures
        spec_user_in_order(a, c, f, asc),
{
    if asc {
        lemma_lex_le_trans(spec_user_key(a, f), spec_user_key(b, f), spec_user_key(c, f));
    } else {
        lemma_lex_le_trans(spec_user_key(c, f), spec_user_key(b, f), spec_user_key(a, f));
    }
}

/// The sort field named by a query value, if the allow-list admits it.
pub open spec fn spec_sort_field_of(name: Seq<char>) -> Option<SortField> {
    if name == "email"@ {
        Some(SortField::Email)
    } else if name == "firstname"@ {
        Some(SortField::Firstname)
    } else if name == "lastname"@ {
        Some(SortField::Lastname)
    } else {
        None
    }
}

/// The direction named by a query value: ascending, descending, or
/// nothing recognizable.
pub open spec fn spec_sort_dir_of(dir: Seq<char>) -> Option<bool> {
    if dir == "asc"@ {
        Some(true)
    } else if dir == "desc"@ {
        Some(false)
    } else {
        None
    }
}

/// The sort a pair of query values requests: a field from the
/// allow-list together with a direction, or nothing.
pub open spec fn spec_sort_of(name: Seq<char>, dir: Seq<char>) -> Option<(SortField, bool)> {
    match (spec_sort_field_of(name), spec_sort_dir_of(dir)) {
        (Some(f), Some(asc)) => Some((f, asc)),
        _ => None,
    }
}

/// Parse the sort query values against the allow-list.
pub fn parse_user_sort(sort_by: &String, sort_dir: &String) -> (r: Option<(SortField, bool)>)
    ensures
        r == spec_sort_of(sort_by@, sort_dir@),
{
    let asc = if *sort_dir == String::from_str("asc") {
        Some(true)
    } else if *sort_dir == String::from_str("desc") {
        Some(false)
    } else {
        None
    };
    let field = if *sort_by == String::from_str("email") {
        Some(SortField::Email)
    } else if *sort_by == String::from_str("firstname") {
        Some(SortField::Firstname)
    } else if *sort_by == String::from_str("lastname") {
        Some(SortField::Lastname)
    } else {
        None
    };
    match (field, asc) {
        (Some(f), Some(a)) => Some((f, a)),
        _ => None,
    }
}

/// The sorted field of a user record.
fn user_field<'a>(u: &'a User, f: SortField) -> (r: &'a String)
    ensures
        r@ == spec_user_key(u@, f),
{
    match f {
        SortField::Email => &u.email,
        SortField::Firstname => &u.firstname,
        SortField::Lastname => &u.lastname,
    }
}

/// Compare two users under the field and direction.
fn user_le(a: &User, b: &User, f: SortField, asc: bool) -> (r: bool)
    ensures
        r == spec_user_in_order(a@, b@, f, asc),
{
    if asc {
        str_le(user_field(a, f), user_field(b, f))
    } else {
        str_le(user_field(b, f), user_field(a, f))
    }
}

/// A page cut from a sorted rearrangement of the stored users: the
/// rearrangement has the same records, sorted under the field and
/// direction, and the page is its subrange starting at `skip` with at
/// most `limit` entries.
pub open spec fn spec_sorted_user_page(
    perm: Seq<UserModel>,
    src: Seq<UserModel>,
    page: Seq<UserModel>,
    skip: int,
    limit: int,
    f: SortField,
    asc: bool,
) -> bool {
    &&& perm.to_multiset() == src.to_multiset()
    &&& perm.len() == src.len()
    &&& (forall|i: int, j: int|
        0 <= i < j < perm.len() ==> spec_user_in_order(#[trigger] perm[i], #[trigger] perm[j], f, asc))
    &&& page.len() == (if perm.len() <= skip {
        0int
    } else if perm.len() - skip < limit {
        perm.len() - skip
    } else {
        limit
    })
    &&& (forall|i: int| 0 <= i < page.len() ==> #[trigger] page[i] == perm[skip + i])
}

/// The identity store: user records with unique ids, ids drawn from a
/// counter, and unique e-mail addresses.
pub struct UserStore {
    pub items: Vec<User>,
    pub next_id: u64,
}

impl UserStore {
    /// The stored records, in insertion order, as their models.
    pub open spec fn s(&self) -> Seq<UserModel> {
        Seq::new(self.items@.len(), |i: int| self.items@[i]@)
    }

    /// Ids are unique and below the counter; e-mail addresses are
    /// unique across all users.
    pub open spec fn wf(&self) -> bool {
        &&& forall|i: int, j: int|
            0 <= i < self.s().len() && 0 <= j < self.s().len() && i != j
                ==> #[trigger] self.s()[i].id != #[trigger] self.s()[j].id
        &&& forall|i: int| 0 <= i < self.s().len() ==> #[trigger] self.s()[i].id < self.next_id
        &&& forall|i: int, j: int|
            0 <= i < self.s().len() && 0 <= j < self.s().len() && i != j
                ==> #[trigger] self.s()[i].email != #[trigger] self.s()[j].email
    }

    pub open spec fn contains_id(&self, id: u64) -> bool {
        exists|i: int| 0 <= i < self.s().len() && #[trigger] self.s()[i].id == id
    }

    pub open spec fn idx_of(&self, id: u64) -> int {
        choose|i: int| 0 <= i < self.s().len() && #[trigger] self.s()[i].id == id
    }

    /// The record with the given id, if any.
    pub open spec fn spec_get(&self, id: u64) -> Option<UserModel> {
        if self.contains_id(id) {
            Some(self.s()[self.idx_of(id)])
        } else {
            None
        }
    }

    pub open spec fn contains_email(&self, email: Seq<char>) -> bool {
        exists|i: int| 0 <= i < self.s().len() && #[trigger] self.s()[i].email == email
    }

    pub open spec fn email_idx_of(&self, email: Seq<char>) -> int {
        choose|i: int| 0 <= i < self.s().len() && #[trigger] self.s()[i].email == email
    }

    /// The record with the given e-mail address, if any.
    pub open spec fn spec_get_by_email(&self, email: Seq<char>) -> Option<UserModel> {
        if self.contains_email(email) {
            Some(self.s()[self.email_idx_of(email)])
        } else {
            None
        }
    }

    /// The user that a credential pair identifies: the user stored
    /// under the e-mail address, provided the password matches their
    /// hash. An unknown address and a wrong password both identify
    /// nobody.
    pub open spec fn spec_login_user(&self, email: Seq<char>, password: Seq<char>) -> Option<
        UserModel,
    > {
        match self.spec_get_by_email(email) {
            Some(u) => if password_matches(password, u.pwdhash) {
                Some(u)
            } else {
                None
            },
            None => None,
        }
    }

    /// An id occurs at exactly one index.
    pub proof fn lemma_idx_of(&self, i: int)
        requires
            self.wf(),
            0 <= i < self.s().len(),
        ensures
            self.contains_id(self.s()[i].id),
            self.idx_of(self.s()[i].id) == i,
    {
        assert(self.contains_id(self.s()[i].id));
    }

    /// An e-mail address occurs at exactly one index.
    pub proof fn lemma_email_idx_of(&self, i: int)
        requires
            self.wf(),
            0 <= i < self.s().len(),
        ensures
            self.contains_email(self.s()[i].email),
            self.email_idx_of(self.s()[i].email) == i,
    {
        assert(self.contains_email(self.s()[i].email));
    }

    /// An empty store.
    pub fn new() -> (r: Self)
        ensures
            r.wf(),
            r.s().len() == 0,
            r.next_id == 1,
    {
        UserStore { items: Vec::new(), next_id: 1 }
    }

    /// Fetch a user by id.
    #[verifier::loop_isolation(false)]
    pub fn get_user_by_id(&self, id: u64) -> (r: Option<User>)
        requires
            self.wf(),
        ensures
            r is Some <==> self.contains_id(id),
            r is Some ==> r->0@ == self.spec_get(id)->0,
    {
        let mut k: usize = 0;
        while k < self.items.len()
            invariant
                k <= self.s().len(),
                forall|i: int| 0 <= i < k ==> #[trigger] self.s()[i].id != id,
            decreases self.s().len() - k,
        {
            if self.items[k].id == id {
                proof {
                    self.lemma_idx_of(k as int);
                }
                return Some(self.items[k].clone());
            }
            k = k + 1;
        }
        None
    }

    /// Fetch a user by e-mail address.
    #[verifier::loop_isolation(false)]
    pub fn get_user_by_email(&self, email: &String) -> (r: Option<User>)
        requires
            self.wf(),
        ensures
            r is Some <==> self.contains_email(email@),
            r is Some ==> r->0@ == self.spec_get_by_email(email@)->0,
    {
        let mut k: usize = 0;
        while k < self.items.len()
            invariant
                k <= self.s().len(),
                forall|i: int| 0 <= i < k ==> #[trigger] self.s()[i].email != email@,
            decreases self.s().len() - k,
        {
            if self.items[k].email == *email {
                proof {
                    self.lemma_email_idx_of(k as int);
                }
                return Some(self.items[k].clone());
            }
            k = k + 1;
        }
        None
    }

    /// A page of users in store order: up to `limit` records starting
    /// at `skip`, together with the total count of stored users.
    #[verifier::loop_isolation(false)]
    fn page_users(&self, skip: usize, limit: usize) -> (r: crate::users::UsersList)
        requires
            self.wf(),
        ensures
            r.total == self.s().len(),
            r.list@.len() == (if self.s().len() <= skip {
                0int
            } else if self.s().len() - skip < limit {
                self.s().len() - skip
            } else {
                limit as int
            }),
            forall|i: int|
                0 <= i < r.list@.len() ==> #[trigger] r.list@[i]@ == self.s()[skip + i],
    {
        let total = self.items.len() as u64;
        let mut list: Vec<User> = Vec::new();
        if skip >= self.items.len() {
            return crate::users::UsersList { list, total };
        }
        let remaining = self.items.len() - skip;
        let take = if remaining < limit {
            remaining
        } else {
            limit
        };
        let end = skip + take;
        let mut k = skip;
        while k < end
            invariant
                skip <= k <= end,
                list@.len() == k - skip,
                forall|i: int| 0 <= i < list@.len() ==> #[trigger] list@[i]@ == self.s()[skip + i],
            decreases end - k,
        {
            list.push(self.items[k].clone());
            k = k + 1;
        }
        crate::users::UsersList { list, total }
    }

    /// The stored users rearranged into sorted order under the field
    /// and direction.
    #[verifier::loop_isolation(false)]
    pub fn sorted_users(&self, f: SortField, asc: bool) -> (r: Vec<User>)
        ensures
            Seq::new(r@.len(), |i: int| r@[i]@).to_multiset() == self.s().to_multiset(),
            r@.len() == self.s().len(),
            forall|i: int, j: int|
                0 <= i < j < r@.len() ==> spec_user_in_order(
                    #[trigger] r@[i]@,
                    #[trigger] r@[j]@,
                    f,
                    asc,
                ),
    {
        broadcast use vstd::seq_lib::group_to_multiset_ensures;
        broadcast use vstd::multiset::group_multiset_axioms;

        let mut pool: Vec<User> = Vec::new();
        let mut k: usize = 0;
        while k < self.items.len()
            invariant
                k <= self.s().len(),
                pool@.len() == k,
                forall|i: int| 0 <= i < k ==> #[trigger] pool@[i]@ == self.s()[i],
            decreases self.s().len() - k,
        {
            pool.push(self.items[k].clone());
            k = k + 1;
        }
        proof {
            assert(Seq::new(pool@.len(), |i: int| pool@[i]@) =~= self.s());
        }
        let ghost src = self.s();
        let mut out: Vec<User> = Vec::new();
        while pool.len() > 0
            invariant
                Seq::new(out@.len(), |i: int| out@[i]@).to_multiset().add(
                    Seq::new(pool@.len(), |i: int| pool@[i]@).to_multiset(),
                ) =~= src.to_multiset(),
                out@.len() + pool@.len() == src.len(),
                forall|i: int, j: int|
                    0 <= i < j < out@.len() ==> spec_user_in_order(
                        #[trigger] out@[i]@,
                        #[trigger] out@[j]@,
                        f,
                        asc,
                    ),
                forall|i: int, j: int|
                    0 <= i < out@.len() && 0 <= j < pool@.len() ==> spec_user_in_order(
                        #[trigger] out@[i]@,
                        #[trigger] pool@[j]@,
                        f,
                        asc,
                    ),
            decreases pool@.len(),
        {
            proof {
                lemma_user_order_total(pool@[0]@, pool@[0]@, f, asc);
            }
            let mut mi: usize = 0;
            let mut mk: usize = 1;
            while mk < pool.len()
                invariant
                    mi < mk <= pool@.len(),
                    forall|i: int|
                        0 <= i < mk ==> spec_user_in_order(
                            pool@[mi as int]@,
                            #[trigger] pool@[i]@,
                            f,
                            asc,
                        ),
                decreases pool@.len() - mk,
            {
                if user_le(&pool[mk], &pool[mi], f, asc) {
                    proof {
                        assert forall|i: int| 0 <= i < mk + 1 implies spec_user_in_order(
                            pool@[mk as int]@,
                            #[trigger] pool@[i]@,
                            f,
                            asc,
                        ) by {
                            if i < mk {
                                lemma_user_order_trans(
                                    pool@[mk as int]@,
                                    pool@[mi as int]@,
                                    pool@[i]@,
                                    f,
                                    asc,
                                );
                            } else {
                                lemma_user_order_total(pool@[mk as int]@, pool@[mk as int]@, f, asc);
                            }
                        }
                    }
                    mi = mk;
                } else {
                    proof {
                        lemma_user_order_total(pool@[mk as int]@, pool@[mi as int]@, f, asc);
                    }
                }
                mk = mk + 1;
            }
            let ghost pool_before = Seq::new(pool@.len(), |i: int| pool@[i]@);
            let ghost out_before = Seq::new(out@.len(), |i: int| out@[i]@);
            let item = pool.remove(mi);
            proof {
                assert(Seq::new(pool@.len(), |i: int| pool@[i]@) =~= pool_before.remove(mi as int));
                assert(pool_before.remove(mi as int).to_multiset() == pool_before.to_multiset()
                    .remove(pool_before[mi as int]));
                assert(pool_before[mi as int] == item@);
                assert(pool_before.to_multiset().count(item@) > 0) by {
                    assert(pool_before.contains(item@));
                }
            }
            out.push(item);
            proof {
                let out_now = Seq::new(out@.len(), |i: int| out@[i]@);
                let pool_now = Seq::new(pool@.len(), |i: int| pool@[i]@);
                assert(out_now =~= out_before.push(item@));
                assert(out_now.to_multiset() == out_before.to_multiset().insert(item@));
                assert forall|e: UserModel|
                    out_now.to_multiset().count(e) + pool_now.to_multiset().count(e)
                        == src.to_multiset().count(e) by {
                    assert(out_before.to_multiset().count(e) + pool_before.to_multiset().count(e)
                        == src.to_multiset().count(e));
                }
                assert(out_now.to_multiset().add(pool_now.to_multiset()) =~= src.to_multiset());
                assert forall|i: int, j: int|
                    0 <= i < out_now.len() && 0 <= j < pool_now.len() implies spec_user_in_order(
                    #[trigger] out_now[i],
                    #[trigger] pool_now[j],
                    f,
                    asc,
                ) by {
                    let jj = if j < mi as int {
                        j
                    } else {
                        j + 1
                    };
                    assert(pool_now[j] == pool_before[jj]);
                    if i < out_before.len() {
                        assert(out_now[i] == out_before[i]);
                    } else {
                        assert(out_now[i] == item@);
                    }
                }
                assert forall|i: int, j: int|
                    0 <= i < j < out_now.len() implies spec_user_in_order(
                    #[trigger] out_now[i],
                    #[trigger] out_now[j],
                    f,
                    asc,
                ) by {
                    if j < out_before.len() {
                        assert(out_now[i] == out_before[i] && out_now[j] == out_before[j]);
                    } else {
                        assert(out_now[j] == item@ && out_now[i] == out_before[i]);
                        assert(spec_user_in_order(out_before[i], pool_before[mi as int], f, asc));
                    }
                }
            }
        }
        out
    }

    /// A page of users with the total count. When the sort query names
    /// an allow-listed field and a direction, the page is cut from the
    /// users sorted under them; any other sort query leaves the store
    /// order in place.
    #[verifier::loop_isolation(false)]
    pub fn get_users(&self, skip: usize, limit: usize, sort_by: &String, sort_dir: &String) -> (r:
        crate::users::UsersList)
        requires
            self.wf(),
        ensures
            r.total == self.s().len(),
            spec_sort_of(sort_by@, sort_dir@) is None ==> r.list@.len() == (if self.s().len()
                <= skip {
                0int
            } else if self.s().len() - skip < limit {
                self.s().len() - skip
            } else {
                limit as int
            }) && (forall|i: int|
                0 <= i < r.list@.len() ==> #[trigger] r.list@[i]@ == self.s()[skip + i]),
            spec_sort_of(sort_by@, sort_dir@) is Some ==> exists|perm: Seq<UserModel>|
                #![trigger perm.to_multiset()]
                spec_sorted_user_page(
                    perm,
                    self.s(),
                    Seq::new(r.list@.len(), |i: int| r.list@[i]@),
                    skip as int,
                    limit as int,
                    (spec_sort_of(sort_by@, sort_dir@)->0).0,
                    (spec_sort_of(sort_by@, sort_dir@)->0).1,
                ),
    {
        let total = self.items.len() as u64;
        match parse_user_sort(sort_by, sort_dir) {
            None => self.page_users(skip, limit),
            Some((f, asc)) => {
                let sorted = self.sorted_users(f, asc);
                let ghost perm = Seq::new(sorted@.len(), |i: int| sorted@[i]@);
                let mut list: Vec<User> = Vec::new();
                if skip >= sorted.len() {
                    proof {
                        assert(spec_sorted_user_page(
                            perm,
                            self.s(),
                            Seq::new(list@.len(), |i: int| list@[i]@),
                            skip as int,
                            limit as int,
                            f,
                            asc,
                        ));
                    }
                    return crate::users::UsersList { list, total };
                }
                let remaining = sorted.len() - skip;
                let take = if remaining < limit {
                    remaining
                } else {
                    limit
                };
                let end = skip + take;
                let mut k = skip;
                while k < end
                    invariant
                        skip <= k <= end,
                        end <= sorted@.len(),
                        list@.len() == k - skip,
                        forall|i: int|
                            0 <= i < list@.len() ==> #[trigger] list@[i]@ == perm[skip + i],
                    decreases end - k,
                {
                    list.push(sorted[k].clone());
                    k = k + 1;
                }
                proof {
                    assert(spec_sorted_user_page(
                        perm,
                        self.s(),
                        Seq::new(list@.len(), |i: int| list@[i]@),
                        skip as int,
                        limit as int,
                        f,
                        asc,
                    ));
                }
                crate::users::UsersList { list, total }
            },
        }
    }

    /// Insert a user built from the input and an already-computed
    /// password hash. Succeeds exactly when the e-mail address is not
    /// taken. The membership list starts empty whatever the input
    /// carries; role tags are taken from the input.
    #[verifier::loop_isolation(false)]
    pub fn insert_user(&mut self, data: UserDto, pwdhash: String, now: i64) -> (r: Result<
        u64,
        JsonError,
    >)
        requires
            old(self).wf(),
            old(self).next_id < u64::MAX,
        ensures
            final(self).wf(),
            r is Ok <==> !old(self).contains_email(data.email@),
            r is Err ==> final(self).s() == old(self).s() && final(self).next_id == old(self).next_id && r->Err_0@ == JsonErrorModel::Internal("Error creating user"@),
            r is Ok ==> r->Ok_0 == old(self).next_id && final(self).next_id == old(self).next_id
                + 1 && final(self).s() == old(self).s().push(
                UserModel {
                    id: old(self).next_id,
                    email: data.email@,
                    pwdhash: pwdhash@,
                    firstname: data.firstname@,
                    lastname: data.lastname@,
                    roles: Some(strs(data.roles)),
                    accounts: Some(Seq::empty()),
                    created_at: now,
                    updated_at: now,
                },
            ),
    {
        let mut k: usize = 0;
        while k < self.items.len()
            invariant
                *self == *old(self),
                k <= self.s().len(),
                forall|i: int| 0 <= i < k ==> #[trigger] self.s()[i].email != data.email@,
            decreases self.s().len() - k,
        {
            if self.items[k].email == data.email {
                proof {
                    self.lemma_email_idx_of(k as int);
                }
                return Err(JsonError::Internal(String::from_str("Error creating user")));
            }
            k = k + 1;
        }
        let id = self.next_id;
        let user = User {
            id,
            email: data.email,
            pwdhash,
            firstname: data.firstname,
            lastname: data.lastname,
            roles: Some(data.roles),
            accounts: Some(Vec::new()),
            created_at: now,
            updated_at: now,
        };
        self.items.push(user);
        self.next_id = self.next_id + 1;
        proof {
            assert forall|i: int| 0 <= i < self.s().len() && i != old(self).s().len()
                implies #[trigger] self.s()[i] == old(self).s()[i] by {}
            assert(self.s().last().accounts == Some(Seq::<crate::users::UserAccount>::empty()));
            assert(self.s() =~= old(self).s().push(self.s().last()));
        }
        Ok(id)
    }

    /// Create a user: hash the password, then insert. Fails when the
    /// hashing call fails or the e-mail address is taken; the store is
    /// unchanged on failure.
    pub fn create_user(&mut self, data: UserDto, now: i64) -> (r: Result<u64, JsonError>)
        requires
            old(self).wf(),
            old(self).next_id < u64::MAX,
        ensures
            final(self).wf(),
            r is Ok ==> !old(self).contains_email(data.email@),
            old(self).contains_email(data.email@) ==> r is Err,
            r is Err ==> final(self).s() == old(self).s() && final(self).next_id == old(self).next_id && r->Err_0@ == JsonErrorModel::Internal("Error creating user"@),
            r is Ok ==> r->Ok_0 == old(self).next_id && final(self).next_id == old(self).next_id
                + 1 && final(self).s().len() == old(self).s().len() + 1 && final(self).s() == old(self).s().push(final(self).s().last()) && {
                let u = final(self).s().last();
                &&& u.id == old(self).next_id
                &&& u.email == data.email@
                &&& password_matches(data.password@, u.pwdhash)
                &&& u.firstname == data.firstname@
                &&& u.lastname == data.lastname@
                &&& u.roles == Some(strs(data.roles))
                &&& u.accounts == Some(Seq::<crate::users::UserAccount>::empty())
                &&& u.created_at == now
                &&& u.updated_at == now
            },
    {
        match hash_password(data.password.as_str()) {
            Ok(pwdhash) => self.insert_user(data, pwdhash, now),
            Err(_) => Err(JsonError::Internal(String::from_str("Error creating user"))),
        }
    }

    /// Update a user's name fields, re-stamping `updated_at`. A missing
    /// id matches nothing; an update that changes no field counts as
    /// matched but not modified.
    #[verifier::loop_isolation(false)]
    pub fn update_user(&mut self, id: u64, data: UserDetailsDto, now: i64) -> (r: UpdateOutcome)
        requires
            old(self).wf(),
        ensures
            final(self).wf(),
            final(self).next_id == old(self).next_id,
            !old(self).contains_id(id) ==> r.matched_count == 0 && r.modified_count == 0 && final(self).s() == old(self).s(),
            old(self).contains_id(id) ==> {
                let i = old(self).idx_of(id);
                let u = old(self).s()[i];
                let nu = UserModel {
                    firstname: data.firstname@,
                    lastname: data.lastname@,
                    updated_at: now,
                    ..u
                };
                &&& r.matched_count == 1
                &&& (u == nu ==> r.modified_count == 0 && final(self).s() == old(self).s())
                &&& (u != nu ==> r.modified_count == 1 && final(self).s() == old(self).s().update(
                    i,
                    nu,
                ))
            },
    {
        let mut k: usize = 0;
        while k < self.items.len()
            invariant
                *self == *old(self),
                k <= self.s().len(),
                forall|i: int| 0 <= i < k ==> #[trigger] self.s()[i].id != id,
            decreases self.s().len() - k,
        {
            if self.items[k].id == id {
                proof {
                    self.lemma_idx_of(k as int);
                }
                let same = self.items[k].firstname == data.firstname && self.items[k].lastname
                    == data.lastname && self.items[k].updated_at == now;
                if same {
                    proof {
                        assert(old(self).s()[k as int] =~= UserModel {
                            firstname: data.firstname@,
                            lastname: data.lastname@,
                            updated_at: now,
                            ..old(self).s()[k as int]
                        });
                    }
                    return UpdateOutcome { matched_count: 1, modified_count: 0 };
                }
                let mut nu = self.items[k].clone();
                nu.firstname = data.firstname;
                nu.lastname = data.lastname;
                nu.updated_at = now;
                proof {
                    assert(nu@ =~= UserModel {
                        firstname: data.firstname@,
                        lastname: data.lastname@,
                        updated_at: now,
                        ..old(self).s()[k as int]
                    });
                    assert(old(self).s()[k as int] != nu@);
                }
                self.items.set(k, nu);
                proof {
                    assert(self.s() =~= old(self).s().update(k as int, nu@));
                    assert forall|i: int| 0 <= i < self.s().len() implies #[trigger] self.s()[i].id
                        == old(self).s()[i].id && #[trigger] self.s()[i].email == old(self).s()[i].email by {
                        if i != k as int {
                            assert(self.s()[i] == old(self).s()[i]);
                        }
                    }
                }
                return UpdateOutcome { matched_count: 1, modified_count: 1 };
            }
            k = k + 1;
        }
        UpdateOutcome { matched_count: 0, modified_count: 0 }
    }

    /// Replace a user's password hash with an already-computed one,
    /// re-stamping `updated_at`.
    #[verifier::loop_isolation(false)]
    pub fn set_password_hash(&mut self, id: u64, pwdhash: String, now: i64) -> (r: UpdateOutcome)
        requires
            old(self).wf(),
        ensures
            final(self).wf(),
            final(self).next_id == old(self).next_id,
            !old(self).contains_id(id) ==> r.matched_count == 0 && r.modified_count == 0 && final(self).s() == old(self).s(),
            old(self).contains_id(id) ==> {
                let i = old(self).idx_of(id);
                let u = old(self).s()[i];
                let nu = UserModel { pwdhash: pwdhash@, updated_at: now, ..u };
                &&& r.matched_count == 1
                &&& (u == nu ==> r.modified_count == 0 && final(self).s() == old(self).s())
                &&& (u != nu ==> r.modified_count == 1 && final(self).s() == old(self).s().update(
                    i,
                    nu,
                ))
            },
    {
        let mut k: usize = 0;
        while k < self.items.len()
            invariant
                *self == *old(self),
                k <= self.s().len(),
                forall|i: int| 0 <= i < k ==> #[trigger] self.s()[i].id != id,
            decreases self.s().len() - k,
        {
            if self.items[k].id == id {
                proof {
                    self.lemma_idx_of(k as int);
                }
                let same = self.items[k].pwdhash == pwdhash && self.items[k].updated_at == now;
                if same {
                    proof {
                        assert(old(self).s()[k as int] =~= UserModel {
                            pwdhash: pwdhash@,
                            updated_at: now,
                            ..old(self).s()[k as int]
                        });
                    }
                    return UpdateOutcome { matched_count: 1, modified_count: 0 };
                }
                let mut nu = self.items[k].clone();
                nu.pwdhash = pwdhash;
                nu.updated_at = now;
                proof {
                    assert(nu@ =~= UserModel {
                        pwdhash: nu.pwdhash@,
                        updated_at: now,
                        ..old(self).s()[k as int]
                    });
                    assert(old(self).s()[k as int] != nu@);
                }
                self.items.set(k, nu);
                proof {
                    assert(self.s() =~= old(self).s().update(k as int, self.s()[k as int]));
                    assert forall|i: int| 0 <= i < self.s().len() implies #[trigger] self.s()[i].id
                        == old(self).s()[i].id && #[trigger] self.s()[i].email == old(self).s()[i].email by {
                        if i != k as int {
                            assert(self.s()[i] == old(self).s()[i]);
                        }
                    }
                }
                return UpdateOutcome { matched_count: 1, modified_count: 1 };
            }
            k = k + 1;
        }
        UpdateOutcome { matched_count: 0, modified_count: 0 }
    }

    /// Change a user's password: hash the new password and store the
    /// hash. On failure of the hashing call the store is unchanged.
    pub fn change_password(&mut self, id: u64, password: &String, now: i64) -> (r: Result<
        UpdateOutcome,
        JsonError,
    >)
        requires
            old(self).wf(),
        ensures
            final(self).wf(),
            final(self).next_id == old(self).next_id,
            r is Err ==> final(self).s() == old(self).s() && r->Err_0@
                == JsonErrorModel::Internal("Error changing password"@),
            r is Ok && !old(self).contains_id(id) ==> r->Ok_0.matched_count == 0
                && r->Ok_0.modified_count == 0 && final(self).s() == old(self).s(),
            r is Ok && old(self).contains_id(id) ==> {
                let i = old(self).idx_of(id);
                let u = old(self).s()[i];
                let nu = final(self).s()[i];
                &&& r->Ok_0.matched_count == 1
                &&& final(self).s() == old(self).s().update(i, nu)
                &&& password_matches(password@, nu.pwdhash)
                &&& nu == UserModel { pwdhash: nu.pwdhash, updated_at: now, ..u }
            },
    {
        match hash_password(password.as_str()) {
            Ok(pwdhash) => {
                let ghost h = pwdhash@;
                let r = self.set_password_hash(id, pwdhash, now);
                proof {
                    if old(self).contains_id(id) {
                        let i = old(self).idx_of(id);
                        let u = old(self).s()[i];
                        let nu = UserModel { pwdhash: h, updated_at: now, ..u };
                        if u == nu {
                            assert(final(self).s() =~= old(self).s().update(i, nu));
                        }
                    }
                }
                Ok(r)
            },
            Err(_) => Err(JsonError::Internal(String::from_str("Error changing password"))),
        }
    }

    /// Delete a user. The outcome reports how many rows were removed.
    #[verifier::loop_isolation(false)]
    pub fn delete_user(&mut self, id: u64) -> (r: DeleteOutcome)
        requires
            old(self).wf(),
        ensures
            final(self).wf(),
            final(self).next_id == old(self).next_id,
            !old(self).contains_id(id) ==> r.deleted_count == 0 && final(self).s() == old(self).s(),
            old(self).contains_id(id) ==> r.deleted_count == 1 && final(self).s() == old(self).s().remove(old(self).idx_of(id)),
            !final(self).contains_id(id),
    {
        let mut k: usize = 0;
        while k < self.items.len()
            invariant
                *self == *old(self),
                k <= self.s().len(),
                forall|i: int| 0 <= i < k ==> #[trigger] self.s()[i].id != id,
            decreases self.s().len() - k,
        {
            if self.items[k].id == id {
                proof {
                    self.lemma_idx_of(k as int);
                }
                self.items.remove(k);
                proof {
                    let ghost k0 = k as int;
                    assert(self.s() =~= old(self).s().remove(k0));
                    assert forall|i: int| 0 <= i < self.s().len() implies #[trigger] self.s()[i].id
                        != id && self.s()[i].id < self.next_id by {
                        if i < k0 {
                            assert(self.s()[i] == old(self).s()[i]);
                        } else {
                            assert(self.s()[i] == old(self).s()[i + 1]);
                        }
                    }
                    assert forall|i: int, j: int|
                        0 <= i < self.s().len() && 0 <= j < self.s().len() && i
                            != j implies #[trigger] self.s()[i].id != #[trigger] self.s()[j].id
                        && self.s()[i].email != self.s()[j].email by {
                        let ii = if i < k0 {
                            i
                        } else {
                            i + 1
                        };
                        let jj = if j < k0 {
                            j
                        } else {
                            j + 1
                        };
                        assert(self.s()[i] == old(self).s()[ii]);
                        assert(self.s()[j] == old(self).s()[jj]);
                    }
                }
                return DeleteOutcome { deleted_count: 1 };
            }
            k = k + 1;
        }
        DeleteOutcome { deleted_count: 0 }
    }

    /// Verify a credential pair. An unknown e-mail address and a wrong
    /// password both yield no user, indistinguishably; the stored user
    /// is returned exactly when the password matches their hash. The
    /// call fails exactly when the address is known but the stored hash
    /// is not a well-formed bcrypt hash.
    pub fn verify_login(&self, data: &LoginDto) -> (r: Result<Option<User>, JsonError>)
        requires
            self.wf(),
        ensures
            r is Ok ==> (match r->Ok_0 {
                Some(u) => Some(u@),
                None => None,
            }) == self.spec_login_user(data.email@, data.password@),
            !self.contains_email(data.email@) ==> r is Ok && r->Ok_0 is None,
            r is Err <==> self.contains_email(data.email@) && !bcrypt_valid_hash(
                self.spec_get_by_email(data.email@)->0.pwdhash,
            ),
            r is Err ==> r->Err_0@ == JsonErrorModel::Internal("Error verifying login"@),
    {
        match self.get_user_by_email(&data.email) {
            None => Ok(None),
            Some(user) => {
                match verify_password(data.password.as_str(), user.pwdhash.as_str()) {
                    Ok(true) => Ok(Some(user)),
                    Ok(false) => Ok(None),
                    Err(_) => Err(JsonError::Internal(String::from_str("Error verifying login"))),
                }
            },
        }
    }

    /// The two failure modes of a login are indistinguishable: whether
    /// the e-mail address is unknown to the store or the password does
    /// not match the stored hash, no user is identified.
    pub proof fn lemma_login_indistinguishable(
        &self,
        email1: Seq<char>,
        password1: Seq<char>,
        email2: Seq<char>,
        password2: Seq<char>,
    )
        requires
            !self.contains_email(email1),
            self.contains_email(email2) ==> !password_matches(
                password2,
                self.spec_get_by_email(email2)->0.pwdhash,
            ),
        ensures
            self.spec_login_user(email1, password1) == self.spec_login_user(email2, password2),
            self.spec_login_user(email1, password1) is None,
    {
    }
}

} // verus!
