//! Account endpoints. Accounts are the tenancy root, so every route
//! here resolves the caller: the listing and creation are admin-only,
//! and the id-level reads and writes apply the authorization resolver
//! to the addressed account itself.

use vstd::prelude::*;

use crate::accounts::{Account, AccountDto, AccountModel, AccountStore, AccountsList};
use crate::authz::{decide_access, spec_decide, Access};
use crate::errors::{JsonError, JsonErrorModel};
use crate::guards::{
    authorize_as_admin, get_jwt_session_and_user, spec_get_jwt_session_and_user,
};
use crate::jwt::JWT;
use crate::roles::{is_admin, spec_is_admin};
use crate::sessions::SessionStore;
use crate::user_store::UserStore;
use crate::users::{User, UserModel};

verus! {

/// What the authorization resolver answers for an account: the account
/// on a grant, the typed denial otherwise. An account is owned by
/// itself, so membership in it is what the resolver checks.
pub open spec fn spec_allowed_for_account(
    u: UserModel,
    store: AccountStore,
    id: u64,
) -> Result<AccountModel, JsonErrorModel> {
    let owner = if store.contains_id(id) {
        Some(id)
    } else {
        None
    };
    match spec_decide(u, owner) {
        Access::Granted => Ok(store.spec_get(id)->0),
        Access::Forbidden => Err(
            JsonErrorModel::Forbidden("You are not allowed to retrieve this account"@),
        ),
        Access::NotFound => Err(JsonErrorModel::NotFound("Account not found"@)),
    }
}

/// Fetch the addressed account and apply the authorization resolver to
/// it.
pub fn allowed_for_account(user: &User, store: &AccountStore, id: u64) -> (r: Result<
    Account,
    JsonError,
>)
    requires
        store.wf(),
    ensures
        (match r {
            Ok(a) => Ok::<_, JsonErrorModel>(a@),
            Err(e) => Err(e@),
        }) == spec_allowed_for_account(user@, *store, id),
{
    let found = store.get_account_by_id(id);
    let owner = match &found {
        Some(a) => Some(a.id),
        None => None,
    };
    proof {
        if found is Some {
            assert(store.s()[store.idx_of(id)].id == id);
        }
    }
    match decide_access(user, owner) {
        Access::Granted => match found {
            Some(a) => Ok(a),
            None => Err(JsonError::NotFound(String::from_str("Account not found"))),
        },
        Access::Forbidden => Err(
            JsonError::Forbidden(String::from_str("You are not allowed to retrieve this account")),
        ),
        Access::NotFound => Err(JsonError::NotFound(String::from_str("Account not found"))),
    }
}

/// List accounts; admin only. The page starts at `page * per_page`,
/// holds up to `per_page` records, and comes with the total count; a
/// sort query naming the name field reorders the accounts before the
/// page is cut, and any other sort query is ignored.
pub fn get_accounts(
    jwt: Result<JWT, JsonError>,
    page: usize,
    per_page: usize,
    sort_by: &String,
    sort_dir: &String,
    sessions: &SessionStore,
    users: &UserStore,
    accounts: &AccountStore,
    now: i64,
) -> (r: Result<AccountsList, JsonError>)
    requires
        sessions.wf(),
        users.wf(),
        accounts.wf(),
        page * per_page <= usize::MAX,
    ensures
        match spec_get_jwt_session_and_user(*sessions, *users, jwt, now) {
            Err(e) => r is Err && r->Err_0@ == e,
            Ok((token, session, u)) => if spec_is_admin(u) {
                let skip = page * per_page;
                &&& r is Ok
                &&& r->Ok_0.total == accounts.s().len()
                &&& crate::accounts::spec_account_sort_of(sort_by@, sort_dir@) is None ==> (
                r->Ok_0.list@.len() == (if accounts.s().len() <= skip {
                    0int
                } else if accounts.s().len() - skip < per_page {
                    accounts.s().len() - skip
                } else {
                    per_page as int
                }) && (forall|i: int|
                    0 <= i < r->Ok_0.list@.len() ==> #[trigger] r->Ok_0.list@[i]@ == accounts.s()[
                        skip + i
                    ]))
                &&& crate::accounts::spec_account_sort_of(sort_by@, sort_dir@) is Some ==> (exists|
                    perm: Seq<AccountModel>,
                |
                    #![trigger perm.to_multiset()]
                    crate::accounts::spec_sorted_account_page(
                        perm,
                        accounts.s(),
                        Seq::new(r->Ok_0.list@.len(), |i: int| r->Ok_0.list@[i]@),
                        skip as int,
                        per_page as int,
                        crate::accounts::spec_account_sort_of(sort_by@, sort_dir@)->0,
                    ))
            } else {
                r is Err && r->Err_0@ == JsonErrorModel::Forbidden(
                    "You are not allowed to retrieve all users"@,
                )
            },
        },
{
    let jwts = match get_jwt_session_and_user(sessions, users, jwt, now) {
        Ok(j) => j,
        Err(e) => {
            return Err(e);
        },
    };
    if !is_admin(&jwts.user) {
        return Err(
            JsonError::Forbidden(String::from_str("You are not allowed to retrieve all users")),
        );
    }
    let skip = page * per_page;
    Ok(accounts.get_accounts(skip, per_page, sort_by, sort_dir))
}

/// Fetch one account, applying the authorization resolver.
pub fn get_account(
    jwt: Result<JWT, JsonError>,
    id: u64,
    sessions: &SessionStore,
    users: &UserStore,
    accounts: &AccountStore,
    now: i64,
) -> (r: Result<Account, JsonError>)
    requires
        sessions.wf(),
        users.wf(),
        accounts.wf(),
    ensures
        (match r {
            Ok(a) => Ok::<_, JsonErrorModel>(a@),
            Err(e) => Err(e@),
        }) == (match spec_get_jwt_session_and_user(*sessions, *users, jwt, now) {
            Err(e) => Err(e),
            Ok((token, session, u)) => spec_allowed_for_account(u, *accounts, id),
        }),
{
    let jwts = match get_jwt_session_and_user(sessions, users, jwt, now) {
        Ok(j) => j,
        Err(e) => {
            return Err(e);
        },
    };
    allowed_for_account(&jwts.user, accounts, id)
}

/// Create an account; admin only, since an account is a fresh tenancy
/// root that no membership can cover.
pub fn create_account(
    jwt: Result<JWT, JsonError>,
    account: AccountDto,
    sessions: &SessionStore,
    users: &UserStore,
    accounts: &mut AccountStore,
    now: i64,
) -> (r: Result<Account, JsonError>)
    requires
        sessions.wf(),
        users.wf(),
        old(accounts).wf(),
        old(accounts).next_id < u64::MAX,
    ensures
        final(accounts).wf(),
        r is Err ==> final(accounts).s() == old(accounts).s() && final(accounts).next_id == old(
            accounts,
        ).next_id,
        match spec_get_jwt_session_and_user(*sessions, *users, jwt, now) {
            Err(e) => r is Err && r->Err_0@ == e,
            Ok((token, session, u)) => if spec_is_admin(u) {
                &&& r is Ok
                &&& r->Ok_0@ == (AccountModel {
                    id: old(accounts).next_id,
                    name: account.name@,
                    created_at: now,
                    updated_at: now,
                })
                &&& final(accounts).s() == old(accounts).s().push(r->Ok_0@)
                &&& final(accounts).next_id == old(accounts).next_id + 1
            } else {
                r is Err && r->Err_0@ == JsonErrorModel::Forbidden(
                    "You are not allowed to perform this action"@,
                )
            },
        },
{
    match authorize_as_admin(jwt, sessions, users, now) {
        Ok(_) => {},
        Err(e) => {
            return Err(e);
        },
    }
    let id = accounts.create_account(account, now);
    proof {
        let n = old(accounts).s().len() as int;
        assert(accounts.s()[n].id == id);
        accounts.lemma_idx_of(n);
    }
    match accounts.get_account_by_id(id) {
        Some(a) => Ok(a),
        None => Err(JsonError::NotFound(String::from_str("Account not found"))),
    }
}

/// Rename an account, applying the authorization resolver first. A
/// write that modifies nothing is reported as missing, even for an
/// account that exists: only the modified count is consulted.
pub fn update_account(
    jwt: Result<JWT, JsonError>,
    id: u64,
    account: AccountDto,
    sessions: &SessionStore,
    users: &UserStore,
    accounts: &mut AccountStore,
    now: i64,
) -> (r: Result<Account, JsonError>)
    requires
        sessions.wf(),
        users.wf(),
        old(accounts).wf(),
    ensures
        final(accounts).wf(),
        final(accounts).next_id == old(accounts).next_id,
        r is Err ==> final(accounts).s() == old(accounts).s(),
        match spec_get_jwt_session_and_user(*sessions, *users, jwt, now) {
            Err(e) => r is Err && r->Err_0@ == e,
            Ok((token, session, u)) => match spec_allowed_for_account(u, *old(accounts), id) {
                Err(e) => r is Err && r->Err_0@ == e,
                Ok(t) => {
                    let i = old(accounts).idx_of(id);
                    let nu = AccountModel { name: account.name@, updated_at: now, ..t };
                    &&& (t == nu ==> r is Err && r->Err_0@ == JsonErrorModel::NotFound(
                        "Account not found"@,
                    ) && final(accounts).s() == old(accounts).s())
                    &&& (t != nu ==> r is Ok && r->Ok_0@ == nu && final(accounts).s() == old(
                        accounts,
                    ).s().update(i, nu))
                },
            },
        },
{
    let jwts = match get_jwt_session_and_user(sessions, users, jwt, now) {
        Ok(j) => j,
        Err(e) => {
            return Err(e);
        },
    };
    match allowed_for_account(&jwts.user, accounts, id) {
        Ok(_) => {},
        Err(e) => {
            return Err(e);
        },
    }
    let outcome = accounts.update_account(id, account, now);
    if outcome.modified_count == 0 {
        return Err(JsonError::NotFound(String::from_str("Account not found")));
    }
    proof {
        let i = old(accounts).idx_of(id);
        assert(accounts.s()[i].id == id);
        accounts.lemma_idx_of(i);
    }
    match accounts.get_account_by_id(id) {
        Some(a) => Ok(a),
        None => Err(JsonError::NotFound(String::from_str("Account not found"))),
    }
}

/// Delete an account, applying the authorization resolver first, and
/// returning the deleted record.
pub fn delete_account(
    jwt: Result<JWT, JsonError>,
    id: u64,
    sessions: &SessionStore,
    users: &UserStore,
    accounts: &mut AccountStore,
    now: i64,
) -> (r: Result<Account, JsonError>)
    requires
        sessions.wf(),
        users.wf(),
        old(accounts).wf(),
    ensures
        final(accounts).wf(),
        final(accounts).next_id == old(accounts).next_id,
        r is Err ==> final(accounts).s() == old(accounts).s(),
        match spec_get_jwt_session_and_user(*sessions, *users, jwt, now) {
            Err(e) => r is Err && r->Err_0@ == e,
            Ok((token, session, u)) => match spec_allowed_for_account(u, *old(accounts), id) {
                Err(e) => r is Err && r->Err_0@ == e,
                Ok(t) => r is Ok && r->Ok_0@ == t && final(accounts).s() == old(
                    accounts,
                ).s().remove(old(accounts).idx_of(id)) && !final(accounts).contains_id(id),
            },
        },
{
    let jwts = match get_jwt_session_and_user(sessions, users, jwt, now) {
        Ok(j) => j,
        Err(e) => {
            return Err(e);
        },
    };
    let account = match allowed_for_account(&jwts.user, accounts, id) {
        Ok(a) => a,
        Err(e) => {
            return Err(e);
        },
    };
    let deleted = accounts.delete_account(id);
    if deleted.deleted_count == 0 {
        return Err(JsonError::NotFound(String::from_str("Account not found")));
    }
    Ok(account)
}

} // verus!
