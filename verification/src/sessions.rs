//! Sessions: the session store and its lifecycle. A session binds a
//! user id to an expiry instant; renewal pushes the expiry forward,
//! revocation deletes the session, and resolution of an expired or
//! absent session yields nothing.

use vstd::prelude::*;

use crate::accounts::{LoginAccount, LoginAccountModel};
use crate::outcome::{DeleteOutcome, UpdateOutcome};
use crate::users::{User, UserRes, UserResModel};

verus! {

/// A session record. Timestamps are milliseconds.
#[derive(Clone, Copy, Debug, PartialEq, Eq, Structural)]
pub struct Session {
    pub id: u64,
    pub user_id: u64,
    pub created_at: i64,
    pub expires_at: i64,
}

/// Login input: an e-mail address and a bare password.
#[derive(Debug, PartialEq, Eq)]
pub struct LoginDto {
    pub email: String,
    pub password: String,
}

/// Password-change input: the old password for re-verification and the
/// new one.
#[derive(Debug, PartialEq, Eq)]
pub struct ChangePasswordDto {
    pub old_password: String,
    pub new_password: String,
}

/// What a successful login returns: the token, the user's public
/// projection, and the accounts the user belongs to.
#[derive(Debug, PartialEq, Eq)]
pub struct LoginResponseDto {
    pub token: String,
    pub user: UserRes,
    pub accounts: Vec<LoginAccount>,
}

/// Mathematical image of a `LoginResponseDto`.
#[verifier::ext_equal]
pub struct LoginResponseModel {
    pub token: Seq<char>,
    pub user: UserResModel,
    pub accounts: Seq<LoginAccountModel>,
}

impl View for LoginResponseDto {
    type V = LoginResponseModel;

    open spec fn view(&self) -> LoginResponseModel {
        LoginResponseModel {
            token: self.token@,
            user: self.user@,
            accounts: Seq::new(self.accounts@.len(), |i: int| self.accounts@[i]@),
        }
    }
}

/// A resolved token together with its session.
#[derive(Debug, PartialEq, Eq)]
pub struct JWTSession {
    pub token: String,
    pub session: Session,
}

/// A resolved token together with its session and user.
#[derive(Debug, PartialEq, Eq)]
pub struct JWTSessionAndUser {
    pub token: String,
    pub session: Session,
    pub user: User,
}

/// The expiry instant of a session created or renewed at `now` with the
/// configured duration in seconds.
pub fn session_expiry(now: i64, duration_secs: i64) -> (r: i64)
    requires
        0 <= now,
        0 <= duration_secs,
        now + duration_secs * 1000 <= i64::MAX,
    ensures
        r == now + duration_secs * 1000,
{
    now + duration_secs * 1000
}

/// The session store: records with unique ids, ids drawn from a counter.
pub struct SessionStore {
    pub items: Vec<Session>,
    pub next_id: u64,
}

impl SessionStore {
    /// The stored records, in insertion order.
    pub open spec fn s(&self) -> Seq<Session> {
        self.items@
    }

    /// Ids are unique and below the counter.
    pub open spec fn wf(&self) -> bool {
        &&& forall|i: int, j: int|
            0 <= i < self.s().len() && 0 <= j < self.s().len() && i != j
                ==> #[trigger] self.s()[i].id != #[trigger] self.s()[j].id
        &&& forall|i: int| 0 <= i < self.s().len() ==> #[trigger] self.s()[i].id < self.next_id
    }

    pub open spec fn contains_id(&self, id: u64) -> bool {
        exists|i: int| 0 <= i < self.s().len() && #[trigger] self.s()[i].id == id
    }

    pub open spec fn idx_of(&self, id: u64) -> int {
        choose|i: int| 0 <= i < self.s().len() && #[trigger] self.s()[i].id == id
    }

    /// The record with the given id, if any.
    pub open spec fn spec_get(&self, id: u64) -> Option<Session> {
        if self.contains_id(id) {
            Some(self.s()[self.idx_of(id)])
        } else {
            None
        }
    }

    /// Resolution at instant `now`: an expired session (expiry in the
    /// past) is treated exactly like an absent one.
    pub open spec fn spec_resolve(&self, id: u64, now: i64) -> Option<Session> {
        match self.spec_get(id) {
            Some(s) => if s.expires_at >= now {
                Some(s)
            } else {
                None
            },
            None => None,
        }
    }

    /// An id occurs at exactly one index.
    pub proof fn lemma_idx_of(&self, i: int)
        requires
            self.wf(),
            0 <= i < self.s().len(),
        ensures
            self.contains_id(self.s()[i].id),
            self.idx_of(self.s()[i].id) == i,
    {
        assert(self.contains_id(self.s()[i].id));
    }

    /// An empty store.
    pub fn new() -> (r: Self)
        ensures
            r.wf(),
            r.s().len() == 0,
            r.next_id == 1,
    {
        SessionStore { items: Vec::new(), next_id: 1 }
    }

    /// Fetch a session by id, whether or not it has expired.
    #[verifier::loop_isolation(false)]
    pub fn get_session_by_id(&self, id: u64) -> (r: Option<Session>)
        requires
            self.wf(),
        ensures
            r == self.spec_get(id),
    {
        let mut k: usize = 0;
        while k < self.items.len()
            invariant
                self.wf(),
                k <= self.s().len(),
                forall|i: int| 0 <= i < k ==> #[trigger] self.s()[i].id != id,
            decreases self.s().len() - k,
        {
            if self.items[k].id == id {
                proof {
                    self.lemma_idx_of(k as int);
                }
                return Some(self.items[k]);
            }
            k = k + 1;
        }
        None
    }

    /// Resolve a session at instant `now`; expired sessions are treated
    /// as absent.
    pub fn resolve(&self, id: u64, now: i64) -> (r: Option<Session>)
        requires
            self.wf(),
        ensures
            r == self.spec_resolve(id, now),
    {
        match self.get_session_by_id(id) {
            Some(s) => if s.expires_at >= now {
                Some(s)
            } else {
                None
            },
            None => None,
        }
    }

    /// Create a session for a user, expiring `duration_secs` after
    /// `now`. Returns the new session's id.
    pub fn create_session(&mut self, user_id: u64, now: i64, duration_secs: i64) -> (r: u64)
        requires
            old(self).wf(),
            old(self).next_id < u64::MAX,
            0 <= now,
            0 <= duration_secs,
            now + duration_secs * 1000 <= i64::MAX,
        ensures
            final(self).wf(),
            r == old(self).next_id,
            final(self).next_id == old(self).next_id + 1,
            final(self).s() == old(self).s().push(
                Session {
                    id: old(self).next_id,
                    user_id: user_id,
                    created_at: now,
                    expires_at: (now + duration_secs * 1000) as i64,
                },
            ),
    {
        let expires_at = session_expiry(now, duration_secs);
        let id = self.next_id;
        self.items.push(Session { id, user_id, created_at: now, expires_at });
        self.next_id = self.next_id + 1;
        proof {
            assert forall|i: int| 0 <= i < self.s().len() && i != old(self).s().len()
                implies #[trigger] self.s()[i] == old(self).s()[i] by {}
        }
        id
    }

    /// Renew a session: push its expiry to `duration_secs` after `now`.
    /// A missing session matches nothing; a renewal that changes nothing
    /// (the expiry is already exactly the new instant) counts as matched
    /// but not modified.
    #[verifier::loop_isolation(false)]
    pub fn update_session(&mut self, id: u64, now: i64, duration_secs: i64) -> (r: UpdateOutcome)
        requires
            old(self).wf(),
            0 <= now,
            0 <= duration_secs,
            now + duration_secs * 1000 <= i64::MAX,
        ensures
            final(self).wf(),
            final(self).next_id == old(self).next_id,
            !old(self).contains_id(id) ==> r.matched_count == 0 && r.modified_count == 0
                && final(self).s() == old(self).s(),
            old(self).contains_id(id) ==> {
                let i = old(self).idx_of(id);
                let u = old(self).s()[i];
                &&& r.matched_count == 1
                &&& (u.expires_at == now + duration_secs * 1000 ==> r.modified_count == 0
                    && final(self).s() == old(self).s())
                &&& (u.expires_at != now + duration_secs * 1000 ==> r.modified_count == 1
                    && final(self).s() == old(self).s().update(
                        i,
                        Session { expires_at: (now + duration_secs * 1000) as i64, ..u },
                    ))
            },
    {
        let expires_at = session_expiry(now, duration_secs);
        let mut k: usize = 0;
        while k < self.items.len()
            invariant
                *self == *old(self),
                self.wf(),
                k <= self.s().len(),
                forall|i: int| 0 <= i < k ==> #[trigger] self.s()[i].id != id,
            decreases self.s().len() - k,
        {
            if self.items[k].id == id {
                proof {
                    self.lemma_idx_of(k as int);
                }
                let old_rec = self.items[k];
                if old_rec.expires_at == expires_at {
                    proof {
                        assert(self.s() =~= old(self).s());
                    }
                    return UpdateOutcome { matched_count: 1, modified_count: 0 };
                }
                self.items.set(k, Session { expires_at, ..old_rec });
                proof {
                    assert forall|i: int| 0 <= i < self.s().len() implies #[trigger] self.s()[i].id
                        == old(self).s()[i].id by {
                        if i != k as int {
                            assert(self.s()[i] == old(self).s()[i]);
                        }
                    }
                }
                return UpdateOutcome { matched_count: 1, modified_count: 1 };
            }
            k = k + 1;
        }
        UpdateOutcome { matched_count: 0, modified_count: 0 }
    }

    /// Revoke a session. Revoking an absent session is not an error; the
    /// outcome reports zero deleted rows.
    #[verifier::loop_isolation(false)]
    pub fn delete_session(&mut self, id: u64) -> (r: DeleteOutcome)
        requires
            old(self).wf(),
        ensures
            final(self).wf(),
            final(self).next_id == old(self).next_id,
            !old(self).contains_id(id) ==> r.deleted_count == 0 && final(self).s() == old(self).s(),
            old(self).contains_id(id) ==> r.deleted_count == 1 && final(self).s() == old(
                self,
            ).s().remove(old(self).idx_of(id)),
            !final(self).contains_id(id),
    {
        let mut k: usize = 0;
        while k < self.items.len()
            invariant
                *self == *old(self),
                self.wf(),
                k <= self.s().len(),
                forall|i: int| 0 <= i < k ==> #[trigger] self.s()[i].id != id,
            decreases self.s().len() - k,
        {
            if self.items[k].id == id {
                proof {
                    self.lemma_idx_of(k as int);
                }
                self.items.remove(k);
                proof {
                    let ghost k0 = k as int;
                    assert forall|i: int| 0 <= i < self.s().len() implies #[trigger] self.s()[i].id
                        != id && self.s()[i].id < self.next_id by {
                        if i < k0 {
                            assert(self.s()[i] == old(self).s()[i]);
                        } else {
                            assert(self.s()[i] == old(self).s()[i + 1]);
                        }
                    }
                    assert forall|i: int, j: int|
                        0 <= i < self.s().len() && 0 <= j < self.s().len() && i != j implies #[trigger] self.s()[i].id != #[trigger] self.s()[j].id by {
                        let ii = if i < k0 { i } else { i + 1 };
                        let jj = if j < k0 { j } else { j + 1 };
                        assert(self.s()[i] == old(self).s()[ii]);
                        assert(self.s()[j] == old(self).s()[jj]);
                    }
                }
                return DeleteOutcome { deleted_count: 1 };
            }
            k = k + 1;
        }
        DeleteOutcome { deleted_count: 0 }
    }
}

} // verus!
