//! Request guards: resolve a decoded token into its session, then into
//! the calling user, and gate admin-only endpoints.

use vstd::prelude::*;

use crate::errors::{JsonError, JsonErrorModel};
use crate::jwt::JWT;
use crate::roles::{is_admin, spec_is_admin};
use crate::sessions::{JWTSession, JWTSessionAndUser, Session, SessionStore};
use crate::user_store::UserStore;
use crate::users::UserModel;

verus! {

/// What resolving a token into a session yields: the token text and the
/// session, or the error passed through or raised. An expired or absent
/// session is reported as `Session not found`.
pub open spec fn spec_get_jwt_session(
    sessions: SessionStore,
    jwt: Result<JWT, JsonError>,
    now: i64,
) -> Result<(Seq<char>, Session), JsonErrorModel> {
    match jwt {
        Err(e) => Err(e@),
        Ok(j) => match sessions.spec_resolve(j.claims.session_id, now) {
            None => Err(JsonErrorModel::Unauthorized("Session not found"@)),
            Some(s) => Ok((j.token@, s)),
        },
    }
}

/// What resolving a token into a session and its user yields. A session
/// whose user is gone is reported as `User not found`.
pub open spec fn spec_get_jwt_session_and_user(
    sessions: SessionStore,
    users: UserStore,
    jwt: Result<JWT, JsonError>,
    now: i64,
) -> Result<(Seq<char>, Session, UserModel), JsonErrorModel> {
    match spec_get_jwt_session(sessions, jwt, now) {
        Err(e) => Err(e),
        Ok((token, session)) => match users.spec_get(session.user_id) {
            None => Err(JsonErrorModel::NotFound("User not found"@)),
            Some(u) => Ok((token, session, u)),
        },
    }
}

/// Resolve a decoded token into its session. The token error, if any,
/// is passed through; an absent or expired session is unauthorized.
pub fn get_jwt_session(sessions: &SessionStore, jwt: Result<JWT, JsonError>, now: i64) -> (r:
    Result<JWTSession, JsonError>)
    requires
        sessions.wf(),
    ensures
        (match r {
            Ok(js) => Ok::<_, JsonErrorModel>((js.token@, js.session)),
            Err(e) => Err(e@),
        }) == spec_get_jwt_session(*sessions, jwt, now),
{
    let jwt = match jwt {
        Ok(j) => j,
        Err(e) => {
            return Err(e);
        },
    };
    match sessions.resolve(jwt.claims.session_id, now) {
        None => Err(JsonError::Unauthorized(String::from_str("Session not found"))),
        Some(session) => Ok(JWTSession { token: jwt.token, session }),
    }
}

/// Resolve a decoded token into its session and the calling user.
pub fn get_jwt_session_and_user(
    sessions: &SessionStore,
    users: &UserStore,
    jwt: Result<JWT, JsonError>,
    now: i64,
) -> (r: Result<JWTSessionAndUser, JsonError>)
    requires
        sessions.wf(),
        users.wf(),
    ensures
        (match r {
            Ok(js) => Ok::<_, JsonErrorModel>((js.token@, js.session, js.user@)),
            Err(e) => Err(e@),
        }) == spec_get_jwt_session_and_user(*sessions, *users, jwt, now),
{
    let js = match get_jwt_session(sessions, jwt, now) {
        Ok(js) => js,
        Err(e) => {
            return Err(e);
        },
    };
    match users.get_user_by_id(js.session.user_id) {
        None => Err(JsonError::NotFound(String::from_str("User not found"))),
        Some(user) => Ok(JWTSessionAndUser { token: js.token, session: js.session, user }),
    }
}

/// Resolve the caller and require the admin role.
pub fn authorize_as_admin(
    jwt: Result<JWT, JsonError>,
    sessions: &SessionStore,
    users: &UserStore,
    now: i64,
) -> (r: Result<JWTSessionAndUser, JsonError>)
    requires
        sessions.wf(),
        users.wf(),
    ensures
        (match r {
            Ok(js) => Ok::<_, JsonErrorModel>((js.token@, js.session, js.user@)),
            Err(e) => Err(e@),
        }) == (match spec_get_jwt_session_and_user(*sessions, *users, jwt, now) {
            Err(e) => Err(e),
            Ok((token, session, u)) => if spec_is_admin(u) {
                Ok((token, session, u))
            } else {
                Err(
                    JsonErrorModel::Forbidden(
                        "You are not allowed to perform this action"@,
                    ),
                )
            },
        }),
{
    let jwts = match get_jwt_session_and_user(sessions, users, jwt, now) {
        Ok(js) => js,
        Err(e) => {
            return Err(e);
        },
    };
    if !is_admin(&jwts.user) {
        return Err(
            JsonError::Forbidden(String::from_str("You are not allowed to perform this action")),
        );
    }
    Ok(jwts)
}

} // verus!
