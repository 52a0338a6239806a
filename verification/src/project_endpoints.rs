//! Project endpoints: reads and writes on a project, the listings under
//! a project, the creation of a test list under a project, and the
//! account-scoped project listing and creation.

use vstd::prelude::*;

use crate::accounts::AccountStore;
use crate::authz::{decide_access, spec_decide, Access};
use crate::errors::{JsonError, JsonErrorModel};
use crate::guards::{
    authorize_as_admin, get_jwt_session_and_user, spec_get_jwt_session_and_user,
};
use crate::jwt::JWT;
use crate::projects::{Project, ProjectDto, ProjectModel, ProjectStore};
use crate::roles::spec_is_admin;
use crate::sessions::SessionStore;
use crate::testlists::{Testlist, TestlistDto, TestlistModel, TestlistStore};
use crate::testreports::{Testreport, TestreportStore};
use crate::user_store::UserStore;
use crate::users::{User, UserModel};

verus! {

/// What the authorization resolver answers for a project: the project
/// on a grant, the typed denial otherwise.
pub open spec fn spec_allowed_for_project(
    u: UserModel,
    store: ProjectStore,
    id: u64,
) -> Result<ProjectModel, JsonErrorModel> {
    let owner = match store.spec_get(id) {
        Some(t) => Some(t.account_id),
        None => None,
    };
    match spec_decide(u, owner) {
        Access::Granted => Ok(store.spec_get(id)->0),
        Access::Forbidden => Err(
            JsonErrorModel::Forbidden("You are not allowed to retrieve this project"@),
        ),
        Access::NotFound => Err(JsonErrorModel::NotFound("Project not found"@)),
    }
}

/// Fetch the addressed project and apply the authorization resolver to
/// its owning account.
pub fn allowed_for_project(user: &User, store: &ProjectStore, id: u64) -> (r: Result<
    Project,
    JsonError,
>)
    requires
        store.wf(),
    ensures
        (match r {
            Ok(t) => Ok::<_, JsonErrorModel>(t@),
            Err(e) => Err(e@),
        }) == spec_allowed_for_project(user@, *store, id),
{
    let found = store.get_by_id(id);
    let owner = match &found {
        Some(t) => Some(t.account_id),
        None => None,
    };
    match decide_access(user, owner) {
        Access::Granted => match found {
            Some(t) => Ok(t),
            None => Err(JsonError::NotFound(String::from_str("Project not found"))),
        },
        Access::Forbidden => Err(
            JsonError::Forbidden(String::from_str("You are not allowed to retrieve this project")),
        ),
        Access::NotFound => Err(JsonError::NotFound(String::from_str("Project not found"))),
    }
}

/// List every project; admin only.
pub fn get_projects(
    jwt: Result<JWT, JsonError>,
    sessions: &SessionStore,
    users: &UserStore,
    projects: &ProjectStore,
    now: i64,
) -> (r: Result<Vec<Project>, JsonError>)
    requires
        sessions.wf(),
        users.wf(),
    ensures
        match spec_get_jwt_session_and_user(*sessions, *users, jwt, now) {
            Err(e) => r is Err && r->Err_0@ == e,
            Ok((token, session, u)) => if spec_is_admin(u) {
                r is Ok && r->Ok_0@.len() == projects.s().len() && (forall|i: int|
                    0 <= i < r->Ok_0@.len() ==> #[trigger] r->Ok_0@[i]@ == projects.s()[i])
            } else {
                r is Err && r->Err_0@ == JsonErrorModel::Forbidden(
                    "You are not allowed to perform this action"@,
                )
            },
        },
{
    match authorize_as_admin(jwt, sessions, users, now) {
        Ok(_) => {},
        Err(e) => {
            return Err(e);
        },
    }
    Ok(projects.get_all())
}

/// Fetch one project, applying the authorization resolver.
pub fn get_project(
    jwt: Result<JWT, JsonError>,
    id: u64,
    projects: &ProjectStore,
    sessions: &SessionStore,
    users: &UserStore,
    now: i64,
) -> (r: Result<Project, JsonError>)
    requires
        projects.wf(),
        sessions.wf(),
        users.wf(),
    ensures
        (match r {
            Ok(t) => Ok::<_, JsonErrorModel>(t@),
            Err(e) => Err(e@),
        }) == (match spec_get_jwt_session_and_user(*sessions, *users, jwt, now) {
            Err(e) => Err(e),
            Ok((token, session, u)) => spec_allowed_for_project(u, *projects, id),
        }),
{
    let jwts = match get_jwt_session_and_user(sessions, users, jwt, now) {
        Ok(j) => j,
        Err(e) => {
            return Err(e);
        },
    };
    allowed_for_project(&jwts.user, projects, id)
}

/// Update a project's describing fields. A write that modifies nothing
/// is reported as missing, even for a project that exists: only the
/// modified count is consulted.
pub fn update_project(
    jwt: Result<JWT, JsonError>,
    id: u64,
    data: ProjectDto,
    projects: &mut ProjectStore,
    sessions: &SessionStore,
    users: &UserStore,
    now: i64,
) -> (r: Result<Project, JsonError>)
    requires
        old(projects).wf(),
        sessions.wf(),
        users.wf(),
    ensures
        final(projects).wf(),
        final(projects).next_id == old(projects).next_id,
        r is Err ==> final(projects).s() == old(projects).s(),
        match spec_get_jwt_session_and_user(*sessions, *users, jwt, now) {
            Err(e) => r is Err && r->Err_0@ == e,
            Ok((token, session, u)) => match spec_allowed_for_project(u, *old(projects), id) {
                Err(e) => r is Err && r->Err_0@ == e,
                Ok(t) => {
                    let i = old(projects).idx_of(id);
                    let nu = ProjectModel {
                        name: data.name@,
                        version: data.version@,
                        description: data.description@,
                        repository: data.repository@,
                        updated_at: now,
                        ..t
                    };
                    &&& (t == nu ==> r is Err && r->Err_0@ == JsonErrorModel::NotFound(
                        "Project not found"@,
                    ) && final(projects).s() == old(projects).s())
                    &&& (t != nu ==> r is Ok && r->Ok_0@ == nu && final(projects).s() == old(
                        projects,
                    ).s().update(i, nu))
                },
            },
        },
{
    let jwts = match get_jwt_session_and_user(sessions, users, jwt, now) {
        Ok(j) => j,
        Err(e) => {
            return Err(e);
        },
    };
    match allowed_for_project(&jwts.user, projects, id) {
        Ok(_) => {},
        Err(e) => {
            return Err(e);
        },
    }
    let outcome = projects.update(id, data, now);
    if outcome.modified_count == 0 {
        return Err(JsonError::NotFound(String::from_str("Project not found")));
    }
    proof {
        let i = old(projects).idx_of(id);
        assert(projects.s()[i].id == id);
        projects.lemma_idx_of(i);
    }
    match projects.get_by_id(id) {
        Some(t) => Ok(t),
        None => Err(JsonError::NotFound(String::from_str("Project not found"))),
    }
}

/// Delete a project. Its test lists and reports are left in place;
/// their removal is a separate concern of their own endpoints.
pub fn delete_project(
    jwt: Result<JWT, JsonError>,
    id: u64,
    projects: &mut ProjectStore,
    sessions: &SessionStore,
    users: &UserStore,
    now: i64,
) -> (r: Result<Project, JsonError>)
    requires
        old(projects).wf(),
        sessions.wf(),
        users.wf(),
    ensures
        final(projects).wf(),
        r is Err ==> final(projects).s() == old(projects).s(),
        match spec_get_jwt_session_and_user(*sessions, *users, jwt, now) {
            Err(e) => r is Err && r->Err_0@ == e,
            Ok((token, session, u)) => match spec_allowed_for_project(u, *old(projects), id) {
                Err(e) => r is Err && r->Err_0@ == e,
                Ok(t) => r is Ok && r->Ok_0@ == t && final(projects).s() == old(
                    projects,
                ).s().remove(old(projects).idx_of(id)) && !final(projects).contains_id(id),
            },
        },
{
    let jwts = match get_jwt_session_and_user(sessions, users, jwt, now) {
        Ok(j) => j,
        Err(e) => {
            return Err(e);
        },
    };
    let project = match allowed_for_project(&jwts.user, projects, id) {
        Ok(t) => t,
        Err(e) => {
            return Err(e);
        },
    };
    let deleted = projects.delete(id);
    if deleted.deleted_count == 0 {
        return Err(JsonError::NotFound(String::from_str("Project not found")));
    }
    Ok(project)
}

/// List the test lists under a project, applying the authorization
/// resolver to the project.
pub fn get_project_testlists(
    jwt: Result<JWT, JsonError>,
    project_id: u64,
    sessions: &SessionStore,
    users: &UserStore,
    projects: &ProjectStore,
    testlists: &TestlistStore,
    now: i64,
) -> (r: Result<Vec<Testlist>, JsonError>)
    requires
        projects.wf(),
        sessions.wf(),
        users.wf(),
    ensures
        match spec_get_jwt_session_and_user(*sessions, *users, jwt, now) {
            Err(e) => r is Err && r->Err_0@ == e,
            Ok((token, session, u)) => match spec_allowed_for_project(u, *projects, project_id) {
                Err(e) => r is Err && r->Err_0@ == e,
                Ok(t) => r is Ok && Seq::new(r->Ok_0@.len(), |i: int| r->Ok_0@[i]@)
                    == TestlistStore::spec_project_testlists(testlists.s(), project_id),
            },
        },
{
    let jwts = match get_jwt_session_and_user(sessions, users, jwt, now) {
        Ok(j) => j,
        Err(e) => {
            return Err(e);
        },
    };
    match allowed_for_project(&jwts.user, projects, project_id) {
        Ok(_) => {},
        Err(e) => {
            return Err(e);
        },
    }
    Ok(testlists.get_project_testlists(project_id))
}

/// List the reports under a project, applying the authorization
/// resolver to the project.
pub fn get_project_testreports(
    jwt: Result<JWT, JsonError>,
    project_id: u64,
    sessions: &SessionStore,
    users: &UserStore,
    projects: &ProjectStore,
    reports: &TestreportStore,
    now: i64,
) -> (r: Result<Vec<Testreport>, JsonError>)
    requires
        projects.wf(),
        sessions.wf(),
        users.wf(),
    ensures
        match spec_get_jwt_session_and_user(*sessions, *users, jwt, now) {
            Err(e) => r is Err && r->Err_0@ == e,
            Ok((token, session, u)) => match spec_allowed_for_project(u, *projects, project_id) {
                Err(e) => r is Err && r->Err_0@ == e,
                Ok(t) => r is Ok && Seq::new(r->Ok_0@.len(), |i: int| r->Ok_0@[i]@)
                    == TestreportStore::spec_project_testreports(reports.s(), project_id),
            },
        },
{
    let jwts = match get_jwt_session_and_user(sessions, users, jwt, now) {
        Ok(j) => j,
        Err(e) => {
            return Err(e);
        },
    };
    match allowed_for_project(&jwts.user, projects, project_id) {
        Ok(_) => {},
        Err(e) => {
            return Err(e);
        },
    }
    Ok(reports.get_project_testreports(project_id))
}

/// Create a test list under a project. The list's account is copied
/// from the authorized parent project, never from client input.
pub fn create_project_testlist(
    jwt: Result<JWT, JsonError>,
    project_id: u64,
    data: TestlistDto,
    projects: &ProjectStore,
    sessions: &SessionStore,
    users: &UserStore,
    testlists: &mut TestlistStore,
    now: i64,
) -> (r: Result<Testlist, JsonError>)
    requires
        projects.wf(),
        old(testlists).wf(),
        old(testlists).next_id < u64::MAX,
        sessions.wf(),
        users.wf(),
    ensures
        final(testlists).wf(),
        r is Err ==> final(testlists).s() == old(testlists).s() && final(testlists).next_id == old(
            testlists,
        ).next_id,
        match spec_get_jwt_session_and_user(*sessions, *users, jwt, now) {
            Err(e) => r is Err && r->Err_0@ == e,
            Ok((token, session, u)) => match spec_allowed_for_project(u, *projects, project_id) {
                Err(e) => r is Err && r->Err_0@ == e,
                Ok(t) => r is Ok && {
                    let nu = TestlistModel {
                        id: old(testlists).next_id,
                        account_id: t.account_id,
                        project_id: project_id,
                        name: data.name@,
                        description: data.description@,
                        created_at: now,
                        updated_at: now,
                    };
                    &&& r->Ok_0@ == nu
                    &&& final(testlists).s() == old(testlists).s().push(nu)
                    &&& final(testlists).next_id == old(testlists).next_id + 1
                },
            },
        },
{
    let jwts = match get_jwt_session_and_user(sessions, users, jwt, now) {
        Ok(j) => j,
        Err(e) => {
            return Err(e);
        },
    };
    let project = match allowed_for_project(&jwts.user, projects, project_id) {
        Ok(t) => t,
        Err(e) => {
            return Err(e);
        },
    };
    let id = testlists.create_testlist(project.account_id, project_id, data, now);
    proof {
        let n = old(testlists).s().len() as int;
        assert(testlists.s()[n].id == id);
        testlists.lemma_idx_of(n);
    }
    match testlists.get_testlist_by_id(id) {
        Some(t) => Ok(t),
        None => Err(JsonError::NotFound(String::from_str("Testlist not found"))),
    }
}

/// List the projects of an account, applying the authorization
/// resolver to the account itself: the caller must be a member of the
/// account or an admin.
pub fn get_account_projects(
    jwt: Result<JWT, JsonError>,
    account_id: u64,
    sessions: &SessionStore,
    users: &UserStore,
    accounts: &AccountStore,
    projects: &ProjectStore,
    now: i64,
) -> (r: Result<Vec<Project>, JsonError>)
    requires
        accounts.wf(),
        sessions.wf(),
        users.wf(),
    ensures
        match spec_get_jwt_session_and_user(*sessions, *users, jwt, now) {
            Err(e) => r is Err && r->Err_0@ == e,
            Ok((token, session, u)) => {
                let owner = if accounts.contains_id(account_id) {
                    Some(account_id)
                } else {
                    None
                };
                match spec_decide(u, owner) {
                    Access::Granted => r is Ok && Seq::new(r->Ok_0@.len(), |i: int| r->Ok_0@[i]@)
                        == ProjectStore::spec_account_projects(projects.s(), account_id),
                    Access::Forbidden => r is Err && r->Err_0@ == JsonErrorModel::Forbidden(
                        "You are not allowed to retrieve this account projects"@,
                    ),
                    Access::NotFound => r is Err && r->Err_0@ == JsonErrorModel::NotFound(
                        "Account not found"@,
                    ),
                }
            },
        },
{
    let jwts = match get_jwt_session_and_user(sessions, users, jwt, now) {
        Ok(j) => j,
        Err(e) => {
            return Err(e);
        },
    };
    let found = accounts.get_account_by_id(account_id);
    let owner = match &found {
        Some(a) => Some(a.id),
        None => None,
    };
    proof {
        if found is Some {
            assert(accounts.s()[accounts.idx_of(account_id)].id == account_id);
        }
    }
    match decide_access(&jwts.user, owner) {
        Access::Granted => Ok(projects.get_account_projects(account_id)),
        Access::Forbidden => Err(
            JsonError::Forbidden(
                String::from_str("You are not allowed to retrieve this account projects"),
            ),
        ),
        Access::NotFound => Err(JsonError::NotFound(String::from_str("Account not found"))),
    }
}

/// Create a project under an account, applying the authorization
/// resolver to the parent account first. The project's owning account
/// comes from the authorized account, never from other client input.
pub fn create_account_project(
    jwt: Result<JWT, JsonError>,
    account_id: u64,
    data: ProjectDto,
    sessions: &SessionStore,
    users: &UserStore,
    accounts: &AccountStore,
    projects: &mut ProjectStore,
    now: i64,
) -> (r: Result<Project, JsonError>)
    requires
        sessions.wf(),
        users.wf(),
        accounts.wf(),
        old(projects).wf(),
        old(projects).next_id < u64::MAX,
    ensures
        final(projects).wf(),
        r is Err ==> final(projects).s() == old(projects).s() && final(projects).next_id == old(
            projects,
        ).next_id,
        match spec_get_jwt_session_and_user(*sessions, *users, jwt, now) {
            Err(e) => r is Err && r->Err_0@ == e,
            Ok((token, session, u)) => match crate::account_endpoints::spec_allowed_for_account(
                u,
                *accounts,
                account_id,
            ) {
                Err(e) => r is Err && r->Err_0@ == e,
                Ok(parent) => r is Ok && {
                    let nu = ProjectModel {
                        id: old(projects).next_id,
                        name: data.name@,
                        version: data.version@,
                        description: data.description@,
                        repository: data.repository@,
                        account_id: parent.id,
                        created_at: now,
                        updated_at: now,
                    };
                    &&& r->Ok_0@ == nu
                    &&& final(projects).s() == old(projects).s().push(nu)
                    &&& final(projects).next_id == old(projects).next_id + 1
                },
            },
        },
{
    let jwts = match get_jwt_session_and_user(sessions, users, jwt, now) {
        Ok(j) => j,
        Err(e) => {
            return Err(e);
        },
    };
    let parent = match crate::account_endpoints::allowed_for_account(
        &jwts.user,
        accounts,
        account_id,
    ) {
        Ok(a) => a,
        Err(e) => {
            return Err(e);
        },
    };
    let id = projects.create(parent.id, data, now);
    proof {
        let n = old(projects).s().len() as int;
        assert(projects.s()[n].id == id);
        projects.lemma_idx_of(n);
    }
    match projects.get_by_id(id) {
        Some(t) => Ok(t),
        None => Err(JsonError::NotFound(String::from_str("Project not found"))),
    }
}

} // verus!
