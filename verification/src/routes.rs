//! The routing surface: the table of routes each resource family
//! mounts, and the catchers that turn bare HTTP failures into the error
//! body shape. The host program mounts handlers by these descriptors.

use vstd::prelude::*;

use crate::errors::{JsonError, JsonErrorModel};

verus! {

/// An HTTP method of the surface.
#[derive(Clone, Copy, Debug, PartialEq, Eq, Structural)]
pub enum Method {
    Get,
    Post,
    Put,
    Delete,
}

/// One mounted route: its method, its path pattern under the mount
/// point, and the name of the handler it binds.
#[derive(Debug, PartialEq, Eq)]
pub struct RouteSpec {
    pub method: Method,
    pub path: String,
    pub handler: String,
}

/// Mathematical image of a `RouteSpec`.
#[verifier::ext_equal]
pub struct RouteSpecModel {
    pub method: Method,
    pub path: Seq<char>,
    pub handler: Seq<char>,
}

impl View for RouteSpec {
    type V = RouteSpecModel;

    open spec fn view(&self) -> RouteSpecModel {
        RouteSpecModel { method: self.method, path: self.path@, handler: self.handler@ }
    }
}

/// Build one route descriptor.
fn route(method: Method, path: &str, handler: &str) -> (r: RouteSpec)
    ensures
        r@.method == method,
        r@.path == path@,
        r@.handler == handler@,
{
    RouteSpec { method, path: String::from_str(path), handler: String::from_str(handler) }
}

/// The session routes: login, current session, renewal, logout and
/// password change.
pub fn get_sessions_routes() -> (r: Vec<RouteSpec>)
    ensures
        r@.len() == 5,
        r@[0]@.method == Method::Post && r@[0]@.path == "/login"@ && r@[0]@.handler == "login"@,
        r@[1]@.method == Method::Get && r@[1]@.path == "/me"@ && r@[1]@.handler == "get_session"@,
        r@[2]@.method == Method::Post && r@[2]@.path == "/me"@ && r@[2]@.handler
            == "update_session"@,
        r@[3]@.method == Method::Delete && r@[3]@.path == "/"@ && r@[3]@.handler
            == "delete_session"@,
        r@[4]@.method == Method::Post && r@[4]@.path == "/password"@ && r@[4]@.handler
            == "change_password"@,
{
    let mut r: Vec<RouteSpec> = Vec::new();
    r.push(route(Method::Post, "/login", "login"));
    r.push(route(Method::Get, "/me", "get_session"));
    r.push(route(Method::Post, "/me", "update_session"));
    r.push(route(Method::Delete, "/", "delete_session"));
    r.push(route(Method::Post, "/password", "change_password"));
    r
}

/// The user routes.
pub fn get_users_routes() -> (r: Vec<RouteSpec>)
    ensures
        r@.len() == 5,
        r@[0]@.method == Method::Get && r@[0]@.path == "/"@ && r@[0]@.handler == "get_users"@,
        r@[1]@.method == Method::Get && r@[1]@.path == "/<id>"@ && r@[1]@.handler == "get_user"@,
        r@[2]@.method == Method::Post && r@[2]@.path == "/"@ && r@[2]@.handler == "create_user"@,
        r@[3]@.method == Method::Put && r@[3]@.path == "/<id>"@ && r@[3]@.handler
            == "update_user"@,
        r@[4]@.method == Method::Delete && r@[4]@.path == "/<id>"@ && r@[4]@.handler
            == "delete_user"@,
{
    let mut r: Vec<RouteSpec> = Vec::new();
    r.push(route(Method::Get, "/", "get_users"));
    r.push(route(Method::Get, "/<id>", "get_user"));
    r.push(route(Method::Post, "/", "create_user"));
    r.push(route(Method::Put, "/<id>", "update_user"));
    r.push(route(Method::Delete, "/<id>", "delete_user"));
    r
}

/// The account routes, including the account-scoped project routes.
pub fn get_accounts_routes() -> (r: Vec<RouteSpec>)
    ensures
        r@.len() == 7,
        r@[0]@.method == Method::Get && r@[0]@.path == "/"@ && r@[0]@.handler == "get_accounts"@,
        r@[1]@.method == Method::Get && r@[1]@.path == "/<id>"@ && r@[1]@.handler
            == "get_account"@,
        r@[2]@.method == Method::Post && r@[2]@.path == "/"@ && r@[2]@.handler
            == "create_account"@,
        r@[3]@.method == Method::Put && r@[3]@.path == "/<id>"@ && r@[3]@.handler
            == "update_account"@,
        r@[4]@.method == Method::Delete && r@[4]@.path == "/<id>"@ && r@[4]@.handler
            == "delete_account"@,
        r@[5]@.method == Method::Get && r@[5]@.path == "/<account_id>/projects"@ && r@[5]@.handler
            == "get_account_projects"@,
        r@[6]@.method == Method::Post && r@[6]@.path == "/<account_id>/projects"@ && r@[6]@.handler
            == "create_account_project"@,
{
    let mut r: Vec<RouteSpec> = Vec::new();
    r.push(route(Method::Get, "/", "get_accounts"));
    r.push(route(Method::Get, "/<id>", "get_account"));
    r.push(route(Method::Post, "/", "create_account"));
    r.push(route(Method::Put, "/<id>", "update_account"));
    r.push(route(Method::Delete, "/<id>", "delete_account"));
    r.push(route(Method::Get, "/<account_id>/projects", "get_account_projects"));
    r.push(route(Method::Post, "/<account_id>/projects", "create_account_project"));
    r
}

/// The project routes, including the project-scoped listings and the
/// creation of a test list under a project.
pub fn get_projects_routes() -> (r: Vec<RouteSpec>)
    ensures
        r@.len() == 7,
        r@[0]@.method == Method::Get && r@[0]@.path == "/"@ && r@[0]@.handler == "get_projects"@,
        r@[1]@.method == Method::Get && r@[1]@.path == "/<id>"@ && r@[1]@.handler
            == "get_project"@,
        r@[2]@.method == Method::Put && r@[2]@.path == "/<id>"@ && r@[2]@.handler
            == "update_project"@,
        r@[3]@.method == Method::Delete && r@[3]@.path == "/<id>"@ && r@[3]@.handler
            == "delete_project"@,
        r@[4]@.method == Method::Get && r@[4]@.path == "/<project_id>/testlists"@ && r@[4]@.handler
            == "get_project_testlists"@,
        r@[5]@.method == Method::Post && r@[5]@.path == "/<project_id>/testlists"@
            && r@[5]@.handler == "create_project_testlist"@,
        r@[6]@.method == Method::Get && r@[6]@.path == "/<project_id>/testreports"@
            && r@[6]@.handler == "get_project_testreports"@,
{
    let mut r: Vec<RouteSpec> = Vec::new();
    r.push(route(Method::Get, "/", "get_projects"));
    r.push(route(Method::Get, "/<id>", "get_project"));
    r.push(route(Method::Put, "/<id>", "update_project"));
    r.push(route(Method::Delete, "/<id>", "delete_project"));
    r.push(route(Method::Get, "/<project_id>/testlists", "get_project_testlists"));
    r.push(route(Method::Post, "/<project_id>/testlists", "create_project_testlist"));
    r.push(route(Method::Get, "/<project_id>/testreports", "get_project_testreports"));
    r
}

/// The test list routes, including the check listing, creation and
/// reordering under a list and the report creation.
pub fn get_testlists_routes() -> (r: Vec<RouteSpec>)
    ensures
        r@.len() == 8,
        r@[0]@.method == Method::Get && r@[0]@.path == "/"@ && r@[0]@.handler == "get_testlists"@,
        r@[1]@.method == Method::Get && r@[1]@.path == "/<id>"@ && r@[1]@.handler
            == "get_testlist"@,
        r@[2]@.method == Method::Put && r@[2]@.path == "/<id>"@ && r@[2]@.handler
            == "update_testlist"@,
        r@[3]@.method == Method::Delete && r@[3]@.path == "/<id>"@ && r@[3]@.handler
            == "delete_testlist"@,
        r@[4]@.method == Method::Get && r@[4]@.path == "/<testlist_id>/testchecks"@
            && r@[4]@.handler == "get_testlist_testchecks"@,
        r@[5]@.method == Method::Post && r@[5]@.path == "/<testlist_id>/testchecks"@
            && r@[5]@.handler == "create_testlist_testcheck"@,
        r@[6]@.method == Method::Put && r@[6]@.path == "/<testlist_id>/testchecks"@
            && r@[6]@.handler == "update_testchecks_positions"@,
        r@[7]@.method == Method::Post && r@[7]@.path == "/<testlist_id>/testreports"@
            && r@[7]@.handler == "create_testreport"@,
{
    let mut r: Vec<RouteSpec> = Vec::new();
    r.push(route(Method::Get, "/", "get_testlists"));
    r.push(route(Method::Get, "/<id>", "get_testlist"));
    r.push(route(Method::Put, "/<id>", "update_testlist"));
    r.push(route(Method::Delete, "/<id>", "delete_testlist"));
    r.push(route(Method::Get, "/<testlist_id>/testchecks", "get_testlist_testchecks"));
    r.push(route(Method::Post, "/<testlist_id>/testchecks", "create_testlist_testcheck"));
    r.push(route(Method::Put, "/<testlist_id>/testchecks", "update_testchecks_positions"));
    r.push(route(Method::Post, "/<testlist_id>/testreports", "create_testreport"));
    r
}

/// The test check routes.
pub fn get_testchecks_routes() -> (r: Vec<RouteSpec>)
    ensures
        r@.len() == 4,
        r@[0]@.method == Method::Get && r@[0]@.path == "/"@ && r@[0]@.handler == "get_testchecks"@,
        r@[1]@.method == Method::Get && r@[1]@.path == "/<id>"@ && r@[1]@.handler
            == "get_testcheck"@,
        r@[2]@.method == Method::Put && r@[2]@.path == "/<id>"@ && r@[2]@.handler
            == "update_testcheck"@,
        r@[3]@.method == Method::Delete && r@[3]@.path == "/<id>"@ && r@[3]@.handler
            == "delete_testcheck"@,
{
    let mut r: Vec<RouteSpec> = Vec::new();
    r.push(route(Method::Get, "/", "get_testchecks"));
    r.push(route(Method::Get, "/<id>", "get_testcheck"));
    r.push(route(Method::Put, "/<id>", "update_testcheck"));
    r.push(route(Method::Delete, "/<id>", "delete_testcheck"));
    r
}

/// The test report routes, including the result listing under a report.
pub fn get_testreports_routes() -> (r: Vec<RouteSpec>)
    ensures
        r@.len() == 5,
        r@[0]@.method == Method::Get && r@[0]@.path == "/"@ && r@[0]@.handler
            == "get_testreports"@,
        r@[1]@.method == Method::Get && r@[1]@.path == "/<id>"@ && r@[1]@.handler
            == "get_testreport"@,
        r@[2]@.method == Method::Put && r@[2]@.path == "/<id>"@ && r@[2]@.handler
            == "update_testreport"@,
        r@[3]@.method == Method::Delete && r@[3]@.path == "/<id>"@ && r@[3]@.handler
            == "delete_testreport"@,
        r@[4]@.method == Method::Get && r@[4]@.path == "/<testreport_id>/testresults"@
            && r@[4]@.handler == "get_testreport_testresults"@,
{
    let mut r: Vec<RouteSpec> = Vec::new();
    r.push(route(Method::Get, "/", "get_testreports"));
    r.push(route(Method::Get, "/<id>", "get_testreport"));
    r.push(route(Method::Put, "/<id>", "update_testreport"));
    r.push(route(Method::Delete, "/<id>", "delete_testreport"));
    r.push(route(Method::Get, "/<testreport_id>/testresults", "get_testreport_testresults"));
    r
}

/// The catcher for bare 400 replies.
pub fn catch_bad_request(uri: &String) -> (r: JsonError)
    ensures
        r@ == JsonErrorModel::BadRequest("Bad request: "@ + uri@),
{
    JsonError::BadRequest(String::from_str("Bad request: ").concat(uri.as_str()))
}

/// The catcher for bare 401 replies. The reply is shaped as a bad
/// request carrying the unauthorized note.
pub fn catch_unauthorized(uri: &String) -> (r: JsonError)
    ensures
        r@ == JsonErrorModel::BadRequest("Unauthorized: "@ + uri@),
{
    JsonError::BadRequest(String::from_str("Unauthorized: ").concat(uri.as_str()))
}

/// The catcher for bare 403 replies, shaped like the 401 one.
pub fn catch_forbidden(uri: &String) -> (r: JsonError)
    ensures
        r@ == JsonErrorModel::BadRequest("Forbidden: "@ + uri@),
{
    JsonError::BadRequest(String::from_str("Forbidden: ").concat(uri.as_str()))
}

/// The catcher for bare 422 replies: reported as a plain bad request.
pub fn catch_unprocessble_entity(uri: &String) -> (r: JsonError)
    ensures
        r@ == JsonErrorModel::BadRequest("Bad request: "@ + uri@),
{
    JsonError::BadRequest(String::from_str("Bad request: ").concat(uri.as_str()))
}

/// The catcher for bare 404 replies.
pub fn catch_not_found(uri: &String) -> (r: JsonError)
    ensures
        r@ == JsonErrorModel::NotFound("Resource "@ + uri@ + " not found"@),
{
    let msg = String::from_str("Resource ").concat(uri.as_str()).concat(" not found");
    JsonError::NotFound(msg)
}

/// The catcher for bare 500 replies.
pub fn catch_internal_error(uri: &String) -> (r: JsonError)
    ensures
        r@ == JsonErrorModel::Internal("Internal error: "@ + uri@),
{
    JsonError::Internal(String::from_str("Internal error: ").concat(uri.as_str()))
}

} // verus!
