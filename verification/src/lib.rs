//! Multi-tenant test-management core: identity, sessions, tokens,
//! role- and membership-based authorization, and the resource
//! repositories (accounts, projects, test lists, test checks, test
//! reports, test results) with their ordering and cascade rules.
//!
//! Every entity carries plain identifiers; the stores are in-memory
//! collections with verified invariants. Password hashing, password
//! strength estimation, e-mail syntax checking and token signing are
//! delegated to outside crates through trusted wrappers.

pub mod account_endpoints;
pub mod accounts;
pub mod authz;
pub mod config;
pub mod errors;
pub mod guards;
pub mod jwt;
pub mod outcome;
pub mod passwords;
pub mod project_endpoints;
pub mod projects;
pub mod roles;
pub mod routes;
pub mod session_endpoints;
pub mod sessions;
pub mod strcmp;
pub mod strutil;
pub mod testcheck_endpoints;
pub mod testchecks;
pub mod testlist_endpoints;
pub mod testlists;
pub mod testreport_endpoints;
pub mod testreports;
pub mod testresults;
pub mod user_endpoints;
pub mod user_store;
pub mod users;
pub mod validation;

pub use errors::ErrorResponse;
pub use errors::JsonError;
