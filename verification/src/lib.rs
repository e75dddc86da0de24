//! A verified model of a small web service's request-scoped state: the
//! identity that a login attaches to a request, the per-request session
//! key/value storage, and the decision each route handler makes about
//! that state and its response body.

pub mod auth;
pub mod routes;
pub mod session;
pub mod user;
