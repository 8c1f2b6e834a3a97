//! Request routing for a small HTTP framework: the routing table, the
//! route builder, path joining and the middleware chain, with their
//! contracts proved by Verus.
pub mod method;
pub mod middleware;
pub mod path;
pub mod recognizer;
pub mod route;
pub mod router;
pub mod server;
