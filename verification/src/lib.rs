//! Core of a small ticket-tracking HTTP service: the error taxonomy and its
//! client-safe projection, the authenticated-request context, the in-memory
//! ticket store with its CRUD semantics, auth-token parsing and resolution,
//! and the response-mapping / request-logging stage. Transport, routing and
//! I/O live outside this crate and call into these functions with plain
//! values.

pub mod ctx;
pub mod error;
pub mod log;
pub mod mapper;
pub mod model;
pub mod mw_auth;
