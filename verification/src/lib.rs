//! Request-processing core of a small HTTP service over an in-memory record
//! store: an authorization gate, a route table and the route handlers, all
//! on plain values so that every step is verified.

pub mod handlers;
pub mod http;
pub mod middleware;
pub mod record;
pub mod router;
pub mod service;
pub mod text;
