//! An asynchronous, multi-threaded and minimal web framework core.
//!
//! The crate holds the dispatch core of an HTTP server framework: a route
//! table with `:name` captures and a wildcard fallback, composable route
//! groups, a middleware pipeline with short-circuit semantics, and the
//! decision logic of a multi-worker connection reactor.  Every function in
//! this crate is verified; the surrounding I/O (sockets, TLS handshakes,
//! file streams) lives outside it and hands the core plain values.
#![allow(non_snake_case)]

pub mod bodyparser;
pub mod fakereactor;
pub mod method;
pub mod middleware;
pub mod prelude;
pub mod reactor;
pub mod recognizer;
pub mod request;
pub mod response;
pub mod routegroup;
pub mod router;
pub mod service;
pub mod staticfiles;
pub mod strmap;
pub mod timer;
pub mod util;
