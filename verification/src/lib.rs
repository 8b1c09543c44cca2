//! A verified request-decision engine for an edge router that fronts a
//! source-control content host: it authorizes a request path against
//! configured token rules, resolves which bearer token to attach, rewrites
//! the path into a backend URL, and picks fallback actions for the root
//! route.

pub mod auth;
pub mod backend;
pub mod engine;
pub mod list;
pub mod path;
pub mod relay;
pub mod root;
pub mod strutil;
pub mod text;
