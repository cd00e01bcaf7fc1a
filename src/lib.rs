//! An in-memory user directory: a store of user records keyed by 128-bit
//! identifiers, and the request logic of a small user service built on it.

pub mod handlers;
pub mod model;
pub mod outside;
pub mod store;
pub mod text;
