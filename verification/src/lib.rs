//! Backend network-configuration core for a mobile-game private server.
//!
//! The library models the configuration document as a native JSON value
//! type, resolves the per-request network manifest (version selection,
//! `{server}` placeholder substitution, envelope assembly), owns the
//! route table and its dispatch function, and provides the base64
//! helpers used by the surrounding application. All I/O (config file,
//! remote fetch, HTTP serving) lives outside the library and hands in
//! plain values.

pub mod base64;
pub mod json;
pub mod parse;
pub mod resolver;
pub mod routes;
pub mod server;
pub mod ser;
pub mod text;
