//! A private npm package registry: the decisions and data transformations
//! behind its HTTP interface, each stated as a contract and proved.
//!
//! - `names`: package names, storage directories, tarball names and URLs.
//! - `auth`: request headers and the key check that guards publishing.
//! - `json`: the JSON documents that `npm publish` sends.
//! - `publish`: what a publish request stores and answers.
//! - `package`: package documents built from stored versions; search parameters.
//! - `reply`: the registry's answers and the choices between them.
//! - `ui`: the web page listing the packages.
//! - `digest`: SHA-256, hex and base64, taken from their crates.
//! - `text`: character-sequence operations used throughout.
//! - `laws`: properties that hold across these operations.
pub mod text;
pub mod json;
pub mod names;
pub mod auth;
pub mod digest;
pub mod reply;
pub mod publish;
pub mod package;
pub mod ui;
pub mod laws;
