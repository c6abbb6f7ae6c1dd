//! The core of a host inventory: the document that an inventory is written
//! as, the projection of a document on a list of field selectors, and the
//! cascade that detects an optional accounting application from several
//! evidence sources.
//!
//! Nothing here reads the system. Whoever uses the library gathers the raw
//! values, hands them over, and acts on what the library decides.

pub mod cascade;
pub mod cli;
pub mod collector;
pub mod detection;
pub mod document;
pub mod fields;
pub mod http;
pub mod models;
pub mod probes;
pub mod projection;
pub mod text;
pub mod utils;
