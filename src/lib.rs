//! Persistence layer for workspaces, collections, requests and variables on an
//! embedded transactional key-value engine, with manually maintained secondary
//! indexes, scoped variable resolution and workspace sync groups.

pub mod db;
pub mod engine;
pub mod error;
pub mod codec;
pub mod index;
pub mod order;
pub mod document;
pub mod workspace;
pub mod collection;
pub mod request;
pub mod variable;
pub mod laws;
pub mod settings;
pub mod http;
