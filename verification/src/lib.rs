//! Local storage and liveness layer for a hierarchical collaborative
//! document store: bounded LRU object caches, a fetch-orchestration queue,
//! a per-database row store, and a workspace-level database index.
//!
//! The CRDT engine, the on-disk key-value engine and the wire protocol are
//! collaborators reached through the narrow interfaces in [`service`]; the
//! cache, index and lifecycle logic here is verified.

pub mod block;
pub mod cache;
pub mod database;
pub mod db_meta;
pub mod disk_plugin;
pub mod entity;
pub mod error;
pub mod fetch;
pub mod kv;
pub mod lru_backend;
pub mod msg;
pub mod rows;
pub mod service;
pub mod text;
pub mod user_db;
pub mod views;
