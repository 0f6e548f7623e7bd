//! A storage engine that persists a graph of typed entities into an embedded
//! SQLite database and reconstructs it lazily on demand.
//!
//! Each entity carries an opaque 128-bit identifier, at most one scalar value
//! from a closed set of primitive kinds, and an ordered multiset of outgoing
//! links, each optionally qualified by a key entity.  The library verifies the
//! identifier codec, the value/row codec, the extraction protocol, the
//! filter-to-SQL compiler and the schema migration engine; the SQLite
//! substrate itself is reached only through a small set of trusted wrappers.

pub mod conn;
pub mod database;
pub mod entity;
pub mod error;
pub mod id;
pub mod laws;
pub mod migration;
pub mod model;
pub mod query;
pub mod storable;
pub mod storeddata;
pub mod value;
