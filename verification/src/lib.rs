//! An append-only store of fixed-schema records kept in one columnar file.
//!
//! A record is an id, a name and a 64-bit floating value. The store file is
//! a sequence of frames ([`frame`]); each frame holds one columnar document
//! ([`document`]) with the schema of a record ([`schema`]) and the rows that
//! one append added ([`rows`]). [`db`] says what initialising, appending and
//! listing come to, as functions from bytes to bytes and records; [`laws`]
//! proves what holds of them together. The file itself, and the lock that
//! guards it, are the caller's: nothing in this library performs I/O.
//!
//! The documents are written by `arrow` and `parquet`, and read back by
//! them as soon as they are written. The calls stand in [`codec`], behind
//! contracts that are believed, not proved. A document taken from a file is
//! of unknown origin, and what the columnar reader does on such bytes is
//! not known: there the caller makes the calls, step by step as
//! [`document::document_outcome`] asks, and the library decides what the
//! answers come to.

pub mod codec;
pub mod db;
pub mod document;
pub mod error;
pub mod frame;
pub mod handlers;
pub mod laws;
pub mod models;
pub mod rows;
pub mod schema;
