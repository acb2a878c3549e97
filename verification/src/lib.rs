//! Resolves a prefixed hierarchy of remotely stored key/value parameters
//! into a flat, string-keyed configuration map.
//!
//! Applications that keep their configuration under a namespaced tree of
//! parameters (such as AWS Parameter Store paths like `/demo/foo`) walk the
//! store page by page, strip the common path prefix from every parameter
//! name, and fold the result into one map that a typed deserializer can
//! consume. This crate holds that pipeline: the pagination cursor that
//! drives the page-by-page walk, the flattening of pages into one parameter
//! sequence, the prefix-stripping key transform with last-write-wins
//! folding, and the error type that unifies fetch failures with
//! deserialization failures.
//!
//! The network client and the typed deserialization engine themselves stay
//! outside: callers hand pages in as plain values and hand the finished map
//! to their deserializer of choice.

pub mod cursor;
pub mod error;
pub mod param;
pub mod resolve;
pub mod transform;

pub use cursor::PageCursor;
pub use error::Error;
pub use param::Parameter;
pub use resolve::Page;
pub use transform::FlatConfigMap;
