//! A disk-backed ordered index: a B+Tree data file with a write-ahead log.
//!
//! The library works on the *contents* of the two files. A caller reads the
//! data file and the log into byte vectors, hands them to [`BTree::new`], and
//! writes back whatever the library appended. Every function here is verified
//! against a contract over byte sequences and maps; the only trusted code is
//! the call into the binary codec that encodes and decodes keys and values.

mod codec;
pub mod error;
pub mod format;
pub mod index;
pub mod node;
pub mod overlay;
pub mod types;
pub mod wal;

pub use error::{DecodeFailure, EncodeFailure, Error};
pub use index::{BTree, BTreeView};
pub use node::{Node, Payload};
pub use overlay::Overlay;
pub use types::{KeyType, ValueType};
