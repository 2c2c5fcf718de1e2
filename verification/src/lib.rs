//! A Zarr-v3 store adapter: the flat, string-keyed object interface that Zarr
//! clients speak, laid over a hierarchical dataset of groups, arrays and chunks.
//!
//! The crate holds the adapter's logic only. The dataset engine itself lives
//! elsewhere: every store operation is a small state machine that says which
//! engine call to make next and what to do with its answer.

pub mod config;
pub mod data_type;
pub mod decimal;
pub mod engine;
pub mod envelope;
pub mod error;
pub mod json;
pub mod key;
pub mod listing;
pub mod metadata;
pub mod path;
pub mod segments;
pub mod store;
pub mod text;

pub use crate::config::{DatasetConfig, StorageConfig, StoreConfig, VersionInfo};
pub use crate::error::{KeyNotFoundError, StoreError, StoreResult};
pub use crate::key::Key;
pub use crate::metadata::ZarrArrayMetadataSerialzer;
pub use crate::path::{ChunkIndices, Path};
pub use crate::store::{ByteRange, Pending, Step, Store};
