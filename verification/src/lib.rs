//! Durable metadata and state persistence primitives.
//!
//! This crate provides the storage abstractions that a stateful process uses
//! to persist its metadata: an append-only sequenced log, a key-to-bytes blob
//! store with configurable write atomicity, and a per-key linearizable
//! compare-and-set register used to agree on the current version of
//! replicated state. Exclusive access to a log or blob location is guarded by
//! a reentrance-aware lock token.

pub mod assoc;
pub mod blob;
pub mod consensus;
pub mod decimal;
pub mod errors;
pub mod lock;
pub mod log;
pub mod meta;
pub mod proto;
pub mod seqno;
pub mod types;
pub mod util;

pub use blob::Atomicity;
pub use blob::Blob;
pub use blob::BlobMulti;
pub use blob::BlobRead;
pub use blob::MemBlob;
pub use blob::MemBlobMulti;
pub use blob::MemBlobRead;
pub use consensus::Consensus;
pub use consensus::MemConsensus;
pub use consensus::VersionedData;
pub use errors::Error;
pub use errors::ExternalError;
pub use lock::LockInfo;
pub use log::Log;
pub use log::MemLog;
pub use meta::check_meta_version_maybe_delete_data;
pub use meta::ENCODING_VERSION;
pub use proto::ProtoRepr;
pub use proto::TryFromProtoError;
pub use proto::TryIntoIfSome;
pub use seqno::SeqNo;
