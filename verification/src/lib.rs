//! Checksum sets: manifests of file digests, and the operations that build,
//! compare and verify them.
//!
//! A [`checksum_set::ChecksumSet`] records, for each file under a root, its
//! size and the digest of its content under one algorithm. The
//! [`builder`] makes a set of candidate files, [`diff`] compares two sets,
//! and [`verify`] holds a set against the files on disk. The [`digest`]
//! engine hashes what it is fed, and [`path`] turns the path of a file into
//! its key. The library reads no file itself: its callers tell it what they
//! found on disk, and feed it what they read.

pub mod amount;
pub mod builder;
pub mod checksum_set;
pub mod diff;
pub mod digest;
pub mod error;
pub mod hash_type;
pub mod hashers;
pub mod manifest;
pub mod path;
pub mod path_map;
pub mod phase;
pub mod report;
pub mod text;
pub mod ui;
pub mod util;
pub mod verify;
