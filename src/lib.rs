//! Detection of files on a live system that no installed package records,
//! and of recorded files whose content digest or modification time changed.
//!
//! - `file_info`: the file record, its identities and comparison.
//! - `catalog`: package manifests and their line grammar.
//! - `file_system`: entries found by the filesystem scan and what is left out.
//! - `normalize`: rewriting of split-usr manifest paths to merged-usr ones.
//! - `differ`: the untracked and modified lists, and the laws they obey.
//! - `order`: ordering of records by path.
//! - `digest`: md5 digests of content read piece by piece.
//! - `settings`, `symlink`, `package`, `text`: options, link mappings,
//!   package records and text helpers.

pub mod catalog;
pub mod differ;
pub mod digest;
pub mod file_info;
pub mod file_system;
pub mod normalize;
pub mod order;
pub mod package;
pub mod settings;
pub mod symlink;
pub mod text;
