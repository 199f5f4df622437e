//! Fixed ceilings shared by several modules.

use vstd::prelude::*;

verus! {

/// Most regular files in one pack.
pub const MAX_PACK_TREE_ENTRIES: usize = 100_000;

/// Most bytes in the regular files of one pack together.
pub const MAX_PACK_TREE_BYTES: u64 = 536_870_912;

/// Most bytes in one pack file.
pub const MAX_PACK_FILE_BYTES: u64 = 134_217_728;

/// Most bytes in one pack manifest.
pub const MAX_PACK_MANIFEST_BYTES: usize = 1_048_576;

/// Most bytes in one stored pack object.
pub const MAX_PACK_OBJECT_BYTES: u64 = 1_073_741_824;

/// Most bytes in one canonical file object.
pub const MAX_FILE_OBJECT_BYTES: u64 = 536_870_976;

/// Most bytes in one canonical symbolic-link object.
pub const MAX_SYMLINK_OBJECT_BYTES: u64 = 4_160;

/// Most bytes in one canonical tree object.
pub const MAX_TREE_OBJECT_BYTES: u64 = 67_108_864;

/// Most levels of one canonical tree.
pub const MAX_TREE_DEPTH: usize = 64;

/// Most bytes in one path of a canonical tree.
pub const MAX_TREE_PATH_BYTES: usize = 1_024;

/// Most entries of one canonical tree, counted once for each place.
pub const MAX_TREE_ENTRIES: usize = 100_000;

/// Most bytes in the files of one canonical tree, counted once for each place.
pub const MAX_TREE_AGGREGATE_FILE_BYTES: u64 = 536_870_912;

/// Most directory entries looked at while one pack is captured.
pub const MAX_CAPTURE_ENTRIES: usize = MAX_PACK_TREE_ENTRIES * 32;

/// Most bytes in one lock file.
pub const MAX_LOCK_BYTES: usize = 16_777_216;

/// Most packs in one lock.
pub const MAX_LOCK_NODES: usize = 4_096;

/// Most dependency edges in one lock.
pub const MAX_LOCK_EDGES: usize = 65_536;

/// Most bytes in the distinct packs of one locked graph together.
pub const MAX_GRAPH_OBJECT_BYTES: u64 = 2_147_483_648;

/// Most bytes in one artifact blob.
pub const MAX_ARTIFACT_BLOB_BYTES: u64 = 536_870_912;

/// Most bytes in the distinct artifacts of one prepared plan together.
pub const MAX_PREPARED_UNIQUE_ARTIFACT_BYTES: u64 = 1_073_741_824;

/// Most decompressed bytes admitted from one vendored asset archive.
pub const MAX_DECOMPRESSED_ASSET_BYTES: u64 = 536_870_912;

} // verus!
