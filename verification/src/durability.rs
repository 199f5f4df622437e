//! Batched durability shared by the object stores.
//!
//! Entries are written without a name, made durable together, and only then linked under
//! their names. One barrier is paid per chunk of entries.

use vstd::prelude::*;

verus! {

/// Most entries staged before a barrier.
pub const MAX_STAGED_ENTRIES: usize = 512;

/// Descriptors left for everything other than staged entries.
pub const STAGED_DESCRIPTOR_RESERVE: u64 = 64;

/// What is left of a descriptor limit after the reserve: a quarter of it, but at least a fixed
/// number.
pub open spec fn available_descriptors(limit: u64) -> int {
    let reserve = if limit / 4 < STAGED_DESCRIPTOR_RESERVE {
        STAGED_DESCRIPTOR_RESERVE as int
    } else {
        limit as int / 4
    };
    if limit < reserve {
        0
    } else {
        limit - reserve
    }
}

/// Entries to stage before each barrier.
pub open spec fn chunk_size(open_file_soft_limit: Option<u64>) -> int {
    match open_file_soft_limit {
        None => MAX_STAGED_ENTRIES as int,
        Some(limit) => if available_descriptors(limit) < 1 {
            1
        } else if available_descriptors(limit) > MAX_STAGED_ENTRIES {
            MAX_STAGED_ENTRIES as int
        } else {
            available_descriptors(limit)
        },
    }
}

/// Returns what is left of a descriptor limit after the reserve.
pub fn descriptors_left(limit: u64) -> (left: u64)
    ensures
        left == available_descriptors(limit),
{
    let quarter: u64 = limit / 4;
    let reserve: u64 = if quarter < STAGED_DESCRIPTOR_RESERVE {
        STAGED_DESCRIPTOR_RESERVE
    } else {
        quarter
    };
    if limit < reserve {
        0
    } else {
        limit - reserve
    }
}

/// Entries to stage before each barrier, bounded by the process descriptor limit so that
/// staging cannot exhaust descriptors however many entries a publication writes.
pub fn staged_chunk_size(open_file_soft_limit: Option<u64>) -> (size: usize)
    ensures
        size == chunk_size(open_file_soft_limit),
        1 <= size <= MAX_STAGED_ENTRIES,
{
    let limit: u64 = match open_file_soft_limit {
        Some(limit) => limit,
        None => {
            return MAX_STAGED_ENTRIES;
        },
    };
    let available: u64 = descriptors_left(limit);
    if available < 1 {
        1
    } else if available > MAX_STAGED_ENTRIES as u64 {
        MAX_STAGED_ENTRIES
    } else {
        available as usize
    }
}

/// Staging never takes more descriptors than a limit leaves, as long as it leaves any, and a
/// higher limit never makes chunks smaller.
pub proof fn lemma_staging_stays_within_the_limit(limit: u64, higher: u64)
    requires
        limit <= higher,
    ensures
        available_descriptors(limit) >= 1 ==> chunk_size(Some(limit)) <= available_descriptors(
            limit,
        ),
        chunk_size(Some(limit)) <= chunk_size(Some(higher)) <= chunk_size(None),
{
}

/// A quarter of the descriptors, and never fewer than sixty-four, is left to others; of the rest
/// all are used, up to five hundred and twelve, and at least one.
pub proof fn lemma_descriptors_are_left_to_others(limit: u64)
    ensures
        limit < 64 ==> chunk_size(Some(limit)) == 1,
        64 < limit < 256 ==> chunk_size(Some(limit)) == limit - 64,
        256 <= limit <= 682 ==> chunk_size(Some(limit)) == limit - limit / 4,
        limit >= 683 ==> chunk_size(Some(limit)) == 512,
        chunk_size(None) == 512,
{
}

} // verus!
