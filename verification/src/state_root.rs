//! Safety of the state root, its parent, and its descriptor.

use vstd::prelude::*;
use vstd::utf8::*;

use crate::error::{DirectorySafetyIssue, EngineError, StoreMetadataIssue};
use crate::path;
use crate::path::join_paths;
use crate::seqs::copy_bytes;
use crate::stat;
use crate::stat::{EntryKind, FileStat, HostErrorKind, HostFailure, PERMISSION_MASK};
use crate::store_types::{StateDirectory, StoreStatus};

verus! {

/// Name of the store descriptor.
pub open spec fn marker_name() -> Seq<u8> {
    encode_utf8("descriptor.json"@)
}

/// Most bytes in the store descriptor.
pub const MAX_MARKER_BYTES: usize = 4096;

/// The supported version of the store descriptor.
pub const STORE_SCHEMA_VERSION: u32 = 1;

/// Most directories looked at between a directory and the file-system root.
pub const MAX_ANCESTORS: usize = 4096;

/// A file-system call that failed.
pub open spec fn io_failure(
    operation: Seq<char>,
    path: Seq<u8>,
    detail: Seq<char>,
) -> EngineError<Seq<char>, Seq<u8>> {
    EngineError::Io { operation, path, detail }
}

/// Describes a file-system call that failed.
pub fn io_error(operation: &str, path: &[u8], detail: &str) -> (error: EngineError)
    ensures
        error@ == io_failure(operation@, path@, detail@),
{
    EngineError::Io {
        operation: operation.to_owned(),
        path: copy_bytes(path),
        detail: detail.to_owned(),
    }
}

/// A directory that is not safe.
pub open spec fn unsafe_directory(
    directory: StateDirectory,
    path: Seq<u8>,
    reason: DirectorySafetyIssue,
) -> EngineError<Seq<char>, Seq<u8>> {
    EngineError::UnsafeDirectory { directory, path, reason }
}

/// What makes a state parent unsafe, if anything: its owner, then special mode bits, then
/// write permission for others.
pub open spec fn parent_problem(stat: FileStat, user: u32) -> Option<DirectorySafetyIssue> {
    let mode = stat.mode & PERMISSION_MASK;
    if stat.uid != user {
        Some(DirectorySafetyIssue::WrongOwner { expected_uid: user, actual_uid: stat.uid })
    } else if mode & 0o7000 != 0 {
        Some(DirectorySafetyIssue::SpecialModeBitsSet { mode })
    } else if mode & 0o022 != 0 {
        Some(DirectorySafetyIssue::GroupOrOtherWritable { mode })
    } else {
        None
    }
}

/// What makes a state root unsafe, if anything: its owner, then any mode but 0700.
pub open spec fn root_problem(stat: FileStat, user: u32) -> Option<DirectorySafetyIssue> {
    if stat.uid != user {
        Some(DirectorySafetyIssue::WrongOwner { expected_uid: user, actual_uid: stat.uid })
    } else if stat.mode & PERMISSION_MASK != 0o700 {
        Some(
            DirectorySafetyIssue::UnexpectedMode {
                expected: 0o700,
                actual: stat.mode & PERMISSION_MASK,
            },
        )
    } else {
        None
    }
}

/// A directory passes exactly where it could be observed and nothing makes it unsafe.
pub open spec fn directory_check(
    observed: Result<FileStat, HostFailure<Seq<char>>>,
    operation: Seq<char>,
    directory: StateDirectory,
    path: Seq<u8>,
    problem: spec_fn(FileStat) -> Option<DirectorySafetyIssue>,
) -> Result<(), EngineError<Seq<char>, Seq<u8>>> {
    match observed {
        Err(failure) => Err(io_failure(operation, path, failure.detail)),
        Ok(stat) => match problem(stat) {
            Some(reason) => Err(unsafe_directory(directory, path, reason)),
            None => Ok(()),
        },
    }
}

/// The outcome is what was expected.
pub open spec fn check_is(
    outcome: Result<(), EngineError>,
    expected: Result<(), EngineError<Seq<char>, Seq<u8>>>,
) -> bool {
    match outcome {
        Ok(_) => expected is Ok,
        Err(error) => expected == Err::<(), EngineError<Seq<char>, Seq<u8>>>(error@),
    }
}

/// Checks the state parent.
pub fn validate_state_parent(
    observed: Result<FileStat, HostFailure>,
    path: &[u8],
    expected_user_id: u32,
) -> (checked: Result<(), EngineError>)
    ensures
        check_is(
            checked,
            directory_check(
                stat::observation_view(observed),
                "inspect state parent"@,
                StateDirectory::StateParent,
                path@,
                |stat: FileStat| parent_problem(stat, expected_user_id),
            ),
        ),
{
    let stat = match observed {
        Ok(stat) => stat,
        Err(failure) => {
            return Err(io_error("inspect state parent", path, failure.detail.as_str()));
        },
    };
    let mode: u32 = stat.permissions();
    let reason = if stat.uid != expected_user_id {
        DirectorySafetyIssue::WrongOwner { expected_uid: expected_user_id, actual_uid: stat.uid }
    } else if mode & 0o7000 != 0 {
        DirectorySafetyIssue::SpecialModeBitsSet { mode }
    } else if mode & 0o022 != 0 {
        DirectorySafetyIssue::GroupOrOtherWritable { mode }
    } else {
        return Ok(());
    };
    Err(
        EngineError::UnsafeDirectory {
            directory: StateDirectory::StateParent,
            path: copy_bytes(path),
            reason,
        },
    )
}

/// Checks the state root.
pub fn validate_store_root(
    observed: Result<FileStat, HostFailure>,
    path: &[u8],
    expected_user_id: u32,
) -> (checked: Result<(), EngineError>)
    ensures
        check_is(
            checked,
            directory_check(
                stat::observation_view(observed),
                "inspect state root"@,
                StateDirectory::V1Root,
                path@,
                |stat: FileStat| root_problem(stat, expected_user_id),
            ),
        ),
{
    let stat = match observed {
        Ok(stat) => stat,
        Err(failure) => {
            return Err(io_error("inspect state root", path, failure.detail.as_str()));
        },
    };
    let mode: u32 = stat.permissions();
    let reason = if stat.uid != expected_user_id {
        DirectorySafetyIssue::WrongOwner { expected_uid: expected_user_id, actual_uid: stat.uid }
    } else if mode != 0o700 {
        DirectorySafetyIssue::UnexpectedMode { expected: 0o700, actual: mode }
    } else {
        return Ok(());
    };
    Err(
        EngineError::UnsafeDirectory {
            directory: StateDirectory::V1Root,
            path: copy_bytes(path),
            reason,
        },
    )
}

/// A safe state root is also safe as a parent: private directories are not writable by others.
pub proof fn lemma_private_root_is_a_safe_parent(stat: FileStat, user: u32)
    ensures
        root_problem(stat, user) is None ==> parent_problem(stat, user) is None,
{
    let mode = stat.mode & PERMISSION_MASK;
    assert(0o700u32 & 0o7000 == 0) by (bit_vector);
    assert(0o700u32 & 0o022 == 0) by (bit_vector);
}

/// A name still leads to the pinned state root.
pub open spec fn root_binding(
    pinned: Result<FileStat, HostFailure<Seq<char>>>,
    bound: Result<FileStat, HostFailure<Seq<char>>>,
    path: Seq<u8>,
) -> Result<(), EngineError<Seq<char>, Seq<u8>>> {
    match pinned {
        Err(failure) => Err(
            io_failure("inspect pinned root identity"@, path, failure.detail),
        ),
        Ok(pin) => match bound {
            Err(failure) => if failure.kind == HostErrorKind::NotFound {
                Err(EngineError::RootObservationChanged { path })
            } else {
                Err(io_failure("revalidate state root binding"@, path, failure.detail))
            },
            Ok(found) => if stat::are_same_object(pin, found) {
                Ok(())
            } else {
                Err(EngineError::RootObservationChanged { path })
            },
        },
    }
}

/// Checks that a name still leads to the pinned state root.
pub fn ensure_bound(
    pinned: Result<FileStat, HostFailure>,
    bound: Result<FileStat, HostFailure>,
    path: &[u8],
) -> (checked: Result<(), EngineError>)
    ensures
        check_is(
            checked,
            root_binding(stat::observation_view(pinned), stat::observation_view(bound), path@),
        ),
{
    let pin = match pinned {
        Ok(pin) => pin,
        Err(failure) => {
            return Err(
                io_error("inspect pinned root identity", path, failure.detail.as_str()),
            );
        },
    };
    match bound {
        Err(failure) => {
            if failure.kind == HostErrorKind::NotFound {
                Err(EngineError::RootObservationChanged { path: copy_bytes(path) })
            } else {
                Err(io_error("revalidate state root binding", path, failure.detail.as_str()))
            }
        },
        Ok(found) => {
            if pin.same_object(&found) {
                Ok(())
            } else {
                Err(EngineError::RootObservationChanged { path: copy_bytes(path) })
            }
        },
    }
}

/// One link of the pinned directory chain above the state root still holds.
pub open spec fn parent_binding(
    bound: Result<FileStat, HostFailure<Seq<char>>>,
    pinned: Result<FileStat, HostFailure<Seq<char>>>,
    path: Seq<u8>,
) -> Result<(), EngineError<Seq<char>, Seq<u8>>> {
    match bound {
        Err(failure) => if failure.kind == HostErrorKind::NotFound || failure.kind
            == HostErrorKind::NotDirectory {
            Err(EngineError::StateParentObservationChanged { path })
        } else {
            Err(io_failure("revalidate state parent binding"@, path, failure.detail))
        },
        Ok(found) => match pinned {
            Err(failure) => Err(
                io_failure("inspect pinned state parent"@, path, failure.detail),
            ),
            Ok(pin) => if stat::are_same_object(found, pin) {
                Ok(())
            } else {
                Err(EngineError::StateParentObservationChanged { path })
            },
        },
    }
}

/// Checks that one link of the pinned directory chain above the state root still holds.
pub fn ensure_parent_link(
    bound: Result<FileStat, HostFailure>,
    pinned: Result<FileStat, HostFailure>,
    path: &[u8],
) -> (checked: Result<(), EngineError>)
    ensures
        check_is(
            checked,
            parent_binding(stat::observation_view(bound), stat::observation_view(pinned), path@),
        ),
{
    let found = match bound {
        Ok(found) => found,
        Err(failure) => {
            if failure.kind == HostErrorKind::NotFound || failure.kind
                == HostErrorKind::NotDirectory {
                return Err(EngineError::StateParentObservationChanged { path: copy_bytes(path) });
            }
            return Err(
                io_error("revalidate state parent binding", path, failure.detail.as_str()),
            );
        },
    };
    match pinned {
        Err(failure) => Err(
            io_error("inspect pinned state parent", path, failure.detail.as_str()),
        ),
        Ok(pin) => {
            if found.same_object(&pin) {
                Ok(())
            } else {
                Err(EngineError::StateParentObservationChanged { path: copy_bytes(path) })
            }
        },
    }
}

/// What is wrong with a descriptor's metadata, if anything; the first problem counts.
pub open spec fn marker_problem(stat: FileStat, user: u32) -> Option<StoreMetadataIssue<Seq<char>>> {
    if stat::kind_of(stat.mode) != EntryKind::Regular {
        Some(StoreMetadataIssue::MarkerNotRegular)
    } else if stat.size < 0 {
        Some(
            StoreMetadataIssue::InvalidDescriptor {
                detail: "descriptor.json reports a negative size"@,
            },
        )
    } else if stat.size > MAX_MARKER_BYTES {
        Some(
            StoreMetadataIssue::MarkerTooLarge {
                limit: MAX_MARKER_BYTES,
                actual: stat.size as u64,
            },
        )
    } else if stat.uid != user {
        Some(StoreMetadataIssue::WrongOwner { expected_uid: user, actual_uid: stat.uid })
    } else if stat.mode & PERMISSION_MASK != 0o600 {
        Some(StoreMetadataIssue::UnexpectedMode { actual: stat.mode & PERMISSION_MASK })
    } else if stat.nlink != 1 {
        Some(StoreMetadataIssue::MultipleLinks { links: stat.nlink })
    } else {
        None
    }
}

/// The view of an optional issue.
pub open spec fn issue_view(issue: Option<StoreMetadataIssue>) -> Option<
    StoreMetadataIssue<Seq<char>>,
> {
    match issue {
        Some(issue) => Some(issue@),
        None => None,
    }
}

/// Returns what is wrong with a descriptor's metadata, if anything.
pub fn validate_marker_stat(stat: &FileStat, expected_user_id: u32) -> (problem: Option<
    StoreMetadataIssue,
>)
    ensures
        issue_view(problem) == marker_problem(*stat, expected_user_id),
{
    match stat.kind() {
        EntryKind::Regular => {},
        _ => {
            return Some(StoreMetadataIssue::MarkerNotRegular);
        },
    }
    if stat.size < 0 {
        return Some(
            StoreMetadataIssue::InvalidDescriptor {
                detail: "descriptor.json reports a negative size".to_owned(),
            },
        );
    }
    let size: u64 = stat.size as u64;
    if size > MAX_MARKER_BYTES as u64 {
        return Some(
            StoreMetadataIssue::MarkerTooLarge { limit: MAX_MARKER_BYTES, actual: size },
        );
    }
    if stat.uid != expected_user_id {
        return Some(
            StoreMetadataIssue::WrongOwner {
                expected_uid: expected_user_id,
                actual_uid: stat.uid,
            },
        );
    }
    let mode: u32 = stat.permissions();
    if mode != 0o600 {
        return Some(StoreMetadataIssue::UnexpectedMode { actual: mode });
    }
    if stat.nlink != 1 {
        return Some(StoreMetadataIssue::MultipleLinks { links: stat.nlink });
    }
    None
}

/// What is wrong with an entry of the state root, if anything; the first problem counts.
pub open spec fn layout_problem(
    stat: FileStat,
    kind: EntryKind,
    user: u32,
    mode: u32,
    lock: bool,
) -> Option<Seq<char>> {
    if stat::kind_of(stat.mode) != kind {
        Some("filesystem kind is not allowed"@)
    } else if stat.uid != user {
        Some("owner differs from the effective user"@)
    } else if stat.mode & PERMISSION_MASK != mode {
        Some("permission or special-mode bits are not canonical"@)
    } else if lock && stat.nlink != 1 {
        Some("lock must have exactly one link"@)
    } else if lock && stat.size != 0 {
        Some("lock must be empty"@)
    } else {
        None
    }
}

/// Returns what is wrong with an entry of the state root, if anything.
pub fn validate_layout_entry_stat(
    stat: &FileStat,
    expected_kind: EntryKind,
    expected_user_id: u32,
    expected_mode: u32,
    lock: bool,
) -> (problem: Option<StoreMetadataIssue>)
    ensures
        issue_view(problem) == match layout_problem(
            *stat,
            expected_kind,
            expected_user_id,
            expected_mode,
            lock,
        ) {
            Some(detail) => Some(StoreMetadataIssue::<Seq<char>>::InvalidRootEntry { detail }),
            None => None,
        },
{
    let detail = if stat.kind() != expected_kind {
        "filesystem kind is not allowed"
    } else if stat.uid != expected_user_id {
        "owner differs from the effective user"
    } else if stat.permissions() != expected_mode {
        "permission or special-mode bits are not canonical"
    } else if lock && stat.nlink != 1 {
        "lock must have exactly one link"
    } else if lock && stat.size != 0 {
        "lock must be empty"
    } else {
        return None;
    };
    Some(StoreMetadataIssue::InvalidRootEntry { detail: detail.to_owned() })
}

/// Malformed metadata at a path.
pub open spec fn metadata_failure(
    path: Seq<u8>,
    reason: StoreMetadataIssue<Seq<char>>,
) -> EngineError<Seq<char>, Seq<u8>> {
    EngineError::MalformedStoreMetadata { path, reason }
}

/// Describes malformed metadata at a path.
pub fn metadata_error(path: &[u8], reason: StoreMetadataIssue) -> (error: EngineError)
    ensures
        error@ == metadata_failure(path@, reason@),
{
    EngineError::MalformedStoreMetadata { path: copy_bytes(path), reason }
}

/// The path of the store descriptor.
pub fn marker_path(root: &[u8]) -> (marker: Vec<u8>)
    ensures
        marker@ == path::joined(root@, marker_name()),
{
    join_paths(root, "descriptor.json".as_bytes())
}

/// The descriptor name still leads to the pinned descriptor, and both are what a descriptor
/// must be.
pub open spec fn marker_binding(
    pinned: Result<FileStat, HostFailure<Seq<char>>>,
    bound: Result<FileStat, HostFailure<Seq<char>>>,
    path: Seq<u8>,
    user: u32,
) -> Result<FileStat, EngineError<Seq<char>, Seq<u8>>> {
    match pinned {
        Err(failure) => Err(
            io_failure("inspect pinned store descriptor"@, path, failure.detail),
        ),
        Ok(pin) => match marker_problem(pin, user) {
            Some(reason) => Err(metadata_failure(path, reason)),
            None => match bound {
                Err(failure) => if failure.kind == HostErrorKind::NotFound {
                    Err(metadata_failure(path, StoreMetadataIssue::ObservationChanged))
                } else {
                    Err(
                        io_failure("revalidate store descriptor binding"@, path, failure.detail),
                    )
                },
                Ok(found) => if !stat::are_same_object(pin, found) {
                    Err(metadata_failure(path, StoreMetadataIssue::ObservationChanged))
                } else {
                    match marker_problem(found, user) {
                        Some(reason) => Err(metadata_failure(path, reason)),
                        None => Ok(pin),
                    }
                },
            },
        },
    }
}

/// The view of a checked observation.
pub open spec fn checked_view(checked: Result<FileStat, EngineError>) -> Result<
    FileStat,
    EngineError<Seq<char>, Seq<u8>>,
> {
    match checked {
        Ok(stat) => Ok(stat),
        Err(error) => Err(error@),
    }
}

/// Checks that the descriptor name still leads to the pinned descriptor.
pub fn ensure_marker_bound(
    pinned: Result<FileStat, HostFailure>,
    bound: Result<FileStat, HostFailure>,
    path: &[u8],
    expected_user_id: u32,
) -> (checked: Result<FileStat, EngineError>)
    ensures
        checked_view(checked) == marker_binding(
            stat::observation_view(pinned),
            stat::observation_view(bound),
            path@,
            expected_user_id,
        ),
{
    let pin = match pinned {
        Ok(pin) => pin,
        Err(failure) => {
            return Err(
                io_error("inspect pinned store descriptor", path, failure.detail.as_str()),
            );
        },
    };
    match validate_marker_stat(&pin, expected_user_id) {
        Some(reason) => {
            return Err(metadata_error(path, reason));
        },
        None => {},
    }
    let found = match bound {
        Ok(found) => found,
        Err(failure) => {
            if failure.kind == HostErrorKind::NotFound {
                return Err(metadata_error(path, StoreMetadataIssue::ObservationChanged));
            }
            return Err(
                io_error("revalidate store descriptor binding", path, failure.detail.as_str()),
            );
        },
    };
    if !pin.same_object(&found) {
        return Err(metadata_error(path, StoreMetadataIssue::ObservationChanged));
    }
    match validate_marker_stat(&found, expected_user_id) {
        Some(reason) => Err(metadata_error(path, reason)),
        None => Ok(pin),
    }
}

/// What decoding the descriptor gave; `T` is the type of its text.
#[derive(Debug)]
pub enum DescriptorDecode<T = String> {
    /// The supported descriptor.
    Supported,
    /// A well-formed descriptor of another version.
    UnsupportedVersion { found: u64 },
    /// Too many bytes.
    TooLarge { limit: usize, actual: usize },
    /// Anything else, in words.
    Malformed { detail: T },
}

/// What a decoded descriptor means for the store.
pub open spec fn descriptor_check(decoded: DescriptorDecode<Seq<char>>, path: Seq<u8>) -> Result<
    (),
    EngineError<Seq<char>, Seq<u8>>,
> {
    match decoded {
        DescriptorDecode::Supported => Ok(()),
        DescriptorDecode::UnsupportedVersion { found } => if found > u32::MAX {
            Err(
                metadata_failure(
                    path,
                    StoreMetadataIssue::InvalidDescriptor {
                        detail: "descriptor version does not fit the supported version domain"@,
                    },
                ),
            )
        } else {
            Err(
                EngineError::UnsupportedStoreVersion {
                    path,
                    expected: STORE_SCHEMA_VERSION,
                    found: found as u32,
                },
            )
        },
        DescriptorDecode::TooLarge { limit, actual } => Err(
            metadata_failure(
                path,
                StoreMetadataIssue::MarkerTooLarge { limit, actual: actual as u64 },
            ),
        ),
        DescriptorDecode::Malformed { detail } => Err(
            metadata_failure(path, StoreMetadataIssue::InvalidDescriptor { detail }),
        ),
    }
}

impl View for DescriptorDecode<String> {
    type V = DescriptorDecode<Seq<char>>;

    open spec fn view(&self) -> DescriptorDecode<Seq<char>> {
        match *self {
            DescriptorDecode::Supported => DescriptorDecode::Supported,
            DescriptorDecode::UnsupportedVersion { found } =>
                DescriptorDecode::UnsupportedVersion { found },
            DescriptorDecode::TooLarge { limit, actual } => DescriptorDecode::TooLarge {
                limit,
                actual,
            },
            DescriptorDecode::Malformed { detail } => DescriptorDecode::Malformed {
                detail: detail@,
            },
        }
    }
}

/// Decides what a decoded descriptor means for the store.
pub fn check_descriptor(decoded: DescriptorDecode, path: &[u8]) -> (checked: Result<
    (),
    EngineError,
>)
    ensures
        check_is(checked, descriptor_check(decoded@, path@)),
{
    match decoded {
        DescriptorDecode::Supported => Ok(()),
        DescriptorDecode::UnsupportedVersion { found } => {
            if found > u32::MAX as u64 {
                return Err(
                    metadata_error(
                        path,
                        StoreMetadataIssue::InvalidDescriptor {
                            detail:
                                "descriptor version does not fit the supported version domain".to_owned(),
                        },
                    ),
                );
            }
            Err(
                EngineError::UnsupportedStoreVersion {
                    path: copy_bytes(path),
                    expected: STORE_SCHEMA_VERSION,
                    found: found as u32,
                },
            )
        },
        DescriptorDecode::TooLarge { limit, actual } => Err(
            metadata_error(
                path,
                StoreMetadataIssue::MarkerTooLarge { limit, actual: actual as u64 },
            ),
        ),
        DescriptorDecode::Malformed { detail } => Err(
            metadata_error(path, StoreMetadataIssue::InvalidDescriptor { detail }),
        ),
    }
}

/// The next question on the way from a directory up to the file-system root.
#[derive(Clone, Copy, Debug, PartialEq, Eq, Structural)]
pub enum AncestryStep {
    /// The ancestor has been met.
    Inside,
    /// The file-system root has been passed.
    Outside,
    /// Go on from the parent.
    Climb,
}

/// Decides, at one directory on the way up, whether the ancestor has been met.
pub fn climb(ancestor: &FileStat, current: &FileStat, parent: &FileStat) -> (step: AncestryStep)
    ensures
        step == if stat::are_same_object(*ancestor, *current) {
            AncestryStep::Inside
        } else if stat::are_same_object(*current, *parent) {
            AncestryStep::Outside
        } else {
            AncestryStep::Climb
        },
{
    if ancestor.same_object(current) {
        AncestryStep::Inside
    } else if current.same_object(parent) {
        AncestryStep::Outside
    } else {
        AncestryStep::Climb
    }
}

/// Whether a chain of directories, each followed by its parent, passes through the ancestor
/// before it reaches a directory that is its own parent. `None` where the chain says neither.
pub open spec fn chain_contains(ancestor: FileStat, chain: Seq<FileStat>) -> Option<bool>
    decreases chain.len(),
{
    if chain.len() < 2 {
        None
    } else if stat::are_same_object(ancestor, chain[0]) {
        Some(true)
    } else if stat::are_same_object(chain[0], chain[1]) {
        Some(false)
    } else {
        chain_contains(ancestor, chain.skip(1))
    }
}

/// Describes an ancestry that could not be bounded.
pub fn ancestry_limit_error(path: &[u8]) -> (error: EngineError)
    ensures
        error@ == unsafe_directory(
            StateDirectory::StateParent,
            path@,
            DirectorySafetyIssue::AncestryLimitExceeded { limit: MAX_ANCESTORS },
        ),
{
    EngineError::UnsafeDirectory {
        directory: StateDirectory::StateParent,
        path: copy_bytes(path),
        reason: DirectorySafetyIssue::AncestryLimitExceeded { limit: MAX_ANCESTORS },
    }
}

/// Tells whether a directory, given with its chain of parents, lies inside the ancestor: the
/// chain is followed up to a fixed length.
pub fn directory_contains(ancestor: &FileStat, chain: &Vec<FileStat>, path: &[u8]) -> (inside:
    Result<bool, EngineError>)
    ensures
        match chain_contains(*ancestor, chain@.take(chain_limit(chain@.len()))) {
            Some(value) => inside == Ok::<bool, EngineError>(value),
            None => inside matches Err(error) && error@ == unsafe_directory(
                StateDirectory::StateParent,
                path@,
                DirectorySafetyIssue::AncestryLimitExceeded { limit: MAX_ANCESTORS },
            ),
        },
{
    let limit: usize = if chain.len() < MAX_ANCESTORS + 1 {
        chain.len()
    } else {
        MAX_ANCESTORS + 1
    };
    let ghost kept = chain@.take(limit as int);
    let mut i: usize = 0;
    proof {
        assert(kept.skip(0) =~= kept);
    }
    while i + 1 < limit
        invariant
            i <= limit <= chain.len(),
            limit == chain_limit(chain@.len()),
            limit <= MAX_ANCESTORS + 1,
            kept == chain@.take(limit as int),
            chain_contains(*ancestor, kept) == chain_contains(*ancestor, kept.skip(i as int)),
        decreases limit - i,
    {
        proof {
            assert(kept.skip(i as int)[0] == chain@[i as int]);
            assert(kept.skip(i as int)[1] == chain@[i + 1]);
            assert(kept.skip(i as int).skip(1) =~= kept.skip(i + 1));
        }
        match climb(ancestor, &chain[i], &chain[i + 1]) {
            AncestryStep::Inside => {
                return Ok(true);
            },
            AncestryStep::Outside => {
                return Ok(false);
            },
            AncestryStep::Climb => {},
        }
        i = i + 1;
    }
    Err(ancestry_limit_error(path))
}

/// The number of chain entries that are looked at.
pub open spec fn chain_limit(length: nat) -> int {
    if length < MAX_ANCESTORS + 1 {
        length as int
    } else {
        MAX_ANCESTORS + 1
    }
}

/// What the state root is found to be.
#[derive(Clone, Copy, Debug, PartialEq, Eq, Structural)]
pub enum MetadataState {
    /// The root is empty.
    Missing,
    /// The root has the supported descriptor.
    Ready,
}

/// Returns the store status that a root's metadata tells.
pub fn status_of(state: MetadataState) -> (status: StoreStatus)
    ensures
        status == match state {
            MetadataState::Missing => StoreStatus::Uninitialized,
            MetadataState::Ready => StoreStatus::Ready,
        },
{
    match state {
        MetadataState::Missing => StoreStatus::Uninitialized,
        MetadataState::Ready => StoreStatus::Ready,
    }
}

/// A directory passes as a parent exactly where the user owns it, it has no special mode bit, and
/// neither its group nor others may write to it; it passes as a root exactly where the user owns
/// it and nobody else has any right to it. The reason tells what was found.
pub proof fn lemma_only_safe_directories_pass(stat: FileStat, user: u32)
    ensures
        match parent_problem(stat, user) {
            None => stat.uid == user && (stat.mode & 0o7777) & 0o7000 == 0 && (stat.mode & 0o7777)
                & 0o022 == 0,
            Some(DirectorySafetyIssue::WrongOwner { expected_uid, actual_uid }) => expected_uid
                == user && actual_uid == stat.uid && stat.uid != user,
            Some(DirectorySafetyIssue::SpecialModeBitsSet { mode }) => mode == stat.mode & 0o7777
                && mode & 0o7000 != 0,
            Some(DirectorySafetyIssue::GroupOrOtherWritable { mode }) => mode == stat.mode & 0o7777
                && mode & 0o022 != 0,
            Some(_) => false,
        },
        match root_problem(stat, user) {
            None => stat.uid == user && stat.mode & 0o7777 == 0o700,
            Some(DirectorySafetyIssue::WrongOwner { expected_uid, actual_uid }) => expected_uid
                == user && actual_uid == stat.uid && stat.uid != user,
            Some(DirectorySafetyIssue::UnexpectedMode { expected, actual }) => expected == 0o700
                && actual == stat.mode & 0o7777 && actual != expected,
            Some(_) => false,
        },
{
}

/// A store descriptor passes exactly where it is a regular file of the user that nobody else has
/// a right to, has one name, and is not too large. The reason tells what was found.
pub proof fn lemma_only_private_descriptors_pass(stat: FileStat, user: u32)
    ensures
        match marker_problem(stat, user) {
            None => stat.mode & 0o170000 == 0o100000 && 0 <= stat.size <= 4096 && stat.uid == user
                && stat.mode & 0o7777 == 0o600 && stat.nlink == 1,
            Some(StoreMetadataIssue::MarkerNotRegular) => stat.mode & 0o170000 != 0o100000,
            Some(StoreMetadataIssue::InvalidDescriptor { detail }) => stat.size < 0 && detail
                == "descriptor.json reports a negative size"@,
            Some(StoreMetadataIssue::MarkerTooLarge { limit, actual }) => limit == 4096 && actual
                == stat.size && stat.size > 4096,
            Some(StoreMetadataIssue::WrongOwner { expected_uid, actual_uid }) => expected_uid
                == user && actual_uid == stat.uid && stat.uid != user,
            Some(StoreMetadataIssue::UnexpectedMode { actual }) => actual == stat.mode & 0o7777
                && actual != 0o600,
            Some(StoreMetadataIssue::MultipleLinks { links }) => links == stat.nlink && links != 1,
            Some(_) => false,
        },
{
}

/// An entry of the layout passes exactly where it has the kind, the owner and the permissions
/// that are asked for, and, as a lock, one name and no contents.
pub proof fn lemma_only_canonical_entries_pass(
    stat: FileStat,
    kind: EntryKind,
    user: u32,
    mode: u32,
    lock: bool,
)
    ensures
        layout_problem(stat, kind, user, mode, lock) is None <==> {
            &&& stat::kind_of(stat.mode) == kind
            &&& stat.uid == user
            &&& stat.mode & 0o7777 == mode
            &&& lock ==> stat.nlink == 1 && stat.size == 0
        },
{
}

/// A root and a parent are still bound exactly where what their name leads to is on the same
/// device, with the same number, as what was pinned; whatever else is there, or nothing, is told
/// as a change.
pub proof fn lemma_bindings_lead_to_what_was_pinned(pin: FileStat, found: FileStat, path: Seq<u8>)
    ensures
        ({
            let pinned = Ok::<FileStat, HostFailure<Seq<char>>>(pin);
            let bound = Ok::<FileStat, HostFailure<Seq<char>>>(found);
            if pin.dev == found.dev && pin.ino == found.ino {
                root_binding(pinned, bound, path) is Ok && parent_binding(bound, pinned, path)
                    is Ok
            } else {
                &&& root_binding(pinned, bound, path) == Err::<
                    (),
                    EngineError<Seq<char>, Seq<u8>>,
                >(EngineError::RootObservationChanged { path })
                &&& parent_binding(bound, pinned, path) == Err::<
                    (),
                    EngineError<Seq<char>, Seq<u8>>,
                >(EngineError::StateParentObservationChanged { path })
            }
        }),
{
}

/// Nothing is bound where it cannot be looked at.
pub proof fn lemma_unseen_directories_are_not_bound(
    pinned: Result<FileStat, HostFailure<Seq<char>>>,
    bound: Result<FileStat, HostFailure<Seq<char>>>,
    path: Seq<u8>,
    user: u32,
)
    requires
        pinned is Err || bound is Err,
    ensures
        root_binding(pinned, bound, path) is Err,
        parent_binding(bound, pinned, path) is Err,
        marker_binding(pinned, bound, path, user) is Err,
        pinned is Ok && (bound matches Err(failure) && failure.kind == HostErrorKind::NotFound) ==> {
            &&& root_binding(pinned, bound, path) == Err::<(), EngineError<Seq<char>, Seq<u8>>>(
                EngineError::RootObservationChanged { path },
            )
            &&& parent_binding(bound, pinned, path) == Err::<(), EngineError<Seq<char>, Seq<u8>>>(
                EngineError::StateParentObservationChanged { path },
            )
        },
{
}

/// A descriptor passes exactly where its version is supported.
pub proof fn lemma_only_supported_descriptors_pass(
    decoded: DescriptorDecode<Seq<char>>,
    path: Seq<u8>,
)
    ensures
        descriptor_check(decoded, path) is Ok <==> decoded is Supported,
        decoded matches DescriptorDecode::UnsupportedVersion { found } ==> (found <= u32::MAX
            ==> descriptor_check(decoded, path) == Err::<(), EngineError<Seq<char>, Seq<u8>>>(
            EngineError::UnsupportedStoreVersion {
                path,
                expected: STORE_SCHEMA_VERSION,
                found: found as u32,
            },
        )),
        decoded matches DescriptorDecode::Malformed { detail } ==> descriptor_check(decoded, path)
            == Err::<(), EngineError<Seq<char>, Seq<u8>>>(
            EngineError::MalformedStoreMetadata {
                path,
                reason: StoreMetadataIssue::InvalidDescriptor { detail },
            },
        ),
{
}

/// A directory contains another one exactly where it is among the directories that are passed on
/// the way up from that one to the root, which is its own parent.
pub proof fn lemma_chain_tells_what_lies_above(ancestor: FileStat, chain: Seq<FileStat>)
    requires
        chain.len() >= 2,
        chain[chain.len() - 2].dev == chain[chain.len() - 1].dev,
        chain[chain.len() - 2].ino == chain[chain.len() - 1].ino,
        forall|j: int|
            #![trigger chain[j]]
            0 <= j < chain.len() - 2 ==> chain[j].dev != chain[j + 1].dev || chain[j].ino
                != chain[j + 1].ino,
    ensures
        chain_contains(ancestor, chain) == Some(
            exists|i: int|
                0 <= i < chain.len() - 1 && (#[trigger] chain[i]).dev == ancestor.dev
                    && chain[i].ino == ancestor.ino,
        ),
    decreases chain.len(),
{
    let above = exists|i: int|
        0 <= i < chain.len() - 1 && (#[trigger] chain[i]).dev == ancestor.dev && chain[i].ino
            == ancestor.ino;
    if stat::are_same_object(ancestor, chain[0]) {
        assert(above);
    } else if chain.len() == 2 {
        assert(!above);
    } else {
        let rest = chain.skip(1);
        assert(chain[0].dev != chain[1].dev || chain[0].ino != chain[1].ino);
        assert forall|j: int| #![trigger rest[j]] 0 <= j < rest.len() - 2 implies rest[j].dev
            != rest[j + 1].dev || rest[j].ino != rest[j + 1].ino by {
            let k = j + 1;
            assert(chain[k].dev != chain[k + 1].dev || chain[k].ino != chain[k + 1].ino);
        }
        lemma_chain_tells_what_lies_above(ancestor, rest);
        let below = exists|i: int|
            0 <= i < rest.len() - 1 && (#[trigger] rest[i]).dev == ancestor.dev && rest[i].ino
                == ancestor.ino;
        if above {
            let i = choose|i: int|
                0 <= i < chain.len() - 1 && (#[trigger] chain[i]).dev == ancestor.dev
                    && chain[i].ino == ancestor.ino;
            assert(rest[i - 1] == chain[i]);
        }
        if below {
            let i = choose|i: int|
                0 <= i < rest.len() - 1 && (#[trigger] rest[i]).dev == ancestor.dev
                    && rest[i].ino == ancestor.ino;
            assert(chain[i + 1] == rest[i]);
        }
    }
}

} // verus!
