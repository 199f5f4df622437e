//! Capturing a pack from a local directory that may change meanwhile.

use vstd::prelude::*;
use vstd::utf8::*;

use crate::error::{EngineError, PackCaptureIssue};
use crate::git::acquire;
use crate::git::reader::PathClass;
use crate::limits::{
    MAX_CAPTURE_ENTRIES, MAX_PACK_FILE_BYTES, MAX_PACK_TREE_BYTES, MAX_PACK_TREE_ENTRIES,
};
use crate::path;
use crate::path::{join_paths, list_starts_with, normalize_path, path_is_absolute, paths_overlap};
use crate::seqs;
use crate::seqs::{bytes_equal, copy_bytes, split_bytes};
use crate::sort;
use crate::sort::stable_order;
use crate::stat;
use crate::stat::{EntryKind, FileStat, HostErrorKind, HostFailure};
use crate::state_root;
use crate::state_root::io_error;
use crate::text::{concat3, text_equal, utf8_text};

verus! {

/// A failed capture.
pub open spec fn capture_failure(
    root: Seq<u8>,
    path: Seq<u8>,
    reason: PackCaptureIssue<Seq<char>>,
) -> EngineError<Seq<char>, Seq<u8>> {
    EngineError::PackCapture { root, path, reason }
}

/// A capture that failed because something changed.
pub open spec fn changed_failure(root: Seq<u8>, path: Seq<u8>) -> EngineError<Seq<char>, Seq<u8>> {
    capture_failure(root, path, PackCaptureIssue::ObservationChanged)
}

/// Describes a failed capture.
pub fn capture_error(root: &[u8], path: &[u8], reason: PackCaptureIssue) -> (error: EngineError)
    ensures
        error@ == capture_failure(root@, path@, reason@),
{
    EngineError::PackCapture { root: copy_bytes(root), path: copy_bytes(path), reason }
}

fn changed(root: &[u8], path: &[u8]) -> (error: EngineError)
    ensures
        error@ == changed_failure(root@, path@),
{
    capture_error(root, path, PackCaptureIssue::ObservationChanged)
}

/// Normalizes the path of a source directory.
pub fn normalize_source_root(source_root: &[u8]) -> (normalized: Result<Vec<u8>, EngineError>)
    ensures
        if path::is_absolute(source_root@) {
            normalized matches Ok(found) && found@ == path::normalized(source_root@)
        } else {
            normalized matches Err(error) && error@ == capture_failure(
                source_root@,
                source_root@,
                PackCaptureIssue::SourceRootMustBeAbsolute,
            )
        },
{
    if !path_is_absolute(source_root) {
        return Err(
            capture_error(source_root, source_root, PackCaptureIssue::SourceRootMustBeAbsolute),
        );
    }
    Ok(normalize_path(source_root))
}

/// Keeps a source directory apart from the state root, going by their paths.
pub fn reject_lexical_state_overlap(source_root: &[u8], state_root: &[u8]) -> (checked: Result<
    (),
    EngineError,
>)
    ensures
        state_root::check_is(
            checked,
            if path::overlapping(source_root@, state_root@) {
                Err(
                    capture_failure(
                        source_root@,
                        source_root@,
                        PackCaptureIssue::ProtectedStateOverlap,
                    ),
                )
            } else {
                Ok(())
            },
        ),
{
    if paths_overlap(source_root, state_root) {
        return Err(
            capture_error(source_root, source_root, PackCaptureIssue::ProtectedStateOverlap),
        );
    }
    Ok(())
}

/// Whether two directories overlap: one lies inside the other, or one shows the other through
/// another mount. Mounts are asked about only where neither lies inside the other.
pub open spec fn physical_overlap(
    source_contains_state: bool,
    state_contains_source: bool,
    source_shows_state: bool,
    state_shows_source: bool,
) -> bool {
    source_contains_state || state_contains_source || source_shows_state || state_shows_source
}

/// Keeps a source directory apart from the state root, going by the directories themselves.
pub fn reject_physical_state_overlap(
    source_contains_state: bool,
    state_contains_source: bool,
    source_shows_state: bool,
    state_shows_source: bool,
    source_root: &[u8],
) -> (checked: Result<(), EngineError>)
    ensures
        state_root::check_is(
            checked,
            if physical_overlap(
                source_contains_state,
                state_contains_source,
                source_shows_state,
                state_shows_source,
            ) {
                Err(
                    capture_failure(
                        source_root@,
                        source_root@,
                        PackCaptureIssue::ProtectedStateOverlap,
                    ),
                )
            } else {
                Ok(())
            },
        ),
{
    if source_contains_state || state_contains_source || source_shows_state || state_shows_source {
        return Err(
            capture_error(source_root, source_root, PackCaptureIssue::ProtectedStateOverlap),
        );
    }
    Ok(())
}

/// The check of one directory on the way to a source.
pub open spec fn component_check(
    observed: Result<FileStat, HostFailure<Seq<char>>>,
    root: Seq<u8>,
    path: Seq<u8>,
) -> Result<FileStat, EngineError<Seq<char>, Seq<u8>>> {
    match observed {
        Err(failure) => match failure.kind {
            HostErrorKind::NotFound => Err(
                capture_failure(root, path, PackCaptureIssue::SourceRootMissing),
            ),
            HostErrorKind::NotDirectory => Err(
                capture_failure(root, path, PackCaptureIssue::SourceRootNotDirectory),
            ),
            _ => Err(
                state_root::io_failure("inspect local pack source path"@, path, failure.detail),
            ),
        },
        Ok(stat) => match stat::kind_of(stat.mode) {
            EntryKind::Directory => Ok(stat),
            EntryKind::Symlink => Err(
                capture_failure(root, path, PackCaptureIssue::SymbolicLink),
            ),
            _ => Err(capture_failure(root, path, PackCaptureIssue::SourceRootNotDirectory)),
        },
    }
}

/// Checks one directory on the way to a source, before it is opened.
pub fn check_source_component(
    observed: Result<FileStat, HostFailure>,
    root: &[u8],
    path: &[u8],
) -> (checked: Result<FileStat, EngineError>)
    ensures
        state_root::checked_view(checked) == component_check(
            stat::observation_view(observed),
            root@,
            path@,
        ),
{
    match observed {
        Err(failure) => match failure.kind {
            HostErrorKind::NotFound => Err(
                capture_error(root, path, PackCaptureIssue::SourceRootMissing),
            ),
            HostErrorKind::NotDirectory => Err(
                capture_error(root, path, PackCaptureIssue::SourceRootNotDirectory),
            ),
            _ => Err(io_error("inspect local pack source path", path, failure.detail.as_str())),
        },
        Ok(stat) => match stat.kind() {
            EntryKind::Directory => Ok(stat),
            EntryKind::Symlink => Err(capture_error(root, path, PackCaptureIssue::SymbolicLink)),
            _ => Err(capture_error(root, path, PackCaptureIssue::SourceRootNotDirectory)),
        },
    }
}

/// What a failure to open a source directory means.
pub open spec fn root_open_failure(
    root: Seq<u8>,
    path: Seq<u8>,
    failure: HostFailure<Seq<char>>,
) -> EngineError<Seq<char>, Seq<u8>> {
    match failure.kind {
        HostErrorKind::NotFound => capture_failure(root, path, PackCaptureIssue::SourceRootMissing),
        HostErrorKind::NotDirectory => capture_failure(
            root,
            path,
            PackCaptureIssue::SourceRootNotDirectory,
        ),
        HostErrorKind::Loop => capture_failure(root, path, PackCaptureIssue::SymbolicLink),
        _ => state_root::io_failure(
            "open local pack source without following links"@,
            path,
            failure.detail,
        ),
    }
}

/// Decides what a failure to open a source directory means.
pub fn map_root_open_error(root: &[u8], path: &[u8], failure: HostFailure) -> (error: EngineError)
    ensures
        error@ == root_open_failure(root@, path@, failure@),
{
    match failure.kind {
        HostErrorKind::NotFound => capture_error(root, path, PackCaptureIssue::SourceRootMissing),
        HostErrorKind::NotDirectory => capture_error(
            root,
            path,
            PackCaptureIssue::SourceRootNotDirectory,
        ),
        HostErrorKind::Loop => capture_error(root, path, PackCaptureIssue::SymbolicLink),
        _ => io_error(
            "open local pack source without following links",
            path,
            failure.detail.as_str(),
        ),
    }
}

/// The check of one directory that a locator leads through.
pub open spec fn resolved_check(
    observed: Result<FileStat, HostFailure<Seq<char>>>,
    path: Seq<u8>,
) -> Result<FileStat, EngineError<Seq<char>, Seq<u8>>> {
    match observed {
        Err(failure) => Err(root_open_failure(path, path, failure)),
        Ok(stat) => match stat::kind_of(stat.mode) {
            EntryKind::Directory => Ok(stat),
            EntryKind::Symlink => Err(
                capture_failure(path, path, PackCaptureIssue::SymbolicLink),
            ),
            _ => Err(capture_failure(path, path, PackCaptureIssue::SourceRootNotDirectory)),
        },
    }
}

/// Checks one directory that a locator leads through, before it is opened.
pub fn check_resolved_component(observed: Result<FileStat, HostFailure>, path: &[u8]) -> (checked:
    Result<FileStat, EngineError>)
    ensures
        state_root::checked_view(checked) == resolved_check(
            stat::observation_view(observed),
            path@,
        ),
{
    match observed {
        Err(failure) => Err(map_root_open_error(path, path, failure)),
        Ok(stat) => match stat.kind() {
            EntryKind::Directory => Ok(stat),
            EntryKind::Symlink => Err(capture_error(path, path, PackCaptureIssue::SymbolicLink)),
            _ => Err(capture_error(path, path, PackCaptureIssue::SourceRootNotDirectory)),
        },
    }
}

/// Checks that what was opened is the directory that was observed.
pub fn check_opened_source(
    observed: &FileStat,
    opened: Result<FileStat, HostFailure>,
    operation: &str,
    root: &[u8],
    path: &[u8],
) -> (checked: Result<(), EngineError>)
    ensures
        state_root::check_is(
            checked,
            match stat::observation_view(opened) {
                Err(failure) => Err(state_root::io_failure(operation@, path@, failure.detail)),
                Ok(found) => if stat::kind_of(found.mode) == EntryKind::Directory
                    && stat::are_same_object(*observed, found) {
                    Ok(())
                } else {
                    Err(changed_failure(root@, path@))
                },
            },
        ),
{
    match opened {
        Err(failure) => Err(io_error(operation, path, failure.detail.as_str())),
        Ok(found) => {
            if found.kind() == EntryKind::Directory && observed.same_object(&found) {
                Ok(())
            } else {
                Err(changed(root, path))
            }
        },
    }
}

/// One link of the pinned chain to a source still holds.
pub open spec fn source_binding(
    bound: Result<FileStat, HostFailure<Seq<char>>>,
    pinned: Result<FileStat, HostFailure<Seq<char>>>,
    path: Seq<u8>,
) -> Result<(), EngineError<Seq<char>, Seq<u8>>> {
    match bound {
        Err(failure) => if failure.kind == HostErrorKind::NotFound || failure.kind
            == HostErrorKind::NotDirectory {
            Err(changed_failure(path, path))
        } else {
            Err(
                state_root::io_failure(
                    "revalidate local pack source binding"@,
                    path,
                    failure.detail,
                ),
            )
        },
        Ok(found) => match pinned {
            Err(failure) => Err(
                state_root::io_failure("inspect pinned local pack source"@, path, failure.detail),
            ),
            Ok(pin) => if stat::kind_of(found.mode) == EntryKind::Directory
                && stat::are_same_object(found, pin) {
                Ok(())
            } else {
                Err(changed_failure(path, path))
            },
        },
    }
}

/// Checks that one link of the pinned chain to a source still holds.
pub fn ensure_source_link(
    bound: Result<FileStat, HostFailure>,
    pinned: Result<FileStat, HostFailure>,
    path: &[u8],
) -> (checked: Result<(), EngineError>)
    ensures
        state_root::check_is(
            checked,
            source_binding(stat::observation_view(bound), stat::observation_view(pinned), path@),
        ),
{
    let found = match bound {
        Ok(found) => found,
        Err(failure) => {
            if failure.kind == HostErrorKind::NotFound || failure.kind
                == HostErrorKind::NotDirectory {
                return Err(changed(path, path));
            }
            return Err(
                io_error("revalidate local pack source binding", path, failure.detail.as_str()),
            );
        },
    };
    match pinned {
        Err(failure) => Err(
            io_error("inspect pinned local pack source", path, failure.detail.as_str()),
        ),
        Ok(pin) => {
            if found.kind() == EntryKind::Directory && found.same_object(&pin) {
                Ok(())
            } else {
                Err(changed(path, path))
            }
        },
    }
}

/// The components of a locator: `.` has none.
pub open spec fn locator_components(locator: Seq<u8>) -> Seq<Seq<u8>> {
    if locator == path::current_component() {
        Seq::empty()
    } else {
        seqs::split_at_each(locator, path::SEPARATOR)
    }
}

/// How many directories are pinned along the way that components lead: `..` gives one up, but
/// never the first.
pub open spec fn pinned_along(start: int, components: Seq<Seq<u8>>) -> int
    decreases components.len(),
{
    if components.len() == 0 {
        start
    } else {
        let before = pinned_along(start, components.drop_last());
        if components.last() == path::parent_component() {
            if before <= 2 {
                1
            } else {
                before - 1
            }
        } else {
            before + 1
        }
    }
}

fn locator_pieces(locator: &[u8]) -> (pieces: Vec<Vec<u8>>)
    ensures
        seqs::views(pieces@) == locator_components(locator@),
{
    if locator.len() == 1 && locator[0] == 46 {
        let pieces: Vec<Vec<u8>> = Vec::new();
        proof {
            assert(locator@ =~= path::current_component());
            assert(seqs::views(pieces@) =~= Seq::<Seq<u8>>::empty());
        }
        return pieces;
    }
    proof {
        if locator@ == path::current_component() {
            assert(locator@.len() == 1 && locator@[0] == 46);
        }
    }
    split_bytes(locator, path::SEPARATOR)
}

/// Returns how many directories are pinned once a locator is resolved from a chain of so many.
pub fn resolved_locator_descriptor_count(pinned: usize, locator: &[u8]) -> (count: usize)
    requires
        pinned + locator_components(locator@).len() <= usize::MAX,
    ensures
        count == pinned_along(pinned as int, locator_components(locator@)),
{
    let pieces = locator_pieces(locator);
    let ghost all = seqs::views(pieces@);
    let above: [u8; 2] = [46, 46];
    let mut count: usize = pinned;
    let mut i: usize = 0;
    proof {
        assert(all.take(0) =~= Seq::<Seq<u8>>::empty());
        assert(above@ =~= path::parent_component());
    }
    while i < pieces.len()
        invariant
            i <= pieces.len(),
            all == seqs::views(pieces@),
            above@ == path::parent_component(),
            pinned + all.len() <= usize::MAX,
            all.len() == pieces@.len(),
            count == pinned_along(pinned as int, all.take(i as int)),
            count <= pinned + i,
        decreases pieces.len() - i,
    {
        proof {
            assert(all.take(i + 1).drop_last() =~= all.take(i as int));
            assert(all.take(i + 1).last() == pieces@[i as int]@);
        }
        if bytes_equal(pieces[i].as_slice(), above.as_slice()) {
            if count <= 2 {
                count = 1;
            } else {
                count = count - 1;
            }
        } else {
            count = count + 1;
        }
        i = i + 1;
    }
    proof {
        assert(all.take(all.len() as int) =~= all);
    }
    count
}

/// How many components are `..`.
pub open spec fn steps_up(components: Seq<Seq<u8>>) -> nat
    decreases components.len(),
{
    if components.len() == 0 {
        0
    } else {
        steps_up(components.drop_last()) + (if components.last() == path::parent_component() {
            1nat
        } else {
            0nat
        })
    }
}

/// The components that are not `..`.
pub open spec fn steps_down(components: Seq<Seq<u8>>) -> Seq<Seq<u8>>
    decreases components.len(),
{
    if components.len() == 0 {
        Seq::empty()
    } else if components.last() == path::parent_component() {
        steps_down(components.drop_last())
    } else {
        steps_down(components.drop_last()).push(components.last())
    }
}

/// How a locator is followed from a pinned chain: so many directories of the chain are kept,
/// and these names are opened below them.
#[derive(Debug)]
pub struct LocatorWay {
    pub retained: usize,
    pub names: Vec<Vec<u8>>,
}

/// What is left of a chain after so many steps up: never less than its first directory.
pub open spec fn retained_after(pinned: int, ups: nat) -> int {
    if pinned - ups < 1 {
        1
    } else {
        pinned - ups
    }
}

/// Decides how a locator is followed from a pinned chain: first up, then down.
pub fn resolve_locator(pinned: usize, locator: &[u8]) -> (way: LocatorWay)
    requires
        pinned >= 1,
    ensures
        way.retained == retained_after(pinned as int, steps_up(locator_components(locator@))),
        seqs::views(way.names@) == steps_down(locator_components(locator@)),
{
    let pieces = locator_pieces(locator);
    let ghost all = seqs::views(pieces@);
    let above: [u8; 2] = [46, 46];
    let mut retained: usize = pinned;
    let mut names: Vec<Vec<u8>> = Vec::new();
    let mut i: usize = 0;
    proof {
        assert(all.take(0) =~= Seq::<Seq<u8>>::empty());
        assert(above@ =~= path::parent_component());
        assert(seqs::views(names@) =~= steps_down(all.take(0)));
    }
    while i < pieces.len()
        invariant
            i <= pieces.len(),
            all == seqs::views(pieces@),
            above@ == path::parent_component(),
            pinned >= 1,
            retained == retained_after(pinned as int, steps_up(all.take(i as int))),
            seqs::views(names@) == steps_down(all.take(i as int)),
        decreases pieces.len() - i,
    {
        let ghost before = names@;
        let piece = pieces[i].as_slice();
        proof {
            assert(all.take(i + 1).drop_last() =~= all.take(i as int));
            assert(all.take(i + 1).last() == piece@);
        }
        if bytes_equal(piece, above.as_slice()) {
            if retained > 1 {
                retained = retained - 1;
            }
        } else {
            names.push(copy_bytes(piece));
            proof {
                assert(seqs::views(names@) =~= seqs::views(before).push(piece@));
            }
        }
        i = i + 1;
    }
    proof {
        assert(all.take(all.len() as int) =~= all);
    }
    LocatorWay { retained, names }
}

/// Where every `..` of a locator stands in front, the number of pinned directories that was
/// counted beforehand is the number that following it pins.
pub proof fn lemma_counted_descriptors_are_pinned(pinned: int, ups: nat, names: Seq<Seq<u8>>)
    requires
        pinned >= 1,
        forall|i: int| 0 <= i < names.len() ==> #[trigger] names[i] != path::parent_component(),
    ensures
        ({
            let components = Seq::new(ups, |i: int| path::parent_component()) + names;
            &&& steps_up(components) == ups
            &&& steps_down(components) == names
            &&& pinned_along(pinned, components) == retained_after(pinned, ups) + names.len()
        }),
    decreases ups + names.len(),
{
    let front = Seq::new(ups, |i: int| path::parent_component());
    let components = front + names;
    if names.len() > 0 {
        let head = names.drop_last();
        assert forall|i: int| 0 <= i < head.len() implies #[trigger] head[i]
            != path::parent_component() by {
            assert(names[i] != path::parent_component());
        }
        lemma_counted_descriptors_are_pinned(pinned, ups, head);
        assert(components.drop_last() =~= front + head);
        assert(components.last() == names.last());
        assert(names[names.len() - 1] != path::parent_component());
        assert(head.push(names.last()) =~= names);
    } else if ups > 0 {
        let fewer = (ups - 1) as nat;
        lemma_counted_descriptors_are_pinned(pinned, fewer, names);
        assert(components.drop_last() =~= Seq::new(fewer, |i: int| path::parent_component())
            + names);
        assert(components.last() == path::parent_component());
        assert(steps_down(components) =~= names);
    } else {
        assert(components =~= Seq::empty());
        assert(steps_down(components) =~= names);
    }
}

/// What is to be done with a name found in a source directory.
#[derive(Debug)]
pub enum NameStep<T = String> {
    /// The name never belongs to a pack.
    Skip,
    /// The name is not text.
    NotText,
    /// Ask what the pack rules say of this path.
    Classify(T),
}

impl View for NameStep<String> {
    type V = NameStep<Seq<char>>;

    open spec fn view(&self) -> NameStep<Seq<char>> {
        match *self {
            NameStep::Skip => NameStep::Skip,
            NameStep::NotText => NameStep::NotText,
            NameStep::Classify(logical) => NameStep::Classify(logical@),
        }
    }
}

/// Names that never belong to a pack.
pub open spec fn is_skipped_name(name: Seq<u8>) -> bool {
    name == encode_utf8(".git"@) || name == encode_utf8("malm.lock"@) || name == encode_utf8(
        ".malm-lock.tmp"@,
    )
}

/// The path of a name beneath a directory of the pack.
pub open spec fn logical_path(relative: Seq<char>, name: Seq<char>) -> Seq<char> {
    if relative.len() == 0 {
        name
    } else {
        relative + "/"@ + name
    }
}

/// What is to be done with a name.
pub open spec fn name_step(name: Seq<u8>, relative: Seq<char>) -> NameStep<Seq<char>> {
    if is_skipped_name(name) {
        NameStep::Skip
    } else if !valid_utf8(name) {
        NameStep::NotText
    } else {
        NameStep::Classify(logical_path(relative, decode_utf8(name)))
    }
}

/// Decides what is to be done with a name found in a source directory.
pub fn visit_name(name: &[u8], relative: &str) -> (step: NameStep)
    ensures
        step@ == name_step(name@, relative@),
{
    if bytes_equal(name, ".git".as_bytes()) || bytes_equal(name, "malm.lock".as_bytes())
        || bytes_equal(name, ".malm-lock.tmp".as_bytes()) {
        return NameStep::Skip;
    }
    match utf8_text(name) {
        None => NameStep::NotText,
        Some(text) => {
            proof {
                encode_utf8_decode_utf8(text@);
            }
            if text_equal(relative, "") {
                proof {
                    reveal_strlit("");
                }
                NameStep::Classify(text)
            } else {
                proof {
                    reveal_strlit("");
                    if relative@.len() == 0 {
                        assert(relative@ =~= ""@);
                    }
                }
                NameStep::Classify(concat3(relative, "/", text.as_str()))
            }
        },
    }
}

/// Whether a path is looked at, given what the pack rules say of it: it must be content, and
/// the manifest, where there is one, must cover it.
pub open spec fn classified(
    class: PathClass<Seq<char>>,
    covered: Option<bool>,
    root: Seq<u8>,
    path: Seq<u8>,
) -> Result<bool, EngineError<Seq<char>, Seq<u8>>> {
    match class {
        PathClass::Invalid(detail) => Err(
            capture_failure(root, path, PackCaptureIssue::InvalidPath { detail }),
        ),
        PathClass::Reserved => Ok(false),
        PathClass::Content => Ok(covered != Some(false)),
    }
}

/// Decides whether a path is looked at, given what the pack rules say of it and whether the
/// manifest covers it; `None` tells that there is no usable manifest.
pub fn after_classification(
    class: PathClass,
    covered: Option<bool>,
    root: &[u8],
    path: &[u8],
) -> (captured: Result<bool, EngineError>)
    ensures
        match classified(class@, covered, root@, path@) {
            Ok(looked_at) => captured == Ok::<bool, EngineError>(looked_at),
            Err(error) => captured matches Err(said) && said@ == error,
        },
{
    match class {
        PathClass::Invalid(detail) => Err(
            capture_error(root, path, PackCaptureIssue::InvalidPath { detail }),
        ),
        PathClass::Reserved => Ok(false),
        PathClass::Content => match covered {
            None => Ok(true),
            Some(covered) => Ok(covered),
        },
    }
}

/// What an observed entry of a source directory is taken for.
#[derive(Clone, Copy, Debug, PartialEq, Eq, Structural)]
pub enum EntryStep {
    /// Walk the directory.
    Directory,
    /// Capture the file.
    File,
}

/// The check of an observed entry.
pub open spec fn entry_check(
    observed: Result<FileStat, HostFailure<Seq<char>>>,
    root: Seq<u8>,
    path: Seq<u8>,
) -> Result<EntryStep, EngineError<Seq<char>, Seq<u8>>> {
    match observed {
        Err(failure) => if failure.kind == HostErrorKind::NotFound || failure.kind
            == HostErrorKind::NotDirectory {
            Err(changed_failure(root, path))
        } else {
            Err(state_root::io_failure("inspect local pack source entry"@, path, failure.detail))
        },
        Ok(stat) => match stat::kind_of(stat.mode) {
            EntryKind::Directory => Ok(EntryStep::Directory),
            EntryKind::Regular => Ok(EntryStep::File),
            EntryKind::Symlink => Err(
                capture_failure(root, path, PackCaptureIssue::SymbolicLink),
            ),
            EntryKind::Other => Err(
                capture_failure(root, path, PackCaptureIssue::UnsupportedFileType),
            ),
        },
    }
}

/// Decides what an observed entry of a source directory is taken for.
pub fn check_entry(
    observed: Result<FileStat, HostFailure>,
    root: &[u8],
    path: &[u8],
) -> (step: Result<EntryStep, EngineError>)
    ensures
        match entry_check(stat::observation_view(observed), root@, path@) {
            Ok(found) => step == Ok::<EntryStep, EngineError>(found),
            Err(error) => step matches Err(said) && said@ == error,
        },
{
    match observed {
        Err(failure) => {
            if failure.kind == HostErrorKind::NotFound || failure.kind
                == HostErrorKind::NotDirectory {
                Err(changed(root, path))
            } else {
                Err(io_error("inspect local pack source entry", path, failure.detail.as_str()))
            }
        },
        Ok(stat) => match stat.kind() {
            EntryKind::Directory => Ok(EntryStep::Directory),
            EntryKind::Regular => Ok(EntryStep::File),
            EntryKind::Symlink => Err(capture_error(root, path, PackCaptureIssue::SymbolicLink)),
            EntryKind::Other => Err(
                capture_error(root, path, PackCaptureIssue::UnsupportedFileType),
            ),
        },
    }
}

/// What looking up the name of an entry once more gave: a name that is gone means that something
/// changed.
pub open spec fn bound_entry(
    observed: Result<FileStat, HostFailure<Seq<char>>>,
    root: Seq<u8>,
    path: Seq<u8>,
) -> Result<FileStat, EngineError<Seq<char>, Seq<u8>>> {
    match observed {
        Ok(stat) => Ok(stat),
        Err(failure) => if failure.kind == HostErrorKind::NotFound || failure.kind
            == HostErrorKind::NotDirectory {
            Err(changed_failure(root, path))
        } else {
            Err(
                state_root::io_failure(
                    "revalidate local pack source entry binding"@,
                    path,
                    failure.detail,
                ),
            )
        },
    }
}

/// Decides what looking up the name of an entry once more means.
pub fn check_bound_entry(
    observed: Result<FileStat, HostFailure>,
    root: &[u8],
    path: &[u8],
) -> (bound: Result<FileStat, EngineError>)
    ensures
        state_root::checked_view(bound) == bound_entry(
            stat::observation_view(observed),
            root@,
            path@,
        ),
{
    match observed {
        Ok(stat) => Ok(stat),
        Err(failure) => {
            if failure.kind == HostErrorKind::NotFound || failure.kind
                == HostErrorKind::NotDirectory {
                Err(changed(root, path))
            } else {
                Err(
                    io_error(
                        "revalidate local pack source entry binding",
                        path,
                        failure.detail.as_str(),
                    ),
                )
            }
        },
    }
}

/// What a failure to open an entry means.
pub open spec fn entry_open_failure(
    root: Seq<u8>,
    path: Seq<u8>,
    failure: HostFailure<Seq<char>>,
) -> EngineError<Seq<char>, Seq<u8>> {
    match failure.kind {
        HostErrorKind::CrossDevice => capture_failure(root, path, PackCaptureIssue::MountBoundary),
        HostErrorKind::NotFound => changed_failure(root, path),
        HostErrorKind::NotDirectory => changed_failure(root, path),
        HostErrorKind::Loop => changed_failure(root, path),
        _ => state_root::io_failure(
            "open local pack source entry without following links"@,
            path,
            failure.detail,
        ),
    }
}

/// Decides what a failure to open an entry means.
pub fn map_entry_open_error(root: &[u8], path: &[u8], failure: HostFailure) -> (error: EngineError)
    ensures
        error@ == entry_open_failure(root@, path@, failure@),
{
    match failure.kind {
        HostErrorKind::CrossDevice => capture_error(root, path, PackCaptureIssue::MountBoundary),
        HostErrorKind::NotFound => changed(root, path),
        HostErrorKind::NotDirectory => changed(root, path),
        HostErrorKind::Loop => changed(root, path),
        _ => io_error(
            "open local pack source entry without following links",
            path,
            failure.detail.as_str(),
        ),
    }
}

/// The check of a source file, which gives its size.
pub open spec fn source_file_check(root: Seq<u8>, path: Seq<u8>, stat: FileStat) -> Result<
    u64,
    EngineError<Seq<char>, Seq<u8>>,
> {
    if stat::kind_of(stat.mode) != EntryKind::Regular {
        Err(changed_failure(root, path))
    } else if stat.nlink != 1 {
        Err(
            capture_failure(
                root,
                path,
                PackCaptureIssue::UnexpectedLinks { expected: 1, actual: stat.nlink },
            ),
        )
    } else if stat.size < 0 {
        Err(changed_failure(root, path))
    } else if stat.size > MAX_PACK_FILE_BYTES {
        Err(
            capture_failure(
                root,
                path,
                PackCaptureIssue::FileTooLarge {
                    limit: MAX_PACK_FILE_BYTES,
                    actual: stat.size as u64,
                },
            ),
        )
    } else {
        Ok(stat.size as u64)
    }
}

/// Checks a source file and returns its size.
pub fn validate_source_file(root: &[u8], path: &[u8], stat: &FileStat) -> (size: Result<
    u64,
    EngineError,
>)
    ensures
        match source_file_check(root@, path@, *stat) {
            Ok(found) => size == Ok::<u64, EngineError>(found),
            Err(error) => size matches Err(said) && said@ == error,
        },
{
    if stat.kind() != EntryKind::Regular {
        return Err(changed(root, path));
    }
    if stat.nlink != 1 {
        return Err(
            capture_error(
                root,
                path,
                PackCaptureIssue::UnexpectedLinks { expected: 1, actual: stat.nlink },
            ),
        );
    }
    if stat.size < 0 {
        return Err(changed(root, path));
    }
    let size: u64 = stat.size as u64;
    if size > MAX_PACK_FILE_BYTES {
        return Err(
            capture_error(
                root,
                path,
                PackCaptureIssue::FileTooLarge { limit: MAX_PACK_FILE_BYTES, actual: size },
            ),
        );
    }
    Ok(size)
}

/// What a capture has used up of its bounds.
#[derive(Clone, Copy, Debug, PartialEq, Eq, Structural)]
pub struct CaptureBudget {
    /// Names seen.
    pub visited_entries: usize,
    /// Files captured.
    pub files: usize,
    /// Bytes in them.
    pub total_bytes: u64,
}

impl CaptureBudget {
    /// Nothing is used up.
    pub fn new() -> (budget: CaptureBudget)
        ensures
            budget == (CaptureBudget { visited_entries: 0, files: 0, total_bytes: 0 }),
    {
        CaptureBudget { visited_entries: 0, files: 0, total_bytes: 0 }
    }

    /// Within the bounds.
    pub open spec fn is_within_bounds(self) -> bool {
        self.visited_entries <= MAX_CAPTURE_ENTRIES && self.files <= MAX_PACK_TREE_ENTRIES
            && self.total_bytes <= MAX_PACK_TREE_BYTES
    }

    /// Counts the names of a directory. A directory with too many counts for nothing.
    pub fn charge_names(&mut self, count: usize, root: &[u8], path: &[u8]) -> (charged: Result<
        (),
        EngineError,
    >)
        ensures
            state_root::check_is(
                charged,
                if old(self).visited_entries + count > MAX_CAPTURE_ENTRIES {
                    Err(
                        capture_failure(
                            root@,
                            path@,
                            PackCaptureIssue::TraversalLimitExceeded { limit: MAX_CAPTURE_ENTRIES },
                        ),
                    )
                } else {
                    Ok(())
                },
            ),
            charged is Err ==> *final(self) == *old(self),
            charged is Ok ==> *final(self) == (CaptureBudget {
                visited_entries: (old(self).visited_entries + count) as usize,
                ..*old(self)
            }),
            old(self).is_within_bounds() ==> final(self).is_within_bounds(),
    {
        if count > MAX_CAPTURE_ENTRIES || self.visited_entries > MAX_CAPTURE_ENTRIES - count {
            return Err(
                capture_error(
                    root,
                    path,
                    PackCaptureIssue::TraversalLimitExceeded { limit: MAX_CAPTURE_ENTRIES },
                ),
            );
        }
        self.visited_entries = self.visited_entries + count;
        Ok(())
    }

    /// The check of one more file: it must be sound, and leave the bounds intact.
    pub open spec fn file_check(self, stat: FileStat, root: Seq<u8>, path: Seq<u8>) -> Result<
        u64,
        EngineError<Seq<char>, Seq<u8>>,
    > {
        match source_file_check(root, path, stat) {
            Err(error) => Err(error),
            Ok(size) => if self.files == MAX_PACK_TREE_ENTRIES {
                Err(
                    capture_failure(
                        root,
                        path,
                        PackCaptureIssue::TooManyFiles {
                            limit: MAX_PACK_TREE_ENTRIES,
                            actual: (MAX_PACK_TREE_ENTRIES + 1) as usize,
                        },
                    ),
                )
            } else if self.total_bytes + size > MAX_PACK_TREE_BYTES {
                Err(
                    capture_failure(
                        root,
                        path,
                        PackCaptureIssue::TreeTooLarge {
                            limit: MAX_PACK_TREE_BYTES,
                            actual: if self.total_bytes + size > u64::MAX {
                                u64::MAX
                            } else {
                                (self.total_bytes + size) as u64
                            },
                        },
                    ),
                )
            } else {
                Ok(size)
            },
        }
    }

    /// Checks one more file before it is opened, and returns its size.
    pub fn admit_file(&self, stat: &FileStat, root: &[u8], path: &[u8]) -> (size: Result<
        u64,
        EngineError,
    >)
        ensures
            match self.file_check(*stat, root@, path@) {
                Ok(found) => size == Ok::<u64, EngineError>(found),
                Err(error) => size matches Err(said) && said@ == error,
            },
    {
        let size: u64 = match validate_source_file(root, path, stat) {
            Ok(size) => size,
            Err(error) => {
                return Err(error);
            },
        };
        if self.files == MAX_PACK_TREE_ENTRIES {
            return Err(
                capture_error(
                    root,
                    path,
                    PackCaptureIssue::TooManyFiles {
                        limit: MAX_PACK_TREE_ENTRIES,
                        actual: MAX_PACK_TREE_ENTRIES + 1,
                    },
                ),
            );
        }
        let total: u64 = self.total_bytes.saturating_add(size);
        if total > MAX_PACK_TREE_BYTES {
            return Err(
                capture_error(
                    root,
                    path,
                    PackCaptureIssue::TreeTooLarge { limit: MAX_PACK_TREE_BYTES, actual: total },
                ),
            );
        }
        Ok(size)
    }

    /// Counts a file that was admitted and captured.
    pub fn charge_file(&mut self, size: u64)
        requires
            old(self).files < MAX_PACK_TREE_ENTRIES,
            old(self).total_bytes + size <= MAX_PACK_TREE_BYTES,
        ensures
            *final(self) == (CaptureBudget {
                files: (old(self).files + 1) as usize,
                total_bytes: (old(self).total_bytes + size) as u64,
                ..*old(self)
            }),
            old(self).is_within_bounds() ==> final(self).is_within_bounds(),
    {
        self.files = self.files + 1;
        self.total_bytes = self.total_bytes + size;
    }
}

/// A file that was admitted can be counted, and its bounds then still hold.
pub proof fn lemma_admitted_file_fits(
    budget: CaptureBudget,
    stat: FileStat,
    root: Seq<u8>,
    path: Seq<u8>,
)
    requires
        budget.is_within_bounds(),
    ensures
        budget.file_check(stat, root, path) matches Ok(size) ==> budget.files
            < MAX_PACK_TREE_ENTRIES && budget.total_bytes + size <= MAX_PACK_TREE_BYTES && size
            == stat.size,
{
}

/// The check of a file once it was opened: it must still be sound and unchanged.
pub open spec fn opened_file_check(
    observed: FileStat,
    opened: FileStat,
    root: Seq<u8>,
    path: Seq<u8>,
) -> Result<(), EngineError<Seq<char>, Seq<u8>>> {
    match source_file_check(root, path, opened) {
        Err(error) => Err(error),
        Ok(_) => if stat::are_same_snapshot(observed, opened) {
            Ok(())
        } else {
            Err(changed_failure(root, path))
        },
    }
}

/// Checks a file once it was opened.
pub fn check_opened_file(observed: &FileStat, opened: &FileStat, root: &[u8], path: &[u8]) -> (checked:
    Result<(), EngineError>)
    ensures
        state_root::check_is(checked, opened_file_check(*observed, *opened, root@, path@)),
{
    match validate_source_file(root, path, opened) {
        Err(error) => Err(error),
        Ok(_) => {
            if observed.same_file_snapshot(opened) {
                Ok(())
            } else {
                Err(changed(root, path))
            }
        },
    }
}

/// The check of a file once it was read: as many bytes came as it has, and neither the file
/// nor its name changed.
pub open spec fn read_file_check(
    length: nat,
    opened: FileStat,
    last: FileStat,
    bound: FileStat,
    root: Seq<u8>,
    path: Seq<u8>,
) -> Result<(), EngineError<Seq<char>, Seq<u8>>> {
    match source_file_check(root, path, last) {
        Err(error) => Err(error),
        Ok(_) => match source_file_check(root, path, bound) {
            Err(error) => Err(error),
            Ok(_) => if length == opened.size && stat::are_same_snapshot(opened, last)
                && stat::are_same_snapshot(opened, bound) {
                Ok(())
            } else {
                Err(changed_failure(root, path))
            },
        },
    }
}

/// Checks a file once it was read.
pub fn check_read_file(
    length: usize,
    opened: &FileStat,
    last: &FileStat,
    bound: &FileStat,
    root: &[u8],
    path: &[u8],
) -> (checked: Result<(), EngineError>)
    ensures
        state_root::check_is(
            checked,
            read_file_check(length as nat, *opened, *last, *bound, root@, path@),
        ),
{
    match validate_source_file(root, path, last) {
        Err(error) => {
            return Err(error);
        },
        Ok(_) => {},
    }
    match validate_source_file(root, path, bound) {
        Err(error) => {
            return Err(error);
        },
        Ok(_) => {},
    }
    let complete = opened.size >= 0 && length as u64 == opened.size as u64;
    if complete && opened.same_file_snapshot(last) && opened.same_file_snapshot(bound) {
        Ok(())
    } else {
        Err(changed(root, path))
    }
}

/// Checks a directory once it was walked: neither it nor its name changed.
pub fn check_walked_directory(
    opened: &FileStat,
    last: &FileStat,
    bound: &FileStat,
    root: &[u8],
    path: &[u8],
) -> (checked: Result<(), EngineError>)
    ensures
        state_root::check_is(
            checked,
            if stat::are_same_snapshot(*opened, *last) && stat::are_same_snapshot(
                *opened,
                *bound,
            ) {
                Ok(())
            } else {
                Err(changed_failure(root@, path@))
            },
        ),
{
    if opened.same_file_snapshot(last) && opened.same_file_snapshot(bound) {
        Ok(())
    } else {
        Err(changed(root, path))
    }
}

/// Names in the given order.
pub open spec fn arranged_names(names: Seq<Seq<u8>>, order: Seq<usize>) -> Seq<Seq<u8>> {
    order.map_values(|index: usize| names[index as int])
}

/// Names sorted by their bytes.
pub open spec fn sorted_names(names: Seq<Seq<u8>>) -> Seq<Seq<u8>> {
    arranged_names(names, choose|order: Seq<usize>| #[trigger] sort::is_stable_order(names, order))
}

/// Sorts names by their bytes.
pub fn sort_names(names: &Vec<Vec<u8>>) -> (sorted: Vec<Vec<u8>>)
    ensures
        seqs::views(sorted@) == sorted_names(seqs::views(names@)),
{
    let order = stable_order(names);
    let ghost all = seqs::views(names@);
    let mut sorted: Vec<Vec<u8>> = Vec::new();
    let mut i: usize = 0;
    proof {
        assert(all.len() == names@.len());
        assert(seqs::views(sorted@) =~= arranged_names(all, order@.take(0)));
    }
    while i < order.len()
        invariant
            i <= order.len(),
            all == seqs::views(names@),
            all.len() == names@.len(),
            sort::is_stable_order(all, order@),
            seqs::views(sorted@) == arranged_names(all, order@.take(i as int)),
        decreases order.len() - i,
    {
        let ghost before = sorted@;
        let index: usize = order[i];
        assert(order@[i as int] < names@.len());
        sorted.push(copy_bytes(names[index].as_slice()));
        proof {
            assert(order@.take(i + 1) =~= order@.take(i as int).push(index));
            assert(seqs::views(sorted@) =~= seqs::views(before).push(names@[index as int]@));
            assert(seqs::views(sorted@) =~= arranged_names(all, order@.take(i + 1)));
        }
        i = i + 1;
    }
    proof {
        assert(order@.take(order@.len() as int) =~= order@);
        let chosen = choose|chosen: Seq<usize>| #[trigger] sort::is_stable_order(all, chosen);
        sort::lemma_stable_order_unique(all, order@, chosen);
    }
    sorted
}

/// Checks that a directory has the same sorted names as before.
pub fn check_names_unchanged(
    names: &Vec<Vec<u8>>,
    names_after: &Vec<Vec<u8>>,
    root: &[u8],
    path: &[u8],
) -> (checked: Result<(), EngineError>)
    ensures
        state_root::check_is(
            checked,
            if seqs::views(names@) == seqs::views(names_after@) {
                Ok(())
            } else {
                Err(changed_failure(root@, path@))
            },
        ),
{
    let same = names.len() == names_after.len() && list_starts_with(names, names_after);
    proof {
        assert(seqs::views(names@).len() == names@.len());
        assert(seqs::views(names_after@).len() == names_after@.len());
        if same {
            assert(seqs::views(names@) =~= seqs::views(names_after@));
        } else if seqs::views(names@) == seqs::views(names_after@) {
            assert(seqs::views(names@).subrange(0, names@.len() as int) =~= seqs::views(names@));
        }
    }
    if same {
        Ok(())
    } else {
        Err(changed(root, path))
    }
}

/// Why captured files are not a pack; `T` is the type of text.
#[derive(Debug)]
#[allow(inconsistent_fields)]
pub enum TreeProblem<T = String> {
    MissingManifest,
    TooManyEntries { limit: usize, actual: usize },
    FileTooLarge { path: T, limit: u64, actual: u64 },
    TreeTooLarge { limit: u64, actual: u64 },
    /// Two files have one path, which is also given as it is shown in messages.
    DuplicatePath { path: T, shown: T },
    /// Anything else, in words.
    Invalid { detail: T },
}

impl View for TreeProblem<String> {
    type V = TreeProblem<Seq<char>>;

    open spec fn view(&self) -> TreeProblem<Seq<char>> {
        match *self {
            TreeProblem::MissingManifest => TreeProblem::MissingManifest,
            TreeProblem::TooManyEntries { limit, actual } => TreeProblem::TooManyEntries {
                limit,
                actual,
            },
            TreeProblem::FileTooLarge { path, limit, actual } => TreeProblem::FileTooLarge {
                path: path@,
                limit,
                actual,
            },
            TreeProblem::TreeTooLarge { limit, actual } => TreeProblem::TreeTooLarge {
                limit,
                actual,
            },
            TreeProblem::DuplicatePath { path, shown } => TreeProblem::DuplicatePath {
                path: path@,
                shown: shown@,
            },
            TreeProblem::Invalid { detail } => TreeProblem::Invalid { detail: detail@ },
        }
    }
}

/// What a problem with the captured files means for the capture.
pub open spec fn tree_failure(root: Seq<u8>, problem: TreeProblem<Seq<char>>) -> EngineError<
    Seq<char>,
    Seq<u8>,
> {
    let manifest = path::joined(root, encode_utf8(acquire::manifest_file()));
    match problem {
        TreeProblem::MissingManifest => capture_failure(
            root,
            manifest,
            PackCaptureIssue::MissingManifest,
        ),
        TreeProblem::TooManyEntries { limit, actual } => capture_failure(
            root,
            root,
            PackCaptureIssue::TooManyFiles { limit, actual },
        ),
        TreeProblem::FileTooLarge { path, limit, actual } => capture_failure(
            root,
            path::joined(root, encode_utf8(path)),
            PackCaptureIssue::FileTooLarge { limit, actual },
        ),
        TreeProblem::TreeTooLarge { limit, actual } => capture_failure(
            root,
            root,
            PackCaptureIssue::TreeTooLarge { limit, actual },
        ),
        TreeProblem::DuplicatePath { path, shown } => capture_failure(
            root,
            path::joined(root, encode_utf8(path)),
            PackCaptureIssue::InvalidPack { detail: "duplicate pack path "@ + shown },
        ),
        TreeProblem::Invalid { detail } => capture_failure(
            root,
            manifest,
            PackCaptureIssue::InvalidPack { detail },
        ),
    }
}

/// Decides what a problem with the captured files means for the capture.
pub fn map_tree_error(root: &[u8], problem: TreeProblem) -> (error: EngineError)
    ensures
        error@ == tree_failure(root@, problem@),
{
    match problem {
        TreeProblem::MissingManifest => {
            let manifest = join_paths(root, "malm-pack.kdl".as_bytes());
            capture_error(root, manifest.as_slice(), PackCaptureIssue::MissingManifest)
        },
        TreeProblem::TooManyEntries { limit, actual } => capture_error(
            root,
            root,
            PackCaptureIssue::TooManyFiles { limit, actual },
        ),
        TreeProblem::FileTooLarge { path, limit, actual } => {
            let place = join_paths(root, path.as_str().as_bytes());
            capture_error(root, place.as_slice(), PackCaptureIssue::FileTooLarge { limit, actual })
        },
        TreeProblem::TreeTooLarge { limit, actual } => capture_error(
            root,
            root,
            PackCaptureIssue::TreeTooLarge { limit, actual },
        ),
        TreeProblem::DuplicatePath { path, shown } => {
            let place = join_paths(root, path.as_str().as_bytes());
            let mut detail = "duplicate pack path ".to_owned();
            detail.append(shown.as_str());
            capture_error(root, place.as_slice(), PackCaptureIssue::InvalidPack { detail })
        },
        TreeProblem::Invalid { detail } => {
            let manifest = join_paths(root, "malm-pack.kdl".as_bytes());
            capture_error(root, manifest.as_slice(), PackCaptureIssue::InvalidPack { detail })
        },
    }
}

/// Requires that a captured pack has the locked digest, where one is locked.
pub fn require_captured_digest(expected: Option<&str>, actual: &str, root: &[u8]) -> (checked: Result<
    (),
    EngineError,
>)
    ensures
        state_root::check_is(
            checked,
            match expected {
                Some(locked) => if locked@ == actual@ {
                    Ok(())
                } else {
                    Err(
                        capture_failure(
                            root@,
                            root@,
                            PackCaptureIssue::DigestMismatch {
                                expected: locked@,
                                actual: actual@,
                            },
                        ),
                    )
                },
                None => Ok(()),
            },
        ),
{
    match expected {
        None => Ok(()),
        Some(locked) => {
            if text_equal(locked, actual) {
                Ok(())
            } else {
                Err(
                    capture_error(
                        root,
                        root,
                        PackCaptureIssue::DigestMismatch {
                            expected: locked.to_owned(),
                            actual: actual.to_owned(),
                        },
                    ),
                )
            }
        },
    }
}

/// An entry is walked into exactly where it is a directory, is read exactly where it is a regular
/// file, and is refused by what it is otherwise; one that is gone is told as a change.
pub proof fn lemma_entries_are_told_apart(
    observed: Result<FileStat, HostFailure<Seq<char>>>,
    root: Seq<u8>,
    path: Seq<u8>,
)
    ensures
        match observed {
            Ok(stat) => match entry_check(observed, root, path) {
                Ok(EntryStep::Directory) => stat.mode & 0o170000 == 0o040000,
                Ok(EntryStep::File) => stat.mode & 0o170000 == 0o100000,
                Err(EngineError::PackCapture { root: told, path: at, reason }) => {
                    &&& told == root && at == path
                    &&& reason is SymbolicLink || reason is UnsupportedFileType
                    &&& reason is SymbolicLink <==> stat.mode & 0o170000 == 0o120000
                    &&& stat.mode & 0o170000 != 0o040000 && stat.mode & 0o170000 != 0o100000
                },
                Err(_) => false,
            },
            Err(failure) => match entry_check(observed, root, path) {
                Err(EngineError::PackCapture { root: told, path: at, reason }) => told == root && at
                    == path && reason is ObservationChanged && (failure.kind
                    == HostErrorKind::NotFound || failure.kind == HostErrorKind::NotDirectory),
                Err(EngineError::Io { operation: _, path: at, detail }) => at == path && detail
                    == failure.detail && failure.kind != HostErrorKind::NotFound && failure.kind
                    != HostErrorKind::NotDirectory,
                _ => false,
            },
        },
{
}

/// A component of a source path passes exactly where it is a directory; one that is missing, is
/// no directory or is a symbolic link is told as such.
pub proof fn lemma_only_directories_lead_to_a_source(
    observed: Result<FileStat, HostFailure<Seq<char>>>,
    root: Seq<u8>,
    path: Seq<u8>,
)
    ensures
        match component_check(observed, root, path) {
            Ok(stat) => observed == Ok::<FileStat, HostFailure<Seq<char>>>(stat) && stat.mode
                & 0o170000 == 0o040000,
            Err(EngineError::PackCapture { root: told, path: at, reason }) => {
                &&& told == root && at == path
                &&& match observed {
                    Ok(stat) => (reason is SymbolicLink && stat.mode & 0o170000 == 0o120000) || (
                    reason is SourceRootNotDirectory && stat.mode & 0o170000 != 0o120000
                        && stat.mode & 0o170000 != 0o040000),
                    Err(failure) => (reason is SourceRootMissing && failure.kind
                        == HostErrorKind::NotFound) || (reason is SourceRootNotDirectory
                        && failure.kind == HostErrorKind::NotDirectory),
                }
            },
            Err(EngineError::Io { operation: _, path: at, detail }) => at == path && (
            observed matches Err(failure) && failure.detail == detail),
            Err(_) => false,
        },
        match resolved_check(observed, path) {
            Ok(stat) => observed == Ok::<FileStat, HostFailure<Seq<char>>>(stat) && stat.mode
                & 0o170000 == 0o040000,
            Err(_) => observed matches Ok(stat) ==> stat.mode & 0o170000 != 0o040000,
        },
{
}

/// A source is still bound exactly where its path leads to a directory that is on the same
/// device, with the same number, as what was pinned.
pub proof fn lemma_source_is_bound_to_what_was_pinned(
    bound: Result<FileStat, HostFailure<Seq<char>>>,
    pinned: Result<FileStat, HostFailure<Seq<char>>>,
    path: Seq<u8>,
)
    ensures
        source_binding(bound, pinned, path) is Ok <==> (bound matches Ok(found) && (
        pinned matches Ok(pin) && found.mode & 0o170000 == 0o040000 && found.dev == pin.dev
            && found.ino == pin.ino)),
        bound is Ok && pinned is Ok && source_binding(bound, pinned, path) is Err
            ==> source_binding(bound, pinned, path) == Err::<(), EngineError<Seq<char>, Seq<u8>>>(
            EngineError::PackCapture {
                root: path,
                path,
                reason: PackCaptureIssue::ObservationChanged,
            },
        ),
{
}

/// A file passes exactly where it is regular, has one name and is not too large, and there is
/// room for it; its size is the one observed. The reason tells what was found.
pub proof fn lemma_only_single_files_are_captured(
    budget: CaptureBudget,
    stat: FileStat,
    root: Seq<u8>,
    path: Seq<u8>,
)
    requires
        budget.files <= MAX_PACK_TREE_ENTRIES,
    ensures
        match source_file_check(root, path, stat) {
            Ok(size) => size == stat.size && stat.mode & 0o170000 == 0o100000 && stat.nlink == 1
                && size <= 134_217_728,
            Err(EngineError::PackCapture { root: told, path: at, reason }) => told == root && at
                == path && match reason {
                PackCaptureIssue::UnexpectedLinks { expected, actual } => expected == 1 && actual
                    == stat.nlink && actual != 1,
                PackCaptureIssue::FileTooLarge { limit, actual } => limit == 134_217_728 && actual
                    == stat.size && actual > limit,
                PackCaptureIssue::ObservationChanged => stat.mode & 0o170000 != 0o100000
                    || stat.size < 0,
                _ => false,
            },
            Err(_) => false,
        },
        budget.file_check(stat, root, path) is Ok <==> source_file_check(root, path, stat) is Ok
            && budget.files < MAX_PACK_TREE_ENTRIES && budget.total_bytes + stat.size
            <= MAX_PACK_TREE_BYTES,
        budget.file_check(stat, root, path) matches Ok(size) ==> size == stat.size,
{
}

/// What was read passes exactly where it is as long as the file was when it was opened, and
/// neither the file nor what its name leads to differs from then.
pub proof fn lemma_only_unchanged_files_are_captured(
    length: nat,
    observed: FileStat,
    opened: FileStat,
    last: FileStat,
    bound: FileStat,
    root: Seq<u8>,
    path: Seq<u8>,
)
    ensures
        opened_file_check(observed, opened, root, path) is Ok <==> observed == opened
            && source_file_check(root, path, opened) is Ok,
        read_file_check(length, opened, last, bound, root, path) is Ok <==> length == opened.size
            && last == opened && bound == opened && source_file_check(root, path, opened) is Ok,
{
}

/// The names of the tools are passed over; another name that is text leads to the path of the
/// directory with the name behind it.
pub proof fn lemma_names_lead_to_their_paths(name: Seq<u8>, relative: Seq<char>)
    ensures
        match name_step(name, relative) {
            NameStep::Skip => name == encode_utf8(".git"@) || name == encode_utf8("malm.lock"@)
                || name == encode_utf8(".malm-lock.tmp"@),
            NameStep::NotText => !valid_utf8(name),
            NameStep::Classify(logical) => {
                &&& valid_utf8(name)
                &&& name != encode_utf8(".git"@) && name != encode_utf8("malm.lock"@) && name
                    != encode_utf8(".malm-lock.tmp"@)
                &&& relative.len() == 0 ==> encode_utf8(logical) == name
                &&& relative.len() > 0 ==> logical.len() > relative.len() && logical.take(relative.len() as int) == relative && logical.skip(
                    relative.len() as int,
                ) == "/"@ + decode_utf8(name)
            },
        },
{
    reveal_strlit("/");
    if valid_utf8(name) {
        decode_utf8_encode_utf8(name);
        if relative.len() > 0 {
            let logical = relative + "/"@ + decode_utf8(name);
            assert(logical.take(relative.len() as int) =~= relative);
            assert(logical.skip(relative.len() as int) =~= "/"@ + decode_utf8(name));
        }
    }
}

/// A path is captured exactly where it is content and the manifest does not leave it out; one
/// that is no path of a pack is refused with its reason.
pub proof fn lemma_only_content_is_captured(
    class: PathClass<Seq<char>>,
    covered: Option<bool>,
    root: Seq<u8>,
    path: Seq<u8>,
)
    ensures
        match class {
            PathClass::Content => classified(class, covered, root, path) matches Ok(is_captured)
                && is_captured == (match covered {
                None => true,
                Some(is_covered) => is_covered,
            }),
            PathClass::Reserved => classified(class, covered, root, path) matches Ok(is_captured)
                && !is_captured,
            PathClass::Invalid(detail) => classified(class, covered, root, path) == Err::<
                bool,
                EngineError<Seq<char>, Seq<u8>>,
            >(
                EngineError::PackCapture {
                    root,
                    path,
                    reason: PackCaptureIssue::InvalidPath { detail },
                },
            ),
        },
{
}

} // verus!
