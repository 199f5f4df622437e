//! Reading every captured file below a pack source that may change meanwhile.
//!
//! The walk says what it needs next; the caller asks the host and hands the reply back. Each
//! directory is listed before and after its entries are read, and every entry is looked up
//! again once it was read: whatever differs ends the walk.

use vstd::prelude::*;

use crate::capture;
use crate::capture::{
    after_classification, capture_error, check_bound_entry, check_entry, check_names_unchanged,
    check_opened_file, check_read_file, check_walked_directory, map_entry_open_error, sort_names,
    validate_source_file, visit_name, CaptureBudget, EntryStep, NameStep,
};
use crate::error::{EngineError, PackCaptureIssue};
use crate::git::reader::PathClass;
use crate::limits::{MAX_CAPTURE_ENTRIES, MAX_PACK_TREE_BYTES, MAX_PACK_TREE_ENTRIES};
use crate::path;
use crate::path::join_paths;
use crate::seqs;
use crate::seqs::copy_bytes;
use crate::stat;
use crate::stat::{EntryKind, FileStat, HostFailure};
use crate::state_root;
use crate::state_root::io_error;
use crate::store_steps::Progress;

verus! {

/// A captured file; `T` is the type of text and `B` that of bytes.
#[derive(Clone, Debug, PartialEq, Eq)]
pub struct CapturedEntry<T = String, B = Vec<u8>> {
    /// Its path in the pack.
    pub path: T,
    /// What it holds.
    pub bytes: B,
}

impl View for CapturedEntry<String, Vec<u8>> {
    type V = CapturedEntry<Seq<char>, Seq<u8>>;

    open spec fn view(&self) -> CapturedEntry<Seq<char>, Seq<u8>> {
        CapturedEntry { path: self.path@, bytes: self.bytes@ }
    }
}

/// An entry of the directory that is walked; `T` is the type of text and `B` that of bytes.
#[derive(Clone, Debug, PartialEq, Eq)]
pub struct WalkEntry<T = String, B = Vec<u8>> {
    /// Its name.
    pub name: B,
    /// Its path in the pack.
    pub logical: T,
    /// Its path.
    pub path: B,
}

impl View for WalkEntry<String, Vec<u8>> {
    type V = WalkEntry<Seq<char>, Seq<u8>>;

    open spec fn view(&self) -> WalkEntry<Seq<char>, Seq<u8>> {
        WalkEntry { name: self.name@, logical: self.logical@, path: self.path@ }
    }
}

/// A directory on the way down to the one that is walked; `T` is the type of text, `B` that of
/// bytes and `L` that of its names.
#[derive(Clone, Debug, PartialEq, Eq)]
pub struct WalkFrame<T = String, B = Vec<u8>, L = Vec<Vec<u8>>> {
    /// Its path in the pack, empty for the source itself.
    pub relative: T,
    /// Its path.
    pub path: B,
    /// What it was once it was opened.
    pub opened: FileStat,
    /// What it was before its names were read.
    pub initial: FileStat,
    /// Its names, sorted.
    pub names: L,
    /// How many of them were visited.
    pub next: usize,
}

/// A directory on the way, as contracts speak of it.
pub type FrameModel = WalkFrame<Seq<char>, Seq<u8>, Seq<Seq<u8>>>;

impl View for WalkFrame<String, Vec<u8>, Vec<Vec<u8>>> {
    type V = WalkFrame<Seq<char>, Seq<u8>, Seq<Seq<u8>>>;

    open spec fn view(&self) -> WalkFrame<Seq<char>, Seq<u8>, Seq<Seq<u8>>> {
        WalkFrame {
            relative: self.relative@,
            path: self.path@,
            opened: self.opened,
            initial: self.initial,
            names: seqs::views(self.names@),
            next: self.next,
        }
    }
}

/// What the walk needs next; `T` is the type of text and `B` that of bytes.
#[derive(Clone, Debug, PartialEq, Eq)]
#[allow(inconsistent_fields)]
pub enum WalkStep<T = String, B = Vec<u8>> {
    /// Observe a directory that was just opened and is walked next; `opened` is what it was
    /// then, unless it is the source itself.
    InspectDirectory { relative: T, path: B, opened: Option<FileStat> },
    /// List the names of that directory.
    ListDirectory { relative: T, path: B, opened: Option<FileStat>, initial: FileStat },
    /// Ask what the pack rules and the manifest say of an entry.
    Classify { entry: WalkEntry<T, B> },
    /// Observe the name of an entry.
    Observe { entry: WalkEntry<T, B> },
    /// Open a directory without following links.
    OpenDirectory { entry: WalkEntry<T, B>, observed: FileStat },
    /// Observe the directory that was opened.
    InspectChild { entry: WalkEntry<T, B>, observed: FileStat },
    /// Open a file without following links.
    OpenFile { entry: WalkEntry<T, B>, observed: FileStat, size: u64 },
    /// Observe the file that was opened.
    InspectFile { entry: WalkEntry<T, B>, observed: FileStat, size: u64 },
    /// Read the file, and one byte more than its size at most.
    ReadFile { entry: WalkEntry<T, B>, opened: FileStat, size: u64 },
    /// Observe the file once more.
    ReinspectFile { entry: WalkEntry<T, B>, opened: FileStat, size: u64, bytes: B },
    /// Observe the name of the file once more.
    BindFile { entry: WalkEntry<T, B>, opened: FileStat, last: FileStat, size: u64, bytes: B },
    /// List the names of the directory once more.
    ListAgain,
    /// Observe the directory once more.
    ReinspectDirectory,
    /// Observe the directory once more, before it is left.
    ReinspectChild,
    /// Observe its name once more.
    BindChild { last: FileStat },
}

/// What the walk needs next, as contracts speak of it.
pub type StepModel = WalkStep<Seq<char>, Seq<u8>>;

impl View for WalkStep<String, Vec<u8>> {
    type V = WalkStep<Seq<char>, Seq<u8>>;

    open spec fn view(&self) -> WalkStep<Seq<char>, Seq<u8>> {
        match *self {
            WalkStep::InspectDirectory { relative, path, opened } => WalkStep::InspectDirectory {
                relative: relative@,
                path: path@,
                opened,
            },
            WalkStep::ListDirectory { relative, path, opened, initial } =>
                WalkStep::ListDirectory { relative: relative@, path: path@, opened, initial },
            WalkStep::Classify { entry } => WalkStep::Classify { entry: entry@ },
            WalkStep::Observe { entry } => WalkStep::Observe { entry: entry@ },
            WalkStep::OpenDirectory { entry, observed } => WalkStep::OpenDirectory {
                entry: entry@,
                observed,
            },
            WalkStep::InspectChild { entry, observed } => WalkStep::InspectChild {
                entry: entry@,
                observed,
            },
            WalkStep::OpenFile { entry, observed, size } => WalkStep::OpenFile {
                entry: entry@,
                observed,
                size,
            },
            WalkStep::InspectFile { entry, observed, size } => WalkStep::InspectFile {
                entry: entry@,
                observed,
                size,
            },
            WalkStep::ReadFile { entry, opened, size } => WalkStep::ReadFile {
                entry: entry@,
                opened,
                size,
            },
            WalkStep::ReinspectFile { entry, opened, size, bytes } => WalkStep::ReinspectFile {
                entry: entry@,
                opened,
                size,
                bytes: bytes@,
            },
            WalkStep::BindFile { entry, opened, last, size, bytes } => WalkStep::BindFile {
                entry: entry@,
                opened,
                last,
                size,
                bytes: bytes@,
            },
            WalkStep::ListAgain => WalkStep::ListAgain,
            WalkStep::ReinspectDirectory => WalkStep::ReinspectDirectory,
            WalkStep::ReinspectChild => WalkStep::ReinspectChild,
            WalkStep::BindChild { last } => WalkStep::BindChild { last },
        }
    }
}

/// What the host says; `T` is the type of text, `B` that of bytes and `L` that of names.
#[derive(Debug)]
pub enum WalkReply<T = String, B = Vec<u8>, L = Vec<Vec<u8>>> {
    /// What was observed.
    Stat(Result<FileStat, HostFailure<T>>),
    /// The names of a directory, or why it cannot be listed.
    Names(Result<L, T>),
    /// What the pack rules say of a path, and whether the manifest covers it; `None` where
    /// there is no usable manifest.
    Class(PathClass<T>, Option<bool>),
    /// The entry is open.
    Opened,
    /// The entry cannot be opened.
    NotOpened(HostFailure<T>),
    /// What a file holds, or why it cannot be read.
    Bytes(Result<B, T>),
    /// There is no memory to read the file into.
    NoMemory(T),
}

/// What the host says, as contracts speak of it.
pub type ReplyModel = WalkReply<Seq<char>, Seq<u8>, Seq<Seq<u8>>>;

impl View for WalkReply<String, Vec<u8>, Vec<Vec<u8>>> {
    type V = WalkReply<Seq<char>, Seq<u8>, Seq<Seq<u8>>>;

    open spec fn view(&self) -> WalkReply<Seq<char>, Seq<u8>, Seq<Seq<u8>>> {
        match *self {
            WalkReply::Stat(observed) => WalkReply::Stat(stat::observation_view(observed)),
            WalkReply::Names(Ok(names)) => WalkReply::Names(Ok(seqs::views(names@))),
            WalkReply::Names(Err(detail)) => WalkReply::Names(Err(detail@)),
            WalkReply::Class(class, covered) => WalkReply::Class(class@, covered),
            WalkReply::Opened => WalkReply::Opened,
            WalkReply::NotOpened(failure) => WalkReply::NotOpened(failure@),
            WalkReply::Bytes(Ok(bytes)) => WalkReply::Bytes(Ok(bytes@)),
            WalkReply::Bytes(Err(detail)) => WalkReply::Bytes(Err(detail@)),
            WalkReply::NoMemory(detail) => WalkReply::NoMemory(detail@),
        }
    }
}

/// Where a walk stands.
pub struct WalkModel {
    /// The path of the source.
    pub root: Seq<u8>,
    /// The directories from the source down to the one that is walked.
    pub frames: Seq<FrameModel>,
    /// What is used up of the bounds.
    pub budget: CaptureBudget,
    /// The files captured so far.
    pub files: Seq<CapturedEntry<Seq<char>, Seq<u8>>>,
    /// What is needed next.
    pub step: StepModel,
}

/// The progress of a walk; what is left at the end are the captured files.
pub type WalkProgress = Progress<
    WalkModel,
    Seq<CapturedEntry<Seq<char>, Seq<u8>>>,
    EngineError<Seq<char>, Seq<u8>>,
>;

/// The walk with something else needed next.
pub open spec fn needing(model: WalkModel, step: StepModel) -> WalkProgress {
    Progress::Next(WalkModel { step, ..model })
}

/// A walk that ends because a call failed.
pub open spec fn call_failed(operation: Seq<char>, path: Seq<u8>, detail: Seq<char>) -> WalkProgress {
    Progress::Failed(state_root::io_failure(operation, path, detail))
}

/// A walk that ends because something changed.
pub open spec fn has_changed(model: WalkModel, path: Seq<u8>) -> WalkProgress {
    Progress::Failed(capture::changed_failure(model.root, path))
}

/// The frames with one more name of the last directory visited.
pub open spec fn advanced(frames: Seq<FrameModel>) -> Seq<FrameModel> {
    let last = frames.last();
    frames.drop_last().push(WalkFrame { next: (last.next + 1) as usize, ..last })
}

/// Where the walk goes on: with the next name of the last directory, or with listing it once
/// more. Names that never belong to a pack are passed over.
pub open spec fn going_on(model: WalkModel) -> WalkProgress
    decreases model.frames.last().names.len() - model.frames.last().next,
{
    let frame = model.frames.last();
    if model.frames.len() == 0 || frame.next >= frame.names.len() || frame.next >= usize::MAX {
        needing(model, WalkStep::ListAgain)
    } else {
        let name = frame.names[frame.next as int];
        let path = path::joined(frame.path, name);
        let moved = WalkModel { frames: advanced(model.frames), ..model };
        match capture::name_step(name, frame.relative) {
            NameStep::Skip => going_on(moved),
            NameStep::NotText => Progress::Failed(
                capture::capture_failure(model.root, path, PackCaptureIssue::NonUtf8Name),
            ),
            NameStep::Classify(logical) => needing(
                moved,
                WalkStep::Classify { entry: WalkEntry { name, logical, path } },
            ),
        }
    }
}

/// What follows the first observation of a directory.
pub open spec fn after_inspection(
    model: WalkModel,
    relative: Seq<char>,
    path: Seq<u8>,
    opened: Option<FileStat>,
    observed: Result<FileStat, HostFailure<Seq<char>>>,
) -> WalkProgress {
    match observed {
        Err(failure) => call_failed(
            "inspect local pack source directory"@,
            path,
            failure.detail,
        ),
        Ok(initial) => if stat::kind_of(initial.mode) == EntryKind::Directory {
            needing(model, WalkStep::ListDirectory { relative, path, opened, initial })
        } else {
            has_changed(model, path)
        },
    }
}

/// What follows the first list of names: they count against the bound, and the directory is
/// walked in their order.
pub open spec fn after_listing(
    model: WalkModel,
    relative: Seq<char>,
    path: Seq<u8>,
    opened: Option<FileStat>,
    initial: FileStat,
    listed: Result<Seq<Seq<u8>>, Seq<char>>,
) -> WalkProgress {
    match listed {
        Err(detail) => call_failed(
            "open local pack source directory for enumeration"@,
            path,
            detail,
        ),
        Ok(names) => if model.budget.visited_entries + names.len() > MAX_CAPTURE_ENTRIES {
            Progress::Failed(
                capture::capture_failure(
                    model.root,
                    path,
                    PackCaptureIssue::TraversalLimitExceeded { limit: MAX_CAPTURE_ENTRIES },
                ),
            )
        } else {
            going_on(
                WalkModel {
                    frames: model.frames.push(
                        WalkFrame {
                            relative,
                            path,
                            opened: match opened {
                                Some(stat) => stat,
                                None => initial,
                            },
                            initial,
                            names: capture::sorted_names(names),
                            next: 0,
                        },
                    ),
                    budget: CaptureBudget {
                        visited_entries: (model.budget.visited_entries + names.len()) as usize,
                        ..model.budget
                    },
                    ..model
                },
            )
        },
    }
}

/// What follows the observation of an entry.
pub open spec fn after_observation(
    model: WalkModel,
    entry: WalkEntry<Seq<char>, Seq<u8>>,
    observed: Result<FileStat, HostFailure<Seq<char>>>,
) -> WalkProgress {
    match capture::entry_check(observed, model.root, entry.path) {
        Err(error) => Progress::Failed(error),
        Ok(EntryStep::Directory) => needing(
            model,
            WalkStep::OpenDirectory { entry, observed: observed->Ok_0 },
        ),
        Ok(EntryStep::File) => match model.budget.file_check(
            observed->Ok_0,
            model.root,
            entry.path,
        ) {
            Err(error) => Progress::Failed(error),
            Ok(size) => needing(
                model,
                WalkStep::OpenFile { entry, observed: observed->Ok_0, size },
            ),
        },
    }
}

/// What follows the observation of a directory that was opened: it is walked if it is what was
/// observed before.
pub open spec fn after_child(
    model: WalkModel,
    entry: WalkEntry<Seq<char>, Seq<u8>>,
    observed: FileStat,
    found: Result<FileStat, HostFailure<Seq<char>>>,
) -> WalkProgress {
    match found {
        Err(failure) => call_failed(
            "inspect opened pack source directory"@,
            entry.path,
            failure.detail,
        ),
        Ok(opened) => if stat::kind_of(opened.mode) == EntryKind::Directory
            && stat::are_same_snapshot(observed, opened) {
            needing(
                model,
                WalkStep::InspectDirectory {
                    relative: entry.logical,
                    path: entry.path,
                    opened: Some(opened),
                },
            )
        } else {
            has_changed(model, entry.path)
        },
    }
}

/// What follows the observation of a file that was opened.
pub open spec fn after_opened_file(
    model: WalkModel,
    entry: WalkEntry<Seq<char>, Seq<u8>>,
    observed: FileStat,
    size: u64,
    found: Result<FileStat, HostFailure<Seq<char>>>,
) -> WalkProgress {
    match found {
        Err(failure) => call_failed(
            "inspect opened local pack source file"@,
            entry.path,
            failure.detail,
        ),
        Ok(opened) => match capture::opened_file_check(observed, opened, model.root, entry.path) {
            Err(error) => Progress::Failed(error),
            Ok(_) => needing(model, WalkStep::ReadFile { entry, opened, size }),
        },
    }
}

/// What follows the observation of a file that was read.
pub open spec fn after_read_file(
    model: WalkModel,
    entry: WalkEntry<Seq<char>, Seq<u8>>,
    opened: FileStat,
    size: u64,
    bytes: Seq<u8>,
    found: Result<FileStat, HostFailure<Seq<char>>>,
) -> WalkProgress {
    match found {
        Err(failure) => call_failed(
            "reinspect local pack source file"@,
            entry.path,
            failure.detail,
        ),
        Ok(last) => match capture::source_file_check(model.root, entry.path, last) {
            Err(error) => Progress::Failed(error),
            Ok(_) => needing(model, WalkStep::BindFile { entry, opened, last, size, bytes }),
        },
    }
}

/// What follows the last look at the name of a file: the file is captured if nothing about it
/// changed.
pub open spec fn after_bound_file(
    model: WalkModel,
    entry: WalkEntry<Seq<char>, Seq<u8>>,
    opened: FileStat,
    last: FileStat,
    size: u64,
    bytes: Seq<u8>,
    found: Result<FileStat, HostFailure<Seq<char>>>,
) -> WalkProgress {
    match capture::bound_entry(found, model.root, entry.path) {
        Err(error) => Progress::Failed(error),
        Ok(bound) => match capture::read_file_check(
            bytes.len(),
            opened,
            last,
            bound,
            model.root,
            entry.path,
        ) {
            Err(error) => Progress::Failed(error),
            Ok(_) => going_on(
                WalkModel {
                    budget: CaptureBudget {
                        files: (model.budget.files + 1) as usize,
                        total_bytes: (model.budget.total_bytes + size) as u64,
                        ..model.budget
                    },
                    files: model.files.push(CapturedEntry { path: entry.logical, bytes }),
                    ..model
                },
            ),
        },
    }
}

/// What follows the last observation of a directory whose names did not change.
pub open spec fn after_reinspection(
    model: WalkModel,
    found: Result<FileStat, HostFailure<Seq<char>>>,
) -> WalkProgress {
    let frame = model.frames.last();
    match found {
        Err(failure) => call_failed(
            "reinspect local pack source directory"@,
            frame.path,
            failure.detail,
        ),
        Ok(last) => if !stat::are_same_snapshot(frame.initial, last) {
            has_changed(model, frame.path)
        } else if model.frames.len() <= 1 {
            Progress::Done(model.files)
        } else {
            needing(model, WalkStep::ReinspectChild)
        },
    }
}

/// What follows the last look at the name of a directory: it is left if nothing about it
/// changed.
pub open spec fn after_bound_child(
    model: WalkModel,
    last: FileStat,
    found: Result<FileStat, HostFailure<Seq<char>>>,
) -> WalkProgress {
    let frame = model.frames.last();
    match capture::bound_entry(found, model.root, frame.path) {
        Err(error) => Progress::Failed(error),
        Ok(bound) => if stat::are_same_snapshot(frame.opened, last) && stat::are_same_snapshot(
            frame.opened,
            bound,
        ) {
            going_on(WalkModel { frames: model.frames.drop_last(), ..model })
        } else {
            has_changed(model, frame.path)
        },
    }
}

/// The path that a step is about.
pub open spec fn step_path(model: WalkModel) -> Seq<u8> {
    match model.step {
        WalkStep::InspectDirectory { relative: _, path, opened: _ } => path,
        WalkStep::ListDirectory { relative: _, path, opened: _, initial: _ } => path,
        WalkStep::Classify { entry } => entry.path,
        WalkStep::Observe { entry } => entry.path,
        WalkStep::OpenDirectory { entry, observed: _ } => entry.path,
        WalkStep::InspectChild { entry, observed: _ } => entry.path,
        WalkStep::OpenFile { entry, observed: _, size: _ } => entry.path,
        WalkStep::InspectFile { entry, observed: _, size: _ } => entry.path,
        WalkStep::ReadFile { entry, opened: _, size: _ } => entry.path,
        WalkStep::ReinspectFile { entry, opened: _, size: _, bytes: _ } => entry.path,
        WalkStep::BindFile { entry, opened: _, last: _, size: _, bytes: _ } => entry.path,
        _ => model.frames.last().path,
    }
}

/// What follows a step. A reply that does not answer the step means that something changed.
pub open spec fn walk_after(model: WalkModel, reply: ReplyModel) -> WalkProgress {
    match (model.step, reply) {
        (WalkStep::InspectDirectory { relative, path, opened }, WalkReply::Stat(observed)) =>
            after_inspection(model, relative, path, opened, observed),
        (
            WalkStep::ListDirectory { relative, path, opened, initial },
            WalkReply::Names(listed),
        ) => after_listing(model, relative, path, opened, initial, listed),
        (WalkStep::Classify { entry }, WalkReply::Class(class, covered)) =>
            match capture::classified(class, covered, model.root, entry.path) {
            Err(error) => Progress::Failed(error),
            Ok(true) => needing(model, WalkStep::Observe { entry }),
            Ok(false) => going_on(model),
        },
        (WalkStep::Observe { entry }, WalkReply::Stat(observed)) => after_observation(
            model,
            entry,
            observed,
        ),
        (WalkStep::OpenDirectory { entry, observed }, WalkReply::Opened) => needing(
            model,
            WalkStep::InspectChild { entry, observed },
        ),
        (WalkStep::OpenDirectory { entry, observed: _ }, WalkReply::NotOpened(failure)) =>
            Progress::Failed(capture::entry_open_failure(model.root, entry.path, failure)),
        (WalkStep::InspectChild { entry, observed }, WalkReply::Stat(found)) => after_child(
            model,
            entry,
            observed,
            found,
        ),
        (WalkStep::OpenFile { entry, observed, size }, WalkReply::Opened) => needing(
            model,
            WalkStep::InspectFile { entry, observed, size },
        ),
        (WalkStep::OpenFile { entry, observed: _, size: _ }, WalkReply::NotOpened(failure)) =>
            Progress::Failed(capture::entry_open_failure(model.root, entry.path, failure)),
        (WalkStep::InspectFile { entry, observed, size }, WalkReply::Stat(found)) =>
            after_opened_file(model, entry, observed, size, found),
        (WalkStep::ReadFile { entry, opened: _, size: _ }, WalkReply::NoMemory(detail)) =>
            call_failed("reserve memory for local pack source file"@, entry.path, detail),
        (WalkStep::ReadFile { entry, opened, size }, WalkReply::Bytes(read)) => match read {
            Err(detail) => call_failed("read local pack source file"@, entry.path, detail),
            Ok(bytes) => needing(model, WalkStep::ReinspectFile { entry, opened, size, bytes }),
        },
        (WalkStep::ReinspectFile { entry, opened, size, bytes }, WalkReply::Stat(found)) =>
            after_read_file(model, entry, opened, size, bytes, found),
        (WalkStep::BindFile { entry, opened, last, size, bytes }, WalkReply::Stat(found)) =>
            after_bound_file(model, entry, opened, last, size, bytes, found),
        (WalkStep::ListAgain, WalkReply::Names(listed)) => match listed {
            Err(detail) => call_failed(
                "reopen local pack source directory for enumeration"@,
                model.frames.last().path,
                detail,
            ),
            Ok(names) => if model.frames.last().names == capture::sorted_names(names) {
                needing(model, WalkStep::ReinspectDirectory)
            } else {
                has_changed(model, model.frames.last().path)
            },
        },
        (WalkStep::ReinspectDirectory, WalkReply::Stat(found)) => after_reinspection(model, found),
        (WalkStep::ReinspectChild, WalkReply::Stat(found)) => match found {
            Err(failure) => call_failed(
                "reinspect pack source directory"@,
                model.frames.last().path,
                failure.detail,
            ),
            Ok(last) => needing(model, WalkStep::BindChild { last }),
        },
        (WalkStep::BindChild { last }, WalkReply::Stat(found)) => after_bound_child(
            model,
            last,
            found,
        ),
        _ => has_changed(model, step_path(model)),
    }
}

/// How a walk starts.
pub open spec fn walk_start(root: Seq<u8>) -> WalkModel {
    WalkModel {
        root,
        frames: Seq::empty(),
        budget: CaptureBudget { visited_entries: 0, files: 0, total_bytes: 0 },
        files: Seq::empty(),
        step: WalkStep::InspectDirectory { relative: Seq::empty(), path: root, opened: None },
    }
}

/// The number of bytes in captured files.
pub open spec fn captured_bytes(files: Seq<CapturedEntry<Seq<char>, Seq<u8>>>) -> nat
    decreases files.len(),
{
    if files.len() == 0 {
        0
    } else {
        captured_bytes(files.drop_last()) + files.last().bytes.len()
    }
}

/// One more file of a size fits into the bounds.
pub open spec fn has_room(budget: CaptureBudget, size: u64) -> bool {
    budget.files < MAX_PACK_TREE_ENTRIES && budget.total_bytes + size <= MAX_PACK_TREE_BYTES
}

/// What holds of every walk: the bounds count what was captured, and a file is opened only if it
/// fits.
pub open spec fn is_sound(model: WalkModel) -> bool {
    &&& model.budget.is_within_bounds()
    &&& model.budget.files == model.files.len()
    &&& model.budget.total_bytes == captured_bytes(model.files)
    &&& forall|i: int|
        0 <= i < model.frames.len() ==> (#[trigger] model.frames[i]).next
            <= model.frames[i].names.len()
    &&& match model.step {
        WalkStep::InspectDirectory { relative: _, path: _, opened: _ } => true,
        WalkStep::ListDirectory { relative: _, path: _, opened: _, initial: _ } => true,
        WalkStep::OpenFile { entry: _, observed, size } => model.frames.len() > 0 && has_room(
            model.budget,
            size,
        ) && size == observed.size,
        WalkStep::InspectFile { entry: _, observed, size } => model.frames.len() > 0 && has_room(
            model.budget,
            size,
        ) && size == observed.size,
        WalkStep::ReadFile { entry: _, opened, size } => model.frames.len() > 0 && has_room(
            model.budget,
            size,
        ) && size == opened.size,
        WalkStep::ReinspectFile { entry: _, opened, size, bytes: _ } => model.frames.len() > 0
            && has_room(model.budget, size) && size == opened.size,
        WalkStep::BindFile { entry: _, opened, last: _, size, bytes: _ } => model.frames.len() > 0
            && has_room(model.budget, size) && size == opened.size,
        WalkStep::ReinspectChild => model.frames.len() > 1,
        WalkStep::BindChild { last: _ } => model.frames.len() > 1,
        _ => model.frames.len() > 0,
    }
}

/// Everything of a walk but what it needs next is in order.
spec fn has_sound_parts(model: WalkModel) -> bool {
    &&& model.budget.is_within_bounds()
    &&& model.budget.files == model.files.len()
    &&& model.budget.total_bytes == captured_bytes(model.files)
    &&& forall|i: int|
        0 <= i < model.frames.len() ==> (#[trigger] model.frames[i]).next
            <= model.frames[i].names.len()
    &&& model.frames.len() > 0
}

proof fn lemma_going_on_stays_sound(model: WalkModel)
    requires
        has_sound_parts(model),
    ensures
        going_on(model) matches Progress::Next(next) ==> is_sound(next),
        going_on(model) !is Done,
    decreases model.frames.last().names.len() - model.frames.last().next,
{
    let frame = model.frames.last();
    assert(model.frames[model.frames.len() - 1] == frame);
    if frame.next < frame.names.len() && frame.next < usize::MAX {
        let moved = WalkModel { frames: advanced(model.frames), ..model };
        assert forall|i: int| 0 <= i < moved.frames.len() implies (#[trigger] moved.frames[i]).next
            <= moved.frames[i].names.len() by {
            if i < model.frames.len() - 1 {
                assert(moved.frames[i] == model.frames[i]);
            }
        }
        assert(moved.frames.last().names == frame.names);
        if capture::name_step(frame.names[frame.next as int], frame.relative) is Skip {
            lemma_going_on_stays_sound(moved);
        }
    }
}

/// A walk keeps to its bounds: it visits no more names, captures no more files and reads no more
/// bytes than are allowed, at every step and at its end.
pub proof fn lemma_walk_stays_within_bounds(model: WalkModel, reply: ReplyModel)
    requires
        is_sound(model),
    ensures
        match walk_after(model, reply) {
            Progress::Next(next) => is_sound(next),
            Progress::Done(files) => files.len() <= MAX_PACK_TREE_ENTRIES && captured_bytes(files)
                <= MAX_PACK_TREE_BYTES,
            Progress::Failed(_) => true,
        },
{
    match (model.step, reply) {
        (
            WalkStep::ListDirectory { relative, path, opened, initial },
            WalkReply::Names(Ok(names)),
        ) => {
            if model.budget.visited_entries + names.len() <= MAX_CAPTURE_ENTRIES {
                let frame: FrameModel = WalkFrame {
                    relative,
                    path,
                    opened: match opened {
                        Some(stat) => stat,
                        None => initial,
                    },
                    initial,
                    names: capture::sorted_names(names),
                    next: 0,
                };
                let listed = WalkModel {
                    frames: model.frames.push(frame),
                    budget: CaptureBudget {
                        visited_entries: (model.budget.visited_entries + names.len()) as usize,
                        ..model.budget
                    },
                    ..model
                };
                assert forall|i: int| 0 <= i < listed.frames.len() implies (
                #[trigger] listed.frames[i]).next <= listed.frames[i].names.len() by {
                    if i < model.frames.len() {
                        assert(listed.frames[i] == model.frames[i]);
                    }
                }
                lemma_going_on_stays_sound(listed);
            }
        },
        (WalkStep::Classify { entry }, WalkReply::Class(class, covered)) => {
            lemma_going_on_stays_sound(model);
        },
        (WalkStep::Observe { entry }, WalkReply::Stat(Ok(stat))) => {
            capture::lemma_admitted_file_fits(model.budget, stat, model.root, entry.path);
        },
        (
            WalkStep::BindFile { entry, opened, last, size, bytes },
            WalkReply::Stat(found),
        ) => {
            if let Ok(bound) = capture::bound_entry(found, model.root, entry.path) {
                if capture::read_file_check(
                    bytes.len(),
                    opened,
                    last,
                    bound,
                    model.root,
                    entry.path,
                ) is Ok {
                    let files = model.files.push(CapturedEntry { path: entry.logical, bytes });
                    assert(files.drop_last() =~= model.files);
                    lemma_going_on_stays_sound(
                        WalkModel {
                            budget: CaptureBudget {
                                files: (model.budget.files + 1) as usize,
                                total_bytes: (model.budget.total_bytes + size) as u64,
                                ..model.budget
                            },
                            files,
                            ..model
                        },
                    );
                }
            }
        },
        (WalkStep::BindChild { last }, WalkReply::Stat(found)) => {
            let left = WalkModel { frames: model.frames.drop_last(), ..model };
            assert forall|i: int| 0 <= i < left.frames.len() implies (
            #[trigger] left.frames[i]).next <= left.frames[i].names.len() by {
                assert(left.frames[i] == model.frames[i]);
            }
            lemma_going_on_stays_sound(left);
        },
        _ => {},
    }
}

proof fn lemma_going_on_captures_nothing(model: WalkModel)
    ensures
        going_on(model) !is Done,
        going_on(model) matches Progress::Next(next) ==> next.files == model.files
            && next.frames.len() == model.frames.len() && (next.step is ListAgain || next.step
            is Classify),
    decreases model.frames.last().names.len() - model.frames.last().next,
{
    let frame = model.frames.last();
    if model.frames.len() > 0 && frame.next < frame.names.len() && frame.next < usize::MAX {
        let moved = WalkModel { frames: advanced(model.frames), ..model };
        assert(moved.frames.last().names == frame.names);
        if capture::name_step(frame.names[frame.next as int], frame.relative) is Skip {
            lemma_going_on_captures_nothing(moved);
        }
    }
}

proof fn lemma_steps_after_going_on(model: WalkModel, reply: ReplyModel)
    ensures
        walk_after(model, reply) matches Progress::Next(next) ==> match model.step {
            WalkStep::ListDirectory { relative: _, path: _, opened: _, initial: _ } => next.files
                == model.files && next.frames.len() == model.frames.len() + 1 && (next.step
                is ListAgain || next.step is Classify),
            WalkStep::Classify { entry: _ } => next.files == model.files && next.frames.len()
                == model.frames.len() && (next.step is ListAgain || next.step is Classify
                || next.step is Observe),
            WalkStep::BindFile { entry, opened: _, last: _, size: _, bytes } => next.files
                == model.files.push(CapturedEntry { path: entry.logical, bytes })
                && next.frames.len() == model.frames.len() && (next.step is ListAgain || next.step
                is Classify),
            WalkStep::BindChild { last: _ } => next.files == model.files && (
            model.frames.len() > 0 ==> next.frames.len() == model.frames.len() - 1) && (next.step
                is ListAgain || next.step is Classify),
            _ => next.files == model.files && next.frames == model.frames,
        },
        walk_after(model, reply) is Done ==> model.step is ReinspectDirectory,
{
    match (model.step, reply) {
        (
            WalkStep::ListDirectory { relative, path, opened, initial },
            WalkReply::Names(Ok(names)),
        ) => {
            let frame: FrameModel = WalkFrame {
                relative,
                path,
                opened: match opened {
                    Some(stat) => stat,
                    None => initial,
                },
                initial,
                names: capture::sorted_names(names),
                next: 0,
            };
            lemma_going_on_captures_nothing(
                WalkModel {
                    frames: model.frames.push(frame),
                    budget: CaptureBudget {
                        visited_entries: (model.budget.visited_entries + names.len()) as usize,
                        ..model.budget
                    },
                    ..model
                },
            );
        },
        (WalkStep::Classify { entry: _ }, _) => {
            lemma_going_on_captures_nothing(model);
        },
        (WalkStep::BindFile { entry, opened: _, last: _, size, bytes }, _) => {
            lemma_going_on_captures_nothing(
                WalkModel {
                    budget: CaptureBudget {
                        files: (model.budget.files + 1) as usize,
                        total_bytes: (model.budget.total_bytes + size) as u64,
                        ..model.budget
                    },
                    files: model.files.push(CapturedEntry { path: entry.logical, bytes }),
                    ..model
                },
            );
        },
        (WalkStep::BindChild { last: _ }, _) => {
            lemma_going_on_captures_nothing(
                WalkModel { frames: model.frames.drop_last(), ..model },
            );
        },
        _ => {},
    }
}

/// A file is captured only with all of its bytes, and only if neither the file nor its name
/// changed since it was opened.
pub proof fn lemma_captured_files_did_not_change(model: WalkModel, reply: ReplyModel)
    requires
        walk_after(model, reply) matches Progress::Next(next) && next.files != model.files,
    ensures
        model.step matches WalkStep::BindFile { entry, opened, last, size: _, bytes }
            && bytes.len() == opened.size && last == opened && reply == ReplyModel::Stat(Ok(opened))
            && walk_after(model, reply)->Next_0.files == model.files.push(
            CapturedEntry { path: entry.logical, bytes },
        ),
{
    lemma_steps_after_going_on(model, reply);
}

/// A directory is left only after its names and the directory itself were found unchanged, and
/// the walk ends only after that holds of the source.
pub proof fn lemma_directories_are_left_unchanged(model: WalkModel, reply: ReplyModel)
    requires
        model.frames.len() > 0,
    ensures
        match walk_after(model, reply) {
            Progress::Next(next) => {
                &&& next.step is ReinspectDirectory ==> model.step is ListAgain && (
                reply matches WalkReply::Names(Ok(names)) && capture::sorted_names(names)
                    == model.frames.last().names)
                &&& next.step is ReinspectChild ==> model.step is ReinspectDirectory && reply
                    == ReplyModel::Stat(Ok(model.frames.last().initial))
                &&& next.step is BindChild ==> model.step is ReinspectChild
                &&& next.frames.len() < model.frames.len() ==> (
                model.step matches WalkStep::BindChild { last } && last
                    == model.frames.last().opened && reply == ReplyModel::Stat(
                    Ok(model.frames.last().opened),
                ))
            },
            Progress::Done(files) => files == model.files && model.step is ReinspectDirectory
                && model.frames.len() == 1 && reply == ReplyModel::Stat(
                Ok(model.frames.last().initial),
            ),
            Progress::Failed(_) => true,
        },
{
    lemma_steps_after_going_on(model, reply);
}

proof fn lemma_going_on_needs_no_step(model: WalkModel, step: StepModel)
    ensures
        going_on(WalkModel { step, ..model }) == going_on(model),
    decreases model.frames.last().names.len() - model.frames.last().next,
{
    let frame = model.frames.last();
    if model.frames.len() > 0 && frame.next < frame.names.len() && frame.next < usize::MAX {
        let moved = WalkModel { frames: advanced(model.frames), ..model };
        if capture::name_step(frame.names[frame.next as int], frame.relative) is Skip {
            assert(moved.frames.last().names == frame.names);
            lemma_going_on_needs_no_step(moved, step);
        }
    }
}

/// Reads every captured file below a pack source.
#[derive(Debug)]
pub struct CaptureWalk {
    root: Vec<u8>,
    frames: Vec<WalkFrame>,
    budget: CaptureBudget,
    files: Vec<CapturedEntry>,
    step: WalkStep,
}

/// The progress of a walk, as contracts speak of it.
pub open spec fn walk_view(progress: Progress<CaptureWalk, Vec<CapturedEntry>>) -> WalkProgress {
    match progress {
        Progress::Next(walk) => Progress::Next(walk.model()),
        Progress::Done(files) => Progress::Done(seqs::views(files@)),
        Progress::Failed(error) => Progress::Failed(error@),
    }
}

/// A walk without what it needs next.
struct WalkParts {
    root: Vec<u8>,
    frames: Vec<WalkFrame>,
    budget: CaptureBudget,
    files: Vec<CapturedEntry>,
}

impl WalkParts {
    spec fn with(&self, step: StepModel) -> WalkModel {
        WalkModel {
            root: self.root@,
            frames: seqs::views(self.frames@),
            budget: self.budget,
            files: seqs::views(self.files@),
            step,
        }
    }

    fn need(self, step: WalkStep) -> (progress: Progress<CaptureWalk, Vec<CapturedEntry>>)
        requires
            is_sound(self.with(step@)),
        ensures
            walk_view(progress) == WalkProgress::Next(self.with(step@)),
    {
        Progress::Next(
            CaptureWalk {
                root: self.root,
                frames: self.frames,
                budget: self.budget,
                files: self.files,
                step,
            },
        )
    }

    fn changed(self, path: &[u8]) -> (progress: Progress<CaptureWalk, Vec<CapturedEntry>>)
        ensures
            walk_view(progress) == WalkProgress::Failed(
                capture::changed_failure(self.root@, path@),
            ),
    {
        Progress::Failed(
            capture_error(self.root.as_slice(), path, PackCaptureIssue::ObservationChanged),
        )
    }

    fn last_path(&self) -> (path: Vec<u8>)
        requires
            self.frames@.len() > 0,
        ensures
            path@ == seqs::views(self.frames@).last().path,
    {
        let last: usize = self.frames.len() - 1;
        assert(seqs::views(self.frames@).last() == self.frames@[last as int]@);
        copy_bytes(self.frames[last].path.as_slice())
    }

    fn go_on(self) -> (progress: Progress<CaptureWalk, Vec<CapturedEntry>>)
        requires
            has_sound_parts(self.with(WalkStep::ListAgain)),
        ensures
            forall|step: StepModel|
                walk_view(progress) == #[trigger] going_on(self.with(step)),
    {
        let ghost start = self.with(WalkStep::ListAgain);
        proof {
            assert forall|step: StepModel| #[trigger]
                going_on(self.with(step)) == going_on(start) by {
                lemma_going_on_needs_no_step(start, step);
            }
            lemma_going_on_stays_sound(start);
            assert(start.frames.len() == self.frames@.len());
        }
        let WalkParts { root, frames, budget, files } = self;
        let mut frames = frames;
        let ghost all = frames@;
        let frame = match frames.pop() {
            Some(frame) => frame,
            None => vstd::pervasive::unreached(),
        };
        proof {
            assert(all.last() == frame);
            assert(seqs::views(all).last() == frame@);
            assert(seqs::views(frames@) =~= seqs::views(all).drop_last());
            assert(frame@.names.len() == frame.names@.len());
            assert(start.frames[start.frames.len() - 1] == frame@);
            assert(start.frames =~= seqs::views(frames@).push(frame@));
        }
        let ghost whole = frame@;
        let WalkFrame { relative, path, opened, initial, names, next } = frame;
        let mut next: usize = next;
        while next < names.len()
            invariant
                next <= names.len(),
                whole == (FrameModel {
                    relative: relative@,
                    path: path@,
                    opened,
                    initial,
                    names: seqs::views(names@),
                    next: whole.next,
                }),
                start.root == root@,
                start.budget == budget,
                start.files == seqs::views(files@),
                going_on(start) matches Progress::Next(sound) ==> is_sound(sound),
                forall|step: StepModel| #[trigger] going_on(self.with(step)) == going_on(start),
                going_on(start) == going_on(
                    WalkModel {
                        frames: seqs::views(frames@).push(WalkFrame { next, ..whole }),
                        ..start
                    },
                ),
            decreases names.len() - next,
        {
            let ghost here = WalkModel {
                frames: seqs::views(frames@).push(WalkFrame { next, ..whole }),
                ..start
            };
            let name = names[next].as_slice();
            let found = visit_name(name, relative.as_str());
            let entry_path = join_paths(path.as_slice(), name);
            proof {
                assert(here.frames.last() == (WalkFrame { next, ..whole }));
                assert(whole.names[next as int] == names@[next as int]@);
                assert(advanced(here.frames) =~= seqs::views(frames@).push(
                    WalkFrame { next: (next + 1) as usize, ..whole },
                ));
            }
            match found {
                NameStep::Skip => {
                    next = next + 1;
                },
                NameStep::NotText => {
                    return Progress::Failed(
                        capture_error(
                            root.as_slice(),
                            entry_path.as_slice(),
                            PackCaptureIssue::NonUtf8Name,
                        ),
                    );
                },
                NameStep::Classify(logical) => {
                    let entry = WalkEntry { name: copy_bytes(name), logical, path: entry_path };
                    let ghost before = frames@;
                    let moved = WalkFrame { relative, path, opened, initial, names, next: next + 1 };
                    frames.push(moved);
                    proof {
                        assert(seqs::views(frames@) =~= seqs::views(before).push(
                            WalkFrame { next: (next + 1) as usize, ..whole },
                        ));
                    }
                    return Progress::Next(
                        CaptureWalk {
                            root,
                            frames,
                            budget,
                            files,
                            step: WalkStep::Classify { entry },
                        },
                    );
                },
            }
        }
        let ghost before = frames@;
        frames.push(WalkFrame { relative, path, opened, initial, names, next });
        proof {
            let here = seqs::views(before).push(WalkFrame { next, ..whole });
            assert(seqs::views(frames@) =~= here);
            assert(here.last() == (WalkFrame { next, ..whole }));
            assert(whole.names.len() == names@.len());
        }
        Progress::Next(CaptureWalk { root, frames, budget, files, step: WalkStep::ListAgain })
    }
}

impl CaptureWalk {
    /// Where the walk stands.
    pub closed spec fn model(&self) -> WalkModel {
        WalkModel {
            root: self.root@,
            frames: seqs::views(self.frames@),
            budget: self.budget,
            files: seqs::views(self.files@),
            step: self.step@,
        }
    }

    #[verifier::type_invariant]
    spec fn inv(&self) -> bool {
        is_sound(self.model())
    }

    /// Starts at a source.
    pub fn new(root: &[u8]) -> (walk: CaptureWalk)
        ensures
            walk.model() == walk_start(root@),
    {
        let frames: Vec<WalkFrame> = Vec::new();
        let files: Vec<CapturedEntry> = Vec::new();
        let relative = "".to_owned();
        proof {
            reveal_strlit("");
            assert(relative@ =~= Seq::<char>::empty());
            assert(seqs::views(frames@) =~= Seq::<FrameModel>::empty());
            assert(seqs::views(files@) =~= Seq::<CapturedEntry<Seq<char>, Seq<u8>>>::empty());
        }
        CaptureWalk {
            root: copy_bytes(root),
            frames,
            budget: CaptureBudget::new(),
            files,
            step: WalkStep::InspectDirectory { relative, path: copy_bytes(root), opened: None },
        }
    }

    /// Returns what is needed next.
    pub fn step(&self) -> (step: &WalkStep)
        ensures
            step@ == self.model().step,
    {
        &self.step
    }

    /// Decides what follows the current step.
    pub fn after(self, reply: WalkReply) -> (progress: Progress<CaptureWalk, Vec<CapturedEntry>>)
        ensures
            walk_view(progress) == walk_after(self.model(), reply@),
    {
        let ghost before = self.model();
        proof {
            use_type_invariant(&self);
            lemma_walk_stays_within_bounds(before, reply@);
        }
        let CaptureWalk { root, frames, budget, files, step } = self;
        let parts = WalkParts { root, frames, budget, files };
        let ghost at = step@;
        proof {
            assert(before == parts.with(at));
            assert(before.frames.len() == parts.frames@.len());
        }
        match step {
            WalkStep::InspectDirectory { relative, path, opened } => match reply {
                WalkReply::Stat(observed) => match observed {
                    Err(failure) => Progress::Failed(
                        io_error(
                            "inspect local pack source directory",
                            path.as_slice(),
                            failure.detail.as_str(),
                        ),
                    ),
                    Ok(initial) => {
                        if initial.kind() == EntryKind::Directory {
                            parts.need(WalkStep::ListDirectory { relative, path, opened, initial })
                        } else {
                            parts.changed(path.as_slice())
                        }
                    },
                },
                _ => parts.changed(path.as_slice()),
            },
            WalkStep::ListDirectory { relative, path, opened, initial } => match reply {
                WalkReply::Names(listed) => match listed {
                    Err(detail) => Progress::Failed(
                        io_error(
                            "open local pack source directory for enumeration",
                            path.as_slice(),
                            detail.as_str(),
                        ),
                    ),
                    Ok(names) => parts.enter(relative, path, opened, initial, &names),
                },
                _ => parts.changed(path.as_slice()),
            },
            WalkStep::Classify { entry } => match reply {
                WalkReply::Class(class, covered) => {
                    match after_classification(
                        class,
                        covered,
                        parts.root.as_slice(),
                        entry.path.as_slice(),
                    ) {
                        Err(error) => Progress::Failed(error),
                        Ok(looked_at) => {
                            if looked_at {
                                parts.need(WalkStep::Observe { entry })
                            } else {
                                let progress = parts.go_on();
                                assert(walk_view(progress) == going_on(parts.with(at)));
                                progress
                            }
                        },
                    }
                },
                _ => parts.changed(entry.path.as_slice()),
            },
            WalkStep::Observe { entry } => match reply {
                WalkReply::Stat(observed) => parts.observed(entry, observed),
                _ => parts.changed(entry.path.as_slice()),
            },
            WalkStep::OpenDirectory { entry, observed } => match reply {
                WalkReply::Opened => parts.need(WalkStep::InspectChild { entry, observed }),
                WalkReply::NotOpened(failure) => Progress::Failed(
                    map_entry_open_error(parts.root.as_slice(), entry.path.as_slice(), failure),
                ),
                _ => parts.changed(entry.path.as_slice()),
            },
            WalkStep::InspectChild { entry, observed } => match reply {
                WalkReply::Stat(found) => match found {
                    Err(failure) => Progress::Failed(
                        io_error(
                            "inspect opened pack source directory",
                            entry.path.as_slice(),
                            failure.detail.as_str(),
                        ),
                    ),
                    Ok(opened) => {
                        if opened.kind() == EntryKind::Directory && observed.same_file_snapshot(
                            &opened,
                        ) {
                            parts.need(
                                WalkStep::InspectDirectory {
                                    relative: entry.logical,
                                    path: entry.path,
                                    opened: Some(opened),
                                },
                            )
                        } else {
                            parts.changed(entry.path.as_slice())
                        }
                    },
                },
                _ => parts.changed(entry.path.as_slice()),
            },
            WalkStep::OpenFile { entry, observed, size } => match reply {
                WalkReply::Opened => parts.need(WalkStep::InspectFile { entry, observed, size }),
                WalkReply::NotOpened(failure) => Progress::Failed(
                    map_entry_open_error(parts.root.as_slice(), entry.path.as_slice(), failure),
                ),
                _ => parts.changed(entry.path.as_slice()),
            },
            WalkStep::InspectFile { entry, observed, size } => match reply {
                WalkReply::Stat(found) => match found {
                    Err(failure) => Progress::Failed(
                        io_error(
                            "inspect opened local pack source file",
                            entry.path.as_slice(),
                            failure.detail.as_str(),
                        ),
                    ),
                    Ok(opened) => match check_opened_file(
                        &observed,
                        &opened,
                        parts.root.as_slice(),
                        entry.path.as_slice(),
                    ) {
                        Err(error) => Progress::Failed(error),
                        Ok(_) => parts.need(WalkStep::ReadFile { entry, opened, size }),
                    },
                },
                _ => parts.changed(entry.path.as_slice()),
            },
            WalkStep::ReadFile { entry, opened, size } => match reply {
                WalkReply::NoMemory(detail) => Progress::Failed(
                    io_error(
                        "reserve memory for local pack source file",
                        entry.path.as_slice(),
                        detail.as_str(),
                    ),
                ),
                WalkReply::Bytes(read) => match read {
                    Err(detail) => Progress::Failed(
                        io_error(
                            "read local pack source file",
                            entry.path.as_slice(),
                            detail.as_str(),
                        ),
                    ),
                    Ok(bytes) => parts.need(
                        WalkStep::ReinspectFile { entry, opened, size, bytes },
                    ),
                },
                _ => parts.changed(entry.path.as_slice()),
            },
            WalkStep::ReinspectFile { entry, opened, size, bytes } => match reply {
                WalkReply::Stat(found) => match found {
                    Err(failure) => Progress::Failed(
                        io_error(
                            "reinspect local pack source file",
                            entry.path.as_slice(),
                            failure.detail.as_str(),
                        ),
                    ),
                    Ok(last) => match validate_source_file(
                        parts.root.as_slice(),
                        entry.path.as_slice(),
                        &last,
                    ) {
                        Err(error) => Progress::Failed(error),
                        Ok(_) => parts.need(
                            WalkStep::BindFile { entry, opened, last, size, bytes },
                        ),
                    },
                },
                _ => parts.changed(entry.path.as_slice()),
            },
            WalkStep::BindFile { entry, opened, last, size, bytes } => match reply {
                WalkReply::Stat(found) => parts.bound_file(entry, opened, last, size, bytes, found),
                _ => parts.changed(entry.path.as_slice()),
            },
            WalkStep::ListAgain => {
                let path = parts.last_path();
                match reply {
                    WalkReply::Names(listed) => match listed {
                        Err(detail) => Progress::Failed(
                            io_error(
                                "reopen local pack source directory for enumeration",
                                path.as_slice(),
                                detail.as_str(),
                            ),
                        ),
                        Ok(names) => {
                            let again = sort_names(&names);
                            let last: usize = parts.frames.len() - 1;
                            assert(before.frames.last() == parts.frames@[last as int]@);
                            match check_names_unchanged(
                                &parts.frames[last].names,
                                &again,
                                parts.root.as_slice(),
                                path.as_slice(),
                            ) {
                                Err(error) => Progress::Failed(error),
                                Ok(_) => parts.need(WalkStep::ReinspectDirectory),
                            }
                        },
                    },
                    _ => parts.changed(path.as_slice()),
                }
            },
            WalkStep::ReinspectDirectory => {
                let path = parts.last_path();
                match reply {
                    WalkReply::Stat(found) => match found {
                        Err(failure) => Progress::Failed(
                            io_error(
                                "reinspect local pack source directory",
                                path.as_slice(),
                                failure.detail.as_str(),
                            ),
                        ),
                        Ok(found) => {
                            let last: usize = parts.frames.len() - 1;
                            assert(before.frames.last() == parts.frames@[last as int]@);
                            if !parts.frames[last].initial.same_file_snapshot(&found) {
                                parts.changed(path.as_slice())
                            } else if parts.frames.len() <= 1 {
                                Progress::Done(parts.files)
                            } else {
                                parts.need(WalkStep::ReinspectChild)
                            }
                        },
                    },
                    _ => parts.changed(path.as_slice()),
                }
            },
            WalkStep::ReinspectChild => {
                let path = parts.last_path();
                match reply {
                    WalkReply::Stat(found) => match found {
                        Err(failure) => Progress::Failed(
                            io_error(
                                "reinspect pack source directory",
                                path.as_slice(),
                                failure.detail.as_str(),
                            ),
                        ),
                        Ok(last) => parts.need(WalkStep::BindChild { last }),
                    },
                    _ => parts.changed(path.as_slice()),
                }
            },
            WalkStep::BindChild { last } => {
                let path = parts.last_path();
                match reply {
                    WalkReply::Stat(found) => match check_bound_entry(
                        found,
                        parts.root.as_slice(),
                        path.as_slice(),
                    ) {
                        Err(error) => Progress::Failed(error),
                        Ok(bound) => {
                            let place: usize = parts.frames.len() - 1;
                            assert(before.frames.last() == parts.frames@[place as int]@);
                            match check_walked_directory(
                                &parts.frames[place].opened,
                                &last,
                                &bound,
                                parts.root.as_slice(),
                                path.as_slice(),
                            ) {
                                Err(error) => Progress::Failed(error),
                                Ok(_) => {
                                    let left = parts.leave();
                                    let progress = left.go_on();
                                    assert(walk_view(progress) == going_on(left.with(at)));
                                    progress
                                },
                            }
                        },
                    },
                    _ => parts.changed(path.as_slice()),
                }
            },
        }
    }
}

impl WalkParts {
    fn enter(
        self,
        relative: String,
        path: Vec<u8>,
        opened: Option<FileStat>,
        initial: FileStat,
        listed: &Vec<Vec<u8>>,
    ) -> (progress: Progress<CaptureWalk, Vec<CapturedEntry>>)
        requires
            is_sound(
                self.with(
                    WalkStep::ListDirectory { relative: relative@, path: path@, opened, initial },
                ),
            ),
        ensures
            walk_view(progress) == after_listing(
                self.with(
                    WalkStep::ListDirectory { relative: relative@, path: path@, opened, initial },
                ),
                relative@,
                path@,
                opened,
                initial,
                Ok(seqs::views(listed@)),
            ),
    {
        let ghost step = StepModel::ListDirectory {
            relative: relative@,
            path: path@,
            opened,
            initial,
        };
        let WalkParts { root, frames, budget, files } = self;
        let mut budget = budget;
        match budget.charge_names(listed.len(), root.as_slice(), path.as_slice()) {
            Err(error) => Progress::Failed(error),
            Ok(_) => {
                let names = sort_names(listed);
                let ghost before = frames@;
                let mut frames = frames;
                let frame = WalkFrame {
                    relative,
                    path,
                    opened: match opened {
                        Some(stat) => stat,
                        None => initial,
                    },
                    initial,
                    names,
                    next: 0,
                };
                let ghost added = frame@;
                frames.push(frame);
                proof {
                    assert(seqs::views(frames@) =~= seqs::views(before).push(added));
                    assert(seqs::views(listed@).len() == listed@.len());
                    let all = seqs::views(frames@);
                    assert forall|i: int| 0 <= i < all.len() implies (#[trigger] all[i]).next
                        <= all[i].names.len() by {
                        if i < before.len() {
                            assert(all[i] == self.with(step).frames[i]);
                        }
                    }
                }
                let parts = WalkParts { root, frames, budget, files };
                let progress = parts.go_on();
                assert(walk_view(progress) == going_on(parts.with(step)));
                progress
            },
        }
    }

    fn observed(self, entry: WalkEntry, observed: Result<FileStat, HostFailure>) -> (progress: Progress<
        CaptureWalk,
        Vec<CapturedEntry>,
    >)
        requires
            is_sound(self.with(WalkStep::Observe { entry: entry@ })),
        ensures
            walk_view(progress) == after_observation(
                self.with(WalkStep::Observe { entry: entry@ }),
                entry@,
                stat::observation_view(observed),
            ),
    {
        let seen = match &observed {
            Ok(stat) => Some(*stat),
            Err(_) => None,
        };
        let ghost reply = stat::observation_view(observed);
        match check_entry(observed, self.root.as_slice(), entry.path.as_slice()) {
            Err(error) => Progress::Failed(error),
            Ok(found) => match seen {
                None => vstd::pervasive::unreached(),
                Some(stat) => match found {
                    EntryStep::Directory => self.need(
                        WalkStep::OpenDirectory { entry, observed: stat },
                    ),
                    EntryStep::File => match self.budget.admit_file(
                        &stat,
                        self.root.as_slice(),
                        entry.path.as_slice(),
                    ) {
                        Err(error) => Progress::Failed(error),
                        Ok(size) => {
                            proof {
                                capture::lemma_admitted_file_fits(
                                    self.budget,
                                    stat,
                                    self.root@,
                                    entry.path@,
                                );
                            }
                            self.need(WalkStep::OpenFile { entry, observed: stat, size })
                        },
                    },
                },
            },
        }
    }

    fn bound_file(
        self,
        entry: WalkEntry,
        opened: FileStat,
        last: FileStat,
        size: u64,
        bytes: Vec<u8>,
        found: Result<FileStat, HostFailure>,
    ) -> (progress: Progress<CaptureWalk, Vec<CapturedEntry>>)
        requires
            is_sound(
                self.with(
                    WalkStep::BindFile { entry: entry@, opened, last, size, bytes: bytes@ },
                ),
            ),
        ensures
            walk_view(progress) == after_bound_file(
                self.with(
                    WalkStep::BindFile { entry: entry@, opened, last, size, bytes: bytes@ },
                ),
                entry@,
                opened,
                last,
                size,
                bytes@,
                stat::observation_view(found),
            ),
    {
        let ghost step = StepModel::BindFile {
            entry: entry@,
            opened,
            last,
            size,
            bytes: bytes@,
        };
        let ghost start = self.with(step);
        let bound = match check_bound_entry(found, self.root.as_slice(), entry.path.as_slice()) {
            Err(error) => {
                return Progress::Failed(error);
            },
            Ok(bound) => bound,
        };
        match check_read_file(
            bytes.len(),
            &opened,
            &last,
            &bound,
            self.root.as_slice(),
            entry.path.as_slice(),
        ) {
            Err(error) => {
                return Progress::Failed(error);
            },
            Ok(_) => {},
        }
        let WalkParts { root, frames, budget, files } = self;
        let mut budget = budget;
        budget.charge_file(size);
        let ghost before = files@;
        let ghost added = CapturedEntry { path: entry.logical@, bytes: bytes@ };
        let mut files = files;
        files.push(CapturedEntry { path: entry.logical, bytes });
        proof {
            assert(seqs::views(files@) =~= seqs::views(before).push(added));
            assert(seqs::views(files@).drop_last() =~= seqs::views(before));
        }
        let parts = WalkParts { root, frames, budget, files };
        let progress = parts.go_on();
        proof {
            assert(walk_view(progress) == going_on(parts.with(step)));
        }
        progress
    }

    fn leave(self) -> (parts: WalkParts)
        requires
            self.frames@.len() > 0,
        ensures
            forall|step: StepModel| #[trigger]
                parts.with(step) == (WalkModel {
                    frames: self.with(step).frames.drop_last(),
                    ..self.with(step)
                }),
    {
        let WalkParts { root, frames, budget, files } = self;
        let mut frames = frames;
        let ghost before = frames@;
        let _ = frames.pop();
        assert(seqs::views(frames@) =~= seqs::views(before).drop_last());
        WalkParts { root, frames, budget, files }
    }
}

} // verus!
