//! Which files a pack source holds, and that walking it captures exactly these.

use vstd::prelude::*;
use vstd::utf8::*;

use crate::capture;
use crate::capture_walk;
use crate::capture_walk::{
    CapturedEntry, FrameModel, ReplyModel, StepModel, WalkModel, WalkReply, WalkStep,
};
use crate::git::reader::PathClass;
use crate::limits::MAX_CAPTURE_ENTRIES;
use crate::path;
use crate::sort;
use crate::stat::FileStat;
use crate::store_steps::Progress;

verus! {

/// A captured file, as contracts speak of it.
pub type CapturedModel = CapturedEntry<Seq<char>, Seq<u8>>;

/// A pack source that stays as it is: what is observed, listed and read at each path, and what
/// the pack rules and the manifest say of each path in the pack.
pub struct Source {
    pub stats: Map<Seq<u8>, FileStat>,
    pub names: Map<Seq<u8>, Seq<Seq<u8>>>,
    pub contents: Map<Seq<u8>, Seq<u8>>,
    pub classes: Map<Seq<char>, PathClass<Seq<char>>>,
    pub covered: Map<Seq<char>, Option<bool>>,
}

/// The path in the pack of a name in a directory that stands at `relative`.
pub open spec fn place_of(relative: Seq<char>, name: Seq<u8>) -> Seq<char> {
    if relative.len() == 0 {
        decode_utf8(name)
    } else {
        relative + "/"@ + decode_utf8(name)
    }
}

/// A name that may belong to the pack: it is text and none of those of the tools.
pub open spec fn is_offered(name: Seq<u8>) -> bool {
    &&& name != encode_utf8(".git"@)
    &&& name != encode_utf8("malm.lock"@)
    &&& name != encode_utf8(".malm-lock.tmp"@)
    &&& valid_utf8(name)
}

/// A path in the pack that is content and is not left out by the manifest.
pub open spec fn is_content(source: Source, logical: Seq<char>) -> bool {
    source.classes[logical] is Content && source.covered[logical] != Some(false)
}

/// A file is the entry at a path, or lies at most so many directories below it.
pub open spec fn lies_at(
    source: Source,
    logical: Seq<char>,
    at: Seq<u8>,
    file: CapturedModel,
    depth: nat,
) -> bool
    decreases depth,
{
    ||| source.stats[at].mode & 0o170000 == 0o100000 && file == (CapturedEntry {
        path: logical,
        bytes: source.contents[at],
    })
    ||| source.stats[at].mode & 0o170000 == 0o040000 && depth > 0 && exists|k: int|
        0 <= k < source.names[at].len() && is_offered(#[trigger] source.names[at][k]) && is_content(
            source,
            place_of(logical, source.names[at][k]),
        ) && lies_at(
            source,
            place_of(logical, source.names[at][k]),
            path::joined(at, source.names[at][k]),
            file,
            (depth - 1) as nat,
        )
}

/// A file is the entry at a path or lies below it.
pub open spec fn is_at(
    source: Source,
    logical: Seq<char>,
    at: Seq<u8>,
    file: CapturedModel,
) -> bool {
    exists|depth: nat| lies_at(source, logical, at, file, depth)
}

/// A file comes from a name in a directory: the name belongs to the pack, and the file is what
/// it names or lies below it.
pub open spec fn comes_from(
    source: Source,
    relative: Seq<char>,
    directory: Seq<u8>,
    name: Seq<u8>,
    file: CapturedModel,
) -> bool {
    &&& is_offered(name)
    &&& is_content(source, place_of(relative, name))
    &&& is_at(source, place_of(relative, name), path::joined(directory, name), file)
}

/// A file comes from a name of the directory at a path.
pub open spec fn is_below(
    source: Source,
    relative: Seq<char>,
    directory: Seq<u8>,
    file: CapturedModel,
) -> bool {
    exists|k: int|
        0 <= k < source.names[directory].len() && comes_from(
            source,
            relative,
            directory,
            #[trigger] source.names[directory][k],
            file,
        )
}

/// What the source answers to a step of the walk.
pub open spec fn answer(source: Source, model: WalkModel) -> ReplyModel {
    match model.step {
        WalkStep::InspectDirectory { relative: _, path, opened: _ } => WalkReply::Stat(
            Ok(source.stats[path]),
        ),
        WalkStep::ListDirectory { relative: _, path, opened: _, initial: _ } => WalkReply::Names(
            Ok(source.names[path]),
        ),
        WalkStep::Classify { entry } => WalkReply::Class(
            source.classes[entry.logical],
            source.covered[entry.logical],
        ),
        WalkStep::Observe { entry } => WalkReply::Stat(Ok(source.stats[entry.path])),
        WalkStep::OpenDirectory { entry: _, observed: _ } => WalkReply::Opened,
        WalkStep::InspectChild { entry, observed: _ } => WalkReply::Stat(
            Ok(source.stats[entry.path]),
        ),
        WalkStep::OpenFile { entry: _, observed: _, size: _ } => WalkReply::Opened,
        WalkStep::InspectFile { entry, observed: _, size: _ } => WalkReply::Stat(
            Ok(source.stats[entry.path]),
        ),
        WalkStep::ReadFile { entry, opened: _, size: _ } => WalkReply::Bytes(
            Ok(source.contents[entry.path]),
        ),
        WalkStep::ReinspectFile { entry, opened: _, size: _, bytes: _ } => WalkReply::Stat(
            Ok(source.stats[entry.path]),
        ),
        WalkStep::BindFile { entry, opened: _, last: _, size: _, bytes: _ } => WalkReply::Stat(
            Ok(source.stats[entry.path]),
        ),
        WalkStep::ListAgain => WalkReply::Names(Ok(source.names[model.frames.last().path])),
        WalkStep::ReinspectDirectory => WalkReply::Stat(
            Ok(source.stats[model.frames.last().path]),
        ),
        WalkStep::ReinspectChild => WalkReply::Stat(Ok(source.stats[model.frames.last().path])),
        WalkStep::BindChild { last: _ } => WalkReply::Stat(
            Ok(source.stats[model.frames.last().path]),
        ),
    }
}

/// The files that a walk captures once the source has answered so many steps, where it ends
/// with them.
pub open spec fn captured(source: Source, model: WalkModel, count: nat) -> Option<
    Seq<CapturedModel>,
>
    decreases count,
{
    if count == 0 {
        None
    } else {
        match capture_walk::walk_after(model, answer(source, model)) {
            Progress::Next(next) => captured(source, next, (count - 1) as nat),
            Progress::Done(files) => Some(files),
            Progress::Failed(_) => None,
        }
    }
}

/// A file comes from a name that is still to be visited.
spec fn waits(
    source: Source,
    frames: Seq<FrameModel>,
    i: int,
    k: int,
    file: CapturedModel,
) -> bool {
    &&& 0 <= i < frames.len()
    &&& frames[i].next <= k < frames[i].names.len()
    &&& comes_from(source, frames[i].relative, frames[i].path, frames[i].names[k], file)
}

spec fn is_waiting(source: Source, frames: Seq<FrameModel>, file: CapturedModel) -> bool {
    exists|i: int, k: int| waits(source, frames, i, k, file)
}

/// A file is captured already, or comes from a name that is still to be visited.
spec fn is_left(source: Source, model: WalkModel, file: CapturedModel) -> bool {
    model.files.contains(file) || is_waiting(source, model.frames, file)
}

/// A file is what the step is about.
spec fn is_next(source: Source, step: StepModel, file: CapturedModel) -> bool {
    match step {
        WalkStep::InspectDirectory { relative, path, opened: _ } => is_below(
            source,
            relative,
            path,
            file,
        ),
        WalkStep::ListDirectory { relative, path, opened: _, initial: _ } => is_below(
            source,
            relative,
            path,
            file,
        ),
        WalkStep::Classify { entry } => is_content(source, entry.logical) && is_at(
            source,
            entry.logical,
            entry.path,
            file,
        ),
        WalkStep::Observe { entry } => is_at(source, entry.logical, entry.path, file),
        WalkStep::OpenDirectory { entry, observed: _ } => is_below(
            source,
            entry.logical,
            entry.path,
            file,
        ),
        WalkStep::InspectChild { entry, observed: _ } => is_below(
            source,
            entry.logical,
            entry.path,
            file,
        ),
        WalkStep::OpenFile { entry, observed: _, size: _ } => file == (CapturedEntry {
            path: entry.logical,
            bytes: source.contents[entry.path],
        }),
        WalkStep::InspectFile { entry, observed: _, size: _ } => file == (CapturedEntry {
            path: entry.logical,
            bytes: source.contents[entry.path],
        }),
        WalkStep::ReadFile { entry, opened: _, size: _ } => file == (CapturedEntry {
            path: entry.logical,
            bytes: source.contents[entry.path],
        }),
        WalkStep::ReinspectFile { entry, opened: _, size: _, bytes } => file == (CapturedEntry {
            path: entry.logical,
            bytes,
        }),
        WalkStep::BindFile { entry, opened: _, last: _, size: _, bytes } => file == (
        CapturedEntry { path: entry.logical, bytes }),
        _ => false,
    }
}

/// A file will have been captured when the walk ends.
spec fn is_owed(source: Source, model: WalkModel, file: CapturedModel) -> bool {
    is_left(source, model, file) || is_next(source, model.step, file)
}

/// The directories on the way are within the bounds, and one that is left was visited whole.
spec fn is_coherent(model: WalkModel) -> bool {
    &&& forall|i: int|
        0 <= i < model.frames.len() ==> (#[trigger] model.frames[i]).names.len()
            <= MAX_CAPTURE_ENTRIES
    &&& match model.step {
        WalkStep::InspectDirectory { relative: _, path: _, opened: _ } => true,
        WalkStep::ListDirectory { relative: _, path: _, opened: _, initial: _ } => true,
        WalkStep::ListAgain | WalkStep::ReinspectDirectory => model.frames.len() > 0
            && model.frames.last().next >= model.frames.last().names.len(),
        WalkStep::ReinspectChild | WalkStep::BindChild { last: _ } => model.frames.len() > 1
            && model.frames.last().next >= model.frames.last().names.len(),
        _ => model.frames.len() > 0,
    }
}

proof fn lemma_at(source: Source, logical: Seq<char>, at: Seq<u8>, file: CapturedModel)
    ensures
        is_at(source, logical, at, file) <==> (source.stats[at].mode & 0o170000 == 0o100000
            && file == (CapturedEntry { path: logical, bytes: source.contents[at] })) || (
        source.stats[at].mode & 0o170000 == 0o040000 && is_below(source, logical, at, file)),
{
    if is_at(source, logical, at, file) {
        let depth = choose|depth: nat| lies_at(source, logical, at, file, depth);
        if source.stats[at].mode & 0o170000 == 0o040000 {
            let k = choose|k: int|
                0 <= k < source.names[at].len() && is_offered(#[trigger] source.names[at][k])
                    && is_content(source, place_of(logical, source.names[at][k])) && lies_at(
                    source,
                    place_of(logical, source.names[at][k]),
                    path::joined(at, source.names[at][k]),
                    file,
                    (depth - 1) as nat,
                );
            assert(comes_from(source, logical, at, source.names[at][k], file));
        }
    }
    if source.stats[at].mode & 0o170000 == 0o100000 && file == (CapturedEntry {
        path: logical,
        bytes: source.contents[at],
    }) {
        assert(lies_at(source, logical, at, file, 0));
    }
    if source.stats[at].mode & 0o170000 == 0o040000 && is_below(source, logical, at, file) {
        let k = choose|k: int|
            0 <= k < source.names[at].len() && comes_from(
                source,
                logical,
                at,
                #[trigger] source.names[at][k],
                file,
            );
        let name = source.names[at][k];
        let depth = choose|depth: nat|
            lies_at(source, place_of(logical, name), path::joined(at, name), file, depth);
        assert(((depth + 1) - 1) as nat == depth);
        assert(lies_at(source, logical, at, file, depth + 1));
    }
}

proof fn lemma_sorted_names(names: Seq<Seq<u8>>)
    requires
        names.len() <= MAX_CAPTURE_ENTRIES,
    ensures
        capture::sorted_names(names).len() == names.len(),
        forall|i: int|
            0 <= i < names.len() ==> names.contains(#[trigger] capture::sorted_names(names)[i]),
        forall|k: int|
            0 <= k < names.len() ==> capture::sorted_names(names).contains(#[trigger] names[k]),
{
    sort::lemma_stable_order_exists(names);
    let order = choose|order: Seq<usize>| #[trigger] sort::is_stable_order(names, order);
    let sorted = capture::sorted_names(names);
    assert forall|i: int| 0 <= i < names.len() implies names.contains(#[trigger] sorted[i]) by {
        assert(sorted[i] == names[order[i] as int]);
    }
    assert forall|k: int| 0 <= k < names.len() implies sorted.contains(#[trigger] names[k]) by {
        assert(order.contains(k as usize));
        let i = choose|i: int| 0 <= i < order.len() && order[i] == k as usize;
        assert(sorted[i] == names[k]);
    }
}

proof fn lemma_advanced(source: Source, frames: Seq<FrameModel>, file: CapturedModel)
    requires
        frames.len() > 0,
        frames.last().next < frames.last().names.len() <= MAX_CAPTURE_ENTRIES,
    ensures
        is_waiting(source, frames, file) <==> comes_from(
            source,
            frames.last().relative,
            frames.last().path,
            frames.last().names[frames.last().next as int],
            file,
        ) || is_waiting(source, capture_walk::advanced(frames), file),
{
    let after = capture_walk::advanced(frames);
    let last = frames.len() - 1;
    assert(after.len() == frames.len());
    assert(forall|i: int| 0 <= i < last ==> after[i] == frames[i]);
    assert(after[last].next == frames[last].next + 1);
    if is_waiting(source, frames, file) {
        let (i, k) = choose|i: int, k: int| waits(source, frames, i, k, file);
        if i != last || k != frames[last].next {
            assert(waits(source, after, i, k, file));
        }
    }
    if comes_from(
        source,
        frames.last().relative,
        frames.last().path,
        frames.last().names[frames.last().next as int],
        file,
    ) {
        assert(waits(source, frames, last, frames[last].next as int, file));
    }
    if is_waiting(source, after, file) {
        let (i, k) = choose|i: int, k: int| waits(source, after, i, k, file);
        assert(waits(source, frames, i, k, file));
    }
}

proof fn lemma_going_on(source: Source, model: WalkModel, file: CapturedModel)
    requires
        model.frames.len() > 0,
        forall|i: int|
            0 <= i < model.frames.len() ==> (#[trigger] model.frames[i]).names.len()
                <= MAX_CAPTURE_ENTRIES,
    ensures
        capture_walk::going_on(model) !is Done,
        capture_walk::going_on(model) matches Progress::Next(next) ==> is_coherent(next)
            && is_owed(source, next, file) == is_left(source, model, file),
    decreases model.frames.last().names.len() - model.frames.last().next,
{
    let frame = model.frames.last();
    if frame.next < frame.names.len() {
        let moved = WalkModel { frames: capture_walk::advanced(model.frames), ..model };
        lemma_advanced(source, model.frames, file);
        if capture::is_skipped_name(frame.names[frame.next as int]) {
            lemma_going_on(source, moved, file);
        }
    }
}

proof fn lemma_listed(
    source: Source,
    frames: Seq<FrameModel>,
    frame: FrameModel,
    file: CapturedModel,
)
    requires
        frame.next == 0,
        source.names[frame.path].len() <= MAX_CAPTURE_ENTRIES,
        frame.names == capture::sorted_names(source.names[frame.path]),
    ensures
        is_waiting(source, frames.push(frame), file) <==> is_waiting(source, frames, file)
            || is_below(source, frame.relative, frame.path, file),
{
    let names = source.names[frame.path];
    let after = frames.push(frame);
    let last = frames.len() as int;
    lemma_sorted_names(names);
    assert(forall|i: int| 0 <= i < last ==> after[i] == frames[i]);
    if is_waiting(source, frames, file) {
        let (i, k) = choose|i: int, k: int| waits(source, frames, i, k, file);
        assert(waits(source, after, i, k, file));
    }
    if is_below(source, frame.relative, frame.path, file) {
        let k = choose|k: int|
            0 <= k < names.len() && comes_from(
                source,
                frame.relative,
                frame.path,
                #[trigger] names[k],
                file,
            );
        assert(frame.names.contains(names[k]));
        let i = choose|i: int| 0 <= i < frame.names.len() && frame.names[i] == names[k];
        assert(waits(source, after, last, i, file));
    }
    if is_waiting(source, after, file) {
        let (i, k) = choose|i: int, k: int| waits(source, after, i, k, file);
        if i < last {
            assert(waits(source, frames, i, k, file));
        } else {
            assert(names.contains(frame.names[k]));
            let j = choose|j: int| 0 <= j < names.len() && names[j] == frame.names[k];
            assert(comes_from(source, frame.relative, frame.path, names[j], file));
        }
    }
}

proof fn lemma_left(source: Source, frames: Seq<FrameModel>, file: CapturedModel)
    requires
        frames.len() > 0,
        frames.last().next >= frames.last().names.len(),
    ensures
        is_waiting(source, frames, file) <==> is_waiting(source, frames.drop_last(), file),
{
    let before = frames.drop_last();
    if is_waiting(source, frames, file) {
        let (i, k) = choose|i: int, k: int| waits(source, frames, i, k, file);
        assert(waits(source, before, i, k, file));
    }
    if is_waiting(source, before, file) {
        let (i, k) = choose|i: int, k: int| waits(source, before, i, k, file);
        assert(waits(source, frames, i, k, file));
    }
}

proof fn lemma_step_keeps_what_is_owed(source: Source, model: WalkModel, file: CapturedModel)
    requires
        is_coherent(model),
    ensures
        match capture_walk::walk_after(model, answer(source, model)) {
            Progress::Next(next) => is_coherent(next) && is_owed(source, next, file) == is_owed(
                source,
                model,
                file,
            ),
            Progress::Done(files) => files.contains(file) == is_owed(source, model, file),
            Progress::Failed(_) => true,
        },
{
    match model.step {
        WalkStep::ListDirectory { relative, path, opened, initial } => {
            let names = source.names[path];
            if model.budget.visited_entries + names.len() <= MAX_CAPTURE_ENTRIES {
                let frame = FrameModel {
                    relative,
                    path,
                    opened: match opened {
                        Some(stat) => stat,
                        None => initial,
                    },
                    initial,
                    names: capture::sorted_names(names),
                    next: 0,
                };
                let listed = WalkModel {
                    frames: model.frames.push(frame),
                    budget: capture::CaptureBudget {
                        visited_entries: (model.budget.visited_entries + names.len()) as usize,
                        ..model.budget
                    },
                    ..model
                };
                lemma_sorted_names(names);
                lemma_listed(source, model.frames, frame, file);
                lemma_going_on(source, listed, file);
            }
        },
        WalkStep::Classify { entry: _ } => {
            lemma_going_on(source, model, file);
        },
        WalkStep::Observe { entry } => {
            lemma_at(source, entry.logical, entry.path, file);
        },
        WalkStep::BindFile { entry, opened: _, last: _, size, bytes } => {
            let found = CapturedEntry { path: entry.logical, bytes };
            let bound = WalkModel {
                budget: capture::CaptureBudget {
                    files: (model.budget.files + 1) as usize,
                    total_bytes: (model.budget.total_bytes + size) as u64,
                    ..model.budget
                },
                files: model.files.push(found),
                ..model
            };
            lemma_going_on(source, bound, file);
            assert(bound.files.contains(file) <==> model.files.contains(file) || file == found) by {
                assert(bound.files[model.files.len() as int] == found);
                if model.files.contains(file) {
                    let i = model.files.index_of(file);
                    assert(bound.files[i] == file);
                }
            }
        },
        WalkStep::ReinspectDirectory => {
            lemma_left(source, model.frames, file);
            if model.frames.len() == 1 {
                assert(!is_waiting(source, model.frames.drop_last(), file));
            }
        },
        WalkStep::BindChild { last: _ } => {
            let left = WalkModel { frames: model.frames.drop_last(), ..model };
            lemma_left(source, model.frames, file);
            lemma_going_on(source, left, file);
        },
        _ => {},
    }
}

proof fn lemma_walk_keeps_what_is_owed(
    source: Source,
    model: WalkModel,
    count: nat,
    files: Seq<CapturedModel>,
    file: CapturedModel,
)
    requires
        is_coherent(model),
        captured(source, model, count) == Some(files),
    ensures
        files.contains(file) <==> is_owed(source, model, file),
    decreases count,
{
    lemma_step_keeps_what_is_owed(source, model, file);
    match capture_walk::walk_after(model, answer(source, model)) {
        Progress::Next(next) => {
            lemma_walk_keeps_what_is_owed(source, next, (count - 1) as nat, files, file);
        },
        _ => {},
    }
}

/// Walking a source that stays as it is captures exactly its files: a file is among the captured
/// ones if and only if it is a regular file of the source or of a directory below it, with its
/// path in the pack and the bytes that it holds, where neither its name nor that of a directory
/// on the way is one of the tools, reserved, or left out by the manifest.
pub proof fn lemma_walking_captures_the_files_of_the_source(
    source: Source,
    root: Seq<u8>,
    count: nat,
    files: Seq<CapturedModel>,
    file: CapturedModel,
)
    requires
        captured(source, capture_walk::walk_start(root), count) == Some(files),
    ensures
        files.contains(file) <==> is_below(source, Seq::empty(), root, file),
{
    let start = capture_walk::walk_start(root);
    lemma_walk_keeps_what_is_owed(source, start, count, files, file);
    assert(!is_waiting(source, start.frames, file));
}

} // verus!
