//! Creating the missing directories above the state root, and the private root that later
//! gets the state root's name.

use vstd::prelude::*;

use crate::error::{DirectorySafetyIssue, EngineError};
use crate::git::object;
use crate::path;
use crate::path::path_components;
use crate::ports::SecureRandomPort;
use crate::seqs;
use crate::seqs::{bytes_equal, copy_bytes};
use crate::stat::{FileStat, PERMISSION_MASK};
use crate::state_root;
use crate::state_root::io_error;
use crate::store_steps;
use crate::store_steps::Progress;
use crate::store_types::StateDirectory;
use crate::text;
use crate::text::{concat4, lossy_text};

verus! {

/// The components that are names.
pub open spec fn named_components(list: Seq<Seq<u8>>) -> Seq<Seq<u8>>
    decreases list.len(),
{
    if list.len() == 0 {
        Seq::empty()
    } else {
        let before = named_components(list.drop_last());
        let last = list.last();
        if last == path::root_component() || last == path::current_component() || last
            == path::parent_component() {
            before
        } else {
            before.push(last)
        }
    }
}

/// Returns the names on the way from the file-system root to the state parent.
pub fn state_parent_leaves(parent: &[u8]) -> (leaves: Vec<Vec<u8>>)
    ensures
        seqs::views(leaves@) == named_components(path::components(parent@)),
{
    let list = path_components(parent);
    let ghost all = seqs::views(list@);
    let mut leaves: Vec<Vec<u8>> = Vec::new();
    let mut i: usize = 0;
    let current: [u8; 1] = [46];
    let above: [u8; 2] = [46, 46];
    proof {
        assert(all.take(0) =~= Seq::<Seq<u8>>::empty());
        assert(seqs::views(leaves@) =~= named_components(all.take(0)));
        assert(current@ =~= path::current_component());
        assert(above@ =~= path::parent_component());
    }
    while i < list.len()
        invariant
            i <= list.len(),
            all == seqs::views(list@),
            current@ == path::current_component(),
            above@ == path::parent_component(),
            seqs::views(leaves@) == named_components(all.take(i as int)),
        decreases list.len() - i,
    {
        let ghost before = leaves@;
        let piece = list[i].as_slice();
        proof {
            assert(all.take(i + 1).drop_last() =~= all.take(i as int));
            assert(all.take(i + 1).last() == piece@);
            if piece@.len() == 0 {
                assert(piece@ =~= path::root_component());
            }
        }
        if piece.len() != 0 && !bytes_equal(piece, current.as_slice()) && !bytes_equal(
            piece,
            above.as_slice(),
        ) {
            leaves.push(copy_bytes(piece));
            proof {
                assert(seqs::views(leaves@) =~= seqs::views(before).push(piece@));
            }
        }
        i = i + 1;
    }
    proof {
        assert(all.take(all.len() as int) =~= all);
    }
    leaves
}

/// A step of making sure that one directory above the state root exists.
#[derive(Clone, Copy, Debug, PartialEq, Eq, Structural)]
pub enum LeafStep {
    /// Open the directory: `Ok(false)` where it does not exist.
    Open,
    /// Check the directory in which it is missing.
    CheckAbove,
    /// Create the directory: `Ok(false)` where it exists by now.
    Create,
    /// Open the directory that was created.
    Pin { created: bool },
    /// Look at the directory that was created.
    Inspect { created: bool },
    /// Restrict the directory to its owner.
    Restrict,
    /// Check a directory that someone else created.
    Recheck,
    /// Check that the name still leads to the directory.
    Bind,
}

/// The first step for a directory: below a directory that was created nothing can exist.
pub open spec fn first_leaf_step(creating: bool) -> LeafStep {
    if creating {
        LeafStep::Create
    } else {
        LeafStep::Open
    }
}

/// Returns the first step for a directory.
pub fn start_leaf(creating: bool) -> (step: LeafStep)
    ensures
        step == first_leaf_step(creating),
{
    if creating {
        LeafStep::Create
    } else {
        LeafStep::Open
    }
}

/// What follows a step; at the end, whether directories are being created by now.
pub open spec fn leaf_after(
    step: LeafStep,
    reply: Result<bool, EngineError<Seq<char>, Seq<u8>>>,
    parent: Seq<u8>,
) -> Progress<LeafStep, bool, EngineError<Seq<char>, Seq<u8>>> {
    match reply {
        Err(error) => if step == LeafStep::CheckAbove && error is UnsafeDirectory {
            Progress::Failed(EngineError::StateParentMissing { path: parent })
        } else {
            Progress::Failed(error)
        },
        Ok(yes) => match step {
            LeafStep::Open => if yes {
                Progress::Done(false)
            } else {
                Progress::Next(LeafStep::CheckAbove)
            },
            LeafStep::CheckAbove => Progress::Next(LeafStep::Create),
            LeafStep::Create => Progress::Next(LeafStep::Pin { created: yes }),
            LeafStep::Pin { created } => Progress::Next(LeafStep::Inspect { created }),
            LeafStep::Inspect { created } => if !created {
                Progress::Next(LeafStep::Recheck)
            } else if yes {
                Progress::Next(LeafStep::Bind)
            } else {
                Progress::Next(LeafStep::Restrict)
            },
            LeafStep::Restrict => Progress::Next(LeafStep::Bind),
            LeafStep::Recheck => Progress::Next(LeafStep::Bind),
            LeafStep::Bind => Progress::Done(true),
        },
    }
}

impl LeafStep {
    /// Decides what follows this step. The reply to `Inspect` tells whether the mode is
    /// already private.
    pub fn after(self, reply: Result<bool, EngineError>, parent: &[u8]) -> (progress: Progress<
        LeafStep,
        bool,
    >)
        ensures
            store_steps::progress_view(progress) == leaf_after(
                self,
                store_steps::reply_view(reply),
                parent@,
            ),
    {
        let yes = match reply {
            Ok(yes) => yes,
            Err(error) => {
                let is_unsafe = match &error {
                    EngineError::UnsafeDirectory { .. } => true,
                    _ => false,
                };
                return match self {
                    LeafStep::CheckAbove if is_unsafe => Progress::Failed(
                        EngineError::StateParentMissing { path: copy_bytes(parent) },
                    ),
                    _ => Progress::Failed(error),
                };
            },
        };
        match self {
            LeafStep::Open => {
                if yes {
                    Progress::Done(false)
                } else {
                    Progress::Next(LeafStep::CheckAbove)
                }
            },
            LeafStep::CheckAbove => Progress::Next(LeafStep::Create),
            LeafStep::Create => Progress::Next(LeafStep::Pin { created: yes }),
            LeafStep::Pin { created } => Progress::Next(LeafStep::Inspect { created }),
            LeafStep::Inspect { created } => {
                if !created {
                    Progress::Next(LeafStep::Recheck)
                } else if yes {
                    Progress::Next(LeafStep::Bind)
                } else {
                    Progress::Next(LeafStep::Restrict)
                }
            },
            LeafStep::Restrict => Progress::Next(LeafStep::Bind),
            LeafStep::Recheck => Progress::Next(LeafStep::Bind),
            LeafStep::Bind => Progress::Done(true),
        }
    }
}

/// Checks the owner of a directory above the state root, and tells whether its mode is
/// already private.
pub fn inspect_created_leaf(stat: &FileStat, parent: &[u8], expected_user_id: u32) -> (private:
    Result<bool, EngineError>)
    ensures
        store_steps::reply_view(private) == if stat.uid != expected_user_id {
            Err(
                state_root::unsafe_directory(
                    StateDirectory::StateParent,
                    parent@,
                    DirectorySafetyIssue::WrongOwner {
                        expected_uid: expected_user_id,
                        actual_uid: stat.uid,
                    },
                ),
            )
        } else {
            Ok(stat.mode & PERMISSION_MASK == 0o700)
        },
{
    if stat.uid != expected_user_id {
        return Err(
            EngineError::UnsafeDirectory {
                directory: StateDirectory::StateParent,
                path: copy_bytes(parent),
                reason: DirectorySafetyIssue::WrongOwner {
                    expected_uid: expected_user_id,
                    actual_uid: stat.uid,
                },
            },
        );
    }
    Ok(stat.permissions() == 0o700)
}

/// How far the work on one directory has come.
pub open spec fn leaf_rank(step: LeafStep) -> nat {
    match step {
        LeafStep::Open => 0,
        LeafStep::CheckAbove => 1,
        LeafStep::Create => 2,
        LeafStep::Pin { .. } => 3,
        LeafStep::Inspect { .. } => 4,
        LeafStep::Restrict => 5,
        LeafStep::Recheck => 5,
        LeafStep::Bind => 6,
    }
}

/// The work on one directory never goes back, and nothing is created before the directory
/// above has been checked: below an unsafe one the state parent is called missing.
pub proof fn lemma_creation_follows_a_check(
    step: LeafStep,
    reply: Result<bool, EngineError<Seq<char>, Seq<u8>>>,
    parent: Seq<u8>,
)
    ensures
        leaf_after(step, reply, parent) matches Progress::Next(next) ==> leaf_rank(step)
            < leaf_rank(next),
        leaf_after(step, reply, parent) == Progress::<
            LeafStep,
            bool,
            EngineError<Seq<char>, Seq<u8>>,
        >::Next(LeafStep::Create) ==> step == LeafStep::CheckAbove && reply is Ok,
        reply matches Err(error) && error is UnsafeDirectory ==> leaf_after(
            LeafStep::CheckAbove,
            reply,
            parent,
        ) == Progress::<LeafStep, bool, EngineError<Seq<char>, Seq<u8>>>::Failed(
            EngineError::StateParentMissing { path: parent },
        ),
{
}

/// How many private names are tried.
pub const MAX_STAGING_ATTEMPTS: u8 = 32;

/// `hex::encode`: two lowercase hexadecimal digits for each byte, the high half first.
#[verifier::external_body]
fn hex_encoded(bytes: &[u8]) -> (encoded: String)
    ensures
        encoded@ == object::hex_text(bytes@),
{
    hex::encode(bytes)
}

/// The private name of a root that is being prepared.
pub open spec fn staging_name(leaf: Seq<u8>, random: Seq<u8>) -> Seq<char> {
    "."@ + text::utf8_lossy(leaf) + ".init-"@ + object::hex_text(random)
}

/// Builds the private name of a root that is being prepared.
pub fn staging_leaf(leaf: &[u8], random: &[u8]) -> (name: String)
    ensures
        name@ == staging_name(leaf@, random@),
{
    let shown = lossy_text(leaf);
    let digits = hex_encoded(random);
    concat4(".", shown.as_str(), ".init-", digits.as_str())
}

/// Two private names for one leaf are the same only where their random bytes are.
pub proof fn lemma_staging_names_differ(leaf: Seq<u8>, left: Seq<u8>, right: Seq<u8>)
    requires
        left.len() == right.len(),
    ensures
        staging_name(leaf, left) == staging_name(leaf, right) ==> left == right,
{
    let head = "."@ + text::utf8_lossy(leaf) + ".init-"@;
    if staging_name(leaf, left) == staging_name(leaf, right) {
        let a = object::hex_text(left);
        let b = object::hex_text(right);
        assert forall|i: int| 0 <= i < a.len() implies a[i] == b[i] by {
            assert((head + a)[head.len() + i] == a[i]);
            assert((head + b)[head.len() + i] == b[i]);
        }
        assert(a =~= b);
        object::lemma_hex_text_injective(left, right);
    }
}

/// Draws sixteen random bytes and builds a private name from them; where the source fails, its
/// failure is reported.
pub fn fresh_staging_leaf<R: SecureRandomPort>(random: &R, leaf: &[u8], root: &[u8]) -> (name:
    Result<String, EngineError>)
    ensures
        match name {
            Ok(name) => exists|buffer: &mut [u8], outcome: Result<(), String>|
                (*buffer)@.len() == 16 && (*final(buffer))@.len() == 16 && outcome is Ok
                    && #[trigger] call_ensures(R::fill, (random, buffer), outcome) && name@
                    == staging_name(leaf@, (*final(buffer))@),
            Err(error) => exists|buffer: &mut [u8], detail: String|
                (*buffer)@.len() == 16 && #[trigger] call_ensures(
                    R::fill,
                    (random, buffer),
                    Err(detail),
                ) && error@ == state_root::io_failure(
                    "generate private state-root staging name"@,
                    root@,
                    detail@,
                ),
        },
{
    let mut bytes: [u8; 16] = [0; 16];
    match random.fill(&mut bytes) {
        Ok(_) => Ok(staging_leaf(leaf, bytes.as_slice())),
        Err(detail) => Err(
            io_error("generate private state-root staging name", root, detail.as_str()),
        ),
    }
}

/// A step of preparing a private root; `E` is the type of errors.
#[derive(Debug)]
pub enum StagingStep<E = EngineError> {
    /// Create a directory under a fresh name: `Ok(false)` where the name is taken.
    Create { attempt: u8 },
    /// Open the new directory: `Ok(false)` where it is gone.
    Pin,
    /// Check that the name leads to the new directory.
    Bind,
    /// Check the new directory.
    Check,
    /// Remove the new directory, since it is not safe.
    Discard(E),
}

impl View for StagingStep<EngineError> {
    type V = StagingStep<EngineError<Seq<char>, Seq<u8>>>;

    open spec fn view(&self) -> StagingStep<EngineError<Seq<char>, Seq<u8>>> {
        match *self {
            StagingStep::Create { attempt } => StagingStep::Create { attempt },
            StagingStep::Pin => StagingStep::Pin,
            StagingStep::Bind => StagingStep::Bind,
            StagingStep::Check => StagingStep::Check,
            StagingStep::Discard(error) => StagingStep::Discard(error@),
        }
    }
}

/// Progress of preparing a private root, as contracts speak of it.
pub open spec fn staging_view(progress: Progress<StagingStep, ()>) -> Progress<
    StagingStep<EngineError<Seq<char>, Seq<u8>>>,
    (),
    EngineError<Seq<char>, Seq<u8>>,
> {
    match progress {
        Progress::Next(step) => Progress::Next(step@),
        Progress::Done(_) => Progress::Done(()),
        Progress::Failed(error) => Progress::Failed(error@),
    }
}

/// What follows a step of preparing a private root.
pub open spec fn staging_after(
    step: StagingStep<EngineError<Seq<char>, Seq<u8>>>,
    reply: Result<bool, EngineError<Seq<char>, Seq<u8>>>,
    root: Seq<u8>,
) -> Progress<
    StagingStep<EngineError<Seq<char>, Seq<u8>>>,
    (),
    EngineError<Seq<char>, Seq<u8>>,
> {
    match reply {
        Err(error) => if step is Check {
            Progress::Next(StagingStep::Discard(error))
        } else {
            Progress::Failed(error)
        },
        Ok(yes) => match step {
            StagingStep::Create { attempt } => if yes {
                Progress::Next(StagingStep::Pin)
            } else if attempt + 1 < MAX_STAGING_ATTEMPTS {
                Progress::Next(StagingStep::Create { attempt: (attempt + 1) as u8 })
            } else {
                Progress::Failed(
                    state_root::io_failure(
                        "allocate private state-root staging name"@,
                        root,
                        "exhausted random staging-name attempts"@,
                    ),
                )
            },
            StagingStep::Pin => if yes {
                Progress::Next(StagingStep::Bind)
            } else {
                Progress::Failed(EngineError::RootObservationChanged { path: root })
            },
            StagingStep::Bind => Progress::Next(StagingStep::Check),
            StagingStep::Check => Progress::Done(()),
            StagingStep::Discard(error) => Progress::Failed(error),
        },
    }
}

impl StagingStep {
    /// Decides what follows this step.
    pub fn after(self, reply: Result<bool, EngineError>, root: &[u8]) -> (progress: Progress<
        StagingStep,
        (),
    >)
        ensures
            staging_view(progress) == staging_after(self@, store_steps::reply_view(reply), root@),
    {
        let yes = match reply {
            Err(error) => {
                return match self {
                    StagingStep::Check => Progress::Next(StagingStep::Discard(error)),
                    _ => Progress::Failed(error),
                };
            },
            Ok(yes) => yes,
        };
        match self {
            StagingStep::Create { attempt } => {
                if yes {
                    Progress::Next(StagingStep::Pin)
                } else if attempt < MAX_STAGING_ATTEMPTS - 1 {
                    Progress::Next(StagingStep::Create { attempt: attempt + 1 })
                } else {
                    Progress::Failed(
                        io_error(
                            "allocate private state-root staging name",
                            root,
                            "exhausted random staging-name attempts",
                        ),
                    )
                }
            },
            StagingStep::Pin => {
                if yes {
                    Progress::Next(StagingStep::Bind)
                } else {
                    Progress::Failed(
                        EngineError::RootObservationChanged { path: copy_bytes(root) },
                    )
                }
            },
            StagingStep::Bind => Progress::Next(StagingStep::Check),
            StagingStep::Check => Progress::Done(()),
            StagingStep::Discard(error) => Progress::Failed(error),
        }
    }
}

/// A private root is handed out only after it passed the checks, and one that did not is
/// removed before its problem is reported.
pub proof fn lemma_staged_root_is_checked_or_removed(
    step: StagingStep<EngineError<Seq<char>, Seq<u8>>>,
    reply: Result<bool, EngineError<Seq<char>, Seq<u8>>>,
    root: Seq<u8>,
)
    ensures
        staging_after(step, reply, root) is Done ==> step is Check && reply is Ok,
        step is Check && reply is Err ==> staging_after(step, reply, root) == Progress::<
            StagingStep<EngineError<Seq<char>, Seq<u8>>>,
            (),
            EngineError<Seq<char>, Seq<u8>>,
        >::Next(StagingStep::Discard(reply->Err_0)),
{
}

/// Each step of opening or creating the last directory of a parent comes after the one that it
/// rests on, and none is left out. A failed step ends it; a directory above it that is unsafe is
/// told as a missing parent.
pub proof fn lemma_leaf_steps_follow_one_another(
    step: LeafStep,
    reply: Result<bool, EngineError<Seq<char>, Seq<u8>>>,
    parent: Seq<u8>,
)
    ensures
        match leaf_after(step, reply, parent) {
            Progress::Next(next) => match next {
                LeafStep::Open => false,
                LeafStep::CheckAbove => step is Open && (reply matches Ok(yes) && !yes),
                LeafStep::Create => step is CheckAbove && reply is Ok,
                LeafStep::Pin {
                    created } => reply == Ok::<bool, EngineError<Seq<char>, Seq<u8>>>(created)
                    && step is Create && reply is Ok,
                LeafStep::Inspect { created } => step == LeafStep::Pin { created } && reply is Ok,
                LeafStep::Restrict => step == LeafStep::Inspect { created: true }
                    && (reply matches Ok(yes) && !yes),
                LeafStep::Recheck => step == LeafStep::Inspect { created: false } && reply is Ok,
                LeafStep::Bind => (step == LeafStep::Inspect { created: true }
                    && (reply matches Ok(yes) && yes)) || (step is Restrict && reply is Ok)
                    || (step is Recheck && reply is Ok),
            },
            Progress::Done(true) => step is Bind && reply is Ok,
            Progress::Done(false) => step is Open && (reply matches Ok(yes) && yes),
            Progress::Failed(error) => reply matches Err(told) && error == (if step is CheckAbove
                && told is UnsafeDirectory { EngineError::StateParentMissing {
                path: parent } } else { told }),
        },
{
}

/// The named components of a path are all its components, in their order, but for the root and
/// the ones that stay or go up.
pub proof fn lemma_named_components_are_the_names(
    list: Seq<Seq<u8>>,
    is_named: spec_fn(Seq<u8>) -> bool,
)
    requires
        forall|piece: Seq<u8>| #[trigger]
            is_named(piece) == (piece != Seq::<u8>::empty() && piece != seq![46u8] && piece != seq![
                46u8,
                46u8,
            ]),
    ensures
        named_components(list) == list.filter(is_named),
    decreases list.len(),
{
    reveal(Seq::filter);
    if list.len() > 0 {
        lemma_named_components_are_the_names(list.drop_last(), is_named);
        let last = list.last();
        assert(is_named(last) == (last != Seq::<u8>::empty() && last != seq![46u8] && last != seq![
            46u8,
            46u8,
        ]));
    }
}

} // verus!
