//! The order in which the state root is inspected, opened and initialized.
//!
//! Each operation is a sequence of steps. The caller performs the current step and reports
//! how it went: `Ok(true)` or `Ok(false)` where the step has two good outcomes, any `Ok` where
//! it has one, and `Err` where it failed.

use vstd::prelude::*;

use crate::error::{EngineError, StoreMetadataIssue};
use crate::path;
use crate::seqs::copy_bytes;
use crate::state_root;
use crate::state_root::{marker_path, metadata_error};
use crate::store_types::{InitializeStoreOutcome, StoreAccess, StoreStatus};

verus! {

/// Where an operation stands after a step.
#[derive(Debug)]
pub enum Progress<S, D, E = EngineError> {
    /// Another step follows.
    Next(S),
    /// The operation is complete.
    Done(D),
    /// The operation failed.
    Failed(E),
}

/// How a step went, as contracts speak of it.
pub open spec fn reply_view(reply: Result<bool, EngineError>) -> Result<
    bool,
    EngineError<Seq<char>, Seq<u8>>,
> {
    match reply {
        Ok(value) => Ok(value),
        Err(error) => Err(error@),
    }
}

/// Where an operation starts that needs a store that may be written.
pub open spec fn if_writable<S, D>(access: StoreAccess, first: S) -> Progress<
    S,
    D,
    EngineError<Seq<char>, Seq<u8>>,
> {
    if access == StoreAccess::ReadWrite {
        Progress::Next(first)
    } else {
        Progress::Failed(EngineError::ReadOnlyStore)
    }
}

/// What is reported of progress that may have failed.
pub open spec fn progress_view<S, D>(progress: Progress<S, D>) -> Progress<
    S,
    D,
    EngineError<Seq<char>, Seq<u8>>,
> {
    match progress {
        Progress::Next(step) => Progress::Next(step),
        Progress::Done(result) => Progress::Done(result),
        Progress::Failed(error) => Progress::Failed(error@),
    }
}

/// A step of telling the status of the store.
#[derive(Clone, Copy, Debug, PartialEq, Eq, Structural)]
pub enum StatusStep {
    /// Open the state parent: `Ok(false)` where it does not exist.
    OpenParent,
    /// Check the state parent.
    CheckParent,
    /// Check that the state parent is still where it was.
    BindParent,
    /// Open the state root: `Ok(false)` where it does not exist.
    OpenRoot,
    /// Check, before the root is called absent, that the parent is still where it was.
    BindParentOfAbsent,
    /// Check the state root.
    CheckRoot,
    /// Check that the state root is still where it was.
    BindRoot,
    /// Open the state root for reading.
    OpenRootIo,
    /// Inspect the root: `Ok(true)` where it has a descriptor.
    Inspect,
    /// Check the state root once more.
    RecheckRoot(StoreStatus),
    /// Check once more that the state root is still where it was.
    RebindRoot(StoreStatus),
    /// Check the state parent once more.
    RecheckParent(StoreStatus),
    /// Check once more that the state parent is still where it was.
    RebindParent(StoreStatus),
}

/// What follows a step of telling the status of the store.
pub open spec fn status_after(
    step: StatusStep,
    reply: Result<bool, EngineError<Seq<char>, Seq<u8>>>,
) -> Progress<StatusStep, StoreStatus, EngineError<Seq<char>, Seq<u8>>> {
    match reply {
        Err(error) => Progress::Failed(error),
        Ok(yes) => match step {
            StatusStep::OpenParent => if yes {
                Progress::Next(StatusStep::CheckParent)
            } else {
                Progress::Done(StoreStatus::Absent)
            },
            StatusStep::CheckParent => Progress::Next(StatusStep::BindParent),
            StatusStep::BindParent => Progress::Next(StatusStep::OpenRoot),
            StatusStep::OpenRoot => if yes {
                Progress::Next(StatusStep::CheckRoot)
            } else {
                Progress::Next(StatusStep::BindParentOfAbsent)
            },
            StatusStep::BindParentOfAbsent => Progress::Done(StoreStatus::Absent),
            StatusStep::CheckRoot => Progress::Next(StatusStep::BindRoot),
            StatusStep::BindRoot => Progress::Next(StatusStep::OpenRootIo),
            StatusStep::OpenRootIo => Progress::Next(StatusStep::Inspect),
            StatusStep::Inspect => if yes {
                Progress::Next(StatusStep::RecheckRoot(StoreStatus::Ready))
            } else {
                Progress::Next(StatusStep::RecheckRoot(StoreStatus::Uninitialized))
            },
            StatusStep::RecheckRoot(status) => Progress::Next(StatusStep::RebindRoot(status)),
            StatusStep::RebindRoot(status) => Progress::Next(StatusStep::RecheckParent(status)),
            StatusStep::RecheckParent(status) => Progress::Next(
                StatusStep::RebindParent(status),
            ),
            StatusStep::RebindParent(status) => Progress::Done(status),
        },
    }
}

impl StatusStep {
    /// Decides what follows this step.
    pub fn after(self, reply: Result<bool, EngineError>) -> (progress: Progress<
        StatusStep,
        StoreStatus,
    >)
        ensures
            progress_view(progress) == status_after(self, reply_view(reply)),
    {
        let yes = match reply {
            Err(error) => {
                return Progress::Failed(error);
            },
            Ok(yes) => yes,
        };
        match self {
            StatusStep::OpenParent => {
                if yes {
                    Progress::Next(StatusStep::CheckParent)
                } else {
                    Progress::Done(StoreStatus::Absent)
                }
            },
            StatusStep::CheckParent => Progress::Next(StatusStep::BindParent),
            StatusStep::BindParent => Progress::Next(StatusStep::OpenRoot),
            StatusStep::OpenRoot => {
                if yes {
                    Progress::Next(StatusStep::CheckRoot)
                } else {
                    Progress::Next(StatusStep::BindParentOfAbsent)
                }
            },
            StatusStep::BindParentOfAbsent => Progress::Done(StoreStatus::Absent),
            StatusStep::CheckRoot => Progress::Next(StatusStep::BindRoot),
            StatusStep::BindRoot => Progress::Next(StatusStep::OpenRootIo),
            StatusStep::OpenRootIo => Progress::Next(StatusStep::Inspect),
            StatusStep::Inspect => {
                if yes {
                    Progress::Next(StatusStep::RecheckRoot(StoreStatus::Ready))
                } else {
                    Progress::Next(StatusStep::RecheckRoot(StoreStatus::Uninitialized))
                }
            },
            StatusStep::RecheckRoot(status) => Progress::Next(StatusStep::RebindRoot(status)),
            StatusStep::RebindRoot(status) => Progress::Next(StatusStep::RecheckParent(status)),
            StatusStep::RecheckParent(status) => Progress::Next(
                StatusStep::RebindParent(status),
            ),
            StatusStep::RebindParent(status) => Progress::Done(status),
        }
    }
}

/// A step of initializing the store; `E` is the type of errors.
#[derive(Debug)]
pub enum InitializeStep<E = EngineError> {
    /// Open the state parent: `Ok(false)` where it does not exist.
    OpenParent,
    /// Create the missing directories above the state root.
    CreateParent,
    /// Open the state parent: `Ok(false)` where it still does not exist.
    ReopenParent,
    /// Check the state parent.
    CheckParent,
    /// Check that the state parent is still where it was.
    BindParent,
    /// Open the state root: `Ok(false)` where it does not exist.
    OpenRoot,
    /// Check the state parent before anything is created in it.
    CheckParentBeforeStaging,
    /// Check, before anything is created, that the state parent is still where it was.
    BindParentBeforeStaging,
    /// Create an empty private root under a name of its own.
    Stage,
    /// Check that the private name leads to the private root.
    BindStaged,
    /// Check, before the root gets its name, that the parent is still where it was.
    BindParentBeforePublishing,
    /// Rename the private root: `Ok(false)` where the state root's name is taken.
    PublishRoot,
    /// Check that the state root's name leads to the new root.
    BindPublished,
    /// Check once more that the state root's name leads to the new root.
    RebindPublished,
    /// Remove the private root, since another state root was there first.
    DiscardForWinner,
    /// Open the state root that was there first: `Ok(false)` where it is gone.
    OpenWinner,
    /// Remove the private root, since it could not be renamed.
    DiscardForFailure(E),
    /// Check the state root.
    CheckRoot,
    /// Check that the state root is still where it was.
    BindRoot,
    /// Open the state root for reading and writing.
    OpenRootIo,
    /// Inspect the root: `Ok(true)` where it has a descriptor.
    Inspect,
    /// Check, before the descriptor is written, that the parent is still where it was.
    BindParentBeforeDescriptor,
    /// Check, before the descriptor is written, that the root is still where it was.
    BindRootBeforeDescriptor,
    /// Publish the store descriptor.
    PublishDescriptor,
    /// Initialize the state catalog.
    InitializeCatalog,
    /// Make the state root durable.
    SyncRoot,
    /// Make the state parent durable.
    SyncParent,
    /// Inspect the root: `Ok(true)` where it has a descriptor.
    FinalInspect,
    /// Check the state root once more.
    FinalCheckRoot,
    /// Check once more that the state root is still where it was.
    FinalBindRoot,
    /// Check the state parent once more.
    FinalCheckParent,
    /// Check once more that the state parent is still where it was.
    FinalBindParent,
}

impl View for InitializeStep<EngineError> {
    type V = InitializeStep<EngineError<Seq<char>, Seq<u8>>>;

    open spec fn view(&self) -> InitializeStep<EngineError<Seq<char>, Seq<u8>>> {
        match *self {
            InitializeStep::OpenParent => InitializeStep::OpenParent,
            InitializeStep::CreateParent => InitializeStep::CreateParent,
            InitializeStep::ReopenParent => InitializeStep::ReopenParent,
            InitializeStep::CheckParent => InitializeStep::CheckParent,
            InitializeStep::BindParent => InitializeStep::BindParent,
            InitializeStep::OpenRoot => InitializeStep::OpenRoot,
            InitializeStep::CheckParentBeforeStaging => InitializeStep::CheckParentBeforeStaging,
            InitializeStep::BindParentBeforeStaging => InitializeStep::BindParentBeforeStaging,
            InitializeStep::Stage => InitializeStep::Stage,
            InitializeStep::BindStaged => InitializeStep::BindStaged,
            InitializeStep::BindParentBeforePublishing => InitializeStep::BindParentBeforePublishing,
            InitializeStep::PublishRoot => InitializeStep::PublishRoot,
            InitializeStep::BindPublished => InitializeStep::BindPublished,
            InitializeStep::RebindPublished => InitializeStep::RebindPublished,
            InitializeStep::DiscardForWinner => InitializeStep::DiscardForWinner,
            InitializeStep::OpenWinner => InitializeStep::OpenWinner,
            InitializeStep::DiscardForFailure(error) => InitializeStep::DiscardForFailure(error@),
            InitializeStep::CheckRoot => InitializeStep::CheckRoot,
            InitializeStep::BindRoot => InitializeStep::BindRoot,
            InitializeStep::OpenRootIo => InitializeStep::OpenRootIo,
            InitializeStep::Inspect => InitializeStep::Inspect,
            InitializeStep::BindParentBeforeDescriptor => InitializeStep::BindParentBeforeDescriptor,
            InitializeStep::BindRootBeforeDescriptor => InitializeStep::BindRootBeforeDescriptor,
            InitializeStep::PublishDescriptor => InitializeStep::PublishDescriptor,
            InitializeStep::InitializeCatalog => InitializeStep::InitializeCatalog,
            InitializeStep::SyncRoot => InitializeStep::SyncRoot,
            InitializeStep::SyncParent => InitializeStep::SyncParent,
            InitializeStep::FinalInspect => InitializeStep::FinalInspect,
            InitializeStep::FinalCheckRoot => InitializeStep::FinalCheckRoot,
            InitializeStep::FinalBindRoot => InitializeStep::FinalBindRoot,
            InitializeStep::FinalCheckParent => InitializeStep::FinalCheckParent,
            InitializeStep::FinalBindParent => InitializeStep::FinalBindParent,
        }
    }
}

/// Progress of an initialization, as contracts speak of it.
pub open spec fn initialize_view(
    progress: Progress<InitializeStep, InitializeStoreOutcome>,
) -> Progress<
    InitializeStep<EngineError<Seq<char>, Seq<u8>>>,
    StoreStatus,
    EngineError<Seq<char>, Seq<u8>>,
> {
    match progress {
        Progress::Next(step) => Progress::Next(step@),
        Progress::Done(outcome) => Progress::Done(outcome.reached()),
        Progress::Failed(error) => Progress::Failed(error@),
    }
}

/// Where an initialization starts: a store that may not be written is left alone.
pub open spec fn initialize_start(access: StoreAccess) -> Progress<
    InitializeStep<EngineError<Seq<char>, Seq<u8>>>,
    StoreStatus,
    EngineError<Seq<char>, Seq<u8>>,
> {
    if access == StoreAccess::ReadWrite {
        Progress::Next(InitializeStep::OpenParent)
    } else {
        Progress::Failed(EngineError::ReadOnlyStore)
    }
}

/// What follows a step of initializing the store.
pub open spec fn initialize_after(
    step: InitializeStep<EngineError<Seq<char>, Seq<u8>>>,
    reply: Result<bool, EngineError<Seq<char>, Seq<u8>>>,
    parent: Seq<u8>,
    root: Seq<u8>,
) -> Progress<
    InitializeStep<EngineError<Seq<char>, Seq<u8>>>,
    StoreStatus,
    EngineError<Seq<char>, Seq<u8>>,
> {
    match reply {
        Err(error) => if step is PublishRoot {
            Progress::Next(InitializeStep::DiscardForFailure(error))
        } else {
            Progress::Failed(error)
        },
        Ok(yes) => match step {
            InitializeStep::OpenParent => if yes {
                Progress::Next(InitializeStep::CheckParent)
            } else {
                Progress::Next(InitializeStep::CreateParent)
            },
            InitializeStep::CreateParent => Progress::Next(InitializeStep::ReopenParent),
            InitializeStep::ReopenParent => if yes {
                Progress::Next(InitializeStep::CheckParent)
            } else {
                Progress::Failed(EngineError::StateParentObservationChanged { path: parent })
            },
            InitializeStep::CheckParent => Progress::Next(InitializeStep::BindParent),
            InitializeStep::BindParent => Progress::Next(InitializeStep::OpenRoot),
            InitializeStep::OpenRoot => if yes {
                Progress::Next(InitializeStep::CheckRoot)
            } else {
                Progress::Next(InitializeStep::CheckParentBeforeStaging)
            },
            InitializeStep::CheckParentBeforeStaging => Progress::Next(InitializeStep::BindParentBeforeStaging),
            InitializeStep::BindParentBeforeStaging => Progress::Next(InitializeStep::Stage),
            InitializeStep::Stage => Progress::Next(InitializeStep::BindStaged),
            InitializeStep::BindStaged => Progress::Next(InitializeStep::BindParentBeforePublishing),
            InitializeStep::BindParentBeforePublishing => Progress::Next(InitializeStep::PublishRoot),
            InitializeStep::PublishRoot => if yes {
                Progress::Next(InitializeStep::BindPublished)
            } else {
                Progress::Next(InitializeStep::DiscardForWinner)
            },
            InitializeStep::BindPublished => Progress::Next(InitializeStep::RebindPublished),
            InitializeStep::RebindPublished => Progress::Next(InitializeStep::CheckRoot),
            InitializeStep::DiscardForWinner => Progress::Next(InitializeStep::OpenWinner),
            InitializeStep::OpenWinner => if yes {
                Progress::Next(InitializeStep::CheckRoot)
            } else {
                Progress::Failed(EngineError::RootObservationChanged { path: root })
            },
            InitializeStep::DiscardForFailure(error) => Progress::Failed(error),
            InitializeStep::CheckRoot => Progress::Next(InitializeStep::BindRoot),
            InitializeStep::BindRoot => Progress::Next(InitializeStep::OpenRootIo),
            InitializeStep::OpenRootIo => Progress::Next(InitializeStep::Inspect),
            InitializeStep::Inspect => if yes {
                Progress::Next(InitializeStep::InitializeCatalog)
            } else {
                Progress::Next(InitializeStep::BindParentBeforeDescriptor)
            },
            InitializeStep::BindParentBeforeDescriptor => Progress::Next(InitializeStep::BindRootBeforeDescriptor),
            InitializeStep::BindRootBeforeDescriptor => Progress::Next(InitializeStep::PublishDescriptor),
            InitializeStep::PublishDescriptor => Progress::Next(InitializeStep::InitializeCatalog),
            InitializeStep::InitializeCatalog => Progress::Next(InitializeStep::SyncRoot),
            InitializeStep::SyncRoot => Progress::Next(InitializeStep::SyncParent),
            InitializeStep::SyncParent => Progress::Next(InitializeStep::FinalInspect),
            InitializeStep::FinalInspect => if yes {
                Progress::Next(InitializeStep::FinalCheckRoot)
            } else {
                Progress::Failed(state_root::metadata_failure(
                path::joined(root, state_root::marker_name()),
                StoreMetadataIssue::ObservationChanged,
            ))
            },
            InitializeStep::FinalCheckRoot => Progress::Next(InitializeStep::FinalBindRoot),
            InitializeStep::FinalBindRoot => Progress::Next(InitializeStep::FinalCheckParent),
            InitializeStep::FinalCheckParent => Progress::Next(InitializeStep::FinalBindParent),
            InitializeStep::FinalBindParent => Progress::Done(StoreStatus::Ready),
        },
    }
}

/// Starts initializing the store.
pub fn start_initialization(access: StoreAccess) -> (progress: Progress<
    InitializeStep,
    InitializeStoreOutcome,
>)
    ensures
        initialize_view(progress) == initialize_start(access),
{
    match access {
        StoreAccess::ReadWrite => Progress::Next(InitializeStep::OpenParent),
        _ => Progress::Failed(EngineError::ReadOnlyStore),
    }
}

impl InitializeStep {
    /// Decides what follows this step.
    pub fn after(self, reply: Result<bool, EngineError>, parent: &[u8], root: &[u8]) -> (progress:
        Progress<InitializeStep, InitializeStoreOutcome>)
        ensures
            initialize_view(progress) == initialize_after(
                self@,
                reply_view(reply),
                parent@,
                root@,
            ),
    {
        let yes = match reply {
            Err(error) => {
                return match self {
                    InitializeStep::PublishRoot => Progress::Next(
                        InitializeStep::DiscardForFailure(error),
                    ),
                    _ => Progress::Failed(error),
                };
            },
            Ok(yes) => yes,
        };
        match self {
            InitializeStep::OpenParent => if yes {
                Progress::Next(InitializeStep::CheckParent)
            } else {
                Progress::Next(InitializeStep::CreateParent)
            },
            InitializeStep::CreateParent => Progress::Next(InitializeStep::ReopenParent),
            InitializeStep::ReopenParent => if yes {
                Progress::Next(InitializeStep::CheckParent)
            } else {
                Progress::Failed(EngineError::StateParentObservationChanged { path: copy_bytes(parent) })
            },
            InitializeStep::CheckParent => Progress::Next(InitializeStep::BindParent),
            InitializeStep::BindParent => Progress::Next(InitializeStep::OpenRoot),
            InitializeStep::OpenRoot => if yes {
                Progress::Next(InitializeStep::CheckRoot)
            } else {
                Progress::Next(InitializeStep::CheckParentBeforeStaging)
            },
            InitializeStep::CheckParentBeforeStaging => Progress::Next(InitializeStep::BindParentBeforeStaging),
            InitializeStep::BindParentBeforeStaging => Progress::Next(InitializeStep::Stage),
            InitializeStep::Stage => Progress::Next(InitializeStep::BindStaged),
            InitializeStep::BindStaged => Progress::Next(InitializeStep::BindParentBeforePublishing),
            InitializeStep::BindParentBeforePublishing => Progress::Next(InitializeStep::PublishRoot),
            InitializeStep::PublishRoot => if yes {
                Progress::Next(InitializeStep::BindPublished)
            } else {
                Progress::Next(InitializeStep::DiscardForWinner)
            },
            InitializeStep::BindPublished => Progress::Next(InitializeStep::RebindPublished),
            InitializeStep::RebindPublished => Progress::Next(InitializeStep::CheckRoot),
            InitializeStep::DiscardForWinner => Progress::Next(InitializeStep::OpenWinner),
            InitializeStep::OpenWinner => if yes {
                Progress::Next(InitializeStep::CheckRoot)
            } else {
                Progress::Failed(EngineError::RootObservationChanged { path: copy_bytes(root) })
            },
            InitializeStep::DiscardForFailure(error) => Progress::Failed(error),
            InitializeStep::CheckRoot => Progress::Next(InitializeStep::BindRoot),
            InitializeStep::BindRoot => Progress::Next(InitializeStep::OpenRootIo),
            InitializeStep::OpenRootIo => Progress::Next(InitializeStep::Inspect),
            InitializeStep::Inspect => if yes {
                Progress::Next(InitializeStep::InitializeCatalog)
            } else {
                Progress::Next(InitializeStep::BindParentBeforeDescriptor)
            },
            InitializeStep::BindParentBeforeDescriptor => Progress::Next(InitializeStep::BindRootBeforeDescriptor),
            InitializeStep::BindRootBeforeDescriptor => Progress::Next(InitializeStep::PublishDescriptor),
            InitializeStep::PublishDescriptor => Progress::Next(InitializeStep::InitializeCatalog),
            InitializeStep::InitializeCatalog => Progress::Next(InitializeStep::SyncRoot),
            InitializeStep::SyncRoot => Progress::Next(InitializeStep::SyncParent),
            InitializeStep::SyncParent => Progress::Next(InitializeStep::FinalInspect),
            InitializeStep::FinalInspect => if yes {
                Progress::Next(InitializeStep::FinalCheckRoot)
            } else {
                Progress::Failed(metadata_error(marker_path(root).as_slice(), StoreMetadataIssue::ObservationChanged))
            },
            InitializeStep::FinalCheckRoot => Progress::Next(InitializeStep::FinalBindRoot),
            InitializeStep::FinalBindRoot => Progress::Next(InitializeStep::FinalCheckParent),
            InitializeStep::FinalCheckParent => Progress::Next(InitializeStep::FinalBindParent),
            InitializeStep::FinalBindParent => Progress::Done(InitializeStoreOutcome::ready()),
        }
    }
}

/// A step of opening a store that is ready.
#[derive(Clone, Copy, Debug, PartialEq, Eq, Structural)]
pub enum OpenReadyStep {
    /// Open the state parent: `Ok(false)` where it does not exist.
    OpenParent,
    /// Check the state parent.
    CheckParent,
    /// Check that the state parent is still where it was.
    BindParent,
    /// Open the state root: `Ok(false)` where it does not exist.
    OpenRoot,
    /// Check the state root.
    CheckRoot,
    /// Check that the state root is still where it was.
    BindRoot,
    /// Open the state root for reading and writing.
    OpenRootIo,
    /// Pin the store descriptor: `Ok(false)` where there is none.
    PinDescriptor,
    /// Check that the pinned descriptor is unchanged.
    RevalidateDescriptor,
    /// Check the entries of the state root.
    ValidateLayout,
    /// Check the state root once more.
    RecheckRoot,
    /// Check once more that the state root is still where it was.
    RebindRoot,
    /// Check that both handles are of the state root: `Ok(false)` where they differ.
    CompareHandles,
    /// Check the state parent once more.
    RecheckParent,
    /// Check once more that the state parent is still where it was.
    RebindParent,
}

/// What follows a step of opening a ready store.
pub open spec fn open_ready_after(step: OpenReadyStep, reply: Result<bool, EngineError<Seq<char>, Seq<u8>>>, root: Seq<u8>) -> Progress<OpenReadyStep, (), EngineError<Seq<char>, Seq<u8>>> {
    match reply {
        Err(error) => Progress::Failed(error),
        Ok(yes) => match step {
            OpenReadyStep::OpenParent => if yes {
                Progress::Next(OpenReadyStep::CheckParent)
            } else {
                Progress::Failed(EngineError::StoreNotReady { status: StoreStatus::Absent })
            },
            OpenReadyStep::CheckParent => Progress::Next(OpenReadyStep::BindParent),
            OpenReadyStep::BindParent => Progress::Next(OpenReadyStep::OpenRoot),
            OpenReadyStep::OpenRoot => if yes {
                Progress::Next(OpenReadyStep::CheckRoot)
            } else {
                Progress::Failed(EngineError::StoreNotReady { status: StoreStatus::Absent })
            },
            OpenReadyStep::CheckRoot => Progress::Next(OpenReadyStep::BindRoot),
            OpenReadyStep::BindRoot => Progress::Next(OpenReadyStep::OpenRootIo),
            OpenReadyStep::OpenRootIo => Progress::Next(OpenReadyStep::PinDescriptor),
            OpenReadyStep::PinDescriptor => if yes {
                Progress::Next(OpenReadyStep::RevalidateDescriptor)
            } else {
                Progress::Failed(EngineError::StoreNotReady { status: StoreStatus::Uninitialized })
            },
            OpenReadyStep::RevalidateDescriptor => Progress::Next(OpenReadyStep::ValidateLayout),
            OpenReadyStep::ValidateLayout => Progress::Next(OpenReadyStep::RecheckRoot),
            OpenReadyStep::RecheckRoot => Progress::Next(OpenReadyStep::RebindRoot),
            OpenReadyStep::RebindRoot => Progress::Next(OpenReadyStep::CompareHandles),
            OpenReadyStep::CompareHandles => if yes {
                Progress::Next(OpenReadyStep::RecheckParent)
            } else {
                Progress::Failed(EngineError::RootObservationChanged { path: root })
            },
            OpenReadyStep::RecheckParent => Progress::Next(OpenReadyStep::RebindParent),
            OpenReadyStep::RebindParent => Progress::Done(()),
        },
    }
}

impl OpenReadyStep {
    /// Decides what follows this step.
    pub fn after(self, reply: Result<bool, EngineError>, root: &[u8]) -> (progress: Progress<OpenReadyStep, ()>)
        ensures
            progress_view(progress) == open_ready_after(self, reply_view(reply), root@),
    {
        let step = self;
        match reply {
            Err(error) => Progress::Failed(error),
            Ok(yes) => match step {
                OpenReadyStep::OpenParent => if yes {
                    Progress::Next(OpenReadyStep::CheckParent)
                } else {
                    Progress::Failed(EngineError::StoreNotReady { status: StoreStatus::Absent })
                },
                OpenReadyStep::CheckParent => Progress::Next(OpenReadyStep::BindParent),
                OpenReadyStep::BindParent => Progress::Next(OpenReadyStep::OpenRoot),
                OpenReadyStep::OpenRoot => if yes {
                    Progress::Next(OpenReadyStep::CheckRoot)
                } else {
                    Progress::Failed(EngineError::StoreNotReady { status: StoreStatus::Absent })
                },
                OpenReadyStep::CheckRoot => Progress::Next(OpenReadyStep::BindRoot),
                OpenReadyStep::BindRoot => Progress::Next(OpenReadyStep::OpenRootIo),
                OpenReadyStep::OpenRootIo => Progress::Next(OpenReadyStep::PinDescriptor),
                OpenReadyStep::PinDescriptor => if yes {
                    Progress::Next(OpenReadyStep::RevalidateDescriptor)
                } else {
                    Progress::Failed(EngineError::StoreNotReady { status: StoreStatus::Uninitialized })
                },
                OpenReadyStep::RevalidateDescriptor => Progress::Next(OpenReadyStep::ValidateLayout),
                OpenReadyStep::ValidateLayout => Progress::Next(OpenReadyStep::RecheckRoot),
                OpenReadyStep::RecheckRoot => Progress::Next(OpenReadyStep::RebindRoot),
                OpenReadyStep::RebindRoot => Progress::Next(OpenReadyStep::CompareHandles),
                OpenReadyStep::CompareHandles => if yes {
                    Progress::Next(OpenReadyStep::RecheckParent)
                } else {
                    Progress::Failed(EngineError::RootObservationChanged { path: copy_bytes(root) })
                },
                OpenReadyStep::RecheckParent => Progress::Next(OpenReadyStep::RebindParent),
                OpenReadyStep::RebindParent => Progress::Done(()),
            },
        }
    }
}

/// A step of publishing the store descriptor.
#[derive(Clone, Copy, Debug, PartialEq, Eq, Structural)]
pub enum PublishDescriptorStep {
    /// Create a file without a name in the state root.
    CreateUnnamed,
    /// Restrict the file to its owner.
    Restrict,
    /// Write the descriptor.
    Write,
    /// Make the file durable.
    Sync,
    /// Inspect the root: `Ok(true)` where it has a descriptor already.
    InspectBefore,
    /// Give the file its name: `Ok(false)` where the name is taken.
    Link,
    /// Check that the name leads to the file.
    BindLinked,
    /// Make the name durable.
    SyncRoot,
    /// Check once more that the name leads to the file.
    RebindLinked,
    /// Inspect the root: `Ok(true)` where it has a descriptor.
    InspectLinked,
    /// Inspect the root: `Ok(true)` where it has a descriptor.
    InspectWinner,
    /// Make the name that was there first durable.
    SyncWinner,
}

/// What follows a step of publishing the store descriptor.
pub open spec fn publish_descriptor_after(step: PublishDescriptorStep, reply: Result<bool, EngineError<Seq<char>, Seq<u8>>>, root: Seq<u8>) -> Progress<PublishDescriptorStep, (), EngineError<Seq<char>, Seq<u8>>> {
    match reply {
        Err(error) => Progress::Failed(error),
        Ok(yes) => match step {
            PublishDescriptorStep::CreateUnnamed => Progress::Next(PublishDescriptorStep::Restrict),
            PublishDescriptorStep::Restrict => Progress::Next(PublishDescriptorStep::Write),
            PublishDescriptorStep::Write => Progress::Next(PublishDescriptorStep::Sync),
            PublishDescriptorStep::Sync => Progress::Next(PublishDescriptorStep::InspectBefore),
            PublishDescriptorStep::InspectBefore => if yes {
                Progress::Next(PublishDescriptorStep::SyncWinner)
            } else {
                Progress::Next(PublishDescriptorStep::Link)
            },
            PublishDescriptorStep::Link => if yes {
                Progress::Next(PublishDescriptorStep::BindLinked)
            } else {
                Progress::Next(PublishDescriptorStep::InspectWinner)
            },
            PublishDescriptorStep::BindLinked => Progress::Next(PublishDescriptorStep::SyncRoot),
            PublishDescriptorStep::SyncRoot => Progress::Next(PublishDescriptorStep::RebindLinked),
            PublishDescriptorStep::RebindLinked => Progress::Next(PublishDescriptorStep::InspectLinked),
            PublishDescriptorStep::InspectLinked => if yes {
                Progress::Done(())
            } else {
                Progress::Failed(state_root::metadata_failure(
                path::joined(root, state_root::marker_name()),
                StoreMetadataIssue::ObservationChanged,
            ))
            },
            PublishDescriptorStep::InspectWinner => if yes {
                Progress::Next(PublishDescriptorStep::SyncWinner)
            } else {
                Progress::Failed(state_root::metadata_failure(
                path::joined(root, state_root::marker_name()),
                StoreMetadataIssue::ObservationChanged,
            ))
            },
            PublishDescriptorStep::SyncWinner => Progress::Done(()),
        },
    }
}

impl PublishDescriptorStep {
    /// Decides what follows this step.
    pub fn after(self, reply: Result<bool, EngineError>, root: &[u8]) -> (progress: Progress<PublishDescriptorStep, ()>)
        ensures
            progress_view(progress) == publish_descriptor_after(self, reply_view(reply), root@),
    {
        let step = self;
        match reply {
            Err(error) => Progress::Failed(error),
            Ok(yes) => match step {
                PublishDescriptorStep::CreateUnnamed => Progress::Next(PublishDescriptorStep::Restrict),
                PublishDescriptorStep::Restrict => Progress::Next(PublishDescriptorStep::Write),
                PublishDescriptorStep::Write => Progress::Next(PublishDescriptorStep::Sync),
                PublishDescriptorStep::Sync => Progress::Next(PublishDescriptorStep::InspectBefore),
                PublishDescriptorStep::InspectBefore => if yes {
                    Progress::Next(PublishDescriptorStep::SyncWinner)
                } else {
                    Progress::Next(PublishDescriptorStep::Link)
                },
                PublishDescriptorStep::Link => if yes {
                    Progress::Next(PublishDescriptorStep::BindLinked)
                } else {
                    Progress::Next(PublishDescriptorStep::InspectWinner)
                },
                PublishDescriptorStep::BindLinked => Progress::Next(PublishDescriptorStep::SyncRoot),
                PublishDescriptorStep::SyncRoot => Progress::Next(PublishDescriptorStep::RebindLinked),
                PublishDescriptorStep::RebindLinked => Progress::Next(PublishDescriptorStep::InspectLinked),
                PublishDescriptorStep::InspectLinked => if yes {
                    Progress::Done(())
                } else {
                    Progress::Failed(metadata_error(marker_path(root).as_slice(), StoreMetadataIssue::ObservationChanged))
                },
                PublishDescriptorStep::InspectWinner => if yes {
                    Progress::Next(PublishDescriptorStep::SyncWinner)
                } else {
                    Progress::Failed(metadata_error(marker_path(root).as_slice(), StoreMetadataIssue::ObservationChanged))
                },
                PublishDescriptorStep::SyncWinner => Progress::Done(()),
            },
        }
    }
}

/// How far an initialization has come.
pub open spec fn initialize_rank(step: InitializeStep<EngineError<Seq<char>, Seq<u8>>>) -> nat {
    match step {
        InitializeStep::OpenParent => 0,
        InitializeStep::CreateParent => 1,
        InitializeStep::ReopenParent => 2,
        InitializeStep::CheckParent => 3,
        InitializeStep::BindParent => 4,
        InitializeStep::OpenRoot => 5,
        InitializeStep::CheckParentBeforeStaging => 6,
        InitializeStep::BindParentBeforeStaging => 7,
        InitializeStep::Stage => 8,
        InitializeStep::BindStaged => 9,
        InitializeStep::BindParentBeforePublishing => 10,
        InitializeStep::PublishRoot => 11,
        InitializeStep::BindPublished => 12,
        InitializeStep::RebindPublished => 13,
        InitializeStep::DiscardForWinner => 14,
        InitializeStep::OpenWinner => 15,
        InitializeStep::DiscardForFailure(_) => 16,
        InitializeStep::CheckRoot => 17,
        InitializeStep::BindRoot => 18,
        InitializeStep::OpenRootIo => 19,
        InitializeStep::Inspect => 20,
        InitializeStep::BindParentBeforeDescriptor => 21,
        InitializeStep::BindRootBeforeDescriptor => 22,
        InitializeStep::PublishDescriptor => 23,
        InitializeStep::InitializeCatalog => 24,
        InitializeStep::SyncRoot => 25,
        InitializeStep::SyncParent => 26,
        InitializeStep::FinalInspect => 27,
        InitializeStep::FinalCheckRoot => 28,
        InitializeStep::FinalBindRoot => 29,
        InitializeStep::FinalCheckParent => 30,
        InitializeStep::FinalBindParent => 31,
    }
}

/// An initialization never goes back: it ends after finitely many steps, and a root or
/// descriptor is published at most once.
pub proof fn lemma_initialization_advances(
    step: InitializeStep<EngineError<Seq<char>, Seq<u8>>>,
    reply: Result<bool, EngineError<Seq<char>, Seq<u8>>>,
    parent: Seq<u8>,
    root: Seq<u8>,
)
    ensures
        initialize_after(step, reply, parent, root) matches Progress::Next(next)
            ==> initialize_rank(step) < initialize_rank(next),
{
}

/// The steps and replies of an initialization from its start.
pub open spec fn is_initialization(
    steps: Seq<InitializeStep<EngineError<Seq<char>, Seq<u8>>>>,
    replies: Seq<Result<bool, EngineError<Seq<char>, Seq<u8>>>>,
    parent: Seq<u8>,
    root: Seq<u8>,
) -> bool {
    &&& steps.len() == replies.len()
    &&& steps.len() > 0
    &&& steps[0] is OpenParent
    &&& forall|i: int|
        0 <= i < steps.len() - 1 ==> (#[trigger] initialize_after(
            steps[i],
            replies[i],
            parent,
            root,
        )) == Progress::<
            InitializeStep<EngineError<Seq<char>, Seq<u8>>>,
            StoreStatus,
            EngineError<Seq<char>, Seq<u8>>,
        >::Next(steps[i + 1])
}

/// A store is called initialized only when no step failed, its catalog was initialized, root
/// and parent were made durable, and after that the descriptor was found in a root and a
/// parent that passed every check once more.
pub proof fn lemma_initialized_store_is_durable_and_checked(
    steps: Seq<InitializeStep<EngineError<Seq<char>, Seq<u8>>>>,
    replies: Seq<Result<bool, EngineError<Seq<char>, Seq<u8>>>>,
    parent: Seq<u8>,
    root: Seq<u8>,
)
    requires
        is_initialization(steps, replies, parent, root),
        initialize_after(steps.last(), replies.last(), parent, root) is Done,
    ensures
        initialize_after(steps.last(), replies.last(), parent, root) == Progress::<
            InitializeStep<EngineError<Seq<char>, Seq<u8>>>,
            StoreStatus,
            EngineError<Seq<char>, Seq<u8>>,
        >::Done(StoreStatus::Ready),
        forall|i: int| 0 <= i < replies.len() ==> #[trigger] replies[i] is Ok,
        steps.len() > 8,
        steps[steps.len() - 8] is InitializeCatalog,
        steps[steps.len() - 7] is SyncRoot,
        steps[steps.len() - 6] is SyncParent,
        steps[steps.len() - 5] is FinalInspect,
        replies[steps.len() - 5] == Ok::<bool, EngineError<Seq<char>, Seq<u8>>>(true),
        steps[steps.len() - 4] is FinalCheckRoot,
        steps[steps.len() - 3] is FinalBindRoot,
        steps[steps.len() - 2] is FinalCheckParent,
        steps[steps.len() - 1] is FinalBindParent,
{
    let n = steps.len() as int;
    assert(steps[n - 1] is FinalBindParent);
    assert(n > 1);
    assert(initialize_after(steps[n - 2], replies[n - 2], parent, root) is Next);
    assert(steps[n - 2] is FinalCheckParent);
    assert(n > 2);
    assert(initialize_after(steps[n - 3], replies[n - 3], parent, root) is Next);
    assert(steps[n - 3] is FinalBindRoot);
    assert(n > 3);
    assert(initialize_after(steps[n - 4], replies[n - 4], parent, root) is Next);
    assert(steps[n - 4] is FinalCheckRoot);
    assert(n > 4);
    assert(initialize_after(steps[n - 5], replies[n - 5], parent, root) is Next);
    assert(steps[n - 5] is FinalInspect);
    assert(n > 5);
    assert(initialize_after(steps[n - 6], replies[n - 6], parent, root) is Next);
    assert(steps[n - 6] is SyncParent);
    assert(n > 6);
    assert(initialize_after(steps[n - 7], replies[n - 7], parent, root) is Next);
    assert(steps[n - 7] is SyncRoot);
    assert(n > 7);
    assert(initialize_after(steps[n - 8], replies[n - 8], parent, root) is Next);
    assert(steps[n - 8] is InitializeCatalog);
    assert forall|i: int| 0 <= i < replies.len() implies #[trigger] replies[i] is Ok by {
        if replies[i] is Err {
            if i < n - 1 {
                assert(initialize_after(steps[i], replies[i], parent, root) is Next);
                assert(steps[i + 1] is DiscardForFailure);
                assert(i + 1 < n - 1);
                assert(initialize_after(steps[i + 1], replies[i + 1], parent, root) is Next);
            }
        }
    }
}

/// How far telling the status has come.
pub open spec fn status_rank(step: StatusStep) -> nat {
    match step {
        StatusStep::OpenParent => 0,
        StatusStep::CheckParent => 1,
        StatusStep::BindParent => 2,
        StatusStep::OpenRoot => 3,
        StatusStep::BindParentOfAbsent => 4,
        StatusStep::CheckRoot => 4,
        StatusStep::BindRoot => 5,
        StatusStep::OpenRootIo => 6,
        StatusStep::Inspect => 7,
        StatusStep::RecheckRoot(_) => 8,
        StatusStep::RebindRoot(_) => 9,
        StatusStep::RecheckParent(_) => 10,
        StatusStep::RebindParent(_) => 11,
    }
}

/// Telling the status never goes back, a failed step decides the answer, and a status other
/// than absence is told only at the end of the second round of checks.
pub proof fn lemma_status_is_told_after_all_checks(
    step: StatusStep,
    reply: Result<bool, EngineError<Seq<char>, Seq<u8>>>,
)
    ensures
        status_after(step, reply) matches Progress::Next(next) ==> status_rank(step) < status_rank(
            next,
        ),
        reply matches Err(error) ==> status_after(step, reply) == Progress::<
            StatusStep,
            StoreStatus,
            EngineError<Seq<char>, Seq<u8>>,
        >::Failed(error),
        status_after(step, reply) matches Progress::Done(status) ==> status == StoreStatus::Absent
            || step == StatusStep::RebindParent(status),
{
}

/// How far publishing the descriptor has come.
pub open spec fn publish_rank(step: PublishDescriptorStep) -> nat {
    match step {
        PublishDescriptorStep::CreateUnnamed => 0,
        PublishDescriptorStep::Restrict => 1,
        PublishDescriptorStep::Write => 2,
        PublishDescriptorStep::Sync => 3,
        PublishDescriptorStep::InspectBefore => 4,
        PublishDescriptorStep::Link => 5,
        PublishDescriptorStep::BindLinked => 6,
        PublishDescriptorStep::SyncRoot => 7,
        PublishDescriptorStep::RebindLinked => 8,
        PublishDescriptorStep::InspectLinked => 9,
        PublishDescriptorStep::InspectWinner => 10,
        PublishDescriptorStep::SyncWinner => 11,
    }
}

/// Publishing the descriptor never goes back, so the name is given at most once and a name
/// that was there first is never replaced; and it succeeds only once a descriptor was found
/// and made durable.
pub proof fn lemma_descriptor_is_published_once(
    step: PublishDescriptorStep,
    reply: Result<bool, EngineError<Seq<char>, Seq<u8>>>,
    root: Seq<u8>,
)
    ensures
        publish_descriptor_after(step, reply, root) matches Progress::Next(next)
            ==> publish_rank(step) < publish_rank(next),
        publish_descriptor_after(step, reply, root) is Done ==> (step
            == PublishDescriptorStep::InspectLinked && reply == Ok::<
            bool,
            EngineError<Seq<char>, Seq<u8>>,
        >(true)) || (step == PublishDescriptorStep::SyncWinner && reply is Ok),
{
}

/// Each step of looking at a store comes after the one that it rests on, and none is left out; the
/// status that is told is the one that was found. A failed step ends it.
pub proof fn lemma_status_steps_follow_one_another(
    step: StatusStep,
    reply: Result<bool, EngineError<Seq<char>, Seq<u8>>>,
)
    ensures
        match status_after(step, reply) {
            Progress::Next(next) => match next {
                StatusStep::OpenParent => false,
                StatusStep::CheckParent => step is OpenParent && (reply matches Ok(yes) && yes),
                StatusStep::BindParent => step is CheckParent && reply is Ok,
                StatusStep::OpenRoot => step is BindParent && reply is Ok,
                StatusStep::BindParentOfAbsent => step is OpenRoot && (reply matches Ok(yes)
                    && !yes),
                StatusStep::CheckRoot => step is OpenRoot && (reply matches Ok(yes) && yes),
                StatusStep::BindRoot => step is CheckRoot && reply is Ok,
                StatusStep::OpenRootIo => step is BindRoot && reply is Ok,
                StatusStep::Inspect => step is OpenRootIo && reply is Ok,
                StatusStep::RecheckRoot(status) => (status == StoreStatus::Ready && step is Inspect
                    && (reply matches Ok(yes) && yes)) || (status == StoreStatus::Uninitialized
                    && step is Inspect && (reply matches Ok(yes) && !yes)),
                StatusStep::RebindRoot(status) => step == StatusStep::RecheckRoot(status)
                    && reply is Ok,
                StatusStep::RecheckParent(status) => step == StatusStep::RebindRoot(status)
                    && reply is Ok,
                StatusStep::RebindParent(status) => step == StatusStep::RecheckParent(status)
                    && reply is Ok,
            },
            Progress::Done(status) => (step == StatusStep::RebindParent(status) && reply is Ok)
                || (status == StoreStatus::Absent && ((step is OpenParent && (reply matches Ok(yes)
                && !yes)) || (step is BindParentOfAbsent && reply is Ok))),
            Progress::Failed(error) => reply == Err::<bool, EngineError<Seq<char>, Seq<u8>>>(error),
        },
{
}

/// Each step of opening a store that must be ready comes after the one that it rests on, and none is
/// left out. A failed step ends it; a store that is absent or uninitialised is told as such, and
/// one that changed meanwhile as changed.
pub proof fn lemma_ready_steps_follow_one_another(
    step: OpenReadyStep,
    reply: Result<bool, EngineError<Seq<char>, Seq<u8>>>,
    root: Seq<u8>,
)
    ensures
        match open_ready_after(step, reply, root) {
            Progress::Next(next) => match next {
                OpenReadyStep::OpenParent => false,
                OpenReadyStep::CheckParent => step is OpenParent && (reply matches Ok(yes) && yes),
                OpenReadyStep::BindParent => step is CheckParent && reply is Ok,
                OpenReadyStep::OpenRoot => step is BindParent && reply is Ok,
                OpenReadyStep::CheckRoot => step is OpenRoot && (reply matches Ok(yes) && yes),
                OpenReadyStep::BindRoot => step is CheckRoot && reply is Ok,
                OpenReadyStep::OpenRootIo => step is BindRoot && reply is Ok,
                OpenReadyStep::PinDescriptor => step is OpenRootIo && reply is Ok,
                OpenReadyStep::RevalidateDescriptor => step is PinDescriptor
                    && (reply matches Ok(yes) && yes),
                OpenReadyStep::ValidateLayout => step is RevalidateDescriptor && reply is Ok,
                OpenReadyStep::RecheckRoot => step is ValidateLayout && reply is Ok,
                OpenReadyStep::RebindRoot => step is RecheckRoot && reply is Ok,
                OpenReadyStep::CompareHandles => step is RebindRoot && reply is Ok,
                OpenReadyStep::RecheckParent => step is CompareHandles && (reply matches Ok(yes)
                    && yes),
                OpenReadyStep::RebindParent => step is RecheckParent && reply is Ok,
            },
            Progress::Done(_) => step is RebindParent && reply is Ok,
            Progress::Failed(error) => reply == Err::<bool, EngineError<Seq<char>, Seq<u8>>>(error)
                || ((reply matches Ok(yes) && !yes) && match step {
                    OpenReadyStep::OpenParent => error
                        == EngineError::<Seq<char>, Seq<u8>>::StoreNotReady { status: StoreStatus::Absent },
                    OpenReadyStep::OpenRoot => error
                        == EngineError::<Seq<char>, Seq<u8>>::StoreNotReady { status: StoreStatus::Absent },
                    OpenReadyStep::PinDescriptor => error
                        == EngineError::<Seq<char>, Seq<u8>>::StoreNotReady { status: StoreStatus::Uninitialized },
                    OpenReadyStep::CompareHandles => error
                        == EngineError::<Seq<char>, Seq<u8>>::RootObservationChanged { path: root },
                    _ => false,
                }),
        },
{
}

/// Each step of publishing the descriptor of a store comes after the one that it rests on, and none
/// is left out. A failed step ends it, and so does a descriptor that is gone when it is looked at
/// again.
pub proof fn lemma_descriptor_steps_follow_one_another(
    step: PublishDescriptorStep,
    reply: Result<bool, EngineError<Seq<char>, Seq<u8>>>,
    root: Seq<u8>,
)
    ensures
        match publish_descriptor_after(step, reply, root) {
            Progress::Next(next) => match next {
                PublishDescriptorStep::CreateUnnamed => false,
                PublishDescriptorStep::Restrict => step is CreateUnnamed && reply is Ok,
                PublishDescriptorStep::Write => step is Restrict && reply is Ok,
                PublishDescriptorStep::Sync => step is Write && reply is Ok,
                PublishDescriptorStep::InspectBefore => step is Sync && reply is Ok,
                PublishDescriptorStep::Link => step is InspectBefore && (reply matches Ok(yes)
                    && !yes),
                PublishDescriptorStep::BindLinked => step is Link && (reply matches Ok(yes) && yes),
                PublishDescriptorStep::SyncRoot => step is BindLinked && reply is Ok,
                PublishDescriptorStep::RebindLinked => step is SyncRoot && reply is Ok,
                PublishDescriptorStep::InspectLinked => step is RebindLinked && reply is Ok,
                PublishDescriptorStep::InspectWinner => step is Link && (reply matches Ok(yes)
                    && !yes),
                PublishDescriptorStep::SyncWinner => (step is InspectBefore
                    && (reply matches Ok(yes) && yes)) || (step is InspectWinner
                    && (reply matches Ok(yes) && yes)),
            },
            Progress::Done(_) => (step is InspectLinked && (reply matches Ok(yes) && yes))
                || (step is SyncWinner && reply is Ok),
            Progress::Failed(error) => reply == Err::<bool, EngineError<Seq<char>, Seq<u8>>>(error)
                || ((reply matches Ok(yes) && !yes) && (step is InspectLinked
                || step is InspectWinner) && (error matches EngineError::MalformedStoreMetadata {
                path: _, reason } && reason is ObservationChanged)),
        },
{
}

/// Each step of initialising a store comes after the one that it rests on, and none is left out; a
/// root that could not be published is discarded before its failure is told. Another failed step
/// ends it, and so does what is gone when it is looked for again.
pub proof fn lemma_initialization_steps_follow_one_another(
    step: InitializeStep<EngineError<Seq<char>, Seq<u8>>>,
    reply: Result<bool, EngineError<Seq<char>, Seq<u8>>>,
    parent: Seq<u8>,
    root: Seq<u8>,
)
    ensures
        match initialize_after(step, reply, parent, root) {
            Progress::Next(next) => match next {
                InitializeStep::OpenParent => false,
                InitializeStep::CreateParent => step is OpenParent && (reply matches Ok(yes)
                    && !yes),
                InitializeStep::ReopenParent => step is CreateParent && reply is Ok,
                InitializeStep::CheckParent => (step is OpenParent && (reply matches Ok(yes)
                    && yes)) || (step is ReopenParent && (reply matches Ok(yes) && yes)),
                InitializeStep::BindParent => step is CheckParent && reply is Ok,
                InitializeStep::OpenRoot => step is BindParent && reply is Ok,
                InitializeStep::CheckParentBeforeStaging => step is OpenRoot
                    && (reply matches Ok(yes) && !yes),
                InitializeStep::BindParentBeforeStaging => step is CheckParentBeforeStaging
                    && reply is Ok,
                InitializeStep::Stage => step is BindParentBeforeStaging && reply is Ok,
                InitializeStep::BindStaged => step is Stage && reply is Ok,
                InitializeStep::BindParentBeforePublishing => step is BindStaged && reply is Ok,
                InitializeStep::PublishRoot => step is BindParentBeforePublishing && reply is Ok,
                InitializeStep::BindPublished => step is PublishRoot && (reply matches Ok(yes)
                    && yes),
                InitializeStep::RebindPublished => step is BindPublished && reply is Ok,
                InitializeStep::DiscardForWinner => step is PublishRoot && (reply matches Ok(yes)
                    && !yes),
                InitializeStep::OpenWinner => step is DiscardForWinner && reply is Ok,
                InitializeStep::CheckRoot => (step is OpenRoot && (reply matches Ok(yes) && yes))
                    || (step is RebindPublished && reply is Ok) || (step is OpenWinner
                    && (reply matches Ok(yes) && yes)),
                InitializeStep::BindRoot => step is CheckRoot && reply is Ok,
                InitializeStep::OpenRootIo => step is BindRoot && reply is Ok,
                InitializeStep::Inspect => step is OpenRootIo && reply is Ok,
                InitializeStep::BindParentBeforeDescriptor => step is Inspect
                    && (reply matches Ok(yes) && !yes),
                InitializeStep::BindRootBeforeDescriptor => step is BindParentBeforeDescriptor
                    && reply is Ok,
                InitializeStep::PublishDescriptor => step is BindRootBeforeDescriptor
                    && reply is Ok,
                InitializeStep::InitializeCatalog => (step is Inspect && (reply matches Ok(yes)
                    && yes)) || (step is PublishDescriptor && reply is Ok),
                InitializeStep::SyncRoot => step is InitializeCatalog && reply is Ok,
                InitializeStep::SyncParent => step is SyncRoot && reply is Ok,
                InitializeStep::FinalInspect => step is SyncParent && reply is Ok,
                InitializeStep::FinalCheckRoot => step is FinalInspect && (reply matches Ok(yes)
                    && yes),
                InitializeStep::FinalBindRoot => step is FinalCheckRoot && reply is Ok,
                InitializeStep::FinalCheckParent => step is FinalBindRoot && reply is Ok,
                InitializeStep::FinalBindParent => step is FinalCheckParent && reply is Ok,
                InitializeStep::DiscardForFailure(error) => step is PublishRoot
                    && reply == Err::<bool, EngineError<Seq<char>, Seq<u8>>>(error),
            },
            Progress::Done(status) => status == StoreStatus::Ready && step is FinalBindParent
                && reply is Ok,
            Progress::Failed(error) => (reply == Err::<bool, EngineError<Seq<char>, Seq<u8>>>(error)
                && step !is PublishRoot) || (reply is Ok
                && step == InitializeStep::DiscardForFailure(error)) || ((reply matches Ok(yes)
                && !yes) && match step {
                    InitializeStep::ReopenParent => error
                        == EngineError::<Seq<char>, Seq<u8>>::StateParentObservationChanged { path: parent },
                    InitializeStep::OpenWinner => error
                        == EngineError::<Seq<char>, Seq<u8>>::RootObservationChanged { path: root },
                    InitializeStep::FinalInspect => error matches EngineError::MalformedStoreMetadata { path: _, reason } && reason is ObservationChanged,
                    _ => false,
                }),
        },
{
}

} // verus!
