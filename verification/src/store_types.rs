//! Small values that describe the store and what was done to it.

use vstd::prelude::*;

verus! {

/// Access granted to an Engine's final store.
#[derive(Clone, Copy, Debug, PartialEq, Eq, Structural)]
pub enum StoreAccess {
    /// Store inspection is allowed, but initialization and later mutations are not.
    ReadOnly,
    /// Store inspection and mutation are allowed.
    ReadWrite,
}

/// A directory involved in state-root validation.
#[derive(Clone, Copy, Debug, PartialEq, Eq, Structural)]
pub enum StateDirectory {
    /// The trusted parent containing the final root.
    StateParent,
    /// The final successor root.
    V1Root,
}

impl StateDirectory {
    /// The directory in words.
    pub open spec fn words(self) -> Seq<char> {
        match self {
            StateDirectory::StateParent => "state parent"@,
            StateDirectory::V1Root => "state root"@,
        }
    }

    /// Returns the directory in words.
    pub fn name(self) -> (text: &'static str)
        ensures
            text@ == self.words(),
    {
        match self {
            StateDirectory::StateParent => "state parent",
            StateDirectory::V1Root => "state root",
        }
    }
}

/// Current lifecycle state of the final state root.
#[derive(Clone, Copy, Debug, PartialEq, Eq, Structural)]
pub enum StoreStatus {
    /// No final state root exists beneath the configured state parent.
    Absent,
    /// A safe final state root exists but has no store descriptor or other content.
    Uninitialized,
    /// A safe final state root contains the exact supported store descriptor.
    Ready,
}

impl StoreStatus {
    /// The status as debugging output writes it.
    pub open spec fn words(self) -> Seq<char> {
        match self {
            StoreStatus::Absent => "Absent"@,
            StoreStatus::Uninitialized => "Uninitialized"@,
            StoreStatus::Ready => "Ready"@,
        }
    }

    /// Returns the status as debugging output writes it.
    pub fn name(self) -> (text: &'static str)
        ensures
            text@ == self.words(),
    {
        match self {
            StoreStatus::Absent => "Absent",
            StoreStatus::Uninitialized => "Uninitialized",
            StoreStatus::Ready => "Ready",
        }
    }
}

/// Result of explicitly initializing the final state root.
#[derive(Clone, Copy, Debug, PartialEq, Eq, Structural)]
pub struct InitializeStoreOutcome {
    status: StoreStatus,
}

impl InitializeStoreOutcome {
    /// The status after the operation.
    pub closed spec fn reached(self) -> StoreStatus {
        self.status
    }

    /// Returns the validated post-operation store status.
    pub fn status(self) -> (status: StoreStatus)
        ensures
            status == self.reached(),
    {
        self.status
    }

    /// The outcome of an initialization that succeeded.
    pub fn ready() -> (outcome: Self)
        ensures
            outcome.reached() == StoreStatus::Ready,
    {
        InitializeStoreOutcome { status: StoreStatus::Ready }
    }
}

/// Result of publishing an immutable v1 pack object.
#[derive(Clone, Copy, Debug, PartialEq, Eq, Structural)]
pub enum PackObjectPublication {
    /// This operation published the canonical object name.
    Published,
    /// An existing object of that name passed the checks of its form and was left in place. Its
    /// content is compared with the digest whenever it is loaded.
    Reused,
}

/// Durable filesystem result of an explicit lock operation.
#[derive(Clone, Copy, Debug, PartialEq, Eq, Structural)]
pub enum LockFilePublication {
    /// A previously absent lock was created without replacement.
    Created,
    /// A valid existing lock was atomically replaced.
    Updated,
    /// The existing lock already contained the canonical candidate bytes.
    Unchanged,
}

} // verus!
