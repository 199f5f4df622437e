//! Configuration of the Git subprocess.

use vstd::prelude::*;

use crate::limits::MAX_PACK_TREE_BYTES;
use crate::path;
use crate::path::path_is_absolute;
use crate::seqs::copy_bytes;
use crate::text;
use crate::text::{concat2, concat5, decimal_text, lossy_text};
use crate::time;
use crate::time::Duration;

verus! {

/// Default and maximum wall-clock limit for one Git subprocess, in seconds.
pub const MAX_GIT_ACQUISITION_SECONDS: u64 = 600;

/// Default and maximum regular-file growth allowed during one Git fetch.
pub const MAX_GIT_TRANSFER_BYTES: u64 = MAX_PACK_TREE_BYTES * 2;

/// Most bytes taken from a control stream.
pub const MAX_CONTROL_OUTPUT_BYTES: u64 = 65_536;

/// Default and maximum wall-clock limit for one Git subprocess.
pub fn max_git_acquisition_timeout() -> (limit: Duration)
    ensures
        limit.secs_part() == MAX_GIT_ACQUISITION_SECONDS,
        limit.nanos_part() == 0,
{
    Duration::from_secs(MAX_GIT_ACQUISITION_SECONDS)
}

/// Explicit Git executable and subprocess budget for v1 acquisition.
#[derive(Debug, PartialEq, Eq)]
pub struct GitAcquisitionConfig {
    executable: Vec<u8>,
    timeout: Duration,
    transfer_limit: u64,
}

/// What a configuration holds.
pub struct GitConfigModel {
    pub executable: Seq<u8>,
    pub timeout: Duration,
    pub transfer_limit: u64,
}

/// Invalid explicit Git process configuration; `B` is the type of paths.
#[derive(Clone, Debug, PartialEq, Eq)]
#[non_exhaustive]
#[allow(inconsistent_fields)]
pub enum GitAcquisitionConfigError<B = Vec<u8>> {
    /// Executable lookup through ambient `PATH` is not allowed.
    ExecutableMustBeAbsolute { executable: B },
    /// A zero timeout cannot bound a subprocess.
    TimeoutMustBePositive,
    /// The requested timeout exceeds the fixed infrastructure ceiling.
    TimeoutTooLarge { actual: Duration, maximum_secs: u64 },
    /// A zero-byte transfer budget cannot admit a Git fetch.
    TransferLimitMustBePositive,
    /// The requested transfer budget exceeds the fixed infrastructure ceiling.
    TransferLimitTooLarge { actual: u64, maximum: u64 },
}

impl View for GitAcquisitionConfigError<Vec<u8>> {
    type V = GitAcquisitionConfigError<Seq<u8>>;

    open spec fn view(&self) -> GitAcquisitionConfigError<Seq<u8>> {
        match *self {
            GitAcquisitionConfigError::ExecutableMustBeAbsolute { executable } =>
                GitAcquisitionConfigError::ExecutableMustBeAbsolute { executable: executable@ },
            GitAcquisitionConfigError::TimeoutMustBePositive =>
                GitAcquisitionConfigError::TimeoutMustBePositive,
            GitAcquisitionConfigError::TimeoutTooLarge { actual, maximum_secs } =>
                GitAcquisitionConfigError::TimeoutTooLarge { actual, maximum_secs },
            GitAcquisitionConfigError::TransferLimitMustBePositive =>
                GitAcquisitionConfigError::TransferLimitMustBePositive,
            GitAcquisitionConfigError::TransferLimitTooLarge { actual, maximum } =>
                GitAcquisitionConfigError::TransferLimitTooLarge { actual, maximum },
        }
    }
}

/// What is wrong with a configuration, if anything; the first problem counts.
pub open spec fn config_problem(model: GitConfigModel) -> Option<
    GitAcquisitionConfigError<Seq<u8>>,
> {
    if !path::is_absolute(model.executable) {
        Some(
            GitAcquisitionConfigError::ExecutableMustBeAbsolute { executable: model.executable },
        )
    } else if time::total_nanos(model.timeout) == 0 {
        Some(GitAcquisitionConfigError::TimeoutMustBePositive)
    } else if time::total_nanos(model.timeout) > MAX_GIT_ACQUISITION_SECONDS
        * time::NANOS_PER_SECOND {
        Some(
            GitAcquisitionConfigError::TimeoutTooLarge {
                actual: model.timeout,
                maximum_secs: MAX_GIT_ACQUISITION_SECONDS,
            },
        )
    } else if model.transfer_limit == 0 {
        Some(GitAcquisitionConfigError::TransferLimitMustBePositive)
    } else if model.transfer_limit > MAX_GIT_TRANSFER_BYTES {
        Some(
            GitAcquisitionConfigError::TransferLimitTooLarge {
                actual: model.transfer_limit,
                maximum: MAX_GIT_TRANSFER_BYTES,
            },
        )
    } else {
        None
    }
}

/// The message of a configuration error.
pub open spec fn config_message(error: GitAcquisitionConfigError<Seq<u8>>) -> Seq<char> {
    match error {
        GitAcquisitionConfigError::ExecutableMustBeAbsolute { executable } =>
            "Git executable must be absolute, got "@ + text::utf8_lossy(executable),
        GitAcquisitionConfigError::TimeoutMustBePositive => "Git timeout must be positive"@,
        GitAcquisitionConfigError::TimeoutTooLarge { actual, maximum_secs } => "Git timeout "@
            + time::seconds_notation(actual.secs_part(), actual.nanos_part())
            + "s exceeds maximum "@ + text::decimal(maximum_secs as nat) + "s"@,
        GitAcquisitionConfigError::TransferLimitMustBePositive =>
            "Git transfer limit must be positive"@,
        GitAcquisitionConfigError::TransferLimitTooLarge { actual, maximum } =>
            "Git transfer limit "@ + text::decimal(actual as nat) + " bytes exceeds maximum "@
            + text::decimal(maximum as nat) + " bytes"@,
    }
}

impl GitAcquisitionConfigError<Vec<u8>> {
    /// Returns the message of the error.
    pub fn message(&self) -> (message: String)
        ensures
            message@ == config_message(self@),
    {
        match self {
            GitAcquisitionConfigError::ExecutableMustBeAbsolute { executable } => concat2(
                "Git executable must be absolute, got ",
                lossy_text(executable.as_slice()).as_str(),
            ),
            GitAcquisitionConfigError::TimeoutMustBePositive =>
                "Git timeout must be positive".to_owned(),
            GitAcquisitionConfigError::TimeoutTooLarge { actual, maximum_secs } => concat5(
                "Git timeout ",
                actual.seconds_text().as_str(),
                "s exceeds maximum ",
                decimal_text(*maximum_secs).as_str(),
                "s",
            ),
            GitAcquisitionConfigError::TransferLimitMustBePositive =>
                "Git transfer limit must be positive".to_owned(),
            GitAcquisitionConfigError::TransferLimitTooLarge { actual, maximum } => concat5(
                "Git transfer limit ",
                decimal_text(*actual).as_str(),
                " bytes exceeds maximum ",
                decimal_text(*maximum).as_str(),
                " bytes",
            ),
        }
    }
}

impl View for GitAcquisitionConfig {
    type V = GitConfigModel;

    closed spec fn view(&self) -> GitConfigModel {
        GitConfigModel {
            executable: self.executable@,
            timeout: self.timeout,
            transfer_limit: self.transfer_limit,
        }
    }
}

/// A configuration comes out exactly where nothing is wrong with what was asked for.
pub open spec fn configured(
    outcome: Result<GitAcquisitionConfig, GitAcquisitionConfigError>,
    asked: GitConfigModel,
) -> bool {
    match outcome {
        Ok(config) => config_problem(asked) is None && config@ == asked,
        Err(error) => config_problem(asked) == Some(error@),
    }
}

impl Clone for GitAcquisitionConfig {
    fn clone(&self) -> (copy: Self)
        ensures
            copy@ == self@,
    {
        proof {
            use_type_invariant(self);
        }
        GitAcquisitionConfig {
            executable: copy_bytes(self.executable.as_slice()),
            timeout: self.timeout,
            transfer_limit: self.transfer_limit,
        }
    }
}

impl GitAcquisitionConfig {
    #[verifier::type_invariant]
    spec fn well_formed(&self) -> bool {
        config_problem(self@) is None
    }

    /// Uses the fixed maximum limits with an explicit absolute executable.
    pub fn new(executable: Vec<u8>) -> (outcome: Result<Self, GitAcquisitionConfigError>)
        ensures
            exists|timeout: Duration|
                timeout.secs_part() == MAX_GIT_ACQUISITION_SECONDS && timeout.nanos_part() == 0
                    && #[trigger] configured(
                    outcome,
                    GitConfigModel {
                        executable: executable@,
                        timeout,
                        transfer_limit: MAX_GIT_TRANSFER_BYTES,
                    },
                ),
            outcome is Ok <==> path::is_absolute(executable@),
    {
        Self::with_limits(executable, max_git_acquisition_timeout(), MAX_GIT_TRANSFER_BYTES)
    }

    /// Uses an explicit positive timeout no greater than ten minutes.
    pub fn with_timeout(executable: Vec<u8>, timeout: Duration) -> (outcome: Result<
        Self,
        GitAcquisitionConfigError,
    >)
        ensures
            configured(
                outcome,
                GitConfigModel {
                    executable: executable@,
                    timeout,
                    transfer_limit: MAX_GIT_TRANSFER_BYTES,
                },
            ),
    {
        Self::with_limits(executable, timeout, MAX_GIT_TRANSFER_BYTES)
    }

    /// Uses explicit positive process and transfer limits within fixed ceilings.
    pub fn with_limits(executable: Vec<u8>, timeout: Duration, transfer_limit: u64) -> (outcome:
        Result<Self, GitAcquisitionConfigError>)
        ensures
            configured(
                outcome,
                GitConfigModel { executable: executable@, timeout, transfer_limit },
            ),
    {
        if !path_is_absolute(executable.as_slice()) {
            return Err(GitAcquisitionConfigError::ExecutableMustBeAbsolute { executable });
        }
        if timeout.is_zero() {
            return Err(GitAcquisitionConfigError::TimeoutMustBePositive);
        }
        if timeout.is_longer_than(max_git_acquisition_timeout()) {
            return Err(
                GitAcquisitionConfigError::TimeoutTooLarge {
                    actual: timeout,
                    maximum_secs: MAX_GIT_ACQUISITION_SECONDS,
                },
            );
        }
        if transfer_limit == 0 {
            return Err(GitAcquisitionConfigError::TransferLimitMustBePositive);
        }
        if transfer_limit > MAX_GIT_TRANSFER_BYTES {
            return Err(
                GitAcquisitionConfigError::TransferLimitTooLarge {
                    actual: transfer_limit,
                    maximum: MAX_GIT_TRANSFER_BYTES,
                },
            );
        }
        Ok(GitAcquisitionConfig { executable, timeout, transfer_limit })
    }

    /// Returns the caller-selected executable without consulting `PATH`.
    pub fn executable(&self) -> (executable: &[u8])
        ensures
            executable@ == self@.executable,
            path::is_absolute(executable@),
    {
        proof {
            use_type_invariant(self);
        }
        self.executable.as_slice()
    }

    /// Returns the per-process wall-clock limit.
    pub fn timeout(&self) -> (timeout: Duration)
        ensures
            timeout == self@.timeout,
            0 < time::total_nanos(timeout) <= MAX_GIT_ACQUISITION_SECONDS * time::NANOS_PER_SECOND,
    {
        proof {
            use_type_invariant(self);
        }
        self.timeout
    }

    /// Returns the maximum regular-file growth allowed during fetch.
    pub fn transfer_limit(&self) -> (limit: u64)
        ensures
            limit == self@.transfer_limit,
            0 < limit <= MAX_GIT_TRANSFER_BYTES,
    {
        proof {
            use_type_invariant(self);
        }
        self.transfer_limit
    }
}

/// A configuration passes exactly where its executable is absolute and its time and its transfer
/// are bounded by something positive that is not too large. The error tells what was asked for.
pub proof fn lemma_only_bounded_configurations_pass(model: GitConfigModel)
    ensures
        ({
            let nanos = model.timeout.secs_part() * 1_000_000_000 + model.timeout.nanos_part();
            match config_problem(model) {
                None => model.executable.len() > 0 && model.executable[0] == 47 && 0 < nanos
                    <= 600 * 1_000_000_000 && 0 < model.transfer_limit <= MAX_GIT_TRANSFER_BYTES,
                Some(GitAcquisitionConfigError::ExecutableMustBeAbsolute { executable }) =>
                    executable == model.executable && (executable.len() == 0 || executable[0]
                    != 47),
                Some(GitAcquisitionConfigError::TimeoutMustBePositive) => nanos == 0,
                Some(GitAcquisitionConfigError::TimeoutTooLarge { actual, maximum_secs }) => actual
                    == model.timeout && maximum_secs == 600 && nanos > 600 * 1_000_000_000,
                Some(GitAcquisitionConfigError::TransferLimitMustBePositive) =>
                    model.transfer_limit == 0,
                Some(GitAcquisitionConfigError::TransferLimitTooLarge { actual, maximum }) => actual
                    == model.transfer_limit && maximum == MAX_GIT_TRANSFER_BYTES && actual
                    > maximum,
            }
        }),
{
}

} // verus!
