//! Supervision of a running Git process and of the scratch space it fills.

use vstd::prelude::*;

use crate::git::issue::{GitAcquisitionIssue, GitCommandStage};
use crate::git::process;
use crate::git::process::{check_output_limit, ExitReport};
use crate::time::Duration;

verus! {

/// Most directory entries measured in one scan of the scratch space.
pub const MAX_SCRATCH_SCAN_ENTRIES: usize = 500_000;

/// Deepest directory measured in one scan of the scratch space.
pub const MAX_SCRATCH_SCAN_DEPTH: usize = 128;

/// Longest time for the scan that precedes a process, in seconds.
pub const MAX_SCRATCH_SCAN_SECONDS: u64 = 1;

/// Room for a process to grow the scratch space.
#[derive(Clone, Copy, Debug, PartialEq, Eq, Structural)]
pub struct ScratchBudget {
    /// Bytes in the scratch space before the process was started.
    pub baseline: u64,
    /// Bytes that the process may add.
    pub limit: u64,
}

impl ScratchBudget {
    /// The most bytes that the scratch space may hold.
    pub open spec fn ceiling(self) -> u64 {
        if self.baseline + self.limit > u64::MAX {
            u64::MAX
        } else {
            (self.baseline + self.limit) as u64
        }
    }

    /// Returns the most bytes that the scratch space may hold.
    pub fn cutoff(self) -> (bytes: u64)
        ensures
            bytes == self.ceiling(),
    {
        self.baseline.saturating_add(self.limit)
    }
}

/// Why the scratch space could not be measured; `T` is the type of its text.
#[derive(Debug)]
pub enum ScanFailure<T = String> {
    /// The deadline passed.
    TimedOut,
    /// Something else, in words.
    Other(T),
}

impl View for ScanFailure<String> {
    type V = ScanFailure<Seq<char>>;

    open spec fn view(&self) -> ScanFailure<Seq<char>> {
        match *self {
            ScanFailure::TimedOut => ScanFailure::TimedOut,
            ScanFailure::Other(detail) => ScanFailure::Other(detail@),
        }
    }
}

/// What is supervised.
#[derive(Clone, Copy, Debug)]
pub struct Supervisor {
    /// The stage that the process performs.
    pub stage: GitCommandStage,
    /// Its wall-clock limit.
    pub timeout: Duration,
    /// Its standard output is bounded too.
    pub watch_stdout: bool,
    /// The most bytes on a bounded stream.
    pub output_limit: u64,
    /// The bound on the scratch space, where there is one.
    pub budget: Option<ScratchBudget>,
}

/// What to do next with the supervised process; `T` is the type of texts.
#[derive(Debug)]
pub enum SuperviseAction<T = String> {
    /// Measure the scratch space, up to `cutoff` bytes, while the process runs.
    Measure { cutoff: u64 },
    /// Ask whether the process has exited.
    Poll,
    /// Ask whether the deadline has passed.
    CheckClock,
    /// Wait a moment, then look at the output streams again.
    Pause,
    /// Kill the process group, collect the process, then report the issue.
    Stop(GitAcquisitionIssue<T>),
    /// Kill what is left of the process group and collect the exited process.
    Collect,
    /// Measure the scratch space once more, up to `cutoff` bytes.
    MeasureFinal { cutoff: u64 },
    /// Report the issue.
    Fail(GitAcquisitionIssue<T>),
    /// Report how the process ended.
    Done(ExitReport),
}

impl View for SuperviseAction<String> {
    type V = SuperviseAction<Seq<char>>;

    open spec fn view(&self) -> SuperviseAction<Seq<char>> {
        match *self {
            SuperviseAction::Measure { cutoff } => SuperviseAction::Measure { cutoff },
            SuperviseAction::Poll => SuperviseAction::Poll,
            SuperviseAction::CheckClock => SuperviseAction::CheckClock,
            SuperviseAction::Pause => SuperviseAction::Pause,
            SuperviseAction::Stop(issue) => SuperviseAction::Stop(issue@),
            SuperviseAction::Collect => SuperviseAction::Collect,
            SuperviseAction::MeasureFinal { cutoff } => SuperviseAction::MeasureFinal { cutoff },
            SuperviseAction::Fail(issue) => SuperviseAction::Fail(issue@),
            SuperviseAction::Done(report) => SuperviseAction::Done(report),
        }
    }
}

/// The issue of a scratch space that could not be measured.
pub open spec fn scan_issue(supervisor: Supervisor, failure: ScanFailure<Seq<char>>) ->
    GitAcquisitionIssue<Seq<char>> {
    match failure {
        ScanFailure::TimedOut => GitAcquisitionIssue::Timeout {
            stage: supervisor.stage,
            limit: supervisor.timeout,
        },
        ScanFailure::Other(detail) => GitAcquisitionIssue::ProcessIo {
            stage: supervisor.stage,
            operation: "measure Git scratch usage"@,
            detail,
        },
    }
}

/// The issue of a scratch space that has grown too large.
pub open spec fn transfer_issue(supervisor: Supervisor, budget: ScratchBudget) ->
    GitAcquisitionIssue<Seq<char>> {
    GitAcquisitionIssue::TransferLimitExceeded { stage: supervisor.stage, limit: budget.limit }
}

/// After the output streams have been looked at.
pub open spec fn on_flags(supervisor: Supervisor, flags: u8) -> SuperviseAction<Seq<char>> {
    match process::overflowing_stream(flags, supervisor.watch_stdout) {
        Some(stream) => SuperviseAction::Stop(
            GitAcquisitionIssue::OutputLimitExceeded {
                stage: supervisor.stage,
                stream,
                limit: supervisor.output_limit,
            },
        ),
        None => match supervisor.budget {
            Some(budget) => SuperviseAction::Measure { cutoff: budget.ceiling() },
            None => SuperviseAction::Poll,
        },
    }
}

/// After the scratch space of a running process has been measured.
pub open spec fn on_usage(supervisor: Supervisor, usage: Result<u64, ScanFailure<Seq<char>>>) ->
    SuperviseAction<Seq<char>> {
    match usage {
        Err(failure) => SuperviseAction::Stop(scan_issue(supervisor, failure)),
        Ok(bytes) => match supervisor.budget {
            Some(budget) => if bytes > budget.ceiling() {
                SuperviseAction::Stop(transfer_issue(supervisor, budget))
            } else {
                SuperviseAction::Poll
            },
            None => SuperviseAction::Poll,
        },
    }
}

/// After the process has been asked for.
pub open spec fn on_poll(supervisor: Supervisor, exited: Result<bool, Seq<char>>) ->
    SuperviseAction<Seq<char>> {
    match exited {
        Err(detail) => SuperviseAction::Stop(
            GitAcquisitionIssue::ProcessIo {
                stage: supervisor.stage,
                operation: "inspect Git process status"@,
                detail,
            },
        ),
        Ok(true) => SuperviseAction::Collect,
        Ok(false) => SuperviseAction::CheckClock,
    }
}

/// After the clock has been looked at.
pub open spec fn on_clock(supervisor: Supervisor, expired: bool) -> SuperviseAction<Seq<char>> {
    if expired {
        SuperviseAction::Stop(
            GitAcquisitionIssue::Timeout { stage: supervisor.stage, limit: supervisor.timeout },
        )
    } else {
        SuperviseAction::Pause
    }
}

/// After the exited process has been collected.
pub open spec fn on_exit(supervisor: Supervisor, report: ExitReport) -> SuperviseAction<
    Seq<char>,
> {
    match supervisor.budget {
        Some(budget) => SuperviseAction::MeasureFinal { cutoff: budget.ceiling() },
        None => SuperviseAction::Done(report),
    }
}

/// After the scratch space of an exited process has been measured.
pub open spec fn on_final_usage(
    supervisor: Supervisor,
    report: ExitReport,
    usage: Result<u64, ScanFailure<Seq<char>>>,
) -> SuperviseAction<Seq<char>> {
    match usage {
        Err(failure) => SuperviseAction::Fail(scan_issue(supervisor, failure)),
        Ok(bytes) => match supervisor.budget {
            Some(budget) => if bytes > budget.ceiling() || (!report.success && (
            report.file_size_signal || bytes >= budget.ceiling())) {
                SuperviseAction::Fail(transfer_issue(supervisor, budget))
            } else {
                SuperviseAction::Done(report)
            },
            None => SuperviseAction::Done(report),
        },
    }
}

/// A process that is reported to have ended left its scratch space within bounds.
pub proof fn lemma_reported_exit_is_within_bounds(
    supervisor: Supervisor,
    report: ExitReport,
    usage: Result<u64, ScanFailure<Seq<char>>>,
)
    requires
        on_final_usage(supervisor, report, usage) is Done,
    ensures
        usage is Ok,
        supervisor.budget matches Some(budget) ==> usage->Ok_0 <= budget.baseline + budget.limit,
{
}

fn scan_failure_issue(supervisor: &Supervisor, failure: ScanFailure) -> (issue:
    GitAcquisitionIssue)
    ensures
        issue@ == scan_issue(*supervisor, failure@),
{
    match failure {
        ScanFailure::TimedOut => GitAcquisitionIssue::Timeout {
            stage: supervisor.stage,
            limit: supervisor.timeout,
        },
        ScanFailure::Other(detail) => GitAcquisitionIssue::ProcessIo {
            stage: supervisor.stage,
            operation: "measure Git scratch usage".to_owned(),
            detail,
        },
    }
}

/// The view of a measurement.
pub open spec fn usage_view(usage: Result<u64, ScanFailure>) -> Result<
    u64,
    ScanFailure<Seq<char>>,
> {
    match usage {
        Ok(bytes) => Ok(bytes),
        Err(failure) => Err(failure@),
    }
}

impl Supervisor {
    /// Decides after the output streams have been looked at.
    pub fn after_flags(&self, flags: u8) -> (action: SuperviseAction)
        ensures
            action@ == on_flags(*self, flags),
    {
        match check_output_limit(self.stage, flags, self.watch_stdout, self.output_limit) {
            Err(issue) => SuperviseAction::Stop(issue),
            Ok(()) => match self.budget {
                Some(budget) => SuperviseAction::Measure { cutoff: budget.cutoff() },
                None => SuperviseAction::Poll,
            },
        }
    }

    /// Decides after the scratch space of a running process has been measured.
    pub fn after_usage(&self, usage: Result<u64, ScanFailure>) -> (action: SuperviseAction)
        ensures
            action@ == on_usage(*self, usage_view(usage)),
    {
        match usage {
            Err(failure) => SuperviseAction::Stop(scan_failure_issue(self, failure)),
            Ok(bytes) => match self.budget {
                Some(budget) => if bytes > budget.cutoff() {
                    SuperviseAction::Stop(
                        GitAcquisitionIssue::TransferLimitExceeded {
                            stage: self.stage,
                            limit: budget.limit,
                        },
                    )
                } else {
                    SuperviseAction::Poll
                },
                None => SuperviseAction::Poll,
            },
        }
    }

    /// Decides after the process has been asked for.
    pub fn after_poll(&self, exited: Result<bool, String>) -> (action: SuperviseAction)
        ensures
            action@ == on_poll(
                *self,
                match exited {
                    Ok(value) => Ok(value),
                    Err(detail) => Err(detail@),
                },
            ),
    {
        match exited {
            Err(detail) => SuperviseAction::Stop(
                GitAcquisitionIssue::ProcessIo {
                    stage: self.stage,
                    operation: "inspect Git process status".to_owned(),
                    detail,
                },
            ),
            Ok(value) => if value {
                SuperviseAction::Collect
            } else {
                SuperviseAction::CheckClock
            },
        }
    }

    /// Decides after the clock has been looked at.
    pub fn after_clock(&self, expired: bool) -> (action: SuperviseAction)
        ensures
            action@ == on_clock(*self, expired),
    {
        if expired {
            SuperviseAction::Stop(
                GitAcquisitionIssue::Timeout { stage: self.stage, limit: self.timeout },
            )
        } else {
            SuperviseAction::Pause
        }
    }

    /// Decides after the exited process has been collected.
    pub fn after_exit(&self, report: ExitReport) -> (action: SuperviseAction)
        ensures
            action@ == on_exit(*self, report),
    {
        match self.budget {
            Some(budget) => SuperviseAction::MeasureFinal { cutoff: budget.cutoff() },
            None => SuperviseAction::Done(report),
        }
    }

    /// Decides after the scratch space of an exited process has been measured.
    pub fn after_final_usage(&self, report: ExitReport, usage: Result<u64, ScanFailure>) -> (action:
        SuperviseAction)
        ensures
            action@ == on_final_usage(*self, report, usage_view(usage)),
    {
        match usage {
            Err(failure) => SuperviseAction::Fail(scan_failure_issue(self, failure)),
            Ok(bytes) => match self.budget {
                Some(budget) => {
                    let cutoff: u64 = budget.cutoff();
                    if bytes > cutoff || (!report.success && (report.file_size_signal || bytes
                        >= cutoff)) {
                        SuperviseAction::Fail(
                            GitAcquisitionIssue::TransferLimitExceeded {
                                stage: self.stage,
                                limit: budget.limit,
                            },
                        )
                    } else {
                        SuperviseAction::Done(report)
                    }
                },
                None => SuperviseAction::Done(report),
            },
        }
    }

    /// Describes a scan that failed before the process was started.
    pub fn scan_failed(&self, failure: ScanFailure) -> (issue: GitAcquisitionIssue)
        ensures
            issue@ == scan_issue(*self, failure@),
    {
        scan_failure_issue(self, failure)
    }
}

/// One scan of the scratch space: entries looked at, bytes found, and the number of bytes
/// beyond which the scan need not go on.
#[derive(Clone, Copy, Debug, PartialEq, Eq, Structural)]
pub struct ScratchScan {
    pub entries: usize,
    pub total: u64,
    pub cutoff: u64,
}

/// The sum, or the largest 64-bit number where the sum is larger.
pub open spec fn capped(value: int) -> u64 {
    if value > u64::MAX {
        u64::MAX
    } else {
        value as u64
    }
}

/// A signed count as the kernel reports it; a negative one counts nothing.
pub open spec fn reported_count(value: i64) -> nat {
    if value < 0 {
        0
    } else {
        value as nat
    }
}

/// The bytes that a file occupies: its length or its allocated blocks, whichever is more.
pub open spec fn occupied(size: i64, blocks: i64) -> u64 {
    let allocated = capped((reported_count(blocks) * 512) as int);
    if reported_count(size) > allocated {
        reported_count(size) as u64
    } else {
        allocated
    }
}

impl ScratchScan {
    /// Starts a scan.
    pub fn new(cutoff: u64) -> (scan: Self)
        ensures
            scan == (ScratchScan { entries: 0, total: 0, cutoff }),
    {
        ScratchScan { entries: 0, total: 0, cutoff }
    }

    /// Checks the deadline.
    pub fn ensure_deadline(&self, expired: bool) -> (checked: Result<(), ScanFailure>)
        ensures
            checked is Ok <==> !expired,
            checked matches Err(failure) ==> failure@ == ScanFailure::<Seq<char>>::TimedOut,
    {
        if expired {
            Err(ScanFailure::TimedOut)
        } else {
            Ok(())
        }
    }

    /// Checks the depth of a directory before it is read.
    pub fn enter_directory(&self, depth: usize) -> (checked: Result<(), ScanFailure>)
        ensures
            checked is Ok <==> depth <= MAX_SCRATCH_SCAN_DEPTH,
            checked matches Err(failure) ==> failure@ == ScanFailure::<Seq<char>>::Other(
                "Git scratch nesting exceeds its scan limit"@,
            ),
    {
        if depth > MAX_SCRATCH_SCAN_DEPTH {
            return Err(
                ScanFailure::Other("Git scratch nesting exceeds its scan limit".to_owned()),
            );
        }
        Ok(())
    }

    /// Counts one directory entry.
    pub fn count_entry(&mut self) -> (counted: Result<(), ScanFailure>)
        requires
            old(self).entries <= MAX_SCRATCH_SCAN_ENTRIES,
        ensures
            final(self).total == old(self).total,
            final(self).cutoff == old(self).cutoff,
            final(self).entries <= MAX_SCRATCH_SCAN_ENTRIES,
            counted is Ok <==> old(self).entries < MAX_SCRATCH_SCAN_ENTRIES,
            counted is Ok ==> final(self).entries == old(self).entries + 1,
            counted matches Err(failure) ==> final(self).entries == old(self).entries && failure@
                == ScanFailure::<Seq<char>>::Other(
                "Git scratch contains too many entries to measure safely"@,
            ),
    {
        if self.entries == MAX_SCRATCH_SCAN_ENTRIES {
            return Err(
                ScanFailure::Other(
                    "Git scratch contains too many entries to measure safely".to_owned(),
                ),
            );
        }
        self.entries = self.entries + 1;
        Ok(())
    }

    /// Adds a regular file and tells whether the scan can stop.
    pub fn add_file(&mut self, size: i64, blocks: i64) -> (stop: bool)
        ensures
            final(self).entries == old(self).entries,
            final(self).cutoff == old(self).cutoff,
            final(self).total == capped(old(self).total + occupied(size, blocks)),
            stop == (final(self).total > final(self).cutoff),
    {
        let logical: u64 = if size < 0 {
            0
        } else {
            size as u64
        };
        let count: u64 = if blocks < 0 {
            0
        } else {
            blocks as u64
        };
        let allocated: u64 = match count.checked_mul(512) {
            Some(bytes) => bytes,
            None => u64::MAX,
        };
        let larger: u64 = if logical > allocated {
            logical
        } else {
            allocated
        };
        self.total = self.total.saturating_add(larger);
        self.total > self.cutoff
    }

    /// Tells whether the scan can stop.
    pub fn is_over(&self) -> (stop: bool)
        ensures
            stop == (self.total > self.cutoff),
    {
        self.total > self.cutoff
    }
}

/// A running process goes on exactly while no bounded stream has grown too long, the scratch
/// space stays within its bound, it can be looked at and its time is not up; what stops it tells
/// the stage and the bound that it exceeded.
pub proof fn lemma_processes_are_stopped_at_their_bounds(
    supervisor: Supervisor,
    flags: u8,
    usage: Result<u64, ScanFailure<Seq<char>>>,
    exited: Result<bool, Seq<char>>,
    expired: bool,
)
    ensures
        match on_flags(supervisor, flags) {
            SuperviseAction::Stop(GitAcquisitionIssue::OutputLimitExceeded {
                stage,
                stream,
                limit,
            }) => stage == supervisor.stage && limit == supervisor.output_limit
                && process::overflowing_stream(flags, supervisor.watch_stdout) == Some(stream),
            SuperviseAction::Measure { cutoff } => process::overflowing_stream(
                flags,
                supervisor.watch_stdout,
            ) is None && (supervisor.budget matches Some(budget) && (budget.baseline + budget.limit
                <= u64::MAX ==> cutoff == budget.baseline + budget.limit)),
            SuperviseAction::Poll => process::overflowing_stream(flags, supervisor.watch_stdout)
                is None && supervisor.budget is None,
            _ => false,
        },
        match on_usage(supervisor, usage) {
            SuperviseAction::Stop(GitAcquisitionIssue::Timeout { stage, limit }) => stage
                == supervisor.stage && limit == supervisor.timeout && (usage matches Err(failure)
                && failure is TimedOut),
            SuperviseAction::Stop(GitAcquisitionIssue::ProcessIo { stage, operation: _, detail }) =>
                stage == supervisor.stage && (usage matches Err(failure) && failure
                == ScanFailure::Other(detail)),
            SuperviseAction::Stop(GitAcquisitionIssue::TransferLimitExceeded { stage, limit }) =>
                stage == supervisor.stage && (usage matches Ok(bytes) && (
            supervisor.budget matches Some(budget) && limit == budget.limit && bytes
                > budget.baseline + budget.limit)),
            SuperviseAction::Poll => usage matches Ok(bytes) && (supervisor.budget matches Some(
                budget,
            ) ==> bytes <= budget.baseline + budget.limit),
            _ => false,
        },
        match on_poll(supervisor, exited) {
            SuperviseAction::Collect => exited matches Ok(is_gone) && is_gone,
            SuperviseAction::CheckClock => exited matches Ok(is_gone) && !is_gone,
            SuperviseAction::Stop(GitAcquisitionIssue::ProcessIo { stage, operation: _, detail }) =>
                stage == supervisor.stage && exited == Err::<bool, Seq<char>>(detail),
            _ => false,
        },
        match on_clock(supervisor, expired) {
            SuperviseAction::Stop(GitAcquisitionIssue::Timeout { stage, limit }) => expired && stage
                == supervisor.stage && limit == supervisor.timeout,
            SuperviseAction::Pause => !expired,
            _ => false,
        },
{
}

/// An exit is reported as it was, unless the scratch space went beyond its bound, or the process
/// failed at that bound.
pub proof fn lemma_exits_are_reported_as_they_were(
    supervisor: Supervisor,
    report: ExitReport,
    usage: Result<u64, ScanFailure<Seq<char>>>,
)
    ensures
        match on_exit(supervisor, report) {
            SuperviseAction::Done(told) => told == report && supervisor.budget is None,
            SuperviseAction::MeasureFinal { cutoff: _ } => supervisor.budget is Some,
            _ => false,
        },
        match on_final_usage(supervisor, report, usage) {
            SuperviseAction::Done(told) => told == report && usage is Ok,
            SuperviseAction::Fail(GitAcquisitionIssue::TransferLimitExceeded { stage, limit }) =>
                stage == supervisor.stage && (supervisor.budget matches Some(budget) && limit
                == budget.limit && (usage matches Ok(bytes) && (bytes > budget.baseline
                + budget.limit || !report.success))),
            SuperviseAction::Fail(_) => usage is Err,
            _ => false,
        },
        supervisor.budget matches Some(budget) ==> (usage matches Ok(bytes) ==> (report.success
            && bytes <= budget.baseline + budget.limit ==> on_final_usage(supervisor, report, usage)
            is Done)),
{
}

/// A file occupies its size or its allocated blocks, whichever is more.
pub proof fn lemma_files_occupy_the_larger_of_size_and_blocks(size: i64, blocks: i64)
    requires
        0 <= size,
        0 <= blocks,
        blocks * 512 <= u64::MAX,
    ensures
        occupied(size, blocks) >= size,
        occupied(size, blocks) >= blocks * 512,
        occupied(size, blocks) == size || occupied(size, blocks) == blocks * 512,
{
}

} // verus!
