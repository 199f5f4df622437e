//! Plain values that the engine exchanges with its host.

use vstd::prelude::*;

use crate::seqs::copy_bytes;
use crate::text;
use crate::text::{concat2, octal4_text};

verus! {

/// One logical file returned by an exact-Git host adapter.
///
/// Paths are intentionally raw at this boundary. Engine validates every path,
/// tree constraint, manifest, and digest before publication.
#[derive(Debug, Eq, PartialEq)]
pub struct GitPackFile {
    path: String,
    bytes: Vec<u8>,
    mode: u32,
}

/// What a committed file holds.
pub struct PackFileModel {
    pub path: Seq<char>,
    pub bytes: Seq<u8>,
    pub mode: u32,
}

/// The permission modes that Git commits.
pub open spec fn is_normalized_mode(mode: u32) -> bool {
    mode == 0o644 || mode == 0o755
}

impl View for GitPackFile {
    type V = PackFileModel;

    closed spec fn view(&self) -> PackFileModel {
        PackFileModel { path: self.path@, bytes: self.bytes@, mode: self.mode }
    }
}

impl Clone for GitPackFile {
    fn clone(&self) -> (copy: Self)
        ensures
            copy@ == self@,
    {
        proof {
            use_type_invariant(self);
        }
        GitPackFile {
            path: self.path.clone(),
            bytes: copy_bytes(self.bytes.as_slice()),
            mode: self.mode,
        }
    }
}

impl GitPackFile {
    #[verifier::type_invariant]
    spec fn has_committed_mode(&self) -> bool {
        is_normalized_mode(self.mode)
    }

    /// Creates a non-executable committed regular file.
    pub fn new(path: String, bytes: Vec<u8>) -> (file: Self)
        ensures
            file@ == (PackFileModel { path: path@, bytes: bytes@, mode: 0o644 }),
    {
        GitPackFile { path, bytes, mode: 0o644 }
    }

    /// Creates a committed regular file with an exact normalized Git mode.
    pub fn with_mode(path: String, bytes: Vec<u8>, mode: u32) -> (file: Result<
        Self,
        GitPackFileModeError,
    >)
        ensures
            file is Ok <==> is_normalized_mode(mode),
            file matches Ok(file) ==> file@ == (PackFileModel { path: path@, bytes: bytes@, mode }),
            file matches Err(error) ==> error.rejected() == mode,
    {
        if mode != 0o644 && mode != 0o755 {
            return Err(GitPackFileModeError { mode });
        }
        Ok(GitPackFile { path, bytes, mode })
    }

    /// Returns the raw path.
    pub fn path(&self) -> (path: &str)
        ensures
            path@ == self@.path,
    {
        self.path.as_str()
    }

    /// Returns the exact bytes.
    pub fn bytes(&self) -> (bytes: &[u8])
        ensures
            bytes@ == self@.bytes,
    {
        self.bytes.as_slice()
    }

    /// Returns the normalized permission-only Git mode (`0644` or `0755`).
    pub fn mode(&self) -> (mode: u32)
        ensures
            mode == self@.mode,
            is_normalized_mode(mode),
    {
        proof {
            use_type_invariant(self);
        }
        self.mode
    }

    /// Consumes the file into its path and exact bytes.
    pub fn into_parts(self) -> (parts: (String, Vec<u8>))
        ensures
            parts.0@ == self@.path,
            parts.1@ == self@.bytes,
    {
        (self.path, self.bytes)
    }

    /// Consumes the file into its path, exact bytes, and normalized mode.
    pub fn into_mode_parts(self) -> (parts: (String, Vec<u8>, u32))
        ensures
            parts.0@ == self@.path,
            parts.1@ == self@.bytes,
            parts.2 == self@.mode,
            is_normalized_mode(parts.2),
    {
        proof {
            use_type_invariant(&self);
        }
        (self.path, self.bytes, self.mode)
    }
}

/// A custom exact-Git adapter supplied a mode outside Git's regular-file set.
#[derive(Clone, Copy, Debug, PartialEq, Eq, Structural)]
pub struct GitPackFileModeError {
    mode: u32,
}

impl GitPackFileModeError {
    /// The rejected mode.
    pub closed spec fn rejected(self) -> u32 {
        self.mode
    }

    /// Returns the rejected mode.
    pub fn mode(self) -> (mode: u32)
        ensures
            mode == self.rejected(),
    {
        self.mode
    }

    /// Returns the message of the error.
    pub fn message(self) -> (message: String)
        ensures
            message@ == "Git pack file mode must be 0644 or 0755, got "@ + text::octal4(
                self.rejected() as nat,
            ),
    {
        concat2(
            "Git pack file mode must be 0644 or 0755, got ",
            octal4_text(self.mode).as_str(),
        )
    }
}

/// Caller-supplied process facts frozen when an Engine is constructed.
///
/// Custom embedders are trusted to supply facts that describe their security context.
#[derive(Clone, Copy, Debug, PartialEq, Eq)]
pub struct ProcessFacts {
    effective_user_id: u32,
    open_file_soft_limit: Option<u64>,
}

impl ProcessFacts {
    /// The user that owns the engine's process.
    pub closed spec fn user(self) -> u32 {
        self.effective_user_id
    }

    /// The process's soft limit on open files, where it has one.
    pub closed spec fn soft_limit(self) -> Option<u64> {
        self.open_file_soft_limit
    }

    /// Collects the facts.
    pub fn new(effective_user_id: u32, open_file_soft_limit: Option<u64>) -> (facts: Self)
        ensures
            facts.user() == effective_user_id,
            facts.soft_limit() == open_file_soft_limit,
    {
        ProcessFacts { effective_user_id, open_file_soft_limit }
    }

    /// Returns the user that owns the engine's process.
    pub fn effective_user_id(self) -> (user: u32)
        ensures
            user == self.user(),
    {
        self.effective_user_id
    }

    /// Returns the process's soft limit on open files, where it has one.
    pub fn open_file_soft_limit(self) -> (limit: Option<u64>)
        ensures
            limit == self.soft_limit(),
    {
        self.open_file_soft_limit
    }
}

/// Operational failure from the isolated format-component execution adapter.
#[derive(Clone, Debug, Eq, PartialEq)]
pub struct FormatComponentExecutionIssue {
    reason: String,
}

impl View for FormatComponentExecutionIssue {
    type V = Seq<char>;

    closed spec fn view(&self) -> Seq<char> {
        self.reason@
    }
}

impl FormatComponentExecutionIssue {
    /// Describes a failure.
    pub fn new(reason: String) -> (issue: Self)
        ensures
            issue@ == reason@,
    {
        FormatComponentExecutionIssue { reason }
    }

    /// Returns the description of the failure.
    pub fn reason(&self) -> (reason: &str)
        ensures
            reason@ == self@,
    {
        self.reason.as_str()
    }
}

/// Supplies cryptographically secure bytes without granting path authority.
pub trait SecureRandomPort: Send + Sync + 'static {
    /// Fills the output with fresh random bytes, or says why it cannot.
    fn fill(&self, output: &mut [u8]) -> Result<(), String>;
}

/// The failure of an engine that has no format-component execution adapter.
pub fn no_execution_adapter() -> (issue: FormatComponentExecutionIssue)
    ensures
        issue@ == "no format-component execution adapter was configured"@,
{
    FormatComponentExecutionIssue::new(
        "no format-component execution adapter was configured".to_owned(),
    )
}

} // verus!
