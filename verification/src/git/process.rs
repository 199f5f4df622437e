//! Command lines of the Git subprocess, and what is kept of its output.

use vstd::prelude::*;
use vstd::utf8::*;

use crate::git::issue::{GitAcquisitionIssue, GitCommandStage, GitOutputStream};
use crate::git::object::GitObjectFormat;
use crate::ports::GitPackFile;
use crate::seqs;
use crate::text;
use crate::text::{characters, from_characters, lossy_text};

verus! {

/// The whole environment of a Git process.
pub open spec fn git_environment() -> Seq<(Seq<char>, Seq<char>)> {
    seq![
        ("LC_ALL"@, "C"@),
        ("LANG"@, "C"@),
        ("HOME"@, "/dev/null"@),
        ("XDG_CONFIG_HOME"@, "/dev/null"@),
        ("TMPDIR"@, "."@),
        ("GIT_CONFIG_NOSYSTEM"@, "1"@),
        ("GIT_CONFIG_GLOBAL"@, "/dev/null"@),
        ("GIT_TERMINAL_PROMPT"@, "0"@),
        ("GIT_ASKPASS"@, ""@),
        ("SSH_ASKPASS"@, ""@),
        ("GCM_INTERACTIVE"@, "never"@),
        ("GIT_ALLOW_PROTOCOL"@, "https"@),
        ("GIT_PROTOCOL_FROM_USER"@, "0"@),
        ("GIT_NO_REPLACE_OBJECTS"@, "1"@),
        ("GIT_LITERAL_PATHSPECS"@, "1"@),
        ("GIT_ATTR_NOSYSTEM"@, "1"@),
        ("GIT_FLUSH"@, "1"@),
    ]
}

/// Configuration values that every Git process gets.
pub open spec fn git_settings() -> Seq<Seq<char>> {
    seq![
        "core.hooksPath=/dev/null"@,
        "credential.helper="@,
        "credential.interactive=never"@,
        "protocol.file.allow=never"@,
        "protocol.ext.allow=never"@,
        "protocol.https.allow=always"@,
        "fetch.fsckObjects=true"@,
        "transfer.fsckObjects=true"@,
        "gc.auto=0"@,
        "maintenance.auto=false"@,
        "fetch.writeCommitGraph=false"@,
        "http.followRedirects=false"@,
        "http.lowSpeedLimit=1024"@,
        "http.lowSpeedTime=60"@,
    ]
}

/// Each value behind a `-c`.
pub open spec fn setting_arguments(settings: Seq<Seq<char>>) -> Seq<Seq<char>>
    decreases settings.len(),
{
    if settings.len() == 0 {
        Seq::empty()
    } else {
        setting_arguments(settings.drop_last()).push("-c"@).push(settings.last())
    }
}

/// The command line of a Git process: no pager, the fixed configuration, then `arguments`.
pub open spec fn command_line(arguments: Seq<Seq<char>>) -> Seq<Seq<char>> {
    seq!["--no-pager"@] + setting_arguments(git_settings()) + arguments
}

/// The arguments that initialize a scratch repository.
pub open spec fn init_arguments(format: GitObjectFormat) -> Seq<Seq<char>> {
    seq![
        "init"@,
        "--bare"@,
        "--quiet"@,
        match format {
            GitObjectFormat::Sha1 => "--object-format=sha1"@,
            GitObjectFormat::Sha256 => "--object-format=sha256"@,
        },
        "."@,
    ]
}

/// The arguments that fetch one exact object.
pub open spec fn fetch_arguments(url: Seq<char>, oid: Seq<char>) -> Seq<Seq<char>> {
    seq![
        "--git-dir=."@,
        "fetch"@,
        "--quiet"@,
        "--no-progress"@,
        "--no-tags"@,
        "--no-write-fetch-head"@,
        "--no-recurse-submodules"@,
        "--no-auto-maintenance"@,
        "--no-write-commit-graph"@,
        "--depth=1"@,
        url,
        oid,
    ]
}

/// The arguments that serve raw objects.
pub open spec fn read_arguments() -> Seq<Seq<char>> {
    seq!["--git-dir=."@, "cat-file"@, "--batch"@]
}

/// The arguments that resolve a selector.
pub open spec fn resolve_arguments(url: Seq<char>, selector: Seq<char>) -> Seq<Seq<char>> {
    seq!["ls-remote"@, "--refs"@, "--exit-code"@, "--"@, url, selector]
}

/// The views of pairs.
pub open spec fn pair_views(pairs: Seq<(String, String)>) -> Seq<(Seq<char>, Seq<char>)> {
    pairs.map_values(|pair: (String, String)| (pair.0@, pair.1@))
}

fn variable(name: &str, value: &str) -> (pair: (String, String))
    ensures
        pair.0@ == name@,
        pair.1@ == value@,
{
    (name.to_owned(), value.to_owned())
}

/// Returns the whole environment of a Git process.
pub fn environment() -> (variables: Vec<(String, String)>)
    ensures
        pair_views(variables@) == git_environment(),
{
    let variables = vec![
        variable("LC_ALL", "C"),
        variable("LANG", "C"),
        variable("HOME", "/dev/null"),
        variable("XDG_CONFIG_HOME", "/dev/null"),
        variable("TMPDIR", "."),
        variable("GIT_CONFIG_NOSYSTEM", "1"),
        variable("GIT_CONFIG_GLOBAL", "/dev/null"),
        variable("GIT_TERMINAL_PROMPT", "0"),
        variable("GIT_ASKPASS", ""),
        variable("SSH_ASKPASS", ""),
        variable("GCM_INTERACTIVE", "never"),
        variable("GIT_ALLOW_PROTOCOL", "https"),
        variable("GIT_PROTOCOL_FROM_USER", "0"),
        variable("GIT_NO_REPLACE_OBJECTS", "1"),
        variable("GIT_LITERAL_PATHSPECS", "1"),
        variable("GIT_ATTR_NOSYSTEM", "1"),
        variable("GIT_FLUSH", "1"),
    ];
    assert(pair_views(variables@) =~= git_environment());
    variables
}

fn settings() -> (values: Vec<String>)
    ensures
        seqs::views(values@) == git_settings(),
{
    let values = vec![
        "core.hooksPath=/dev/null".to_owned(),
        "credential.helper=".to_owned(),
        "credential.interactive=never".to_owned(),
        "protocol.file.allow=never".to_owned(),
        "protocol.ext.allow=never".to_owned(),
        "protocol.https.allow=always".to_owned(),
        "fetch.fsckObjects=true".to_owned(),
        "transfer.fsckObjects=true".to_owned(),
        "gc.auto=0".to_owned(),
        "maintenance.auto=false".to_owned(),
        "fetch.writeCommitGraph=false".to_owned(),
        "http.followRedirects=false".to_owned(),
        "http.lowSpeedLimit=1024".to_owned(),
        "http.lowSpeedTime=60".to_owned(),
    ];
    assert(seqs::views(values@) =~= git_settings());
    values
}

/// Builds the command line of a Git process.
pub fn configured_command(arguments: Vec<String>) -> (line: Vec<String>)
    ensures
        seqs::views(line@) == command_line(seqs::views(arguments@)),
{
    let mut line: Vec<String> = Vec::new();
    line.push("--no-pager".to_owned());
    let values = settings();
    let ghost all = seqs::views(values@);
    let mut i: usize = 0;
    proof {
        assert(all.take(0) =~= Seq::<Seq<char>>::empty());
        assert(seqs::views(line@) =~= seq!["--no-pager"@] + setting_arguments(all.take(0)));
    }
    while i < values.len()
        invariant
            i <= values.len(),
            all == seqs::views(values@),
            seqs::views(line@) == seq!["--no-pager"@] + setting_arguments(all.take(i as int)),
        decreases values.len() - i,
    {
        let ghost before = line@;
        line.push("-c".to_owned());
        line.push(values[i].clone());
        proof {
            assert(all.take(i + 1).drop_last() =~= all.take(i as int));
            assert(all.take(i + 1).last() == values@[i as int]@);
            assert(seqs::views(line@) =~= seqs::views(before).push("-c"@).push(
                values@[i as int]@,
            ));
            assert(seqs::views(line@) =~= seq!["--no-pager"@] + setting_arguments(
                all.take(i + 1),
            ));
        }
        i = i + 1;
    }
    proof {
        assert(all.take(all.len() as int) =~= all);
    }
    let ghost before = line@;
    let mut arguments = arguments;
    let ghost given = arguments@;
    line.append(&mut arguments);
    proof {
        assert(seqs::views(line@) =~= seqs::views(before) + seqs::views(given));
    }
    line
}

/// Builds the command line that initializes a scratch repository.
pub fn initialize_command(format: GitObjectFormat) -> (line: Vec<String>)
    ensures
        seqs::views(line@) == command_line(init_arguments(format)),
{
    let object_format = match format {
        GitObjectFormat::Sha1 => "--object-format=sha1".to_owned(),
        GitObjectFormat::Sha256 => "--object-format=sha256".to_owned(),
    };
    let arguments = vec![
        "init".to_owned(),
        "--bare".to_owned(),
        "--quiet".to_owned(),
        object_format,
        ".".to_owned(),
    ];
    assert(seqs::views(arguments@) =~= init_arguments(format));
    configured_command(arguments)
}

/// Builds the command line that fetches one exact object.
pub fn fetch_command(url: &str, oid: &str) -> (line: Vec<String>)
    ensures
        seqs::views(line@) == command_line(fetch_arguments(url@, oid@)),
{
    let arguments = vec![
        "--git-dir=.".to_owned(),
        "fetch".to_owned(),
        "--quiet".to_owned(),
        "--no-progress".to_owned(),
        "--no-tags".to_owned(),
        "--no-write-fetch-head".to_owned(),
        "--no-recurse-submodules".to_owned(),
        "--no-auto-maintenance".to_owned(),
        "--no-write-commit-graph".to_owned(),
        "--depth=1".to_owned(),
        url.to_owned(),
        oid.to_owned(),
    ];
    assert(seqs::views(arguments@) =~= fetch_arguments(url@, oid@));
    configured_command(arguments)
}

/// Builds the command line that serves raw objects.
pub fn read_command() -> (line: Vec<String>)
    ensures
        seqs::views(line@) == command_line(read_arguments()),
{
    let arguments = vec!["--git-dir=.".to_owned(), "cat-file".to_owned(), "--batch".to_owned()];
    assert(seqs::views(arguments@) =~= read_arguments());
    configured_command(arguments)
}

/// Builds the command line that resolves a selector.
pub fn resolve_command(url: &str, selector: &str) -> (line: Vec<String>)
    ensures
        seqs::views(line@) == command_line(resolve_arguments(url@, selector@)),
{
    let arguments = vec![
        "ls-remote".to_owned(),
        "--refs".to_owned(),
        "--exit-code".to_owned(),
        "--".to_owned(),
        url.to_owned(),
        selector.to_owned(),
    ];
    assert(seqs::views(arguments@) =~= resolve_arguments(url@, selector@));
    configured_command(arguments)
}

/// The smallest of the requested limit and the inherited ones.
pub open spec fn smallest_limit(requested: u64, soft: Option<u64>, hard: Option<u64>) -> u64 {
    let first = if soft matches Some(limit) && limit < requested {
        soft->0
    } else {
        requested
    };
    if hard matches Some(limit) && limit < first {
        hard->0
    } else {
        first
    }
}

/// Returns the file-size limit of the child: what was requested, unless less was inherited.
pub fn effective_file_size_limit(requested: u64, soft: Option<u64>, hard: Option<u64>) -> (limit:
    u64)
    ensures
        limit == smallest_limit(requested, soft, hard),
        limit <= requested,
{
    let first: u64 = match soft {
        Some(limit) => if limit < requested {
            limit
        } else {
            requested
        },
        None => requested,
    };
    match hard {
        Some(limit) => if limit < first {
            limit
        } else {
            first
        },
        None => first,
    }
}

/// What has been kept of an output stream: its first `limit` bytes, and its length.
pub struct Drain {
    retained: Vec<u8>,
    total: u64,
    limit: u64,
}

/// The start of a sequence, up to `count` elements.
pub open spec fn at_most(bytes: Seq<u8>, count: nat) -> Seq<u8> {
    if bytes.len() <= count {
        bytes
    } else {
        bytes.take(count as int)
    }
}

impl Drain {
    /// The bytes kept so far.
    pub closed spec fn kept(&self) -> Seq<u8> {
        self.retained@
    }

    /// The number of bytes seen so far, as far as a 64-bit number can say.
    pub closed spec fn seen(&self) -> u64 {
        self.total
    }

    /// The most bytes kept.
    pub closed spec fn capacity(&self) -> u64 {
        self.limit
    }

    /// This is what is left of the stream `stream`.
    pub open spec fn holds(&self, stream: Seq<u8>) -> bool {
        &&& self.kept() == at_most(stream, self.capacity() as nat)
        &&& self.seen() == if stream.len() > u64::MAX {
            u64::MAX as nat
        } else {
            stream.len()
        }
    }

    /// Starts with an empty stream.
    pub fn new(limit: u64) -> (drain: Self)
        ensures
            drain.capacity() == limit,
            drain.holds(Seq::empty()),
    {
        let drain = Drain { retained: Vec::new(), total: 0, limit };
        assert(drain.kept() =~= at_most(Seq::empty(), limit as nat));
        drain
    }

    /// Takes in the next bytes of the stream and tells whether it has grown too long.
    pub fn accept(&mut self, chunk: &[u8]) -> (overflow: bool)
        ensures
            final(self).capacity() == old(self).capacity(),
            forall|stream: Seq<u8>| #[trigger]
                old(self).holds(stream) ==> final(self).holds(stream + chunk@),
            overflow == (final(self).seen() > final(self).capacity()),
    {
        let ghost before = *self;
        self.total = self.total.saturating_add(chunk.len() as u64);
        let kept: u64 = self.retained.len() as u64;
        let room: u64 = if kept < self.limit {
            self.limit - kept
        } else {
            0
        };
        let take: usize = if (chunk.len() as u64) < room {
            chunk.len()
        } else {
            room as usize
        };
        self.retained.extend_from_slice(&chunk[0..take]);
        proof {
            assert(self.retained@ =~= before.retained@ + chunk@.take(take as int));
            assert forall|stream: Seq<u8>| #[trigger] before.holds(stream) implies self.holds(
                stream + chunk@,
            ) by {
                assert(self.kept() =~= at_most(stream + chunk@, self.capacity() as nat));
            }
        }
        self.total > self.limit
    }

    /// Returns the bytes kept.
    pub fn into_bytes(self) -> (bytes: Vec<u8>)
        ensures
            bytes@ == self.kept(),
    {
        self.retained
    }
}

/// A control character: the first 32, and those from delete to the end of the C1 set.
pub open spec fn is_control(c: char) -> bool {
    (c as u32) < 32 || 127 <= c as u32 <= 159
}

/// A character with the Unicode property White_Space.
pub open spec fn is_white_space(c: char) -> bool {
    let code = c as u32;
    ||| 9 <= code <= 13
    ||| code == 32
    ||| code == 0x85
    ||| code == 0xa0
    ||| code == 0x1680
    ||| 0x2000 <= code <= 0x200a
    ||| code == 0x2028
    ||| code == 0x2029
    ||| code == 0x202f
    ||| code == 0x205f
    ||| code == 0x3000
}

/// A character that control-safe text keeps.
pub open spec fn is_kept(c: char) -> bool {
    c == '\n' || c == '\t' || !is_control(c)
}

/// Text without white space at its ends.
pub open spec fn trimmed(text: Seq<char>) -> Seq<char>
    decreases text.len(),
{
    if text.len() == 0 {
        text
    } else if is_white_space(text[0]) {
        trimmed(text.skip(1))
    } else if is_white_space(text.last()) {
        trimmed(text.drop_last())
    } else {
        text
    }
}

/// Diagnostic text without control characters but line ends and tabs, trimmed.
pub open spec fn control_safe(bytes: Seq<u8>) -> Seq<char> {
    trimmed(text::utf8_lossy(bytes).filter(|c: char| is_kept(c)))
}

fn control(c: char) -> (yes: bool)
    ensures
        yes == is_control(c),
{
    let code: u32 = c as u32;
    code < 32 || (code >= 127 && code <= 159)
}

fn white_space(c: char) -> (yes: bool)
    ensures
        yes == is_white_space(c),
{
    let code: u32 = c as u32;
    (code >= 9 && code <= 13) || code == 32 || code == 0x85 || code == 0xa0 || code == 0x1680 || (
    code >= 0x2000 && code <= 0x200a) || code == 0x2028 || code == 0x2029 || code == 0x202f || code
        == 0x205f || code == 0x3000
}

/// Removes white space from both ends.
pub fn trim(all: &[char]) -> (text: String)
    ensures
        text@ == trimmed(all@),
{
    let mut start: usize = 0;
    let mut end: usize = all.len();
    proof {
        assert(all@.subrange(0, all@.len() as int) =~= all@);
    }
    while start < end && white_space(all[start])
        invariant
            start <= end <= all.len(),
            end == all.len(),
            trimmed(all@) == trimmed(all@.subrange(start as int, end as int)),
        decreases end - start,
    {
        proof {
            assert(all@.subrange(start as int, end as int).skip(1) =~= all@.subrange(
                start + 1,
                end as int,
            ));
        }
        start = start + 1;
    }
    while start < end && white_space(all[end - 1])
        invariant
            start <= end <= all.len(),
            start < end ==> !is_white_space(all@[start as int]),
            trimmed(all@) == trimmed(all@.subrange(start as int, end as int)),
        decreases end - start,
    {
        proof {
            assert(all@.subrange(start as int, end as int).drop_last() =~= all@.subrange(
                start as int,
                end - 1,
            ));
        }
        end = end - 1;
    }
    let text = from_characters(&all[start..end]);
    proof {
        let rest = all@.subrange(start as int, end as int);
        if start < end {
            assert(rest[0] == all@[start as int]);
            assert(rest.last() == all@[end - 1]);
        }
    }
    text
}

/// Turns diagnostic output into control-safe text.
pub fn sanitize_control_text(bytes: &[u8]) -> (text: String)
    ensures
        text@ == control_safe(bytes@),
{
    let decoded = lossy_text(bytes);
    let all = characters(decoded.as_str());
    let mut kept: Vec<char> = Vec::new();
    let mut i: usize = 0;
    let ghost keep = |c: char| is_kept(c);
    proof {
        reveal(Seq::filter);
        assert(all@.take(0) =~= Seq::empty());
        assert(kept@ =~= all@.take(0).filter(keep));
    }
    while i < all.len()
        invariant
            i <= all.len(),
            keep == (|c: char| is_kept(c)),
            kept@ == all@.take(i as int).filter(keep),
        decreases all.len() - i,
    {
        let c = all[i];
        proof {
            reveal(Seq::filter);
            assert(all@.take(i + 1).drop_last() =~= all@.take(i as int));
            assert(all@.take(i + 1).last() == c);
        }
        if c == '\n' || c == '\t' || !control(c) {
            kept.push(c);
        }
        i = i + 1;
    }
    proof {
        assert(all@.take(all@.len() as int) =~= all@);
    }
    trim(kept.as_slice())
}

/// The issue of a Git process that ended without success.
pub open spec fn failed_process(
    stage: GitCommandStage,
    code: Option<i32>,
    stderr: Seq<u8>,
) -> GitAcquisitionIssue<Seq<char>> {
    GitAcquisitionIssue::ProcessFailed { stage, code, detail: control_safe(stderr) }
}

/// Describes a Git process that ended without success.
pub fn process_failed(stage: GitCommandStage, code: Option<i32>, stderr: &[u8]) -> (issue:
    GitAcquisitionIssue)
    ensures
        issue@ == failed_process(stage, code, stderr@),
{
    GitAcquisitionIssue::ProcessFailed { stage, code, detail: sanitize_control_text(stderr) }
}

/// Set when standard output has grown too long.
pub const STDOUT_OVERFLOW: u8 = 1;

/// Set when standard error has grown too long.
pub const STDERR_OVERFLOW: u8 = 2;

/// The stream that has grown too long, standard output first if it is watched.
pub open spec fn overflowing_stream(flags: u8, watch_stdout: bool) -> Option<GitOutputStream> {
    if watch_stdout && flags & STDOUT_OVERFLOW != 0 {
        Some(GitOutputStream::Stdout)
    } else if flags & STDERR_OVERFLOW != 0 {
        Some(GitOutputStream::Stderr)
    } else {
        None
    }
}

/// Reports the stream that has grown too long, if any.
pub fn check_output_limit(stage: GitCommandStage, flags: u8, watch_stdout: bool, limit: u64) -> (
    checked: Result<(), GitAcquisitionIssue>)
    ensures
        checked is Ok <==> overflowing_stream(flags, watch_stdout) is None,
        checked matches Err(issue) ==> overflowing_stream(flags, watch_stdout) matches Some(stream)
            && issue@ == (GitAcquisitionIssue::<Seq<char>>::OutputLimitExceeded {
            stage,
            stream,
            limit,
        }),
{
    let stream = if watch_stdout && flags & STDOUT_OVERFLOW != 0 {
        GitOutputStream::Stdout
    } else if flags & STDERR_OVERFLOW != 0 {
        GitOutputStream::Stderr
    } else {
        return Ok(());
    };
    Err(GitAcquisitionIssue::OutputLimitExceeded { stage, stream, limit })
}

/// How a supervised process ended.
#[derive(Clone, Copy, Debug, PartialEq, Eq)]
pub struct ExitReport {
    /// The process reported success.
    pub success: bool,
    /// Its exit code, unless a signal ended it.
    pub code: Option<i32>,
    /// The signal for a file that has grown too large ended it.
    pub file_size_signal: bool,
}

/// What a fully piped Git process delivers once it has been supervised: a failed supervision
/// counts first, then an output that has grown too long, then an exit without success.
pub fn control_outcome(
    stage: GitCommandStage,
    wait: Result<ExitReport, GitAcquisitionIssue>,
    flags: u8,
    output_limit: u64,
    stdout: Vec<u8>,
    stderr: &[u8],
) -> (outcome: Result<Vec<u8>, GitAcquisitionIssue>)
    ensures
        match wait {
            Err(issue) => outcome matches Err(reported) && reported@ == issue@,
            Ok(report) => match overflowing_stream(flags, true) {
                Some(stream) => outcome matches Err(issue) && issue@ == (GitAcquisitionIssue::<
                    Seq<char>,
                >::OutputLimitExceeded { stage, stream, limit: output_limit }),
                None => if report.success {
                    outcome matches Ok(bytes) && bytes@ == stdout@
                } else {
                    outcome matches Err(issue) && issue@ == failed_process(
                        stage,
                        report.code,
                        stderr@,
                    )
                },
            },
        },
{
    let report = match wait {
        Ok(report) => report,
        Err(issue) => {
            return Err(issue);
        },
    };
    match check_output_limit(stage, flags, true, output_limit) {
        Ok(()) => {},
        Err(issue) => {
            return Err(issue);
        },
    }
    if !report.success {
        return Err(process_failed(stage, report.code, stderr));
    }
    Ok(stdout)
}

/// What reading a pack delivers once the Git process has been supervised: a failed
/// supervision counts first, then diagnostics that have grown too long, then a failed
/// reader, then an exit without success.
pub fn read_outcome(
    wait: Result<ExitReport, GitAcquisitionIssue>,
    flags: u8,
    output_limit: u64,
    files: Result<Vec<GitPackFile>, GitAcquisitionIssue>,
    stderr: &[u8],
) -> (outcome: Result<Vec<GitPackFile>, GitAcquisitionIssue>)
    ensures
        match wait {
            Err(issue) => outcome matches Err(reported) && reported@ == issue@,
            Ok(report) => match overflowing_stream(flags, false) {
                Some(stream) => outcome matches Err(issue) && issue@ == (GitAcquisitionIssue::<
                    Seq<char>,
                >::OutputLimitExceeded {
                    stage: GitCommandStage::ReadObjects,
                    stream,
                    limit: output_limit,
                }),
                None => match files {
                    Err(issue) => outcome matches Err(reported) && reported@ == issue@,
                    Ok(list) => if report.success {
                        outcome matches Ok(read) && read == list
                    } else {
                        outcome matches Err(issue) && issue@ == failed_process(
                            GitCommandStage::ReadObjects,
                            report.code,
                            stderr@,
                        )
                    },
                },
            },
        },
{
    let report = match wait {
        Ok(report) => report,
        Err(issue) => {
            return Err(issue);
        },
    };
    match check_output_limit(GitCommandStage::ReadObjects, flags, false, output_limit) {
        Ok(()) => {},
        Err(issue) => {
            return Err(issue);
        },
    }
    let list = match files {
        Ok(list) => list,
        Err(issue) => {
            return Err(issue);
        },
    };
    if !report.success {
        return Err(process_failed(GitCommandStage::ReadObjects, report.code, stderr));
    }
    Ok(list)
}

/// Every command ends in its own arguments, behind the settings, each of which is handed over as a
/// setting.
pub proof fn lemma_commands_end_in_their_arguments(arguments: Seq<Seq<char>>, index: int)
    requires
        0 <= index < git_settings().len(),
    ensures
        ({
            let line = command_line(arguments);
            let settings = git_settings();
            &&& line[0] == "--no-pager"@
            &&& line.len() == 1 + 2 * settings.len() + arguments.len()
            &&& line[1 + 2 * index] == "-c"@
            &&& line[2 + 2 * index] == settings[index]
            &&& line.skip(1 + 2 * settings.len() as int) == arguments
        }),
{
    let settings = git_settings();
    let line = command_line(arguments);
    lemma_setting_arguments(settings, index);
    let before = setting_arguments(settings);
    assert(line[1 + 2 * index] == before[2 * index]);
    assert(line[2 + 2 * index] == before[2 * index + 1]);
    assert(line.skip(1 + 2 * settings.len() as int) =~= arguments);
}

proof fn lemma_setting_arguments(settings: Seq<Seq<char>>, index: int)
    ensures
        setting_arguments(settings).len() == 2 * settings.len(),
        0 <= index < settings.len() ==> setting_arguments(settings)[2 * index] == "-c"@
            && setting_arguments(settings)[2 * index + 1] == settings[index],
    decreases settings.len(),
{
    if settings.len() > 0 {
        lemma_setting_arguments(settings.drop_last(), index);
    }
}

/// A fetch asks the given repository for exactly the given object, and a resolution asks it for
/// exactly the given selector; both stand behind every option.
pub proof fn lemma_requests_name_repository_and_object(
    url: Seq<char>,
    wanted: Seq<char>,
    format: GitObjectFormat,
)
    ensures
        ({
            let fetch = fetch_arguments(url, wanted);
            let resolve = resolve_arguments(url, wanted);
            &&& fetch[fetch.len() - 2] == url
            &&& fetch.last() == wanted
            &&& fetch.contains("fetch"@)
            &&& fetch.contains("--depth=1"@)
            &&& resolve[0] == "ls-remote"@
            &&& resolve[resolve.len() - 3] == "--"@
            &&& resolve[resolve.len() - 2] == url
            &&& resolve.last() == wanted
            &&& init_arguments(format).contains("--object-format="@ + format.name())
        }),
{
    let fetch = fetch_arguments(url, wanted);
    assert(fetch[1] == "fetch"@);
    assert(fetch[9] == "--depth=1"@);
    reveal_strlit("--object-format=sha1");
    reveal_strlit("--object-format=sha256");
    reveal_strlit("--object-format=");
    reveal_strlit("sha1");
    reveal_strlit("sha256");
    match format {
        GitObjectFormat::Sha1 => {
            assert("--object-format=sha1"@ =~= "--object-format="@ + "sha1"@);
        },
        GitObjectFormat::Sha256 => {
            assert("--object-format=sha256"@ =~= "--object-format="@ + "sha256"@);
        },
    }
    assert(init_arguments(format)[3] == "--object-format="@ + format.name());
}

/// The limit that takes effect is the least of the requested one and those that the system sets.
pub proof fn lemma_smallest_limit_takes_effect(requested: u64, soft: Option<u64>, hard: Option<u64>)
    ensures
        smallest_limit(requested, soft, hard) <= requested,
        soft matches Some(limit) ==> smallest_limit(requested, soft, hard) <= limit,
        hard matches Some(limit) ==> smallest_limit(requested, soft, hard) <= limit,
        smallest_limit(requested, soft, hard) == requested || soft == Some(
            smallest_limit(requested, soft, hard),
        ) || hard == Some(smallest_limit(requested, soft, hard)),
{
}

/// Some characters between two places are what is left of a text without white space around it.
pub open spec fn is_trimmed_to(text: Seq<char>, from: int, to: int) -> bool {
    &&& 0 <= from <= to <= text.len()
    &&& trimmed(text) == text.subrange(from, to)
    &&& forall|i: int| 0 <= i < from ==> is_white_space(#[trigger] text[i])
    &&& forall|i: int| to <= i < text.len() ==> is_white_space(#[trigger] text[i])
}

/// What a failed process wrote is told without white space around it, and nothing else of the text
/// is lost by that.
pub proof fn lemma_trimming_takes_white_space_only(text: Seq<char>)
    ensures
        trimmed(text).len() > 0 ==> !is_white_space(trimmed(text)[0]) && !is_white_space(
            trimmed(text).last(),
        ),
        exists|from: int, to: int| is_trimmed_to(text, from, to),
    decreases text.len(),
{
    if text.len() == 0 {
        assert(text =~= text.subrange(0, 0));
        assert(is_trimmed_to(text, 0, 0));
    } else if is_white_space(text[0]) {
        let rest = text.skip(1);
        lemma_trimming_takes_white_space_only(rest);
        let (from, to) = choose|from: int, to: int| is_trimmed_to(rest, from, to);
        lemma_trimmed_in_front(text, from, to);
    } else if is_white_space(text.last()) {
        let rest = text.drop_last();
        lemma_trimming_takes_white_space_only(rest);
        let (from, to) = choose|from: int, to: int| is_trimmed_to(rest, from, to);
        lemma_trimmed_behind(text, from, to);
    } else {
        assert(text =~= text.subrange(0, text.len() as int));
        assert(is_trimmed_to(text, 0, text.len() as int));
    }
}

proof fn lemma_trimmed_in_front(text: Seq<char>, from: int, to: int)
    requires
        text.len() > 0,
        is_white_space(text[0]),
        is_trimmed_to(text.skip(1), from, to),
    ensures
        is_trimmed_to(text, from + 1, to + 1),
{
    let rest = text.skip(1);
    assert(rest.subrange(from, to) =~= text.subrange(from + 1, to + 1));
    assert forall|i: int| 0 <= i < from + 1 implies is_white_space(#[trigger] text[i]) by {
        if i > 0 {
            assert(rest[i - 1] == text[i]);
        }
    }
    assert forall|i: int| to + 1 <= i < text.len() implies is_white_space(#[trigger] text[i]) by {
        assert(rest[i - 1] == text[i]);
    }
}

proof fn lemma_trimmed_behind(text: Seq<char>, from: int, to: int)
    requires
        text.len() > 0,
        !is_white_space(text[0]),
        is_white_space(text.last()),
        is_trimmed_to(text.drop_last(), from, to),
    ensures
        is_trimmed_to(text, from, to),
{
    let rest = text.drop_last();
    assert(rest.subrange(from, to) =~= text.subrange(from, to));
    assert forall|i: int| 0 <= i < from implies is_white_space(#[trigger] text[i]) by {
        assert(rest[i] == text[i]);
    }
    assert forall|i: int| to <= i < text.len() implies is_white_space(#[trigger] text[i]) by {
        if i < rest.len() {
            assert(rest[i] == text[i]);
        }
    }
}

} // verus!
