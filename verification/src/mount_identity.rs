//! Proof from the process mount table that one directory does not show another.

use vstd::prelude::*;
use vstd::utf8::*;

use crate::error::EngineError;
use crate::path;
use crate::path::{
    absolute_from_names, list_starts_with, path_components, path_is_absolute, resolve_components,
};
use crate::seqs;
use crate::seqs::{are_decimal_digits, bytes_equal, copy_bytes, parse_decimal, split_bytes};
use crate::stat::FileStat;
use crate::state_root;
use crate::state_root::io_error;
use crate::text;
use crate::text::{concat3, decimal_text};

verus! {

/// Most bytes of the process mount table.
pub const MAX_MOUNTINFO_BYTES: usize = 4_194_304;

/// The bit by which the kernel says that it reported a mount identity.
pub const MOUNT_ID_REPORTED: u32 = 0x1000;

/// Where the process mount table is read.
pub open spec fn mountinfo_path() -> Seq<u8> {
    encode_utf8("/proc/self/mountinfo"@)
}

/// A failed proof of mount identity.
pub open spec fn evidence_failure(path: Seq<u8>, detail: Seq<char>) -> EngineError<
    Seq<char>,
    Seq<u8>,
> {
    state_root::io_failure("prove protected-root mount identity"@, path, detail)
}

fn evidence_error(path: &[u8], detail: &str) -> (error: EngineError)
    ensures
        error@ == evidence_failure(path@, detail@),
{
    io_error("prove protected-root mount identity", path, detail)
}

fn table_error(detail: &str) -> (error: EngineError)
    ensures
        error@ == evidence_failure(mountinfo_path(), detail@),
{
    evidence_error("/proc/self/mountinfo".as_bytes(), detail)
}

/// Bytes between which the fields of a mount record stand.
pub open spec fn is_space(c: u8) -> bool {
    c == 32 || c == 9 || c == 10 || c == 12 || c == 13
}

/// The pieces that are not empty.
pub open spec fn filled(pieces: Seq<Seq<u8>>) -> Seq<Seq<u8>>
    decreases pieces.len(),
{
    if pieces.len() == 0 {
        Seq::empty()
    } else if pieces.last().len() == 0 {
        filled(pieces.drop_last())
    } else {
        filled(pieces.drop_last()).push(pieces.last())
    }
}

/// The fields of a line of the mount table.
pub open spec fn line_fields(line: Seq<u8>) -> Seq<Seq<u8>> {
    filled(seqs::split_where(line, |c: u8| is_space(c)))
}

fn fields_of(line: &[u8]) -> (fields: Vec<Vec<u8>>)
    ensures
        seqs::views(fields@) == line_fields(line@),
{
    let ghost separates = |c: u8| is_space(c);
    let mut fields: Vec<Vec<u8>> = Vec::new();
    let mut current: Vec<u8> = Vec::new();
    let mut i: usize = 0;
    let ghost mut done: Seq<Seq<u8>> = Seq::empty();
    proof {
        assert(line@.take(0) =~= Seq::<u8>::empty());
        assert(done.push(current@) =~= seqs::split_where(line@.take(0), separates));
        assert(seqs::views(fields@) =~= filled(done));
    }
    while i < line.len()
        invariant
            i <= line.len(),
            separates == (|c: u8| is_space(c)),
            done.push(current@) == seqs::split_where(line@.take(i as int), separates),
            seqs::views(fields@) == filled(done),
        decreases line.len() - i,
    {
        proof {
            assert(line@.take(i + 1).drop_last() =~= line@.take(i as int));
            assert(done.push(current@).drop_last() =~= done);
        }
        let c: u8 = line[i];
        if c == 32 || c == 9 || c == 10 || c == 12 || c == 13 {
            let ghost before = fields@;
            let ghost piece = current@;
            let ghost earlier = done;
            if current.len() > 0 {
                fields.push(current);
                proof {
                    assert(seqs::views(fields@) =~= seqs::views(before).push(piece));
                }
            }
            current = Vec::new();
            proof {
                done = done.push(piece);
                assert(done.drop_last() =~= earlier);
                assert(current@ =~= Seq::<u8>::empty());
            }
        } else {
            current.push(c);
        }
        i = i + 1;
    }
    let ghost before = fields@;
    let ghost piece = current@;
    proof {
        assert(line@.take(line@.len() as int) =~= line@);
        assert(done.push(piece).drop_last() =~= done);
    }
    if current.len() > 0 {
        fields.push(current);
        proof {
            assert(seqs::views(fields@) =~= seqs::views(before).push(piece));
        }
    }
    fields
}

/// The number that a field writes: decimal digits after an optional plus sign.
pub open spec fn field_number(field: Seq<u8>) -> Option<u64> {
    let digits = if field.len() > 0 && field[0] == 43 {
        field.skip(1)
    } else {
        field
    };
    if digits.len() > 0 && seqs::all_decimal_digits(digits) && seqs::decimal_value(digits)
        <= u64::MAX {
        Some(seqs::decimal_value(digits) as u64)
    } else {
        None
    }
}

fn number_of(field: &[u8]) -> (number: Option<u64>)
    ensures
        number == field_number(field@),
{
    let start: usize = if field.len() > 0 && field[0] == 43 {
        1
    } else {
        0
    };
    let digits = vstd::slice::slice_subrange(field, start, field.len());
    proof {
        assert(digits@ =~= field@.skip(start as int));
        assert(field@.skip(0) =~= field@);
    }
    if digits.len() == 0 || !are_decimal_digits(digits) {
        return None;
    }
    parse_decimal(digits)
}

/// A byte that is an octal digit.
pub open spec fn is_octal_digit(c: u8) -> bool {
    48 <= c <= 55
}

/// The text put in front of what was decoded behind it.
pub open spec fn prefixed(head: Seq<u8>, rest: Result<Seq<u8>, Seq<char>>) -> Result<
    Seq<u8>,
    Seq<char>,
> {
    match rest {
        Ok(tail) => Ok(head + tail),
        Err(detail) => Err(detail),
    }
}

/// The value of three octal digits.
pub open spec fn octal_value(a: u8, b: u8, c: u8) -> int {
    (a - 48) * 64 + (b - 48) * 8 + (c - 48)
}

/// A field with each `\ooo` replaced by the byte it stands for.
pub open spec fn unescaped(field: Seq<u8>) -> Result<Seq<u8>, Seq<char>>
    decreases field.len(),
{
    if field.len() == 0 {
        Ok(Seq::empty())
    } else if field[0] != 92 {
        prefixed(seq![field[0]], unescaped(field.skip(1)))
    } else if field.len() < 4 || !is_octal_digit(field[1]) || !is_octal_digit(field[2])
        || !is_octal_digit(field[3]) {
        Err("process mount table contains an invalid path escape"@)
    } else if octal_value(field[1], field[2], field[3]) > 255 {
        Err("process mount table contains an out-of-range path escape"@)
    } else {
        prefixed(
            seq![octal_value(field[1], field[2], field[3]) as u8],
            unescaped(field.skip(4)),
        )
    }
}

/// The absolute path that a field of the mount table writes.
pub open spec fn decoded_path(field: Seq<u8>) -> Result<Seq<u8>, Seq<char>> {
    match unescaped(field) {
        Err(detail) => Err(detail),
        Ok(path) => if path::is_absolute(path) {
            Ok(path)
        } else {
            Err("process mount table contains a relative path"@)
        },
    }
}

/// Three octal digits that stand for a byte.
pub open spec fn octal_escape(c: u8) -> Seq<u8> {
    seq![92u8, (48 + c / 64) as u8, (48 + (c / 8) % 8) as u8, (48 + c % 8) as u8]
}

/// A byte string as the kernel writes it into the mount table: white space and backslashes
/// become octal escapes.
pub open spec fn escaped(path: Seq<u8>) -> Seq<u8>
    decreases path.len(),
{
    if path.len() == 0 {
        Seq::empty()
    } else {
        (if is_space(path[0]) || path[0] == 92 {
            octal_escape(path[0])
        } else {
            seq![path[0]]
        }) + escaped(path.skip(1))
    }
}

/// Decoding gives back every path that was written with octal escapes.
pub proof fn lemma_unescape_of_escape(path: Seq<u8>)
    ensures
        unescaped(escaped(path)) == Ok::<Seq<u8>, Seq<char>>(path),
    decreases path.len(),
{
    if path.len() == 0 {
        assert(escaped(path) =~= Seq::<u8>::empty());
        assert(path =~= Seq::<u8>::empty());
    } else {
        let rest = escaped(path.skip(1));
        lemma_unescape_of_escape(path.skip(1));
        let c = path[0];
        let field = escaped(path);
        assert(seq![c] + path.skip(1) =~= path);
        if is_space(c) || c == 92 {
            assert(field.skip(4) =~= rest);
            assert(field[0] == 92 && field[1] == octal_escape(c)[1] && field[2] == octal_escape(
                c,
            )[2] && field[3] == octal_escape(c)[3]);
            assert(octal_value(field[1], field[2], field[3]) == c);
        } else {
            assert(field.skip(1) =~= rest);
        }
    }
}

/// Decodes a path field of the mount table.
pub fn decode_mount_path(field: &[u8]) -> (decoded: Result<Vec<u8>, EngineError>)
    ensures
        match decoded_path(field@) {
            Ok(path) => decoded matches Ok(found) && found@ == path,
            Err(detail) => decoded matches Err(error) && error@ == evidence_failure(
                mountinfo_path(),
                detail,
            ),
        },
{
    let mut decoded: Vec<u8> = Vec::new();
    let mut i: usize = 0;
    proof {
        assert(field@.skip(0) =~= field@);
        match unescaped(field@) {
            Ok(tail) => {
                assert(decoded@ + tail =~= tail);
            },
            Err(_) => {},
        }
    }
    while i < field.len()
        invariant
            i <= field.len(),
            unescaped(field@) == prefixed(decoded@, unescaped(field@.skip(i as int))),
        decreases field.len() - i,
    {
        let ghost rest = field@.skip(i as int);
        let ghost before = decoded@;
        proof {
            assert(rest[0] == field@[i as int]);
        }
        if field[i] != 92 {
            decoded.push(field[i]);
            proof {
                assert(rest.skip(1) =~= field@.skip(i + 1));
                match unescaped(field@.skip(i + 1)) {
                    Ok(tail) => {
                        assert(before + (seq![rest[0]] + tail) =~= decoded@ + tail);
                    },
                    Err(_) => {},
                }
            }
            i = i + 1;
        } else {
            if field.len() - i < 4 {
                return Err(table_error("process mount table contains an invalid path escape"));
            }
            let a: u8 = field[i + 1];
            let b: u8 = field[i + 2];
            let c: u8 = field[i + 3];
            proof {
                assert(rest[1] == a && rest[2] == b && rest[3] == c);
            }
            if a < 48 || a > 55 || b < 48 || b > 55 || c < 48 || c > 55 {
                return Err(table_error("process mount table contains an invalid path escape"));
            }
            let value: u16 = (a - 48) as u16 * 64 + (b - 48) as u16 * 8 + (c - 48) as u16;
            if value > 255 {
                return Err(
                    table_error("process mount table contains an out-of-range path escape"),
                );
            }
            decoded.push(value as u8);
            proof {
                assert(rest.skip(4) =~= field@.skip(i + 4));
                match unescaped(field@.skip(i + 4)) {
                    Ok(tail) => {
                        assert(before + (seq![value as u8] + tail) =~= decoded@ + tail);
                    },
                    Err(_) => {},
                }
            }
            i = i + 4;
        }
    }
    proof {
        assert(field@.skip(field@.len() as int) =~= Seq::<u8>::empty());
        assert(decoded@ + Seq::<u8>::empty() =~= decoded@);
    }
    if !path_is_absolute(decoded.as_slice()) {
        return Err(table_error("process mount table contains a relative path"));
    }
    Ok(decoded)
}

/// What the mount table says of one mount; `B` is the type of byte strings.
#[derive(Debug)]
pub struct MountRecord<B = Vec<u8>> {
    /// The device that is mounted.
    pub device: B,
    /// The directory of that device's file system that is shown.
    pub root: B,
    /// Where it is shown.
    pub mount_point: B,
}

impl View for MountRecord<Vec<u8>> {
    type V = MountRecord<Seq<u8>>;

    open spec fn view(&self) -> MountRecord<Seq<u8>> {
        MountRecord { device: self.device@, root: self.root@, mount_point: self.mount_point@ }
    }
}

/// The fields of a mount record are complete: at least six stand before the first separator
/// and three behind it.
pub open spec fn is_complete(fields: Seq<Seq<u8>>) -> bool {
    let separator = seqs::first_index_of(fields, seq![45u8]);
    fields.len() >= 10 && 6 <= separator && separator + 3 < fields.len()
}

/// The mount record that fields spell out.
pub open spec fn record_of(fields: Seq<Seq<u8>>, id: u64) -> Result<
    MountRecord<Seq<u8>>,
    Seq<char>,
> {
    if !is_complete(fields) {
        Err(
            "mount identity "@ + text::decimal(id as nat)
                + " has a malformed process mount record"@,
        )
    } else {
        match decoded_path(fields[3]) {
            Err(detail) => Err(detail),
            Ok(root) => match decoded_path(fields[4]) {
                Err(detail) => Err(detail),
                Ok(mount_point) => Ok(MountRecord { device: fields[2], root, mount_point }),
            },
        }
    }
}

/// A line is about the given mount.
pub open spec fn is_about(line: Seq<u8>, id: u64) -> bool {
    let fields = line_fields(line);
    fields.len() > 0 && field_number(fields[0]) == Some(id)
}

/// The record of the given mount among lines, if any; the first thing wrong counts.
pub open spec fn scanned(lines: Seq<Seq<u8>>, id: u64) -> Result<
    Option<MountRecord<Seq<u8>>>,
    Seq<char>,
>
    decreases lines.len(),
{
    if lines.len() == 0 {
        Ok(None)
    } else {
        match scanned(lines.drop_last(), id) {
            Err(detail) => Err(detail),
            Ok(found) => if !is_about(lines.last(), id) {
                Ok(found)
            } else {
                match record_of(line_fields(lines.last()), id) {
                    Err(detail) => Err(detail),
                    Ok(record) => if found is Some {
                        Err(
                            "mount identity "@ + text::decimal(id as nat)
                                + " appears more than once in the process mount table"@,
                        )
                    } else {
                        Ok(Some(record))
                    },
                }
            },
        }
    }
}

/// The one record of the given mount in a mount table.
pub open spec fn table_record(evidence: Seq<u8>, id: u64) -> Result<
    MountRecord<Seq<u8>>,
    Seq<char>,
> {
    match scanned(seqs::split_at_each(evidence, 10u8), id) {
        Err(detail) => Err(detail),
        Ok(Some(record)) => Ok(record),
        Ok(None) => Err(
            "mount identity "@ + text::decimal(id as nat)
                + " is absent from the process mount table"@,
        ),
    }
}

/// Once a prefix of the lines has failed, all of them fail the same way.
proof fn lemma_scan_failure_stays(lines: Seq<Seq<u8>>, id: u64, count: int)
    requires
        0 <= count <= lines.len(),
        scanned(lines.take(count), id) is Err,
    ensures
        scanned(lines, id) == scanned(lines.take(count), id),
    decreases lines.len() - count,
{
    if count == lines.len() {
        assert(lines.take(count) =~= lines);
    } else {
        assert(lines.take(count + 1).drop_last() =~= lines.take(count));
        lemma_scan_failure_stays(lines, id, count + 1);
    }
}

fn numbered_error(id: u64, rest: &str) -> (error: EngineError)
    ensures
        error@ == evidence_failure(
            mountinfo_path(),
            "mount identity "@ + text::decimal(id as nat) + rest@,
        ),
{
    let number = decimal_text(id);
    let detail = concat3("mount identity ", number.as_str(), rest);
    table_error(detail.as_str())
}

fn separator_index(fields: &Vec<Vec<u8>>) -> (index: usize)
    ensures
        index == seqs::first_index_of(seqs::views(fields@), seq![45u8]),
        index <= fields.len(),
{
    let ghost all = seqs::views(fields@);
    let mut i: usize = 0;
    proof {
        seqs::lemma_first_index_of(all, seq![45u8]);
    }
    while i < fields.len()
        invariant
            i <= fields.len(),
            all == seqs::views(fields@),
            i <= seqs::first_index_of(all, seq![45u8]) <= all.len(),
            seqs::first_index_of(all, seq![45u8]) < all.len()
                ==> all[seqs::first_index_of(all, seq![45u8])] == seq![45u8],
            forall|k: int|
                0 <= k < seqs::first_index_of(all, seq![45u8]) ==> #[trigger] all[k] != seq![45u8],
        decreases fields.len() - i,
    {
        let field = fields[i].as_slice();
        let found = field.len() == 1 && field[0] == 45;
        proof {
            assert(all[i as int] == field@);
            if found {
                assert(field@ =~= seq![45u8]);
            }
        }
        if found {
            return i;
        }
        i = i + 1;
    }
    i
}

fn read_record(fields: &Vec<Vec<u8>>, id: u64) -> (record: Result<MountRecord, EngineError>)
    ensures
        match record_of(seqs::views(fields@), id) {
            Ok(model) => record matches Ok(found) && found@ == model,
            Err(detail) => record matches Err(error) && error@ == evidence_failure(
                mountinfo_path(),
                detail,
            ),
        },
{
    let separator: usize = separator_index(fields);
    if fields.len() < 10 || separator < 6 || fields.len() - separator <= 3 {
        return Err(numbered_error(id, " has a malformed process mount record"));
    }
    proof {
        assert(seqs::views(fields@)[2] == fields@[2]@);
        assert(seqs::views(fields@)[3] == fields@[3]@);
        assert(seqs::views(fields@)[4] == fields@[4]@);
    }
    let root = match decode_mount_path(fields[3].as_slice()) {
        Ok(root) => root,
        Err(error) => {
            return Err(error);
        },
    };
    let mount_point = match decode_mount_path(fields[4].as_slice()) {
        Ok(mount_point) => mount_point,
        Err(error) => {
            return Err(error);
        },
    };
    Ok(MountRecord { device: copy_bytes(fields[2].as_slice()), root, mount_point })
}

/// Finds the one record of a mount in the mount table.
pub fn load_mount_record(evidence: &[u8], mount_id: u64) -> (record: Result<
    MountRecord,
    EngineError,
>)
    ensures
        match table_record(evidence@, mount_id) {
            Ok(model) => record matches Ok(found) && found@ == model,
            Err(detail) => record matches Err(error) && error@ == evidence_failure(
                mountinfo_path(),
                detail,
            ),
        },
{
    let lines = split_bytes(evidence, 10);
    let ghost all = seqs::views(lines@);
    let mut found: Option<MountRecord> = None;
    let mut i: usize = 0;
    proof {
        assert(all.take(0) =~= Seq::<Seq<u8>>::empty());
    }
    while i < lines.len()
        invariant
            i <= lines.len(),
            all == seqs::views(lines@),
            all == seqs::split_at_each(evidence@, 10u8),
            match scanned(all.take(i as int), mount_id) {
                Ok(Some(record)) => found matches Some(kept) && kept@ == record,
                Ok(None) => found is None,
                Err(_) => false,
            },
        decreases lines.len() - i,
    {
        proof {
            assert(all.take(i + 1).drop_last() =~= all.take(i as int));
            assert(all.take(i + 1).last() == lines@[i as int]@);
        }
        let fields = fields_of(lines[i].as_slice());
        proof {
            if fields@.len() > 0 {
                assert(seqs::views(fields@)[0] == fields@[0]@);
            }
        }
        let about = if fields.len() > 0 {
            match number_of(fields[0].as_slice()) {
                Some(id) => id == mount_id,
                None => false,
            }
        } else {
            false
        };
        if about {
            match read_record(&fields, mount_id) {
                Err(error) => {
                    proof {
                        lemma_scan_failure_stays(all, mount_id, i + 1);
                    }
                    return Err(error);
                },
                Ok(record) => {
                    if found.is_some() {
                        proof {
                            lemma_scan_failure_stays(all, mount_id, i + 1);
                        }
                        return Err(
                            numbered_error(
                                mount_id,
                                " appears more than once in the process mount table",
                            ),
                        );
                    }
                    found = Some(record);
                },
            }
        }
        i = i + 1;
    }
    proof {
        assert(all.take(all.len() as int) =~= all);
    }
    match found {
        Some(record) => Ok(record),
        None => Err(numbered_error(mount_id, " is absent from the process mount table")),
    }
}

/// Where a visible path lies inside the mounted file system: the names left when the path
/// behind the mount point is followed from the shown directory.
pub open spec fn internal_names(record: MountRecord<Seq<u8>>, visible: Seq<u8>) -> Option<
    Seq<Seq<u8>>,
> {
    let point = path::components(record.mount_point);
    let all = path::components(visible);
    if point.is_prefix_of(all) {
        Some(
            path::resolved_names(
                path::components(record.root) + all.subrange(
                    point.len() as int,
                    all.len() as int,
                ),
            ),
        )
    } else {
        None
    }
}

impl MountRecord {
    /// Returns where a visible path lies inside the mounted file system.
    pub fn filesystem_path(&self, visible: &[u8]) -> (internal: Result<Vec<u8>, EngineError>)
        ensures
            match internal_names(self@, visible@) {
                Some(names) => internal matches Ok(found) && found@ == path::absolute_path(names),
                None => internal matches Err(error) && error@ == evidence_failure(
                    visible@,
                    "mount identity does not contain the validated path"@,
                ),
            },
    {
        match self.internal_components(visible) {
            Ok(names) => Ok(absolute_from_names(&names)),
            Err(error) => Err(error),
        }
    }

    fn internal_components(&self, visible: &[u8]) -> (internal: Result<Vec<Vec<u8>>, EngineError>)
        ensures
            match internal_names(self@, visible@) {
                Some(names) => internal matches Ok(found) && seqs::views(found@) == names,
                None => internal matches Err(error) && error@ == evidence_failure(
                    visible@,
                    "mount identity does not contain the validated path"@,
                ),
            },
    {
        let point = path_components(self.mount_point.as_slice());
        let all = path_components(visible);
        if !list_starts_with(&all, &point) {
            return Err(
                evidence_error(visible, "mount identity does not contain the validated path"),
            );
        }
        let mut list = path_components(self.root.as_slice());
        let ghost base = seqs::views(list@);
        let ghost whole = seqs::views(all@);
        let ghost start = point@.len() as int;
        proof {
            assert(seqs::views(point@).len() == start);
            assert(base + whole.subrange(start, start) =~= base);
        }
        let mut i: usize = point.len();
        while i < all.len()
            invariant
                0 <= start <= i <= all.len(),
                whole == seqs::views(all@),
                seqs::views(list@) == base + whole.subrange(start, i as int),
            decreases all.len() - i,
        {
            let ghost before = list@;
            list.push(copy_bytes(all[i].as_slice()));
            proof {
                assert(whole[i as int] == all@[i as int]@);
                assert(seqs::views(list@) =~= seqs::views(before).push(whole[i as int]));
                assert(whole.subrange(start, i + 1) =~= whole.subrange(start, i as int).push(
                    whole[i as int],
                ));
                assert(seqs::views(list@) =~= base + whole.subrange(start, i + 1));
            }
            i = i + 1;
        }
        Ok(resolve_components(&list))
    }
}

/// Whether the candidate shows the protected directory or something inside it.
pub open spec fn alias_from_evidence(
    protected_mount: u64,
    protected_path: Seq<u8>,
    candidate_mount: u64,
    candidate_path: Seq<u8>,
    evidence: Seq<u8>,
) -> Result<bool, EngineError<Seq<char>, Seq<u8>>> {
    if protected_mount == candidate_mount {
        Ok(false)
    } else {
        match table_record(evidence, protected_mount) {
            Err(detail) => Err(evidence_failure(mountinfo_path(), detail)),
            Ok(protected) => match table_record(evidence, candidate_mount) {
                Err(detail) => Err(evidence_failure(mountinfo_path(), detail)),
                Ok(candidate) => if protected.device != candidate.device {
                    Ok(false)
                } else {
                    match internal_names(protected, protected_path) {
                        None => Err(
                            evidence_failure(
                                protected_path,
                                "mount identity does not contain the validated path"@,
                            ),
                        ),
                        Some(outer) => match internal_names(candidate, candidate_path) {
                            None => Err(
                                evidence_failure(
                                    candidate_path,
                                    "mount identity does not contain the validated path"@,
                                ),
                            ),
                            Some(inner) => Ok(outer.is_prefix_of(inner)),
                        },
                    }
                },
            },
        }
    }
}

/// Decides from the mount table whether the candidate shows the protected directory or
/// something inside it.
pub fn mount_alias_from_evidence(
    protected_mount: u64,
    protected_path: &[u8],
    candidate_mount: u64,
    candidate_path: &[u8],
    evidence: &[u8],
) -> (alias: Result<bool, EngineError>)
    ensures
        match alias_from_evidence(
            protected_mount,
            protected_path@,
            candidate_mount,
            candidate_path@,
            evidence@,
        ) {
            Ok(value) => alias == Ok::<bool, EngineError>(value),
            Err(error) => alias matches Err(found) && found@ == error,
        },
{
    if protected_mount == candidate_mount {
        return Ok(false);
    }
    let protected = match load_mount_record(evidence, protected_mount) {
        Ok(record) => record,
        Err(error) => {
            return Err(error);
        },
    };
    let candidate = match load_mount_record(evidence, candidate_mount) {
        Ok(record) => record,
        Err(error) => {
            return Err(error);
        },
    };
    if !bytes_equal(protected.device.as_slice(), candidate.device.as_slice()) {
        return Ok(false);
    }
    let outer = match protected.internal_components(protected_path) {
        Ok(names) => names,
        Err(error) => {
            return Err(error);
        },
    };
    let inner = match candidate.internal_components(candidate_path) {
        Ok(names) => names,
        Err(error) => {
            return Err(error);
        },
    };
    Ok(list_starts_with(&inner, &outer))
}

/// Whenever two different mounts of one device show overlapping directories, the overlap is
/// found when both are asked about the other: one of the two answers is an alias.
pub proof fn lemma_overlap_is_found_from_one_side(
    left_mount: u64,
    left_path: Seq<u8>,
    right_mount: u64,
    right_path: Seq<u8>,
    evidence: Seq<u8>,
)
    requires
        left_mount != right_mount,
        table_record(evidence, left_mount) is Ok,
        table_record(evidence, right_mount) is Ok,
        table_record(evidence, left_mount)->Ok_0.device == table_record(
            evidence,
            right_mount,
        )->Ok_0.device,
        internal_names(table_record(evidence, left_mount)->Ok_0, left_path) is Some,
        internal_names(table_record(evidence, right_mount)->Ok_0, right_path) is Some,
    ensures
        ({
            let left = internal_names(table_record(evidence, left_mount)->Ok_0, left_path)->Some_0;
            let right = internal_names(
                table_record(evidence, right_mount)->Ok_0,
                right_path,
            )->Some_0;
            (left.is_prefix_of(right) || right.is_prefix_of(left)) == (alias_from_evidence(
                left_mount,
                left_path,
                right_mount,
                right_path,
                evidence,
            ) == Ok::<bool, EngineError<Seq<char>, Seq<u8>>>(true) || alias_from_evidence(
                right_mount,
                right_path,
                left_mount,
                left_path,
                evidence,
            ) == Ok::<bool, EngineError<Seq<char>, Seq<u8>>>(true))
        }),
{
}

/// Tells whether the mount table has to be asked: only directories of one device that are
/// reached through different mounts can show each other unnoticed.
pub fn needs_mount_evidence(
    protected: &FileStat,
    candidate: &FileStat,
    protected_mount: u64,
    candidate_mount: u64,
) -> (needed: bool)
    ensures
        needed == (protected.dev == candidate.dev && protected_mount != candidate_mount),
{
    protected.dev == candidate.dev && protected_mount != candidate_mount
}

/// Returns the mount identity, if the kernel reported one.
pub fn reported_mount_id(mask: u32, id: u64, path: &[u8]) -> (reported: Result<u64, EngineError>)
    ensures
        if mask & MOUNT_ID_REPORTED != 0 {
            reported == Ok::<u64, EngineError>(id)
        } else {
            reported matches Err(error) && error@ == evidence_failure(
                path@,
                "kernel did not report a mount identity for protected-root proof"@,
            )
        },
{
    if mask & MOUNT_ID_REPORTED != 0 {
        Ok(id)
    } else {
        Err(
            evidence_error(path, "kernel did not report a mount identity for protected-root proof"),
        )
    }
}

/// Accepts a mount table that is not too large.
pub fn accept_mount_table(table: Vec<u8>) -> (accepted: Result<Vec<u8>, EngineError>)
    ensures
        if table@.len() <= MAX_MOUNTINFO_BYTES {
            accepted matches Ok(kept) && kept@ == table@
        } else {
            accepted matches Err(error) && error@ == evidence_failure(
                mountinfo_path(),
                "process mount table exceeds its size limit"@,
            )
        },
{
    if table.len() > MAX_MOUNTINFO_BYTES {
        return Err(table_error("process mount table exceeds its size limit"));
    }
    Ok(table)
}

/// The record of a mount is that of the only line of the table about it: where no line is about
/// it there is none, and where two lines are it cannot be told.
pub proof fn lemma_mount_is_found_by_its_only_line(lines: Seq<Seq<u8>>, id: u64)
    ensures
        match scanned(lines, id) {
            Ok(None) => forall|i: int| 0 <= i < lines.len() ==> !is_about(#[trigger] lines[i], id),
            Ok(Some(record)) => exists|i: int|
                {
                    &&& 0 <= i < lines.len()
                    &&& is_about(#[trigger] lines[i], id)
                    &&& record_of(line_fields(lines[i]), id) == Ok::<
                        MountRecord<Seq<u8>>,
                        Seq<char>,
                    >(record)
                    &&& forall|j: int|
                        0 <= j < lines.len() && j != i ==> !is_about(#[trigger] lines[j], id)
                },
            Err(_) => exists|i: int| 0 <= i < lines.len() && is_about(#[trigger] lines[i], id),
        },
    decreases lines.len(),
{
    if lines.len() > 0 {
        let fewer = lines.drop_last();
        let last = lines.len() - 1;
        lemma_mount_is_found_by_its_only_line(fewer, id);
        assert(forall|i: int| 0 <= i < last ==> #[trigger] lines[i] == fewer[i]);
        match scanned(fewer, id) {
            Ok(None) => {
                if is_about(lines.last(), id) {
                    assert(is_about(lines[last], id));
                } else {
                    assert forall|i: int| 0 <= i < lines.len() implies !is_about(
                        #[trigger] lines[i],
                        id,
                    ) by {
                        if i < last {
                            assert(!is_about(fewer[i], id));
                        }
                    }
                }
                if scanned(lines, id) matches Ok(Some(record)) {
                    assert forall|j: int| 0 <= j < lines.len() && j != last implies !is_about(
                        #[trigger] lines[j],
                        id,
                    ) by {
                        assert(!is_about(fewer[j], id));
                    }
                }
            },
            Ok(Some(record)) => {
                let i = choose|i: int|
                    {
                        &&& 0 <= i < fewer.len()
                        &&& is_about(#[trigger] fewer[i], id)
                        &&& record_of(line_fields(fewer[i]), id) == Ok::<
                            MountRecord<Seq<u8>>,
                            Seq<char>,
                        >(record)
                        &&& forall|j: int|
                            0 <= j < fewer.len() && j != i ==> !is_about(#[trigger] fewer[j], id)
                    };
                assert(is_about(lines[i], id));
                assert forall|j: int|
                    0 <= j < lines.len() && j != i && !is_about(lines.last(), id) implies !is_about(
                    #[trigger] lines[j],
                    id,
                ) by {
                    if j < last {
                        assert(!is_about(fewer[j], id));
                    }
                }
            },
            Err(_) => {
                let i = choose|i: int| 0 <= i < fewer.len() && is_about(#[trigger] fewer[i], id);
                assert(is_about(lines[i], id));
            },
        }
    }
}

/// The record of a mount holds its device, the part of the file system that it shows and the
/// place where it does, as the third, fourth and fifth fields of its line write them.
pub proof fn lemma_record_holds_the_written_places(
    fields: Seq<Seq<u8>>,
    id: u64,
    root: Seq<u8>,
    mount_point: Seq<u8>,
)
    requires
        fields.len() >= 10,
        6 <= seqs::first_index_of(fields, seq![45u8]) < fields.len() - 3,
        fields[3] == escaped(root),
        fields[4] == escaped(mount_point),
        root.len() > 0 && root[0] == 47,
        mount_point.len() > 0 && mount_point[0] == 47,
    ensures
        record_of(fields, id) == Ok::<MountRecord<Seq<u8>>, Seq<char>>(
            MountRecord { device: fields[2], root, mount_point },
        ),
{
    lemma_unescape_of_escape(root);
    lemma_unescape_of_escape(mount_point);
}

/// The number that stands first in a line of the table is read as it is written.
pub proof fn lemma_mount_numbers_are_read_back(id: u64)
    ensures
        field_number(encode_utf8(text::decimal(id as nat))) == Some(id),
{
    text::lemma_decimal_is_read_back(id as nat);
    let digits = encode_utf8(text::decimal(id as nat));
    assert(seqs::is_decimal_digit(digits[0]));
}

/// A path shows a protected one exactly where both are on one device through different mounts,
/// and the place of the protected one in the file system is that of the other one or above it.
/// The place is that which the mount shows, followed by what the path has behind its mount point.
pub proof fn lemma_places_are_followed_through_mounts(
    protected_mount: u64,
    protected_path: Seq<u8>,
    protected: MountRecord<Seq<u8>>,
    outer: Seq<Seq<u8>>,
    candidate_mount: u64,
    candidate_path: Seq<u8>,
    candidate: MountRecord<Seq<u8>>,
    inner: Seq<Seq<u8>>,
    evidence: Seq<u8>,
)
    requires
        table_record(evidence, protected_mount) == Ok::<MountRecord<Seq<u8>>, Seq<char>>(protected),
        table_record(evidence, candidate_mount) == Ok::<MountRecord<Seq<u8>>, Seq<char>>(candidate),
        path::components(protected_path) == path::components(protected.mount_point) + outer,
        path::components(candidate_path) == path::components(candidate.mount_point) + inner,
    ensures
        alias_from_evidence(
            protected_mount,
            protected_path,
            candidate_mount,
            candidate_path,
            evidence,
        ) == Ok::<bool, EngineError<Seq<char>, Seq<u8>>>(
            protected_mount != candidate_mount && protected.device == candidate.device
                && path::resolved_names(path::components(protected.root) + outer).is_prefix_of(
                path::resolved_names(path::components(candidate.root) + inner),
            ),
        ),
{
    let shown = path::components(protected_path);
    let other = path::components(candidate_path);
    let point = path::components(protected.mount_point);
    let place = path::components(candidate.mount_point);
    assert(shown.subrange(point.len() as int, shown.len() as int) =~= outer);
    assert(other.subrange(place.len() as int, other.len() as int) =~= inner);
    assert(shown.take(point.len() as int) =~= point);
    assert(other.take(place.len() as int) =~= place);
    assert(point.is_prefix_of(shown));
    assert(place.is_prefix_of(other));
}

} // verus!
