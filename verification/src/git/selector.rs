//! Output of `git ls-remote` for one selector.

use vstd::prelude::*;
use vstd::utf8::*;

use crate::git::issue::GitAcquisitionIssue;
use crate::git::object;
use crate::git::object::GitObjectFormat;
use crate::seqs;
use crate::seqs::{bytes_equal, split_bytes};
use crate::text;
use crate::text::{concat2, utf8_text};

verus! {

/// A rejected selector resolution.
pub open spec fn bad_selector(detail: Seq<char>) -> GitAcquisitionIssue<Seq<char>> {
    GitAcquisitionIssue::InvalidSelectorOutput { detail }
}

/// The tagged object ID that the output resolves a selector to.
pub open spec fn resolved_selector(output: Seq<u8>, selector: Seq<char>) -> Result<
    Seq<char>,
    GitAcquisitionIssue<Seq<char>>,
> {
    let record = output.drop_last();
    let fields = seqs::split_at_each(record, 9u8);
    if output.len() == 0 || output.last() != 10 {
        Err(bad_selector("output must contain one newline-terminated record"@))
    } else if record.len() == 0 || record.contains(10u8) || record.contains(13u8) {
        Err(bad_selector("output must contain exactly one record"@))
    } else if fields.len() < 2 {
        Err(bad_selector("record has no reference name"@))
    } else if fields.len() > 2 {
        Err(bad_selector("record contains extra fields"@))
    } else if fields[1] != encode_utf8(selector) {
        Err(bad_selector("returned reference does not exactly match the selector"@))
    } else if encode_utf8("^{}"@).is_suffix_of(fields[1]) {
        Err(bad_selector("peeled tag records are not accepted"@))
    } else if object::is_hex_id(fields[0], GitObjectFormat::Sha1.digits()) {
        Ok("sha1-"@ + decode_utf8(fields[0]))
    } else if object::is_hex_id(fields[0], GitObjectFormat::Sha256.digits()) {
        Ok("sha256-"@ + decode_utf8(fields[0]))
    } else {
        Err(bad_selector("object ID must be one full lowercase SHA-1 or SHA-256 value"@))
    }
}

fn invalid(detail: &str) -> (issue: GitAcquisitionIssue)
    ensures
        issue@ == bad_selector(detail@),
{
    GitAcquisitionIssue::InvalidSelectorOutput { detail: detail.to_owned() }
}

fn has_byte(s: &[u8], value: u8) -> (found: bool)
    ensures
        found == s@.contains(value),
{
    let index: usize = crate::seqs::find_byte(s, 0, value);
    proof {
        assert(s@.skip(0) =~= s@);
        seqs::lemma_first_index_of(s@, value);
    }
    index < s.len()
}

fn bytes_end_with(s: &[u8], suffix: &[u8]) -> (ends: bool)
    ensures
        ends == suffix@.is_suffix_of(s@),
{
    if s.len() < suffix.len() {
        return false;
    }
    let start: usize = s.len() - suffix.len();
    let ends = bytes_equal(&s[start..s.len()], suffix);
    assert(s@.subrange(start as int, s@.len() as int) =~= s@.subrange(
        s@.len() - suffix@.len(),
        s@.len() as int,
    ));
    ends
}

proof fn lemma_hex_is_utf8(id: Seq<u8>, length: nat)
    requires
        object::is_hex_id(id, length),
    ensures
        valid_utf8(id),
{
    let chars = Seq::new(id.len(), |i: int| id[i] as char);
    assert forall|i: int| 0 <= i < chars.len() implies (#[trigger] chars[i] as u32) < 128 by {
        assert(object::is_lower_hex(id[i]));
    }
    assert(is_ascii_chars(chars));
    is_ascii_chars_encode_utf8(chars);
    encode_utf8_valid_utf8(chars);
    assert forall|i: int| 0 <= i < id.len() implies encode_utf8(chars)[i] == id[i] by {
        assert(object::is_lower_hex(id[i]));
        assert(chars[i] as u8 == id[i]);
    }
    assert(encode_utf8(chars) =~= id);
}

/// Reads the object ID that the output resolves a selector to.
pub fn parse_selector_output(bytes: &[u8], selector: &str) -> (resolved: Result<
    String,
    GitAcquisitionIssue,
>)
    ensures
        match resolved {
            Ok(tagged) => resolved_selector(bytes@, selector@) == Ok::<
                Seq<char>,
                GitAcquisitionIssue<Seq<char>>,
            >(tagged@),
            Err(issue) => resolved_selector(bytes@, selector@) == Err::<
                Seq<char>,
                GitAcquisitionIssue<Seq<char>>,
            >(issue@),
        },
{
    if bytes.len() == 0 || bytes[bytes.len() - 1] != 10 {
        return Err(invalid("output must contain one newline-terminated record"));
    }
    let record = &bytes[0..bytes.len() - 1];
    proof {
        assert(record@ =~= bytes@.drop_last());
    }
    if record.len() == 0 || has_byte(record, 10) || has_byte(record, 13) {
        return Err(invalid("output must contain exactly one record"));
    }
    let fields = split_bytes(record, 9);
    let ghost listed = seqs::views(fields@);
    assert(listed.len() == fields@.len());
    if fields.len() < 2 {
        return Err(invalid("record has no reference name"));
    }
    if fields.len() > 2 {
        return Err(invalid("record contains extra fields"));
    }
    assert(listed[0] == fields@[0]@ && listed[1] == fields@[1]@);
    let oid = fields[0].as_slice();
    let reference = fields[1].as_slice();
    if !bytes_equal(reference, selector.as_bytes()) {
        return Err(invalid("returned reference does not exactly match the selector"));
    }
    if bytes_end_with(reference, "^{}".as_bytes()) {
        return Err(invalid("peeled tag records are not accepted"));
    }
    let sha1 = GitObjectFormat::Sha1.is_id(oid);
    if !sha1 && !GitObjectFormat::Sha256.is_id(oid) {
        return Err(
            invalid("object ID must be one full lowercase SHA-1 or SHA-256 value"),
        );
    }
    proof {
        lemma_hex_is_utf8(oid@, oid@.len());
    }
    match utf8_text(oid) {
        Some(id) => {
            proof {
                encode_utf8_decode_utf8(id@);
            }
            if sha1 {
                Ok(concat2("sha1-", id.as_str()))
            } else {
                Ok(concat2("sha256-", id.as_str()))
            }
        },
        None => {
            proof {
                assert(false);
            }
            Err(invalid("object ID must contain ASCII hexadecimal digits"))
        },
    }
}

/// A resolved selector is one tagged object ID, and the output that resolves to it names
/// that object and the selector.
pub proof fn lemma_resolution_is_exact(output: Seq<u8>, selector: Seq<char>)
    requires
        resolved_selector(output, selector) is Ok,
    ensures
        exists|format: GitObjectFormat, id: Seq<char>|
            {
                &&& object::is_hex_id(encode_utf8(id), format.digits())
                &&& resolved_selector(output, selector)->Ok_0 == #[trigger] (format.tag() + id)
                &&& output == encode_utf8(id).push(9u8) + encode_utf8(selector).push(10u8)
            },
{
    let record = output.drop_last();
    let fields = seqs::split_at_each(record, 9u8);
    let sha1 = object::is_hex_id(fields[0], GitObjectFormat::Sha1.digits());
    let format = if sha1 {
        GitObjectFormat::Sha1
    } else {
        GitObjectFormat::Sha256
    };
    let id = decode_utf8(fields[0]);
    lemma_hex_is_utf8(fields[0], fields[0].len());
    decode_utf8_encode_utf8(fields[0]);
    reveal_strlit("sha1");
    reveal_strlit("sha256");
    reveal_strlit("-");
    reveal_strlit("sha1-");
    reveal_strlit("sha256-");
    assert("sha1-"@ =~= GitObjectFormat::Sha1.tag());
    assert("sha256-"@ =~= GitObjectFormat::Sha256.tag());
    seqs::lemma_join_of_split(record, 9u8);
    assert(fields.drop_last() =~= seq![fields[0]]);
    assert(seqs::join_with(fields.drop_last(), 9u8) == fields[0]);
    assert(record == fields[0].push(9u8) + fields[1]);
    assert(output =~= record.push(10u8));
    assert(output =~= encode_utf8(id).push(9u8) + encode_utf8(selector).push(10u8));
    assert(resolved_selector(output, selector)->Ok_0 == format.tag() + id);
}

/// One record that names an object and exactly the selector resolves to that object, tagged with
/// the format that its length tells.
pub proof fn lemma_exact_records_are_resolved(
    format: GitObjectFormat,
    id: Seq<char>,
    selector: Seq<char>,
)
    requires
        object::is_hex_id(encode_utf8(id), format.digits()),
        forall|i: int|
            0 <= i < encode_utf8(selector).len() ==> #[trigger] encode_utf8(selector)[i] != 9u8
                && encode_utf8(selector)[i] != 10u8 && encode_utf8(selector)[i] != 13u8,
        !encode_utf8("^{}"@).is_suffix_of(encode_utf8(selector)),
    ensures
        resolved_selector(
            encode_utf8(id).push(9u8) + encode_utf8(selector).push(10u8),
            selector,
        ) == Ok::<Seq<char>, GitAcquisitionIssue<Seq<char>>>(
            (match format {
                GitObjectFormat::Sha1 => "sha1-"@,
                GitObjectFormat::Sha256 => "sha256-"@,
            }) + id,
        ),
{
    let raw = encode_utf8(id);
    let name = encode_utf8(selector);
    let output = raw.push(9u8) + name.push(10u8);
    let record = output.drop_last();
    let fields = seq![raw, name];
    assert(record =~= raw.push(9u8) + name);
    assert forall|i: int, j: int|
        0 <= i < fields.len() && 0 <= j < fields[i].len() implies #[trigger] fields[i][j]
        != 9u8 by {
        if i == 0 {
            assert(object::is_lower_hex(raw[j]));
        }
    }
    seqs::lemma_split_of_join(fields, 9u8);
    assert(fields.drop_last() =~= seq![raw]);
    reveal_with_fuel(seqs::join_with, 3);
    assert(seqs::join_with(fields, 9u8) =~= record);
    assert forall|k: int| 0 <= k < record.len() implies #[trigger] record[k] != 10u8 && record[k]
        != 13u8 by {
        if k < raw.len() {
            assert(record[k] == raw[k]);
            assert(object::is_lower_hex(raw[k]));
        } else if k > raw.len() {
            assert(record[k] == name[k - raw.len() - 1]);
        }
    }
    encode_utf8_decode_utf8(id);
}

} // verus!
