//! Replies of `git cat-file --batch`.

use vstd::prelude::*;
use vstd::utf8::*;

use crate::git::issue::{malformed, GitAcquisitionIssue, GitCommandStage};
use crate::git::object;
use crate::git::object::{GitObjectFormat, GitObjectKind};
use crate::seqs;
use crate::seqs::{are_decimal_digits, bytes_equal, copy_bytes, parse_decimal, split_bytes};
use crate::text;
use crate::text::utf8_text;

verus! {

/// Most bytes in the header line of a reply.
pub const MAX_BATCH_HEADER_BYTES: usize = 160;

/// A failed read or write while objects are exchanged.
pub open spec fn exchange_failure(
    operation: Seq<char>,
    detail: Seq<char>,
) -> GitAcquisitionIssue<Seq<char>> {
    GitAcquisitionIssue::ProcessIo { stage: GitCommandStage::ReadObjects, operation, detail }
}

/// How `std` describes a read that ends before its buffer is full.
pub open spec fn short_read() -> Seq<char> {
    "failed to fill whole buffer"@
}

/// A malformed object of the requested kind.
pub open spec fn bad_object(kind: GitObjectKind, detail: Seq<char>) -> GitAcquisitionIssue<
    Seq<char>,
> {
    GitAcquisitionIssue::MalformedObject { kind, detail }
}

/// The body size that a reply header announces for the requested object.
pub open spec fn announced_size(
    header: Seq<u8>,
    format: GitObjectFormat,
    oid: Seq<char>,
    kind: GitObjectKind,
    limit: u64,
) -> Result<nat, GitAcquisitionIssue<Seq<char>>> {
    let fields = seqs::split_at_each(header, 32u8);
    if fields.len() == 2 && fields[1] == encode_utf8("missing"@) {
        Err(GitAcquisitionIssue::MissingObject { oid })
    } else if fields.len() != 3 {
        Err(bad_object(kind, "invalid cat-file batch header"@))
    } else if !valid_utf8(fields[0]) {
        Err(bad_object(kind, "batch object ID is not ASCII"@))
    } else if fields[0] != encode_utf8(oid) || !object::is_hex_id(fields[0], format.digits()) {
        Err(bad_object(kind, "batch returned another object ID"@))
    } else if !valid_utf8(fields[1]) {
        Err(bad_object(kind, "batch object type is not ASCII"@))
    } else if fields[1] != encode_utf8(kind.name()) {
        Err(
            GitAcquisitionIssue::UnexpectedObjectType {
                oid,
                expected: kind,
                actual: decode_utf8(fields[1]),
            },
        )
    } else if !valid_utf8(fields[2]) {
        Err(bad_object(kind, "batch object size is not ASCII"@))
    } else if fields[2].len() == 0 || !seqs::all_decimal_digits(fields[2]) {
        Err(bad_object(kind, "batch object size is not decimal"@))
    } else if seqs::decimal_value(fields[2]) > u64::MAX {
        Err(bad_object(kind, "batch object size overflows u64"@))
    } else if seqs::decimal_value(fields[2]) > limit {
        Err(
            GitAcquisitionIssue::ObjectTooLarge {
                oid,
                kind,
                limit,
                actual: seqs::decimal_value(fields[2]) as u64,
            },
        )
    } else if seqs::decimal_value(fields[2]) > usize::MAX {
        Err(bad_object(kind, "batch object size does not fit memory"@))
    } else {
        Ok(seqs::decimal_value(fields[2]))
    }
}

/// Reads the body size that a reply header announces.
pub fn reply_size(
    header: &[u8],
    format: GitObjectFormat,
    oid: &str,
    kind: GitObjectKind,
    limit: u64,
) -> (size: Result<usize, GitAcquisitionIssue>)
    ensures
        match size {
            Ok(size) => announced_size(header@, format, oid@, kind, limit) == Ok::<
                nat,
                GitAcquisitionIssue<Seq<char>>,
            >(size as nat),
            Err(issue) => announced_size(header@, format, oid@, kind, limit) == Err::<
                nat,
                GitAcquisitionIssue<Seq<char>>,
            >(issue@),
        },
{
    let fields = split_bytes(header, 32);
    let ghost listed = seqs::views(fields@);
    if fields.len() == 2 && bytes_equal(fields[1].as_slice(), "missing".as_bytes()) {
        assert(listed[1] == fields@[1]@);
        return Err(GitAcquisitionIssue::MissingObject { oid: oid.to_owned() });
    }
    if fields.len() != 3 {
        proof {
            if fields@.len() == 2 {
                assert(listed[1] == fields@[1]@);
            }
        }
        return Err(malformed(kind, "invalid cat-file batch header"));
    }
    assert(listed[0] == fields@[0]@);
    assert(listed[1] == fields@[1]@);
    assert(listed[2] == fields@[2]@);
    if utf8_text(fields[0].as_slice()).is_none() {
        return Err(malformed(kind, "batch object ID is not ASCII"));
    }
    if !bytes_equal(fields[0].as_slice(), oid.as_bytes()) || !format.is_id(fields[0].as_slice()) {
        return Err(malformed(kind, "batch returned another object ID"));
    }
    match utf8_text(fields[1].as_slice()) {
        None => {
            return Err(malformed(kind, "batch object type is not ASCII"));
        },
        Some(actual) => {
            if !bytes_equal(fields[1].as_slice(), kind.as_str().as_bytes()) {
                proof {
                    encode_utf8_decode_utf8(actual@);
                }
                return Err(
                    GitAcquisitionIssue::UnexpectedObjectType {
                        oid: oid.to_owned(),
                        expected: kind,
                        actual,
                    },
                );
            }
        },
    }
    if utf8_text(fields[2].as_slice()).is_none() {
        return Err(malformed(kind, "batch object size is not ASCII"));
    }
    if fields[2].len() == 0 || !are_decimal_digits(fields[2].as_slice()) {
        return Err(malformed(kind, "batch object size is not decimal"));
    }
    let size: u64 = match parse_decimal(fields[2].as_slice()) {
        Some(size) => size,
        None => {
            return Err(malformed(kind, "batch object size overflows u64"));
        },
    };
    if size > limit {
        return Err(
            GitAcquisitionIssue::ObjectTooLarge { oid: oid.to_owned(), kind, limit, actual: size },
        );
    }
    if size > usize::MAX as u64 {
        return Err(malformed(kind, "batch object size does not fit memory"));
    }
    Ok(size as usize)
}

/// Adds one byte to a reply header; a newline completes the header.
pub fn push_header_byte(header: &mut Vec<u8>, byte: u8) -> (complete: Result<
    bool,
    GitAcquisitionIssue,
>)
    requires
        old(header).len() <= MAX_BATCH_HEADER_BYTES,
    ensures
        final(header).len() <= MAX_BATCH_HEADER_BYTES,
        byte == 10 ==> complete == Ok::<bool, GitAcquisitionIssue>(true) && final(header)@ == old(
            header,
        )@,
        byte != 10 && old(header).len() < MAX_BATCH_HEADER_BYTES ==> complete == Ok::<
            bool,
            GitAcquisitionIssue,
        >(false) && final(header)@ == old(header)@.push(byte),
        byte != 10 && old(header).len() == MAX_BATCH_HEADER_BYTES ==> {
            &&& final(header)@ == old(header)@
            &&& complete matches Err(issue) && issue@ == bad_object(
                GitObjectKind::Blob,
                "cat-file batch header exceeds its limit"@,
            )
        },
{
    if byte == 10 {
        return Ok(true);
    }
    if header.len() == MAX_BATCH_HEADER_BYTES {
        return Err(malformed(GitObjectKind::Blob, "cat-file batch header exceeds its limit"));
    }
    header.push(byte);
    Ok(false)
}

/// The line that requests an object.
pub open spec fn request_line(oid: Seq<char>) -> Seq<u8> {
    encode_utf8(oid).push(10u8)
}

/// Writes the line that requests an object, if the object ID fits the format.
pub fn object_request(format: GitObjectFormat, oid: &str, kind: GitObjectKind) -> (line: Result<
    Vec<u8>,
    GitAcquisitionIssue,
>)
    ensures
        line is Ok <==> object::is_hex_id(encode_utf8(oid@), format.digits()),
        line matches Ok(bytes) ==> bytes@ == request_line(oid@),
        line matches Err(issue) ==> issue@ == bad_object(
            kind,
            "requested object ID has the wrong format"@,
        ),
{
    if !format.validate_hex(oid) {
        return Err(malformed(kind, "requested object ID has the wrong format"));
    }
    let mut bytes = copy_bytes(oid.as_bytes());
    bytes.push(10);
    Ok(bytes)
}

/// Checks the byte that ends a reply body.
pub fn finish_body(body: Vec<u8>, separator: u8, kind: GitObjectKind) -> (object: Result<
    Vec<u8>,
    GitAcquisitionIssue,
>)
    ensures
        object is Ok <==> separator == 10,
        object matches Ok(bytes) ==> bytes@ == body@,
        object matches Err(issue) ==> issue@ == bad_object(
            kind,
            "batch object body lacks final newline"@,
        ),
{
    if separator != 10 {
        return Err(malformed(kind, "batch object body lacks final newline"));
    }
    Ok(body)
}

/// A recorded conversation with `git cat-file --batch`: the replies, how far they have been
/// read, and the requests written so far.
pub struct Batch {
    replies: Vec<u8>,
    position: usize,
    requests: Vec<u8>,
    format: GitObjectFormat,
}

/// The object that the next reply in a stream delivers, and the bytes read for it.
pub open spec fn next_reply(
    stream: Seq<u8>,
    format: GitObjectFormat,
    oid: Seq<char>,
    kind: GitObjectKind,
    limit: u64,
) -> (Result<Seq<u8>, GitAcquisitionIssue<Seq<char>>>, int) {
    let line = seqs::first_index_of(stream, 10u8);
    let header = stream.take(line);
    let rest = stream.skip(line + 1);
    if line > MAX_BATCH_HEADER_BYTES {
        (
            Err(
                bad_object(GitObjectKind::Blob, "cat-file batch header exceeds its limit"@),
            ),
            MAX_BATCH_HEADER_BYTES + 1,
        )
    } else if line == stream.len() {
        (Err(exchange_failure("read cat-file batch header"@, short_read())), line)
    } else {
        match announced_size(header, format, oid, kind, limit) {
            Err(issue) => (Err(issue), line + 1),
            Ok(size) => if rest.len() < size {
                (Err(exchange_failure("read cat-file object body"@, short_read())), line + 1)
            } else if rest.len() == size {
                (
                    Err(exchange_failure("read cat-file object separator"@, short_read())),
                    line + 1 + size,
                )
            } else if rest[size as int] != 10 {
                (
                    Err(bad_object(kind, "batch object body lacks final newline"@)),
                    line + 2 + size,
                )
            } else {
                (Ok(rest.take(size as int)), line + 2 + size)
            },
        }
    }
}

fn exchange_issue(operation: &str) -> (issue: GitAcquisitionIssue)
    ensures
        issue@ == exchange_failure(operation@, short_read()),
{
    GitAcquisitionIssue::ProcessIo {
        stage: GitCommandStage::ReadObjects,
        operation: operation.to_owned(),
        detail: "failed to fill whole buffer".to_owned(),
    }
}

impl Batch {
    /// The replies that have not been read.
    pub closed spec fn unread(&self) -> Seq<u8> {
        self.replies@.skip(self.position as int)
    }

    /// The requests written so far.
    pub closed spec fn requested(&self) -> Seq<u8> {
        self.requests@
    }

    /// The format of object IDs.
    pub closed spec fn id_format(&self) -> GitObjectFormat {
        self.format
    }

    #[verifier::type_invariant]
    spec fn well_formed(&self) -> bool {
        self.position <= self.replies.len()
    }

    /// Starts a conversation whose replies are known.
    pub fn new(replies: Vec<u8>, format: GitObjectFormat) -> (batch: Self)
        ensures
            batch.unread() == replies@,
            batch.requested() == Seq::<u8>::empty(),
            batch.id_format() == format,
    {
        let batch = Batch { replies, position: 0, requests: Vec::new(), format };
        assert(batch.unread() =~= replies@);
        batch
    }

    /// The requests written so far.
    pub fn requests(&self) -> (bytes: &[u8])
        ensures
            bytes@ == self.requested(),
    {
        self.requests.as_slice()
    }

    /// Requests an object and reads it from the next reply.
    pub fn object(&mut self, oid: &str, expected: GitObjectKind, limit: u64) -> (object: Result<
        Vec<u8>,
        GitAcquisitionIssue,
    >)
        ensures
            final(self).id_format() == old(self).id_format(),
            !object::is_hex_id(encode_utf8(oid@), old(self).id_format().digits()) ==> {
                &&& final(self).unread() == old(self).unread()
                &&& final(self).requested() == old(self).requested()
                &&& object matches Err(issue) && issue@ == bad_object(
                    expected,
                    "requested object ID has the wrong format"@,
                )
            },
            object::is_hex_id(encode_utf8(oid@), old(self).id_format().digits()) ==> {
                let (outcome, read) = next_reply(
                    old(self).unread(),
                    old(self).id_format(),
                    oid@,
                    expected,
                    limit,
                );
                &&& final(self).requested() == old(self).requested() + request_line(oid@)
                &&& final(self).unread() == old(self).unread().skip(read)
                &&& match object {
                    Ok(bytes) => outcome == Ok::<Seq<u8>, GitAcquisitionIssue<Seq<char>>>(bytes@),
                    Err(issue) => outcome == Err::<Seq<u8>, GitAcquisitionIssue<Seq<char>>>(issue@),
                }
            },
    {
        proof {
            use_type_invariant(&*self);
        }
        let line = match object_request(self.format, oid, expected) {
            Ok(line) => line,
            Err(issue) => {
                return Err(issue);
            },
        };
        let ghost stream = self.unread();
        let start: usize = self.position;
        let mut requests = copy_bytes(self.requests.as_slice());
        requests.extend_from_slice(line.as_slice());
        proof {
            assert(requests@ =~= self.requests@ + request_line(oid@));
        }
        self.requests = requests;
        let (object, end) = read_reply(
            self.replies.as_slice(),
            start,
            self.format,
            oid,
            expected,
            limit,
        );
        self.position = end;
        proof {
            assert(self.unread() =~= stream.skip(end - start));
        }
        object
    }
}

fn read_reply(
    replies: &[u8],
    start: usize,
    format: GitObjectFormat,
    oid: &str,
    kind: GitObjectKind,
    limit: u64,
) -> (result: (Result<Vec<u8>, GitAcquisitionIssue>, usize))
    requires
        start <= replies.len(),
    ensures
        start <= result.1 <= replies.len(),
        result.1 - start == next_reply(
            replies@.skip(start as int),
            format,
            oid@,
            kind,
            limit,
        ).1,
        match result.0 {
            Ok(bytes) => next_reply(replies@.skip(start as int), format, oid@, kind, limit).0
                == Ok::<Seq<u8>, GitAcquisitionIssue<Seq<char>>>(bytes@),
            Err(issue) => next_reply(replies@.skip(start as int), format, oid@, kind, limit).0
                == Err::<Seq<u8>, GitAcquisitionIssue<Seq<char>>>(issue@),
        },
{
    let ghost stream = replies@.skip(start as int);
    let mut header: Vec<u8> = Vec::new();
    let mut position: usize = start;
    proof {
        assert(stream.skip(0) =~= stream);
        seqs::lemma_first_index_of(stream, 10u8);
    }
    loop
        invariant
            start <= position <= replies.len(),
            stream == replies@.skip(start as int),
            header.len() <= MAX_BATCH_HEADER_BYTES,
            position - start == header.len(),
            header@ == stream.take(position - start),
            seqs::first_index_of(stream, 10u8) == position - start + seqs::first_index_of(
                stream.skip(position - start),
                10u8,
            ),
            0 <= seqs::first_index_of(stream, 10u8) <= stream.len(),
        ensures
            position < replies.len(),
            position - start == seqs::first_index_of(stream, 10u8),
            header.len() <= MAX_BATCH_HEADER_BYTES,
            header@ == stream.take(position - start),
        decreases replies.len() - position,
    {
        if position == replies.len() {
            return (Err(exchange_issue("read cat-file batch header")), position);
        }
        let byte: u8 = replies[position];
        let ghost before = header@;
        proof {
            assert(stream.skip(position - start)[0] == byte);
        }
        match push_header_byte(&mut header, byte) {
            Ok(complete) => {
                if complete {
                    break;
                }
            },
            Err(issue) => {
                proof {
                    seqs::lemma_first_index_of(stream.skip(position - start).skip(1), 10u8);
                }
                return (Err(issue), position + 1);
            },
        }
        proof {
            assert(stream.skip(position - start).skip(1) =~= stream.skip(position + 1 - start));
            assert(header@ =~= stream.take(position + 1 - start));
        }
        position = position + 1;
    }
    let body_start: usize = position + 1;
    let ghost rest = stream.skip(position - start + 1);
    proof {
        assert(rest =~= replies@.skip(body_start as int));
    }
    let size: usize = match reply_size(header.as_slice(), format, oid, kind, limit) {
        Ok(size) => size,
        Err(issue) => {
            return (Err(issue), body_start);
        },
    };
    if replies.len() - body_start < size {
        return (Err(exchange_issue("read cat-file object body")), body_start);
    }
    let body_end: usize = body_start + size;
    if replies.len() == body_end {
        return (Err(exchange_issue("read cat-file object separator")), body_end);
    }
    let body = copy_bytes(&replies[body_start..body_end]);
    proof {
        assert(body@ =~= rest.take(size as int));
    }
    (finish_body(body, replies[body_end], kind), body_end + 1)
}

/// The reply to a request is read back byte for byte: where the repository answers with the asked
/// object, of the asked kind and with as many bytes as it announces, these bytes are taken, and
/// what follows the reply is left for the next request.
pub proof fn lemma_announced_objects_are_read_back(
    format: GitObjectFormat,
    oid: Seq<char>,
    kind: GitObjectKind,
    limit: u64,
    size: Seq<u8>,
    body: Seq<u8>,
    rest: Seq<u8>,
)
    requires
        object::is_hex_id(encode_utf8(oid), format.digits()),
        size.len() > 0,
        size.len() <= 20,
        seqs::all_decimal_digits(size),
        seqs::decimal_value(size) == body.len(),
        body.len() <= limit,
        body.len() <= usize::MAX,
    ensures
        ({
            let header = encode_utf8(oid) + seq![32u8] + encode_utf8(kind.name()) + seq![32u8]
                + size;
            let stream = header + seq![10u8] + body + seq![10u8] + rest;
            let (reply, taken) = next_reply(stream, format, oid, kind, limit);
            &&& reply == Ok::<Seq<u8>, GitAcquisitionIssue<Seq<char>>>(body)
            &&& stream.skip(taken) == rest
        }),
{
    let id = encode_utf8(oid);
    let word = encode_utf8(kind.name());
    let header = id + seq![32u8] + word + seq![32u8] + size;
    let stream = header + seq![10u8] + body + seq![10u8] + rest;
    let fields = seq![id, word, size];
    lemma_kind_words(kind);
    encode_utf8_valid_utf8(oid);
    encode_utf8_valid_utf8(kind.name());
    assert forall|i: int, j: int|
        0 <= i < fields.len() && 0 <= j < fields[i].len() implies #[trigger] fields[i][j]
        != 32u8 by {
        if i == 0 {
            assert(object::is_lower_hex(id[j]));
        } else if i == 2 {
            assert(seqs::is_decimal_digit(size[j]));
        }
    }
    seqs::lemma_split_of_join(fields, 32u8);
    assert(fields.drop_last() =~= seq![id, word]);
    assert(fields.drop_last().drop_last() =~= seq![id]);
    reveal_with_fuel(seqs::join_with, 4);
    assert(seqs::join_with(fields, 32u8) =~= header);
    seqs::lemma_first_index_of(stream, 10u8);
    let line = seqs::first_index_of(stream, 10u8);
    assert(stream[header.len() as int] == 10u8);
    assert forall|i: int| 0 <= i < header.len() implies #[trigger] header[i] != 10u8 by {
        if i < id.len() {
            assert(header[i] == id[i]);
            assert(object::is_lower_hex(id[i]));
        } else if i == id.len() {
        } else if i < id.len() + 1 + word.len() {
            assert(header[i] == word[i - id.len() - 1]);
        } else if i > id.len() + 1 + word.len() {
            assert(header[i] == size[i - id.len() - word.len() - 2]);
            assert(seqs::is_decimal_digit(size[i - id.len() - word.len() - 2]));
        }
    }
    if line < header.len() {
        assert(stream[line] == header[line]);
    }
    assert(line == header.len());
    assert(stream.take(line) =~= header);
    lemma_digits_are_utf8(size);
    let behind = stream.skip(line + 1);
    assert(behind =~= body + seq![10u8] + rest);
    assert(behind.take(body.len() as int) =~= body);
    assert(behind[body.len() as int] == 10u8);
    assert(stream.skip(line + 2 + body.len()) =~= rest);
}

proof fn lemma_kind_words(kind: GitObjectKind)
    ensures
        encode_utf8(kind.name()).len() <= 6,
        forall|i: int|
            0 <= i < encode_utf8(kind.name()).len() ==> #[trigger] encode_utf8(kind.name())[i] > 32,
        encode_utf8(kind.name()) != encode_utf8("missing"@),
{
    reveal_strlit("commit");
    reveal_strlit("tree");
    reveal_strlit("blob");
    reveal_strlit("missing");
    let word = kind.name();
    assert(is_ascii_chars(word));
    assert(is_ascii_chars("missing"@));
    is_ascii_chars_encode_utf8(word);
    is_ascii_chars_encode_utf8("missing"@);
    assert("missing"@.len() == 7);
    assert forall|i: int| 0 <= i < encode_utf8(word).len() implies #[trigger] encode_utf8(word)[i]
        > 32 by {
        assert(word[i] as u8 == encode_utf8(word)[i]);
    }
}

proof fn lemma_digits_are_utf8(size: Seq<u8>)
    requires
        seqs::all_decimal_digits(size),
    ensures
        valid_utf8(size),
{
    let spelled = Seq::new(size.len(), |i: int| size[i] as char);
    assert forall|i: int| 0 <= i < spelled.len() implies (#[trigger] spelled[i] as u32) < 128 by {
        assert(seqs::is_decimal_digit(size[i]));
    }
    assert(is_ascii_chars(spelled));
    is_ascii_chars_encode_utf8(spelled);
    assert forall|i: int| 0 <= i < size.len() implies encode_utf8(spelled)[i] == size[i] by {
        assert(seqs::is_decimal_digit(size[i]));
        assert(spelled[i] as u8 == size[i]);
    }
    assert(encode_utf8(spelled) =~= size);
    encode_utf8_valid_utf8(spelled);
}

/// Nothing but the asked object is taken: the header names it, of the asked kind and within the
/// limit, and exactly as many bytes as the header announces are taken.
pub proof fn lemma_only_the_asked_object_is_taken(
    stream: Seq<u8>,
    format: GitObjectFormat,
    oid: Seq<char>,
    kind: GitObjectKind,
    limit: u64,
)
    requires
        next_reply(stream, format, oid, kind, limit).0 is Ok,
    ensures
        ({
            let line = seqs::first_index_of(stream, 10u8);
            let fields = seqs::split_at_each(stream.take(line), 32u8);
            let (reply, taken) = next_reply(stream, format, oid, kind, limit);
            &&& fields.len() == 3
            &&& fields[0] == encode_utf8(oid)
            &&& fields[1] == encode_utf8(kind.name())
            &&& seqs::decimal_value(fields[2]) == reply->Ok_0.len()
            &&& reply->Ok_0.len() <= limit
            &&& stream.skip(line + 1).take(reply->Ok_0.len() as int) == reply->Ok_0
            &&& taken == line + 2 + reply->Ok_0.len()
        }),
{
}

} // verus!
