//! Decompressing vendored `.xz` payloads within a fixed limit.

use vstd::prelude::*;

use crate::limits::MAX_DECOMPRESSED_ASSET_BYTES;
use crate::prepare_error::StaticPrepareError;
use crate::text::concat4;

verus! {

/// A number in the variable length that the `.xz` format uses, at some place of the bytes: its
/// value, and where it ends. At most `limit` bytes spell it; the lowest seven bits come first.
pub open spec fn multibyte(bytes: Seq<u8>, at: int, limit: nat) -> Option<(nat, int)>
    decreases limit,
{
    if limit == 0 || at < 0 || at >= bytes.len() {
        None
    } else if bytes[at] < 128 {
        Some((bytes[at] as nat, at + 1))
    } else {
        match multibyte(bytes, at + 1, (limit - 1) as nat) {
            Some((high, end)) => Some(((bytes[at] - 128 + 128 * high) as nat, end)),
            None => None,
        }
    }
}

/// A size with the padding that fills it up to four bytes.
pub open spec fn padded_size(size: nat) -> nat {
    ((size + 3) / 4 * 4) as nat
}

/// How many bytes the blocks of so many records take, with their padding, and where the records
/// end. A record holds the size of its block without padding and the size of what it unpacks to.
pub open spec fn records_span(bytes: Seq<u8>, at: int, count: nat) -> Option<(nat, int)>
    decreases count,
{
    if count == 0 {
        Some((0, at))
    } else {
        match multibyte(bytes, at, 9) {
            None => None,
            Some((unpadded, next)) => match multibyte(bytes, next, 9) {
                None => None,
                Some((_, after)) => match records_span(bytes, after, (count - 1) as nat) {
                    None => None,
                    Some((rest, end)) => Some((padded_size(unpadded) + rest, end)),
                },
            },
        }
    }
}

/// Where the index of a stream ends that starts at some place, with its padding and its
/// checksum. The blocks that it lists fill everything between the header of the stream, which
/// has twelve bytes, and the index itself; its padding is made of zeros.
pub open spec fn index_end(bytes: Seq<u8>, start: int) -> Option<int> {
    if start < 12 || start >= bytes.len() || bytes[start] != 0 {
        None
    } else {
        match multibyte(bytes, start + 1, 9) {
            None => None,
            Some((records, first)) => match records_span(bytes, first, records) {
                None => None,
                Some((span, end)) => {
                    let padded = start + padded_size((end - start) as nat);
                    if span == start - 12 && padded <= bytes.len() && are_zero(
                        bytes,
                        end,
                        padded,
                    ) {
                        Some(padded + 4)
                    } else {
                        None
                    }
                },
            },
        }
    }
}

/// All bytes of a range are zero.
pub open spec fn are_zero(bytes: Seq<u8>, from: int, to: int) -> bool {
    forall|i: int| from <= i < to ==> #[trigger] bytes[i] == 0
}

/// The bytes start like an `.xz` stream.
pub open spec fn is_stream(bytes: Seq<u8>) -> bool {
    bytes.len() >= 12 && bytes[0] == 0xFD && bytes[1] == 0x37 && bytes[2] == 0x7A && bytes[3]
        == 0x58 && bytes[4] == 0x5A && bytes[5] == 0
}

/// Four bytes that are all ones stand at some place.
pub open spec fn is_full_word(bytes: Seq<u8>, at: int) -> bool {
    0 <= at && at + 4 <= bytes.len() && bytes[at] == 255 && bytes[at + 1] == 255 && bytes[at + 2]
        == 255 && bytes[at + 3] == 255
}

/// An index starts at a place that lists exactly the blocks before it, and the footer behind it
/// tells of the greatest size that four bytes can hold.
pub open spec fn has_endless_footer(bytes: Seq<u8>, start: int) -> bool {
    index_end(bytes, start) matches Some(end) && is_full_word(bytes, end + 4)
}

/// How the LZMA2 decoder goes through bytes that start with LZMA2 data: how many of them it
/// takes, or nothing where it fails.
pub uninterp spec fn lzma2_extent(bytes: Seq<u8>) -> Option<nat>;

/// How many bytes the check behind a block takes, going by the header of the stream; nothing
/// where the decoder takes no such check.
pub open spec fn check_length(bytes: Seq<u8>) -> Option<nat> {
    if bytes[7] == 0 {
        Some(0)
    } else if bytes[7] == 1 {
        Some(4)
    } else if bytes[7] == 4 {
        Some(8)
    } else {
        None
    }
}

/// Where a block ends that starts at some place: its header is followed by LZMA2 data, padding
/// and a check.
pub open spec fn block_end(bytes: Seq<u8>, at: int) -> Option<int> {
    let data = at + 4 * bytes[at] + 4;
    if data > bytes.len() {
        None
    } else {
        match lzma2_extent(bytes.skip(data)) {
            None => None,
            Some(taken) => match check_length(bytes) {
                None => None,
                Some(check) => {
                    let end = at + padded_size((data - at + taken) as nat) + check;
                    if end <= bytes.len() {
                        Some(end)
                    } else {
                        None
                    }
                },
            },
        }
    }
}

/// Where the index of a stream starts, followed block by block from some place on; nothing where
/// the decoder does not come to one.
pub open spec fn index_start(bytes: Seq<u8>, at: int) -> Option<int>
    decreases bytes.len() - at,
{
    if at < 0 || at >= bytes.len() {
        None
    } else if bytes[at] == 0 {
        Some(at)
    } else {
        match block_end(bytes, at) {
            Some(next) => if at < next {
                index_start(bytes, next)
            } else {
                None
            },
            None => None,
        }
    }
}

/// The bytes are a stream whose footer tells of an index size which the decoder cannot add one
/// to. The blocks of the stream lead to its index, and the index to its footer.
pub open spec fn overflows_decoder(bytes: Seq<u8>) -> bool {
    is_stream(bytes) && (index_start(bytes, 12) matches Some(start) && has_endless_footer(
        bytes,
        start,
    ))
}

spec fn pow128(exponent: nat) -> nat
    decreases exponent,
{
    if exponent == 0 {
        1
    } else {
        128 * pow128((exponent - 1) as nat)
    }
}

proof fn lemma_pow128_values()
    ensures
        pow128(9) == 0x8000_0000_0000_0000,
{
    assert(pow128(0) == 1);
    assert(pow128(1) == 128);
    assert(pow128(2) == 16384);
    assert(pow128(3) == 2097152);
    assert(pow128(4) == 268435456);
    assert(pow128(5) == 34359738368);
    assert(pow128(6) == 4398046511104);
    assert(pow128(7) == 562949953421312);
    assert(pow128(8) == 72057594037927936);
    assert(pow128(9) == 0x8000_0000_0000_0000);
}

proof fn lemma_pow128_grows(low: nat, high: nat)
    requires
        low <= high,
    ensures
        pow128(low) <= pow128(high),
    decreases high - low,
{
    if low < high {
        lemma_pow128_grows(low, (high - 1) as nat);
    }
}

fn read_multibyte(bytes: &[u8], at: usize, limit: usize) -> (read: Option<(u64, usize)>)
    requires
        limit <= 9,
    ensures
        match read {
            Some((value, end)) => multibyte(bytes@, at as int, limit as nat) == Some(
                (value as nat, end as int),
            ) && value < pow128(limit as nat) && at < end <= bytes@.len(),
            None => multibyte(bytes@, at as int, limit as nat) is None,
        },
    decreases limit,
{
    if limit == 0 || at >= bytes.len() {
        return None;
    }
    let byte: u8 = bytes[at];
    proof {
        lemma_pow128_grows(1, limit as nat);
        assert(pow128(1) == 128 * pow128(0));
        lemma_pow128_values();
        lemma_pow128_grows(limit as nat, 9);
        lemma_pow128_grows((limit - 1) as nat, 9);
    }
    if byte < 128 {
        return Some((byte as u64, at + 1));
    }
    match read_multibyte(bytes, at + 1, limit - 1) {
        Some((high, end)) => {
            assert(high + 1 <= pow128((limit - 1) as nat));
            Some(((byte - 128) as u64 + 128 * high, end))
        },
        None => None,
    }
}

/// Reads records whose blocks take `span` bytes, with their padding, and tells where they end.
fn read_records(bytes: &[u8], at: usize, count: u64, span: usize) -> (end: Option<usize>)
    requires
        at <= bytes@.len(),
    ensures
        match end {
            Some(after) => records_span(bytes@, at as int, count as nat) == Some(
                (span as nat, after as int),
            ) && at <= after <= bytes@.len(),
            None => !(records_span(bytes@, at as int, count as nat) matches Some((total, _))
                && total == span),
        },
{
    let mut place: usize = at;
    let mut left: u64 = count;
    let mut open: usize = span;
    while left > 0
        invariant
            at <= place <= bytes@.len(),
            left <= count,
            open <= span,
            match records_span(bytes@, place as int, left as nat) {
                Some((rest, end)) => records_span(bytes@, at as int, count as nat) == Some(
                    ((span - open + rest) as nat, end),
                ),
                None => records_span(bytes@, at as int, count as nat) is None,
            },
        decreases left,
    {
        let (unpadded, next) = match read_multibyte(bytes, place, 9) {
            Some(read) => read,
            None => {
                return None;
            },
        };
        let after: usize = match read_multibyte(bytes, next, 9) {
            Some((_, after)) => after,
            None => {
                return None;
            },
        };
        proof {
            lemma_pow128_values();
        }
        let padded: u64 = (unpadded + 3) / 4 * 4;
        if padded > open as u64 {
            return None;
        }
        open = open - padded as usize;
        place = after;
        left = left - 1;
    }
    if open != 0 {
        return None;
    }
    Some(place)
}

fn range_is_zero(bytes: &[u8], from: usize, to: usize) -> (zero: bool)
    requires
        from <= to <= bytes@.len(),
    ensures
        zero == are_zero(bytes@, from as int, to as int),
{
    let mut i: usize = from;
    while i < to
        invariant
            from <= i <= to <= bytes@.len(),
            are_zero(bytes@, from as int, i as int),
        decreases to - i,
    {
        if bytes[i] != 0 {
            return false;
        }
        i = i + 1;
    }
    true
}

fn footer_is_endless(bytes: &[u8], start: usize) -> (endless: bool)
    requires
        12 <= start < bytes@.len(),
    ensures
        endless == has_endless_footer(bytes@, start as int),
{
    if bytes[start] != 0 {
        return false;
    }
    let (records, first) = match read_multibyte(bytes, start + 1, 9) {
        Some(read) => read,
        None => {
            return false;
        },
    };
    let end: usize = match read_records(bytes, first, records, start - 12) {
        Some(end) => end,
        None => {
            return false;
        },
    };
    let used: usize = end - start;
    let padding: usize = if used % 4 == 0 {
        0
    } else {
        4 - used % 4
    };
    proof {
        assert(used + padding == padded_size(used as nat));
    }
    if bytes.len() - end < padding + 12 {
        return false;
    }
    if !range_is_zero(bytes, end, end + padding) {
        return false;
    }
    let footer: usize = end + padding + 8;
    bytes[footer] == 255 && bytes[footer + 1] == 255 && bytes[footer + 2] == 255 && bytes[footer
        + 3] == 255
}

/// `lzma_rs::lzma2_decompress`: how many bytes of its input it takes, where it does not fail, is
/// a function of the input and at most its length. The decoder of `.xz` streams goes through
/// the data of its blocks in the same way. What the data unpacks to is left unsaid.
#[verifier::external_body]
fn lzma2_taken(bytes: &[u8]) -> (taken: Option<u64>)
    ensures
        match taken {
            Some(count) => lzma2_extent(bytes@) == Some(count as nat) && count <= bytes@.len(),
            None => lzma2_extent(bytes@) is None,
        },
{
    let mut input = std::io::Cursor::new(bytes);
    let outcome = lzma_rs::lzma2_decompress(&mut input, &mut std::io::sink());
    outcome.ok().map(|_| input.position())
}

fn find_block_end(bytes: &[u8], at: usize) -> (end: Option<usize>)
    requires
        12 <= at < bytes@.len(),
        bytes@[at as int] != 0,
    ensures
        match end {
            Some(next) => block_end(bytes@, at as int) == Some(next as int) && at < next
                <= bytes@.len(),
            None => block_end(bytes@, at as int) is None,
        },
{
    let header: usize = 4 * bytes[at] as usize + 4;
    if bytes.len() - at < header {
        return None;
    }
    let data: usize = at + header;
    let rest = vstd::slice::slice_subrange(bytes, data, bytes.len());
    proof {
        assert(rest@ =~= bytes@.skip(data as int));
    }
    let taken: usize = match lzma2_taken(rest) {
        Some(taken) => taken as usize,
        None => {
            return None;
        },
    };
    let check: usize = if bytes[7] == 0 {
        0
    } else if bytes[7] == 1 {
        4
    } else if bytes[7] == 4 {
        8
    } else {
        return None;
    };
    let used: usize = header + taken;
    let padding: usize = if used % 4 == 0 {
        0
    } else {
        4 - used % 4
    };
    proof {
        assert(used + padding == padded_size(used as nat));
    }
    if bytes.len() - at - used < padding + check {
        return None;
    }
    Some(at + used + padding + check)
}

/// Tells whether the bytes are a stream whose footer the decoder cannot take.
pub fn payload_overflows_decoder(bytes: &[u8]) -> (overflows: bool)
    ensures
        overflows == overflows_decoder(bytes@),
{
    if bytes.len() < 12 || bytes[0] != 0xFD || bytes[1] != 0x37 || bytes[2] != 0x7A || bytes[3]
        != 0x58 || bytes[4] != 0x5A || bytes[5] != 0 {
        return false;
    }
    let mut at: usize = 12;
    while at < bytes.len() && bytes[at] != 0
        invariant
            12 <= at <= bytes@.len(),
            is_stream(bytes@),
            index_start(bytes@, at as int) == index_start(bytes@, 12),
        decreases bytes@.len() - at,
    {
        match find_block_end(bytes, at) {
            Some(next) => {
                at = next;
            },
            None => {
                return false;
            },
        }
    }
    at < bytes.len() && footer_is_endless(bytes, at)
}

/// What the decoder makes of a payload where there is room: the bytes that it writes, and in
/// words why it stops where it does not come to the end.
pub uninterp spec fn xz_output(payload: Seq<u8>) -> (Seq<u8>, Option<Seq<char>>);

/// An optional text, as contracts speak of it.
pub open spec fn failure_view(failure: Option<String>) -> Option<Seq<char>> {
    match failure {
        Some(detail) => Some(detail@),
        None => None,
    }
}

/// `lzma_rs::xz_decompress` into a buffer with room for so many bytes. What it writes without
/// such a bound, and the message of the error where there is one, are a function of the
/// payload. The decoder writes a block when its checks have passed, so that blocks before an
/// error stay written. Where the room does not suffice it is filled, and the decoder stops with
/// an error. The decoder adds one to the index size in the footer, which overflows where that
/// size is the greatest of four bytes: such payloads are left out. What the bytes are is left
/// unsaid.
#[verifier::external_body]
fn xz_decompressed(payload: &[u8], room: usize) -> (result: (Vec<u8>, Option<String>))
    requires
        !overflows_decoder(payload@),
    ensures
        if xz_output(payload@).0.len() <= room {
            (result.0@, failure_view(result.1)) == xz_output(payload@)
        } else {
            result.0@ == xz_output(payload@).0.take(room as int) && result.1 is Some
        },
{
    let mut reader = std::io::BufReader::new(std::io::Cursor::new(payload));
    let mut buffer = vec![0; room];
    let mut sink = std::io::Cursor::new(buffer.as_mut_slice());
    let outcome = lzma_rs::xz_decompress(&mut reader, &mut sink);
    let written = sink.position() as usize;
    buffer.truncate(written);
    buffer.shrink_to_fit();
    (buffer, outcome.err().map(|error| error.to_string()))
}

/// The message about an asset that could not be decompressed.
pub open spec fn decompression_message(name: Seq<char>, detail: Seq<char>) -> Seq<char> {
    "asset `"@ + name + "`: xz decompression failed: "@ + detail
}

/// The failure of an asset whose payload would overflow the decoder.
pub open spec fn overflow_failure(name: Seq<char>) -> StaticPrepareError<Seq<char>, Seq<u8>> {
    StaticPrepareError::InvalidConfig {
        detail: decompression_message(
            name,
            "xz error: the footer tells of an index that is too large"@,
        ),
    }
}

/// Tells the failure of an asset whose payload would overflow the decoder.
pub fn overflow_error(name: &str) -> (error: StaticPrepareError)
    ensures
        error@ == overflow_failure(name@),
{
    StaticPrepareError::InvalidConfig {
        detail: concat4(
            "asset `",
            name,
            "`: xz decompression failed: ",
            "xz error: the footer tells of an index that is too large",
        ),
    }
}

/// What comes of a decompressed asset: it must not be larger than the limit, whatever else
/// went wrong behind the limit, and must have come to its end.
pub open spec fn settled(
    name: Seq<char>,
    written: Seq<u8>,
    failure: Option<Seq<char>>,
) -> Result<Seq<u8>, StaticPrepareError<Seq<char>, Seq<u8>>> {
    if written.len() > MAX_DECOMPRESSED_ASSET_BYTES {
        Err(
            StaticPrepareError::InvalidConfig {
                detail: decompression_message(
                    name,
                    "io error: decompressed payload exceeds limit"@,
                ),
            },
        )
    } else {
        match failure {
            Some(detail) => Err(
                StaticPrepareError::InvalidConfig { detail: decompression_message(name, detail) },
            ),
            None => Ok(written),
        }
    }
}

/// Decompressed bytes or a failure, as contracts speak of them.
pub open spec fn bytes_view(outcome: Result<Vec<u8>, StaticPrepareError>) -> Result<
    Seq<u8>,
    StaticPrepareError<Seq<char>, Seq<u8>>,
> {
    match outcome {
        Ok(bytes) => Ok(bytes@),
        Err(error) => Err(error@),
    }
}

/// Decides what comes of a decompressed asset.
pub fn settle_decompression(name: &str, written: Vec<u8>, failure: Option<String>) -> (outcome:
    Result<Vec<u8>, StaticPrepareError>)
    ensures
        bytes_view(outcome) == settled(name@, written@, failure_view(failure)),
{
    if written.len() as u64 > MAX_DECOMPRESSED_ASSET_BYTES {
        return Err(
            StaticPrepareError::InvalidConfig {
                detail: concat4(
                    "asset `",
                    name,
                    "`: xz decompression failed: ",
                    "io error: decompressed payload exceeds limit",
                ),
            },
        );
    }
    match failure {
        Some(detail) => Err(
            StaticPrepareError::InvalidConfig {
                detail: concat4(
                    "asset `",
                    name,
                    "`: xz decompression failed: ",
                    detail.as_str(),
                ),
            },
        ),
        None => Ok(written),
    }
}

/// Decompresses an asset into memory that holds one byte more than the limit at most; `None`
/// tells that its payload would overflow the decoder.
pub fn decompress_xz(name: &str, payload: &[u8]) -> (outcome: Option<
    Result<Vec<u8>, StaticPrepareError>,
>)
    ensures
        match outcome {
            None => overflows_decoder(payload@),
            Some(settled_outcome) => !overflows_decoder(payload@) && bytes_view(settled_outcome)
                == settled(name@, xz_output(payload@).0, xz_output(payload@).1),
        },
{
    if payload_overflows_decoder(payload) {
        return None;
    }
    let (written, failure) = xz_decompressed(payload, MAX_DECOMPRESSED_ASSET_BYTES as usize + 1);
    Some(settle_decompression(name, written, failure))
}

/// What was decompressed is handed out whole exactly where the decoder did not fail and it is
/// within the limit; else the error tells the asset and what went wrong.
pub proof fn lemma_decompressed_bytes_are_handed_out_whole(
    name: Seq<char>,
    written: Seq<u8>,
    failure: Option<Seq<char>>,
)
    ensures
        match settled(name, written, failure) {
            Ok(bytes) => bytes == written && failure is None && written.len() <= 536_870_912,
            Err(StaticPrepareError::InvalidConfig { detail }) => {
                &&& written.len() > 536_870_912 ==> detail == "asset `"@ + name
                    + "`: xz decompression failed: "@
                    + "io error: decompressed payload exceeds limit"@
                &&& written.len() <= 536_870_912 ==> (failure matches Some(told) && detail
                    == "asset `"@ + name + "`: xz decompression failed: "@ + told)
            },
            Err(_) => false,
        },
{
}

/// A number in groups of seven bits, the lowest first, where every group but the last is marked.
pub open spec fn multibyte_of(value: nat) -> Seq<u8>
    decreases value,
{
    if value < 128 {
        seq![value as u8]
    } else {
        seq![(128 + value % 128) as u8] + multibyte_of(value / 128)
    }
}

/// A number that is written in groups of seven bits is read as that number, and reading ends
/// where it ends.
pub proof fn lemma_multibyte_numbers_are_read_back(
    before: Seq<u8>,
    value: nat,
    after: Seq<u8>,
    limit: nat,
)
    requires
        multibyte_of(value).len() <= limit,
    ensures
        multibyte(before + multibyte_of(value) + after, before.len() as int, limit) == Some(
            (value, (before.len() + multibyte_of(value).len()) as int),
        ),
    decreases value,
{
    let written = multibyte_of(value);
    let bytes = before + written + after;
    let at = before.len() as int;
    assert(bytes[at] == written[0]);
    if value >= 128 {
        let high = value / 128;
        let more = before.push(written[0]);
        assert(written.skip(1) =~= multibyte_of(high));
        assert(bytes =~= more + multibyte_of(high) + after);
        lemma_multibyte_numbers_are_read_back(more, high, after, (limit - 1) as nat);
        assert(written[0] == 128 + value % 128);
        assert(value == value % 128 + 128 * high);
    }
}

/// A padded size is the next multiple of four.
pub proof fn lemma_sizes_are_padded_to_four(size: nat)
    ensures
        padded_size(size) % 4 == 0,
        size <= padded_size(size) < size + 4,
{
}

} // verus!
