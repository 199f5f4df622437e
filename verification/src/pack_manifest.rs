//! The manifest of a pack whose members lie in the blob store.
//!
//! A manifest names each member's path, blob and length, in strict path order. It is decoded
//! strictly: bytes that are not exactly what encoding gives are refused.

use vstd::prelude::*;
use vstd::utf8::*;

use crate::codec;
use crate::codec::{push_be, read_be};
use crate::seqs;
use crate::seqs::{bytes_before, bytes_equal, copy_bytes};
use crate::sort;
use crate::sort::stable_order;
use crate::text::utf8_text;

verus! {

/// Version of the manifest.
pub const PACK_MANIFEST_OBJECT_VERSION: u64 = 1;

/// Most members of a manifest.
pub const MAX_MANIFEST_MEMBERS: usize = 100_000;

/// Most bytes in a member's path.
pub const MAX_MEMBER_PATH_BYTES: usize = 1_024;

/// Most bytes in a member's blob identifier.
pub const MAX_MEMBER_DIGEST_BYTES: usize = 128;

/// Most bytes in a manifest.
pub const MAX_PACK_MANIFEST_OBJECT_BYTES: u64 = 134_217_728;

/// What every manifest starts with.
pub open spec fn domain() -> Seq<u8> {
    encode_utf8("malm-pack-manifest-object-v1"@).push(0u8)
}

/// One member of a manifest; `T` is the type of text.
#[derive(Debug)]
pub struct PackManifestMemberV1<T = String> {
    pub path: T,
    pub blob: T,
    pub byte_len: u64,
}

impl View for PackManifestMemberV1<String> {
    type V = PackManifestMemberV1<Seq<char>>;

    open spec fn view(&self) -> PackManifestMemberV1<Seq<char>> {
        PackManifestMemberV1 { path: self.path@, blob: self.blob@, byte_len: self.byte_len }
    }
}

/// A text as its length and its bytes.
pub open spec fn encoded_text(value: Seq<char>) -> Seq<u8> {
    codec::be(encode_utf8(value).len(), 8) + encode_utf8(value)
}

/// A member as it is encoded.
pub open spec fn encoded_member(member: PackManifestMemberV1<Seq<char>>) -> Seq<u8> {
    encoded_text(member.path) + encoded_text(member.blob) + codec::be(member.byte_len as nat, 8)
}

/// Members as they are encoded, one after the other.
pub open spec fn encoded_members(members: Seq<PackManifestMemberV1<Seq<char>>>) -> Seq<u8>
    decreases members.len(),
{
    if members.len() == 0 {
        Seq::empty()
    } else {
        encoded_member(members[0]) + encoded_members(members.skip(1))
    }
}

/// A manifest as it is encoded.
pub open spec fn encoded_manifest(members: Seq<PackManifestMemberV1<Seq<char>>>) -> Seq<u8> {
    domain() + codec::be(PACK_MANIFEST_OBJECT_VERSION as nat, 2) + codec::be(members.len(), 8)
        + encoded_members(members)
}

/// The paths of members, as byte strings.
pub open spec fn path_keys(members: Seq<PackManifestMemberV1<Seq<char>>>) -> Seq<Seq<u8>> {
    members.map_values(|member: PackManifestMemberV1<Seq<char>>| encode_utf8(member.path))
}

/// Members in the given order.
pub open spec fn arranged(
    members: Seq<PackManifestMemberV1<Seq<char>>>,
    order: Seq<usize>,
) -> Seq<PackManifestMemberV1<Seq<char>>> {
    order.map_values(|index: usize| members[index as int])
}

/// What reading a manifest gave: the members before the first problem, and that problem.
#[derive(Debug)]
pub struct ManifestReading<M, T> {
    pub members: M,
    pub problem: Option<T>,
}

/// What reading a manifest gave, as contracts speak of it.
pub type ReadingModel = ManifestReading<Seq<PackManifestMemberV1<Seq<char>>>, Seq<char>>;

/// A text read from the front of a byte string, and what is left.
pub open spec fn read_text(
    rest: Seq<u8>,
    limit: nat,
    overflows: Seq<char>,
    too_long: Seq<char>,
    not_text: Seq<char>,
) -> Result<(Seq<char>, Seq<u8>), Seq<char>> {
    if rest.len() < 8 {
        Err("truncated member"@)
    } else {
        let length = codec::be_value(rest.take(8));
        let behind = rest.skip(8);
        if length > usize::MAX {
            Err(overflows)
        } else if length > limit {
            Err(too_long)
        } else if behind.len() < length {
            Err("truncated member"@)
        } else if !valid_utf8(behind.take(length as int)) {
            Err(not_text)
        } else {
            Ok((decode_utf8(behind.take(length as int)), behind.skip(length as int)))
        }
    }
}

/// A member's path read from the front of a byte string; it must follow the previous one.
pub open spec fn read_path(rest: Seq<u8>, previous: Option<Seq<char>>) -> Result<
    (Seq<char>, Seq<u8>),
    Seq<char>,
> {
    match read_text(
        rest,
        MAX_MEMBER_PATH_BYTES as nat,
        "path length overflows"@,
        "member path exceeds the pack path limit"@,
        "member path is not UTF-8"@,
    ) {
        Err(problem) => Err(problem),
        Ok((path, behind)) => if previous matches Some(last) && !seqs::bytes_less(
            encode_utf8(last),
            encode_utf8(path),
        ) {
            Err("member paths are not strictly ordered"@)
        } else {
            Ok((path, behind))
        },
    }
}

/// A member read from the front of a byte string, and what is left.
pub open spec fn read_member(rest: Seq<u8>, previous: Option<Seq<char>>) -> Result<
    (PackManifestMemberV1<Seq<char>>, Seq<u8>),
    Seq<char>,
> {
    match read_path(rest, previous) {
        Err(problem) => Err(problem),
        Ok((path, middle)) => match read_text(
            middle,
            MAX_MEMBER_DIGEST_BYTES as nat,
            "digest length overflows"@,
            "member digest exceeds the identifier limit"@,
            "member digest is not UTF-8"@,
        ) {
            Err(problem) => Err(problem),
            Ok((blob, behind)) => if behind.len() < 8 {
                Err("truncated member"@)
            } else {
                Ok(
                    (
                        PackManifestMemberV1 {
                            path,
                            blob,
                            byte_len: codec::be_value(behind.take(8)) as u64,
                        },
                        behind.skip(8),
                    ),
                )
            },
        },
    }
}

/// Members put in front of what was read behind them.
pub open spec fn behind(
    members: Seq<PackManifestMemberV1<Seq<char>>>,
    reading: ReadingModel,
) -> ReadingModel {
    ManifestReading { members: members + reading.members, problem: reading.problem }
}

/// So many members read from the front of a byte string, behind which nothing may follow.
pub open spec fn read_members(rest: Seq<u8>, count: nat, previous: Option<Seq<char>>) -> ReadingModel
    decreases count,
{
    if count == 0 {
        ManifestReading {
            members: Seq::empty(),
            problem: if rest.len() > 0 {
                Some("trailing bytes after the final member"@)
            } else {
                None
            },
        }
    } else {
        match read_member(rest, previous) {
            Err(problem) => ManifestReading { members: Seq::empty(), problem: Some(problem) },
            Ok((member, left)) => behind(
                seq![member],
                read_members(left, (count - 1) as nat, Some(member.path)),
            ),
        }
    }
}

/// A manifest that cannot be read at all.
pub open spec fn unreadable(problem: Seq<char>) -> ReadingModel {
    ManifestReading { members: Seq::empty(), problem: Some(problem) }
}

/// What reading a manifest gives.
pub open spec fn read_manifest(bytes: Seq<u8>) -> ReadingModel {
    let start = domain().len() as int;
    if !domain().is_prefix_of(bytes) {
        unreadable("wrong pack manifest domain"@)
    } else if bytes.len() < start + 2 {
        unreadable("truncated version"@)
    } else if codec::be_value(bytes.subrange(start, start + 2)) != PACK_MANIFEST_OBJECT_VERSION {
        unreadable("unsupported pack manifest version"@)
    } else if bytes.len() < start + 10 {
        unreadable("truncated count"@)
    } else {
        let count = codec::be_value(bytes.subrange(start + 2, start + 10));
        if count > usize::MAX {
            unreadable("member count overflows"@)
        } else if count > MAX_MANIFEST_MEMBERS {
            unreadable("member count exceeds the pack entry limit"@)
        } else {
            read_members(bytes.skip(start + 10), count, None)
        }
    }
}

/// Members that a manifest can hold: short enough, not too many, in strict path order.
pub open spec fn is_encodable(members: Seq<PackManifestMemberV1<Seq<char>>>) -> bool {
    &&& members.len() <= MAX_MANIFEST_MEMBERS
    &&& forall|i: int| 0 <= i < members.len() ==> is_short(#[trigger] members[i])
    &&& forall|i: int, j: int|
        0 <= i < j < members.len() ==> seqs::bytes_less(
            encode_utf8(#[trigger] members[i].path),
            encode_utf8(#[trigger] members[j].path),
        )
}

/// A member whose texts are short enough.
pub open spec fn is_short(member: PackManifestMemberV1<Seq<char>>) -> bool {
    encode_utf8(member.path).len() <= MAX_MEMBER_PATH_BYTES && encode_utf8(member.blob).len()
        <= MAX_MEMBER_DIGEST_BYTES
}

proof fn lemma_read_text(
    value: Seq<char>,
    rest: Seq<u8>,
    limit: nat,
    overflows: Seq<char>,
    too_long: Seq<char>,
    not_text: Seq<char>,
)
    requires
        encode_utf8(value).len() <= limit <= 65536,
    ensures
        read_text(encoded_text(value) + rest, limit, overflows, too_long, not_text) == Ok::<
            (Seq<char>, Seq<u8>),
            Seq<char>,
        >((value, rest)),
{
    let bytes = encode_utf8(value);
    let all = encoded_text(value) + rest;
    let length = bytes.len();
    codec::lemma_be_len(length, 8);
    codec::lemma_pow256_values();
    codec::lemma_be_round_trip(length, 8);
    assert(all.take(8) =~= codec::be(length, 8));
    let tail = all.skip(8);
    assert(tail =~= bytes + rest);
    assert(tail.take(length as int) =~= bytes);
    assert(tail.skip(length as int) =~= rest);
    encode_utf8_valid_utf8(value);
    encode_utf8_decode_utf8(value);
}

proof fn lemma_read_text_is_exact(
    rest: Seq<u8>,
    limit: nat,
    overflows: Seq<char>,
    too_long: Seq<char>,
    not_text: Seq<char>,
)
    ensures
        read_text(rest, limit, overflows, too_long, not_text) matches Ok((value, left)) ==> rest
            == encoded_text(value) + left && encode_utf8(value).len() <= limit,
{
    if let Ok((value, left)) = read_text(rest, limit, overflows, too_long, not_text) {
        let length = codec::be_value(rest.take(8));
        let tail = rest.skip(8);
        codec::lemma_be_of_value(rest.take(8));
        decode_utf8_encode_utf8(tail.take(length as int));
        assert(encode_utf8(value) == tail.take(length as int));
        assert(codec::be(length, 8) == rest.take(8));
        assert(rest =~= rest.take(8) + (tail.take(length as int) + left));
        assert(encoded_text(value) + left =~= rest.take(8) + (tail.take(length as int) + left));
    }
}

/// A member that is written in front of anything is read back.
proof fn lemma_read_member(
    member: PackManifestMemberV1<Seq<char>>,
    rest: Seq<u8>,
    previous: Option<Seq<char>>,
)
    requires
        is_short(member),
        previous matches Some(last) ==> seqs::bytes_less(
            encode_utf8(last),
            encode_utf8(member.path),
        ),
    ensures
        read_member(encoded_member(member) + rest, previous) == Ok::<
            (PackManifestMemberV1<Seq<char>>, Seq<u8>),
            Seq<char>,
        >((member, rest)),
{
    let number = codec::be(member.byte_len as nat, 8);
    codec::lemma_be_len(member.byte_len as nat, 8);
    codec::lemma_pow256_values();
    codec::lemma_be_round_trip(member.byte_len as nat, 8);
    let last = number + rest;
    let middle = encoded_text(member.blob) + last;
    assert(encoded_member(member) + rest =~= encoded_text(member.path) + middle);
    lemma_read_text(
        member.path,
        middle,
        MAX_MEMBER_PATH_BYTES as nat,
        "path length overflows"@,
        "member path exceeds the pack path limit"@,
        "member path is not UTF-8"@,
    );
    lemma_read_text(
        member.blob,
        last,
        MAX_MEMBER_DIGEST_BYTES as nat,
        "digest length overflows"@,
        "member digest exceeds the identifier limit"@,
        "member digest is not UTF-8"@,
    );
    assert(last.take(8) =~= number);
    assert(last.skip(8) =~= rest);
}

/// A member is read only from its own encoding.
proof fn lemma_read_member_is_exact(rest: Seq<u8>, previous: Option<Seq<char>>)
    ensures
        read_member(rest, previous) matches Ok((member, left)) ==> rest == encoded_member(member)
            + left && is_short(member) && (previous matches Some(last) ==> seqs::bytes_less(
            encode_utf8(last),
            encode_utf8(member.path),
        )),
{
    if let Ok((member, left)) = read_member(rest, previous) {
        lemma_read_text_is_exact(
            rest,
            MAX_MEMBER_PATH_BYTES as nat,
            "path length overflows"@,
            "member path exceeds the pack path limit"@,
            "member path is not UTF-8"@,
        );
        let middle = read_path(rest, previous)->Ok_0.1;
        lemma_read_text_is_exact(
            middle,
            MAX_MEMBER_DIGEST_BYTES as nat,
            "digest length overflows"@,
            "member digest exceeds the identifier limit"@,
            "member digest is not UTF-8"@,
        );
        let last = read_text(
            middle,
            MAX_MEMBER_DIGEST_BYTES as nat,
            "digest length overflows"@,
            "member digest exceeds the identifier limit"@,
            "member digest is not UTF-8"@,
        )->Ok_0.1;
        codec::lemma_be_of_value(last.take(8));
        codec::lemma_pow256_values();
        assert(last =~= last.take(8) + left);
        assert(rest =~= encoded_member(member) + left);
    }
}

#[verifier::spinoff_prover]
#[verifier::rlimit(60)]
proof fn lemma_read_members(
    members: Seq<PackManifestMemberV1<Seq<char>>>,
    previous: Option<Seq<char>>,
)
    requires
        is_encodable(members),
        previous matches Some(last) ==> members.len() > 0 ==> seqs::bytes_less(
            encode_utf8(last),
            encode_utf8(members[0].path),
        ),
    ensures
        read_members(encoded_members(members), members.len(), previous) == (ManifestReading {
            members,
            problem: None::<Seq<char>>,
        }),
    decreases members.len(),
{
    if members.len() == 0 {
        assert(members =~= Seq::empty());
    } else {
        let first = members[0];
        let others = members.skip(1);
        assert(is_short(first));
        assert forall|i: int| 0 <= i < others.len() implies is_short(#[trigger] others[i]) by {
            assert(is_short(members[i + 1]));
        }
        assert forall|i: int, j: int| 0 <= i < j < others.len() implies seqs::bytes_less(
            encode_utf8(#[trigger] others[i].path),
            encode_utf8(#[trigger] others[j].path),
        ) by {
            assert(members[i + 1].path == others[i].path && members[j + 1].path == others[j].path);
        }
        if others.len() > 0 {
            assert(members[1].path == others[0].path && members[0].path == first.path);
        }
        lemma_read_members(others, Some(first.path));
        lemma_read_member(first, encoded_members(others), previous);
        assert(seq![first] + others =~= members);
    }
}

/// Decoding gives back exactly the members that were encoded.
pub proof fn lemma_manifest_round_trip(members: Seq<PackManifestMemberV1<Seq<char>>>)
    requires
        is_encodable(members),
    ensures
        read_manifest(encoded_manifest(members)) == (ManifestReading {
            members,
            problem: None::<Seq<char>>,
        }),
{
    let start = domain().len() as int;
    let bytes = encoded_manifest(members);
    let count = members.len();
    codec::lemma_be_len(PACK_MANIFEST_OBJECT_VERSION as nat, 2);
    codec::lemma_be_len(count, 8);
    codec::lemma_pow256_values();
    codec::lemma_be_round_trip(PACK_MANIFEST_OBJECT_VERSION as nat, 2);
    codec::lemma_be_round_trip(count, 8);
    assert(bytes.subrange(0, start) =~= domain());
    assert(bytes.subrange(start, start + 2) =~= codec::be(PACK_MANIFEST_OBJECT_VERSION as nat, 2));
    assert(bytes.subrange(start + 2, start + 10) =~= codec::be(count, 8));
    assert(bytes.skip(start + 10) =~= encoded_members(members));
    lemma_read_members(members, None);
}

proof fn lemma_read_members_are_exact(rest: Seq<u8>, count: nat, previous: Option<Seq<char>>)
    ensures
        read_members(rest, count, previous).problem is None ==> {
            let members = read_members(rest, count, previous).members;
            &&& members.len() == count
            &&& rest == encoded_members(members)
            &&& forall|i: int| 0 <= i < members.len() ==> is_short(#[trigger] members[i])
            &&& forall|i: int, j: int|
                0 <= i < j < members.len() ==> seqs::bytes_less(
                    encode_utf8(#[trigger] members[i].path),
                    encode_utf8(#[trigger] members[j].path),
                )
            &&& previous matches Some(last) ==> forall|i: int|
                0 <= i < members.len() ==> seqs::bytes_less(
                    encode_utf8(last),
                    encode_utf8((#[trigger] members[i]).path),
                )
        },
    decreases count,
{
    let reading = read_members(rest, count, previous);
    if reading.problem is None {
        if count == 0 {
            assert(rest =~= encoded_members(reading.members));
        } else {
            lemma_read_member_is_exact(rest, previous);
            let (first, left) = read_member(rest, previous)->Ok_0;
            lemma_read_members_are_exact(left, (count - 1) as nat, Some(first.path));
            let others = read_members(left, (count - 1) as nat, Some(first.path)).members;
            let members = reading.members;
            assert(members =~= seq![first] + others);
            assert(members.skip(1) =~= others);
            assert(members[0] == first);
            assert forall|i: int| 0 <= i < members.len() implies is_short(#[trigger] members[i]) by {
                if i > 0 {
                    assert(members[i] == others[i - 1]);
                }
            }
            assert forall|i: int, j: int| 0 <= i < j < members.len() implies seqs::bytes_less(
                encode_utf8(#[trigger] members[i].path),
                encode_utf8(#[trigger] members[j].path),
            ) by {
                assert(members[j] == others[j - 1]);
                if i > 0 {
                    assert(members[i] == others[i - 1]);
                }
            }
            if let Some(last) = previous {
                assert forall|i: int| 0 <= i < members.len() implies seqs::bytes_less(
                    encode_utf8(last),
                    encode_utf8((#[trigger] members[i]).path),
                ) by {
                    if i > 0 {
                        assert(members[i] == others[i - 1]);
                        seqs::lemma_bytes_less_transitive(
                            encode_utf8(last),
                            encode_utf8(first.path),
                            encode_utf8(members[i].path),
                        );
                    }
                }
            }
        }
    }
}

/// Bytes that decode without a problem are exactly the encoding of their members: no manifest
/// has two spellings.
pub proof fn lemma_manifest_is_canonical(bytes: Seq<u8>)
    ensures
        read_manifest(bytes).problem is None ==> is_encodable(read_manifest(bytes).members)
            && bytes == encoded_manifest(read_manifest(bytes).members),
{
    let reading = read_manifest(bytes);
    if reading.problem is None {
        let start = domain().len() as int;
        let count = codec::be_value(bytes.subrange(start + 2, start + 10));
        lemma_read_members_are_exact(bytes.skip(start + 10), count, None);
        codec::lemma_be_of_value(bytes.subrange(start, start + 2));
        codec::lemma_be_of_value(bytes.subrange(start + 2, start + 10));
        assert(bytes.subrange(0, start) == domain());
        assert(bytes =~= bytes.subrange(0, start) + bytes.subrange(start, start + 2)
            + bytes.subrange(start + 2, start + 10) + bytes.skip(start + 10));
    }
}

fn push_text(out: &mut Vec<u8>, value: &str)
    ensures
        final(out)@ == old(out)@ + encoded_text(value@),
{
    let bytes = value.as_bytes();
    push_be(out, bytes.len() as u64, 8);
    out.extend_from_slice(bytes);
    assert(out@ =~= old(out)@ + encoded_text(value@));
}

proof fn lemma_encoded_members_push(
    members: Seq<PackManifestMemberV1<Seq<char>>>,
    member: PackManifestMemberV1<Seq<char>>,
)
    ensures
        encoded_members(members.push(member)) == encoded_members(members) + encoded_member(member),
    decreases members.len(),
{
    let all = members.push(member);
    if members.len() == 0 {
        assert(all.skip(1) =~= Seq::empty());
        assert(encoded_members(all.skip(1)) =~= Seq::<u8>::empty());
        assert(encoded_members(all) =~= encoded_member(member));
        assert(encoded_members(members) + encoded_member(member) =~= encoded_member(member));
    } else {
        lemma_encoded_members_push(members.skip(1), member);
        assert(all.skip(1) =~= members.skip(1).push(member));
        assert(encoded_members(all) =~= encoded_members(members) + encoded_member(member));
    }
}

/// Encodes a manifest; its members are first put into path order.
pub fn encode_pack_manifest_object(members: &Vec<PackManifestMemberV1>) -> (bytes: Vec<u8>)
    ensures
        exists|order: Seq<usize>| #[trigger]
            sort::is_stable_order(path_keys(seqs::views(members@)), order) && bytes@
                == encoded_manifest(arranged(seqs::views(members@), order)),
{
    let ghost all = seqs::views(members@);
    let mut keys: Vec<Vec<u8>> = Vec::new();
    let mut i: usize = 0;
    proof {
        assert(seqs::views(keys@) =~= path_keys(all.take(0)));
    }
    while i < members.len()
        invariant
            i <= members.len(),
            all == seqs::views(members@),
            seqs::views(keys@) == path_keys(all.take(i as int)),
        decreases members.len() - i,
    {
        let ghost before = keys@;
        keys.push(copy_bytes(members[i].path.as_str().as_bytes()));
        proof {
            assert(all.take(i + 1) =~= all.take(i as int).push(all[i as int]));
            assert(all[i as int] == members@[i as int]@);
            assert(seqs::views(keys@) =~= seqs::views(before).push(
                encode_utf8(members@[i as int].path@),
            ));
            assert(seqs::views(keys@) =~= path_keys(all.take(i + 1)));
        }
        i = i + 1;
    }
    proof {
        assert(all.take(all.len() as int) =~= all);
        assert(path_keys(all).len() == members@.len());
    }
    let order = stable_order(&keys);
    let ghost sorted = arranged(all, order@);
    let mut bytes = copy_bytes("malm-pack-manifest-object-v1".as_bytes());
    bytes.push(0);
    push_be(&mut bytes, PACK_MANIFEST_OBJECT_VERSION, 2);
    push_be(&mut bytes, members.len() as u64, 8);
    let ghost header = bytes@;
    let mut k: usize = 0;
    proof {
        assert(sorted.take(0) =~= Seq::empty());
        assert(bytes@ =~= header + encoded_members(sorted.take(0)));
    }
    while k < order.len()
        invariant
            k <= order.len(),
            all == seqs::views(members@),
            sorted == arranged(all, order@),
            sort::is_stable_order(path_keys(all), order@),
            path_keys(all).len() == members@.len(),
            bytes@ == header + encoded_members(sorted.take(k as int)),
        decreases order.len() - k,
    {
        let index: usize = order[k];
        let ghost before = bytes@;
        proof {
            assert(order@[k as int] < members@.len());
            assert(sorted[k as int] == members@[index as int]@);
        }
        push_text(&mut bytes, members[index].path.as_str());
        push_text(&mut bytes, members[index].blob.as_str());
        push_be(&mut bytes, members[index].byte_len, 8);
        proof {
            assert(bytes@ =~= before + encoded_member(sorted[k as int]));
            assert(sorted.take(k + 1) =~= sorted.take(k as int).push(sorted[k as int]));
            lemma_encoded_members_push(sorted.take(k as int), sorted[k as int]);
            assert(bytes@ =~= header + encoded_members(sorted.take(k + 1)));
        }
        k = k + 1;
    }
    proof {
        assert(sorted.take(sorted.len() as int) =~= sorted);
        assert(bytes@ =~= encoded_manifest(sorted));
        assert(sort::is_stable_order(path_keys(seqs::views(members@)), order@));
    }
    bytes
}

/// A manifest that was read, as contracts speak of it.
pub open spec fn reading_view(
    reading: ManifestReading<Vec<PackManifestMemberV1>, String>,
) -> ReadingModel {
    ManifestReading {
        members: seqs::views(reading.members@),
        problem: match reading.problem {
            Some(problem) => Some(problem@),
            None => None,
        },
    }
}

fn without_members(problem: &str) -> (reading: ManifestReading<Vec<PackManifestMemberV1>, String>)
    ensures
        reading_view(reading) == unreadable(problem@),
{
    let members: Vec<PackManifestMemberV1> = Vec::new();
    assert(seqs::views(members@) =~= Seq::empty());
    ManifestReading { members, problem: Some(problem.to_owned()) }
}

fn take_text(
    bytes: &[u8],
    at: usize,
    limit: usize,
    overflows: &str,
    too_long: &str,
    not_text: &str,
) -> (taken: Result<(String, usize), String>)
    requires
        at <= bytes@.len(),
    ensures
        match read_text(bytes@.skip(at as int), limit as nat, overflows@, too_long@, not_text@) {
            Ok((value, left)) => taken matches Ok((found, next)) && found@ == value && next
                <= bytes@.len() && left == bytes@.skip(next as int),
            Err(problem) => taken matches Err(found) && found@ == problem,
        },
{
    let ghost rest = bytes@.skip(at as int);
    if bytes.len() - at < 8 {
        return Err("truncated member".to_owned());
    }
    let length: u64 = read_be(bytes, at, 8);
    proof {
        assert(bytes@.subrange(at as int, at + 8) =~= rest.take(8));
    }
    if length > usize::MAX as u64 {
        return Err(overflows.to_owned());
    }
    if length > limit as u64 {
        return Err(too_long.to_owned());
    }
    let count: usize = length as usize;
    let start: usize = at + 8;
    if bytes.len() - start < count {
        return Err("truncated member".to_owned());
    }
    let piece = vstd::slice::slice_subrange(bytes, start, start + count);
    proof {
        assert(piece@ =~= rest.skip(8).take(count as int));
        assert(rest.skip(8).skip(count as int) =~= bytes@.skip(start + count));
    }
    match utf8_text(piece) {
        None => Err(not_text.to_owned()),
        Some(value) => {
            proof {
                encode_utf8_decode_utf8(value@);
            }
            Ok((value, start + count))
        },
    }
}

fn take_member(bytes: &[u8], at: usize, previous: Option<&str>) -> (taken: Result<
    (PackManifestMemberV1, usize),
    String,
>)
    requires
        at <= bytes@.len(),
    ensures
        match read_member(
            bytes@.skip(at as int),
            match previous {
                Some(last) => Some(last@),
                None => None,
            },
        ) {
            Ok((member, left)) => taken matches Ok((found, next)) && found@ == member && next
                <= bytes@.len() && left == bytes@.skip(next as int),
            Err(problem) => taken matches Err(found) && found@ == problem,
        },
{
    let (path, middle) = match take_text(
        bytes,
        at,
        MAX_MEMBER_PATH_BYTES,
        "path length overflows",
        "member path exceeds the pack path limit",
        "member path is not UTF-8",
    ) {
        Ok(taken) => taken,
        Err(problem) => {
            return Err(problem);
        },
    };
    match previous {
        Some(last) => {
            if !bytes_before(last.as_bytes(), path.as_str().as_bytes()) {
                return Err("member paths are not strictly ordered".to_owned());
            }
        },
        None => {},
    }
    let (blob, last) = match take_text(
        bytes,
        middle,
        MAX_MEMBER_DIGEST_BYTES,
        "digest length overflows",
        "member digest exceeds the identifier limit",
        "member digest is not UTF-8",
    ) {
        Ok(taken) => taken,
        Err(problem) => {
            return Err(problem);
        },
    };
    if bytes.len() - last < 8 {
        return Err("truncated member".to_owned());
    }
    let byte_len: u64 = read_be(bytes, last, 8);
    proof {
        let rest = bytes@.skip(last as int);
        assert(bytes@.subrange(last as int, last + 8) =~= rest.take(8));
        assert(rest.skip(8) =~= bytes@.skip(last + 8));
    }
    Ok((PackManifestMemberV1 { path, blob, byte_len }, last + 8))
}

fn take_members(bytes: &[u8], start: usize, count: usize) -> (reading: ManifestReading<
    Vec<PackManifestMemberV1>,
    String,
>)
    requires
        start <= bytes@.len(),
    ensures
        reading_view(reading) == read_members(bytes@.skip(start as int), count as nat, None),
{
    let ghost whole = read_members(bytes@.skip(start as int), count as nat, None);
    let mut members: Vec<PackManifestMemberV1> = Vec::new();
    let mut at: usize = start;
    let mut i: usize = 0;
    proof {
        assert(seqs::views(members@) + whole.members =~= whole.members);
    }
    while i < count
        invariant
            i <= count,
            i == members@.len(),
            at <= bytes@.len(),
            whole == read_members(bytes@.skip(start as int), count as nat, None),
            whole == behind(
                seqs::views(members@),
                read_members(
                    bytes@.skip(at as int),
                    (count - i) as nat,
                    if members@.len() > 0 {
                        Some(members@.last().path@)
                    } else {
                        None
                    },
                ),
            ),
        decreases count - i,
    {
        let previous = if members.len() > 0 {
            Some(members[members.len() - 1].path.as_str())
        } else {
            None
        };
        let ghost before = seqs::views(members@);
        match take_member(bytes, at, previous) {
            Err(problem) => {
                proof {
                    assert(before + Seq::<PackManifestMemberV1<Seq<char>>>::empty() =~= before);
                }
                return ManifestReading { members, problem: Some(problem) };
            },
            Ok((member, next)) => {
                let ghost model = member@;
                members.push(member);
                at = next;
                proof {
                    assert(seqs::views(members@) =~= before.push(model));
                    let tail = read_members(
                        bytes@.skip(at as int),
                        (count - i - 1) as nat,
                        Some(model.path),
                    );
                    assert(before + (seq![model] + tail.members) =~= before.push(model)
                        + tail.members);
                }
            },
        }
        i = i + 1;
    }
    proof {
        assert(seqs::views(members@) + Seq::<PackManifestMemberV1<Seq<char>>>::empty()
            =~= seqs::views(members@));
    }
    if at < bytes.len() {
        return ManifestReading {
            members,
            problem: Some("trailing bytes after the final member".to_owned()),
        };
    }
    ManifestReading { members, problem: None }
}

/// Decodes a manifest. The members before the first problem are handed out with it, so that
/// what is wrong with one of them can be told first.
pub fn decode_pack_manifest_object(bytes: &[u8]) -> (reading: ManifestReading<
    Vec<PackManifestMemberV1>,
    String,
>)
    ensures
        reading_view(reading) == read_manifest(bytes@),
{
    let mut prefix = copy_bytes("malm-pack-manifest-object-v1".as_bytes());
    prefix.push(0);
    let start: usize = prefix.len();
    if bytes.len() < start {
        return without_members("wrong pack manifest domain");
    }
    let head = vstd::slice::slice_subrange(bytes, 0, start);
    if !bytes_equal(head, prefix.as_slice()) {
        return without_members("wrong pack manifest domain");
    }
    if bytes.len() - start < 2 {
        return without_members("truncated version");
    }
    if read_be(bytes, start, 2) != PACK_MANIFEST_OBJECT_VERSION {
        return without_members("unsupported pack manifest version");
    }
    if bytes.len() - start < 10 {
        return without_members("truncated count");
    }
    let count: u64 = read_be(bytes, start + 2, 8);
    if count > usize::MAX as u64 {
        return without_members("member count overflows");
    }
    if count > MAX_MANIFEST_MEMBERS as u64 {
        return without_members("member count exceeds the pack entry limit");
    }
    take_members(bytes, start + 10, count as usize)
}

/// The members of a manifest, unless one of them, or the manifest, is wrong. `invalid` says
/// what is wrong with the first member that names no path or blob.
pub open spec fn settled(reading: ReadingModel, invalid: Option<Seq<char>>) -> Result<
    Seq<PackManifestMemberV1<Seq<char>>>,
    Seq<char>,
> {
    match invalid {
        Some(problem) => Err(problem),
        None => match reading.problem {
            Some(problem) => Err(problem),
            None => Ok(reading.members),
        },
    }
}

/// Hands out the members of a manifest, unless one of them, or the manifest, is wrong.
pub fn settle_manifest(
    reading: ManifestReading<Vec<PackManifestMemberV1>, String>,
    invalid: Option<String>,
) -> (members: Result<Vec<PackManifestMemberV1>, String>)
    ensures
        match settled(
            reading_view(reading),
            match invalid {
                Some(problem) => Some(problem@),
                None => None,
            },
        ) {
            Ok(found) => members matches Ok(list) && seqs::views(list@) == found,
            Err(problem) => members matches Err(said) && said@ == problem,
        },
{
    match invalid {
        Some(problem) => Err(problem),
        None => match reading.problem {
            Some(problem) => Err(problem),
            None => Ok(reading.members),
        },
    }
}

} // verus!
