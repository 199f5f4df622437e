//! What publishing and loading a pack do to a store in which every step goes well.

use vstd::prelude::*;
use vstd::utf8::*;

use crate::error::EngineError;
use crate::object_publish;
use crate::object_publish::PublishPackStep;
use crate::objects::ObjectTarget;
use crate::pack_manifest;
use crate::pack_manifest::{ManifestReading, PackManifestMemberV1, MAX_MANIFEST_MEMBERS};
use crate::pack_store;
use crate::pack_store::LoadPackStep;
use crate::seqs;
use crate::sort;
use crate::store_steps::Progress;
use crate::store_types::PackObjectPublication;
use crate::text;

verus! {

/// A file of a pack.
pub struct StoredFile {
    pub path: Seq<char>,
    pub bytes: Seq<u8>,
}

/// What the store holds under the digest of one pack, and its blobs.
#[verifier::ext_equal]
pub struct PackShelf {
    /// The pack is there in one piece.
    pub whole: bool,
    /// The bytes of the manifest, where it is there.
    pub manifest: Option<Seq<u8>>,
    /// The blobs of all packs, by digest.
    pub blobs: Map<Seq<char>, Seq<u8>>,
}

/// The members that some files make, with the digests of their bytes.
pub open spec fn members_of(
    files: Seq<StoredFile>,
    digest_of: spec_fn(Seq<u8>) -> Seq<char>,
) -> Seq<PackManifestMemberV1<Seq<char>>> {
    files.map_values(
        |file: StoredFile|
            PackManifestMemberV1 {
                path: file.path,
                blob: digest_of(file.bytes),
                byte_len: file.bytes.len() as u64,
            },
    )
}

/// The blobs with those of some files; a blob that is there is never replaced.
pub open spec fn with_blobs(
    blobs: Map<Seq<char>, Seq<u8>>,
    files: Seq<StoredFile>,
    digest_of: spec_fn(Seq<u8>) -> Seq<char>,
) -> Map<Seq<char>, Seq<u8>>
    decreases files.len(),
{
    if files.len() == 0 {
        blobs
    } else {
        let before = with_blobs(blobs, files.drop_last(), digest_of);
        let digest = digest_of(files.last().bytes);
        if before.contains_key(digest) {
            before
        } else {
            before.insert(digest, files.last().bytes)
        }
    }
}

/// What a step of publishing does to the store, and what is replied.
pub open spec fn published_step(
    shelf: PackShelf,
    step: PublishPackStep,
    files: Seq<StoredFile>,
    manifest: Seq<u8>,
    digest_of: spec_fn(Seq<u8>) -> Seq<char>,
) -> (PackShelf, bool) {
    match step {
        PublishPackStep::LookUpPack => (shelf, shelf.whole),
        PublishPackStep::LookUpManifest => (shelf, shelf.manifest is Some),
        PublishPackStep::PublishMembers => (
            PackShelf { blobs: with_blobs(shelf.blobs, files, digest_of), ..shelf },
            true,
        ),
        PublishPackStep::Link => if shelf.manifest is Some {
            (shelf, false)
        } else {
            (PackShelf { manifest: Some(manifest), ..shelf }, true)
        },
        _ => (shelf, true),
    }
}

/// What publishing from a step on leaves in the store, and its outcome.
pub open spec fn published(
    shelf: PackShelf,
    step: PublishPackStep,
    verified: bool,
    files: Seq<StoredFile>,
    manifest: Seq<u8>,
    digest_of: spec_fn(Seq<u8>) -> Seq<char>,
) -> (PackShelf, Option<PackObjectPublication>)
    decreases 25 - object_publish::publish_pack_rank(step),
{
    let (after, reply) = published_step(shelf, step, files, manifest, digest_of);
    match object_publish::publish_pack_after(step, Ok(reply), verified) {
        Progress::Next(next) => published(after, next, verified, files, manifest, digest_of),
        Progress::Done(outcome) => (after, Some(outcome)),
        Progress::Failed(_) => (after, None),
    }
}

/// Where publishing a pack starts.
pub open spec fn first_step(verified: bool) -> PublishPackStep {
    if verified {
        PublishPackStep::OpenStore
    } else {
        PublishPackStep::CheckContent
    }
}

/// What is replied to a step of loading.
pub open spec fn load_reply(shelf: PackShelf, step: LoadPackStep) -> bool {
    match step {
        LoadPackStep::LookUpManifest => shelf.manifest is Some,
        _ => true,
    }
}

/// Whether loading from a step on comes to its end by way of the manifest.
pub open spec fn loads_by_manifest(
    shelf: PackShelf,
    step: LoadPackStep,
    target: ObjectTarget<Seq<char>, Seq<u8>>,
) -> bool
    decreases 12 - pack_store::load_pack_rank(step),
{
    let reply: Result<bool, EngineError<Seq<char>, Seq<u8>>> = Ok(load_reply(shelf, step));
    match pack_store::load_pack_after(step, reply, target) {
        Progress::Next(next) => loads_by_manifest(shelf, next, target),
        Progress::Done(_) => step == LoadPackStep::CheckDigest,
        Progress::Failed(_) => false,
    }
}

/// The files that a manifest leads to.
pub open spec fn loaded_files(
    members: Seq<PackManifestMemberV1<Seq<char>>>,
    blobs: Map<Seq<char>, Seq<u8>>,
) -> Seq<StoredFile> {
    members.map_values(
        |member: PackManifestMemberV1<Seq<char>>|
            StoredFile { path: member.path, bytes: blobs[member.blob] },
    )
}

/// Files in the given order.
pub open spec fn files_in(files: Seq<StoredFile>, order: Seq<usize>) -> Seq<StoredFile> {
    order.map_values(|index: usize| files[index as int])
}

/// The files of a pack: each path once, everything short enough for a manifest, and no two
/// contents with one digest, neither among the files nor with a blob that is there.
pub open spec fn are_publishable(
    files: Seq<StoredFile>,
    blobs: Map<Seq<char>, Seq<u8>>,
    digest_of: spec_fn(Seq<u8>) -> Seq<char>,
) -> bool {
    &&& files.len() <= MAX_MANIFEST_MEMBERS
    &&& forall|i: int|
        0 <= i < files.len() ==> (#[trigger] files[i]).bytes.len() <= u64::MAX
            && pack_manifest::is_short(members_of(files, digest_of)[i])
    &&& forall|i: int, j: int|
        0 <= i < j < files.len() ==> (#[trigger] files[i]).path != (#[trigger] files[j]).path
    &&& forall|i: int, j: int|
        0 <= i < files.len() && 0 <= j < files.len() && digest_of((#[trigger] files[i]).bytes)
            == digest_of((#[trigger] files[j]).bytes) ==> files[i].bytes == files[j].bytes
    &&& forall|i: int|
        0 <= i < files.len() && blobs.contains_key(digest_of((#[trigger] files[i]).bytes))
            ==> blobs[digest_of(files[i].bytes)] == files[i].bytes
}

proof fn lemma_with_blobs(
    blobs: Map<Seq<char>, Seq<u8>>,
    files: Seq<StoredFile>,
    digest_of: spec_fn(Seq<u8>) -> Seq<char>,
)
    requires
        forall|i: int, j: int|
            0 <= i < files.len() && 0 <= j < files.len() && digest_of((#[trigger] files[i]).bytes)
                == digest_of((#[trigger] files[j]).bytes) ==> files[i].bytes == files[j].bytes,
        forall|i: int|
            0 <= i < files.len() && blobs.contains_key(digest_of((#[trigger] files[i]).bytes))
                ==> blobs[digest_of(files[i].bytes)] == files[i].bytes,
    ensures
        forall|i: int|
            0 <= i < files.len() ==> {
                &&& with_blobs(blobs, files, digest_of).contains_key(
                    digest_of((#[trigger] files[i]).bytes),
                )
                &&& with_blobs(blobs, files, digest_of)[digest_of(files[i].bytes)] == files[i].bytes
            },
        forall|key: Seq<char>|
            #![trigger with_blobs(blobs, files, digest_of).contains_key(key)]
            with_blobs(blobs, files, digest_of).contains_key(key) ==> blobs.contains_key(key)
                && with_blobs(blobs, files, digest_of)[key] == blobs[key] || exists|i: int|
                0 <= i < files.len() && digest_of((#[trigger] files[i]).bytes) == key
                    && with_blobs(blobs, files, digest_of)[key] == files[i].bytes,
    decreases files.len(),
{
    if files.len() > 0 {
        let head = files.drop_last();
        let last = files.last();
        let digest = digest_of(last.bytes);
        assert forall|i: int, j: int|
            0 <= i < head.len() && 0 <= j < head.len() && digest_of((#[trigger] head[i]).bytes)
                == digest_of((#[trigger] head[j]).bytes) implies head[i].bytes == head[j].bytes by {
            assert(head[i] == files[i]);
            assert(head[j] == files[j]);
        }
        assert forall|i: int|
            0 <= i < head.len() && blobs.contains_key(
                digest_of((#[trigger] head[i]).bytes),
            ) implies blobs[digest_of(head[i].bytes)] == head[i].bytes by {
            assert(head[i] == files[i]);
        }
        lemma_with_blobs(blobs, head, digest_of);
        let before = with_blobs(blobs, head, digest_of);
        let after = with_blobs(blobs, files, digest_of);
        let end = files.len() - 1;
        assert(files[end] == last);
        if before.contains_key(digest) {
            if exists|i: int|
                0 <= i < head.len() && digest_of((#[trigger] head[i]).bytes) == digest
                    && before[digest] == head[i].bytes {
                let i = choose|i: int|
                    0 <= i < head.len() && digest_of((#[trigger] head[i]).bytes) == digest
                        && before[digest] == head[i].bytes;
                assert(head[i] == files[i]);
                assert(files[i].bytes == files[end].bytes);
            } else {
                assert(blobs.contains_key(digest_of(files[end].bytes)));
            }
        }
        assert(after.contains_key(digest) && after[digest] == last.bytes);
        assert forall|i: int| 0 <= i < files.len() implies {
            &&& after.contains_key(digest_of((#[trigger] files[i]).bytes))
            &&& after[digest_of(files[i].bytes)] == files[i].bytes
        } by {
            if i < end {
                assert(head[i] == files[i]);
                if digest_of(files[i].bytes) == digest {
                    assert(files[i].bytes == files[end].bytes);
                }
            }
        }
        assert forall|key: Seq<char>| #[trigger] after.contains_key(key) implies blobs.contains_key(
            key,
        ) && after[key] == blobs[key] || exists|i: int|
            0 <= i < files.len() && digest_of((#[trigger] files[i]).bytes) == key && after[key]
                == files[i].bytes by {
            if key == digest {
                assert(digest_of(files[end].bytes) == key);
            } else {
                assert(before.contains_key(key));
                if !(blobs.contains_key(key) && before[key] == blobs[key]) {
                    let i = choose|i: int|
                        0 <= i < head.len() && digest_of((#[trigger] head[i]).bytes) == key
                            && before[key] == head[i].bytes;
                    assert(head[i] == files[i]);
                }
            }
        }
    }
}

/// A pack that is there is reused and left as it is, however it is there and whatever is
/// published under its digest.
pub proof fn lemma_present_pack_is_reused(
    shelf: PackShelf,
    verified: bool,
    files: Seq<StoredFile>,
    manifest: Seq<u8>,
    digest_of: spec_fn(Seq<u8>) -> Seq<char>,
)
    requires
        shelf.whole || shelf.manifest is Some,
    ensures
        published(shelf, first_step(verified), verified, files, manifest, digest_of) == (
            shelf,
            Some(PackObjectPublication::Reused),
        ),
{
    reveal_with_fuel(published, 12);
}

/// A pack that is not there is published: its manifest is there afterwards, beside the blobs of
/// its files.
pub proof fn lemma_absent_pack_is_published(
    shelf: PackShelf,
    verified: bool,
    files: Seq<StoredFile>,
    manifest: Seq<u8>,
    digest_of: spec_fn(Seq<u8>) -> Seq<char>,
)
    requires
        !shelf.whole,
        shelf.manifest is None,
    ensures
        published(shelf, first_step(verified), verified, files, manifest, digest_of) == (
            PackShelf {
                whole: false,
                manifest: Some(manifest),
                blobs: with_blobs(shelf.blobs, files, digest_of),
            },
            Some(PackObjectPublication::Published),
        ),
{
    reveal_with_fuel(published, 22);
}

/// Publishing a pack twice publishes it once: the first call says so, the second reuses what is
/// there and changes nothing. Loading it by its manifest gives back every file, in path order.
pub proof fn lemma_pack_is_published_once_and_read_back(
    shelf: PackShelf,
    verified: bool,
    files: Seq<StoredFile>,
    order: Seq<usize>,
    digest_of: spec_fn(Seq<u8>) -> Seq<char>,
    target: ObjectTarget<Seq<char>, Seq<u8>>,
)
    requires
        !shelf.whole,
        shelf.manifest is None,
        are_publishable(files, shelf.blobs, digest_of),
        sort::is_stable_order(pack_manifest::path_keys(members_of(files, digest_of)), order),
    ensures
        ({
            let members = pack_manifest::arranged(members_of(files, digest_of), order);
            let manifest = pack_manifest::encoded_manifest(members);
            let (once, first) = published(
                shelf,
                first_step(verified),
                verified,
                files,
                manifest,
                digest_of,
            );
            let (twice, second) = published(
                once,
                first_step(verified),
                verified,
                files,
                manifest,
                digest_of,
            );
            &&& first == Some(PackObjectPublication::Published)
            &&& second == Some(PackObjectPublication::Reused)
            &&& twice == once
            &&& loads_by_manifest(twice, LoadPackStep::OpenStore, target)
            &&& pack_manifest::read_manifest(twice.manifest->0) == (ManifestReading {
                members,
                problem: None::<Seq<char>>,
            })
            &&& forall|i: int|
                0 <= i < members.len() ==> twice.blobs.contains_key((#[trigger] members[i]).blob)
                    && twice.blobs[members[i].blob].len() == members[i].byte_len
            &&& loaded_files(members, twice.blobs) == files_in(files, order)
        }),
{
    let unordered = members_of(files, digest_of);
    let keys = pack_manifest::path_keys(unordered);
    let members = pack_manifest::arranged(unordered, order);
    let manifest = pack_manifest::encoded_manifest(members);
    lemma_absent_pack_is_published(shelf, verified, files, manifest, digest_of);
    let once = PackShelf {
        whole: false,
        manifest: Some(manifest),
        blobs: with_blobs(shelf.blobs, files, digest_of),
    };
    lemma_present_pack_is_reused(once, verified, files, manifest, digest_of);
    reveal_with_fuel(loads_by_manifest, 12);
    lemma_with_blobs(shelf.blobs, files, digest_of);
    assert forall|i: int| 0 <= i < members.len() implies #[trigger] members[i]
        == unordered[order[i] as int] by {}
    assert(pack_manifest::is_encodable(members)) by {
        assert forall|i: int| 0 <= i < members.len() implies pack_manifest::is_short(
            #[trigger] members[i],
        ) by {
            assert(files[order[i] as int].bytes.len() <= u64::MAX);
        }
        assert forall|i: int, j: int| 0 <= i < j < members.len() implies seqs::bytes_less(
            encode_utf8(#[trigger] members[i].path),
            encode_utf8(#[trigger] members[j].path),
        ) by {
            let a = order[i] as int;
            let b = order[j] as int;
            assert(sort::precedes(keys, order[i] as int, order[j] as int));
            assert(keys[a] == encode_utf8(files[a].path));
            assert(keys[b] == encode_utf8(files[b].path));
            if keys[a] == keys[b] {
                seqs::lemma_bytes_less_irreflexive(keys[a]);
                text::lemma_encoding_injective(files[a].path, files[b].path);
            }
        }
    }
    pack_manifest::lemma_manifest_round_trip(members);
    assert forall|i: int| 0 <= i < members.len() implies once.blobs.contains_key(
        (#[trigger] members[i]).blob,
    ) && once.blobs[members[i].blob].len() == members[i].byte_len by {
        assert(files[order[i] as int].bytes.len() <= u64::MAX);
    }
    assert(loaded_files(members, once.blobs) =~= files_in(files, order)) by {
        assert forall|i: int| 0 <= i < members.len() implies loaded_files(members, once.blobs)[i]
            == #[trigger] files_in(files, order)[i] by {
            let file = files[order[i] as int];
            assert(once.blobs[digest_of(file.bytes)] == file.bytes);
        }
    }
}

} // verus!
