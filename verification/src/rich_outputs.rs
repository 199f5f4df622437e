//! Planning the outputs of an evaluated configuration.

use vstd::prelude::*;
use vstd::utf8::*;

use crate::codec;
use crate::codec::push_be;
use crate::config_documents;
use crate::config_documents::{LockedNode, NodeModel};
use crate::prepare_error::{PackResourceKind, StaticPrepareError};
use crate::seqs;
use crate::text;
use crate::text::text_equal;
use crate::transform;
use crate::transform::PrepareErrorModel;

verus! {

/// A reviewed reference to a file of a pack; `T` is the type of text.
#[derive(Debug)]
pub struct FileReference<T = String> {
    pub path: T,
    pub kind: PackResourceKind,
    pub byte_len: u64,
    pub raw_digest: T,
    pub object_digest: T,
}

impl View for FileReference<String> {
    type V = FileReference<Seq<char>>;

    open spec fn view(&self) -> FileReference<Seq<char>> {
        FileReference {
            path: self.path@,
            kind: self.kind,
            byte_len: self.byte_len,
            raw_digest: self.raw_digest@,
            object_digest: self.object_digest@,
        }
    }
}

/// A file as it was found in its pack.
#[derive(Debug)]
pub struct FoundFile<T = String> {
    pub byte_len: u64,
    pub raw_digest: T,
    /// The digest as a canonical file, or why it has none.
    pub object_digest: Result<T, T>,
}

impl View for FoundFile<String> {
    type V = FoundFile<Seq<char>>;

    open spec fn view(&self) -> FoundFile<Seq<char>> {
        FoundFile {
            byte_len: self.byte_len,
            raw_digest: self.raw_digest@,
            object_digest: match self.object_digest {
                Ok(digest) => Ok(digest@),
                Err(detail) => Err(detail@),
            },
        }
    }
}

/// A found file that may be missing, as contracts speak of it.
pub open spec fn found_view(found: Option<FoundFile>) -> Option<FoundFile<Seq<char>>> {
    match found {
        Some(file) => Some(file@),
        None => None,
    }
}

/// What is wrong with a file of a pack, if anything: it must be declared as what it is used
/// as, be there, and have the reviewed length and digests.
pub open spec fn pack_file_problem(
    node: Seq<char>,
    reference: FileReference<Seq<char>>,
    declared: bool,
    found: Option<FoundFile<Seq<char>>>,
) -> Option<PrepareErrorModel> {
    if !declared {
        Some(
            StaticPrepareError::UndeclaredPackFile {
                node,
                path: reference.path,
                kind: reference.kind,
            },
        )
    } else {
        match found {
            None => Some(StaticPrepareError::MissingPackFile { node, path: reference.path }),
            Some(file) => if file.byte_len != reference.byte_len {
                Some(
                    StaticPrepareError::PackFileLengthMismatch {
                        node,
                        path: reference.path,
                        expected: reference.byte_len,
                        actual: file.byte_len,
                    },
                )
            } else if file.raw_digest != reference.raw_digest {
                Some(
                    StaticPrepareError::PackFileDigestMismatch {
                        node,
                        path: reference.path,
                        domain: "raw"@,
                        expected: reference.raw_digest,
                        actual: file.raw_digest,
                    },
                )
            } else {
                match file.object_digest {
                    Err(detail) => Some(StaticPrepareError::InvalidConfig { detail }),
                    Ok(digest) => if digest != reference.object_digest {
                        Some(
                            StaticPrepareError::PackFileDigestMismatch {
                                node,
                                path: reference.path,
                                domain: "canonical file"@,
                                expected: reference.object_digest,
                                actual: digest,
                            },
                        )
                    } else {
                        None
                    },
                }
            },
        }
    }
}

/// What a check found wrong, as contracts speak of it.
pub open spec fn problem_view(checked: Result<(), StaticPrepareError>) -> Option<
    PrepareErrorModel,
> {
    match checked {
        Ok(_) => None,
        Err(error) => Some(error@),
    }
}

/// Checks a file of a pack against its reviewed reference.
pub fn check_pack_file(
    node: &str,
    reference: &FileReference,
    declared: bool,
    found: &Option<FoundFile>,
) -> (checked: Result<(), StaticPrepareError>)
    ensures
        problem_view(checked) == pack_file_problem(
            node@,
            reference@,
            declared,
            found_view(*found),
        ),
{
    if !declared {
        return Err(
            StaticPrepareError::UndeclaredPackFile {
                node: node.to_owned(),
                path: reference.path.clone(),
                kind: reference.kind,
            },
        );
    }
    let file = match found {
        Some(file) => file,
        None => {
            return Err(
                StaticPrepareError::MissingPackFile {
                    node: node.to_owned(),
                    path: reference.path.clone(),
                },
            );
        },
    };
    if file.byte_len != reference.byte_len {
        return Err(
            StaticPrepareError::PackFileLengthMismatch {
                node: node.to_owned(),
                path: reference.path.clone(),
                expected: reference.byte_len,
                actual: file.byte_len,
            },
        );
    }
    if !text_equal(file.raw_digest.as_str(), reference.raw_digest.as_str()) {
        return Err(
            StaticPrepareError::PackFileDigestMismatch {
                node: node.to_owned(),
                path: reference.path.clone(),
                domain: "raw".to_owned(),
                expected: reference.raw_digest.clone(),
                actual: file.raw_digest.clone(),
            },
        );
    }
    match &file.object_digest {
        Err(detail) => Err(StaticPrepareError::InvalidConfig { detail: detail.clone() }),
        Ok(digest) => if !text_equal(digest.as_str(), reference.object_digest.as_str()) {
            Err(
                StaticPrepareError::PackFileDigestMismatch {
                    node: node.to_owned(),
                    path: reference.path.clone(),
                    domain: "canonical file".to_owned(),
                    expected: reference.object_digest.clone(),
                    actual: digest.clone(),
                },
            )
        } else {
            Ok(())
        },
    }
}

/// A file passes only as what was reviewed: declared, there, with the reviewed length and
/// both reviewed digests.
pub proof fn lemma_only_reviewed_files_pass(
    node: Seq<char>,
    reference: FileReference<Seq<char>>,
    declared: bool,
    found: Option<FoundFile<Seq<char>>>,
)
    ensures
        pack_file_problem(node, reference, declared, found) is None <==> {
            &&& declared
            &&& found matches Some(file) && file == (FoundFile {
                byte_len: reference.byte_len,
                raw_digest: reference.raw_digest,
                object_digest: Ok::<Seq<char>, Seq<char>>(reference.object_digest),
            })
        },
{
}

/// A decoder of archives.
#[derive(Debug)]
pub struct ArchiveDecoder<T = String> {
    pub name: T,
    pub version: u16,
}

impl View for ArchiveDecoder<String> {
    type V = ArchiveDecoder<Seq<char>>;

    open spec fn view(&self) -> ArchiveDecoder<Seq<char>> {
        ArchiveDecoder { name: self.name@, version: self.version }
    }
}

/// Checks that an archive asks for the decoder that there is.
pub fn validate_archive_decoder(asked: &ArchiveDecoder, supported: &ArchiveDecoder) -> (checked:
    Result<(), StaticPrepareError>)
    ensures
        problem_view(checked) == decoder_problem(asked@, supported@),
{
    if !text_equal(asked.name.as_str(), supported.name.as_str()) || asked.version
        != supported.version {
        return Err(
            StaticPrepareError::UnsupportedArchiveDecoder {
                name: asked.name.clone(),
                version: asked.version,
            },
        );
    }
    Ok(())
}

/// What is wrong with the decoder that an archive asks for, if anything.
pub open spec fn decoder_problem(
    asked: ArchiveDecoder<Seq<char>>,
    supported: ArchiveDecoder<Seq<char>>,
) -> Option<PrepareErrorModel> {
    if asked == supported {
        None
    } else {
        Some(
            StaticPrepareError::UnsupportedArchiveDecoder {
                name: asked.name,
                version: asked.version,
            },
        )
    }
}

/// The bytes whose digest identifies a decoder.
pub open spec fn decoder_preimage_of(decoder: ArchiveDecoder<Seq<char>>) -> Seq<u8> {
    config_documents::domain("malm-archive-decoder-identity"@) + encode_utf8(decoder.name)
        + codec::be(decoder.version as nat, 2)
}

/// Builds the bytes whose digest identifies a decoder.
pub fn archive_decoder_preimage(decoder: &ArchiveDecoder) -> (bytes: Vec<u8>)
    ensures
        bytes@ == decoder_preimage_of(decoder@),
{
    let mut bytes: Vec<u8> = Vec::new();
    bytes.extend_from_slice("malm-archive-decoder-identity".as_bytes());
    bytes.push(0);
    bytes.extend_from_slice(decoder.name.as_str().as_bytes());
    proof {
        assert(bytes@ =~= config_documents::domain("malm-archive-decoder-identity"@) + encode_utf8(
            decoder@.name,
        ));
    }
    push_be(&mut bytes, decoder.version as u64, 2);
    bytes
}

/// Decoders have different identities where they differ.
pub proof fn lemma_decoders_are_told_apart(
    left: ArchiveDecoder<Seq<char>>,
    right: ArchiveDecoder<Seq<char>>,
)
    requires
        decoder_preimage_of(left) == decoder_preimage_of(right),
    ensures
        left == right,
{
    let start = config_documents::domain("malm-archive-decoder-identity"@);
    let whole = decoder_preimage_of(left);
    codec::lemma_be_len(left.version as nat, 2);
    codec::lemma_be_len(right.version as nat, 2);
    codec::lemma_pow256_values();
    codec::lemma_be_round_trip(left.version as nat, 2);
    codec::lemma_be_round_trip(right.version as nat, 2);
    let end = whole.len() - 2;
    assert(whole.skip(end) =~= codec::be(left.version as nat, 2));
    assert(whole.skip(end) =~= codec::be(right.version as nat, 2));
    assert(whole.subrange(start.len() as int, end) =~= encode_utf8(left.name));
    assert(whole.subrange(start.len() as int, end) =~= encode_utf8(right.name));
    text::lemma_encoding_injective(left.name, right.name);
}

/// A component of a node has a digest.
pub open spec fn is_component(
    nodes: Seq<NodeModel>,
    node: int,
    component: int,
    digest: Seq<char>,
) -> bool {
    0 <= node < nodes.len() && 0 <= component < nodes[node].components.len()
        && nodes[node].components[component].digest == digest
}

/// One component comes before another.
pub open spec fn component_precedes(left: (int, int), right: (int, int)) -> bool {
    left.0 < right.0 || (left.0 == right.0 && left.1 < right.1)
}

/// The component with a digest was found: it must be the only one.
pub open spec fn is_component_found(
    found: Result<(usize, usize), StaticPrepareError>,
    nodes: Seq<NodeModel>,
    digest: Seq<char>,
) -> bool {
    match found {
        Ok(place) => {
            &&& is_component(nodes, place.0 as int, place.1 as int, digest)
            &&& forall|n: int, c: int| #[trigger]
                is_component(nodes, n, c, digest) ==> n == place.0 && c == place.1
        },
        Err(error) => {
            ||| {
                &&& error@ == (StaticPrepareError::<Seq<char>, Seq<u8>>::UnknownFormatComponent {
                    digest,
                })
                &&& forall|n: int, c: int| !#[trigger] is_component(nodes, n, c, digest)
            }
            ||| {
                &&& error@ == (StaticPrepareError::<Seq<char>, Seq<u8>>::AmbiguousFormatComponent {
                    digest,
                })
                &&& exists|n: int, c: int, m: int, d: int|
                    (n != m || c != d) && #[trigger] is_component(nodes, n, c, digest)
                        && #[trigger] is_component(nodes, m, d, digest)
            }
        },
    }
}

/// Finds the only component with a digest.
pub fn resolve_transform_component(nodes: &Vec<LockedNode>, digest: &str) -> (found: Result<
    (usize, usize),
    StaticPrepareError,
>)
    ensures
        is_component_found(found, seqs::views(nodes@), digest@),
{
    let ghost all = seqs::views(nodes@);
    let mut matched: Option<(usize, usize)> = None;
    let mut i: usize = 0;
    while i < nodes.len()
        invariant
            i <= nodes.len(),
            all == seqs::views(nodes@),
            match matched {
                None => forall|n: int, c: int|
                    n < i ==> !#[trigger] is_component(all, n, c, digest@),
                Some(place) => {
                    &&& is_component(all, place.0 as int, place.1 as int, digest@)
                    &&& place.0 < i
                    &&& forall|n: int, c: int|
                        n < i && #[trigger] is_component(all, n, c, digest@) ==> n == place.0 && c
                            == place.1
                },
            },
        decreases nodes.len() - i,
    {
        let node = &nodes[i];
        proof {
            assert(all[i as int] == node@);
        }
        let mut k: usize = 0;
        while k < node.components.len()
            invariant
                i < nodes.len(),
                k <= node.components.len(),
                all == seqs::views(nodes@),
                node@ == all[i as int],
                match matched {
                    None => forall|n: int, c: int|
                        component_precedes((n, c), (i as int, k as int)) ==> !#[trigger]
                            is_component(all, n, c, digest@),
                    Some(place) => {
                        &&& is_component(all, place.0 as int, place.1 as int, digest@)
                        &&& component_precedes(
                            (place.0 as int, place.1 as int),
                            (i as int, k as int),
                        )
                        &&& forall|n: int, c: int|
                            component_precedes((n, c), (i as int, k as int)) && #[trigger]
                                is_component(all, n, c, digest@) ==> n == place.0 && c == place.1
                    },
                },
            decreases node.components.len() - k,
        {
            proof {
                assert(all[i as int].components[k as int] == node.components@[k as int]@);
            }
            if text_equal(node.components[k].digest.as_str(), digest) {
                proof {
                    assert(is_component(all, i as int, k as int, digest@));
                }
                match matched {
                    Some(place) => {
                        proof {
                            assert(is_component(all, place.0 as int, place.1 as int, digest@));
                        }
                        return Err(
                            StaticPrepareError::AmbiguousFormatComponent {
                                digest: digest.to_owned(),
                            },
                        );
                    },
                    None => {
                        matched = Some((i, k));
                    },
                }
            }
            k = k + 1;
        }
        i = i + 1;
    }
    match matched {
        Some(place) => Ok(place),
        None => Err(StaticPrepareError::UnknownFormatComponent { digest: digest.to_owned() }),
    }
}

} // verus!
