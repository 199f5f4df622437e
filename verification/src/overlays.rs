//! Machine-local overlays of an authoring configuration.

use vstd::prelude::*;
use vstd::utf8::*;

use crate::authoring;
use crate::config_documents;
use crate::path;
use crate::path::join_paths;
use crate::plan::{plan_input, Finding, InputKind, PlanInput};
use crate::prepare_error::StaticPrepareError;
use crate::seqs;
use crate::seqs::copy_bytes;
use crate::text;
use crate::text::{concat2, concat3, concat4, concat5, lossy_text, text_skip, text_starts_with};
use crate::transform::PrepareErrorModel;

verus! {

/// A declared overlay, whether its file exists or not; `T` is the type of text.
#[derive(Debug)]
pub struct OverlayDeclaration<T = String> {
    pub name: T,
    pub path: T,
    pub optional: bool,
}

impl View for OverlayDeclaration<String> {
    type V = OverlayDeclaration<Seq<char>>;

    open spec fn view(&self) -> OverlayDeclaration<Seq<char>> {
        OverlayDeclaration { name: self.name@, path: self.path@, optional: self.optional }
    }
}

/// The name of the input that records a declaration.
pub open spec fn declaration_name(declaration: OverlayDeclaration<Seq<char>>) -> Seq<char> {
    "overlay-declaration:"@ + declaration.name + (if declaration.optional {
        ":opt:"@
    } else {
        ":req:"@
    }) + declaration.path
}

/// The bytes whose digest identifies a declared overlay.
pub open spec fn overlay_preimage(declaration: OverlayDeclaration<Seq<char>>) -> Seq<u8> {
    config_documents::domain("malm-authoring-overlay-identity-v1"@) + encode_utf8(
        declaration.name,
    ).push(0) + encode_utf8(declaration.path)
}

impl OverlayDeclaration {
    /// Builds the bytes whose digest identifies the overlay.
    pub fn identity_preimage(&self) -> (bytes: Vec<u8>)
        ensures
            bytes@ == overlay_preimage(self@),
    {
        let mut bytes: Vec<u8> = Vec::new();
        bytes.extend_from_slice("malm-authoring-overlay-identity-v1".as_bytes());
        bytes.push(0);
        bytes.extend_from_slice(self.name.as_str().as_bytes());
        bytes.push(0);
        bytes.extend_from_slice(self.path.as_str().as_bytes());
        assert(bytes@ =~= overlay_preimage(self@));
        bytes
    }

    /// Builds the input that records the declaration, so that it can be captured again
    /// without the pack.
    pub fn input(&self, identity: &str) -> (input: PlanInput)
        ensures
            input@ == (PlanInput {
                kind: InputKind::Config,
                name: declaration_name(self@),
                digest: identity@,
            }),
    {
        let requirement = if self.optional {
            ":opt:"
        } else {
            ":req:"
        };
        plan_input(
            InputKind::Config,
            concat4("overlay-declaration:", self.name.as_str(), requirement, self.path.as_str()),
            identity,
        )
    }
}

/// Overlays have different identities where their names or paths differ, as long as no name
/// holds a zero byte.
pub proof fn lemma_overlays_are_told_apart(
    left: OverlayDeclaration<Seq<char>>,
    right: OverlayDeclaration<Seq<char>>,
)
    requires
        forall|i: int|
            0 <= i < encode_utf8(left.name).len() ==> #[trigger] encode_utf8(left.name)[i] != 0,
        forall|i: int|
            0 <= i < encode_utf8(right.name).len() ==> #[trigger] encode_utf8(right.name)[i] != 0,
        overlay_preimage(left) == overlay_preimage(right),
    ensures
        left.name == right.name,
        left.path == right.path,
{
    let start = config_documents::domain("malm-authoring-overlay-identity-v1"@).len() as int;
    let whole = overlay_preimage(left);
    let a = encode_utf8(left.name);
    let b = encode_utf8(right.name);
    assert(whole[start + a.len()] == 0);
    assert(whole[start + b.len()] == 0);
    if a.len() < b.len() {
        assert(whole[start + a.len()] == b[a.len() as int]);
    } else if b.len() < a.len() {
        assert(whole[start + b.len()] == a[b.len() as int]);
    }
    assert(a =~= whole.subrange(start, start + a.len()));
    assert(b =~= whole.subrange(start, start + a.len()));
    assert(encode_utf8(left.path) =~= whole.skip(start + a.len() + 1));
    assert(encode_utf8(right.path) =~= whole.skip(start + a.len() + 1));
    text::lemma_encoding_injective(left.name, right.name);
    text::lemma_encoding_injective(left.path, right.path);
}

/// Where the file of an overlay lies.
pub open spec fn overlay_location(
    declaration: OverlayDeclaration<Seq<char>>,
    target_root: Option<Seq<u8>>,
) -> Result<Seq<u8>, PrepareErrorModel> {
    if authoring::is_home_relative(declaration.path) {
        match target_root {
            Some(root) => Ok(
                path::joined(root, encode_utf8(authoring::below_home(declaration.path))),
            ),
            None => Err(
                authoring::invalid_config(
                    "overlay `"@ + declaration.name
                        + "`: no target authority root to resolve "@ + declaration.path
                        + " against"@,
                ),
            ),
        }
    } else {
        Ok(encode_utf8(declaration.path))
    }
}

/// A path or a failure, as contracts speak of them.
pub open spec fn location_view(outcome: Result<Vec<u8>, StaticPrepareError>) -> Result<
    Seq<u8>,
    PrepareErrorModel,
> {
    match outcome {
        Ok(value) => Ok(value@),
        Err(error) => Err(error@),
    }
}

/// A path that may be missing, as contracts speak of it.
pub open spec fn root_view(root: Option<&[u8]>) -> Option<Seq<u8>> {
    match root {
        Some(value) => Some(value@),
        None => None,
    }
}

/// Finds where the file of an overlay lies: a path that starts at the home directory is
/// resolved against the root of the target authority.
pub fn locate_overlay(declaration: &OverlayDeclaration, target_root: Option<&[u8]>) -> (location:
    Result<Vec<u8>, StaticPrepareError>)
    ensures
        location_view(location) == overlay_location(declaration@, root_view(target_root)),
{
    proof {
        reveal_strlit("~/");
    }
    let path = declaration.path.as_str();
    if text_starts_with(path, "~/") {
        let rest = text_skip(path, 2);
        match target_root {
            Some(root) => Ok(join_paths(root, rest.as_str().as_bytes())),
            None => Err(
                StaticPrepareError::InvalidConfig {
                    detail: concat5(
                        "overlay `",
                        declaration.name.as_str(),
                        "`: no target authority root to resolve ",
                        path,
                        " against",
                    ),
                },
            ),
        }
    } else {
        Ok(copy_bytes(path.as_bytes()))
    }
}

/// What came of reading the file of an overlay.
#[derive(Debug)]
pub enum OverlayReading<T = String> {
    /// It was read, and has this digest.
    Read { digest: T },
    NotFound,
    Failed { detail: T },
}

impl View for OverlayReading<String> {
    type V = OverlayReading<Seq<char>>;

    open spec fn view(&self) -> OverlayReading<Seq<char>> {
        match *self {
            OverlayReading::Read { digest } => OverlayReading::Read { digest: digest@ },
            OverlayReading::NotFound => OverlayReading::NotFound,
            OverlayReading::Failed { detail } => OverlayReading::Failed { detail: detail@ },
        }
    }
}

/// An overlay that was applied.
#[derive(Debug)]
pub struct AppliedOverlay<T = String> {
    pub name: T,
    pub path: T,
    pub bytes_digest: T,
    pub identity: T,
}

impl View for AppliedOverlay<String> {
    type V = AppliedOverlay<Seq<char>>;

    open spec fn view(&self) -> AppliedOverlay<Seq<char>> {
        AppliedOverlay {
            name: self.name@,
            path: self.path@,
            bytes_digest: self.bytes_digest@,
            identity: self.identity@,
        }
    }
}

/// What comes of an overlay: applied, passed over where it is optional and missing, or a
/// failure.
pub open spec fn overlay_outcome(
    declaration: OverlayDeclaration<Seq<char>>,
    location: Seq<u8>,
    reading: OverlayReading<Seq<char>>,
    identity: Seq<char>,
) -> Result<Option<AppliedOverlay<Seq<char>>>, PrepareErrorModel> {
    match reading {
        OverlayReading::Read { digest } => Ok(
            Some(
                AppliedOverlay {
                    name: declaration.name,
                    path: declaration.path,
                    bytes_digest: digest,
                    identity,
                },
            ),
        ),
        OverlayReading::NotFound => if declaration.optional {
            Ok(None)
        } else {
            Err(
                authoring::invalid_config(
                    "overlay `"@ + declaration.name + "`: required file "@ + text::utf8_lossy(
                        location,
                    ) + " is missing"@,
                ),
            )
        },
        OverlayReading::Failed { detail } => Err(
            authoring::invalid_config(
                "overlay `"@ + declaration.name + "`: read "@ + text::utf8_lossy(location) + (": "@
                    + detail),
            ),
        ),
    }
}

/// What came of an overlay, as contracts speak of it.
pub open spec fn applied_view(
    outcome: Result<Option<AppliedOverlay>, StaticPrepareError>,
) -> Result<Option<AppliedOverlay<Seq<char>>>, PrepareErrorModel> {
    match outcome {
        Ok(Some(applied)) => Ok(Some(applied@)),
        Ok(None) => Ok(None),
        Err(error) => Err(error@),
    }
}

/// Decides what comes of an overlay, by what came of reading its file.
pub fn settle_overlay(
    declaration: &OverlayDeclaration,
    location: &[u8],
    reading: OverlayReading,
    identity: &str,
) -> (outcome: Result<Option<AppliedOverlay>, StaticPrepareError>)
    ensures
        applied_view(outcome) == overlay_outcome(
            declaration@,
            location@,
            reading@,
            identity@,
        ),
{
    match reading {
        OverlayReading::Read { digest } => Ok(
            Some(
                AppliedOverlay {
                    name: declaration.name.clone(),
                    path: declaration.path.clone(),
                    bytes_digest: digest,
                    identity: identity.to_owned(),
                },
            ),
        ),
        OverlayReading::NotFound => {
            if declaration.optional {
                return Ok(None);
            }
            Err(
                StaticPrepareError::InvalidConfig {
                    detail: concat5(
                        "overlay `",
                        declaration.name.as_str(),
                        "`: required file ",
                        lossy_text(location).as_str(),
                        " is missing",
                    ),
                },
            )
        },
        OverlayReading::Failed { detail } => {
            let ending = concat2(": ", detail.as_str());
            Err(
                StaticPrepareError::InvalidConfig {
                    detail: concat5(
                        "overlay `",
                        declaration.name.as_str(),
                        "`: read ",
                        lossy_text(location).as_str(),
                        ending.as_str(),
                    ),
                },
            )
        },
    }
}

/// A declaration with the digest that identifies it.
#[derive(Debug)]
pub struct IdentifiedDeclaration<T = String> {
    pub declaration: OverlayDeclaration<T>,
    pub identity: T,
}

impl View for IdentifiedDeclaration<String> {
    type V = IdentifiedDeclaration<Seq<char>>;

    open spec fn view(&self) -> IdentifiedDeclaration<Seq<char>> {
        IdentifiedDeclaration { declaration: self.declaration@, identity: self.identity@ }
    }
}

/// The input that records a declaration.
pub open spec fn declaration_input(declared: IdentifiedDeclaration<Seq<char>>) -> PlanInput<
    Seq<char>,
> {
    PlanInput {
        kind: InputKind::Config,
        name: declaration_name(declared.declaration),
        digest: declared.identity,
    }
}

/// The inputs of an applied overlay: its bytes, and its identity.
pub open spec fn applied_inputs(applied: AppliedOverlay<Seq<char>>) -> Seq<PlanInput<Seq<char>>> {
    seq![
        PlanInput {
            kind: InputKind::Config,
            name: "overlay:"@ + applied.name + ":bytes"@,
            digest: applied.bytes_digest,
        },
        PlanInput {
            kind: InputKind::Config,
            name: "overlay:"@ + applied.name + ":identity"@,
            digest: applied.identity,
        },
    ]
}

/// The inputs of all applied overlays, in their order.
pub open spec fn all_applied_inputs(applied: Seq<AppliedOverlay<Seq<char>>>) -> Seq<
    PlanInput<Seq<char>>,
>
    decreases applied.len(),
{
    if applied.len() == 0 {
        Seq::empty()
    } else {
        all_applied_inputs(applied.drop_last()) + applied_inputs(applied.last())
    }
}

/// The inputs of the overlays: every declaration, then what was applied.
pub open spec fn overlay_inputs_of(
    declarations: Seq<IdentifiedDeclaration<Seq<char>>>,
    applied: Seq<AppliedOverlay<Seq<char>>>,
) -> Seq<PlanInput<Seq<char>>> {
    Seq::new(declarations.len(), |i: int| declaration_input(declarations[i])) + all_applied_inputs(
        applied,
    )
}

/// Records every declaration, and the bytes and identity of each applied overlay.
pub fn overlay_inputs(
    declarations: &Vec<IdentifiedDeclaration>,
    applied: &Vec<AppliedOverlay>,
) -> (inputs: Vec<PlanInput>)
    ensures
        seqs::views(inputs@) == overlay_inputs_of(
            seqs::views(declarations@),
            seqs::views(applied@),
        ),
{
    let ghost declared = seqs::views(declarations@);
    let ghost first = Seq::new(declared.len(), |i: int| declaration_input(declared[i]));
    let mut inputs: Vec<PlanInput> = Vec::new();
    let mut i: usize = 0;
    proof {
        assert(seqs::views(inputs@) =~= first.take(0));
    }
    while i < declarations.len()
        invariant
            i <= declarations.len(),
            declared == seqs::views(declarations@),
            first == Seq::new(declared.len(), |k: int| declaration_input(declared[k])),
            seqs::views(inputs@) == first.take(i as int),
        decreases declarations.len() - i,
    {
        let ghost before = inputs@;
        let input = declarations[i].declaration.input(declarations[i].identity.as_str());
        let ghost viewed = input@;
        inputs.push(input);
        proof {
            assert(declared[i as int] == declarations@[i as int]@);
            assert(first[i as int] == viewed);
            assert(seqs::views(inputs@) =~= seqs::views(before).push(viewed));
            assert(first.take(i + 1) =~= first.take(i as int).push(viewed));
        }
        i = i + 1;
    }
    let ghost all = seqs::views(applied@);
    let mut k: usize = 0;
    proof {
        assert(first.take(first.len() as int) =~= first);
        assert(all.take(0) =~= Seq::<AppliedOverlay<Seq<char>>>::empty());
        assert(seqs::views(inputs@) =~= first + all_applied_inputs(all.take(0)));
    }
    while k < applied.len()
        invariant
            k <= applied.len(),
            all == seqs::views(applied@),
            seqs::views(inputs@) == first + all_applied_inputs(all.take(k as int)),
        decreases applied.len() - k,
    {
        let overlay = &applied[k];
        let ghost before = inputs@;
        let bytes = plan_input(
            InputKind::Config,
            concat3("overlay:", overlay.name.as_str(), ":bytes"),
            overlay.bytes_digest.as_str(),
        );
        let identity = plan_input(
            InputKind::Config,
            concat3("overlay:", overlay.name.as_str(), ":identity"),
            overlay.identity.as_str(),
        );
        let ghost pair = seq![bytes@, identity@];
        inputs.push(bytes);
        inputs.push(identity);
        proof {
            assert(all.take(k + 1).drop_last() =~= all.take(k as int));
            assert(all.take(k + 1).last() == overlay@);
            assert(pair =~= applied_inputs(overlay@));
            assert(seqs::views(inputs@) =~= seqs::views(before) + pair);
            assert((first + all_applied_inputs(all.take(k as int))) + pair =~= first + (
            all_applied_inputs(all.take(k as int)) + pair));
        }
        k = k + 1;
    }
    proof {
        assert(all.take(all.len() as int) =~= all);
    }
    inputs
}

/// The finding about an applied overlay.
pub open spec fn applied_finding(applied: AppliedOverlay<Seq<char>>) -> Finding<Seq<char>> {
    Finding {
        code: "AUTHORING-OVERLAY-APPLIED"@,
        message: "machine-local overlay `"@ + applied.name + "` applied from "@ + applied.path
            + (" ("@ + applied.bytes_digest + ")"@),
        approval_required: false,
    }
}

/// Tells of every applied overlay.
pub fn overlay_applied_findings(applied: &Vec<AppliedOverlay>) -> (findings: Vec<Finding>)
    ensures
        seqs::views(findings@) == Seq::new(
            applied@.len(),
            |i: int| applied_finding(applied@[i]@),
        ),
{
    let mut findings: Vec<Finding> = Vec::new();
    let mut i: usize = 0;
    while i < applied.len()
        invariant
            i <= applied.len(),
            findings@.len() == i,
            forall|k: int|
                0 <= k < i ==> (#[trigger] findings@[k])@ == applied_finding(applied@[k]@),
        decreases applied.len() - i,
    {
        let overlay = &applied[i];
        let ending = concat3(" (", overlay.bytes_digest.as_str(), ")");
        findings.push(
            Finding {
                code: "AUTHORING-OVERLAY-APPLIED".to_owned(),
                message: concat5(
                    "machine-local overlay `",
                    overlay.name.as_str(),
                    "` applied from ",
                    overlay.path.as_str(),
                    ending.as_str(),
                ),
                approval_required: false,
            },
        );
        i = i + 1;
    }
    assert(seqs::views(findings@) =~= Seq::new(
        applied@.len(),
        |k: int| applied_finding(applied@[k]@),
    ));
    findings
}

/// Every declared overlay is told of among the inputs by its identity, under a name that tells an
/// optional one from a required one. Every applied overlay is told of by the digest of its bytes
/// and by its identity.
pub proof fn lemma_overlays_are_inputs(
    declarations: Seq<IdentifiedDeclaration<Seq<char>>>,
    applied: Seq<AppliedOverlay<Seq<char>>>,
    index: int,
)
    ensures
        ({
            let inputs = overlay_inputs_of(declarations, applied);
            &&& inputs.len() == declarations.len() + 2 * applied.len()
            &&& 0 <= index < declarations.len() ==> inputs[index].kind is Config
                && inputs[index].digest == declarations[index].identity && inputs[index].name
                == "overlay-declaration:"@ + declarations[index].declaration.name + (if declarations[index].declaration.optional {
                ":opt:"@
            } else {
                ":req:"@
            }) + declarations[index].declaration.path
            &&& 0 <= index < applied.len() ==> {
                let bytes = inputs[declarations.len() + 2 * index];
                let identity = inputs[declarations.len() + 2 * index + 1];
                &&& bytes.kind is Config
                &&& bytes.name == "overlay:"@ + applied[index].name + ":bytes"@
                &&& bytes.digest == applied[index].bytes_digest
                &&& identity.kind is Config
                &&& identity.name == "overlay:"@ + applied[index].name + ":identity"@
                &&& identity.digest == applied[index].identity
            }
        }),
{
    lemma_applied_inputs(applied, index);
}

proof fn lemma_applied_inputs(applied: Seq<AppliedOverlay<Seq<char>>>, index: int)
    ensures
        all_applied_inputs(applied).len() == 2 * applied.len(),
        0 <= index < applied.len() ==> all_applied_inputs(applied)[2 * index] == applied_inputs(
            applied[index],
        )[0] && all_applied_inputs(applied)[2 * index + 1] == applied_inputs(applied[index])[1],
    decreases applied.len(),
{
    if applied.len() > 0 {
        lemma_applied_inputs(applied.drop_last(), index);
    }
}

/// An overlay that was read is applied, with the digest of what was read. One that is missing is
/// passed over exactly where it is optional, and nothing else is passed over.
pub proof fn lemma_only_missing_optional_overlays_are_passed_over(
    declaration: OverlayDeclaration<Seq<char>>,
    location: Seq<u8>,
    reading: OverlayReading<Seq<char>>,
    identity: Seq<char>,
)
    ensures
        overlay_outcome(declaration, location, reading, identity) matches Ok(None) <==> reading
            is NotFound && declaration.optional,
        overlay_outcome(declaration, location, reading, identity) matches Ok(Some(applied)) ==> (
        reading matches OverlayReading::Read { digest } && applied.bytes_digest == digest)
            && applied.name == declaration.name && applied.path == declaration.path
            && applied.identity == identity,
        reading is Read ==> overlay_outcome(declaration, location, reading, identity) matches Ok(
            Some(_),
        ),
{
}

} // verus!
