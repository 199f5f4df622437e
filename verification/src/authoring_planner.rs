//! The plan for an authoring configuration: outputs first, then assets, then symlinks.
//!
//! The planner names the work that is left to components and to the store, and takes what came
//! of it into the plan.

use vstd::prelude::*;

use crate::assets::AssetEntry;
use crate::authoring;
use crate::authoring::{
    check_authoring_response_len, home_relative_destination, relative_symlink_target,
    reserve_authoring_artifact_bytes, target_goes_down,
};
use crate::limits::MAX_PREPARED_UNIQUE_ARTIFACT_BYTES;
use crate::plan;
use crate::plan::{plan_input, Action, Finding, InputKind, Operation, PlanInput, Provenance};
use crate::prepare_error::StaticPrepareError;
use crate::rich_outputs::ArchiveDecoder;
use crate::rich_planner;
use crate::rich_planner::{Artifact, ArtifactModel, ReplyModel, RichPlan, RichPlanModel, TransformReply};
use crate::seqs;
use crate::seqs::copy_bytes;
use crate::text;
use crate::text::{
    concat2, concat3, concat4, debug_text, decimal_text, join_texts, text_skip, text_starts_with,
    zero_padded_text,
};
use crate::transform;
use crate::transform::{
    add_component_input, append_transform_findings, append_transform_provenance,
    record_diagnostics, PrepareErrorModel, SourceDocument, TransformProvenance,
};
use crate::xz;
use crate::xz::overflow_error;

verus! {

/// What an output starts from; `T` is the type of text and `B` that of bytes.
#[derive(Debug)]
pub enum OutputContent<T = String, B = Vec<u8>> {
    /// The rendered bytes.
    Bytes(B),
    /// A document that the named component renders.
    Component { renderer: T },
}

impl View for OutputContent {
    type V = OutputContent<Seq<char>, Seq<u8>>;

    open spec fn view(&self) -> OutputContent<Seq<char>, Seq<u8>> {
        match *self {
            OutputContent::Bytes(bytes) => OutputContent::Bytes(bytes@),
            OutputContent::Component { renderer } => OutputContent::Component {
                renderer: renderer@,
            },
        }
    }
}

/// An output of an authoring configuration; `N` is the type of its list of transforms.
#[derive(Debug)]
pub struct AuthoringOutput<T = String, B = Vec<u8>, N = Vec<String>> {
    pub destination: T,
    pub content: OutputContent<T, B>,
    /// Components that the content goes through, in this order.
    pub transforms: N,
    pub executable: bool,
    /// A file that is there already may be replaced, with approval.
    pub replace: bool,
}

/// What an output holds.
pub type AuthoringOutputModel = AuthoringOutput<Seq<char>, Seq<u8>, Seq<Seq<char>>>;

impl View for AuthoringOutput {
    type V = AuthoringOutputModel;

    open spec fn view(&self) -> AuthoringOutputModel {
        AuthoringOutput {
            destination: self.destination@,
            content: self.content@,
            transforms: seqs::views(self.transforms@),
            executable: self.executable,
            replace: self.replace,
        }
    }
}

/// A symlink of an authoring configuration.
#[derive(Debug)]
pub struct AuthoringSymlink<T = String> {
    pub destination: T,
    pub target: T,
}

impl View for AuthoringSymlink<String> {
    type V = AuthoringSymlink<Seq<char>>;

    open spec fn view(&self) -> AuthoringSymlink<Seq<char>> {
        AuthoringSymlink { destination: self.destination@, target: self.target@ }
    }
}

/// A number with at least so many digits.
pub open spec fn padded(value: int, width: nat) -> Seq<char> {
    text::zero_padded(text::decimal(value as nat), width)
}

fn padded_text(value: usize, width: usize) -> (padded_value: String)
    ensures
        padded_value@ == padded(value as int, width as nat),
{
    zero_padded_text(decimal_text(value as u64), width)
}

/// The name of the artifact of the output at a place.
pub open spec fn output_artifact(index: int) -> Seq<char> {
    "authoring/output-"@ + padded(index, 4)
}

/// The name of the stage that renders an output.
pub open spec fn renderer_stage(index: int) -> Seq<char> {
    "authoring-output-"@ + padded(index, 4) + "-renderer"@
}

/// The name of a transform stage of an output.
pub open spec fn transform_stage(index: int, stage: int) -> Seq<char> {
    "authoring-output-"@ + padded(index, 4) + "-transform-"@ + padded(stage, 2)
}

/// What an output is at some stage: its bytes, and their media type.
pub struct StagedContent {
    pub bytes: Seq<u8>,
    pub media_type: Seq<char>,
}

/// The state of the planner.
pub struct AuthoringModel {
    pub authority: Seq<char>,
    pub target: Seq<char>,
    pub decoder: ArchiveDecoder<Seq<char>>,
    pub outputs: Seq<AuthoringOutputModel>,
    pub assets: Seq<AssetEntry<Seq<char>>>,
    pub symlinks: Seq<AuthoringSymlink<Seq<char>>>,
    pub plan: RichPlanModel,
    /// The bytes of all planned outputs together.
    pub total: u64,
    pub output: int,
    /// What the current output is after the stages that ran, if any did.
    pub content: Option<StagedContent>,
    pub stage: int,
    pub asset: int,
    pub symlink: int,
    /// The symlinks that are left to the runtime.
    pub skipped: Seq<Seq<char>>,
    pub finished: bool,
}

/// Work that is left.
#[derive(Debug)]
pub enum AuthoringWork<T = String> {
    /// Run the component that renders this output.
    Render { output: usize },
    /// Run the component of this stage on what the output is so far.
    Transform { output: usize, stage: usize },
    /// Check, unpack and publish this asset.
    Asset { asset: usize },
    /// Publish a symlink with this target.
    Symlink { symlink: usize, target: T },
    /// Nothing; ask again.
    Again,
    /// Everything is planned.
    Finished,
}

impl View for AuthoringWork<String> {
    type V = AuthoringWork<Seq<char>>;

    open spec fn view(&self) -> AuthoringWork<Seq<char>> {
        match *self {
            AuthoringWork::Render { output } => AuthoringWork::Render { output },
            AuthoringWork::Transform { output, stage } => AuthoringWork::Transform {
                output,
                stage,
            },
            AuthoringWork::Asset { asset } => AuthoringWork::Asset { asset },
            AuthoringWork::Symlink { symlink, target } => AuthoringWork::Symlink {
                symlink,
                target: target@,
            },
            AuthoringWork::Again => AuthoringWork::Again,
            AuthoringWork::Finished => AuthoringWork::Finished,
        }
    }
}

/// The plan with the finished output at its destination.
pub open spec fn with_output(
    plan: RichPlanModel,
    authority: Seq<char>,
    index: int,
    output: AuthoringOutputModel,
    content: StagedContent,
    destination: Seq<char>,
) -> RichPlanModel {
    let id = output_artifact(index);
    let mode = rich_planner::placed_mode(output.executable);
    RichPlanModel {
        artifacts: plan.artifacts.push(
            Artifact { id, bytes: content.bytes, media_type: content.media_type },
        ),
        operations: plan.operations.push(
            Operation {
                authority,
                relative_path: destination,
                action: if output.replace {
                    Action::ReplaceFile { artifact: id, mode }
                } else {
                    Action::PlaceFile { artifact: id, mode }
                },
            },
        ),
        ..plan
    }
}

/// What follows for the current output.
pub open spec fn output_step(model: AuthoringModel) -> Result<
    (AuthoringModel, AuthoringWork<Seq<char>>),
    PrepareErrorModel,
> {
    let output = model.outputs[model.output];
    match authoring::home_destination(model.target, output.destination) {
        Err(error) => Err(error),
        Ok(destination) => match model.content {
            None => match output.content {
                OutputContent::Component { .. } => Ok(
                    (model, AuthoringWork::Render { output: model.output as usize }),
                ),
                OutputContent::Bytes(bytes) => match authoring::length_problem(
                    bytes.len(),
                    output.destination,
                ) {
                    Some(error) => Err(error),
                    None => Ok(
                        (
                            AuthoringModel {
                                content: Some(
                                    StagedContent {
                                        bytes,
                                        media_type: "application/octet-stream"@,
                                    },
                                ),
                                stage: 0,
                                ..model
                            },
                            AuthoringWork::Again,
                        ),
                    ),
                },
            },
            Some(content) => if model.stage < output.transforms.len() {
                Ok(
                    (
                        model,
                        AuthoringWork::Transform {
                            output: model.output as usize,
                            stage: model.stage as usize,
                        },
                    ),
                )
            } else {
                match authoring::reserved(model.total, content.bytes.len(), output.destination) {
                    Err(error) => Err(error),
                    Ok(total) => Ok(
                        (
                            AuthoringModel {
                                plan: with_output(
                                    model.plan,
                                    model.authority,
                                    model.output,
                                    output,
                                    content,
                                    destination,
                                ),
                                total,
                                output: model.output + 1,
                                content: None,
                                stage: 0,
                                ..model
                            },
                            AuthoringWork::Again,
                        ),
                    ),
                }
            },
        },
    }
}

/// What follows for the current symlink.
pub open spec fn symlink_step(model: AuthoringModel) -> Result<
    (AuthoringModel, AuthoringWork<Seq<char>>),
    PrepareErrorModel,
> {
    let symlink = model.symlinks[model.symlink];
    match authoring::home_destination(model.target, symlink.destination) {
        Err(error) => Err(error),
        Ok(link) => if !authoring::is_home_relative(symlink.target) {
            Err(
                authoring::invalid_config(
                    "symlink `"@ + symlink.destination
                        + "`: only `~/`-relative targets are supported, found "@
                        + text::debug_notation(symlink.target),
                ),
            )
        } else {
            let spelled = authoring::relative_target(link, authoring::below_home(symlink.target));
            if authoring::goes_down(spelled) {
                Ok(
                    (
                        model,
                        AuthoringWork::Symlink {
                            symlink: model.symlink as usize,
                            target: spelled,
                        },
                    ),
                )
            } else {
                Ok(
                    (
                        AuthoringModel {
                            skipped: model.skipped.push(link + " -> "@ + symlink.target),
                            symlink: model.symlink + 1,
                            ..model
                        },
                        AuthoringWork::Again,
                    ),
                )
            }
        },
    }
}

/// The finding about symlinks that are left to the runtime.
pub open spec fn skipped_finding(skipped: Seq<Seq<char>>) -> Finding<Seq<char>> {
    Finding {
        code: "AUTHORING-SYMLINK-SKIPPED"@,
        message: text::decimal(skipped.len())
            + " symlink(s) with upward-relative targets are managed at runtime, not deployed: "@
            + text::joined_texts(skipped, ", "@),
        approval_required: false,
    }
}

/// What follows when every part was planned.
pub open spec fn last_step(model: AuthoringModel) -> AuthoringModel {
    if model.finished {
        model
    } else {
        AuthoringModel {
            plan: if model.skipped.len() > 0 {
                RichPlanModel {
                    findings: model.plan.findings.push(skipped_finding(model.skipped)),
                    ..model.plan
                }
            } else {
                model.plan
            },
            finished: true,
            ..model
        }
    }
}

/// What follows in a state.
pub open spec fn step_of(model: AuthoringModel) -> Result<
    (AuthoringModel, AuthoringWork<Seq<char>>),
    PrepareErrorModel,
> {
    if model.output < model.outputs.len() {
        output_step(model)
    } else if model.asset < model.assets.len() {
        Ok((model, AuthoringWork::Asset { asset: model.asset as usize }))
    } else if model.symlink < model.symlinks.len() {
        symlink_step(model)
    } else {
        Ok((last_step(model), AuthoringWork::Finished))
    }
}

/// The stage that the current output is at, by name.
pub open spec fn stage_name(model: AuthoringModel) -> Seq<char> {
    if model.content is None {
        renderer_stage(model.output)
    } else {
        transform_stage(model.output, model.stage)
    }
}

/// What follows a component that ran on the current output.
pub open spec fn component_taken(
    model: AuthoringModel,
    reply: ReplyModel,
    documents: Seq<SourceDocument<Seq<char>>>,
) -> Result<AuthoringModel, PrepareErrorModel> {
    let output = model.outputs[model.output];
    match transform::all_recorded(reply.diagnostics, documents) {
        Err(error) => Err(error),
        Ok(recorded) => match transform::provenance_added(
            model.plan.transforms,
            rich_planner::provenance_of(reply, recorded),
        ) {
            Err(error) => Err(error),
            Ok(transforms) => match authoring::length_problem(
                reply.output.len(),
                output.destination,
            ) {
                Some(error) => Err(error),
                None => Ok(
                    AuthoringModel {
                        plan: RichPlanModel {
                            inputs: rich_planner::with_component(
                                model.plan.inputs,
                                reply.component,
                            ),
                            findings: model.plan.findings + transform::diagnostic_findings(
                                stage_name(model),
                                reply.diagnostics,
                            ),
                            transforms,
                            ..model.plan
                        },
                        content: Some(
                            StagedContent { bytes: reply.output, media_type: reply.media_type },
                        ),
                        stage: if model.content is None {
                            0
                        } else {
                            model.stage + 1
                        },
                        ..model
                    },
                ),
            },
        },
    }
}

/// The inputs of an asset: what unpacked it, and the tree that came out.
pub open spec fn asset_inputs(
    name: Seq<char>,
    decompressor_digest: Seq<char>,
    tree: Seq<char>,
) -> Seq<PlanInput<Seq<char>>> {
    seq![
        PlanInput {
            kind: InputKind::Other,
            name: "asset:"@ + name + ":decompressor"@,
            digest: decompressor_digest,
        },
        PlanInput { kind: InputKind::Other, name: "asset:"@ + name + ":tree"@, digest: tree },
    ]
}

/// What follows an asset that was unpacked, decoded and published: its tree is put at its
/// name below the directory that it declares.
pub open spec fn asset_taken(
    model: AuthoringModel,
    decompressor_digest: Seq<char>,
    tar_digest: Seq<char>,
    tree: Seq<char>,
) -> Result<AuthoringModel, PrepareErrorModel> {
    let asset = model.assets[model.asset];
    match authoring::home_destination(model.target, asset.dst) {
        Err(error) => Err(error),
        Ok(destination) => Ok(
            AuthoringModel {
                plan: RichPlanModel {
                    inputs: model.plan.inputs + asset_inputs(asset.name, decompressor_digest, tree),
                    operations: model.plan.operations.push(
                        Operation {
                            authority: model.authority,
                            relative_path: destination + "/"@ + asset.name,
                            action: Action::ReplaceTree {
                                tree,
                                provenance: Some(
                                    Provenance {
                                        payload: tar_digest,
                                        decoder: rich_planner::decoder_name(model.decoder),
                                    },
                                ),
                            },
                        },
                    ),
                    ..model.plan
                },
                asset: model.asset + 1,
                ..model
            },
        ),
    }
}

/// What follows a symlink that was published.
pub open spec fn symlink_taken(
    model: AuthoringModel,
    link: Seq<char>,
    object: Seq<char>,
) -> AuthoringModel {
    AuthoringModel {
        plan: RichPlanModel {
            operations: model.plan.operations.push(
                Operation {
                    authority: model.authority,
                    relative_path: link,
                    action: Action::ReplaceSymlink { object },
                },
            ),
            ..model.plan
        },
        symlink: model.symlink + 1,
        ..model
    }
}

/// The bytes of artifacts together.
pub open spec fn artifact_bytes(artifacts: Seq<ArtifactModel>) -> nat
    decreases artifacts.len(),
{
    if artifacts.len() == 0 {
        0
    } else {
        artifact_bytes(artifacts.drop_last()) + artifacts.last().bytes.len()
    }
}

/// What holds of every state: every part has its operation, each symlink that has none is
/// told of, and the bytes of the outputs stay within the limit of a plan.
pub open spec fn is_authoring(model: AuthoringModel) -> bool {
    &&& 0 <= model.output <= model.outputs.len()
    &&& 0 <= model.asset <= model.assets.len()
    &&& 0 <= model.symlink <= model.symlinks.len()
    &&& model.skipped.len() <= model.symlink
    &&& model.stage >= 0
    &&& model.output < model.outputs.len() ==> model.stage
        <= model.outputs[model.output].transforms.len()
    &&& model.plan.artifacts.len() == model.output
    &&& forall|i: int|
        0 <= i < model.output ==> (#[trigger] model.plan.artifacts[i]).id == output_artifact(i)
    &&& model.plan.operations.len() == model.output + model.asset + model.symlink
        - model.skipped.len()
    &&& model.total == artifact_bytes(model.plan.artifacts)
    &&& model.total <= MAX_PREPARED_UNIQUE_ARTIFACT_BYTES
}

struct StagedBytes {
    bytes: Vec<u8>,
    media_type: String,
}

impl View for StagedBytes {
    type V = StagedContent;

    closed spec fn view(&self) -> StagedContent {
        StagedContent { bytes: self.bytes@, media_type: self.media_type@ }
    }
}

struct AuthoringState {
    authority: String,
    target: String,
    decoder: ArchiveDecoder,
    outputs: Vec<AuthoringOutput>,
    assets: Vec<AssetEntry>,
    symlinks: Vec<AuthoringSymlink>,
    plan: RichPlan,
    total: u64,
    output: usize,
    content: Option<StagedBytes>,
    stage: usize,
    asset: usize,
    symlink: usize,
    skipped: Vec<String>,
    finished: bool,
}

impl AuthoringState {
    closed spec fn model(self) -> AuthoringModel {
        AuthoringModel {
            authority: self.authority@,
            target: self.target@,
            decoder: self.decoder@,
            outputs: seqs::views(self.outputs@),
            assets: seqs::views(self.assets@),
            symlinks: seqs::views(self.symlinks@),
            plan: self.plan@,
            total: self.total,
            output: self.output as int,
            content: match self.content {
                Some(staged) => Some(staged@),
                None => None,
            },
            stage: self.stage as int,
            asset: self.asset as int,
            symlink: self.symlink as int,
            skipped: seqs::views(self.skipped@),
            finished: self.finished,
        }
    }
}

/// Plans an authoring configuration, one part after the other.
pub struct AuthoringPlanner {
    state: AuthoringState,
}

proof fn lemma_artifact_bytes_push(artifacts: Seq<ArtifactModel>, added: ArtifactModel)
    ensures
        artifact_bytes(artifacts.push(added)) == artifact_bytes(artifacts) + added.bytes.len(),
{
    assert(artifacts.push(added).drop_last() =~= artifacts);
}

/// A step, as contracts speak of it.
pub open spec fn step_view(
    step: Result<(AuthoringPlanner, AuthoringWork), StaticPrepareError>,
) -> Result<(AuthoringModel, AuthoringWork<Seq<char>>), PrepareErrorModel> {
    match step {
        Ok((planner, work)) => Ok((planner.model(), work@)),
        Err(error) => Err(error@),
    }
}

/// A planner or a failure, as contracts speak of them.
pub open spec fn planner_view(next: Result<AuthoringPlanner, StaticPrepareError>) -> Result<
    AuthoringModel,
    PrepareErrorModel,
> {
    match next {
        Ok(planner) => Ok(planner.model()),
        Err(error) => Err(error@),
    }
}

fn push_operation(plan: &mut RichPlan, authority: &str, relative_path: String, action: Action)
    ensures
        final(plan)@ == (RichPlanModel {
            operations: old(plan)@.operations.push(
                Operation { authority: authority@, relative_path: relative_path@, action: action@ },
            ),
            ..old(plan)@
        }),
{
    let ghost before = plan@;
    let operation = Operation { authority: authority.to_owned(), relative_path, action };
    let ghost viewed = operation@;
    plan.operations.push(operation);
    proof {
        assert(plan@.operations =~= before.operations.push(viewed));
        assert(plan@ =~= (RichPlanModel {
            operations: before.operations.push(viewed),
            ..before
        }));
    }
}

impl AuthoringPlanner {
    #[verifier::type_invariant]
    spec fn inv(self) -> bool {
        is_authoring(self.state.model())
    }

    /// The state of the planner.
    pub closed spec fn model(self) -> AuthoringModel {
        self.state.model()
    }

    /// Starts with a plan that holds no artifact and no operation yet.
    pub fn new(
        authority: String,
        target: String,
        decoder: ArchiveDecoder,
        outputs: Vec<AuthoringOutput>,
        assets: Vec<AssetEntry>,
        symlinks: Vec<AuthoringSymlink>,
        plan: RichPlan,
    ) -> (planner: Self)
        requires
            plan@.artifacts.len() == 0,
            plan@.operations.len() == 0,
        ensures
            planner.model() == (AuthoringModel {
                authority: authority@,
                target: target@,
                decoder: decoder@,
                outputs: seqs::views(outputs@),
                assets: seqs::views(assets@),
                symlinks: seqs::views(symlinks@),
                plan: plan@,
                total: 0,
                output: 0,
                content: None,
                stage: 0,
                asset: 0,
                symlink: 0,
                skipped: Seq::empty(),
                finished: false,
            }),
    {
        let skipped: Vec<String> = Vec::new();
        let state = AuthoringState {
            authority,
            target,
            decoder,
            outputs,
            assets,
            symlinks,
            plan,
            total: 0,
            output: 0,
            content: None,
            stage: 0,
            asset: 0,
            symlink: 0,
            skipped,
            finished: false,
        };
        proof {
            assert(seqs::views(skipped@) =~= Seq::<Seq<char>>::empty());
            assert(state.model().plan == plan@);
        }
        AuthoringPlanner { state }
    }

    /// Returns the outputs.
    pub fn outputs(&self) -> (outputs: &Vec<AuthoringOutput>)
        ensures
            seqs::views(outputs@) == self.model().outputs,
    {
        &self.state.outputs
    }

    /// Returns the assets.
    pub fn assets(&self) -> (assets: &Vec<AssetEntry>)
        ensures
            seqs::views(assets@) == self.model().assets,
    {
        &self.state.assets
    }

    /// Returns what the current output is so far, which a transform is given.
    pub fn content(&self) -> (content: Option<&Vec<u8>>)
        ensures
            match content {
                Some(bytes) => self.model().content matches Some(staged) && staged.bytes == bytes@,
                None => self.model().content is None,
            },
    {
        match &self.state.content {
            Some(staged) => Some(&staged.bytes),
            None => None,
        }
    }

    /// Takes the next step, up to work that is left to others.
    pub fn next(self) -> (step: Result<(Self, AuthoringWork), StaticPrepareError>)
        ensures
            is_authoring(self.model()),
            step_view(step) == step_of(self.model()),
    {
        proof {
            use_type_invariant(&self);
        }
        if self.state.output < self.state.outputs.len() {
            self.next_output()
        } else if self.state.asset < self.state.assets.len() {
            let asset: usize = self.state.asset;
            Ok((self, AuthoringWork::Asset { asset }))
        } else if self.state.symlink < self.state.symlinks.len() {
            self.next_symlink()
        } else {
            Ok((self.close(), AuthoringWork::Finished))
        }
    }

    fn next_output(self) -> (step: Result<(Self, AuthoringWork), StaticPrepareError>)
        requires
            self.model().output < self.model().outputs.len(),
        ensures
            step_view(step) == output_step(self.model()),
    {
        proof {
            use_type_invariant(&self);
        }
        let ghost before = self.model();
        let mut s = self.state;
        let index: usize = s.output;
        assert(index < s.outputs.len());
        proof {
            assert(before.outputs[before.output] == s.outputs@[index as int]@);
        }
        let destination = match home_relative_destination(
            s.target.as_str(),
            s.outputs[index].destination.as_str(),
        ) {
            Ok(destination) => destination,
            Err(error) => {
                return Err(error);
            },
        };
        match s.content {
            None => {
                match &s.outputs[index].content {
                    OutputContent::Component { .. } => {
                        s.content = None;
                        Ok((AuthoringPlanner { state: s }, AuthoringWork::Render { output: index }))
                    },
                    OutputContent::Bytes(bytes) => {
                        match check_authoring_response_len(
                            bytes.len(),
                            s.outputs[index].destination.as_str(),
                        ) {
                            Ok(_) => {},
                            Err(error) => {
                                return Err(error);
                            },
                        }
                        let staged = StagedBytes {
                            bytes: copy_bytes(bytes.as_slice()),
                            media_type: "application/octet-stream".to_owned(),
                        };
                        s.content = Some(staged);
                        s.stage = 0;
                        Ok((AuthoringPlanner { state: s }, AuthoringWork::Again))
                    },
                }
            },
            Some(staged) => {
                if s.stage < s.outputs[index].transforms.len() {
                    let stage: usize = s.stage;
                    s.content = Some(staged);
                    return Ok(
                        (
                            AuthoringPlanner { state: s },
                            AuthoringWork::Transform { output: index, stage },
                        ),
                    );
                }
                let mut total: u64 = s.total;
                match reserve_authoring_artifact_bytes(
                    &mut total,
                    staged.bytes.len(),
                    s.outputs[index].destination.as_str(),
                ) {
                    Ok(_) => {},
                    Err(error) => {
                        return Err(error);
                    },
                }
                let number = padded_text(index, 4);
                let id = concat2("authoring/output-", number.as_str());
                let named = id.clone();
                let mode: u32 = if s.outputs[index].executable {
                    0o755
                } else {
                    0o644
                };
                let action = if s.outputs[index].replace {
                    Action::ReplaceFile { artifact: named, mode }
                } else {
                    Action::PlaceFile { artifact: named, mode }
                };
                let ghost started = s.plan@;
                let artifact = Artifact { id, bytes: staged.bytes, media_type: staged.media_type };
                let ghost viewed = artifact@;
                s.plan.artifacts.push(artifact);
                proof {
                    assert(s.plan@.artifacts =~= started.artifacts.push(viewed));
                    assert(s.plan@ =~= (RichPlanModel {
                        artifacts: started.artifacts.push(viewed),
                        ..started
                    }));
                    lemma_artifact_bytes_push(started.artifacts, viewed);
                }
                push_operation(&mut s.plan, s.authority.as_str(), destination, action);
                s.total = total;
                s.output = index + 1;
                s.content = None;
                s.stage = 0;
                Ok((AuthoringPlanner { state: s }, AuthoringWork::Again))
            },
        }
    }

    fn next_symlink(self) -> (step: Result<(Self, AuthoringWork), StaticPrepareError>)
        requires
            self.model().output == self.model().outputs.len(),
            self.model().symlink < self.model().symlinks.len(),
        ensures
            step_view(step) == symlink_step(self.model()),
    {
        proof {
            use_type_invariant(&self);
            reveal_strlit("~/");
        }
        let ghost before = self.model();
        let mut s = self.state;
        let index: usize = s.symlink;
        assert(index < s.symlinks.len());
        proof {
            assert(before.symlinks[before.symlink] == s.symlinks@[index as int]@);
        }
        let symlink = &s.symlinks[index];
        let link = match home_relative_destination(
            s.target.as_str(),
            symlink.destination.as_str(),
        ) {
            Ok(link) => link,
            Err(error) => {
                return Err(error);
            },
        };
        if !text_starts_with(symlink.target.as_str(), "~/") {
            return Err(
                StaticPrepareError::InvalidConfig {
                    detail: concat4(
                        "symlink `",
                        symlink.destination.as_str(),
                        "`: only `~/`-relative targets are supported, found ",
                        debug_text(symlink.target.as_str()).as_str(),
                    ),
                },
            );
        }
        let rest = text_skip(symlink.target.as_str(), 2);
        let spelled = relative_symlink_target(link.as_str(), rest.as_str());
        if target_goes_down(spelled.as_str()) {
            return Ok(
                (
                    AuthoringPlanner { state: s },
                    AuthoringWork::Symlink { symlink: index, target: spelled },
                ),
            );
        }
        let line = concat3(link.as_str(), " -> ", symlink.target.as_str());
        let ghost skipped = s.skipped@;
        let ghost viewed = line@;
        s.skipped.push(line);
        s.symlink = index + 1;
        proof {
            assert(seqs::views(s.skipped@) =~= seqs::views(skipped).push(viewed));
        }
        Ok((AuthoringPlanner { state: s }, AuthoringWork::Again))
    }

    fn close(self) -> (closed: Self)
        ensures
            closed.model() == last_step(self.model()),
    {
        proof {
            use_type_invariant(&self);
        }
        if self.state.finished {
            return self;
        }
        let mut s = self.state;
        let ghost started = s.plan@;
        if s.skipped.len() > 0 {
            let number = decimal_text(s.skipped.len() as u64);
            let list = join_texts(&s.skipped, ", ");
            let finding = Finding {
                code: "AUTHORING-SYMLINK-SKIPPED".to_owned(),
                message: concat3(
                    number.as_str(),
                    " symlink(s) with upward-relative targets are managed at runtime, not deployed: ",
                    list.as_str(),
                ),
                approval_required: false,
            };
            let ghost viewed = finding@;
            s.plan.findings.push(finding);
            proof {
                assert(s.plan@.findings =~= started.findings.push(viewed));
                assert(s.plan@ =~= (RichPlanModel {
                    findings: started.findings.push(viewed),
                    ..started
                }));
            }
        }
        s.finished = true;
        AuthoringPlanner { state: s }
    }

    /// Takes up what the component of the current stage gave back.
    pub fn supply_component(self, reply: TransformReply, documents: &Vec<SourceDocument>) -> (next:
        Result<Self, StaticPrepareError>)
        requires
            self.model().output < self.model().outputs.len(),
            self.model().content is Some ==> self.model().stage
                < self.model().outputs[self.model().output].transforms.len(),
        ensures
            planner_view(next) == component_taken(self.model(), reply@, seqs::views(documents@)),
    {
        proof {
            use_type_invariant(&self);
        }
        let ghost before = self.model();
        let ghost given = reply@;
        let mut s = self.state;
        let index: usize = s.output;
        assert(index < s.outputs.len());
        proof {
            assert(before.outputs[before.output] == s.outputs@[index as int]@);
        }
        let TransformReply {
            component,
            output: bytes,
            media_type,
            diagnostics,
            name,
            implementation,
            request_digest,
            document_digest,
            resources,
            response_digest,
        } = reply;
        let number = padded_text(index, 4);
        let (stage_text, stage) = match &s.content {
            None => (concat3("authoring-output-", number.as_str(), "-renderer"), 0usize),
            Some(_) => {
                let stage_number = padded_text(s.stage, 2);
                assert(s.stage < s.outputs[index as int].transforms.len());
                (
                    concat4(
                        "authoring-output-",
                        number.as_str(),
                        "-transform-",
                        stage_number.as_str(),
                    ),
                    s.stage + 1,
                )
            },
        };
        match &component {
            Some(used) => add_component_input(
                &mut s.plan.inputs,
                used.node_id.as_str(),
                used.name.as_str(),
                used.digest.as_str(),
            ),
            None => {},
        }
        append_transform_findings(&mut s.plan.findings, stage_text.as_str(), &diagnostics);
        let recorded = match record_diagnostics(&diagnostics, documents) {
            Ok(recorded) => recorded,
            Err(error) => {
                return Err(error);
            },
        };
        let provenance = TransformProvenance {
            name,
            implementation,
            request_digest,
            document_digest,
            resources,
            response_digest,
            diagnostics: recorded,
        };
        proof {
            assert(provenance@ == rich_planner::provenance_of(given, seqs::views(recorded@)));
        }
        match append_transform_provenance(&mut s.plan.transforms, provenance) {
            Ok(_) => {},
            Err(error) => {
                return Err(error);
            },
        }
        match check_authoring_response_len(bytes.len(), s.outputs[index].destination.as_str()) {
            Ok(_) => {},
            Err(error) => {
                return Err(error);
            },
        }
        s.content = Some(StagedBytes { bytes, media_type });
        s.stage = stage;
        Ok(AuthoringPlanner { state: s })
    }

    /// Refuses an asset whose payload would overflow the decoder; that ends the plan.
    pub fn refuse_asset(self) -> (error: StaticPrepareError)
        requires
            self.model().asset < self.model().assets.len(),
        ensures
            error@ == xz::overflow_failure(self.model().assets[self.model().asset].name),
    {
        proof {
            use_type_invariant(&self);
        }
        let index: usize = self.state.asset;
        assert(self.model().assets[index as int] == self.state.assets@[index as int]@);
        overflow_error(self.state.assets[index].name.as_str())
    }

    /// Takes up an asset that was unpacked, decoded and published.
    pub fn supply_asset(self, decompressor_digest: &str, tar_digest: String, tree: String) -> (next:
        Result<Self, StaticPrepareError>)
        requires
            self.model().output == self.model().outputs.len(),
            self.model().asset < self.model().assets.len(),
        ensures
            planner_view(next) == asset_taken(
                self.model(),
                decompressor_digest@,
                tar_digest@,
                tree@,
            ),
    {
        proof {
            use_type_invariant(&self);
        }
        let ghost before = self.model();
        let mut s = self.state;
        let index: usize = s.asset;
        assert(index < s.assets.len());
        proof {
            assert(before.assets[before.asset] == s.assets@[index as int]@);
        }
        let name = s.assets[index].name.as_str();
        let ghost started = s.plan@;
        let first = plan_input(
            InputKind::Other,
            concat3("asset:", name, ":decompressor"),
            decompressor_digest,
        );
        let second = plan_input(InputKind::Other, concat3("asset:", name, ":tree"), tree.as_str());
        let ghost pair = seq![first@, second@];
        s.plan.inputs.push(first);
        s.plan.inputs.push(second);
        proof {
            assert(pair =~= asset_inputs(before.assets[before.asset].name, decompressor_digest@, tree@));
            assert(s.plan@.inputs =~= started.inputs + pair);
            assert(s.plan@ =~= (RichPlanModel { inputs: started.inputs + pair, ..started }));
        }
        let destination = match home_relative_destination(
            s.target.as_str(),
            s.assets[index].dst.as_str(),
        ) {
            Ok(destination) => destination,
            Err(error) => {
                return Err(error);
            },
        };
        let tree_path = concat3(destination.as_str(), "/", s.assets[index].name.as_str());
        let version = decimal_text(s.decoder.version as u64);
        let provenance = Provenance {
            payload: tar_digest,
            decoder: concat3(s.decoder.name.as_str(), "/v", version.as_str()),
        };
        push_operation(
            &mut s.plan,
            s.authority.as_str(),
            tree_path,
            Action::ReplaceTree { tree, provenance: Some(provenance) },
        );
        s.asset = index + 1;
        Ok(AuthoringPlanner { state: s })
    }

    /// Takes up a symlink that was published, by the digest of its object.
    pub fn supply_symlink(self, object: String) -> (next: Result<Self, StaticPrepareError>)
        requires
            self.model().output == self.model().outputs.len(),
            self.model().asset == self.model().assets.len(),
            self.model().symlink < self.model().symlinks.len(),
        ensures
            match authoring::home_destination(
                self.model().target,
                self.model().symlinks[self.model().symlink].destination,
            ) {
                Ok(link) => planner_view(next) == Ok::<AuthoringModel, PrepareErrorModel>(
                    symlink_taken(self.model(), link, object@),
                ),
                Err(error) => planner_view(next) == Err::<AuthoringModel, PrepareErrorModel>(error),
            },
    {
        proof {
            use_type_invariant(&self);
        }
        let ghost before = self.model();
        let mut s = self.state;
        let index: usize = s.symlink;
        assert(index < s.symlinks.len());
        proof {
            assert(before.symlinks[before.symlink] == s.symlinks@[index as int]@);
        }
        let link = match home_relative_destination(
            s.target.as_str(),
            s.symlinks[index].destination.as_str(),
        ) {
            Ok(link) => link,
            Err(error) => {
                return Err(error);
            },
        };
        push_operation(
            &mut s.plan,
            s.authority.as_str(),
            link,
            Action::ReplaceSymlink { object },
        );
        s.symlink = index + 1;
        Ok(AuthoringPlanner { state: s })
    }

    /// Returns the finished plan: one artifact for each output, under its number, within the
    /// limit of a plan; one operation for each output, asset and deployed symlink.
    pub fn into_plan(self) -> (plan: RichPlan)
        requires
            self.model().finished,
            self.model().output == self.model().outputs.len(),
            self.model().asset == self.model().assets.len(),
            self.model().symlink == self.model().symlinks.len(),
        ensures
            plan@ == self.model().plan,
            plan@.artifacts.len() == self.model().outputs.len(),
            forall|i: int|
                0 <= i < plan@.artifacts.len() ==> (#[trigger] plan@.artifacts[i]).id
                    == output_artifact(i),
            artifact_bytes(plan@.artifacts) <= MAX_PREPARED_UNIQUE_ARTIFACT_BYTES,
            plan@.operations.len() + self.model().skipped.len() == self.model().outputs.len()
                + self.model().assets.len() + self.model().symlinks.len(),
    {
        proof {
            use_type_invariant(&self);
        }
        self.state.plan
    }
}

/// An output is deployed as it is after its stages: the added artifact holds exactly the bytes and
/// the media type of that content, and the added operation puts this artifact at the destination
/// of the output, with its mode, in place of a file that is there only where the output says so.
pub proof fn lemma_staged_output_is_deployed(model: AuthoringModel, content: StagedContent)
    requires
        0 <= model.output < model.outputs.len(),
        model.content == Some(content),
        model.stage >= model.outputs[model.output].transforms.len(),
        output_step(model) is Ok,
    ensures
        ({
            let output = model.outputs[model.output];
            let (next, work) = output_step(model)->Ok_0;
            let artifact = next.plan.artifacts.last();
            let operation = next.plan.operations.last();
            let mode = if output.executable {
                0o755u32
            } else {
                0o644u32
            };
            &&& work is Again
            &&& next.output == model.output + 1
            &&& next.content is None
            &&& next.total == model.total + content.bytes.len()
            &&& next.plan.artifacts.len() == model.plan.artifacts.len() + 1
            &&& artifact.bytes == content.bytes
            &&& artifact.media_type == content.media_type
            &&& next.plan.operations.len() == model.plan.operations.len() + 1
            &&& operation.authority == model.authority
            &&& authoring::home_destination(model.target, output.destination) == Ok::<
                Seq<char>,
                PrepareErrorModel,
            >(operation.relative_path)
            &&& match operation.action {
                Action::ReplaceFile { artifact: named, mode: put } => output.replace && named
                    == artifact.id && put == mode,
                Action::PlaceFile { artifact: named, mode: put } => !output.replace && named
                    == artifact.id && put == mode,
                _ => false,
            }
        }),
{
}

/// What an output starts from goes through its stages: bytes are taken as they are, a document is
/// rendered first, and then each transform of the output is asked for in turn. Until then nothing
/// is planned for the output.
pub proof fn lemma_outputs_go_through_their_stages(model: AuthoringModel)
    requires
        0 <= model.output < model.outputs.len(),
        model.outputs.len() <= usize::MAX,
        model.outputs[model.output].transforms.len() <= usize::MAX,
        model.stage >= 0,
        step_of(model) is Ok,
    ensures
        ({
            let output = model.outputs[model.output];
            let (next, work) = step_of(model)->Ok_0;
            match model.content {
                None => next.plan == model.plan && next.output == model.output
                    && match output.content {
                    OutputContent::Bytes(bytes) => work is Again && next.stage == 0 && (next.content
                        matches Some(content) && content.bytes == bytes && content.media_type
                        == "application/octet-stream"@),
                    OutputContent::Component { .. } => next == model && (work
                        matches AuthoringWork::Render { output: at } && at == model.output),
                },
                Some(content) => model.stage < output.transforms.len() ==> next == model && (work
                    matches AuthoringWork::Transform { output: at, stage } && at == model.output
                    && stage == model.stage),
            }
        }),
{
}

/// What a component gives back is the content of the next stage, byte for byte, and its provenance
/// stands in the plan. No artifact and no operation is planned by it.
pub proof fn lemma_component_reply_is_the_next_content(
    model: AuthoringModel,
    reply: ReplyModel,
    documents: Seq<SourceDocument<Seq<char>>>,
)
    requires
        component_taken(model, reply, documents) is Ok,
    ensures
        ({
            let next = component_taken(model, reply, documents)->Ok_0;
            &&& next.content matches Some(content) && content.bytes == reply.output
                && content.media_type == reply.media_type
            &&& next.stage == if model.content is None {
                0
            } else {
                model.stage + 1
            }
            &&& next.output == model.output
            &&& next.plan.artifacts == model.plan.artifacts
            &&& next.plan.operations == model.plan.operations
            &&& next.plan.findings.len() == model.plan.findings.len() + reply.diagnostics.len()
            &&& model.plan.findings.is_prefix_of(next.plan.findings)
            &&& model.plan.transforms.is_prefix_of(next.plan.transforms)
            &&& exists|t: int|
                0 <= t < next.plan.transforms.len() && (
                #[trigger] next.plan.transforms[t]).request_digest == reply.request_digest
                    && next.plan.transforms[t].response_digest == reply.response_digest
                    && next.plan.transforms[t].implementation == reply.implementation
                    && next.plan.transforms[t].resources == reply.resources
        }),
{
    let recorded = transform::all_recorded(reply.diagnostics, documents)->Ok_0;
    let added = rich_planner::provenance_of(reply, recorded);
    let next = component_taken(model, reply, documents)->Ok_0;
    transform::lemma_added_provenance_stands(model.plan.transforms, added);
    let t = choose|t: int|
        0 <= t < next.plan.transforms.len() && #[trigger] next.plan.transforms[t] == added;
    assert(next.plan.transforms[t].request_digest == reply.request_digest);
}

/// An asset is deployed as the tree that it was unpacked to, below its destination and under its
/// own name, with what it came from; the inputs tell of its decompressor and of its tree.
pub proof fn lemma_supplied_asset_is_deployed(
    model: AuthoringModel,
    decompressor_digest: Seq<char>,
    tar_digest: Seq<char>,
    tree: Seq<char>,
)
    requires
        0 <= model.asset < model.assets.len(),
        asset_taken(model, decompressor_digest, tar_digest, tree) is Ok,
    ensures
        ({
            let asset = model.assets[model.asset];
            let next = asset_taken(model, decompressor_digest, tar_digest, tree)->Ok_0;
            let operation = next.plan.operations.last();
            let count = model.plan.inputs.len() as int;
            let below = authoring::home_destination(model.target, asset.dst);
            &&& next.asset == model.asset + 1
            &&& next.plan.operations.len() == model.plan.operations.len() + 1
            &&& next.plan.artifacts == model.plan.artifacts
            &&& operation.authority == model.authority
            &&& below matches Ok(destination) && operation.relative_path == destination + "/"@
                + asset.name
            &&& operation.action matches Action::ReplaceTree { tree: put, provenance } && put
                == tree && (provenance matches Some(from) && from.payload == tar_digest
                && from.decoder == model.decoder.name + "/v"@ + text::decimal(
                model.decoder.version as nat,
            ))
            &&& next.plan.inputs.len() == count + 2
            &&& model.plan.inputs.is_prefix_of(next.plan.inputs)
            &&& next.plan.inputs[count].name == "asset:"@ + asset.name + ":decompressor"@
            &&& next.plan.inputs[count].digest == decompressor_digest
            &&& next.plan.inputs[count + 1].name == "asset:"@ + asset.name + ":tree"@
            &&& next.plan.inputs[count + 1].digest == tree
        }),
{
}

/// A symlink is deployed at its destination as the object that was published for it, or it is
/// left to the runtime and named as skipped, never both. It is published with a target that leads
/// down from its own directory.
pub proof fn lemma_symlinks_are_deployed_or_named(model: AuthoringModel, object: Seq<char>)
    requires
        0 <= model.symlink < model.symlinks.len() <= usize::MAX,
        symlink_step(model) is Ok,
    ensures
        ({
            let symlink = model.symlinks[model.symlink];
            let link = authoring::home_destination(model.target, symlink.destination)->Ok_0;
            let (next, work) = symlink_step(model)->Ok_0;
            let taken = symlink_taken(model, link, object);
            &&& "~/"@.is_prefix_of(symlink.target)
            &&& next.plan == model.plan
            &&& match work {
                AuthoringWork::Symlink { symlink: at, target } => {
                    &&& at == model.symlink
                    &&& next == model
                    &&& authoring::goes_down(target)
                    &&& target == authoring::relative_target(
                        link,
                        symlink.target.skip("~/"@.len() as int),
                    )
                },
                AuthoringWork::Again => {
                    &&& next.symlink == model.symlink + 1
                    &&& next.skipped == model.skipped.push(link + " -> "@ + symlink.target)
                },
                _ => false,
            }
            &&& taken.symlink == model.symlink + 1
            &&& taken.skipped == model.skipped
            &&& taken.plan.artifacts == model.plan.artifacts
            &&& taken.plan.operations.len() == model.plan.operations.len() + 1
            &&& model.plan.operations.is_prefix_of(taken.plan.operations)
            &&& taken.plan.operations.last().authority == model.authority
            &&& taken.plan.operations.last().relative_path == link
            &&& taken.plan.operations.last().action matches Action::ReplaceSymlink { object: put }
                && put == object
        }),
{
}

/// No step takes back what was planned before it, and work is finished only when every output,
/// asset and symlink has been gone through.
pub proof fn lemma_authoring_steps_keep_what_is_planned(model: AuthoringModel)
    requires
        is_authoring(model),
        model.assets.len() <= usize::MAX,
        step_of(model) is Ok,
    ensures
        ({
            let (next, work) = step_of(model)->Ok_0;
            &&& model.plan.operations.is_prefix_of(next.plan.operations)
            &&& model.plan.artifacts.is_prefix_of(next.plan.artifacts)
            &&& model.plan.findings.is_prefix_of(next.plan.findings)
            &&& next.plan.inputs == model.plan.inputs
            &&& next.plan.transforms == model.plan.transforms
            &&& next.outputs == model.outputs
            &&& next.assets == model.assets
            &&& next.symlinks == model.symlinks
            &&& next.authority == model.authority
            &&& work is Finished ==> model.output == model.outputs.len() && model.asset
                == model.assets.len() && model.symlink == model.symlinks.len() && next.finished
            &&& work is Finished && model.skipped.len() > 0 && !model.finished
                ==> next.plan.findings.len() == model.plan.findings.len() + 1
                && next.plan.findings.last().code == "AUTHORING-SYMLINK-SKIPPED"@
                && !next.plan.findings.last().approval_required
            &&& work matches AuthoringWork::Asset { asset } ==> asset == model.asset && model.output
                == model.outputs.len() && next == model
        }),
{
}

} // verus!
