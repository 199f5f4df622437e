//! The plan for the outputs of an evaluated configuration, one output after the other.
//!
//! The planner names the work that is left to the store and to transforms, and takes what
//! came of it into the plan.

use vstd::prelude::*;

use crate::lifecycle::STATIC_PROFILE_INPUT_PREFIX;
use crate::plan;
use crate::plan::{plan_input, Action, Finding, InputKind, Operation, PlanInput, Provenance};
use crate::prepare_error::StaticPrepareError;
use crate::rich_outputs;
use crate::rich_outputs::{validate_archive_decoder, ArchiveDecoder, FileReference};
use crate::seqs;
use crate::text;
use crate::text::{concat2, concat3, decimal_text, text_equal};
use crate::transform;
use crate::transform::{
    add_component_input, append_transform_findings, append_transform_provenance,
    record_diagnostics, Diagnostic, DiagnosticModel, Implementation, PrepareErrorModel,
    ProvenanceModel, SourceDocument, TransformProvenance, TransformResource,
};

verus! {

/// The bytes of an output; `T` is the type of text and `B` that of bytes.
#[derive(Debug)]
pub struct Artifact<T = String, B = Vec<u8>> {
    pub id: T,
    pub bytes: B,
    pub media_type: T,
}

/// What an artifact holds.
pub type ArtifactModel = Artifact<Seq<char>, Seq<u8>>;

impl View for Artifact {
    type V = ArtifactModel;

    open spec fn view(&self) -> ArtifactModel {
        Artifact { id: self.id@, bytes: self.bytes@, media_type: self.media_type@ }
    }
}

/// The parts of a plan.
#[derive(Debug)]
pub struct RichPlan {
    pub inputs: Vec<PlanInput>,
    pub artifacts: Vec<Artifact>,
    pub findings: Vec<Finding>,
    pub transforms: Vec<TransformProvenance>,
    pub operations: Vec<Operation>,
}

/// What the parts of a plan hold.
#[verifier::ext_equal]
pub struct RichPlanModel {
    pub inputs: Seq<PlanInput<Seq<char>>>,
    pub artifacts: Seq<ArtifactModel>,
    pub findings: Seq<Finding<Seq<char>>>,
    pub transforms: Seq<ProvenanceModel>,
    pub operations: Seq<Operation<Seq<char>>>,
}

impl View for RichPlan {
    type V = RichPlanModel;

    open spec fn view(&self) -> RichPlanModel {
        RichPlanModel {
            inputs: seqs::views(self.inputs@),
            artifacts: seqs::views(self.artifacts@),
            findings: seqs::views(self.findings@),
            transforms: seqs::views(self.transforms@),
            operations: seqs::views(self.operations@),
        }
    }
}

/// A file that a transform is given under a name.
#[derive(Debug)]
pub struct ResourceFile<T = String> {
    pub name: T,
    pub source: FileReference<T>,
}

impl View for ResourceFile<String> {
    type V = ResourceFile<Seq<char>>;

    open spec fn view(&self) -> ResourceFile<Seq<char>> {
        ResourceFile { name: self.name@, source: self.source@ }
    }
}

/// How an output is made; `R` is the type of the list of resources.
#[derive(Debug)]
#[allow(inconsistent_fields)]
pub enum OutputKind<T = String, R = Vec<ResourceFile>> {
    RegularFile { source: FileReference<T>, executable: bool },
    Symlink { target: T },
    CanonicalTree { tree: T },
    DecodedArchive { payload: FileReference<T>, decoder: ArchiveDecoder<T>, expected_tree: T },
    TransformedFile { resources: R, executable: bool },
}

/// What the making of an output holds.
pub type KindModel = OutputKind<Seq<char>, Seq<ResourceFile<Seq<char>>>>;

impl View for OutputKind {
    type V = KindModel;

    open spec fn view(&self) -> KindModel {
        match *self {
            OutputKind::RegularFile { source, executable } => OutputKind::RegularFile {
                source: source@,
                executable,
            },
            OutputKind::Symlink { target } => OutputKind::Symlink { target: target@ },
            OutputKind::CanonicalTree { tree } => OutputKind::CanonicalTree { tree: tree@ },
            OutputKind::DecodedArchive { payload, decoder, expected_tree } =>
                OutputKind::DecodedArchive {
                payload: payload@,
                decoder: decoder@,
                expected_tree: expected_tree@,
            },
            OutputKind::TransformedFile { resources, executable } => OutputKind::TransformedFile {
                resources: seqs::views(resources@),
                executable,
            },
        }
    }
}

/// An output of a configuration.
#[derive(Debug)]
pub struct Output<T = String, R = Vec<ResourceFile>> {
    pub name: T,
    pub destination: T,
    pub kind: OutputKind<T, R>,
}

/// What an output holds.
pub type OutputModel = Output<Seq<char>, Seq<ResourceFile<Seq<char>>>>;

impl View for Output {
    type V = OutputModel;

    open spec fn view(&self) -> OutputModel {
        Output { name: self.name@, destination: self.destination@, kind: self.kind@ }
    }
}

/// How many files of packs go into an output.
pub open spec fn file_count(output: OutputModel) -> nat {
    match output.kind {
        OutputKind::RegularFile { .. } | OutputKind::DecodedArchive { .. } => 1,
        OutputKind::TransformedFile { resources, executable: _ } => resources.len(),
        OutputKind::Symlink { .. } | OutputKind::CanonicalTree { .. } => 0,
    }
}

/// The file at a place among those that go into an output, with the name of its use.
pub open spec fn file_at(output: OutputModel, index: int) -> (FileReference<Seq<char>>, Seq<char>) {
    match output.kind {
        OutputKind::RegularFile { source, executable: _ } => (source, output.name),
        OutputKind::DecodedArchive { payload, decoder: _, expected_tree: _ } => (
            payload,
            output.name,
        ),
        OutputKind::TransformedFile { resources, executable: _ } => (
            resources[index].source,
            output.name + ":"@ + resources[index].name,
        ),
        _ => arbitrary(),
    }
}

/// The inputs of a file of a pack under the name of its use.
pub open spec fn file_inputs(reference: FileReference<Seq<char>>, use_name: Seq<char>) -> Seq<
    PlanInput<Seq<char>>,
> {
    seq![
        PlanInput {
            kind: InputKind::Asset,
            name: "pack-file:"@ + use_name + ":raw"@,
            digest: reference.raw_digest,
        },
        PlanInput {
            kind: InputKind::Other,
            name: "pack-file:"@ + use_name + ":object"@,
            digest: reference.object_digest,
        },
    ]
}

/// The mode of a placed file.
pub open spec fn placed_mode(executable: bool) -> u32 {
    if executable {
        0o755
    } else {
        0o644
    }
}

/// The name of the artifact of an output.
pub open spec fn rich_artifact(name: Seq<char>) -> Seq<char> {
    "rich/"@ + name
}

/// The plan with the bytes of an output, placed at its destination.
pub open spec fn with_placed_file(
    plan: RichPlanModel,
    authority: Seq<char>,
    output: OutputModel,
    bytes: Seq<u8>,
    media_type: Seq<char>,
    executable: bool,
) -> RichPlanModel {
    let id = rich_artifact(output.name);
    RichPlanModel {
        artifacts: plan.artifacts.push(Artifact { id, bytes, media_type }),
        operations: plan.operations.push(
            Operation {
                authority,
                relative_path: output.destination,
                action: Action::PlaceFile { artifact: id, mode: placed_mode(executable) },
            },
        ),
        ..plan
    }
}

/// The state of the planner.
pub struct PlannerModel {
    pub authority: Seq<char>,
    pub supported: ArchiveDecoder<Seq<char>>,
    pub outputs: Seq<OutputModel>,
    pub plan: RichPlanModel,
    /// The output that is being planned.
    pub index: int,
    /// How many of its files were taken up.
    pub files: int,
}

/// The state with a plan that has the current output in it.
pub open spec fn moved_on(model: PlannerModel, plan: RichPlanModel) -> PlannerModel {
    PlannerModel { plan, index: model.index + 1, files: 0, ..model }
}

/// The plan with an operation at the destination of an output.
pub open spec fn with_operation(
    plan: RichPlanModel,
    authority: Seq<char>,
    output: OutputModel,
    action: Action<Seq<char>>,
) -> RichPlanModel {
    RichPlanModel {
        operations: plan.operations.push(
            Operation { authority, relative_path: output.destination, action },
        ),
        ..plan
    }
}

/// What follows a file of a pack that was checked and published.
pub open spec fn file_taken(model: PlannerModel, bytes: Seq<u8>) -> Result<
    PlannerModel,
    PrepareErrorModel,
> {
    let output = model.outputs[model.index];
    let (reference, use_name) = file_at(output, model.files);
    let plan = RichPlanModel {
        inputs: model.plan.inputs + file_inputs(reference, use_name),
        ..model.plan
    };
    match output.kind {
        OutputKind::RegularFile { source: _, executable } => Ok(
            moved_on(
                model,
                with_placed_file(
                    plan,
                    model.authority,
                    output,
                    bytes,
                    "application/octet-stream"@,
                    executable,
                ),
            ),
        ),
        OutputKind::DecodedArchive { payload: _, decoder, expected_tree: _ } =>
            match rich_outputs::decoder_problem(decoder, model.supported) {
            Some(error) => Err(error),
            None => Ok(PlannerModel { plan, files: model.files + 1, ..model }),
        },
        _ => Ok(PlannerModel { plan, files: model.files + 1, ..model }),
    }
}

/// What follows a symlink that was published.
pub open spec fn symlink_taken(model: PlannerModel, object: Seq<char>) -> PlannerModel {
    let output = model.outputs[model.index];
    moved_on(
        model,
        with_operation(model.plan, model.authority, output, Action::PlaceSymlink { object }),
    )
}

/// What follows a tree that was found complete.
pub open spec fn tree_taken(model: PlannerModel, tree: Seq<char>) -> PlannerModel {
    let output = model.outputs[model.index];
    moved_on(
        model,
        with_operation(
            model.plan,
            model.authority,
            output,
            Action::PlaceTree { tree, provenance: None },
        ),
    )
}

/// How a plan names a decoder.
pub open spec fn decoder_name(decoder: ArchiveDecoder<Seq<char>>) -> Seq<char> {
    decoder.name + "/v"@ + text::decimal(decoder.version as nat)
}

/// What follows an archive that was decoded and published.
pub open spec fn archive_taken(
    model: PlannerModel,
    payload: FileReference<Seq<char>>,
    decoder: ArchiveDecoder<Seq<char>>,
    tree: Seq<char>,
    decoder_digest: Seq<char>,
) -> PlannerModel {
    let output = model.outputs[model.index];
    let plan = RichPlanModel {
        inputs: model.plan.inputs + seq![
            PlanInput {
                kind: InputKind::Other,
                name: "archive:"@ + output.name + ":decoder"@,
                digest: decoder_digest,
            },
            PlanInput {
                kind: InputKind::Other,
                name: "archive:"@ + output.name + ":tree"@,
                digest: tree,
            },
        ],
        ..model.plan
    };
    moved_on(
        model,
        with_operation(
            plan,
            model.authority,
            output,
            Action::PlaceTree {
                tree,
                provenance: Some(
                    Provenance { payload: payload.raw_digest, decoder: decoder_name(decoder) },
                ),
            },
        ),
    )
}

/// A component that made an output.
#[derive(Debug)]
pub struct ComponentUse<T = String> {
    pub node_id: T,
    pub name: T,
    pub digest: T,
}

impl View for ComponentUse<String> {
    type V = ComponentUse<Seq<char>>;

    open spec fn view(&self) -> ComponentUse<Seq<char>> {
        ComponentUse { node_id: self.node_id@, name: self.name@, digest: self.digest@ }
    }
}

/// What a transform gave back; `B`, `R` and `D` are the types of bytes and of the lists of
/// resources and diagnostics.
#[derive(Debug)]
pub struct TransformReply<
    T = String,
    B = Vec<u8>,
    R = Vec<TransformResource>,
    D = Vec<Diagnostic>,
> {
    /// The component that ran, where the transform is not built in.
    pub component: Option<ComponentUse<T>>,
    pub output: B,
    pub media_type: T,
    pub diagnostics: D,
    pub name: T,
    pub implementation: Implementation<T>,
    pub request_digest: T,
    pub document_digest: T,
    pub resources: R,
    pub response_digest: T,
}

/// What a reply holds.
pub type ReplyModel = TransformReply<
    Seq<char>,
    Seq<u8>,
    Seq<TransformResource<Seq<char>>>,
    Seq<DiagnosticModel>,
>;

impl View for TransformReply {
    type V = ReplyModel;

    open spec fn view(&self) -> ReplyModel {
        TransformReply {
            component: match self.component {
                Some(used) => Some(used@),
                None => None,
            },
            output: self.output@,
            media_type: self.media_type@,
            diagnostics: seqs::views(self.diagnostics@),
            name: self.name@,
            implementation: self.implementation@,
            request_digest: self.request_digest@,
            document_digest: self.document_digest@,
            resources: seqs::views(self.resources@),
            response_digest: self.response_digest@,
        }
    }
}

/// The provenance that a reply and its recorded diagnostics give.
pub open spec fn provenance_of(
    reply: ReplyModel,
    diagnostics: Seq<transform::RecordedDiagnosticModel>,
) -> ProvenanceModel {
    TransformProvenance {
        name: reply.name,
        implementation: reply.implementation,
        request_digest: reply.request_digest,
        document_digest: reply.document_digest,
        resources: reply.resources,
        response_digest: reply.response_digest,
        diagnostics,
    }
}

/// The inputs with the component that made an output, if one did.
pub open spec fn with_component(
    inputs: Seq<PlanInput<Seq<char>>>,
    component: Option<ComponentUse<Seq<char>>>,
) -> Seq<PlanInput<Seq<char>>> {
    match component {
        None => inputs,
        Some(used) => transform::component_input_added(
            inputs,
            used.node_id,
            used.name,
            used.digest,
        ),
    }
}

/// What follows a transform that ran.
pub open spec fn transform_taken(
    model: PlannerModel,
    executable: bool,
    reply: ReplyModel,
    documents: Seq<SourceDocument<Seq<char>>>,
) -> Result<PlannerModel, PrepareErrorModel> {
    let output = model.outputs[model.index];
    match transform::all_recorded(reply.diagnostics, documents) {
        Err(error) => Err(error),
        Ok(recorded) => match transform::provenance_added(
            model.plan.transforms,
            provenance_of(reply, recorded),
        ) {
            Err(error) => Err(error),
            Ok(transforms) => Ok(
                moved_on(
                    model,
                    with_placed_file(
                        RichPlanModel {
                            inputs: with_component(model.plan.inputs, reply.component),
                            findings: model.plan.findings + transform::diagnostic_findings(
                                output.name,
                                reply.diagnostics,
                            ),
                            transforms,
                            ..model.plan
                        },
                        model.authority,
                        output,
                        reply.output,
                        reply.media_type,
                        executable,
                    ),
                ),
            ),
        },
    }
}

/// The plan that a request starts with, or why it cannot: the request must be for the
/// assembled graph, and hold nothing but captured inputs and findings.
pub open spec fn started(
    requested_graph: Seq<char>,
    assembled_graph: Seq<char>,
    base: RichPlanModel,
    rich_ir: Result<Seq<char>, Seq<char>>,
    profile: Seq<char>,
    profile_digest: Seq<char>,
) -> Result<RichPlanModel, PrepareErrorModel> {
    if requested_graph != assembled_graph {
        Err(
            StaticPrepareError::GraphDigestMismatch {
                request: requested_graph,
                assembled: assembled_graph,
            },
        )
    } else if base.artifacts.len() > 0 || base.operations.len() > 0 || base.transforms.len() > 0 {
        Err(
            StaticPrepareError::InvalidConfig {
                detail:
                    "rich-output base request must contain only captured inputs and findings"@,
            },
        )
    } else {
        match rich_ir {
            Err(detail) => Err(StaticPrepareError::InvalidConfig { detail }),
            Ok(digest) => Ok(
                RichPlanModel {
                    inputs: base.inputs + seq![
                        PlanInput { kind: InputKind::Config, name: "rich-config-ir"@, digest },
                        PlanInput {
                            kind: InputKind::Other,
                            name: STATIC_PROFILE_INPUT_PREFIX@ + profile,
                            digest: profile_digest,
                        },
                    ],
                    ..base
                },
            ),
        }
    }
}

/// Starts the plan of a request.
pub fn start_plan(
    requested_graph: &str,
    assembled_graph: &str,
    base: RichPlan,
    rich_ir: Result<String, String>,
    profile: &str,
    profile_digest: &str,
) -> (plan: Result<RichPlan, StaticPrepareError>)
    ensures
        transform::outcome_view(plan) == started(
            requested_graph@,
            assembled_graph@,
            base@,
            match rich_ir {
                Ok(digest) => Ok(digest@),
                Err(detail) => Err(detail@),
            },
            profile@,
            profile_digest@,
        ),
{
    if !text_equal(requested_graph, assembled_graph) {
        return Err(
            StaticPrepareError::GraphDigestMismatch {
                request: requested_graph.to_owned(),
                assembled: assembled_graph.to_owned(),
            },
        );
    }
    if base.artifacts.len() > 0 || base.operations.len() > 0 || base.transforms.len() > 0 {
        return Err(
            StaticPrepareError::InvalidConfig {
                detail:
                    "rich-output base request must contain only captured inputs and findings".to_owned(),
            },
        );
    }
    let digest = match rich_ir {
        Ok(digest) => digest,
        Err(detail) => {
            return Err(StaticPrepareError::InvalidConfig { detail });
        },
    };
    let ghost start = base@;
    let mut plan = base;
    let first = plan_input(InputKind::Config, "rich-config-ir".to_owned(), digest.as_str());
    let second = plan_input(
        InputKind::Other,
        concat2(STATIC_PROFILE_INPUT_PREFIX, profile),
        profile_digest,
    );
    let ghost pair = seq![first@, second@];
    plan.inputs.push(first);
    plan.inputs.push(second);
    proof {
        assert(plan@.inputs =~= start.inputs + pair);
        assert(plan@ =~= (RichPlanModel { inputs: start.inputs + pair, ..start }));
    }
    Ok(plan)
}

/// The work that is left for an output.
#[derive(Debug, Clone, Copy, PartialEq, Eq, Structural)]
pub enum RichWork {
    /// Check the file at this place among those of the output, publish it, and take it up.
    File { output: usize, file: usize },
    /// Publish the symlink.
    Symlink { output: usize },
    /// Check that the tree is complete.
    Tree { output: usize },
    /// Decode the archive and publish its tree.
    Archive { output: usize },
    /// Run the transform.
    Transform { output: usize },
    /// Every output is planned.
    Finished,
}

/// The work that a state leaves.
pub open spec fn work_of(model: PlannerModel) -> RichWork {
    if model.index >= model.outputs.len() {
        RichWork::Finished
    } else if model.files < file_count(model.outputs[model.index]) {
        RichWork::File { output: model.index as usize, file: model.files as usize }
    } else {
        match model.outputs[model.index].kind {
            OutputKind::RegularFile { .. } => arbitrary(),
            OutputKind::Symlink { .. } => RichWork::Symlink { output: model.index as usize },
            OutputKind::CanonicalTree { .. } => RichWork::Tree { output: model.index as usize },
            OutputKind::DecodedArchive { .. } => RichWork::Archive { output: model.index as usize },
            OutputKind::TransformedFile { .. } => RichWork::Transform {
                output: model.index as usize,
            },
        }
    }
}

/// The artifact of an output stands among the artifacts.
pub open spec fn has_artifact(artifacts: Seq<ArtifactModel>, name: Seq<char>) -> bool {
    exists|k: int| 0 <= k < artifacts.len() && (#[trigger] artifacts[k]).id == rich_artifact(name)
}

/// An operation puts an output at its destination, as the output says that it is made: a file
/// has its artifact and its mode, a tree is the one that the output names.
pub open spec fn puts_output(
    operation: Operation<Seq<char>>,
    output: OutputModel,
    authority: Seq<char>,
    artifacts: Seq<ArtifactModel>,
) -> bool {
    &&& plan::acts_on(operation, authority, output.destination)
    &&& match operation.action {
        Action::PlaceFile { artifact, mode } => artifact == "rich/"@ + output.name && has_artifact(
            artifacts,
            output.name,
        ) && match output.kind {
            OutputKind::RegularFile { source: _, executable } => mode == if executable {
                0o755u32
            } else {
                0o644u32
            },
            OutputKind::TransformedFile { resources: _, executable } => mode == if executable {
                0o755u32
            } else {
                0o644u32
            },
            _ => false,
        },
        Action::PlaceSymlink { .. } => output.kind is Symlink,
        Action::PlaceTree { tree, provenance } => match output.kind {
            OutputKind::CanonicalTree { tree: wanted } => tree == wanted && provenance is None,
            OutputKind::DecodedArchive { payload, decoder: _, expected_tree } => tree
                == expected_tree && (provenance matches Some(from) && from.payload
                == payload.raw_digest),
            _ => false,
        },
        _ => false,
    }
}

/// The first so many outputs are planned: one operation for each, in their order.
pub open spec fn are_planned(model: PlannerModel) -> bool {
    &&& model.plan.operations.len() == model.index
    &&& forall|i: int|
        0 <= i < model.index ==> puts_output(
            #[trigger] model.plan.operations[i],
            model.outputs[i],
            model.authority,
            model.plan.artifacts,
        )
}

/// A state of the planner.
pub open spec fn is_planning(model: PlannerModel) -> bool {
    &&& 0 <= model.index <= model.outputs.len()
    &&& model.files >= 0
    &&& model.index < model.outputs.len() ==> model.files <= file_count(model.outputs[model.index])
        && (model.outputs[model.index].kind is RegularFile ==> model.files == 0)
    &&& are_planned(model)
}

proof fn lemma_plan_grows(before: PlannerModel, after: PlannerModel)
    requires
        is_planning(before),
        before.index < before.outputs.len(),
        after.outputs == before.outputs,
        after.authority == before.authority,
        after.index == before.index + 1,
        after.files == 0,
        before.plan.artifacts.is_prefix_of(after.plan.artifacts),
        after.plan.operations == before.plan.operations.push(
            after.plan.operations[before.index],
        ),
        puts_output(
            after.plan.operations[before.index],
            before.outputs[before.index],
            before.authority,
            after.plan.artifacts,
        ),
    ensures
        is_planning(after),
{
    assert forall|i: int| 0 <= i < after.index implies puts_output(
        #[trigger] after.plan.operations[i],
        after.outputs[i],
        after.authority,
        after.plan.artifacts,
    ) by {
        if i < before.index {
            let operation = before.plan.operations[i];
            assert(after.plan.operations[i] == operation);
            assert(puts_output(
                operation,
                before.outputs[i],
                before.authority,
                before.plan.artifacts,
            ));
            if has_artifact(before.plan.artifacts, before.outputs[i].name) {
                let k = choose|k: int|
                    0 <= k < before.plan.artifacts.len() && (
                    #[trigger] before.plan.artifacts[k]).id == rich_artifact(
                        before.outputs[i].name,
                    );
                assert(after.plan.artifacts[k] == before.plan.artifacts[k]);
            }
        }
    }
}

/// Plans the outputs of a configuration, one after the other.
#[derive(Debug)]
pub struct RichPlanner {
    authority: String,
    supported: ArchiveDecoder,
    outputs: Vec<Output>,
    plan: RichPlan,
    index: usize,
    files: usize,
}

impl RichPlanner {
    #[verifier::type_invariant]
    spec fn inv(self) -> bool {
        is_planning(self.state())
    }

    spec fn state(self) -> PlannerModel {
        PlannerModel {
            authority: self.authority@,
            supported: self.supported@,
            outputs: seqs::views(self.outputs@),
            plan: self.plan@,
            index: self.index as int,
            files: self.files as int,
        }
    }

    /// The state of the planner.
    pub closed spec fn model(self) -> PlannerModel {
        self.state()
    }

    /// Starts with a plan that holds no operation yet.
    pub fn new(
        authority: String,
        supported: ArchiveDecoder,
        outputs: Vec<Output>,
        plan: RichPlan,
    ) -> (planner: Self)
        requires
            plan@.operations.len() == 0,
        ensures
            planner.model() == (PlannerModel {
                authority: authority@,
                supported: supported@,
                outputs: seqs::views(outputs@),
                plan: plan@,
                index: 0,
                files: 0,
            }),
    {
        RichPlanner { authority, supported, outputs, plan, index: 0, files: 0 }
    }

    /// Returns the outputs.
    pub fn outputs(&self) -> (outputs: &Vec<Output>)
        ensures
            seqs::views(outputs@) == self.model().outputs,
    {
        &self.outputs
    }

    /// Tells what work is left next.
    pub fn next(&self) -> (work: RichWork)
        ensures
            is_planning(self.model()),
            work == work_of(self.model()),
    {
        proof {
            use_type_invariant(self);
        }
        if self.index >= self.outputs.len() {
            return RichWork::Finished;
        }
        let index: usize = self.index;
        proof {
            assert(self.state().outputs[index as int] == self.outputs@[index as int]@);
        }
        match &self.outputs[index].kind {
            OutputKind::RegularFile { .. } => RichWork::File { output: index, file: self.files },
            OutputKind::Symlink { .. } => RichWork::Symlink { output: index },
            OutputKind::CanonicalTree { .. } => RichWork::Tree { output: index },
            OutputKind::DecodedArchive { .. } => if self.files < 1 {
                RichWork::File { output: index, file: self.files }
            } else {
                RichWork::Archive { output: index }
            },
            OutputKind::TransformedFile { resources, executable: _ } => if self.files
                < resources.len() {
                RichWork::File { output: index, file: self.files }
            } else {
                RichWork::Transform { output: index }
            },
        }
    }

    /// Takes up a file that was checked and published.
    pub fn supply_file(self, bytes: Vec<u8>) -> (next: Result<Self, StaticPrepareError>)
        requires
            work_of(self.model()) is File,
            self.model().index < self.model().outputs.len(),
            self.model().files < file_count(self.model().outputs[self.model().index]),
        ensures
            planned_view(next) == file_taken(self.model(), bytes@),
    {
        proof {
            use_type_invariant(&self);
        }
        let ghost before = self.state();
        let RichPlanner { authority, supported, outputs, plan, index, files } = self;
        let mut plan = plan;
        assert(index < outputs.len());
        let ghost output = before.outputs[before.index];
        proof {
            assert(output == outputs@[index as int]@);
        }
        let ghost (wanted, wanted_name) = file_at(output, before.files);
        match &outputs[index].kind {
            OutputKind::RegularFile { source, executable } => {
                let name = &outputs[index].name;
                add_file_inputs(&mut plan, source, name.as_str());
                let ghost listed = plan@;
                let executable: bool = *executable;
                place_file(
                    &mut plan,
                    authority.as_str(),
                    &outputs[index],
                    bytes,
                    "application/octet-stream".to_owned(),
                    executable,
                );
                let ghost after = moved_on(before, plan@);
                proof {
                    assert(listed =~= (RichPlanModel {
                        inputs: before.plan.inputs + file_inputs(wanted, wanted_name),
                        ..before.plan
                    }));
                    let artifacts = plan@.artifacts;
                    assert(artifacts.take(before.plan.artifacts.len() as int)
                        =~= before.plan.artifacts);
                    assert(artifacts[before.plan.artifacts.len() as int].id == rich_artifact(
                        output.name,
                    ));
                    lemma_plan_grows(before, after);
                }
                Ok(RichPlanner { authority, supported, outputs, plan, index: index + 1, files: 0 })
            },
            OutputKind::DecodedArchive { payload, decoder, expected_tree: _ } => {
                add_file_inputs(&mut plan, payload, outputs[index].name.as_str());
                match validate_archive_decoder(decoder, &supported) {
                    Err(error) => Err(error),
                    Ok(_) => Ok(
                        RichPlanner { authority, supported, outputs, plan, index, files: files + 1 },
                    ),
                }
            },
            OutputKind::TransformedFile { resources, executable: _ } => {
                assert(files < resources.len());
                let resource = &resources[files];
                let use_name = concat3(
                    outputs[index].name.as_str(),
                    ":",
                    resource.name.as_str(),
                );
                proof {
                    assert(seqs::views(resources@)[files as int] == resource@);
                }
                add_file_inputs(&mut plan, &resource.source, use_name.as_str());
                Ok(RichPlanner { authority, supported, outputs, plan, index, files: files + 1 })
            },
            _ => {
                proof {
                    assert(false);
                }
                Ok(RichPlanner { authority, supported, outputs, plan, index, files })
            },
        }
    }

    /// Takes up a symlink that was published, by the digest of its object.
    pub fn supply_symlink(self, object: String) -> (next: Self)
        requires
            self.model().index < self.model().outputs.len(),
            self.model().outputs[self.model().index].kind is Symlink,
        ensures
            next.model() == symlink_taken(self.model(), object@),
    {
        proof {
            use_type_invariant(&self);
        }
        let ghost before = self.state();
        let RichPlanner { authority, supported, outputs, plan, index, files: _ } = self;
        let mut plan = plan;
        assert(index < outputs.len());
        let ghost viewed = Action::PlaceSymlink { object: object@ };
        proof {
            assert(before.outputs[before.index] == outputs@[index as int]@);
        }
        place(&mut plan, authority.as_str(), &outputs[index], Action::PlaceSymlink { object });
        proof {
            assert(plan@.artifacts.take(before.plan.artifacts.len() as int)
                =~= before.plan.artifacts);
            lemma_plan_grows(before, moved_on(before, plan@));
        }
        RichPlanner { authority, supported, outputs, plan, index: index + 1, files: 0 }
    }

    /// Takes up a tree that was found complete.
    pub fn supply_tree(self) -> (next: Self)
        requires
            self.model().index < self.model().outputs.len(),
            self.model().outputs[self.model().index].kind is CanonicalTree,
        ensures
            self.model().outputs[self.model().index].kind matches OutputKind::CanonicalTree { tree }
                ==> next.model() == tree_taken(self.model(), tree),
    {
        proof {
            use_type_invariant(&self);
        }
        let ghost before = self.state();
        let RichPlanner { authority, supported, outputs, plan, index, files } = self;
        let mut plan = plan;
        assert(index < outputs.len());
        proof {
            assert(before.outputs[before.index] == outputs@[index as int]@);
        }
        match &outputs[index].kind {
            OutputKind::CanonicalTree { tree } => {
                let tree = tree.clone();
                place(
                    &mut plan,
                    authority.as_str(),
                    &outputs[index],
                    Action::PlaceTree { tree, provenance: None },
                );
                proof {
                    assert(plan@.artifacts.take(before.plan.artifacts.len() as int)
                        =~= before.plan.artifacts);
                    lemma_plan_grows(before, moved_on(before, plan@));
                }
                RichPlanner { authority, supported, outputs, plan, index: index + 1, files: 0 }
            },
            _ => {
                proof {
                    assert(false);
                }
                RichPlanner { authority, supported, outputs, plan, index, files }
            },
        }
    }

    /// Takes up an archive that was decoded into its expected tree and published.
    pub fn supply_archive(self, decoder_digest: String) -> (next: Self)
        requires
            self.model().index < self.model().outputs.len(),
            self.model().outputs[self.model().index].kind is DecodedArchive,
        ensures
            self.model().outputs[self.model().index].kind matches OutputKind::DecodedArchive {
                payload,
                decoder,
                expected_tree,
            } ==> next.model() == archive_taken(
                self.model(),
                payload,
                decoder,
                expected_tree,
                decoder_digest@,
            ),
    {
        proof {
            use_type_invariant(&self);
        }
        let ghost before = self.state();
        let RichPlanner { authority, supported, outputs, plan, index, files } = self;
        let mut plan = plan;
        assert(index < outputs.len());
        let ghost output = before.outputs[before.index];
        proof {
            assert(output == outputs@[index as int]@);
        }
        match &outputs[index].kind {
            OutputKind::DecodedArchive { payload, decoder, expected_tree } => {
                let name = outputs[index].name.as_str();
                let first = plan_input(
                    InputKind::Other,
                    concat3("archive:", name, ":decoder"),
                    decoder_digest.as_str(),
                );
                let second = plan_input(
                    InputKind::Other,
                    concat3("archive:", name, ":tree"),
                    expected_tree.as_str(),
                );
                let ghost pair = seq![first@, second@];
                plan.inputs.push(first);
                plan.inputs.push(second);
                let ghost listed = plan@;
                let version = decimal_text(decoder.version as u64);
                let provenance = Provenance {
                    payload: payload.raw_digest.clone(),
                    decoder: concat3(decoder.name.as_str(), "/v", version.as_str()),
                };
                place(
                    &mut plan,
                    authority.as_str(),
                    &outputs[index],
                    Action::PlaceTree {
                        tree: expected_tree.clone(),
                        provenance: Some(provenance),
                    },
                );
                proof {
                    assert(listed.inputs =~= before.plan.inputs + pair);
                    assert(listed =~= (RichPlanModel {
                        inputs: before.plan.inputs + pair,
                        ..before.plan
                    }));
                    assert(plan@.artifacts.take(before.plan.artifacts.len() as int)
                        =~= before.plan.artifacts);
                    lemma_plan_grows(before, moved_on(before, plan@));
                }
                RichPlanner { authority, supported, outputs, plan, index: index + 1, files: 0 }
            },
            _ => {
                proof {
                    assert(false);
                }
                RichPlanner { authority, supported, outputs, plan, index, files }
            },
        }
    }

    /// Takes up what a transform gave back.
    pub fn supply_transform(self, reply: TransformReply, documents: &Vec<SourceDocument>) -> (next:
        Result<Self, StaticPrepareError>)
        requires
            self.model().index < self.model().outputs.len(),
            self.model().outputs[self.model().index].kind is TransformedFile,
        ensures
            self.model().outputs[self.model().index].kind matches OutputKind::TransformedFile {
                resources: _,
                executable,
            } ==> planned_view(next) == transform_taken(
                self.model(),
                executable,
                reply@,
                seqs::views(documents@),
            ),
    {
        proof {
            use_type_invariant(&self);
        }
        let ghost before = self.state();
        let RichPlanner { authority, supported, outputs, plan, index, files } = self;
        let mut plan = plan;
        assert(index < outputs.len());
        let ghost output = before.outputs[before.index];
        let ghost given = reply@;
        proof {
            assert(output == outputs@[index as int]@);
        }
        let executable: bool = match &outputs[index].kind {
            OutputKind::TransformedFile { resources: _, executable } => *executable,
            _ => {
                proof {
                    assert(false);
                }
                false
            },
        };
        let TransformReply {
            component,
            output: bytes,
            media_type,
            diagnostics,
            name,
            implementation,
            request_digest,
            document_digest,
            resources,
            response_digest,
        } = reply;
        match &component {
            Some(used) => add_component_input(
                &mut plan.inputs,
                used.node_id.as_str(),
                used.name.as_str(),
                used.digest.as_str(),
            ),
            None => {},
        }
        append_transform_findings(&mut plan.findings, outputs[index].name.as_str(), &diagnostics);
        let recorded = match record_diagnostics(&diagnostics, documents) {
            Ok(recorded) => recorded,
            Err(error) => {
                return Err(error);
            },
        };
        let provenance = TransformProvenance {
            name,
            implementation,
            request_digest,
            document_digest,
            resources,
            response_digest,
            diagnostics: recorded,
        };
        proof {
            assert(provenance@ == provenance_of(given, seqs::views(recorded@)));
        }
        match append_transform_provenance(&mut plan.transforms, provenance) {
            Ok(_) => {},
            Err(error) => {
                return Err(error);
            },
        }
        let ghost listed = plan@;
        place_file(&mut plan, authority.as_str(), &outputs[index], bytes, media_type, executable);
        proof {
            let artifacts = plan@.artifacts;
            assert(listed.artifacts == before.plan.artifacts);
            assert(artifacts.take(before.plan.artifacts.len() as int) =~= before.plan.artifacts);
            assert(artifacts[before.plan.artifacts.len() as int].id == rich_artifact(output.name));
            lemma_plan_grows(before, moved_on(before, plan@));
        }
        Ok(RichPlanner { authority, supported, outputs, plan, index: index + 1, files: 0 })
    }

    /// Returns the finished plan: it puts every output at its destination, in their order.
    pub fn into_plan(self) -> (plan: RichPlan)
        requires
            self.model().index == self.model().outputs.len(),
        ensures
            plan@ == self.model().plan,
            plan@.operations.len() == self.model().outputs.len(),
            forall|i: int|
                0 <= i < self.model().outputs.len() ==> puts_output(
                    #[trigger] plan@.operations[i],
                    self.model().outputs[i],
                    self.model().authority,
                    plan@.artifacts,
                ),
    {
        proof {
            use_type_invariant(&self);
        }
        self.plan
    }
}

/// What was planned, as contracts speak of it.
pub open spec fn planned_view(next: Result<RichPlanner, StaticPrepareError>) -> Result<
    PlannerModel,
    PrepareErrorModel,
> {
    match next {
        Ok(planner) => Ok(planner.model()),
        Err(error) => Err(error@),
    }
}

fn add_file_inputs(plan: &mut RichPlan, reference: &FileReference, use_name: &str)
    ensures
        final(plan)@ == (RichPlanModel {
            inputs: old(plan)@.inputs + file_inputs(reference@, use_name@),
            ..old(plan)@
        }),
{
    let ghost before = plan@;
    let raw = plan_input(
        InputKind::Asset,
        concat3("pack-file:", use_name, ":raw"),
        reference.raw_digest.as_str(),
    );
    let object = plan_input(
        InputKind::Other,
        concat3("pack-file:", use_name, ":object"),
        reference.object_digest.as_str(),
    );
    let ghost pair = seq![raw@, object@];
    plan.inputs.push(raw);
    plan.inputs.push(object);
    proof {
        assert(pair =~= file_inputs(reference@, use_name@));
        assert(plan@.inputs =~= before.inputs + pair);
        assert(plan@ =~= (RichPlanModel { inputs: before.inputs + pair, ..before }));
    }
}

fn place(plan: &mut RichPlan, authority: &str, output: &Output, action: Action)
    ensures
        final(plan)@ == with_operation(old(plan)@, authority@, output@, action@),
{
    let ghost before = plan@;
    let operation = Operation {
        authority: authority.to_owned(),
        relative_path: output.destination.clone(),
        action,
    };
    let ghost viewed = operation@;
    plan.operations.push(operation);
    proof {
        assert(plan@.operations =~= before.operations.push(viewed));
        assert(plan@ =~= (RichPlanModel {
            operations: before.operations.push(viewed),
            ..before
        }));
    }
}

fn place_file(
    plan: &mut RichPlan,
    authority: &str,
    output: &Output,
    bytes: Vec<u8>,
    media_type: String,
    executable: bool,
)
    ensures
        final(plan)@ == with_placed_file(
            old(plan)@,
            authority@,
            output@,
            bytes@,
            media_type@,
            executable,
        ),
{
    let ghost before = plan@;
    let id = concat2("rich/", output.name.as_str());
    let named = id.clone();
    let artifact = Artifact { id, bytes, media_type };
    let ghost viewed = artifact@;
    plan.artifacts.push(artifact);
    let ghost listed = plan@;
    proof {
        assert(listed.artifacts =~= before.artifacts.push(viewed));
        assert(listed =~= (RichPlanModel { artifacts: before.artifacts.push(viewed), ..before }));
    }
    let mode: u32 = if executable {
        0o755
    } else {
        0o644
    };
    place(plan, authority, output, Action::PlaceFile { artifact: named, mode });
}

/// What was done of the work that is left for an output, as contracts speak of it.
pub enum Supply {
    File { bytes: Seq<u8> },
    Symlink { object: Seq<char> },
    Tree,
    Archive { decoder_digest: Seq<char> },
    Transform { reply: ReplyModel, documents: Seq<SourceDocument<Seq<char>>> },
}

/// What was done is what the current output is made by.
pub open spec fn is_awaited(model: PlannerModel, supply: Supply) -> bool {
    &&& 0 <= model.index < model.outputs.len()
    &&& match (supply, model.outputs[model.index].kind) {
        (Supply::File { .. }, OutputKind::RegularFile { .. }) => true,
        (Supply::File { .. }, OutputKind::DecodedArchive { .. }) => true,
        (Supply::File { .. }, OutputKind::TransformedFile { .. }) => true,
        (Supply::Symlink { .. }, OutputKind::Symlink { .. }) => true,
        (Supply::Tree, OutputKind::CanonicalTree { .. }) => true,
        (Supply::Archive { .. }, OutputKind::DecodedArchive { .. }) => true,
        (Supply::Transform { .. }, OutputKind::TransformedFile { .. }) => true,
        _ => false,
    }
}

/// The state after some of the work was done.
pub open spec fn supplied(model: PlannerModel, supply: Supply) -> Result<
    PlannerModel,
    PrepareErrorModel,
> {
    match (supply, model.outputs[model.index].kind) {
        (Supply::File { bytes }, _) => file_taken(model, bytes),
        (Supply::Symlink { object }, _) => Ok(symlink_taken(model, object)),
        (Supply::Tree, OutputKind::CanonicalTree { tree }) => Ok(tree_taken(model, tree)),
        (
            Supply::Archive { decoder_digest },
            OutputKind::DecodedArchive { payload, decoder, expected_tree },
        ) => Ok(archive_taken(model, payload, decoder, expected_tree, decoder_digest)),
        (
            Supply::Transform { reply, documents },
            OutputKind::TransformedFile { resources: _, executable },
        ) => transform_taken(model, executable, reply, documents),
        _ => Ok(model),
    }
}

/// The state after all of the work, step by step; nothing where a step failed or was not what
/// the current output is made by.
pub open spec fn all_supplied(model: PlannerModel, supplies: Seq<Supply>) -> Option<PlannerModel>
    decreases supplies.len(),
{
    if supplies.len() == 0 {
        Some(model)
    } else {
        match all_supplied(model, supplies.drop_last()) {
            None => None,
            Some(before) => if is_awaited(before, supplies.last()) {
                match supplied(before, supplies.last()) {
                    Ok(after) => Some(after),
                    Err(_) => None,
                }
            } else {
                None
            },
        }
    }
}

/// An artifact of a plan has the name of an output and these bytes.
pub open spec fn holds_bytes(
    artifacts: Seq<ArtifactModel>,
    name: Seq<char>,
    bytes: Seq<u8>,
    media_type: Seq<char>,
) -> bool {
    exists|k: int|
        0 <= k < artifacts.len() && (#[trigger] artifacts[k]).id == "rich/"@ + name
            && artifacts[k].bytes == bytes && artifacts[k].media_type == media_type
}

/// The bytes of a plain file are deployed: once its file is supplied, the operation that is added
/// places it at its destination, with its mode, from an artifact that holds exactly the supplied
/// bytes.
pub proof fn lemma_supplied_file_is_deployed(model: PlannerModel, bytes: Seq<u8>)
    requires
        0 <= model.index < model.outputs.len(),
        model.outputs[model.index].kind is RegularFile,
    ensures
        file_taken(model, bytes) matches Ok(next) && {
            let output = model.outputs[model.index];
            &&& next.index == model.index + 1
            &&& next.plan.artifacts.len() == model.plan.artifacts.len() + 1
            &&& next.plan.operations.len() == model.plan.operations.len() + 1
            &&& next.plan.artifacts.last().bytes == bytes
            &&& next.plan.artifacts.last().id == "rich/"@ + output.name
            &&& next.plan.artifacts.last().media_type == "application/octet-stream"@
            &&& next.plan.operations.last().authority == model.authority
            &&& next.plan.operations.last().relative_path == output.destination
            &&& next.plan.operations.last().action matches Action::PlaceFile { artifact, mode }
                && artifact == next.plan.artifacts.last().id && (output.kind
                matches OutputKind::RegularFile { source: _, executable } && mode == if executable {
                0o755u32
            } else {
                0o644u32
            })
            &&& next.plan.findings == model.plan.findings
            &&& next.plan.transforms == model.plan.transforms
        },
{
}

/// Every file of a pack that goes into an output is told of among the inputs, by the digest of
/// its bytes and the digest of its object, under the name of its use. A transform gets its
/// resources in their order.
pub proof fn lemma_used_files_are_inputs(model: PlannerModel, bytes: Seq<u8>)
    requires
        is_awaited(model, Supply::File { bytes }),
        0 <= model.files < file_count(model.outputs[model.index]),
        file_taken(model, bytes) is Ok,
    ensures
        ({
            let output = model.outputs[model.index];
            let before = model.plan.inputs;
            let after = file_taken(model, bytes)->Ok_0.plan.inputs;
            let raw = after[before.len() as int];
            let object = after[before.len() as int + 1];
            let (source, use_name) = match output.kind {
                OutputKind::RegularFile { source, executable: _ } => (source, output.name),
                OutputKind::DecodedArchive { payload, decoder: _, expected_tree: _ } => (
                    payload,
                    output.name,
                ),
                OutputKind::TransformedFile { resources, executable: _ } => (
                    resources[model.files].source,
                    output.name + ":"@ + resources[model.files].name,
                ),
                _ => arbitrary(),
            };
            &&& after.len() == before.len() + 2
            &&& before.is_prefix_of(after)
            &&& raw.kind is Asset
            &&& raw.digest == source.raw_digest
            &&& raw.name == "pack-file:"@ + use_name + ":raw"@
            &&& object.kind is Other
            &&& object.digest == source.object_digest
            &&& object.name == "pack-file:"@ + use_name + ":object"@
        }),
{
}

/// A symlink, a tree, an archive and the output of a transform are deployed as they were
/// supplied: the added operation names the published object, the tree of the output, or the
/// expected tree with the payload and the decoder that it came from; the bytes of a transform
/// are those of its reply, under its media type.
pub proof fn lemma_other_outputs_are_deployed(model: PlannerModel, supply: Supply)
    requires
        is_awaited(model, supply),
        supply !is File,
        supplied(model, supply) is Ok,
    ensures
        ({
            let output = model.outputs[model.index];
            let next = supplied(model, supply)->Ok_0;
            let operation = next.plan.operations.last();
            &&& next.index == model.index + 1
            &&& next.plan.operations.len() == model.plan.operations.len() + 1
            &&& operation.authority == model.authority
            &&& operation.relative_path == output.destination
            &&& match supply {
                Supply::File { .. } => false,
                Supply::Symlink { object } => operation.action matches Action::PlaceSymlink {
                    object: put,
                } && put == object && next.plan.artifacts == model.plan.artifacts
                    && next.plan.inputs == model.plan.inputs,
                Supply::Tree => operation.action matches Action::PlaceTree { tree: put, provenance }
                    && provenance is None && (output.kind matches OutputKind::CanonicalTree { tree }
                    && put == tree) && next.plan.artifacts == model.plan.artifacts
                    && next.plan.inputs == model.plan.inputs,
                Supply::Archive { decoder_digest } => {
                    &&& next.plan.artifacts == model.plan.artifacts
                    &&& next.plan.inputs.len() == model.plan.inputs.len() + 2
                    &&& next.plan.inputs[model.plan.inputs.len() as int].digest == decoder_digest
                    &&& next.plan.inputs[model.plan.inputs.len() as int].name == "archive:"@
                        + output.name + ":decoder"@
                    &&& next.plan.inputs.last().name == "archive:"@ + output.name + ":tree"@
                    &&& operation.action matches Action::PlaceTree { tree: put, provenance } && (
                    output.kind matches OutputKind::DecodedArchive {
                        payload,
                        decoder,
                        expected_tree,
                    } && put == expected_tree && next.plan.inputs.last().digest == expected_tree
                        && (provenance matches Some(from) && from.payload == payload.raw_digest
                        && from.decoder == decoder.name + "/v"@ + text::decimal(
                        decoder.version as nat,
                    )))
                },
                Supply::Transform { reply, documents: _ } => {
                    &&& next.plan.artifacts.len() == model.plan.artifacts.len() + 1
                    &&& next.plan.artifacts.last().bytes == reply.output
                    &&& next.plan.artifacts.last().media_type == reply.media_type
                    &&& next.plan.artifacts.last().id == "rich/"@ + output.name
                    &&& next.plan.findings.len() == model.plan.findings.len()
                        + reply.diagnostics.len()
                    &&& exists|t: int|
                        0 <= t < next.plan.transforms.len() && (
                        #[trigger] next.plan.transforms[t]).request_digest == reply.request_digest
                            && next.plan.transforms[t].response_digest == reply.response_digest
                            && next.plan.transforms[t].document_digest == reply.document_digest
                            && next.plan.transforms[t].resources == reply.resources
                            && next.plan.transforms[t].name == reply.name
                            && next.plan.transforms[t].implementation == reply.implementation
                    &&& operation.action matches Action::PlaceFile { artifact, mode } && artifact
                        == next.plan.artifacts.last().id && (output.kind
                        matches OutputKind::TransformedFile { resources: _, executable } && mode
                        == if executable {
                        0o755u32
                    } else {
                        0o644u32
                    })
                },
            }
        }),
{
    if let Supply::Transform { reply, documents } = supply {
        let recorded = transform::all_recorded(reply.diagnostics, documents)->Ok_0;
        let added = provenance_of(reply, recorded);
        let next = supplied(model, supply)->Ok_0;
        transform::lemma_added_provenance_stands(model.plan.transforms, added);
        let t = choose|t: int|
            0 <= t < next.plan.transforms.len() && #[trigger] next.plan.transforms[t] == added;
        assert(next.plan.transforms[t].request_digest == reply.request_digest);
    }
}

/// No step takes back what was planned before it: operations, artifacts, inputs, findings and
/// provenances only grow. The outputs and their authority stay, and the planner goes on to the
/// next file or the next output, never further.
pub proof fn lemma_steps_keep_what_is_planned(model: PlannerModel, supply: Supply)
    requires
        is_awaited(model, supply),
        supplied(model, supply) is Ok,
    ensures
        ({
            let next = supplied(model, supply)->Ok_0;
            &&& next.outputs == model.outputs
            &&& next.authority == model.authority
            &&& next.supported == model.supported
            &&& model.plan.operations.is_prefix_of(next.plan.operations)
            &&& model.plan.artifacts.is_prefix_of(next.plan.artifacts)
            &&& model.plan.inputs.is_prefix_of(next.plan.inputs)
            &&& model.plan.findings.is_prefix_of(next.plan.findings)
            &&& model.plan.transforms.is_prefix_of(next.plan.transforms)
            &&& next.plan.operations.len() - model.plan.operations.len() == next.index
                - model.index
            &&& (next.index == model.index && next.files == model.files + 1) || (next.index
                == model.index + 1 && next.files == 0)
        }),
{
    if let Supply::Transform { reply, documents } = supply {
        let recorded = transform::all_recorded(reply.diagnostics, documents)->Ok_0;
        transform::lemma_added_provenance_stands(
            model.plan.transforms,
            provenance_of(reply, recorded),
        );
    }
}

proof fn lemma_runs_keep_what_is_planned(model: PlannerModel, supplies: Seq<Supply>, count: int)
    requires
        all_supplied(model, supplies) is Some,
        0 <= count <= supplies.len(),
    ensures
        all_supplied(model, supplies.take(count)) is Some,
        all_supplied(model, supplies.take(count))->Some_0.plan.artifacts.is_prefix_of(
            all_supplied(model, supplies)->Some_0.plan.artifacts,
        ),
        all_supplied(model, supplies.take(count))->Some_0.plan.operations.is_prefix_of(
            all_supplied(model, supplies)->Some_0.plan.operations,
        ),
    decreases supplies.len() - count,
{
    if count == supplies.len() {
        assert(supplies.take(count) =~= supplies);
    } else {
        let before = supplies.drop_last();
        lemma_runs_keep_what_is_planned(model, before, count);
        assert(before.take(count) =~= supplies.take(count));
        lemma_steps_keep_what_is_planned(all_supplied(model, before)->Some_0, supplies.last());
    }
}

/// Whatever else is planned later, the plan holds what was supplied for a plain file: an artifact
/// under the name of its output has exactly these bytes, and the operation of the output names
/// that artifact.
pub proof fn lemma_plan_holds_the_supplied_file(
    model: PlannerModel,
    supplies: Seq<Supply>,
    step: int,
)
    requires
        all_supplied(model, supplies) is Some,
        0 <= step < supplies.len(),
        supplies[step] is File,
        ({
            let at = all_supplied(model, supplies.take(step))->Some_0;
            at.outputs[at.index].kind is RegularFile
        }),
    ensures
        ({
            let at = all_supplied(model, supplies.take(step))->Some_0;
            let plan = all_supplied(model, supplies)->Some_0.plan;
            let output = at.outputs[at.index];
            let place = at.plan.operations.len() as int;
            &&& holds_bytes(
                plan.artifacts,
                output.name,
                supplies[step]->File_bytes,
                "application/octet-stream"@,
            )
            &&& place < plan.operations.len()
            &&& plan.operations[place].relative_path == output.destination
            &&& plan.operations[place].action matches Action::PlaceFile { artifact, mode: _ }
                && artifact == "rich/"@ + output.name
        }),
{
    lemma_runs_keep_what_is_planned(model, supplies, step);
    lemma_runs_keep_what_is_planned(model, supplies, step + 1);
    let until = supplies.take(step + 1);
    assert(until.drop_last() =~= supplies.take(step));
    assert(until.last() == supplies[step]);
    let at = all_supplied(model, supplies.take(step))->Some_0;
    let bytes = supplies[step]->File_bytes;
    lemma_supplied_file_is_deployed(at, bytes);
    let next = all_supplied(model, until)->Some_0;
    let plan = all_supplied(model, supplies)->Some_0.plan;
    let k = at.plan.artifacts.len() as int;
    assert(plan.artifacts[k] == next.plan.artifacts[k]);
    let place = at.plan.operations.len() as int;
    assert(plan.operations[place] == next.plan.operations[place]);
}

/// The work that is named is what the current output still needs: a file for each that goes into
/// it, in their order, and then its own work. Nothing is named only when every output is planned.
pub proof fn lemma_work_is_what_is_missing(model: PlannerModel)
    requires
        is_planning(model),
        model.outputs.len() <= usize::MAX,
        forall|i: int|
            0 <= i < model.outputs.len() ==> file_count(#[trigger] model.outputs[i]) <= usize::MAX,
    ensures
        work_of(model) is Finished <==> model.index == model.outputs.len(),
        model.index < model.outputs.len() ==> match model.outputs[model.index].kind {
            OutputKind::RegularFile { .. } => work_of(model) matches RichWork::File { output, file }
                && output == model.index && file == 0,
            OutputKind::Symlink { .. } => work_of(model) matches RichWork::Symlink { output }
                && output == model.index,
            OutputKind::CanonicalTree { .. } => work_of(model) matches RichWork::Tree { output }
                && output == model.index,
            OutputKind::DecodedArchive { .. } => match work_of(model) {
                RichWork::File { output, file } => output == model.index && file == 0
                    && model.files == 0,
                RichWork::Archive { output } => output == model.index && model.files == 1,
                _ => false,
            },
            OutputKind::TransformedFile { resources, executable: _ } => match work_of(model) {
                RichWork::File { output, file } => output == model.index && file == model.files
                    && file < resources.len(),
                RichWork::Transform { output } => output == model.index && model.files
                    == resources.len(),
                _ => false,
            },
        },
{
}

/// A plan starts only for the assembled graph and without anything planned, and tells of the
/// evaluated configuration and of the profile, behind the captured inputs.
pub proof fn lemma_plan_starts_with_what_was_captured(
    requested_graph: Seq<char>,
    assembled_graph: Seq<char>,
    base: RichPlanModel,
    rich_ir: Result<Seq<char>, Seq<char>>,
    profile: Seq<char>,
    profile_digest: Seq<char>,
)
    ensures
        ({
            let plan = started(
                requested_graph,
                assembled_graph,
                base,
                rich_ir,
                profile,
                profile_digest,
            );
            let count = base.inputs.len() as int;
            &&& plan is Ok <==> requested_graph == assembled_graph && base.artifacts.len() == 0
                && base.operations.len() == 0 && base.transforms.len() == 0 && rich_ir is Ok
            &&& plan matches Ok(started) ==> {
                &&& started.artifacts.len() == 0
                &&& started.operations.len() == 0
                &&& started.transforms.len() == 0
                &&& started.findings == base.findings
                &&& base.inputs.is_prefix_of(started.inputs)
                &&& started.inputs.len() == count + 2
                &&& started.inputs[count].kind is Config
                &&& rich_ir == Ok::<Seq<char>, Seq<char>>(started.inputs[count].digest)
                &&& started.inputs[count + 1].kind is Other
                &&& started.inputs[count + 1].digest == profile_digest
                &&& started.inputs[count + 1].name == STATIC_PROFILE_INPUT_PREFIX@ + profile
            }
        }),
{
}

} // verus!
