//! Requests for locking a graph and for preparing a static deployment from it.

use vstd::prelude::*;

use crate::error::GitSource;
use crate::git::config::GitAcquisitionConfig;
use crate::graph_acquisition::GraphNode;
use crate::graph_sources::LockSource;
use crate::prepare_error::StaticDeploymentPrepareError;
use crate::seqs;
use crate::store_types::LockFilePublication;

verus! {

/// A scratch directory of the caller for a missing pack; `T` is the type of text and `B` that
/// of paths.
#[derive(Clone, Debug, PartialEq, Eq)]
pub struct PackScratch<T = String, B = Vec<u8>> {
    /// Digest of the missing pack.
    pub digest: T,
    pub root: B,
}

impl View for PackScratch<String, Vec<u8>> {
    type V = PackScratch<Seq<char>, Seq<u8>>;

    open spec fn view(&self) -> PackScratch<Seq<char>, Seq<u8>> {
        PackScratch { digest: self.digest@, root: self.root@ }
    }
}

/// A scratch directory of the caller for a Git source; `T` is the type of text and `B` that of
/// paths.
#[derive(Clone, Debug, PartialEq, Eq)]
pub struct SourceScratch<T = String, B = Vec<u8>> {
    pub source: GitSource<T>,
    pub root: B,
}

impl View for SourceScratch<String, Vec<u8>> {
    type V = SourceScratch<Seq<char>, Seq<u8>>;

    open spec fn view(&self) -> SourceScratch<Seq<char>, Seq<u8>> {
        SourceScratch { source: self.source@, root: self.root@ }
    }
}

/// Explicit filesystem and network grants for complete lock acquisition. Two of them are equal
/// where they list the same grants in the same order.
#[derive(Clone, Debug, PartialEq, Eq)]
pub struct GraphAcquisitionInputs {
    local_locators: Vec<String>,
    git_urls: Vec<String>,
    git_scratch_roots: Vec<PackScratch>,
}

impl Default for GraphAcquisitionInputs {
    fn default() -> (inputs: Self)
        ensures
            inputs.granted_locators() == Seq::<String>::empty(),
            inputs.granted_urls() == Seq::<String>::empty(),
            inputs.granted_scratch() == Seq::<PackScratch>::empty(),
    {
        GraphAcquisitionInputs {
            local_locators: Vec::new(),
            git_urls: Vec::new(),
            git_scratch_roots: Vec::new(),
        }
    }
}

impl GraphAcquisitionInputs {
    /// The granted locators.
    pub closed spec fn granted_locators(self) -> Seq<String> {
        self.local_locators@
    }

    /// The granted URLs.
    pub closed spec fn granted_urls(self) -> Seq<String> {
        self.git_urls@
    }

    /// The granted scratch directories.
    pub closed spec fn granted_scratch(self) -> Seq<PackScratch> {
        self.git_scratch_roots@
    }

    /// Creates a complete explicit authority set for one acquisition request.
    pub fn new(
        local_locators: Vec<String>,
        git_urls: Vec<String>,
        git_scratch_roots: Vec<PackScratch>,
    ) -> (inputs: Self)
        ensures
            inputs.granted_locators() == local_locators@,
            inputs.granted_urls() == git_urls@,
            inputs.granted_scratch() == git_scratch_roots@,
    {
        GraphAcquisitionInputs { local_locators, git_urls, git_scratch_roots }
    }

    /// Returns the exact root-relative local authorities.
    pub fn local_locators(&self) -> (locators: &Vec<String>)
        ensures
            locators@ == self.granted_locators(),
    {
        &self.local_locators
    }

    /// Returns normalized HTTPS authorities approved for Git access.
    pub fn git_urls(&self) -> (urls: &Vec<String>)
        ensures
            urls@ == self.granted_urls(),
    {
        &self.git_urls
    }

    /// Returns caller-owned scratch roots by missing pack digest.
    pub fn git_scratch_roots(&self) -> (roots: &Vec<PackScratch>)
        ensures
            roots@ == self.granted_scratch(),
    {
        &self.git_scratch_roots
    }
}

/// Explicit authorities used while discovering a new complete lock graph. Two of them are equal
/// where they list the same grants in the same order.
#[derive(Clone, Debug, PartialEq, Eq)]
pub struct LockResolutionInputs {
    local_locators: Vec<String>,
    git_urls: Vec<String>,
    git_scratch_roots: Vec<SourceScratch>,
    format_component_execution_profile: Option<String>,
}

impl Default for LockResolutionInputs {
    fn default() -> (inputs: Self)
        ensures
            inputs.granted_locators() == Seq::<String>::empty(),
            inputs.granted_urls() == Seq::<String>::empty(),
            inputs.granted_scratch() == Seq::<SourceScratch>::empty(),
            inputs.profile() is None,
    {
        LockResolutionInputs {
            local_locators: Vec::new(),
            git_urls: Vec::new(),
            git_scratch_roots: Vec::new(),
            format_component_execution_profile: None,
        }
    }
}

impl LockResolutionInputs {
    /// The granted locators.
    pub closed spec fn granted_locators(self) -> Seq<String> {
        self.local_locators@
    }

    /// The granted URLs.
    pub closed spec fn granted_urls(self) -> Seq<String> {
        self.git_urls@
    }

    /// The granted scratch directories.
    pub closed spec fn granted_scratch(self) -> Seq<SourceScratch> {
        self.git_scratch_roots@
    }

    /// The profile for every component record.
    pub closed spec fn profile(self) -> Option<String> {
        self.format_component_execution_profile
    }

    /// Creates a complete explicit authority set for one lock operation.
    pub fn new(
        local_locators: Vec<String>,
        git_urls: Vec<String>,
        git_scratch_roots: Vec<SourceScratch>,
    ) -> (inputs: Self)
        ensures
            inputs.granted_locators() == local_locators@,
            inputs.granted_urls() == git_urls@,
            inputs.granted_scratch() == git_scratch_roots@,
            inputs.profile() is None,
    {
        LockResolutionInputs {
            local_locators,
            git_urls,
            git_scratch_roots,
            format_component_execution_profile: None,
        }
    }

    /// Supplies the exact profile stamped on every `format-component/v1` lock record.
    pub fn with_format_component_execution_profile(self, execution_profile: String) -> (inputs: Self)
        ensures
            inputs.granted_locators() == self.granted_locators(),
            inputs.granted_urls() == self.granted_urls(),
            inputs.granted_scratch() == self.granted_scratch(),
            inputs.profile() == Some(execution_profile),
    {
        LockResolutionInputs {
            local_locators: self.local_locators,
            git_urls: self.git_urls,
            git_scratch_roots: self.git_scratch_roots,
            format_component_execution_profile: Some(execution_profile),
        }
    }

    /// Returns exact root-relative local authorities.
    pub fn local_locators(&self) -> (locators: &Vec<String>)
        ensures
            locators@ == self.granted_locators(),
    {
        &self.local_locators
    }

    /// Returns normalized HTTPS authorities approved for Git access.
    pub fn git_urls(&self) -> (urls: &Vec<String>)
        ensures
            urls@ == self.granted_urls(),
    {
        &self.git_urls
    }

    /// Returns caller-owned scratch roots by exact Git source identity.
    pub fn git_scratch_roots(&self) -> (roots: &Vec<SourceScratch>)
        ensures
            roots@ == self.granted_scratch(),
    {
        &self.git_scratch_roots
    }

    /// Returns the caller-supplied `format-component/v1` execution profile, if any.
    pub fn format_component_execution_profile(&self) -> (profile: Option<&String>)
        ensures
            match profile {
                Some(value) => self.profile() == Some(*value),
                None => self.profile() is None,
            },
    {
        match &self.format_component_execution_profile {
            Some(value) => Some(value),
            None => None,
        }
    }
}

/// Complete candidate graph and durable lock-file outcome.
#[derive(Clone, Debug, PartialEq, Eq)]
pub struct LockOperationOutcome {
    /// The lock, as its file holds it.
    lock: Vec<u8>,
    publication: LockFilePublication,
}

impl LockOperationOutcome {
    /// The bytes of the lock.
    pub closed spec fn bytes(self) -> Seq<u8> {
        self.lock@
    }

    /// What happened to the file.
    pub closed spec fn published(self) -> LockFilePublication {
        self.publication
    }

    /// Tells of a lock and of what happened to its file.
    pub fn new(lock: Vec<u8>, publication: LockFilePublication) -> (outcome: Self)
        ensures
            outcome.bytes() == lock@,
            outcome.published() == publication,
    {
        LockOperationOutcome { lock, publication }
    }

    /// Returns the complete validated lock written by the operation.
    pub fn lock(&self) -> (lock: &[u8])
        ensures
            lock@ == self.bytes(),
    {
        self.lock.as_slice()
    }

    /// Returns whether the root lock was created, updated, or unchanged.
    pub fn publication(&self) -> (publication: LockFilePublication)
        ensures
            publication == self.published(),
    {
        self.publication
    }

    /// Consumes the result and returns the complete lock.
    pub fn into_lock(self) -> (lock: Vec<u8>)
        ensures
            lock@ == self.bytes(),
    {
        self.lock
    }
}

/// One durable prepared plan in the human review index.
///
/// The modification time is a host filesystem observation used only to order review
/// listings; it never participates in digests, canonical encodings, or machine-facing
/// contracts.
#[derive(Clone, Debug, PartialEq, Eq)]
pub struct PlanIndexEntryV1 {
    plan_id: String,
    modified_seconds: i64,
    modified_nanoseconds: i64,
}

impl PlanIndexEntryV1 {
    /// The identifier, the seconds and the nanoseconds.
    pub closed spec fn parts(self) -> (Seq<char>, i64, i64) {
        (self.plan_id@, self.modified_seconds, self.modified_nanoseconds)
    }

    /// Describes a plan.
    pub fn new(plan_id: String, modified_seconds: i64, modified_nanoseconds: i64) -> (entry: Self)
        ensures
            entry.parts() == (plan_id@, modified_seconds, modified_nanoseconds),
    {
        PlanIndexEntryV1 { plan_id, modified_seconds, modified_nanoseconds }
    }

    /// Returns the durable plan identifier.
    pub fn plan_id(&self) -> (plan_id: &str)
        ensures
            plan_id@ == self.parts().0,
    {
        self.plan_id.as_str()
    }

    /// Returns the record's modification time in whole seconds since the Unix epoch.
    pub fn modified_seconds(&self) -> (seconds: i64)
        ensures
            seconds == self.parts().1,
    {
        self.modified_seconds
    }

    /// Returns the sub-second part of the modification time.
    pub fn modified_nanoseconds(&self) -> (nanoseconds: i64)
        ensures
            nanoseconds == self.parts().2,
    {
        self.modified_nanoseconds
    }
}

/// Closed choice between verified CAS assembly and explicitly authorized acquisition.
#[derive(Clone, Debug, PartialEq, Eq)]
#[non_exhaustive]
pub enum StaticGraphAcquisitionV1 {
    /// Load every exact locked pack only from the verified v1 CAS.
    Cached,
    /// Recapture the root/local sources and acquire missing exact Git packs.
    Acquire {
        /// Absolute root pack whose current bytes must match the lock.
        root_source: Vec<u8>,
        /// Complete explicit local, Git URL, and scratch authority.
        inputs: GraphAcquisitionInputs,
        /// Trusted absolute Git executable and bounds, required only for Git locks.
        git: Option<GitAcquisitionConfig>,
    },
}

impl StaticGraphAcquisitionV1 {
    /// Selects verified offline CAS assembly.
    pub fn cached() -> (acquisition: Self)
        ensures
            acquisition is Cached,
    {
        StaticGraphAcquisitionV1::Cached
    }

    /// Selects current source capture plus exact Git acquisition when required.
    pub fn acquire(
        root_source: Vec<u8>,
        inputs: GraphAcquisitionInputs,
        git: Option<GitAcquisitionConfig>,
    ) -> (acquisition: Self)
        ensures
            acquisition == (StaticGraphAcquisitionV1::Acquire { root_source, inputs, git }),
    {
        StaticGraphAcquisitionV1::Acquire { root_source, inputs, git }
    }
}

/// How the packs of a locked graph come together.
#[derive(Debug, Clone, Copy, PartialEq, Eq, Structural)]
pub enum AcquisitionWay {
    /// All from the store.
    Cached,
    /// Local sources captured anew; the graph has no others.
    Local,
    /// Local sources captured anew, Git sources acquired where they are missing.
    Mixed,
}

/// Some node of a graph comes from Git.
pub open spec fn has_git(nodes: Seq<GraphNode<Seq<char>>>) -> bool {
    exists|i: int| 0 <= i < nodes.len() && (#[trigger] nodes[i]).source is Git
}

/// Tells whether some node of a graph comes from Git.
pub fn contains_git(nodes: &Vec<GraphNode>) -> (found: bool)
    ensures
        found == has_git(seqs::views(nodes@)),
{
    let ghost all = seqs::views(nodes@);
    let mut i: usize = 0;
    while i < nodes.len()
        invariant
            i <= nodes.len(),
            all == seqs::views(nodes@),
            forall|k: int| 0 <= k < i ==> (#[trigger] all[k]).source !is Git,
        decreases nodes.len() - i,
    {
        proof {
            assert(all[i as int] == nodes@[i as int]@);
        }
        match &nodes[i].source {
            LockSource::Git(_) => {
                return true;
            },
            _ => {},
        }
        i = i + 1;
    }
    false
}

/// Authority over Git was granted.
pub open spec fn grants_git(
    inputs: GraphAcquisitionInputs,
    git: Option<GitAcquisitionConfig>,
) -> bool {
    git is Some || inputs.granted_urls().len() > 0 || inputs.granted_scratch().len() > 0
}

/// The way that a request takes to a graph.
pub open spec fn way_to_graph(
    acquisition: StaticGraphAcquisitionV1,
    nodes: Seq<GraphNode<Seq<char>>>,
) -> Result<AcquisitionWay, StaticDeploymentPrepareError<Seq<char>, Seq<u8>>> {
    match acquisition {
        StaticGraphAcquisitionV1::Cached => Ok(AcquisitionWay::Cached),
        StaticGraphAcquisitionV1::Acquire { root_source: _, inputs, git } => if has_git(nodes) {
            if git is Some {
                Ok(AcquisitionWay::Mixed)
            } else {
                Err(StaticDeploymentPrepareError::GitConfigurationRequired)
            }
        } else if grants_git(inputs, git) {
            Err(StaticDeploymentPrepareError::GitConfigurationNotApplicable)
        } else {
            Ok(AcquisitionWay::Local)
        },
    }
}

/// What was chosen, as contracts speak of it.
pub open spec fn way_view(way: Result<AcquisitionWay, StaticDeploymentPrepareError>) -> Result<
    AcquisitionWay,
    StaticDeploymentPrepareError<Seq<char>, Seq<u8>>,
> {
    match way {
        Ok(chosen) => Ok(chosen),
        Err(error) => Err(error@),
    }
}

/// Chooses the way that a request takes to a graph, before anything is read.
pub fn choose_way(acquisition: &StaticGraphAcquisitionV1, nodes: &Vec<GraphNode>) -> (way: Result<
    AcquisitionWay,
    StaticDeploymentPrepareError,
>)
    ensures
        way_view(way) == way_to_graph(*acquisition, seqs::views(nodes@)),
{
    match acquisition {
        StaticGraphAcquisitionV1::Cached => Ok(AcquisitionWay::Cached),
        StaticGraphAcquisitionV1::Acquire { root_source: _, inputs, git } => {
            if contains_git(nodes) {
                if git.is_none() {
                    return Err(StaticDeploymentPrepareError::GitConfigurationRequired);
                }
                Ok(AcquisitionWay::Mixed)
            } else {
                if git.is_some() || inputs.git_urls().len() > 0 || inputs.git_scratch_roots().len()
                    > 0 {
                    return Err(StaticDeploymentPrepareError::GitConfigurationNotApplicable);
                }
                Ok(AcquisitionWay::Local)
            }
        },
    }
}

/// Git is run only for a graph with Git nodes and with a Git configuration, and authority
/// over Git is never granted in vain.
pub proof fn lemma_git_is_granted_where_it_is_needed(
    acquisition: StaticGraphAcquisitionV1,
    nodes: Seq<GraphNode<Seq<char>>>,
)
    ensures
        way_to_graph(acquisition, nodes) == Ok::<
            AcquisitionWay,
            StaticDeploymentPrepareError<Seq<char>, Seq<u8>>,
        >(AcquisitionWay::Mixed) ==> has_git(nodes) && acquisition is Acquire
            && acquisition->git is Some,
        acquisition is Acquire && grants_git(acquisition->inputs, acquisition->git) && !has_git(
            nodes,
        ) ==> way_to_graph(acquisition, nodes) is Err,
{
}

/// The authority and the state of a deployment that one static profile is prepared for.
#[derive(Clone, Debug)]
pub struct StaticProfile {
    /// Digest of the locked graph whose verified packs supply the profile's source bytes.
    pub graph_digest: String,
    /// Authorization carried by every component that a transform of this profile runs: the
    /// digests of the components that may run.
    pub component_authorization: Vec<String>,
    /// Namespace whose head the prepared plan will update.
    pub namespace: String,
    /// Stable target authority that will own the prepared plan's outputs.
    pub target_authority: String,
    /// Existing namespace head the prepare must observe; `None` for a new namespace.
    pub expected_head: Option<String>,
}

/// Complete semantic request for one locked static deployment prepare.
#[derive(Clone, Debug, PartialEq, Eq)]
pub struct StaticDeploymentPrepareRequestV1 {
    lock: Vec<GraphNode>,
    acquisition: StaticGraphAcquisitionV1,
    component_authorization: Vec<String>,
    profile: Option<String>,
    namespace: String,
    target_authority: String,
}

/// What a request holds.
pub struct RequestModel {
    pub lock: Seq<GraphNode>,
    pub acquisition: StaticGraphAcquisitionV1,
    pub component_authorization: Seq<String>,
    pub profile: Option<String>,
    pub namespace: Seq<char>,
    pub target_authority: Seq<char>,
}

impl StaticDeploymentPrepareRequestV1 {
    /// What the request holds.
    pub closed spec fn model(self) -> RequestModel {
        RequestModel {
            lock: self.lock@,
            acquisition: self.acquisition,
            component_authorization: self.component_authorization@,
            profile: self.profile,
            namespace: self.namespace@,
            target_authority: self.target_authority@,
        }
    }

    /// Builds a request.
    pub fn new(
        lock: Vec<GraphNode>,
        acquisition: StaticGraphAcquisitionV1,
        component_authorization: Vec<String>,
        profile: Option<String>,
        namespace: String,
        target_authority: String,
    ) -> (request: Self)
        ensures
            request.model() == (RequestModel {
                lock: lock@,
                acquisition,
                component_authorization: component_authorization@,
                profile,
                namespace: namespace@,
                target_authority: target_authority@,
            }),
    {
        StaticDeploymentPrepareRequestV1 {
            lock,
            acquisition,
            component_authorization,
            profile,
            namespace,
            target_authority,
        }
    }

    /// Returns the nodes of the lock.
    pub fn lock(&self) -> (lock: &Vec<GraphNode>)
        ensures
            lock@ == self.model().lock,
    {
        &self.lock
    }

    /// Returns how the packs come together.
    pub fn acquisition(&self) -> (acquisition: &StaticGraphAcquisitionV1)
        ensures
            *acquisition == self.model().acquisition,
    {
        &self.acquisition
    }

    /// Returns the digests of the components that may run.
    pub fn component_authorization(&self) -> (digests: &Vec<String>)
        ensures
            digests@ == self.model().component_authorization,
    {
        &self.component_authorization
    }

    /// Returns the requested profile, if any.
    pub fn profile(&self) -> (profile: Option<&String>)
        ensures
            match profile {
                Some(name) => self.model().profile == Some(*name),
                None => self.model().profile is None,
            },
    {
        match &self.profile {
            Some(name) => Some(name),
            None => None,
        }
    }

    /// Returns the namespace.
    pub fn namespace(&self) -> (namespace: &str)
        ensures
            namespace@ == self.model().namespace,
    {
        self.namespace.as_str()
    }

    /// Returns the target authority.
    pub fn target_authority(&self) -> (authority: &str)
        ensures
            authority@ == self.model().target_authority,
    {
        self.target_authority.as_str()
    }

    /// Chooses the way to the graph of the request, before anything is read.
    pub fn way(&self) -> (way: Result<AcquisitionWay, StaticDeploymentPrepareError>)
        ensures
            way_view(way) == way_to_graph(
                self.model().acquisition,
                seqs::views(self.model().lock),
            ),
    {
        choose_way(&self.acquisition, &self.lock)
    }
}

/// How a graph is acquired follows from what was granted and from whether it has a Git node: it
/// is taken from the store where that was asked for, needs a Git configuration exactly where it
/// has a Git node, and takes no grant for Git where it has none.
pub proof fn lemma_way_follows_from_the_grants(
    acquisition: StaticGraphAcquisitionV1,
    nodes: Seq<GraphNode<Seq<char>>>,
)
    ensures
        ({
            let needs = exists|i: int| 0 <= i < nodes.len() && (#[trigger] nodes[i]).source is Git;
            match acquisition {
                StaticGraphAcquisitionV1::Cached => way_to_graph(acquisition, nodes) matches Ok(way)
                    && way is Cached,
                StaticGraphAcquisitionV1::Acquire { root_source: _, inputs, git } => {
                    let offers = git is Some || inputs.granted_urls().len() > 0
                        || inputs.granted_scratch().len() > 0;
                    match way_to_graph(acquisition, nodes) {
                        Ok(AcquisitionWay::Cached) => false,
                        Ok(AcquisitionWay::Mixed) => needs && git is Some,
                        Ok(AcquisitionWay::Local) => !needs && !offers,
                        Err(StaticDeploymentPrepareError::GitConfigurationRequired) => needs && git
                            is None,
                        Err(StaticDeploymentPrepareError::GitConfigurationNotApplicable) => !needs
                            && offers,
                        Err(_) => false,
                    }
                },
            }
        }),
{
}

} // verus!
