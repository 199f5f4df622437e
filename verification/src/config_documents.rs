//! The documents of a configuration: who owns them, in which order they are read, and how
//! they are captured.

use vstd::prelude::*;
use vstd::utf8::*;

use crate::graph_acquisition::holds;
use crate::lifecycle::{
    STATIC_CONFIG_ENTRY_INPUT_PREFIX, STATIC_PROFILE_INPUT_PREFIX,
    STATIC_TARGET_AUTHORITY_INPUT_PREFIX,
};
use crate::plan;
use crate::plan::{append_identity_text, plan_input, InputKind, PlanInput};
use crate::prepare_error::StaticPrepareError;
use crate::selected_state;
use crate::selected_state::digits_of_digest;
use crate::seqs;
use crate::text;
use crate::text::{characters, concat2, from_characters, text_equal, text_skip, text_starts_with};

verus! {

/// Bytes that keep the identities of one kind apart from those of every other.
pub open spec fn domain(name: Seq<char>) -> Seq<u8> {
    encode_utf8(name).push(0)
}

fn domain_bytes(name: &str) -> (bytes: Vec<u8>)
    ensures
        bytes@ == domain(name@),
{
    let mut bytes: Vec<u8> = Vec::new();
    bytes.extend_from_slice(name.as_bytes());
    bytes.push(0);
    assert(bytes@ =~= domain(name@));
    bytes
}

/// What was selected for a deployment.
#[derive(Debug, Clone, Copy, PartialEq, Eq, Structural)]
pub enum SelectedName {
    ConfigEntry,
    TargetAuthority,
    Profile,
}

impl SelectedName {
    /// The name of the domain of its digests.
    pub open spec fn domain_name(self) -> Seq<char> {
        match self {
            SelectedName::ConfigEntry => "malm-static-config-entry-v1"@,
            SelectedName::TargetAuthority => "malm-static-target-authority-v1"@,
            SelectedName::Profile => "malm-static-profile-v1"@,
        }
    }

    /// The start of the name of its input.
    pub open spec fn prefix(self) -> Seq<char> {
        match self {
            SelectedName::ConfigEntry => STATIC_CONFIG_ENTRY_INPUT_PREFIX@,
            SelectedName::TargetAuthority => STATIC_TARGET_AUTHORITY_INPUT_PREFIX@,
            SelectedName::Profile => STATIC_PROFILE_INPUT_PREFIX@,
        }
    }

    /// Builds the bytes whose digest identifies a selected value.
    pub fn selection_preimage(self, value: &str) -> (bytes: Vec<u8>)
        ensures
            bytes@ == domain(self.domain_name()) + plan::framed(value@),
    {
        let mut bytes = match self {
            SelectedName::ConfigEntry => domain_bytes("malm-static-config-entry-v1"),
            SelectedName::TargetAuthority => domain_bytes("malm-static-target-authority-v1"),
            SelectedName::Profile => domain_bytes("malm-static-profile-v1"),
        };
        append_identity_text(&mut bytes, value);
        bytes
    }

    /// Builds the input for a selected value, with the digest of its identity.
    pub fn selection_input(self, value: &str, digest: &str) -> (input: PlanInput)
        ensures
            input@ == (PlanInput {
                kind: InputKind::Other,
                name: self.prefix() + value@,
                digest: digest@,
            }),
    {
        let prefix = match self {
            SelectedName::ConfigEntry => STATIC_CONFIG_ENTRY_INPUT_PREFIX,
            SelectedName::TargetAuthority => STATIC_TARGET_AUTHORITY_INPUT_PREFIX,
            SelectedName::Profile => STATIC_PROFILE_INPUT_PREFIX,
        };
        plan_input(InputKind::Other, concat2(prefix, value), digest)
    }
}

/// Selected values of one kind have different identities where they differ.
pub proof fn lemma_selections_are_told_apart(selected: SelectedName, left: Seq<char>, right: Seq<char>)
    requires
        plan::is_countable(left),
        plan::is_countable(right),
        domain(selected.domain_name()) + plan::framed(left) == domain(selected.domain_name())
            + plan::framed(right),
    ensures
        left == right,
{
    let start = domain(selected.domain_name());
    assert((start + plan::framed(left)).skip(start.len() as int) =~= plan::framed(left));
    assert((start + plan::framed(right)).skip(start.len() as int) =~= plan::framed(right));
    assert(plan::framed(left) + Seq::<u8>::empty() =~= plan::framed(left));
    assert(plan::framed(right) + Seq::<u8>::empty() =~= plan::framed(right));
    plan::lemma_framing_ends_itself(left, Seq::empty(), right, Seq::empty());
}

/// The profile that a plan recorded: what follows the prefix in the first input with it.
pub open spec fn recorded_profile(inputs: Seq<PlanInput<Seq<char>>>) -> Option<Seq<char>>
    decreases inputs.len(),
{
    if inputs.len() == 0 {
        None
    } else if STATIC_PROFILE_INPUT_PREFIX@.is_prefix_of(inputs[0].name) {
        Some(inputs[0].name.skip(STATIC_PROFILE_INPUT_PREFIX@.len() as int))
    } else {
        recorded_profile(inputs.skip(1))
    }
}

/// Finds the profile that the plan of an enabled head recorded.
pub fn deployed_profile(enabled: bool, inputs: &Vec<PlanInput>) -> (profile: Option<String>)
    ensures
        match profile {
            Some(name) => enabled && recorded_profile(seqs::views(inputs@)) == Some(name@),
            None => !enabled || recorded_profile(seqs::views(inputs@)) is None,
        },
{
    if !enabled {
        return None;
    }
    let ghost all = seqs::views(inputs@);
    let length: usize = characters(STATIC_PROFILE_INPUT_PREFIX).len();
    let mut i: usize = 0;
    proof {
        assert(all.skip(0) =~= all);
    }
    while i < inputs.len()
        invariant
            i <= inputs.len(),
            enabled,
            length == STATIC_PROFILE_INPUT_PREFIX@.len(),
            all == seqs::views(inputs@),
            recorded_profile(all) == recorded_profile(all.skip(i as int)),
        decreases inputs.len() - i,
    {
        proof {
            assert(all.skip(i as int)[0] == inputs@[i as int]@);
            assert(all.skip(i as int).skip(1) =~= all.skip(i + 1));
        }
        if text_starts_with(inputs[i].name.as_str(), STATIC_PROFILE_INPUT_PREFIX) {
            return Some(text_skip(inputs[i].name.as_str(), length));
        }
        i = i + 1;
    }
    None
}

/// Chooses the profile of a deployment: an explicit one wins, then the deployed one stays;
/// `None` leaves the choice to the configuration.
pub fn choose_profile(requested: Option<String>, deployed: Option<String>) -> (profile: Option<
    String,
>)
    ensures
        profile == if requested is Some {
            requested
        } else {
            deployed
        },
{
    match requested {
        Some(name) => Some(name),
        None => deployed,
    }
}

/// Who a document belongs to: a pack of the locked graph, by label and content.
#[derive(Debug)]
pub struct DocumentAuthority<T = String> {
    pub label: T,
    pub identity: T,
}

impl View for DocumentAuthority<String> {
    type V = DocumentAuthority<Seq<char>>;

    open spec fn view(&self) -> DocumentAuthority<Seq<char>> {
        DocumentAuthority { label: self.label@, identity: self.identity@ }
    }
}

impl DocumentAuthority {
    /// Tells whether two authorities are the same.
    pub fn is_same(&self, other: &DocumentAuthority) -> (same: bool)
        ensures
            same == (self@ == other@),
    {
        text_equal(self.label.as_str(), other.label.as_str()) && text_equal(
            self.identity.as_str(),
            other.identity.as_str(),
        )
    }

    /// Copies the authority.
    pub fn copied(&self) -> (copy: DocumentAuthority)
        ensures
            copy@ == self@,
    {
        DocumentAuthority { label: self.label.clone(), identity: self.identity.clone() }
    }
}

/// A component that a locked pack declares.
#[derive(Debug)]
pub struct LockedComponent<T = String> {
    pub name: T,
    pub digest: T,
    pub execution_profile: T,
}

impl View for LockedComponent<String> {
    type V = LockedComponent<Seq<char>>;

    open spec fn view(&self) -> LockedComponent<Seq<char>> {
        LockedComponent {
            name: self.name@,
            digest: self.digest@,
            execution_profile: self.execution_profile@,
        }
    }
}

/// A locked pack; `C` is the type of its list of components.
#[derive(Debug)]
pub struct LockedNode<T = String, C = Vec<LockedComponent>> {
    pub node_id: T,
    pub content_digest: T,
    pub components: C,
}

/// What a locked pack holds.
pub type NodeModel = LockedNode<Seq<char>, Seq<LockedComponent<Seq<char>>>>;

impl View for LockedNode {
    type V = NodeModel;

    open spec fn view(&self) -> NodeModel {
        LockedNode {
            node_id: self.node_id@,
            content_digest: self.content_digest@,
            components: seqs::views(self.components@),
        }
    }
}

/// Digits of a node's digest that its label shows.
pub const LABEL_DIGITS: usize = 58;

/// A node's identifier is a digest with digits enough for a label.
pub open spec fn has_label(node_id: Seq<char>) -> bool {
    selected_state::is_tagged(node_id) && selected_state::digest_digits(node_id).len()
        >= LABEL_DIGITS
}

/// The authority of a locked pack.
pub open spec fn authority_of(node: NodeModel, root: Seq<char>) -> DocumentAuthority<Seq<char>> {
    DocumentAuthority {
        label: if node.node_id == root {
            "root"@
        } else {
            "pack-"@ + selected_state::digest_digits(node.node_id).take(LABEL_DIGITS as int)
        },
        identity: node.content_digest,
    }
}

/// Builds the authority of a locked pack.
pub fn document_authority(node: &LockedNode, root: &str) -> (authority: DocumentAuthority)
    requires
        has_label(node@.node_id),
    ensures
        authority@ == authority_of(node@, root@),
{
    let label = if text_equal(node.node_id.as_str(), root) {
        "root".to_owned()
    } else {
        let digits = digits_of_digest(node.node_id.as_str());
        let all = characters(digits.as_str());
        let shown = from_characters(&all.as_slice()[0..LABEL_DIGITS]);
        proof {
            assert(shown@ =~= digits@.take(LABEL_DIGITS as int));
        }
        concat2("pack-", shown.as_str())
    };
    DocumentAuthority { label, identity: node.content_digest.clone() }
}

/// A locked pack has an authority.
pub open spec fn is_pack_of(
    node: NodeModel,
    root: Seq<char>,
    authority: DocumentAuthority<Seq<char>>,
) -> bool {
    authority_of(node, root) == authority
}

/// The packs of an authority that were found: none, one, or more than one.
pub open spec fn is_pack_found(
    found: Result<usize, StaticPrepareError>,
    nodes: Seq<NodeModel>,
    root: Seq<char>,
    authority: DocumentAuthority<Seq<char>>,
) -> bool {
    match found {
        Ok(index) => {
            &&& index < nodes.len()
            &&& is_pack_of(nodes[index as int], root, authority)
            &&& forall|i: int|
                0 <= i < nodes.len() && i != index ==> !is_pack_of(
                    #[trigger] nodes[i],
                    root,
                    authority,
                )
        },
        Err(error) => {
            ||| {
                &&& error@ == (StaticPrepareError::<Seq<char>, Seq<u8>>::UnknownDocumentAuthority {
                    label: authority.label,
                    identity: authority.identity,
                })
                &&& forall|i: int|
                    0 <= i < nodes.len() ==> !is_pack_of(#[trigger] nodes[i], root, authority)
            }
            ||| {
                &&& error@ == (StaticPrepareError::<
                    Seq<char>,
                    Seq<u8>,
                >::AmbiguousDocumentAuthority {
                    label: authority.label,
                    identity: authority.identity,
                })
                &&& exists|i: int, j: int|
                    0 <= i < j < nodes.len() && is_pack_of(#[trigger] nodes[i], root, authority)
                        && is_pack_of(#[trigger] nodes[j], root, authority)
            }
        },
    }
}

/// Finds the one locked pack of an authority.
pub fn pack_for_authority(
    nodes: &Vec<LockedNode>,
    root: &str,
    authority: &DocumentAuthority,
) -> (found: Result<usize, StaticPrepareError>)
    requires
        forall|i: int| 0 <= i < nodes@.len() ==> has_label((#[trigger] nodes@[i])@.node_id),
    ensures
        is_pack_found(found, seqs::views(nodes@), root@, authority@),
{
    let ghost all = seqs::views(nodes@);
    let mut matched: Option<usize> = None;
    let mut i: usize = 0;
    while i < nodes.len()
        invariant
            i <= nodes.len(),
            all == seqs::views(nodes@),
            forall|k: int| 0 <= k < nodes@.len() ==> has_label((#[trigger] nodes@[k])@.node_id),
            match matched {
                None => forall|k: int|
                    0 <= k < i ==> !is_pack_of(#[trigger] all[k], root@, authority@),
                Some(at) => at < i && is_pack_of(all[at as int], root@, authority@) && forall|k: int|
                    0 <= k < i && k != at ==> !is_pack_of(#[trigger] all[k], root@, authority@),
            },
        decreases nodes.len() - i,
    {
        proof {
            assert(all[i as int] == nodes@[i as int]@);
            assert(has_label(nodes@[i as int]@.node_id));
        }
        if document_authority(&nodes[i], root).is_same(authority) {
            match matched {
                Some(at) => {
                    proof {
                        assert(is_pack_of(all[at as int], root@, authority@));
                        assert(is_pack_of(all[i as int], root@, authority@));
                    }
                    return Err(
                        StaticPrepareError::AmbiguousDocumentAuthority {
                            label: authority.label.clone(),
                            identity: authority.identity.clone(),
                        },
                    );
                },
                None => {
                    matched = Some(i);
                },
            }
        }
        i = i + 1;
    }
    match matched {
        Some(at) => Ok(at),
        None => Err(
            StaticPrepareError::UnknownDocumentAuthority {
                label: authority.label.clone(),
                identity: authority.identity.clone(),
            },
        ),
    }
}

/// What is wrong with the entry point of a configuration, if anything: its pack must declare
/// it, and hold it.
pub open spec fn entry_problem(
    node_id: Seq<char>,
    declared: Seq<Seq<char>>,
    entry: Seq<char>,
    held: bool,
) -> Option<StaticPrepareError<Seq<char>, Seq<u8>>> {
    if !declared.contains(entry) {
        Some(StaticPrepareError::UndeclaredConfigDocument { node: node_id, path: entry })
    } else if !held {
        Some(StaticPrepareError::MissingRootConfig)
    } else {
        None
    }
}

/// Checks the entry point of a configuration.
pub fn check_config_entry(node_id: &str, declared: &Vec<String>, entry: &str, held: bool) -> (checked:
    Result<(), StaticPrepareError>)
    ensures
        match checked {
            Ok(_) => entry_problem(node_id@, seqs::views(declared@), entry@, held) is None,
            Err(error) => entry_problem(node_id@, seqs::views(declared@), entry@, held) == Some(
                error@,
            ),
        },
{
    if !holds(declared, entry) {
        return Err(
            StaticPrepareError::UndeclaredConfigDocument {
                node: node_id.to_owned(),
                path: entry.to_owned(),
            },
        );
    }
    if !held {
        return Err(StaticPrepareError::MissingRootConfig);
    }
    Ok(())
}

/// A dependency of a locked pack on another, under an alias.
#[derive(Debug)]
pub struct LockedEdge<T = String> {
    pub alias: T,
    pub target_node_id: T,
}

impl View for LockedEdge<String> {
    type V = LockedEdge<Seq<char>>;

    open spec fn view(&self) -> LockedEdge<Seq<char>> {
        LockedEdge { alias: self.alias@, target_node_id: self.target_node_id@ }
    }
}

/// A dependency by the authority of the pack that it leads to.
#[derive(Debug)]
pub struct AuthorityEdge<T = String> {
    pub alias: T,
    pub authority: DocumentAuthority<T>,
}

impl View for AuthorityEdge<String> {
    type V = AuthorityEdge<Seq<char>>;

    open spec fn view(&self) -> AuthorityEdge<Seq<char>> {
        AuthorityEdge { alias: self.alias@, authority: self.authority@ }
    }
}

/// A node is the first one with its identifier.
pub open spec fn is_first_node(nodes: Seq<NodeModel>, index: int, node_id: Seq<char>) -> bool {
    &&& 0 <= index < nodes.len()
    &&& nodes[index].node_id == node_id
    &&& forall|k: int| 0 <= k < index ==> (#[trigger] nodes[k]).node_id != node_id
}

/// Some node has an identifier.
pub open spec fn has_node(nodes: Seq<NodeModel>, node_id: Seq<char>) -> bool {
    exists|i: int| 0 <= i < nodes.len() && (#[trigger] nodes[i]).node_id == node_id
}

/// A dependency leads to the authority of the node that it names.
pub open spec fn is_resolved(
    resolved: AuthorityEdge<Seq<char>>,
    edge: LockedEdge<Seq<char>>,
    nodes: Seq<NodeModel>,
    root: Seq<char>,
) -> bool {
    resolved.alias == edge.alias && exists|k: int|
        #[trigger] is_first_node(nodes, k, edge.target_node_id) && resolved.authority
            == authority_of(nodes[k], root)
}

/// Resolves the dependencies of a locked pack to the authorities of the packs that they lead
/// to, in their order.
pub fn resolve_edges(nodes: &Vec<LockedNode>, root: &str, edges: &Vec<LockedEdge>) -> (resolved: Vec<
    AuthorityEdge,
>)
    requires
        forall|i: int| 0 <= i < nodes@.len() ==> has_label((#[trigger] nodes@[i])@.node_id),
        forall|i: int|
            0 <= i < edges@.len() ==> has_node(
                seqs::views(nodes@),
                (#[trigger] edges@[i])@.target_node_id,
            ),
    ensures
        resolved@.len() == edges@.len(),
        forall|i: int|
            0 <= i < edges@.len() ==> is_resolved(
                (#[trigger] resolved@[i])@,
                edges@[i]@,
                seqs::views(nodes@),
                root@,
            ),
{
    let ghost all = seqs::views(nodes@);
    let mut resolved: Vec<AuthorityEdge> = Vec::new();
    let mut i: usize = 0;
    while i < edges.len()
        invariant
            i <= edges.len(),
            all == seqs::views(nodes@),
            forall|k: int| 0 <= k < nodes@.len() ==> has_label((#[trigger] nodes@[k])@.node_id),
            forall|k: int|
                0 <= k < edges@.len() ==> has_node(all, (#[trigger] edges@[k])@.target_node_id),
            resolved@.len() == i,
            forall|k: int|
                0 <= k < i ==> is_resolved((#[trigger] resolved@[k])@, edges@[k]@, all, root@),
        decreases edges.len() - i,
    {
        let edge = &edges[i];
        let mut k: usize = 0;
        proof {
            assert(has_node(all, edges@[i as int]@.target_node_id));
        }
        while k < nodes.len() && !text_equal(
            nodes[k].node_id.as_str(),
            edge.target_node_id.as_str(),
        )
            invariant
                k <= nodes.len(),
                all == seqs::views(nodes@),
                forall|j: int|
                    0 <= j < k ==> (#[trigger] all[j]).node_id != edge@.target_node_id,
            decreases nodes.len() - k,
        {
            proof {
                assert(all[k as int] == nodes@[k as int]@);
            }
            k = k + 1;
        }
        proof {
            let j = choose|j: int|
                0 <= j < all.len() && (#[trigger] all[j]).node_id == edge@.target_node_id;
            assert(all[j].node_id == edge@.target_node_id);
            assert(k < nodes@.len());
            assert(all[k as int] == nodes@[k as int]@);
            assert(has_label(nodes@[k as int]@.node_id));
            assert(is_first_node(all, k as int, edge@.target_node_id));
        }
        resolved.push(
            AuthorityEdge {
                alias: edge.alias.clone(),
                authority: document_authority(&nodes[k], root),
            },
        );
        i = i + 1;
    }
    resolved
}

/// The kinds of selected values are told apart, by their domains and by the names of their inputs.
pub proof fn lemma_selected_names_are_told_apart(left: SelectedName, right: SelectedName)
    ensures
        left.domain_name() == right.domain_name() ==> left == right,
        left.prefix() == right.prefix() ==> left == right,
{
    reveal_strlit("malm-static-config-entry-v1");
    reveal_strlit("malm-static-target-authority-v1");
    reveal_strlit("malm-static-profile-v1");
    reveal_strlit("static-config-entry:");
    reveal_strlit("static-target-authority:");
    reveal_strlit("static-profile:");
    assert("malm-static-config-entry-v1"@.len() == 27);
    assert("malm-static-target-authority-v1"@.len() == 31);
    assert("malm-static-profile-v1"@.len() == 22);
    assert("static-config-entry:"@.len() == 20);
    assert("static-target-authority:"@.len() == 24);
    assert("static-profile:"@.len() == 15);
}

/// What a plan recorded as its profile is found again: the value of the first input that is named
/// as one, whatever else stands among the inputs.
pub proof fn lemma_recorded_profile_is_found(
    inputs: Seq<PlanInput<Seq<char>>>,
    index: int,
    profile: Seq<char>,
)
    requires
        0 <= index < inputs.len(),
        inputs[index].name == "static-profile:"@ + profile,
        forall|i: int|
            0 <= i < index ==> !"static-profile:"@.is_prefix_of((#[trigger] inputs[i]).name),
    ensures
        recorded_profile(inputs) == Some(profile),
    decreases index,
{
    let start = "static-profile:"@;
    if index == 0 {
        let name = inputs[0].name;
        assert(name.take(start.len() as int) =~= start);
        assert(start.is_prefix_of(name));
        assert(name.skip(start.len() as int) =~= profile);
    } else {
        assert(!start.is_prefix_of(inputs[0].name));
        let rest = inputs.skip(1);
        assert forall|i: int| 0 <= i < index - 1 implies !"static-profile:"@.is_prefix_of(
            (#[trigger] rest[i]).name,
        ) by {
            assert(rest[i] == inputs[i + 1]);
        }
        assert(rest[index - 1] == inputs[index]);
        lemma_recorded_profile_is_found(rest, index - 1, profile);
    }
}

/// No profile is found where none was recorded.
pub proof fn lemma_no_profile_without_a_record(inputs: Seq<PlanInput<Seq<char>>>)
    requires
        forall|i: int|
            0 <= i < inputs.len() ==> !"static-profile:"@.is_prefix_of((#[trigger] inputs[i]).name),
    ensures
        recorded_profile(inputs) is None,
    decreases inputs.len(),
{
    if inputs.len() > 0 {
        let rest = inputs.skip(1);
        assert(!"static-profile:"@.is_prefix_of(inputs[0].name));
        assert forall|i: int| 0 <= i < rest.len() implies !"static-profile:"@.is_prefix_of(
            (#[trigger] rest[i]).name,
        ) by {
            assert(rest[i] == inputs[i + 1]);
        }
        lemma_no_profile_without_a_record(rest);
    }
}

/// The documents of a pack belong to it by its content: the authority of a pack is identified by
/// the digest of its content, the root pack and no other is labelled as the root, and the label of
/// any other pack starts like the digits of its identifier.
pub proof fn lemma_authorities_stand_for_their_packs(node: NodeModel, root: Seq<char>)
    requires
        has_label(node.node_id),
    ensures
        authority_of(node, root).identity == node.content_digest,
        authority_of(node, root).label == "root"@ <==> node.node_id == root,
        node.node_id != root ==> authority_of(node, root).label == "pack-"@ + node.node_id.skip(
            "sha256-"@.len() as int,
        ).take(58),
{
    reveal_strlit("root");
    reveal_strlit("pack-");
    if node.node_id != root {
        assert(authority_of(node, root).label[0] == 'p');
        assert("root"@[0] == 'r');
    }
}

/// A configuration starts only at a document that its pack declares and holds; what is missing is
/// told in this order.
pub proof fn lemma_entry_is_declared_and_held(
    node_id: Seq<char>,
    declared: Seq<Seq<char>>,
    entry: Seq<char>,
    held: bool,
)
    ensures
        entry_problem(node_id, declared, entry, held) is None <==> declared.contains(entry) && held,
        entry_problem(node_id, declared, entry, held)
            matches Some(StaticPrepareError::UndeclaredConfigDocument { node, path }) ==> node
            == node_id && path == entry && !declared.contains(entry),
        declared.contains(entry) && !held ==> entry_problem(node_id, declared, entry, held)
            matches Some(StaticPrepareError::MissingRootConfig),
        !declared.contains(entry) ==> entry_problem(node_id, declared, entry, held)
            matches Some(StaticPrepareError::UndeclaredConfigDocument { .. }),
{
}

} // verus!
