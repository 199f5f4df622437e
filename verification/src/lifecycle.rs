//! Lifecycle transitions of a namespace: disabling, enabling, checkout, removal and retention.

use vstd::prelude::*;
use vstd::utf8::*;

use crate::plan::{copy_input, plan_input, Finding, InputKind, PlanInput};
use crate::selected_state;
use crate::selected_state::Lifecycle;
use crate::seqs;
use crate::text;
use crate::text::{concat2, concat3, concat5, text_equal, text_starts_with};

verus! {

/// Start of the name of the input that holds the configuration entry point.
pub const STATIC_CONFIG_ENTRY_INPUT_PREFIX: &'static str = "static-config-entry:";

/// Start of the name of the input that holds the target authority.
pub const STATIC_TARGET_AUTHORITY_INPUT_PREFIX: &'static str = "static-target-authority:";

/// Start of the name of the input that holds the selected profile.
pub const STATIC_PROFILE_INPUT_PREFIX: &'static str = "static-profile:";

/// Start of the name of an input that holds the execution profile of one component.
pub const LOCKED_COMPONENT_PROFILE_INPUT_PREFIX: &'static str = "locked-component-profile:";

/// Name of the input that holds all execution profiles together.
pub const LOCKED_COMPONENT_PROFILES_INPUT: &'static str = "locked-component-profiles";

/// What a transition does, in words; `T` is the type of text.
#[derive(Debug)]
pub enum TransitionDescription<T = String> {
    Disable,
    Enable,
    /// Restores the retained generation with this digest.
    Checkout(T),
    NamespaceRemoval,
    /// Updates what is retained, by the named operation.
    RetentionAuthority(T),
}

impl View for TransitionDescription<String> {
    type V = TransitionDescription<Seq<char>>;

    open spec fn view(&self) -> TransitionDescription<Seq<char>> {
        match *self {
            TransitionDescription::Disable => TransitionDescription::Disable,
            TransitionDescription::Enable => TransitionDescription::Enable,
            TransitionDescription::Checkout(target) => TransitionDescription::Checkout(target@),
            TransitionDescription::NamespaceRemoval => TransitionDescription::NamespaceRemoval,
            TransitionDescription::RetentionAuthority(operation) =>
                TransitionDescription::RetentionAuthority(operation@),
        }
    }
}

impl TransitionDescription<Seq<char>> {
    /// The name of the input that binds the transition.
    pub open spec fn bound_input(self) -> Seq<char> {
        match self {
            TransitionDescription::Disable => "lifecycle-disable-head"@,
            TransitionDescription::Enable => "lifecycle-enable-head"@,
            TransitionDescription::Checkout(_) => "checkout-generation"@,
            TransitionDescription::NamespaceRemoval => "namespace-removal-head"@,
            TransitionDescription::RetentionAuthority(_) => "retention-authority-head"@,
        }
    }

    /// The code of the finding about the transition.
    pub open spec fn code(self) -> Seq<char> {
        match self {
            TransitionDescription::Disable => "disable"@,
            TransitionDescription::Enable => "enable"@,
            TransitionDescription::Checkout(_) => "checkout"@,
            TransitionDescription::NamespaceRemoval => "namespace-removal"@,
            TransitionDescription::RetentionAuthority(operation) => operation,
        }
    }

    /// The digest that the transition is bound to.
    pub open spec fn bound_digest(self, current_head: Seq<char>) -> Seq<char> {
        match self {
            TransitionDescription::Checkout(target) => target,
            _ => current_head,
        }
    }

    /// The message of the finding about the transition.
    pub open spec fn message(self, namespace: Seq<char>) -> Seq<char> {
        match self {
            TransitionDescription::Disable => "disable namespace "@ + namespace
                + " with an empty desired snapshot and exact restore point"@,
            TransitionDescription::Enable => "enable namespace "@ + namespace
                + " from its exact restore point"@,
            TransitionDescription::Checkout(target) => "restore retained generation "@ + target,
            TransitionDescription::NamespaceRemoval => "remove namespace "@ + namespace
                + ", release every live target, and drop its unpinned history authority"@,
            TransitionDescription::RetentionAuthority(operation) => "update namespace "@ + namespace
                + " retention authority ("@ + operation + ")"@,
        }
    }
}

impl TransitionDescription {
    /// Returns the name of the input that binds the transition.
    pub fn input_name(&self) -> (name: &'static str)
        ensures
            name@ == self@.bound_input(),
    {
        match self {
            TransitionDescription::Disable => "lifecycle-disable-head",
            TransitionDescription::Enable => "lifecycle-enable-head",
            TransitionDescription::Checkout(_) => "checkout-generation",
            TransitionDescription::NamespaceRemoval => "namespace-removal-head",
            TransitionDescription::RetentionAuthority(_) => "retention-authority-head",
        }
    }

    /// Returns the code of the finding about the transition.
    pub fn finding_code(&self) -> (code: &str)
        ensures
            code@ == self@.code(),
    {
        match self {
            TransitionDescription::Disable => "disable",
            TransitionDescription::Enable => "enable",
            TransitionDescription::Checkout(_) => "checkout",
            TransitionDescription::NamespaceRemoval => "namespace-removal",
            TransitionDescription::RetentionAuthority(operation) => operation.as_str(),
        }
    }

    /// Returns the digest that the transition is bound to.
    pub fn input_digest(&self, current_head: &str) -> (digest: String)
        ensures
            digest@ == self@.bound_digest(current_head@),
    {
        match self {
            TransitionDescription::Checkout(target) => target.clone(),
            _ => current_head.to_owned(),
        }
    }

    /// Returns the message of the finding about the transition.
    pub fn finding_message(&self, namespace: &str) -> (message: String)
        ensures
            message@ == self@.message(namespace@),
    {
        match self {
            TransitionDescription::Disable => concat3(
                "disable namespace ",
                namespace,
                " with an empty desired snapshot and exact restore point",
            ),
            TransitionDescription::Enable => concat3(
                "enable namespace ",
                namespace,
                " from its exact restore point",
            ),
            TransitionDescription::Checkout(target) => concat2(
                "restore retained generation ",
                target.as_str(),
            ),
            TransitionDescription::NamespaceRemoval => concat3(
                "remove namespace ",
                namespace,
                ", release every live target, and drop its unpinned history authority",
            ),
            TransitionDescription::RetentionAuthority(operation) => concat5(
                "update namespace ",
                namespace,
                " retention authority (",
                operation.as_str(),
                ")",
            ),
        }
    }

    /// Builds the bytes whose digest identifies the graph of the transition where none is
    /// retained; the code of its finding names the operation.
    pub fn graph_preimage(
        &self,
        current_head: &str,
        lifecycle: Lifecycle,
        snapshot_digest: &str,
    ) -> (bytes: Vec<u8>)
        ensures
            bytes@ == transition_preimage_of(
                self@.code(),
                current_head@,
                lifecycle,
                snapshot_digest@,
            ),
    {
        transition_preimage(self.finding_code(), current_head, lifecycle, snapshot_digest)
    }

    /// Returns the finding about the transition, which always asks for approval.
    pub fn finding(&self, namespace: &str) -> (finding: Finding)
        ensures
            finding@ == (Finding {
                code: self@.code(),
                message: self@.message(namespace@),
                approval_required: true,
            }),
    {
        Finding {
            code: self.finding_code().to_owned(),
            message: self.finding_message(namespace),
            approval_required: true,
        }
    }
}

/// An input of a retained record describes its graph, and goes into the new plan with it.
pub open spec fn describes_graph(input: PlanInput<Seq<char>>) -> bool {
    match input.kind {
        InputKind::Source | InputKind::Lock | InputKind::Component => true,
        InputKind::Other => {
            ||| STATIC_CONFIG_ENTRY_INPUT_PREFIX@.is_prefix_of(input.name)
            ||| STATIC_TARGET_AUTHORITY_INPUT_PREFIX@.is_prefix_of(input.name)
            ||| input.name == LOCKED_COMPONENT_PROFILES_INPUT@
            ||| LOCKED_COMPONENT_PROFILE_INPUT_PREFIX@.is_prefix_of(input.name)
        },
        InputKind::Config | InputKind::Asset => false,
    }
}

fn input_describes_graph(input: &PlanInput) -> (describes: bool)
    ensures
        describes == describes_graph(input@),
{
    match input.kind {
        InputKind::Source | InputKind::Lock | InputKind::Component => true,
        InputKind::Other => text_starts_with(
            input.name.as_str(),
            STATIC_CONFIG_ENTRY_INPUT_PREFIX,
        ) || text_starts_with(input.name.as_str(), STATIC_TARGET_AUTHORITY_INPUT_PREFIX)
            || text_equal(input.name.as_str(), LOCKED_COMPONENT_PROFILES_INPUT)
            || text_starts_with(input.name.as_str(), LOCKED_COMPONENT_PROFILE_INPUT_PREFIX),
        InputKind::Config | InputKind::Asset => false,
    }
}

/// The inputs that describe a graph, in their order.
pub open spec fn graph_inputs(inputs: Seq<PlanInput<Seq<char>>>) -> Seq<PlanInput<Seq<char>>>
    decreases inputs.len(),
{
    if inputs.len() == 0 {
        Seq::empty()
    } else {
        let before = graph_inputs(inputs.drop_last());
        if describes_graph(inputs.last()) {
            before.push(inputs.last())
        } else {
            before
        }
    }
}

/// Exactly the inputs that describe a graph are taken over, in their order: its sources, its lock
/// and its components, and among the others the configuration entry, the target authority and
/// the execution profiles.
pub proof fn lemma_graph_inputs_are_filtered(
    inputs: Seq<PlanInput<Seq<char>>>,
    keep: spec_fn(PlanInput<Seq<char>>) -> bool,
)
    requires
        forall|input: PlanInput<Seq<char>>| #[trigger]
            keep(input) == (input.kind is Source || input.kind is Lock || input.kind is Component
                || (input.kind is Other && ("static-config-entry:"@.is_prefix_of(input.name)
                || "static-target-authority:"@.is_prefix_of(input.name) || input.name
                == "locked-component-profiles"@ || "locked-component-profile:"@.is_prefix_of(
                input.name,
            )))),
    ensures
        graph_inputs(inputs) == inputs.filter(keep),
    decreases inputs.len(),
{
    reveal(Seq::filter);
    if inputs.len() > 0 {
        lemma_graph_inputs_are_filtered(inputs.drop_last(), keep);
        assert(keep(inputs.last()) == describes_graph(inputs.last()));
    }
}

/// An input is taken over if and only if it is retained and describes the graph.
pub proof fn lemma_graph_inputs_are_taken_over(inputs: Seq<PlanInput<Seq<char>>>)
    ensures
        forall|input: PlanInput<Seq<char>>| #[trigger]
            graph_inputs(inputs).contains(input) <==> inputs.contains(input) && describes_graph(
                input,
            ),
    decreases inputs.len(),
{
    if inputs.len() > 0 {
        let before = inputs.drop_last();
        let kept = graph_inputs(before);
        let all = graph_inputs(inputs);
        lemma_graph_inputs_are_taken_over(before);
        assert forall|input: PlanInput<Seq<char>>| #[trigger]
            all.contains(input) <==> inputs.contains(input) && describes_graph(input) by {
            if all.contains(input) {
                let k = choose|k: int| 0 <= k < all.len() && all[k] == input;
                if k < kept.len() {
                    assert(kept[k] == input);
                    assert(kept.contains(input));
                    let i = choose|i: int| 0 <= i < before.len() && before[i] == input;
                    assert(inputs[i] == input);
                } else {
                    assert(inputs[inputs.len() - 1] == input);
                }
            }
            if inputs.contains(input) && describes_graph(input) {
                let i = choose|i: int| 0 <= i < inputs.len() && inputs[i] == input;
                if i < before.len() {
                    assert(before[i] == input);
                    assert(kept.contains(input));
                    let k = choose|k: int| 0 <= k < kept.len() && kept[k] == input;
                    assert(all[k] == input);
                } else {
                    assert(all[kept.len() as int] == input);
                }
            }
        }
    }
}

/// The inputs of a transition: its own, and those of the retained graph.
pub open spec fn transition_inputs_of(
    description: TransitionDescription<Seq<char>>,
    current_head: Seq<char>,
    retained: Seq<PlanInput<Seq<char>>>,
) -> Seq<PlanInput<Seq<char>>> {
    seq![
        PlanInput {
            kind: InputKind::Other,
            name: description.bound_input(),
            digest: description.bound_digest(current_head),
        },
    ] + graph_inputs(retained)
}

/// Builds the inputs of a transition from those of the retained record, which is empty where
/// no graph is retained.
pub fn transition_inputs(
    description: &TransitionDescription,
    current_head: &str,
    retained: &Vec<PlanInput>,
) -> (inputs: Vec<PlanInput>)
    ensures
        seqs::views(inputs@) == transition_inputs_of(
            description@,
            current_head@,
            seqs::views(retained@),
        ),
{
    let ghost all = seqs::views(retained@);
    let ghost own = PlanInput {
        kind: InputKind::Other,
        name: description@.bound_input(),
        digest: description@.bound_digest(current_head@),
    };
    let digest = description.input_digest(current_head);
    let mut inputs: Vec<PlanInput> = Vec::new();
    inputs.push(
        plan_input(InputKind::Other, description.input_name().to_owned(), digest.as_str()),
    );
    let mut i: usize = 0;
    proof {
        assert(all.take(0) =~= Seq::<PlanInput<Seq<char>>>::empty());
        assert(seqs::views(inputs@) =~= seq![own] + graph_inputs(all.take(0)));
    }
    while i < retained.len()
        invariant
            i <= retained.len(),
            all == seqs::views(retained@),
            seqs::views(inputs@) == seq![own] + graph_inputs(all.take(i as int)),
        decreases retained.len() - i,
    {
        let input = &retained[i];
        proof {
            assert(all.take(i + 1).drop_last() =~= all.take(i as int));
            assert(all.take(i + 1).last() == input@);
        }
        if input_describes_graph(input) {
            let ghost before = inputs@;
            inputs.push(copy_input(input));
            proof {
                assert(seqs::views(inputs@) =~= seqs::views(before).push(input@));
                assert((seq![own] + graph_inputs(all.take(i as int))).push(input@) =~= seq![own]
                    + graph_inputs(all.take(i as int)).push(input@));
            }
        }
        i = i + 1;
    }
    proof {
        assert(all.take(all.len() as int) =~= all);
    }
    inputs
}

/// The word for a lifecycle in the identity of a transition.
pub open spec fn lifecycle_word(lifecycle: Lifecycle) -> Seq<char> {
    match lifecycle {
        Lifecycle::Enabled => "enabled"@,
        Lifecycle::Disabled => "disabled"@,
    }
}

/// Some bytes and a separating zero before others.
pub open spec fn parted(head: Seq<u8>, rest: Seq<u8>) -> Seq<u8> {
    head + seq![0u8] + rest
}

/// The bytes whose digest identifies the graph of a transition that has no retained graph.
pub open spec fn transition_preimage_of(
    operation: Seq<char>,
    current_head: Seq<char>,
    lifecycle: Lifecycle,
    snapshot_digest: Seq<char>,
) -> Seq<u8> {
    parted(
        encode_utf8("malm-lifecycle-transition-v1"@),
        parted(
            encode_utf8(operation),
            parted(
                encode_utf8(current_head),
                parted(encode_utf8(lifecycle_word(lifecycle)), encode_utf8(snapshot_digest)),
            ),
        ),
    )
}

/// Builds the bytes whose digest identifies the graph of a transition that has no retained
/// graph.
pub fn transition_preimage(
    operation: &str,
    current_head: &str,
    lifecycle: Lifecycle,
    snapshot_digest: &str,
) -> (bytes: Vec<u8>)
    ensures
        bytes@ == transition_preimage_of(operation@, current_head@, lifecycle, snapshot_digest@),
{
    let mut bytes: Vec<u8> = Vec::new();
    bytes.extend_from_slice("malm-lifecycle-transition-v1".as_bytes());
    bytes.push(0);
    bytes.extend_from_slice(operation.as_bytes());
    bytes.push(0);
    bytes.extend_from_slice(current_head.as_bytes());
    bytes.push(0);
    let word = match lifecycle {
        Lifecycle::Enabled => "enabled",
        Lifecycle::Disabled => "disabled",
    };
    bytes.extend_from_slice(word.as_bytes());
    bytes.push(0);
    bytes.extend_from_slice(snapshot_digest.as_bytes());
    assert(bytes@ =~= transition_preimage_of(
        operation@,
        current_head@,
        lifecycle,
        snapshot_digest@,
    ));
    bytes
}

/// A text encodes without a zero byte.
pub open spec fn has_no_zero(value: Seq<char>) -> bool {
    forall|i: int| 0 <= i < encode_utf8(value).len() ==> #[trigger] encode_utf8(value)[i] != 0
}

proof fn lemma_parted(left: Seq<u8>, left_rest: Seq<u8>, right: Seq<u8>, right_rest: Seq<u8>)
    requires
        parted(left, left_rest) == parted(right, right_rest),
        forall|i: int| 0 <= i < left.len() ==> #[trigger] left[i] != 0,
        forall|i: int| 0 <= i < right.len() ==> #[trigger] right[i] != 0,
    ensures
        left == right,
        left_rest == right_rest,
{
    let whole = parted(left, left_rest);
    assert(whole[left.len() as int] == 0);
    assert(whole[right.len() as int] == 0);
    if left.len() < right.len() {
        assert(whole[left.len() as int] == right[left.len() as int]);
    } else if right.len() < left.len() {
        assert(whole[right.len() as int] == left[right.len() as int]);
    }
    assert(left =~= whole.take(left.len() as int));
    assert(right =~= whole.take(left.len() as int));
    assert(left_rest =~= whole.skip(left.len() as int + 1));
    assert(right_rest =~= whole.skip(left.len() as int + 1));
}

proof fn lemma_lifecycle_words(lifecycle: Lifecycle)
    ensures
        has_no_zero(lifecycle_word(lifecycle)),
        lifecycle_word(lifecycle).len() == if lifecycle is Enabled {
            7int
        } else {
            8int
        },
{
    let word = lifecycle_word(lifecycle);
    reveal_strlit("enabled");
    reveal_strlit("disabled");
    assert(is_ascii_chars(word));
    is_ascii_chars_encode_utf8(word);
    assert forall|i: int| 0 <= i < encode_utf8(word).len() implies #[trigger] encode_utf8(word)[i]
        != 0 by {
        assert(word[i] as u8 == encode_utf8(word)[i]);
    }
}

/// Two transitions are identified by the same bytes only where their operations, heads,
/// lifecycles and snapshots are the same.
pub proof fn lemma_transitions_are_told_apart(
    left: (Seq<char>, Seq<char>, Lifecycle, Seq<char>),
    right: (Seq<char>, Seq<char>, Lifecycle, Seq<char>),
)
    requires
        has_no_zero(left.0),
        has_no_zero(left.1),
        has_no_zero(right.0),
        has_no_zero(right.1),
        transition_preimage_of(left.0, left.1, left.2, left.3) == transition_preimage_of(
            right.0,
            right.1,
            right.2,
            right.3,
        ),
    ensures
        left == right,
{
    let domain = encode_utf8("malm-lifecycle-transition-v1"@);
    let left_last = parted(encode_utf8(lifecycle_word(left.2)), encode_utf8(left.3));
    let right_last = parted(encode_utf8(lifecycle_word(right.2)), encode_utf8(right.3));
    let left_head = parted(encode_utf8(left.1), left_last);
    let right_head = parted(encode_utf8(right.1), right_last);
    let left_all = parted(encode_utf8(left.0), left_head);
    let right_all = parted(encode_utf8(right.0), right_head);
    assert(parted(domain, left_all).skip(domain.len() as int + 1) =~= left_all);
    assert(parted(domain, right_all).skip(domain.len() as int + 1) =~= right_all);
    lemma_parted(encode_utf8(left.0), left_head, encode_utf8(right.0), right_head);
    lemma_parted(encode_utf8(left.1), left_last, encode_utf8(right.1), right_last);
    lemma_lifecycle_words(left.2);
    lemma_lifecycle_words(right.2);
    lemma_parted(
        encode_utf8(lifecycle_word(left.2)),
        encode_utf8(left.3),
        encode_utf8(lifecycle_word(right.2)),
        encode_utf8(right.3),
    );
    text::lemma_encoding_injective(left.0, right.0);
    text::lemma_encoding_injective(left.1, right.1);
    text::lemma_encoding_injective(lifecycle_word(left.2), lifecycle_word(right.2));
    text::lemma_encoding_injective(left.3, right.3);
}

/// A checkout is bound to the generation that it restores, every other transition to the head
/// that it starts from. The words of different transitions differ, so a binding and an approval
/// stand for one kind of transition only.
pub proof fn lemma_transitions_are_bound_to_what_they_act_on(
    left: TransitionDescription<Seq<char>>,
    right: TransitionDescription<Seq<char>>,
    head: Seq<char>,
)
    ensures
        match left {
            TransitionDescription::Checkout(target) => left.bound_digest(head) == target,
            _ => left.bound_digest(head) == head,
        },
        left matches TransitionDescription::RetentionAuthority(operation) ==> left.code()
            == operation,
        left.bound_input() == right.bound_input() ==> (left is Disable == right is Disable
            && left is Enable == right is Enable && left is Checkout == right is Checkout
            && left is NamespaceRemoval == right is NamespaceRemoval && left is RetentionAuthority
            == right is RetentionAuthority),
        left !is RetentionAuthority && right !is RetentionAuthority && left.code() == right.code()
            ==> (left is Disable == right is Disable && left is Enable == right is Enable && left
            is Checkout == right is Checkout && left is NamespaceRemoval == right
            is NamespaceRemoval),
{
    reveal_strlit("lifecycle-disable-head");
    reveal_strlit("lifecycle-enable-head");
    reveal_strlit("checkout-generation");
    reveal_strlit("namespace-removal-head");
    reveal_strlit("retention-authority-head");
    reveal_strlit("disable");
    reveal_strlit("enable");
    reveal_strlit("checkout");
    reveal_strlit("namespace-removal");
    assert("lifecycle-disable-head"@.len() == 22 && "lifecycle-enable-head"@.len() == 21);
    assert("checkout-generation"@.len() == 19 && "namespace-removal-head"@.len() == 22);
    assert("retention-authority-head"@.len() == 24);
    assert("namespace-removal-head"@[0] == 'n' && "lifecycle-disable-head"@[0] == 'l');
    assert("disable"@.len() == 7 && "enable"@.len() == 6);
    assert("checkout"@.len() == 8 && "namespace-removal"@.len() == 17);
}

} // verus!
