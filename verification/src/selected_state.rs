//! Planning the operations that lead from the current generation to a selected state.

use vstd::prelude::*;
use vstd::utf8::*;

use crate::error::PreparedStoreIssue;
use crate::limits::MAX_PREPARED_UNIQUE_ARTIFACT_BYTES;
use crate::plan;
use crate::plan::{copy_provenance, has_destination, Action, Operation, Provenance};
use crate::seqs;
use crate::seqs::bytes_before;
use crate::text;
use crate::text::{concat2, concat3, text_equal, text_skip, text_starts_with};

verus! {

/// A target of a desired snapshot, as far as planning reads it.
#[derive(Debug)]
pub struct DesiredTarget<T = String> {
    pub authority: T,
    pub relative_path: T,
    pub present: bool,
}

impl View for DesiredTarget<String> {
    type V = DesiredTarget<Seq<char>>;

    open spec fn view(&self) -> DesiredTarget<Seq<char>> {
        DesiredTarget {
            authority: self.authority@,
            relative_path: self.relative_path@,
            present: self.present,
        }
    }
}

/// Whether a namespace deploys its snapshot.
#[derive(Debug, Clone, Copy, PartialEq, Eq, Structural)]
pub enum Lifecycle {
    Enabled,
    Disabled,
}

/// A change that the selected state asks of a target.
#[derive(Debug)]
pub enum Change<T = String> {
    EnsureDirectory { mode: u32 },
    PlaceFile { digest: T, byte_len: u64, mode: u32 },
    PlaceSymlink { object: T },
    PlaceTree { tree: T, provenance: Option<Provenance<T>> },
    RemoveLeaf,
    AssertExact { state: T },
}

impl View for Change<String> {
    type V = Change<Seq<char>>;

    open spec fn view(&self) -> Change<Seq<char>> {
        match *self {
            Change::EnsureDirectory { mode } => Change::EnsureDirectory { mode },
            Change::PlaceFile { digest, byte_len, mode } => Change::PlaceFile {
                digest: digest@,
                byte_len,
                mode,
            },
            Change::PlaceSymlink { object } => Change::PlaceSymlink { object: object@ },
            Change::PlaceTree { tree, provenance } => Change::PlaceTree {
                tree: tree@,
                provenance: plan::provenance_view(provenance),
            },
            Change::RemoveLeaf => Change::RemoveLeaf,
            Change::AssertExact { state } => Change::AssertExact { state: state@ },
        }
    }
}

/// A required mutation of one target.
#[derive(Debug)]
pub struct Mutation<T = String> {
    pub authority: T,
    pub relative_path: T,
    pub change: Change<T>,
}

impl View for Mutation<String> {
    type V = Mutation<Seq<char>>;

    open spec fn view(&self) -> Mutation<Seq<char>> {
        Mutation {
            authority: self.authority@,
            relative_path: self.relative_path@,
            change: self.change@,
        }
    }
}

/// A target is present at a destination.
pub open spec fn is_present_at(
    target: DesiredTarget<Seq<char>>,
    authority: Seq<char>,
    relative_path: Seq<char>,
) -> bool {
    target.authority == authority && target.relative_path == relative_path && target.present
}

/// The current generation has put something at a destination: it is enabled, and its
/// snapshot holds a present target there.
pub open spec fn is_effective(
    lifecycle: Lifecycle,
    targets: Seq<DesiredTarget<Seq<char>>>,
    authority: Seq<char>,
    relative_path: Seq<char>,
) -> bool {
    lifecycle is Enabled && exists|i: int|
        0 <= i < targets.len() && is_present_at(#[trigger] targets[i], authority, relative_path)
}

/// Tells whether the current generation has put something at a destination.
pub fn effective_present(
    lifecycle: Lifecycle,
    targets: &Vec<DesiredTarget>,
    authority: &str,
    relative_path: &str,
) -> (present: bool)
    ensures
        present == is_effective(lifecycle, seqs::views(targets@), authority@, relative_path@),
{
    if lifecycle == Lifecycle::Disabled {
        return false;
    }
    let ghost all = seqs::views(targets@);
    let mut i: usize = 0;
    while i < targets.len()
        invariant
            i <= targets.len(),
            lifecycle is Enabled,
            all == seqs::views(targets@),
            forall|k: int|
                0 <= k < i ==> !is_present_at(#[trigger] all[k], authority@, relative_path@),
        decreases targets.len() - i,
    {
        proof {
            assert(all[i as int] == targets@[i as int]@);
        }
        if targets[i].present && text_equal(targets[i].authority.as_str(), authority)
            && text_equal(targets[i].relative_path.as_str(), relative_path) {
            return true;
        }
        i = i + 1;
    }
    false
}

/// A digest starts with the tag of its algorithm.
pub open spec fn is_tagged(digest: Seq<char>) -> bool {
    "sha256-"@.is_prefix_of(digest)
}

/// Tells whether a digest starts with the tag of its algorithm.
pub fn digest_is_tagged(digest: &str) -> (tagged: bool)
    ensures
        tagged == is_tagged(digest@),
{
    text_starts_with(digest, "sha256-")
}

/// The digits of a digest, behind its tag.
pub open spec fn digest_digits(digest: Seq<char>) -> Seq<char> {
    digest.skip("sha256-"@.len() as int)
}

/// Returns the digits of a digest, behind its tag.
pub fn digits_of_digest(digest: &str) -> (digits: String)
    requires
        is_tagged(digest@),
    ensures
        digits@ == digest_digits(digest@),
{
    proof {
        reveal_strlit("sha256-");
    }
    text_skip(digest, 7)
}

/// The name of the artifact that holds the retained bytes of a digest.
pub open spec fn retained_artifact(digest: Seq<char>) -> Seq<char> {
    "retained/"@ + digest_digits(digest)
}

/// Names the artifact that holds the retained bytes of a digest.
pub fn retained_artifact_id(digest: &str) -> (artifact: String)
    requires
        is_tagged(digest@),
    ensures
        artifact@ == retained_artifact(digest@),
{
    let tail = digits_of_digest(digest);
    concat2("retained/", tail.as_str())
}

/// The action for a change, where something was put at its target or not.
pub open spec fn action_for(change: Change<Seq<char>>, present: bool) -> Action<Seq<char>> {
    match change {
        Change::EnsureDirectory { mode } => if present {
            Action::ReplaceDirectory { mode }
        } else {
            Action::EnsureDirectory { mode }
        },
        Change::PlaceFile { digest, byte_len: _, mode } => if present {
            Action::ReplaceFile { artifact: retained_artifact(digest), mode }
        } else {
            Action::PlaceFile { artifact: retained_artifact(digest), mode }
        },
        Change::PlaceSymlink { object } => if present {
            Action::ReplaceSymlink { object }
        } else {
            Action::PlaceSymlink { object }
        },
        Change::PlaceTree { tree, provenance } => if present {
            Action::ReplaceTree { tree, provenance }
        } else {
            Action::PlaceTree { tree, provenance }
        },
        Change::RemoveLeaf => Action::RemoveLeaf,
        Change::AssertExact { state } => Action::AssertExact { state },
    }
}

/// The operation for a mutation of the current generation's targets.
pub open spec fn operation_for(
    mutation: Mutation<Seq<char>>,
    lifecycle: Lifecycle,
    targets: Seq<DesiredTarget<Seq<char>>>,
) -> Operation<Seq<char>> {
    Operation {
        authority: mutation.authority,
        relative_path: mutation.relative_path,
        action: action_for(
            mutation.change,
            is_effective(lifecycle, targets, mutation.authority, mutation.relative_path),
        ),
    }
}

/// The operations for all mutations, in their order.
pub open spec fn operations_for(
    mutations: Seq<Mutation<Seq<char>>>,
    lifecycle: Lifecycle,
    targets: Seq<DesiredTarget<Seq<char>>>,
) -> Seq<Operation<Seq<char>>> {
    Seq::new(mutations.len(), |i: int| operation_for(mutations[i], lifecycle, targets))
}

/// A mutation places a file with this digest and length.
pub open spec fn places(mutation: Mutation<Seq<char>>, digest: Seq<char>, byte_len: u64) -> bool {
    match mutation.change {
        Change::PlaceFile { digest: placed, byte_len: length, mode: _ } => placed == digest
            && length == byte_len,
        _ => false,
    }
}

/// No digest is placed with two lengths.
pub open spec fn lengths_agree(mutations: Seq<Mutation<Seq<char>>>) -> bool {
    forall|i: int, j: int, digest: Seq<char>, left: u64, right: u64|
        0 <= i < mutations.len() && 0 <= j < mutations.len() && #[trigger] places(
            mutations[i],
            digest,
            left,
        ) && #[trigger] places(mutations[j], digest, right) ==> left == right
}

/// Every placed digest has digits behind its tag.
pub open spec fn places_tagged(mutation: Mutation<Seq<char>>) -> bool {
    match mutation.change {
        Change::PlaceFile { digest, byte_len: _, mode: _ } => is_tagged(digest),
        _ => true,
    }
}

/// The bytes that a plan takes over from what is retained.
#[derive(Debug)]
pub struct RetainedArtifact<T = String> {
    pub digest: T,
    pub byte_len: u64,
    pub artifact: T,
}

impl View for RetainedArtifact<String> {
    type V = RetainedArtifact<Seq<char>>;

    open spec fn view(&self) -> RetainedArtifact<Seq<char>> {
        RetainedArtifact {
            digest: self.digest@,
            byte_len: self.byte_len,
            artifact: self.artifact@,
        }
    }
}

/// One artifact comes before another by the bytes of its digest.
pub open spec fn artifact_before(
    left: RetainedArtifact<Seq<char>>,
    right: RetainedArtifact<Seq<char>>,
) -> bool {
    seqs::bytes_less(encode_utf8(left.digest), encode_utf8(right.digest))
}

/// Some mutation places the bytes of an artifact.
pub open spec fn is_placed(
    artifact: RetainedArtifact<Seq<char>>,
    mutations: Seq<Mutation<Seq<char>>>,
) -> bool {
    exists|i: int|
        0 <= i < mutations.len() && places(
            #[trigger] mutations[i],
            artifact.digest,
            artifact.byte_len,
        )
}

/// Some artifact holds the bytes that a mutation places, if it places any.
pub open spec fn is_held(
    mutation: Mutation<Seq<char>>,
    artifacts: Seq<RetainedArtifact<Seq<char>>>,
) -> bool {
    mutation.change is PlaceFile ==> exists|k: int|
        0 <= k < artifacts.len() && places(
            mutation,
            (#[trigger] artifacts[k]).digest,
            artifacts[k].byte_len,
        )
}

/// The artifacts of some mutations: one for each placed digest, in the order of the digests'
/// bytes.
pub open spec fn are_artifacts_of(
    artifacts: Seq<RetainedArtifact<Seq<char>>>,
    mutations: Seq<Mutation<Seq<char>>>,
) -> bool {
    &&& forall|j: int, k: int|
        0 <= j < k < artifacts.len() ==> artifact_before(
            #[trigger] artifacts[j],
            #[trigger] artifacts[k],
        )
    &&& forall|k: int|
        0 <= k < artifacts.len() ==> (#[trigger] artifacts[k]).artifact == retained_artifact(
            artifacts[k].digest,
        )
    &&& forall|k: int| 0 <= k < artifacts.len() ==> is_placed(#[trigger] artifacts[k], mutations)
    &&& forall|i: int| 0 <= i < mutations.len() ==> is_held(#[trigger] mutations[i], artifacts)
}

/// The length of all artifacts together.
pub open spec fn total_length(artifacts: Seq<RetainedArtifact<Seq<char>>>) -> nat
    decreases artifacts.len(),
{
    if artifacts.len() == 0 {
        0
    } else {
        total_length(artifacts.drop_last()) + artifacts.last().byte_len as nat
    }
}

proof fn lemma_total_grows(artifacts: Seq<RetainedArtifact<Seq<char>>>, count: int)
    requires
        0 <= count <= artifacts.len(),
    ensures
        total_length(artifacts.take(count)) <= total_length(artifacts),
    decreases artifacts.len() - count,
{
    if count == artifacts.len() {
        assert(artifacts.take(count) =~= artifacts);
    } else {
        assert(artifacts.take(count + 1).drop_last() =~= artifacts.take(count));
        lemma_total_grows(artifacts, count + 1);
    }
}

/// Where the artifact of a digest stands among ordered artifacts, or belongs.
fn artifact_position(artifacts: &Vec<RetainedArtifact>, digest: &str) -> (position: usize)
    ensures
        position <= artifacts.len(),
        forall|k: int|
            0 <= k < position ==> seqs::bytes_less(
                encode_utf8((#[trigger] artifacts@[k]).digest@),
                encode_utf8(digest@),
            ),
        position < artifacts.len() ==> !seqs::bytes_less(
            encode_utf8(artifacts@[position as int].digest@),
            encode_utf8(digest@),
        ),
{
    let mut position: usize = 0;
    while position < artifacts.len() && bytes_before(
        artifacts[position].digest.as_str().as_bytes(),
        digest.as_bytes(),
    )
        invariant
            position <= artifacts.len(),
            forall|k: int|
                0 <= k < position ==> seqs::bytes_less(
                    encode_utf8((#[trigger] artifacts@[k]).digest@),
                    encode_utf8(digest@),
                ),
        decreases artifacts.len() - position,
    {
        position = position + 1;
    }
    position
}

/// Takes up the bytes that a mutation places; `false` tells that the digest has another
/// length already.
fn take_up(
    artifacts: &mut Vec<RetainedArtifact>,
    digest: &str,
    byte_len: u64,
    Ghost(mutations): Ghost<Seq<Mutation<Seq<char>>>>,
    Ghost(mutation): Ghost<Mutation<Seq<char>>>,
) -> (agreed: bool)
    requires
        is_tagged(digest@),
        places(mutation, digest@, byte_len),
        are_artifacts_of(seqs::views(old(artifacts)@), mutations),
    ensures
        agreed ==> are_artifacts_of(seqs::views(final(artifacts)@), mutations.push(mutation)),
        !agreed ==> exists|i: int, other: u64|
            0 <= i < mutations.len() && other != byte_len && #[trigger] places(
                mutations[i],
                digest@,
                other,
            ),
{
    let ghost before = seqs::views(artifacts@);
    let position = artifact_position(artifacts, digest);
    proof {
        assert forall|k: int| 0 <= k < before.len() implies #[trigger] before[k]
            == artifacts@[k]@ by {}
    }
    if position < artifacts.len() && text_equal(artifacts[position].digest.as_str(), digest) {
        let ghost found = before[position as int];
        proof {
            assert(is_placed(found, mutations));
        }
        if artifacts[position].byte_len != byte_len {
            return false;
        }
        proof {
            let all = mutations.push(mutation);
            assert forall|k: int| 0 <= k < before.len() implies is_placed(
                #[trigger] before[k],
                all,
            ) by {
                assert(is_placed(before[k], mutations));
                let i = choose|i: int|
                    0 <= i < mutations.len() && places(
                        #[trigger] mutations[i],
                        before[k].digest,
                        before[k].byte_len,
                    );
                assert(places(all[i], before[k].digest, before[k].byte_len));
            }
            assert forall|i: int| 0 <= i < all.len() implies is_held(#[trigger] all[i], before) by {
                if i < mutations.len() {
                    assert(is_held(mutations[i], before));
                } else {
                    assert(places(all[i], found.digest, found.byte_len));
                }
            }
        }
        return true;
    }
    let added = RetainedArtifact {
        digest: digest.to_owned(),
        byte_len,
        artifact: retained_artifact_id(digest),
    };
    let ghost fresh = added@;
    artifacts.insert(position, added);
    proof {
        let after = seqs::views(artifacts@);
        let all = mutations.push(mutation);
        let p = position as int;
        assert(after =~= before.insert(p, fresh));
        assert forall|k: int| p <= k < before.len() implies artifact_before(
            fresh,
            #[trigger] before[k],
        ) by {
            if encode_utf8(before[p].digest) == encode_utf8(digest@) {
                text::lemma_encoding_injective(before[p].digest, digest@);
            }
            seqs::lemma_bytes_less_total(encode_utf8(digest@), encode_utf8(before[p].digest));
            if k > p {
                assert(artifact_before(before[p], before[k]));
                seqs::lemma_bytes_less_transitive(
                    encode_utf8(digest@),
                    encode_utf8(before[p].digest),
                    encode_utf8(before[k].digest),
                );
            }
        }
        assert forall|j: int, k: int| 0 <= j < k < after.len() implies artifact_before(
            #[trigger] after[j],
            #[trigger] after[k],
        ) by {
            let jj = if j < p { j } else { j - 1 };
            let kk = if k < p { k } else { k - 1 };
            if j != p && k != p {
                assert(artifact_before(before[jj], before[kk]));
            } else if j == p {
                assert(artifact_before(fresh, before[kk]));
            } else {
                assert(artifact_before(before[jj], fresh));
            }
        }
        assert forall|k: int| 0 <= k < after.len() implies is_placed(#[trigger] after[k], all) by {
            if k == p {
                assert(places(all[mutations.len() as int], fresh.digest, fresh.byte_len));
            } else {
                let kk = if k < p { k } else { k - 1 };
                assert(is_placed(before[kk], mutations));
                let i = choose|i: int|
                    0 <= i < mutations.len() && places(
                        #[trigger] mutations[i],
                        before[kk].digest,
                        before[kk].byte_len,
                    );
                assert(places(all[i], before[kk].digest, before[kk].byte_len));
            }
        }
        assert forall|i: int| 0 <= i < all.len() implies is_held(#[trigger] all[i], after) by {
            if i < mutations.len() {
                assert(is_held(mutations[i], before));
                if all[i].change is PlaceFile {
                    let k = choose|k: int|
                        0 <= k < before.len() && places(
                            all[i],
                            (#[trigger] before[k]).digest,
                            before[k].byte_len,
                        );
                    let kk = if k < p { k } else { k + 1 };
                    assert(after[kk] == before[k]);
                }
            } else {
                assert(places(all[i], after[p].digest, after[p].byte_len));
            }
        }
    }
    true
}

/// Returns the action for a change.
fn plan_action(change: &Change, present: bool) -> (action: Action)
    requires
        change@ matches Change::PlaceFile { digest, byte_len: _, mode: _ } ==> is_tagged(digest),
    ensures
        action@ == action_for(change@, present),
{
    match change {
        Change::EnsureDirectory { mode } => if present {
            Action::ReplaceDirectory { mode: *mode }
        } else {
            Action::EnsureDirectory { mode: *mode }
        },
        Change::PlaceFile { digest, byte_len: _, mode } => {
            let artifact = retained_artifact_id(digest.as_str());
            if present {
                Action::ReplaceFile { artifact, mode: *mode }
            } else {
                Action::PlaceFile { artifact, mode: *mode }
            }
        },
        Change::PlaceSymlink { object } => if present {
            Action::ReplaceSymlink { object: object.clone() }
        } else {
            Action::PlaceSymlink { object: object.clone() }
        },
        Change::PlaceTree { tree, provenance } => if present {
            Action::ReplaceTree { tree: tree.clone(), provenance: copy_provenance(provenance) }
        } else {
            Action::PlaceTree { tree: tree.clone(), provenance: copy_provenance(provenance) }
        },
        Change::RemoveLeaf => Action::RemoveLeaf,
        Change::AssertExact { state } => Action::AssertExact { state: state.clone() },
    }
}

/// The absent targets of the selected state that nothing else looks after, in their order.
pub open spec fn unattended(
    desired: Seq<DesiredTarget<Seq<char>>>,
    planned: Seq<Operation<Seq<char>>>,
    lifecycle: Lifecycle,
    targets: Seq<DesiredTarget<Seq<char>>>,
) -> Seq<Operation<Seq<char>>>
    decreases desired.len(),
{
    if desired.len() == 0 {
        Seq::empty()
    } else {
        let before = unattended(desired.drop_last(), planned, lifecycle, targets);
        let target = desired.last();
        if target.present || plan::is_destination(planned, target.authority, target.relative_path)
            || is_effective(lifecycle, targets, target.authority, target.relative_path) {
            before
        } else {
            before.push(
                Operation {
                    authority: target.authority,
                    relative_path: target.relative_path,
                    action: Action::AssertAbsent,
                },
            )
        }
    }
}

/// The operations and the retained artifacts of a plan.
#[derive(Debug)]
pub struct SelectedPlan {
    pub operations: Vec<Operation>,
    pub artifacts: Vec<RetainedArtifact>,
}

/// The operations that lead to a selected state.
pub open spec fn selected_operations(
    lifecycle: Lifecycle,
    targets: Seq<DesiredTarget<Seq<char>>>,
    mutations: Seq<Mutation<Seq<char>>>,
    desired: Seq<DesiredTarget<Seq<char>>>,
    assert_absent: bool,
) -> Seq<Operation<Seq<char>>> {
    let planned = operations_for(mutations, lifecycle, targets);
    if assert_absent {
        planned + unattended(desired, planned, lifecycle, targets)
    } else {
        planned
    }
}

/// An issue of a record that cannot be stored.
pub open spec fn invalid_record(detail: Seq<char>) -> PreparedStoreIssue<Seq<char>> {
    PreparedStoreIssue::InvalidRecord { detail }
}

/// What planning a selected state gives: the plan, or why there is none.
pub open spec fn is_selected_plan(
    outcome: Result<SelectedPlan, PreparedStoreIssue>,
    lifecycle: Lifecycle,
    targets: Seq<DesiredTarget<Seq<char>>>,
    mutations: Seq<Mutation<Seq<char>>>,
    desired: Seq<DesiredTarget<Seq<char>>>,
    assert_absent: bool,
) -> bool {
    match outcome {
        Ok(selected) => {
            let artifacts = seqs::views(selected.artifacts@);
            &&& lengths_agree(mutations)
            &&& seqs::views(selected.operations@) == selected_operations(
                lifecycle,
                targets,
                mutations,
                desired,
                assert_absent,
            )
            &&& are_artifacts_of(artifacts, mutations)
            &&& total_length(artifacts) <= MAX_PREPARED_UNIQUE_ARTIFACT_BYTES
        },
        Err(issue) => {
            ||| !lengths_agree(mutations) && issue@ == invalid_record(
                "retained digest has conflicting byte lengths"@,
            )
            ||| lengths_agree(mutations) && exists|artifacts: Seq<RetainedArtifact<Seq<char>>>|
                {
                    &&& #[trigger] are_artifacts_of(artifacts, mutations)
                    &&& total_length(artifacts) > MAX_PREPARED_UNIQUE_ARTIFACT_BYTES
                    &&& issue@ == invalid_record(
                        if total_length(artifacts) > u64::MAX {
                            "retained artifact bytes overflow"@
                        } else {
                            "retained artifacts exceed the prepared-plan byte limit"@
                        },
                    )
                }
        },
    }
}

fn invalid(detail: &str) -> (issue: PreparedStoreIssue)
    ensures
        issue@ == invalid_record(detail@),
{
    PreparedStoreIssue::InvalidRecord { detail: detail.to_owned() }
}

/// Checks the length of all artifacts together.
fn check_total(artifacts: &Vec<RetainedArtifact>) -> (checked: Result<(), PreparedStoreIssue>)
    ensures
        match checked {
            Ok(_) => total_length(seqs::views(artifacts@)) <= MAX_PREPARED_UNIQUE_ARTIFACT_BYTES,
            Err(issue) => {
                let total = total_length(seqs::views(artifacts@));
                &&& total > MAX_PREPARED_UNIQUE_ARTIFACT_BYTES
                &&& issue@ == invalid_record(
                    if total > u64::MAX {
                        "retained artifact bytes overflow"@
                    } else {
                        "retained artifacts exceed the prepared-plan byte limit"@
                    },
                )
            },
        },
{
    let ghost all = seqs::views(artifacts@);
    let mut total: u64 = 0;
    let mut i: usize = 0;
    proof {
        assert(all.take(0) =~= Seq::<RetainedArtifact<Seq<char>>>::empty());
    }
    while i < artifacts.len()
        invariant
            i <= artifacts.len(),
            all == seqs::views(artifacts@),
            total == total_length(all.take(i as int)),
        decreases artifacts.len() - i,
    {
        proof {
            assert(all.take(i + 1).drop_last() =~= all.take(i as int));
            assert(all.take(i + 1).last() == artifacts@[i as int]@);
            lemma_total_grows(all, i + 1);
        }
        match total.checked_add(artifacts[i].byte_len) {
            Some(sum) => {
                total = sum;
            },
            None => {
                return Err(invalid("retained artifact bytes overflow"));
            },
        }
        i = i + 1;
    }
    proof {
        assert(all.take(all.len() as int) =~= all);
    }
    if total > MAX_PREPARED_UNIQUE_ARTIFACT_BYTES {
        return Err(invalid("retained artifacts exceed the prepared-plan byte limit"));
    }
    Ok(())
}

/// Appends the absent targets that nothing else looks after.
fn add_unattended(
    operations: Vec<Operation>,
    desired: &Vec<DesiredTarget>,
    lifecycle: Lifecycle,
    targets: &Vec<DesiredTarget>,
) -> (all: Vec<Operation>)
    ensures
        seqs::views(all@) == seqs::views(operations@) + unattended(
            seqs::views(desired@),
            seqs::views(operations@),
            lifecycle,
            seqs::views(targets@),
        ),
{
    let ghost planned = seqs::views(operations@);
    let ghost wanted = seqs::views(desired@);
    let mut added: Vec<Operation> = Vec::new();
    let mut i: usize = 0;
    proof {
        assert(wanted.take(0) =~= Seq::<DesiredTarget<Seq<char>>>::empty());
        assert(seqs::views(added@) =~= Seq::<Operation<Seq<char>>>::empty());
    }
    while i < desired.len()
        invariant
            i <= desired.len(),
            planned == seqs::views(operations@),
            wanted == seqs::views(desired@),
            seqs::views(added@) == unattended(
                wanted.take(i as int),
                planned,
                lifecycle,
                seqs::views(targets@),
            ),
        decreases desired.len() - i,
    {
        let target = &desired[i];
        proof {
            assert(wanted.take(i + 1).drop_last() =~= wanted.take(i as int));
            assert(wanted.take(i + 1).last() == target@);
        }
        if !target.present && !has_destination(
            &operations,
            target.authority.as_str(),
            target.relative_path.as_str(),
        ) && !effective_present(
            lifecycle,
            targets,
            target.authority.as_str(),
            target.relative_path.as_str(),
        ) {
            let ghost before = added@;
            let operation = Operation {
                authority: target.authority.clone(),
                relative_path: target.relative_path.clone(),
                action: Action::AssertAbsent,
            };
            let ghost viewed = operation@;
            added.push(operation);
            proof {
                assert(seqs::views(added@) =~= seqs::views(before).push(viewed));
            }
        }
        i = i + 1;
    }
    proof {
        assert(wanted.take(wanted.len() as int) =~= wanted);
    }
    let ghost tail = added@;
    let mut all = operations;
    let mut rest = added;
    all.append(&mut rest);
    proof {
        assert(seqs::views(all@) =~= planned + seqs::views(tail));
    }
    all
}

/// Plans the operations that lead from the current generation to a selected state, and the
/// retained artifacts that they need.
pub fn prepare_selected_state(
    lifecycle: Lifecycle,
    targets: &Vec<DesiredTarget>,
    mutations: &Vec<Mutation>,
    desired: &Vec<DesiredTarget>,
    assert_absent: bool,
) -> (outcome: Result<SelectedPlan, PreparedStoreIssue>)
    requires
        forall|i: int| 0 <= i < mutations@.len() ==> places_tagged(#[trigger] mutations@[i]@),
    ensures
        is_selected_plan(
            outcome,
            lifecycle,
            seqs::views(targets@),
            seqs::views(mutations@),
            seqs::views(desired@),
            assert_absent,
        ),
{
    let ghost all = seqs::views(mutations@);
    let ghost current = seqs::views(targets@);
    let mut operations: Vec<Operation> = Vec::new();
    let mut artifacts: Vec<RetainedArtifact> = Vec::new();
    let mut i: usize = 0;
    proof {
        assert(seqs::views(operations@) =~= operations_for(all.take(0), lifecycle, current));
    }
    while i < mutations.len()
        invariant
            i <= mutations.len(),
            all == seqs::views(mutations@),
            current == seqs::views(targets@),
            forall|k: int| 0 <= k < mutations@.len() ==> places_tagged(#[trigger] mutations@[k]@),
            seqs::views(operations@) == operations_for(all.take(i as int), lifecycle, current),
            are_artifacts_of(seqs::views(artifacts@), all.take(i as int)),
        decreases mutations.len() - i,
    {
        let mutation = &mutations[i];
        let ghost done = all.take(i as int);
        proof {
            assert(places_tagged(mutations@[i as int]@));
            assert(all[i as int] == mutation@);
            assert(all.take(i + 1) =~= done.push(mutation@));
        }
        match &mutation.change {
            Change::PlaceFile { digest, byte_len, mode: _ } => {
                let agreed = take_up(
                    &mut artifacts,
                    digest.as_str(),
                    *byte_len,
                    Ghost(done),
                    Ghost(mutation@),
                );
                if !agreed {
                    proof {
                        let (k, other) = choose|k: int, other: u64|
                            0 <= k < done.len() && other != byte_len && #[trigger] places(
                                done[k],
                                digest@,
                                other,
                            );
                        assert(places(all[k], digest@, other));
                        assert(places(all[i as int], digest@, *byte_len));
                        assert(!lengths_agree(all));
                    }
                    return Err(invalid("retained digest has conflicting byte lengths"));
                }
            },
            _ => {
                proof {
                    lemma_nothing_placed(seqs::views(artifacts@), done, mutation@);
                }
            },
        }
        let present = effective_present(
            lifecycle,
            targets,
            mutation.authority.as_str(),
            mutation.relative_path.as_str(),
        );
        let operation = Operation {
            authority: mutation.authority.clone(),
            relative_path: mutation.relative_path.clone(),
            action: plan_action(&mutation.change, present),
        };
        let ghost before = operations@;
        let ghost viewed = operation@;
        operations.push(operation);
        proof {
            assert(seqs::views(operations@) =~= seqs::views(before).push(viewed));
            assert(operations_for(all.take(i + 1), lifecycle, current) =~= operations_for(
                done,
                lifecycle,
                current,
            ).push(viewed));
        }
        i = i + 1;
    }
    proof {
        assert(all.take(all.len() as int) =~= all);
        lemma_held_lengths_agree(seqs::views(artifacts@), all);
    }
    let operations = if assert_absent {
        add_unattended(operations, desired, lifecycle, targets)
    } else {
        operations
    };
    match check_total(&artifacts) {
        Err(issue) => {
            proof {
                assert(are_artifacts_of(seqs::views(artifacts@), all));
            }
            Err(issue)
        },
        Ok(_) => Ok(SelectedPlan { operations, artifacts }),
    }
}

proof fn lemma_nothing_placed(
    artifacts: Seq<RetainedArtifact<Seq<char>>>,
    mutations: Seq<Mutation<Seq<char>>>,
    mutation: Mutation<Seq<char>>,
)
    requires
        are_artifacts_of(artifacts, mutations),
        mutation.change !is PlaceFile,
    ensures
        are_artifacts_of(artifacts, mutations.push(mutation)),
{
    let all = mutations.push(mutation);
    assert forall|k: int| 0 <= k < artifacts.len() implies is_placed(
        #[trigger] artifacts[k],
        all,
    ) by {
        assert(is_placed(artifacts[k], mutations));
        let i = choose|i: int|
            0 <= i < mutations.len() && places(
                #[trigger] mutations[i],
                artifacts[k].digest,
                artifacts[k].byte_len,
            );
        assert(places(all[i], artifacts[k].digest, artifacts[k].byte_len));
    }
    assert forall|i: int| 0 <= i < all.len() implies is_held(#[trigger] all[i], artifacts) by {
        if i < mutations.len() {
            assert(is_held(mutations[i], artifacts));
        }
    }
}

/// Where the placed bytes have artifacts, no digest is placed with two lengths.
proof fn lemma_held_lengths_agree(
    artifacts: Seq<RetainedArtifact<Seq<char>>>,
    mutations: Seq<Mutation<Seq<char>>>,
)
    requires
        are_artifacts_of(artifacts, mutations),
    ensures
        lengths_agree(mutations),
{
    assert forall|i: int, j: int, digest: Seq<char>, left: u64, right: u64|
        0 <= i < mutations.len() && 0 <= j < mutations.len() && #[trigger] places(
            mutations[i],
            digest,
            left,
        ) && #[trigger] places(mutations[j], digest, right) implies left == right by {
        assert(is_held(mutations[i], artifacts));
        assert(is_held(mutations[j], artifacts));
        let a = choose|k: int|
            0 <= k < artifacts.len() && places(
                mutations[i],
                (#[trigger] artifacts[k]).digest,
                artifacts[k].byte_len,
            );
        let b = choose|k: int|
            0 <= k < artifacts.len() && places(
                mutations[j],
                (#[trigger] artifacts[k]).digest,
                artifacts[k].byte_len,
            );
        if a != b {
            seqs::lemma_bytes_less_irreflexive(encode_utf8(digest));
            if a < b {
                assert(artifact_before(artifacts[a], artifacts[b]));
            } else {
                assert(artifact_before(artifacts[b], artifacts[a]));
            }
        }
    }
}

/// The artifacts hold the bytes of some artifact.
proof fn lemma_artifact_has_a_twin(
    left: Seq<RetainedArtifact<Seq<char>>>,
    right: Seq<RetainedArtifact<Seq<char>>>,
    mutations: Seq<Mutation<Seq<char>>>,
    index: int,
) -> (twin: int)
    requires
        are_artifacts_of(left, mutations),
        are_artifacts_of(right, mutations),
        0 <= index < left.len(),
    ensures
        0 <= twin < right.len(),
        right[twin] == left[index],
{
    assert(is_placed(left[index], mutations));
    let i = choose|i: int|
        0 <= i < mutations.len() && places(
            #[trigger] mutations[i],
            left[index].digest,
            left[index].byte_len,
        );
    assert(is_held(mutations[i], right));
    choose|k: int|
        0 <= k < right.len() && places(
            mutations[i],
            (#[trigger] right[k]).digest,
            right[k].byte_len,
        )
}

proof fn lemma_artifacts_start_alike(
    left: Seq<RetainedArtifact<Seq<char>>>,
    right: Seq<RetainedArtifact<Seq<char>>>,
    mutations: Seq<Mutation<Seq<char>>>,
    count: int,
)
    requires
        are_artifacts_of(left, mutations),
        are_artifacts_of(right, mutations),
        0 <= count <= left.len(),
    ensures
        count <= right.len(),
        forall|k: int| 0 <= k < count ==> #[trigger] left[k] == right[k],
    decreases count,
{
    if count > 0 {
        let last = count - 1;
        lemma_artifacts_start_alike(left, right, mutations, last);
        let q = lemma_artifact_has_a_twin(left, right, mutations, last);
        seqs::lemma_bytes_less_irreflexive(encode_utf8(left[last].digest));
        if q < last {
            assert(left[q] == right[q]);
            assert(artifact_before(left[q], left[last]));
        }
        let p = lemma_artifact_has_a_twin(right, left, mutations, last);
        if p < last {
            assert(left[p] == right[p]);
            seqs::lemma_bytes_less_irreflexive(encode_utf8(right[last].digest));
            assert(artifact_before(right[p], right[last]));
        }
        if q > last && p > last {
            assert(artifact_before(right[last], right[q]));
            assert(artifact_before(left[last], left[p]));
            seqs::lemma_bytes_less_transitive(
                encode_utf8(left[last].digest),
                encode_utf8(right[last].digest),
                encode_utf8(left[last].digest),
            );
        }
    }
}

/// The mutations determine their artifacts, with their order and their lengths.
pub proof fn lemma_artifacts_are_determined(
    left: Seq<RetainedArtifact<Seq<char>>>,
    right: Seq<RetainedArtifact<Seq<char>>>,
    mutations: Seq<Mutation<Seq<char>>>,
)
    requires
        are_artifacts_of(left, mutations),
        are_artifacts_of(right, mutations),
    ensures
        left == right,
{
    lemma_artifacts_start_alike(left, right, mutations, left.len() as int);
    lemma_artifacts_start_alike(right, left, mutations, right.len() as int);
    assert(left =~= right);
}

/// An action takes the place of what was deployed before.
pub open spec fn replaces(action: Action<Seq<char>>) -> bool {
    action is ReplaceDirectory || action is ReplaceFile || action is ReplaceSymlink
        || action is ReplaceTree
}

/// An action puts something where nothing was deployed before.
pub open spec fn places_anew(action: Action<Seq<char>>) -> bool {
    action is EnsureDirectory || action is PlaceFile || action is PlaceSymlink || action
        is PlaceTree
}

/// Every planned operation stands for its mutation, replaces only what the current
/// generation deployed, and places anew only where it deployed nothing.
pub proof fn lemma_only_deployed_targets_are_replaced(
    lifecycle: Lifecycle,
    targets: Seq<DesiredTarget<Seq<char>>>,
    mutations: Seq<Mutation<Seq<char>>>,
    desired: Seq<DesiredTarget<Seq<char>>>,
    assert_absent: bool,
    index: int,
)
    requires
        0 <= index < mutations.len(),
    ensures
        ({
            let all = selected_operations(lifecycle, targets, mutations, desired, assert_absent);
            let operation = all[index];
            let effective = is_effective(
                lifecycle,
                targets,
                operation.authority,
                operation.relative_path,
            );
            &&& index < all.len()
            &&& plan::acts_on(operation, mutations[index].authority, mutations[index].relative_path)
            &&& replaces(operation.action) ==> effective
            &&& places_anew(operation.action) ==> !effective
        }),
{
    let planned = operations_for(mutations, lifecycle, targets);
    let all = selected_operations(lifecycle, targets, mutations, desired, assert_absent);
    assert(all[index] == planned[index]);
}

/// Each planned operation acts on the target of its mutation and brings about the change that the
/// mutation asks for: a directory, file, symlink or tree is put there with the mode, the bytes,
/// the object or the tree of the mutation, a leaf is removed only where the mutation removes it,
/// and a state is asserted only where the mutation asserts it. What is put there takes the place
/// of something exactly where the current generation is enabled and holds a present target.
pub proof fn lemma_operations_bring_about_their_mutations(
    lifecycle: Lifecycle,
    targets: Seq<DesiredTarget<Seq<char>>>,
    mutations: Seq<Mutation<Seq<char>>>,
    desired: Seq<DesiredTarget<Seq<char>>>,
    assert_absent: bool,
    index: int,
)
    requires
        0 <= index < mutations.len(),
    ensures
        ({
            let all = selected_operations(lifecycle, targets, mutations, desired, assert_absent);
            let operation = all[index];
            let mutation = mutations[index];
            let deployed = lifecycle is Enabled && exists|t: int|
                0 <= t < targets.len() && (#[trigger] targets[t]).present && targets[t].authority
                    == mutation.authority && targets[t].relative_path == mutation.relative_path;
            &&& index < all.len()
            &&& !assert_absent ==> all.len() == mutations.len()
            &&& operation.authority == mutation.authority
            &&& operation.relative_path == mutation.relative_path
            &&& operation.action is RemoveLeaf <==> mutation.change is RemoveLeaf
            &&& operation.action !is AssertAbsent
            &&& match mutation.change {
                Change::EnsureDirectory { mode } => match operation.action {
                    Action::EnsureDirectory { mode: put } => put == mode && !deployed,
                    Action::ReplaceDirectory { mode: put } => put == mode && deployed,
                    _ => false,
                },
                Change::PlaceFile { digest, byte_len: _, mode } => match operation.action {
                    Action::PlaceFile { artifact, mode: put } => put == mode && artifact
                        == "retained/"@ + digest.skip("sha256-"@.len() as int) && !deployed,
                    Action::ReplaceFile { artifact, mode: put } => put == mode && artifact
                        == "retained/"@ + digest.skip("sha256-"@.len() as int) && deployed,
                    _ => false,
                },
                Change::PlaceSymlink { object } => match operation.action {
                    Action::PlaceSymlink { object: put } => put == object && !deployed,
                    Action::ReplaceSymlink { object: put } => put == object && deployed,
                    _ => false,
                },
                Change::PlaceTree { tree, provenance } => match operation.action {
                    Action::PlaceTree { tree: put, provenance: from } => put == tree && from
                        == provenance && !deployed,
                    Action::ReplaceTree { tree: put, provenance: from } => put == tree && from
                        == provenance && deployed,
                    _ => false,
                },
                Change::RemoveLeaf => operation.action is RemoveLeaf,
                Change::AssertExact { state } => operation.action matches Action::AssertExact {
                    state: asserted,
                } && asserted == state,
            }
        }),
{
    let planned = operations_for(mutations, lifecycle, targets);
    let all = selected_operations(lifecycle, targets, mutations, desired, assert_absent);
    assert(all[index] == planned[index]);
    let mutation = mutations[index];
    assert forall|t: int| 0 <= t < targets.len() implies ((#[trigger] targets[t]).present
        && targets[t].authority == mutation.authority && targets[t].relative_path
        == mutation.relative_path) == is_present_at(
        targets[t],
        mutation.authority,
        mutation.relative_path,
    ) by {}
}

/// The bytes of every file that is put at a target are among the retained artifacts of the plan:
/// the operation names an artifact that stands for the digest and the length of its mutation.
/// Files with different digests have different artifacts.
pub proof fn lemma_placed_files_have_their_bytes(
    lifecycle: Lifecycle,
    targets: Seq<DesiredTarget<Seq<char>>>,
    mutations: Seq<Mutation<Seq<char>>>,
    artifacts: Seq<RetainedArtifact<Seq<char>>>,
    index: int,
)
    requires
        0 <= index < mutations.len(),
        are_artifacts_of(artifacts, mutations),
    ensures
        mutations[index].change matches Change::PlaceFile { digest, byte_len, mode: _ }
            ==> exists|k: int|
            {
                &&& 0 <= k < artifacts.len()
                &&& (#[trigger] artifacts[k]).digest == digest
                &&& artifacts[k].byte_len == byte_len
                &&& match operations_for(mutations, lifecycle, targets)[index].action {
                    Action::PlaceFile { artifact, mode: _ } => artifact == artifacts[k].artifact,
                    Action::ReplaceFile { artifact, mode: _ } => artifact == artifacts[k].artifact,
                    _ => false,
                }
            },
        forall|j: int, k: int|
            0 <= j < artifacts.len() && 0 <= k < artifacts.len() && is_tagged(
                artifacts[j].digest,
            ) && is_tagged(artifacts[k].digest) && (#[trigger] artifacts[j]).artifact == (
            #[trigger] artifacts[k]).artifact ==> artifacts[j].digest == artifacts[k].digest,
{
    assert(is_held(mutations[index], artifacts));
    assert forall|j: int, k: int|
        0 <= j < artifacts.len() && 0 <= k < artifacts.len() && is_tagged(artifacts[j].digest)
            && is_tagged(artifacts[k].digest) && (#[trigger] artifacts[j]).artifact == (
        #[trigger] artifacts[k]).artifact implies artifacts[j].digest == artifacts[k].digest by {
        let prefix = "retained/"@;
        let tag = "sha256-"@;
        let left = artifacts[j];
        let right = artifacts[k];
        assert(left.artifact.skip(prefix.len() as int) =~= digest_digits(left.digest));
        assert(right.artifact.skip(prefix.len() as int) =~= digest_digits(right.digest));
        assert(left.digest =~= tag + digest_digits(left.digest));
        assert(right.digest =~= tag + digest_digits(right.digest));
    }
}

/// Where absent targets are asserted, every absent target of the selected state is looked after:
/// a mutation acts on it, or the current generation deployed something there, or it is asserted
/// to be absent.
pub proof fn lemma_absent_targets_are_looked_after(
    lifecycle: Lifecycle,
    targets: Seq<DesiredTarget<Seq<char>>>,
    mutations: Seq<Mutation<Seq<char>>>,
    desired: Seq<DesiredTarget<Seq<char>>>,
    index: int,
)
    requires
        0 <= index < desired.len(),
        !desired[index].present,
    ensures
        ({
            let all = selected_operations(lifecycle, targets, mutations, desired, true);
            ||| exists|m: int|
                0 <= m < mutations.len() && (#[trigger] mutations[m]).authority
                    == desired[index].authority && mutations[m].relative_path
                    == desired[index].relative_path
            ||| lifecycle is Enabled && exists|t: int|
                0 <= t < targets.len() && (#[trigger] targets[t]).present && targets[t].authority
                    == desired[index].authority && targets[t].relative_path
                    == desired[index].relative_path
            ||| exists|k: int|
                mutations.len() <= k < all.len() && (#[trigger] all[k]).action is AssertAbsent
                    && all[k].authority == desired[index].authority && all[k].relative_path
                    == desired[index].relative_path
        }),
{
    let planned = operations_for(mutations, lifecycle, targets);
    let added = unattended(desired, planned, lifecycle, targets);
    let all = selected_operations(lifecycle, targets, mutations, desired, true);
    let target = desired[index];
    if plan::is_destination(planned, target.authority, target.relative_path) {
        let m = choose|m: int|
            0 <= m < planned.len() && plan::acts_on(
                #[trigger] planned[m],
                target.authority,
                target.relative_path,
            );
        assert(mutations[m].authority == target.authority);
    } else if is_effective(lifecycle, targets, target.authority, target.relative_path) {
        let t = choose|t: int|
            0 <= t < targets.len() && is_present_at(
                #[trigger] targets[t],
                target.authority,
                target.relative_path,
            );
        assert(targets[t].present);
    } else {
        let k = lemma_unattended_is_asserted(desired, planned, lifecycle, targets, index);
        assert(all[mutations.len() + k] == added[k]);
    }
}

proof fn lemma_unattended_is_asserted(
    desired: Seq<DesiredTarget<Seq<char>>>,
    planned: Seq<Operation<Seq<char>>>,
    lifecycle: Lifecycle,
    targets: Seq<DesiredTarget<Seq<char>>>,
    index: int,
) -> (place: int)
    requires
        0 <= index < desired.len(),
        !desired[index].present,
        !plan::is_destination(planned, desired[index].authority, desired[index].relative_path),
        !is_effective(lifecycle, targets, desired[index].authority, desired[index].relative_path),
    ensures
        0 <= place < unattended(desired, planned, lifecycle, targets).len(),
        unattended(desired, planned, lifecycle, targets)[place] == (Operation {
            authority: desired[index].authority,
            relative_path: desired[index].relative_path,
            action: Action::<Seq<char>>::AssertAbsent,
        }),
    decreases desired.len(),
{
    let fewer = unattended(desired.drop_last(), planned, lifecycle, targets);
    if index < desired.len() - 1 {
        let place = lemma_unattended_is_asserted(
            desired.drop_last(),
            planned,
            lifecycle,
            targets,
            index,
        );
        assert(unattended(desired, planned, lifecycle, targets)[place] == fewer[place]);
        place
    } else {
        fewer.len() as int
    }
}

proof fn lemma_unattended(
    desired: Seq<DesiredTarget<Seq<char>>>,
    planned: Seq<Operation<Seq<char>>>,
    lifecycle: Lifecycle,
    targets: Seq<DesiredTarget<Seq<char>>>,
    index: int,
)
    requires
        0 <= index < unattended(desired, planned, lifecycle, targets).len(),
    ensures
        ({
            let operation = unattended(desired, planned, lifecycle, targets)[index];
            &&& operation.action is AssertAbsent
            &&& !plan::is_destination(planned, operation.authority, operation.relative_path)
            &&& !is_effective(lifecycle, targets, operation.authority, operation.relative_path)
        }),
    decreases desired.len(),
{
    let before = unattended(desired.drop_last(), planned, lifecycle, targets);
    if index < before.len() {
        lemma_unattended(desired.drop_last(), planned, lifecycle, targets, index);
    }
}

/// What is added to the operations of the mutations asserts that a target is absent, at a
/// destination that no other operation acts on and where nothing was deployed.
pub proof fn lemma_asserted_absences_are_free(
    lifecycle: Lifecycle,
    targets: Seq<DesiredTarget<Seq<char>>>,
    mutations: Seq<Mutation<Seq<char>>>,
    desired: Seq<DesiredTarget<Seq<char>>>,
    index: int,
)
    requires
        mutations.len() <= index < selected_operations(
            lifecycle,
            targets,
            mutations,
            desired,
            true,
        ).len(),
    ensures
        ({
            let all = selected_operations(lifecycle, targets, mutations, desired, true);
            let operation = all[index];
            &&& operation.action is AssertAbsent
            &&& !is_effective(lifecycle, targets, operation.authority, operation.relative_path)
            &&& forall|i: int|
                0 <= i < mutations.len() ==> !plan::acts_on(
                    #[trigger] all[i],
                    operation.authority,
                    operation.relative_path,
                )
        }),
{
    let planned = operations_for(mutations, lifecycle, targets);
    let all = selected_operations(lifecycle, targets, mutations, desired, true);
    let added = unattended(desired, planned, lifecycle, targets);
    let operation = all[index];
    assert(operation == added[index - mutations.len()]);
    lemma_unattended(desired, planned, lifecycle, targets, index - mutations.len());
    assert forall|i: int| 0 <= i < mutations.len() implies !plan::acts_on(
        #[trigger] all[i],
        operation.authority,
        operation.relative_path,
    ) by {
        assert(all[i] == planned[i]);
    }
}

/// Checks that retained bytes have the length that the desired targets tell.
pub fn check_retained_length(digest: &str, expected: u64, actual: u64) -> (checked: Result<
    (),
    PreparedStoreIssue,
>)
    ensures
        checked is Ok == (expected == actual),
        checked matches Err(issue) ==> issue@ == invalid_record(
            "retained blob "@ + digest@ + " differs from desired target metadata"@,
        ),
{
    if actual != expected {
        return Err(
            PreparedStoreIssue::InvalidRecord {
                detail: concat3(
                    "retained blob ",
                    digest,
                    " differs from desired target metadata",
                ),
            },
        );
    }
    Ok(())
}

} // verus!
