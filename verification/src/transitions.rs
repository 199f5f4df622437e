//! Which state a lifecycle transition selects, and when it is refused.

use vstd::prelude::*;

use crate::error::PreparedStoreIssue;
use crate::lifecycle::TransitionDescription;
use crate::selected_state;
use crate::selected_state::Lifecycle;
use crate::seqs;
use crate::text::{concat2, concat3, text_equal};

verus! {

/// A value that may be missing, as contracts speak of it.
pub open spec fn optional_text(value: Option<String>) -> Option<Seq<char>> {
    match value {
        Some(text) => Some(text@),
        None => None,
    }
}

fn copy_optional(value: &Option<String>) -> (copy: Option<String>)
    ensures
        optional_text(copy) == optional_text(*value),
{
    match value {
        Some(text) => Some(text.clone()),
        None => None,
    }
}

fn optional_equal(left: &Option<String>, right: &Option<String>) -> (equal: bool)
    ensures
        equal == (optional_text(*left) == optional_text(*right)),
{
    match (left, right) {
        (Some(left), Some(right)) => text_equal(left.as_str(), right.as_str()),
        (None, None) => true,
        _ => false,
    }
}

/// A point of the history that a namespace can be restored to; `T` is the type of text.
#[derive(Debug)]
pub struct RestorePoint<T = String> {
    pub namespace: T,
    pub generation: T,
    pub lifecycle: Lifecycle,
    pub snapshot_digest: T,
    pub tracked_root: Option<T>,
}

impl View for RestorePoint<String> {
    type V = RestorePoint<Seq<char>>;

    open spec fn view(&self) -> RestorePoint<Seq<char>> {
        RestorePoint {
            namespace: self.namespace@,
            generation: self.generation@,
            lifecycle: self.lifecycle,
            snapshot_digest: self.snapshot_digest@,
            tracked_root: optional_text(self.tracked_root),
        }
    }
}

/// A restore point that may be missing, as contracts speak of it.
pub open spec fn optional_point(point: Option<RestorePoint>) -> Option<RestorePoint<Seq<char>>> {
    match point {
        Some(value) => Some(value@),
        None => None,
    }
}

/// Copies a restore point.
pub fn copy_point(point: &RestorePoint) -> (copy: RestorePoint)
    ensures
        copy@ == point@,
{
    RestorePoint {
        namespace: point.namespace.clone(),
        generation: point.generation.clone(),
        lifecycle: point.lifecycle,
        snapshot_digest: point.snapshot_digest.clone(),
        tracked_root: copy_optional(&point.tracked_root),
    }
}

fn copy_optional_point(point: &Option<RestorePoint>) -> (copy: Option<RestorePoint>)
    ensures
        optional_point(copy) == optional_point(*point),
{
    match point {
        Some(value) => Some(copy_point(value)),
        None => None,
    }
}

/// A generation of a namespace, as far as transitions read it.
#[derive(Debug)]
pub struct Generation<T = String> {
    pub namespace: T,
    pub lifecycle: Lifecycle,
    pub snapshot_digest: T,
    pub tracked_root: Option<T>,
    pub restore_point: Option<RestorePoint<T>>,
}

impl View for Generation<String> {
    type V = Generation<Seq<char>>;

    open spec fn view(&self) -> Generation<Seq<char>> {
        Generation {
            namespace: self.namespace@,
            lifecycle: self.lifecycle,
            snapshot_digest: self.snapshot_digest@,
            tracked_root: optional_text(self.tracked_root),
            restore_point: optional_point(self.restore_point),
        }
    }
}

/// The restore point at a generation with the given digest.
pub open spec fn point_at(digest: Seq<char>, generation: Generation<Seq<char>>) -> RestorePoint<
    Seq<char>,
> {
    RestorePoint {
        namespace: generation.namespace,
        generation: digest,
        lifecycle: generation.lifecycle,
        snapshot_digest: generation.snapshot_digest,
        tracked_root: generation.tracked_root,
    }
}

/// Builds the restore point at a generation with the given digest.
pub fn restore_point_at(digest: &str, generation: &Generation) -> (point: RestorePoint)
    ensures
        point@ == point_at(digest@, generation@),
{
    RestorePoint {
        namespace: generation.namespace.clone(),
        generation: digest.to_owned(),
        lifecycle: generation.lifecycle,
        snapshot_digest: generation.snapshot_digest.clone(),
        tracked_root: copy_optional(&generation.tracked_root),
    }
}

/// Which snapshot a transition desires.
#[derive(Debug, Clone, Copy, PartialEq, Eq, Structural)]
pub enum DesiredSnapshot {
    /// None of the targets.
    Empty,
    /// That of the current generation.
    Current,
    /// That of the retained generation, as it is.
    Retained,
    /// That of the retained generation, reconciled with the current one.
    Reconciled,
}

/// Which generation's record holds the graph that a transition carries on.
#[derive(Debug, Clone, Copy, PartialEq, Eq, Structural)]
pub enum GraphAuthority {
    Nothing,
    Current,
    Retained,
}

/// The state that a transition selects.
#[derive(Debug)]
pub struct Selection<T = String> {
    pub description: TransitionDescription<T>,
    pub next_lifecycle: Lifecycle,
    pub desired: DesiredSnapshot,
    pub restore_point: Option<RestorePoint<T>>,
    /// A restore point that the retention authority takes up.
    pub retained_point: Option<RestorePoint<T>>,
    pub tracked_root: Option<T>,
    pub graph: GraphAuthority,
    /// Absent targets that nothing else looks after are asserted.
    pub assert_absent: bool,
}

impl View for Selection<String> {
    type V = Selection<Seq<char>>;

    open spec fn view(&self) -> Selection<Seq<char>> {
        Selection {
            description: self.description@,
            next_lifecycle: self.next_lifecycle,
            desired: self.desired,
            restore_point: optional_point(self.restore_point),
            retained_point: optional_point(self.retained_point),
            tracked_root: optional_text(self.tracked_root),
            graph: self.graph,
            assert_absent: self.assert_absent,
        }
    }
}

/// What was decided, as contracts speak of it.
pub open spec fn decision_view<V: View>(decision: Result<V, PreparedStoreIssue>) -> Result<
    V::V,
    PreparedStoreIssue<Seq<char>>,
> {
    match decision {
        Ok(value) => Ok(value@),
        Err(issue) => Err(issue@),
    }
}

/// A refusal for the given reason.
pub open spec fn refused<A>(detail: Seq<char>) -> Result<A, PreparedStoreIssue<Seq<char>>> {
    Err(selected_state::invalid_record(detail))
}

fn refusal(detail: String) -> (issue: PreparedStoreIssue)
    ensures
        issue@ == selected_state::invalid_record(detail@),
{
    PreparedStoreIssue::InvalidRecord { detail }
}

/// The head that an operation acts on.
pub open spec fn head_decision(
    operation: Seq<char>,
    namespace: Seq<char>,
    head: Option<Seq<char>>,
) -> Result<Seq<char>, PreparedStoreIssue<Seq<char>>> {
    match head {
        Some(digest) => Ok(digest),
        None => refused(operation + " requires a head for namespace "@ + namespace),
    }
}

/// Takes the head that an operation acts on.
pub fn require_head(operation: &str, namespace: &str, head: Option<String>) -> (decision: Result<
    String,
    PreparedStoreIssue,
>)
    ensures
        decision_view(decision) == head_decision(operation@, namespace@, optional_text(head)),
{
    match head {
        Some(digest) => Ok(digest),
        None => Err(
            refusal(concat3(operation, " requires a head for namespace ", namespace)),
        ),
    }
}

/// Checks that the generation at the head belongs to the namespace of the operation.
pub fn require_namespace(operation: &str, namespace: &str, selected: &str) -> (checked: Result<
    (),
    PreparedStoreIssue,
>)
    ensures
        checked is Ok == (namespace@ == selected@),
        checked matches Err(issue) ==> issue@ == selected_state::invalid_record(
            operation@ + " selected a generation for another namespace"@,
        ),
{
    if !text_equal(namespace, selected) {
        return Err(
            refusal(concat2(operation, " selected a generation for another namespace")),
        );
    }
    Ok(())
}

/// What disabling the namespace of a generation selects.
pub open spec fn disable_decision(head: Seq<char>, current: Generation<Seq<char>>) -> Result<
    Selection<Seq<char>>,
    PreparedStoreIssue<Seq<char>>,
> {
    if current.lifecycle is Enabled {
        let point = point_at(head, current);
        Ok(
            Selection {
                description: TransitionDescription::Disable,
                next_lifecycle: Lifecycle::Disabled,
                desired: DesiredSnapshot::Empty,
                restore_point: Some(point),
                retained_point: Some(point),
                tracked_root: None,
                graph: GraphAuthority::Current,
                assert_absent: false,
            },
        )
    } else {
        refused("namespace "@ + current.namespace + " is already disabled"@)
    }
}

/// Decides what disabling a namespace selects.
pub fn disable(head: &str, current: &Generation) -> (decision: Result<
    Selection,
    PreparedStoreIssue,
>)
    ensures
        decision_view(decision) == disable_decision(head@, current@),
{
    if current.lifecycle != Lifecycle::Enabled {
        return Err(
            refusal(concat3("namespace ", current.namespace.as_str(), " is already disabled")),
        );
    }
    Ok(
        Selection {
            description: TransitionDescription::Disable,
            next_lifecycle: Lifecycle::Disabled,
            desired: DesiredSnapshot::Empty,
            restore_point: Some(restore_point_at(head, current)),
            retained_point: Some(restore_point_at(head, current)),
            tracked_root: None,
            graph: GraphAuthority::Current,
            assert_absent: false,
        },
    )
}

/// The restore point that enabling the namespace of a generation goes back to.
pub open spec fn enable_point(current: Generation<Seq<char>>) -> Result<
    RestorePoint<Seq<char>>,
    PreparedStoreIssue<Seq<char>>,
> {
    if current.lifecycle is Enabled {
        refused("namespace "@ + current.namespace + " is already enabled"@)
    } else {
        match current.restore_point {
            Some(point) => Ok(point),
            None => refused(
                "disabled namespace "@ + current.namespace + " has no explicit restore point"@,
            ),
        }
    }
}

/// Takes the restore point that enabling a namespace goes back to.
pub fn point_to_enable(current: &Generation) -> (decision: Result<
    RestorePoint,
    PreparedStoreIssue,
>)
    ensures
        decision_view(decision) == enable_point(current@),
{
    if current.lifecycle != Lifecycle::Disabled {
        return Err(
            refusal(concat3("namespace ", current.namespace.as_str(), " is already enabled")),
        );
    }
    match &current.restore_point {
        Some(point) => Ok(copy_point(point)),
        None => Err(
            refusal(
                concat3(
                    "disabled namespace ",
                    current.namespace.as_str(),
                    " has no explicit restore point",
                ),
            ),
        ),
    }
}

/// A retained generation is the one that a restore point was made at.
pub open spec fn is_restored_by(
    generation: Generation<Seq<char>>,
    point: RestorePoint<Seq<char>>,
) -> bool {
    point == point_at(point.generation, generation)
}

/// What enabling selects, with the generation that the restore point names.
pub open spec fn enable_decision(
    point: RestorePoint<Seq<char>>,
    restored: Generation<Seq<char>>,
) -> Result<Selection<Seq<char>>, PreparedStoreIssue<Seq<char>>> {
    if is_restored_by(restored, point) {
        Ok(
            Selection {
                description: TransitionDescription::Enable,
                next_lifecycle: Lifecycle::Enabled,
                desired: DesiredSnapshot::Retained,
                restore_point: None,
                retained_point: None,
                tracked_root: restored.tracked_root,
                graph: GraphAuthority::Retained,
                assert_absent: false,
            },
        )
    } else {
        refused("restore point does not match its retained generation"@)
    }
}

/// Decides what enabling selects, with the generation that the restore point names.
pub fn enable(point: &RestorePoint, restored: &Generation) -> (decision: Result<
    Selection,
    PreparedStoreIssue,
>)
    ensures
        decision_view(decision) == enable_decision(point@, restored@),
{
    if !text_equal(restored.namespace.as_str(), point.namespace.as_str())
        || restored.lifecycle != point.lifecycle || !text_equal(
        restored.snapshot_digest.as_str(),
        point.snapshot_digest.as_str(),
    ) || !optional_equal(&restored.tracked_root, &point.tracked_root) {
        return Err(
            refusal("restore point does not match its retained generation".to_owned()),
        );
    }
    proof {
        assert(point@ == point_at(point@.generation, restored@));
    }
    Ok(
        Selection {
            description: TransitionDescription::Enable,
            next_lifecycle: Lifecycle::Enabled,
            desired: DesiredSnapshot::Retained,
            restore_point: None,
            retained_point: None,
            tracked_root: copy_optional(&restored.tracked_root),
            graph: GraphAuthority::Retained,
            assert_absent: false,
        },
    )
}

/// What checking out a retained generation selects.
pub open spec fn checkout_selection(
    desired_head: Seq<char>,
    desired: Generation<Seq<char>>,
) -> Selection<Seq<char>> {
    Selection {
        description: TransitionDescription::Checkout(desired_head),
        next_lifecycle: desired.lifecycle,
        desired: if desired.lifecycle is Disabled {
            DesiredSnapshot::Empty
        } else {
            DesiredSnapshot::Reconciled
        },
        restore_point: desired.restore_point,
        retained_point: desired.restore_point,
        tracked_root: desired.tracked_root,
        graph: GraphAuthority::Retained,
        assert_absent: true,
    }
}

/// Selects what checking out a retained generation asks for.
pub fn checkout(desired_head: &str, desired: &Generation) -> (selection: Selection)
    ensures
        selection@ == checkout_selection(desired_head@, desired@),
{
    Selection {
        description: TransitionDescription::Checkout(desired_head.to_owned()),
        next_lifecycle: desired.lifecycle,
        desired: match desired.lifecycle {
            Lifecycle::Disabled => DesiredSnapshot::Empty,
            Lifecycle::Enabled => DesiredSnapshot::Reconciled,
        },
        restore_point: copy_optional_point(&desired.restore_point),
        retained_point: copy_optional_point(&desired.restore_point),
        tracked_root: copy_optional(&desired.tracked_root),
        graph: GraphAuthority::Retained,
        assert_absent: true,
    }
}

/// What removing a namespace selects.
pub open spec fn removal_selection() -> Selection<Seq<char>> {
    Selection {
        description: TransitionDescription::NamespaceRemoval,
        next_lifecycle: Lifecycle::Disabled,
        desired: DesiredSnapshot::Empty,
        restore_point: None,
        retained_point: None,
        tracked_root: None,
        graph: GraphAuthority::Nothing,
        assert_absent: false,
    }
}

/// Selects what removing a namespace asks for.
pub fn remove_namespace() -> (selection: Selection)
    ensures
        selection@ == removal_selection(),
{
    Selection {
        description: TransitionDescription::NamespaceRemoval,
        next_lifecycle: Lifecycle::Disabled,
        desired: DesiredSnapshot::Empty,
        restore_point: None,
        retained_point: None,
        tracked_root: None,
        graph: GraphAuthority::Nothing,
        assert_absent: false,
    }
}

/// An update of what a namespace retains.
#[derive(Debug, Clone, Copy, PartialEq, Eq, Structural)]
pub enum RetentionUpdate {
    HistoryPolicy,
    Pin,
    Unpin,
    AddRestorePoint,
    DropRestorePoint,
}

impl RetentionUpdate {
    /// The name of the update in plans.
    pub open spec fn code(self) -> Seq<char> {
        match self {
            RetentionUpdate::HistoryPolicy => "history-policy"@,
            RetentionUpdate::Pin => "pin"@,
            RetentionUpdate::Unpin => "unpin"@,
            RetentionUpdate::AddRestorePoint => "restore-point-add"@,
            RetentionUpdate::DropRestorePoint => "restore-point-drop"@,
        }
    }

    /// Returns the name of the update in plans.
    pub fn as_str(self) -> (name: &'static str)
        ensures
            name@ == self.code(),
    {
        match self {
            RetentionUpdate::HistoryPolicy => "history-policy",
            RetentionUpdate::Pin => "pin",
            RetentionUpdate::Unpin => "unpin",
            RetentionUpdate::AddRestorePoint => "restore-point-add",
            RetentionUpdate::DropRestorePoint => "restore-point-drop",
        }
    }

    /// The name of the update in refusals.
    pub open spec fn wording(self) -> Seq<char> {
        match self {
            RetentionUpdate::HistoryPolicy => "history policy"@,
            RetentionUpdate::Pin => "pin"@,
            RetentionUpdate::Unpin => "unpin"@,
            RetentionUpdate::AddRestorePoint | RetentionUpdate::DropRestorePoint =>
                "restore point"@,
        }
    }

    /// Returns the name of the update in refusals.
    pub fn operation(self) -> (name: &'static str)
        ensures
            name@ == self.wording(),
    {
        match self {
            RetentionUpdate::HistoryPolicy => "history policy",
            RetentionUpdate::Pin => "pin",
            RetentionUpdate::Unpin => "unpin",
            RetentionUpdate::AddRestorePoint | RetentionUpdate::DropRestorePoint =>
                "restore point",
        }
    }
}

/// What an update of what is retained selects: the current state as it is.
pub open spec fn update_selection(
    update: RetentionUpdate,
    current: Generation<Seq<char>>,
) -> Selection<Seq<char>> {
    Selection {
        description: TransitionDescription::RetentionAuthority(update.code()),
        next_lifecycle: current.lifecycle,
        desired: DesiredSnapshot::Current,
        restore_point: current.restore_point,
        retained_point: None,
        tracked_root: current.tracked_root,
        graph: GraphAuthority::Current,
        assert_absent: false,
    }
}

/// Selects what an update of what is retained asks for.
pub fn update_retention(update: RetentionUpdate, current: &Generation) -> (selection: Selection)
    ensures
        selection@ == update_selection(update, current@),
{
    Selection {
        description: TransitionDescription::RetentionAuthority(update.as_str().to_owned()),
        next_lifecycle: current.lifecycle,
        desired: DesiredSnapshot::Current,
        restore_point: copy_optional_point(&current.restore_point),
        retained_point: None,
        tracked_root: copy_optional(&current.tracked_root),
        graph: GraphAuthority::Current,
        assert_absent: false,
    }
}

/// The restore point to add at a generation, asked for in a namespace.
pub open spec fn added_point(
    namespace: Seq<char>,
    digest: Seq<char>,
    source: Generation<Seq<char>>,
) -> Result<RestorePoint<Seq<char>>, PreparedStoreIssue<Seq<char>>> {
    if source.namespace == namespace {
        Ok(point_at(digest, source))
    } else {
        refused("restore point generation belongs to another namespace"@)
    }
}

/// Decides which restore point to add at a generation, asked for in a namespace.
pub fn point_to_add(namespace: &str, digest: &str, source: &Generation) -> (decision: Result<
    RestorePoint,
    PreparedStoreIssue,
>)
    ensures
        decision_view(decision) == added_point(namespace@, digest@, source@),
{
    if !text_equal(source.namespace.as_str(), namespace) {
        return Err(
            refusal("restore point generation belongs to another namespace".to_owned()),
        );
    }
    Ok(restore_point_at(digest, source))
}

/// The current generation selects a restore point itself.
pub open spec fn selects_point(current: Generation<Seq<char>>, digest: Seq<char>) -> bool {
    current.restore_point matches Some(point) && point.generation == digest
}

/// Checks that a restore point can be dropped: the current generation must not select it.
pub fn check_dropped_point(current: &Generation, digest: &str) -> (checked: Result<
    (),
    PreparedStoreIssue,
>)
    ensures
        checked is Ok == !selects_point(current@, digest@),
        checked matches Err(issue) ==> issue@ == selected_state::invalid_record(
            "cannot drop the restore point selected by a disabled generation"@,
        ),
{
    match &current.restore_point {
        Some(point) => {
            if text_equal(point.generation.as_str(), digest) {
                return Err(
                    refusal(
                        "cannot drop the restore point selected by a disabled generation".to_owned(),
                    ),
                );
            }
        },
        None => {},
    }
    Ok(())
}

/// The generation that a selection leads to, with the digest of the snapshot that it desires.
pub open spec fn next_generation(
    namespace: Seq<char>,
    selection: Selection<Seq<char>>,
    snapshot_digest: Seq<char>,
) -> Generation<Seq<char>> {
    Generation {
        namespace,
        lifecycle: selection.next_lifecycle,
        snapshot_digest,
        tracked_root: selection.tracked_root,
        restore_point: selection.restore_point,
    }
}

/// Enabling undoes disabling: what disabling an enabled generation leads to can be enabled,
/// from a restore point at that very generation, and enabling takes over its lifecycle, its
/// snapshot and its tracked root.
pub proof fn lemma_enabling_undoes_disabling(
    head: Seq<char>,
    current: Generation<Seq<char>>,
    empty_digest: Seq<char>,
)
    requires
        current.lifecycle is Enabled,
    ensures
        ({
            let disabled = disable_decision(head, current);
            let next = next_generation(current.namespace, disabled->Ok_0, empty_digest);
            let point = enable_point(next);
            let enabled = enable_decision(point->Ok_0, current);
            &&& disabled is Ok
            &&& point is Ok
            &&& point->Ok_0.generation == head
            &&& enabled is Ok
            &&& enabled->Ok_0.next_lifecycle == current.lifecycle
            &&& enabled->Ok_0.desired is Retained
            &&& enabled->Ok_0.tracked_root == current.tracked_root
        }),
{
}

/// A namespace can be disabled or enabled, never both.
pub proof fn lemma_disabling_and_enabling_exclude(
    head: Seq<char>,
    current: Generation<Seq<char>>,
)
    ensures
        disable_decision(head, current) is Ok ==> enable_point(current) is Err,
        enable_point(current) is Ok ==> disable_decision(head, current) is Err,
{
}

/// An update of what is retained leaves the state of a generation as it is.
pub proof fn lemma_retention_updates_keep_the_state(
    update: RetentionUpdate,
    current: Generation<Seq<char>>,
)
    ensures
        ({
            let selection = update_selection(update, current);
            &&& selection.desired is Current
            &&& next_generation(current.namespace, selection, current.snapshot_digest) == current
        }),
{
}

/// Checking out a generation leads back to its state: with its snapshot, the next generation is
/// the one that is checked out. It desires the snapshot of the retained generation exactly where
/// that one deploys it.
pub proof fn lemma_checkout_leads_back_to_the_generation(
    desired_head: Seq<char>,
    desired: Generation<Seq<char>>,
)
    ensures
        ({
            let selection = checkout_selection(desired_head, desired);
            &&& next_generation(desired.namespace, selection, desired.snapshot_digest) == desired
            &&& selection.next_lifecycle is Enabled <==> selection.desired is Reconciled
            &&& selection.next_lifecycle is Disabled <==> selection.desired is Empty
            &&& selection.description == TransitionDescription::Checkout(desired_head)
            &&& selection.retained_point == desired.restore_point
            &&& selection.graph is Retained
            &&& selection.assert_absent
        }),
{
}

/// Disabling and enabling again leads back to the generation that was disabled: with its
/// snapshot, the next generation is that one. In between nothing is deployed.
pub proof fn lemma_disabling_and_enabling_lead_back(
    head: Seq<char>,
    current: Generation<Seq<char>>,
    empty_digest: Seq<char>,
)
    requires
        current.lifecycle is Enabled,
        current.restore_point is None,
    ensures
        ({
            let disabled = disable_decision(head, current)->Ok_0;
            let between = next_generation(current.namespace, disabled, empty_digest);
            let point = enable_point(between)->Ok_0;
            let enabled = enable_decision(point, current)->Ok_0;
            &&& between.lifecycle is Disabled
            &&& between.tracked_root is None
            &&& disabled.desired is Empty
            &&& disabled.retained_point == disabled.restore_point
            &&& disabled.graph is Current
            &&& enabled.graph is Retained
            &&& point.snapshot_digest == current.snapshot_digest
            &&& next_generation(point.namespace, enabled, point.snapshot_digest) == current
        }),
{
}

/// Exactly an enabled namespace can be disabled, and exactly a disabled one with a restore point
/// can be enabled, from that very point.
pub proof fn lemma_lifecycle_decides_what_is_possible(
    head: Seq<char>,
    current: Generation<Seq<char>>,
)
    ensures
        disable_decision(head, current) is Ok <==> current.lifecycle is Enabled,
        enable_point(current) is Ok <==> current.lifecycle is Disabled && current.restore_point
            is Some,
        enable_point(current) matches Ok(point) ==> current.restore_point == Some(point),
        disable_decision(head, current) matches Ok(selection) ==> selection.restore_point matches Some(
            point,
        ) && point.generation == head,
{
}

/// A restore point tells everything of the generation that it was made at: two generations with
/// the same restore point agree in their namespace, lifecycle, snapshot and tracked root.
pub proof fn lemma_restore_points_tell_their_generation(
    digest: Seq<char>,
    left: Generation<Seq<char>>,
    right: Generation<Seq<char>>,
)
    ensures
        point_at(digest, left).generation == digest,
        is_restored_by(left, point_at(digest, left)),
        point_at(digest, left) == point_at(digest, right) ==> left.namespace == right.namespace
            && left.lifecycle == right.lifecycle && left.snapshot_digest == right.snapshot_digest
            && left.tracked_root == right.tracked_root,
{
}

/// Enabling refuses every generation but the one that the restore point tells of.
pub proof fn lemma_enabling_needs_the_restored_generation(
    point: RestorePoint<Seq<char>>,
    restored: Generation<Seq<char>>,
)
    ensures
        enable_decision(point, restored) is Ok <==> restored.namespace == point.namespace
            && restored.lifecycle == point.lifecycle && restored.snapshot_digest
            == point.snapshot_digest && restored.tracked_root == point.tracked_root,
        enable_decision(point, restored) matches Ok(selection) ==> selection.tracked_root
            == point.tracked_root && selection.next_lifecycle is Enabled && selection.desired
            is Retained && selection.restore_point is None,
{
}

/// A restore point is added only for a generation of its own namespace, and tells of that
/// generation.
pub proof fn lemma_added_points_stay_in_their_namespace(
    namespace: Seq<char>,
    digest: Seq<char>,
    source: Generation<Seq<char>>,
)
    ensures
        added_point(namespace, digest, source) is Ok <==> source.namespace == namespace,
        added_point(namespace, digest, source) matches Ok(point) ==> point.namespace == namespace
            && point.generation == digest && point.lifecycle == source.lifecycle
            && point.snapshot_digest == source.snapshot_digest && point.tracked_root
            == source.tracked_root,
{
}

/// Removing a namespace leaves nothing deployed and nothing to go back to.
pub proof fn lemma_removal_leaves_nothing(namespace: Seq<char>, digest: Seq<char>)
    ensures
        ({
            let selection = removal_selection();
            let next = next_generation(namespace, selection, digest);
            &&& selection.desired is Empty
            &&& selection.graph is Nothing
            &&& selection.retained_point is None
            &&& next.lifecycle is Disabled
            &&& next.tracked_root is None
            &&& enable_point(next) is Err
        }),
{
}

/// What a target of a snapshot holds.
#[derive(Debug)]
pub enum TargetContent<T = String> {
    Absent,
    Directory,
    File { digest: T, byte_len: u64 },
    Symlink { object: T },
    Tree { tree: T },
}

impl View for TargetContent<String> {
    type V = TargetContent<Seq<char>>;

    open spec fn view(&self) -> TargetContent<Seq<char>> {
        match *self {
            TargetContent::Absent => TargetContent::Absent,
            TargetContent::Directory => TargetContent::Directory,
            TargetContent::File { digest, byte_len } => TargetContent::File {
                digest: digest@,
                byte_len,
            },
            TargetContent::Symlink { object } => TargetContent::Symlink { object: object@ },
            TargetContent::Tree { tree } => TargetContent::Tree { tree: tree@ },
        }
    }
}

/// A target holds a file with this digest.
pub open spec fn is_file(content: TargetContent<Seq<char>>, digest: Seq<char>) -> bool {
    match content {
        TargetContent::File { digest: held, byte_len: _ } => held == digest,
        _ => false,
    }
}

/// Some target holds a file with this digest.
pub open spec fn has_file(contents: Seq<TargetContent<Seq<char>>>, digest: Seq<char>) -> bool {
    exists|i: int| 0 <= i < contents.len() && is_file(#[trigger] contents[i], digest)
}

/// What must be found retained before a snapshot is selected: every symlink and tree, and
/// the first file of every digest, in the order of the targets.
pub open spec fn required_contents(contents: Seq<TargetContent<Seq<char>>>) -> Seq<
    TargetContent<Seq<char>>,
>
    decreases contents.len(),
{
    if contents.len() == 0 {
        Seq::empty()
    } else {
        let before = required_contents(contents.drop_last());
        match contents.last() {
            TargetContent::Absent | TargetContent::Directory => before,
            TargetContent::File { digest, byte_len: _ } => if has_file(
                contents.drop_last(),
                digest,
            ) {
                before
            } else {
                before.push(contents.last())
            },
            _ => before.push(contents.last()),
        }
    }
}

fn holds_file(contents: &Vec<TargetContent>, count: usize, digest: &str) -> (found: bool)
    requires
        count <= contents.len(),
    ensures
        found == has_file(seqs::views(contents@).take(count as int), digest@),
{
    let ghost all = seqs::views(contents@).take(count as int);
    let mut i: usize = 0;
    while i < count
        invariant
            i <= count <= contents.len(),
            all == seqs::views(contents@).take(count as int),
            forall|k: int| 0 <= k < i ==> !is_file(#[trigger] all[k], digest@),
        decreases count - i,
    {
        proof {
            assert(all[i as int] == contents@[i as int]@);
        }
        match &contents[i] {
            TargetContent::File { digest: held, byte_len: _ } => {
                if text_equal(held.as_str(), digest) {
                    return true;
                }
            },
            _ => {},
        }
        i = i + 1;
    }
    false
}

/// Lists what must be found retained before a snapshot is selected.
pub fn retained_contents(contents: &Vec<TargetContent>) -> (required: Vec<TargetContent>)
    ensures
        seqs::views(required@) == required_contents(seqs::views(contents@)),
{
    let ghost all = seqs::views(contents@);
    let mut required: Vec<TargetContent> = Vec::new();
    let mut i: usize = 0;
    proof {
        assert(all.take(0) =~= Seq::<TargetContent<Seq<char>>>::empty());
        assert(seqs::views(required@) =~= Seq::<TargetContent<Seq<char>>>::empty());
    }
    while i < contents.len()
        invariant
            i <= contents.len(),
            all == seqs::views(contents@),
            seqs::views(required@) == required_contents(all.take(i as int)),
        decreases contents.len() - i,
    {
        proof {
            assert(all.take(i + 1).drop_last() =~= all.take(i as int));
            assert(all.take(i + 1).last() == contents@[i as int]@);
        }
        let ghost before = required@;
        match &contents[i] {
            TargetContent::Absent | TargetContent::Directory => {},
            TargetContent::File { digest, byte_len } => {
                if !holds_file(contents, i, digest.as_str()) {
                    required.push(
                        TargetContent::File { digest: digest.clone(), byte_len: *byte_len },
                    );
                    proof {
                        assert(seqs::views(required@) =~= seqs::views(before).push(all[i as int]));
                    }
                }
            },
            TargetContent::Symlink { object } => {
                required.push(TargetContent::Symlink { object: object.clone() });
                proof {
                    assert(seqs::views(required@) =~= seqs::views(before).push(all[i as int]));
                }
            },
            TargetContent::Tree { tree } => {
                required.push(TargetContent::Tree { tree: tree.clone() });
                proof {
                    assert(seqs::views(required@) =~= seqs::views(before).push(all[i as int]));
                }
            },
        }
        i = i + 1;
    }
    proof {
        assert(all.take(all.len() as int) =~= all);
    }
    required
}

/// Whatever a snapshot holds must be found retained: its symlinks, its trees, and a file of each
/// digest. Nothing else is asked for.
pub proof fn lemma_retained_contents_cover_the_snapshot(
    contents: Seq<TargetContent<Seq<char>>>,
    index: int,
)
    requires
        0 <= index < contents.len(),
    ensures
        (contents[index] is Symlink || contents[index] is Tree) ==> required_contents(
            contents,
        ).contains(contents[index]),
        contents[index] matches TargetContent::File { digest, byte_len: _ } ==> exists|k: int|
            0 <= k < required_contents(contents).len() && (#[trigger] required_contents(contents)[k]
                matches TargetContent::File { digest: held, byte_len: _ } && held == digest),
    decreases contents.len(),
{
    let before = contents.drop_last();
    let fewer = required_contents(before);
    let all = required_contents(contents);
    assert(all == fewer || all == fewer.push(contents.last()));
    assert forall|k: int| 0 <= k < fewer.len() implies all[k] == #[trigger] fewer[k] by {}
    if index < before.len() {
        assert(before[index] == contents[index]);
        lemma_retained_contents_cover_the_snapshot(before, index);
        if fewer.contains(contents[index]) {
            let k = choose|k: int| 0 <= k < fewer.len() && fewer[k] == contents[index];
            assert(all[k] == contents[index]);
        }
        if let TargetContent::File { digest, byte_len: _ } = contents[index] {
            let k = choose|k: int|
                0 <= k < fewer.len() && (#[trigger] fewer[k] matches TargetContent::File {
                    digest: held,
                    byte_len: _,
                } && held == digest);
            assert(all[k] == fewer[k]);
        }
    } else {
        match contents[index] {
            TargetContent::File { digest, byte_len: _ } => {
                if has_file(before, digest) {
                    let i = choose|i: int|
                        0 <= i < before.len() && is_file(#[trigger] before[i], digest);
                    lemma_retained_contents_cover_the_snapshot(before, i);
                    let k = choose|k: int|
                        0 <= k < fewer.len() && (#[trigger] fewer[k] matches TargetContent::File {
                            digest: held,
                            byte_len: _,
                        } && held == digest);
                    assert(all[k] == fewer[k]);
                } else {
                    assert(all[fewer.len() as int] == contents[index]);
                }
            },
            TargetContent::Absent | TargetContent::Directory => {},
            _ => {
                assert(all[fewer.len() as int] == contents[index]);
            },
        }
    }
}

/// What must be found retained is in the snapshot, and no digest of a file is asked for twice.
pub proof fn lemma_retained_contents_are_of_the_snapshot(
    contents: Seq<TargetContent<Seq<char>>>,
    index: int,
)
    requires
        0 <= index < required_contents(contents).len(),
    ensures
        contents.contains(required_contents(contents)[index]),
        required_contents(contents)[index] !is Absent,
        required_contents(contents)[index] !is Directory,
        forall|k: int|
            0 <= k < index ==> match (
                #[trigger] required_contents(contents)[k],
                required_contents(contents)[index],
            ) {
                (
                    TargetContent::File { digest: one, byte_len: _ },
                    TargetContent::File { digest: other, byte_len: _ },
                ) => one != other,
                _ => true,
            },
    decreases contents.len(),
{
    let before = contents.drop_last();
    let fewer = required_contents(before);
    let all = required_contents(contents);
    assert(all == fewer || all == fewer.push(contents.last()));
    if index < fewer.len() {
        lemma_retained_contents_are_of_the_snapshot(before, index);
        assert(all[index] == fewer[index]);
        let i = choose|i: int| 0 <= i < before.len() && before[i] == fewer[index];
        assert(contents[i] == all[index]);
        assert forall|k: int| 0 <= k < index implies match (#[trigger] all[k], all[index]) {
            (
                TargetContent::File { digest: one, byte_len: _ },
                TargetContent::File { digest: other, byte_len: _ },
            ) => one != other,
            _ => true,
        } by {
            assert(all[k] == fewer[k]);
        }
    } else {
        assert(contents[contents.len() - 1] == all[index]);
        assert forall|k: int| 0 <= k < index implies match (#[trigger] all[k], all[index]) {
            (
                TargetContent::File { digest: one, byte_len: _ },
                TargetContent::File { digest: other, byte_len: _ },
            ) => one != other,
            _ => true,
        } by {
            assert(all[k] == fewer[k]);
            lemma_retained_contents_are_of_the_snapshot(before, k);
            let i = choose|i: int| 0 <= i < before.len() && before[i] == fewer[k];
            if let TargetContent::File { digest: one, byte_len: _ } = all[k] {
                assert(is_file(before[i], one));
            }
        }
    }
}

} // verus!
