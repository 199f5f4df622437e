//! Reusing the evaluation of a retained plan whose inputs are byte-identical.
//!
//! Evaluation is deterministic over the inputs that a plan captured. A retained plan with the
//! same inputs therefore holds the same artifacts, operations, findings and provenance. What
//! depends on the live targets is derived anew.

use vstd::prelude::*;

use crate::error::{EngineError, PreparedStoreIssue};
use crate::plan::{copy_finding, Action, Finding, Operation, PlanInput};
use crate::seqs;
use crate::text;
use crate::text::{concat3, text_contains, text_equal, text_starts_with};

verus! {

/// Generations that are looked at first.
pub const SHALLOW_WALK: usize = 2;

/// Generations that are looked at in all.
pub const MAX_REUSE_WALK: usize = 8;

/// A finding with this code is derived from the live targets, and not taken over.
pub open spec fn is_regenerated(code: Seq<char>) -> bool {
    ||| code == "replace-existing"@
    ||| code == "remove-existing"@
    ||| code == "restore-modified"@
    ||| code == "restore-missing"@
    ||| code == "restore-missing-directory"@
    ||| code == "AUTHORING-OVERLAY-APPLIED"@
    ||| code == "AUTHORING-EVALUATION-REUSED"@
    ||| code == "AUTHORING-TRANSFORMS-CARRIED"@
}

/// Tells whether a finding with this code is derived from the live targets.
pub fn code_is_regenerated(code: &str) -> (regenerated: bool)
    ensures
        regenerated == is_regenerated(code@),
{
    text_equal(code, "replace-existing") || text_equal(code, "remove-existing") || text_equal(
        code,
        "restore-modified",
    ) || text_equal(code, "restore-missing") || text_equal(code, "restore-missing-directory")
        || text_equal(code, "AUTHORING-OVERLAY-APPLIED") || text_equal(
        code,
        "AUTHORING-EVALUATION-REUSED",
    ) || text_equal(code, "AUTHORING-TRANSFORMS-CARRIED")
}

/// An input with this name follows from the core inputs.
pub open spec fn is_derived(name: Seq<char>) -> bool {
    "format-component:"@.is_prefix_of(name) || "asset:"@.is_prefix_of(name)
}

/// Tells whether an input with this name follows from the core inputs.
pub fn name_is_derived(name: &str) -> (derived: bool)
    ensures
        derived == is_derived(name@),
{
    text_starts_with(name, "format-component:") || text_starts_with(name, "asset:")
}

/// No two inputs have the same name.
pub open spec fn names_differ(inputs: Seq<PlanInput<Seq<char>>>) -> bool {
    forall|i: int, j: int|
        0 <= i < j < inputs.len() ==> (#[trigger] inputs[i]).name != (#[trigger] inputs[j]).name
}

/// Some input has this name.
pub open spec fn has_name(inputs: Seq<PlanInput<Seq<char>>>, name: Seq<char>) -> bool {
    exists|i: int| 0 <= i < inputs.len() && (#[trigger] inputs[i]).name == name
}

/// Some input has this name and this digest.
pub open spec fn has_input(
    inputs: Seq<PlanInput<Seq<char>>>,
    name: Seq<char>,
    digest: Seq<char>,
) -> bool {
    exists|i: int|
        0 <= i < inputs.len() && (#[trigger] inputs[i]).name == name && inputs[i].digest == digest
}

/// A record holds every core input byte-identically, and beyond them only inputs that follow
/// from them.
pub open spec fn matches_core(
    recorded: Seq<PlanInput<Seq<char>>>,
    core: Seq<PlanInput<Seq<char>>>,
) -> bool {
    &&& names_differ(recorded)
    &&& forall|i: int|
        0 <= i < core.len() ==> has_input(recorded, (#[trigger] core[i]).name, core[i].digest)
    &&& forall|i: int|
        0 <= i < recorded.len() ==> has_name(core, (#[trigger] recorded[i]).name) || is_derived(
            recorded[i].name,
        )
}

fn named_input(inputs: &Vec<PlanInput>, start: usize, name: &str) -> (index: Option<usize>)
    requires
        start <= inputs.len(),
    ensures
        match index {
            Some(at) => start <= at < inputs.len() && inputs@[at as int].name@ == name@ && forall|
                k: int,
            |
                start <= k < at ==> (#[trigger] inputs@[k]).name@ != name@,
            None => forall|k: int|
                start <= k < inputs@.len() ==> (#[trigger] inputs@[k]).name@ != name@,
        },
{
    let mut i: usize = start;
    while i < inputs.len()
        invariant
            start <= i <= inputs.len(),
            forall|k: int| start <= k < i ==> (#[trigger] inputs@[k]).name@ != name@,
        decreases inputs.len() - i,
    {
        if text_equal(inputs[i].name.as_str(), name) {
            return Some(i);
        }
        i = i + 1;
    }
    None
}

/// Tells whether a record captured exactly the core inputs.
pub fn record_matches_core(recorded: &Vec<PlanInput>, core: &Vec<PlanInput>) -> (matched: bool)
    ensures
        matched == matches_core(seqs::views(recorded@), seqs::views(core@)),
{
    let ghost all = seqs::views(recorded@);
    let ghost wanted = seqs::views(core@);
    proof {
        assert(forall|k: int| 0 <= k < all.len() ==> #[trigger] all[k] == recorded@[k]@);
        assert(forall|k: int| 0 <= k < wanted.len() ==> #[trigger] wanted[k] == core@[k]@);
    }
    let mut i: usize = 0;
    while i < recorded.len()
        invariant
            i <= recorded.len(),
            all == seqs::views(recorded@),
            forall|k: int| 0 <= k < all.len() ==> #[trigger] all[k] == recorded@[k]@,
            forall|j: int, k: int|
                0 <= j < i && j < k < all.len() ==> (#[trigger] all[j]).name
                    != (#[trigger] all[k]).name,
        decreases recorded.len() - i,
    {
        match named_input(recorded, i + 1, recorded[i].name.as_str()) {
            Some(at) => {
                proof {
                    assert(all[i as int].name == all[at as int].name);
                }
                return false;
            },
            None => {},
        }
        i = i + 1;
    }
    let mut i: usize = 0;
    while i < core.len()
        invariant
            i <= core.len(),
            all == seqs::views(recorded@),
            wanted == seqs::views(core@),
            names_differ(all),
            forall|k: int| 0 <= k < all.len() ==> #[trigger] all[k] == recorded@[k]@,
            forall|k: int| 0 <= k < wanted.len() ==> #[trigger] wanted[k] == core@[k]@,
            forall|k: int|
                0 <= k < i ==> has_input(all, (#[trigger] wanted[k]).name, wanted[k].digest),
        decreases core.len() - i,
    {
        match named_input(recorded, 0, core[i].name.as_str()) {
            Some(at) => {
                if !text_equal(recorded[at].digest.as_str(), core[i].digest.as_str()) {
                    proof {
                        let name = wanted[i as int].name;
                        let digest = wanted[i as int].digest;
                        if has_input(all, name, digest) {
                            let k = choose|k: int|
                                0 <= k < all.len() && (#[trigger] all[k]).name == name
                                    && all[k].digest == digest;
                            assert(all[at as int].name == name);
                            if k < at {
                                assert(all[k].name != all[at as int].name);
                            } else if at < k {
                                assert(all[at as int].name != all[k].name);
                            }
                        }
                        assert(!has_input(all, name, digest));
                    }
                    return false;
                }
                proof {
                    assert(all[at as int].name == wanted[i as int].name);
                }
            },
            None => {
                proof {
                    let name = wanted[i as int].name;
                    assert forall|k: int| 0 <= k < all.len() implies (#[trigger] all[k]).name
                        != name by {}
                    assert(!has_input(all, name, wanted[i as int].digest));
                }
                return false;
            },
        }
        i = i + 1;
    }
    let mut i: usize = 0;
    while i < recorded.len()
        invariant
            i <= recorded.len(),
            all == seqs::views(recorded@),
            wanted == seqs::views(core@),
            forall|k: int| 0 <= k < all.len() ==> #[trigger] all[k] == recorded@[k]@,
            forall|k: int| 0 <= k < wanted.len() ==> #[trigger] wanted[k] == core@[k]@,
            forall|k: int|
                0 <= k < i ==> has_name(wanted, (#[trigger] all[k]).name) || is_derived(
                    all[k].name,
                ),
        decreases recorded.len() - i,
    {
        match named_input(core, 0, recorded[i].name.as_str()) {
            Some(at) => {
                proof {
                    assert(wanted[at as int].name == all[i as int].name);
                }
            },
            None => {
                if !name_is_derived(recorded[i].name.as_str()) {
                    proof {
                        let name = all[i as int].name;
                        assert forall|k: int| 0 <= k < wanted.len() implies (#[trigger] wanted[k]).name
                            != name by {}
                        assert(!has_name(wanted, name));
                    }
                    return false;
                }
            },
        }
        i = i + 1;
    }
    true
}

/// Where a record with core inputs matches other core inputs too, the two lists agree: every
/// input of one that is not derived stands in the other with the same digest.
pub proof fn lemma_reused_inputs_agree(
    recorded: Seq<PlanInput<Seq<char>>>,
    core: Seq<PlanInput<Seq<char>>>,
    index: int,
)
    requires
        matches_core(recorded, core),
        0 <= index < recorded.len(),
        !is_derived(recorded[index].name),
    ensures
        has_input(core, recorded[index].name, recorded[index].digest),
{
    let name = recorded[index].name;
    assert(has_name(core, name));
    let c = choose|c: int| 0 <= c < core.len() && (#[trigger] core[c]).name == name;
    assert(has_input(recorded, core[c].name, core[c].digest));
    let r = choose|r: int|
        0 <= r < recorded.len() && (#[trigger] recorded[r]).name == core[c].name
            && recorded[r].digest == core[c].digest;
    if r < index {
        assert(recorded[r].name != recorded[index].name);
    } else if index < r {
        assert(recorded[index].name != recorded[r].name);
    }
    assert(core[c].name == name && core[c].digest == recorded[index].digest);
}

/// The findings that are taken over, in their order.
pub open spec fn carried_findings(findings: Seq<Finding<Seq<char>>>) -> Seq<Finding<Seq<char>>>
    decreases findings.len(),
{
    if findings.len() == 0 {
        Seq::empty()
    } else {
        let before = carried_findings(findings.drop_last());
        if is_regenerated(findings.last().code) {
            before
        } else {
            before.push(findings.last())
        }
    }
}

/// The finding that tells of the reuse.
pub open spec fn reuse_notice(plan_id: Seq<char>) -> Finding<Seq<char>> {
    Finding {
        code: "AUTHORING-EVALUATION-REUSED"@,
        message: "evaluation reused from plan "@ + plan_id
            + ": every captured evaluation input is byte-identical"@,
        approval_required: false,
    }
}

/// The finding that tells of carried provenance.
pub open spec fn carry_notice(plan_id: Seq<char>) -> Finding<Seq<char>> {
    Finding {
        code: "AUTHORING-TRANSFORMS-CARRIED"@,
        message: "output transform provenance carried from plan "@ + plan_id
            + ": every captured evaluation input is byte-identical"@,
        approval_required: false,
    }
}

/// The findings of a reused evaluation.
pub open spec fn reused_findings_of(
    plan_id: Seq<char>,
    findings: Seq<Finding<Seq<char>>>,
    has_transforms: bool,
) -> Seq<Finding<Seq<char>>> {
    let noticed = carried_findings(findings).push(reuse_notice(plan_id));
    if has_transforms {
        noticed.push(carry_notice(plan_id))
    } else {
        noticed
    }
}

/// Builds the findings of a reused evaluation.
pub fn reused_findings(plan_id: &str, findings: &Vec<Finding>, has_transforms: bool) -> (reused:
    Vec<Finding>)
    ensures
        seqs::views(reused@) == reused_findings_of(
            plan_id@,
            seqs::views(findings@),
            has_transforms,
        ),
{
    let ghost all = seqs::views(findings@);
    let mut reused: Vec<Finding> = Vec::new();
    let mut i: usize = 0;
    proof {
        assert(all.take(0) =~= Seq::<Finding<Seq<char>>>::empty());
        assert(seqs::views(reused@) =~= Seq::<Finding<Seq<char>>>::empty());
    }
    while i < findings.len()
        invariant
            i <= findings.len(),
            all == seqs::views(findings@),
            seqs::views(reused@) == carried_findings(all.take(i as int)),
        decreases findings.len() - i,
    {
        let finding = &findings[i];
        proof {
            assert(all.take(i + 1).drop_last() =~= all.take(i as int));
            assert(all.take(i + 1).last() == finding@);
        }
        if !code_is_regenerated(finding.code.as_str()) {
            let ghost before = reused@;
            reused.push(copy_finding(finding));
            proof {
                assert(seqs::views(reused@) =~= seqs::views(before).push(finding@));
            }
        }
        i = i + 1;
    }
    proof {
        assert(all.take(all.len() as int) =~= all);
    }
    let ghost carried = reused@;
    reused.push(
        Finding {
            code: "AUTHORING-EVALUATION-REUSED".to_owned(),
            message: concat3(
                "evaluation reused from plan ",
                plan_id,
                ": every captured evaluation input is byte-identical",
            ),
            approval_required: false,
        },
    );
    let ghost noticed = reused@;
    proof {
        assert(seqs::views(reused@) =~= seqs::views(carried).push(reuse_notice(plan_id@)));
    }
    if has_transforms {
        reused.push(
            Finding {
                code: "AUTHORING-TRANSFORMS-CARRIED".to_owned(),
                message: concat3(
                    "output transform provenance carried from plan ",
                    plan_id,
                    ": every captured evaluation input is byte-identical",
                ),
                approval_required: false,
            },
        );
        proof {
            assert(seqs::views(reused@) =~= seqs::views(noticed).push(carry_notice(plan_id@)));
        }
    }
    reused
}

proof fn lemma_carried(findings: Seq<Finding<Seq<char>>>, index: int)
    requires
        0 <= index < carried_findings(findings).len(),
    ensures
        !is_regenerated(carried_findings(findings)[index].code),
    decreases findings.len(),
{
    if index < carried_findings(findings.drop_last()).len() {
        lemma_carried(findings.drop_last(), index);
    }
}

/// The findings of a reused evaluation hold exactly one notice of the reuse, with the plan
/// that it came from, however often the evaluation was reused before.
pub proof fn lemma_reuse_is_noticed_once(
    plan_id: Seq<char>,
    findings: Seq<Finding<Seq<char>>>,
    has_transforms: bool,
)
    ensures
        ({
            let reused = reused_findings_of(plan_id, findings, has_transforms);
            let at = carried_findings(findings).len() as int;
            &&& at < reused.len()
            &&& reused[at] == reuse_notice(plan_id)
            &&& forall|i: int|
                0 <= i < reused.len() && i != at ==> (#[trigger] reused[i]).code
                    != "AUTHORING-EVALUATION-REUSED"@
        }),
{
    let reused = reused_findings_of(plan_id, findings, has_transforms);
    let carried = carried_findings(findings);
    let at = carried.len() as int;
    reveal_strlit("AUTHORING-EVALUATION-REUSED");
    reveal_strlit("AUTHORING-TRANSFORMS-CARRIED");
    assert forall|i: int| 0 <= i < reused.len() && i != at implies (#[trigger] reused[i]).code
        != "AUTHORING-EVALUATION-REUSED"@ by {
        if i < at {
            lemma_carried(findings, i);
            assert(reused[i] == carried[i]);
        } else {
            assert(reused[i] == carry_notice(plan_id));
            assert("AUTHORING-EVALUATION-REUSED"@.len() == 27);
            assert("AUTHORING-TRANSFORMS-CARRIED"@.len() == 28);
        }
    }
}

/// The operations that are taken over, in their order: removals are derived anew.
pub open spec fn carried_operations(operations: Seq<Operation<Seq<char>>>) -> Seq<
    Operation<Seq<char>>,
>
    decreases operations.len(),
{
    if operations.len() == 0 {
        Seq::empty()
    } else {
        let before = carried_operations(operations.drop_last());
        if operations.last().action is RemoveLeaf {
            before
        } else {
            before.push(operations.last())
        }
    }
}

/// Takes over the operations of a retained plan.
pub fn reused_operations(operations: Vec<Operation>) -> (reused: Vec<Operation>)
    ensures
        seqs::views(reused@) == carried_operations(seqs::views(operations@)),
{
    let ghost all = seqs::views(operations@);
    let mut reused: Vec<Operation> = Vec::new();
    proof {
        assert(all.take(0) =~= Seq::<Operation<Seq<char>>>::empty());
        assert(seqs::views(reused@) =~= Seq::<Operation<Seq<char>>>::empty());
    }
    for operation in it: operations.into_iter()
        invariant
            all == seqs::views(it.seq()),
            it.index() <= it.seq().len(),
            seqs::views(reused@) == carried_operations(all.take(it.index() as int)),
    {
        proof {
            let i = it.index() as int;
            assert(all.take(i + 1).drop_last() =~= all.take(i));
            assert(all.take(i + 1).last() == operation@);
        }
        let kept = match &operation.action {
            Action::RemoveLeaf => false,
            _ => true,
        };
        if kept {
            let ghost before = reused@;
            let ghost viewed = operation@;
            reused.push(operation);
            proof {
                assert(seqs::views(reused@) =~= seqs::views(before).push(viewed));
            }
        }
    }
    proof {
        assert(all.take(all.len() as int) =~= all);
    }
    reused
}

/// No removal is taken over from a retained plan.
pub proof fn lemma_removals_are_derived_anew(operations: Seq<Operation<Seq<char>>>, index: int)
    requires
        0 <= index < carried_operations(operations).len(),
    ensures
        carried_operations(operations)[index].action !is RemoveLeaf,
        operations.contains(carried_operations(operations)[index]),
    decreases operations.len(),
{
    let head = operations.drop_last();
    let before = carried_operations(head);
    if index < before.len() {
        lemma_removals_are_derived_anew(head, index);
        let i = choose|i: int| 0 <= i < head.len() && head[i] == before[index];
        assert(operations[i] == before[index]);
    } else {
        assert(operations[operations.len() - 1] == operations.last());
    }
}

/// A refusal comes from a state of the live targets that retained operations cannot express.
pub open spec fn is_consent_refusal(error: EngineError<Seq<char>, Seq<u8>>) -> bool {
    match error {
        EngineError::PreparedStore { path: _, reason } => match reason {
            PreparedStoreIssue::UnsafeTarget { detail } => text::occurs_in(
                "requires the leaf to be absent"@,
                detail,
            ),
            PreparedStoreIssue::MissingManagedAncestor { .. } => true,
            _ => false,
        },
        _ => false,
    }
}

/// Tells whether a refusal comes from a state of the live targets that retained operations
/// cannot express, so that the evaluation must run in full.
pub fn is_consent_shape_refusal(error: &EngineError) -> (refused: bool)
    ensures
        refused == is_consent_refusal(error@),
{
    match error {
        EngineError::PreparedStore { path: _, reason } => match reason {
            PreparedStoreIssue::UnsafeTarget { detail } => text_contains(
                detail.as_str(),
                "requires the leaf to be absent",
            ),
            PreparedStoreIssue::MissingManagedAncestor { .. } => true,
            _ => false,
        },
        _ => false,
    }
}

/// The next thing to do in the search for a reusable evaluation.
#[derive(Debug, Clone, Copy, PartialEq, Eq, Structural)]
pub enum ReuseStep {
    /// List the newest generations, at most so many.
    List { limit: usize },
    /// Load the plan of the generation at this place of the list.
    Load { index: usize, length: usize, limit: usize },
    /// Reuse the plan of the generation at this place of the list.
    Reuse { index: usize },
    /// Evaluate in full.
    Evaluate,
}

/// How many generations are passed over in a list with this limit.
pub open spec fn skipped(limit: usize) -> usize {
    if limit == SHALLOW_WALK {
        0
    } else {
        SHALLOW_WALK
    }
}

/// What follows where a list holds nothing to reuse.
pub open spec fn after_miss(limit: usize) -> ReuseStep {
    if limit == SHALLOW_WALK {
        ReuseStep::List { limit: MAX_REUSE_WALK }
    } else {
        ReuseStep::Evaluate
    }
}

/// What follows a list of generations, or `None` where it could not be made.
pub open spec fn listed(limit: usize, length: Option<usize>) -> ReuseStep {
    match length {
        Some(count) => if skipped(limit) < count {
            ReuseStep::Load { index: skipped(limit), length: count, limit }
        } else {
            after_miss(limit)
        },
        None => after_miss(limit),
    }
}

/// What follows a look at the plan of a generation.
pub open spec fn loaded(index: usize, length: usize, limit: usize, reusable: bool) -> ReuseStep {
    if reusable {
        ReuseStep::Reuse { index }
    } else if index + 1 < length {
        ReuseStep::Load { index: (index + 1) as usize, length, limit }
    } else {
        after_miss(limit)
    }
}

fn step_after_miss(limit: usize) -> (step: ReuseStep)
    ensures
        step == after_miss(limit),
{
    if limit == SHALLOW_WALK {
        ReuseStep::List { limit: MAX_REUSE_WALK }
    } else {
        ReuseStep::Evaluate
    }
}

/// Starts the search for a reusable evaluation.
pub fn start_reuse() -> (step: ReuseStep)
    ensures
        step == (ReuseStep::List { limit: SHALLOW_WALK }),
{
    ReuseStep::List { limit: SHALLOW_WALK }
}

/// Decides what follows a list of generations, or `None` where it could not be made.
pub fn reuse_after_list(limit: usize, length: Option<usize>) -> (step: ReuseStep)
    ensures
        step == listed(limit, length),
{
    let start: usize = if limit == SHALLOW_WALK {
        0
    } else {
        SHALLOW_WALK
    };
    match length {
        Some(count) => if start < count {
            ReuseStep::Load { index: start, length: count, limit }
        } else {
            step_after_miss(limit)
        },
        None => step_after_miss(limit),
    }
}

/// Decides what follows a look at the plan of a generation: it is reusable where it loads,
/// has the digest of the graph, matches the core inputs, and can be read back.
pub fn reuse_after_load(index: usize, length: usize, limit: usize, reusable: bool) -> (step:
    ReuseStep)
    requires
        index < length,
    ensures
        step == loaded(index, length, limit, reusable),
{
    if reusable {
        ReuseStep::Reuse { index }
    } else if index + 1 < length {
        ReuseStep::Load { index: index + 1, length, limit }
    } else {
        step_after_miss(limit)
    }
}

/// Tells whether the plan of a generation can be looked at for reuse.
pub fn is_reusable(
    recorded_graph: &str,
    graph_digest: &str,
    recorded: &Vec<PlanInput>,
    core: &Vec<PlanInput>,
) -> (reusable: bool)
    ensures
        reusable == (recorded_graph@ == graph_digest@ && matches_core(
            seqs::views(recorded@),
            seqs::views(core@),
        )),
{
    text_equal(recorded_graph, graph_digest) && record_matches_core(recorded, core)
}

/// How many steps the search can still take.
pub open spec fn steps_left(step: ReuseStep) -> int {
    match step {
        ReuseStep::List { limit } => if limit == SHALLOW_WALK {
            12
        } else {
            8
        },
        ReuseStep::Load { index, length: _, limit } => if limit == SHALLOW_WALK {
            11 - index
        } else {
            9 - index
        },
        ReuseStep::Reuse { .. } | ReuseStep::Evaluate => 0,
    }
}

/// A step stands within a list that is no longer than its limit, behind what was passed over.
pub open spec fn is_walk_step(step: ReuseStep) -> bool {
    match step {
        ReuseStep::List { limit } => limit == SHALLOW_WALK || limit == MAX_REUSE_WALK,
        ReuseStep::Load { index, length, limit } => {
            &&& limit == SHALLOW_WALK || limit == MAX_REUSE_WALK
            &&& skipped(limit) <= index < length <= limit
        },
        _ => true,
    }
}

/// The search ends: every answer leaves fewer steps, as long as a list is no longer than was
/// asked for, and no more than eight plans are looked at.
pub proof fn lemma_reuse_walk_is_bounded(
    limit: usize,
    length: Option<usize>,
    index: usize,
    count: usize,
    reusable: bool,
)
    requires
        is_walk_step(ReuseStep::List { limit }),
        length matches Some(listed) ==> listed <= limit,
    ensures
        is_walk_step(listed(limit, length)),
        steps_left(listed(limit, length)) < steps_left(ReuseStep::List { limit }),
        is_walk_step(ReuseStep::Load { index, length: count, limit }) ==> {
            let next = loaded(index, count, limit, reusable);
            &&& is_walk_step(next)
            &&& steps_left(next) < steps_left(ReuseStep::Load { index, length: count, limit })
        },
{
}

/// The findings of a reused evaluation are those of the plan that it is taken from, in their
/// order and without those that are derived anew, then a notice of the reuse with that plan, and
/// a notice of carried provenance where there is any. None of the notices asks for approval.
pub proof fn lemma_reused_findings_are_those_of_the_plan(
    plan_id: Seq<char>,
    findings: Seq<Finding<Seq<char>>>,
    has_transforms: bool,
    keep: spec_fn(Finding<Seq<char>>) -> bool,
)
    requires
        forall|finding: Finding<Seq<char>>| #[trigger]
            keep(finding) == (finding.code != "replace-existing"@ && finding.code
                != "remove-existing"@ && finding.code != "restore-modified"@ && finding.code
                != "restore-missing"@ && finding.code != "restore-missing-directory"@
                && finding.code != "AUTHORING-OVERLAY-APPLIED"@ && finding.code
                != "AUTHORING-EVALUATION-REUSED"@ && finding.code
                != "AUTHORING-TRANSFORMS-CARRIED"@),
    ensures
        ({
            let reused = reused_findings_of(plan_id, findings, has_transforms);
            let kept = findings.filter(keep);
            let at = kept.len() as int;
            &&& reused.len() == at + if has_transforms {
                2int
            } else {
                1int
            }
            &&& forall|i: int| 0 <= i < at ==> #[trigger] reused[i] == kept[i]
            &&& reused[at].code == "AUTHORING-EVALUATION-REUSED"@
            &&& !reused[at].approval_required
            &&& reused[at].message == "evaluation reused from plan "@ + plan_id
                + ": every captured evaluation input is byte-identical"@
            &&& has_transforms ==> reused[at + 1].code == "AUTHORING-TRANSFORMS-CARRIED"@
                && !reused[at + 1].approval_required && reused[at + 1].message
                == "output transform provenance carried from plan "@ + plan_id
                + ": every captured evaluation input is byte-identical"@
        }),
{
    lemma_carried_findings_are_filtered(findings, keep);
}

proof fn lemma_carried_findings_are_filtered(
    findings: Seq<Finding<Seq<char>>>,
    keep: spec_fn(Finding<Seq<char>>) -> bool,
)
    requires
        forall|finding: Finding<Seq<char>>| #[trigger]
            keep(finding) == !is_regenerated(finding.code),
    ensures
        carried_findings(findings) == findings.filter(keep),
    decreases findings.len(),
{
    reveal(Seq::filter);
    if findings.len() > 0 {
        lemma_carried_findings_are_filtered(findings.drop_last(), keep);
        assert(keep(findings.last()) == !is_regenerated(findings.last().code));
    }
}

/// Every operation of a retained plan but its removals is taken over, in their order.
pub proof fn lemma_other_operations_are_taken_over(
    operations: Seq<Operation<Seq<char>>>,
    keep: spec_fn(Operation<Seq<char>>) -> bool,
)
    requires
        forall|operation: Operation<Seq<char>>| #[trigger]
            keep(operation) == !(operation.action is RemoveLeaf),
    ensures
        carried_operations(operations) == operations.filter(keep),
    decreases operations.len(),
{
    reveal(Seq::filter);
    if operations.len() > 0 {
        lemma_other_operations_are_taken_over(operations.drop_last(), keep);
        assert(keep(operations.last()) == !(operations.last().action is RemoveLeaf));
    }
}

/// Where the search for a reusable evaluation ends, with so many generations at hand and where
/// each of them is reusable or not.
pub open spec fn search_ends(step: ReuseStep, available: nat, reusable: spec_fn(int) -> bool) -> ReuseStep
    decreases steps_left(step),
{
    let next = match step {
        ReuseStep::List { limit } => listed(
            limit,
            Some(
                if available < limit {
                    available as usize
                } else {
                    limit
                },
            ),
        ),
        ReuseStep::Load { index, length, limit } => loaded(
            index,
            length,
            limit,
            reusable(index as int),
        ),
        _ => step,
    };
    if 0 <= steps_left(next) < steps_left(step) {
        search_ends(next, available, reusable)
    } else {
        step
    }
}

/// The search finds the newest reusable plan among the newest eight generations, and evaluates
/// only where none of them is reusable.
pub proof fn lemma_newest_reusable_plan_is_found(available: nat, reusable: spec_fn(int) -> bool)
    ensures
        match search_ends(ReuseStep::List { limit: SHALLOW_WALK }, available, reusable) {
            ReuseStep::Reuse { index } => index < 8 && index < available && reusable(index as int)
                && forall|i: int| 0 <= i < index ==> !#[trigger] reusable(i),
            ReuseStep::Evaluate => forall|i: int|
                0 <= i < 8 && i < available ==> !#[trigger] reusable(i),
            _ => false,
        },
{
    lemma_search_goes_on(ReuseStep::List { limit: SHALLOW_WALK }, available, reusable);
}

proof fn lemma_search_goes_on(step: ReuseStep, available: nat, reusable: spec_fn(int) -> bool)
    requires
        is_walk_step(step),
        match step {
            ReuseStep::List { limit } => limit == MAX_REUSE_WALK ==> forall|i: int|
                0 <= i < SHALLOW_WALK && i < available ==> !#[trigger] reusable(i),
            ReuseStep::Load { index, length, limit } => length <= available && (length == limit
                || length == available) && forall|i: int|
                0 <= i < index ==> !#[trigger] reusable(i),
            ReuseStep::Reuse { index } => index < 8 && index < available && reusable(index as int)
                && forall|i: int| 0 <= i < index ==> !#[trigger] reusable(i),
            ReuseStep::Evaluate => forall|i: int|
                0 <= i < 8 && i < available ==> !#[trigger] reusable(i),
        },
    ensures
        match search_ends(step, available, reusable) {
            ReuseStep::Reuse { index } => index < 8 && index < available && reusable(index as int)
                && forall|i: int| 0 <= i < index ==> !#[trigger] reusable(i),
            ReuseStep::Evaluate => forall|i: int|
                0 <= i < 8 && i < available ==> !#[trigger] reusable(i),
            _ => false,
        },
    decreases steps_left(step),
{
    match step {
        ReuseStep::List { limit } => {
            let count = if available < limit {
                available as usize
            } else {
                limit
            };
            lemma_search_goes_on(listed(limit, Some(count)), available, reusable);
        },
        ReuseStep::Load { index, length, limit } => {
            lemma_search_goes_on(
                loaded(index, length, limit, reusable(index as int)),
                available,
                reusable,
            );
        },
        _ => {},
    }
}

} // verus!
