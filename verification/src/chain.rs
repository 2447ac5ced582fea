use vstd::prelude::*;

verus! {

/// How many backward/forward pass pairs a leg solves per frame by default.
pub const DEFAULT_FABRIK_ITERATIONS: i32 = 5;

/// One move of a chain solver: node `moved` is put back on the line from node
/// `anchor` through its current position, at the length of segment `segment`
/// from `anchor`. Segment `i` joins nodes `i` and `i + 1`.
#[derive(Clone, Copy, Debug, PartialEq, Eq, Structural)]
pub struct ChainStep {
    pub moved: usize,
    pub anchor: usize,
    pub segment: usize,
}

/// One pass over a chain: node `pinned` is first set to a fixed position
/// (the target or the root), then the steps are done in order.
#[derive(Clone, Debug)]
pub struct ChainPass {
    pub pinned: usize,
    pub steps: Vec<ChainStep>,
}

/// Step `k` of the backward pass over `node_count` nodes: from the tip
/// towards the root.
pub open spec fn backward_step(node_count: usize, k: int) -> ChainStep {
    ChainStep {
        moved: (node_count - 2 - k) as usize,
        anchor: (node_count - 1 - k) as usize,
        segment: (node_count - 2 - k) as usize,
    }
}

/// Step `k` of the forward pass: from the root towards the tip.
pub open spec fn forward_step(k: int) -> ChainStep {
    ChainStep { moved: (k + 1) as usize, anchor: k as usize, segment: k as usize }
}

/// All steps of the backward pass over `node_count` nodes.
pub open spec fn backward_steps(node_count: usize) -> Seq<ChainStep> {
    Seq::new((node_count - 1) as nat, |k: int| backward_step(node_count, k))
}

/// All steps of the forward pass over `node_count` nodes.
pub open spec fn forward_steps(node_count: usize) -> Seq<ChainStep> {
    Seq::new((node_count - 1) as nat, |k: int| forward_step(k))
}

/// The backward pass of the solver over a chain of `node_count` nodes:
/// the tip (last node) is pinned to the target, then each node from the one
/// before the tip down to the root is pulled towards its successor.
pub fn backward_pass(node_count: usize) -> (pass: ChainPass)
    requires
        node_count >= 1,
    ensures
        pass.pinned == node_count - 1,
        pass.steps@.len() == node_count - 1,
        pass.steps@ == backward_steps(node_count),
        forall|k: int|
            0 <= k < node_count - 1 ==> {
                &&& #[trigger] pass.steps@[k].moved == node_count - 2 - k
                &&& pass.steps@[k].anchor == pass.steps@[k].moved + 1
                &&& pass.steps@[k].segment == pass.steps@[k].moved
            },
{
    let mut steps: Vec<ChainStep> = Vec::new();
    let mut i: usize = node_count - 1;
    while i > 0
        invariant
            i <= node_count - 1,
            steps@.len() == node_count - 1 - i,
            forall|k: int| 0 <= k < steps@.len() ==> #[trigger] steps@[k] == backward_step(node_count, k),
        decreases i,
    {
        i = i - 1;
        steps.push(ChainStep { moved: i, anchor: i + 1, segment: i });
    }
    assert(steps@ =~= backward_steps(node_count));
    ChainPass { pinned: node_count - 1, steps }
}

/// The forward pass over a chain of `node_count` nodes: the root (node 0) is
/// pinned to its anchor, then each node from the second to the tip is pulled
/// towards its predecessor.
pub fn forward_pass(node_count: usize) -> (pass: ChainPass)
    requires
        node_count >= 1,
    ensures
        pass.pinned == 0,
        pass.steps@.len() == node_count - 1,
        pass.steps@ == forward_steps(node_count),
        forall|k: int|
            0 <= k < node_count - 1 ==> {
                &&& #[trigger] pass.steps@[k].moved == k + 1
                &&& pass.steps@[k].anchor == k
                &&& pass.steps@[k].segment == pass.steps@[k].anchor
            },
{
    let mut steps: Vec<ChainStep> = Vec::new();
    let mut i: usize = 1;
    while i < node_count
        invariant
            1 <= i <= node_count,
            steps@.len() == i - 1,
            forall|k: int| 0 <= k < steps@.len() ==> #[trigger] steps@[k] == forward_step(k),
        decreases node_count - i,
    {
        steps.push(ChainStep { moved: i, anchor: i - 1, segment: i - 1 });
        i = i + 1;
    }
    assert(steps@ =~= forward_steps(node_count));
    ChainPass { pinned: 0, steps }
}

/// Pass `k` of a solve: even passes are backward passes, odd ones forward.
pub open spec fn solver_pass_ok(pass: ChainPass, node_count: usize, k: int) -> bool {
    if k % 2 == 0 {
        pass.pinned == node_count - 1 && pass.steps@ == backward_steps(node_count)
    } else {
        pass.pinned == 0 && pass.steps@ == forward_steps(node_count)
    }
}

/// The passes of one solve of a chain of `node_count` nodes: `iterations`
/// times a backward pass followed by a forward pass (none at all where
/// `iterations` is not positive).
pub fn solver_passes(node_count: usize, iterations: i32) -> (passes: Vec<ChainPass>)
    requires
        node_count >= 1,
    ensures
        passes@.len() == (if iterations > 0 { 2 * iterations } else { 0 }),
        forall|k: int| 0 <= k < passes@.len() ==> #[trigger] solver_pass_ok(passes@[k], node_count, k),
        forall|k: int|
            0 <= k < passes@.len() && k % 2 == 0 ==> {
                &&& #[trigger] passes@[k].pinned == node_count - 1
                &&& passes@[k].steps@.len() == node_count - 1
                &&& forall|j: int|
                    0 <= j < node_count - 1 ==> {
                        &&& #[trigger] passes@[k].steps@[j].moved == node_count - 2 - j
                        &&& passes@[k].steps@[j].anchor == node_count - 1 - j
                        &&& passes@[k].steps@[j].segment == node_count - 2 - j
                    }
            },
        forall|k: int|
            0 <= k < passes@.len() && k % 2 == 1 ==> {
                &&& #[trigger] passes@[k].pinned == 0
                &&& passes@[k].steps@.len() == node_count - 1
                &&& forall|j: int|
                    0 <= j < node_count - 1 ==> {
                        &&& #[trigger] passes@[k].steps@[j].moved == j + 1
                        &&& passes@[k].steps@[j].anchor == j
                        &&& passes@[k].steps@[j].segment == j
                    }
            },
        iterations > 0 ==> passes@[passes@.len() - 1].pinned == 0,
        iterations > 0 ==> passes@[passes@.len() - 2].pinned == node_count - 1,
{
    let mut passes: Vec<ChainPass> = Vec::new();
    let mut done: i32 = 0;
    while done < iterations
        invariant
            node_count >= 1,
            0 <= done,
            iterations > 0 ==> done <= iterations,
            iterations <= 0 ==> done == 0,
            passes@.len() == 2 * done,
            forall|k: int| 0 <= k < passes@.len() ==> #[trigger] solver_pass_ok(passes@[k], node_count, k),
            forall|k: int|
                0 <= k < passes@.len() && k % 2 == 0 ==> {
                    &&& #[trigger] passes@[k].pinned == node_count - 1
                    &&& passes@[k].steps@.len() == node_count - 1
                    &&& forall|j: int|
                        0 <= j < node_count - 1 ==> {
                            &&& #[trigger] passes@[k].steps@[j].moved == node_count - 2 - j
                            &&& passes@[k].steps@[j].anchor == node_count - 1 - j
                            &&& passes@[k].steps@[j].segment == node_count - 2 - j
                        }
                },
            forall|k: int|
                0 <= k < passes@.len() && k % 2 == 1 ==> {
                    &&& #[trigger] passes@[k].pinned == 0
                    &&& passes@[k].steps@.len() == node_count - 1
                    &&& forall|j: int|
                        0 <= j < node_count - 1 ==> {
                            &&& #[trigger] passes@[k].steps@[j].moved == j + 1
                            &&& passes@[k].steps@[j].anchor == j
                            &&& passes@[k].steps@[j].segment == j
                        }
                },
        decreases iterations - done,
    {
        let ghost before = passes@;
        let back = backward_pass(node_count);
        passes.push(back);
        let fwd = forward_pass(node_count);
        passes.push(fwd);
        done = done + 1;
        let ghost b = 2 * done - 2;
        let ghost f = 2 * done - 1;
        assert(passes@[b] == back && passes@[f] == fwd);
        assert(solver_pass_ok(passes@[b], node_count, b));
        assert(solver_pass_ok(passes@[f], node_count, f));
        assert forall|k: int| 0 <= k < passes@.len() && k % 2 == 0 implies {
            &&& #[trigger] passes@[k].pinned == node_count - 1
            &&& passes@[k].steps@.len() == node_count - 1
            &&& forall|j: int|
                0 <= j < node_count - 1 ==> {
                    &&& #[trigger] passes@[k].steps@[j].moved == node_count - 2 - j
                    &&& passes@[k].steps@[j].anchor == node_count - 1 - j
                    &&& passes@[k].steps@[j].segment == node_count - 2 - j
                }
        } by {
            if k < b {
                assert(passes@[k] == before[k]);
            } else {
                assert(k == b);
                assert forall|j: int| 0 <= j < node_count - 1 implies {
                    &&& #[trigger] passes@[k].steps@[j].moved == node_count - 2 - j
                    &&& passes@[k].steps@[j].anchor == node_count - 1 - j
                    &&& passes@[k].steps@[j].segment == node_count - 2 - j
                } by {
                    assert(back.steps@[j] == backward_steps(node_count)[j]);
                }
            }
        }
        assert forall|k: int| 0 <= k < passes@.len() && k % 2 == 1 implies {
            &&& #[trigger] passes@[k].pinned == 0
            &&& passes@[k].steps@.len() == node_count - 1
            &&& forall|j: int|
                0 <= j < node_count - 1 ==> {
                    &&& #[trigger] passes@[k].steps@[j].moved == j + 1
                    &&& passes@[k].steps@[j].anchor == j
                    &&& passes@[k].steps@[j].segment == j
                }
        } by {
            if k < b {
                assert(passes@[k] == before[k]);
            } else {
                assert(k == f);
                assert forall|j: int| 0 <= j < node_count - 1 implies {
                    &&& #[trigger] passes@[k].steps@[j].moved == j + 1
                    &&& passes@[k].steps@[j].anchor == j
                    &&& passes@[k].steps@[j].segment == j
                } by {
                    assert(fwd.steps@[j] == forward_steps(node_count)[j]);
                }
            }
        }
    }
    if iterations > 0 {
        assert((passes@.len() - 1) % 2 == 1);
        assert(passes@[passes@.len() - 1].pinned == 0);
        assert((passes@.len() - 2) % 2 == 0);
        assert(passes@[passes@.len() - 2].pinned == node_count - 1);
    }
    passes
}

/// `step` stays inside a chain of `node_count` nodes and its segment joins
/// the two nodes it names.
pub open spec fn step_in_chain(step: ChainStep, node_count: usize) -> bool {
    &&& step.moved < node_count
    &&& step.anchor < node_count
    &&& step.segment + 1 < node_count
    &&& (step.moved == step.segment && step.anchor == step.segment + 1)
        || (step.anchor == step.segment && step.moved == step.segment + 1)
}

/// Every step of both passes names nodes and a segment of the chain, and
/// the segment is the one between those two nodes.
pub proof fn lemma_steps_in_chain(node_count: usize, k: int)
    requires
        0 <= k < node_count - 1,
    ensures
        step_in_chain(backward_step(node_count, k), node_count),
        step_in_chain(forward_step(k), node_count),
{
}

/// The backward pass pulls node `n - 2 - k` at step `k`, towards its successor,
/// to the length of the segment between the two; the forward pass pulls node
/// `k + 1` towards its predecessor, to the length of the segment between them.
pub proof fn lemma_pass_steps_explicit(node_count: usize)
    requires
        node_count >= 1,
    ensures
        backward_steps(node_count).len() == node_count - 1,
        forward_steps(node_count).len() == node_count - 1,
        forall|k: int|
            0 <= k < node_count - 1 ==> {
                &&& #[trigger] backward_steps(node_count)[k].moved == node_count - 2 - k
                &&& backward_steps(node_count)[k].anchor == backward_steps(node_count)[k].moved + 1
                &&& backward_steps(node_count)[k].segment == backward_steps(node_count)[k].moved
            },
        forall|k: int|
            0 <= k < node_count - 1 ==> {
                &&& #[trigger] forward_steps(node_count)[k].moved == k + 1
                &&& forward_steps(node_count)[k].anchor == k
                &&& forward_steps(node_count)[k].segment == forward_steps(node_count)[k].anchor
            },
{
}

/// In a solve, the even passes are backward passes (the tip pinned, steps from
/// the tip to the root) and the odd passes forward passes (the root pinned,
/// steps from the root to the tip).
pub proof fn lemma_solver_pass_alternates(pass: ChainPass, node_count: usize, k: int)
    requires
        node_count >= 1,
        0 <= k,
        solver_pass_ok(pass, node_count, k),
    ensures
        k % 2 == 0 ==> pass.pinned == node_count - 1 && pass.steps@.len() == node_count - 1 && forall|j: int|
            0 <= j < node_count - 1 ==> {
                &&& #[trigger] pass.steps@[j].moved == node_count - 2 - j
                &&& pass.steps@[j].anchor == node_count - 1 - j
                &&& pass.steps@[j].segment == node_count - 2 - j
            },
        k % 2 == 1 ==> pass.pinned == 0 && pass.steps@.len() == node_count - 1 && forall|j: int|
            0 <= j < node_count - 1 ==> {
                &&& #[trigger] pass.steps@[j].moved == j + 1
                &&& pass.steps@[j].anchor == j
                &&& pass.steps@[j].segment == j
            },
{
}

/// Each pass moves every node but the pinned one, and each exactly once.
pub proof fn lemma_pass_moves_each_node_once(node_count: usize)
    requires
        node_count >= 1,
    ensures
        forall|j: int| 0 <= j < node_count - 1 ==> #[trigger] backward_step(node_count, node_count - 2 - j).moved == j,
        forall|k: int| 0 <= k < node_count - 1 ==> #[trigger] backward_step(node_count, k).moved != node_count - 1,
        forall|k1: int, k2: int|
            0 <= k1 < node_count - 1 && 0 <= k2 < node_count - 1 && #[trigger] backward_step(node_count, k1).moved
                == #[trigger] backward_step(node_count, k2).moved ==> k1 == k2,
        forall|j: int| 1 <= j < node_count ==> #[trigger] forward_step(j - 1).moved == j,
        forall|k: int| 0 <= k < node_count - 1 ==> #[trigger] forward_step(k).moved != 0,
        forall|k1: int, k2: int|
            0 <= k1 < node_count - 1 && 0 <= k2 < node_count - 1 && #[trigger] forward_step(k1).moved
                == #[trigger] forward_step(k2).moved ==> k1 == k2,
{
}

/// Positions flow from the pinned node: the first step of a pass hangs on the
/// pinned node, and every later step on the node that the step before it moved.
pub proof fn lemma_pass_propagates_from_pin(node_count: usize)
    requires
        node_count >= 2,
    ensures
        backward_step(node_count, 0).anchor == node_count - 1,
        forall|k: int| 1 <= k < node_count - 1 ==> #[trigger] backward_step(node_count, k).anchor == backward_step(node_count, k - 1).moved,
        forward_step(0).anchor == 0,
        forall|k: int| 1 <= k < node_count - 1 ==> #[trigger] forward_step(k).anchor == forward_step(k - 1).moved,
{
}

/// The forward pass walks the segments of the backward pass in reverse order,
/// with the moved and the anchoring node of each step swapped.
pub proof fn lemma_forward_mirrors_backward(node_count: usize, k: int)
    requires
        0 <= k < node_count - 1,
    ensures
        forward_step(k) == (ChainStep {
            moved: backward_step(node_count, node_count - 2 - k).anchor,
            anchor: backward_step(node_count, node_count - 2 - k).moved,
            segment: backward_step(node_count, node_count - 2 - k).segment,
        }),
{
}

/// What a leg's foot does with its target this frame.
#[derive(Clone, Copy, Debug, PartialEq, Eq, Structural)]
pub enum StepAction {
    /// The foot stays where it is.
    Hold,
    /// The foot goes on with its current step towards the target.
    Advance,
    /// A new step starts: the step's progress is reset, then advanced.
    Restart,
}

/// The foot's action, given whether it is mid-step and whether the desired
/// target has moved farther from the foot than the leg allows.
pub open spec fn step_action_of(stepping: bool, target_far: bool) -> StepAction {
    if target_far {
        StepAction::Restart
    } else if stepping {
        StepAction::Advance
    } else {
        StepAction::Hold
    }
}

/// Decides what a leg's foot does this frame. After `Advance` or `Restart`
/// the step goes on while its progress is below one.
pub fn foot_step_action(stepping: bool, target_far: bool) -> (action: StepAction)
    ensures
        action == step_action_of(stepping, target_far),
        target_far ==> action == StepAction::Restart,
        !target_far && stepping ==> action == StepAction::Advance,
        !target_far && !stepping ==> action == StepAction::Hold,
{
    if target_far {
        StepAction::Restart
    } else if stepping {
        StepAction::Advance
    } else {
        StepAction::Hold
    }
}

/// A foot moves exactly when it is mid-step or its target is too far, and a
/// step that is under way is never restarted while the target stays in reach.
pub proof fn lemma_foot_moves_when_needed(stepping: bool, target_far: bool)
    ensures
        (step_action_of(stepping, target_far) != StepAction::Hold) == (stepping || target_far),
        stepping && !target_far ==> step_action_of(stepping, target_far) == StepAction::Advance,
{
}

} // verus!
