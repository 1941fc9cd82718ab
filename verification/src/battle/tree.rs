//! Behaviour trees: their definition, the nodes built from it, and what
//! evaluating a tree means.

use crate::battle::bt::{
    BehaviorController, BehaviorControllerView, BehaviorModel, BehaviorModelView,
    UnpoweredFunctionState,
};
use crate::battle::nodes::{leaf_in_bounds, leaf_outcome, takes_chance, SummonBehaviors};
use crate::geometry::{manhattan, within_range};
use vstd::prelude::*;

verus! {

/// The kinds of wrapper: which cells the wrapped subtree is evaluated for.
#[derive(Clone, Copy, Debug, PartialEq, Eq, Structural)]
pub enum SummonWrapperDef {
    ForAllAllies,
    ForAllEnemies,
    ForAllAlliesInRange(i32),
    ForAllEnemiesInRange(i32),
}

/// The shape of a tree, which its definition and the nodes built from it
/// share: a leaf, a wrapper round one subtree, or subtrees in sequence.
pub enum BrainPlan {
    Leaf(SummonBehaviors),
    Wrapper(SummonWrapperDef, Box<BrainPlan>),
    Sequence(Seq<BrainPlan>),
}

/// A tree as it is written down.
#[derive(Debug, PartialEq, Eq)]
pub enum CharacterBrainDef {
    Sequence(Vec<CharacterBrainDef>),
    User(SummonBehaviors),
    Wrapper(SummonWrapperDef, Box<CharacterBrainDef>),
}

/// A wrapper node with the subtree it owns.
#[derive(Debug, PartialEq, Eq)]
pub enum SummonWrapper {
    ForAllAllies(Box<CharacterBrainNode>),
    ForAllEnemies(Box<CharacterBrainNode>),
    ForAllAlliesInRange(i32, Box<CharacterBrainNode>),
    ForAllEnemiesInRange(i32, Box<CharacterBrainNode>),
}

/// A node of a tree that can be evaluated.
#[derive(Debug, PartialEq, Eq)]
pub enum CharacterBrainNode {
    Leaf(SummonBehaviors),
    Wrapper(SummonWrapper),
    Sequence(Vec<CharacterBrainNode>),
}

/// The shapes of the trees that a list of definitions describes.
pub open spec fn def_plans(children: Seq<CharacterBrainDef>) -> Seq<BrainPlan>
    decreases children,
{
    Seq::new(
        children.len(),
        |i: int|
            if 0 <= i < children.len() {
                children[i].plan()
            } else {
                BrainPlan::Sequence(Seq::empty())
            },
    )
}

/// The shapes of the trees below a list of nodes.
pub open spec fn node_plans(children: Seq<CharacterBrainNode>) -> Seq<BrainPlan>
    decreases children,
{
    Seq::new(
        children.len(),
        |i: int|
            if 0 <= i < children.len() {
                children[i].plan()
            } else {
                BrainPlan::Sequence(Seq::empty())
            },
    )
}

impl CharacterBrainDef {
    /// The shape of the tree that the definition describes.
    pub open spec fn plan(&self) -> BrainPlan
        decreases self,
    {
        match self {
            CharacterBrainDef::Sequence(children) => BrainPlan::Sequence(def_plans(children@)),
            CharacterBrainDef::User(behavior) => BrainPlan::Leaf(*behavior),
            CharacterBrainDef::Wrapper(kind, child) => BrainPlan::Wrapper(*kind, Box::new(child.plan())),
        }
    }
}

impl View for CharacterBrainDef {
    type V = BrainPlan;

    open spec fn view(&self) -> BrainPlan {
        self.plan()
    }
}

impl SummonWrapper {
    /// The kind of wrapper.
    pub open spec fn kind(&self) -> SummonWrapperDef {
        match self {
            SummonWrapper::ForAllAllies(_) => SummonWrapperDef::ForAllAllies,
            SummonWrapper::ForAllEnemies(_) => SummonWrapperDef::ForAllEnemies,
            SummonWrapper::ForAllAlliesInRange(range, _) => SummonWrapperDef::ForAllAlliesInRange(
                *range,
            ),
            SummonWrapper::ForAllEnemiesInRange(range, _) => SummonWrapperDef::ForAllEnemiesInRange(
                *range,
            ),
        }
    }

    /// The wrapped subtree.
    pub open spec fn child(&self) -> CharacterBrainNode {
        match self {
            SummonWrapper::ForAllAllies(child) => **child,
            SummonWrapper::ForAllEnemies(child) => **child,
            SummonWrapper::ForAllAlliesInRange(_, child) => **child,
            SummonWrapper::ForAllEnemiesInRange(_, child) => **child,
        }
    }
}

impl CharacterBrainNode {
    /// The shape of the tree below the node.
    pub open spec fn plan(&self) -> BrainPlan
        decreases self,
    {
        match self {
            CharacterBrainNode::Leaf(behavior) => BrainPlan::Leaf(*behavior),
            CharacterBrainNode::Wrapper(wrapper) => BrainPlan::Wrapper(
                wrapper.kind(),
                Box::new(wrapper.child().plan()),
            ),
            CharacterBrainNode::Sequence(children) => BrainPlan::Sequence(node_plans(children@)),
        }
    }
}

impl View for CharacterBrainNode {
    type V = BrainPlan;

    open spec fn view(&self) -> BrainPlan {
        self.plan()
    }
}

impl View for SummonWrapper {
    type V = BrainPlan;

    open spec fn view(&self) -> BrainPlan {
        BrainPlan::Wrapper(self.kind(), Box::new(self.child().plan()))
    }
}

/// The cells of `cells` within `range` steps of `from`, the boundary
/// included, in the order of the list.
pub open spec fn cells_within(from: (usize, usize), cells: Seq<(usize, usize)>, range: i32) -> Seq<
    (usize, usize),
>
    decreases cells.len(),
{
    if cells.len() == 0 {
        Seq::empty()
    } else if manhattan(from, cells.last()) <= range {
        cells_within(from, cells.drop_last(), range).push(cells.last())
    } else {
        cells_within(from, cells.drop_last(), range)
    }
}

/// The cells that a wrapper evaluates its subtree for, in order.
pub open spec fn wrapper_targets(kind: SummonWrapperDef, model: BehaviorModelView) -> Seq<
    (usize, usize),
> {
    match kind {
        SummonWrapperDef::ForAllAllies => model.allies,
        SummonWrapperDef::ForAllEnemies => model.enemies,
        SummonWrapperDef::ForAllAlliesInRange(range) => cells_within(
            model.position,
            model.allies,
            range,
        ),
        SummonWrapperDef::ForAllEnemiesInRange(range) => cells_within(
            model.position,
            model.enemies,
            range,
        ),
    }
}

/// How an evaluation went: the state it ended in, the controller it left,
/// the draws it did not use, and whether every picked index that a leaf
/// read was in bounds. Where `sound` is false the evaluation stopped at
/// the leaf that would have read out of bounds, and the other fields say
/// nothing.
pub struct Run {
    pub state: UnpoweredFunctionState,
    pub controller: BehaviorControllerView,
    pub rest: Seq<nat>,
    pub sound: bool,
}

/// The draw that the next random pick takes: the first of `draws`, or 0
/// when none is left.
pub open spec fn next_draw(draws: Seq<nat>) -> nat {
    if draws.len() > 0 {
        draws[0]
    } else {
        0
    }
}

/// The draws that are left after the next random pick.
pub open spec fn later_draws(draws: Seq<nat>) -> Seq<nat> {
    if draws.len() > 0 {
        draws.drop_first()
    } else {
        draws
    }
}

/// `controller` with `cell` as the picked location.
pub open spec fn aimed_at(controller: BehaviorControllerView, cell: (usize, usize)) -> BehaviorControllerView {
    BehaviorControllerView { picked_location: Some(cell), ..controller }
}

/// What evaluating a tree means.
///
/// A leaf does what [`leaf_outcome`] says, a random one with the next
/// draw. A sequence evaluates its subtrees in order and stops at the first
/// that does not complete, with that subtree's state; it completes when
/// all have. A wrapper evaluates its subtree once for each of its
/// targets, in order, with the target as the picked location; it fails as
/// soon as the subtree does not complete, and completes when the subtree
/// has completed for every target.
pub open spec fn run(
    plan: BrainPlan,
    model: BehaviorModelView,
    controller: BehaviorControllerView,
    draws: Seq<nat>,
) -> Run
    decreases plan, 0nat,
{
    match plan {
        BrainPlan::Leaf(behavior) => {
            let outcome = leaf_outcome(
                behavior,
                model,
                controller,
                if takes_chance(behavior) {
                    next_draw(draws)
                } else {
                    0
                },
            );
            Run {
                state: outcome.state,
                controller: outcome.controller,
                rest: if takes_chance(behavior) {
                    later_draws(draws)
                } else {
                    draws
                },
                sound: leaf_in_bounds(behavior, model, controller),
            }
        },
        BrainPlan::Wrapper(kind, child) => run_targets(
            *child,
            wrapper_targets(kind, model),
            0,
            model,
            controller,
            draws,
        ),
        BrainPlan::Sequence(children) => run_sequence(children, 0, model, controller, draws),
    }
}

/// What evaluating the subtrees of a sequence from position `from` on
/// means.
pub open spec fn run_sequence(
    children: Seq<BrainPlan>,
    from: int,
    model: BehaviorModelView,
    controller: BehaviorControllerView,
    draws: Seq<nat>,
) -> Run
    decreases children, children.len() - from,
{
    if 0 <= from < children.len() {
        let first = run(children[from], model, controller, draws);
        if first.sound && first.state == UnpoweredFunctionState::Complete {
            run_sequence(children, from + 1, model, first.controller, first.rest)
        } else {
            first
        }
    } else {
        Run { state: UnpoweredFunctionState::Complete, controller, rest: draws, sound: true }
    }
}

/// What evaluating a wrapper's subtree for its targets from position
/// `from` on means.
pub open spec fn run_targets(
    child: BrainPlan,
    targets: Seq<(usize, usize)>,
    from: int,
    model: BehaviorModelView,
    controller: BehaviorControllerView,
    draws: Seq<nat>,
) -> Run
    decreases child, targets.len() - from + 1,
{
    if 0 <= from < targets.len() {
        let first = run(child, model, aimed_at(controller, targets[from]), draws);
        if !first.sound {
            first
        } else if first.state == UnpoweredFunctionState::Complete {
            run_targets(child, targets, from + 1, model, first.controller, first.rest)
        } else {
            Run { state: UnpoweredFunctionState::Failed, ..first }
        }
    } else {
        Run { state: UnpoweredFunctionState::Complete, controller, rest: draws, sound: true }
    }
}

/// Whether an evaluation that gave `state` and left `after`, with `rest`
/// of its draws unused, went as `run` says: `None` stands for an
/// evaluation that stopped at a picked index out of bounds.
pub open spec fn agrees(
    run: Run,
    state: Option<UnpoweredFunctionState>,
    after: BehaviorControllerView,
    rest: Seq<nat>,
) -> bool {
    &&& run.sound == (state is Some)
    &&& state is Some ==> run == (Run { state: state->0, controller: after, rest, sound: true })
    &&& state is Some ==> state->0 != UnpoweredFunctionState::Running
}

fn targets_within(from: (usize, usize), cells: &Vec<(usize, usize)>, range: i32) -> (targets: Vec<
    (usize, usize),
>)
    ensures
        targets@ == cells_within(from, cells@, range),
{
    let mut targets: Vec<(usize, usize)> = Vec::new();
    let mut i: usize = 0;
    while i < cells.len()
        invariant
            i <= cells.len(),
            targets@ == cells_within(from, cells@.take(i as int), range),
        decreases cells.len() - i,
    {
        assert(cells@.take(i + 1).drop_last() =~= cells@.take(i as int));
        if within_range(from, cells[i], range) {
            targets.push(cells[i]);
        }
        i += 1;
    }
    assert(cells@.take(i as int) =~= cells@);
    targets
}

fn for_each_target(
    child: &CharacterBrainNode,
    targets: &Vec<(usize, usize)>,
    model: &BehaviorModel,
    controller: &mut BehaviorController,
) -> (result: (Option<UnpoweredFunctionState>, Ghost<Seq<nat>>))
    ensures
        forall|rest: Seq<nat>|
            agrees(
                #[trigger] run_targets(
                    child.plan(),
                    targets@,
                    0,
                    model@,
                    old(controller)@,
                    result.1@ + rest,
                ),
                result.0,
                final(controller)@,
                rest,
            ),
    decreases child, 1nat,
{
    let ghost before = controller@;
    let ghost mut used: Seq<nat> = Seq::empty();
    let mut i: usize = 0;
    assert forall|rest: Seq<nat>| #[trigger]
        run_targets(child.plan(), targets@, 0, model@, before, used + rest) == run_targets(
            child.plan(),
            targets@,
            0,
            model@,
            before,
            rest,
        ) by {
        assert(used + rest =~= rest);
    }
    while i < targets.len()
        invariant
            i <= targets.len(),
            before == old(controller)@,
            forall|rest: Seq<nat>| #[trigger]
                run_targets(child.plan(), targets@, 0, model@, before, used + rest) == run_targets(
                    child.plan(),
                    targets@,
                    i as int,
                    model@,
                    controller@,
                    rest,
                ),
        decreases targets.len() - i,
    {
        let ghost at_entry = controller@;
        controller.picked_location = Some(targets[i]);
        assert(controller@ == aimed_at(at_entry, targets@[i as int]));
        let (state, Ghost(drawn)) = child.walk(model, controller);
        let ghost longer = used + drawn;
        assert forall|rest: Seq<nat>|
            run_targets(child.plan(), targets@, 0, model@, before, longer + rest) == run_targets(
                child.plan(),
                targets@,
                i as int,
                model@,
                at_entry,
                drawn + rest,
            ) by {
            assert(longer + rest =~= used + (drawn + rest));
        }
        match state {
            Some(UnpoweredFunctionState::Complete) => {
                assert forall|rest: Seq<nat>| #[trigger]
                    run_targets(child.plan(), targets@, 0, model@, before, longer + rest)
                        == run_targets(
                        child.plan(),
                        targets@,
                        i + 1,
                        model@,
                        controller@,
                        rest,
                    ) by {
                    assert(agrees(
                        run(child.plan(), model@, aimed_at(at_entry, targets@[i as int]), drawn + rest),
                        state,
                        controller@,
                        rest,
                    ));
                }
                proof {
                    used = longer;
                }
                i += 1;
            },
            Some(_) => {
                assert forall|rest: Seq<nat>|
                    agrees(
                        #[trigger] run_targets(
                            child.plan(),
                            targets@,
                            0,
                            model@,
                            before,
                            longer + rest,
                        ),
                        Some(UnpoweredFunctionState::Failed),
                        controller@,
                        rest,
                    ) by {
                    assert(agrees(
                        run(child.plan(), model@, aimed_at(at_entry, targets@[i as int]), drawn + rest),
                        state,
                        controller@,
                        rest,
                    ));
                }
                return (Some(UnpoweredFunctionState::Failed), Ghost(longer));
            },
            None => {
                assert forall|rest: Seq<nat>|
                    agrees(
                        #[trigger] run_targets(
                            child.plan(),
                            targets@,
                            0,
                            model@,
                            before,
                            longer + rest,
                        ),
                        None,
                        controller@,
                        rest,
                    ) by {
                    assert(agrees(
                        run(child.plan(), model@, aimed_at(at_entry, targets@[i as int]), drawn + rest),
                        state,
                        controller@,
                        rest,
                    ));
                }
                return (None, Ghost(longer));
            },
        }
    }
    (Some(UnpoweredFunctionState::Complete), Ghost(used))
}

fn in_sequence(
    children: &Vec<CharacterBrainNode>,
    model: &BehaviorModel,
    controller: &mut BehaviorController,
) -> (result: (Option<UnpoweredFunctionState>, Ghost<Seq<nat>>))
    ensures
        forall|rest: Seq<nat>|
            agrees(
                #[trigger] run_sequence(
                    node_plans(children@),
                    0,
                    model@,
                    old(controller)@,
                    result.1@ + rest,
                ),
                result.0,
                final(controller)@,
                rest,
            ),
    decreases children, 0nat,
{
    let ghost before = controller@;
    let ghost plans = node_plans(children@);
    let ghost mut used: Seq<nat> = Seq::empty();
    let mut i: usize = 0;
    assert forall|rest: Seq<nat>| #[trigger]
        run_sequence(plans, 0, model@, before, used + rest) == run_sequence(
            plans,
            0,
            model@,
            before,
            rest,
        ) by {
        assert(used + rest =~= rest);
    }
    while i < children.len()
        invariant
            i <= children.len(),
            before == old(controller)@,
            plans == node_plans(children@),
            forall|rest: Seq<nat>| #[trigger]
                run_sequence(plans, 0, model@, before, used + rest) == run_sequence(
                    plans,
                    i as int,
                    model@,
                    controller@,
                    rest,
                ),
        decreases children.len() - i,
    {
        let ghost at_entry = controller@;
        let (state, Ghost(drawn)) = children[i].walk(model, controller);
        let ghost longer = used + drawn;
        assert(plans[i as int] == children@[i as int].plan());
        assert forall|rest: Seq<nat>|
            run_sequence(plans, 0, model@, before, longer + rest) == run_sequence(
                plans,
                i as int,
                model@,
                at_entry,
                drawn + rest,
            ) by {
            assert(longer + rest =~= used + (drawn + rest));
        }
        match state {
            Some(UnpoweredFunctionState::Complete) => {
                assert forall|rest: Seq<nat>| #[trigger]
                    run_sequence(plans, 0, model@, before, longer + rest) == run_sequence(
                        plans,
                        i + 1,
                        model@,
                        controller@,
                        rest,
                    ) by {
                    assert(agrees(
                        run(plans[i as int], model@, at_entry, drawn + rest),
                        state,
                        controller@,
                        rest,
                    ));
                }
                proof {
                    used = longer;
                }
                i += 1;
            },
            _ => {
                assert forall|rest: Seq<nat>|
                    agrees(
                        #[trigger] run_sequence(plans, 0, model@, before, longer + rest),
                        state,
                        controller@,
                        rest,
                    ) by {
                    assert(agrees(
                        run(plans[i as int], model@, at_entry, drawn + rest),
                        state,
                        controller@,
                        rest,
                    ));
                }
                return (state, Ghost(longer));
            },
        }
    }
    (Some(UnpoweredFunctionState::Complete), Ghost(used))
}

impl SummonWrapper {
    /// Evaluates the wrapper, stopping with `None` at a leaf that would
    /// read a picked index out of bounds. The second result is the draws
    /// that the random picks came to, in order.
    pub(crate) fn walk(&self, model: &BehaviorModel, controller: &mut BehaviorController) -> (result:
        (Option<UnpoweredFunctionState>, Ghost<Seq<nat>>))
        ensures
            forall|rest: Seq<nat>|
                agrees(
                    #[trigger] run(self@, model@, old(controller)@, result.1@ + rest),
                    result.0,
                    final(controller)@,
                    rest,
                ),
        decreases self, 0nat,
    {
        let ghost before = controller@;
        let result = match self {
            SummonWrapper::ForAllAllies(child) => for_each_target(
                child,
                &model.allies,
                model,
                controller,
            ),
            SummonWrapper::ForAllEnemies(child) => for_each_target(
                child,
                &model.enemies,
                model,
                controller,
            ),
            SummonWrapper::ForAllAlliesInRange(range, child) => {
                let targets = targets_within(model.position, &model.allies, *range);
                for_each_target(child, &targets, model, controller)
            },
            SummonWrapper::ForAllEnemiesInRange(range, child) => {
                let targets = targets_within(model.position, &model.enemies, *range);
                for_each_target(child, &targets, model, controller)
            },
        };
        assert forall|rest: Seq<nat>|
            agrees(
                #[trigger] run(self@, model@, before, result.1@ + rest),
                result.0,
                controller@,
                rest,
            ) by {
            assert(agrees(
                run_targets(
                    self.child().plan(),
                    wrapper_targets(self.kind(), model@),
                    0,
                    model@,
                    before,
                    result.1@ + rest,
                ),
                result.0,
                controller@,
                rest,
            ));
        }
        result
    }
}

impl CharacterBrainNode {
    /// Evaluates the tree, stopping with `None` at a leaf that would read
    /// a picked index out of bounds. The second result is the draws that
    /// the random picks came to, in order.
    pub(crate) fn walk(&self, model: &BehaviorModel, controller: &mut BehaviorController) -> (result:
        (Option<UnpoweredFunctionState>, Ghost<Seq<nat>>))
        ensures
            forall|rest: Seq<nat>|
                agrees(
                    #[trigger] run(self@, model@, old(controller)@, result.1@ + rest),
                    result.0,
                    final(controller)@,
                    rest,
                ),
        decreases self, 0nat,
    {
        match self {
            CharacterBrainNode::Leaf(behavior) => {
                let (state, Ghost(draw)) = behavior.attempt(model, controller);
                let ghost drawn = if takes_chance(*behavior) {
                    seq![draw]
                } else {
                    Seq::empty()
                };
                assert forall|rest: Seq<nat>|
                    agrees(
                        #[trigger] run(self@, model@, old(controller)@, drawn + rest),
                        state,
                        controller@,
                        rest,
                    ) by {
                    if takes_chance(*behavior) {
                        assert((drawn + rest)[0] == draw);
                        assert((drawn + rest).drop_first() =~= rest);
                    } else {
                        assert(drawn + rest =~= rest);
                    }
                }
                (state, Ghost(drawn))
            },
            CharacterBrainNode::Wrapper(wrapper) => {
                let ghost before = controller@;
                let result = wrapper.walk(model, controller);
                assert forall|rest: Seq<nat>|
                    agrees(
                        #[trigger] run(self@, model@, before, result.1@ + rest),
                        result.0,
                        controller@,
                        rest,
                    ) by {
                    assert(self@ == wrapper@);
                    assert(agrees(
                        run(wrapper@, model@, before, result.1@ + rest),
                        result.0,
                        controller@,
                        rest,
                    ));
                }
                result
            },
            CharacterBrainNode::Sequence(children) => {
                let ghost before = controller@;
                let result = in_sequence(children, model, controller);
                assert forall|rest: Seq<nat>|
                    agrees(
                        #[trigger] run(self@, model@, before, result.1@ + rest),
                        result.0,
                        controller@,
                        rest,
                    ) by {
                    assert(agrees(
                        run_sequence(node_plans(children@), 0, model@, before, result.1@ + rest),
                        result.0,
                        controller@,
                        rest,
                    ));
                }
                result
            },
        }
    }
}

/// Whether no leaf of the tree picks at random.
pub open spec fn takes_no_chance(plan: BrainPlan) -> bool
    decreases plan,
{
    match plan {
        BrainPlan::Leaf(behavior) => !takes_chance(behavior),
        BrainPlan::Wrapper(_, child) => takes_no_chance(*child),
        BrainPlan::Sequence(children) => forall|i: int|
            0 <= i < children.len() ==> takes_no_chance(#[trigger] children[i]),
    }
}

/// Whether an evaluation of the tree reads no picked index out of bounds,
/// whatever the draws.
pub open spec fn always_sound(
    plan: BrainPlan,
    model: BehaviorModelView,
    controller: BehaviorControllerView,
) -> bool {
    forall|draws: Seq<nat>| (#[trigger] run(plan, model, controller, draws)).sound
}

/// A tree without random leaves is evaluated the same whatever the draws,
/// and uses none of them.
pub proof fn lemma_draws_unused(
    plan: BrainPlan,
    model: BehaviorModelView,
    controller: BehaviorControllerView,
    draws: Seq<nat>,
)
    requires
        takes_no_chance(plan),
    ensures
        run(plan, model, controller, draws) == (Run {
            rest: draws,
            ..run(plan, model, controller, Seq::empty())
        }),
    decreases plan, 0nat,
{
    match plan {
        BrainPlan::Leaf(_) => {},
        BrainPlan::Wrapper(kind, child) => {
            lemma_targets_draws_unused(
                *child,
                wrapper_targets(kind, model),
                0,
                model,
                controller,
                draws,
            );
        },
        BrainPlan::Sequence(children) => {
            lemma_sequence_draws_unused(children, 0, model, controller, draws);
        },
    }
}

proof fn lemma_sequence_draws_unused(
    children: Seq<BrainPlan>,
    from: int,
    model: BehaviorModelView,
    controller: BehaviorControllerView,
    draws: Seq<nat>,
)
    requires
        forall|i: int| 0 <= i < children.len() ==> takes_no_chance(#[trigger] children[i]),
    ensures
        run_sequence(children, from, model, controller, draws) == (Run {
            rest: draws,
            ..run_sequence(children, from, model, controller, Seq::empty())
        }),
    decreases children, children.len() - from,
{
    if 0 <= from < children.len() {
        lemma_draws_unused(children[from], model, controller, draws);
        lemma_draws_unused(children[from], model, controller, Seq::empty());
        let first = run(children[from], model, controller, Seq::empty());
        if first.sound && first.state == UnpoweredFunctionState::Complete {
            lemma_sequence_draws_unused(children, from + 1, model, first.controller, draws);
        }
    }
}

proof fn lemma_targets_draws_unused(
    child: BrainPlan,
    targets: Seq<(usize, usize)>,
    from: int,
    model: BehaviorModelView,
    controller: BehaviorControllerView,
    draws: Seq<nat>,
)
    requires
        takes_no_chance(child),
    ensures
        run_targets(child, targets, from, model, controller, draws) == (Run {
            rest: draws,
            ..run_targets(child, targets, from, model, controller, Seq::empty())
        }),
    decreases child, targets.len() - from + 1,
{
    if 0 <= from < targets.len() {
        let aimed = aimed_at(controller, targets[from]);
        lemma_draws_unused(child, model, aimed, draws);
        lemma_draws_unused(child, model, aimed, Seq::empty());
        let first = run(child, model, aimed, Seq::empty());
        if first.sound && first.state == UnpoweredFunctionState::Complete {
            lemma_targets_draws_unused(child, targets, from + 1, model, first.controller, draws);
        }
    }
}

proof fn lemma_walk_without_chance(
    plan: BrainPlan,
    model: BehaviorModelView,
    before: BehaviorControllerView,
    after: BehaviorControllerView,
    state: Option<UnpoweredFunctionState>,
    drawn: Seq<nat>,
)
    requires
        takes_no_chance(plan),
        agrees(run(plan, model, before, drawn), state, after, Seq::empty()),
    ensures
        agrees(run(plan, model, before, Seq::empty()), state, after, Seq::empty()),
{
    lemma_draws_unused(plan, model, before, drawn);
    if state is Some {
        assert(drawn =~= Seq::empty());
    }
}

impl SummonWrapperDef {
    /// The wrapper node of this kind round `child`.
    pub fn create_node_and_wrap(&self, child: CharacterBrainNode) -> (node: CharacterBrainNode)
        ensures
            node@ == BrainPlan::Wrapper(*self, Box::new(child@)),
    {
        match self {
            SummonWrapperDef::ForAllAllies => CharacterBrainNode::Wrapper(
                SummonWrapper::ForAllAllies(Box::new(child)),
            ),
            SummonWrapperDef::ForAllEnemies => CharacterBrainNode::Wrapper(
                SummonWrapper::ForAllEnemies(Box::new(child)),
            ),
            SummonWrapperDef::ForAllAlliesInRange(range) => CharacterBrainNode::Wrapper(
                SummonWrapper::ForAllAlliesInRange(*range, Box::new(child)),
            ),
            SummonWrapperDef::ForAllEnemiesInRange(range) => CharacterBrainNode::Wrapper(
                SummonWrapper::ForAllEnemiesInRange(*range, Box::new(child)),
            ),
        }
    }
}

fn create_trees(definitions: &Vec<CharacterBrainDef>) -> (nodes: Vec<CharacterBrainNode>)
    ensures
        node_plans(nodes@) == def_plans(definitions@),
    decreases definitions, 0nat,
{
    let mut nodes: Vec<CharacterBrainNode> = Vec::new();
    let mut i: usize = 0;
    while i < definitions.len()
        invariant
            i <= definitions.len(),
            nodes.len() == i,
            forall|j: int| 0 <= j < i ==> nodes@[j].plan() == definitions@[j].plan(),
        decreases definitions.len() - i,
    {
        let node = definitions[i].create_tree();
        nodes.push(node);
        i += 1;
    }
    assert(node_plans(nodes@) =~= def_plans(definitions@));
    nodes
}

impl CharacterBrainDef {
    /// Builds the tree that the definition describes.
    pub fn create_tree(&self) -> (node: CharacterBrainNode)
        ensures
            node@ == self@,
        decreases self, 0nat,
    {
        match self {
            CharacterBrainDef::Sequence(children) => CharacterBrainNode::Sequence(
                create_trees(children),
            ),
            CharacterBrainDef::User(behavior) => CharacterBrainNode::Leaf(*behavior),
            CharacterBrainDef::Wrapper(kind, child) => kind.create_node_and_wrap(child.create_tree()),
        }
    }
}

impl SummonWrapper {
    /// Evaluates the wrapper once against `model`, writing into
    /// `controller`, unless a leaf would read a picked index out of
    /// bounds: then the evaluation stops there and gives `None`.
    pub fn try_resume_with(&self, model: &BehaviorModel, controller: &mut BehaviorController) -> (state:
        Option<UnpoweredFunctionState>)
        ensures
            exists|draws: Seq<nat>|
                agrees(
                    #[trigger] run(self@, model@, old(controller)@, draws),
                    state,
                    final(controller)@,
                    Seq::empty(),
                ),
            takes_no_chance(self@) ==> agrees(
                run(self@, model@, old(controller)@, Seq::empty()),
                state,
                final(controller)@,
                Seq::empty(),
            ),
    {
        let (state, Ghost(drawn)) = self.walk(model, controller);
        proof {
            assert(drawn + Seq::<nat>::empty() =~= drawn);
            assert(agrees(
                run(self@, model@, old(controller)@, drawn + Seq::<nat>::empty()),
                state,
                controller@,
                Seq::empty(),
            ));
            if takes_no_chance(self@) {
                lemma_walk_without_chance(
                    self@,
                    model@,
                    old(controller)@,
                    controller@,
                    state,
                    drawn,
                );
            }
        }
        state
    }

    /// Evaluates the wrapper once against `model`, writing into
    /// `controller`: the subtree once for each target, until it does not
    /// complete.
    pub fn resume_with(&self, model: &BehaviorModel, controller: &mut BehaviorController) -> (state:
        UnpoweredFunctionState)
        requires
            always_sound(self@, model@, old(controller)@),
        ensures
            exists|draws: Seq<nat>|
                agrees(
                    #[trigger] run(self@, model@, old(controller)@, draws),
                    Some(state),
                    final(controller)@,
                    Seq::empty(),
                ),
            takes_no_chance(self@) ==> agrees(
                run(self@, model@, old(controller)@, Seq::empty()),
                Some(state),
                final(controller)@,
                Seq::empty(),
            ),
            state != UnpoweredFunctionState::Running,
    {
        self.try_resume_with(model, controller).unwrap()
    }

    /// Forgets what the wrapper kept from earlier calls. No wrapper keeps
    /// anything, so nothing changes.
    pub fn reset(&mut self, _parameter: &BehaviorModel)
        ensures
            *final(self) == *old(self),
    {
    }
}

impl CharacterBrainNode {
    /// Evaluates the tree once against `model`, writing into `controller`,
    /// unless a leaf would read a picked index out of bounds: then the
    /// evaluation stops there and gives `None`.
    pub fn try_resume_with(&self, model: &BehaviorModel, controller: &mut BehaviorController) -> (state:
        Option<UnpoweredFunctionState>)
        ensures
            exists|draws: Seq<nat>|
                agrees(
                    #[trigger] run(self@, model@, old(controller)@, draws),
                    state,
                    final(controller)@,
                    Seq::empty(),
                ),
            takes_no_chance(self@) ==> agrees(
                run(self@, model@, old(controller)@, Seq::empty()),
                state,
                final(controller)@,
                Seq::empty(),
            ),
    {
        let (state, Ghost(drawn)) = self.walk(model, controller);
        proof {
            assert(drawn + Seq::<nat>::empty() =~= drawn);
            assert(agrees(
                run(self@, model@, old(controller)@, drawn + Seq::<nat>::empty()),
                state,
                controller@,
                Seq::empty(),
            ));
            if takes_no_chance(self@) {
                lemma_walk_without_chance(
                    self@,
                    model@,
                    old(controller)@,
                    controller@,
                    state,
                    drawn,
                );
            }
        }
        state
    }

    /// Evaluates the tree once against `model`, writing into `controller`.
    ///
    /// What happens is what [`run`] says for some draws; for a tree
    /// without random leaves, what it says without any.
    pub fn resume_with(&self, model: &BehaviorModel, controller: &mut BehaviorController) -> (state:
        UnpoweredFunctionState)
        requires
            always_sound(self@, model@, old(controller)@),
        ensures
            exists|draws: Seq<nat>|
                agrees(
                    #[trigger] run(self@, model@, old(controller)@, draws),
                    Some(state),
                    final(controller)@,
                    Seq::empty(),
                ),
            takes_no_chance(self@) ==> agrees(
                run(self@, model@, old(controller)@, Seq::empty()),
                Some(state),
                final(controller)@,
                Seq::empty(),
            ),
            state != UnpoweredFunctionState::Running,
    {
        self.try_resume_with(model, controller).unwrap()
    }

    /// Forgets what the tree kept from earlier calls. No built-in node
    /// keeps anything, so nothing changes.
    pub fn reset(&mut self, _parameter: &BehaviorModel)
        ensures
            *final(self) == *old(self),
    {
    }
}

/// The tree that decides for a combatant while it lives.
#[derive(Debug, PartialEq, Eq)]
pub struct CharacterBrain {
    pub tree: CharacterBrainNode,
}

/// The tree that decides for a combatant once its health is spent.
#[derive(Debug, PartialEq, Eq)]
pub struct DeathCharacterBrain(pub CharacterBrain);

impl CharacterBrain {
    /// Builds the brain that `tree_def` describes.
    pub fn new(tree_def: &CharacterBrainDef) -> (brain: CharacterBrain)
        ensures
            brain.tree@ == tree_def@,
    {
        CharacterBrain { tree: tree_def.create_tree() }
    }

    /// Evaluates the brain's tree for one turn, from a controller with
    /// nothing picked and nothing decided, and gives the controller as the
    /// tree left it, whether the tree completed or failed. `None` means
    /// that a leaf would have read a picked index out of bounds.
    pub fn evaluate_turn(&self, model: &BehaviorModel) -> (decided: Option<BehaviorController>)
        ensures
            exists|draws: Seq<nat>|
                {
                    let went = #[trigger] run(
                        self.tree@,
                        model@,
                        crate::battle::bt::fresh_controller(),
                        draws,
                    );
                    &&& went.sound == (decided is Some)
                    &&& decided is Some ==> went.controller == decided->0@ && went.rest.len() == 0
                },
            takes_no_chance(self.tree@) ==> {
                let went = run(
                    self.tree@,
                    model@,
                    crate::battle::bt::fresh_controller(),
                    Seq::empty(),
                );
                &&& went.sound == (decided is Some)
                &&& decided is Some ==> went.controller == decided->0@
            },
    {
        let mut controller = BehaviorController::new();
        match self.tree.try_resume_with(model, &mut controller) {
            Some(_) => Some(controller),
            None => None,
        }
    }
}

/// The brain that takes a combatant's turn: the death brain once its
/// health is spent, the living one before.
pub fn brain_for_turn<'a>(
    brain: &'a CharacterBrain,
    death_brain: &'a DeathCharacterBrain,
    health: i32,
) -> (chosen: &'a CharacterBrain)
    ensures
        health <= 0 ==> *chosen == death_brain.0,
        health > 0 ==> *chosen == *brain,
{
    if health <= 0 {
        &death_brain.0
    } else {
        brain
    }
}

} // verus!
