//! The built-in leaf nodes: what each one decides, and how.
//!
//! A leaf reads the model and the controller, and either writes a pick or
//! an action into the controller and completes, or leaves the controller
//! as it was and fails. Five leaves pick at random; what they do is a
//! function of one more input, the draw.

use crate::battle::bt::{
    nearest_cell, occupied, stamina_left, Action, ActionView, BehaviorController,
    BehaviorControllerView, BehaviorModel, BehaviorModelView, UnpoweredFunctionState,
};
use crate::battle::stats::Movement;
use crate::chance::pick_one;
use crate::geometry::{gap, manhattan, within_range, BOARD_SIZE};
use vstd::prelude::*;

verus! {

/// The kinds of leaf node.
#[derive(Clone, Copy, Debug, PartialEq, Eq, Structural)]
pub enum SummonBehaviors {
    FindNearestEnemy,
    FindNearestAlly,
    FindRandomEnemy,
    FindRandomAlly,
    PickValidAttack,
    PickRandomAttack,
    PickValidMovement,
    PickRandomMovement,
    PickAura,
    PickRandomAura,
    AttackTarget,
    MoveTowardsTarget,
    MoveAwayFromTarget,
    RefreshAuraForTarget,
}

/// A final state together with the controller it leaves.
pub struct Outcome {
    pub state: UnpoweredFunctionState,
    pub controller: BehaviorControllerView,
}

/// The lowest position at or after `from` where `mask` is set.
pub open spec fn first_set_from(mask: Seq<bool>, from: nat) -> Option<usize>
    decreases mask.len() - from,
{
    if from >= mask.len() {
        None
    } else if mask[from as int] {
        Some(from as usize)
    } else {
        first_set_from(mask, from + 1)
    }
}

/// The lowest position where `mask` is set.
pub open spec fn first_set(mask: Seq<bool>) -> Option<usize> {
    first_set_from(mask, 0)
}

/// Every position where `mask` is set, in rising order.
pub open spec fn set_indices(mask: Seq<bool>) -> Seq<usize>
    decreases mask.len(),
{
    if mask.len() == 0 {
        Seq::empty()
    } else if mask.last() {
        set_indices(mask.drop_last()).push((mask.len() - 1) as usize)
    } else {
        set_indices(mask.drop_last())
    }
}

/// What [`first_set_from`] gives is the lowest set position at or after
/// `from`, and it gives none only where none is set.
pub proof fn lemma_first_set_from(mask: Seq<bool>, from: nat)
    requires
        mask.len() <= usize::MAX,
    ensures
        match first_set_from(mask, from) {
            Some(index) => from <= index < mask.len() && mask[index as int] && forall|j: int|
                from <= j < index ==> !mask[j],
            None => forall|j: int| from <= j < mask.len() ==> !mask[j],
        },
    decreases mask.len() - from,
{
    if from < mask.len() && !mask[from as int] {
        lemma_first_set_from(mask, from + 1);
    }
}

/// [`set_indices`] lists exactly the set positions, each once, in rising
/// order.
pub proof fn lemma_set_indices(mask: Seq<bool>)
    requires
        mask.len() <= usize::MAX,
    ensures
        forall|k: int|
            0 <= k < set_indices(mask).len() ==> (#[trigger] set_indices(mask)[k]) < mask.len()
                && mask[set_indices(mask)[k] as int],
        forall|k: int, l: int|
            0 <= k < l < set_indices(mask).len() ==> (#[trigger] set_indices(mask)[k]) < (
            #[trigger] set_indices(mask)[l]),
        forall|j: int|
            0 <= j < mask.len() && mask[j] ==> exists|k: int|
                0 <= k < set_indices(mask).len() && #[trigger] set_indices(mask)[k] == j,
        set_indices(mask).len() <= mask.len(),
    decreases mask.len(),
{
    if mask.len() > 0 {
        let front = mask.drop_last();
        lemma_set_indices(front);
        let found = set_indices(mask);
        let before = set_indices(front);
        assert forall|j: int| 0 <= j < mask.len() && mask[j] implies exists|k: int|
            0 <= k < found.len() && #[trigger] found[k] == j by {
            if j < front.len() {
                assert(front[j]);
                let k = choose|k: int| 0 <= k < before.len() && #[trigger] before[k] == j;
                assert(found[k] == j);
            } else {
                assert(found[found.len() - 1] == j);
            }
        }
    }
}

/// For each attack of the acting combatant, whether it reaches `target`.
pub open spec fn reach_mask(model: BehaviorModelView, target: (usize, usize)) -> Seq<bool> {
    Seq::new(
        model.stats.attacks.len(),
        |i: int| manhattan(model.position, target) <= model.stats.attacks[i].range,
    )
}

/// For each movement of the acting combatant, whether the stamina left
/// after `actions` pays for it.
pub open spec fn afford_mask(model: BehaviorModelView, actions: Seq<ActionView>) -> Seq<bool> {
    Seq::new(
        model.stats.movements.len(),
        |i: int| model.stats.movements[i].stamina_cost <= stamina_left(model, actions),
    )
}

/// The item that a draw selects: the one at the draw's remainder by the
/// number of items; `None` when there is no item.
pub open spec fn drawn<T>(items: Seq<T>, draw: nat) -> Option<T> {
    if items.len() == 0 {
        None
    } else {
        Some(items[(draw % items.len()) as int])
    }
}

/// One tile from `a` towards `b` on one axis; `a` when they are level.
pub open spec fn toward(a: usize, b: usize) -> usize {
    if b > a {
        (a + 1) as usize
    } else if b < a {
        (a - 1) as usize
    } else {
        a
    }
}

/// The cell to step on next on the way from `start` to `goal`; `None` once
/// `start` is the goal. The step goes along the axis with the larger gap,
/// rows winning a tie, unless the cell there is occupied: then it goes
/// along the other axis.
pub open spec fn step_towards(
    model: BehaviorModelView,
    start: (usize, usize),
    goal: (usize, usize),
) -> Option<(usize, usize)> {
    let across = (toward(start.0, goal.0), start.1);
    let along = (start.0, toward(start.1, goal.1));
    if start == goal {
        None
    } else if gap(start.0 as int, goal.0 as int) > gap(start.1 as int, goal.1 as int) {
        if occupied(model, across) {
            Some(along)
        } else {
            Some(across)
        }
    } else {
        if occupied(model, along) {
            Some(across)
        } else {
            Some(along)
        }
    }
}

/// The moves planned from `start` towards `goal` with `movement`: one per
/// tile, each from the cell the one before arrived at, until `tiles` are
/// used or the goal is reached.
pub open spec fn planned_moves(
    model: BehaviorModelView,
    start: (usize, usize),
    goal: (usize, usize),
    movement: Movement,
    tiles: int,
) -> Seq<ActionView>
    decreases tiles,
{
    if tiles <= 0 {
        Seq::empty()
    } else {
        match step_towards(model, start, goal) {
            None => Seq::empty(),
            Some(next) => seq![ActionView::Move { movement, target: next }] + planned_moves(
                model,
                next,
                goal,
                movement,
                tiles - 1,
            ),
        }
    }
}

/// Where to flee from `threat`: the left edge when the threat is to the
/// right and there is room, else the right edge when it is to the left and
/// there is room, else the same for rows; `None` when no rule applies.
pub open spec fn flee_goal(position: (usize, usize), threat: (usize, usize)) -> Option<
    (usize, usize),
> {
    if threat.0 > position.0 && position.0 > 0 {
        Some((0usize, position.1))
    } else if threat.0 < position.0 && position.0 < BOARD_SIZE - 1 {
        Some(((BOARD_SIZE - 1) as usize, position.1))
    } else if threat.1 > position.1 && position.1 > 0 {
        Some((position.0, 0usize))
    } else if threat.1 < position.1 && position.1 < BOARD_SIZE - 1 {
        Some((position.0, (BOARD_SIZE - 1) as usize))
    } else {
        None
    }
}

/// The move planned to get away from `threat`: one step towards the flee
/// goal, none without a goal.
pub open spec fn flee_moves(model: BehaviorModelView, threat: (usize, usize), movement: Movement) -> Seq<
    ActionView,
> {
    match flee_goal(model.position, threat) {
        None => Seq::empty(),
        Some(goal) => planned_moves(model, model.position, goal, movement, 1),
    }
}

/// A failure that leaves `controller` as it is.
pub open spec fn failed(controller: BehaviorControllerView) -> Outcome {
    Outcome { state: UnpoweredFunctionState::Failed, controller }
}

/// A completion that leaves `controller`.
pub open spec fn completed(controller: BehaviorControllerView) -> Outcome {
    Outcome { state: UnpoweredFunctionState::Complete, controller }
}

/// The outcome of picking a target: completion with the pick written, or
/// failure without a pick.
pub open spec fn located(controller: BehaviorControllerView, choice: Option<(usize, usize)>) -> Outcome {
    match choice {
        Some(_) => completed(BehaviorControllerView { picked_location: choice, ..controller }),
        None => failed(controller),
    }
}

/// The outcome of picking an attack or a movement.
pub open spec fn indexed(controller: BehaviorControllerView, choice: Option<usize>) -> Outcome {
    match choice {
        Some(_) => completed(BehaviorControllerView { picked_index: choice, ..controller }),
        None => failed(controller),
    }
}

/// The outcome of deciding on `actions` more.
pub open spec fn acted(controller: BehaviorControllerView, actions: Seq<ActionView>) -> Outcome {
    completed(BehaviorControllerView { actions: controller.actions + actions, ..controller })
}

/// Whether the leaf picks at random.
pub open spec fn takes_chance(behavior: SummonBehaviors) -> bool {
    match behavior {
        SummonBehaviors::FindRandomEnemy
        | SummonBehaviors::FindRandomAlly
        | SummonBehaviors::PickRandomAttack
        | SummonBehaviors::PickRandomMovement
        | SummonBehaviors::PickRandomAura => true,
        _ => false,
    }
}

/// Whether the picked index, where the leaf reads it, is a position of the
/// list that the leaf reads it for. A leaf must not be evaluated where
/// this fails: the tree was put together wrongly.
pub open spec fn leaf_in_bounds(
    behavior: SummonBehaviors,
    model: BehaviorModelView,
    controller: BehaviorControllerView,
) -> bool {
    match (behavior, controller.picked_location, controller.picked_index) {
        (SummonBehaviors::AttackTarget, Some(_), Some(index)) => index < model.stats.attacks.len(),
        (SummonBehaviors::MoveTowardsTarget, Some(_), Some(index)) => index
            < model.stats.movements.len(),
        (SummonBehaviors::MoveAwayFromTarget, Some(_), Some(index)) => index
            < model.stats.movements.len(),
        _ => true,
    }
}

/// What a leaf does: the state it ends in and the controller it leaves,
/// given the model, the controller it starts from, and the draw (which
/// only the leaves that pick at random look at).
pub open spec fn leaf_outcome(
    behavior: SummonBehaviors,
    model: BehaviorModelView,
    controller: BehaviorControllerView,
    draw: nat,
) -> Outcome {
    match behavior {
        SummonBehaviors::FindNearestEnemy => located(
            controller,
            nearest_cell(model.position, model.enemies),
        ),
        SummonBehaviors::FindNearestAlly => located(
            controller,
            nearest_cell(model.position, model.allies),
        ),
        SummonBehaviors::FindRandomEnemy => located(controller, drawn(model.enemies, draw)),
        SummonBehaviors::FindRandomAlly => located(controller, drawn(model.allies, draw)),
        SummonBehaviors::PickValidAttack => match controller.picked_location {
            Some(target) => indexed(controller, first_set(reach_mask(model, target))),
            None => failed(controller),
        },
        SummonBehaviors::PickRandomAttack => match controller.picked_location {
            Some(target) => indexed(
                controller,
                drawn(set_indices(reach_mask(model, target)), draw),
            ),
            None => failed(controller),
        },
        SummonBehaviors::PickValidMovement => match controller.picked_location {
            Some(_) => indexed(controller, first_set(afford_mask(model, controller.actions))),
            None => failed(controller),
        },
        SummonBehaviors::PickRandomMovement => match controller.picked_location {
            Some(_) => indexed(
                controller,
                drawn(set_indices(afford_mask(model, controller.actions)), draw),
            ),
            None => failed(controller),
        },
        SummonBehaviors::PickAura => if model.stats.auras.len() > 0 {
            completed(
                BehaviorControllerView { picked_aura: Some(model.stats.auras[0]), ..controller },
            )
        } else {
            failed(controller)
        },
        SummonBehaviors::PickRandomAura => match drawn(model.stats.auras, draw) {
            Some(aura) => completed(
                BehaviorControllerView { picked_aura: Some(aura), ..controller },
            ),
            None => failed(controller),
        },
        SummonBehaviors::AttackTarget => match (
            controller.picked_location,
            controller.picked_index,
        ) {
            (Some(target), Some(index)) => acted(
                controller,
                seq![ActionView::Attack { attack: model.stats.attacks[index as int], target }],
            ),
            _ => failed(controller),
        },
        SummonBehaviors::MoveTowardsTarget => match (
            controller.picked_location,
            controller.picked_index,
        ) {
            (Some(target), Some(index)) => acted(
                controller,
                planned_moves(
                    model,
                    model.position,
                    target,
                    model.stats.movements[index as int],
                    model.stats.movements[index as int].tiles as int,
                ),
            ),
            _ => failed(controller),
        },
        SummonBehaviors::MoveAwayFromTarget => match (
            controller.picked_location,
            controller.picked_index,
        ) {
            (Some(target), Some(index)) => acted(
                controller,
                flee_moves(model, target, model.stats.movements[index as int]),
            ),
            _ => failed(controller),
        },
        SummonBehaviors::RefreshAuraForTarget => match (
            controller.picked_aura,
            controller.picked_location,
        ) {
            (Some(effect), Some(target)) => acted(
                controller,
                seq![ActionView::Aura { effect, target }],
            ),
            _ => failed(controller),
        },
    }
}

fn attack_mask(model: &BehaviorModel, target: (usize, usize)) -> (mask: Vec<bool>)
    ensures
        mask@ == reach_mask(model@, target),
{
    let mut mask: Vec<bool> = Vec::new();
    let mut i: usize = 0;
    while i < model.stats.attacks.len()
        invariant
            i <= model.stats.attacks.len(),
            mask.len() == i,
            forall|j: int| 0 <= j < i ==> mask@[j] == reach_mask(model@, target)[j],
        decreases model.stats.attacks.len() - i,
    {
        mask.push(within_range(model.position, target, model.stats.attacks[i].range));
        i += 1;
    }
    assert(mask@ =~= reach_mask(model@, target));
    mask
}

fn movement_mask(model: &BehaviorModel, controller: &BehaviorController) -> (mask: Vec<bool>)
    ensures
        mask@ == afford_mask(model@, controller@.actions),
{
    let left = controller.remaining_stamina(model);
    let mut mask: Vec<bool> = Vec::new();
    let mut i: usize = 0;
    while i < model.stats.movements.len()
        invariant
            i <= model.stats.movements.len(),
            mask.len() == i,
            left == stamina_left(model@, controller@.actions),
            forall|j: int| 0 <= j < i ==> mask@[j] == afford_mask(model@, controller@.actions)[j],
        decreases model.stats.movements.len() - i,
    {
        mask.push(model.stats.movements[i].stamina_cost as i128 <= left);
        i += 1;
    }
    assert(mask@ =~= afford_mask(model@, controller@.actions));
    mask
}

fn lowest_set(mask: &Vec<bool>) -> (found: Option<usize>)
    ensures
        found == first_set(mask@),
{
    let mut i: usize = 0;
    while i < mask.len()
        invariant
            i <= mask.len(),
            first_set(mask@) == first_set_from(mask@, i as nat),
        decreases mask.len() - i,
    {
        if mask[i] {
            return Some(i);
        }
        i += 1;
    }
    None
}

fn all_set(mask: &Vec<bool>) -> (found: Vec<usize>)
    ensures
        found@ == set_indices(mask@),
{
    let mut found: Vec<usize> = Vec::new();
    let mut i: usize = 0;
    while i < mask.len()
        invariant
            i <= mask.len(),
            found@ == set_indices(mask@.take(i as int)),
        decreases mask.len() - i,
    {
        assert(mask@.take(i + 1).drop_last() =~= mask@.take(i as int));
        if mask[i] {
            found.push(i);
        }
        i += 1;
    }
    assert(mask@.take(i as int) =~= mask@);
    found
}

fn step_on_axis(a: usize, b: usize) -> (next: usize)
    ensures
        next == toward(a, b),
{
    if b > a {
        a + 1
    } else if b < a {
        a - 1
    } else {
        a
    }
}

fn axis_distance(a: usize, b: usize) -> (distance: usize)
    ensures
        distance == gap(a as int, b as int),
{
    if a <= b {
        b - a
    } else {
        a - b
    }
}

impl BehaviorModel {
    /// The cell to step on next on the way from `start` to `goal`, against
    /// the occupancy that the model recorded; `None` once `start` is the
    /// goal.
    pub fn step_towards(&self, start: (usize, usize), goal: (usize, usize)) -> (next: Option<
        (usize, usize),
    >)
        ensures
            next == step_towards(self@, start, goal),
    {
        if start.0 == goal.0 && start.1 == goal.1 {
            return None;
        }
        let across = (step_on_axis(start.0, goal.0), start.1);
        let along = (start.0, step_on_axis(start.1, goal.1));
        if axis_distance(start.0, goal.0) > axis_distance(start.1, goal.1) {
            if self.location_occupied(across.0, across.1) {
                Some(along)
            } else {
                Some(across)
            }
        } else {
            if self.location_occupied(along.0, along.1) {
                Some(across)
            } else {
                Some(along)
            }
        }
    }
}

/// Decides on one step of the acting combatant from where it stands
/// towards `(t_x, t_y)`; on none when it stands there already.
pub fn try_move_towards(
    model: &BehaviorModel,
    t_x: usize,
    t_y: usize,
    controller: &mut BehaviorController,
    movement: &Movement,
)
    ensures
        final(controller)@ == acted(
            old(controller)@,
            planned_moves(model@, model@.position, (t_x, t_y), *movement, 1),
        ).controller,
{
    let ghost before = controller@;
    match model.step_towards(model.position, (t_x, t_y)) {
        Some(next) => {
            controller.push_action(Action::Move { movement: *movement, target: next });
            assert(planned_moves(model@, next, (t_x, t_y), *movement, 0) =~= Seq::empty());
            assert(controller@.actions =~= before.actions + planned_moves(
                model@,
                model@.position,
                (t_x, t_y),
                *movement,
                1,
            ));
        },
        None => {
            assert(controller@.actions =~= before.actions + planned_moves(
                model@,
                model@.position,
                (t_x, t_y),
                *movement,
                1,
            ));
        },
    }
}

/// Decides on the steps of the acting combatant towards `goal`, one for
/// each tile of `movement`, each from where the one before arrived.
pub fn plan_moves(
    model: &BehaviorModel,
    goal: (usize, usize),
    controller: &mut BehaviorController,
    movement: &Movement,
)
    ensures
        final(controller)@ == acted(
            old(controller)@,
            planned_moves(model@, model@.position, goal, *movement, movement.tiles as int),
        ).controller,
{
    let ghost before = controller@;
    let mut at = model.position;
    let mut left: i32 = movement.tiles;
    assert(before.actions =~= before.actions + Seq::<ActionView>::empty());
    while left > 0
        invariant
            controller@ == (BehaviorControllerView { actions: controller@.actions, ..before }),
            before.actions + planned_moves(
                model@,
                model@.position,
                goal,
                *movement,
                movement.tiles as int,
            ) == controller@.actions + planned_moves(model@, at, goal, *movement, left as int),
        decreases left,
    {
        let ghost so_far = controller@.actions;
        match model.step_towards(at, goal) {
            Some(next) => {
                controller.push_action(Action::Move { movement: *movement, target: next });
                assert(so_far + planned_moves(model@, at, goal, *movement, left as int)
                    =~= controller@.actions + planned_moves(
                    model@,
                    next,
                    goal,
                    *movement,
                    left - 1,
                ));
                at = next;
                left = left - 1;
            },
            None => {
                assert(planned_moves(model@, at, goal, *movement, 0) =~= planned_moves(
                    model@,
                    at,
                    goal,
                    *movement,
                    left as int,
                ));
                left = 0;
            },
        }
    }
    assert(controller@.actions + planned_moves(model@, at, goal, *movement, left as int)
        =~= controller@.actions);
}

/// Decides on one step of the acting combatant away from `threat`, where
/// the rules give it somewhere to flee to.
pub fn plan_flight(
    model: &BehaviorModel,
    threat: (usize, usize),
    controller: &mut BehaviorController,
    movement: &Movement,
)
    ensures
        final(controller)@ == acted(
            old(controller)@,
            flee_moves(model@, threat, *movement),
        ).controller,
{
    let x = model.position.0;
    let y = model.position.1;
    if threat.0 > x && x > 0 {
        try_move_towards(model, 0, y, controller, movement);
    } else if threat.0 < x && x < BOARD_SIZE - 1 {
        try_move_towards(model, BOARD_SIZE - 1, y, controller, movement);
    } else if threat.1 > y && y > 0 {
        try_move_towards(model, x, 0, controller, movement);
    } else if threat.1 < y && y < BOARD_SIZE - 1 {
        try_move_towards(model, x, BOARD_SIZE - 1, controller, movement);
    } else {
        assert(controller@.actions =~= controller@.actions + Seq::<ActionView>::empty());
    }
}

fn locate_at_random(cells: &Vec<(usize, usize)>, controller: &mut BehaviorController) -> (result: (
    UnpoweredFunctionState,
    Ghost<nat>,
))
    ensures
        located(old(controller)@, drawn(cells@, result.1@)) == (Outcome {
            state: result.0,
            controller: final(controller)@,
        }),
{
    match pick_one(cells) {
        Some(cell) => {
            let ghost draw = choose|i: int| 0 <= i < cells@.len() && cells@[i] == *cell;
            proof {
                vstd::arithmetic::div_mod::lemma_small_mod(draw as nat, cells@.len());
            }
            (controller.settle_location(Some(*cell)), Ghost(draw as nat))
        },
        None => (controller.settle_location(None), Ghost(0)),
    }
}

fn index_at_random(mask: &Vec<bool>, controller: &mut BehaviorController) -> (result: (
    UnpoweredFunctionState,
    Ghost<nat>,
))
    ensures
        indexed(old(controller)@, drawn(set_indices(mask@), result.1@)) == (Outcome {
            state: result.0,
            controller: final(controller)@,
        }),
{
    let valid = all_set(mask);
    match pick_one(&valid) {
        Some(index) => {
            let ghost draw = choose|i: int| 0 <= i < valid@.len() && valid@[i] == *index;
            proof {
                vstd::arithmetic::div_mod::lemma_small_mod(draw as nat, valid@.len());
            }
            (controller.settle_index(Some(*index)), Ghost(draw as nat))
        },
        None => (controller.settle_index(None), Ghost(0)),
    }
}

fn aura_at_random(model: &BehaviorModel, controller: &mut BehaviorController) -> (result: (
    UnpoweredFunctionState,
    Ghost<nat>,
))
    ensures
        leaf_outcome(
            SummonBehaviors::PickRandomAura,
            model@,
            old(controller)@,
            result.1@,
        ) == (Outcome { state: result.0, controller: final(controller)@ }),
{
    match pick_one(&model.stats.auras) {
        Some(aura) => {
            let ghost draw = choose|i: int|
                0 <= i < model.stats.auras@.len() && model.stats.auras@[i] == *aura;
            proof {
                vstd::arithmetic::div_mod::lemma_small_mod(draw as nat, model.stats.auras@.len());
                assert(model@.stats.auras[draw] == aura@);
            }
            (controller.settle_aura(Some(aura)), Ghost(draw as nat))
        },
        None => (controller.settle_aura(None), Ghost(0)),
    }
}

fn first_aura(model: &BehaviorModel, controller: &mut BehaviorController) -> (state:
    UnpoweredFunctionState)
    ensures
        leaf_outcome(SummonBehaviors::PickAura, model@, old(controller)@, 0) == (Outcome {
            state,
            controller: final(controller)@,
        }),
{
    if model.stats.auras.len() > 0 {
        assert(model@.stats.auras[0] == model.stats.auras@[0]@);
        controller.settle_aura(Some(&model.stats.auras[0]))
    } else {
        controller.settle_aura(None)
    }
}

fn strike(model: &BehaviorModel, controller: &mut BehaviorController) -> (state: Option<
    UnpoweredFunctionState,
>)
    ensures
        state is Some <==> leaf_in_bounds(SummonBehaviors::AttackTarget, model@, old(controller)@),
        state is Some ==> leaf_outcome(SummonBehaviors::AttackTarget, model@, old(controller)@, 0)
            == (Outcome { state: state->0, controller: final(controller)@ }),
        state is None ==> final(controller)@ == old(controller)@,
{
    let ghost before = controller@;
    match (controller.picked_location, controller.picked_index) {
        (Some(target), Some(index)) => {
            if index < model.stats.attacks.len() {
                controller.push_action(Action::Attack { attack: model.stats.attacks[index], target });
                assert(controller@.actions =~= before.actions + seq![
                    ActionView::Attack { attack: model@.stats.attacks[index as int], target },
                ]);
                Some(UnpoweredFunctionState::Complete)
            } else {
                None
            }
        },
        _ => Some(UnpoweredFunctionState::Failed),
    }
}

fn advance(model: &BehaviorModel, controller: &mut BehaviorController) -> (state: Option<
    UnpoweredFunctionState,
>)
    ensures
        state is Some <==> leaf_in_bounds(
            SummonBehaviors::MoveTowardsTarget,
            model@,
            old(controller)@,
        ),
        state is Some ==> leaf_outcome(
            SummonBehaviors::MoveTowardsTarget,
            model@,
            old(controller)@,
            0,
        ) == (Outcome { state: state->0, controller: final(controller)@ }),
        state is None ==> final(controller)@ == old(controller)@,
{
    match (controller.picked_location, controller.picked_index) {
        (Some(target), Some(index)) => {
            if index < model.stats.movements.len() {
                plan_moves(model, target, controller, &model.stats.movements[index]);
                Some(UnpoweredFunctionState::Complete)
            } else {
                None
            }
        },
        _ => Some(UnpoweredFunctionState::Failed),
    }
}

fn retreat(model: &BehaviorModel, controller: &mut BehaviorController) -> (state: Option<
    UnpoweredFunctionState,
>)
    ensures
        state is Some <==> leaf_in_bounds(
            SummonBehaviors::MoveAwayFromTarget,
            model@,
            old(controller)@,
        ),
        state is Some ==> leaf_outcome(
            SummonBehaviors::MoveAwayFromTarget,
            model@,
            old(controller)@,
            0,
        ) == (Outcome { state: state->0, controller: final(controller)@ }),
        state is None ==> final(controller)@ == old(controller)@,
{
    match (controller.picked_location, controller.picked_index) {
        (Some(target), Some(index)) => {
            if index < model.stats.movements.len() {
                plan_flight(model, target, controller, &model.stats.movements[index]);
                Some(UnpoweredFunctionState::Complete)
            } else {
                None
            }
        },
        _ => Some(UnpoweredFunctionState::Failed),
    }
}

fn refresh(model: &BehaviorModel, controller: &mut BehaviorController) -> (state:
    UnpoweredFunctionState)
    ensures
        leaf_outcome(SummonBehaviors::RefreshAuraForTarget, model@, old(controller)@, 0) == (
        Outcome { state, controller: final(controller)@ }),
{
    let ghost before = controller@;
    match (&controller.picked_aura, controller.picked_location) {
        (Some(effect), Some(target)) => {
            let effect = effect.clone();
            let ghost shown = effect@;
            controller.push_action(Action::Aura { effect, target });
            assert(controller@.actions =~= before.actions + seq![
                ActionView::Aura { effect: shown, target },
            ]);
            UnpoweredFunctionState::Complete
        },
        _ => UnpoweredFunctionState::Failed,
    }
}

impl SummonBehaviors {
    /// Evaluates the leaf unless it would read a picked index that is out
    /// of bounds; then it gives `None` and leaves the controller alone.
    /// The second result is the draw that a random pick came to.
    pub(crate) fn attempt(&self, model: &BehaviorModel, controller: &mut BehaviorController) -> (result:
        (Option<UnpoweredFunctionState>, Ghost<nat>))
        ensures
            result.0 is Some <==> leaf_in_bounds(*self, model@, old(controller)@),
            result.0 is Some ==> leaf_outcome(*self, model@, old(controller)@, result.1@) == (
            Outcome { state: result.0->0, controller: final(controller)@ }),
            result.0 is Some ==> result.0->0 != UnpoweredFunctionState::Running,
            result.0 is Some && !takes_chance(*self) ==> result.1@ == 0,
            result.0 is None ==> final(controller)@ == old(controller)@,
    {
        match self {
            SummonBehaviors::FindNearestEnemy => {
                let found = model.find_nearest_enemy();
                (Some(controller.settle_location(found)), Ghost(0))
            },
            SummonBehaviors::FindNearestAlly => {
                let found = model.find_nearest_ally();
                (Some(controller.settle_location(found)), Ghost(0))
            },
            SummonBehaviors::FindRandomEnemy => {
                let (state, draw) = locate_at_random(&model.enemies, controller);
                (Some(state), draw)
            },
            SummonBehaviors::FindRandomAlly => {
                let (state, draw) = locate_at_random(&model.allies, controller);
                (Some(state), draw)
            },
            SummonBehaviors::PickValidAttack => {
                match controller.picked_location {
                    Some(target) => {
                        let mask = attack_mask(model, target);
                        (Some(controller.settle_index(lowest_set(&mask))), Ghost(0))
                    },
                    None => (Some(UnpoweredFunctionState::Failed), Ghost(0)),
                }
            },
            SummonBehaviors::PickRandomAttack => {
                match controller.picked_location {
                    Some(target) => {
                        let mask = attack_mask(model, target);
                        let (state, draw) = index_at_random(&mask, controller);
                        (Some(state), draw)
                    },
                    None => (Some(UnpoweredFunctionState::Failed), Ghost(0)),
                }
            },
            SummonBehaviors::PickValidMovement => {
                match controller.picked_location {
                    Some(_) => {
                        let mask = movement_mask(model, controller);
                        (Some(controller.settle_index(lowest_set(&mask))), Ghost(0))
                    },
                    None => (Some(UnpoweredFunctionState::Failed), Ghost(0)),
                }
            },
            SummonBehaviors::PickRandomMovement => {
                match controller.picked_location {
                    Some(_) => {
                        let mask = movement_mask(model, controller);
                        let (state, draw) = index_at_random(&mask, controller);
                        (Some(state), draw)
                    },
                    None => (Some(UnpoweredFunctionState::Failed), Ghost(0)),
                }
            },
            SummonBehaviors::PickAura => (Some(first_aura(model, controller)), Ghost(0)),
            SummonBehaviors::PickRandomAura => {
                let (state, draw) = aura_at_random(model, controller);
                (Some(state), draw)
            },
            SummonBehaviors::AttackTarget => (strike(model, controller), Ghost(0)),
            SummonBehaviors::MoveTowardsTarget => (advance(model, controller), Ghost(0)),
            SummonBehaviors::MoveAwayFromTarget => (retreat(model, controller), Ghost(0)),
            SummonBehaviors::RefreshAuraForTarget => (Some(refresh(model, controller)), Ghost(0)),
        }
    }

    /// Evaluates the leaf once against `model`, writing into `controller`.
    ///
    /// The leaves that pick at random do what [`leaf_outcome`] says for
    /// some draw; the others do what it says whatever the draw.
    pub fn resume_with(&self, model: &BehaviorModel, controller: &mut BehaviorController) -> (state:
        UnpoweredFunctionState)
        requires
            leaf_in_bounds(*self, model@, old(controller)@),
        ensures
            exists|draw: nat|
                leaf_outcome(*self, model@, old(controller)@, draw) == (Outcome {
                    state,
                    controller: final(controller)@,
                }),
            !takes_chance(*self) ==> leaf_outcome(*self, model@, old(controller)@, 0) == (Outcome {
                state,
                controller: final(controller)@,
            }),
            state != UnpoweredFunctionState::Running,
    {
        let (state, Ghost(draw)) = self.attempt(model, controller);
        state.unwrap()
    }

    /// Forgets what the leaf kept from earlier calls. No leaf keeps
    /// anything, so nothing changes.
    pub fn reset(&mut self, _parameter: &BehaviorModel)
        ensures
            *final(self) == *old(self),
    {
    }
}

} // verus!
