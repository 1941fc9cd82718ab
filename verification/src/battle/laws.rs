//! What holds of every evaluation: statements about the leaves, the
//! wrappers and whole trees, each proved from the definitions in
//! [`crate::battle::nodes`] and [`crate::battle::tree`].

use crate::battle::bt::{
    fresh_controller, BehaviorControllerView, BehaviorModelView, UnpoweredFunctionState,
};
use crate::battle::bt::stamina_left;
use crate::battle::nodes::{
    afford_mask, failed, first_set, leaf_outcome, lemma_first_set_from, lemma_set_indices,
    reach_mask, set_indices, SummonBehaviors,
};
use crate::battle::tree::{
    aimed_at, cells_within, run, run_sequence, run_targets, wrapper_targets, BrainPlan, CharacterBrainDef,
    CharacterBrainNode, Run, SummonWrapperDef,
};
use crate::geometry::{is_nearest, lemma_nearest_exists, manhattan, nearest_index, squared_distance};
use vstd::prelude::*;

verus! {

/// With an enemy on the board, `FindNearestEnemy` completes and picks an
/// enemy than which none is nearer by squared distance, the first in the
/// list among those equally near. It changes nothing else.
pub proof fn law_nearest_enemy_is_picked(
    model: BehaviorModelView,
    controller: BehaviorControllerView,
    draw: nat,
)
    requires
        model.enemies.len() > 0,
    ensures
        ({
            let outcome = leaf_outcome(SummonBehaviors::FindNearestEnemy, model, controller, draw);
            let index = nearest_index(model.position, model.enemies);
            &&& outcome.state == UnpoweredFunctionState::Complete
            &&& outcome.controller == aimed_at(controller, model.enemies[index])
            &&& 0 <= index < model.enemies.len()
            &&& forall|j: int|
                0 <= j < model.enemies.len() ==> squared_distance(
                    model.position,
                    model.enemies[index],
                ) <= #[trigger] squared_distance(model.position, model.enemies[j])
            &&& forall|j: int|
                0 <= j < index ==> squared_distance(model.position, model.enemies[index])
                    < #[trigger] squared_distance(model.position, model.enemies[j])
        }),
{
    lemma_nearest_exists(model.position, model.enemies);
}

/// With an ally on the board, `FindNearestAlly` completes and picks an
/// ally than which none is nearer by squared distance, the first in the
/// list among those equally near. It changes nothing else.
pub proof fn law_nearest_ally_is_picked(
    model: BehaviorModelView,
    controller: BehaviorControllerView,
    draw: nat,
)
    requires
        model.allies.len() > 0,
    ensures
        ({
            let outcome = leaf_outcome(SummonBehaviors::FindNearestAlly, model, controller, draw);
            let index = nearest_index(model.position, model.allies);
            &&& outcome.state == UnpoweredFunctionState::Complete
            &&& outcome.controller == aimed_at(controller, model.allies[index])
            &&& is_nearest(model.position, model.allies, index)
        }),
{
    lemma_nearest_exists(model.position, model.allies);
}

/// Without enemies, the leaves that look for an enemy fail and leave the
/// controller, the picked location with it, as it was; without allies, so
/// do the leaves that look for an ally.
pub proof fn law_find_fails_without_targets(
    behavior: SummonBehaviors,
    model: BehaviorModelView,
    controller: BehaviorControllerView,
    draw: nat,
)
    requires
        behavior == SummonBehaviors::FindNearestEnemy || behavior
            == SummonBehaviors::FindRandomEnemy ==> model.enemies.len() == 0,
        behavior == SummonBehaviors::FindNearestAlly || behavior == SummonBehaviors::FindRandomAlly
            ==> model.allies.len() == 0,
        behavior == SummonBehaviors::FindNearestEnemy || behavior
            == SummonBehaviors::FindRandomEnemy || behavior == SummonBehaviors::FindNearestAlly
            || behavior == SummonBehaviors::FindRandomAlly,
    ensures
        leaf_outcome(behavior, model, controller, draw) == failed(controller),
        leaf_outcome(behavior, model, controller, draw).state == UnpoweredFunctionState::Failed,
        leaf_outcome(behavior, model, controller, draw).controller.picked_location
            == controller.picked_location,
{
}

/// `PickValidAttack` completes exactly when a location is picked and some
/// attack reaches it. It then picks an attack whose range is not less than
/// the Manhattan distance to the picked location, and the one with the
/// lowest index among those; it changes nothing but the picked index.
/// Where it fails it changes nothing.
pub proof fn law_valid_attack_is_lowest_in_reach(
    model: BehaviorModelView,
    controller: BehaviorControllerView,
    draw: nat,
)
    requires
        model.stats.attacks.len() <= usize::MAX,
    ensures
        ({
            let outcome = leaf_outcome(SummonBehaviors::PickValidAttack, model, controller, draw);
            let attacks = model.stats.attacks;
            &&& outcome.state == UnpoweredFunctionState::Complete <==> controller.picked_location
                is Some && exists|i: int|
                0 <= i < attacks.len() && manhattan(
                    model.position,
                    controller.picked_location->0,
                ) <= #[trigger] attacks[i].range
            &&& outcome.state == UnpoweredFunctionState::Complete ==> {
                let distance = manhattan(model.position, controller.picked_location->0);
                &&& outcome.controller.picked_index is Some
                &&& outcome.controller == (BehaviorControllerView {
                    picked_index: outcome.controller.picked_index,
                    ..controller
                })
                &&& outcome.controller.picked_index->0 < attacks.len()
                &&& attacks[outcome.controller.picked_index->0 as int].range >= distance
                &&& forall|j: int|
                    0 <= j < outcome.controller.picked_index->0 ==> (#[trigger] attacks[j]).range
                        < distance
            }
            &&& outcome.state != UnpoweredFunctionState::Complete ==> outcome == failed(controller)
        }),
{
    if controller.picked_location is Some {
        let target = controller.picked_location->0;
        let mask = reach_mask(model, target);
        lemma_first_set_from(mask, 0);
        match first_set(mask) {
            Some(index) => {
                assert(mask[index as int]);
                assert(manhattan(model.position, target) <= model.stats.attacks[index as int].range);
                assert forall|j: int| 0 <= j < index implies (#[trigger] model.stats.attacks[j]).range
                    < manhattan(model.position, target) by {
                    assert(!mask[j]);
                }
            },
            None => {
                assert forall|i: int| 0 <= i < model.stats.attacks.len() implies !(manhattan(
                    model.position,
                    target,
                ) <= #[trigger] model.stats.attacks[i].range) by {
                    assert(!mask[i]);
                }
            },
        }
    }
}

/// `PickRandomAttack` completes exactly when a location is picked and some
/// attack reaches it, and then picks an attack whose range is not less
/// than the Manhattan distance to the picked location, whatever the draw.
/// It changes nothing but the picked index; where it fails it changes
/// nothing.
pub proof fn law_random_attack_is_in_reach(
    model: BehaviorModelView,
    controller: BehaviorControllerView,
    draw: nat,
)
    requires
        model.stats.attacks.len() <= usize::MAX,
    ensures
        ({
            let outcome = leaf_outcome(SummonBehaviors::PickRandomAttack, model, controller, draw);
            let attacks = model.stats.attacks;
            &&& outcome.state == UnpoweredFunctionState::Complete <==> controller.picked_location
                is Some && exists|i: int|
                0 <= i < attacks.len() && manhattan(
                    model.position,
                    controller.picked_location->0,
                ) <= #[trigger] attacks[i].range
            &&& outcome.state == UnpoweredFunctionState::Complete ==> {
                &&& outcome.controller.picked_index is Some
                &&& outcome.controller == (BehaviorControllerView {
                    picked_index: outcome.controller.picked_index,
                    ..controller
                })
                &&& outcome.controller.picked_index->0 < attacks.len()
                &&& attacks[outcome.controller.picked_index->0 as int].range >= manhattan(
                    model.position,
                    controller.picked_location->0,
                )
            }
            &&& outcome.state != UnpoweredFunctionState::Complete ==> outcome == failed(controller)
        }),
{
    if controller.picked_location is Some {
        let target = controller.picked_location->0;
        let mask = reach_mask(model, target);
        let valid = set_indices(mask);
        lemma_set_indices(mask);
        if valid.len() > 0 {
            let k = (draw % valid.len()) as int;
            assert(mask[valid[k] as int]);
            assert(manhattan(model.position, target) <= model.stats.attacks[valid[k] as int].range);
        } else {
            assert forall|i: int| 0 <= i < model.stats.attacks.len() implies !(manhattan(
                model.position,
                target,
            ) <= #[trigger] model.stats.attacks[i].range) by {
                if mask[i] {
                    let k = choose|k: int| 0 <= k < valid.len() && #[trigger] valid[k] == i;
                }
            }
        }
    }
}

/// `PickValidMovement` completes exactly when a location is picked and the
/// stamina left after the actions decided so far pays for some movement.
/// It then picks a movement that the stamina left pays for, and the one
/// with the lowest index among those; it changes nothing but the picked
/// index. Where it fails it changes nothing.
pub proof fn law_valid_movement_is_lowest_paid_for(
    model: BehaviorModelView,
    controller: BehaviorControllerView,
    draw: nat,
)
    requires
        model.stats.movements.len() <= usize::MAX,
    ensures
        ({
            let outcome = leaf_outcome(SummonBehaviors::PickValidMovement, model, controller, draw);
            let movements = model.stats.movements;
            let left = stamina_left(model, controller.actions);
            &&& outcome.state == UnpoweredFunctionState::Complete <==> controller.picked_location
                is Some && exists|i: int|
                0 <= i < movements.len() && #[trigger] movements[i].stamina_cost <= left
            &&& outcome.state == UnpoweredFunctionState::Complete ==> {
                &&& outcome.controller.picked_index is Some
                &&& outcome.controller == (BehaviorControllerView {
                    picked_index: outcome.controller.picked_index,
                    ..controller
                })
                &&& outcome.controller.picked_index->0 < movements.len()
                &&& movements[outcome.controller.picked_index->0 as int].stamina_cost <= left
                &&& forall|j: int|
                    0 <= j < outcome.controller.picked_index->0 ==> (
                    #[trigger] movements[j]).stamina_cost > left
            }
            &&& outcome.state != UnpoweredFunctionState::Complete ==> outcome == failed(controller)
        }),
{
    if controller.picked_location is Some {
        let mask = afford_mask(model, controller.actions);
        let left = stamina_left(model, controller.actions);
        lemma_first_set_from(mask, 0);
        match first_set(mask) {
            Some(index) => {
                assert(mask[index as int]);
                assert(model.stats.movements[index as int].stamina_cost <= left);
                assert forall|j: int| 0 <= j < index implies (
                #[trigger] model.stats.movements[j]).stamina_cost > left by {
                    assert(!mask[j]);
                }
            },
            None => {
                assert forall|i: int| 0 <= i < model.stats.movements.len() implies !(
                #[trigger] model.stats.movements[i].stamina_cost <= left) by {
                    assert(!mask[i]);
                }
            },
        }
    }
}

/// The cells that [`cells_within`] keeps are cells of the list within the
/// range, and it keeps every such cell, one exactly at the range too.
pub proof fn lemma_cells_within(from: (usize, usize), cells: Seq<(usize, usize)>, range: i32)
    ensures
        forall|k: int|
            0 <= k < cells_within(from, cells, range).len() ==> manhattan(
                from,
                #[trigger] cells_within(from, cells, range)[k],
            ) <= range && cells.contains(cells_within(from, cells, range)[k]),
        forall|i: int|
            0 <= i < cells.len() && manhattan(from, #[trigger] cells[i]) <= range ==> cells_within(
                from,
                cells,
                range,
            ).contains(cells[i]),
    decreases cells.len(),
{
    if cells.len() > 0 {
        let front = cells.drop_last();
        let kept = cells_within(from, cells, range);
        let before = cells_within(from, front, range);
        lemma_cells_within(from, front, range);
        assert forall|k: int| 0 <= k < kept.len() implies manhattan(from, #[trigger] kept[k])
            <= range && cells.contains(kept[k]) by {
            if k < before.len() {
                assert(kept[k] == before[k]);
                assert(front.contains(before[k]));
                let i = choose|i: int| 0 <= i < front.len() && front[i] == before[k];
                assert(cells[i] == kept[k]);
            } else {
                assert(kept[k] == cells[cells.len() - 1]);
            }
        }
        assert forall|i: int|
            0 <= i < cells.len() && manhattan(from, #[trigger] cells[i]) <= range implies kept.contains(
            cells[i],
        ) by {
            if i < front.len() {
                assert(front[i] == cells[i]);
                assert(before.contains(front[i]));
                let k = choose|k: int| 0 <= k < before.len() && before[k] == front[i];
                assert(kept[k] == cells[i]);
            } else {
                assert(kept[kept.len() - 1] == cells[i]);
            }
        }
    }
}

/// How many targets a wrapper evaluates its subtree for, from position
/// `from` on: one more after each completion, none after the first
/// evaluation that does not complete.
pub open spec fn visited(
    child: BrainPlan,
    targets: Seq<(usize, usize)>,
    from: int,
    model: BehaviorModelView,
    controller: BehaviorControllerView,
    draws: Seq<nat>,
) -> nat
    decreases targets.len() - from,
{
    if 0 <= from < targets.len() {
        let first = run(child, model, aimed_at(controller, targets[from]), draws);
        if first.sound && first.state == UnpoweredFunctionState::Complete {
            1 + visited(child, targets, from + 1, model, first.controller, first.rest)
        } else {
            1
        }
    } else {
        0
    }
}

/// `ForAllEnemiesInRange(range)` evaluates its subtree only for enemies
/// whose Manhattan distance is at most `range`, and every enemy at most
/// that far, one exactly at `range` included, is among its targets. The
/// subtree is evaluated for no more cells than there are targets.
pub proof fn law_range_wrapper_targets(
    range: i32,
    child: BrainPlan,
    model: BehaviorModelView,
    controller: BehaviorControllerView,
    draws: Seq<nat>,
)
    ensures
        ({
            let targets = wrapper_targets(SummonWrapperDef::ForAllEnemiesInRange(range), model);
            &&& forall|k: int|
                0 <= k < targets.len() ==> manhattan(model.position, #[trigger] targets[k]) <= range
                    && model.enemies.contains(targets[k])
            &&& forall|i: int|
                0 <= i < model.enemies.len() && manhattan(
                    model.position,
                    #[trigger] model.enemies[i],
                ) <= range ==> targets.contains(model.enemies[i])
            &&& visited(child, targets, 0, model, controller, draws) <= targets.len()
        }),
{
    lemma_cells_within(model.position, model.enemies, range);
    lemma_visited_bound(
        child,
        wrapper_targets(SummonWrapperDef::ForAllEnemiesInRange(range), model),
        0,
        model,
        controller,
        draws,
    );
}

/// `ForAllAlliesInRange(range)` evaluates its subtree only for allies
/// whose Manhattan distance is at most `range`, and every ally at most
/// that far, one exactly at `range` included, is among its targets.
pub proof fn law_range_wrapper_allies(range: i32, model: BehaviorModelView)
    ensures
        ({
            let targets = wrapper_targets(SummonWrapperDef::ForAllAlliesInRange(range), model);
            &&& forall|k: int|
                0 <= k < targets.len() ==> manhattan(model.position, #[trigger] targets[k]) <= range
                    && model.allies.contains(targets[k])
            &&& forall|i: int|
                0 <= i < model.allies.len() && manhattan(
                    model.position,
                    #[trigger] model.allies[i],
                ) <= range ==> targets.contains(model.allies[i])
        }),
{
    lemma_cells_within(model.position, model.allies, range);
}

proof fn lemma_visited_bound(
    child: BrainPlan,
    targets: Seq<(usize, usize)>,
    from: int,
    model: BehaviorModelView,
    controller: BehaviorControllerView,
    draws: Seq<nat>,
)
    requires
        0 <= from <= targets.len(),
    ensures
        visited(child, targets, from, model, controller, draws) <= targets.len() - from,
    decreases targets.len() - from,
{
    if from < targets.len() {
        let first = run(child, model, aimed_at(controller, targets[from]), draws);
        if first.sound && first.state == UnpoweredFunctionState::Complete {
            lemma_visited_bound(child, targets, from + 1, model, first.controller, first.rest);
        }
    }
}

/// Where the subtree completes for each target from `from` up to `upto`,
/// the wrapper goes on from `upto` with what those evaluations left.
proof fn lemma_completed_prefix(
    child: BrainPlan,
    targets: Seq<(usize, usize)>,
    from: int,
    upto: int,
    model: BehaviorModelView,
    controller: BehaviorControllerView,
    draws: Seq<nat>,
)
    requires
        0 <= from <= upto <= targets.len(),
        run_targets(child, targets.take(upto), from, model, controller, draws).sound,
        run_targets(child, targets.take(upto), from, model, controller, draws).state
            == UnpoweredFunctionState::Complete,
    ensures
        ({
            let front = run_targets(child, targets.take(upto), from, model, controller, draws);
            &&& run_targets(child, targets, from, model, controller, draws) == run_targets(
                child,
                targets,
                upto,
                model,
                front.controller,
                front.rest,
            )
            &&& visited(child, targets, from, model, controller, draws) == (upto - from) + visited(
                child,
                targets,
                upto,
                model,
                front.controller,
                front.rest,
            )
        }),
    decreases upto - from,
{
    if from < upto {
        assert(targets.take(upto)[from] == targets[from]);
        let first = run(child, model, aimed_at(controller, targets[from]), draws);
        if first.sound && first.state == UnpoweredFunctionState::Complete {
            lemma_completed_prefix(child, targets, from + 1, upto, model, first.controller, first.rest);
        }
    }
}

/// A wrapper fails fast. Where its subtree completes for the first `n`
/// targets and does not complete for the next one, the wrapper fails with
/// what that evaluation left, whatever targets follow, and the subtree has
/// been evaluated `n + 1` times and no more.
pub proof fn law_wrapper_fails_fast(
    child: BrainPlan,
    targets: Seq<(usize, usize)>,
    n: int,
    model: BehaviorModelView,
    controller: BehaviorControllerView,
    draws: Seq<nat>,
)
    requires
        0 <= n < targets.len(),
        run_targets(child, targets.take(n), 0, model, controller, draws).sound,
        run_targets(child, targets.take(n), 0, model, controller, draws).state
            == UnpoweredFunctionState::Complete,
        ({
            let front = run_targets(child, targets.take(n), 0, model, controller, draws);
            let last = run(child, model, aimed_at(front.controller, targets[n]), front.rest);
            last.sound && last.state != UnpoweredFunctionState::Complete
        }),
    ensures
        ({
            let front = run_targets(child, targets.take(n), 0, model, controller, draws);
            let last = run(child, model, aimed_at(front.controller, targets[n]), front.rest);
            &&& run_targets(child, targets, 0, model, controller, draws) == (Run {
                state: UnpoweredFunctionState::Failed,
                ..last
            })
            &&& visited(child, targets, 0, model, controller, draws) == n + 1
        }),
{
    lemma_completed_prefix(child, targets, 0, n, model, controller, draws);
}

/// No tree ends an evaluation in `Running`: every built-in node completes
/// or fails within one call.
pub proof fn law_never_running(
    plan: BrainPlan,
    model: BehaviorModelView,
    controller: BehaviorControllerView,
    draws: Seq<nat>,
)
    ensures
        run(plan, model, controller, draws).sound ==> run(plan, model, controller, draws).state
            != UnpoweredFunctionState::Running,
    decreases plan, 0nat,
{
    match plan {
        BrainPlan::Leaf(_) => {},
        BrainPlan::Wrapper(kind, child) => {
            lemma_targets_never_running(
                *child,
                wrapper_targets(kind, model),
                0,
                model,
                controller,
                draws,
            );
        },
        BrainPlan::Sequence(children) => {
            lemma_sequence_never_running(children, 0, model, controller, draws);
        },
    }
}

proof fn lemma_sequence_never_running(
    children: Seq<BrainPlan>,
    from: int,
    model: BehaviorModelView,
    controller: BehaviorControllerView,
    draws: Seq<nat>,
)
    ensures
        run_sequence(children, from, model, controller, draws).sound ==> run_sequence(
            children,
            from,
            model,
            controller,
            draws,
        ).state != UnpoweredFunctionState::Running,
    decreases children, children.len() - from,
{
    if 0 <= from < children.len() {
        law_never_running(children[from], model, controller, draws);
        let first = run(children[from], model, controller, draws);
        if first.sound && first.state == UnpoweredFunctionState::Complete {
            lemma_sequence_never_running(children, from + 1, model, first.controller, first.rest);
        }
    }
}

proof fn lemma_targets_never_running(
    child: BrainPlan,
    targets: Seq<(usize, usize)>,
    from: int,
    model: BehaviorModelView,
    controller: BehaviorControllerView,
    draws: Seq<nat>,
)
    ensures
        run_targets(child, targets, from, model, controller, draws).sound ==> run_targets(
            child,
            targets,
            from,
            model,
            controller,
            draws,
        ).state != UnpoweredFunctionState::Running,
    decreases child, targets.len() - from + 1,
{
    if 0 <= from < targets.len() {
        let first = run(child, model, aimed_at(controller, targets[from]), draws);
        if first.sound && first.state == UnpoweredFunctionState::Complete {
            lemma_targets_never_running(child, targets, from + 1, model, first.controller, first.rest);
        }
    }
}

/// The tree that looks for the nearest enemy, picks an attack that reaches
/// it and strikes.
pub open spec fn strike_nearest_plan() -> BrainPlan {
    BrainPlan::Sequence(
        seq![
            BrainPlan::Leaf(SummonBehaviors::FindNearestEnemy),
            BrainPlan::Leaf(SummonBehaviors::PickValidAttack),
            BrainPlan::Leaf(SummonBehaviors::AttackTarget),
        ],
    )
}

/// The tree "find the nearest enemy, pick an attack, strike" never reads
/// a picked index out of bounds, whatever the model, the controller it
/// starts from and the draws: the strike comes only after an attack was
/// picked, and the pick is an index of the attack list.
pub proof fn law_strike_nearest_is_sound(
    model: BehaviorModelView,
    controller: BehaviorControllerView,
    draws: Seq<nat>,
)
    requires
        model.stats.attacks.len() <= usize::MAX,
    ensures
        run(strike_nearest_plan(), model, controller, draws).sound,
{
    let children = seq![
        BrainPlan::Leaf(SummonBehaviors::FindNearestEnemy),
        BrainPlan::Leaf(SummonBehaviors::PickValidAttack),
        BrainPlan::Leaf(SummonBehaviors::AttackTarget),
    ];
    let found = run(children[0], model, controller, draws);
    assert(found.sound);
    if found.state == UnpoweredFunctionState::Complete {
        let picked = run(children[1], model, found.controller, found.rest);
        assert(picked.sound);
        if picked.state == UnpoweredFunctionState::Complete {
            let target = found.controller.picked_location->0;
            lemma_first_set_from(reach_mask(model, target), 0);
            let struck = run(children[2], model, picked.controller, picked.rest);
            assert(struck.sound);
            assert(run_sequence(children, 3, model, struck.controller, struck.rest).sound);
            assert(run_sequence(children, 2, model, picked.controller, picked.rest).sound);
        }
        assert(run_sequence(children, 1, model, found.controller, found.rest).sound);
    }
    assert(run_sequence(children, 0, model, controller, draws).sound);
}

/// A tree built from the definition of "find the nearest enemy, pick an
/// attack, strike", evaluated from a new controller on a board without
/// enemies, fails at its first leaf and decides on no action.
pub proof fn law_no_enemy_no_action(
    definition: CharacterBrainDef,
    node: CharacterBrainNode,
    model: BehaviorModelView,
    draws: Seq<nat>,
)
    requires
        definition@ == strike_nearest_plan(),
        node@ == definition@,
        model.enemies.len() == 0,
    ensures
        run(node@, model, fresh_controller(), draws) == (Run {
            state: UnpoweredFunctionState::Failed,
            controller: fresh_controller(),
            rest: draws,
            sound: true,
        }),
        run(node@, model, fresh_controller(), draws).controller.actions.len() == 0,
{
    let children = seq![
        BrainPlan::Leaf(SummonBehaviors::FindNearestEnemy),
        BrainPlan::Leaf(SummonBehaviors::PickValidAttack),
        BrainPlan::Leaf(SummonBehaviors::AttackTarget),
    ];
    let first = run(children[0], model, fresh_controller(), draws);
    assert(first.state == UnpoweredFunctionState::Failed);
    assert(first.controller == fresh_controller());
    assert(first.sound);
    assert(run_sequence(children, 0, model, fresh_controller(), draws) == first);
    assert(run(node@, model, fresh_controller(), draws) == first);
}

} // verus!
