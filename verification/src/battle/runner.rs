//! A turn of battle round the behaviour tree: what the acting combatant
//! gets to see, and what its decisions do to it.

use crate::battle::bt::{occupied, BehaviorModel, BehaviorModelView};
use crate::battle::stats::{fits_i32, next_step, Attack, CharacterStats, Faction, Movement};
use vstd::prelude::*;

verus! {

/// Whether the acting combatant at `actor` gets to see the unit on `cell`:
/// it sees every unit in another column, and in its own column every
/// living unit on another row. So it never sees itself, and it sees the
/// dead only in other columns.
pub open spec fn stays_in_view(cell: (usize, usize), actor: (usize, usize), dead: Seq<(usize, usize)>) -> bool {
    cell.0 != actor.0 || (cell.1 != actor.1 && !dead.contains(cell))
}

/// The cells of `cells` that the acting combatant gets to see, in their
/// order.
pub open spec fn cells_in_view(
    cells: Seq<(usize, usize)>,
    actor: (usize, usize),
    dead: Seq<(usize, usize)>,
) -> Seq<(usize, usize)>
    decreases cells.len(),
{
    if cells.len() == 0 {
        Seq::empty()
    } else if stays_in_view(cells.last(), actor, dead) {
        cells_in_view(cells.drop_last(), actor, dead).push(cells.last())
    } else {
        cells_in_view(cells.drop_last(), actor, dead)
    }
}

fn among(cells: &Vec<(usize, usize)>, cell: (usize, usize)) -> (found: bool)
    ensures
        found == cells@.contains(cell),
{
    let mut i: usize = 0;
    while i < cells.len()
        invariant
            i <= cells.len(),
            forall|j: int| 0 <= j < i ==> cells@[j] != cell,
        decreases cells.len() - i,
    {
        if cells[i].0 == cell.0 && cells[i].1 == cell.1 {
            return true;
        }
        i += 1;
    }
    false
}

/// The cells of `cells` that the acting combatant at `actor` gets to see.
pub fn visible_cells(cells: &Vec<(usize, usize)>, actor: (usize, usize), dead: &Vec<(usize, usize)>) -> (seen:
    Vec<(usize, usize)>)
    ensures
        seen@ == cells_in_view(cells@, actor, dead@),
{
    let mut seen: Vec<(usize, usize)> = Vec::new();
    let mut i: usize = 0;
    while i < cells.len()
        invariant
            i <= cells.len(),
            seen@ == cells_in_view(cells@.take(i as int), actor, dead@),
        decreases cells.len() - i,
    {
        assert(cells@.take(i + 1).drop_last() =~= cells@.take(i as int));
        let cell = cells[i];
        if cell.0 != actor.0 || (cell.1 != actor.1 && !among(dead, cell)) {
            seen.push(cell);
        }
        i += 1;
    }
    assert(cells@.take(i as int) =~= cells@);
    seen
}

/// The battlefield as the combatant at `position` sees it at the start of
/// its turn: its own stats, and of the units of the other side and of its
/// own those that it gets to see.
pub fn snapshot(
    position: (usize, usize),
    stats: &CharacterStats,
    faction: Faction,
    player_units: &Vec<(usize, usize)>,
    enemy_units: &Vec<(usize, usize)>,
    dead_units: &Vec<(usize, usize)>,
) -> (model: BehaviorModel)
    ensures
        model@ == (BehaviorModelView {
            position,
            stats: stats@,
            enemies: cells_in_view(
                if faction == Faction::Player {
                    enemy_units@
                } else {
                    player_units@
                },
                position,
                dead_units@,
            ),
            allies: cells_in_view(
                if faction == Faction::Player {
                    player_units@
                } else {
                    enemy_units@
                },
                position,
                dead_units@,
            ),
        }),
{
    let (others, own) = match faction {
        Faction::Player => (enemy_units, player_units),
        Faction::Enemy => (player_units, enemy_units),
    };
    BehaviorModel {
        position,
        stats: stats.clone(),
        enemies: visible_cells(others, position, dead_units),
        allies: visible_cells(own, position, dead_units),
    }
}

/// The cell one tile from `at` on the way to `target`.
pub open spec fn next_cell(at: (usize, usize), target: (usize, usize)) -> (usize, usize) {
    (next_step(at, target).0 as usize, next_step(at, target).1 as usize)
}

/// Where a combatant stands and what stamina it has after a decided move
/// from `at` with `target` as its goal: it takes one step towards the
/// goal and pays for it, unless the model has the cell to step on as
/// occupied; then it stays and pays nothing.
pub open spec fn moved(
    model: BehaviorModelView,
    movement: Movement,
    target: (usize, usize),
    at: (usize, usize),
    stamina: int,
) -> ((usize, usize), int) {
    if occupied(model, next_cell(at, target)) {
        (at, stamina)
    } else {
        (next_cell(at, target), stamina - movement.stamina_cost)
    }
}

/// Carries out a decided move.
pub fn apply_move(
    model: &BehaviorModel,
    movement: &Movement,
    target: (usize, usize),
    at: (usize, usize),
    stamina: i32,
) -> (after: ((usize, usize), i32))
    requires
        !occupied(model@, next_cell(at, target)) ==> fits_i32(stamina - movement.stamina_cost),
    ensures
        (after.0, after.1 as int) == moved(model@, *movement, target, at, stamina as int),
{
    let next = movement.next_location(at.0, at.1, target.0, target.1);
    if model.location_occupied(next.0, next.1) {
        (at, stamina)
    } else {
        (next, stamina - movement.stamina_cost)
    }
}

/// The stamina left once an attack is paid for; an attack that the stamina
/// does not pay for is free.
pub fn pay_for_attack(stamina: i32, attack: &Attack) -> (left: i32)
    requires
        stamina >= attack.stamina_cost ==> fits_i32(stamina - attack.stamina_cost),
    ensures
        left == if stamina >= attack.stamina_cost {
            stamina - attack.stamina_cost
        } else {
            stamina as int
        },
{
    if stamina >= attack.stamina_cost {
        stamina - attack.stamina_cost
    } else {
        stamina
    }
}

/// Whether the battle is over, and if so whether the player has won it:
/// it is over when one side has no unit left, and won when the enemy has
/// none.
pub fn battle_result(player_units: usize, enemy_units: usize) -> (won: Option<bool>)
    ensures
        won == if player_units == 0 || enemy_units == 0 {
            Some(enemy_units == 0)
        } else {
            None
        },
{
    if player_units == 0 || enemy_units == 0 {
        Some(enemy_units == 0)
    } else {
        None
    }
}

} // verus!
