//! What a behaviour tree sees and what it writes.
//!
//! A tree is evaluated against a [`BehaviorModel`], a snapshot of the
//! battlefield taken at the start of a turn, and writes its picks and the
//! actions it intends into a [`BehaviorController`].

use crate::battle::stats::{
    Attack, AuraEffect, AuraEffectView, CharacterStats, CharacterStatsView, Movement,
};
use crate::geometry::{find_nearest, is_nearest, nearest_index};
use vstd::prelude::*;

verus! {

/// How the evaluation of a node ended.
#[derive(Clone, Copy, Debug, PartialEq, Eq, Structural)]
pub enum UnpoweredFunctionState {
    /// The node did its work; what it wrote stands.
    Complete,
    /// The node has more to do on a later call. No built-in node gives
    /// this.
    Running,
    /// The node's condition was not met.
    Failed,
}

/// The battlefield as the acting combatant sees it for one turn.
#[derive(Debug, PartialEq, Eq)]
pub struct BehaviorModel {
    pub position: (usize, usize),
    pub stats: CharacterStats,
    pub enemies: Vec<(usize, usize)>,
    pub allies: Vec<(usize, usize)>,
}

/// A model as a plain value.
pub struct BehaviorModelView {
    pub position: (usize, usize),
    pub stats: CharacterStatsView,
    pub enemies: Seq<(usize, usize)>,
    pub allies: Seq<(usize, usize)>,
}

impl View for BehaviorModel {
    type V = BehaviorModelView;

    open spec fn view(&self) -> BehaviorModelView {
        BehaviorModelView {
            position: self.position,
            stats: self.stats@,
            enemies: self.enemies@,
            allies: self.allies@,
        }
    }
}

/// The first of `cells` that is nearest to `from`; `None` when there is
/// no cell.
pub open spec fn nearest_cell(from: (usize, usize), cells: Seq<(usize, usize)>) -> Option<
    (usize, usize),
> {
    if cells.len() == 0 {
        None
    } else {
        Some(cells[nearest_index(from, cells)])
    }
}

/// Whether some combatant other than the acting one stands on `cell`.
pub open spec fn occupied(model: BehaviorModelView, cell: (usize, usize)) -> bool {
    model.enemies.contains(cell) || model.allies.contains(cell)
}

fn nearest_of(from: (usize, usize), cells: &Vec<(usize, usize)>) -> (found: Option<(usize, usize)>)
    ensures
        found == nearest_cell(from, cells@),
        found is Some ==> exists|i: int| is_nearest(from, cells@, i) && cells@[i] == found->0,
{
    match find_nearest(from, cells) {
        None => None,
        Some(index) => {
            proof {
                crate::geometry::lemma_nearest_unique(
                    from,
                    cells@,
                    index as int,
                    nearest_index(from, cells@),
                );
            }
            Some(cells[index])
        },
    }
}

fn holds(cells: &Vec<(usize, usize)>, cell: (usize, usize)) -> (found: bool)
    ensures
        found == cells@.contains(cell),
{
    let mut i: usize = 0;
    while i < cells.len()
        invariant
            i <= cells.len(),
            forall|j: int| 0 <= j < i ==> cells@[j] != cell,
        decreases cells.len() - i,
    {
        if cells[i].0 == cell.0 && cells[i].1 == cell.1 {
            return true;
        }
        i += 1;
    }
    false
}

impl BehaviorModel {
    /// The enemy nearest to the acting combatant by straight-line
    /// distance, the first in the list among equally near ones; `None`
    /// without enemies.
    pub fn find_nearest_enemy(&self) -> (found: Option<(usize, usize)>)
        ensures
            found == nearest_cell(self@.position, self@.enemies),
            found is None <==> self@.enemies.len() == 0,
            found is Some ==> exists|i: int|
                is_nearest(self@.position, self@.enemies, i) && self@.enemies[i] == found->0,
    {
        nearest_of(self.position, &self.enemies)
    }

    /// The ally nearest to the acting combatant by straight-line distance,
    /// the first in the list among equally near ones; `None` without
    /// allies.
    pub fn find_nearest_ally(&self) -> (found: Option<(usize, usize)>)
        ensures
            found == nearest_cell(self@.position, self@.allies),
            found is None <==> self@.allies.len() == 0,
            found is Some ==> exists|i: int|
                is_nearest(self@.position, self@.allies, i) && self@.allies[i] == found->0,
    {
        nearest_of(self.position, &self.allies)
    }

    /// Whether an enemy or an ally stands on `(x, y)`.
    pub fn location_occupied(&self, x: usize, y: usize) -> (taken: bool)
        ensures
            taken == occupied(self@, (x, y)),
    {
        holds(&self.enemies, (x, y)) || holds(&self.allies, (x, y))
    }
}

/// Something a combatant intends to do this turn.
#[derive(Debug, PartialEq, Eq)]
pub enum Action {
    Move { movement: Movement, target: (usize, usize) },
    Attack { attack: Attack, target: (usize, usize) },
    Aura { effect: AuraEffect, target: (usize, usize) },
}

/// An action as a plain value.
pub enum ActionView {
    Move { movement: Movement, target: (usize, usize) },
    Attack { attack: Attack, target: (usize, usize) },
    Aura { effect: AuraEffectView, target: (usize, usize) },
}

impl View for Action {
    type V = ActionView;

    open spec fn view(&self) -> ActionView {
        match self {
            Action::Move { movement, target } => ActionView::Move {
                movement: *movement,
                target: *target,
            },
            Action::Attack { attack, target } => ActionView::Attack {
                attack: *attack,
                target: *target,
            },
            Action::Aura { effect, target } => ActionView::Aura { effect: effect@, target: *target },
        }
    }
}

/// The views of a list of actions.
pub open spec fn action_views(actions: Seq<Action>) -> Seq<ActionView> {
    actions.map_values(|action: Action| action@)
}

/// The stamina that one action takes: its movement's or attack's cost;
/// an aura takes none.
pub open spec fn action_cost(action: ActionView) -> int {
    match action {
        ActionView::Move { movement, .. } => movement.stamina_cost as int,
        ActionView::Attack { attack, .. } => attack.stamina_cost as int,
        ActionView::Aura { .. } => 0,
    }
}

/// The stamina that a list of actions takes.
pub open spec fn cost_sum(actions: Seq<ActionView>) -> int
    decreases actions.len(),
{
    if actions.len() == 0 {
        0
    } else {
        cost_sum(actions.drop_last()) + action_cost(actions.last())
    }
}

/// The stamina left to a combatant with the stats of `model` once
/// `actions` are paid for.
pub open spec fn stamina_left(model: BehaviorModelView, actions: Seq<ActionView>) -> int {
    model.stats.stamina - cost_sum(actions)
}

/// What a tree has picked and decided so far in one turn.
#[derive(Debug, PartialEq, Eq)]
pub struct BehaviorController {
    pub actions: Vec<Action>,
    pub picked_location: Option<(usize, usize)>,
    pub picked_index: Option<usize>,
    pub picked_aura: Option<AuraEffect>,
}

/// A controller as a plain value.
pub struct BehaviorControllerView {
    pub actions: Seq<ActionView>,
    pub picked_location: Option<(usize, usize)>,
    pub picked_index: Option<usize>,
    pub picked_aura: Option<AuraEffectView>,
}

impl View for BehaviorController {
    type V = BehaviorControllerView;

    open spec fn view(&self) -> BehaviorControllerView {
        BehaviorControllerView {
            actions: action_views(self.actions@),
            picked_location: self.picked_location,
            picked_index: self.picked_index,
            picked_aura: match self.picked_aura {
                Some(aura) => Some(aura@),
                None => None,
            },
        }
    }
}

/// The controller at the start of a turn: nothing picked, nothing decided.
pub open spec fn fresh_controller() -> BehaviorControllerView {
    BehaviorControllerView {
        actions: Seq::empty(),
        picked_location: None,
        picked_index: None,
        picked_aura: None,
    }
}

proof fn lemma_cost_bounds(actions: Seq<ActionView>)
    ensures
        -0x8000_0000 * actions.len() <= cost_sum(actions) <= 0x8000_0000 * actions.len(),
    decreases actions.len(),
{
    if actions.len() > 0 {
        lemma_cost_bounds(actions.drop_last());
    }
}

impl BehaviorController {
    /// A controller with nothing picked and nothing decided.
    pub fn new() -> (controller: BehaviorController)
        ensures
            controller@ == fresh_controller(),
    {
        let controller = BehaviorController {
            actions: Vec::new(),
            picked_location: None,
            picked_index: None,
            picked_aura: None,
        };
        assert(controller@.actions =~= Seq::empty());
        controller
    }

    /// The stamina of the acting combatant less the cost of every action
    /// decided so far, counted anew on each call.
    pub fn remaining_stamina(&self, model: &BehaviorModel) -> (left: i128)
        ensures
            left == stamina_left(model@, self@.actions),
    {
        let mut left: i128 = model.stats.stamina as i128;
        let mut i: usize = 0;
        while i < self.actions.len()
            invariant
                i <= self.actions.len(),
                left == stamina_left(model@, self@.actions.take(i as int)),
            decreases self.actions.len() - i,
        {
            proof {
                assert(self@.actions.take(i + 1).drop_last() =~= self@.actions.take(i as int));
                lemma_cost_bounds(self@.actions.take(i as int));
            }
            match &self.actions[i] {
                Action::Move { movement, .. } => {
                    left = left - movement.stamina_cost as i128;
                },
                Action::Attack { attack, .. } => {
                    left = left - attack.stamina_cost as i128;
                },
                Action::Aura { .. } => {},
            }
            i += 1;
        }
        assert(self@.actions.take(i as int) =~= self@.actions);
        left
    }

    /// Takes a choice of target as the picked location. Without a choice
    /// the controller stays as it is and the node that asked has failed.
    pub fn settle_location(&mut self, choice: Option<(usize, usize)>) -> (state:
        UnpoweredFunctionState)
        ensures
            choice is Some ==> state == UnpoweredFunctionState::Complete && final(self)@ == (
            BehaviorControllerView { picked_location: choice, ..old(self)@ }),
            choice is None ==> state == UnpoweredFunctionState::Failed && final(self)@ == old(
                self,
            )@,
    {
        match choice {
            Some(cell) => {
                self.picked_location = Some(cell);
                UnpoweredFunctionState::Complete
            },
            None => UnpoweredFunctionState::Failed,
        }
    }

    /// Takes a choice among the acting combatant's attacks or movements as
    /// the picked index. Without a choice the controller stays as it is
    /// and the node that asked has failed.
    pub fn settle_index(&mut self, choice: Option<usize>) -> (state: UnpoweredFunctionState)
        ensures
            choice is Some ==> state == UnpoweredFunctionState::Complete && final(self)@ == (
            BehaviorControllerView { picked_index: choice, ..old(self)@ }),
            choice is None ==> state == UnpoweredFunctionState::Failed && final(self)@ == old(
                self,
            )@,
    {
        match choice {
            Some(index) => {
                self.picked_index = Some(index);
                UnpoweredFunctionState::Complete
            },
            None => UnpoweredFunctionState::Failed,
        }
    }

    /// Takes a choice among the acting combatant's auras as the picked
    /// aura. Without a choice the controller stays as it is and the node
    /// that asked has failed.
    pub fn settle_aura(&mut self, choice: Option<&AuraEffect>) -> (state: UnpoweredFunctionState)
        ensures
            choice is Some ==> state == UnpoweredFunctionState::Complete && final(self)@ == (
            BehaviorControllerView { picked_aura: Some(choice->0@), ..old(self)@ }),
            choice is None ==> state == UnpoweredFunctionState::Failed && final(self)@ == old(
                self,
            )@,
    {
        match choice {
            Some(aura) => {
                self.picked_aura = Some(aura.clone());
                UnpoweredFunctionState::Complete
            },
            None => UnpoweredFunctionState::Failed,
        }
    }

    /// Adds `action` as the last of the decided actions.
    pub fn push_action(&mut self, action: Action)
        ensures
            final(self)@ == (BehaviorControllerView {
                actions: old(self)@.actions.push(action@),
                ..old(self)@
            }),
    {
        self.actions.push(action);
        assert(self@.actions =~= old(self)@.actions.push(action@));
    }
}

} // verus!
