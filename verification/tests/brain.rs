use summoners_chess::battle::bt::{
    Action, BehaviorController, BehaviorModel, UnpoweredFunctionState,
};
use summoners_chess::battle::nodes::{try_move_towards, SummonBehaviors};
use summoners_chess::battle::stats::{Attack, AuraEffect, CharacterStats, Movement};
use summoners_chess::battle::tree::{
    brain_for_turn, CharacterBrain, CharacterBrainDef, CharacterBrainNode, DeathCharacterBrain,
    SummonWrapper, SummonWrapperDef,
};
use summoners_chess::summons::Tribe;

fn stats(stamina: i32, attacks: Vec<Attack>, movements: Vec<Movement>) -> CharacterStats {
    CharacterStats {
        max_health: 10,
        is_dead: false,
        health: 10,
        stamina,
        stamina_regen: 1,
        name: "Tester".to_string(),
        tribe: Tribe::Angel,
        attacks,
        movements,
        auras: vec![],
        applied_auras: vec![],
    }
}

fn model(
    position: (usize, usize),
    stats: CharacterStats,
    enemies: Vec<(usize, usize)>,
    allies: Vec<(usize, usize)>,
) -> BehaviorModel {
    BehaviorModel { position, stats, enemies, allies }
}

fn short() -> Attack {
    Attack { damage: 5, range: 2, stamina_cost: 1 }
}

fn long() -> Attack {
    Attack { damage: 2, range: 5, stamina_cost: 1 }
}

fn walk() -> Movement {
    Movement { stamina_cost: 2, tiles: 1 }
}

fn run() -> Movement {
    Movement { stamina_cost: 5, tiles: 3 }
}

fn blessing() -> AuraEffect {
    AuraEffect::Health("Blessing".to_string(), 2, vec![])
}

fn curse() -> AuraEffect {
    AuraEffect::Speed("Curse".to_string(), -1, vec![Tribe::Undead])
}

fn strike_nearest() -> CharacterBrainDef {
    CharacterBrainDef::Sequence(vec![
        CharacterBrainDef::User(SummonBehaviors::FindNearestEnemy),
        CharacterBrainDef::User(SummonBehaviors::PickValidAttack),
        CharacterBrainDef::User(SummonBehaviors::AttackTarget),
    ])
}

#[test]
fn nearest_enemy_then_valid_attack_then_strike() {
    let model = model((0, 0), stats(3, vec![short(), long()], vec![]), vec![(3, 0)], vec![]);
    let mut controller = BehaviorController::new();
    assert_eq!(
        SummonBehaviors::FindNearestEnemy.resume_with(&model, &mut controller),
        UnpoweredFunctionState::Complete
    );
    assert_eq!(controller.picked_location, Some((3, 0)));
    assert_eq!(
        SummonBehaviors::PickValidAttack.resume_with(&model, &mut controller),
        UnpoweredFunctionState::Complete
    );
    assert_eq!(controller.picked_index, Some(1));
    assert_eq!(
        SummonBehaviors::AttackTarget.resume_with(&model, &mut controller),
        UnpoweredFunctionState::Complete
    );
    assert_eq!(controller.actions, vec![Action::Attack { attack: long(), target: (3, 0) }]);
}

#[test]
fn strike_nearest_tree_gives_the_same_as_its_leaves() {
    let model = model((0, 0), stats(3, vec![short(), long()], vec![]), vec![(3, 0)], vec![]);
    let brain = CharacterBrain::new(&strike_nearest());
    let mut controller = BehaviorController::new();
    assert_eq!(
        brain.tree.try_resume_with(&model, &mut controller),
        Some(UnpoweredFunctionState::Complete)
    );
    assert_eq!(controller.actions, vec![Action::Attack { attack: long(), target: (3, 0) }]);
    assert_eq!(controller.picked_location, Some((3, 0)));
    assert_eq!(controller.picked_index, Some(1));
    assert_eq!(controller.picked_aura, None);
}

#[test]
fn valid_movement_is_the_first_that_stamina_pays_for() {
    let movements = vec![Movement { stamina_cost: 2, tiles: 1 }, Movement { stamina_cost: 5, tiles: 1 }];
    let rich = model((2, 2), stats(3, vec![], movements.clone()), vec![(5, 5)], vec![]);
    let mut controller = BehaviorController::new();
    controller.picked_location = Some((5, 5));
    assert_eq!(controller.remaining_stamina(&rich), 3);
    assert_eq!(
        SummonBehaviors::PickValidMovement.resume_with(&rich, &mut controller),
        UnpoweredFunctionState::Complete
    );
    assert_eq!(controller.picked_index, Some(0));

    let poor = model((2, 2), stats(1, vec![], movements), vec![(5, 5)], vec![]);
    let mut controller = BehaviorController::new();
    controller.picked_location = Some((5, 5));
    assert_eq!(
        SummonBehaviors::PickValidMovement.resume_with(&poor, &mut controller),
        UnpoweredFunctionState::Failed
    );
    assert_eq!(controller.picked_index, None);
}

#[test]
fn valid_movement_needs_a_picked_location() {
    let model = model((2, 2), stats(3, vec![], vec![walk()]), vec![], vec![]);
    let mut controller = BehaviorController::new();
    assert_eq!(
        SummonBehaviors::PickValidMovement.resume_with(&model, &mut controller),
        UnpoweredFunctionState::Failed
    );
    assert_eq!(
        SummonBehaviors::PickRandomMovement.resume_with(&model, &mut controller),
        UnpoweredFunctionState::Failed
    );
    assert_eq!(
        SummonBehaviors::PickValidAttack.resume_with(&model, &mut controller),
        UnpoweredFunctionState::Failed
    );
    assert_eq!(
        SummonBehaviors::PickRandomAttack.resume_with(&model, &mut controller),
        UnpoweredFunctionState::Failed
    );
    assert_eq!(controller, BehaviorController::new());
}

#[test]
fn move_towards_target_steps_along_the_longer_axis() {
    let model = model((0, 0), stats(3, vec![], vec![walk()]), vec![(3, 1)], vec![]);
    let mut controller = BehaviorController::new();
    controller.picked_location = Some((3, 1));
    controller.picked_index = Some(0);
    assert_eq!(
        SummonBehaviors::MoveTowardsTarget.resume_with(&model, &mut controller),
        UnpoweredFunctionState::Complete
    );
    assert_eq!(controller.actions, vec![Action::Move { movement: walk(), target: (1, 0) }]);
}

#[test]
fn move_towards_target_plans_one_step_for_each_tile() {
    let model = model((0, 0), stats(9, vec![], vec![run()]), vec![(2, 1)], vec![]);
    let mut controller = BehaviorController::new();
    controller.picked_location = Some((2, 1));
    controller.picked_index = Some(0);
    assert_eq!(
        SummonBehaviors::MoveTowardsTarget.resume_with(&model, &mut controller),
        UnpoweredFunctionState::Complete
    );
    // From (0,0): columns first, then the row wins the tie at (1,0); the
    // third step would land on the enemy, so it goes along the column.
    assert_eq!(
        controller.actions,
        vec![
            Action::Move { movement: run(), target: (1, 0) },
            Action::Move { movement: run(), target: (1, 1) },
            Action::Move { movement: run(), target: (1, 1) },
        ]
    );
}

#[test]
fn move_towards_target_stops_at_the_goal() {
    let model = model((0, 0), stats(9, vec![], vec![run()]), vec![], vec![]);
    let mut controller = BehaviorController::new();
    controller.picked_location = Some((0, 2));
    controller.picked_index = Some(0);
    assert_eq!(
        SummonBehaviors::MoveTowardsTarget.resume_with(&model, &mut controller),
        UnpoweredFunctionState::Complete
    );
    assert_eq!(
        controller.actions,
        vec![
            Action::Move { movement: run(), target: (0, 1) },
            Action::Move { movement: run(), target: (0, 2) },
        ]
    );
}

#[test]
fn move_with_no_tiles_plans_nothing() {
    let lazy = Movement { stamina_cost: 0, tiles: 0 };
    let model = model((0, 0), stats(9, vec![], vec![lazy]), vec![(4, 4)], vec![]);
    let mut controller = BehaviorController::new();
    controller.picked_location = Some((4, 4));
    controller.picked_index = Some(0);
    assert_eq!(
        SummonBehaviors::MoveTowardsTarget.resume_with(&model, &mut controller),
        UnpoweredFunctionState::Complete
    );
    assert_eq!(controller.actions, vec![]);
}

#[test]
fn step_goes_round_an_occupied_cell() {
    // The cell across is taken by an ally: the step goes along the row.
    let blocked = model((0, 0), stats(3, vec![], vec![walk()]), vec![(3, 1)], vec![(1, 0)]);
    assert_eq!(blocked.step_towards((0, 0), (3, 1)), Some((0, 1)));
    // Rows win a tie; with the cell along taken, the step goes across.
    let tied = model((0, 0), stats(3, vec![], vec![walk()]), vec![(0, 1)], vec![]);
    assert_eq!(tied.step_towards((0, 0), (2, 2)), Some((1, 0)));
    let free = model((0, 0), stats(3, vec![], vec![walk()]), vec![], vec![]);
    assert_eq!(free.step_towards((0, 0), (2, 2)), Some((0, 1)));
    assert_eq!(free.step_towards((4, 4), (1, 4)), Some((3, 4)));
    assert_eq!(free.step_towards((4, 4), (4, 0)), Some((4, 3)));
    assert_eq!(free.step_towards((4, 4), (4, 4)), None);
}

#[test]
fn try_move_towards_decides_on_one_step() {
    let model = model((2, 2), stats(3, vec![], vec![walk()]), vec![], vec![]);
    let mut controller = BehaviorController::new();
    try_move_towards(&model, 7, 2, &mut controller, &run());
    assert_eq!(controller.actions, vec![Action::Move { movement: run(), target: (3, 2) }]);
    try_move_towards(&model, 2, 2, &mut controller, &run());
    assert_eq!(controller.actions.len(), 1);
}

fn flee(position: (usize, usize), threat: (usize, usize), allies: Vec<(usize, usize)>) -> Vec<Action> {
    let model = model(position, stats(3, vec![], vec![run()]), vec![threat], allies);
    let mut controller = BehaviorController::new();
    controller.picked_location = Some(threat);
    controller.picked_index = Some(0);
    assert_eq!(
        SummonBehaviors::MoveAwayFromTarget.resume_with(&model, &mut controller),
        UnpoweredFunctionState::Complete
    );
    controller.actions
}

#[test]
fn move_away_flees_to_the_opposite_edge() {
    // Threat to the right: towards column 0, one step whatever the tiles.
    assert_eq!(flee((3, 3), (5, 3), vec![]), vec![Action::Move { movement: run(), target: (2, 3) }]);
    // Threat to the left: towards the last column.
    assert_eq!(flee((3, 3), (1, 3), vec![]), vec![Action::Move { movement: run(), target: (4, 3) }]);
    // Threat below in the same column: towards row 0.
    assert_eq!(flee((3, 3), (3, 6), vec![]), vec![Action::Move { movement: run(), target: (3, 2) }]);
    // Threat above in the same column: towards the last row.
    assert_eq!(flee((3, 3), (3, 1), vec![]), vec![Action::Move { movement: run(), target: (3, 4) }]);
}

#[test]
fn move_away_may_decide_on_nothing() {
    // Threat to the right at the left edge, same row: no rule applies.
    assert_eq!(flee((0, 3), (5, 3), vec![]), vec![]);
    // Threat to the left at the right edge, same row.
    assert_eq!(flee((7, 3), (2, 3), vec![]), vec![]);
    // Standing on the threat.
    assert_eq!(flee((3, 3), (3, 3), vec![]), vec![]);
    // At the left edge with the threat to the right and below: rows next.
    assert_eq!(flee((0, 3), (5, 6), vec![]), vec![Action::Move { movement: run(), target: (0, 2) }]);
}

#[test]
fn move_away_with_the_way_blocked_stays_in_place() {
    assert_eq!(
        flee((3, 3), (5, 3), vec![(2, 3)]),
        vec![Action::Move { movement: run(), target: (3, 3) }]
    );
}

#[test]
fn find_nearest_breaks_ties_by_list_order() {
    let model = model(
        (4, 4),
        stats(3, vec![], vec![]),
        vec![(7, 7), (4, 6), (6, 4), (4, 2), (0, 0)],
        vec![(0, 4), (5, 5), (3, 3)],
    );
    assert_eq!(model.find_nearest_enemy(), Some((4, 6)));
    assert_eq!(model.find_nearest_ally(), Some((5, 5)));
    let mut controller = BehaviorController::new();
    assert_eq!(
        SummonBehaviors::FindNearestAlly.resume_with(&model, &mut controller),
        UnpoweredFunctionState::Complete
    );
    assert_eq!(controller.picked_location, Some((5, 5)));
}

#[test]
fn find_nearest_uses_straight_line_distance() {
    // (3,3) is 6 steps away and (0,5) only 5, but (3,3) is nearer in a
    // straight line: 18 against 25.
    let model = model((0, 0), stats(3, vec![], vec![]), vec![(0, 5), (3, 3)], vec![]);
    assert_eq!(model.find_nearest_enemy(), Some((3, 3)));
}

#[test]
fn find_nearest_copes_with_far_cells() {
    let far = usize::MAX;
    let model = model((0, 0), stats(3, vec![], vec![]), vec![(far, far), (far, far - 1), (far - 1, far)], vec![]);
    assert_eq!(model.find_nearest_enemy(), Some((far, far - 1)));
}

#[test]
fn find_leaves_fail_without_targets() {
    let model = model((1, 1), stats(3, vec![short()], vec![walk()]), vec![], vec![]);
    assert_eq!(model.find_nearest_enemy(), None);
    assert_eq!(model.find_nearest_ally(), None);
    for leaf in [
        SummonBehaviors::FindNearestEnemy,
        SummonBehaviors::FindNearestAlly,
        SummonBehaviors::FindRandomEnemy,
        SummonBehaviors::FindRandomAlly,
    ] {
        let mut controller = BehaviorController::new();
        controller.picked_location = Some((6, 6));
        assert_eq!(leaf.resume_with(&model, &mut controller), UnpoweredFunctionState::Failed);
        assert_eq!(controller.picked_location, Some((6, 6)));
        assert_eq!(controller.actions, vec![]);
    }
}

#[test]
fn random_find_picks_from_the_right_list() {
    let enemies = vec![(1, 1), (2, 2), (3, 3)];
    let allies = vec![(5, 5), (6, 6)];
    let model = model((0, 0), stats(3, vec![], vec![]), enemies.clone(), allies.clone());
    for _ in 0..50 {
        let mut controller = BehaviorController::new();
        assert_eq!(
            SummonBehaviors::FindRandomEnemy.resume_with(&model, &mut controller),
            UnpoweredFunctionState::Complete
        );
        assert!(enemies.contains(&controller.picked_location.unwrap()));
        assert_eq!(
            SummonBehaviors::FindRandomAlly.resume_with(&model, &mut controller),
            UnpoweredFunctionState::Complete
        );
        assert!(allies.contains(&controller.picked_location.unwrap()));
    }
}

#[test]
fn valid_attack_is_the_lowest_index_in_reach() {
    let attacks = vec![
        Attack { damage: 1, range: 1, stamina_cost: 1 },
        Attack { damage: 2, range: 4, stamina_cost: 1 },
        Attack { damage: 3, range: 9, stamina_cost: 1 },
        Attack { damage: 4, range: 4, stamina_cost: 1 },
    ];
    let model = model((2, 2), stats(3, attacks, vec![]), vec![], vec![]);
    let mut controller = BehaviorController::new();
    // Manhattan distance 4: exactly the range of the second attack.
    controller.picked_location = Some((4, 4));
    assert_eq!(
        SummonBehaviors::PickValidAttack.resume_with(&model, &mut controller),
        UnpoweredFunctionState::Complete
    );
    assert_eq!(controller.picked_index, Some(1));
    controller.picked_location = Some((7, 2));
    assert_eq!(
        SummonBehaviors::PickValidAttack.resume_with(&model, &mut controller),
        UnpoweredFunctionState::Complete
    );
    assert_eq!(controller.picked_index, Some(2));
    // Out of every range: the earlier pick stays.
    controller.picked_location = Some((7, 7));
    assert_eq!(
        SummonBehaviors::PickValidAttack.resume_with(&model, &mut controller),
        UnpoweredFunctionState::Failed
    );
    assert_eq!(controller.picked_index, Some(2));
}

#[test]
fn negative_range_reaches_nothing() {
    let attacks = vec![Attack { damage: 1, range: -1, stamina_cost: 1 }];
    let model = model((2, 2), stats(3, attacks, vec![]), vec![], vec![]);
    let mut controller = BehaviorController::new();
    controller.picked_location = Some((2, 2));
    assert_eq!(
        SummonBehaviors::PickValidAttack.resume_with(&model, &mut controller),
        UnpoweredFunctionState::Failed
    );
}

#[test]
fn random_attack_is_one_in_reach() {
    let attacks = vec![
        Attack { damage: 1, range: 1, stamina_cost: 1 },
        Attack { damage: 2, range: 4, stamina_cost: 1 },
        Attack { damage: 3, range: 9, stamina_cost: 1 },
        Attack { damage: 4, range: 3, stamina_cost: 1 },
    ];
    let model = model((2, 2), stats(3, attacks, vec![]), vec![], vec![]);
    let mut seen = [false; 4];
    for _ in 0..200 {
        let mut controller = BehaviorController::new();
        controller.picked_location = Some((4, 4));
        assert_eq!(
            SummonBehaviors::PickRandomAttack.resume_with(&model, &mut controller),
            UnpoweredFunctionState::Complete
        );
        seen[controller.picked_index.unwrap()] = true;
    }
    assert_eq!(seen, [false, true, true, false]);
    let mut controller = BehaviorController::new();
    controller.picked_location = Some((7, 7));
    assert_eq!(
        SummonBehaviors::PickRandomAttack.resume_with(&model, &mut controller),
        UnpoweredFunctionState::Failed
    );
    assert_eq!(controller.picked_index, None);
}

#[test]
fn random_movement_is_one_that_stamina_pays_for() {
    let movements = vec![
        Movement { stamina_cost: 9, tiles: 1 },
        Movement { stamina_cost: 3, tiles: 1 },
        Movement { stamina_cost: 4, tiles: 2 },
    ];
    let model = model((2, 2), stats(3, vec![], movements), vec![], vec![]);
    for _ in 0..50 {
        let mut controller = BehaviorController::new();
        controller.picked_location = Some((4, 4));
        assert_eq!(
            SummonBehaviors::PickRandomMovement.resume_with(&model, &mut controller),
            UnpoweredFunctionState::Complete
        );
        assert_eq!(controller.picked_index, Some(1));
    }
}

#[test]
fn remaining_stamina_counts_every_queued_action() {
    let model = model((0, 0), stats(10, vec![], vec![]), vec![], vec![]);
    let mut controller = BehaviorController::new();
    assert_eq!(controller.remaining_stamina(&model), 10);
    controller.push_action(Action::Move { movement: walk(), target: (1, 0) });
    assert_eq!(controller.remaining_stamina(&model), 8);
    controller.push_action(Action::Attack { attack: Attack { damage: 1, range: 1, stamina_cost: 7 }, target: (1, 1) });
    assert_eq!(controller.remaining_stamina(&model), 1);
    controller.push_action(Action::Aura { effect: blessing(), target: (1, 1) });
    assert_eq!(controller.remaining_stamina(&model), 1);
    controller.push_action(Action::Move { movement: run(), target: (1, 0) });
    assert_eq!(controller.remaining_stamina(&model), -4);
    controller.push_action(Action::Move { movement: Movement { stamina_cost: -6, tiles: 1 }, target: (1, 0) });
    assert_eq!(controller.remaining_stamina(&model), 2);
    // Counted anew on each call.
    controller.actions.clear();
    assert_eq!(controller.remaining_stamina(&model), 10);
}

#[test]
fn remaining_stamina_does_not_overflow() {
    let model = model((0, 0), stats(i32::MIN, vec![], vec![]), vec![], vec![]);
    let mut controller = BehaviorController::new();
    controller.push_action(Action::Move { movement: Movement { stamina_cost: i32::MAX, tiles: 1 }, target: (1, 0) });
    controller.push_action(Action::Move { movement: Movement { stamina_cost: i32::MAX, tiles: 1 }, target: (1, 0) });
    assert_eq!(controller.remaining_stamina(&model), i32::MIN as i128 - 2 * i32::MAX as i128);
}

#[test]
fn movement_pick_counts_what_is_already_queued() {
    let movements = vec![Movement { stamina_cost: 2, tiles: 1 }];
    let model = model((2, 2), stats(3, vec![], movements), vec![], vec![]);
    let mut controller = BehaviorController::new();
    controller.picked_location = Some((5, 5));
    controller.push_action(Action::Move { movement: walk(), target: (2, 3) });
    assert_eq!(
        SummonBehaviors::PickValidMovement.resume_with(&model, &mut controller),
        UnpoweredFunctionState::Failed
    );
}

#[test]
fn pick_aura_takes_the_first() {
    let mut with_auras = stats(3, vec![], vec![]);
    with_auras.auras = vec![blessing(), curse()];
    let model = model((0, 0), with_auras, vec![], vec![]);
    let mut controller = BehaviorController::new();
    assert_eq!(
        SummonBehaviors::PickAura.resume_with(&model, &mut controller),
        UnpoweredFunctionState::Complete
    );
    assert_eq!(controller.picked_aura, Some(blessing()));
}

#[test]
fn pick_aura_fails_without_auras() {
    let model = model((0, 0), stats(3, vec![], vec![]), vec![], vec![]);
    for leaf in [SummonBehaviors::PickAura, SummonBehaviors::PickRandomAura] {
        let mut controller = BehaviorController::new();
        controller.picked_aura = Some(curse());
        assert_eq!(leaf.resume_with(&model, &mut controller), UnpoweredFunctionState::Failed);
        assert_eq!(controller.picked_aura, Some(curse()));
    }
}

#[test]
fn pick_random_aura_takes_one_of_them() {
    let mut with_auras = stats(3, vec![], vec![]);
    with_auras.auras = vec![blessing(), curse()];
    let model = model((0, 0), with_auras, vec![], vec![]);
    let mut seen_blessing = false;
    let mut seen_curse = false;
    for _ in 0..200 {
        let mut controller = BehaviorController::new();
        assert_eq!(
            SummonBehaviors::PickRandomAura.resume_with(&model, &mut controller),
            UnpoweredFunctionState::Complete
        );
        let picked = controller.picked_aura.unwrap();
        seen_blessing |= picked == blessing();
        seen_curse |= picked == curse();
        assert!(picked == blessing() || picked == curse());
    }
    assert!(seen_blessing && seen_curse);
}

#[test]
fn refresh_aura_needs_an_aura_and_a_location() {
    let model = model((0, 0), stats(3, vec![], vec![]), vec![], vec![]);
    let mut controller = BehaviorController::new();
    controller.picked_aura = Some(blessing());
    assert_eq!(
        SummonBehaviors::RefreshAuraForTarget.resume_with(&model, &mut controller),
        UnpoweredFunctionState::Failed
    );
    controller.picked_aura = None;
    controller.picked_location = Some((1, 2));
    assert_eq!(
        SummonBehaviors::RefreshAuraForTarget.resume_with(&model, &mut controller),
        UnpoweredFunctionState::Failed
    );
    assert_eq!(controller.actions, vec![]);
    controller.picked_aura = Some(blessing());
    assert_eq!(
        SummonBehaviors::RefreshAuraForTarget.resume_with(&model, &mut controller),
        UnpoweredFunctionState::Complete
    );
    assert_eq!(controller.actions, vec![Action::Aura { effect: blessing(), target: (1, 2) }]);
    assert_eq!(controller.picked_aura, Some(blessing()));
}

#[test]
fn action_leaves_fail_without_picks() {
    let model = model((0, 0), stats(3, vec![short()], vec![walk()]), vec![(1, 1)], vec![]);
    for leaf in [
        SummonBehaviors::AttackTarget,
        SummonBehaviors::MoveTowardsTarget,
        SummonBehaviors::MoveAwayFromTarget,
    ] {
        let mut controller = BehaviorController::new();
        assert_eq!(leaf.resume_with(&model, &mut controller), UnpoweredFunctionState::Failed);
        controller.picked_location = Some((1, 1));
        assert_eq!(leaf.resume_with(&model, &mut controller), UnpoweredFunctionState::Failed);
        controller.picked_location = None;
        controller.picked_index = Some(0);
        assert_eq!(leaf.resume_with(&model, &mut controller), UnpoweredFunctionState::Failed);
        assert_eq!(controller.actions, vec![]);
    }
}

#[test]
fn tree_without_targets_decides_on_nothing() {
    let model = model((3, 3), stats(3, vec![short(), long()], vec![walk()]), vec![], vec![]);
    let brain = CharacterBrain::new(&strike_nearest());
    let mut controller = BehaviorController::new();
    assert_eq!(
        brain.tree.try_resume_with(&model, &mut controller),
        Some(UnpoweredFunctionState::Failed)
    );
    assert_eq!(controller, BehaviorController::new());
    assert_eq!(brain.evaluate_turn(&model), Some(BehaviorController::new()));
}

#[test]
fn create_tree_keeps_the_shape() {
    let definition = CharacterBrainDef::Sequence(vec![
        CharacterBrainDef::User(SummonBehaviors::PickAura),
        CharacterBrainDef::Wrapper(
            SummonWrapperDef::ForAllAlliesInRange(2),
            Box::new(CharacterBrainDef::User(SummonBehaviors::RefreshAuraForTarget)),
        ),
        CharacterBrainDef::Wrapper(
            SummonWrapperDef::ForAllEnemies,
            Box::new(CharacterBrainDef::Sequence(vec![])),
        ),
    ]);
    let expected = CharacterBrainNode::Sequence(vec![
        CharacterBrainNode::Leaf(SummonBehaviors::PickAura),
        CharacterBrainNode::Wrapper(SummonWrapper::ForAllAlliesInRange(
            2,
            Box::new(CharacterBrainNode::Leaf(SummonBehaviors::RefreshAuraForTarget)),
        )),
        CharacterBrainNode::Wrapper(SummonWrapper::ForAllEnemies(Box::new(
            CharacterBrainNode::Sequence(vec![]),
        ))),
    ]);
    assert_eq!(definition.create_tree(), expected);
    assert_eq!(CharacterBrain::new(&definition).tree, expected);
}

#[test]
fn create_node_and_wrap_makes_each_kind() {
    let leaf = || CharacterBrainNode::Leaf(SummonBehaviors::AttackTarget);
    assert_eq!(
        SummonWrapperDef::ForAllAllies.create_node_and_wrap(leaf()),
        CharacterBrainNode::Wrapper(SummonWrapper::ForAllAllies(Box::new(leaf())))
    );
    assert_eq!(
        SummonWrapperDef::ForAllEnemies.create_node_and_wrap(leaf()),
        CharacterBrainNode::Wrapper(SummonWrapper::ForAllEnemies(Box::new(leaf())))
    );
    assert_eq!(
        SummonWrapperDef::ForAllAlliesInRange(3).create_node_and_wrap(leaf()),
        CharacterBrainNode::Wrapper(SummonWrapper::ForAllAlliesInRange(3, Box::new(leaf())))
    );
    assert_eq!(
        SummonWrapperDef::ForAllEnemiesInRange(-1).create_node_and_wrap(leaf()),
        CharacterBrainNode::Wrapper(SummonWrapper::ForAllEnemiesInRange(-1, Box::new(leaf())))
    );
}

fn strike_each(kind: SummonWrapperDef) -> CharacterBrain {
    CharacterBrain::new(&CharacterBrainDef::Wrapper(
        kind,
        Box::new(CharacterBrainDef::Sequence(vec![
            CharacterBrainDef::User(SummonBehaviors::PickValidAttack),
            CharacterBrainDef::User(SummonBehaviors::AttackTarget),
        ])),
    ))
}

#[test]
fn range_wrapper_includes_the_boundary() {
    let enemies = vec![(2, 1), (0, 4), (3, 0), (4, 0), (1, 1)];
    let model = model((0, 0), stats(3, vec![long()], vec![]), enemies, vec![(0, 1)]);
    let decided = strike_each(SummonWrapperDef::ForAllEnemiesInRange(3)).evaluate_turn(&model).unwrap();
    assert_eq!(
        decided.actions,
        vec![
            Action::Attack { attack: long(), target: (2, 1) },
            Action::Attack { attack: long(), target: (3, 0) },
            Action::Attack { attack: long(), target: (1, 1) },
        ]
    );
    assert_eq!(decided.picked_location, Some((1, 1)));
    let decided = strike_each(SummonWrapperDef::ForAllAlliesInRange(1)).evaluate_turn(&model).unwrap();
    assert_eq!(decided.actions, vec![Action::Attack { attack: long(), target: (0, 1) }]);
    let decided = strike_each(SummonWrapperDef::ForAllAlliesInRange(0)).evaluate_turn(&model).unwrap();
    assert_eq!(decided.actions, vec![]);
    assert_eq!(decided.picked_location, None);
}

#[test]
fn wrapper_visits_every_target_in_order() {
    let enemies = vec![(2, 1), (0, 4), (1, 1)];
    let allies = vec![(0, 1), (1, 0)];
    let model = model((0, 0), stats(3, vec![long()], vec![]), enemies, allies);
    let mut controller = BehaviorController::new();
    let brain = strike_each(SummonWrapperDef::ForAllEnemies);
    assert_eq!(
        brain.tree.try_resume_with(&model, &mut controller),
        Some(UnpoweredFunctionState::Complete)
    );
    assert_eq!(
        controller.actions,
        vec![
            Action::Attack { attack: long(), target: (2, 1) },
            Action::Attack { attack: long(), target: (0, 4) },
            Action::Attack { attack: long(), target: (1, 1) },
        ]
    );
    let decided = strike_each(SummonWrapperDef::ForAllAllies).evaluate_turn(&model).unwrap();
    assert_eq!(
        decided.actions,
        vec![
            Action::Attack { attack: long(), target: (0, 1) },
            Action::Attack { attack: long(), target: (1, 0) },
        ]
    );
}

#[test]
fn wrapper_fails_fast() {
    // The second of three enemies is out of reach: the subtree fails
    // there and the third is never looked at.
    let enemies = vec![(1, 1), (7, 7), (1, 0)];
    let model = model((0, 0), stats(3, vec![short()], vec![]), enemies, vec![]);
    let brain = strike_each(SummonWrapperDef::ForAllEnemies);
    let mut controller = BehaviorController::new();
    assert_eq!(
        brain.tree.try_resume_with(&model, &mut controller),
        Some(UnpoweredFunctionState::Failed)
    );
    assert_eq!(controller.actions, vec![Action::Attack { attack: short(), target: (1, 1) }]);
    assert_eq!(controller.picked_location, Some((7, 7)));
}

#[test]
fn wrapper_resume_with_goes_through_its_targets() {
    let wrapper = SummonWrapper::ForAllEnemies(Box::new(CharacterBrainNode::Leaf(
        SummonBehaviors::PickValidAttack,
    )));
    let model = model((0, 0), stats(3, vec![short()], vec![]), vec![(1, 1), (0, 1)], vec![]);
    let mut controller = BehaviorController::new();
    assert_eq!(wrapper.resume_with(&model, &mut controller), UnpoweredFunctionState::Complete);
    assert_eq!(controller.picked_location, Some((0, 1)));
    assert_eq!(controller.picked_index, Some(0));
    assert_eq!(
        wrapper.try_resume_with(&model, &mut controller),
        Some(UnpoweredFunctionState::Complete)
    );
}

#[test]
fn sequence_stops_at_the_first_failure() {
    let definition = CharacterBrainDef::Sequence(vec![
        CharacterBrainDef::User(SummonBehaviors::FindNearestEnemy),
        CharacterBrainDef::User(SummonBehaviors::PickValidAttack),
        CharacterBrainDef::User(SummonBehaviors::FindNearestAlly),
    ]);
    let model = model((0, 0), stats(3, vec![short()], vec![]), vec![(5, 5)], vec![(1, 1)]);
    let node = definition.create_tree();
    let mut controller = BehaviorController::new();
    assert_eq!(node.resume_with(&model, &mut controller), UnpoweredFunctionState::Failed);
    assert_eq!(controller.picked_location, Some((5, 5)));
    assert_eq!(controller.picked_index, None);
}

#[test]
fn empty_sequence_completes() {
    let node = CharacterBrainDef::Sequence(vec![]).create_tree();
    let model = model((0, 0), stats(3, vec![], vec![]), vec![], vec![]);
    let mut controller = BehaviorController::new();
    assert_eq!(node.resume_with(&model, &mut controller), UnpoweredFunctionState::Complete);
    assert_eq!(controller, BehaviorController::new());
}

#[test]
fn index_out_of_bounds_stops_the_evaluation() {
    // The index is picked among two movements and then read as an attack.
    let definition = CharacterBrainDef::Sequence(vec![
        CharacterBrainDef::User(SummonBehaviors::FindNearestEnemy),
        CharacterBrainDef::User(SummonBehaviors::PickRandomMovement),
        CharacterBrainDef::User(SummonBehaviors::AttackTarget),
    ]);
    let expensive = Movement { stamina_cost: 9, tiles: 1 };
    let model = model((0, 0), stats(3, vec![short()], vec![expensive, walk()]), vec![(1, 1)], vec![]);
    let brain = CharacterBrain::new(&definition);
    assert_eq!(brain.evaluate_turn(&model), None);
    let mut controller = BehaviorController::new();
    assert_eq!(brain.tree.try_resume_with(&model, &mut controller), None);
    assert_eq!(controller.picked_index, Some(1));
    assert_eq!(controller.actions, vec![]);
}

#[test]
fn reset_changes_nothing() {
    let model = model((0, 0), stats(3, vec![], vec![]), vec![], vec![]);
    let mut leaf = SummonBehaviors::PickAura;
    leaf.reset(&model);
    assert_eq!(leaf, SummonBehaviors::PickAura);
    let mut node = strike_nearest().create_tree();
    node.reset(&model);
    assert_eq!(node, strike_nearest().create_tree());
    let mut wrapper = SummonWrapper::ForAllAllies(Box::new(strike_nearest().create_tree()));
    wrapper.reset(&model);
    assert_eq!(wrapper, SummonWrapper::ForAllAllies(Box::new(strike_nearest().create_tree())));
}

#[test]
fn death_brain_takes_over_when_health_is_spent() {
    let brain = CharacterBrain::new(&strike_nearest());
    let death = DeathCharacterBrain(CharacterBrain::new(&CharacterBrainDef::Sequence(vec![])));
    assert_eq!(brain_for_turn(&brain, &death, 1), &brain);
    assert_eq!(brain_for_turn(&brain, &death, 0), &death.0);
    assert_eq!(brain_for_turn(&brain, &death, -3), &death.0);
}

#[test]
fn settle_takes_or_refuses_a_choice() {
    let mut controller = BehaviorController::new();
    assert_eq!(controller.settle_location(None), UnpoweredFunctionState::Failed);
    assert_eq!(controller.settle_index(None), UnpoweredFunctionState::Failed);
    assert_eq!(controller.settle_aura(None), UnpoweredFunctionState::Failed);
    assert_eq!(controller, BehaviorController::new());
    assert_eq!(controller.settle_location(Some((1, 2))), UnpoweredFunctionState::Complete);
    assert_eq!(controller.settle_index(Some(3)), UnpoweredFunctionState::Complete);
    assert_eq!(controller.settle_aura(Some(&curse())), UnpoweredFunctionState::Complete);
    assert_eq!(controller.picked_location, Some((1, 2)));
    assert_eq!(controller.picked_index, Some(3));
    assert_eq!(controller.picked_aura, Some(curse()));
}

#[test]
fn location_occupied_looks_at_both_sides() {
    let model = model((0, 0), stats(3, vec![], vec![]), vec![(1, 2)], vec![(3, 4)]);
    assert!(model.location_occupied(1, 2));
    assert!(model.location_occupied(3, 4));
    assert!(!model.location_occupied(2, 1));
    assert!(!model.location_occupied(0, 0));
}
