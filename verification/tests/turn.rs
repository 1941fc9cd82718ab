use summoners_chess::battle::bt::BehaviorModel;
use summoners_chess::battle::loot::{available_loot, is_on_offer, pick_loot};
use summoners_chess::battle::runner::{
    apply_move, battle_result, pay_for_attack, snapshot, visible_cells,
};
use summoners_chess::battle::stats::{Attack, CharacterStats, Faction, Movement};
use summoners_chess::board::{board_tiles, border_tiles, BoardMouseState, BorderTile, Tile};
use summoners_chess::flow::story::{Story, StoryBeatType};
use summoners_chess::persistence::SaveData;
use summoners_chess::summoner::book::KnownSummons;
use summoners_chess::summoner::mana::Mana;
use summoners_chess::summoner::placement::SummonedMinions;
use summoners_chess::summons::SummonType;

fn stats() -> CharacterStats {
    SummonType::debug().into_stats()
}

fn summon(name: &str, mana: i32, needs: Option<&str>) -> SummonType {
    let mut summon = SummonType::debug();
    summon.summon_name = name.to_string();
    summon.prerequisites = (mana, needs.map(|name| name.to_string()));
    summon
}

#[test]
fn actor_sees_other_columns_and_the_living_of_its_own() {
    let cells = vec![(2, 2), (2, 5), (3, 2), (2, 7), (4, 4), (3, 3)];
    let dead = vec![(2, 7), (4, 4)];
    // Itself: hidden. Dead in its column: hidden. Dead elsewhere: seen.
    assert_eq!(visible_cells(&cells, (2, 2), &dead), vec![(2, 5), (3, 2), (4, 4), (3, 3)]);
    assert_eq!(visible_cells(&cells, (0, 0), &vec![]), cells);
    assert_eq!(visible_cells(&vec![], (0, 0), &dead), vec![]);
}

#[test]
fn snapshot_takes_sides() {
    let players = vec![(1, 1), (2, 2)];
    let enemies = vec![(1, 6), (5, 6)];
    let dead = vec![(1, 6)];
    let model = snapshot((1, 1), &stats(), Faction::Player, &players, &enemies, &dead);
    assert_eq!(
        model,
        BehaviorModel { position: (1, 1), stats: stats(), enemies: vec![(5, 6)], allies: vec![(2, 2)] }
    );
    let model = snapshot((5, 6), &stats(), Faction::Enemy, &players, &enemies, &dead);
    assert_eq!(
        model,
        BehaviorModel {
            position: (5, 6),
            stats: stats(),
            enemies: vec![(1, 1), (2, 2)],
            allies: vec![(1, 6)],
        }
    );
}

fn field(enemies: Vec<(usize, usize)>) -> BehaviorModel {
    BehaviorModel { position: (0, 0), stats: stats(), enemies, allies: vec![] }
}

#[test]
fn apply_move_takes_one_step_and_pays_for_it() {
    let stride = Movement { stamina_cost: 2, tiles: 3 };
    assert_eq!(apply_move(&field(vec![]), &stride, (1, 0), (0, 0), 10), ((1, 0), 8));
    assert_eq!(apply_move(&field(vec![]), &stride, (5, 0), (0, 0), 10), ((1, 0), 8));
    assert_eq!(apply_move(&field(vec![]), &stride, (1, 3), (0, 0), 10), ((0, 1), 8));
    // The cell to step on is taken: the combatant stays and pays nothing.
    assert_eq!(apply_move(&field(vec![(1, 0)]), &stride, (5, 0), (0, 0), 10), ((0, 0), 10));
    // A move to where the combatant stands is paid for all the same.
    assert_eq!(apply_move(&field(vec![]), &stride, (0, 0), (0, 0), 10), ((0, 0), 8));
    let refund = Movement { stamina_cost: -1, tiles: 2 };
    assert_eq!(apply_move(&field(vec![]), &refund, (0, 5), (0, 0), 10), ((0, 1), 11));
}

#[test]
fn attack_is_paid_for_when_stamina_allows() {
    let attack = Attack { damage: 1, range: 1, stamina_cost: 3 };
    assert_eq!(pay_for_attack(5, &attack), 2);
    assert_eq!(pay_for_attack(3, &attack), 0);
    assert_eq!(pay_for_attack(2, &attack), 2);
    assert_eq!(pay_for_attack(-1, &Attack { damage: 1, range: 1, stamina_cost: -2 }), 1);
}

#[test]
fn battle_ends_when_a_side_is_gone() {
    assert_eq!(battle_result(2, 3), None);
    assert_eq!(battle_result(2, 0), Some(true));
    assert_eq!(battle_result(0, 3), Some(false));
    assert_eq!(battle_result(0, 0), Some(true));
}

#[test]
fn loot_is_what_can_be_learned() {
    let known = KnownSummons::new(vec![summon("Golem", 0, None)]);
    assert!(!is_on_offer(&summon("Golem", 0, None), &known, 9));
    assert!(is_on_offer(&summon("Wisp", 2, None), &known, 2));
    assert!(!is_on_offer(&summon("Wisp", 3, None), &known, 2));
    assert!(is_on_offer(&summon("Titan", 2, Some("Golem")), &known, 2));
    assert!(!is_on_offer(&summon("Titan", 3, Some("Golem")), &known, 2));
    assert!(!is_on_offer(&summon("Titan", 2, Some("Wisp")), &known, 2));
    let all = vec![
        summon("Wisp", 2, None),
        summon("Golem", 0, None),
        summon("Titan", 2, Some("Wisp")),
        summon("Ghost", 3, None),
        summon("Pylon", 1, Some("Golem")),
    ];
    assert_eq!(
        available_loot(&all, &known, 2),
        vec![summon("Wisp", 2, None), summon("Pylon", 1, Some("Golem"))]
    );
    assert_eq!(available_loot(&all, &known, 0), vec![]);
}

#[test]
fn loot_picks_three_without_repeats() {
    let all: Vec<SummonType> = (0..6).map(|i| summon(&format!("Summon {}", i), i, None)).collect();
    let mut seen = [false; 6];
    for _ in 0..100 {
        let picked = pick_loot(all.clone());
        assert_eq!(picked.len(), 3);
        for (i, summon) in picked.iter().enumerate() {
            assert!(all.contains(summon));
            assert!(!picked[..i].contains(summon));
            seen[summon.prerequisites.0 as usize] = true;
        }
    }
    assert_eq!(seen, [true; 6]);
    let mut two = pick_loot(all[..2].to_vec());
    two.sort_by_key(|summon| summon.prerequisites.0);
    assert_eq!(two, all[..2].to_vec());
    assert_eq!(pick_loot(vec![]), vec![]);
}

#[test]
fn mana_gain_raises_the_maximum() {
    let mut mana = Mana { max_mana: 2, used_mana: 1 };
    mana.gain(3);
    assert_eq!(mana, Mana { max_mana: 5, used_mana: 1 });
    mana.gain(0);
    mana.gain(-4);
    assert_eq!(mana, Mana { max_mana: 5, used_mana: 1 });
    mana.tally(4);
    assert_eq!(mana, Mana { max_mana: 5, used_mana: 4 });
}

#[test]
fn tiles_form_a_chequerboard() {
    let expected: Vec<usize> = vec![
        0, 1, 0, 1, 0, 1, 0, 1, //
        1, 0, 1, 0, 1, 0, 1, 0, //
        0, 1, 0, 1, 0, 1, 0, 1, //
        17, 16, 17, 16, 17, 16, 17, 16, //
        16, 17, 16, 17, 16, 17, 16, 17, //
        17, 16, 17, 16, 17, 16, 17, 16, //
        16, 17, 16, 17, 16, 17, 16, 17, //
        17, 16, 17, 16, 17, 16, 17, 16, //
    ];
    let tiles = board_tiles();
    assert_eq!(tiles.len(), 64);
    for (i, tile) in tiles.iter().enumerate() {
        assert_eq!(*tile, Tile { x: i % 8, y: i / 8, can_place: i / 8 <= 2, sprite: expected[i] });
        assert_eq!(Tile::at(i % 8, i / 8), *tile);
    }
    let border = border_tiles();
    assert_eq!(border.len(), 8);
    for (x, tile) in border.iter().enumerate() {
        assert_eq!(*tile, BorderTile { x, sprite: [8, 9][x % 2] });
    }
    assert_eq!(Tile::at(usize::MAX, usize::MAX).sprite, 16);
}

#[test]
fn mouse_picks_only_while_placing() {
    let mut mouse = BoardMouseState::default();
    assert_eq!(mouse, BoardMouseState { hovered_tile: None, pickable_tile: None, can_place: false });
    mouse.point_at(Some(Tile::at(1, 1)));
    assert_eq!(mouse, BoardMouseState::default());
    mouse.enable_picking();
    mouse.point_at(Some(Tile::at(1, 1)));
    assert_eq!(
        mouse,
        BoardMouseState { hovered_tile: Some((1, 1)), pickable_tile: Some((1, 1)), can_place: true }
    );
    mouse.point_at(Some(Tile::at(1, 3)));
    assert_eq!(
        mouse,
        BoardMouseState { hovered_tile: Some((1, 3)), pickable_tile: None, can_place: true }
    );
    mouse.point_at(None);
    assert_eq!(mouse, BoardMouseState { hovered_tile: None, pickable_tile: None, can_place: true });
    mouse.point_at(Some(Tile::at(0, 0)));
    mouse.disable_picking();
    assert_eq!(
        mouse,
        BoardMouseState { hovered_tile: Some((0, 0)), pickable_tile: Some((0, 0)), can_place: false }
    );
}

#[test]
fn story_from_saved_armies() {
    let first = SummonedMinions::from_entries(&vec![((0, 0), "Golem".to_string())], 3);
    let mut second = SummonedMinions::default();
    second.add_summon(summon("Wisp", 0, None), 7, 2);
    let save = SaveData { armies: vec![first, second] };
    assert!(save.fits_board());
    let (story, waves) = Story::from_save_data(&save);
    assert_eq!(story.waves, vec!["wave_0".to_string(), "wave_1".to_string()]);
    assert_eq!(story.winning_beats, Vec::<Vec<StoryBeatType>>::new());
    assert_eq!(story.losing_beats, Vec::<Vec<StoryBeatType>>::new());
    let gains: Vec<Vec<StoryBeatType>> =
        [1, 1, 1, 1, 1, 3, 1, 1, 1, 2].iter().map(|g| vec![StoryBeatType::GainMana(*g)]).collect();
    assert_eq!(story.agnostic_beats, gains);
    assert_eq!(waves.len(), 2);
    assert_eq!(waves[0].iter(), vec![((7, 7), "Golem".to_string())]);
    assert_eq!(waves[0].mana(), 3);
    assert_eq!(waves[1].iter(), vec![((0, 5), "Wisp".to_string())]);
}

#[test]
fn saved_armies_off_the_board_are_noticed() {
    let stray = SummonedMinions::from_entries(&vec![((0, 0), "Golem".to_string()), ((8, 0), "Wisp".to_string())], 3);
    assert!(!stray.fits_board());
    assert!(SummonedMinions::default().fits_board());
    let save = SaveData { armies: vec![SummonedMinions::default(), stray] };
    assert!(!save.fits_board());
    assert!(SaveData::default().fits_board());
    let (story, waves) = Story::from_save_data(&SaveData::default());
    assert_eq!(story.waves, Vec::<String>::new());
    assert_eq!(waves.len(), 0);
}

#[test]
fn story_hands_out_waves_in_order() {
    let mut story = Story {
        waves: vec!["wave0".to_string(), "boss0".to_string()],
        winning_beats: vec![],
        losing_beats: vec![],
        agnostic_beats: vec![],
    };
    assert_eq!(story.next_wave(), Some("wave0".to_string()));
    assert_eq!(story.waves, vec!["boss0".to_string()]);
    assert_eq!(story.next_wave(), Some("boss0".to_string()));
    assert_eq!(story.next_wave(), None);
    assert_eq!(story.waves, Vec::<String>::new());
}
