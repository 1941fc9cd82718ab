use summoners_chess::battle::stats::{
    Attack, AuraEffect, AuraKind, CharacterStats, Faction, Movement,
};
use summoners_chess::geometry::{find_nearest, nearer, tile_distance, within_range};
use summoners_chess::summoner::mana::Mana;
use summoners_chess::summons::{SummonType, Tribe};
use summoners_chess::text::join;

fn fighter() -> CharacterStats {
    CharacterStats {
        max_health: 10,
        is_dead: false,
        health: 7,
        stamina: 4,
        stamina_regen: 2,
        name: "Seraph".to_string(),
        tribe: Tribe::Angel,
        attacks: vec![
            Attack { damage: 3, range: 1, stamina_cost: 1 },
            Attack { damage: 1, range: 4, stamina_cost: 2 },
        ],
        movements: vec![Movement { stamina_cost: 1, tiles: 2 }],
        auras: vec![],
        applied_auras: vec![],
    }
}

#[test]
fn debug_attack_and_movement() {
    assert_eq!(Attack::debug(), Attack { damage: 1, range: 100, stamina_cost: 1 });
    assert_eq!(Movement::debug(), Movement { stamina_cost: 1, tiles: 1 });
}

#[test]
fn next_location_steps_one_tile() {
    let movement = Movement::debug();
    assert_eq!(movement.next_location(2, 2, 2, 2), (2, 2));
    assert_eq!(movement.next_location(2, 2, 5, 3), (3, 2));
    assert_eq!(movement.next_location(2, 2, 0, 3), (1, 2));
    assert_eq!(movement.next_location(2, 2, 3, 5), (2, 3));
    assert_eq!(movement.next_location(2, 2, 3, 0), (2, 1));
    // Rows win a tie.
    assert_eq!(movement.next_location(2, 2, 4, 4), (2, 3));
    assert_eq!(movement.next_location(2, 2, 0, 0), (2, 1));
    assert_eq!(movement.next_location(0, 0, usize::MAX, 0), (1, 0));
    assert_eq!(movement.next_location(usize::MAX, usize::MAX, 0, 0), (usize::MAX, usize::MAX - 1));
}

#[test]
fn aura_name_kind_and_friendliness() {
    let speed = AuraEffect::Speed("Haste".to_string(), 2, vec![]);
    let attack = AuraEffect::Attack("Weakness".to_string(), -1, vec![Tribe::Fairy]);
    let health = AuraEffect::Health("Nothing".to_string(), 0, vec![]);
    let range = AuraEffect::Range("Eagle Eye".to_string(), 1, vec![Tribe::Angel, Tribe::Demon]);
    assert_eq!(speed.name(), "Haste");
    assert_eq!(attack.name(), "Weakness");
    assert_eq!(health.name(), "Nothing");
    assert_eq!(range.name(), "Eagle Eye");
    assert!(speed.is_friendly());
    assert!(!attack.is_friendly());
    assert!(!health.is_friendly());
    assert!(range.is_friendly());
    assert_eq!(speed.kind(), AuraKind::Speed);
    assert_eq!(attack.kind(), AuraKind::Attack);
    assert_eq!(health.kind(), AuraKind::Health);
    assert_eq!(range.kind(), AuraKind::Range);
    assert_eq!(attack.amount(), -1);
    assert_eq!(range.tribes(), &vec![Tribe::Angel, Tribe::Demon]);
}

#[test]
fn aura_tagline_names_what_changes() {
    assert_eq!(AuraEffect::Speed("Haste".to_string(), 2, vec![]).tagline(), "Haste: +Speed");
    assert_eq!(AuraEffect::Attack("Weakness".to_string(), -1, vec![]).tagline(), "Weakness: -Damage");
    assert_eq!(AuraEffect::Health("Nothing".to_string(), 0, vec![]).tagline(), "Nothing: -Health");
    assert_eq!(AuraEffect::Range("Eagle Eye".to_string(), 1, vec![]).tagline(), "Eagle Eye: +Range");
}

#[test]
fn aura_clone_and_same_as() {
    let aura = AuraEffect::Range("Eagle Eye".to_string(), 1, vec![Tribe::Angel, Tribe::Demon]);
    assert_eq!(aura.clone(), aura);
    assert!(aura.same_as(&aura.clone()));
    assert!(!aura.same_as(&AuraEffect::Range("Eagle Eye".to_string(), 1, vec![Tribe::Angel])));
    assert!(!aura.same_as(&AuraEffect::Range("Eagle Eye".to_string(), 1, vec![Tribe::Demon, Tribe::Angel])));
    assert!(!aura.same_as(&AuraEffect::Range("Eagle Eye".to_string(), 2, vec![Tribe::Angel, Tribe::Demon])));
    assert!(!aura.same_as(&AuraEffect::Range("Eagle".to_string(), 1, vec![Tribe::Angel, Tribe::Demon])));
    assert!(!aura.same_as(&AuraEffect::Speed("Eagle Eye".to_string(), 1, vec![Tribe::Angel, Tribe::Demon])));
}

#[test]
fn kill_marks_dead() {
    let mut stats = fighter();
    stats.kill();
    let mut expected = fighter();
    expected.is_dead = true;
    assert_eq!(stats, expected);
}

#[test]
fn apply_aura_speed() {
    let mut stats = fighter();
    let aura = AuraEffect::Speed("Haste".to_string(), 3, vec![]);
    stats.apply_aura(aura.clone());
    let mut expected = fighter();
    expected.stamina_regen = 5;
    expected.applied_auras = vec![aura];
    assert_eq!(stats, expected);
}

#[test]
fn apply_aura_attack_and_range() {
    let mut stats = fighter();
    let bonus = AuraEffect::Attack("Fury".to_string(), 2, vec![Tribe::Undead, Tribe::Angel]);
    let reach = AuraEffect::Range("Short Sight".to_string(), -1, vec![]);
    stats.apply_aura(bonus.clone());
    stats.apply_aura(reach.clone());
    let mut expected = fighter();
    expected.attacks = vec![
        Attack { damage: 5, range: 0, stamina_cost: 1 },
        Attack { damage: 3, range: 3, stamina_cost: 2 },
    ];
    expected.applied_auras = vec![bonus, reach];
    assert_eq!(stats, expected);
}

#[test]
fn apply_aura_health() {
    let mut stats = fighter();
    let aura = AuraEffect::Health("Vigor".to_string(), 4, vec![Tribe::Angel]);
    stats.apply_aura(aura.clone());
    let mut expected = fighter();
    expected.max_health = 14;
    expected.health = 11;
    expected.applied_auras = vec![aura];
    assert_eq!(stats, expected);
}

#[test]
fn apply_aura_only_once() {
    let mut stats = fighter();
    let aura = AuraEffect::Health("Vigor".to_string(), 4, vec![]);
    stats.apply_aura(aura.clone());
    stats.apply_aura(aura.clone());
    assert_eq!(stats.health, 11);
    assert_eq!(stats.applied_auras, vec![aura.clone()]);
    assert!(stats.has_applied(&aura));
    // A different amount makes a different aura.
    stats.apply_aura(AuraEffect::Health("Vigor".to_string(), 1, vec![]));
    assert_eq!(stats.health, 12);
    assert_eq!(stats.applied_auras.len(), 2);
}

#[test]
fn apply_aura_skips_other_tribes() {
    let mut stats = fighter();
    stats.apply_aura(AuraEffect::Speed("Rot".to_string(), -2, vec![Tribe::Undead, Tribe::Demon]));
    assert_eq!(stats, fighter());
}

#[test]
fn stats_descriptor_lines() {
    let mut stats = fighter();
    assert_eq!(
        stats.descriptor(),
        vec![
            "Seraph - Angel\n".to_string(),
            "Health: 7/10 - ".to_string(),
            "Stamina: 4\n".to_string(),
            "Max Range: 4 - Max Damage 3\n".to_string(),
            "".to_string(),
        ]
    );
    stats.health = -12;
    stats.stamina = 1234567890;
    stats.max_health = i32::MIN;
    stats.attacks = vec![Attack { damage: -5, range: -2, stamina_cost: 0 }];
    stats.auras = vec![
        AuraEffect::Speed("Haste".to_string(), 2, vec![]),
        AuraEffect::Attack("Weakness".to_string(), -1, vec![]),
    ];
    assert_eq!(
        stats.descriptor(),
        vec![
            "Seraph - Angel\n".to_string(),
            "Health: -12/-2147483648 - ".to_string(),
            "Stamina: 1234567890\n".to_string(),
            "Max Range: -2 - Max Damage -5\n".to_string(),
            "Effects Given: Haste: +Speed, Weakness: -Damage\n".to_string(),
        ]
    );
    stats.attacks = vec![];
    stats.auras.truncate(1);
    assert_eq!(stats.descriptor()[3], "Max Range: 0 - Max Damage 0\n");
    assert_eq!(stats.descriptor()[4], "Effects Given: Haste: +Speed\n");
    assert_eq!(stats.max_range(), 0);
    assert_eq!(stats.max_damage(), 0);
}

#[test]
fn stats_clone_is_equal() {
    let mut stats = fighter();
    stats.auras = vec![AuraEffect::Speed("Haste".to_string(), 2, vec![Tribe::Fairy])];
    stats.apply_aura(AuraEffect::Health("Vigor".to_string(), 4, vec![]));
    assert_eq!(stats.clone(), stats);
}

#[test]
fn join_puts_the_separator_between() {
    assert_eq!(join(&vec![], ", "), "");
    assert_eq!(join(&vec!["a".to_string()], ", "), "a");
    assert_eq!(join(&vec!["a".to_string(), "".to_string(), "c".to_string()], "--"), "a----c");
}

#[test]
fn factions_differ() {
    assert_ne!(Faction::Player, Faction::Enemy);
}

#[test]
fn tribe_texts() {
    assert_eq!(Tribe::Angel.tagline(), "Angel - Powerful warriors with divine abilities.");
    assert_eq!(Tribe::Undead.tagline(), "Undead - Reanimated corpses with terrifying strength");
    assert_eq!(Tribe::Fairy.tagline(), "Fairy - Forces of nature and balance");
    assert_eq!(Tribe::Construct.tagline(), "Construct - Support Angel and Undead with auras");
    assert_eq!(
        Tribe::Elemental.tagline(),
        "Elemental - Support Angel and Fairy with boons upon dying"
    );
    assert_eq!(Tribe::Demon.tagline(), "Demon - Support Undead and Fairy with powerful pacts");
    assert_eq!(Tribe::Enemy.tagline(), "Mysterious");
    let tribes = [
        (Tribe::Angel, "Angel", "angel"),
        (Tribe::Undead, "Undead", "undead"),
        (Tribe::Fairy, "Fairy", "fairy"),
        (Tribe::Construct, "Construct", "construct"),
        (Tribe::Elemental, "Elemental", "elemental"),
        (Tribe::Demon, "Demon", "demon"),
        (Tribe::Enemy, "Enemy", "enemy"),
    ];
    for (tribe, label, stem) in tribes {
        assert_eq!(tribe.label(), label);
        assert_eq!(tribe.sting(), format!("{}_summon_sting", stem));
        assert_eq!(tribe.death_sting(), format!("{}_death_sting", stem));
    }
    assert_eq!(Tribe::default(), Tribe::Enemy);
}

#[test]
fn debug_summon() {
    let summon = SummonType::debug();
    assert_eq!(summon.name(), "Debug");
    assert_eq!(summon.short_code(), "dbg");
    assert_eq!(summon.brain_name(), "fighter");
    assert_eq!(summon.death_brain_name(), "");
    assert_eq!(summon.sprite_idx(), 7);
    assert_eq!(summon.mana_cost(), 0);
    assert_eq!(summon.prerequisites(), (0, None));
    assert_eq!(summon.tribe, Tribe::Enemy);
    assert_eq!(summon.attacks, vec![Attack::debug()]);
    assert_eq!(summon.movements, vec![Movement::debug()]);
    assert_eq!(summon.auras, vec![]);
    assert_eq!(summon.tagline, "You shouldn't see this");
    assert_eq!(summon.clone(), summon);
}

#[test]
fn summon_descriptor_and_prerequisites() {
    let mut summon = SummonType::debug();
    summon.summon_name = "Golem".to_string();
    summon.tagline = "Slow but sturdy".to_string();
    summon.tribe = Tribe::Construct;
    summon.health = 25;
    summon.mana_cost = -3;
    summon.prerequisites = (4, Some("Pylon".to_string()));
    assert_eq!(
        summon.descriptor(),
        vec![
            "Golem".to_string(),
            "\n".to_string(),
            "Slow but sturdy".to_string(),
            "\n".to_string(),
            "Construct - Support Angel and Undead with auras".to_string(),
            "\n".to_string(),
            "Health: 25".to_string(),
            "\n".to_string(),
            "Mana Cost: -3".to_string(),
        ]
    );
    assert_eq!(summon.prerequisites(), (4, Some("Pylon".to_string())));
}

#[test]
fn summon_into_stats() {
    let mut summon = SummonType::debug();
    summon.health = 9;
    summon.stamina = 3;
    summon.stamina_regen = 2;
    summon.tribe = Tribe::Fairy;
    summon.auras = vec![AuraEffect::Speed("Haste".to_string(), 2, vec![])];
    let stats = summon.clone().into_stats();
    assert_eq!(
        stats,
        CharacterStats {
            max_health: 9,
            is_dead: false,
            health: 9,
            stamina: 3,
            stamina_regen: 2,
            name: "Debug".to_string(),
            tribe: Tribe::Fairy,
            attacks: vec![Attack::debug()],
            movements: vec![Movement::debug()],
            auras: vec![AuraEffect::Speed("Haste".to_string(), 2, vec![])],
            applied_auras: vec![],
        }
    );
}

#[test]
fn mana_left_is_what_is_not_spent() {
    assert_eq!(Mana::default(), Mana { max_mana: 2, used_mana: 0 });
    assert_eq!(Mana::default().mana_left(), 2);
    assert_eq!(Mana { max_mana: 5, used_mana: 7 }.mana_left(), -2);
}

#[test]
fn distances() {
    assert_eq!(tile_distance((0, 0), (3, 4)), 7);
    assert_eq!(tile_distance((3, 4), (0, 0)), 7);
    assert_eq!(tile_distance((2, 2), (2, 2)), 0);
    assert_eq!(tile_distance((0, 0), (usize::MAX, usize::MAX)), 2 * (usize::MAX as u128));
    assert!(within_range((0, 0), (3, 4), 7));
    assert!(!within_range((0, 0), (3, 4), 6));
    assert!(within_range((1, 1), (1, 1), 0));
    assert!(!within_range((1, 1), (1, 1), -1));
    assert!(nearer((0, 0), (3, 3), (0, 5)));
    assert!(!nearer((0, 0), (0, 5), (3, 3)));
    assert!(!nearer((0, 0), (3, 4), (5, 0)));
    let far = usize::MAX;
    assert!(nearer((0, 0), (far, far - 1), (far, far)));
    assert!(!nearer((0, 0), (far, far), (far, far)));
    assert!(nearer((0, 0), (far, 0), (far, far)));
    assert!(!nearer((0, 0), (far, far), (far, 0)));
    assert_eq!(find_nearest((1, 1), &vec![]), None);
    assert_eq!(find_nearest((1, 1), &vec![(3, 3), (2, 1), (1, 2), (1, 1), (1, 1)]), Some(3));
}

#[test]
fn stamina_returns_and_health_goes() {
    let mut stats = fighter();
    stats.regain_stamina();
    assert_eq!(stats.stamina, 6);
    stats.take_damage(9);
    assert_eq!(stats.health, -2);
    stats.take_damage(-3);
    assert_eq!(stats.health, 1);
    let mut expected = fighter();
    expected.stamina = 6;
    expected.health = 1;
    assert_eq!(stats, expected);
}

#[test]
fn overhead_text_lists_applied_auras() {
    let mut stats = fighter();
    assert_eq!(stats.overhead_text(), "");
    stats.apply_aura(AuraEffect::Speed("Haste".to_string(), 1, vec![]));
    stats.apply_aura(AuraEffect::Health("Vigor".to_string(), 1, vec![]));
    assert_eq!(stats.overhead_text(), "\nHaste\nVigor");
}

#[test]
fn can_apply_aura_looks_for_overflow() {
    let mut stats = fighter();
    assert!(stats.can_apply_aura(&AuraEffect::Speed("Haste".to_string(), i32::MAX - 2, vec![])));
    assert!(!stats.can_apply_aura(&AuraEffect::Speed("Haste".to_string(), i32::MAX - 1, vec![])));
    // An aura that does not take hold always fits.
    assert!(stats.can_apply_aura(&AuraEffect::Speed("Haste".to_string(), i32::MAX, vec![Tribe::Demon])));
    assert!(stats.can_apply_aura(&AuraEffect::Health("Vigor".to_string(), i32::MAX - 10, vec![])));
    assert!(!stats.can_apply_aura(&AuraEffect::Health("Vigor".to_string(), i32::MAX - 9, vec![])));
    assert!(stats.can_apply_aura(&AuraEffect::Health("Drain".to_string(), i32::MIN, vec![])));
    stats.take_damage(8);
    assert!(!stats.can_apply_aura(&AuraEffect::Health("Drain".to_string(), i32::MIN, vec![])));
    stats.take_damage(-8);
    assert!(stats.can_apply_aura(&AuraEffect::Attack("Fury".to_string(), i32::MAX - 3, vec![])));
    assert!(!stats.can_apply_aura(&AuraEffect::Attack("Fury".to_string(), i32::MAX - 2, vec![])));
    assert!(stats.can_apply_aura(&AuraEffect::Range("Sight".to_string(), i32::MAX - 4, vec![])));
    assert!(!stats.can_apply_aura(&AuraEffect::Range("Sight".to_string(), i32::MAX - 3, vec![])));
    stats.attacks.clear();
    assert!(stats.can_apply_aura(&AuraEffect::Range("Sight".to_string(), i32::MAX, vec![])));
    let big = AuraEffect::Speed("Haste".to_string(), i32::MAX - 2, vec![]);
    stats.apply_aura(big.clone());
    assert_eq!(stats.stamina_regen, i32::MAX);
    assert!(stats.can_apply_aura(&big));
}
