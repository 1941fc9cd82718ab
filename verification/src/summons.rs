//! What can be summoned: the tribes and the kinds of summon.

use crate::battle::stats::{
    aura_views, clone_auras, copy_attacks, copy_movements, Attack, AuraEffect, AuraEffectView,
    CharacterStats, CharacterStatsView, Movement,
};
use crate::text::{decimal, decimal_text, texts};
use vstd::prelude::*;
use vstd::string::*;

verus! {

/// The family a summon belongs to.
#[derive(Clone, Copy, Debug, PartialEq, Eq, Structural)]
pub enum Tribe {
    Angel,
    Undead,
    Fairy,
    Construct,
    Elemental,
    Demon,
    Enemy,
}

/// The tribe's name as it is written.
pub open spec fn tribe_label(tribe: Tribe) -> Seq<char> {
    match tribe {
        Tribe::Angel => "Angel"@,
        Tribe::Undead => "Undead"@,
        Tribe::Fairy => "Fairy"@,
        Tribe::Construct => "Construct"@,
        Tribe::Elemental => "Elemental"@,
        Tribe::Demon => "Demon"@,
        Tribe::Enemy => "Enemy"@,
    }
}

/// The line that introduces a tribe to the player.
pub open spec fn tribe_tagline(tribe: Tribe) -> Seq<char> {
    match tribe {
        Tribe::Angel => "Angel - Powerful warriors with divine abilities."@,
        Tribe::Undead => "Undead - Reanimated corpses with terrifying strength"@,
        Tribe::Fairy => "Fairy - Forces of nature and balance"@,
        Tribe::Construct => "Construct - Support Angel and Undead with auras"@,
        Tribe::Elemental => "Elemental - Support Angel and Fairy with boons upon dying"@,
        Tribe::Demon => "Demon - Support Undead and Fairy with powerful pacts"@,
        Tribe::Enemy => "Mysterious"@,
    }
}

/// The name of the sound played when a summon of the tribe appears.
pub open spec fn tribe_sting(tribe: Tribe) -> Seq<char> {
    match tribe {
        Tribe::Angel => "angel_summon_sting"@,
        Tribe::Undead => "undead_summon_sting"@,
        Tribe::Fairy => "fairy_summon_sting"@,
        Tribe::Construct => "construct_summon_sting"@,
        Tribe::Elemental => "elemental_summon_sting"@,
        Tribe::Demon => "demon_summon_sting"@,
        Tribe::Enemy => "enemy_summon_sting"@,
    }
}

/// The name of the sound played when a summon of the tribe dies.
pub open spec fn tribe_death_sting(tribe: Tribe) -> Seq<char> {
    match tribe {
        Tribe::Angel => "angel_death_sting"@,
        Tribe::Undead => "undead_death_sting"@,
        Tribe::Fairy => "fairy_death_sting"@,
        Tribe::Construct => "construct_death_sting"@,
        Tribe::Elemental => "elemental_death_sting"@,
        Tribe::Demon => "demon_death_sting"@,
        Tribe::Enemy => "enemy_death_sting"@,
    }
}

impl Default for Tribe {
    fn default() -> (tribe: Tribe)
        ensures
            tribe == Tribe::Enemy,
    {
        Tribe::Enemy
    }
}

impl Tribe {
    /// The tribe's name.
    pub fn label(&self) -> (text: &'static str)
        ensures
            text@ == tribe_label(*self),
    {
        match self {
            Tribe::Angel => "Angel",
            Tribe::Undead => "Undead",
            Tribe::Fairy => "Fairy",
            Tribe::Construct => "Construct",
            Tribe::Elemental => "Elemental",
            Tribe::Demon => "Demon",
            Tribe::Enemy => "Enemy",
        }
    }

    /// The line that introduces the tribe to the player.
    pub fn tagline(&self) -> (text: &'static str)
        ensures
            text@ == tribe_tagline(*self),
    {
        match self {
            Tribe::Angel => "Angel - Powerful warriors with divine abilities.",
            Tribe::Undead => "Undead - Reanimated corpses with terrifying strength",
            Tribe::Fairy => "Fairy - Forces of nature and balance",
            Tribe::Construct => "Construct - Support Angel and Undead with auras",
            Tribe::Elemental => "Elemental - Support Angel and Fairy with boons upon dying",
            Tribe::Demon => "Demon - Support Undead and Fairy with powerful pacts",
            Tribe::Enemy => "Mysterious",
        }
    }

    /// The name of the sound played when a summon of the tribe appears.
    pub fn sting(&self) -> (text: &'static str)
        ensures
            text@ == tribe_sting(*self),
    {
        match self {
            Tribe::Angel => "angel_summon_sting",
            Tribe::Undead => "undead_summon_sting",
            Tribe::Fairy => "fairy_summon_sting",
            Tribe::Construct => "construct_summon_sting",
            Tribe::Elemental => "elemental_summon_sting",
            Tribe::Demon => "demon_summon_sting",
            Tribe::Enemy => "enemy_summon_sting",
        }
    }

    /// The name of the sound played when a summon of the tribe dies.
    pub fn death_sting(&self) -> (text: &'static str)
        ensures
            text@ == tribe_death_sting(*self),
    {
        match self {
            Tribe::Angel => "angel_death_sting",
            Tribe::Undead => "undead_death_sting",
            Tribe::Fairy => "fairy_death_sting",
            Tribe::Construct => "construct_death_sting",
            Tribe::Elemental => "elemental_death_sting",
            Tribe::Demon => "demon_death_sting",
            Tribe::Enemy => "enemy_death_sting",
        }
    }
}

/// A kind of summon: what it is called, what it costs, how it fights, and
/// what must be known before it can be learned.
#[derive(Debug, PartialEq, Eq)]
pub struct SummonType {
    pub summon_name: String,
    pub sprite_idx: usize,
    pub mana_cost: i32,
    pub health: i32,
    pub stamina: i32,
    pub stamina_regen: i32,
    pub attacks: Vec<Attack>,
    pub movements: Vec<Movement>,
    pub auras: Vec<AuraEffect>,
    pub tagline: String,
    pub tribe: Tribe,
    pub brain: String,
    pub death_brain: String,
    pub short_code: String,
    /// The mana the summoner must have, and the summon that must be known.
    pub prerequisites: (i32, Option<String>),
}

/// A kind of summon as a plain value.
pub struct SummonTypeView {
    pub summon_name: Seq<char>,
    pub sprite_idx: usize,
    pub mana_cost: i32,
    pub health: i32,
    pub stamina: i32,
    pub stamina_regen: i32,
    pub attacks: Seq<Attack>,
    pub movements: Seq<Movement>,
    pub auras: Seq<AuraEffectView>,
    pub tagline: Seq<char>,
    pub tribe: Tribe,
    pub brain: Seq<char>,
    pub death_brain: Seq<char>,
    pub short_code: Seq<char>,
    pub prerequisites: (i32, Option<Seq<char>>),
}

impl View for SummonType {
    type V = SummonTypeView;

    open spec fn view(&self) -> SummonTypeView {
        SummonTypeView {
            summon_name: self.summon_name@,
            sprite_idx: self.sprite_idx,
            mana_cost: self.mana_cost,
            health: self.health,
            stamina: self.stamina,
            stamina_regen: self.stamina_regen,
            attacks: self.attacks@,
            movements: self.movements@,
            auras: aura_views(self.auras@),
            tagline: self.tagline@,
            tribe: self.tribe,
            brain: self.brain@,
            death_brain: self.death_brain@,
            short_code: self.short_code@,
            prerequisites: (
                self.prerequisites.0,
                match self.prerequisites.1 {
                    Some(name) => Some(name@),
                    None => None,
                },
            ),
        }
    }
}

/// The summon for trying things out, as a plain value.
pub open spec fn debug_summon() -> SummonTypeView {
    SummonTypeView {
        summon_name: "Debug"@,
        sprite_idx: 7,
        mana_cost: 0,
        health: 1,
        stamina: 1,
        stamina_regen: 1,
        attacks: seq![Attack { damage: 1, range: 100, stamina_cost: 1 }],
        movements: seq![Movement { stamina_cost: 1, tiles: 1 }],
        auras: Seq::empty(),
        tagline: "You shouldn't see this"@,
        tribe: Tribe::Enemy,
        brain: "fighter"@,
        death_brain: ""@,
        short_code: "dbg"@,
        prerequisites: (0, None),
    }
}

/// The nine pieces of text that describe a kind of summon: its name, its
/// tagline, its tribe's tagline, its health and its mana cost, with a line
/// break between each two.
pub open spec fn summon_lines(summon: SummonTypeView) -> Seq<Seq<char>> {
    seq![
        summon.summon_name,
        "\n"@,
        summon.tagline,
        "\n"@,
        tribe_tagline(summon.tribe),
        "\n"@,
        "Health: "@ + decimal_text(summon.health as int),
        "\n"@,
        "Mana Cost: "@ + decimal_text(summon.mana_cost as int),
    ]
}

/// The stats that a summon of the kind starts a battle with: alive, at
/// full health, with no aura applied.
pub open spec fn starting_stats(summon: SummonTypeView) -> CharacterStatsView {
    CharacterStatsView {
        max_health: summon.health,
        is_dead: false,
        health: summon.health,
        stamina: summon.stamina,
        stamina_regen: summon.stamina_regen,
        name: summon.summon_name,
        tribe: summon.tribe,
        attacks: summon.attacks,
        movements: summon.movements,
        auras: summon.auras,
        applied_auras: Seq::empty(),
    }
}

fn clone_name(name: &Option<String>) -> (copy: Option<String>)
    ensures
        copy is Some == name is Some,
        copy is Some ==> copy->0@ == name->0@,
{
    match name {
        Some(name) => Some(name.clone()),
        None => None,
    }
}

impl Clone for SummonType {
    fn clone(&self) -> (copy: SummonType)
        ensures
            copy@ == self@,
    {
        SummonType {
            summon_name: self.summon_name.clone(),
            sprite_idx: self.sprite_idx,
            mana_cost: self.mana_cost,
            health: self.health,
            stamina: self.stamina,
            stamina_regen: self.stamina_regen,
            attacks: copy_attacks(&self.attacks),
            movements: copy_movements(&self.movements),
            auras: clone_auras(&self.auras),
            tagline: self.tagline.clone(),
            tribe: self.tribe,
            brain: self.brain.clone(),
            death_brain: self.death_brain.clone(),
            short_code: self.short_code.clone(),
            prerequisites: (self.prerequisites.0, clone_name(&self.prerequisites.1)),
        }
    }
}

impl SummonType {
    /// A summon for trying things out.
    pub fn debug() -> (summon: SummonType)
        ensures
            summon@ == debug_summon(),
    {
        let mut attacks: Vec<Attack> = Vec::new();
        attacks.push(Attack::debug());
        let mut movements: Vec<Movement> = Vec::new();
        movements.push(Movement::debug());
        let summon = SummonType {
            summon_name: String::from_str("Debug"),
            sprite_idx: 7,
            mana_cost: 0,
            health: 1,
            stamina: 1,
            stamina_regen: 1,
            attacks,
            movements,
            auras: Vec::new(),
            tagline: String::from_str("You shouldn't see this"),
            tribe: Tribe::Enemy,
            short_code: String::from_str("dbg"),
            brain: String::from_str("fighter"),
            death_brain: String::from_str(""),
            prerequisites: (0, None),
        };
        assert(summon@.attacks =~= debug_summon().attacks);
        assert(summon@.movements =~= debug_summon().movements);
        assert(summon@.auras =~= debug_summon().auras);
        summon
    }

    /// What the kind of summon is called.
    pub fn name(&self) -> (name: &str)
        ensures
            name@ == self@.summon_name,
    {
        self.summon_name.as_str()
    }

    /// The short code that stands for the kind of summon where armies are
    /// written down.
    pub fn short_code(&self) -> (code: &str)
        ensures
            code@ == self@.short_code,
    {
        self.short_code.as_str()
    }

    /// The name of the tree that decides for a summon of the kind while
    /// it lives.
    pub fn brain_name(&self) -> (name: &str)
        ensures
            name@ == self@.brain,
    {
        self.brain.as_str()
    }

    /// The name of the tree that decides for a summon of the kind once
    /// its health is spent.
    pub fn death_brain_name(&self) -> (name: &str)
        ensures
            name@ == self@.death_brain,
    {
        self.death_brain.as_str()
    }

    /// The picture of the summon.
    pub fn sprite_idx(&self) -> (index: usize)
        ensures
            index == self@.sprite_idx,
    {
        self.sprite_idx
    }

    /// The mana that placing the summon costs.
    pub fn mana_cost(&self) -> (cost: i32)
        ensures
            cost == self@.mana_cost,
    {
        self.mana_cost
    }

    /// The mana the summoner must have, and the summon that must be known,
    /// before this kind can be learned.
    pub fn prerequisites(&self) -> (needed: (i32, Option<String>))
        ensures
            needed.0 == self@.prerequisites.0,
            needed.1 is Some == self@.prerequisites.1 is Some,
            needed.1 is Some ==> needed.1->0@ == self@.prerequisites.1->0,
    {
        (self.prerequisites.0, clone_name(&self.prerequisites.1))
    }

    /// The kind of summon described in nine pieces of text.
    pub fn descriptor(&self) -> (lines: Vec<String>)
        ensures
            texts(lines@) == summon_lines(self@),
    {
        let mut health = String::from_str("Health: ");
        health.append(decimal(self.health).as_str());
        let mut cost = String::from_str("Mana Cost: ");
        cost.append(decimal(self.mana_cost).as_str());
        let mut lines: Vec<String> = Vec::new();
        lines.push(self.summon_name.clone());
        lines.push(String::from_str("\n"));
        lines.push(self.tagline.clone());
        lines.push(String::from_str("\n"));
        lines.push(String::from_str(self.tribe.tagline()));
        lines.push(String::from_str("\n"));
        lines.push(health);
        lines.push(String::from_str("\n"));
        lines.push(cost);
        assert(texts(lines@) =~= summon_lines(self@));
        lines
    }

    /// The stats that a summon of the kind starts a battle with.
    pub fn into_stats(self) -> (stats: CharacterStats)
        ensures
            stats@ == starting_stats(self@),
    {
        let stats = CharacterStats {
            is_dead: false,
            max_health: self.health,
            health: self.health,
            stamina: self.stamina,
            stamina_regen: self.stamina_regen,
            attacks: self.attacks,
            movements: self.movements,
            name: self.summon_name,
            tribe: self.tribe,
            auras: self.auras,
            applied_auras: Vec::new(),
        };
        assert(stats@.applied_auras =~= Seq::empty());
        stats
    }
}

} // verus!
