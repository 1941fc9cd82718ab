//! The numbers that describe a combatant, and the lasting effects that
//! change them.

use crate::geometry::gap;
use crate::summons::{tribe_label, Tribe};
use crate::text::{decimal, decimal_text, join, joined, texts};
use vstd::prelude::*;
use vstd::string::*;

verus! {

/// One way of striking: how hard, how far, and what it costs.
#[derive(Clone, Copy, Debug, PartialEq, Eq, Structural)]
pub struct Attack {
    pub damage: i32,
    pub range: i32,
    pub stamina_cost: i32,
}

impl Attack {
    /// An attack that reaches the whole board, for trying things out.
    pub fn debug() -> (attack: Attack)
        ensures
            attack == (Attack { damage: 1, range: 100, stamina_cost: 1 }),
    {
        Attack { damage: 1, range: 100, stamina_cost: 1 }
    }
}

/// One way of moving: what it costs and how many tiles it covers.
#[derive(Clone, Copy, Debug, PartialEq, Eq, Structural)]
pub struct Movement {
    pub stamina_cost: i32,
    pub tiles: i32,
}

/// The cell one tile from `start` on the way to `end`: along the axis with
/// the larger gap, rows winning a tie; `start` itself once `end` is reached.
pub open spec fn next_step(start: (usize, usize), end: (usize, usize)) -> (int, int) {
    let dx = end.0 - start.0;
    let dy = end.1 - start.1;
    if dx == 0 && dy == 0 {
        (start.0 as int, start.1 as int)
    } else if gap(start.0 as int, end.0 as int) > gap(start.1 as int, end.1 as int) {
        if dx > 0 {
            (start.0 + 1, start.1 as int)
        } else {
            (start.0 - 1, start.1 as int)
        }
    } else {
        if dy > 0 {
            (start.0 as int, start.1 + 1)
        } else {
            (start.0 as int, start.1 - 1)
        }
    }
}

impl Movement {
    /// A one-tile movement, for trying things out.
    pub fn debug() -> (movement: Movement)
        ensures
            movement == (Movement { stamina_cost: 1, tiles: 1 }),
    {
        Movement { stamina_cost: 1, tiles: 1 }
    }

    /// The next cell on the way from `(start_x, start_y)` to
    /// `(end_x, end_y)`, one tile away, or the start once it is the end.
    pub fn next_location(&self, start_x: usize, start_y: usize, end_x: usize, end_y: usize) -> (next: (
        usize,
        usize,
    ))
        ensures
            (next.0 as int, next.1 as int) == next_step((start_x, start_y), (end_x, end_y)),
    {
        if start_x == end_x && start_y == end_y {
            return (start_x, start_y);
        }
        let across = if start_x <= end_x {
            end_x - start_x
        } else {
            start_x - end_x
        };
        let along = if start_y <= end_y {
            end_y - start_y
        } else {
            start_y - end_y
        };
        if across > along {
            if end_x > start_x {
                (start_x + 1, start_y)
            } else {
                (start_x - 1, start_y)
            }
        } else {
            if end_y > start_y {
                (start_x, start_y + 1)
            } else {
                (start_x, start_y - 1)
            }
        }
    }
}

/// What an aura changes.
#[derive(Clone, Copy, Debug, PartialEq, Eq, Structural)]
pub enum AuraKind {
    Speed,
    Attack,
    Health,
    Range,
}

/// A lasting effect: its name, the amount it adds, and the tribes it works
/// on (every tribe when the list is empty).
#[derive(Debug, PartialEq, Eq)]
pub enum AuraEffect {
    Speed(String, i32, Vec<Tribe>),
    Attack(String, i32, Vec<Tribe>),
    Health(String, i32, Vec<Tribe>),
    Range(String, i32, Vec<Tribe>),
}

/// An aura as a plain value.
pub struct AuraEffectView {
    pub kind: AuraKind,
    pub name: Seq<char>,
    pub amount: i32,
    pub tribes: Seq<Tribe>,
}

impl View for AuraEffect {
    type V = AuraEffectView;

    open spec fn view(&self) -> AuraEffectView {
        match self {
            AuraEffect::Speed(name, amount, tribes) => AuraEffectView {
                kind: AuraKind::Speed,
                name: name@,
                amount: *amount,
                tribes: tribes@,
            },
            AuraEffect::Attack(name, amount, tribes) => AuraEffectView {
                kind: AuraKind::Attack,
                name: name@,
                amount: *amount,
                tribes: tribes@,
            },
            AuraEffect::Health(name, amount, tribes) => AuraEffectView {
                kind: AuraKind::Health,
                name: name@,
                amount: *amount,
                tribes: tribes@,
            },
            AuraEffect::Range(name, amount, tribes) => AuraEffectView {
                kind: AuraKind::Range,
                name: name@,
                amount: *amount,
                tribes: tribes@,
            },
        }
    }
}

/// The views of a list of auras.
pub open spec fn aura_views(auras: Seq<AuraEffect>) -> Seq<AuraEffectView> {
    auras.map_values(|aura: AuraEffect| aura@)
}

/// What the aura's amount is added to, as it is written.
pub open spec fn aura_subject(kind: AuraKind) -> Seq<char> {
    match kind {
        AuraKind::Speed => "Speed"@,
        AuraKind::Attack => "Damage"@,
        AuraKind::Health => "Health"@,
        AuraKind::Range => "Range"@,
    }
}

/// The aura in a few words: its name, then whether it adds or takes, and
/// what.
pub open spec fn aura_tagline(aura: AuraEffectView) -> Seq<char> {
    aura.name + ": "@ + (if aura.amount > 0 {
        "+"@
    } else {
        "-"@
    }) + aura_subject(aura.kind)
}

fn copy_tribes(tribes: &Vec<Tribe>) -> (copy: Vec<Tribe>)
    ensures
        copy@ == tribes@,
{
    let mut copy: Vec<Tribe> = Vec::new();
    let mut i: usize = 0;
    while i < tribes.len()
        invariant
            i <= tribes.len(),
            copy@ == tribes@.take(i as int),
        decreases tribes.len() - i,
    {
        copy.push(tribes[i]);
        assert(tribes@.take(i + 1) =~= tribes@.take(i as int).push(tribes@[i as int]));
        i += 1;
    }
    assert(tribes@.take(i as int) =~= tribes@);
    copy
}

fn same_tribes(left: &Vec<Tribe>, right: &Vec<Tribe>) -> (same: bool)
    ensures
        same == (left@ == right@),
{
    if left.len() != right.len() {
        return false;
    }
    let mut i: usize = 0;
    while i < left.len()
        invariant
            i <= left.len(),
            left.len() == right.len(),
            left@.take(i as int) == right@.take(i as int),
        decreases left.len() - i,
    {
        if left[i] != right[i] {
            assert(left@[i as int] != right@[i as int]);
            return false;
        }
        assert(left@.take(i + 1) =~= left@.take(i as int).push(left@[i as int]));
        assert(right@.take(i + 1) =~= right@.take(i as int).push(right@[i as int]));
        i += 1;
    }
    assert(left@.take(i as int) =~= left@);
    assert(right@.take(i as int) =~= right@);
    true
}

fn has_tribe(tribes: &Vec<Tribe>, tribe: Tribe) -> (found: bool)
    ensures
        found == tribes@.contains(tribe),
{
    let mut i: usize = 0;
    while i < tribes.len()
        invariant
            i <= tribes.len(),
            forall|j: int| 0 <= j < i ==> tribes@[j] != tribe,
        decreases tribes.len() - i,
    {
        if tribes[i] == tribe {
            return true;
        }
        i += 1;
    }
    false
}

impl Clone for AuraEffect {
    fn clone(&self) -> (copy: AuraEffect)
        ensures
            copy@ == self@,
    {
        match self {
            AuraEffect::Speed(name, amount, tribes) => AuraEffect::Speed(
                name.clone(),
                *amount,
                copy_tribes(tribes),
            ),
            AuraEffect::Attack(name, amount, tribes) => AuraEffect::Attack(
                name.clone(),
                *amount,
                copy_tribes(tribes),
            ),
            AuraEffect::Health(name, amount, tribes) => AuraEffect::Health(
                name.clone(),
                *amount,
                copy_tribes(tribes),
            ),
            AuraEffect::Range(name, amount, tribes) => AuraEffect::Range(
                name.clone(),
                *amount,
                copy_tribes(tribes),
            ),
        }
    }
}

impl AuraEffect {
    fn owned_name(&self) -> (name: &String)
        ensures
            name@ == self@.name,
    {
        match self {
            AuraEffect::Speed(name, _, _) => name,
            AuraEffect::Attack(name, _, _) => name,
            AuraEffect::Health(name, _, _) => name,
            AuraEffect::Range(name, _, _) => name,
        }
    }

    /// The aura's name.
    pub fn name(&self) -> (name: &str)
        ensures
            name@ == self@.name,
    {
        self.owned_name().as_str()
    }

    /// The amount the aura adds.
    pub fn amount(&self) -> (amount: i32)
        ensures
            amount == self@.amount,
    {
        match self {
            AuraEffect::Speed(_, amount, _) => *amount,
            AuraEffect::Attack(_, amount, _) => *amount,
            AuraEffect::Health(_, amount, _) => *amount,
            AuraEffect::Range(_, amount, _) => *amount,
        }
    }

    /// The tribes the aura works on.
    pub fn tribes(&self) -> (tribes: &Vec<Tribe>)
        ensures
            tribes@ == self@.tribes,
    {
        match self {
            AuraEffect::Speed(_, _, tribes) => tribes,
            AuraEffect::Attack(_, _, tribes) => tribes,
            AuraEffect::Health(_, _, tribes) => tribes,
            AuraEffect::Range(_, _, tribes) => tribes,
        }
    }

    /// What the aura changes.
    pub fn kind(&self) -> (kind: AuraKind)
        ensures
            kind == self@.kind,
    {
        match self {
            AuraEffect::Speed(_, _, _) => AuraKind::Speed,
            AuraEffect::Attack(_, _, _) => AuraKind::Attack,
            AuraEffect::Health(_, _, _) => AuraKind::Health,
            AuraEffect::Range(_, _, _) => AuraKind::Range,
        }
    }

    /// Whether the aura helps the one it is applied to.
    pub fn is_friendly(&self) -> (friendly: bool)
        ensures
            friendly == (self@.amount > 0),
    {
        self.amount() > 0
    }

    /// The aura in a few words.
    pub fn tagline(&self) -> (text: String)
        ensures
            text@ == aura_tagline(self@),
    {
        let mut text = String::from_str(self.name());
        text.append(": ");
        if self.amount() > 0 {
            text.append("+");
        } else {
            text.append("-");
        }
        match self.kind() {
            AuraKind::Speed => text.append("Speed"),
            AuraKind::Attack => text.append("Damage"),
            AuraKind::Health => text.append("Health"),
            AuraKind::Range => text.append("Range"),
        }
        text
    }

    /// Whether two auras are the same in kind, name, amount and tribes.
    pub fn same_as(&self, other: &AuraEffect) -> (same: bool)
        ensures
            same == (self@ == other@),
    {
        self.kind() == other.kind() && *self.owned_name() == *other.owned_name() && self.amount()
            == other.amount() && same_tribes(self.tribes(), other.tribes())
    }
}

/// Everything that is known of one combatant.
#[derive(Debug, PartialEq, Eq)]
pub struct CharacterStats {
    pub max_health: i32,
    pub is_dead: bool,
    pub health: i32,
    pub stamina: i32,
    pub stamina_regen: i32,
    pub name: String,
    pub tribe: Tribe,
    pub attacks: Vec<Attack>,
    pub movements: Vec<Movement>,
    pub auras: Vec<AuraEffect>,
    pub applied_auras: Vec<AuraEffect>,
}

/// A combatant's stats as a plain value.
pub struct CharacterStatsView {
    pub max_health: i32,
    pub is_dead: bool,
    pub health: i32,
    pub stamina: i32,
    pub stamina_regen: i32,
    pub name: Seq<char>,
    pub tribe: Tribe,
    pub attacks: Seq<Attack>,
    pub movements: Seq<Movement>,
    pub auras: Seq<AuraEffectView>,
    pub applied_auras: Seq<AuraEffectView>,
}

impl View for CharacterStats {
    type V = CharacterStatsView;

    open spec fn view(&self) -> CharacterStatsView {
        CharacterStatsView {
            max_health: self.max_health,
            is_dead: self.is_dead,
            health: self.health,
            stamina: self.stamina,
            stamina_regen: self.stamina_regen,
            name: self.name@,
            tribe: self.tribe,
            attacks: self.attacks@,
            movements: self.movements@,
            auras: aura_views(self.auras@),
            applied_auras: aura_views(self.applied_auras@),
        }
    }
}

/// Whether `aura` takes hold of the combatant: it is not already applied,
/// and it works on the combatant's tribe.
pub open spec fn aura_takes_hold(stats: CharacterStatsView, aura: AuraEffectView) -> bool {
    &&& !stats.applied_auras.contains(aura)
    &&& aura.tribes.len() == 0 || aura.tribes.contains(stats.tribe)
}

/// Whether an `i32` can hold `value`.
pub open spec fn fits_i32(value: int) -> bool {
    i32::MIN <= value <= i32::MAX
}

/// Whether every number that `aura` would change stays within an `i32`.
pub open spec fn aura_fits(stats: CharacterStatsView, aura: AuraEffectView) -> bool {
    match aura.kind {
        AuraKind::Speed => fits_i32(stats.stamina_regen + aura.amount),
        AuraKind::Attack => forall|i: int|
            0 <= i < stats.attacks.len() ==> fits_i32(#[trigger] stats.attacks[i].damage + aura.amount),
        AuraKind::Health => fits_i32(stats.max_health + aura.amount) && fits_i32(
            stats.health + aura.amount,
        ),
        AuraKind::Range => forall|i: int|
            0 <= i < stats.attacks.len() ==> fits_i32(#[trigger] stats.attacks[i].range + aura.amount),
    }
}

/// `attack` with `amount` added to its damage.
pub open spec fn harder(attack: Attack, amount: i32) -> Attack {
    Attack { damage: (attack.damage + amount) as i32, ..attack }
}

/// `attack` with `amount` added to its range.
pub open spec fn longer(attack: Attack, amount: i32) -> Attack {
    Attack { range: (attack.range + amount) as i32, ..attack }
}

/// The stats once `aura` has taken hold: the aura is recorded last among
/// the applied ones and its amount is added to what it changes.
pub open spec fn with_aura(stats: CharacterStatsView, aura: AuraEffectView) -> CharacterStatsView {
    let recorded = CharacterStatsView { applied_auras: stats.applied_auras.push(aura), ..stats };
    match aura.kind {
        AuraKind::Speed => CharacterStatsView {
            stamina_regen: (stats.stamina_regen + aura.amount) as i32,
            ..recorded
        },
        AuraKind::Attack => CharacterStatsView {
            attacks: stats.attacks.map_values(|attack: Attack| harder(attack, aura.amount)),
            ..recorded
        },
        AuraKind::Health => CharacterStatsView {
            max_health: (stats.max_health + aura.amount) as i32,
            health: (stats.health + aura.amount) as i32,
            ..recorded
        },
        AuraKind::Range => CharacterStatsView {
            attacks: stats.attacks.map_values(|attack: Attack| longer(attack, aura.amount)),
            ..recorded
        },
    }
}

/// The longest range among `attacks`, 0 when there is none.
pub open spec fn best_range(attacks: Seq<Attack>) -> int
    decreases attacks.len(),
{
    if attacks.len() == 0 {
        0
    } else if attacks.len() == 1 {
        attacks[0].range as int
    } else if best_range(attacks.drop_last()) >= attacks.last().range {
        best_range(attacks.drop_last())
    } else {
        attacks.last().range as int
    }
}

/// The greatest damage among `attacks`, 0 when there is none.
pub open spec fn best_damage(attacks: Seq<Attack>) -> int
    decreases attacks.len(),
{
    if attacks.len() == 0 {
        0
    } else if attacks.len() == 1 {
        attacks[0].damage as int
    } else if best_damage(attacks.drop_last()) >= attacks.last().damage {
        best_damage(attacks.drop_last())
    } else {
        attacks.last().damage as int
    }
}

/// The names of `auras`, each after a line break.
pub open spec fn overhead_lines(auras: Seq<AuraEffectView>) -> Seq<char>
    decreases auras.len(),
{
    if auras.len() == 0 {
        Seq::empty()
    } else {
        overhead_lines(auras.drop_last()) + "\n"@ + auras.last().name
    }
}

/// The five lines that describe a combatant: who it is, its health, its
/// stamina, the best of its attacks, and the auras it gives (an empty line
/// when it gives none).
pub open spec fn stats_lines(stats: CharacterStatsView) -> Seq<Seq<char>> {
    seq![
        stats.name + " - "@ + tribe_label(stats.tribe) + "\n"@,
        "Health: "@ + decimal_text(stats.health as int) + "/"@ + decimal_text(
            stats.max_health as int,
        ) + " - "@,
        "Stamina: "@ + decimal_text(stats.stamina as int) + "\n"@,
        "Max Range: "@ + decimal_text(best_range(stats.attacks)) + " - Max Damage "@
            + decimal_text(best_damage(stats.attacks)) + "\n"@,
        if stats.auras.len() == 0 {
            ""@
        } else {
            "Effects Given: "@ + joined(
                stats.auras.map_values(|aura: AuraEffectView| aura_tagline(aura)),
                ", "@,
            ) + "\n"@
        },
    ]
}

/// A copy of a list of auras.
pub fn clone_auras(auras: &Vec<AuraEffect>) -> (copy: Vec<AuraEffect>)
    ensures
        aura_views(copy@) == aura_views(auras@),
{
    let mut copy: Vec<AuraEffect> = Vec::new();
    let mut i: usize = 0;
    while i < auras.len()
        invariant
            i <= auras.len(),
            copy.len() == i,
            forall|j: int| 0 <= j < i ==> copy@[j]@ == auras@[j]@,
        decreases auras.len() - i,
    {
        copy.push(auras[i].clone());
        i += 1;
    }
    assert(aura_views(copy@) =~= aura_views(auras@));
    copy
}

/// A copy of a list of attacks.
pub fn copy_attacks(attacks: &Vec<Attack>) -> (copy: Vec<Attack>)
    ensures
        copy@ == attacks@,
{
    let mut copy: Vec<Attack> = Vec::new();
    let mut i: usize = 0;
    while i < attacks.len()
        invariant
            i <= attacks.len(),
            copy.len() == i,
            forall|j: int| 0 <= j < i ==> copy@[j] == attacks@[j],
        decreases attacks.len() - i,
    {
        copy.push(attacks[i]);
        i += 1;
    }
    assert(copy@ =~= attacks@);
    copy
}

/// A copy of a list of movements.
pub fn copy_movements(movements: &Vec<Movement>) -> (copy: Vec<Movement>)
    ensures
        copy@ == movements@,
{
    let mut copy: Vec<Movement> = Vec::new();
    let mut i: usize = 0;
    while i < movements.len()
        invariant
            i <= movements.len(),
            copy.len() == i,
            forall|j: int| 0 <= j < i ==> copy@[j] == movements@[j],
        decreases movements.len() - i,
    {
        copy.push(movements[i]);
        i += 1;
    }
    assert(copy@ =~= movements@);
    copy
}

impl Clone for CharacterStats {
    fn clone(&self) -> (copy: CharacterStats)
        ensures
            copy@ == self@,
    {
        CharacterStats {
            max_health: self.max_health,
            is_dead: self.is_dead,
            health: self.health,
            stamina: self.stamina,
            stamina_regen: self.stamina_regen,
            name: self.name.clone(),
            tribe: self.tribe,
            attacks: copy_attacks(&self.attacks),
            movements: copy_movements(&self.movements),
            auras: clone_auras(&self.auras),
            applied_auras: clone_auras(&self.applied_auras),
        }
    }
}

impl CharacterStats {
    /// Marks the combatant as dead.
    pub fn kill(&mut self)
        ensures
            final(self)@ == (CharacterStatsView { is_dead: true, ..old(self)@ }),
    {
        self.is_dead = true;
    }

    /// Whether an aura equal to `aura` has already been applied.
    pub fn has_applied(&self, aura: &AuraEffect) -> (found: bool)
        ensures
            found == self@.applied_auras.contains(aura@),
    {
        let mut i: usize = 0;
        while i < self.applied_auras.len()
            invariant
                i <= self.applied_auras.len(),
                forall|j: int| 0 <= j < i ==> self@.applied_auras[j] != aura@,
            decreases self.applied_auras.len() - i,
        {
            if self.applied_auras[i].same_as(aura) {
                assert(self@.applied_auras[i as int] == aura@);
                return true;
            }
            i += 1;
        }
        false
    }

    /// Whether [`CharacterStats::apply_aura`] may be called with `aura`:
    /// the aura changes nothing, or what it changes stays within an `i32`.
    pub fn can_apply_aura(&self, aura: &AuraEffect) -> (fits: bool)
        ensures
            fits == (aura_takes_hold(self@, aura@) ==> aura_fits(self@, aura@)),
    {
        if self.has_applied(aura) {
            return true;
        }
        if !(aura.tribes().len() == 0 || has_tribe(aura.tribes(), self.tribe)) {
            return true;
        }
        let amount = aura.amount();
        match aura.kind() {
            AuraKind::Speed => self.stamina_regen.checked_add(amount).is_some(),
            AuraKind::Health => self.max_health.checked_add(amount).is_some()
                && self.health.checked_add(amount).is_some(),
            AuraKind::Attack => {
                let mut i: usize = 0;
                while i < self.attacks.len()
                    invariant
                        i <= self.attacks.len(),
                        aura_takes_hold(self@, aura@),
                        aura@.kind == AuraKind::Attack,
                        amount == aura@.amount,
                        forall|j: int|
                            0 <= j < i ==> fits_i32(#[trigger] self.attacks@[j].damage + amount),
                    decreases self.attacks.len() - i,
                {
                    if self.attacks[i].damage.checked_add(amount).is_none() {
                        assert(!fits_i32(self@.attacks[i as int].damage + amount));
                        return false;
                    }
                    i += 1;
                }
                true
            },
            AuraKind::Range => {
                let mut i: usize = 0;
                while i < self.attacks.len()
                    invariant
                        i <= self.attacks.len(),
                        aura_takes_hold(self@, aura@),
                        aura@.kind == AuraKind::Range,
                        amount == aura@.amount,
                        forall|j: int|
                            0 <= j < i ==> fits_i32(#[trigger] self.attacks@[j].range + amount),
                    decreases self.attacks.len() - i,
                {
                    if self.attacks[i].range.checked_add(amount).is_none() {
                        assert(!fits_i32(self@.attacks[i as int].range + amount));
                        return false;
                    }
                    i += 1;
                }
                true
            },
        }
    }

    /// Applies `aura` to the combatant. An aura that was already applied,
    /// or that does not work on the combatant's tribe, changes nothing.
    pub fn apply_aura(&mut self, aura: AuraEffect)
        requires
            aura_takes_hold(old(self)@, aura@) ==> aura_fits(old(self)@, aura@),
        ensures
            aura_takes_hold(old(self)@, aura@) ==> final(self)@ == with_aura(old(self)@, aura@),
            !aura_takes_hold(old(self)@, aura@) ==> final(self)@ == old(self)@,
    {
        if self.has_applied(&aura) {
            return ;
        }
        if !(aura.tribes().len() == 0 || has_tribe(aura.tribes(), self.tribe)) {
            return ;
        }
        let kind = aura.kind();
        let amount = aura.amount();
        let ghost before = self@;
        let ghost effect = aura@;
        self.applied_auras.push(aura);
        assert(self@.applied_auras =~= before.applied_auras.push(effect));
        match kind {
            AuraKind::Speed => {
                self.stamina_regen = self.stamina_regen + amount;
            },
            AuraKind::Attack => {
                let mut i: usize = 0;
                while i < self.attacks.len()
                    invariant
                        i <= self.attacks.len(),
                        self.attacks.len() == before.attacks.len(),
                        aura_fits(before, effect),
                        effect.kind == AuraKind::Attack,
                        effect.amount == amount,
                        forall|j: int| 0 <= j < i ==> self.attacks@[j] == harder(before.attacks[j], amount),
                        forall|j: int| i <= j < self.attacks.len() ==> self.attacks@[j] == before.attacks[j],
                        self@ == (CharacterStatsView { attacks: self.attacks@, ..with_aura(before, effect) }),
                    decreases self.attacks.len() - i,
                {
                    let attack = self.attacks[i];
                    assert(fits_i32(before.attacks[i as int].damage + amount));
                    self.attacks.set(i, Attack { damage: attack.damage + amount, ..attack });
                    i += 1;
                }
                assert(self.attacks@ =~= before.attacks.map_values(
                    |attack: Attack| harder(attack, amount),
                ));
            },
            AuraKind::Health => {
                self.max_health = self.max_health + amount;
                self.health = self.health + amount;
            },
            AuraKind::Range => {
                let mut i: usize = 0;
                while i < self.attacks.len()
                    invariant
                        i <= self.attacks.len(),
                        self.attacks.len() == before.attacks.len(),
                        aura_fits(before, effect),
                        effect.kind == AuraKind::Range,
                        effect.amount == amount,
                        forall|j: int| 0 <= j < i ==> self.attacks@[j] == longer(before.attacks[j], amount),
                        forall|j: int| i <= j < self.attacks.len() ==> self.attacks@[j] == before.attacks[j],
                        self@ == (CharacterStatsView { attacks: self.attacks@, ..with_aura(before, effect) }),
                    decreases self.attacks.len() - i,
                {
                    let attack = self.attacks[i];
                    assert(fits_i32(before.attacks[i as int].range + amount));
                    self.attacks.set(i, Attack { range: attack.range + amount, ..attack });
                    i += 1;
                }
                assert(self.attacks@ =~= before.attacks.map_values(
                    |attack: Attack| longer(attack, amount),
                ));
            },
        }
    }

    /// The combatant's stamina returns by what it regains each round.
    pub fn regain_stamina(&mut self)
        requires
            fits_i32(old(self)@.stamina + old(self)@.stamina_regen),
        ensures
            final(self)@ == (CharacterStatsView {
                stamina: (old(self)@.stamina + old(self)@.stamina_regen) as i32,
                ..old(self)@
            }),
    {
        self.stamina = self.stamina + self.stamina_regen;
    }

    /// The combatant loses `damage` health.
    pub fn take_damage(&mut self, damage: i32)
        requires
            fits_i32(old(self)@.health - damage),
        ensures
            final(self)@ == (CharacterStatsView {
                health: (old(self)@.health - damage) as i32,
                ..old(self)@
            }),
    {
        self.health = self.health - damage;
    }

    /// The names of the auras applied to the combatant, each on a line of
    /// its own, the line break before the name.
    pub fn overhead_text(&self) -> (text: String)
        ensures
            text@ == overhead_lines(self@.applied_auras),
    {
        let mut text = String::new();
        let mut i: usize = 0;
        assert(self@.applied_auras.take(0) =~= Seq::empty());
        while i < self.applied_auras.len()
            invariant
                i <= self.applied_auras.len(),
                text@ == overhead_lines(self@.applied_auras.take(i as int)),
            decreases self.applied_auras.len() - i,
        {
            assert(self@.applied_auras.take(i + 1).drop_last() =~= self@.applied_auras.take(i as int));
            assert(self@.applied_auras.take(i + 1).last() == self.applied_auras@[i as int]@);
            text.append("\n");
            text.append(self.applied_auras[i].name());
            i += 1;
        }
        assert(self@.applied_auras.take(i as int) =~= self@.applied_auras);
        text
    }

    /// The longest range among the combatant's attacks, 0 without attacks.
    pub fn max_range(&self) -> (best: i32)
        ensures
            best == best_range(self@.attacks),
    {
        let mut best: i32 = 0;
        let mut i: usize = 0;
        while i < self.attacks.len()
            invariant
                i <= self.attacks.len(),
                best == best_range(self.attacks@.take(i as int)),
            decreases self.attacks.len() - i,
        {
            assert(self.attacks@.take(i + 1).drop_last() =~= self.attacks@.take(i as int));
            if i == 0 || self.attacks[i].range > best {
                best = self.attacks[i].range;
            }
            i += 1;
        }
        assert(self.attacks@.take(i as int) =~= self.attacks@);
        best
    }

    /// The greatest damage among the combatant's attacks, 0 without
    /// attacks.
    pub fn max_damage(&self) -> (best: i32)
        ensures
            best == best_damage(self@.attacks),
    {
        let mut best: i32 = 0;
        let mut i: usize = 0;
        while i < self.attacks.len()
            invariant
                i <= self.attacks.len(),
                best == best_damage(self.attacks@.take(i as int)),
            decreases self.attacks.len() - i,
        {
            assert(self.attacks@.take(i + 1).drop_last() =~= self.attacks@.take(i as int));
            if i == 0 || self.attacks[i].damage > best {
                best = self.attacks[i].damage;
            }
            i += 1;
        }
        assert(self.attacks@.take(i as int) =~= self.attacks@);
        best
    }

    fn aura_taglines(&self) -> (lines: Vec<String>)
        ensures
            texts(lines@) == self@.auras.map_values(|aura: AuraEffectView| aura_tagline(aura)),
    {
        let mut lines: Vec<String> = Vec::new();
        let mut i: usize = 0;
        while i < self.auras.len()
            invariant
                i <= self.auras.len(),
                lines.len() == i,
                forall|j: int| 0 <= j < i ==> lines@[j]@ == aura_tagline(self.auras@[j]@),
            decreases self.auras.len() - i,
        {
            lines.push(self.auras[i].tagline());
            i += 1;
        }
        assert(texts(lines@) =~= self@.auras.map_values(|aura: AuraEffectView| aura_tagline(aura)));
        lines
    }

    /// The combatant described in five lines of text.
    pub fn descriptor(&self) -> (lines: Vec<String>)
        ensures
            texts(lines@) == stats_lines(self@),
    {
        let mut title = self.name.clone();
        title.append(" - ");
        title.append(self.tribe.label());
        title.append("\n");
        let mut health = String::from_str("Health: ");
        health.append(decimal(self.health).as_str());
        health.append("/");
        health.append(decimal(self.max_health).as_str());
        health.append(" - ");
        let mut stamina = String::from_str("Stamina: ");
        stamina.append(decimal(self.stamina).as_str());
        stamina.append("\n");
        let mut reach = String::from_str("Max Range: ");
        reach.append(decimal(self.max_range()).as_str());
        reach.append(" - Max Damage ");
        reach.append(decimal(self.max_damage()).as_str());
        reach.append("\n");
        let effects = if self.auras.len() == 0 {
            String::from_str("")
        } else {
            let mut effects = String::from_str("Effects Given: ");
            effects.append(join(&self.aura_taglines(), ", ").as_str());
            effects.append("\n");
            effects
        };
        let mut lines: Vec<String> = Vec::new();
        lines.push(title);
        lines.push(health);
        lines.push(stamina);
        lines.push(reach);
        lines.push(effects);
        assert(texts(lines@) =~= stats_lines(self@));
        lines
    }
}

/// Which side a combatant fights on.
#[derive(Clone, Copy, Debug, PartialEq, Eq, Structural)]
pub enum Faction {
    Player,
    Enemy,
}

} // verus!
