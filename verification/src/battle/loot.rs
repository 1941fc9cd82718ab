//! What the summoner may learn after a battle.

use crate::chance::random_between;
use crate::summoner::book::{KnownSummons, KnownSummonsView};
use crate::summoner::placement::summon_views;
use crate::summons::{SummonType, SummonTypeView};
use vstd::prelude::*;

verus! {

/// The number of summons offered after a battle, where so many can be
/// learned.
pub const LOOT_OFFERED: usize = 3;

/// Whether `summon` can be learned: it is not known yet, the summoner has
/// the mana that it asks for, and the summon that it asks for, if any, is
/// known.
pub open spec fn on_offer(summon: SummonTypeView, known: KnownSummonsView, max_mana: i32) -> bool {
    &&& !known.summons.contains_key(summon.summon_name)
    &&& max_mana >= summon.prerequisites.0
    &&& match summon.prerequisites.1 {
        Some(name) => known.summons.contains_key(name),
        None => true,
    }
}

/// The summons of `summons` that can be learned, in their order.
pub open spec fn offered(summons: Seq<SummonTypeView>, known: KnownSummonsView, max_mana: i32) -> Seq<
    SummonTypeView,
>
    decreases summons.len(),
{
    if summons.len() == 0 {
        Seq::empty()
    } else if on_offer(summons.last(), known, max_mana) {
        offered(summons.drop_last(), known, max_mana).push(summons.last())
    } else {
        offered(summons.drop_last(), known, max_mana)
    }
}

/// Whether `summon` can be learned by a summoner who knows `known` and has
/// `max_mana`.
pub fn is_on_offer(summon: &SummonType, known: &KnownSummons, max_mana: i32) -> (yes: bool)
    ensures
        yes == on_offer(summon@, known@, max_mana),
{
    if known.has(&summon.summon_name) {
        return false;
    }
    match &summon.prerequisites.1 {
        Some(name) => known.has(name) && max_mana >= summon.prerequisites.0,
        None => max_mana >= summon.prerequisites.0,
    }
}

/// The summons of `summons` that can be learned, in their order.
pub fn available_loot(summons: &Vec<SummonType>, known: &KnownSummons, max_mana: i32) -> (available:
    Vec<SummonType>)
    ensures
        summon_views(available@) == offered(summon_views(summons@), known@, max_mana),
{
    let ghost all = summon_views(summons@);
    let mut available: Vec<SummonType> = Vec::new();
    let mut i: usize = 0;
    assert(summon_views(available@) =~= Seq::empty());
    while i < summons.len()
        invariant
            i <= summons.len(),
            all == summon_views(summons@),
            summon_views(available@) == offered(all.take(i as int), known@, max_mana),
        decreases summons.len() - i,
    {
        assert(all.take(i + 1).drop_last() =~= all.take(i as int));
        assert(all.take(i + 1).last() == summons@[i as int]@);
        if is_on_offer(&summons[i], known, max_mana) {
            let ghost before = summon_views(available@);
            available.push(summons[i].clone());
            assert(summon_views(available@) =~= before.push(summons@[i as int]@));
        }
        i += 1;
    }
    assert(all.take(i as int) =~= all);
    available
}

/// Whether `picked` are items of `available` taken from positions `from`,
/// no position twice.
pub open spec fn drawn_from(
    picked: Seq<SummonType>,
    available: Seq<SummonType>,
    from: Seq<int>,
) -> bool {
    &&& from.len() == picked.len()
    &&& forall|k: int|
        0 <= k < from.len() ==> 0 <= #[trigger] from[k] < available.len() && picked[k]
            == available[from[k]]
    &&& forall|k: int, l: int| 0 <= k < l < from.len() ==> #[trigger] from[k] != #[trigger] from[l]
}

/// Picks the summons to offer: [`LOOT_OFFERED`] of `available`, or all of
/// them if there are fewer, each picked at random among those not picked
/// yet.
pub fn pick_loot(available: Vec<SummonType>) -> (picked: Vec<SummonType>)
    ensures
        picked@.len() == if available@.len() < LOOT_OFFERED {
            available@.len()
        } else {
            LOOT_OFFERED as nat
        },
        exists|from: Seq<int>| drawn_from(picked@, available@, from),
{
    let ghost all = available@;
    let mut rest = available;
    let mut picked: Vec<SummonType> = Vec::new();
    let ghost mut origin: Seq<int> = Seq::new(all.len(), |j: int| j);
    let ghost mut from: Seq<int> = Seq::empty();
    let mut round: usize = 0;
    while round < LOOT_OFFERED
        invariant
            round <= LOOT_OFFERED,
            rest@.len() == origin.len(),
            picked@.len() + rest@.len() == all.len(),
            picked@.len() == if all.len() < round {
                all.len()
            } else {
                round as nat
            },
            forall|j: int|
                0 <= j < origin.len() ==> 0 <= #[trigger] origin[j] < all.len() && rest@[j]
                    == all[origin[j]],
            forall|j: int, l: int|
                0 <= j < l < origin.len() ==> #[trigger] origin[j] != #[trigger] origin[l],
            drawn_from(picked@, all, from),
            forall|k: int, j: int|
                0 <= k < from.len() && 0 <= j < origin.len() ==> #[trigger] from[k]
                    != #[trigger] origin[j],
        decreases LOOT_OFFERED - round,
    {
        if rest.len() > 0 {
            let idx = random_between(0, rest.len());
            let ghost old_origin = origin;
            let ghost old_from = from;
            let summon = rest.remove(idx);
            picked.push(summon);
            proof {
                origin = old_origin.remove(idx as int);
                from = old_from.push(old_origin[idx as int]);
                assert forall|j: int| 0 <= j < origin.len() implies 0 <= #[trigger] origin[j]
                    < all.len() && rest@[j] == all[origin[j]] by {
                    if j < idx {
                        assert(origin[j] == old_origin[j]);
                    } else {
                        assert(origin[j] == old_origin[j + 1]);
                    }
                }
                assert forall|j: int, l: int| 0 <= j < l < origin.len() implies #[trigger] origin[j]
                    != #[trigger] origin[l] by {
                    let j0 = if j < idx { j } else { j + 1 };
                    let l0 = if l < idx { l } else { l + 1 };
                    assert(origin[j] == old_origin[j0]);
                    assert(origin[l] == old_origin[l0]);
                }
                assert forall|k: int, j: int|
                    0 <= k < from.len() && 0 <= j < origin.len() implies #[trigger] from[k]
                    != #[trigger] origin[j] by {
                    let j0 = if j < idx { j } else { j + 1 };
                    assert(origin[j] == old_origin[j0]);
                    if k < old_from.len() {
                        assert(from[k] == old_from[k]);
                    }
                }
                assert forall|k: int, l: int| 0 <= k < l < from.len() implies #[trigger] from[k]
                    != #[trigger] from[l] by {
                    assert(from[k] == old_from[k]);
                    if l < old_from.len() {
                        assert(from[l] == old_from[l]);
                    }
                }
            }
        }
        round += 1;
    }
    picked
}

} // verus!
