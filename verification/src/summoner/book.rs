//! The summons that the summoner knows, and the hotkeys that stand for
//! them.
//!
//! A hotkey is one of ten slots, numbered from 0: the digit keys 1 to 9
//! and then 0, in that order.

use crate::chance::random_between;
use crate::summons::{SummonType, SummonTypeView};
use crate::tables::{
    summon_table_contains, summon_table_contents, summon_table_get, summon_table_insert,
    summon_table_len, summon_table_names, summon_table_new, SummonTable,
};
use vstd::prelude::*;

verus! {

/// The number of hotkeys.
pub const HOTKEY_COUNT: usize = 10;

/// The summons that are known, by name; for each hotkey the name that it
/// stands for; for each name that was given a hotkey, every hotkey it was
/// given, the last one last; and the name of the summon that is selected.
pub struct KnownSummons {
    pub summons: SummonTable,
    pub hotkeys: Vec<Option<String>>,
    pub summon_hotkeys: Vec<(String, usize)>,
    pub active: Option<String>,
}

/// The known summons as a plain value.
pub struct KnownSummonsView {
    pub summons: Map<Seq<char>, SummonTypeView>,
    pub hotkeys: Seq<Option<Seq<char>>>,
    pub summon_hotkeys: Seq<(Seq<char>, usize)>,
    pub active: Option<Seq<char>>,
}

/// The view of a name that may be missing.
pub open spec fn name_view(name: Option<String>) -> Option<Seq<char>> {
    match name {
        Some(name) => Some(name@),
        None => None,
    }
}

/// The views of the hotkeys' names.
pub open spec fn slot_views(hotkeys: Seq<Option<String>>) -> Seq<Option<Seq<char>>> {
    hotkeys.map_values(|name: Option<String>| name_view(name))
}

/// The views of the names that were given hotkeys.
pub open spec fn given_views(given: Seq<(String, usize)>) -> Seq<(Seq<char>, usize)> {
    given.map_values(|pair: (String, usize)| (pair.0@, pair.1))
}

impl View for KnownSummons {
    type V = KnownSummonsView;

    open spec fn view(&self) -> KnownSummonsView {
        KnownSummonsView {
            summons: summon_table_contents(self.summons).map_values(|summon: SummonType| summon@),
            hotkeys: slot_views(self.hotkeys@),
            summon_hotkeys: given_views(self.summon_hotkeys@),
            active: name_view(self.active),
        }
    }
}

/// The hotkey that `name` was given last.
pub open spec fn hotkey_of(given: Seq<(Seq<char>, usize)>, name: Seq<char>) -> Option<usize>
    decreases given.len(),
{
    if given.len() == 0 {
        None
    } else if given.last().0 == name {
        Some(given.last().1)
    } else {
        hotkey_of(given.drop_last(), name)
    }
}

/// The summon that `name` stands for, if one is known by that name.
pub open spec fn known_as(known: KnownSummonsView, name: Option<Seq<char>>) -> Option<
    SummonTypeView,
> {
    match name {
        Some(name) => if known.summons.contains_key(name) {
            Some(known.summons[name])
        } else {
            None
        },
        None => None,
    }
}

/// Whether `summon` is one of the known summons.
pub open spec fn is_known(known: KnownSummonsView, summon: SummonTypeView) -> bool {
    exists|name: Seq<char>| known.summons.contains_key(name) && known.summons[name] == summon
}

/// The name that the hotkey `key` stands for.
pub open spec fn name_on(known: KnownSummonsView, key: usize) -> Option<Seq<char>> {
    if key < known.hotkeys.len() {
        known.hotkeys[key as int]
    } else {
        None
    }
}

/// What is known once `summon` is learned: it is known by its name, in
/// place of what was known by that name; and while no more summons are
/// known than there are hotkeys, the hotkey whose number is one less than
/// the number of summons known stands for it.
pub open spec fn with_summon(known: KnownSummonsView, summon: SummonTypeView) -> KnownSummonsView {
    let summons = known.summons.insert(summon.summon_name, summon);
    let count = summons.len();
    if 1 <= count <= HOTKEY_COUNT && count <= known.hotkeys.len() {
        KnownSummonsView {
            summons,
            hotkeys: known.hotkeys.update(count - 1, Some(summon.summon_name)),
            summon_hotkeys: known.summon_hotkeys.push((summon.summon_name, (count - 1) as usize)),
            active: known.active,
        }
    } else {
        KnownSummonsView { summons, ..known }
    }
}

/// What is known at the start, from a list of summons: each is known by
/// its name, a later one in place of an earlier one of the same name, and
/// the hotkeys stand for them in the order of the list.
pub open spec fn known_from(summons: Seq<SummonTypeView>) -> KnownSummonsView
    decreases summons.len(),
{
    if summons.len() == 0 {
        KnownSummonsView {
            summons: Map::empty(),
            hotkeys: Seq::new(HOTKEY_COUNT as nat, |i: int| None),
            summon_hotkeys: Seq::empty(),
            active: None,
        }
    } else {
        let before = known_from(summons.drop_last());
        let last = summons.last();
        let slot = summons.len() - 1;
        KnownSummonsView {
            summons: before.summons.insert(last.summon_name, last),
            hotkeys: before.hotkeys.update(slot, Some(last.summon_name)),
            summon_hotkeys: before.summon_hotkeys.push((last.summon_name, slot as usize)),
            active: None,
        }
    }
}

proof fn lemma_summon_count(known: KnownSummons)
    ensures
        known@.summons.len() == summon_table_contents(known.summons).len(),
{
    assert(known@.summons.dom() =~= summon_table_contents(known.summons).dom());
}

/// What is written on the hotkey `key`: the digits 1 to 9 and then 0;
/// nothing on a hotkey that there is not.
pub open spec fn hotkey_text(key: usize) -> Seq<char> {
    if key == 0 {
        "1"@
    } else if key == 1 {
        "2"@
    } else if key == 2 {
        "3"@
    } else if key == 3 {
        "4"@
    } else if key == 4 {
        "5"@
    } else if key == 5 {
        "6"@
    } else if key == 6 {
        "7"@
    } else if key == 7 {
        "8"@
    } else if key == 8 {
        "9"@
    } else if key == 9 {
        "0"@
    } else {
        ""@
    }
}

/// What is written on the hotkey `key`.
pub fn hotkey_label(key: usize) -> (text: &'static str)
    ensures
        text@ == hotkey_text(key),
{
    if key == 0 {
        "1"
    } else if key == 1 {
        "2"
    } else if key == 2 {
        "3"
    } else if key == 3 {
        "4"
    } else if key == 4 {
        "5"
    } else if key == 5 {
        "6"
    } else if key == 6 {
        "7"
    } else if key == 7 {
        "8"
    } else if key == 8 {
        "9"
    } else if key == 9 {
        "0"
    } else {
        ""
    }
}

impl KnownSummons {
    /// The lowest hotkey that stands for `name`.
    pub fn hotkey_showing(&self, name: &String) -> (key: Option<usize>)
        ensures
            match key {
                Some(key) => key < self@.hotkeys.len() && self@.hotkeys[key as int] == Some(name@)
                    && forall|lower: int| 0 <= lower < key ==> self@.hotkeys[lower] != Some(name@),
                None => forall|other: int|
                    0 <= other < self@.hotkeys.len() ==> self@.hotkeys[other] != Some(name@),
            },
    {
        let mut key: usize = 0;
        while key < self.hotkeys.len()
            invariant
                key <= self.hotkeys.len(),
                forall|lower: int| 0 <= lower < key ==> self@.hotkeys[lower] != Some(name@),
            decreases self.hotkeys.len() - key,
        {
            match &self.hotkeys[key] {
                Some(shown) => {
                    if *shown == *name {
                        return Some(key);
                    }
                },
                None => {},
            }
            key += 1;
        }
        None
    }

    /// What the summoner knows at the start: `starting_summons`, with the
    /// hotkeys in their order.
    pub fn new(starting_summons: Vec<SummonType>) -> (known: KnownSummons)
        requires
            starting_summons@.len() <= HOTKEY_COUNT,
        ensures
            known@ == known_from(crate::summoner::placement::summon_views(starting_summons@)),
    {
        let ghost all = crate::summoner::placement::summon_views(starting_summons@);
        let mut hotkeys: Vec<Option<String>> = Vec::new();
        let mut slot: usize = 0;
        while slot < HOTKEY_COUNT
            invariant
                slot <= HOTKEY_COUNT,
                hotkeys.len() == slot,
                forall|i: int| 0 <= i < slot ==> hotkeys@[i] is None,
            decreases HOTKEY_COUNT - slot,
        {
            hotkeys.push(None);
            slot += 1;
        }
        let mut known = KnownSummons {
            summons: summon_table_new(),
            hotkeys,
            summon_hotkeys: Vec::new(),
            active: None,
        };
        assert(all.take(0) =~= Seq::empty());
        assert(known@.summons =~= known_from(all.take(0)).summons);
        assert(known@.hotkeys =~= known_from(all.take(0)).hotkeys);
        assert(known@.summon_hotkeys =~= known_from(all.take(0)).summon_hotkeys);
        let mut idx: usize = 0;
        while idx < starting_summons.len()
            invariant
                idx <= starting_summons.len(),
                starting_summons@.len() <= HOTKEY_COUNT,
                all == crate::summoner::placement::summon_views(starting_summons@),
                known@ == known_from(all.take(idx as int)),
                known.hotkeys.len() == HOTKEY_COUNT,
            decreases starting_summons.len() - idx,
        {
            let ghost before = known@;
            let summon = starting_summons[idx].clone();
            let name = summon.summon_name.clone();
            assert(all.take(idx + 1).drop_last() =~= all.take(idx as int));
            assert(all.take(idx + 1).last() == summon@);
            known.hotkeys.set(idx, Some(name.clone()));
            known.summon_hotkeys.push((name.clone(), idx));
            summon_table_insert(&mut known.summons, name, summon);
            assert(known@.summons =~= before.summons.insert(summon@.summon_name, summon@));
            assert(known@.hotkeys =~= before.hotkeys.update(idx as int, Some(summon@.summon_name)));
            assert(known@.summon_hotkeys =~= before.summon_hotkeys.push(
                (summon@.summon_name, idx),
            ));
            idx += 1;
        }
        assert(all.take(idx as int) =~= all);
        known
    }

    /// Learns `summon`.
    pub fn add(&mut self, summon: SummonType)
        ensures
            final(self)@ == with_summon(old(self)@, summon@),
    {
        let ghost before = self@;
        let ghost shown = summon@;
        let name = summon.summon_name.clone();
        summon_table_insert(&mut self.summons, name.clone(), summon);
        assert(self@.summons =~= before.summons.insert(shown.summon_name, shown));
        let count = summon_table_len(&self.summons);
        proof {
            lemma_summon_count(*self);
        }
        if 1 <= count && count <= HOTKEY_COUNT && count <= self.hotkeys.len() {
            self.hotkeys.set(count - 1, Some(name.clone()));
            self.summon_hotkeys.push((name, count - 1));
            assert(self@.hotkeys =~= before.hotkeys.update(count - 1, Some(shown.summon_name)));
            assert(self@.summon_hotkeys =~= before.summon_hotkeys.push(
                (shown.summon_name, (count - 1) as usize),
            ));
        }
    }

    /// Whether a summon is known by `name`.
    pub fn has(&self, name: &String) -> (known: bool)
        ensures
            known == self@.summons.contains_key(name@),
    {
        summon_table_contains(&self.summons, name.as_str())
    }

    /// The summon known by `name`.
    pub fn get(&self, name: &String) -> (summon: SummonType)
        requires
            self@.summons.contains_key(name@),
        ensures
            summon@ == self@.summons[name@],
    {
        summon_table_get(&self.summons, name.as_str()).unwrap().clone()
    }

    fn find(&self, name: &Option<String>) -> (summon: Option<SummonType>)
        ensures
            summon is Some == known_as(self@, name_view(*name)) is Some,
            summon is Some ==> summon->0@ == known_as(self@, name_view(*name))->0,
    {
        match name {
            Some(name) => match summon_table_get(&self.summons, name.as_str()) {
                Some(summon) => Some(summon.clone()),
                None => None,
            },
            None => None,
        }
    }

    /// The summon that the hotkey `key` stands for.
    pub fn get_by_hotkey(&self, key: usize) -> (summon: Option<SummonType>)
        ensures
            summon is Some == known_as(self@, name_on(self@, key)) is Some,
            summon is Some ==> summon->0@ == known_as(self@, name_on(self@, key))->0,
    {
        if key < self.hotkeys.len() {
            self.find(&self.hotkeys[key])
        } else {
            None
        }
    }

    /// The hotkey that stands for the summon known by `name`: the one it
    /// was given last.
    pub fn get_hotkey(&self, name: &String) -> (key: Option<usize>)
        ensures
            key == hotkey_of(self@.summon_hotkeys, name@),
    {
        let ghost given = self@.summon_hotkeys;
        let mut i: usize = self.summon_hotkeys.len();
        assert(given.take(i as int) =~= given);
        while i > 0
            invariant
                i <= self.summon_hotkeys.len(),
                given == self@.summon_hotkeys,
                hotkey_of(given, name@) == hotkey_of(given.take(i as int), name@),
            decreases i,
        {
            assert(given.take(i as int).drop_last() =~= given.take(i - 1));
            if self.summon_hotkeys[i - 1].0 == *name {
                return Some(self.summon_hotkeys[i - 1].1);
            }
            i -= 1;
        }
        assert(given.take(0) =~= Seq::empty());
        None
    }

    /// The summon that is selected.
    pub fn get_active(&self) -> (summon: Option<SummonType>)
        ensures
            summon is Some == known_as(self@, self@.active) is Some,
            summon is Some ==> summon->0@ == known_as(self@, self@.active)->0,
    {
        self.find(&self.active)
    }

    /// Selects the summon known by `name`.
    pub fn set_active(&mut self, name: String)
        ensures
            final(self)@ == (KnownSummonsView { active: Some(name@), ..old(self)@ }),
    {
        self.active = Some(name);
    }

    /// One of the known summons, picked at random.
    pub fn get_random(&self) -> (summon: Option<SummonType>)
        requires
            self@.summons.len() > 0,
        ensures
            summon is Some,
            is_known(self@, summon->0@),
    {
        proof {
            lemma_summon_count(*self);
        }
        let idx = random_between(0, summon_table_len(&self.summons));
        let names = summon_table_names(&self.summons);
        assert(self@.summons.contains_key(names@[idx as int]@));
        Some(self.get(&names[idx]))
    }

    /// Every known summon, each once, in no particular order.
    pub fn all(&self) -> (summons: Vec<SummonType>)
        ensures
            summons@.len() == self@.summons.len(),
            forall|i: int| 0 <= i < summons@.len() ==> is_known(self@, (#[trigger] summons@[i])@),
            forall|name: Seq<char>|
                self@.summons.contains_key(name) ==> exists|i: int|
                    0 <= i < summons@.len() && (#[trigger] summons@[i])@ == self@.summons[name],
    {
        let names = summon_table_names(&self.summons);
        proof {
            lemma_summon_count(*self);
        }
        let mut summons: Vec<SummonType> = Vec::new();
        let mut i: usize = 0;
        while i < names.len()
            invariant
                i <= names.len(),
                summons@.len() == i,
                forall|k: int|
                    0 <= k < names@.len() ==> self@.summons.contains_key((#[trigger] names@[k])@),
                forall|k: int| 0 <= k < i ==> (#[trigger] summons@[k])@ == self@.summons[names@[k]@],
            decreases names.len() - i,
        {
            assert(self@.summons.contains_key(names@[i as int]@));
            summons.push(self.get(&names[i]));
            i += 1;
        }
        assert forall|name: Seq<char>| self@.summons.contains_key(name) implies exists|i: int|
            0 <= i < summons@.len() && (#[trigger] summons@[i])@ == self@.summons[name] by {
            assert(summon_table_contents(self.summons).contains_key(name));
            let k = choose|k: int| 0 <= k < names@.len() && (#[trigger] names@[k])@ == name;
            assert(summons@[k]@ == self@.summons[name]);
        }
        assert forall|i: int| 0 <= i < summons@.len() implies is_known(
            self@,
            (#[trigger] summons@[i])@,
        ) by {
            let name = names@[i]@;
            assert(self@.summons.contains_key(name) && self@.summons[name] == summons@[i]@);
        }
        summons
    }

    /// The number of summons known.
    pub fn length(&self) -> (count: usize)
        ensures
            count == self@.summons.len(),
    {
        proof {
            lemma_summon_count(*self);
        }
        summon_table_len(&self.summons)
    }
}

impl Default for KnownSummons {
    fn default() -> (known: KnownSummons)
        ensures
            known@ == known_from(Seq::empty()),
    {
        KnownSummons::new(Vec::new())
    }
}

} // verus!
