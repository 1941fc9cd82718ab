//! The story: the waves still to come and what the player is told and
//! given after each battle.

use crate::battle::stats::fits_i32;
use crate::persistence::SaveData;
use crate::summoner::placement::{mirrored, SummonedMinions, SummonedMinionsView};
use crate::text::{decimal_index, decimal_text, texts};
use vstd::prelude::*;
use vstd::string::*;

verus! {

/// One thing that happens between battles.
#[derive(Debug, PartialEq, Eq)]
pub enum StoryBeatType {
    GainMana(i32),
    Narration(String),
    GameOver(bool),
}

/// A beat as a plain value.
pub enum StoryBeatTypeView {
    GainMana(i32),
    Narration(Seq<char>),
    GameOver(bool),
}

impl View for StoryBeatType {
    type V = StoryBeatTypeView;

    open spec fn view(&self) -> StoryBeatTypeView {
        match self {
            StoryBeatType::GainMana(mana) => StoryBeatTypeView::GainMana(*mana),
            StoryBeatType::Narration(narration) => StoryBeatTypeView::Narration(narration@),
            StoryBeatType::GameOver(victory) => StoryBeatTypeView::GameOver(*victory),
        }
    }
}

impl Clone for StoryBeatType {
    fn clone(&self) -> (copy: StoryBeatType)
        ensures
            copy@ == self@,
    {
        match self {
            StoryBeatType::GainMana(mana) => StoryBeatType::GainMana(*mana),
            StoryBeatType::Narration(narration) => StoryBeatType::Narration(narration.clone()),
            StoryBeatType::GameOver(victory) => StoryBeatType::GameOver(*victory),
        }
    }
}

/// The views of a list of beats.
pub open spec fn beat_views(beats: Seq<StoryBeatType>) -> Seq<StoryBeatTypeView> {
    beats.map_values(|beat: StoryBeatType| beat@)
}

/// The views of a list of lists of beats.
pub open spec fn beat_lists(lists: Seq<Vec<StoryBeatType>>) -> Seq<Seq<StoryBeatTypeView>> {
    lists.map_values(|beats: Vec<StoryBeatType>| beat_views(beats@))
}

/// The waves still to come, by name, and the beats that follow the battles
/// still to come: those for a battle won, those for a battle lost, and
/// those that follow either. The first list of each is for the next
/// battle.
#[derive(Debug, PartialEq, Eq)]
pub struct Story {
    pub waves: Vec<String>,
    pub winning_beats: Vec<Vec<StoryBeatType>>,
    pub losing_beats: Vec<Vec<StoryBeatType>>,
    pub agnostic_beats: Vec<Vec<StoryBeatType>>,
}

/// A story as a plain value.
pub struct StoryView {
    pub waves: Seq<Seq<char>>,
    pub winning_beats: Seq<Seq<StoryBeatTypeView>>,
    pub losing_beats: Seq<Seq<StoryBeatTypeView>>,
    pub agnostic_beats: Seq<Seq<StoryBeatTypeView>>,
}

impl View for Story {
    type V = StoryView;

    open spec fn view(&self) -> StoryView {
        StoryView {
            waves: texts(self.waves@),
            winning_beats: beat_lists(self.winning_beats@),
            losing_beats: beat_lists(self.losing_beats@),
            agnostic_beats: beat_lists(self.agnostic_beats@),
        }
    }
}

/// A list without its first item; an empty list stays empty.
pub open spec fn after_first<T>(items: Seq<T>) -> Seq<T> {
    if items.len() > 0 {
        items.drop_first()
    } else {
        items
    }
}

/// The first list of `lists`, or no beats when there is no list.
pub open spec fn first_or_none(lists: Seq<Seq<StoryBeatTypeView>>) -> Seq<StoryBeatTypeView> {
    if lists.len() > 0 {
        lists[0]
    } else {
        Seq::empty()
    }
}

/// The story once one more battle is over, won or lost: the first list of
/// each kind of beats is used up.
pub open spec fn after_battle(story: StoryView) -> StoryView {
    StoryView {
        waves: story.waves,
        winning_beats: after_first(story.winning_beats),
        losing_beats: after_first(story.losing_beats),
        agnostic_beats: after_first(story.agnostic_beats),
    }
}

/// The beats that follow a battle won: the next winning beats, or, when
/// none are left, the end of the game in victory if no wave is left
/// either; then the next beats that follow any battle.
pub open spec fn beats_after_win(story: StoryView) -> Seq<StoryBeatTypeView> {
    (if story.winning_beats.len() > 0 {
        story.winning_beats[0]
    } else if story.waves.len() == 0 {
        seq![StoryBeatTypeView::GameOver(true)]
    } else {
        Seq::empty()
    }) + first_or_none(story.agnostic_beats)
}

/// The beats that follow a battle lost: the next losing beats, or, when
/// none are left, the end of the game in defeat; then the next beats that
/// follow any battle.
pub open spec fn beats_after_loss(story: StoryView) -> Seq<StoryBeatTypeView> {
    (if story.losing_beats.len() > 0 {
        story.losing_beats[0]
    } else {
        seq![StoryBeatTypeView::GameOver(false)]
    }) + first_or_none(story.agnostic_beats)
}

fn take_first(lists: &mut Vec<Vec<StoryBeatType>>) -> (first: Vec<StoryBeatType>)
    ensures
        beat_lists(final(lists)@) == after_first(beat_lists(old(lists)@)),
        beat_views(first@) == first_or_none(beat_lists(old(lists)@)),
{
    if lists.len() > 0 {
        let first = lists.remove(0);
        assert(beat_lists(lists@) =~= after_first(beat_lists(old(lists)@)));
        first
    } else {
        let first: Vec<StoryBeatType> = Vec::new();
        assert(beat_views(first@) =~= Seq::empty());
        first
    }
}

/// The names of the waves of a story made from `count` saved armies.
pub open spec fn wave_names(count: nat) -> Seq<Seq<char>> {
    Seq::new(count, |i: int| "wave_"@ + decimal_text(i))
}

/// The mana gained before each battle of a story made from saved armies.
pub open spec fn saved_gains() -> Seq<int> {
    seq![1, 1, 1, 1, 1, 3, 1, 1, 1, 2]
}

/// The beats that follow any battle of a story made from saved armies:
/// a gain of mana each time.
pub open spec fn saved_beats() -> Seq<Seq<StoryBeatTypeView>> {
    Seq::new(
        saved_gains().len(),
        |i: int| seq![StoryBeatTypeView::GainMana(saved_gains()[i] as i32)],
    )
}

fn gain_lists() -> (lists: Vec<Vec<StoryBeatType>>)
    ensures
        beat_lists(lists@) == saved_beats(),
{
    let mut amounts: Vec<i32> = Vec::new();
    amounts.push(1);
    amounts.push(1);
    amounts.push(1);
    amounts.push(1);
    amounts.push(1);
    amounts.push(3);
    amounts.push(1);
    amounts.push(1);
    amounts.push(1);
    amounts.push(2);
    let mut lists: Vec<Vec<StoryBeatType>> = Vec::new();
    let mut i: usize = 0;
    while i < amounts.len()
        invariant
            i <= amounts.len(),
            amounts@.len() == 10,
            forall|j: int| 0 <= j < 10 ==> amounts@[j] == saved_gains()[j],
            lists@.len() == i,
            forall|j: int|
                0 <= j < i ==> beat_views(lists@[j]@) == seq![
                    StoryBeatTypeView::GainMana(amounts@[j]),
                ],
        decreases amounts.len() - i,
    {
        let mut beats: Vec<StoryBeatType> = Vec::new();
        beats.push(StoryBeatType::GainMana(amounts[i]));
        assert(beat_views(beats@) =~= seq![StoryBeatTypeView::GainMana(amounts@[i as int])]);
        lists.push(beats);
        i += 1;
    }
    assert(beat_lists(lists@) =~= saved_beats());
    lists
}

impl Story {
    /// The story of a game against saved armies, and the waves that the
    /// player meets in it: a wave for each army, the army as seen from the
    /// other side of the board, named `wave_0`, `wave_1` and so on; no
    /// beats for winning or losing; and a gain of mana after each battle.
    pub fn from_save_data(save: &SaveData) -> (made: (Story, Vec<SummonedMinions>))
        requires
            save.all_on_board(),
        ensures
            made.0@ == (StoryView {
                waves: wave_names(save.armies@.len()),
                winning_beats: Seq::empty(),
                losing_beats: Seq::empty(),
                agnostic_beats: saved_beats(),
            }),
            made.1@.len() == save.armies@.len(),
            forall|i: int|
                0 <= i < save.armies@.len() ==> (#[trigger] made.1@[i])@ == (SummonedMinionsView {
                    spawn_locations: mirrored(save.armies@[i]@.spawn_locations),
                    ..save.armies@[i]@
                }),
    {
        let mut wave_list: Vec<String> = Vec::new();
        let mut waves: Vec<SummonedMinions> = Vec::new();
        let mut i: usize = 0;
        while i < save.armies.len()
            invariant
                i <= save.armies.len(),
                save.all_on_board(),
                wave_list@.len() == i,
                waves@.len() == i,
                forall|j: int| 0 <= j < i ==> (#[trigger] wave_list@[j])@ == "wave_"@ + decimal_text(j),
                forall|j: int|
                    0 <= j < i ==> (#[trigger] waves@[j])@ == (SummonedMinionsView {
                        spawn_locations: mirrored(save.armies@[j]@.spawn_locations),
                        ..save.armies@[j]@
                    }),
            decreases save.armies.len() - i,
        {
            assert forall|cell: (usize, usize)|
                save.armies@[i as int]@.spawn_locations.contains_key(cell) implies crate::summoner::placement::on_board(
                cell,
            ) by {}
            let mirrored_army = save.armies[i].mirror();
            let mut wave_name = String::from_str("wave_");
            wave_name.append(decimal_index(i).as_str());
            wave_list.push(wave_name);
            waves.push(mirrored_army);
            i += 1;
        }
        let story = Story {
            waves: wave_list,
            winning_beats: Vec::new(),
            losing_beats: Vec::new(),
            agnostic_beats: gain_lists(),
        };
        assert(story@.waves =~= wave_names(save.armies@.len()));
        assert(story@.winning_beats =~= Seq::empty());
        assert(story@.losing_beats =~= Seq::empty());
        (story, waves)
    }

    /// Takes the next wave off the story and gives its name; `None` when
    /// no wave is left.
    pub fn next_wave(&mut self) -> (wave: Option<String>)
        ensures
            wave is Some <==> old(self)@.waves.len() > 0,
            wave is Some ==> wave->0@ == old(self)@.waves[0],
            final(self)@ == (StoryView { waves: after_first(old(self)@.waves), ..old(self)@ }),
    {
        if self.waves.len() > 0 {
            let wave = self.waves.remove(0);
            assert(texts(self.waves@) =~= old(self)@.waves.drop_first());
            Some(wave)
        } else {
            None
        }
    }

    /// Moves the story on after a battle won and gives the beats that
    /// follow it.
    pub fn win(&mut self) -> (beats: Vec<StoryBeatType>)
        ensures
            final(self)@ == after_battle(old(self)@),
            beat_views(beats@) == beats_after_win(old(self)@),
    {
        let _ = take_first(&mut self.losing_beats);
        let mut winning = if self.winning_beats.len() == 0 {
            if self.waves.len() == 0 {
                let mut over: Vec<StoryBeatType> = Vec::new();
                over.push(StoryBeatType::GameOver(true));
                assert(beat_views(over@) =~= seq![StoryBeatTypeView::GameOver(true)]);
                over
            } else {
                let none: Vec<StoryBeatType> = Vec::new();
                assert(beat_views(none@) =~= Seq::empty());
                none
            }
        } else {
            take_first(&mut self.winning_beats)
        };
        let ghost first_part = beat_views(winning@);
        let mut agnostic = take_first(&mut self.agnostic_beats);
        let ghost second_part = beat_views(agnostic@);
        winning.append(&mut agnostic);
        assert(beat_views(winning@) =~= first_part + second_part);
        winning
    }

    /// Moves the story on after a battle lost and gives the beats that
    /// follow it.
    pub fn lose(&mut self) -> (beats: Vec<StoryBeatType>)
        ensures
            final(self)@ == after_battle(old(self)@),
            beat_views(beats@) == beats_after_loss(old(self)@),
    {
        let _ = take_first(&mut self.winning_beats);
        let mut losing = if self.losing_beats.len() == 0 {
            let mut over: Vec<StoryBeatType> = Vec::new();
            over.push(StoryBeatType::GameOver(false));
            assert(beat_views(over@) =~= seq![StoryBeatTypeView::GameOver(false)]);
            over
        } else {
            take_first(&mut self.losing_beats)
        };
        let ghost first_part = beat_views(losing@);
        let mut agnostic = take_first(&mut self.agnostic_beats);
        let ghost second_part = beat_views(agnostic@);
        losing.append(&mut agnostic);
        assert(beat_views(losing@) =~= first_part + second_part);
        losing
    }
}

/// What the player is owed between two battles: the mana gained, the
/// lines still to be told, and whether the game is over.
#[derive(Debug, PartialEq, Eq)]
pub struct StoryBeat {
    pub mana_gained: i32,
    pub narration: Vec<String>,
    pub victory: bool,
    pub defeat: bool,
}

/// A story beat as a plain value.
pub struct StoryBeatView {
    pub mana_gained: i32,
    pub narration: Seq<Seq<char>>,
    pub victory: bool,
    pub defeat: bool,
}

impl View for StoryBeat {
    type V = StoryBeatView;

    open spec fn view(&self) -> StoryBeatView {
        StoryBeatView {
            mana_gained: self.mana_gained,
            narration: texts(self.narration@),
            victory: self.victory,
            defeat: self.defeat,
        }
    }
}

/// The lines that open the game.
pub open spec fn opening_lines() -> Seq<Seq<char>> {
    seq![
        "Welcome to Summoner's Chess!\nSave the town and help reclaim the land with your magic!"@,
        "You've already selected your first summon, which you can see to the right"@,
        "You can click on the summon or press the hotkey to select it"@,
        "Then click on the board or press the hotkey to place it"@,
        "When you have finished placing your summons, press Enter to start the battle"@,
        "When the battle starts, enemies will spawn on the opposite side of the board"@,
        "Your creatures have it from there, Summoner! When the battle is done, maybe you'll have learned a few things..."@,
    ]
}

/// What one beat adds to what the player is owed.
pub open spec fn with_beat(beat: StoryBeatView, next: StoryBeatTypeView) -> StoryBeatView {
    match next {
        StoryBeatTypeView::GainMana(mana) => StoryBeatView {
            mana_gained: (beat.mana_gained + mana) as i32,
            ..beat
        },
        StoryBeatTypeView::Narration(narration) => StoryBeatView {
            narration: beat.narration.push(narration),
            ..beat
        },
        StoryBeatTypeView::GameOver(victory) => StoryBeatView { victory, defeat: !victory, ..beat },
    }
}

/// What a list of beats, taken in order, adds to what the player is owed.
pub open spec fn with_beats(beat: StoryBeatView, beats: Seq<StoryBeatTypeView>) -> StoryBeatView
    decreases beats.len(),
{
    if beats.len() == 0 {
        beat
    } else {
        with_beat(with_beats(beat, beats.drop_last()), beats.last())
    }
}

/// Whether the mana gained stays within an `i32` after each of `beats`.
pub open spec fn beats_fit(beat: StoryBeatView, beats: Seq<StoryBeatTypeView>) -> bool {
    forall|k: int|
        0 <= k < beats.len() ==> match #[trigger] beats[k] {
            StoryBeatTypeView::GainMana(mana) => fits_i32(
                with_beats(beat, beats.take(k)).mana_gained + mana,
            ),
            _ => true,
        }
}

impl Default for StoryBeat {
    fn default() -> (beat: StoryBeat)
        ensures
            beat@ == (StoryBeatView {
                mana_gained: 0,
                narration: opening_lines(),
                victory: false,
                defeat: false,
            }),
    {
        let mut narration: Vec<String> = Vec::new();
        narration.push(
            String::from_str(
                "Welcome to Summoner's Chess!\nSave the town and help reclaim the land with your magic!",
            ),
        );
        narration.push(
            String::from_str(
                "You've already selected your first summon, which you can see to the right",
            ),
        );
        narration.push(
            String::from_str("You can click on the summon or press the hotkey to select it"),
        );
        narration.push(String::from_str("Then click on the board or press the hotkey to place it"));
        narration.push(
            String::from_str(
                "When you have finished placing your summons, press Enter to start the battle",
            ),
        );
        narration.push(
            String::from_str(
                "When the battle starts, enemies will spawn on the opposite side of the board",
            ),
        );
        narration.push(
            String::from_str(
                "Your creatures have it from there, Summoner! When the battle is done, maybe you'll have learned a few things...",
            ),
        );
        assert(texts(narration@) =~= opening_lines());
        StoryBeat { mana_gained: 0, narration, victory: false, defeat: false }
    }
}

impl StoryBeat {
    /// Forgets the mana gained and the lines still to be told.
    pub fn reset(&mut self)
        ensures
            final(self)@ == (StoryBeatView {
                mana_gained: 0,
                narration: Seq::empty(),
                ..old(self)@
            }),
    {
        self.mana_gained = 0;
        self.narration.clear();
        assert(texts(self.narration@) =~= Seq::empty());
    }

    /// Whether [`StoryBeat::apply`] may be called with `beats`: the mana
    /// gained stays within an `i32` after each of them.
    pub fn can_apply(&self, beats: &Vec<StoryBeatType>) -> (fits: bool)
        ensures
            fits == beats_fit(self@, beat_views(beats@)),
    {
        let ghost all = beat_views(beats@);
        let mut gained: i32 = self.mana_gained;
        let mut i: usize = 0;
        assert(all.take(0) =~= Seq::empty());
        while i < beats.len()
            invariant
                i <= beats.len(),
                all == beat_views(beats@),
                gained == with_beats(self@, all.take(i as int)).mana_gained,
                forall|k: int|
                    0 <= k < i ==> match #[trigger] all[k] {
                        StoryBeatTypeView::GainMana(mana) => fits_i32(
                            with_beats(self@, all.take(k)).mana_gained + mana,
                        ),
                        _ => true,
                    },
            decreases beats.len() - i,
        {
            assert(all.take(i + 1).drop_last() =~= all.take(i as int));
            assert(all.take(i + 1).last() == all[i as int]);
            assert(all[i as int] == beats@[i as int]@);
            match &beats[i] {
                StoryBeatType::GainMana(mana) => {
                    match gained.checked_add(*mana) {
                        Some(sum) => {
                            gained = sum;
                        },
                        None => {
                            assert(all[i as int] == StoryBeatTypeView::GainMana(*mana));
                            return false;
                        },
                    }
                },
                _ => {},
            }
            i += 1;
        }
        true
    }

    /// Takes `beats` in order: mana is added up, lines are queued, and the
    /// end of the game is recorded as victory or defeat.
    pub fn apply(&mut self, beats: Vec<StoryBeatType>)
        requires
            beats_fit(old(self)@, beat_views(beats@)),
        ensures
            final(self)@ == with_beats(old(self)@, beat_views(beats@)),
    {
        let ghost before = self@;
        let ghost all = beat_views(beats@);
        let mut i: usize = 0;
        assert(all.take(0) =~= Seq::empty());
        while i < beats.len()
            invariant
                i <= beats.len(),
                all == beat_views(beats@),
                before == old(self)@,
                beats_fit(before, all),
                self@ == with_beats(before, all.take(i as int)),
            decreases beats.len() - i,
        {
            assert(all.take(i + 1).drop_last() =~= all.take(i as int));
            assert(all.take(i + 1).last() == all[i as int]);
            assert(all[i as int] == beats@[i as int]@);
            let ghost so_far = self@;
            match &beats[i] {
                StoryBeatType::GainMana(mana) => {
                    self.mana_gained = self.mana_gained + *mana;
                },
                StoryBeatType::Narration(narration) => {
                    self.narration.push(narration.clone());
                    assert(texts(self.narration@) =~= so_far.narration.push(narration@));
                },
                StoryBeatType::GameOver(victory) => {
                    self.victory = *victory;
                    self.defeat = !*victory;
                },
            }
            i += 1;
        }
        assert(all.take(i as int) =~= all);
    }

    /// How the game has ended, if it has: `true` for victory, `false` for
    /// defeat. Victory counts where both are recorded.
    pub fn ending(&self) -> (won: Option<bool>)
        ensures
            won == if self@.victory {
                Some(true)
            } else if self@.defeat {
                Some(false)
            } else {
                None
            },
    {
        if self.victory {
            Some(true)
        } else if self.defeat {
            Some(false)
        } else {
            None
        }
    }

    /// Whether a line is still to be told.
    pub fn narrating(&self) -> (telling: bool)
        ensures
            telling == (self@.narration.len() > 0),
    {
        self.narration.len() > 0
    }

    /// The line to tell now: the first of those still to be told.
    pub fn get_active_narration(&self) -> (line: Option<&String>)
        ensures
            line is Some <==> self@.narration.len() > 0,
            line is Some ==> line->0@ == self@.narration[0],
    {
        if self.narration.len() > 0 {
            Some(&self.narration[0])
        } else {
            None
        }
    }

    /// Drops the line that was just told.
    pub fn advance_narration(&mut self)
        requires
            old(self)@.narration.len() > 0,
        ensures
            final(self)@ == (StoryBeatView {
                narration: old(self)@.narration.drop_first(),
                ..old(self)@
            }),
    {
        let _ = self.narration.remove(0);
        assert(texts(self.narration@) =~= old(self)@.narration.drop_first());
    }
}

} // verus!
