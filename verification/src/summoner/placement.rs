//! Where summons are placed on the board, and what they cost.

use crate::battle::stats::fits_i32;
use crate::chance::pick_one;
use crate::geometry::BOARD_SIZE;
use crate::summons::{SummonType, SummonTypeView};
use crate::tables::{
    cost_table_clone, cost_table_contents, cost_table_get, cost_table_insert, cost_table_new,
    cost_table_remove,
    spawn_table_any_cell, spawn_table_clone, spawn_table_contains, spawn_table_contents,
    spawn_table_entries, spawn_table_insert, spawn_table_len, spawn_table_new, spawn_table_remove,
    CostTable, SpawnTable,
};
use vstd::prelude::*;

verus! {

/// The first row, counted from 0, on which a summon that was off the
/// board is put back.
pub const FIRST_RETURN_ROW: usize = 3;

/// An army laid out on the board: the name of the summon on each cell, the
/// mana spent on the army, and the cost recorded for each cell.
pub struct SummonedMinions {
    pub spawn_locations: SpawnTable,
    pub mana: i32,
    pub mana_locations: CostTable,
}

/// An army as a plain value.
pub struct SummonedMinionsView {
    pub spawn_locations: Map<(usize, usize), Seq<char>>,
    pub mana: i32,
    pub mana_locations: Map<(usize, usize), i32>,
}

impl View for SummonedMinions {
    type V = SummonedMinionsView;

    open spec fn view(&self) -> SummonedMinionsView {
        SummonedMinionsView {
            spawn_locations: spawn_table_contents(self.spawn_locations),
            mana: self.mana,
            mana_locations: cost_table_contents(self.mana_locations),
        }
    }
}

/// Whether `cell` is a cell of the board.
pub open spec fn on_board(cell: (usize, usize)) -> bool {
    cell.0 < BOARD_SIZE && cell.1 < BOARD_SIZE
}

/// The cell that `cell` turns into when the board is turned half round.
pub open spec fn flipped(cell: (usize, usize)) -> (usize, usize) {
    ((BOARD_SIZE - 1 - cell.0) as usize, (BOARD_SIZE - 1 - cell.1) as usize)
}

/// The layout that `spawns` turns into when the board is turned half
/// round.
pub open spec fn mirrored(spawns: Map<(usize, usize), Seq<char>>) -> Map<(usize, usize), Seq<char>> {
    Map::new(
        |cell: (usize, usize)| on_board(cell) && spawns.contains_key(flipped(cell)),
        |cell: (usize, usize)| spawns[flipped(cell)],
    )
}

/// The short code of the last summon of `summons` called `name`.
pub open spec fn code_of(summons: Seq<SummonTypeView>, name: Seq<char>) -> Option<Seq<char>>
    decreases summons.len(),
{
    if summons.len() == 0 {
        None
    } else if summons.last().summon_name == name {
        Some(summons.last().short_code)
    } else {
        code_of(summons.drop_last(), name)
    }
}

/// The name of the last summon of `summons` whose short code is `code`.
pub open spec fn name_of(summons: Seq<SummonTypeView>, code: Seq<char>) -> Option<Seq<char>>
    decreases summons.len(),
{
    if summons.len() == 0 {
        None
    } else if summons.last().short_code == code {
        Some(summons.last().summon_name)
    } else {
        name_of(summons.drop_last(), code)
    }
}

/// The views of a list of kinds of summon.
pub open spec fn summon_views(summons: Seq<SummonType>) -> Seq<SummonTypeView> {
    summons.map_values(|summon: SummonType| summon@)
}

/// The layout with each name replaced by its short code; a cell whose
/// name no summon of `summons` has is left out.
pub open spec fn compressed(spawns: Map<(usize, usize), Seq<char>>, summons: Seq<SummonTypeView>) -> Map<
    (usize, usize),
    Seq<char>,
> {
    Map::new(
        |cell: (usize, usize)| spawns.contains_key(cell) && code_of(summons, spawns[cell]) is Some,
        |cell: (usize, usize)| code_of(summons, spawns[cell])->0,
    )
}

/// The layout with each short code replaced by its name; a cell whose
/// code no summon of `summons` has is left out.
pub open spec fn expanded(spawns: Map<(usize, usize), Seq<char>>, summons: Seq<SummonTypeView>) -> Map<
    (usize, usize),
    Seq<char>,
> {
    Map::new(
        |cell: (usize, usize)| spawns.contains_key(cell) && name_of(summons, spawns[cell]) is Some,
        |cell: (usize, usize)| name_of(summons, spawns[cell])->0,
    )
}

/// What holds of a layout `after` that was made from `before` by bringing
/// every summon onto the board: every cell is on the board; a summon that
/// was on the board is where it was; and any other summon is one that was
/// off the board, now on a row from [`FIRST_RETURN_ROW`] on.
pub open spec fn normalized(
    before: Map<(usize, usize), Seq<char>>,
    after: Map<(usize, usize), Seq<char>>,
) -> bool {
    &&& forall|cell: (usize, usize)| after.contains_key(cell) ==> on_board(cell)
    &&& forall|cell: (usize, usize)|
        before.contains_key(cell) && on_board(cell) ==> after.contains_key(cell) && after[cell]
            == before[cell]
    &&& forall|cell: (usize, usize)|
        after.contains_key(cell) && !before.contains_key(cell) ==> cell.1 >= FIRST_RETURN_ROW
            && exists|from: (usize, usize)|
            before.contains_key(from) && !on_board(from) && before[from] == after[cell]
}

/// The layout that a list of entries makes when they are put on the board
/// one after another, a later one replacing an earlier one on its cell.
pub open spec fn laid_out(entries: Seq<((usize, usize), String)>) -> Map<(usize, usize), Seq<char>>
    decreases entries.len(),
{
    if entries.len() == 0 {
        Map::empty()
    } else {
        laid_out(entries.drop_last()).insert(entries.last().0, entries.last().1@)
    }
}

fn find_code(summons: &Vec<SummonType>, name: &String) -> (code: Option<String>)
    ensures
        code is Some == code_of(summon_views(summons@), name@) is Some,
        code is Some ==> code->0@ == code_of(summon_views(summons@), name@)->0,
{
    let ghost all = summon_views(summons@);
    let mut i: usize = summons.len();
    assert(all.take(i as int) =~= all);
    while i > 0
        invariant
            i <= summons.len(),
            all == summon_views(summons@),
            code_of(all, name@) == code_of(all.take(i as int), name@),
        decreases i,
    {
        assert(all.take(i as int).drop_last() =~= all.take(i - 1));
        assert(all.take(i as int).last() == summons@[i - 1]@);
        if summons[i - 1].summon_name == *name {
            return Some(summons[i - 1].short_code.clone());
        }
        i -= 1;
    }
    assert(all.take(0) =~= Seq::empty());
    None
}

fn find_name(summons: &Vec<SummonType>, code: &String) -> (name: Option<String>)
    ensures
        name is Some == name_of(summon_views(summons@), code@) is Some,
        name is Some ==> name->0@ == name_of(summon_views(summons@), code@)->0,
{
    let ghost all = summon_views(summons@);
    let mut i: usize = summons.len();
    assert(all.take(i as int) =~= all);
    while i > 0
        invariant
            i <= summons.len(),
            all == summon_views(summons@),
            name_of(all, code@) == name_of(all.take(i as int), code@),
        decreases i,
    {
        assert(all.take(i as int).drop_last() =~= all.take(i - 1));
        assert(all.take(i as int).last() == summons@[i - 1]@);
        if summons[i - 1].short_code == *code {
            return Some(summons[i - 1].summon_name.clone());
        }
        i -= 1;
    }
    assert(all.take(0) =~= Seq::empty());
    None
}

/// The cells of the rows from [`FIRST_RETURN_ROW`] on that `spawns` leaves
/// free.
fn free_return_cells(spawns: &SpawnTable) -> (free: Vec<(usize, usize)>)
    ensures
        free@ == free_among(spawn_table_contents(*spawns), RETURN_CELLS as int),
        forall|k: int|
            0 <= k < free@.len() ==> on_board(#[trigger] free@[k]) && free@[k].1 >= FIRST_RETURN_ROW
                && !spawn_table_contents(*spawns).contains_key(free@[k]),
        forall|cell: (usize, usize)|
            on_board(cell) && cell.1 >= FIRST_RETURN_ROW && !spawn_table_contents(
                *spawns,
            ).contains_key(cell) ==> free@.contains(cell),
{
    let ghost taken = spawn_table_contents(*spawns);
    let mut free: Vec<(usize, usize)> = Vec::new();
    let mut x: usize = 0;
    while x < BOARD_SIZE
        invariant
            x <= BOARD_SIZE,
            taken == spawn_table_contents(*spawns),
            free@ == free_among(taken, x * RETURN_ROWS),
        decreases BOARD_SIZE - x,
    {
        let mut y: usize = FIRST_RETURN_ROW;
        while y < BOARD_SIZE
            invariant
                x < BOARD_SIZE,
                FIRST_RETURN_ROW <= y <= BOARD_SIZE,
                taken == spawn_table_contents(*spawns),
                free@ == free_among(taken, x * RETURN_ROWS + (y - FIRST_RETURN_ROW)),
            decreases BOARD_SIZE - y,
        {
            assert(return_cell(x * RETURN_ROWS + (y - FIRST_RETURN_ROW)) == (x, y));
            if !spawn_table_contains(spawns, (x, y)) {
                free.push((x, y));
            }
            y += 1;
        }
        x += 1;
    }
    proof {
        lemma_free_among(taken, RETURN_CELLS as int);
        assert forall|cell: (usize, usize)|
            on_board(cell) && cell.1 >= FIRST_RETURN_ROW && !taken.contains_key(
                cell,
            ) implies free@.contains(cell) by {
            let n = cell.0 * RETURN_ROWS + (cell.1 - FIRST_RETURN_ROW);
            assert(return_cell(n) == cell);
        }
    }
    free
}

/// The number of rows from [`FIRST_RETURN_ROW`] on.
pub const RETURN_ROWS: usize = 5;

/// The number of cells on the rows from [`FIRST_RETURN_ROW`] on.
pub const RETURN_CELLS: usize = 40;

/// The cell with number `n` among the cells of the rows from
/// [`FIRST_RETURN_ROW`] on, counted column by column from column 0, and in
/// each column row by row.
pub open spec fn return_cell(n: int) -> (usize, usize) {
    ((n / RETURN_ROWS as int) as usize, (FIRST_RETURN_ROW + n % RETURN_ROWS as int) as usize)
}

/// Those of the first `count` cells of the rows from [`FIRST_RETURN_ROW`]
/// on that `spawns` leaves free, in the order of their numbers.
pub open spec fn free_among(spawns: Map<(usize, usize), Seq<char>>, count: int) -> Seq<
    (usize, usize),
>
    decreases count,
{
    if count <= 0 {
        Seq::empty()
    } else if spawns.contains_key(return_cell(count - 1)) {
        free_among(spawns, count - 1)
    } else {
        free_among(spawns, count - 1).push(return_cell(count - 1))
    }
}

/// [`free_among`] lists free cells of the rows from [`FIRST_RETURN_ROW`]
/// on, and every free one among the first `count`.
pub proof fn lemma_free_among(spawns: Map<(usize, usize), Seq<char>>, count: int)
    requires
        0 <= count <= RETURN_CELLS,
    ensures
        forall|k: int|
            0 <= k < free_among(spawns, count).len() ==> on_board(
                #[trigger] free_among(spawns, count)[k],
            ) && free_among(spawns, count)[k].1 >= FIRST_RETURN_ROW && !spawns.contains_key(
                free_among(spawns, count)[k],
            ),
        forall|n: int|
            0 <= n < count && !spawns.contains_key(#[trigger] return_cell(n)) ==> free_among(
                spawns,
                count,
            ).contains(return_cell(n)),
    decreases count,
{
    if count > 0 {
        lemma_free_among(spawns, count - 1);
        let before = free_among(spawns, count - 1);
        let now = free_among(spawns, count);
        assert forall|n: int|
            0 <= n < count && !spawns.contains_key(#[trigger] return_cell(n)) implies now.contains(
            return_cell(n),
        ) by {
            if n < count - 1 {
                let k = choose|k: int| 0 <= k < before.len() && before[k] == return_cell(n);
                assert(now[k] == return_cell(n));
            } else {
                assert(now[now.len() - 1] == return_cell(n));
            }
        }
    }
}

impl Default for SummonedMinions {
    fn default() -> (army: SummonedMinions)
        ensures
            army@ == (SummonedMinionsView {
                spawn_locations: Map::empty(),
                mana: 0,
                mana_locations: Map::empty(),
            }),
    {
        SummonedMinions {
            spawn_locations: spawn_table_new(),
            mana: 0,
            mana_locations: cost_table_new(),
        }
    }
}

impl Clone for SummonedMinions {
    fn clone(&self) -> (copy: SummonedMinions)
        ensures
            copy@ == self@,
    {
        SummonedMinions {
            spawn_locations: spawn_table_clone(&self.spawn_locations),
            mana: self.mana,
            mana_locations: cost_table_clone(&self.mana_locations),
        }
    }
}

impl SummonedMinions {
    /// The army that has the summons of `entries` on the board, a later
    /// entry replacing an earlier one on its cell, with `mana` spent and no
    /// cost recorded.
    pub fn from_entries(entries: &Vec<((usize, usize), String)>, mana: i32) -> (army:
        SummonedMinions)
        ensures
            army@ == (SummonedMinionsView {
                spawn_locations: laid_out(entries@),
                mana,
                mana_locations: Map::empty(),
            }),
    {
        let mut spawns = spawn_table_new();
        let mut i: usize = 0;
        assert(entries@.take(0) =~= Seq::empty());
        while i < entries.len()
            invariant
                i <= entries.len(),
                spawn_table_contents(spawns) == laid_out(entries@.take(i as int)),
            decreases entries.len() - i,
        {
            assert(entries@.take(i + 1).drop_last() =~= entries@.take(i as int));
            let _ = spawn_table_insert(&mut spawns, entries[i].0, entries[i].1.clone());
            i += 1;
        }
        assert(entries@.take(i as int) =~= entries@);
        SummonedMinions { spawn_locations: spawns, mana, mana_locations: cost_table_new() }
    }

    /// Brings every summon onto the board. A summon on the board stays;
    /// one off the board is put on a free cell of the rows from
    /// [`FIRST_RETURN_ROW`] on, picked at random, and is left out when no
    /// such cell is free. A summon that was put back gives way to one that
    /// was on its cell before.
    pub fn normalize(&mut self)
        ensures
            normalized(old(self)@.spawn_locations, final(self)@.spawn_locations),
            final(self)@.mana == old(self)@.mana,
            final(self)@.mana_locations == old(self)@.mana_locations,
    {
        let ghost before = self@.spawn_locations;
        let entries = spawn_table_entries(&self.spawn_locations);
        let mut placed = spawn_table_new();
        let mut i: usize = 0;
        while i < entries.len()
            invariant
                i <= entries.len(),
                before == old(self)@.spawn_locations,
                *self == *old(self),
                forall|k: int|
                    0 <= k < entries@.len() ==> before.contains_key((#[trigger] entries@[k]).0)
                        && before[entries@[k].0] == entries@[k].1@,
                forall|k: int, l: int|
                    0 <= k < l < entries@.len() ==> (#[trigger] entries@[k]).0 != (
                    #[trigger] entries@[l]).0,
                forall|cell: (usize, usize)|
                    spawn_table_contents(placed).contains_key(cell) ==> on_board(cell),
                forall|k: int|
                    0 <= k < i && on_board((#[trigger] entries@[k]).0) ==> spawn_table_contents(
                        placed,
                    ).contains_key(entries@[k].0) && spawn_table_contents(placed)[entries@[k].0]
                        == entries@[k].1@,
                forall|cell: (usize, usize)|
                    spawn_table_contents(placed).contains_key(cell) && !before.contains_key(cell)
                        ==> cell.1 >= FIRST_RETURN_ROW && exists|k: int|
                        0 <= k < i && !on_board((#[trigger] entries@[k]).0) && entries@[k].1@
                            == spawn_table_contents(placed)[cell],
            decreases entries.len() - i,
        {
            let cell = entries[i].0;
            let ghost so_far = spawn_table_contents(placed);
            if cell.0 >= BOARD_SIZE || cell.1 >= BOARD_SIZE {
                let free = free_return_cells(&placed);
                match pick_one(&free) {
                    Some(target) => {
                        let target = *target;
                        let _ = spawn_table_insert(&mut placed, target, entries[i].1.clone());
                        assert forall|other: (usize, usize)|
                            spawn_table_contents(placed).contains_key(other) && !before.contains_key(
                                other,
                            ) implies other.1 >= FIRST_RETURN_ROW && exists|k: int|
                            0 <= k < i + 1 && !on_board((#[trigger] entries@[k]).0) && entries@[k].1@
                                == spawn_table_contents(placed)[other] by {
                            if other == target {
                                assert(!on_board(entries@[i as int].0));
                            } else {
                                assert(so_far.contains_key(other));
                                let k = choose|k: int|
                                    0 <= k < i && !on_board((#[trigger] entries@[k]).0)
                                        && entries@[k].1@ == so_far[other];
                                assert(!on_board(entries@[k].0));
                            }
                        }
                    },
                    None => {},
                }
            } else {
                let _ = spawn_table_insert(&mut placed, cell, entries[i].1.clone());
                assert forall|other: (usize, usize)|
                    spawn_table_contents(placed).contains_key(other) && !before.contains_key(
                        other,
                    ) implies other.1 >= FIRST_RETURN_ROW && exists|k: int|
                    0 <= k < i + 1 && !on_board((#[trigger] entries@[k]).0) && entries@[k].1@
                        == spawn_table_contents(placed)[other] by {
                    assert(before.contains_key(entries@[i as int].0));
                    assert(so_far.contains_key(other));
                    let k = choose|k: int|
                        0 <= k < i && !on_board((#[trigger] entries@[k]).0) && entries@[k].1@
                            == so_far[other];
                    assert(!on_board(entries@[k].0));
                }
            }
            i += 1;
        }
        proof {
            let after = spawn_table_contents(placed);
            assert forall|cell: (usize, usize)|
                before.contains_key(cell) && on_board(cell) implies after.contains_key(cell)
                && after[cell] == before[cell] by {
                let k = choose|k: int| 0 <= k < entries@.len() && (#[trigger] entries@[k]).0 == cell;
                assert(on_board(entries@[k].0));
            }
            assert forall|cell: (usize, usize)|
                after.contains_key(cell) && !before.contains_key(cell) implies cell.1
                >= FIRST_RETURN_ROW && exists|from: (usize, usize)|
                before.contains_key(from) && !on_board(from) && before[from] == after[cell] by {
                let k = choose|k: int|
                    0 <= k < i && !on_board((#[trigger] entries@[k]).0) && entries@[k].1@
                        == after[cell];
                assert(before.contains_key(entries@[k].0));
            }
        }
        self.spawn_locations = placed;
    }

    /// The army as seen from the other side of the board: each summon on
    /// the cell that its own turns into when the board is turned half
    /// round. The mana and the recorded costs are kept as they are.
    pub fn mirror(&self) -> (turned: SummonedMinions)
        requires
            forall|cell: (usize, usize)| self@.spawn_locations.contains_key(cell) ==> on_board(cell),
        ensures
            turned@ == (SummonedMinionsView {
                spawn_locations: mirrored(self@.spawn_locations),
                ..self@
            }),
    {
        let ghost before = self@.spawn_locations;
        let entries = spawn_table_entries(&self.spawn_locations);
        let mut placed = spawn_table_new();
        let mut i: usize = 0;
        while i < entries.len()
            invariant
                i <= entries.len(),
                before == self@.spawn_locations,
                forall|cell: (usize, usize)| before.contains_key(cell) ==> on_board(cell),
                forall|k: int|
                    0 <= k < entries@.len() ==> before.contains_key((#[trigger] entries@[k]).0)
                        && before[entries@[k].0] == entries@[k].1@,
                forall|k: int, l: int|
                    0 <= k < l < entries@.len() ==> (#[trigger] entries@[k]).0 != (
                    #[trigger] entries@[l]).0,
                forall|k: int|
                    0 <= k < i ==> spawn_table_contents(placed).contains_key(
                        flipped((#[trigger] entries@[k]).0),
                    ) && spawn_table_contents(placed)[flipped(entries@[k].0)] == entries@[k].1@,
                forall|cell: (usize, usize)|
                    spawn_table_contents(placed).contains_key(cell) ==> exists|k: int|
                        0 <= k < i && flipped((#[trigger] entries@[k]).0) == cell,
            decreases entries.len() - i,
        {
            let cell = entries[i].0;
            assert(on_board(cell));
            let ghost so_far = spawn_table_contents(placed);
            let target = (BOARD_SIZE - 1 - cell.0, BOARD_SIZE - 1 - cell.1);
            let _ = spawn_table_insert(&mut placed, target, entries[i].1.clone());
            assert forall|k: int| 0 <= k < i + 1 implies spawn_table_contents(placed).contains_key(
                flipped((#[trigger] entries@[k]).0),
            ) && spawn_table_contents(placed)[flipped(entries@[k].0)] == entries@[k].1@ by {
                if k < i {
                    assert(on_board(entries@[k].0));
                    assert(entries@[k].0 != entries@[i as int].0);
                    assert(flipped(entries@[k].0) != target);
                }
            }
            assert forall|other: (usize, usize)|
                spawn_table_contents(placed).contains_key(other) implies exists|k: int|
                0 <= k < i + 1 && flipped((#[trigger] entries@[k]).0) == other by {
                if other == target {
                    assert(flipped(entries@[i as int].0) == other);
                } else {
                    assert(so_far.contains_key(other));
                    let k = choose|k: int| 0 <= k < i && flipped((#[trigger] entries@[k]).0) == other;
                    assert(flipped(entries@[k].0) == other);
                }
            }
            i += 1;
        }
        proof {
            let after = spawn_table_contents(placed);
            let wanted = mirrored(before);
            assert forall|cell: (usize, usize)| wanted.contains_key(cell) implies after.contains_key(
                cell,
            ) && after[cell] == wanted[cell] by {
                let from = flipped(cell);
                let k = choose|k: int| 0 <= k < entries@.len() && (#[trigger] entries@[k]).0 == from;
                assert(flipped(entries@[k].0) == cell);
            }
            assert forall|cell: (usize, usize)| after.contains_key(cell) implies wanted.contains_key(
                cell,
            ) by {
                let k = choose|k: int| 0 <= k < i && flipped((#[trigger] entries@[k]).0) == cell;
                assert(on_board(entries@[k].0));
                assert(flipped(cell) == entries@[k].0);
            }
            assert(after =~= wanted);
        }
        SummonedMinions {
            spawn_locations: placed,
            mana: self.mana,
            mana_locations: cost_table_clone(&self.mana_locations),
        }
    }

    /// Replaces the name on each cell by the short code of the summon of
    /// `player_summons` that has the name, the last one if several have
    /// it, and forgets the recorded costs. A cell whose name no summon has
    /// is left out.
    pub fn compress(&mut self, player_summons: &Vec<SummonType>)
        ensures
            final(self)@ == (SummonedMinionsView {
                spawn_locations: compressed(
                    old(self)@.spawn_locations,
                    summon_views(player_summons@),
                ),
                mana: old(self)@.mana,
                mana_locations: Map::empty(),
            }),
    {
        let ghost before = self@.spawn_locations;
        let ghost summons = summon_views(player_summons@);
        let entries = spawn_table_entries(&self.spawn_locations);
        let mut placed = spawn_table_new();
        let mut i: usize = 0;
        while i < entries.len()
            invariant
                i <= entries.len(),
                summons == summon_views(player_summons@),
                forall|k: int|
                    0 <= k < entries@.len() ==> before.contains_key((#[trigger] entries@[k]).0)
                        && before[entries@[k].0] == entries@[k].1@,
                forall|k: int, l: int|
                    0 <= k < l < entries@.len() ==> (#[trigger] entries@[k]).0 != (
                    #[trigger] entries@[l]).0,
                forall|k: int|
                    0 <= k < i && code_of(summons, (#[trigger] entries@[k]).1@) is Some
                        ==> spawn_table_contents(placed).contains_key(entries@[k].0)
                        && spawn_table_contents(placed)[entries@[k].0] == code_of(
                        summons,
                        entries@[k].1@,
                    )->0,
                forall|cell: (usize, usize)|
                    spawn_table_contents(placed).contains_key(cell) ==> exists|k: int|
                        0 <= k < i && (#[trigger] entries@[k]).0 == cell && code_of(
                            summons,
                            entries@[k].1@,
                        ) is Some,
            decreases entries.len() - i,
        {
            let ghost so_far = spawn_table_contents(placed);
            match find_code(player_summons, &entries[i].1) {
                Some(code) => {
                    let _ = spawn_table_insert(&mut placed, entries[i].0, code);
                    assert forall|other: (usize, usize)|
                        spawn_table_contents(placed).contains_key(other) implies exists|k: int|
                        0 <= k < i + 1 && (#[trigger] entries@[k]).0 == other && code_of(
                            summons,
                            entries@[k].1@,
                        ) is Some by {
                        if other == entries@[i as int].0 {
                        } else {
                            assert(so_far.contains_key(other));
                            let k = choose|k: int|
                                0 <= k < i && (#[trigger] entries@[k]).0 == other && code_of(
                                    summons,
                                    entries@[k].1@,
                                ) is Some;
                            assert(entries@[k].0 == other);
                        }
                    }
                },
                None => {},
            }
            i += 1;
        }
        proof {
            let after = spawn_table_contents(placed);
            let wanted = compressed(before, summons);
            assert forall|cell: (usize, usize)| wanted.contains_key(cell) implies after.contains_key(
                cell,
            ) && after[cell] == wanted[cell] by {
                let k = choose|k: int| 0 <= k < entries@.len() && (#[trigger] entries@[k]).0 == cell;
                assert(entries@[k].1@ == before[cell]);
            }
            assert forall|cell: (usize, usize)| after.contains_key(cell) implies wanted.contains_key(
                cell,
            ) by {
                let k = choose|k: int|
                    0 <= k < i && (#[trigger] entries@[k]).0 == cell && code_of(
                        summons,
                        entries@[k].1@,
                    ) is Some;
                assert(entries@[k].1@ == before[cell]);
            }
            assert(after =~= wanted);
        }
        self.spawn_locations = placed;
        self.mana_locations = cost_table_new();
    }

    /// Replaces the short code on each cell by the name of the summon of
    /// `player_summons` that has the code, the last one if several have
    /// it. A cell whose code no summon has is left out.
    pub fn expand(&mut self, player_summons: &Vec<SummonType>)
        ensures
            final(self)@ == (SummonedMinionsView {
                spawn_locations: expanded(old(self)@.spawn_locations, summon_views(player_summons@)),
                ..old(self)@
            }),
    {
        let ghost before = self@.spawn_locations;
        let ghost summons = summon_views(player_summons@);
        let entries = spawn_table_entries(&self.spawn_locations);
        let mut placed = spawn_table_new();
        let mut i: usize = 0;
        while i < entries.len()
            invariant
                i <= entries.len(),
                summons == summon_views(player_summons@),
                *self == *old(self),
                forall|k: int|
                    0 <= k < entries@.len() ==> before.contains_key((#[trigger] entries@[k]).0)
                        && before[entries@[k].0] == entries@[k].1@,
                forall|k: int, l: int|
                    0 <= k < l < entries@.len() ==> (#[trigger] entries@[k]).0 != (
                    #[trigger] entries@[l]).0,
                forall|k: int|
                    0 <= k < i && name_of(summons, (#[trigger] entries@[k]).1@) is Some
                        ==> spawn_table_contents(placed).contains_key(entries@[k].0)
                        && spawn_table_contents(placed)[entries@[k].0] == name_of(
                        summons,
                        entries@[k].1@,
                    )->0,
                forall|cell: (usize, usize)|
                    spawn_table_contents(placed).contains_key(cell) ==> exists|k: int|
                        0 <= k < i && (#[trigger] entries@[k]).0 == cell && name_of(
                            summons,
                            entries@[k].1@,
                        ) is Some,
            decreases entries.len() - i,
        {
            let ghost so_far = spawn_table_contents(placed);
            match find_name(player_summons, &entries[i].1) {
                Some(name) => {
                    let _ = spawn_table_insert(&mut placed, entries[i].0, name);
                    assert forall|other: (usize, usize)|
                        spawn_table_contents(placed).contains_key(other) implies exists|k: int|
                        0 <= k < i + 1 && (#[trigger] entries@[k]).0 == other && name_of(
                            summons,
                            entries@[k].1@,
                        ) is Some by {
                        if other == entries@[i as int].0 {
                        } else {
                            assert(so_far.contains_key(other));
                            let k = choose|k: int|
                                0 <= k < i && (#[trigger] entries@[k]).0 == other && name_of(
                                    summons,
                                    entries@[k].1@,
                                ) is Some;
                            assert(entries@[k].0 == other);
                        }
                    }
                },
                None => {},
            }
            i += 1;
        }
        proof {
            let after = spawn_table_contents(placed);
            let wanted = expanded(before, summons);
            assert forall|cell: (usize, usize)| wanted.contains_key(cell) implies after.contains_key(
                cell,
            ) && after[cell] == wanted[cell] by {
                let k = choose|k: int| 0 <= k < entries@.len() && (#[trigger] entries@[k]).0 == cell;
                assert(entries@[k].1@ == before[cell]);
            }
            assert forall|cell: (usize, usize)| after.contains_key(cell) implies wanted.contains_key(
                cell,
            ) by {
                let k = choose|k: int|
                    0 <= k < i && (#[trigger] entries@[k]).0 == cell && name_of(
                        summons,
                        entries@[k].1@,
                    ) is Some;
                assert(entries@[k].1@ == before[cell]);
            }
            assert(after =~= wanted);
        }
        self.spawn_locations = placed;
    }

    /// Whether every summon stands on the board.
    pub fn fits_board(&self) -> (fits: bool)
        ensures
            fits == forall|cell: (usize, usize)|
                self@.spawn_locations.contains_key(cell) ==> on_board(cell),
    {
        let entries = spawn_table_entries(&self.spawn_locations);
        let mut i: usize = 0;
        while i < entries.len()
            invariant
                i <= entries.len(),
                forall|k: int|
                    0 <= k < entries@.len() ==> self@.spawn_locations.contains_key(
                        (#[trigger] entries@[k]).0,
                    ),
                forall|k: int| 0 <= k < i ==> on_board((#[trigger] entries@[k]).0),
            decreases entries.len() - i,
        {
            if entries[i].0.0 >= BOARD_SIZE || entries[i].0.1 >= BOARD_SIZE {
                assert(self@.spawn_locations.contains_key(entries@[i as int].0));
                assert(!on_board(entries@[i as int].0));
                return false;
            }
            i += 1;
        }
        assert forall|cell: (usize, usize)| self@.spawn_locations.contains_key(cell) implies on_board(
            cell,
        ) by {
            let k = choose|k: int| 0 <= k < entries@.len() && (#[trigger] entries@[k]).0 == cell;
            assert(on_board(entries@[k].0));
        }
        true
    }

    /// Whether a summon is placed on `(x, y)`.
    pub fn has_spawn_location(&self, x: usize, y: usize) -> (taken: bool)
        ensures
            taken == self@.spawn_locations.contains_key((x, y)),
    {
        spawn_table_contains(&self.spawn_locations, (x, y))
    }

    /// Every placed summon with its cell, each once, in no particular
    /// order.
    pub fn iter(&self) -> (entries: Vec<((usize, usize), String)>)
        ensures
            entries@.len() == self@.spawn_locations.len(),
            forall|i: int|
                0 <= i < entries@.len() ==> self@.spawn_locations.contains_key(
                    (#[trigger] entries@[i]).0,
                ) && self@.spawn_locations[entries@[i].0] == entries@[i].1@,
            forall|i: int, j: int|
                0 <= i < j < entries@.len() ==> (#[trigger] entries@[i]).0 != (
                #[trigger] entries@[j]).0,
            forall|cell: (usize, usize)|
                self@.spawn_locations.contains_key(cell) ==> exists|i: int|
                    0 <= i < entries@.len() && (#[trigger] entries@[i]).0 == cell,
    {
        spawn_table_entries(&self.spawn_locations)
    }

    /// The number of summons placed.
    pub fn summons(&self) -> (count: usize)
        ensures
            count == self@.spawn_locations.len(),
    {
        spawn_table_len(&self.spawn_locations)
    }

    /// Places `summon` on `(x, y)`, in place of what was there, and adds
    /// its cost to the mana spent.
    pub fn add_summon(&mut self, summon: SummonType, x: usize, y: usize)
        requires
            fits_i32(old(self)@.mana + summon@.mana_cost),
        ensures
            final(self)@ == (SummonedMinionsView {
                spawn_locations: old(self)@.spawn_locations.insert((x, y), summon@.summon_name),
                mana: (old(self)@.mana + summon@.mana_cost) as i32,
                mana_locations: old(self)@.mana_locations.insert((x, y), summon@.mana_cost),
            }),
    {
        self.mana = self.mana + summon.mana_cost();
        let _ = spawn_table_insert(&mut self.spawn_locations, (x, y), summon.summon_name.clone());
        cost_table_insert(&mut self.mana_locations, (x, y), summon.mana_cost());
    }

    /// Takes the summon on `(x, y)` and the cost recorded there off the
    /// board. Where both were there, the cost is taken off the mana spent
    /// and the result is `true`.
    pub fn remove_summon(&mut self, x: usize, y: usize) -> (removed: bool)
        requires
            old(self)@.spawn_locations.contains_key((x, y)) && old(self)@.mana_locations.contains_key(
                (x, y),
            ) ==> fits_i32(old(self)@.mana - old(self)@.mana_locations[(x, y)]),
        ensures
            removed == (old(self)@.spawn_locations.contains_key((x, y)) && old(
                self,
            )@.mana_locations.contains_key((x, y))),
            final(self)@ == (SummonedMinionsView {
                spawn_locations: old(self)@.spawn_locations.remove((x, y)),
                mana: if removed {
                    (old(self)@.mana - old(self)@.mana_locations[(x, y)]) as i32
                } else {
                    old(self)@.mana
                },
                mana_locations: old(self)@.mana_locations.remove((x, y)),
            }),
    {
        let name = spawn_table_remove(&mut self.spawn_locations, (x, y));
        let cost = cost_table_remove(&mut self.mana_locations, (x, y));
        match (name, cost) {
            (Some(_), Some(cost)) => {
                self.mana = self.mana - cost;
                true
            },
            _ => false,
        }
    }

    /// Takes some summon off the board, whichever the table hands out
    /// first, with the cost recorded on its cell, and gives its cell and
    /// name; `None` when no summon is placed. A cost that was recorded is
    /// taken off the mana spent.
    pub fn pop_summon(&mut self) -> (popped: Option<(usize, usize, String)>)
        requires
            forall|cell: (usize, usize)|
                old(self)@.spawn_locations.contains_key(cell) && old(
                    self,
                )@.mana_locations.contains_key(cell) ==> fits_i32(
                    old(self)@.mana - #[trigger] old(self)@.mana_locations[cell],
                ),
        ensures
            popped is None ==> old(self)@.spawn_locations =~= Map::empty() && final(self)@ == old(
                self,
            )@,
            popped is Some ==> {
                let cell = ((popped->0).0, (popped->0).1);
                &&& old(self)@.spawn_locations.contains_key(cell)
                &&& old(self)@.spawn_locations[cell] == (popped->0).2@
                &&& final(self)@ == (SummonedMinionsView {
                    spawn_locations: old(self)@.spawn_locations.remove(cell),
                    mana: if old(self)@.mana_locations.contains_key(cell) {
                        (old(self)@.mana - old(self)@.mana_locations[cell]) as i32
                    } else {
                        old(self)@.mana
                    },
                    mana_locations: old(self)@.mana_locations.remove(cell),
                })
            },
    {
        let cell = match spawn_table_any_cell(&self.spawn_locations) {
            Some(cell) => cell,
            None => {
                return None;
            },
        };
        let name = match spawn_table_remove(&mut self.spawn_locations, cell) {
            Some(name) => name,
            None => {
                return None;
            },
        };
        match cost_table_remove(&mut self.mana_locations, cell) {
            Some(cost) => {
                assert(old(self)@.spawn_locations.contains_key(cell));
                assert(cost == old(self)@.mana_locations[cell]);
                assert(self.mana == old(self)@.mana);
                self.mana = self.mana - cost;
            },
            None => {
                assert(self@.mana_locations =~= old(self)@.mana_locations.remove(cell));
            },
        }
        Some((cell.0, cell.1, name))
    }

    /// The cost recorded for `(x, y)`.
    pub fn recorded_cost(&self, x: usize, y: usize) -> (cost: Option<i32>)
        ensures
            cost is Some <==> self@.mana_locations.contains_key((x, y)),
            cost is Some ==> cost->0 == self@.mana_locations[(x, y)],
    {
        cost_table_get(&self.mana_locations, (x, y))
    }

    /// Whether [`SummonedMinions::pop_summon`] may be called: whichever
    /// summon it takes, the mana spent stays within an `i32`.
    pub fn can_pop(&self) -> (fits: bool)
        ensures
            fits == forall|cell: (usize, usize)|
                self@.spawn_locations.contains_key(cell) && self@.mana_locations.contains_key(cell)
                    ==> fits_i32(self@.mana - #[trigger] self@.mana_locations[cell]),
    {
        let entries = spawn_table_entries(&self.spawn_locations);
        let mut i: usize = 0;
        while i < entries.len()
            invariant
                i <= entries.len(),
                forall|k: int|
                    0 <= k < entries@.len() ==> self@.spawn_locations.contains_key(
                        (#[trigger] entries@[k]).0,
                    ),
                forall|k: int|
                    0 <= k < i && self@.mana_locations.contains_key((#[trigger] entries@[k]).0)
                        ==> fits_i32(self@.mana - self@.mana_locations[entries@[k].0]),
            decreases entries.len() - i,
        {
            match cost_table_get(&self.mana_locations, entries[i].0) {
                Some(cost) => {
                    if self.mana.checked_sub(cost).is_none() {
                        assert(self@.spawn_locations.contains_key(entries@[i as int].0));
                        assert(!fits_i32(self@.mana - self@.mana_locations[entries@[i as int].0]));
                        return false;
                    }
                },
                None => {},
            }
            i += 1;
        }
        assert forall|cell: (usize, usize)|
            self@.spawn_locations.contains_key(cell) && self@.mana_locations.contains_key(
                cell,
            ) implies fits_i32(self@.mana - #[trigger] self@.mana_locations[cell]) by {
            let k = choose|k: int| 0 <= k < entries@.len() && (#[trigger] entries@[k]).0 == cell;
            assert(self@.mana_locations.contains_key(entries@[k].0));
        }
        true
    }

    /// The mana spent on the army.
    pub fn mana(&self) -> (mana: i32)
        ensures
            mana == self@.mana,
    {
        self.mana
    }
}

/// The wave that the player meets next.
pub struct NextWave(pub SummonedMinions);

/// The army that the player is up against.
pub struct EnemyMinions(pub SummonedMinions);

impl Default for NextWave {
    fn default() -> (wave: NextWave)
        ensures
            wave.0@ == (SummonedMinionsView {
                spawn_locations: Map::empty(),
                mana: 0,
                mana_locations: Map::empty(),
            }),
    {
        NextWave(SummonedMinions::default())
    }
}

impl Default for EnemyMinions {
    fn default() -> (army: EnemyMinions)
        ensures
            army.0@ == (SummonedMinionsView {
                spawn_locations: Map::empty(),
                mana: 0,
                mana_locations: Map::empty(),
            }),
    {
        EnemyMinions(SummonedMinions::default())
    }
}

impl NextWave {
    /// Sends the wave into battle: it becomes the army that the player is
    /// up against, and no wave is left waiting.
    pub fn send(&mut self, enemies: &mut EnemyMinions)
        ensures
            final(enemies).0@ == old(self).0@,
            final(self).0@ == (SummonedMinionsView {
                spawn_locations: Map::empty(),
                mana: 0,
                mana_locations: Map::empty(),
            }),
    {
        let mut wave = SummonedMinions::default();
        std::mem::swap(&mut self.0, &mut wave);
        enemies.0 = wave;
    }
}

} // verus!
