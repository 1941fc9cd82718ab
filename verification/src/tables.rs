//! Hash maps from `bevy_utils`, as far as the rules use them.
//!
//! The maps themselves are not verified. Each table here holds one, names
//! what it contains as a mathematical map, and offers the operations that
//! the rules call, each with a contract over that name which is trusted to
//! be true of the map's own code.
//!
//! A table is a struct round the map rather than the map itself, because
//! Verus cannot be told of the map's type: the type's allocator parameter
//! is bounded by a trait from outside, which Verus would have to be told
//! of as well.

use crate::summons::SummonType;
use vstd::prelude::*;

verus! {

/// A map from cells of the board to names.
#[verifier::external_body]
pub struct SpawnTable {
    cells: bevy_utils::HashMap<(usize, usize), String>,
}

/// What a [`SpawnTable`] contains.
pub uninterp spec fn spawn_table_contents(table: SpawnTable) -> Map<(usize, usize), Seq<char>>;

/// A map from cells of the board to amounts of mana.
#[verifier::external_body]
pub struct CostTable {
    cells: bevy_utils::HashMap<(usize, usize), i32>,
}

/// What a [`CostTable`] contains.
pub uninterp spec fn cost_table_contents(table: CostTable) -> Map<(usize, usize), i32>;

/// A map from names to kinds of summon.
#[verifier::external_body]
pub struct SummonTable {
    summons: bevy_utils::HashMap<String, SummonType>,
}

/// What a [`SummonTable`] contains.
pub uninterp spec fn summon_table_contents(table: SummonTable) -> Map<Seq<char>, SummonType>;

/// An empty table.
///
/// Trusted: `HashMap::default` of `hashbrown` makes a map without entries.
#[verifier::external_body]
pub(crate) fn spawn_table_new() -> (table: SpawnTable)
    ensures
        spawn_table_contents(table) =~= Map::empty(),
{
    SpawnTable { cells: bevy_utils::HashMap::default() }
}

/// A table with the same entries.
///
/// Trusted: `HashMap::clone` of `hashbrown` copies every entry, and
/// `String::clone` keeps the text.
#[verifier::external_body]
pub(crate) fn spawn_table_clone(table: &SpawnTable) -> (copy: SpawnTable)
    ensures
        spawn_table_contents(copy) == spawn_table_contents(*table),
{
    SpawnTable { cells: table.cells.clone() }
}

/// Puts `name` at `cell`, in place of what was there, and gives what was
/// there.
///
/// Trusted: `HashMap::insert` of `hashbrown` sets the key's value, leaves
/// the other entries, and returns the old value of a key that was present.
#[verifier::external_body]
pub(crate) fn spawn_table_insert(table: &mut SpawnTable, cell: (usize, usize), name: String) -> (old_name:
    Option<String>)
    ensures
        spawn_table_contents(*final(table)) == spawn_table_contents(*old(table)).insert(cell, name@),
        old_name is Some <==> spawn_table_contents(*old(table)).contains_key(cell),
        old_name is Some ==> old_name->0@ == spawn_table_contents(*old(table))[cell],
{
    table.cells.insert(cell, name)
}

/// Takes out what is at `cell` and gives it.
///
/// Trusted: `HashMap::remove` of `hashbrown` removes the key, leaves the
/// other entries, and returns the value of a key that was present.
#[verifier::external_body]
pub(crate) fn spawn_table_remove(table: &mut SpawnTable, cell: (usize, usize)) -> (old_name: Option<
    String,
>)
    ensures
        spawn_table_contents(*final(table)) == spawn_table_contents(*old(table)).remove(cell),
        old_name is Some <==> spawn_table_contents(*old(table)).contains_key(cell),
        old_name is Some ==> old_name->0@ == spawn_table_contents(*old(table))[cell],
{
    table.cells.remove(&cell)
}

/// Whether something is at `cell`.
///
/// Trusted: `HashMap::contains_key` of `hashbrown`.
#[verifier::external_body]
pub(crate) fn spawn_table_contains(table: &SpawnTable, cell: (usize, usize)) -> (present: bool)
    ensures
        present == spawn_table_contents(*table).contains_key(cell),
{
    table.cells.contains_key(&cell)
}

/// The number of entries.
///
/// Trusted: `HashMap::len` of `hashbrown` counts the entries.
#[verifier::external_body]
pub(crate) fn spawn_table_len(table: &SpawnTable) -> (len: usize)
    ensures
        len == spawn_table_contents(*table).len(),
{
    table.cells.len()
}

/// Every entry, once, in the order in which the map hands them out, which
/// is not specified.
///
/// Trusted: `HashMap::iter` of `hashbrown` visits each entry exactly once,
/// so as many as `HashMap::len` counts.
#[verifier::external_body]
pub(crate) fn spawn_table_entries(table: &SpawnTable) -> (entries: Vec<((usize, usize), String)>)
    ensures
        entries@.len() == spawn_table_contents(*table).len(),
        (forall|i: int|
            0 <= i < entries@.len() ==> spawn_table_contents(*table).contains_key(
                (#[trigger] entries@[i]).0,
            ) && spawn_table_contents(*table)[entries@[i].0] == entries@[i].1@),
        (forall|i: int, j: int|
            0 <= i < j < entries@.len() ==> (#[trigger] entries@[i]).0 != (#[trigger] entries@[j]).0),
        (forall|cell: (usize, usize)|
            spawn_table_contents(*table).contains_key(cell) ==> exists|i: int|
                0 <= i < entries@.len() && (#[trigger] entries@[i]).0 == cell),
{
    table.cells.iter().map(|(cell, name)| (*cell, name.clone())).collect()
}

/// The cell of some entry, whichever the map hands out first; `None` for
/// an empty table.
///
/// Trusted: the first item of `HashMap::keys` of `hashbrown` is a key of
/// the map, and there is none only when the map is empty.
#[verifier::external_body]
pub(crate) fn spawn_table_any_cell(table: &SpawnTable) -> (cell: Option<(usize, usize)>)
    ensures
        cell is Some ==> spawn_table_contents(*table).contains_key(cell->0),
        cell is None ==> spawn_table_contents(*table) =~= Map::empty(),
{
    table.cells.keys().next().copied()
}

/// An empty table.
///
/// Trusted: `HashMap::default` of `hashbrown` makes a map without entries.
#[verifier::external_body]
pub(crate) fn cost_table_new() -> (table: CostTable)
    ensures
        cost_table_contents(table) =~= Map::empty(),
{
    CostTable { cells: bevy_utils::HashMap::default() }
}

/// A table with the same entries.
///
/// Trusted: `HashMap::clone` of `hashbrown` copies every entry.
#[verifier::external_body]
pub(crate) fn cost_table_clone(table: &CostTable) -> (copy: CostTable)
    ensures
        cost_table_contents(copy) == cost_table_contents(*table),
{
    CostTable { cells: table.cells.clone() }
}

/// Puts `cost` at `cell`, in place of what was there.
///
/// Trusted: `HashMap::insert` of `hashbrown` sets the key's value and
/// leaves the other entries.
#[verifier::external_body]
pub(crate) fn cost_table_insert(table: &mut CostTable, cell: (usize, usize), cost: i32)
    ensures
        cost_table_contents(*final(table)) == cost_table_contents(*old(table)).insert(cell, cost),
{
    table.cells.insert(cell, cost);
}

/// What is at `cell`.
///
/// Trusted: `HashMap::get` of `hashbrown` returns the value of a key that
/// is present, and `None` for one that is not.
#[verifier::external_body]
pub(crate) fn cost_table_get(table: &CostTable, cell: (usize, usize)) -> (cost: Option<i32>)
    ensures
        cost is Some <==> cost_table_contents(*table).contains_key(cell),
        cost is Some ==> cost->0 == cost_table_contents(*table)[cell],
{
    table.cells.get(&cell).copied()
}

/// Takes out what is at `cell` and gives it.
///
/// Trusted: `HashMap::remove` of `hashbrown` removes the key, leaves the
/// other entries, and returns the value of a key that was present.
#[verifier::external_body]
pub(crate) fn cost_table_remove(table: &mut CostTable, cell: (usize, usize)) -> (old_cost: Option<
    i32,
>)
    ensures
        cost_table_contents(*final(table)) == cost_table_contents(*old(table)).remove(cell),
        old_cost is Some <==> cost_table_contents(*old(table)).contains_key(cell),
        old_cost is Some ==> old_cost->0 == cost_table_contents(*old(table))[cell],
{
    table.cells.remove(&cell)
}

/// An empty table.
///
/// Trusted: `HashMap::default` of `hashbrown` makes a map without entries.
#[verifier::external_body]
pub(crate) fn summon_table_new() -> (table: SummonTable)
    ensures
        summon_table_contents(table) =~= Map::empty(),
{
    SummonTable { summons: bevy_utils::HashMap::default() }
}

/// Puts `summon` under `name`, in place of what was there.
///
/// Trusted: `HashMap::insert` of `hashbrown` sets the key's value and
/// leaves the other entries.
#[verifier::external_body]
pub(crate) fn summon_table_insert(table: &mut SummonTable, name: String, summon: SummonType)
    ensures
        summon_table_contents(*final(table)) == summon_table_contents(*old(table)).insert(
            name@,
            summon,
        ),
{
    table.summons.insert(name, summon);
}

/// Whether a summon is known under `name`.
///
/// Trusted: `HashMap::contains_key` of `hashbrown`.
#[verifier::external_body]
pub(crate) fn summon_table_contains(table: &SummonTable, name: &str) -> (present: bool)
    ensures
        present == summon_table_contents(*table).contains_key(name@),
{
    table.summons.contains_key(name)
}

/// The summon known under `name`.
///
/// Trusted: `HashMap::get` of `hashbrown` returns the value of a key that
/// is present, and `None` for one that is not.
#[verifier::external_body]
pub(crate) fn summon_table_get<'a>(table: &'a SummonTable, name: &str) -> (summon: Option<
    &'a SummonType,
>)
    ensures
        summon is Some <==> summon_table_contents(*table).contains_key(name@),
        summon is Some ==> *summon->0 == summon_table_contents(*table)[name@],
{
    table.summons.get(name)
}

/// The number of entries.
///
/// Trusted: `HashMap::len` of `hashbrown` counts the entries.
#[verifier::external_body]
pub(crate) fn summon_table_len(table: &SummonTable) -> (len: usize)
    ensures
        len == summon_table_contents(*table).len(),
{
    table.summons.len()
}

/// The name of every entry, once, in the order in which the map hands
/// them out, which is not specified.
///
/// Trusted: `HashMap::keys` of `hashbrown` visits each key exactly once,
/// so as many as `HashMap::len` counts, and `String::clone` keeps the
/// text.
#[verifier::external_body]
pub(crate) fn summon_table_names(table: &SummonTable) -> (names: Vec<String>)
    ensures
        names@.len() == summon_table_contents(*table).len(),
        (forall|i: int|
            0 <= i < names@.len() ==> summon_table_contents(*table).contains_key(
                (#[trigger] names@[i])@,
            )),
        (forall|i: int, j: int|
            0 <= i < j < names@.len() ==> (#[trigger] names@[i])@ != (#[trigger] names@[j])@),
        (forall|name: Seq<char>|
            summon_table_contents(*table).contains_key(name) ==> exists|i: int|
                0 <= i < names@.len() && (#[trigger] names@[i])@ == name),
{
    table.summons.keys().cloned().collect()
}

} // verus!
