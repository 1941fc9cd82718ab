//! Distances between cells of the board.
//!
//! A cell is a pair `(column, row)` of `usize`. Every function here is
//! total: distances are computed in a type wide enough for any two cells.

use vstd::prelude::*;

verus! {

/// Width and height of the board, in cells.
pub const BOARD_SIZE: usize = 8;

/// The distance between two coordinates on one axis.
pub open spec fn gap(a: int, b: int) -> int {
    if a <= b {
        b - a
    } else {
        a - b
    }
}

/// Number of single-axis steps between two cells.
pub open spec fn manhattan(from: (usize, usize), to: (usize, usize)) -> int {
    gap(from.0 as int, to.0 as int) + gap(from.1 as int, to.1 as int)
}

/// Square of the straight-line distance between two cells.
pub open spec fn squared_distance(from: (usize, usize), to: (usize, usize)) -> int {
    gap(from.0 as int, to.0 as int) * gap(from.0 as int, to.0 as int) + gap(
        from.1 as int,
        to.1 as int,
    ) * gap(from.1 as int, to.1 as int)
}

/// `index` is the first position of `cells` whose cell is nearest to `from`.
pub open spec fn is_nearest(from: (usize, usize), cells: Seq<(usize, usize)>, index: int) -> bool {
    &&& 0 <= index < cells.len()
    &&& forall|j: int|
        0 <= j < cells.len() ==> squared_distance(from, cells[index]) <= #[trigger] squared_distance(
            from,
            cells[j],
        )
    &&& forall|j: int|
        0 <= j < index ==> squared_distance(from, cells[index]) < #[trigger] squared_distance(
            from,
            cells[j],
        )
}

/// The position of the nearest cell; meaningful when `cells` is not empty.
pub open spec fn nearest_index(from: (usize, usize), cells: Seq<(usize, usize)>) -> int {
    choose|index: int| is_nearest(from, cells, index)
}

/// At most one position is the first nearest one.
pub proof fn lemma_nearest_unique(
    from: (usize, usize),
    cells: Seq<(usize, usize)>,
    i: int,
    j: int,
)
    requires
        is_nearest(from, cells, i),
        is_nearest(from, cells, j),
    ensures
        i == j,
{
    if i < j {
        assert(squared_distance(from, cells[j]) < squared_distance(from, cells[i]));
    } else if j < i {
        assert(squared_distance(from, cells[i]) < squared_distance(from, cells[j]));
    }
}

/// A list with a cell in it has a first nearest one.
pub proof fn lemma_nearest_exists(from: (usize, usize), cells: Seq<(usize, usize)>)
    requires
        cells.len() > 0,
    ensures
        is_nearest(from, cells, nearest_index(from, cells)),
    decreases cells.len(),
{
    if cells.len() == 1 {
        assert(is_nearest(from, cells, 0));
    } else {
        let front = cells.drop_last();
        lemma_nearest_exists(from, front);
        let best = nearest_index(from, front);
        assert(forall|j: int| 0 <= j < front.len() ==> front[j] == cells[j]);
        if squared_distance(from, cells.last()) < squared_distance(from, front[best]) {
            assert forall|j: int| 0 <= j < cells.len() implies squared_distance(
                from,
                cells[cells.len() - 1],
            ) <= #[trigger] squared_distance(from, cells[j]) by {
                if j < front.len() {
                    assert(squared_distance(from, front[best]) <= squared_distance(from, front[j]));
                }
            }
            assert forall|j: int| 0 <= j < cells.len() - 1 implies squared_distance(
                from,
                cells[cells.len() - 1],
            ) < #[trigger] squared_distance(from, cells[j]) by {
                assert(squared_distance(from, front[best]) <= squared_distance(from, front[j]));
            }
            assert(is_nearest(from, cells, cells.len() - 1));
        } else {
            assert forall|j: int| 0 <= j < cells.len() implies squared_distance(from, cells[best])
                <= #[trigger] squared_distance(from, cells[j]) by {
                if j < front.len() {
                    assert(squared_distance(from, front[best]) <= squared_distance(from, front[j]));
                }
            }
            assert forall|j: int| 0 <= j < best implies squared_distance(from, cells[best])
                < #[trigger] squared_distance(from, cells[j]) by {
                assert(squared_distance(from, front[best]) < squared_distance(from, front[j]));
            }
            assert(is_nearest(from, cells, best));
        }
    }
}

fn axis_gap(a: usize, b: usize) -> (d: u128)
    ensures
        d == gap(a as int, b as int),
        d <= usize::MAX,
{
    if a <= b {
        (b - a) as u128
    } else {
        (a - b) as u128
    }
}

/// Manhattan distance between two cells.
pub fn tile_distance(from: (usize, usize), to: (usize, usize)) -> (d: u128)
    ensures
        d == manhattan(from, to),
{
    axis_gap(from.0, to.0) + axis_gap(from.1, to.1)
}

/// Whether `to` lies within `range` steps of `from`, the boundary included.
pub fn within_range(from: (usize, usize), to: (usize, usize), range: i32) -> (inside: bool)
    ensures
        inside == (manhattan(from, to) <= range),
{
    range >= 0 && tile_distance(from, to) <= range as u128
}

proof fn lemma_square_fits(d: u128)
    requires
        d <= usize::MAX,
    ensures
        d * d <= 0xffff_ffff_ffff_ffff * 0xffff_ffff_ffff_ffff,
        0xffff_ffff_ffff_ffffu128 * 0xffff_ffff_ffff_ffffu128 <= u128::MAX,
{
    assert(d <= 0xffff_ffff_ffff_ffff);
    assert(d * d <= 0xffff_ffff_ffff_ffff * 0xffff_ffff_ffff_ffff) by (nonlinear_arith)
        requires
            0 <= d <= 0xffff_ffff_ffff_ffff,
    ;
}

/// Whether `a` is strictly nearer to `from` than `b` is, by straight-line
/// distance.
pub fn nearer(from: (usize, usize), a: (usize, usize), b: (usize, usize)) -> (yes: bool)
    ensures
        yes == (squared_distance(from, a) < squared_distance(from, b)),
{
    let ax = axis_gap(from.0, a.0);
    let ay = axis_gap(from.1, a.1);
    let bx = axis_gap(from.0, b.0);
    let by = axis_gap(from.1, b.1);
    proof {
        lemma_square_fits(ax);
        lemma_square_fits(ay);
        lemma_square_fits(bx);
        lemma_square_fits(by);
    }
    let ax2 = ax * ax;
    let ay2 = ay * ay;
    let bx2 = bx * bx;
    let by2 = by * by;
    match (ax2.checked_add(ay2), bx2.checked_add(by2)) {
        (Some(sa), Some(sb)) => sa < sb,
        (Some(_), None) => true,
        (None, Some(_)) => false,
        (None, None) => ax2.wrapping_add(ay2) < bx2.wrapping_add(by2),
    }
}

/// The first cell of `cells` that is nearest to `from`, with its position.
pub fn find_nearest(from: (usize, usize), cells: &Vec<(usize, usize)>) -> (found: Option<usize>)
    ensures
        cells.len() == 0 ==> found is None,
        cells.len() > 0 ==> found is Some && is_nearest(from, cells@, found->0 as int),
{
    if cells.len() == 0 {
        return None;
    }
    let mut best: usize = 0;
    let mut i: usize = 1;
    while i < cells.len()
        invariant
            1 <= i <= cells.len(),
            is_nearest(from, cells@.take(i as int), best as int),
        decreases cells.len() - i,
    {
        if nearer(from, cells[i], cells[best]) {
            best = i;
        }
        i += 1;
    }
    assert(cells@.take(i as int) =~= cells@);
    Some(best)
}

} // verus!
