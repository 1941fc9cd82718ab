//! The board: its tiles, and what the mouse points at.

use crate::geometry::BOARD_SIZE;
use vstd::prelude::*;

verus! {

/// The last row, counted from 0, on which the player may place a summon.
pub const LAST_SUMMONING_ROW: usize = 2;

/// One tile of the board: where it is, whether a summon may be placed on
/// it, and which picture it shows.
#[derive(Clone, Copy, Debug, PartialEq, Eq, Structural)]
pub struct Tile {
    pub x: usize,
    pub y: usize,
    pub can_place: bool,
    pub sprite: usize,
}

/// One tile of the border below the board.
#[derive(Clone, Copy, Debug, PartialEq, Eq, Structural)]
pub struct BorderTile {
    pub x: usize,
    pub sprite: usize,
}

/// What the mouse points at: the tile under it, that tile again if a
/// summon may be placed on it, and whether placing is going on at all.
#[derive(Clone, Copy, Debug, PartialEq, Eq)]
pub struct BoardMouseState {
    pub hovered_tile: Option<(usize, usize)>,
    pub pickable_tile: Option<(usize, usize)>,
    pub can_place: bool,
}

/// The picture of the tile on `(x, y)`: the tiles form a chequerboard, of
/// pictures 0 and 1 on the rows where summons are placed and of pictures
/// 16 and 17 on the others.
pub open spec fn tile_sprite(x: usize, y: usize) -> usize {
    if y <= LAST_SUMMONING_ROW {
        if (x + y) % 2 == 0 {
            0
        } else {
            1
        }
    } else {
        if (x + y) % 2 == 0 {
            16
        } else {
            17
        }
    }
}

/// The tile on `(x, y)`.
pub open spec fn tile_on(x: usize, y: usize) -> Tile {
    Tile { x, y, can_place: y <= LAST_SUMMONING_ROW, sprite: tile_sprite(x, y) }
}

/// The border tile below column `x`: pictures 8 and 9 in turn.
pub open spec fn border_on(x: usize) -> BorderTile {
    BorderTile {
        x,
        sprite: if x % 2 == 0 {
            8
        } else {
            9
        },
    }
}

impl Tile {
    /// The tile on `(x, y)`.
    pub fn at(x: usize, y: usize) -> (tile: Tile)
        ensures
            tile == tile_on(x, y),
    {
        let dark = (x % 2 == 0) == (y % 2 == 0);
        let sprite: usize = if y <= LAST_SUMMONING_ROW {
            if dark {
                0
            } else {
                1
            }
        } else {
            if dark {
                16
            } else {
                17
            }
        };
        Tile { x, y, can_place: y <= LAST_SUMMONING_ROW, sprite }
    }
}

impl BorderTile {
    /// The border tile below column `x`.
    pub fn at(x: usize) -> (tile: BorderTile)
        ensures
            tile == border_on(x),
    {
        BorderTile {
            x,
            sprite: if x % 2 == 0 {
                8
            } else {
                9
            },
        }
    }
}

/// The tiles of the board, row by row from row 0, each row from column 0.
pub fn board_tiles() -> (tiles: Vec<Tile>)
    ensures
        tiles@.len() == BOARD_SIZE * BOARD_SIZE,
        forall|x: usize, y: usize|
            x < BOARD_SIZE && y < BOARD_SIZE ==> tiles@[y * BOARD_SIZE + x] == #[trigger] tile_on(x, y),
{
    let mut tiles: Vec<Tile> = Vec::new();
    let mut y: usize = 0;
    while y < BOARD_SIZE
        invariant
            y <= BOARD_SIZE,
            tiles@.len() == y * BOARD_SIZE,
            forall|x: usize, row: usize|
                x < BOARD_SIZE && row < y ==> tiles@[row * BOARD_SIZE + x] == #[trigger] tile_on(x, row),
        decreases BOARD_SIZE - y,
    {
        let mut x: usize = 0;
        while x < BOARD_SIZE
            invariant
                y < BOARD_SIZE,
                x <= BOARD_SIZE,
                tiles@.len() == y * BOARD_SIZE + x,
                forall|column: usize, row: usize|
                    column < BOARD_SIZE && row < y ==> tiles@[row * BOARD_SIZE + column]
                        == #[trigger] tile_on(column, row),
                forall|column: usize|
                    column < x ==> tiles@[y * BOARD_SIZE + column] == #[trigger] tile_on(column, y),
            decreases BOARD_SIZE - x,
        {
            tiles.push(Tile::at(x, y));
            x += 1;
        }
        y += 1;
    }
    tiles
}

/// The tiles of the border, from column 0.
pub fn border_tiles() -> (tiles: Vec<BorderTile>)
    ensures
        tiles@.len() == BOARD_SIZE,
        forall|x: usize| x < BOARD_SIZE ==> tiles@[x as int] == #[trigger] border_on(x),
{
    let mut tiles: Vec<BorderTile> = Vec::new();
    let mut x: usize = 0;
    while x < BOARD_SIZE
        invariant
            x <= BOARD_SIZE,
            tiles@.len() == x,
            forall|column: usize| column < x ==> tiles@[column as int] == #[trigger] border_on(column),
        decreases BOARD_SIZE - x,
    {
        tiles.push(BorderTile::at(x));
        x += 1;
    }
    tiles
}

impl Default for BoardMouseState {
    fn default() -> (state: BoardMouseState)
        ensures
            state == (BoardMouseState {
                hovered_tile: None,
                pickable_tile: None,
                can_place: false,
            }),
    {
        BoardMouseState { hovered_tile: None, pickable_tile: None, can_place: false }
    }
}

impl BoardMouseState {
    /// Placing begins.
    pub fn enable_picking(&mut self)
        ensures
            *final(self) == (BoardMouseState { can_place: true, ..*old(self) }),
    {
        self.can_place = true;
    }

    /// Placing ends.
    pub fn disable_picking(&mut self)
        ensures
            *final(self) == (BoardMouseState { can_place: false, ..*old(self) }),
    {
        self.can_place = false;
    }

    /// Takes note of the tile under the mouse, if there is one. While no
    /// placing goes on, nothing counts as pointed at.
    pub fn point_at(&mut self, tile: Option<Tile>)
        ensures
            final(self).can_place == old(self).can_place,
            final(self).hovered_tile == if old(self).can_place && tile is Some {
                Some((tile->0.x, tile->0.y))
            } else {
                None
            },
            final(self).pickable_tile == if old(self).can_place && tile is Some && tile->0.can_place {
                Some((tile->0.x, tile->0.y))
            } else {
                None
            },
    {
        self.hovered_tile = None;
        self.pickable_tile = None;
        if !self.can_place {
            return ;
        }
        match tile {
            Some(tile) => {
                self.hovered_tile = Some((tile.x, tile.y));
                if tile.can_place {
                    self.pickable_tile = Some((tile.x, tile.y));
                }
            },
            None => {},
        }
    }
}

} // verus!
