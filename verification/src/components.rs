//! The small values that entities are made of: positions, directions, and the
//! data each kind of entity carries.

use vstd::prelude::*;

verus! {

/// Milliseconds between the placing of a bomb and its detonation.
pub const BOMB_FUSE_MS: u64 = 3000;

/// Milliseconds for which a blast mark stays on its tile.
pub const EXPLOSION_LIFESPAN_MS: u64 = 500;

/// A cell of the grid, by column (`x`) and row (`y`).
#[derive(Debug, Clone, Copy, PartialEq, Eq, Structural)]
pub struct Position {
    pub x: usize,
    pub y: usize,
}

impl Position {
    pub fn new(x: usize, y: usize) -> (p: Self)
        ensures
            p == (Position { x, y }),
    {
        Self { x, y }
    }

    /// Whether this position is the cell at column `x`, row `y`.
    pub open spec fn is_at(self, x: int, y: int) -> bool {
        self.x == x && self.y == y
    }

    /// The neighbouring cell in the given direction; `None` where that cell
    /// has a coordinate below zero or beyond what `usize` holds.
    pub fn step(self, direction: Direction) -> (next: Option<Position>)
        ensures
            match next {
                Some(p) => (p.x as int, p.y as int) == direction.offset(
                    self.x as int,
                    self.y as int,
                    1,
                ),
                None => {
                    let (x, y) = direction.offset(self.x as int, self.y as int, 1);
                    x < 0 || y < 0 || x > usize::MAX || y > usize::MAX
                },
            },
    {
        match direction {
            Direction::Up => if self.y > 0 {
                Some(Position { x: self.x, y: self.y - 1 })
            } else {
                None
            },
            Direction::Down => if self.y < usize::MAX {
                Some(Position { x: self.x, y: self.y + 1 })
            } else {
                None
            },
            Direction::Left => if self.x > 0 {
                Some(Position { x: self.x - 1, y: self.y })
            } else {
                None
            },
            Direction::Right => if self.x < usize::MAX {
                Some(Position { x: self.x + 1, y: self.y })
            } else {
                None
            },
        }
    }
}

/// One of the four axis directions. Rows grow downwards.
#[derive(Debug, Clone, Copy, PartialEq, Eq, Structural)]
pub enum Direction {
    Up,
    Down,
    Left,
    Right,
}

impl Direction {
    /// Change of column for one step in this direction.
    pub open spec fn dx(self) -> int {
        match self {
            Direction::Left => -1,
            Direction::Right => 1,
            _ => 0,
        }
    }

    /// Change of row for one step in this direction.
    pub open spec fn dy(self) -> int {
        match self {
            Direction::Up => -1,
            Direction::Down => 1,
            _ => 0,
        }
    }

    /// The cell `n` steps away from column `x`, row `y` in this direction,
    /// as unbounded coordinates: it may lie off the grid.
    pub open spec fn offset(self, x: int, y: int, n: int) -> (int, int) {
        match self {
            Direction::Up => (x, y - n),
            Direction::Down => (x, y + n),
            Direction::Left => (x - n, y),
            Direction::Right => (x + n, y),
        }
    }

    pub fn to_delta(&self) -> (d: (i32, i32))
        ensures
            d.0 == self.dx(),
            d.1 == self.dy(),
    {
        match self {
            Direction::Up => (0, -1),
            Direction::Down => (0, 1),
            Direction::Left => (-1, 0),
            Direction::Right => (1, 0),
        }
    }
}

/// What a player can do: how many bombs may burn at once, how far their
/// blasts reach, and a movement speed that no rule reads yet.
#[derive(Debug, Clone, Copy, PartialEq, Eq)]
pub struct PlayerStats {
    pub max_bombs: usize,
    pub bomb_range: usize,
    pub speed: u32,
}

impl Default for PlayerStats {
    fn default() -> (s: Self)
        ensures
            s == PlayerStats::initial(),
    {
        Self { max_bombs: 1, bomb_range: 1, speed: 1 }
    }
}

impl PlayerStats {
    /// The stats a player starts with.
    pub open spec fn initial() -> PlayerStats {
        PlayerStats { max_bombs: 1, bomb_range: 1, speed: 1 }
    }
}

/// A bomb's remaining fuse in milliseconds, its blast range in tiles, and
/// the id of the entity that placed it.
#[derive(Debug, Clone, Copy, PartialEq, Eq)]
pub struct BombData {
    pub timer: u64,
    pub range: usize,
    pub owner_id: usize,
}

impl BombData {
    pub fn new(range: usize, owner_id: usize) -> (b: Self)
        ensures
            b == (BombData { timer: BOMB_FUSE_MS, range, owner_id }),
    {
        Self { timer: BOMB_FUSE_MS, range, owner_id }
    }
}

/// A blast mark's remaining life in milliseconds.
#[derive(Debug, Clone, Copy, PartialEq, Eq)]
pub struct ExplosionData {
    pub timer: u64,
}

impl ExplosionData {
    pub fn new() -> (e: Self)
        ensures
            e == (ExplosionData { timer: EXPLOSION_LIFESPAN_MS }),
    {
        Self { timer: EXPLOSION_LIFESPAN_MS }
    }
}

/// A pickup: `Fire` lengthens the blast by one tile, `Bomb` allows one more
/// bomb at a time.
#[derive(Debug, Clone, Copy, PartialEq, Eq, Structural)]
pub enum ItemType {
    Fire,
    Bomb,
}

impl ItemType {
    /// The glyph that shows this pickup.
    pub open spec fn glyph(self) -> Seq<char> {
        match self {
            ItemType::Fire => "🔥"@,
            ItemType::Bomb => "💣"@,
        }
    }

    pub fn to_char(&self) -> (s: &'static str)
        ensures
            s@ == self.glyph(),
    {
        match self {
            ItemType::Fire => "🔥",
            ItemType::Bomb => "💣",
        }
    }
}

} // verus!
