//! The tile grid: what each cell is made of, and the few ways to read and
//! change it.

use vstd::prelude::*;
use vstd::string::*;

verus! {

/// What a cell is made of. Walls stand for ever; a breakable cell takes one
/// blast and is empty afterwards; only empty cells can be walked on.
#[derive(Debug, Clone, Copy, PartialEq, Eq, Structural)]
pub enum Tile {
    Empty,
    Wall,
    Breakable,
}

impl Tile {
    /// The tile that a character of a layout stands for: `#` is a wall, `X`
    /// is breakable, and anything else (spawn markers included) is empty.
    pub open spec fn of_char(c: char) -> Tile {
        if c == '#' {
            Tile::Wall
        } else if c == 'X' {
            Tile::Breakable
        } else {
            Tile::Empty
        }
    }

    /// The glyph that shows this tile.
    pub open spec fn glyph(self) -> Seq<char> {
        match self {
            Tile::Empty => "  "@,
            Tile::Wall => "🧱"@,
            Tile::Breakable => "📦"@,
        }
    }

    pub fn from_char(c: char) -> (t: Tile)
        ensures
            t == Tile::of_char(c),
    {
        if c == '#' {
            Tile::Wall
        } else if c == 'X' {
            Tile::Breakable
        } else {
            Tile::Empty
        }
    }

    pub fn is_walkable(&self) -> (b: bool)
        ensures
            b == (*self == Tile::Empty),
    {
        matches!(self, Tile::Empty)
    }

    pub fn to_char(&self) -> (s: &'static str)
        ensures
            s@ == self.glyph(),
    {
        match self {
            Tile::Empty => "  ",
            Tile::Wall => "🧱",
            Tile::Breakable => "📦",
        }
    }
}

/// The character at column `x` of row `y` of a layout; a blank where the row
/// is too short to have one.
pub open spec fn layout_char(layout: Seq<Seq<char>>, x: int, y: int) -> char {
    if 0 <= y < layout.len() && 0 <= x < layout[y].len() {
        layout[y][x]
    } else {
        ' '
    }
}

/// The rows of a layout given as string slices.
pub open spec fn layout_rows(layout: Seq<&str>) -> Seq<Seq<char>> {
    Seq::new(layout.len(), |y: int| layout[y]@)
}

/// The mathematical model of a [`World`]: `height` rows of `width` tiles.
pub struct Grid {
    pub width: nat,
    pub height: nat,
    pub rows: Seq<Seq<Tile>>,
}

impl Grid {
    /// The grid is a rectangle: `height` rows, each `width` tiles long.
    pub open spec fn wf(self) -> bool {
        &&& self.rows.len() == self.height
        &&& forall|y: int| 0 <= y < self.height ==> (#[trigger] self.rows[y]).len() == self.width
    }

    pub open spec fn in_bounds(self, x: int, y: int) -> bool {
        0 <= x < self.width && 0 <= y < self.height
    }

    /// The tile at column `x`, row `y`; `None` off the grid.
    pub open spec fn tile(self, x: int, y: int) -> Option<Tile> {
        if self.in_bounds(x, y) {
            Some(self.rows[y][x])
        } else {
            None
        }
    }

    /// The grid with the tile at column `x`, row `y` replaced; the same grid
    /// if that cell is off the grid.
    pub open spec fn set(self, x: int, y: int, tile: Tile) -> Grid {
        if self.in_bounds(x, y) {
            Grid { rows: self.rows.update(y, self.rows[y].update(x, tile)), ..self }
        } else {
            self
        }
    }

    /// Only an empty cell of the grid can be walked on.
    pub open spec fn walkable(self, x: int, y: int) -> bool {
        self.tile(x, y) == Some(Tile::Empty)
    }

    /// A grid of empty tiles.
    pub open spec fn empty(width: nat, height: nat) -> Grid {
        Grid {
            width,
            height,
            rows: Seq::new(height, |y: int| Seq::new(width, |x: int| Tile::Empty)),
        }
    }

    /// The grid that a layout describes. It has one row per row of the
    /// layout and is as wide as the layout's first row; characters beyond
    /// that width are not read, and a row that is shorter is filled up with
    /// empty tiles.
    pub open spec fn from_layout(layout: Seq<Seq<char>>) -> Grid {
        let width = if layout.len() > 0 {
            layout[0].len()
        } else {
            0
        };
        Grid {
            width,
            height: layout.len(),
            rows: Seq::new(
                layout.len(),
                |y: int| Seq::new(width, |x: int| Tile::of_char(layout_char(layout, x, y))),
            ),
        }
    }

    /// The glyphs of the first `upto` tiles of row `y`, side by side.
    pub open spec fn row_text(self, y: int, upto: nat) -> Seq<char>
        decreases upto,
    {
        if upto == 0 {
            Seq::empty()
        } else {
            self.row_text(y, (upto - 1) as nat) + self.rows[y][upto - 1].glyph()
        }
    }

    /// The first `upto` rows as text: the glyphs of each row, then a line
    /// break.
    pub open spec fn text(self, upto: nat) -> Seq<char>
        decreases upto,
    {
        if upto == 0 {
            Seq::empty()
        } else {
            self.text((upto - 1) as nat) + self.row_text(upto - 1, self.width) + "\n"@
        }
    }

    /// Writing a tile keeps the grid a rectangle, puts the tile where it was
    /// written if that is on the grid, and changes no other cell.
    pub proof fn lemma_set(self, x: int, y: int, tile: Tile)
        requires
            self.wf(),
        ensures
            self.set(x, y, tile).wf(),
            self.set(x, y, tile).width == self.width,
            self.set(x, y, tile).height == self.height,
            forall|a: int, b: int| #[trigger]
                self.set(x, y, tile).tile(a, b) == if a == x && b == y && self.in_bounds(x, y) {
                    Some(tile)
                } else {
                    self.tile(a, b)
                },
    {
        let g = self.set(x, y, tile);
        if self.in_bounds(x, y) {
            assert forall|b: int| 0 <= b < g.height implies (#[trigger] g.rows[b]).len()
                == g.width by {
                if b != y {
                    assert(g.rows[b] == self.rows[b]);
                }
            }
        }
    }
}

/// A grid of tiles whose size is fixed when it is built.
pub struct World {
    width: usize,
    height: usize,
    tiles: Vec<Vec<Tile>>,
}

impl View for World {
    type V = Grid;

    closed spec fn view(&self) -> Grid {
        Grid {
            width: self.width as nat,
            height: self.height as nat,
            rows: Seq::new(self.tiles@.len(), |y: int| self.tiles@[y]@),
        }
    }
}

impl World {
    /// The stored rows match the declared size.
    pub closed spec fn wf(&self) -> bool {
        &&& self.tiles@.len() == self.height
        &&& forall|y: int| 0 <= y < self.height ==> (#[trigger] self.tiles@[y])@.len() == self.width
    }

    /// A well-formed world has a rectangular model, whose sides fit a
    /// `usize`.
    pub proof fn lemma_wf(&self)
        requires
            self.wf(),
        ensures
            self@.wf(),
            self@.width <= usize::MAX,
            self@.height <= usize::MAX,
    {
    }

    pub fn new(width: usize, height: usize) -> (w: Self)
        ensures
            w.wf(),
            w@ == Grid::empty(width as nat, height as nat),
    {
        let mut tiles: Vec<Vec<Tile>> = Vec::new();
        let mut y: usize = 0;
        while y < height
            invariant
                y <= height,
                tiles@.len() == y,
                forall|b: int| 0 <= b < y ==> (#[trigger] tiles@[b])@ == Seq::new(
                    width as nat,
                    |x: int| Tile::Empty,
                ),
            decreases height - y,
        {
            let mut row: Vec<Tile> = Vec::new();
            let mut x: usize = 0;
            while x < width
                invariant
                    x <= width,
                    row@.len() == x,
                    forall|a: int| 0 <= a < x ==> row@[a] == Tile::Empty,
                decreases width - x,
            {
                row.push(Tile::Empty);
                x += 1;
            }
            assert(row@ =~= Seq::new(width as nat, |x: int| Tile::Empty));
            tiles.push(row);
            y += 1;
        }
        let w = Self { width, height, tiles };
        assert(w@.rows =~= Grid::empty(width as nat, height as nat).rows);
        w
    }

    pub fn from_layout(layout: &[&str]) -> (w: Self)
        ensures
            w.wf(),
            w@ == Grid::from_layout(layout_rows(layout@)),
    {
        let height = layout.len();
        let width = if height > 0 {
            layout[0].unicode_len()
        } else {
            0
        };
        let ghost rows = layout_rows(layout@);
        let mut tiles: Vec<Vec<Tile>> = Vec::new();
        let mut y: usize = 0;
        while y < height
            invariant
                y <= height,
                height == layout@.len(),
                rows == layout_rows(layout@),
                tiles@.len() == y,
                forall|b: int| 0 <= b < y ==> (#[trigger] tiles@[b])@ == Seq::new(
                    width as nat,
                    |x: int| Tile::of_char(layout_char(rows, x, b)),
                ),
            decreases height - y,
        {
            let line = layout[y];
            let line_len = line.unicode_len();
            let mut row: Vec<Tile> = Vec::new();
            let mut x: usize = 0;
            while x < width
                invariant
                    x <= width,
                    y < height,
                    height == layout@.len(),
                    rows == layout_rows(layout@),
                    line@ == rows[y as int],
                    line_len == line@.len(),
                    row@.len() == x,
                    forall|a: int| 0 <= a < x ==> row@[a] == Tile::of_char(
                        layout_char(rows, a, y as int),
                    ),
                decreases width - x,
            {
                let c = if x < line_len {
                    line.get_char(x)
                } else {
                    ' '
                };
                row.push(Tile::from_char(c));
                x += 1;
            }
            assert(row@ =~= Seq::new(
                width as nat,
                |x: int| Tile::of_char(layout_char(rows, x, y as int)),
            ));
            tiles.push(row);
            y += 1;
        }
        let w = Self { width, height, tiles };
        assert(w@.rows =~= Grid::from_layout(rows).rows);
        w
    }

    pub fn width(&self) -> (w: usize)
        ensures
            w == self@.width,
    {
        self.width
    }

    pub fn height(&self) -> (h: usize)
        ensures
            h == self@.height,
    {
        self.height
    }

    pub fn get_tile(&self, x: usize, y: usize) -> (t: Option<Tile>)
        requires
            self.wf(),
        ensures
            t == self@.tile(x as int, y as int),
    {
        if x < self.width && y < self.height {
            Some(self.tiles[y][x])
        } else {
            None
        }
    }

    pub fn set_tile(&mut self, x: usize, y: usize, tile: Tile)
        requires
            old(self).wf(),
        ensures
            final(self).wf(),
            final(self)@ == old(self)@.set(x as int, y as int, tile),
    {
        if x < self.width && y < self.height {
            self.tiles[y][x] = tile;
            assert(self@.rows =~= old(self)@.set(x as int, y as int, tile).rows);
        }
    }

    /// The world as text, one line for each row.
    pub fn to_string(&self) -> (text: String)
        requires
            self.wf(),
        ensures
            text@ == self@.text(self@.height),
    {
        let mut text = String::new();
        let mut y: usize = 0;
        while y < self.height
            invariant
                y <= self.height,
                self.wf(),
                text@ == self@.text(y as nat),
            decreases self.height - y,
        {
            let ghost above = text@;
            let mut x: usize = 0;
            while x < self.width
                invariant
                    x <= self.width,
                    y < self.height,
                    self.wf(),
                    text@ == above + self@.row_text(y as int, x as nat),
                decreases self.width - x,
            {
                text.append(self.tiles[y][x].to_char());
                x += 1;
            }
            text.append("\n");
            y += 1;
        }
        text
    }

    pub fn is_walkable(&self, x: usize, y: usize) -> (b: bool)
        requires
            self.wf(),
        ensures
            b == self@.walkable(x as int, y as int),
    {
        match self.get_tile(x, y) {
            Some(t) => t.is_walkable(),
            None => false,
        }
    }
}

} // verus!
