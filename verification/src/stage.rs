//! Stage layouts: the text a game is built from, and the check that a
//! layout has the size it declares.

use vstd::prelude::*;
use vstd::string::*;

verus! {

/// A stage: a name, the size of its grid, and one string per row. In a row,
/// `#` is a wall, `X` a breakable tile, `P` the cell where the player
/// starts, `E` a cell where an enemy starts; every other character is an
/// empty tile.
#[derive(Debug, Clone)]
pub struct StageConfig {
    pub name: String,
    pub width: usize,
    pub height: usize,
    pub layout: Vec<String>,
}

/// Why a stage is refused.
#[derive(Debug, Clone, Copy, PartialEq, Eq)]
pub enum StageError {
    /// The layout has `rows` rows, the stage declares `height`.
    HeightMismatch { rows: usize, height: usize },
    /// Row `row` of the layout is `length` characters long, the stage
    /// declares `width`. It is the first such row.
    WidthMismatch { row: usize, length: usize, width: usize },
}

/// The rows of the built-in stage.
pub open spec fn default_layout() -> Seq<Seq<char>> {
    seq![
        "###############"@,
        "#P   X   X   E#"@,
        "# # # # # # # #"@,
        "#   X   X   X #"@,
        "# # # # # # # #"@,
        "#   X   X   X #"@,
        "# # # # # # # #"@,
        "#   X   X   X #"@,
        "# # # # # # # #"@,
        "#E  X   X   E #"@,
        "###############"@,
    ]
}

impl StageConfig {
    /// The rows of the layout as sequences of characters.
    pub open spec fn rows(&self) -> Seq<Seq<char>> {
        Seq::new(self.layout@.len(), |y: int| self.layout@[y]@)
    }

    /// The layout has as many rows as the stage declares, and every row has
    /// as many characters as the stage is wide.
    pub open spec fn valid(&self) -> bool {
        &&& self.layout@.len() == self.height
        &&& forall|y: int| 0 <= y < self.layout@.len() ==> (#[trigger] self.layout@[y])@.len()
            == self.width
    }

    /// Whether `error` is the fault of this stage: the wrong number of rows
    /// if that is what is wrong, and otherwise the first row of the wrong
    /// length.
    pub open spec fn validate_spec(&self, error: StageError) -> bool {
        match error {
            StageError::HeightMismatch { rows, height } => {
                &&& rows == self.layout@.len()
                &&& height == self.height
                &&& rows != height
            },
            StageError::WidthMismatch { row, length, width } => {
                &&& self.layout@.len() == self.height
                &&& row < self.layout@.len()
                &&& length == self.layout@[row as int]@.len()
                &&& width == self.width
                &&& length != width
                &&& forall|y: int| 0 <= y < row ==> (#[trigger] self.layout@[y])@.len() == width
            },
        }
    }

    /// Accepts a valid stage, and reports the fault of any other.
    pub fn validate(&self) -> (result: Result<(), StageError>)
        ensures
            result is Ok <==> self.valid(),
            result matches Err(e) ==> self.validate_spec(e),
    {
        if self.layout.len() != self.height {
            return Err(StageError::HeightMismatch { rows: self.layout.len(), height: self.height });
        }
        let mut y: usize = 0;
        while y < self.layout.len()
            invariant
                y <= self.layout@.len(),
                self.layout@.len() == self.height,
                forall|b: int| 0 <= b < y ==> (#[trigger] self.layout@[b])@.len() == self.width,
            decreases self.layout@.len() - y,
        {
            let length = self.layout[y].as_str().unicode_len();
            if length != self.width {
                return Err(StageError::WidthMismatch { row: y, length, width: self.width });
            }
            y += 1;
        }
        Ok(())
    }
}

/// The built-in stage, 15 tiles wide and 11 high.
pub fn get_default_stage() -> (stage: StageConfig)
    ensures
        stage.name@ == "Stage 1"@,
        stage.width == 15,
        stage.height == 11,
        stage.rows() == default_layout(),
        stage.valid(),
{
    let layout = vec![
        String::from_str("###############"),
        String::from_str("#P   X   X   E#"),
        String::from_str("# # # # # # # #"),
        String::from_str("#   X   X   X #"),
        String::from_str("# # # # # # # #"),
        String::from_str("#   X   X   X #"),
        String::from_str("# # # # # # # #"),
        String::from_str("#   X   X   X #"),
        String::from_str("# # # # # # # #"),
        String::from_str("#E  X   X   E #"),
        String::from_str("###############"),
    ];
    let stage = StageConfig { name: String::from_str("Stage 1"), width: 15, height: 11, layout };
    proof {
        reveal_strlit("###############");
        reveal_strlit("#P   X   X   E#");
        reveal_strlit("# # # # # # # #");
        reveal_strlit("#   X   X   X #");
        reveal_strlit("#E  X   X   E #");
        assert(stage.rows() =~= default_layout());
    }
    stage
}

} // verus!
