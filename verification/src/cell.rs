use vstd::prelude::*;

verus! {

/// One grid position's state: an RGB color triple.
///
/// A cell is nothing more than its three 8-bit channels; the alive/dead
/// reading is derived from them (see [`Cell::is_alive`]), never stored.
#[derive(Debug, Clone, Copy, PartialEq, Eq, Structural, PartialOrd, Ord, Hash)]
pub struct Cell {
    /// Red channel.
    pub r: u8,
    /// Green channel.
    pub g: u8,
    /// Blue channel.
    pub b: u8,
}

impl Cell {
    /// A cell is alive exactly when at least one channel is nonzero.
    pub open spec fn spec_is_alive(self) -> bool {
        self.r != 0 || self.g != 0 || self.b != 0
    }

    /// Creates a living cell whose RGB values are 255.
    pub fn alive() -> (c: Self)
        ensures
            c == (Cell { r: 255, g: 255, b: 255 }),
    {
        Cell { r: 255, g: 255, b: 255 }
    }

    /// Creates a dead cell whose RGB values are 0.
    pub fn dead() -> (c: Self)
        ensures
            c == (Cell { r: 0, g: 0, b: 0 }),
    {
        Cell { r: 0, g: 0, b: 0 }
    }

    /// Returns false if all of the RGB values are 0, true otherwise.
    pub fn is_alive(self) -> (alive: bool)
        ensures
            alive == self.spec_is_alive(),
    {
        self.r != 0 || self.g != 0 || self.b != 0
    }

    /// Creates a cell whose RGB values are all set to `rgb`.
    pub fn all(rgb: u8) -> (c: Self)
        ensures
            c == (Cell { r: rgb, g: rgb, b: rgb }),
    {
        Cell { r: rgb, g: rgb, b: rgb }
    }

    /// Creates a cell whose RGB values are 255; identical to [`Cell::alive`].
    pub fn white() -> (c: Self)
        ensures
            c == (Cell { r: 255, g: 255, b: 255 }),
    {
        Cell { r: 255, g: 255, b: 255 }
    }

    /// Creates a cell whose RGB values are 0; identical to [`Cell::dead`].
    pub fn black() -> (c: Self)
        ensures
            c == (Cell { r: 0, g: 0, b: 0 }),
    {
        Cell { r: 0, g: 0, b: 0 }
    }

    /// Creates a cell whose R value is 255, and G and B values are 0.
    pub fn red() -> (c: Self)
        ensures
            c == (Cell { r: 255, g: 0, b: 0 }),
    {
        Cell { r: 255, g: 0, b: 0 }
    }

    /// Creates a cell whose G value is 255, and R and B values are 0.
    pub fn green() -> (c: Self)
        ensures
            c == (Cell { r: 0, g: 255, b: 0 }),
    {
        Cell { r: 0, g: 255, b: 0 }
    }

    /// Creates a cell whose B value is 255, and R and G values are 0.
    pub fn blue() -> (c: Self)
        ensures
            c == (Cell { r: 0, g: 0, b: 255 }),
    {
        Cell { r: 0, g: 0, b: 255 }
    }
}

impl Default for Cell {
    /// The default cell is dead: all channels zero.
    fn default() -> (c: Self)
        ensures
            c == (Cell { r: 0, g: 0, b: 0 }),
    {
        Cell { r: 0, g: 0, b: 0 }
    }
}

impl From<[u8; 3]> for Cell {
    /// Returns a cell whose RGB values are the triple's entries, in order.
    fn from(rgb: [u8; 3]) -> (c: Self) {
        Cell { r: rgb[0], g: rgb[1], b: rgb[2] }
    }
}

impl vstd::std_specs::convert::FromSpecImpl<[u8; 3]> for Cell {
    open spec fn obeys_from_spec() -> bool {
        true
    }

    open spec fn from_spec(rgb: [u8; 3]) -> Cell {
        Cell { r: rgb[0], g: rgb[1], b: rgb[2] }
    }
}

impl From<(u8, u8, u8)> for Cell {
    /// Returns a cell whose RGB values are the triple's entries, in order.
    fn from(rgb: (u8, u8, u8)) -> (c: Self) {
        Cell { r: rgb.0, g: rgb.1, b: rgb.2 }
    }
}

impl vstd::std_specs::convert::FromSpecImpl<(u8, u8, u8)> for Cell {
    open spec fn obeys_from_spec() -> bool {
        true
    }

    open spec fn from_spec(rgb: (u8, u8, u8)) -> Cell {
        Cell { r: rgb.0, g: rgb.1, b: rgb.2 }
    }
}

impl From<u8> for Cell {
    /// Returns a cell whose RGB values are all set to `rgb`.
    fn from(rgb: u8) -> (c: Self) {
        Cell { r: rgb, g: rgb, b: rgb }
    }
}

impl vstd::std_specs::convert::FromSpecImpl<u8> for Cell {
    open spec fn obeys_from_spec() -> bool {
        true
    }

    open spec fn from_spec(rgb: u8) -> Cell {
        Cell { r: rgb, g: rgb, b: rgb }
    }
}

impl From<bool> for Cell {
    /// If true, returns an alive (white) cell; otherwise a dead one.
    fn from(alive: bool) -> (c: Self) {
        if alive {
            Cell::alive()
        } else {
            Cell::dead()
        }
    }
}

impl vstd::std_specs::convert::FromSpecImpl<bool> for Cell {
    open spec fn obeys_from_spec() -> bool {
        true
    }

    open spec fn from_spec(alive: bool) -> Cell {
        if alive {
            Cell { r: 255, g: 255, b: 255 }
        } else {
            Cell { r: 0, g: 0, b: 0 }
        }
    }
}

/// A value that converts into a [`Cell`], used to bulk-load a grid from any
/// row-major two-dimensional sequence.
pub trait ToCell: Sized {
    /// The cell this value stands for.
    spec fn to_cell_spec(self) -> Cell;

    /// Converts the value into its cell.
    fn to_cell(self) -> (c: Cell)
        ensures
            c == self.to_cell_spec(),
    ;
}

impl ToCell for Cell {
    open spec fn to_cell_spec(self) -> Cell {
        self
    }

    fn to_cell(self) -> (c: Cell) {
        self
    }
}

impl ToCell for bool {
    /// `true` stands for [`Cell::alive`], `false` for [`Cell::dead`].
    open spec fn to_cell_spec(self) -> Cell {
        if self {
            Cell { r: 255, g: 255, b: 255 }
        } else {
            Cell { r: 0, g: 0, b: 0 }
        }
    }

    fn to_cell(self) -> (c: Cell) {
        if self {
            Cell::alive()
        } else {
            Cell::dead()
        }
    }
}

impl ToCell for u8 {
    /// A single byte is broadcast to all three channels.
    open spec fn to_cell_spec(self) -> Cell {
        Cell { r: self, g: self, b: self }
    }

    fn to_cell(self) -> (c: Cell) {
        Cell::all(self)
    }
}

impl ToCell for [u8; 3] {
    /// A byte triple is read as red, green, blue.
    open spec fn to_cell_spec(self) -> Cell {
        Cell { r: self[0], g: self[1], b: self[2] }
    }

    fn to_cell(self) -> (c: Cell) {
        Cell { r: self[0], g: self[1], b: self[2] }
    }
}

impl ToCell for (u8, u8, u8) {
    /// A byte triple is read as red, green, blue.
    open spec fn to_cell_spec(self) -> Cell {
        Cell { r: self.0, g: self.1, b: self.2 }
    }

    fn to_cell(self) -> (c: Cell) {
        Cell { r: self.0, g: self.1, b: self.2 }
    }
}

/// How many cells of `cells` are alive.
pub open spec fn alive_count(cells: Seq<Cell>) -> int
    decreases cells.len(),
{
    if cells.len() == 0 {
        0
    } else {
        alive_count(cells.drop_last()) + if cells.last().spec_is_alive() {
            1int
        } else {
            0int
        }
    }
}

/// Convenience trait for a neighbor set, `[Cell; 8]`.
///
/// The eight slots hold, in this fixed order: top-left, top, top-right,
/// left, right, bottom-left, bottom, bottom-right. The directional methods
/// read those fixed positions, and [`CellNeighbors::alive`] counts how many
/// of the eight cells are alive.
pub trait CellNeighbors: Sized {
    /// The neighbor cells as a sequence, in the fixed order.
    spec fn cells_seq(self) -> Seq<Cell>;

    /// Returns the number of neighboring alive cells.
    fn alive(self) -> (n: u8)
        ensures
            n as int == alive_count(self.cells_seq()),
    ;

    /// Returns the cell at position 0: top-left.
    fn top_left(self) -> (c: Cell)
        ensures
            c == self.cells_seq()[0],
    ;

    /// Returns the cell at position 1: top.
    fn top(self) -> (c: Cell)
        ensures
            c == self.cells_seq()[1],
    ;

    /// Returns the cell at position 2: top-right.
    fn top_right(self) -> (c: Cell)
        ensures
            c == self.cells_seq()[2],
    ;

    /// Returns the cell at position 3: left.
    fn left(self) -> (c: Cell)
        ensures
            c == self.cells_seq()[3],
    ;

    /// Returns the cell at position 4: right.
    fn right(self) -> (c: Cell)
        ensures
            c == self.cells_seq()[4],
    ;

    /// Returns the cell at position 5: bottom-left.
    fn bottom_left(self) -> (c: Cell)
        ensures
            c == self.cells_seq()[5],
    ;

    /// Returns the cell at position 6: bottom.
    fn bottom(self) -> (c: Cell)
        ensures
            c == self.cells_seq()[6],
    ;

    /// Returns the cell at position 7: bottom-right.
    fn bottom_right(self) -> (c: Cell)
        ensures
            c == self.cells_seq()[7],
    ;
}

impl CellNeighbors for [Cell; 8] {
    open spec fn cells_seq(self) -> Seq<Cell> {
        self@
    }

    fn alive(self) -> (n: u8) {
        let mut n: u8 = 0;
        let mut i: usize = 0;
        while i < 8
            invariant
                i <= 8,
                n as int == alive_count(self@.take(i as int)),
                n as int <= i,
            decreases 8 - i,
        {
            proof {
                assert(self@.take(i + 1 as int).drop_last() =~= self@.take(i as int));
                assert(self@.take(i + 1 as int).last() == self@[i as int]);
            }
            if self[i].is_alive() {
                n = n + 1;
            }
            i = i + 1;
        }
        proof {
            assert(self@.take(8) =~= self@);
        }
        n
    }

    fn top_left(self) -> (c: Cell) {
        self[0]
    }

    fn top(self) -> (c: Cell) {
        self[1]
    }

    fn top_right(self) -> (c: Cell) {
        self[2]
    }

    fn left(self) -> (c: Cell) {
        self[3]
    }

    fn right(self) -> (c: Cell) {
        self[4]
    }

    fn bottom_left(self) -> (c: Cell) {
        self[5]
    }

    fn bottom(self) -> (c: Cell) {
        self[6]
    }

    fn bottom_right(self) -> (c: Cell) {
        self[7]
    }
}

} // verus!
