//! A generic cellular-automaton grid engine: a fixed-size 2D grid of colored
//! cells together with a transition mechanism that applies a caller-supplied
//! rule to every cell simultaneously.
//!
//! The grid is a rectangle of [`Cell`] values (RGB triples) with a
//! configurable out-of-bounds fill. [`Life::play`] computes, for every
//! position, the eight neighboring cells (substituting the fill for positions
//! outside the grid) and hands (current cell, neighbor set, x, y) to the
//! rule; every rule invocation reads the previous generation only, and the
//! new generation replaces the old one as one atomic step.

mod cell;

pub use cell::Cell;
pub use cell::CellNeighbors;
pub use cell::ToCell;
pub use cell::alive_count;

use vstd::prelude::*;

verus! {

/// A rectangular grid of [`Cell`]s with an out-of-bounds fill value.
///
/// The cell at column `x` (with `0 <= x < width`) and row `y` (with
/// `0 <= y < height`) is stored at index `y * width + x` of the flat,
/// row-major `cells` buffer. The dimensions are fixed at construction.
#[derive(Debug, PartialEq, Eq)]
pub struct Life {
    /// Number of columns; valid x coordinates are `0 <= x < width`.
    pub width: usize,
    /// Number of rows; valid y coordinates are `0 <= y < height`.
    pub height: usize,
    /// The cells, row-major: position (x, y) lives at `y * width + x`.
    pub cells: Vec<Cell>,
    /// The cell handed to the rule in place of any neighbor position that
    /// falls outside the grid.
    pub out_of_bounds: Cell,
}

impl Clone for Life {
    /// A clone holds the same dimensions, cells and out-of-bounds fill.
    fn clone(&self) -> (res: Self)
        ensures
            res.width == self.width,
            res.height == self.height,
            res.out_of_bounds == self.out_of_bounds,
            res.cells@ == self.cells@,
    {
        let cells = self.cells.clone();
        proof {
            assert forall|i: int| 0 <= i < self.cells@.len() implies cells@[i]
                == self.cells@[i] by {
                assert(cloned::<Cell>(self.cells[i], cells[i]));
            }
            assert(cells@ =~= self.cells@);
        }
        Life {
            width: self.width,
            height: self.height,
            cells,
            out_of_bounds: self.out_of_bounds,
        }
    }
}

impl Life {
    /// Well-formed: positive dimensions and a cell buffer of exactly
    /// `width * height` cells (which therefore fits in a `usize`).
    pub open spec fn wf(self) -> bool {
        &&& 0 < self.width
        &&& 0 < self.height
        &&& self.width * self.height <= usize::MAX
        &&& self.cells@.len() == self.width * self.height
    }

    /// The cell stored at position (x, y).
    pub open spec fn spec_cell(self, x: int, y: int) -> Cell
        recommends
            0 <= x < self.width,
            0 <= y < self.height,
    {
        self.cells@[y * self.width + x]
    }

    /// The cell a neighbor lookup at (x, y) yields: the stored cell when
    /// (x, y) is inside the grid, the out-of-bounds fill otherwise.
    pub open spec fn spec_neighbor(self, x: int, y: int) -> Cell {
        if 0 <= x < self.width && 0 <= y < self.height {
            self.spec_cell(x, y)
        } else {
            self.out_of_bounds
        }
    }

    /// The eight cells around (x, y), in the fixed order top-left, top,
    /// top-right, left, right, bottom-left, bottom, bottom-right.
    pub open spec fn spec_neighbors(self, x: int, y: int) -> Seq<Cell> {
        seq![
            self.spec_neighbor(x - 1, y - 1),
            self.spec_neighbor(x, y - 1),
            self.spec_neighbor(x + 1, y - 1),
            self.spec_neighbor(x - 1, y),
            self.spec_neighbor(x + 1, y),
            self.spec_neighbor(x - 1, y + 1),
            self.spec_neighbor(x, y + 1),
            self.spec_neighbor(x + 1, y + 1),
        ]
    }
}

/// A valid position's flat index lies inside the cell buffer.
pub proof fn lemma_index_bound(width: int, height: int, x: int, y: int)
    requires
        0 <= x < width,
        0 <= y < height,
    ensures
        0 <= y * width + x < width * height,
{
    assert(y * width + x < width * height) by (nonlinear_arith)
        requires
            0 <= x < width,
            0 <= y < height,
    ;
    assert(0 <= y * width) by (nonlinear_arith)
        requires
            0 <= y,
            0 < width,
    ;
}

/// Distinct valid positions have distinct flat indices.
pub proof fn lemma_index_injective(width: int, x1: int, y1: int, x2: int, y2: int)
    requires
        0 <= x1 < width,
        0 <= x2 < width,
        0 <= y1,
        0 <= y2,
        y1 * width + x1 == y2 * width + x2,
    ensures
        x1 == x2,
        y1 == y2,
{
    assert(y1 == y2) by (nonlinear_arith)
        requires
            0 <= x1 < width,
            0 <= x2 < width,
            0 <= y1,
            0 <= y2,
            y1 * width + x1 == y2 * width + x2,
    ;
}

/// The cell that position `k` of a row-major buffer of the given width takes
/// from the 2D source `rows`: the source entry there if the source covers
/// the position, a dead cell otherwise.
spec fn source_cell_at<T: ToCell>(rows: Seq<Vec<T>>, width: int, k: int) -> Cell {
    let y = k / width;
    let x = k % width;
    if 0 <= y < rows.len() && 0 <= x < rows[y]@.len() {
        rows[y]@[x].to_cell_spec()
    } else {
        Cell { r: 0, g: 0, b: 0 }
    }
}

impl Life {
    /// Creates an all-dead grid of the given dimensions, with a dead
    /// out-of-bounds fill.
    pub fn new(width: usize, height: usize) -> (life: Life)
        requires
            0 < width,
            0 < height,
            width * height <= usize::MAX,
        ensures
            life.wf(),
            life.width == width,
            life.height == height,
            life.out_of_bounds == (Cell { r: 0, g: 0, b: 0 }),
            forall|x: int, y: int|
                0 <= x < width && 0 <= y < height ==> life.spec_cell(x, y) == (Cell {
                    r: 0,
                    g: 0,
                    b: 0,
                }),
    {
        let total = width * height;
        let mut cells: Vec<Cell> = Vec::new();
        let mut k: usize = 0;
        while k < total
            invariant
                k <= total,
                cells@.len() == k,
                forall|i: int| 0 <= i < k ==> cells@[i] == (Cell { r: 0, g: 0, b: 0 }),
            decreases total - k,
        {
            cells.push(Cell::dead());
            k = k + 1;
        }
        let life = Life { width, height, cells, out_of_bounds: Cell::dead() };
        proof {
            assert forall|x: int, y: int| 0 <= x < width && 0 <= y < height implies life.spec_cell(
                x,
                y,
            ) == (Cell { r: 0, g: 0, b: 0 }) by {
                lemma_index_bound(width as int, height as int, x, y);
            }
        }
        life
    }

    /// Creates a grid of the given dimensions from a row-major 2D sequence
    /// of values convertible to [`Cell`] (booleans, bytes, byte triples, or
    /// cells themselves), with a dead out-of-bounds fill.
    ///
    /// A source larger than the grid is truncated: rows beyond `height` and
    /// entries beyond `width` in a row are ignored. A source smaller than
    /// the grid leaves the unfilled positions dead.
    pub fn from_rows<T: ToCell + Copy>(width: usize, height: usize, rows: &Vec<Vec<T>>) -> (life:
        Life)
        requires
            0 < width,
            0 < height,
            width * height <= usize::MAX,
        ensures
            life.wf(),
            life.width == width,
            life.height == height,
            life.out_of_bounds == (Cell { r: 0, g: 0, b: 0 }),
            forall|x: int, y: int|
                #![trigger life.spec_cell(x, y)]
                0 <= x < width && 0 <= y < height ==> life.spec_cell(x, y) == (if y < rows@.len()
                    && x < rows@[y]@.len() {
                    rows@[y]@[x].to_cell_spec()
                } else {
                    Cell { r: 0, g: 0, b: 0 }
                }),
    {
        let mut cells: Vec<Cell> = Vec::new();
        let mut y: usize = 0;
        while y < height
            invariant
                y <= height,
                cells@.len() == y * width,
                forall|k: int|
                    0 <= k < cells@.len() ==> #[trigger] cells@[k] == source_cell_at(
                        rows@,
                        width as int,
                        k,
                    ),
            decreases height - y,
        {
            let mut x: usize = 0;
            while x < width
                invariant
                    y < height,
                    x <= width,
                    cells@.len() == y * width + x,
                    forall|k: int|
                        0 <= k < cells@.len() ==> #[trigger] cells@[k] == source_cell_at(
                            rows@,
                            width as int,
                            k,
                        ),
                decreases width - x,
            {
                let c: Cell = if y < rows.len() {
                    let row = &rows[y];
                    if x < row.len() {
                        row[x].to_cell()
                    } else {
                        Cell::dead()
                    }
                } else {
                    Cell::dead()
                };
                let ghost old_cells: Seq<Cell> = cells@;
                cells.push(c);
                proof {
                    let w = width as int;
                    vstd::arithmetic::div_mod::lemma_fundamental_div_mod_converse(
                        y as int * w + x as int,
                        w,
                        y as int,
                        x as int,
                    );
                    assert forall|k: int| 0 <= k < cells@.len() implies #[trigger] cells@[k]
                        == source_cell_at(rows@, w, k) by {
                        if k < old_cells.len() {
                            assert(cells@[k] == old_cells[k]);
                        } else {
                            assert(cells@[k] == c);
                            assert(k == y as int * w + x as int);
                        }
                    }
                }
                x = x + 1;
            }
            proof {
                assert((y + 1) * width == y * width + width) by (nonlinear_arith);
            }
            y = y + 1;
        }
        proof {
            assert(height * width == width * height) by (nonlinear_arith);
        }
        let life = Life { width, height, cells, out_of_bounds: Cell::dead() };
        proof {
            let w = width as int;
            assert forall|x: int, y: int|
                #![trigger life.spec_cell(x, y)]
                0 <= x < width && 0 <= y < height implies life.spec_cell(x, y) == (if y
                < rows@.len() && x < rows@[y]@.len() {
                rows@[y]@[x].to_cell_spec()
            } else {
                Cell { r: 0, g: 0, b: 0 }
            }) by {
                lemma_index_bound(w, height as int, x, y);
                vstd::arithmetic::div_mod::lemma_fundamental_div_mod_converse(y * w + x, w, y, x);
                assert(life.spec_cell(x, y) == life.cells@[y * w + x]);
            }
        }
        life
    }

    /// Returns the cell at position (x, y).
    pub fn get(&self, x: usize, y: usize) -> (c: Cell)
        requires
            self.wf(),
            x < self.width,
            y < self.height,
        ensures
            c == self.spec_cell(x as int, y as int),
    {
        proof {
            lemma_index_bound(self.width as int, self.height as int, x as int, y as int);
        }
        let idx: usize = y * self.width + x;
        self.cells[idx]
    }

    /// Returns an immutable reference to the cell at position (x, y).
    pub fn get_ref(&self, x: usize, y: usize) -> (c: &Cell)
        requires
            self.wf(),
            x < self.width,
            y < self.height,
        ensures
            *c == self.spec_cell(x as int, y as int),
    {
        proof {
            lemma_index_bound(self.width as int, self.height as int, x as int, y as int);
        }
        let idx: usize = y * self.width + x;
        &self.cells[idx]
    }

    /// Returns a mutable reference to the cell at position (x, y); writing
    /// through it updates that position and no other.
    pub fn get_mut(&mut self, x: usize, y: usize) -> (cell: &mut Cell)
        requires
            old(self).wf(),
            x < old(self).width,
            y < old(self).height,
        ensures
            *cell == old(self).spec_cell(x as int, y as int),
            final(self).width == old(self).width,
            final(self).height == old(self).height,
            final(self).out_of_bounds == old(self).out_of_bounds,
            final(self).cells@ == old(self).cells@.update(
                y as int * old(self).width as int + x as int,
                *final(cell),
            ),
            final(self).wf(),
    {
        proof {
            lemma_index_bound(self.width as int, self.height as int, x as int, y as int);
        }
        let idx: usize = y * self.width + x;
        &mut self.cells[idx]
    }

    /// Sets the cell at position (x, y) to `cell`; every other position is
    /// left unchanged.
    pub fn set(&mut self, x: usize, y: usize, cell: Cell)
        requires
            old(self).wf(),
            x < old(self).width,
            y < old(self).height,
        ensures
            final(self).wf(),
            final(self).width == old(self).width,
            final(self).height == old(self).height,
            final(self).out_of_bounds == old(self).out_of_bounds,
            final(self).cells@ == old(self).cells@.update(
                y as int * old(self).width as int + x as int,
                cell,
            ),
            final(self).spec_cell(x as int, y as int) == cell,
            forall|i: int, j: int|
                0 <= i < old(self).width && 0 <= j < old(self).height && !(i == x && j == y)
                    ==> final(self).spec_cell(i, j) == old(self).spec_cell(i, j),
    {
        proof {
            lemma_index_bound(self.width as int, self.height as int, x as int, y as int);
        }
        let idx: usize = y * self.width + x;
        self.cells[idx] = cell;
        proof {
            assert forall|i: int, j: int|
                0 <= i < self.width && 0 <= j < self.height && !(i == x && j == y) implies self
                .spec_cell(i, j) == old(self).spec_cell(i, j) by {
                lemma_index_bound(self.width as int, self.height as int, i, j);
                if j * self.width + i == idx {
                    lemma_index_injective(self.width as int, i, j, x as int, y as int);
                }
            }
        }
    }

    /// Returns the eight cells around (x, y) in the fixed order top-left,
    /// top, top-right, left, right, bottom-left, bottom, bottom-right,
    /// substituting the out-of-bounds fill for positions outside the grid.
    pub fn get_surrounding(&self, x: usize, y: usize) -> (around: [Cell; 8])
        requires
            self.wf(),
            x < self.width,
            y < self.height,
        ensures
            around@ == self.spec_neighbors(x as int, y as int),
    {
        let oob = self.out_of_bounds;
        let mut tl = oob;
        let mut t = oob;
        let mut tr = oob;
        let mut l = oob;
        let mut r = oob;
        let mut bl = oob;
        let mut b = oob;
        let mut br = oob;
        if x != 0 {
            l = self.get(x - 1, y);
            if y != 0 {
                tl = self.get(x - 1, y - 1);
            }
            if y != self.height - 1 {
                bl = self.get(x - 1, y + 1);
            }
        }
        if y != 0 {
            t = self.get(x, y - 1);
            if x != self.width - 1 {
                tr = self.get(x + 1, y - 1);
            }
        }
        if x != self.width - 1 {
            r = self.get(x + 1, y);
            if y != self.height - 1 {
                br = self.get(x + 1, y + 1);
            }
        }
        if y != self.height - 1 {
            b = self.get(x, y + 1);
        }
        let around = [tl, t, tr, l, r, bl, b, br];
        proof {
            assert(around@ =~= self.spec_neighbors(x as int, y as int));
        }
        around
    }
}

/// Holds when `c` is a result the rule `f` allows at position (x, y) of the
/// grid `pre`: `f`, handed `pre`'s cell and neighbor set there, may return
/// `c`.
pub open spec fn rule_applied_at<F: Fn(Cell, [Cell; 8], usize, usize) -> Cell>(
    pre: Life,
    f: F,
    x: int,
    y: int,
    c: Cell,
) -> bool {
    exists|ns: [Cell; 8]|
        ns@ == pre.spec_neighbors(x, y) && call_ensures(
            f,
            (pre.spec_cell(x, y), ns, x as usize, y as usize),
            c,
        )
}

/// Every cell of the row-major buffer `buf` is a result the rule `f` allows
/// at the position the cell's index stands for in the grid `pre`.
spec fn rule_applied_row_major<F: Fn(Cell, [Cell; 8], usize, usize) -> Cell>(
    pre: Life,
    f: F,
    buf: Seq<Cell>,
) -> bool {
    forall|k: int|
        0 <= k < buf.len() ==> rule_applied_at(
            pre,
            f,
            k % (pre.width as int),
            k / (pre.width as int),
            #[trigger] buf[k],
        )
}

/// The relation between one generation and the next under rule `f`: the
/// dimensions and the out-of-bounds fill are kept, and every position's new
/// cell is a result the rule allows for that position's previous cell and
/// previous neighbor set. Every rule invocation reads the previous
/// generation only, so the update is synchronous: no invocation can observe
/// a neighbor already updated in the same generation.
pub open spec fn step_rel<F: Fn(Cell, [Cell; 8], usize, usize) -> Cell>(
    pre: Life,
    post: Life,
    f: F,
) -> bool {
    &&& post.width == pre.width
    &&& post.height == pre.height
    &&& post.out_of_bounds == pre.out_of_bounds
    &&& post.cells@.len() == pre.cells@.len()
    &&& forall|x: int, y: int|
        #![trigger pre.spec_cell(x, y)]
        #![trigger post.spec_cell(x, y)]
        0 <= x < pre.width && 0 <= y < pre.height ==> rule_applied_at(
            pre,
            f,
            x,
            y,
            post.spec_cell(x, y),
        )
}

impl Life {
    /// Invokes the given rule once on each cell, building the next
    /// generation from a read-only snapshot of the current one and
    /// publishing it as one atomic replacement.
    ///
    /// The rule's parameters are, in order: the cell itself, the cells
    /// surrounding it (see [`Life::get_surrounding`]), the x position and
    /// the y position.
    pub fn play<F: Fn(Cell, [Cell; 8], usize, usize) -> Cell>(&mut self, f: &F)
        requires
            old(self).wf(),
            forall|c: Cell, ns: [Cell; 8], x: usize, y: usize|
                x < old(self).width && y < old(self).height && c == old(self).spec_cell(
                    x as int,
                    y as int,
                ) && ns@ == old(self).spec_neighbors(x as int, y as int) ==> #[trigger] call_requires(
                    f,
                    (c, ns, x, y),
                ),
        ensures
            final(self).wf(),
            step_rel(*old(self), *final(self), *f),
    {
        let ghost orig: Life = *self;
        let width = self.width;
        let height = self.height;
        let mut proto: Vec<Cell> = Vec::new();
        let mut y: usize = 0;
        while y < height
            invariant
                *self == orig,
                self.wf(),
                width == self.width,
                height == self.height,
                y <= height,
                proto@.len() == y * width,
                forall|c: Cell, ns: [Cell; 8], i: usize, j: usize|
                    i < width && j < height && c == orig.spec_cell(i as int, j as int) && ns@
                        == orig.spec_neighbors(i as int, j as int) ==> #[trigger] call_requires(
                        f,
                        (c, ns, i, j),
                    ),
                rule_applied_row_major(orig, *f, proto@),
            decreases height - y,
        {
            let mut x: usize = 0;
            while x < width
                invariant
                    *self == orig,
                    self.wf(),
                    width == self.width,
                    height == self.height,
                    y < height,
                    x <= width,
                    proto@.len() == y * width + x,
                    forall|c: Cell, ns: [Cell; 8], i: usize, j: usize|
                        i < width && j < height && c == orig.spec_cell(i as int, j as int) && ns@
                            == orig.spec_neighbors(i as int, j as int)
                            ==> #[trigger] call_requires(f, (c, ns, i, j)),
                    rule_applied_row_major(orig, *f, proto@),
                decreases width - x,
            {
                proof {
                    lemma_index_bound(width as int, height as int, x as int, y as int);
                }
                let c = self.get(x, y);
                let around = self.get_surrounding(x, y);
                let newc = f(c, around, x, y);
                let ghost old_proto: Seq<Cell> = proto@;
                proto.push(newc);
                proof {
                    let w = width as int;
                    vstd::arithmetic::div_mod::lemma_fundamental_div_mod_converse(
                        y as int * w + x as int,
                        w,
                        y as int,
                        x as int,
                    );
                    assert(rule_applied_at(orig, *f, x as int, y as int, newc));
                    assert forall|k: int| 0 <= k < proto@.len() implies rule_applied_at(
                        orig,
                        *f,
                        k % w,
                        k / w,
                        #[trigger] proto@[k],
                    ) by {
                        if k < old_proto.len() {
                            assert(proto@[k] == old_proto[k]);
                        } else {
                            assert(proto@[k] == newc);
                            assert(k == y as int * w + x as int);
                        }
                    }
                }
                x = x + 1;
            }
            proof {
                assert((y + 1) * width == y * width + width) by (nonlinear_arith);
            }
            y = y + 1;
        }
        proof {
            assert(height * width == width * height) by (nonlinear_arith);
        }
        self.cells = proto;
        proof {
            let w = width as int;
            assert forall|x: int, y: int|
                #![trigger orig.spec_cell(x, y)]
                #![trigger self.spec_cell(x, y)]
                0 <= x < orig.width && 0 <= y < orig.height implies rule_applied_at(
                orig,
                *f,
                x,
                y,
                self.spec_cell(x, y),
            ) by {
                lemma_index_bound(w, height as int, x, y);
                vstd::arithmetic::div_mod::lemma_fundamental_div_mod_converse(y * w + x, w, y, x);
                assert(self.spec_cell(x, y) == proto@[y * w + x]);
            }
        }
    }

    /// Invokes the given rule `n` consecutive times on each cell, each
    /// generation building on the previous generation's published result;
    /// equivalent to `n` sequential calls to [`Life::play`]. With `n == 0`
    /// the grid is unchanged.
    ///
    /// The chain of grids in the postcondition lists every generation the
    /// run went through, from the starting grid to the final one, each
    /// related to the next by one [`step_rel`] step.
    pub fn play_for<F: Fn(Cell, [Cell; 8], usize, usize) -> Cell>(&mut self, n: u32, f: &F)
        requires
            old(self).wf(),
            forall|c: Cell, ns: [Cell; 8], x: usize, y: usize|
                x < old(self).width && y < old(self).height ==> #[trigger] call_requires(
                    f,
                    (c, ns, x, y),
                ),
        ensures
            final(self).wf(),
            final(self).width == old(self).width,
            final(self).height == old(self).height,
            final(self).out_of_bounds == old(self).out_of_bounds,
            n == 0 ==> *final(self) == *old(self),
            exists|chain: Seq<Life>|
                {
                    &&& chain.len() == n + 1
                    &&& chain[0] == *old(self)
                    &&& chain[n as int] == *final(self)
                    &&& forall|i: int| 0 <= i < n ==> #[trigger] step_rel(chain[i], chain[i + 1], *f)
                },
    {
        let ghost orig: Life = *self;
        let ghost mut chain: Seq<Life> = seq![orig];
        let mut i: u32 = 0;
        while i < n
            invariant
                i <= n,
                self.wf(),
                self.width == orig.width,
                self.height == orig.height,
                self.out_of_bounds == orig.out_of_bounds,
                chain.len() == i + 1,
                chain[0] == orig,
                chain[i as int] == *self,
                forall|j: int| 0 <= j < i ==> #[trigger] step_rel(chain[j], chain[j + 1], *f),
                forall|c: Cell, ns: [Cell; 8], x: usize, y: usize|
                    x < orig.width && y < orig.height ==> #[trigger] call_requires(
                        f,
                        (c, ns, x, y),
                    ),
            decreases n - i,
        {
            self.play(f);
            proof {
                chain = chain.push(*self);
            }
            i = i + 1;
        }
        proof {
            assert(chain.len() == n + 1 && chain[0] == orig && chain[n as int] == *self);
        }
    }
}

/// Two grids look the same to every observer: same dimensions, same
/// out-of-bounds fill, and the same cell at every valid position.
pub open spec fn grids_match(a: Life, b: Life) -> bool {
    &&& a.width == b.width
    &&& a.height == b.height
    &&& a.out_of_bounds == b.out_of_bounds
    &&& forall|x: int, y: int|
        #![trigger a.spec_cell(x, y)]
        #![trigger b.spec_cell(x, y)]
        0 <= x < a.width && 0 <= y < a.height ==> a.spec_cell(x, y) == b.spec_cell(x, y)
}

/// A rule is deterministic when it allows at most one result for any given
/// cell, neighbor set and position.
pub open spec fn rule_deterministic<F: Fn(Cell, [Cell; 8], usize, usize) -> Cell>(f: F) -> bool {
    forall|c: Cell, ns: [Cell; 8], x: usize, y: usize, r1: Cell, r2: Cell|
        call_ensures(f, (c, ns, x, y), r1) && call_ensures(f, (c, ns, x, y), r2) ==> r1 == r2
}

/// Grids that match have the same neighbor set at every position.
pub proof fn lemma_matching_grids_same_neighbors(a: Life, b: Life, x: int, y: int)
    requires
        grids_match(a, b),
    ensures
        a.spec_neighbors(x, y) == b.spec_neighbors(x, y),
{
    assert(a.spec_neighbors(x, y) =~= b.spec_neighbors(x, y));
}

/// Law: the update is a function of the previous generation. One step of a
/// deterministic rule from matching grids can only produce matching grids,
/// whatever order the positions were visited in.
pub proof fn lemma_step_rel_deterministic<F: Fn(Cell, [Cell; 8], usize, usize) -> Cell>(
    pre1: Life,
    post1: Life,
    pre2: Life,
    post2: Life,
    f: F,
)
    requires
        rule_deterministic(f),
        grids_match(pre1, pre2),
        step_rel(pre1, post1, f),
        step_rel(pre2, post2, f),
    ensures
        grids_match(post1, post2),
{
    broadcast use vstd::array::group_array_axioms;

    assert forall|x: int, y: int|
        #![trigger post1.spec_cell(x, y)]
        #![trigger post2.spec_cell(x, y)]
        0 <= x < post1.width && 0 <= y < post1.height implies post1.spec_cell(x, y)
        == post2.spec_cell(x, y) by {
        assert(rule_applied_at(pre1, f, x, y, post1.spec_cell(x, y)));
        assert(rule_applied_at(pre2, f, x, y, post2.spec_cell(x, y)));
        lemma_matching_grids_same_neighbors(pre1, pre2, x, y);
        let ns1 = choose|ns: [Cell; 8]|
            ns@ == pre1.spec_neighbors(x, y) && call_ensures(
                f,
                (pre1.spec_cell(x, y), ns, x as usize, y as usize),
                post1.spec_cell(x, y),
            );
        let ns2 = choose|ns: [Cell; 8]|
            ns@ == pre2.spec_neighbors(x, y) && call_ensures(
                f,
                (pre2.spec_cell(x, y), ns, x as usize, y as usize),
                post2.spec_cell(x, y),
            );
        assert(ns1@ == ns2@);
        assert forall|k: int| 0 <= k < 8 implies ns1[k] == ns2[k] by {
            assert(ns1@[k] == ns2@[k]);
        }
        assert(ns1 =~= ns2);
        assert(pre1.spec_cell(x, y) == pre2.spec_cell(x, y));
    }
}

/// Law: running a rule for `n` generations is the same as `n` manual single
/// steps. Any two step chains of equal length under one deterministic rule,
/// started from matching grids, match at every generation — in particular at
/// the last, so the grid `play_for` leaves behind matches the one left by
/// the same number of sequential `play` calls.
pub proof fn lemma_step_chains_match<F: Fn(Cell, [Cell; 8], usize, usize) -> Cell>(
    a: Seq<Life>,
    b: Seq<Life>,
    f: F,
    i: int,
)
    requires
        rule_deterministic(f),
        a.len() == b.len(),
        0 <= i < a.len(),
        grids_match(a[0], b[0]),
        forall|j: int| #![trigger a[j]] 0 <= j < a.len() - 1 ==> step_rel(a[j], a[j + 1], f),
        forall|j: int| #![trigger b[j]] 0 <= j < b.len() - 1 ==> step_rel(b[j], b[j + 1], f),
    ensures
        grids_match(a[i], b[i]),
    decreases i,
{
    if i > 0 {
        lemma_step_chains_match(a, b, f, i - 1);
        lemma_step_rel_deterministic(a[i - 1], a[i], b[i - 1], b[i], f);
    }
}

/// Law: a still life stays. A grid that one step of a deterministic rule
/// maps to itself is matched by every later generation of a step chain that
/// starts from it.
pub proof fn lemma_still_life_stays<F: Fn(Cell, [Cell; 8], usize, usize) -> Cell>(
    chain: Seq<Life>,
    f: F,
    i: int,
)
    requires
        rule_deterministic(f),
        0 <= i < chain.len(),
        step_rel(chain[0], chain[0], f),
        forall|j: int|
            #![trigger chain[j]]
            0 <= j < chain.len() - 1 ==> step_rel(chain[j], chain[j + 1], f),
    ensures
        grids_match(chain[i], chain[0]),
    decreases i,
{
    if i > 0 {
        lemma_still_life_stays(chain, f, i - 1);
        lemma_step_rel_deterministic(chain[i - 1], chain[i], chain[0], chain[0], f);
    }
}

} // verus!
