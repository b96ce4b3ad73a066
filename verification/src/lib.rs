//! Conway-style cellular automaton on a fixed-size toroidal grid.
//!
//! A [`Universe`] owns a rectangular grid of [`Cell`]s stored in row-major
//! order. It advances one generation at a time with [`Universe::tick`],
//! counting the eight wraparound neighbors of every cell against a snapshot
//! of the current generation, and renders its state as text with
//! [`Universe::render`].

use vstd::prelude::*;
use vstd::arithmetic::div_mod::{
    lemma_fundamental_div_mod_converse, lemma_mod_multiples_vanish, lemma_small_mod,
};

verus! {

/// One grid cell: either dead or alive. Compared by value.
#[derive(Clone, Copy, Debug, PartialEq, Eq, Structural)]
pub enum Cell {
    Dead,
    Alive,
}

/// A toroidal grid of cells.
///
/// `cells` holds exactly `width * height` cells in row-major order
/// (the cell at `(row, column)` sits at index `row * width + column`).
pub struct Universe {
    pub width: u32,
    pub height: u32,
    pub cells: Vec<Cell>,
}

/// 1 if the cell at `(r, c)` of a row-major grid of width `w` is alive, else 0.
pub open spec fn alive_at(cells: Seq<Cell>, w: nat, r: int, c: int) -> int {
    if cells[r * w + c] is Alive {
        1int
    } else {
        0int
    }
}

/// The number of live cells among the eight toroidal neighbors of `(r, c)`
/// in a row-major grid of width `w` and height `h`: each axis offset in
/// `{-1, 0, +1}` is reduced modulo the grid dimension, and the cell itself
/// (offset `(0, 0)`) is excluded.
pub open spec fn neighbor_count(cells: Seq<Cell>, w: nat, h: nat, r: int, c: int) -> int {
    let up = (r + h - 1) % (h as int);
    let down = (r + 1) % (h as int);
    let left = (c + w - 1) % (w as int);
    let right = (c + 1) % (w as int);
    alive_at(cells, w, up, left) + alive_at(cells, w, up, c) + alive_at(cells, w, up, right)
        + alive_at(cells, w, r, left) + alive_at(cells, w, r, right) + alive_at(
        cells,
        w,
        down,
        left,
    ) + alive_at(cells, w, down, c) + alive_at(cells, w, down, right)
}

/// The transition rule, applied to one cell's current state and its live
/// neighbor count: a dead cell with between 2 and 4 (inclusive) live
/// neighbors becomes alive; every other cell is dead in the next generation.
pub open spec fn next_cell(cur: Cell, n: int) -> Cell {
    if cur is Dead && 2 <= n <= 4 {
        Cell::Alive
    } else {
        Cell::Dead
    }
}

/// The whole next generation of a row-major grid: the transition rule applied
/// to every cell, with all neighbor counts taken against the same snapshot.
pub open spec fn next_gen(cells: Seq<Cell>, w: nat, h: nat) -> Seq<Cell> {
    Seq::new(
        cells.len(),
        |i: int| next_cell(cells[i], neighbor_count(cells, w, h, i / (w as int), i % (w as int))),
    )
}

/// The glyph that renders one cell: a filled square for a live cell, an open
/// square for a dead one.
pub open spec fn glyph_char(c: Cell) -> char {
    if c is Alive {
        '◼'
    } else {
        '◻'
    }
}

/// The text rendering of a row-major grid: `h` lines, top to bottom, each
/// holding `w` glyphs left to right, each glyph followed by one space, and
/// each line (the last included) terminated by a newline. Line `r` therefore
/// starts at position `r * (2 * w + 1)`, and position `j` holds the glyph or
/// trailing space of the cell at `(j / (2 * w + 1), (j % (2 * w + 1)) / 2)`,
/// or a newline at the end of its line.
pub open spec fn render_spec(cells: Seq<Cell>, w: nat, h: nat) -> Seq<char> {
    Seq::new(
        h * (2 * w + 1),
        |j: int|
            {
                let line = j / (2 * w + 1) as int;
                let o = j % (2 * w + 1) as int;
                if o == 2 * w {
                    '\n'
                } else if o % 2 == 1 {
                    ' '
                } else {
                    glyph_char(cells[line * w + o / 2])
                }
            },
    )
}

/// Whether `i` is one of the four indices of the 2x2 seed block centered at
/// `(h / 2, w / 2)` in a row-major grid of width `w` and height `h`.
pub open spec fn is_seed_index(i: int, w: int, h: int) -> bool {
    let center = (h / 2) * w + w / 2;
    i == center || i == center + 1 || i == center + w || i == center + w + 1
}

/// Relies on `String::push`: appends the given character to the end of the
/// string.
#[verifier::external_body]
fn push_char(s: &mut String, c: char)
    ensures
        final(s)@ == old(s)@.push(c),
{
    s.push(c);
}

impl Universe {
    /// The grid invariant: positive dimensions and a cell buffer of exactly
    /// `width * height` cells.
    pub open spec fn wf(self) -> bool {
        &&& self.width >= 1
        &&& self.height >= 1
        &&& self.cells@.len() == self.width * self.height
    }

    /// Construct the default 64 x 64 universe: all cells dead except a 2x2
    /// block of live cells centered at `(height / 2, width / 2)`.
    pub fn new() -> (u: Universe)
        ensures
            u.wf(),
            u.width == 64,
            u.height == 64,
            forall|i: int|
                0 <= i < u.cells@.len() ==> (u.cells@[i] is Alive <==> is_seed_index(i, 64, 64)),
    {
        let n: usize = 64 * 64;
        let mut cells: Vec<Cell> = vec![Cell::Dead; n];
        let center: usize = (64 / 2) * 64 + 64 / 2;
        cells[center] = Cell::Alive;
        cells[center + 1] = Cell::Alive;
        cells[center + 64] = Cell::Alive;
        cells[center + 64 + 1] = Cell::Alive;
        Universe { width: 64, height: 64, cells }
    }

    /// Row-major index of the cell at `(row, column)`.
    fn get_index(&self, row: u32, column: u32) -> (idx: usize)
        requires
            self.wf(),
            row < self.height,
            column < self.width,
        ensures
            idx == row * self.width + column,
            idx < self.cells@.len(),
    {
        proof {
            assert(row * self.width + column < self.height * self.width) by (nonlinear_arith)
                requires
                    row < self.height,
                    column < self.width,
                    self.width >= 1,
            ;
        }
        // The buffer length is a usize, so the index, which is below
        // `width * height == cells.len()`, fits in a usize as well.
        let n = self.cells.len();
        (row as usize) * (self.width as usize) + (column as usize)
    }

    /// The cell at `(row, column)`.
    pub fn get_cell(&self, row: u32, column: u32) -> (c: Cell)
        requires
            self.wf(),
            row < self.height,
            column < self.width,
        ensures
            c == self.cells@[row * self.width + column],
    {
        let i = self.get_index(row, column);
        self.cells[i]
    }

    /// The number of live cells among the eight toroidal neighbors of
    /// `(row, column)`, per [`neighbor_count`].
    pub fn live_neighbor_count(&self, row: u32, column: u32) -> (count: u8)
        requires
            self.wf(),
            row < self.height,
            column < self.width,
        ensures
            count == neighbor_count(
                self.cells@,
                self.width as nat,
                self.height as nat,
                row as int,
                column as int,
            ),
            count <= 8,
    {
        let up = if row == 0 {
            self.height - 1
        } else {
            row - 1
        };
        let down = if row + 1 == self.height {
            0
        } else {
            row + 1
        };
        let left = if column == 0 {
            self.width - 1
        } else {
            column - 1
        };
        let right = if column + 1 == self.width {
            0
        } else {
            column + 1
        };
        proof {
            lemma_wrap_dec(row as int, self.height as int);
            lemma_wrap_inc(row as int, self.height as int);
            lemma_wrap_dec(column as int, self.width as int);
            lemma_wrap_inc(column as int, self.width as int);
        }
        let mut count: u8 = 0;
        if self.get_cell(up, left) == Cell::Alive {
            count += 1;
        }
        if self.get_cell(up, column) == Cell::Alive {
            count += 1;
        }
        if self.get_cell(up, right) == Cell::Alive {
            count += 1;
        }
        if self.get_cell(row, left) == Cell::Alive {
            count += 1;
        }
        if self.get_cell(row, right) == Cell::Alive {
            count += 1;
        }
        if self.get_cell(down, left) == Cell::Alive {
            count += 1;
        }
        if self.get_cell(down, column) == Cell::Alive {
            count += 1;
        }
        if self.get_cell(down, right) == Cell::Alive {
            count += 1;
        }
        count
    }

    /// Advance one generation in place: the next state of every cell is
    /// computed against a snapshot of the current generation, then the whole
    /// cell buffer is replaced at once.
    #[verifier::spinoff_prover]
    #[verifier::rlimit(30)]
    pub fn tick(&mut self)
        requires
            old(self).wf(),
        ensures
            final(self).wf(),
            final(self).width == old(self).width,
            final(self).height == old(self).height,
            final(self).cells@ == next_gen(
                old(self).cells@,
                old(self).width as nat,
                old(self).height as nat,
            ),
    {
        let mut next: Vec<Cell> = Vec::new();
        for row in 0..self.height
            invariant
                *self == *old(self),
                self.wf(),
                next@.len() == row * self.width,
                forall|j: int|
                    0 <= j < next@.len() ==> next@[j] == next_gen(
                        self.cells@,
                        self.width as nat,
                        self.height as nat,
                    )[j],
        {
            for col in 0..self.width
                invariant
                    *self == *old(self),
                    self.wf(),
                    row < self.height,
                    next@.len() == row * self.width + col,
                    forall|j: int|
                        0 <= j < next@.len() ==> next@[j] == next_gen(
                            self.cells@,
                            self.width as nat,
                            self.height as nat,
                        )[j],
            {
                let cur = self.get_cell(row, col);
                let n = self.live_neighbor_count(row, col);
                let new_cell = if cur == Cell::Dead && 2 <= n && n <= 4 {
                    Cell::Alive
                } else {
                    Cell::Dead
                };
                proof {
                    let i = row * self.width + col;
                    lemma_fundamental_div_mod_converse(
                        i,
                        self.width as int,
                        row as int,
                        col as int,
                    );
                    assert(i < self.cells@.len()) by (nonlinear_arith)
                        requires
                            row < self.height,
                            col < self.width,
                            self.width >= 1,
                            i == row * self.width + col,
                            self.cells@.len() == self.width * self.height,
                    ;
                    assert(next_gen(self.cells@, self.width as nat, self.height as nat)[i]
                        == new_cell);
                }
                next.push(new_cell);
            }
            proof {
                assert((row + 1) * self.width == row * self.width + self.width)
                    by (nonlinear_arith);
            }
        }
        proof {
            assert(next@.len() == self.cells@.len()) by (nonlinear_arith)
                requires
                    next@.len() == self.height * self.width,
                    self.cells@.len() == self.width * self.height,
            ;
            assert(next@ =~= next_gen(self.cells@, self.width as nat, self.height as nat));
        }
        self.cells = next;
    }

    /// Produce the textual snapshot of the grid, per [`render_spec`].
    #[verifier::spinoff_prover]
    #[verifier::rlimit(30)]
    pub fn render(&self) -> (s: String)
        requires
            self.wf(),
        ensures
            s@ == render_spec(self.cells@, self.width as nat, self.height as nat),
    {
        let ghost g = render_spec(self.cells@, self.width as nat, self.height as nat);
        let mut s = String::new();
        for row in 0..self.height
            invariant
                self.wf(),
                g == render_spec(self.cells@, self.width as nat, self.height as nat),
                s@ == g.take(row * (2 * self.width + 1)),
        {
            let ghost base = 2 * self.width + 1;
            for col in 0..self.width
                invariant
                    self.wf(),
                    row < self.height,
                    base == 2 * self.width + 1,
                    g == render_spec(self.cells@, self.width as nat, self.height as nat),
                    s@ == g.take(row * base + 2 * col),
            {
                let c = self.get_cell(row, col);
                proof {
                    let j = row * base + 2 * col;
                    lemma_row_major_bound(row as int, 2 * col + 1, base, self.height as int);
                    lemma_fundamental_div_mod_converse(j, base, row as int, 2 * col);
                    lemma_fundamental_div_mod_converse(j + 1, base, row as int, 2 * col + 1);
                    lemma_fundamental_div_mod_converse(2 * col, 2, col as int, 0);
                    lemma_fundamental_div_mod_converse(2 * col + 1, 2, col as int, 1);
                    assert(g[j] == glyph_char(self.cells@[row * self.width + col]));
                    assert(g[j + 1] == ' ');
                }
                if c == Cell::Alive {
                    push_char(&mut s, '◼');
                } else {
                    push_char(&mut s, '◻');
                }
                push_char(&mut s, ' ');
                proof {
                    assert(s@ =~= g.take(row * base + 2 * (col + 1)));
                }
            }
            push_char(&mut s, '\n');
            proof {
                let j = row * base + 2 * self.width;
                lemma_row_major_bound(row as int, 2 * self.width as int, base, self.height as int);
                lemma_fundamental_div_mod_converse(j, base, row as int, 2 * self.width as int);
                assert(g[j] == '\n');
                assert((row + 1) * base == row * base + base) by (nonlinear_arith);
                assert(s@ =~= g.take((row + 1) * base));
            }
        }
        proof {
            assert(s@ =~= g);
        }
        s
    }
}

/// Stepping an in-range coordinate one place toward zero, with wraparound,
/// matches the `(x + m - 1) % m` form used by the neighbor-count model.
proof fn lemma_wrap_dec(x: int, m: int)
    requires
        0 <= x < m,
    ensures
        (x + m - 1) % m == if x == 0 {
            m - 1
        } else {
            x - 1
        },
{
    if x == 0 {
        lemma_small_mod((m - 1) as nat, m as nat);
    } else {
        lemma_mod_multiples_vanish(1, x - 1, m);
        lemma_small_mod((x - 1) as nat, m as nat);
    }
}

/// Stepping an in-range coordinate one place away from zero, with wraparound,
/// matches the `(x + 1) % m` form used by the neighbor-count model.
proof fn lemma_wrap_inc(x: int, m: int)
    requires
        0 <= x < m,
    ensures
        (x + 1) % m == if x + 1 == m {
            0
        } else {
            x + 1
        },
{
    if x + 1 == m {
        lemma_mod_multiples_vanish(1, 0, m);
        lemma_small_mod(0, m as nat);
    } else {
        lemma_small_mod((x + 1) as nat, m as nat);
    }
}

/// A row-major position `r * m + o` with in-range `r` and `o` lies within a
/// buffer of `h` rows of `m` entries each.
proof fn lemma_row_major_bound(r: int, o: int, m: int, h: int)
    requires
        0 <= r < h,
        0 <= o < m,
    ensures
        0 <= r * m + o,
        r * m + o < h * m,
{
    assert(0 <= r * m + o && r * m + o < h * m) by (nonlinear_arith)
        requires
            0 <= r < h,
            0 <= o < m,
    ;
}

/// A row-major index over a positive width is zero only for the cell at the
/// origin `(0, 0)`.
proof fn lemma_index_zero_only_at_origin(r: int, c: int, w: int)
    requires
        0 <= r,
        0 <= c,
        1 <= w,
    ensures
        r * w + c == 0 <==> r == 0 && c == 0,
{
    assert(r * w + c == 0 <==> r == 0 && c == 0) by (nonlinear_arith)
        requires
            0 <= r,
            0 <= c,
            1 <= w,
    ;
}

/// The seed pattern holds exactly four live cells: in a freshly constructed
/// default universe (the ensures of [`Universe::new`]), the set of live cell
/// indices is precisely the 2x2 block centered at `(height / 2, width / 2)`
/// — indices 2080, 2081, 2144 and 2145 of the 64 x 64 grid — and so has
/// size four.
pub proof fn lemma_seed_exactly_four(u: Universe)
    requires
        u.wf(),
        u.width == 64,
        u.height == 64,
        forall|i: int|
            0 <= i < u.cells@.len() ==> (u.cells@[i] is Alive <==> is_seed_index(i, 64, 64)),
    ensures
        Set::new(|i: int| 0 <= i < u.cells@.len() && u.cells@[i] is Alive) =~= set![
            2080int,
            2081int,
            2144int,
            2145int,
        ],
        Set::new(|i: int| 0 <= i < u.cells@.len() && u.cells@[i] is Alive).len() == 4,
{
    broadcast use vstd::set::group_set_axioms;

    let live = Set::new(|i: int| 0 <= i < u.cells@.len() && u.cells@[i] is Alive);
    let block = set![2080int, 2081int, 2144int, 2145int];
    assert(u.cells@.len() == 4096);
    assert(is_seed_index(2080, 64, 64) && is_seed_index(2081, 64, 64) && is_seed_index(
        2144,
        64,
        64,
    ) && is_seed_index(2145, 64, 64));
    assert(u.cells@[2080] is Alive);
    assert(u.cells@[2081] is Alive);
    assert(u.cells@[2144] is Alive);
    assert(u.cells@[2145] is Alive);
    assert forall|i: int| live.contains(i) implies block.contains(i) by {
        assert(u.cells@[i] is Alive <==> is_seed_index(i, 64, 64));
    }
    assert(live =~= block);
    assert(block.len() == 4);
}

/// Neighbor counting is toroidal: in a grid with at least three rows and
/// three columns whose only live cell is at `(0, 0)`, the cell at the
/// opposite corner `(h - 1, w - 1)` counts it as its diagonal wraparound
/// neighbor, and counts exactly one live neighbor in all.
///
/// Grids narrower than three cells on an axis are left out: there the
/// wrapped offsets coincide and the corner counts the origin more than once
/// (on a 2 x 2 grid it counts it four times).
pub proof fn lemma_neighbor_count_wraps_around(cells: Seq<Cell>, w: nat, h: nat)
    requires
        3 <= w,
        3 <= h,
        cells.len() == w * h,
        forall|i: int| 0 <= i < cells.len() ==> (cells[i] is Alive <==> i == 0),
    ensures
        neighbor_count(cells, w, h, h - 1, w - 1) == 1,
{
    assert(w * h == h * w) by (nonlinear_arith);
    lemma_mod_multiples_vanish(1, h - 2, h as int);
    lemma_small_mod((h - 2) as nat, h);
    lemma_mod_multiples_vanish(1, 0, h as int);
    lemma_small_mod(0, h);
    lemma_mod_multiples_vanish(1, w - 2, w as int);
    lemma_small_mod((w - 2) as nat, w);
    lemma_mod_multiples_vanish(1, 0, w as int);
    lemma_small_mod(0, w);
    assert((h - 1 + h - 1) % (h as int) == h - 2);
    assert((h - 1 + 1) % (h as int) == 0);
    assert((w - 1 + w - 1) % (w as int) == w - 2);
    assert((w - 1 + 1) % (w as int) == 0);
    lemma_row_major_bound(h - 2, w - 2, w as int, h as int);
    lemma_row_major_bound(h - 2, w - 1, w as int, h as int);
    lemma_row_major_bound(h - 2, 0, w as int, h as int);
    lemma_row_major_bound(h - 1, w - 2, w as int, h as int);
    lemma_row_major_bound(h - 1, 0, w as int, h as int);
    lemma_index_zero_only_at_origin(h - 2, w - 2, w as int);
    lemma_index_zero_only_at_origin(h - 2, w - 1, w as int);
    lemma_index_zero_only_at_origin(h - 2, 0, w as int);
    lemma_index_zero_only_at_origin(h - 1, w - 2, w as int);
    lemma_index_zero_only_at_origin(h - 1, 0, w as int);
    assert(alive_at(cells, w, 0, 0) == 1);
    assert(neighbor_count(cells, w, h, h - 1, w - 1) == 1);
}

/// The next generation is a function of the grid alone: two universes with
/// the same dimensions and the same cells advance to the same next
/// generation, so repeating [`Universe::tick`] from one starting grid, or
/// ticking two identically built grids once, yields identical results.
pub proof fn lemma_tick_deterministic(a: Universe, b: Universe)
    requires
        a.width == b.width,
        a.height == b.height,
        a.cells@ == b.cells@,
    ensures
        next_gen(a.cells@, a.width as nat, a.height as nat) == next_gen(
            b.cells@,
            b.width as nat,
            b.height as nat,
        ),
{
}

/// Render dimensions: the rendering of an `h`-row, `w`-column grid is
/// exactly `h * (2 * w + 1)` characters, and holds a newline exactly at the
/// last position of each `(2 * w + 1)`-character line — so splitting on
/// newlines yields `h` lines of `w` two-character glyphs each.
pub proof fn lemma_render_dimensions(cells: Seq<Cell>, w: nat, h: nat)
    ensures
        render_spec(cells, w, h).len() == h * (2 * w + 1),
        forall|j: int|
            0 <= j < h * (2 * w + 1) ==> (render_spec(cells, w, h)[j] == '\n' <==> j % ((2 * w
                + 1) as int) == 2 * w),
{
    let g = render_spec(cells, w, h);
    assert forall|j: int| 0 <= j < h * (2 * w + 1) implies (g[j] == '\n' <==> j % ((2 * w
        + 1) as int) == 2 * w) by {
        let o = j % (2 * w + 1) as int;
        if o != 2 * w {
            if o % 2 == 1 {
                assert(g[j] == ' ');
            } else {
                assert(g[j] == glyph_char(cells[(j / (2 * w + 1) as int) * w + o / 2]));
            }
        }
    }
}

} // verus!
