//! The board: a rectangle of slots in row-major order.

use vstd::prelude::*;
use vstd::multiset::Multiset;
use crate::chance::draw_between;
use crate::material::{Color, MaterialId, UNIT};
use crate::particle::{Particle, Velocity};

verus! {

/// The mathematical model of a board: its size and its slots, row by row.
pub struct Grid {
    pub width: nat,
    pub height: nat,
    pub cells: Seq<Particle>,
}

impl Grid {
    /// Both sides are positive and fit sixteen bits, every slot is there, and
    /// every entropy is in range.
    pub open spec fn wf(self) -> bool {
        &&& 0 < self.width <= u16::MAX
        &&& 0 < self.height <= u16::MAX
        &&& self.cells.len() == self.width * self.height
        &&& forall|i: int| 0 <= i < self.cells.len() ==> (#[trigger] self.cells[i]).entropy < UNIT
    }

    /// Whether `(row, col)` names a slot.
    pub open spec fn holds(self, row: int, col: int) -> bool {
        0 <= row < self.height && 0 <= col < self.width
    }

    /// The place of slot `(row, col)` in `cells`.
    pub open spec fn at(self, row: int, col: int) -> int {
        row * self.width + col
    }

    /// The content of slot `(row, col)`.
    pub open spec fn cell(self, row: int, col: int) -> Particle {
        self.cells[self.at(row, col)]
    }

    /// The grid with `cells` in place of its own.
    pub open spec fn with_cells(self, cells: Seq<Particle>) -> Grid {
        Grid { cells, ..self }
    }

    /// The grid after slot `i` takes the content of `p`. The slot keeps its entropy.
    pub open spec fn filled(self, i: int, p: Particle) -> Grid {
        self.with_cells(self.cells.update(i, p.housed(self.cells[i].entropy)))
    }

    /// The grid after slots `a` and `b` trade contents. Material, velocity and
    /// the settled mark travel; each slot keeps its entropy.
    pub open spec fn traded(self, a: int, b: int) -> Grid {
        self.filled(a, self.cells[b]).filled(b, self.cells[a])
    }

    /// Every slot is empty and at rest.
    pub open spec fn blank(self) -> bool {
        forall|i: int| 0 <= i < self.cells.len() ==> (#[trigger] self.cells[i]).is_vacant()
    }

    /// The colour of each slot, row by row.
    pub open spec fn colors(self) -> Seq<Color> {
        self.cells.map_values(|p: Particle| p.material.entry().color)
    }

    /// The materials on the grid, each as often as it occurs.
    pub open spec fn materials(self) -> Multiset<MaterialId> {
        self.cells.map_values(|p: Particle| p.material).to_multiset()
    }

    /// The row and column of slot `i`: its quotient and remainder by the width.
    pub proof fn lemma_slot_of_index(self, i: int)
        requires
            self.wf(),
            0 <= i < self.cells.len(),
        ensures
            self.holds(i / (self.width as int), i % (self.width as int)),
            self.at(i / (self.width as int), i % (self.width as int)) == i,
    {
        let w = self.width as int;
        let h = self.height as int;
        vstd::arithmetic::div_mod::lemma_fundamental_div_mod(i, w);
        vstd::arithmetic::div_mod::lemma_multiply_divide_lt(i, w, h);
        assert(w * (i / w) == (i / w) * w) by (nonlinear_arith);
        assert(0 <= i / w) by (nonlinear_arith)
            requires
                0 <= i,
                0 < w,
        ;
    }

    /// The slot of a row and a column on the board lies among the slots.
    pub proof fn lemma_at_in_range(self, row: int, col: int)
        requires
            self.wf(),
            self.holds(row, col),
        ensures
            0 <= self.at(row, col) < self.cells.len(),
    {
        let w = self.width as int;
        let h = self.height as int;
        assert(row * w + col < h * w) by (nonlinear_arith)
            requires
                0 <= row < h,
                0 <= col < w,
        ;
        assert(0 <= row * w + col) by (nonlinear_arith)
            requires
                0 <= row,
                0 <= col,
                0 < w,
        ;
        assert(h * w == w * h) by (nonlinear_arith);
    }
}

/// Why an operation on the board was refused.
#[derive(Clone, Copy, Debug, PartialEq, Eq, Structural)]
pub enum BoardError {
    /// A coordinate names no slot of the board.
    Bounds,
    /// A board needs at least one row and one column.
    InvalidDimensions,
}

/// The board. It owns every slot; empty space is a slot of void.
#[derive(Clone, Debug)]
pub struct Board {
    width: u16,
    height: u16,
    contents: Vec<Particle>,
}

impl View for Board {
    type V = Grid;

    closed spec fn view(&self) -> Grid {
        Grid { width: self.width as nat, height: self.height as nat, cells: self.contents@ }
    }
}

impl Board {
    /// The board's model is well formed.
    pub open spec fn wf(&self) -> bool {
        self@.wf()
    }

    /// Makes a board of `width` by `height` empty slots at rest, each with a
    /// fresh entropy. A side of zero is refused.
    pub fn create_board(width: u16, height: u16) -> (made: Result<Board, BoardError>)
        ensures
            made is Err <==> width == 0 || height == 0,
            made matches Err(e) ==> e == BoardError::InvalidDimensions,
            made matches Ok(b) ==> {
                &&& b.wf()
                &&& b@.width == width
                &&& b@.height == height
                &&& b@.blank()
            },
    {
        if width == 0 || height == 0 {
            return Err(BoardError::InvalidDimensions);
        }
        let contents = Self::blank_slots(width, height);
        Ok(Board { width, height, contents })
    }

    /// Draws `width * height` empty slots.
    fn blank_slots(width: u16, height: u16) -> (slots: Vec<Particle>)
        ensures
            slots@.len() == width * height,
            forall|i: int| 0 <= i < slots@.len() ==> (#[trigger] slots@[i]).is_vacant(),
    {
        assert(width * height <= 0xffff * 0xffff) by (nonlinear_arith)
            requires
                width <= 0xffff,
                height <= 0xffff,
        ;
        let count: usize = (width as usize) * (height as usize);
        let mut slots: Vec<Particle> = Vec::with_capacity(count);
        let mut made: usize = 0;
        while made < count
            invariant
                made <= count,
                slots@.len() == made,
                forall|i: int| 0 <= i < slots@.len() ==> (#[trigger] slots@[i]).is_vacant(),
            decreases count - made,
        {
            let draw = draw_between(0, 1000);
            let p = Particle::vacant(draw);
            slots.push(p);
            made = made + 1;
        }
        slots
    }

    /// Empties the board: every slot becomes void at rest with a fresh entropy,
    /// as on a board just made with the same sides.
    pub fn reset(&mut self)
        requires
            old(self).wf(),
        ensures
            final(self).wf(),
            final(self)@.width == old(self)@.width,
            final(self)@.height == old(self)@.height,
            final(self)@.blank(),
    {
        self.contents = Self::blank_slots(self.width, self.height);
    }

    /// The slots in row-major order, for a host that draws them.
    pub fn cells(&self) -> (slots: &Vec<Particle>)
        ensures
            slots@ == self@.cells,
    {
        &self.contents
    }

    /// The colour of each slot in row-major order, for a host that draws the
    /// board.
    pub fn colors(&self) -> (shown: Vec<Color>)
        ensures
            shown@ == self@.colors(),
    {
        let count = self.contents.len();
        let mut shown: Vec<Color> = Vec::with_capacity(count);
        let mut i: usize = 0;
        while i < count
            invariant
                i <= count == self.contents@.len(),
                shown@.len() == i,
                forall|j: int| 0 <= j < i ==> shown@[j] == self.contents@[j].material.entry().color,
            decreases count - i,
        {
            shown.push(self.contents[i].material.material().color);
            i = i + 1;
        }
        assert(shown@ =~= self@.colors());
        shown
    }

    /// Where slot `(row, col)` lies in the row-major order.
    pub fn index_of(&self, row: usize, col: usize) -> (found: Result<usize, BoardError>)
        requires
            self.wf(),
        ensures
            found is Ok <==> self@.holds(row as int, col as int),
            found matches Ok(i) ==> i == self@.at(row as int, col as int) && i < self@.cells.len(),
            found matches Err(e) ==> e == BoardError::Bounds,
    {
        if row < self.height as usize && col < self.width as usize {
            Ok(self.slot(row, col))
        } else {
            Err(BoardError::Bounds)
        }
    }

    /// Where slot `(row, col)` of the board lies in the row-major order.
    pub(crate) fn slot(&self, row: usize, col: usize) -> (i: usize)
        requires
            self.wf(),
            self@.holds(row as int, col as int),
        ensures
            i == self@.at(row as int, col as int),
            i < self@.cells.len(),
    {
        proof {
            self@.lemma_at_in_range(row as int, col as int);
            assert(self@.at(row as int, col as int) == row * self.width + col);
            assert(0 <= row * self.width <= 0xffff * 0xffff) by (nonlinear_arith)
                requires
                    row < 0xffff,
                    self.width <= 0xffff,
            ;
        }
        row * (self.width as usize) + col
    }

    /// Reads slot `(row, col)`.
    pub fn get(&self, row: usize, col: usize) -> (found: Result<Particle, BoardError>)
        requires
            self.wf(),
        ensures
            found is Ok <==> self@.holds(row as int, col as int),
            found matches Ok(p) ==> p == self@.cell(row as int, col as int),
            found matches Err(e) ==> e == BoardError::Bounds,
    {
        match self.index_of(row, col) {
            Ok(i) => Ok(self.contents[i]),
            Err(e) => Err(e),
        }
    }

    /// Writes `material` with `velocity` into slot `(row, col)`. The slot is
    /// left unsettled and keeps its entropy. Outside the board nothing changes.
    pub fn set(&mut self, row: usize, col: usize, material: MaterialId, velocity: Velocity) -> (done:
        Result<(), BoardError>)
        requires
            old(self).wf(),
        ensures
            final(self).wf(),
            done is Ok <==> old(self)@.holds(row as int, col as int),
            done is Ok ==> final(self)@ == old(self)@.filled(
                old(self)@.at(row as int, col as int),
                Particle { material, velocity, settled: false, entropy: 0 },
            ),
            done matches Err(e) ==> e == BoardError::Bounds && final(self)@ == old(self)@,
    {
        match self.index_of(row, col) {
            Ok(i) => {
                self.put(i, Particle { material, velocity, settled: false, entropy: 0 });
                Ok(())
            },
            Err(e) => Err(e),
        }
    }

    /// Trades the contents of slots `a` and `b`, each given as `(row, col)`.
    /// Material, velocity and the settled mark travel; each slot keeps its
    /// entropy. If either lies outside the board nothing changes.
    pub fn swap(&mut self, a: (usize, usize), b: (usize, usize)) -> (done: Result<(), BoardError>)
        requires
            old(self).wf(),
        ensures
            final(self).wf(),
            done is Ok <==> old(self)@.holds(a.0 as int, a.1 as int) && old(self)@.holds(
                b.0 as int,
                b.1 as int,
            ),
            done is Ok ==> final(self)@ == old(self)@.traded(
                old(self)@.at(a.0 as int, a.1 as int),
                old(self)@.at(b.0 as int, b.1 as int),
            ),
            done matches Err(e) ==> e == BoardError::Bounds && final(self)@ == old(self)@,
    {
        let i = match self.index_of(a.0, a.1) {
            Ok(i) => i,
            Err(e) => {
                return Err(e);
            },
        };
        let j = match self.index_of(b.0, b.1) {
            Ok(j) => j,
            Err(e) => {
                return Err(e);
            },
        };
        self.trade(i, j);
        Ok(())
    }

    /// The number of slots.
    pub(crate) fn slot_count(&self) -> (n: usize)
        requires
            self.wf(),
        ensures
            n == self@.cells.len(),
    {
        self.contents.len()
    }

    /// Reads slot `i` of the row-major order.
    pub(crate) fn peek(&self, i: usize) -> (p: Particle)
        requires
            i < self@.cells.len(),
        ensures
            p == self@.cells[i as int],
    {
        self.contents[i]
    }

    /// Gives slot `i` the content of `p`; the slot keeps its entropy.
    pub(crate) fn put(&mut self, i: usize, p: Particle)
        requires
            old(self).wf(),
            i < old(self)@.cells.len(),
        ensures
            final(self).wf(),
            final(self)@ == old(self)@.filled(i as int, p),
    {
        let entropy = self.contents[i].entropy;
        self.contents.set(i, Particle { entropy, ..p });
        assert(self@.cells =~= old(self)@.filled(i as int, p).cells);
    }

    /// Trades the contents of slots `a` and `b`; each keeps its entropy.
    pub(crate) fn trade(&mut self, a: usize, b: usize)
        requires
            old(self).wf(),
            a < old(self)@.cells.len(),
            b < old(self)@.cells.len(),
        ensures
            final(self).wf(),
            final(self)@ == old(self)@.traded(a as int, b as int),
    {
        let first = self.contents[a];
        let second = self.contents[b];
        self.put(a, second);
        self.put(b, first);
    }

    /// The number of columns.
    pub fn get_width(&self) -> (w: u16)
        ensures
            w == self@.width,
    {
        self.width
    }

    /// The number of rows.
    pub fn get_height(&self) -> (h: u16)
        ensures
            h == self@.height,
    {
        self.height
    }
}

} // verus!
