use vstd::prelude::*;

use crate::direction::Direction;
use crate::error::PipesError;
use crate::kind::Pipe;

verus! {

/// A cell's coordinates inside the bounded grid: `x` grows eastward,
/// `y` grows northward.
#[derive(Clone, Copy, PartialEq, Eq, Structural, Debug)]
pub struct Position {
    pub x: usize,
    pub y: usize,
}

/// A bounded rectangular grid of cells, each holding either nothing (blank)
/// or one placed pipe, stored row-major. Dimensions are fixed at
/// construction.
#[derive(PartialEq, Debug)]
pub struct Grid {
    width: usize,
    height: usize,
    cells: Vec<Option<Pipe>>,
}

/// The position a row-major index denotes in a grid of width `w`.
pub open spec fn spec_pos_from(w: int, i: int) -> Position {
    Position { x: (i % w) as usize, y: (i / w) as usize }
}

/// The number of occupied (non-blank) cells of a linear grid form.
pub open spec fn count_occupied(s: Seq<Option<Pipe>>) -> nat
    decreases s.len(),
{
    if s.len() == 0 {
        0
    } else {
        count_occupied(s.drop_last()) + if s.last() is Some {
            1nat
        } else {
            0nat
        }
    }
}

impl View for Grid {
    type V = Seq<Option<Pipe>>;

    /// The row-major sequence of this grid's cells.
    closed spec fn view(&self) -> Seq<Option<Pipe>> {
        self.cells@
    }
}

impl Grid {
    pub closed spec fn spec_width(&self) -> usize {
        self.width
    }

    pub closed spec fn spec_height(&self) -> usize {
        self.height
    }

    /// A grid is well formed when its dimensions are positive, its cell
    /// store covers exactly width x height cells, and every stored pipe is
    /// storable (well formed and of a placeable kind).
    pub open spec fn wf(&self) -> bool {
        &&& 0 < self.spec_width()
        &&& 0 < self.spec_height()
        &&& self@.len() == self.spec_width() * self.spec_height()
        &&& forall|i: int|
            0 <= i < self@.len() ==> (#[trigger] self@[i] matches Some(p) ==> p.spec_storable())
    }

    pub open spec fn spec_in_bounds(&self, pos: Position) -> bool {
        pos.x < self.spec_width() && pos.y < self.spec_height()
    }

    /// The row-major index of an in-bounds position.
    pub open spec fn spec_index(&self, pos: Position) -> int {
        pos.y * self.spec_width() + pos.x
    }

    /// The cell an in-bounds position holds.
    pub open spec fn spec_cell(&self, pos: Position) -> Option<Pipe> {
        self@[self.spec_index(pos)]
    }

    /// The position of a row-major index.
    pub open spec fn spec_position_of(&self, i: int) -> Position {
        spec_pos_from(self.spec_width() as int, i)
    }

    /// The position one step toward `dir` from `pos`, or `None` exactly at
    /// the grid boundary.
    pub open spec fn spec_neighbor(&self, pos: Position, dir: Direction) -> Option<Position> {
        match dir {
            Direction::North => if pos.y + 1 < self.spec_height() {
                Some(Position { x: pos.x, y: (pos.y + 1) as usize })
            } else {
                None
            },
            Direction::East => if pos.x + 1 < self.spec_width() {
                Some(Position { x: (pos.x + 1) as usize, y: pos.y })
            } else {
                None
            },
            Direction::South => if pos.y >= 1 {
                Some(Position { x: pos.x, y: (pos.y - 1) as usize })
            } else {
                None
            },
            Direction::West => if pos.x >= 1 {
                Some(Position { x: (pos.x - 1) as usize, y: pos.y })
            } else {
                None
            },
        }
    }

    /// A neighbor entry of an in-bounds position is itself in bounds, and
    /// is a different position.
    pub proof fn lemma_neighbor_in_bounds(&self, pos: Position, dir: Direction)
        requires
            self.spec_in_bounds(pos),
        ensures
            self.spec_neighbor(pos, dir) matches Some(np) ==> self.spec_in_bounds(np) && np
                != pos,
    {
    }

    /// A fresh grid of the given dimensions with every cell blank.
    pub fn new(width: usize, height: usize) -> (r: Grid)
        requires
            1 <= width,
            1 <= height,
            width * height <= usize::MAX,
        ensures
            r.wf(),
            r.spec_width() == width,
            r.spec_height() == height,
            forall|i: int| 0 <= i < r@.len() ==> r@[i] is None,
    {
        let n: usize = width * height;
        let mut cells: Vec<Option<Pipe>> = Vec::new();
        let mut i: usize = 0;
        while i < n
            invariant
                i <= n,
                cells@.len() == i,
                forall|j: int| 0 <= j < i ==> cells@[j] is None,
            decreases n - i,
        {
            cells.push(None);
            i = i + 1;
        }
        Grid { width, height, cells }
    }

    pub fn width(&self) -> (r: usize)
        ensures
            r == self.spec_width(),
    {
        self.width
    }

    pub fn height(&self) -> (r: usize)
        ensures
            r == self.spec_height(),
    {
        self.height
    }

    pub fn cell_count(&self) -> (r: usize)
        ensures
            r == self@.len(),
    {
        self.cells.len()
    }

    pub fn in_bounds(&self, pos: Position) -> (r: bool)
        ensures
            r == self.spec_in_bounds(pos),
    {
        pos.x < self.width && pos.y < self.height
    }

    /// The row-major index of an in-bounds position is inside the cell
    /// store.
    pub proof fn lemma_index_in_range(&self, pos: Position)
        requires
            self.wf(),
            self.spec_in_bounds(pos),
        ensures
            0 <= self.spec_index(pos) < self@.len(),
    {
        let w = self.spec_width() as int;
        let h = self.spec_height() as int;
        assert(pos.y * w + pos.x < w * h) by (nonlinear_arith)
            requires
                0 <= pos.x < w,
                0 <= pos.y < h,
        ;
    }

    /// Read a cell. Out-of-bounds positions report `OutOfBounds` and are
    /// never silently clamped.
    pub fn get(&self, pos: Position) -> (r: Result<Option<Pipe>, PipesError>)
        requires
            self.wf(),
        ensures
            self.spec_in_bounds(pos) ==> r == Ok::<Option<Pipe>, PipesError>(self.spec_cell(pos)),
            !self.spec_in_bounds(pos) ==> r == Err::<Option<Pipe>, PipesError>(
                PipesError::OutOfBounds,
            ),
    {
        if pos.x < self.width && pos.y < self.height {
            proof {
                self.lemma_index_in_range(pos);
            }
            let _n: usize = self.cells.len();
            let idx: usize = pos.y * self.width + pos.x;
            Ok(self.cells[idx])
        } else {
            Err(PipesError::OutOfBounds)
        }
    }

    /// Overwrite a cell unconditionally. Out-of-bounds positions report
    /// `OutOfBounds` and leave the grid untouched.
    pub fn set(&mut self, pos: Position, cell: Option<Pipe>) -> (r: Result<(), PipesError>)
        requires
            old(self).wf(),
            cell matches Some(p) ==> p.spec_storable(),
        ensures
            final(self).wf(),
            final(self).spec_width() == old(self).spec_width(),
            final(self).spec_height() == old(self).spec_height(),
            old(self).spec_in_bounds(pos) ==> r == Ok::<(), PipesError>(())
                && final(self)@ == old(self)@.update(old(self).spec_index(pos), cell),
            !old(self).spec_in_bounds(pos) ==> r == Err::<(), PipesError>(PipesError::OutOfBounds)
                && *final(self) == *old(self),
    {
        if pos.x < self.width && pos.y < self.height {
            proof {
                self.lemma_index_in_range(pos);
            }
            let _n: usize = self.cells.len();
            let idx: usize = pos.y * self.width + pos.x;
            self.cells.set(idx, cell);
            Ok(())
        } else {
            Err(PipesError::OutOfBounds)
        }
    }

    /// The neighboring position one step toward `dir`, or `None` exactly at
    /// the grid boundary.
    pub fn neighbor(&self, pos: Position, dir: Direction) -> (r: Option<Position>)
        requires
            self.wf(),
            self.spec_in_bounds(pos),
        ensures
            r == self.spec_neighbor(pos, dir),
            r matches Some(np) ==> self.spec_in_bounds(np),
    {
        match dir {
            Direction::North => {
                if pos.y + 1 < self.height {
                    Some(Position { x: pos.x, y: pos.y + 1 })
                } else {
                    None
                }
            },
            Direction::East => {
                if pos.x + 1 < self.width {
                    Some(Position { x: pos.x + 1, y: pos.y })
                } else {
                    None
                }
            },
            Direction::South => {
                if pos.y >= 1 {
                    Some(Position { x: pos.x, y: pos.y - 1 })
                } else {
                    None
                }
            },
            Direction::West => {
                if pos.x >= 1 {
                    Some(Position { x: pos.x - 1, y: pos.y })
                } else {
                    None
                }
            },
        }
    }

    /// All four neighbor entries of a position, in the fixed order North,
    /// East, South, West; a direction maps to `None` exactly at the
    /// boundary.
    pub fn neighbors(&self, pos: Position) -> (r: Vec<(Direction, Option<Position>)>)
        requires
            self.wf(),
            self.spec_in_bounds(pos),
        ensures
            r@.len() == 4,
            r@[0] == (Direction::North, self.spec_neighbor(pos, Direction::North)),
            r@[1] == (Direction::East, self.spec_neighbor(pos, Direction::East)),
            r@[2] == (Direction::South, self.spec_neighbor(pos, Direction::South)),
            r@[3] == (Direction::West, self.spec_neighbor(pos, Direction::West)),
    {
        let mut r: Vec<(Direction, Option<Position>)> = Vec::new();
        r.push((Direction::North, self.neighbor(pos, Direction::North)));
        r.push((Direction::East, self.neighbor(pos, Direction::East)));
        r.push((Direction::South, self.neighbor(pos, Direction::South)));
        r.push((Direction::West, self.neighbor(pos, Direction::West)));
        r
    }

    /// The grid serialized as its row-major cell sequence.
    pub fn to_linear(&self) -> (r: Vec<Option<Pipe>>)
        ensures
            r@ == self@,
    {
        let mut r: Vec<Option<Pipe>> = Vec::new();
        let mut i: usize = 0;
        while i < self.cells.len()
            invariant
                i <= self.cells.len(),
                self@ == self.cells@,
                r@ == self@.subrange(0, i as int),
            decreases self.cells.len() - i,
        {
            r.push(self.cells[i]);
            proof {
                assert(r@ =~= self@.subrange(0, i + 1 as int));
            }
            i = i + 1;
        }
        proof {
            assert(self@.subrange(0, self@.len() as int) =~= self@);
        }
        r
    }

    /// Rebuild a grid from its row-major cell sequence.
    pub fn from_linear(width: usize, height: usize, cells: Vec<Option<Pipe>>) -> (r: Grid)
        requires
            1 <= width,
            1 <= height,
            cells@.len() == width * height,
            forall|i: int|
                0 <= i < cells@.len() ==> (#[trigger] cells@[i] matches Some(p)
                    ==> p.spec_storable()),
        ensures
            r.wf(),
            r.spec_width() == width,
            r.spec_height() == height,
            r@ == cells@,
    {
        Grid { width, height, cells }
    }

    /// How many cells currently hold a pipe.
    pub fn occupied_count(&self) -> (r: usize)
        ensures
            r == count_occupied(self@),
    {
        let mut count: usize = 0;
        let mut i: usize = 0;
        while i < self.cells.len()
            invariant
                i <= self.cells.len(),
                self@ == self.cells@,
                count <= i,
                count == count_occupied(self@.subrange(0, i as int)),
            decreases self.cells.len() - i,
        {
            if self.cells[i].is_some() {
                count = count + 1;
            }
            proof {
                let pre = self@.subrange(0, i as int);
                let post = self@.subrange(0, i + 1 as int);
                assert(post.drop_last() =~= pre);
            }
            i = i + 1;
        }
        proof {
            assert(self@.subrange(0, self@.len() as int) =~= self@);
        }
        count
    }

    /// Exec counterpart of `spec_position_of`: the position a row-major
    /// index denotes.
    pub fn position_of(&self, i: usize) -> (r: Position)
        requires
            self.wf(),
            i < self@.len(),
        ensures
            r == self.spec_position_of(i as int),
            self.spec_in_bounds(r),
            self.spec_index(r) == i,
    {
        proof {
            self.lemma_position_of(i as int);
        }
        Position { x: i % self.width, y: i / self.width }
    }

    /// An in-bounds position encodes to an index that decodes back to the
    /// same position; in particular distinct positions have distinct
    /// indices.
    pub proof fn lemma_index_of_position(&self, pos: Position)
        requires
            self.wf(),
            self.spec_in_bounds(pos),
        ensures
            0 <= self.spec_index(pos) < self@.len(),
            self.spec_position_of(self.spec_index(pos)) == pos,
    {
        self.lemma_index_in_range(pos);
        let w = self.spec_width() as int;
        let i = self.spec_index(pos);
        assert((pos.y * w + pos.x) % w == pos.x && (pos.y * w + pos.x) / w == pos.y)
            by (nonlinear_arith)
            requires
                0 < w,
                0 <= pos.x < w,
                0 <= pos.y,
        ;
    }

    /// A row-major index decodes to an in-bounds position that encodes back
    /// to the same index.
    pub proof fn lemma_position_of(&self, i: int)
        requires
            self.wf(),
            0 <= i < self@.len(),
        ensures
            self.spec_in_bounds(self.spec_position_of(i)),
            self.spec_index(self.spec_position_of(i)) == i,
    {
        let w = self.spec_width() as int;
        let h = self.spec_height() as int;
        assert(i % w < w && 0 <= i % w && 0 <= i / w && i / w < h && (i / w) * w + i % w == i)
            by (nonlinear_arith)
            requires
                0 < w,
                0 < h,
                0 <= i < w * h,
        ;
    }

    /// The round-trip law: a grid's state is exactly its dimensions plus
    /// its row-major linear form. By the contracts of `to_linear` and
    /// `from_linear`, rebuilding a grid from its own serialization yields a
    /// grid of the same width, height and cell sequence; this lemma states
    /// that such a grid agrees with the original in every observation the
    /// store offers: well-formedness, bounds, every cell, every neighbor
    /// entry, and the occupancy count.
    pub proof fn lemma_linear_round_trip(a: Grid, b: Grid)
        requires
            a.spec_width() == b.spec_width(),
            a.spec_height() == b.spec_height(),
            a@ == b@,
        ensures
            a.wf() == b.wf(),
            forall|pos: Position| a.spec_in_bounds(pos) == b.spec_in_bounds(pos),
            forall|pos: Position|
                a.spec_in_bounds(pos) ==> #[trigger] a.spec_cell(pos) == b.spec_cell(pos),
            forall|pos: Position, dir: Direction|
                #[trigger] a.spec_neighbor(pos, dir) == b.spec_neighbor(pos, dir),
            count_occupied(a@) == count_occupied(b@),
    {
    }
}

} // verus!
