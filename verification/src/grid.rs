//! The toroidal grid of cells.
//!
//! The grid is a dense array of [`Location`]s. It trusts the coordinates it is
//! given: wrapping a coordinate into range is the business of whoever moves.

use vstd::prelude::*;
use crate::location::{Location, LocationView};

verus! {

/// Something that stands on a cell of the grid.
pub trait HasLocation {
    /// The column and the row.
    spec fn position(&self) -> (int, int);

    fn xcoord(&self) -> (x: i32)
        ensures
            x == self.position().0,
    ;

    fn ycoord(&self) -> (y: i32)
        ensures
            y == self.position().1,
    ;
}

/// A grid as a mathematical value: its two sizes and the counters of each
/// cell, keyed by column and row.
#[verifier::ext_equal]
pub struct GridView {
    pub xsize: int,
    pub ysize: int,
    pub cells: Map<(int, int), LocationView>,
}

impl GridView {
    /// `(x, y)` names a cell of the grid.
    pub open spec fn contains(self, x: int, y: int) -> bool {
        0 <= x < self.xsize && 0 <= y < self.ysize
    }

    /// The cells are exactly the pairs that `contains` accepts.
    pub open spec fn wf(self) -> bool {
        &&& 0 <= self.xsize
        &&& 0 <= self.ysize
        &&& forall|p: (int, int)| self.cells.dom().contains(p) <==> self.contains(p.0, p.1)
    }

    /// The counters of the cell `(x, y)`.
    pub open spec fn at(self, x: int, y: int) -> LocationView {
        self.cells[(x, y)]
    }

    /// The grid with the cell at `(x, y)` replaced.
    pub open spec fn set(self, x: int, y: int, cell: LocationView) -> GridView {
        GridView { cells: self.cells.insert((x, y), cell), ..self }
    }

    /// `after` is a well-formed grid of the sizes of this one.
    pub open spec fn shaped_like(self, after: GridView) -> bool {
        after.wf() && after.xsize == self.xsize && after.ysize == self.ysize
    }

    /// Replacing a cell of a well-formed grid leaves its shape as it is.
    pub proof fn lemma_set_shape(self, x: int, y: int, cell: LocationView)
        requires
            self.wf(),
            self.contains(x, y),
        ensures
            self.shaped_like(self.set(x, y, cell)),
    {
        let after = self.set(x, y, cell);
        assert forall|p: (int, int)| after.cells.dom().contains(p) <==> after.contains(p.0, p.1) by {
            if p == (x, y) {
            }
        }
    }

    /// The grid of the given sizes on which nothing stands.
    pub open spec fn empty(xsize: int, ysize: int) -> GridView {
        GridView {
            xsize,
            ysize,
            cells: Map::new(
                |p: (int, int)| 0 <= p.0 < xsize && 0 <= p.1 < ysize,
                |p: (int, int)| LocationView::empty(),
            ),
        }
    }

    /// Every counter of every cell lies in `[lo, hi]`.
    pub open spec fn within(self, lo: int, hi: int) -> bool {
        forall|x: int, y: int| self.contains(x, y) ==> (#[trigger] self.at(x, y)).within(lo, hi)
    }
}

/// A dense two-dimensional array of cells, indexed by column, then row.
pub struct Grid {
    loc: Vec<Vec<Location>>,
    xsize: usize,
    ysize: usize,
}

impl View for Grid {
    type V = GridView;

    closed spec fn view(&self) -> GridView {
        GridView {
            xsize: self.xsize as int,
            ysize: self.ysize as int,
            cells: Map::new(
                |p: (int, int)| 0 <= p.0 < self.xsize && 0 <= p.1 < self.ysize,
                |p: (int, int)| self.loc@[p.0]@[p.1]@,
            ),
        }
    }
}

impl Grid {
    /// The array has `xsize` columns of `ysize` cells each.
    pub closed spec fn wf(&self) -> bool {
        &&& self.loc@.len() == self.xsize
        &&& forall|x: int| 0 <= x < self.xsize ==> (#[trigger] self.loc@[x])@.len() == self.ysize
    }

    /// The view of a grid is well formed, and its sizes and counters are
    /// machine integers.
    pub proof fn lemma_view(&self)
        ensures
            self@.wf(),
            self@.xsize <= usize::MAX,
            self@.ysize <= usize::MAX,
            self@.within(i32::MIN as int, i32::MAX as int),
    {
        assert forall|x: int, y: int| self@.contains(x, y) implies (#[trigger] self@.at(x, y)).within(
            i32::MIN as int,
            i32::MAX as int,
        ) by {
            self.loc@[x]@[y].lemma_view_bounded();
        }
    }

    /// Creates a grid of `xsize` columns and `ysize` rows on which nothing
    /// stands.
    pub fn new(xsize: usize, ysize: usize) -> (grid: Grid)
        ensures
            grid.wf(),
            grid@ == GridView::empty(xsize as int, ysize as int),
    {
        let mut loc: Vec<Vec<Location>> = Vec::new();
        let mut x: usize = 0;
        while x < xsize
            invariant
                x <= xsize,
                loc@.len() == x,
                forall|i: int| 0 <= i < x ==> (#[trigger] loc@[i])@.len() == ysize,
                forall|i: int, j: int|
                    0 <= i < x && 0 <= j < ysize ==> (#[trigger] loc@[i]@[j])@ == LocationView::empty(),
            decreases xsize - x,
        {
            let mut column: Vec<Location> = Vec::new();
            let mut y: usize = 0;
            while y < ysize
                invariant
                    y <= ysize,
                    column@.len() == y,
                    forall|j: int| 0 <= j < y ==> (#[trigger] column@[j])@ == LocationView::empty(),
                decreases ysize - y,
            {
                column.push(Location::new());
                y += 1;
            }
            loc.push(column);
            x += 1;
        }
        let grid = Grid { loc, xsize, ysize };
        assert(grid@.cells =~= GridView::empty(xsize as int, ysize as int).cells);
        grid
    }

    /// The cell at `(x, y)`.
    pub fn loc(&self, x: i32, y: i32) -> (cell: &Location)
        requires
            self.wf(),
            self@.contains(x as int, y as int),
        ensures
            cell@ == self@.at(x as int, y as int),
    {
        &self.loc[x as usize][y as usize]
    }

    /// The cell on which `hl` stands, for the caller to change.
    pub fn location<H: HasLocation>(&mut self, hl: &H) -> (cell: &mut Location)
        requires
            old(self).wf(),
            old(self)@.contains(hl.position().0, hl.position().1),
        ensures
            cell@ == old(self)@.at(hl.position().0, hl.position().1),
            final(self).wf(),
            final(self)@ == old(self)@.set(hl.position().0, hl.position().1, final(cell)@),
    {
        let x = hl.xcoord();
        let y = hl.ycoord();
        &mut self.loc[x as usize][y as usize]
    }

    /// The east-west size of the grid.
    pub fn xsize(&self) -> (n: usize)
        ensures
            n == self@.xsize,
    {
        self.xsize
    }

    /// The north-south size of the grid.
    pub fn ysize(&self) -> (n: usize)
        ensures
            n == self@.ysize,
    {
        self.ysize
    }
}

} // verus!
