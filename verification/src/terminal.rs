//! The cell-buffer abstraction: grids of styled characters.
//!
//! A terminal is anything exposing a rectangular, row-major collection of
//! [`TerminalCell`]s plus one default style. Every implementation is tied to
//! a [`TerminalModel`] — its dimensions, default style and cell sequence —
//! through the [`Terminal`] trait's `model` function, and every operation's
//! contract is stated over that model.

use vstd::prelude::*;

use crate::errors::Error;
use crate::geometry::Rectangle;
use crate::style::TerminalStyle;

verus! {

/// One grid position: a character and its styling.
#[derive(Copy, Clone, Debug, Hash, Eq, PartialEq)]
pub struct TerminalCell {
    /// The character inside the cell.
    pub character: char,
    /// The character's styling.
    pub style: TerminalStyle,
}

impl TerminalCell {
    /// The blank cell: a space with no styling set.
    pub open spec fn sp_blank() -> TerminalCell {
        TerminalCell { character: ' ', style: TerminalStyle::sp_new() }
    }

    /// A blank cell: a space with no styling set.
    pub fn blank() -> (r: TerminalCell)
        ensures
            r == TerminalCell::sp_blank(),
    {
        TerminalCell { character: ' ', style: TerminalStyle::new() }
    }
}

impl Default for TerminalCell {
    /// The blank cell.
    fn default() -> (r: Self)
        ensures
            r == TerminalCell::sp_blank(),
    {
        TerminalCell::blank()
    }
}

/// The mathematical model of a terminal: its dimensions, its default style,
/// and its live cells in row-major order.
pub struct TerminalModel {
    /// The number of columns.
    pub width: nat,
    /// The number of rows.
    pub height: nat,
    /// The live cells, row-major: the cell at `(x, y)` sits at
    /// `y * width + x`.
    pub cells: Seq<TerminalCell>,
    /// The style a backend falls back to for unset cell style fields.
    pub default_style: TerminalStyle,
}

impl TerminalModel {
    /// The model is consistent: the cell count matches the dimensions, and
    /// the grid is addressable with machine integers.
    pub open spec fn wf(self) -> bool {
        &&& self.cells.len() == self.width * self.height
        &&& self.width * self.height <= usize::MAX
        &&& self.width <= usize::MAX
        &&& self.height <= usize::MAX
    }

    /// Whether `(x, y)` addresses a live cell.
    pub open spec fn in_bounds(self, x: int, y: int) -> bool {
        0 <= x < self.width && 0 <= y < self.height
    }

    /// The flat row-major index of `(x, y)`.
    pub open spec fn sp_flat(self, x: int, y: int) -> int {
        y * self.width + x
    }

    /// The cell at `(x, y)`.
    pub open spec fn cell_at(self, x: int, y: int) -> TerminalCell {
        self.cells[self.sp_flat(x, y)]
    }

    /// The model after writing `cell` at `(x, y)`.
    pub open spec fn with_cell(self, x: int, y: int, cell: TerminalCell) -> Self {
        TerminalModel { cells: self.cells.update(self.sp_flat(x, y), cell), ..self }
    }

    /// Whether `area` lies within the grid, as a region of whole cells.
    pub open spec fn admits(self, area: Rectangle) -> bool {
        area.wf() && area.sp_right() <= self.width && area.sp_bottom() <= self.height
    }

    /// The rectangle spanning the whole grid.
    pub open spec fn full_rect(self) -> Rectangle {
        Rectangle { left_top: (0, 0), right_bottom: (self.width as usize, self.height as usize) }
    }

    /// Two models share dimensions and default style.
    pub open spec fn same_frame(self, other: Self) -> bool {
        self.width == other.width && self.height == other.height && self.default_style
            == other.default_style
    }

    /// The model of the sub-grid that `area` carves out: coordinates are
    /// translated by `area`'s top-left corner.
    pub open spec fn sub(self, area: Rectangle) -> TerminalModel {
        TerminalModel {
            width: area.sp_width() as nat,
            height: area.sp_height() as nat,
            default_style: self.default_style,
            cells: Seq::new(
                (area.sp_width() * area.sp_height()) as nat,
                |i: int|
                    self.cell_at(
                        area.sp_left() + i % area.sp_width(),
                        area.sp_top() + i / area.sp_width(),
                    ),
            ),
        }
    }
}

/// A live coordinate's flat index addresses a live cell.
pub proof fn lemma_flat_in_bounds(t: TerminalModel, x: int, y: int)
    requires
        t.wf(),
        t.in_bounds(x, y),
    ensures
        0 <= t.sp_flat(x, y) < t.cells.len(),
{
    assert(0 <= y * t.width + x < t.width * t.height) by (nonlinear_arith)
        requires
            0 <= x < t.width,
            0 <= y < t.height,
    ;
}

/// Distinct live coordinates have distinct flat indices.
pub proof fn lemma_flat_distinct(t: TerminalModel, x1: int, y1: int, x2: int, y2: int)
    requires
        t.wf(),
        t.in_bounds(x1, y1),
        t.in_bounds(x2, y2),
        !(x1 == x2 && y1 == y2),
    ensures
        t.sp_flat(x1, y1) != t.sp_flat(x2, y2),
{
    assert(y1 * t.width + x1 != y2 * t.width + x2) by (nonlinear_arith)
        requires
            0 <= x1 < t.width,
            0 <= x2 < t.width,
            0 <= y1,
            0 <= y2,
            !(x1 == x2 && y1 == y2),
    ;
}

/// A flat index of a live cell comes from exactly one live coordinate.
pub proof fn lemma_flat_unflatten(t: TerminalModel, i: int)
    requires
        t.wf(),
        0 <= i < t.cells.len(),
        t.width > 0,
    ensures
        t.in_bounds(i % t.width as int, i / t.width as int),
        t.sp_flat(i % t.width as int, i / t.width as int) == i,
{
    let w = t.width as int;
    assert(0 <= i % w < w && i == (i / w) * w + i % w && (i < w * t.height ==> i / w
        < t.height)) by (nonlinear_arith)
        requires
            w > 0,
            0 <= i,
            i < w * t.height,
    ;
}

/// The capability of exposing a rectangular grid of cells.
///
/// Each implementation names its [`TerminalModel`] through [`Terminal::model`]
/// and its internal consistency condition through [`Terminal::inv`]; every
/// method's contract is stated against that model. Coordinates outside the
/// grid are rejected, never wrapped, clamped or panicked on.
pub trait Terminal: Sized {
    /// The model this buffer presently realises.
    spec fn model(&self) -> TerminalModel;

    /// The buffer's internal consistency condition; constructors establish
    /// it and every method preserves it.
    spec fn inv(&self) -> bool;

    /// A consistent buffer realises a consistent model.
    proof fn inv_model_wf(&self)
        requires
            self.inv(),
        ensures
            self.model().wf(),
    ;

    /// The `(width, height)` of the live grid.
    fn dimensions(&self) -> (r: (usize, usize))
        requires
            self.inv(),
        ensures
            r.0 == self.model().width,
            r.1 == self.model().height,
    ;

    /// The style a backend falls back to for unset cell style fields.
    fn default_style(&self) -> (r: TerminalStyle)
        requires
            self.inv(),
        ensures
            r == self.model().default_style,
    ;

    /// The cell at `(x, y)`, or `None` when the coordinate is out of bounds.
    fn character(&self, x: usize, y: usize) -> (r: Option<TerminalCell>)
        requires
            self.inv(),
        ensures
            r == if self.model().in_bounds(x as int, y as int) {
                Some(self.model().cell_at(x as int, y as int))
            } else {
                None::<TerminalCell>
            },
    ;

    /// Writes the cell at `(x, y)`; rejects an out-of-bounds coordinate and
    /// leaves the grid unchanged in that case.
    fn set_character(&mut self, x: usize, y: usize, cell: TerminalCell) -> (r: Result<(), Error>)
        requires
            old(self).inv(),
        ensures
            (*final(self)).inv(),
            old(self).model().in_bounds(x as int, y as int) ==> r == Ok::<(), Error>(())
                && (*final(self)).model() == old(self).model().with_cell(
                x as int,
                y as int,
                cell,
            ),
            !old(self).model().in_bounds(x as int, y as int) ==> r == Err::<(), Error>(
                Error::OutOfBoundsCoordinate(x, y),
            ) && (*final(self)).model() == old(self).model(),
    ;

    /// The number of columns.
    fn width(&self) -> (r: usize)
        requires
            self.inv(),
        ensures
            r == self.model().width,
    {
        let (width, _) = self.dimensions();
        width
    }

    /// The number of rows.
    fn height(&self) -> (r: usize)
        requires
            self.inv(),
        ensures
            r == self.model().height,
    {
        let (_, height) = self.dimensions();
        height
    }

    /// The live cells, row-major; hidden backing capacity, if any, is not
    /// included.
    fn characters(&self) -> (r: Vec<TerminalCell>)
        requires
            self.inv(),
        ensures
            r@ == self.model().cells,
    {
        let (w, h) = self.dimensions();
        proof {
            self.inv_model_wf();
        }
        let mut out: Vec<TerminalCell> = Vec::new();
        let mut y: usize = 0;
        while y < h
            invariant
                self.inv(),
                self.model().wf(),
                w == self.model().width,
                h == self.model().height,
                y <= h,
                out@.len() == y * w,
                forall|j: int| 0 <= j < out@.len() ==> out@[j] == self.model().cells[j],
            decreases h - y,
        {
            let mut x: usize = 0;
            while x < w
                invariant
                    self.inv(),
                    self.model().wf(),
                    w == self.model().width,
                    h == self.model().height,
                    y < h,
                    x <= w,
                    out@.len() == y * w + x,
                    forall|j: int| 0 <= j < out@.len() ==> out@[j] == self.model().cells[j],
                decreases w - x,
            {
                proof {
                    lemma_flat_in_bounds(self.model(), x as int, y as int);
                }
                let cell = self.character(x, y).unwrap();
                out.push(cell);
                x = x + 1;
            }
            proof {
                assert((y + 1) * w == y * w + w) by (nonlinear_arith);
            }
            y = y + 1;
        }
        proof {
            assert(h * w == w * h) by (nonlinear_arith);
            assert(out@ =~= self.model().cells);
        }
        out
    }

}

/// A forwarding adapter: a mutable borrow of a terminal, usable wherever
/// an owned terminal is asked for. Wrapping `&mut term` lets widgets,
/// viewports and splits work on a borrowed buffer without taking it apart.
pub struct TermRef<'a, T> {
    /// The borrowed terminal; every operation forwards to it.
    pub inner: &'a mut T,
}

impl<'a, T: Terminal> Terminal for TermRef<'a, T> {
    open spec fn model(&self) -> TerminalModel {
        (*self.inner).model()
    }

    open spec fn inv(&self) -> bool {
        (*self.inner).inv()
    }

    proof fn inv_model_wf(&self) {
        (*self.inner).inv_model_wf();
    }

    fn dimensions(&self) -> (r: (usize, usize)) {
        (*self.inner).dimensions()
    }

    fn default_style(&self) -> (r: TerminalStyle) {
        (*self.inner).default_style()
    }

    fn character(&self, x: usize, y: usize) -> (r: Option<TerminalCell>) {
        (*self.inner).character(x, y)
    }

    fn set_character(&mut self, x: usize, y: usize, cell: TerminalCell) -> (r: Result<
        (),
        Error,
    >) {
        self.inner.set_character(x, y, cell)
    }
}

impl<T: Terminal> Terminal for Box<T> {
    open spec fn model(&self) -> TerminalModel {
        (**self).model()
    }

    open spec fn inv(&self) -> bool {
        (**self).inv()
    }

    proof fn inv_model_wf(&self) {
        (**self).inv_model_wf();
    }

    fn dimensions(&self) -> (r: (usize, usize)) {
        (**self).dimensions()
    }

    fn default_style(&self) -> (r: TerminalStyle) {
        (**self).default_style()
    }

    fn character(&self, x: usize, y: usize) -> (r: Option<TerminalCell>) {
        (**self).character(x, y)
    }

    fn set_character(&mut self, x: usize, y: usize, cell: TerminalCell) -> (r: Result<
        (),
        Error,
    >) {
        (**self).set_character(x, y, cell)
    }
}

/// A display backend: the only way a finished buffer reaches a display
/// surface. Implemented by callers; nothing is assumed about what a backend
/// does with the buffer.
pub trait TerminalDrawTarget {
    /// Displays the terminal's live cells however the backend sees fit.
    fn render<T: Terminal>(&mut self, terminal: &T) -> (r: Result<(), Error>)
        requires
            terminal.inv(),
    ;
}

/// Generic, statically dispatched conveniences available on every
/// [`Terminal`]. Split from the core trait so that the core surface stays
/// free of generic methods.
pub trait TerminalExtended: Terminal {
    /// Hands the finished buffer to a draw target.
    fn display<D: TerminalDrawTarget>(&self, target: &mut D) -> (r: Result<(), Error>)
        requires
            self.inv(),
    {
        target.render(self)
    }

    /// Copies out the cells of the `width` by `height` region whose top-left
    /// corner sits at `(x_offset, y_offset)`, row-major; rejects a region
    /// that overruns the grid.
    fn copied_view(&self, x_offset: usize, y_offset: usize, width: usize, height: usize) -> (r:
        Result<Vec<TerminalCell>, Error>)
        requires
            self.inv(),
            x_offset + width <= usize::MAX,
            y_offset + height <= usize::MAX,
        ensures
            match r {
                Ok(v) => {
                    &&& x_offset + width <= self.model().width
                    &&& y_offset + height <= self.model().height
                    &&& v@.len() == width * height
                    &&& forall|x: int, y: int|
                        0 <= x < width && 0 <= y < height ==> v@[y * width + x]
                            == #[trigger] self.model().cell_at(x_offset + x, y_offset + y)
                },
                Err(e) => {
                    &&& x_offset + width > self.model().width || y_offset + height
                        > self.model().height
                    &&& e == Error::OutOfBoundsCoordinate(
                        (x_offset + width) as usize,
                        (y_offset + height) as usize,
                    )
                },
            },
    {
        let (terminal_width, terminal_height) = self.dimensions();
        proof {
            self.inv_model_wf();
        }
        if y_offset + height > terminal_height {
            return Err(Error::OutOfBoundsCoordinate(x_offset + width, y_offset + height));
        }
        if x_offset + width > terminal_width {
            return Err(Error::OutOfBoundsCoordinate(x_offset + width, y_offset + height));
        }
        let mut out: Vec<TerminalCell> = Vec::new();
        let mut y: usize = 0;
        while y < height
            invariant
                self.inv(),
                self.model().wf(),
                x_offset + width <= self.model().width,
                y_offset + height <= self.model().height,
                y <= height,
                out@.len() == y * width,
                forall|j: int|
                    0 <= j < out@.len() ==> out@[j] == self.model().cell_at(
                        x_offset + (j % width as int),
                        y_offset + (j / width as int),
                    ),
            decreases height - y,
        {
            let mut x: usize = 0;
            while x < width
                invariant
                    self.inv(),
                    self.model().wf(),
                    x_offset + width <= self.model().width,
                    y_offset + height <= self.model().height,
                    y < height,
                    x <= width,
                    out@.len() == y * width + x,
                    forall|j: int|
                        0 <= j < out@.len() ==> out@[j] == self.model().cell_at(
                            x_offset + (j % width as int),
                            y_offset + (j / width as int),
                        ),
                decreases width - x,
            {
                proof {
                    lemma_flat_in_bounds(self.model(), x_offset + x as int, y_offset + y as int);
                }
                let cell = self.character(x_offset + x, y_offset + y).unwrap();
                out.push(cell);
                proof {
                    assert((y * width + x) % (width as int) == x && (y * width + x) / (width as int)
                        == y) by (nonlinear_arith)
                        requires
                            0 <= x < width,
                            0 <= y,
                    ;
                }
                x = x + 1;
            }
            proof {
                assert((y + 1) * width == y * width + width) by (nonlinear_arith);
            }
            y = y + 1;
        }
        proof {
            assert(out@.len() == width * height) by (nonlinear_arith)
                requires
                    out@.len() == height * width,
            ;
            assert forall|xi: int, yi: int|
                0 <= xi < width && 0 <= yi < height implies out@[yi * width + xi]
                == #[trigger] self.model().cell_at(x_offset + xi, y_offset + yi) by {
                assert((yi * width + xi) % (width as int) == xi && (yi * width + xi) / (width as int)
                    == yi && 0 <= yi * width + xi < height * width) by (nonlinear_arith)
                    requires
                        0 <= xi < width,
                        0 <= yi < height,
                ;
            }
        }
        Ok(out)
    }
}

impl<T: Terminal> TerminalExtended for T {
}

} // verus!
