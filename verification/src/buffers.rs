//! Concrete cell buffers: fixed-capacity, fixed-capacity-with-shrink, and a
//! wrapper over caller-provided storage.
//!
//! The buffers validate their dimensions once, at construction, and own a
//! flat row-major `Vec` of cells, so a dimension mismatch is a runtime
//! condition, never wrapped or guessed at. The fields are public so specifications
//! can speak about them; exec code should go through the constructors and
//! the [`Terminal`] methods, which maintain each buffer's invariant.

use vstd::arithmetic::div_mod::lemma_fundamental_div_mod_converse;
use vstd::prelude::*;

use crate::errors::Error;
use crate::style::TerminalStyle;
use crate::terminal::{
    lemma_flat_in_bounds,
    Terminal,
    TerminalCell,
    TerminalModel,
};

verus! {

/// Builds `count` blank cells.
fn blank_cells(count: usize) -> (r: Vec<TerminalCell>)
    ensures
        r@ == Seq::new(count as nat, |i: int| TerminalCell::sp_blank()),
{
    let mut out: Vec<TerminalCell> = Vec::new();
    let mut i: usize = 0;
    while i < count
        invariant
            i <= count,
            out@.len() == i,
            forall|j: int| 0 <= j < i ==> out@[j] == TerminalCell::sp_blank(),
        decreases count - i,
    {
        out.push(TerminalCell::blank());
        i = i + 1;
    }
    proof {
        assert(out@ =~= Seq::new(count as nat, |j: int| TerminalCell::sp_blank()));
    }
    out
}

/// A zero-reallocation terminal of fixed size. The dimensions are validated
/// once, at construction, and never change.
pub struct ConstantSizeTerminal {
    /// The cells, row-major.
    pub cells: Vec<TerminalCell>,
    /// The number of columns.
    pub width: usize,
    /// The number of rows.
    pub height: usize,
    /// The terminal's default style.
    pub default_style: TerminalStyle,
}

impl ConstantSizeTerminal {
    /// Creates a blank terminal of the given dimensions.
    pub fn new(width: usize, height: usize) -> (r: Self)
        requires
            width * height <= usize::MAX,
        ensures
            r.inv(),
            r.model() == (TerminalModel {
                width: width as nat,
                height: height as nat,
                cells: Seq::new((width * height) as nat, |i: int| TerminalCell::sp_blank()),
                default_style: TerminalStyle::sp_new(),
            }),
    {
        let count = width * height;
        ConstantSizeTerminal {
            cells: blank_cells(count),
            width,
            height,
            default_style: TerminalStyle::new(),
        }
    }
}

impl Terminal for ConstantSizeTerminal {
    open spec fn model(&self) -> TerminalModel {
        TerminalModel {
            width: self.width as nat,
            height: self.height as nat,
            cells: self.cells@,
            default_style: self.default_style,
        }
    }

    open spec fn inv(&self) -> bool {
        self.cells@.len() == self.width * self.height && self.width * self.height <= usize::MAX
    }

    proof fn inv_model_wf(&self) {
    }

    fn dimensions(&self) -> (r: (usize, usize)) {
        (self.width, self.height)
    }

    fn default_style(&self) -> (r: TerminalStyle) {
        self.default_style
    }

    fn character(&self, x: usize, y: usize) -> (r: Option<TerminalCell>) {
        if x < self.width && y < self.height {
            proof {
                lemma_flat_in_bounds(self.model(), x as int, y as int);
            }
            Some(self.cells[y * self.width + x])
        } else {
            None
        }
    }

    fn set_character(&mut self, x: usize, y: usize, cell: TerminalCell) -> (r: Result<(), Error>) {
        if x < self.width && y < self.height {
            proof {
                lemma_flat_in_bounds(self.model(), x as int, y as int);
            }
            let index = y * self.width + x;
            self.cells[index] = cell;
            Ok(())
        } else {
            Err(Error::OutOfBoundsCoordinate(x, y))
        }
    }
}

/// Facts about the coordinates a flat window index unfolds to.
proof fn lemma_window_coords(w: int, h: int, mw: int, mh: int, j: int)
    requires
        0 < w <= mw,
        0 <= h <= mh,
        0 <= j < w * h,
    ensures
        0 <= j % w < w,
        0 <= j / w < h,
        j == (j / w) * w + j % w,
        0 <= (j / w) * mw + (j % w) < mw * mh,
{
    assert(0 <= j % w < w && 0 <= j / w && j == (j / w) * w + j % w && j / w < h && (j / w) * mw + (
    j % w) < mw * mh) by (nonlinear_arith)
        requires
            0 < w <= mw,
            0 <= h <= mh,
            0 <= j < w * h,
    ;
}

/// Distinct window coordinates land on distinct backing-storage indices.
proof fn lemma_backing_injective(w: int, mw: int, x1: int, y1: int, x2: int, y2: int)
    requires
        0 < w <= mw,
        0 <= x1 < w,
        0 <= x2 < w,
        0 <= y1,
        0 <= y2,
        !(x1 == x2 && y1 == y2),
    ensures
        y1 * mw + x1 != y2 * mw + x2,
{
    assert(y1 * mw + x1 != y2 * mw + x2) by (nonlinear_arith)
        requires
            0 < w <= mw,
            0 <= x1 < w,
            0 <= x2 < w,
            0 <= y1,
            0 <= y2,
            !(x1 == x2 && y1 == y2),
    ;
}

/// A zero-reallocation re-scalable terminal: it allocates storage for the
/// largest size it can take, set at construction, and exposes a logical
/// window over it that [`MaxSizeTerminal::rescale`] can shrink or grow
/// within those limits.
pub struct MaxSizeTerminal {
    /// The backing storage, row-major at the maximum width; cells outside
    /// the live window keep their contents but are not exposed.
    pub cells: Vec<TerminalCell>,
    /// The largest number of columns the terminal can take.
    pub max_width: usize,
    /// The largest number of rows the terminal can take.
    pub max_height: usize,
    /// The live number of columns.
    pub width: usize,
    /// The live number of rows.
    pub height: usize,
    /// The terminal's default style.
    pub default_style: TerminalStyle,
}

impl MaxSizeTerminal {
    /// The live window over the backing storage, row-major.
    pub open spec fn sp_window(&self) -> Seq<TerminalCell> {
        Seq::new(
            (self.width * self.height) as nat,
            |i: int|
                self.cells@[(i / self.width as int) * self.max_width + (i % self.width as int)],
        )
    }

    /// Creates a blank terminal at its maximum size.
    pub fn new(max_width: usize, max_height: usize) -> (r: Self)
        requires
            max_width * max_height <= usize::MAX,
        ensures
            r.inv(),
            r.cells@ == Seq::new(
                (max_width * max_height) as nat,
                |i: int| TerminalCell::sp_blank(),
            ),
            r.max_width == max_width,
            r.max_height == max_height,
            r.width == max_width,
            r.height == max_height,
            r.default_style == TerminalStyle::sp_new(),
    {
        let count = max_width * max_height;
        MaxSizeTerminal {
            cells: blank_cells(count),
            max_width,
            max_height,
            width: max_width,
            height: max_height,
            default_style: TerminalStyle::new(),
        }
    }

    /// Shrinks or grows the live window; fails, returning the attempted
    /// `(width, height)` pair and changing nothing, if either dimension
    /// exceeds the maximum set at construction. Cells that leave the window
    /// keep their contents but become invisible, so a caller should redraw
    /// after growing back.
    pub fn rescale(&mut self, new_width: usize, new_height: usize) -> (r: Result<
        (),
        (usize, usize),
    >)
        requires
            old(self).inv(),
        ensures
            (*final(self)).inv(),
            new_width > old(self).max_width || new_height > old(self).max_height ==> r
                == Err::<(), (usize, usize)>((new_width, new_height)) && *final(self) == *old(
                self,
            ),
            new_width <= old(self).max_width && new_height <= old(self).max_height ==> r
                == Ok::<(), (usize, usize)>(()) && *final(self) == (MaxSizeTerminal {
                width: new_width,
                height: new_height,
                ..*old(self)
            }),
    {
        if new_width > self.max_width {
            return Err((new_width, new_height));
        }
        if new_height > self.max_height {
            return Err((new_width, new_height));
        }
        self.width = new_width;
        self.height = new_height;
        Ok(())
    }
}

impl Terminal for MaxSizeTerminal {
    open spec fn model(&self) -> TerminalModel {
        TerminalModel {
            width: self.width as nat,
            height: self.height as nat,
            cells: self.sp_window(),
            default_style: self.default_style,
        }
    }

    open spec fn inv(&self) -> bool {
        &&& self.cells@.len() == self.max_width * self.max_height
        &&& self.max_width * self.max_height <= usize::MAX
        &&& self.width <= self.max_width
        &&& self.height <= self.max_height
    }

    proof fn inv_model_wf(&self) {
        assert(self.width * self.height <= self.max_width * self.max_height) by (nonlinear_arith)
            requires
                self.width <= self.max_width,
                self.height <= self.max_height,
        ;
    }

    fn dimensions(&self) -> (r: (usize, usize)) {
        (self.width, self.height)
    }

    fn default_style(&self) -> (r: TerminalStyle) {
        self.default_style
    }

    fn character(&self, x: usize, y: usize) -> (r: Option<TerminalCell>) {
        if x < self.width && y < self.height {
            proof {
                self.inv_model_wf();
                lemma_flat_in_bounds(self.model(), x as int, y as int);
                assert(0 <= y * self.max_width + x < self.max_width
                    * self.max_height) by (nonlinear_arith)
                    requires
                        x < self.width <= self.max_width,
                        y < self.height <= self.max_height,
                ;
                lemma_fundamental_div_mod_converse(
                    y * self.width + x,
                    self.width as int,
                    y as int,
                    x as int,
                );
            }
            Some(self.cells[y * self.max_width + x])
        } else {
            None
        }
    }

    fn set_character(&mut self, x: usize, y: usize, cell: TerminalCell) -> (r: Result<(), Error>) {
        if x < self.width && y < self.height {
            proof {
                self.inv_model_wf();
                lemma_flat_in_bounds(self.model(), x as int, y as int);
                assert(0 <= y * self.max_width + x < self.max_width
                    * self.max_height) by (nonlinear_arith)
                    requires
                        x < self.width <= self.max_width,
                        y < self.height <= self.max_height,
                ;
            }
            let ghost prev = *self;
            let index = y * self.max_width + x;
            self.cells[index] = cell;
            proof {
                let w = self.width as int;
                let h = self.height as int;
                let mw = self.max_width as int;
                let mh = self.max_height as int;
                let target = prev.model().with_cell(x as int, y as int, cell);
                assert forall|j: int| 0 <= j < w * h implies self.sp_window()[j]
                    == target.cells[j] by {
                    lemma_window_coords(w, h, mw, mh, j);
                    if j == y * w + x {
                        lemma_fundamental_div_mod_converse(j, w, y as int, x as int);
                    } else {
                        assert(!(j % w == x && j / w == y)) by (nonlinear_arith)
                            requires
                                j != y * w + x,
                                j == (j / w) * w + j % w,
                        ;
                        lemma_backing_injective(w, mw, j % w, j / w, x as int, y as int);
                    }
                }
                assert(self.sp_window() =~= target.cells);
            }
            Ok(())
        } else {
            Err(Error::OutOfBoundsCoordinate(x, y))
        }
    }
}

/// A terminal over caller-provided storage: a thin wrapper that adds the
/// dimensions and a default style to an externally built cell `Vec`.
pub struct ConstantSizeRef {
    /// The cells, row-major; handed in at construction and recoverable by
    /// reading this field.
    pub characters: Vec<TerminalCell>,
    /// The number of columns.
    pub width: usize,
    /// The number of rows.
    pub height: usize,
    /// The terminal's default style.
    pub default_style: TerminalStyle,
}

impl ConstantSizeRef {
    /// Wraps existing storage; the cell count must match the dimensions.
    pub fn new(characters: Vec<TerminalCell>, width: usize, height: usize) -> (r: Self)
        requires
            characters@.len() == width * height,
            width * height <= usize::MAX,
        ensures
            r.inv(),
            r.model() == (TerminalModel {
                width: width as nat,
                height: height as nat,
                cells: characters@,
                default_style: TerminalStyle::sp_new(),
            }),
            r.characters == characters,
    {
        ConstantSizeRef { characters, width, height, default_style: TerminalStyle::new() }
    }
}

impl Terminal for ConstantSizeRef {
    open spec fn model(&self) -> TerminalModel {
        TerminalModel {
            width: self.width as nat,
            height: self.height as nat,
            cells: self.characters@,
            default_style: self.default_style,
        }
    }

    open spec fn inv(&self) -> bool {
        self.characters@.len() == self.width * self.height && self.width * self.height
            <= usize::MAX
    }

    proof fn inv_model_wf(&self) {
    }

    fn dimensions(&self) -> (r: (usize, usize)) {
        (self.width, self.height)
    }

    fn default_style(&self) -> (r: TerminalStyle) {
        self.default_style
    }

    fn character(&self, x: usize, y: usize) -> (r: Option<TerminalCell>) {
        if x < self.width && y < self.height {
            proof {
                lemma_flat_in_bounds(self.model(), x as int, y as int);
            }
            Some(self.characters[y * self.width + x])
        } else {
            None
        }
    }

    fn set_character(&mut self, x: usize, y: usize, cell: TerminalCell) -> (r: Result<(), Error>) {
        if x < self.width && y < self.height {
            proof {
                lemma_flat_in_bounds(self.model(), x as int, y as int);
            }
            let index = y * self.width + x;
            self.characters[index] = cell;
            Ok(())
        } else {
            Err(Error::OutOfBoundsCoordinate(x, y))
        }
    }
}

} // verus!
