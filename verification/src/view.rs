//! Sub-region projections over terminals.
//!
//! A [`Viewport`] restricts a terminal to a rectangle and is itself a
//! terminal: it reports the rectangle's size as its dimensions, translates
//! every coordinate by the rectangle's top-left corner, and rejects
//! coordinates outside the rectangle even when they would be valid in the
//! parent. Nested widgets drawn into a viewport are thus unaware of being
//! clipped. The viewport owns its parent for the duration of the projection;
//! [`Viewport::into_inner`] recovers the parent with every write landed in
//! its storage, so nothing is copied back.

use vstd::arithmetic::div_mod::lemma_fundamental_div_mod_converse;
use vstd::prelude::*;

use crate::errors::Error;
use crate::geometry::Rectangle;
use crate::style::TerminalStyle;
use crate::terminal::{
    lemma_flat_distinct,
    lemma_flat_in_bounds,
    Terminal,
    TerminalCell,
    TerminalModel,
};

verus! {

/// Whether `rect` lies within `terminal`'s grid, as a region of whole cells.
pub fn rect_fits<T: Terminal>(terminal: &T, rect: Rectangle) -> (r: bool)
    requires
        terminal.inv(),
    ensures
        r == terminal.model().admits(rect),
{
    let (w, h) = terminal.dimensions();
    rect.left() <= rect.right() && rect.top() <= rect.bottom() && rect.right() <= w
        && rect.bottom() <= h
}

/// A terminal restricted to a sub-rectangle of a parent terminal.
pub struct Viewport<T> {
    /// The parent terminal, owned while the projection lasts.
    pub inner: T,
    /// The rectangle of the parent that this viewport exposes.
    pub rect: Rectangle,
}

impl<T: Terminal> Viewport<T> {
    /// Projects `rect` out of `inner`; the rectangle must fit, which
    /// [`rect_fits`] checks.
    pub fn new(inner: T, rect: Rectangle) -> (r: Viewport<T>)
        requires
            inner.inv(),
            inner.model().admits(rect),
        ensures
            r == (Viewport { inner, rect }),
            r.inv(),
            r.model() == inner.model().sub(rect),
    {
        Viewport { inner, rect }
    }

    /// Releases the parent; every write made through the viewport has
    /// already landed in the parent's storage.
    pub fn into_inner(self) -> (r: T)
        ensures
            r == self.inner,
    {
        self.inner
    }
}

impl<T: Terminal> Terminal for Viewport<T> {
    open spec fn model(&self) -> TerminalModel {
        self.inner.model().sub(self.rect)
    }

    open spec fn inv(&self) -> bool {
        self.inner.inv() && self.inner.model().admits(self.rect)
    }

    proof fn inv_model_wf(&self) {
        self.inner.inv_model_wf();
        let p = self.inner.model();
        let w = self.rect.sp_width();
        let h = self.rect.sp_height();
        assert(w * h <= p.width * p.height) by (nonlinear_arith)
            requires
                0 <= w <= p.width,
                0 <= h <= p.height,
        ;
    }

    fn dimensions(&self) -> (r: (usize, usize)) {
        (self.rect.width(), self.rect.height())
    }

    fn default_style(&self) -> (r: TerminalStyle) {
        self.inner.default_style()
    }

    fn character(&self, x: usize, y: usize) -> (r: Option<TerminalCell>) {
        let w = self.rect.width();
        let h = self.rect.height();
        if x < w && y < h {
            proof {
                self.inner.inv_model_wf();
                self.inv_model_wf();
                lemma_flat_in_bounds(self.model(), x as int, y as int);
                lemma_fundamental_div_mod_converse(
                    y * w + x,
                    w as int,
                    y as int,
                    x as int,
                );
            }
            self.inner.character(self.rect.left() + x, self.rect.top() + y)
        } else {
            None
        }
    }

    fn set_character(&mut self, x: usize, y: usize, cell: TerminalCell) -> (r: Result<(), Error>) {
        let w = self.rect.width();
        let h = self.rect.height();
        if x < w && y < h {
            proof {
                self.inner.inv_model_wf();
                self.inv_model_wf();
                lemma_flat_in_bounds(self.model(), x as int, y as int);
            }
            let ghost prev = *self;
            let r = self.inner.set_character(self.rect.left() + x, self.rect.top() + y, cell);
            proof {
                let p = prev.inner.model();
                let rect = prev.rect;
                let vw = rect.sp_width();
                let vh = rect.sp_height();
                let target = p.sub(rect).with_cell(x as int, y as int, cell);
                let q = self.inner.model();
                assert forall|j: int| 0 <= j < vw * vh implies q.sub(rect).cells[j]
                    == target.cells[j] by {
                    assert(vw > 0 && vh > 0) by (nonlinear_arith)
                        requires
                            0 <= j,
                            j < vw * vh,
                            vw >= 0,
                            vh >= 0,
                    ;
                    lemma_sub_index_facts(rect, j);
                    let jx = j % vw;
                    let jy = j / vw;
                    lemma_flat_in_bounds(p, rect.sp_left() + jx, rect.sp_top() + jy);
                    lemma_flat_in_bounds(p, rect.sp_left() + x, rect.sp_top() + y);
                    lemma_flat_in_bounds(p.sub(rect), x as int, y as int);
                    if j == y * vw + x {
                        lemma_fundamental_div_mod_converse(j, vw, y as int, x as int);
                    } else {
                        assert(!(jx == x as int && jy == y as int));
                        lemma_flat_distinct(
                            p,
                            rect.sp_left() + jx,
                            rect.sp_top() + jy,
                            rect.sp_left() + x,
                            rect.sp_top() + y,
                        );
                    }
                }
                assert(q.sub(rect).cells =~= target.cells);
            }
            r
        } else {
            Err(Error::OutOfBoundsCoordinate(x, y))
        }
    }
}

/// Facts about the coordinates a flat viewport index unfolds to.
proof fn lemma_sub_index_facts(rect: Rectangle, j: int)
    requires
        rect.wf(),
        rect.sp_width() > 0,
        0 <= j < rect.sp_width() * rect.sp_height(),
    ensures
        0 <= j % rect.sp_width() < rect.sp_width(),
        0 <= j / rect.sp_width() < rect.sp_height(),
        j == (j / rect.sp_width()) * rect.sp_width() + j % rect.sp_width(),
{
    let w = rect.sp_width();
    let h = rect.sp_height();
    assert(0 <= j % w < w && 0 <= j / w < h && j == (j / w) * w + j % w) by (nonlinear_arith)
        requires
            0 < w,
            0 <= j < w * h,
    ;
}

/// Writing a parent cell that `area` does not cover leaves the sub-grid
/// that `area` carves out untouched.
pub proof fn lemma_outside_write_preserves_sub(
    p: TerminalModel,
    x: int,
    y: int,
    cell: TerminalCell,
    area: Rectangle,
)
    requires
        p.wf(),
        p.admits(area),
        p.in_bounds(x, y),
        !area.sp_covers_cell(x, y),
    ensures
        p.with_cell(x, y, cell).sub(area) == p.sub(area),
{
    let q = p.with_cell(x, y, cell);
    let vw = area.sp_width();
    let vh = area.sp_height();
    assert forall|j: int| 0 <= j < vw * vh implies q.sub(area).cells[j] == p.sub(
        area,
    ).cells[j] by {
        assert(vw > 0 && vh > 0) by (nonlinear_arith)
            requires
                0 <= j,
                j < vw * vh,
                vw >= 0,
                vh >= 0,
        ;
        lemma_sub_index_facts(area, j);
        let jx = j % vw;
        let jy = j / vw;
        lemma_flat_in_bounds(p, area.sp_left() + jx, area.sp_top() + jy);
        lemma_flat_in_bounds(p, x, y);
        lemma_flat_distinct(p, area.sp_left() + jx, area.sp_top() + jy, x, y);
    }
    assert(q.sub(area).cells =~= p.sub(area).cells);
}

/// Divides a terminal into two independent left/right halves at its
/// horizontal midpoint. The left half gets the extra column on odd widths.
/// The two halves are disjoint, so writes through one never show through the
/// other; see [`lemma_split_halves_disjoint`].
pub struct ViewSplit<T> {
    /// The terminal being divided.
    pub inner: T,
}

/// The left half of `t`: columns `[0, width - width / 2)`.
pub open spec fn sp_left_rect(t: TerminalModel) -> Rectangle {
    Rectangle {
        left_top: (0, 0),
        right_bottom: ((t.width - t.width / 2) as usize, t.height as usize),
    }
}

/// The right half of `t`: columns `[width - width / 2, width)`.
pub open spec fn sp_right_rect(t: TerminalModel) -> Rectangle {
    Rectangle {
        left_top: ((t.width - t.width / 2) as usize, 0),
        right_bottom: (t.width as usize, t.height as usize),
    }
}

impl<T: Terminal> ViewSplit<T> {
    /// Wraps a terminal for splitting.
    pub fn new(inner: T) -> (r: ViewSplit<T>)
        ensures
            r == (ViewSplit { inner }),
    {
        ViewSplit { inner }
    }

    /// Releases the terminal.
    pub fn into_inner(self) -> (r: T)
        ensures
            r == self.inner,
    {
        self.inner
    }

    /// The rectangle of the left half: on a terminal of even width `2k` it
    /// is `k` columns wide, on odd width `2k + 1` it is `k + 1`.
    pub fn left_rect(&self) -> (r: Rectangle)
        requires
            self.inner.inv(),
        ensures
            r == sp_left_rect(self.inner.model()),
            r.wf(),
            r.sp_width() == self.inner.model().width - self.inner.model().width as int / 2,
            r.sp_height() == self.inner.model().height,
    {
        proof {
            self.inner.inv_model_wf();
        }
        let (w, h) = self.inner.dimensions();
        Rectangle { left_top: (0, 0), right_bottom: (w - w / 2, h) }
    }

    /// The rectangle of the right half: `width / 2` columns wide.
    pub fn right_rect(&self) -> (r: Rectangle)
        requires
            self.inner.inv(),
        ensures
            r == sp_right_rect(self.inner.model()),
            r.wf(),
            r.sp_width() == self.inner.model().width as int / 2,
            r.sp_height() == self.inner.model().height,
    {
        proof {
            self.inner.inv_model_wf();
        }
        let (w, h) = self.inner.dimensions();
        Rectangle { left_top: (w - w / 2, 0), right_bottom: (w, h) }
    }

    /// Projects the left half; recover the terminal with
    /// [`Viewport::into_inner`].
    pub fn split_left(self) -> (r: Viewport<T>)
        requires
            self.inner.inv(),
        ensures
            r == (Viewport { inner: self.inner, rect: sp_left_rect(self.inner.model()) }),
            r.inv(),
            r.model() == self.inner.model().sub(sp_left_rect(self.inner.model())),
    {
        proof {
            self.inner.inv_model_wf();
        }
        let rect = self.left_rect();
        Viewport::new(self.inner, rect)
    }

    /// Projects the right half; recover the terminal with
    /// [`Viewport::into_inner`].
    pub fn split_right(self) -> (r: Viewport<T>)
        requires
            self.inner.inv(),
        ensures
            r == (Viewport { inner: self.inner, rect: sp_right_rect(self.inner.model()) }),
            r.inv(),
            r.model() == self.inner.model().sub(sp_right_rect(self.inner.model())),
    {
        proof {
            self.inner.inv_model_wf();
        }
        let rect = self.right_rect();
        Viewport::new(self.inner, rect)
    }
}

/// The two halves of a split partition the grid's columns: on even width
/// `2k` each half is `k` columns wide, on odd width `2k + 1` the left half
/// gets `k + 1`; and no cell belongs to both halves.
pub proof fn lemma_split_halves_disjoint(t: TerminalModel)
    requires
        t.wf(),
    ensures
        sp_left_rect(t).sp_width() + sp_right_rect(t).sp_width() == t.width,
        t.width % 2 == 0 ==> sp_left_rect(t).sp_width() == sp_right_rect(t).sp_width(),
        t.width % 2 == 1 ==> sp_left_rect(t).sp_width() == sp_right_rect(t).sp_width() + 1,
        forall|x: int, y: int|
            !(#[trigger] sp_left_rect(t).sp_covers_cell(x, y) && #[trigger] sp_right_rect(
                t,
            ).sp_covers_cell(x, y)),
{
}

/// Writing any cell of the right half leaves the left half's view
/// untouched, and the other way round.
pub proof fn lemma_split_write_isolation(t: TerminalModel, x: int, y: int, cell: TerminalCell)
    requires
        t.wf(),
        t.in_bounds(x, y),
    ensures
        sp_right_rect(t).sp_covers_cell(x, y) ==> t.with_cell(x, y, cell).sub(sp_left_rect(t))
            == t.sub(sp_left_rect(t)),
        sp_left_rect(t).sp_covers_cell(x, y) ==> t.with_cell(x, y, cell).sub(sp_right_rect(t))
            == t.sub(sp_right_rect(t)),
{
    lemma_split_halves_disjoint(t);
    if sp_right_rect(t).sp_covers_cell(x, y) {
        lemma_outside_write_preserves_sub(t, x, y, cell, sp_left_rect(t));
    }
    if sp_left_rect(t).sp_covers_cell(x, y) {
        lemma_outside_write_preserves_sub(t, x, y, cell, sp_right_rect(t));
    }
}

} // verus!
