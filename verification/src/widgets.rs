//! The widget contract: update, draw, and the bounding-box capability.
//!
//! A widget is a value that can be drawn into any [`Terminal`]. Its
//! behaviour is pinned down by two specification functions: whether drawing
//! into a region succeeds ([`Widget::sp_ok`]) and what the terminal's model
//! becomes ([`Widget::sp_drawn`]). Two proof obligations make widgets
//! composable: a draw confines itself to the region it was handed
//! ([`Widget::sp_draw_frame`]), and what it draws inside that region depends
//! only on the region's own prior content ([`Widget::sp_draw_local`]).

use vstd::arithmetic::div_mod::lemma_fundamental_div_mod_converse;
use vstd::prelude::*;

use crate::errors::Error;
use crate::geometry::Rectangle;
use crate::interactive::{UpdateInfo, UpdateResult};
use crate::terminal::{
    lemma_flat_distinct,
    lemma_flat_in_bounds,
    lemma_flat_unflatten,
    Terminal,
    TerminalCell,
    TerminalModel,
};

verus! {

/// A direction, for widgets that want one.
#[derive(Copy, Clone, Debug, Hash, Eq, PartialEq)]
pub enum Direction {
    /// Left.
    Left,
    /// Right.
    Right,
    /// Down, or the bottom of the terminal.
    Down,
    /// Up, or the top of the terminal.
    Up,
}

/// The row-major position of `(x, y)` within `area`, counted from the
/// area's top-left corner.
pub open spec fn sp_local_idx(area: Rectangle, x: int, y: int) -> int {
    (y - area.sp_top()) * area.sp_width() + (x - area.sp_left())
}

/// The model after laying the cells of `content` row-major over `area` of
/// `t`, starting at the area's top-left corner; cells of the area beyond the
/// end of `content` keep their prior value, and cells of `content` beyond
/// the area's capacity are dropped.
pub open spec fn sp_blit(
    t: TerminalModel,
    area: Rectangle,
    content: Seq<TerminalCell>,
) -> TerminalModel {
    TerminalModel {
        cells: Seq::new(
            t.cells.len(),
            |i: int|
                {
                    let x = i % t.width as int;
                    let y = i / t.width as int;
                    if area.sp_covers_cell(x, y) && sp_local_idx(area, x, y) < content.len() {
                        content[sp_local_idx(area, x, y)]
                    } else {
                        t.cells[i]
                    }
                },
        ),
        ..t
    }
}

/// How [`sp_blit`] reads cell by cell: inside `area`, the matching cell of
/// `content` when there is one; everywhere else the prior cell.
pub proof fn lemma_blit_cell_at(t: TerminalModel, area: Rectangle, content: Seq<TerminalCell>)
    requires
        t.wf(),
        t.admits(area),
    ensures
        sp_blit(t, area, content).same_frame(t),
        sp_blit(t, area, content).wf(),
        forall|x: int, y: int|
            t.in_bounds(x, y) ==> #[trigger] sp_blit(t, area, content).cell_at(x, y) == if area.sp_covers_cell(
                x,
                y,
            ) && sp_local_idx(area, x, y) < content.len() {
                content[sp_local_idx(area, x, y)]
            } else {
                t.cell_at(x, y)
            },
{
    let b = sp_blit(t, area, content);
    assert forall|x: int, y: int| t.in_bounds(x, y) implies #[trigger] b.cell_at(x, y)
        == if area.sp_covers_cell(x, y) && sp_local_idx(area, x, y) < content.len() {
        content[sp_local_idx(area, x, y)]
    } else {
        t.cell_at(x, y)
    } by {
        lemma_flat_in_bounds(t, x, y);
        lemma_fundamental_div_mod_converse(t.sp_flat(x, y), t.width as int, y, x);
    }
}

/// The area-local positions of two distinct cells of `area` differ.
proof fn lemma_local_idx_distinct(area: Rectangle, x1: int, y1: int, x2: int, y2: int)
    requires
        area.wf(),
        area.sp_covers_cell(x1, y1),
        area.sp_covers_cell(x2, y2),
        !(x1 == x2 && y1 == y2),
    ensures
        sp_local_idx(area, x1, y1) != sp_local_idx(area, x2, y2),
{
    let w = area.sp_width();
    assert((y1 - area.sp_top()) * w + (x1 - area.sp_left()) != (y2 - area.sp_top()) * w + (x2
        - area.sp_left())) by (nonlinear_arith)
        requires
            0 <= x1 - area.sp_left() < w,
            0 <= x2 - area.sp_left() < w,
            0 <= y1 - area.sp_top(),
            0 <= y2 - area.sp_top(),
            !(x1 == x2 && y1 == y2),
    ;
}

/// The coordinates within `area` of the area-local position `k`, and their
/// basic facts.
proof fn lemma_local_idx_unflatten(t: TerminalModel, area: Rectangle, k: int)
    requires
        t.wf(),
        t.admits(area),
        0 <= k < area.sp_area(),
    ensures
        area.sp_width() > 0,
        0 <= k % area.sp_width() < area.sp_width(),
        0 <= k / area.sp_width() < area.sp_height(),
        area.sp_covers_cell(
            area.sp_left() + k % area.sp_width(),
            area.sp_top() + k / area.sp_width(),
        ),
        t.in_bounds(area.sp_left() + k % area.sp_width(), area.sp_top() + k / area.sp_width()),
        sp_local_idx(
            area,
            area.sp_left() + k % area.sp_width(),
            area.sp_top() + k / area.sp_width(),
        ) == k,
{
    let w = area.sp_width();
    let h = area.sp_height();
    assert(w > 0 && h > 0) by (nonlinear_arith)
        requires
            0 <= k,
            k < w * h,
            w >= 0,
            h >= 0,
    ;
    assert(0 <= k % w < w && 0 <= k / w < h && k == (k / w) * w + k % w) by (nonlinear_arith)
        requires
            0 < w,
            0 <= k < w * h,
    ;
}

/// Laying down one more cell of `content` is one write.
proof fn lemma_blit_step(t: TerminalModel, area: Rectangle, content: Seq<TerminalCell>, k: int)
    requires
        t.wf(),
        t.admits(area),
        0 <= k < content.len(),
        k < area.sp_area(),
    ensures
        sp_blit(t, area, content.take(k + 1)) == sp_blit(t, area, content.take(k)).with_cell(
            area.sp_left() + k % area.sp_width(),
            area.sp_top() + k / area.sp_width(),
            content[k],
        ),
{
    lemma_local_idx_unflatten(t, area, k);
    let ax = area.sp_left() + k % area.sp_width();
    let ay = area.sp_top() + k / area.sp_width();
    let lhs = sp_blit(t, area, content.take(k + 1));
    let prev = sp_blit(t, area, content.take(k));
    let rhs = prev.with_cell(ax, ay, content[k]);
    lemma_blit_cell_at(t, area, content.take(k + 1));
    lemma_blit_cell_at(t, area, content.take(k));
    lemma_flat_in_bounds(t, ax, ay);
    assert forall|i: int| 0 <= i < t.cells.len() implies lhs.cells[i] == rhs.cells[i] by {
        assert(t.width > 0) by (nonlinear_arith)
            requires
                0 <= i,
                i < t.width * t.height,
        ;
        lemma_flat_unflatten(t, i);
        let x = i % t.width as int;
        let y = i / t.width as int;
        assert(lhs.cell_at(x, y) == lhs.cells[i]);
        assert(prev.cell_at(x, y) == prev.cells[i]);
        if x == ax && y == ay {
            assert(lhs.cells[i] == content[k]);
            assert(rhs.cells[i] == content[k]);
        } else {
            lemma_flat_distinct(t, x, y, ax, ay);
            if area.sp_covers_cell(x, y) {
                lemma_local_idx_distinct(area, x, y, ax, ay);
            }
        }
    }
    assert(lhs.cells =~= rhs.cells);
}

/// Once `content` fills the area's whole capacity, the extra cells change
/// nothing: the blit of a truncation at capacity equals the blit of the
/// full content.
proof fn lemma_blit_overrun(t: TerminalModel, area: Rectangle, content: Seq<TerminalCell>)
    requires
        t.wf(),
        t.admits(area),
        content.len() >= area.sp_area(),
    ensures
        sp_blit(t, area, content.take(area.sp_area())) == sp_blit(t, area, content),
{
    let cut = content.take(area.sp_area());
    let lhs = sp_blit(t, area, cut);
    let rhs = sp_blit(t, area, content);
    assert forall|i: int| 0 <= i < t.cells.len() implies lhs.cells[i] == rhs.cells[i] by {
        assert(t.width > 0) by (nonlinear_arith)
            requires
                0 <= i,
                i < t.width * t.height,
        ;
        lemma_flat_unflatten(t, i);
        let x = i % t.width as int;
        let y = i / t.width as int;
        if area.sp_covers_cell(x, y) {
            let k = sp_local_idx(area, x, y);
            assert(0 <= k < area.sp_area()) by {
                lemma_local_idx_bounds(area, x, y);
            }
        }
    }
    assert(lhs.cells =~= rhs.cells);
}

/// A covered cell's area-local position lies below the area's capacity.
proof fn lemma_local_idx_bounds(area: Rectangle, x: int, y: int)
    requires
        area.wf(),
        area.sp_covers_cell(x, y),
    ensures
        0 <= sp_local_idx(area, x, y) < area.sp_area(),
{
    let w = area.sp_width();
    let h = area.sp_height();
    assert(0 <= (y - area.sp_top()) * w + (x - area.sp_left()) < w * h) by (nonlinear_arith)
        requires
            0 <= x - area.sp_left() < w,
            0 <= y - area.sp_top() < h,
    ;
}

/// Lays the cells of `content` row-major over `area` of `terminal`. Writes
/// as many cells as fit; fails, after writing them, if `content` does not
/// fit, naming the first area-local position that is missing — the area's
/// capacity.
pub fn blit_cells<T: Terminal>(
    terminal: &mut T,
    area: Rectangle,
    content: &Vec<TerminalCell>,
) -> (r: Result<(), Error>)
    requires
        old(terminal).inv(),
        old(terminal).model().admits(area),
    ensures
        (*final(terminal)).inv(),
        (*final(terminal)).model() == sp_blit(old(terminal).model(), area, content@),
        content@.len() <= area.sp_area() ==> r == Ok::<(), Error>(()),
        content@.len() > area.sp_area() ==> r == Err::<(), Error>(
            Error::OutOfBoundsCharacter(area.sp_area() as usize),
        ),
{
    let ghost t0 = old(terminal).model();
    proof {
        terminal.inv_model_wf();
        assert(area.sp_area() <= t0.width * t0.height) by (nonlinear_arith)
            requires
                0 <= area.sp_width() <= t0.width,
                0 <= area.sp_height() <= t0.height,
        ;
    }
    let aw = area.width();
    let ah = area.height();
    let capacity = aw * ah;
    let stop: usize = if content.len() < capacity {
        content.len()
    } else {
        capacity
    };
    let mut k: usize = 0;
    proof {
        assert(sp_blit(t0, area, content@.take(0)).cells =~= t0.cells) by {
            lemma_blit_cell_at(t0, area, content@.take(0));
            assert forall|i: int| 0 <= i < t0.cells.len() implies sp_blit(
                t0,
                area,
                content@.take(0),
            ).cells[i] == t0.cells[i] by {
                assert(t0.width > 0) by (nonlinear_arith)
                    requires
                        0 <= i,
                        i < t0.width * t0.height,
                ;
                lemma_flat_unflatten(t0, i);
            }
        }
    }
    while k < stop
        invariant
            terminal.inv(),
            t0.wf(),
            t0.admits(area),
            aw == area.sp_width(),
            ah == area.sp_height(),
            capacity == area.sp_area(),
            stop <= content@.len(),
            stop <= capacity,
            stop == if content@.len() < capacity {
                content@.len() as int
            } else {
                capacity as int
            },
            k <= stop,
            terminal.model() == sp_blit(t0, area, content@.take(k as int)),
        decreases stop - k,
    {
        proof {
            lemma_local_idx_unflatten(t0, area, k as int);
            lemma_blit_cell_at(t0, area, content@.take(k as int));
            lemma_blit_step(t0, area, content@, k as int);
            assert(content@.take(k as int + 1).take(k as int) =~= content@.take(k as int));
        }
        let x = area.left() + k % aw;
        let y = area.top() + k / aw;
        let res = terminal.set_character(x, y, content[k]);
        proof {
            assert(res is Ok);
        }
        k = k + 1;
    }
    if stop < content.len() {
        proof {
            lemma_blit_overrun(t0, area, content@);
        }
        Err(Error::OutOfBoundsCharacter(capacity))
    } else {
        proof {
            assert(content@.take(stop as int) =~= content@);
        }
        Ok(())
    }
}

/// The two-operation widget contract: react to an event, and draw.
///
/// `sp_ok` and `sp_drawn` pin down what drawing does to a terminal's model;
/// the proof obligations [`Widget::sp_draw_frame`] and
/// [`Widget::sp_draw_local`] hold of every implementation and are what let
/// combinators nest widgets without over-drawing one another.
pub trait Widget: Sized {
    /// The widget's own validity; `true` unless an implementation says
    /// otherwise.
    open spec fn wf(&self) -> bool {
        true
    }

    /// Whether drawing this widget into `area` of a terminal modelled by
    /// `t` succeeds.
    spec fn sp_ok(&self, t: TerminalModel, area: Rectangle) -> bool;

    /// The model after drawing this widget into `area` of `t` — whether or
    /// not the draw reports success, since a failing draw still writes what
    /// fitted.
    spec fn sp_drawn(&self, t: TerminalModel, area: Rectangle) -> TerminalModel;

    /// The result of handling `info` against a terminal modelled by `t`.
    spec fn sp_update_res(&self, t: TerminalModel, info: UpdateInfo) -> UpdateResult;

    /// The widget's state after handling `info` against a terminal
    /// modelled by `t`.
    spec fn sp_updated(&self, t: TerminalModel, info: UpdateInfo) -> Self;

    /// Drawing keeps the terminal's frame and writes only inside `area`.
    proof fn sp_draw_frame(&self, t: TerminalModel, area: Rectangle)
        requires
            self.wf(),
            t.wf(),
            t.admits(area),
        ensures
            self.sp_drawn(t, area).same_frame(t),
            self.sp_drawn(t, area).wf(),
            forall|x: int, y: int|
                t.in_bounds(x, y) && !area.sp_covers_cell(x, y) ==> #[trigger] self.sp_drawn(
                    t,
                    area,
                ).cell_at(x, y) == t.cell_at(x, y),
    ;

    /// What drawing leaves inside `area`, and whether it succeeds, depend
    /// only on the terminal's frame and on `area`'s own prior content.
    proof fn sp_draw_local(&self, t1: TerminalModel, t2: TerminalModel, area: Rectangle)
        requires
            self.wf(),
            t1.wf(),
            t2.wf(),
            t1.admits(area),
            t1.same_frame(t2),
            forall|x: int, y: int|
                area.sp_covers_cell(x, y) ==> #[trigger] t1.cell_at(x, y) == t2.cell_at(x, y),
        ensures
            self.sp_ok(t1, area) == self.sp_ok(t2, area),
            forall|x: int, y: int|
                area.sp_covers_cell(x, y) ==> #[trigger] self.sp_drawn(t1, area).cell_at(x, y)
                    == self.sp_drawn(t2, area).cell_at(x, y),
    ;

    /// Reacts to an event. The widget may read the terminal but not write
    /// it; it reports whether the event affected it. Updating never fails
    /// for this library's widgets; the `Result` shape is what hosts
    /// propagate.
    fn update<T: Terminal>(&mut self, update_info: UpdateInfo, terminal: &T) -> (r: Result<
        UpdateResult,
        Error,
    >)
        requires
            old(self).wf(),
            terminal.inv(),
        ensures
            (*final(self)).wf(),
            *final(self) == old(self).sp_updated(terminal.model(), update_info),
            r == Ok::<UpdateResult, Error>(
                old(self).sp_update_res(terminal.model(), update_info),
            ),
    ;

    /// Draws the widget into `area` of `terminal`.
    fn draw_in<T: Terminal>(
        &self,
        update_info: UpdateInfo,
        terminal: &mut T,
        area: Rectangle,
    ) -> (r: Result<UpdateResult, Error>)
        requires
            self.wf(),
            old(terminal).inv(),
            old(terminal).model().admits(area),
        ensures
            (*final(terminal)).inv(),
            (*final(terminal)).model() == self.sp_drawn(old(terminal).model(), area),
            r is Ok <==> self.sp_ok(old(terminal).model(), area),
            r matches Ok(u) ==> u == UpdateResult::NoEvent,
    ;

    /// Draws the widget into the whole terminal.
    fn draw<T: Terminal>(&self, update_info: UpdateInfo, terminal: &mut T) -> (r: Result<
        UpdateResult,
        Error,
    >)
        requires
            self.wf(),
            old(terminal).inv(),
        ensures
            (*final(terminal)).inv(),
            (*final(terminal)).model() == self.sp_drawn(
                old(terminal).model(),
                old(terminal).model().full_rect(),
            ),
            r is Ok <==> self.sp_ok(old(terminal).model(), old(terminal).model().full_rect()),
            r matches Ok(u) ==> u == UpdateResult::NoEvent,
    {
        proof {
            terminal.inv_model_wf();
        }
        let (w, h) = terminal.dimensions();
        self.draw_in(update_info, terminal, Rectangle { left_top: (0, 0), right_bottom: (w, h) })
    }

    /// Draws the widget into the whole terminal with no event to report:
    /// shorthand for drawing with [`UpdateInfo::NoInfo`].
    fn drawn<T: Terminal>(&self, terminal: &mut T) -> (r: Result<UpdateResult, Error>)
        requires
            self.wf(),
            old(terminal).inv(),
        ensures
            (*final(terminal)).inv(),
            (*final(terminal)).model() == self.sp_drawn(
                old(terminal).model(),
                old(terminal).model().full_rect(),
            ),
            r is Ok <==> self.sp_ok(old(terminal).model(), old(terminal).model().full_rect()),
            r matches Ok(u) ==> u == UpdateResult::NoEvent,
    {
        self.draw(UpdateInfo::NoInfo, terminal)
    }
}

/// The optional capability of reporting, before drawing, the region a
/// widget would occupy and whether it would cover it completely.
pub trait BoundingBox: Widget {
    /// Whether the widget can place itself within `avail`.
    spec fn sp_bounds_ok(&self, avail: Rectangle) -> bool;

    /// The region the widget would occupy, given that `avail` is
    /// available to it.
    spec fn sp_bounds(&self, avail: Rectangle) -> Rectangle;

    /// Whether the widget, drawn, would overwrite every cell of `rect`.
    spec fn sp_covers(&self, rect: Rectangle) -> bool;

    /// A placeable bounding box is a normalised region inside `avail`.
    proof fn sp_bounds_properties(&self, avail: Rectangle)
        requires
            self.wf(),
            avail.wf(),
            self.sp_bounds_ok(avail),
        ensures
            self.sp_bounds(avail).wf(),
            avail.sp_left() <= self.sp_bounds(avail).sp_left(),
            avail.sp_top() <= self.sp_bounds(avail).sp_top(),
            self.sp_bounds(avail).sp_right() <= avail.sp_right(),
    ;

    /// The region the widget intends to occupy within `rect`, which may be
    /// smaller than `rect`; fails when the widget cannot place itself.
    fn bounding_box(&self, rect: Rectangle) -> (r: Result<Rectangle, Error>)
        requires
            self.wf(),
            rect.wf(),
        ensures
            r is Ok <==> self.sp_bounds_ok(rect),
            r matches Ok(b) ==> b == self.sp_bounds(rect),
    ;

    /// Whether the widget, if drawn, would overwrite every cell in
    /// `rectangle`.
    fn completely_covers(&self, rectangle: Rectangle) -> (r: bool)
        requires
            self.wf(),
            rectangle.wf(),
        ensures
            r == self.sp_covers(rectangle),
    ;

    /// Whether the widget completely covers its own bounding box within
    /// `terminal`.
    fn covered_in<T: Terminal>(&self, terminal: &T) -> (r: bool)
        requires
            self.wf(),
            terminal.inv(),
        ensures
            r == (self.sp_bounds_ok(terminal.model().full_rect()) && self.sp_covers(
                self.sp_bounds(terminal.model().full_rect()),
            )),
    {
        proof {
            terminal.inv_model_wf();
        }
        let (w, h) = terminal.dimensions();
        let full = Rectangle { left_top: (0, 0), right_bottom: (w, h) };
        match self.bounding_box(full) {
            Ok(bounds) => {
                proof {
                    self.sp_bounds_properties(full);
                }
                self.completely_covers(bounds)
            },
            Err(_) => false,
        }
    }
}

} // verus!
