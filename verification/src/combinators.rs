//! Combinators: widgets built out of other widgets.
//!
//! Each combinator owns its children by value and is itself a widget, so
//! combinations nest arbitrarily. Geometry that cannot be honoured — a
//! child larger than the space offered to a [`Centered`] — surfaces as an
//! explicit bounds error, never a panic and never a silently clamped
//! region.

use vstd::prelude::*;

use crate::builtins::{sp_repeat_cell, Sweeper};
use crate::errors::Error;
use crate::geometry::Rectangle;
use crate::interactive::{UpdateInfo, UpdateResult};
use crate::style::TerminalColour;
use crate::terminal::{Terminal, TerminalModel};
use crate::widgets::{sp_blit, BoundingBox, Widget};

verus! {

/// Stacks one widget above another: the upper widget's natural height,
/// clipped to the space available, decides the split; the lower widget is
/// drawn first, into the rows below the split, and the upper widget after
/// it, into the rows above. The upper widget is the one that gets clipped
/// when space runs out, never the lower.
pub struct OnTopOf<A, B> {
    /// The widget drawn above the split.
    pub upper: A,
    /// The widget drawn below the split.
    pub lower: B,
}

impl<A: BoundingBox, B: Widget> OnTopOf<A, B> {
    /// Stacks `upper` above `lower`.
    pub fn new(upper: A, lower: B) -> (r: Self)
        ensures
            r == (OnTopOf { upper, lower }),
    {
        OnTopOf { upper, lower }
    }

    /// How many of `area`'s rows the upper widget receives: its natural
    /// height, clipped to `area`'s height.
    pub open spec fn sp_split(&self, area: Rectangle) -> int {
        if self.upper.sp_bounds(area).sp_height() < area.sp_height() {
            self.upper.sp_bounds(area).sp_height()
        } else {
            area.sp_height()
        }
    }

    /// The rows of `area` above the split.
    pub open spec fn sp_top_area(&self, area: Rectangle) -> Rectangle {
        Rectangle {
            left_top: area.left_top,
            right_bottom: (area.right_bottom.0, (area.sp_top() + self.sp_split(area)) as usize),
        }
    }

    /// The rows of `area` below the split.
    pub open spec fn sp_bottom_area(&self, area: Rectangle) -> Rectangle {
        Rectangle {
            left_top: (area.left_top.0, (area.sp_top() + self.sp_split(area)) as usize),
            right_bottom: area.right_bottom,
        }
    }
}

impl<A: BoundingBox, B: Widget> Widget for OnTopOf<A, B> {
    open spec fn wf(&self) -> bool {
        self.upper.wf() && self.lower.wf()
    }

    open spec fn sp_ok(&self, t: TerminalModel, area: Rectangle) -> bool {
        &&& self.upper.sp_bounds_ok(area)
        &&& self.lower.sp_ok(t, self.sp_bottom_area(area))
        &&& self.upper.sp_ok(
            self.lower.sp_drawn(t, self.sp_bottom_area(area)),
            self.sp_top_area(area),
        )
    }

    open spec fn sp_drawn(&self, t: TerminalModel, area: Rectangle) -> TerminalModel {
        if !self.upper.sp_bounds_ok(area) {
            t
        } else if !self.lower.sp_ok(t, self.sp_bottom_area(area)) {
            self.lower.sp_drawn(t, self.sp_bottom_area(area))
        } else {
            self.upper.sp_drawn(
                self.lower.sp_drawn(t, self.sp_bottom_area(area)),
                self.sp_top_area(area),
            )
        }
    }

    open spec fn sp_update_res(&self, t: TerminalModel, info: UpdateInfo) -> UpdateResult {
        self.upper.sp_update_res(t, info).sp_merge(self.lower.sp_update_res(t, info))
    }

    open spec fn sp_updated(&self, t: TerminalModel, info: UpdateInfo) -> Self {
        OnTopOf { upper: self.upper.sp_updated(t, info), lower: self.lower.sp_updated(t, info) }
    }

    proof fn sp_draw_frame(&self, t: TerminalModel, area: Rectangle) {
        if self.upper.sp_bounds_ok(area) {
            self.upper.sp_bounds_properties(area);
            let bottom = self.sp_bottom_area(area);
            let top = self.sp_top_area(area);
            self.lower.sp_draw_frame(t, bottom);
            let mid = self.lower.sp_drawn(t, bottom);
            self.upper.sp_draw_frame(mid, top);
        }
    }

    proof fn sp_draw_local(&self, t1: TerminalModel, t2: TerminalModel, area: Rectangle) {
        if self.upper.sp_bounds_ok(area) {
            self.upper.sp_bounds_properties(area);
            let bottom = self.sp_bottom_area(area);
            let top = self.sp_top_area(area);
            self.lower.sp_draw_frame(t1, bottom);
            self.lower.sp_draw_frame(t2, bottom);
            self.lower.sp_draw_local(t1, t2, bottom);
            let m1 = self.lower.sp_drawn(t1, bottom);
            let m2 = self.lower.sp_drawn(t2, bottom);
            assert forall|x: int, y: int|
                area.sp_covers_cell(x, y) implies #[trigger] m1.cell_at(x, y) == m2.cell_at(
                x,
                y,
            ) by {
                if !bottom.sp_covers_cell(x, y) {
                    assert(m1.cell_at(x, y) == t1.cell_at(x, y));
                    assert(m2.cell_at(x, y) == t2.cell_at(x, y));
                }
            }
            self.upper.sp_draw_frame(m1, top);
            self.upper.sp_draw_frame(m2, top);
            self.upper.sp_draw_local(m1, m2, top);
            let d1 = self.upper.sp_drawn(m1, top);
            let d2 = self.upper.sp_drawn(m2, top);
            assert forall|x: int, y: int|
                area.sp_covers_cell(x, y) implies #[trigger] d1.cell_at(x, y) == d2.cell_at(
                x,
                y,
            ) by {
                if !top.sp_covers_cell(x, y) {
                    assert(d1.cell_at(x, y) == m1.cell_at(x, y));
                    assert(d2.cell_at(x, y) == m2.cell_at(x, y));
                }
            }
        }
    }

    fn update<T: Terminal>(&mut self, update_info: UpdateInfo, terminal: &T) -> (r: Result<
        UpdateResult,
        Error,
    >) {
        let upper_result = match self.upper.update(update_info, terminal) {
            Ok(u) => u,
            Err(e) => {
                return Err(e);
            },
        };
        let lower_result = match self.lower.update(update_info, terminal) {
            Ok(u) => u,
            Err(e) => {
                return Err(e);
            },
        };
        Ok(upper_result.merge(lower_result))
    }

    fn draw_in<T: Terminal>(
        &self,
        update_info: UpdateInfo,
        terminal: &mut T,
        area: Rectangle,
    ) -> (r: Result<UpdateResult, Error>) {
        proof {
            terminal.inv_model_wf();
        }
        let ghost t0 = terminal.model();
        let upper_box = match self.upper.bounding_box(area) {
            Ok(b) => b,
            Err(e) => {
                return Err(e);
            },
        };
        proof {
            self.upper.sp_bounds_properties(area);
        }
        let area_height = area.height();
        let box_height = upper_box.height();
        let split = if box_height < area_height {
            box_height
        } else {
            area_height
        };
        let top_area = Rectangle {
            left_top: area.left_top,
            right_bottom: (area.right(), area.top() + split),
        };
        let bottom_area = Rectangle {
            left_top: (area.left(), area.top() + split),
            right_bottom: area.right_bottom,
        };
        proof {
            self.lower.sp_draw_frame(t0, bottom_area);
        }
        match self.lower.draw_in(update_info, terminal, bottom_area) {
            Ok(_) => {},
            Err(e) => {
                return Err(e);
            },
        }
        self.upper.draw_in(update_info, terminal, top_area)
    }
}

/// on_top_of: the two widgets split the region's rows at the upper
/// widget's clipped height, and neither writes a cell of the other's rows.
/// What lands below the split is exactly what the lower widget alone draws
/// there; what lands above it is exactly what the upper widget alone draws
/// there.
pub proof fn lemma_on_top_of_partition<A: BoundingBox, B: Widget>(
    w: OnTopOf<A, B>,
    t: TerminalModel,
    area: Rectangle,
)
    requires
        w.wf(),
        t.wf(),
        t.admits(area),
        w.upper.sp_bounds_ok(area),
        w.lower.sp_ok(t, w.sp_bottom_area(area)),
    ensures
        forall|x: int, y: int|
            !(#[trigger] w.sp_top_area(area).sp_covers_cell(x, y) && #[trigger] w.sp_bottom_area(
                area,
            ).sp_covers_cell(x, y)),
        forall|x: int, y: int|
            w.sp_bottom_area(area).sp_covers_cell(x, y) ==> #[trigger] w.sp_drawn(
                t,
                area,
            ).cell_at(x, y) == w.lower.sp_drawn(t, w.sp_bottom_area(area)).cell_at(x, y),
        forall|x: int, y: int|
            w.sp_top_area(area).sp_covers_cell(x, y) ==> #[trigger] w.sp_drawn(t, area).cell_at(
                x,
                y,
            ) == w.upper.sp_drawn(t, w.sp_top_area(area)).cell_at(x, y),
{
    w.upper.sp_bounds_properties(area);
    let bottom = w.sp_bottom_area(area);
    let top = w.sp_top_area(area);
    w.lower.sp_draw_frame(t, bottom);
    let mid = w.lower.sp_drawn(t, bottom);
    w.upper.sp_draw_frame(mid, top);
    w.upper.sp_draw_local(mid, t, top);
    assert forall|x: int, y: int|
        bottom.sp_covers_cell(x, y) implies #[trigger] w.sp_drawn(t, area).cell_at(x, y)
        == w.lower.sp_drawn(t, bottom).cell_at(x, y) by {
        assert(!top.sp_covers_cell(x, y));
        assert(t.in_bounds(x, y));
    }
    assert forall|x: int, y: int|
        top.sp_covers_cell(x, y) implies #[trigger] w.sp_drawn(t, area).cell_at(x, y)
        == w.upper.sp_drawn(t, top).cell_at(x, y) by {
        assert(t.in_bounds(x, y));
    }
}

/// Centers a widget: the child's natural bounding box is re-anchored at
/// the middle of the region, by integer division, without resizing the
/// child. A child whose natural size exceeds the region in either axis is
/// rejected with a bounds error.
pub struct Centered<W> {
    /// The widget being centered.
    pub inner: W,
}

impl<W: BoundingBox> Centered<W> {
    /// Centers `inner`.
    pub fn new(inner: W) -> (r: Self)
        ensures
            r == (Centered { inner }),
    {
        Centered { inner }
    }

    /// Where the child lands: its natural size, re-anchored so that the
    /// left margin is `(width - child width) / 2` and the top margin is
    /// `(height - child height) / 2`.
    pub open spec fn sp_centered_box(&self, avail: Rectangle) -> Rectangle {
        let child = self.inner.sp_bounds(avail);
        let left = avail.sp_left() + (avail.sp_width() - child.sp_width()) / 2;
        let top = avail.sp_top() + (avail.sp_height() - child.sp_height()) / 2;
        Rectangle {
            left_top: (left as usize, top as usize),
            right_bottom: ((left + child.sp_width()) as usize, (top + child.sp_height()) as usize),
        }
    }

    /// Whether the child's natural size fits the region.
    pub open spec fn sp_fits(&self, avail: Rectangle) -> bool {
        &&& self.inner.sp_bounds_ok(avail)
        &&& self.inner.sp_bounds(avail).sp_width() <= avail.sp_width()
        &&& self.inner.sp_bounds(avail).sp_height() <= avail.sp_height()
    }
}

impl<W: BoundingBox> Widget for Centered<W> {
    open spec fn wf(&self) -> bool {
        self.inner.wf()
    }

    open spec fn sp_ok(&self, t: TerminalModel, area: Rectangle) -> bool {
        self.sp_fits(area) && self.inner.sp_ok(t, self.sp_centered_box(area))
    }

    open spec fn sp_drawn(&self, t: TerminalModel, area: Rectangle) -> TerminalModel {
        if self.sp_fits(area) {
            self.inner.sp_drawn(t, self.sp_centered_box(area))
        } else {
            t
        }
    }

    open spec fn sp_update_res(&self, t: TerminalModel, info: UpdateInfo) -> UpdateResult {
        self.inner.sp_update_res(t, info)
    }

    open spec fn sp_updated(&self, t: TerminalModel, info: UpdateInfo) -> Self {
        Centered { inner: self.inner.sp_updated(t, info) }
    }

    proof fn sp_draw_frame(&self, t: TerminalModel, area: Rectangle) {
        if self.sp_fits(area) {
            self.inner.sp_bounds_properties(area);
            self.inner.sp_draw_frame(t, self.sp_centered_box(area));
        }
    }

    proof fn sp_draw_local(&self, t1: TerminalModel, t2: TerminalModel, area: Rectangle) {
        if self.sp_fits(area) {
            self.inner.sp_bounds_properties(area);
            let spot = self.sp_centered_box(area);
            self.inner.sp_draw_frame(t1, spot);
            self.inner.sp_draw_frame(t2, spot);
            self.inner.sp_draw_local(t1, t2, spot);
            let d1 = self.inner.sp_drawn(t1, spot);
            let d2 = self.inner.sp_drawn(t2, spot);
            assert forall|x: int, y: int|
                area.sp_covers_cell(x, y) implies #[trigger] d1.cell_at(x, y) == d2.cell_at(
                x,
                y,
            ) by {
                if !spot.sp_covers_cell(x, y) {
                    assert(d1.cell_at(x, y) == t1.cell_at(x, y));
                    assert(d2.cell_at(x, y) == t2.cell_at(x, y));
                }
            }
        }
    }

    fn update<T: Terminal>(&mut self, update_info: UpdateInfo, terminal: &T) -> (r: Result<
        UpdateResult,
        Error,
    >) {
        self.inner.update(update_info, terminal)
    }

    fn draw_in<T: Terminal>(
        &self,
        update_info: UpdateInfo,
        terminal: &mut T,
        area: Rectangle,
    ) -> (r: Result<UpdateResult, Error>)
        ensures
            self.inner.sp_bounds_ok(area) && !self.sp_fits(area) ==> r == Err::<
                UpdateResult,
                Error,
            >(
                Error::OutOfBoundsCoordinate(
                    self.inner.sp_bounds(area).sp_width() as usize,
                    self.inner.sp_bounds(area).sp_height() as usize,
                ),
            ),
    {
        proof {
            terminal.inv_model_wf();
        }
        let child = match self.inner.bounding_box(area) {
            Ok(b) => b,
            Err(e) => {
                return Err(e);
            },
        };
        proof {
            self.inner.sp_bounds_properties(area);
        }
        let child_width = child.width();
        let child_height = child.height();
        let area_width = area.width();
        let area_height = area.height();
        if child_width > area_width || child_height > area_height {
            return Err(Error::OutOfBoundsCoordinate(child_width, child_height));
        }
        let left = area.left() + (area_width - child_width) / 2;
        let top = area.top() + (area_height - child_height) / 2;
        let spot = Rectangle {
            left_top: (left, top),
            right_bottom: (left + child_width, top + child_height),
        };
        self.inner.draw_in(update_info, terminal, spot)
    }
}

/// Centering a widget of natural size `(w, h)` into a region of size
/// `(W, H)` with `w <= W` and `h <= H` puts its box at left margin
/// `(W - w) / 2` and top margin `(H - h) / 2`, size unchanged.
pub proof fn lemma_centered_position<W: BoundingBox>(c: Centered<W>, area: Rectangle)
    requires
        c.wf(),
        area.wf(),
        c.sp_fits(area),
    ensures
        c.sp_centered_box(area).wf(),
        c.sp_centered_box(area).sp_left() - area.sp_left() == (area.sp_width()
            - c.inner.sp_bounds(area).sp_width()) / 2,
        c.sp_centered_box(area).sp_top() - area.sp_top() == (area.sp_height()
            - c.inner.sp_bounds(area).sp_height()) / 2,
        c.sp_centered_box(area).sp_width() == c.inner.sp_bounds(area).sp_width(),
        c.sp_centered_box(area).sp_height() == c.inner.sp_bounds(area).sp_height(),
        area.sp_left() <= c.sp_centered_box(area).sp_left(),
        area.sp_top() <= c.sp_centered_box(area).sp_top(),
        c.sp_centered_box(area).sp_right() <= area.sp_right(),
        c.sp_centered_box(area).sp_bottom() <= area.sp_bottom(),
{
    c.inner.sp_bounds_properties(area);
}

/// Fills the whole region with a solid colour first, then draws the inner
/// widget over it, so that no stale cell content shows through a widget
/// that does not cover its region completely.
pub struct Backdrop<W> {
    /// The widget drawn over the fill.
    pub inner: W,
    /// The colour the region is filled with first.
    pub colour: TerminalColour,
}

impl<W: Widget> Backdrop<W> {
    /// Lays `inner` over a solid `colour` fill.
    pub fn new(inner: W, colour: TerminalColour) -> (r: Self)
        ensures
            r == (Backdrop { inner, colour }),
    {
        Backdrop { inner, colour }
    }

    /// The region's model after the fill alone.
    pub open spec fn sp_filled(&self, t: TerminalModel, area: Rectangle) -> TerminalModel {
        sp_blit(
            t,
            area,
            sp_repeat_cell(Sweeper { colour: self.colour }.sp_fill_cell(), area.sp_area() as nat),
        )
    }
}

impl<W: Widget> Widget for Backdrop<W> {
    open spec fn wf(&self) -> bool {
        self.inner.wf()
    }

    open spec fn sp_ok(&self, t: TerminalModel, area: Rectangle) -> bool {
        self.inner.sp_ok(self.sp_filled(t, area), area)
    }

    open spec fn sp_drawn(&self, t: TerminalModel, area: Rectangle) -> TerminalModel {
        self.inner.sp_drawn(self.sp_filled(t, area), area)
    }

    open spec fn sp_update_res(&self, t: TerminalModel, info: UpdateInfo) -> UpdateResult {
        self.inner.sp_update_res(t, info)
    }

    open spec fn sp_updated(&self, t: TerminalModel, info: UpdateInfo) -> Self {
        Backdrop { inner: self.inner.sp_updated(t, info), colour: self.colour }
    }

    proof fn sp_draw_frame(&self, t: TerminalModel, area: Rectangle) {
        let fill = Sweeper { colour: self.colour };
        fill.sp_draw_frame(t, area);
        self.inner.sp_draw_frame(self.sp_filled(t, area), area);
    }

    proof fn sp_draw_local(&self, t1: TerminalModel, t2: TerminalModel, area: Rectangle) {
        let fill = Sweeper { colour: self.colour };
        fill.sp_draw_frame(t1, area);
        fill.sp_draw_frame(t2, area);
        fill.sp_draw_local(t1, t2, area);
        self.inner.sp_draw_local(self.sp_filled(t1, area), self.sp_filled(t2, area), area);
    }

    fn update<T: Terminal>(&mut self, update_info: UpdateInfo, terminal: &T) -> (r: Result<
        UpdateResult,
        Error,
    >) {
        self.inner.update(update_info, terminal)
    }

    fn draw_in<T: Terminal>(
        &self,
        update_info: UpdateInfo,
        terminal: &mut T,
        area: Rectangle,
    ) -> (r: Result<UpdateResult, Error>) {
        proof {
            terminal.inv_model_wf();
        }
        let ghost t0 = terminal.model();
        let fill = Sweeper::of_colour(self.colour);
        match fill.draw_in(update_info, terminal, area) {
            Ok(_) => {},
            Err(e) => {
                return Err(e);
            },
        }
        self.inner.draw_in(update_info, terminal, area)
    }
}

/// Insets the region offered to the inner widget by a margin on every
/// side, to give text or fills breathing room. A region too small for the
/// margin collapses to an empty region at its top-left corner.
pub struct WithMargin<W> {
    /// The widget drawn inside the margin.
    pub inner: W,
    /// How many cells to cut from each side.
    pub margin: usize,
}

impl<W: Widget> WithMargin<W> {
    /// Puts a margin of `margin` cells around `inner`.
    pub fn new(inner: W, margin: usize) -> (r: Self)
        ensures
            r == (WithMargin { inner, margin }),
    {
        WithMargin { inner, margin }
    }

    /// The region left once the margin is cut away.
    pub open spec fn sp_inset(&self, area: Rectangle) -> Rectangle {
        if 2 * self.margin <= area.sp_width() && 2 * self.margin <= area.sp_height() {
            Rectangle {
                left_top: (
                    (area.sp_left() + self.margin) as usize,
                    (area.sp_top() + self.margin) as usize,
                ),
                right_bottom: (
                    (area.sp_right() - self.margin) as usize,
                    (area.sp_bottom() - self.margin) as usize,
                ),
            }
        } else {
            Rectangle { left_top: area.left_top, right_bottom: area.left_top }
        }
    }
}

impl<W: Widget> Widget for WithMargin<W> {
    open spec fn wf(&self) -> bool {
        self.inner.wf()
    }

    open spec fn sp_ok(&self, t: TerminalModel, area: Rectangle) -> bool {
        self.inner.sp_ok(t, self.sp_inset(area))
    }

    open spec fn sp_drawn(&self, t: TerminalModel, area: Rectangle) -> TerminalModel {
        self.inner.sp_drawn(t, self.sp_inset(area))
    }

    open spec fn sp_update_res(&self, t: TerminalModel, info: UpdateInfo) -> UpdateResult {
        self.inner.sp_update_res(t, info)
    }

    open spec fn sp_updated(&self, t: TerminalModel, info: UpdateInfo) -> Self {
        WithMargin { inner: self.inner.sp_updated(t, info), margin: self.margin }
    }

    proof fn sp_draw_frame(&self, t: TerminalModel, area: Rectangle) {
        self.inner.sp_draw_frame(t, self.sp_inset(area));
    }

    proof fn sp_draw_local(&self, t1: TerminalModel, t2: TerminalModel, area: Rectangle) {
        let inset = self.sp_inset(area);
        self.inner.sp_draw_frame(t1, inset);
        self.inner.sp_draw_frame(t2, inset);
        self.inner.sp_draw_local(t1, t2, inset);
        let d1 = self.inner.sp_drawn(t1, inset);
        let d2 = self.inner.sp_drawn(t2, inset);
        assert forall|x: int, y: int|
            area.sp_covers_cell(x, y) implies #[trigger] d1.cell_at(x, y) == d2.cell_at(x, y) by {
            if !inset.sp_covers_cell(x, y) {
                assert(d1.cell_at(x, y) == t1.cell_at(x, y));
                assert(d2.cell_at(x, y) == t2.cell_at(x, y));
            }
        }
    }

    fn update<T: Terminal>(&mut self, update_info: UpdateInfo, terminal: &T) -> (r: Result<
        UpdateResult,
        Error,
    >) {
        self.inner.update(update_info, terminal)
    }

    fn draw_in<T: Terminal>(
        &self,
        update_info: UpdateInfo,
        terminal: &mut T,
        area: Rectangle,
    ) -> (r: Result<UpdateResult, Error>) {
        proof {
            terminal.inv_model_wf();
        }
        let area_width = area.width();
        let area_height = area.height();
        let m = self.margin;
        let inset = if m <= area_width / 2 && m <= area_height / 2 {
            Rectangle {
                left_top: (area.left() + m, area.top() + m),
                right_bottom: (area.right() - m, area.bottom() - m),
            }
        } else {
            Rectangle { left_top: area.left_top, right_bottom: area.left_top }
        };
        self.inner.draw_in(update_info, terminal, inset)
    }
}


impl<A: BoundingBox, B: BoundingBox> BoundingBox for OnTopOf<A, B> {
    open spec fn sp_bounds_ok(&self, avail: Rectangle) -> bool {
        &&& self.upper.sp_bounds_ok(avail)
        &&& self.lower.sp_bounds_ok(avail)
        &&& avail.sp_top() + self.upper.sp_bounds(avail).sp_height() + self.lower.sp_bounds(
            avail,
        ).sp_height() <= usize::MAX
    }

    open spec fn sp_bounds(&self, avail: Rectangle) -> Rectangle {
        let upper_box = self.upper.sp_bounds(avail);
        let lower_box = self.lower.sp_bounds(avail);
        let width = if upper_box.sp_width() < lower_box.sp_width() {
            lower_box.sp_width()
        } else {
            upper_box.sp_width()
        };
        Rectangle {
            left_top: avail.left_top,
            right_bottom: (
                (avail.sp_left() + width) as usize,
                (avail.sp_top() + upper_box.sp_height() + lower_box.sp_height()) as usize,
            ),
        }
    }

    open spec fn sp_covers(&self, rect: Rectangle) -> bool {
        false
    }

    proof fn sp_bounds_properties(&self, avail: Rectangle) {
        self.upper.sp_bounds_properties(avail);
        self.lower.sp_bounds_properties(avail);
    }

    fn bounding_box(&self, rect: Rectangle) -> (r: Result<Rectangle, Error>) {
        let upper_box = match self.upper.bounding_box(rect) {
            Ok(b) => b,
            Err(e) => {
                return Err(e);
            },
        };
        let lower_box = match self.lower.bounding_box(rect) {
            Ok(b) => b,
            Err(e) => {
                return Err(e);
            },
        };
        proof {
            self.upper.sp_bounds_properties(rect);
            self.lower.sp_bounds_properties(rect);
        }
        let upper_width = upper_box.width();
        let lower_width = lower_box.width();
        let width = if upper_width < lower_width {
            lower_width
        } else {
            upper_width
        };
        let upper_height = upper_box.height();
        let lower_height = lower_box.height();
        if lower_height > usize::MAX - upper_height || upper_height + lower_height > usize::MAX
            - rect.top() {
            return Err(Error::OutOfBoundsCoordinate(rect.left(), rect.top()));
        }
        Ok(
            Rectangle {
                left_top: rect.left_top,
                right_bottom: (rect.left() + width, rect.top() + upper_height + lower_height),
            },
        )
    }

    /// Conservative: a stack is not assumed to overwrite every cell of any
    /// region.
    fn completely_covers(&self, rectangle: Rectangle) -> (r: bool) {
        false
    }
}

impl<W: BoundingBox> BoundingBox for WithMargin<W> {
    open spec fn sp_bounds_ok(&self, avail: Rectangle) -> bool {
        self.inner.sp_bounds_ok(self.sp_inset(avail))
    }

    open spec fn sp_bounds(&self, avail: Rectangle) -> Rectangle {
        self.inner.sp_bounds(self.sp_inset(avail))
    }

    open spec fn sp_covers(&self, rect: Rectangle) -> bool {
        self.margin == 0 && self.inner.sp_covers(rect)
    }

    proof fn sp_bounds_properties(&self, avail: Rectangle) {
        self.inner.sp_bounds_properties(self.sp_inset(avail));
    }

    fn bounding_box(&self, rect: Rectangle) -> (r: Result<Rectangle, Error>) {
        let rect_width = rect.width();
        let rect_height = rect.height();
        let m = self.margin;
        let inset = if m <= rect_width / 2 && m <= rect_height / 2 {
            Rectangle {
                left_top: (rect.left() + m, rect.top() + m),
                right_bottom: (rect.right() - m, rect.bottom() - m),
            }
        } else {
            Rectangle { left_top: rect.left_top, right_bottom: rect.left_top }
        };
        self.inner.bounding_box(inset)
    }

    fn completely_covers(&self, rectangle: Rectangle) -> (r: bool) {
        if self.margin == 0 {
            self.inner.completely_covers(rectangle)
        } else {
            false
        }
    }
}

} // verus!
