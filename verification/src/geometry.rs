//! Axis-aligned rectangle arithmetic.
//!
//! The coordinate system puts the origin at the top-left and grows y
//! downward, so a rectangle's `top` is never greater than its `bottom`.

use vstd::prelude::*;

verus! {

/// An axis-aligned box, stored as its top-left and bottom-right corners.
///
/// Every constructor and edge-mover normalises the pair so that
/// `left() <= right()` and `top() <= bottom()` — see [`Rectangle::wf`]. The
/// fields are public so that specifications can speak about them; exec code
/// should go through the constructors, which keep the pair normalised.
///
/// For cell coverage, `right()` and `bottom()` are exclusive: the rectangle
/// spans `width() * height()` cells. [`Rectangle::contains`], by contrast,
/// deliberately treats all four edges as inclusive, so even a zero-width
/// rectangle still "contains" the coordinates on its single edge line.
#[derive(Hash, Eq, PartialEq, Copy, Clone, Debug, Default)]
pub struct Rectangle {
    /// The top-left corner, `(x, y)`.
    pub left_top: (usize, usize),
    /// The bottom-right corner, `(x, y)`.
    pub right_bottom: (usize, usize),
}

impl Rectangle {
    /// The x-coordinate of the leftmost edge.
    pub open spec fn sp_left(&self) -> int {
        self.left_top.0 as int
    }

    /// The y-coordinate of the top edge.
    pub open spec fn sp_top(&self) -> int {
        self.left_top.1 as int
    }

    /// The x-coordinate of the rightmost edge.
    pub open spec fn sp_right(&self) -> int {
        self.right_bottom.0 as int
    }

    /// The y-coordinate of the bottom edge.
    pub open spec fn sp_bottom(&self) -> int {
        self.right_bottom.1 as int
    }

    /// The corner pair is normalised.
    pub open spec fn wf(&self) -> bool {
        self.sp_left() <= self.sp_right() && self.sp_top() <= self.sp_bottom()
    }

    /// The width, in cells.
    pub open spec fn sp_width(&self) -> int {
        self.sp_right() - self.sp_left()
    }

    /// The height, in cells.
    pub open spec fn sp_height(&self) -> int {
        self.sp_bottom() - self.sp_top()
    }

    /// The area, in cells.
    pub open spec fn sp_area(&self) -> int {
        self.sp_width() * self.sp_height()
    }

    /// The rectangle anchored at the origin spanning `width` by `height`.
    pub open spec fn sp_of_size(width: usize, height: usize) -> Self {
        Rectangle { left_top: (0, 0), right_bottom: (width, height) }
    }

    /// Whether `(x, y)` lies within the rectangle, all four edges inclusive.
    pub open spec fn sp_contains(&self, x: int, y: int) -> bool {
        self.sp_left() <= x <= self.sp_right() && self.sp_top() <= y <= self.sp_bottom()
    }

    /// Whether the cell at `(x, y)` belongs to the rectangle's span; unlike
    /// [`Rectangle::sp_contains`], the right and bottom edges are exclusive,
    /// so a rectangle covers exactly `sp_area()` cells.
    pub open spec fn sp_covers_cell(&self, x: int, y: int) -> bool {
        self.sp_left() <= x < self.sp_right() && self.sp_top() <= y < self.sp_bottom()
    }

    /// Creates a rectangle from any two corner points; the inputs need not be
    /// ordered, the corners are sorted per axis.
    pub fn new(first_point: (usize, usize), second_point: (usize, usize)) -> (r: Self)
        ensures
            r.wf(),
            r.sp_left() == if first_point.0 <= second_point.0 {
                first_point.0 as int
            } else {
                second_point.0 as int
            },
            r.sp_right() == if first_point.0 <= second_point.0 {
                second_point.0 as int
            } else {
                first_point.0 as int
            },
            r.sp_top() == if first_point.1 <= second_point.1 {
                first_point.1 as int
            } else {
                second_point.1 as int
            },
            r.sp_bottom() == if first_point.1 <= second_point.1 {
                second_point.1 as int
            } else {
                first_point.1 as int
            },
    {
        let (first_x, first_y) = first_point;
        let (second_x, second_y) = second_point;

        let x_smaller: usize;
        let y_smaller: usize;
        let x_larger: usize;
        let y_larger: usize;

        if first_x > second_x {
            x_larger = first_x;
            x_smaller = second_x;
        } else {
            x_larger = second_x;
            x_smaller = first_x;
        }

        if first_y > second_y {
            y_larger = first_y;
            y_smaller = second_y;
        } else {
            y_larger = second_y;
            y_smaller = first_y;
        }

        Rectangle { left_top: (x_smaller, y_smaller), right_bottom: (x_larger, y_larger) }
    }

    /// Creates a rectangle with its top-left corner at the origin.
    pub fn of_size(width: usize, height: usize) -> (r: Self)
        ensures
            r == Rectangle::sp_of_size(width, height),
            r.wf(),
    {
        Rectangle { left_top: (0, 0), right_bottom: (width, height) }
    }

    /// The x-coordinate of the leftmost edge.
    pub fn left(&self) -> (r: usize)
        ensures
            r == self.sp_left(),
    {
        self.left_top.0
    }

    /// The y-coordinate of the top edge; the y-axis grows downward, so this
    /// is never greater than [`Rectangle::bottom`] on a normalised rectangle.
    pub fn top(&self) -> (r: usize)
        ensures
            r == self.sp_top(),
    {
        self.left_top.1
    }

    /// The x-coordinate of the rightmost edge.
    pub fn right(&self) -> (r: usize)
        ensures
            r == self.sp_right(),
    {
        self.right_bottom.0
    }

    /// The y-coordinate of the bottom edge; the y-axis grows downward, so
    /// this is never less than [`Rectangle::top`] on a normalised rectangle.
    pub fn bottom(&self) -> (r: usize)
        ensures
            r == self.sp_bottom(),
    {
        self.right_bottom.1
    }

    /// The top-left corner.
    pub fn left_top(&self) -> (r: (usize, usize))
        ensures
            r.0 == self.sp_left(),
            r.1 == self.sp_top(),
    {
        self.left_top
    }

    /// The bottom-right corner.
    pub fn right_bottom(&self) -> (r: (usize, usize))
        ensures
            r.0 == self.sp_right(),
            r.1 == self.sp_bottom(),
    {
        self.right_bottom
    }

    /// The bottom-left corner.
    pub fn left_bottom(&self) -> (r: (usize, usize))
        ensures
            r.0 == self.sp_left(),
            r.1 == self.sp_bottom(),
    {
        (self.left_top.0, self.right_bottom.1)
    }

    /// The top-right corner.
    pub fn right_top(&self) -> (r: (usize, usize))
        ensures
            r.0 == self.sp_right(),
            r.1 == self.sp_top(),
    {
        (self.right_bottom.0, self.left_top.1)
    }

    /// The width, in cells.
    pub fn width(&self) -> (r: usize)
        requires
            self.wf(),
        ensures
            r == self.sp_width(),
    {
        self.right_bottom.0 - self.left_top.0
    }

    /// The height, in cells.
    pub fn height(&self) -> (r: usize)
        requires
            self.wf(),
        ensures
            r == self.sp_height(),
    {
        self.right_bottom.1 - self.left_top.1
    }

    /// The `(width, height)` pair.
    pub fn dimensions(&self) -> (r: (usize, usize))
        requires
            self.wf(),
        ensures
            r.0 == self.sp_width(),
            r.1 == self.sp_height(),
    {
        (self.width(), self.height())
    }

    /// The area, in cells.
    pub fn area(&self) -> (r: usize)
        requires
            self.wf(),
            self.sp_area() <= usize::MAX,
        ensures
            r == self.sp_area(),
    {
        self.width() * self.height()
    }

    /// Moves the right edge to `new_edge`; if the edge would cross the left
    /// one, the pair is swapped so the result stays normalised.
    pub fn right_to(self, new_edge: usize) -> (r: Self)
        requires
            self.wf(),
        ensures
            r.wf(),
            r.sp_top() == self.sp_top(),
            r.sp_bottom() == self.sp_bottom(),
            new_edge >= self.sp_left() ==> r.sp_left() == self.sp_left() && r.sp_right()
                == new_edge,
            new_edge < self.sp_left() ==> r.sp_left() == new_edge && r.sp_right()
                == self.sp_left(),
    {
        let mut this = self;
        if new_edge >= this.left_top.0 {
            this.right_bottom.0 = new_edge;
        } else {
            this.right_bottom.0 = this.left_top.0;
            this.left_top.0 = new_edge;
        }
        this
    }

    /// Moves the left edge to `new_edge`; if the edge would cross the right
    /// one, the pair is swapped so the result stays normalised.
    pub fn left_to(self, new_edge: usize) -> (r: Self)
        requires
            self.wf(),
        ensures
            r.wf(),
            r.sp_top() == self.sp_top(),
            r.sp_bottom() == self.sp_bottom(),
            new_edge <= self.sp_right() ==> r.sp_left() == new_edge && r.sp_right()
                == self.sp_right(),
            new_edge > self.sp_right() ==> r.sp_left() == self.sp_right() && r.sp_right()
                == new_edge,
    {
        let mut this = self;
        if new_edge <= this.right_bottom.0 {
            this.left_top.0 = new_edge;
        } else {
            this.left_top.0 = this.right_bottom.0;
            this.right_bottom.0 = new_edge;
        }
        this
    }

    /// Moves the bottom edge to `new_edge`; if the edge would cross the top
    /// one, the pair is swapped so the result stays normalised.
    pub fn bottom_to(self, new_edge: usize) -> (r: Self)
        requires
            self.wf(),
        ensures
            r.wf(),
            r.sp_left() == self.sp_left(),
            r.sp_right() == self.sp_right(),
            new_edge >= self.sp_top() ==> r.sp_top() == self.sp_top() && r.sp_bottom()
                == new_edge,
            new_edge < self.sp_top() ==> r.sp_top() == new_edge && r.sp_bottom() == self.sp_top(),
    {
        let mut this = self;
        if new_edge >= this.left_top.1 {
            this.right_bottom.1 = new_edge;
        } else {
            this.right_bottom.1 = this.left_top.1;
            this.left_top.1 = new_edge;
        }
        this
    }

    /// Moves the top edge to `new_edge`; if the edge would cross the bottom
    /// one, the pair is swapped so the result stays normalised.
    pub fn top_to(self, new_edge: usize) -> (r: Self)
        requires
            self.wf(),
        ensures
            r.wf(),
            r.sp_left() == self.sp_left(),
            r.sp_right() == self.sp_right(),
            new_edge <= self.sp_bottom() ==> r.sp_top() == new_edge && r.sp_bottom()
                == self.sp_bottom(),
            new_edge > self.sp_bottom() ==> r.sp_top() == self.sp_bottom() && r.sp_bottom()
                == new_edge,
    {
        let mut this = self;
        if new_edge <= this.right_bottom.1 {
            this.left_top.1 = new_edge;
        } else {
            this.left_top.1 = this.right_bottom.1;
            this.right_bottom.1 = new_edge;
        }
        this
    }

    /// Whether `(x, y)` lies within the rectangle, all four edges inclusive.
    pub fn contains(&self, point: (usize, usize)) -> (r: bool)
        ensures
            r == self.sp_contains(point.0 as int, point.1 as int),
    {
        let (x, y) = point;
        let x_in_bounds = x >= self.left_top.0 && x <= self.right_bottom.0;
        let y_in_bounds = y >= self.left_top.1 && y <= self.right_bottom.1;
        x_in_bounds && y_in_bounds
    }

    /// Whether `rect` lies entirely within this rectangle, edges inclusive.
    pub fn contains_rect(&self, rect: Self) -> (r: bool)
        ensures
            r == (self.sp_contains(rect.sp_left(), rect.sp_top()) && self.sp_contains(
                rect.sp_right(),
                rect.sp_bottom(),
            )),
    {
        self.contains(rect.left_top()) && self.contains(rect.right_bottom())
    }

    /// Moves the rectangle so its top-left corner sits at `new_left_top`,
    /// keeping its dimensions.
    pub fn to(self, new_left_top: (usize, usize)) -> (r: Self)
        requires
            self.wf(),
            new_left_top.0 + self.sp_width() <= usize::MAX,
            new_left_top.1 + self.sp_height() <= usize::MAX,
        ensures
            r.wf(),
            r.sp_left() == new_left_top.0,
            r.sp_top() == new_left_top.1,
            r.sp_width() == self.sp_width(),
            r.sp_height() == self.sp_height(),
    {
        let width = self.width();
        let height = self.height();
        Rectangle {
            left_top: new_left_top,
            right_bottom: (new_left_top.0 + width, new_left_top.1 + height),
        }
    }
}

impl Rectangle {
    /// The width as drawn: zero for a corner pair that is not normalised.
    pub open spec fn sp_clamped_width(&self) -> int {
        if self.sp_left() <= self.sp_right() {
            self.sp_width()
        } else {
            0
        }
    }

    /// The height as drawn: zero for a corner pair that is not normalised.
    pub open spec fn sp_clamped_height(&self) -> int {
        if self.sp_top() <= self.sp_bottom() {
            self.sp_height()
        } else {
            0
        }
    }

    /// What [`Rectangle::partial_cmp`] compares by: the area, with either
    /// dimension read as zero when the corner pair is not normalised.
    pub open spec fn sp_area_ordering(&self, other: &Self) -> core::cmp::Ordering {
        let a = self.sp_clamped_width() * self.sp_clamped_height();
        let b = other.sp_clamped_width() * other.sp_clamped_height();
        if a < b {
            core::cmp::Ordering::Less
        } else if a == b {
            core::cmp::Ordering::Equal
        } else {
            core::cmp::Ordering::Greater
        }
    }
}

impl PartialOrd for Rectangle {
    /// Rectangles order by area, not by position, for use in priority
    /// contexts.
    fn partial_cmp(&self, other: &Self) -> (r: Option<core::cmp::Ordering>) {
        let my_width = if self.left_top.0 <= self.right_bottom.0 {
            self.right_bottom.0 - self.left_top.0
        } else {
            0
        };
        let my_height = if self.left_top.1 <= self.right_bottom.1 {
            self.right_bottom.1 - self.left_top.1
        } else {
            0
        };
        let other_width = if other.left_top.0 <= other.right_bottom.0 {
            other.right_bottom.0 - other.left_top.0
        } else {
            0
        };
        let other_height = if other.left_top.1 <= other.right_bottom.1 {
            other.right_bottom.1 - other.left_top.1
        } else {
            0
        };
        proof {
            assert((my_width as int) * (my_height as int) <= u128::MAX && (other_width as int) * (
            other_height as int) <= u128::MAX) by (nonlinear_arith)
                requires
                    my_width <= u64::MAX,
                    my_height <= u64::MAX,
                    other_width <= u64::MAX,
                    other_height <= u64::MAX,
            ;
        }
        let my_area = (my_width as u128) * (my_height as u128);
        let other_area = (other_width as u128) * (other_height as u128);
        if my_area < other_area {
            Some(core::cmp::Ordering::Less)
        } else if my_area == other_area {
            Some(core::cmp::Ordering::Equal)
        } else {
            Some(core::cmp::Ordering::Greater)
        }
    }
}

impl vstd::std_specs::cmp::PartialOrdSpecImpl for Rectangle {
    open spec fn obeys_partial_cmp_spec() -> bool {
        true
    }

    open spec fn partial_cmp_spec(&self, other: &Self) -> Option<core::cmp::Ordering> {
        Some(self.sp_area_ordering(other))
    }
}

/// The area of [`Rectangle::of_size`] is exactly `width * height`, and it is
/// zero whenever either dimension is zero.
pub proof fn lemma_of_size_area(width: usize, height: usize)
    ensures
        Rectangle::sp_of_size(width, height).sp_area() == width * height,
        width == 0 || height == 0 ==> Rectangle::sp_of_size(width, height).sp_area() == 0,
{
    assert(width == 0 || height == 0 ==> width * height == 0) by (nonlinear_arith);
}

} // verus!
