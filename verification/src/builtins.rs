//! The minimal built-in widget set: plain text, centered text, a solid
//! fill, and a row of buttons.

use vstd::prelude::*;
use vstd::string::StrSliceExecFns;

use crate::errors::Error;
use crate::geometry::Rectangle;
use crate::interactive::{MouseButton, UpdateInfo, UpdateResult};
use crate::style::{TerminalColour, TerminalStyle};
use crate::terminal::{Terminal, TerminalCell, TerminalModel};
use crate::widgets::{
    blit_cells,
    lemma_blit_cell_at,
    sp_blit,
    sp_local_idx,
    BoundingBox,
    Widget,
};

verus! {

/// Text laid out row-major from the top-left corner of the region it is
/// drawn into.
pub struct Text<'a> {
    /// The text to display.
    pub text: &'a str,
    /// The style with which to display it.
    pub style: TerminalStyle,
}

impl<'a> Text<'a> {
    /// Creates a text widget with the default style.
    pub fn new(text: &'a str) -> (r: Self)
        ensures
            r.text@ == text@,
            r.style == TerminalStyle::sp_new(),
    {
        Text { text, style: TerminalStyle::new() }
    }

    /// Applies a style to the text.
    pub fn styled(self, style: TerminalStyle) -> (r: Self)
        ensures
            r.text@ == self.text@,
            r.style == style,
    {
        Text { style, ..self }
    }

    /// The cells the text widget lays down: its characters, each carrying
    /// the widget's style.
    pub open spec fn sp_cells(&self) -> Seq<TerminalCell> {
        sp_styled_cells(self.text@, self.style)
    }

    /// Builds the widget's cells.
    fn cells(&self) -> (r: Vec<TerminalCell>)
        ensures
            r@ == self.sp_cells(),
    {
        let len = self.text.unicode_len();
        let mut content: Vec<TerminalCell> = Vec::new();
        let mut i: usize = 0;
        while i < len
            invariant
                i <= len,
                len == self.text@.len(),
                content@.len() == i,
                forall|j: int|
                    0 <= j < i ==> content@[j] == (TerminalCell {
                        character: self.text@[j],
                        style: self.style,
                    }),
            decreases len - i,
        {
            content.push(TerminalCell { character: self.text.get_char(i), style: self.style });
            i = i + 1;
        }
        proof {
            assert(content@ =~= self.sp_cells());
        }
        content
    }
}

impl<'a> Widget for Text<'a> {
    open spec fn sp_ok(&self, t: TerminalModel, area: Rectangle) -> bool {
        self.text@.len() <= area.sp_area()
    }

    open spec fn sp_drawn(&self, t: TerminalModel, area: Rectangle) -> TerminalModel {
        sp_blit(t, area, self.sp_cells())
    }

    open spec fn sp_update_res(&self, t: TerminalModel, info: UpdateInfo) -> UpdateResult {
        UpdateResult::NoEvent
    }

    open spec fn sp_updated(&self, t: TerminalModel, info: UpdateInfo) -> Self {
        *self
    }

    proof fn sp_draw_frame(&self, t: TerminalModel, area: Rectangle) {
        lemma_blit_cell_at(t, area, self.sp_cells());
    }

    proof fn sp_draw_local(&self, t1: TerminalModel, t2: TerminalModel, area: Rectangle) {
        lemma_blit_cell_at(t1, area, self.sp_cells());
        lemma_blit_cell_at(t2, area, self.sp_cells());
    }

    fn update<T: Terminal>(&mut self, update_info: UpdateInfo, terminal: &T) -> (r: Result<
        UpdateResult,
        Error,
    >) {
        Ok(UpdateResult::NoEvent)
    }

    fn draw_in<T: Terminal>(
        &self,
        update_info: UpdateInfo,
        terminal: &mut T,
        area: Rectangle,
    ) -> (r: Result<UpdateResult, Error>)
        ensures
            r matches Err(e) ==> e == Error::OutOfBoundsCharacter(area.sp_area() as usize),
    {
        let content = self.cells();
        match blit_cells(terminal, area, &content) {
            Ok(_) => Ok(UpdateResult::NoEvent),
            Err(e) => Err(e),
        }
    }
}

impl<'a> BoundingBox for Text<'a> {
    open spec fn sp_bounds_ok(&self, avail: Rectangle) -> bool {
        avail.sp_top() + sp_div_ceil(self.text@.len() as int, avail.sp_width()) <= usize::MAX
    }

    open spec fn sp_bounds(&self, avail: Rectangle) -> Rectangle {
        Rectangle {
            left_top: avail.left_top,
            right_bottom: (
                (avail.sp_left() + sp_min(self.text@.len() as int, avail.sp_width())) as usize,
                (avail.sp_top() + sp_div_ceil(self.text@.len() as int, avail.sp_width())) as usize,
            ),
        }
    }

    open spec fn sp_covers(&self, rect: Rectangle) -> bool {
        rect.sp_area() <= self.text@.len()
    }

    proof fn sp_bounds_properties(&self, avail: Rectangle) {
    }

    fn bounding_box(&self, rect: Rectangle) -> (r: Result<Rectangle, Error>) {
        let len = self.text.unicode_len();
        let rect_width = rect.width();
        let width = if len < rect_width {
            len
        } else {
            rect_width
        };
        let height = div_ceil(len, rect_width);
        if height > usize::MAX - rect.top() {
            return Err(Error::OutOfBoundsCoordinate(width, height));
        }
        Ok(
            Rectangle {
                left_top: rect.left_top,
                right_bottom: (rect.left() + width, rect.top() + height),
            },
        )
    }

    fn completely_covers(&self, rectangle: Rectangle) -> (r: bool) {
        let rw = rectangle.width();
        let rh = rectangle.height();
        proof {
            assert((rw as int) * (rh as int) <= u128::MAX) by (nonlinear_arith)
                requires
                    rw <= u64::MAX,
                    rh <= u64::MAX,
            ;
        }
        let wide = (rw as u128) * (rh as u128);
        (self.text.unicode_len() as u128) >= wide
    }
}

/// One cell: a character carrying a style.
pub open spec fn sp_cell_of(character: char, style: TerminalStyle) -> TerminalCell {
    TerminalCell { character: character, style: style }
}

/// The cells of `text`, each carrying `style`.
pub open spec fn sp_styled_cells(text: Seq<char>, style: TerminalStyle) -> Seq<TerminalCell> {
    Seq::new(text.len(), |k: int| sp_cell_of(text[k], style))
}

/// The smaller of two values.
pub open spec fn sp_min(a: int, b: int) -> int {
    if a < b {
        a
    } else {
        b
    }
}

/// `a / b` rounded up; zero when `b` is zero.
pub open spec fn sp_div_ceil(a: int, b: int) -> int {
    if b <= 0 {
        0
    } else if a % b == 0 {
        a / b
    } else {
        a / b + 1
    }
}

/// `a / b` rounded up; zero when `b` is zero.
fn div_ceil(a: usize, b: usize) -> (r: usize)
    ensures
        r == sp_div_ceil(a as int, b as int),
{
    if b == 0 {
        0
    } else if a % b == 0 {
        a / b
    } else {
        proof {
            assert((a as int) % 1 == 0) by (nonlinear_arith);
            assert((a as int) / (b as int) < usize::MAX) by (nonlinear_arith)
                requires
                    2 <= b,
                    0 <= a <= usize::MAX,
            ;
        }
        a / b + 1
    }
}

/// Drawing text into `area` of a terminal lays the characters down
/// row-major from the area's top-left corner: the cell at `(x, y)` inside
/// the area shows character `k` of the text, where `k` counts row-major
/// from that corner, keeps its prior content where the text has ended, and
/// every cell outside the area is untouched.
pub proof fn lemma_text_draw_cells(w: Text, t: TerminalModel, area: Rectangle)
    requires
        t.wf(),
        t.admits(area),
    ensures
        w.sp_drawn(t, area).same_frame(t),
        forall|x: int, y: int|
            area.sp_covers_cell(x, y) && sp_local_idx(area, x, y) < w.text@.len()
                ==> #[trigger] w.sp_drawn(t, area).cell_at(x, y) == sp_cell_of(
                w.text@[sp_local_idx(area, x, y)],
                w.style,
            ),
        forall|x: int, y: int|
            t.in_bounds(x, y) && !(area.sp_covers_cell(x, y) && sp_local_idx(area, x, y)
                < w.text@.len()) ==> #[trigger] w.sp_drawn(t, area).cell_at(x, y) == t.cell_at(
                x,
                y,
            ),
{
    lemma_blit_cell_at(t, area, w.sp_cells());
}

/// A solid fill: paints every cell of the region it is drawn into with a
/// blank character on its colour.
pub struct Sweeper {
    /// The background colour painted over the region.
    pub colour: TerminalColour,
}

impl Sweeper {
    /// A fill of the given colour.
    pub fn of_colour(colour: TerminalColour) -> (r: Self)
        ensures
            r.colour == colour,
    {
        Sweeper { colour }
    }

    /// The cell this fill paints everywhere.
    pub open spec fn sp_fill_cell(&self) -> TerminalCell {
        sp_cell_of(
            ' ',
            TerminalStyle { bg_colour: Some(self.colour), ..TerminalStyle::sp_new() },
        )
    }
}

/// `count` copies of one cell.
pub open spec fn sp_repeat_cell(cell: TerminalCell, count: nat) -> Seq<TerminalCell> {
    Seq::new(count, |k: int| cell)
}

impl Widget for Sweeper {
    open spec fn sp_ok(&self, t: TerminalModel, area: Rectangle) -> bool {
        true
    }

    open spec fn sp_drawn(&self, t: TerminalModel, area: Rectangle) -> TerminalModel {
        sp_blit(t, area, sp_repeat_cell(self.sp_fill_cell(), area.sp_area() as nat))
    }

    open spec fn sp_update_res(&self, t: TerminalModel, info: UpdateInfo) -> UpdateResult {
        UpdateResult::NoEvent
    }

    open spec fn sp_updated(&self, t: TerminalModel, info: UpdateInfo) -> Self {
        *self
    }

    proof fn sp_draw_frame(&self, t: TerminalModel, area: Rectangle) {
        lemma_blit_cell_at(t, area, sp_repeat_cell(self.sp_fill_cell(), area.sp_area() as nat));
    }

    proof fn sp_draw_local(&self, t1: TerminalModel, t2: TerminalModel, area: Rectangle) {
        lemma_blit_cell_at(t1, area, sp_repeat_cell(self.sp_fill_cell(), area.sp_area() as nat));
        lemma_blit_cell_at(t2, area, sp_repeat_cell(self.sp_fill_cell(), area.sp_area() as nat));
    }

    fn update<T: Terminal>(&mut self, update_info: UpdateInfo, terminal: &T) -> (r: Result<
        UpdateResult,
        Error,
    >) {
        Ok(UpdateResult::NoEvent)
    }

    fn draw_in<T: Terminal>(
        &self,
        update_info: UpdateInfo,
        terminal: &mut T,
        area: Rectangle,
    ) -> (r: Result<UpdateResult, Error>) {
        proof {
            terminal.inv_model_wf();
            let tw = old(terminal).model().width as int;
            let th = old(terminal).model().height as int;
            assert(area.sp_area() <= tw * th) by (nonlinear_arith)
                requires
                    0 <= area.sp_width() <= tw,
                    0 <= area.sp_height() <= th,
            ;
        }
        let capacity = area.width() * area.height();
        let fill = TerminalCell {
            character: ' ',
            style: TerminalStyle::new().bg(self.colour),
        };
        let mut content: Vec<TerminalCell> = Vec::new();
        let mut i: usize = 0;
        while i < capacity
            invariant
                i <= capacity,
                content@.len() == i,
                forall|j: int| 0 <= j < i ==> content@[j] == fill,
                fill == self.sp_fill_cell(),
            decreases capacity - i,
        {
            content.push(fill);
            i = i + 1;
        }
        proof {
            assert(content@ =~= sp_repeat_cell(self.sp_fill_cell(), area.sp_area() as nat));
        }
        match blit_cells(terminal, area, &content) {
            Ok(_) => Ok(UpdateResult::NoEvent),
            Err(e) => Err(e),
        }
    }
}

impl BoundingBox for Sweeper {
    open spec fn sp_bounds_ok(&self, avail: Rectangle) -> bool {
        true
    }

    open spec fn sp_bounds(&self, avail: Rectangle) -> Rectangle {
        avail
    }

    open spec fn sp_covers(&self, rect: Rectangle) -> bool {
        true
    }

    proof fn sp_bounds_properties(&self, avail: Rectangle) {
    }

    fn bounding_box(&self, rect: Rectangle) -> (r: Result<Rectangle, Error>) {
        Ok(rect)
    }

    fn completely_covers(&self, rectangle: Rectangle) -> (r: bool) {
        true
    }

    fn covered_in<T: Terminal>(&self, terminal: &T) -> (r: bool) {
        true
    }
}

/// Text centered within the region it is drawn into, wrapping at the
/// region's width and never overrunning it: the block it occupies is capped
/// to the region in both axes.
pub struct CenteredText<'a> {
    /// The text to display.
    pub prompt_text: &'a str,
    /// The styling behind the prompt.
    pub style: TerminalStyle,
}

impl<'a> CenteredText<'a> {
    /// Creates a centered text widget with the default style.
    pub fn new(text: &'a str) -> (r: Self)
        ensures
            r.prompt_text@ == text@,
            r.style == TerminalStyle::sp_new(),
    {
        CenteredText { prompt_text: text, style: TerminalStyle::new() }
    }

    /// Applies a style to the text.
    pub fn style(self, style: TerminalStyle) -> (r: Self)
        ensures
            r.prompt_text@ == self.prompt_text@,
            r.style == style,
    {
        CenteredText { style, ..self }
    }

    /// The block the text occupies within `avail`: its size capped to
    /// `avail` in both axes, centered by integer division.
    pub open spec fn sp_box(&self, avail: Rectangle) -> Rectangle {
        let len = self.prompt_text@.len() as int;
        let aw = avail.sp_width();
        let ah = avail.sp_height();
        let bw = sp_min(len, aw);
        let bh = sp_min(sp_div_ceil(len, aw), ah);
        let left = avail.sp_left() + aw / 2 - bw / 2;
        let top = avail.sp_top() + ah / 2 - bh / 2;
        Rectangle {
            left_top: (left as usize, top as usize),
            right_bottom: ((left + bw) as usize, (top + bh) as usize),
        }
    }
}

impl<'a> Widget for CenteredText<'a> {
    open spec fn sp_ok(&self, t: TerminalModel, area: Rectangle) -> bool {
        self.prompt_text@.len() <= self.sp_box(area).sp_area()
    }

    open spec fn sp_drawn(&self, t: TerminalModel, area: Rectangle) -> TerminalModel {
        sp_blit(t, self.sp_box(area), sp_styled_cells(self.prompt_text@, self.style))
    }

    open spec fn sp_update_res(&self, t: TerminalModel, info: UpdateInfo) -> UpdateResult {
        match info {
            UpdateInfo::CellClicked(x, y, MouseButton::Primary) => if self.sp_box(
                t.full_rect(),
            ).sp_contains(x as int, y as int) {
                UpdateResult::Interacted
            } else {
                UpdateResult::NoEvent
            },
            _ => UpdateResult::NoEvent,
        }
    }

    open spec fn sp_updated(&self, t: TerminalModel, info: UpdateInfo) -> Self {
        *self
    }

    proof fn sp_draw_frame(&self, t: TerminalModel, area: Rectangle) {
        lemma_centered_text_bounds_fit(*self, area);
        lemma_blit_cell_at(t, self.sp_box(area), sp_styled_cells(self.prompt_text@, self.style));
    }

    proof fn sp_draw_local(&self, t1: TerminalModel, t2: TerminalModel, area: Rectangle) {
        lemma_centered_text_bounds_fit(*self, area);
        lemma_blit_cell_at(t1, self.sp_box(area), sp_styled_cells(self.prompt_text@, self.style));
        lemma_blit_cell_at(t2, self.sp_box(area), sp_styled_cells(self.prompt_text@, self.style));
    }

    fn update<T: Terminal>(&mut self, update_info: UpdateInfo, terminal: &T) -> (r: Result<
        UpdateResult,
        Error,
    >) {
        match update_info {
            UpdateInfo::CellClicked(x, y, MouseButton::Primary) => {
                proof {
                    terminal.inv_model_wf();
                }
                let (w, h) = terminal.dimensions();
                let full = Rectangle { left_top: (0, 0), right_bottom: (w, h) };
                match self.bounding_box(full) {
                    Ok(bounds) => {
                        if bounds.contains((x, y)) {
                            Ok(UpdateResult::Interacted)
                        } else {
                            Ok(UpdateResult::NoEvent)
                        }
                    },
                    Err(_) => {
                        proof {
                            assert(false);
                        }
                        Ok(UpdateResult::NoEvent)
                    },
                }
            },
            _ => Ok(UpdateResult::NoEvent),
        }
    }

    fn draw_in<T: Terminal>(
        &self,
        update_info: UpdateInfo,
        terminal: &mut T,
        area: Rectangle,
    ) -> (r: Result<UpdateResult, Error>)
        ensures
            r matches Err(e) ==> e == Error::OutOfBoundsCharacter(
                self.sp_box(area).sp_area() as usize,
            ),
    {
        proof {
            terminal.inv_model_wf();
        }
        let bounds = match self.bounding_box(area) {
            Ok(bounds) => bounds,
            Err(e) => {
                proof {
                    assert(false);
                }
                return Err(e);
            },
        };
        proof {
            lemma_centered_text_bounds_fit(*self, area);
        }
        let text = Text { text: self.prompt_text, style: self.style };
        text.draw_in(update_info, terminal, bounds)
    }
}

/// A centered text block stays inside the region offered to it.
proof fn lemma_centered_text_bounds_fit(w: CenteredText, area: Rectangle)
    requires
        area.wf(),
    ensures
        w.sp_box(area).wf(),
        area.sp_left() <= w.sp_box(area).sp_left(),
        area.sp_top() <= w.sp_box(area).sp_top(),
        w.sp_box(area).sp_right() <= area.sp_right(),
        w.sp_box(area).sp_bottom() <= area.sp_bottom(),
{
}

impl<'a> BoundingBox for CenteredText<'a> {
    open spec fn sp_bounds_ok(&self, avail: Rectangle) -> bool {
        true
    }

    open spec fn sp_bounds(&self, avail: Rectangle) -> Rectangle {
        self.sp_box(avail)
    }

    open spec fn sp_covers(&self, rect: Rectangle) -> bool {
        rect.sp_area() <= self.prompt_text@.len()
    }

    proof fn sp_bounds_properties(&self, avail: Rectangle) {
        lemma_centered_text_bounds_fit(*self, avail);
    }

    fn bounding_box(&self, rect: Rectangle) -> (r: Result<Rectangle, Error>) {
        let len = self.prompt_text.unicode_len();
        let aw = rect.width();
        let ah = rect.height();
        let bw = if len < aw {
            len
        } else {
            aw
        };
        let ceil = div_ceil(len, aw);
        let bh = if ceil < ah {
            ceil
        } else {
            ah
        };
        let left = rect.left() + aw / 2 - bw / 2;
        let top = rect.top() + ah / 2 - bh / 2;
        proof {
            lemma_centered_text_bounds_fit(*self, rect);
            assert(self.sp_bounds_ok(rect));
            assert(self.sp_bounds(rect) == self.sp_box(rect));
        }
        Ok(Rectangle { left_top: (left, top), right_bottom: (left + bw, top + bh) })
    }

    fn completely_covers(&self, rectangle: Rectangle) -> (r: bool) {
        let rw = rectangle.width();
        let rh = rectangle.height();
        proof {
            assert((rw as int) * (rh as int) <= u128::MAX) by (nonlinear_arith)
                requires
                    rw <= u64::MAX,
                    rh <= u64::MAX,
            ;
        }
        let wide = (rw as u128) * (rh as u128);
        (self.prompt_text.unicode_len() as u128) >= wide
    }
}


/// A row of labelled buttons with one selected: the labels flow row-major
/// through the region, left to right, and the selected label alone carries
/// [`Buttons::selected_button_style`]. The selection changes through
/// [`Buttons::select_last`]-style builders, not through events.
pub struct Buttons {
    /// The button labels, in drawing order.
    pub labels: Vec<String>,
    /// Which label is selected.
    pub selected: usize,
    /// The style of the unselected labels.
    pub style: TerminalStyle,
    /// The style of the selected label.
    pub selected_button_style: TerminalStyle,
}

impl Buttons {
    /// The selection points at a label, or at nothing only when there are
    /// no labels.
    pub open spec fn sp_wf(&self) -> bool {
        (self.labels@.len() == 0 && self.selected == 0) || self.selected < self.labels@.len()
    }

    /// Creates a button row with the first label selected and default
    /// styles.
    pub fn new(labels: Vec<String>) -> (r: Self)
        ensures
            r.labels == labels,
            r.selected == 0,
            r.style == TerminalStyle::sp_new(),
            r.selected_button_style == TerminalStyle::sp_new(),
            r.wf(),
    {
        Buttons {
            labels,
            selected: 0,
            style: TerminalStyle::new(),
            selected_button_style: TerminalStyle::new(),
        }
    }

    /// A copy with the final label selected.
    pub fn select_last(self) -> (r: Self)
        ensures
            r.labels == self.labels,
            r.style == self.style,
            r.selected_button_style == self.selected_button_style,
            r.selected == if self.labels@.len() == 0 {
                0int
            } else {
                self.labels@.len() - 1
            },
            r.wf(),
    {
        let count = self.labels.len();
        Buttons { selected: if count == 0 { 0 } else { count - 1 }, ..self }
    }

    /// The style the label at `i` is drawn with.
    pub open spec fn sp_button_style(&self, i: int) -> TerminalStyle {
        if i == self.selected {
            self.selected_button_style
        } else {
            self.style
        }
    }

    /// The cells of the first `n` labels, laid end to end.
    pub open spec fn sp_content_upto(&self, n: int) -> Seq<TerminalCell>
        decreases n,
    {
        if n <= 0 {
            Seq::empty()
        } else {
            self.sp_content_upto(n - 1) + sp_styled_cells(
                self.labels@[n - 1]@,
                self.sp_button_style(n - 1),
            )
        }
    }

    /// The cells of all labels, laid end to end.
    pub open spec fn sp_content(&self) -> Seq<TerminalCell> {
        self.sp_content_upto(self.labels@.len() as int)
    }

    /// Builds the row's cells.
    fn cells(&self) -> (r: Vec<TerminalCell>)
        ensures
            r@ == self.sp_content(),
    {
        let mut out: Vec<TerminalCell> = Vec::new();
        let mut i: usize = 0;
        while i < self.labels.len()
            invariant
                i <= self.labels@.len(),
                out@ == self.sp_content_upto(i as int),
            decreases self.labels@.len() - i,
        {
            let sty = if i == self.selected {
                self.selected_button_style
            } else {
                self.style
            };
            let llen = self.labels[i].as_str().unicode_len();
            let mut j: usize = 0;
            while j < llen
                invariant
                    i < self.labels@.len(),
                    j <= llen,
                    llen == self.labels@[i as int]@.len(),
                    sty == self.sp_button_style(i as int),
                    out@ == self.sp_content_upto(i as int) + sp_styled_cells(
                        self.labels@[i as int]@,
                        sty,
                    ).take(j as int),
                decreases llen - j,
            {
                let c = self.labels[i].as_str().get_char(j);
                out.push(TerminalCell { character: c, style: sty });
                proof {
                    let cells = sp_styled_cells(self.labels@[i as int]@, sty);
                    assert(cells.take(j + 1) =~= cells.take(j as int).push(cells[j as int]));
                    assert(out@ =~= self.sp_content_upto(i as int) + cells.take(j + 1));
                }
                j = j + 1;
            }
            proof {
                let cells = sp_styled_cells(self.labels@[i as int]@, sty);
                assert(cells.take(llen as int) =~= cells);
                assert(out@ =~= self.sp_content_upto(i as int + 1));
            }
            i = i + 1;
        }
        out
    }
}

impl Widget for Buttons {
    open spec fn wf(&self) -> bool {
        self.sp_wf()
    }

    open spec fn sp_ok(&self, t: TerminalModel, area: Rectangle) -> bool {
        self.sp_content().len() <= area.sp_area()
    }

    open spec fn sp_drawn(&self, t: TerminalModel, area: Rectangle) -> TerminalModel {
        sp_blit(t, area, self.sp_content())
    }

    open spec fn sp_update_res(&self, t: TerminalModel, info: UpdateInfo) -> UpdateResult {
        UpdateResult::NoEvent
    }

    open spec fn sp_updated(&self, t: TerminalModel, info: UpdateInfo) -> Self {
        *self
    }

    proof fn sp_draw_frame(&self, t: TerminalModel, area: Rectangle) {
        lemma_blit_cell_at(t, area, self.sp_content());
    }

    proof fn sp_draw_local(&self, t1: TerminalModel, t2: TerminalModel, area: Rectangle) {
        lemma_blit_cell_at(t1, area, self.sp_content());
        lemma_blit_cell_at(t2, area, self.sp_content());
    }

    fn update<T: Terminal>(&mut self, update_info: UpdateInfo, terminal: &T) -> (r: Result<
        UpdateResult,
        Error,
    >) {
        Ok(UpdateResult::NoEvent)
    }

    fn draw_in<T: Terminal>(
        &self,
        update_info: UpdateInfo,
        terminal: &mut T,
        area: Rectangle,
    ) -> (r: Result<UpdateResult, Error>)
        ensures
            r matches Err(e) ==> e == Error::OutOfBoundsCharacter(area.sp_area() as usize),
    {
        let content = self.cells();
        match blit_cells(terminal, area, &content) {
            Ok(_) => Ok(UpdateResult::NoEvent),
            Err(e) => Err(e),
        }
    }
}


impl BoundingBox for Buttons {
    open spec fn sp_bounds_ok(&self, avail: Rectangle) -> bool {
        avail.sp_top() + sp_div_ceil(self.sp_content().len() as int, avail.sp_width())
            <= usize::MAX
    }

    open spec fn sp_bounds(&self, avail: Rectangle) -> Rectangle {
        Rectangle {
            left_top: avail.left_top,
            right_bottom: (
                (avail.sp_left() + sp_min(self.sp_content().len() as int, avail.sp_width()))
                    as usize,
                (avail.sp_top() + sp_div_ceil(self.sp_content().len() as int, avail.sp_width()))
                    as usize,
            ),
        }
    }

    open spec fn sp_covers(&self, rect: Rectangle) -> bool {
        rect.sp_area() <= self.sp_content().len()
    }

    proof fn sp_bounds_properties(&self, avail: Rectangle) {
    }

    fn bounding_box(&self, rect: Rectangle) -> (r: Result<Rectangle, Error>) {
        let len = self.cells().len();
        let rect_width = rect.width();
        let width = if len < rect_width {
            len
        } else {
            rect_width
        };
        let height = div_ceil(len, rect_width);
        if height > usize::MAX - rect.top() {
            return Err(Error::OutOfBoundsCoordinate(width, height));
        }
        Ok(
            Rectangle {
                left_top: rect.left_top,
                right_bottom: (rect.left() + width, rect.top() + height),
            },
        )
    }

    fn completely_covers(&self, rectangle: Rectangle) -> (r: bool) {
        let rw = rectangle.width();
        let rh = rectangle.height();
        proof {
            assert((rw as int) * (rh as int) <= u128::MAX) by (nonlinear_arith)
                requires
                    rw <= u64::MAX,
                    rh <= u64::MAX,
            ;
        }
        let wide = (rw as u128) * (rh as u128);
        (self.cells().len() as u128) >= wide
    }
}

} // verus!
