use tuit::buffers::ConstantSizeTerminal;
use tuit::builtins::{Buttons, CenteredText, Sweeper, Text};
use tuit::combinators::{Backdrop, Centered, OnTopOf, WithMargin};
use tuit::errors::Error;
use tuit::geometry::Rectangle;
use tuit::interactive::{MouseButton, UpdateInfo, UpdateResult};
use tuit::style::{Ansi4, TerminalColour, TerminalStyle};
use tuit::terminal::Terminal;
use tuit::widgets::{BoundingBox, Widget};

#[test]
fn text_draw_fills_row_major_from_the_origin() {
    let mut term = ConstantSizeTerminal::new(4, 2);
    let text = Text::new("hello!");
    let result = text.drawn(&mut term).unwrap();
    assert_eq!(result, UpdateResult::NoEvent);
    let expected = ['h', 'e', 'l', 'l', 'o', '!', ' ', ' '];
    for y in 0..2 {
        for x in 0..4 {
            assert_eq!(term.character(x, y).unwrap().character, expected[y * 4 + x]);
        }
    }
}

#[test]
fn text_draw_into_a_too_small_terminal_fails_at_the_first_missing_index() {
    let mut term = ConstantSizeTerminal::new(1, 3);
    let err = Text::new("hello!").drawn(&mut term).unwrap_err();
    assert_eq!(err, Error::OutOfBoundsCharacter(3));
    // what fitted was still written
    assert_eq!(term.character(0, 0).unwrap().character, 'h');
    assert_eq!(term.character(0, 1).unwrap().character, 'e');
    assert_eq!(term.character(0, 2).unwrap().character, 'l');
}

#[test]
fn text_carries_its_style() {
    let style = TerminalStyle::new().bg_ansi4(Ansi4::BrightCyan);
    let text = Text::new("Hi").styled(style);
    assert_eq!(text.text, "Hi");
    assert_eq!(text.style, style);
    let mut term = ConstantSizeTerminal::new(3, 1);
    text.drawn(&mut term).unwrap();
    assert_eq!(term.character(0, 0).unwrap().style, style);
    assert_eq!(term.character(2, 0).unwrap().style, TerminalStyle::new());
}

#[test]
fn text_bounding_box_wraps_at_the_width() {
    let text = Text::new("hello!");
    let bounds = text.bounding_box(Rectangle::of_size(20, 20)).unwrap();
    assert_eq!(bounds, Rectangle::new((0, 0), (6, 1)));
    let bounds = text.bounding_box(Rectangle::of_size(4, 20)).unwrap();
    assert_eq!(bounds, Rectangle::new((0, 0), (4, 2)));
    assert!(text.completely_covers(Rectangle::of_size(3, 2)));
    assert!(!text.completely_covers(Rectangle::of_size(4, 2)));
}

#[test]
fn centered_text_draws_in_the_middle() {
    let mut term = ConstantSizeTerminal::new(20, 20);
    let prompt = CenteredText::new("Hello!");
    prompt.drawn(&mut term).unwrap();
    // a 6 by 1 block centered in 20 by 20: left 10 - 3 = 7, top 10
    for (i, ch) in "Hello!".chars().enumerate() {
        assert_eq!(term.character(7 + i, 10).unwrap().character, ch);
    }
    assert_eq!(term.character(6, 10).unwrap().character, ' ');
    assert_eq!(term.character(13, 10).unwrap().character, ' ');
}

#[test]
fn centered_text_rejects_a_terminal_with_too_few_cells() {
    let mut term = ConstantSizeTerminal::new(1, 1);
    let err = CenteredText::new("Hello world!").drawn(&mut term).unwrap_err();
    assert_eq!(err, Error::OutOfBoundsCharacter(1));
}

#[test]
fn centered_text_reports_clicks_inside_its_box() {
    let term = ConstantSizeTerminal::new(20, 20);
    let mut prompt = CenteredText::new("Hello!");
    let inside = UpdateInfo::CellClicked(8, 10, MouseButton::Primary);
    assert_eq!(prompt.update(inside, &term).unwrap(), UpdateResult::Interacted);
    let outside = UpdateInfo::CellClicked(1, 1, MouseButton::Primary);
    assert_eq!(prompt.update(outside, &term).unwrap(), UpdateResult::NoEvent);
    let wrong_button = UpdateInfo::CellClicked(8, 10, MouseButton::Secondary);
    assert_eq!(prompt.update(wrong_button, &term).unwrap(), UpdateResult::NoEvent);
}

#[test]
fn sweeper_fills_every_cell() {
    let mut term = ConstantSizeTerminal::new(3, 2);
    let sweeper = Sweeper::of_colour(TerminalColour::Ansi16(Ansi4::Yellow));
    sweeper.drawn(&mut term).unwrap();
    for y in 0..2 {
        for x in 0..3 {
            let cell = term.character(x, y).unwrap();
            assert_eq!(cell.character, ' ');
            assert_eq!(cell.style.bg_colour, Some(TerminalColour::Ansi16(Ansi4::Yellow)));
        }
    }
}

#[test]
fn centered_widget_position_uses_integer_division() {
    // spec example: a width-57 region and a width-10 widget leave left = 23
    let mut term = ConstantSizeTerminal::new(57, 14);
    let widget = Centered::new(Text::new("0123456789"));
    widget.drawn(&mut term).unwrap();
    // (14 - 1) / 2 = 6
    for (i, ch) in "0123456789".chars().enumerate() {
        assert_eq!(term.character(23 + i, 6).unwrap().character, ch);
    }
    assert_eq!(term.character(22, 6).unwrap().character, ' ');
    assert_eq!(term.character(33, 6).unwrap().character, ' ');
}

#[test]
fn centering_an_oversized_widget_is_a_bounds_error() {
    // "abcdefghij" wraps to a 4 by 3 block, which cannot fit a height of 2
    let mut term = ConstantSizeTerminal::new(4, 2);
    let widget = Centered::new(Text::new("abcdefghij"));
    let err = widget.drawn(&mut term).unwrap_err();
    assert_eq!(err, Error::OutOfBoundsCoordinate(4, 3));
    // nothing was drawn
    for y in 0..2 {
        for x in 0..4 {
            assert_eq!(term.character(x, y).unwrap().character, ' ');
        }
    }
}

#[test]
fn on_top_of_splits_the_rows() {
    let mut term = ConstantSizeTerminal::new(6, 4);
    let stack = OnTopOf::new(
        Text::new("hi"),
        Sweeper::of_colour(TerminalColour::Ansi16(Ansi4::Cyan)),
    );
    stack.drawn(&mut term).unwrap();
    // the upper widget owns row 0
    assert_eq!(term.character(0, 0).unwrap().character, 'h');
    assert_eq!(term.character(1, 0).unwrap().character, 'i');
    assert_eq!(term.character(2, 0).unwrap().style.bg_colour, None);
    // the lower widget owns rows 1..4
    for y in 1..4 {
        for x in 0..6 {
            let cell = term.character(x, y).unwrap();
            assert_eq!(cell.style.bg_colour, Some(TerminalColour::Ansi16(Ansi4::Cyan)));
        }
    }
}

#[test]
fn backdrop_fills_before_drawing() {
    let mut term = ConstantSizeTerminal::new(5, 1);
    let widget = Backdrop::new(Text::new("ok"), TerminalColour::Ansi16(Ansi4::Yellow));
    widget.drawn(&mut term).unwrap();
    assert_eq!(term.character(0, 0).unwrap().character, 'o');
    assert_eq!(term.character(1, 0).unwrap().character, 'k');
    // beyond the text, the backdrop colour shows
    assert_eq!(
        term.character(3, 0).unwrap().style.bg_colour,
        Some(TerminalColour::Ansi16(Ansi4::Yellow))
    );
}

#[test]
fn with_margin_insets_the_region() {
    let mut term = ConstantSizeTerminal::new(6, 3);
    let widget = WithMargin::new(Text::new("ab"), 1);
    widget.drawn(&mut term).unwrap();
    assert_eq!(term.character(0, 0).unwrap().character, ' ');
    assert_eq!(term.character(1, 1).unwrap().character, 'a');
    assert_eq!(term.character(2, 1).unwrap().character, 'b');
}

#[test]
fn buttons_flow_left_to_right_and_style_the_selection() {
    let selected_style = TerminalStyle::new().inverted();
    let mut buttons = Buttons::new(vec![String::from(" Yes "), String::from(" No ")]);
    buttons.selected_button_style = selected_style;
    let buttons = buttons.select_last();
    assert_eq!(buttons.selected, 1);
    let mut term = ConstantSizeTerminal::new(9, 1);
    buttons.drawn(&mut term).unwrap();
    for (i, ch) in " Yes  No ".chars().enumerate() {
        assert_eq!(term.character(i, 0).unwrap().character, ch);
    }
    assert_eq!(term.character(0, 0).unwrap().style, TerminalStyle::new());
    assert_eq!(term.character(5, 0).unwrap().style, selected_style);
    assert_eq!(term.character(8, 0).unwrap().style, selected_style);
}

#[test]
fn select_last_of_no_labels_stays_put() {
    let buttons = Buttons::new(Vec::new()).select_last();
    assert_eq!(buttons.selected, 0);
}

#[test]
fn mouse_relative_to_translates_or_drops_clicks() {
    let rect = Rectangle::new((2, 3), (10, 10));
    let click = UpdateInfo::CellClicked(5, 5, MouseButton::Primary);
    assert_eq!(
        click.mouse_relative_to(rect),
        UpdateInfo::CellClicked(3, 2, MouseButton::Primary)
    );
    let left_of = UpdateInfo::CellClicked(1, 5, MouseButton::Primary);
    assert_eq!(left_of.mouse_relative_to(rect), UpdateInfo::NoInfo);
    let above = UpdateInfo::CellClicked(5, 2, MouseButton::Primary);
    assert_eq!(above.mouse_relative_to(rect), UpdateInfo::NoInfo);
    let key = UpdateInfo::KeyboardInput(4, tuit::interactive::KeyState::KeyDown);
    assert_eq!(key.mouse_relative_to(rect), key);
}

#[test]
fn update_results_merge_to_the_most_eventful() {
    assert_eq!(
        UpdateResult::NoEvent.merge(UpdateResult::Interacted),
        UpdateResult::Interacted
    );
    assert_eq!(
        UpdateResult::Interacted.merge(UpdateResult::NoEvent),
        UpdateResult::Interacted
    );
    assert_eq!(
        UpdateResult::LifecycleEnd.merge(UpdateResult::Interacted),
        UpdateResult::LifecycleEnd
    );
    assert_eq!(
        UpdateResult::NoEvent.merge(UpdateResult::NoEvent),
        UpdateResult::NoEvent
    );
    assert_eq!(
        UpdateResult::Interacted.merge(UpdateResult::LifecycleEnd),
        UpdateResult::LifecycleEnd
    );
}

#[test]
fn updates_pass_through_a_stack() {
    let term = ConstantSizeTerminal::new(20, 20);
    let mut stack = OnTopOf::new(CenteredText::new("Hello!"), Text::new("below"));
    // a click inside the centered prompt's box, relative to the whole grid
    let click = UpdateInfo::CellClicked(8, 10, MouseButton::Primary);
    assert_eq!(stack.update(click, &term).unwrap(), UpdateResult::Interacted);
    assert_eq!(
        stack.update(UpdateInfo::TerminalResized, &term).unwrap(),
        UpdateResult::NoEvent
    );
}

#[test]
fn a_zero_size_terminal_accepts_only_empty_text() {
    let mut term = ConstantSizeTerminal::new(0, 0);
    assert_eq!(term.dimensions(), (0, 0));
    let err = Text::new("a").drawn(&mut term).unwrap_err();
    assert_eq!(err, Error::OutOfBoundsCharacter(0));
    Text::new("").drawn(&mut term).unwrap();
}

#[test]
fn empty_text_draws_nothing_and_succeeds() {
    let mut term = ConstantSizeTerminal::new(3, 1);
    Text::new("").drawn(&mut term).unwrap();
    for x in 0..3 {
        assert_eq!(term.character(x, 0).unwrap().character, ' ');
    }
}
