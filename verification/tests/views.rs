use tuit::buffers::ConstantSizeTerminal;
use tuit::errors::Error;
use tuit::geometry::Rectangle;
use tuit::style::TerminalStyle;
use tuit::terminal::{Terminal, TerminalCell};
use tuit::terminal::TermRef;
use tuit::view::{rect_fits, ViewSplit, Viewport};
use tuit::widgets::Widget;

fn cell(character: char) -> TerminalCell {
    TerminalCell { character, style: TerminalStyle::new() }
}

#[test]
fn viewport_translates_coordinates() {
    let mut term = ConstantSizeTerminal::new(6, 4);
    term.set_character(3, 2, cell('x')).unwrap();
    let rect = Rectangle::new((2, 1), (5, 4));
    assert!(rect_fits(&term, rect));
    let mut view = Viewport::new(term, rect);
    assert_eq!(view.dimensions(), (3, 3));
    assert_eq!(view.character(1, 1).unwrap().character, 'x');
    view.set_character(0, 0, cell('y')).unwrap();
    let term = view.into_inner();
    assert_eq!(term.character(2, 1).unwrap().character, 'y');
}

#[test]
fn viewport_rejects_coordinates_outside_its_rectangle() {
    let term = ConstantSizeTerminal::new(6, 4);
    let rect = Rectangle::new((2, 1), (5, 4));
    let mut view = Viewport::new(term, rect);
    // (3, 0) would be a valid parent coordinate, but falls outside the view
    assert!(view.character(3, 0).is_none());
    let err = view.set_character(3, 0, cell('y')).unwrap_err();
    assert_eq!(err, Error::OutOfBoundsCoordinate(3, 0));
}

#[test]
fn split_widths_even() {
    let term = ConstantSizeTerminal::new(10, 4);
    let split = ViewSplit::new(term);
    assert_eq!(split.left_rect().dimensions(), (5, 4));
    assert_eq!(split.right_rect().dimensions(), (5, 4));
}

#[test]
fn split_widths_odd_left_gets_the_extra_column() {
    let term = ConstantSizeTerminal::new(11, 4);
    let split = ViewSplit::new(term);
    let left = split.left_rect();
    let right = split.right_rect();
    assert_eq!(left.dimensions(), (6, 4));
    assert_eq!(right.dimensions(), (5, 4));
    assert_eq!(left.right(), right.left());
    assert_eq!(right.right(), 11);
}

#[test]
fn writes_through_one_half_never_show_in_the_other() {
    let term = ConstantSizeTerminal::new(5, 2);
    // write through the right half
    let split = ViewSplit::new(term);
    let mut right = split.split_right();
    right.set_character(0, 0, cell('r')).unwrap();
    let term = right.into_inner();
    // the left half still reads blanks everywhere
    let split = ViewSplit::new(term);
    let mut left = split.split_left();
    for y in 0..2 {
        for x in 0..3 {
            assert_eq!(left.character(x, y).unwrap().character, ' ');
        }
    }
    // and a write through the left half lands outside the right half
    left.set_character(2, 1, cell('l')).unwrap();
    let term = left.into_inner();
    assert_eq!(term.character(3, 0).unwrap().character, 'r');
    assert_eq!(term.character(2, 1).unwrap().character, 'l');
    let split = ViewSplit::new(term);
    let right = split.split_right();
    assert_eq!(right.character(0, 0).unwrap().character, 'r');
    assert_eq!(right.character(1, 1).unwrap().character, ' ');
}

#[test]
fn a_borrowed_terminal_is_usable_wherever_an_owned_one_is() {
    let mut term = ConstantSizeTerminal::new(4, 2);
    {
        let wrapped = TermRef { inner: &mut term };
        let rect = Rectangle::new((1, 0), (4, 2));
        let mut view = Viewport::new(wrapped, rect);
        view.set_character(0, 1, cell('v')).unwrap();
    }
    assert_eq!(term.character(1, 1).unwrap().character, 'v');
    tuit::builtins::Text::new("ab")
        .drawn(&mut TermRef { inner: &mut term })
        .unwrap();
    assert_eq!(term.character(0, 0).unwrap().character, 'a');
}

#[test]
fn a_boxed_terminal_is_usable_wherever_an_owned_one_is() {
    let mut term = Box::new(ConstantSizeTerminal::new(4, 2));
    tuit::builtins::Text::new("xy").drawn(&mut term).unwrap();
    assert_eq!(term.character(0, 0).unwrap().character, 'x');
    assert_eq!(term.character(1, 0).unwrap().character, 'y');
}
