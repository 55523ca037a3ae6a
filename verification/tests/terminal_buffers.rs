use tuit::buffers::{ConstantSizeRef, ConstantSizeTerminal, MaxSizeTerminal};
use tuit::errors::Error;
use tuit::style::{Ansi4, TerminalColour, TerminalStyle};
use tuit::terminal::{Terminal, TerminalCell, TerminalExtended};

fn cell(character: char) -> TerminalCell {
    TerminalCell { character, style: TerminalStyle::new() }
}

#[test]
fn constant_size_starts_blank() {
    let term = ConstantSizeTerminal::new(4, 3);
    assert_eq!(term.dimensions(), (4, 3));
    assert_eq!(term.width(), 4);
    assert_eq!(term.height(), 3);
    assert_eq!(term.default_style(), TerminalStyle::new());
    for y in 0..3 {
        for x in 0..4 {
            assert_eq!(term.character(x, y).unwrap().character, ' ');
        }
    }
}

#[test]
fn character_rejects_out_of_bounds() {
    let term = ConstantSizeTerminal::new(4, 3);
    assert!(term.character(4, 0).is_none());
    assert!(term.character(0, 3).is_none());
    assert!(term.character(usize::MAX, usize::MAX).is_none());
}

#[test]
fn set_character_writes_one_cell() {
    let mut term = ConstantSizeTerminal::new(4, 3);
    term.set_character(2, 1, cell('x')).unwrap();
    assert_eq!(term.character(2, 1).unwrap().character, 'x');
    assert_eq!(term.character(1, 2).unwrap().character, ' ');
    let err = term.set_character(4, 0, cell('x')).unwrap_err();
    assert_eq!(err, Error::OutOfBoundsCoordinate(4, 0));
    // the failed write changed nothing
    assert_eq!(term.character(2, 1).unwrap().character, 'x');
}

#[test]
fn characters_are_row_major() {
    let mut term = ConstantSizeTerminal::new(2, 2);
    term.set_character(0, 0, cell('a')).unwrap();
    term.set_character(1, 0, cell('b')).unwrap();
    term.set_character(0, 1, cell('c')).unwrap();
    term.set_character(1, 1, cell('d')).unwrap();
    let cells = term.characters();
    let chars: Vec<char> = cells.iter().map(|c| c.character).collect();
    assert_eq!(chars, vec!['a', 'b', 'c', 'd']);
}

#[test]
fn copied_view_copies_the_region() {
    let mut term = ConstantSizeTerminal::new(3, 3);
    for y in 0..3 {
        for x in 0..3 {
            let ch = (b'a' + (y * 3 + x) as u8) as char;
            term.set_character(x, y, cell(ch)).unwrap();
        }
    }
    let view = term.copied_view(1, 1, 2, 2).unwrap();
    let chars: Vec<char> = view.iter().map(|c| c.character).collect();
    assert_eq!(chars, vec!['e', 'f', 'h', 'i']);
}

#[test]
fn copied_view_rejects_an_overrunning_region() {
    let term = ConstantSizeTerminal::new(3, 3);
    let err = term.copied_view(2, 2, 2, 2).unwrap_err();
    assert_eq!(err, Error::OutOfBoundsCoordinate(4, 4));
}

#[test]
fn max_size_rescale_within_limits() {
    let mut term = MaxSizeTerminal::new(20, 20);
    assert_eq!(term.dimensions(), (20, 20));
    term.rescale(10, 10).expect("this must not fail");
    assert_eq!(term.dimensions(), (10, 10));
}

#[test]
fn max_size_rescale_rejects_oversize_and_changes_nothing() {
    let mut term = MaxSizeTerminal::new(20, 20);
    term.rescale(10, 10).unwrap();
    let (overflowing_width, overflowing_height) =
        term.rescale(21, 10).expect_err("this must always be an error");
    assert_eq!(overflowing_width, 21);
    assert_eq!(overflowing_height, 10);
    assert_eq!(term.dimensions(), (10, 10));
    let err = term.rescale(10, 21).unwrap_err();
    assert_eq!(err, (10, 21));
    assert_eq!(term.dimensions(), (10, 10));
}

#[test]
fn max_size_hides_but_keeps_cells_outside_the_window() {
    let mut term = MaxSizeTerminal::new(20, 20);
    term.set_character(15, 15, cell('x')).unwrap();
    term.rescale(10, 10).unwrap();
    assert!(term.character(15, 15).is_none());
    term.rescale(20, 20).unwrap();
    assert_eq!(term.character(15, 15).unwrap().character, 'x');
}

#[test]
fn max_size_window_is_row_major_over_the_live_region() {
    let mut term = MaxSizeTerminal::new(3, 2);
    term.rescale(2, 2).unwrap();
    term.set_character(0, 0, cell('a')).unwrap();
    term.set_character(1, 0, cell('b')).unwrap();
    term.set_character(0, 1, cell('c')).unwrap();
    term.set_character(1, 1, cell('d')).unwrap();
    let chars: Vec<char> = term.characters().iter().map(|c| c.character).collect();
    assert_eq!(chars, vec!['a', 'b', 'c', 'd']);
    assert!(term.character(2, 0).is_none());
}

#[test]
fn constant_size_ref_wraps_existing_storage() {
    let storage = vec![cell('a'), cell('b'), cell('c'), cell('d'), cell('e'), cell('f')];
    let term = ConstantSizeRef::new(storage, 3, 2);
    assert_eq!(term.dimensions(), (3, 2));
    assert_eq!(term.character(2, 1).unwrap().character, 'f');
    // the storage is recoverable through the public field
    assert_eq!(term.characters[0].character, 'a');
}

#[test]
fn error_messages_name_the_failure() {
    assert_eq!(
        Error::OutOfBoundsCharacter(7).message(),
        "character index out of bounds"
    );
    assert_eq!(
        Error::OutOfBoundsCoordinate(1, 2).message(),
        "character coordinate out of bounds"
    );
    assert_eq!(Error::Io.message(), "encountered an I/O error");
    assert_eq!(Error::RenderError.message(), "failed to render the terminal screen");
    assert_eq!(Error::Todo.message(), "this area has not been implemented");
    assert_eq!(
        Error::Generic(String::from("boom")).message(),
        "caller-supplied error"
    );
}

#[test]
fn style_builders_set_their_fields() {
    let style = TerminalStyle::new()
        .fg(TerminalColour::Rgb24(1, 2, 3))
        .bg_ansi4(Ansi4::Blue)
        .underlined(true)
        .inverted()
        .weighted(700);
    assert_eq!(style.fg_colour, Some(TerminalColour::Rgb24(1, 2, 3)));
    assert_eq!(style.bg_colour, Some(TerminalColour::Ansi16(Ansi4::Blue)));
    assert_eq!(style.underline, Some(true));
    assert_eq!(style.invert, Some(true));
    assert_eq!(style.font_weight, Some(700));
    assert_eq!(TerminalStyle::new(), TerminalStyle::default());
}

#[test]
fn ansi4_codes_count_up() {
    assert_eq!(Ansi4::Black.code(), 0);
    assert_eq!(Ansi4::Red.code(), 1);
    assert_eq!(Ansi4::White.code(), 7);
    assert_eq!(Ansi4::BrightBlack.code(), 8);
    assert_eq!(Ansi4::BrightWhite.code(), 15);
    assert_eq!(Ansi4::default(), Ansi4::Black);
    assert_eq!(TerminalColour::default(), TerminalColour::TerminalDefault);
}
