//! Runtime failures surfaced by terminals, widgets and draw targets.

use vstd::prelude::*;

verus! {

/// The failures that may occur while updating, drawing or rendering.
///
/// Geometry and buffer-index failures are returned, never panicked on: they
/// stem from predictable caller mistakes such as a widget larger than its
/// terminal or event coordinates outside the grid.
#[derive(Debug, PartialEq, Eq)]
pub enum Error {
    /// A generic I/O failure in a backend.
    Io,
    /// A draw target failed to display a finished buffer.
    RenderError,
    /// A flat index into the character buffer was past the end.
    OutOfBoundsCharacter(usize),
    /// An `(x, y)` coordinate fell outside the terminal's bounds.
    OutOfBoundsCoordinate(usize, usize),
    /// A catch-all wrapper for a caller-supplied error, carried as its
    /// rendered message.
    Generic(String),
    /// A caller-supplied error raised while an object was drawing.
    GenericDrawError(String),
    /// A caller-supplied error raised while an object was updating.
    GenericUpdateError(String),
    /// An intentionally unimplemented widget path; returning this beats
    /// aborting.
    Todo,
}

impl Error {
    /// A short description of the failure, one per variant.
    pub open spec fn sp_message(&self) -> Seq<char> {
        match self {
            Error::Io => "encountered an I/O error"@,
            Error::RenderError => "failed to render the terminal screen"@,
            Error::OutOfBoundsCharacter(_) => "character index out of bounds"@,
            Error::OutOfBoundsCoordinate(_, _) => "character coordinate out of bounds"@,
            Error::Generic(_) => "caller-supplied error"@,
            Error::GenericDrawError(_) => "caller-supplied error while drawing"@,
            Error::GenericUpdateError(_) => "caller-supplied error while updating"@,
            Error::Todo => "this area has not been implemented"@,
        }
    }

    /// A short description of the failure, for backends that log.
    pub fn message(&self) -> (r: &'static str)
        ensures
            r@ == self.sp_message(),
    {
        match self {
            Error::Io => "encountered an I/O error",
            Error::RenderError => "failed to render the terminal screen",
            Error::OutOfBoundsCharacter(_) => "character index out of bounds",
            Error::OutOfBoundsCoordinate(_, _) => "character coordinate out of bounds",
            Error::Generic(_) => "caller-supplied error",
            Error::GenericDrawError(_) => "caller-supplied error while drawing",
            Error::GenericUpdateError(_) => "caller-supplied error while updating",
            Error::Todo => "this area has not been implemented",
        }
    }
}

} // verus!
