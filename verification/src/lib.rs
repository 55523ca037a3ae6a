//! # tuit
//!
//! A layout-and-composition engine for character-grid (terminal-style) user
//! interfaces, written as a verified library.
//!
//! Visual elements ("widgets") are plain values that can be combined
//! algebraically — stacked, centered, split, laid over a backdrop — and then
//! resolved into a concrete rectangular sub-region of a fixed-size character
//! buffer. The library commits to no display backend: a finished buffer is
//! handed to a [`terminal::TerminalDrawTarget`] implemented by the caller.
//!
//! Every buffer is modelled by a [`terminal::TerminalModel`] — its dimensions,
//! default style and row-major cell sequence — and every drawing operation
//! carries a contract that pins down the resulting model exactly.

pub mod buffers;
pub mod builtins;
pub mod combinators;
pub mod errors;
pub mod geometry;
pub mod interactive;
pub mod style;
pub mod terminal;
pub mod view;
pub mod widgets;

pub use errors::Error;
pub use geometry::Rectangle;
