//! Input events fed into widgets and the results of handling them.
//!
//! Callers construct [`UpdateInfo`] values from whatever input source they
//! poll (keyboard, mouse, timers, resize notifications) and feed them into a
//! widget's `update`; the engine defines only the event shapes, not how they
//! are captured.

use vstd::prelude::*;

use crate::geometry::Rectangle;

verus! {

/// The buttons of a mouse.
#[derive(Copy, Clone, Debug, Hash, Eq, PartialEq)]
pub enum MouseButton {
    /// The primary mouse button, usually the left one.
    Primary,
    /// The secondary mouse button, usually the right one.
    Secondary,
    /// Any auxiliary mouse button, such as an additional side button.
    AuxiliaryButton(u16),
}

/// The states a keyboard key can be in.
#[derive(Copy, Clone, Debug, Hash, Eq, PartialEq, PartialOrd, Ord)]
pub enum KeyState {
    /// The key has just been released.
    KeyUp,
    /// The key has just been pressed.
    KeyDown,
    /// The key is currently held.
    KeyHeld,
}

/// An input event handed to a widget's `update`.
#[derive(Copy, Clone, Debug, Hash, Eq, PartialEq)]
pub enum UpdateInfo {
    /// A cell was clicked, at `(x, y)`, with the given mouse button.
    CellClicked(usize, usize, MouseButton),
    /// A printable keyboard key changed state.
    KeyboardCharacter(char, KeyState),
    /// A non-printable keyboard key, by USB HID code, changed state.
    KeyboardInput(u8, KeyState),
    /// How much time has passed since the widget was last updated.
    TimeDelta(core::time::Duration),
    /// The terminal was resized; cached layout data should be recomputed.
    TerminalResized,
    /// There is nothing to report.
    NoInfo,
}

impl UpdateInfo {
    /// The event as [`UpdateInfo::mouse_relative_to`] returns it: a click is
    /// translated into `rect`'s coordinate space, and becomes
    /// [`UpdateInfo::NoInfo`] when it lies above or left of `rect`; any other
    /// event passes through unchanged.
    pub open spec fn sp_relative_to(self, rect: Rectangle) -> Self {
        match self {
            UpdateInfo::CellClicked(x, y, button) => if x < rect.sp_left() || y < rect.sp_top() {
                UpdateInfo::NoInfo
            } else {
                UpdateInfo::CellClicked(
                    (x - rect.sp_left()) as usize,
                    (y - rect.sp_top()) as usize,
                    button,
                )
            },
            _ => self,
        }
    }

    /// Translates a mouse click into the coordinate space of `rect`.
    pub fn mouse_relative_to(self, rect: Rectangle) -> (r: Self)
        ensures
            r == self.sp_relative_to(rect),
    {
        match self {
            UpdateInfo::CellClicked(x, y, button) => {
                let Some(x) = x.checked_sub(rect.left()) else {
                    return UpdateInfo::NoInfo;
                };
                let Some(y) = y.checked_sub(rect.top()) else {
                    return UpdateInfo::NoInfo;
                };
                UpdateInfo::CellClicked(x, y, button)
            },
            _ => self,
        }
    }
}

impl Default for UpdateInfo {
    /// The event that reports nothing.
    fn default() -> (r: Self)
        ensures
            r == UpdateInfo::NoInfo,
    {
        UpdateInfo::NoInfo
    }
}

/// What handling one event did to a widget.
///
/// The variants are ordered, least eventful first, so that a caller
/// aggregating several child results can keep the most eventful one; see
/// [`UpdateResult::merge`].
#[derive(Copy, Clone, Debug, Hash, Eq, PartialEq, PartialOrd, Ord)]
pub enum UpdateResult {
    /// No event has occurred; the widget lives on.
    NoEvent,
    /// The widget was interacted with during the last update.
    Interacted,
    /// The widget's lifecycle has ended and it should be discarded.
    LifecycleEnd,
}

impl UpdateResult {
    /// How eventful the result is; used to aggregate child results.
    pub open spec fn sp_rank(self) -> int {
        match self {
            UpdateResult::NoEvent => 0,
            UpdateResult::Interacted => 1,
            UpdateResult::LifecycleEnd => 2,
        }
    }

    /// The more eventful of two results.
    pub open spec fn sp_merge(self, other: Self) -> Self {
        if self.sp_rank() >= other.sp_rank() {
            self
        } else {
            other
        }
    }

    /// Keeps the more eventful of two results.
    pub fn merge(self, other: Self) -> (r: Self)
        ensures
            r == self.sp_merge(other),
    {
        match (self, other) {
            (UpdateResult::LifecycleEnd, _) => UpdateResult::LifecycleEnd,
            (_, UpdateResult::LifecycleEnd) => UpdateResult::LifecycleEnd,
            (UpdateResult::Interacted, _) => UpdateResult::Interacted,
            (_, UpdateResult::Interacted) => UpdateResult::Interacted,
            _ => UpdateResult::NoEvent,
        }
    }
}

} // verus!
