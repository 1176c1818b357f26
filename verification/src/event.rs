//! Events that a remote peer sends.

use vstd::prelude::*;

use crate::double::Double;

verus! {

/// Number of units per detent of a wheel, in high-resolution scrolling.
pub const UNITS_PER_DETENT: i32 = 120;

#[derive(Clone, Copy, Debug, PartialEq, Eq, Structural)]
#[allow(inconsistent_fields)]
pub enum PointerEvent {
    /// The pointer moved by `(dx, dy)`.
    Motion { time: u32, dx: Double, dy: Double },
    /// A button was pressed (`state` 1) or released (`state` 0).
    Button { time: u32, button: u32, state: u32 },
    /// Continuous scrolling. Axis 0 is vertical, every other one horizontal.
    Axis { time: u32, axis: u8, value: Double },
    /// Scrolling by `value` detents. Axis 0 is vertical, every other one horizontal.
    AxisDiscrete120 { axis: u8, value: i32 },
}

#[derive(Clone, Copy, Debug, PartialEq, Eq, Structural)]
pub enum KeyboardEvent {
    /// A key was pressed (`state` 1) or released (`state` 0).
    Key { time: u32, key: u32, state: u8 },
    /// The modifier state of the peer's keyboard.
    Modifiers { depressed: u32, latched: u32, locked: u32, group: u32 },
}

#[derive(Clone, Copy, Debug, PartialEq, Eq, Structural)]
pub enum GestureEvent {
    /// A swipe with `fingers` fingers starts.
    SwipeBegin { time: u32, fingers: u8 },
    /// The fingers of the swipe moved by `(dx, dy)`.
    SwipeUpdate { time: u32, dx: Double, dy: Double },
    /// The swipe ends.
    SwipeEnd { time: u32, cancelled: bool },
}

#[derive(Clone, Copy, Debug, PartialEq, Eq, Structural)]
pub enum Event {
    Pointer(PointerEvent),
    Keyboard(KeyboardEvent),
    Gesture(GestureEvent),
}

impl Event {
    /// Whether the event's amount fits the events that it turns into: `AxisDiscrete120` counts
    /// detents, and its high-resolution counterpart is `UNITS_PER_DETENT` times that.
    pub open spec fn in_range(self) -> bool {
        match self {
            Event::Pointer(PointerEvent::AxisDiscrete120 { value, .. }) => {
                i32::MIN <= value * UNITS_PER_DETENT <= i32::MAX
            },
            _ => true,
        }
    }
}

} // verus!
