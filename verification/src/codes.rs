//! Codes of the Linux input event interface, as in `linux/input-event-codes.h`.

use vstd::prelude::*;

verus! {

/// Event type of keys and buttons.
pub const EV_KEY: u16 = 0x01;

/// Event type of relative axes.
pub const EV_REL: u16 = 0x02;

/// Event type of absolute axes.
pub const EV_ABS: u16 = 0x03;

pub const REL_X: u16 = 0x00;

pub const REL_Y: u16 = 0x01;

pub const REL_HWHEEL: u16 = 0x06;

pub const REL_WHEEL: u16 = 0x08;

pub const REL_WHEEL_HI_RES: u16 = 0x0b;

pub const REL_HWHEEL_HI_RES: u16 = 0x0c;

/// Number of relative axis codes.
pub const REL_COUNT: u16 = 0x10;

pub const ABS_MT_SLOT: u16 = 0x2f;

pub const ABS_MT_POSITION_X: u16 = 0x35;

pub const ABS_MT_POSITION_Y: u16 = 0x36;

pub const ABS_MT_TRACKING_ID: u16 = 0x39;

pub const BTN_TOOL_FINGER: u16 = 0x145;

pub const BTN_TOOL_QUINTTAP: u16 = 0x148;

pub const BTN_TOUCH: u16 = 0x14a;

pub const BTN_TOOL_DOUBLETAP: u16 = 0x14d;

pub const BTN_TOOL_TRIPLETAP: u16 = 0x14e;

pub const BTN_TOOL_QUADTAP: u16 = 0x14f;

/// Number of key codes.
pub const KEY_COUNT: u16 = 0x300;

/// Device property: needs a pointer for the user to know its state.
pub const PROP_POINTER: u16 = 0x00;

/// Number of device properties.
pub const PROP_COUNT: u16 = 0x20;

/// Bus type of USB devices.
pub const BUS_USB: u16 = 0x03;

} // verus!
