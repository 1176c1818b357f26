//! Input events and device capabilities as plain values, made by the `evdev` crate.

use vstd::prelude::*;

use crate::codes::{EV_ABS, EV_KEY, EV_REL, KEY_COUNT, PROP_COUNT, REL_COUNT};

verus! {

/// One event of the Linux input interface, without its time stamp.
#[derive(Clone, Copy, Debug, PartialEq, Eq, Structural)]
pub struct InputEvent {
    /// Event type: key, relative axis or absolute axis.
    pub kind: u16,
    /// Key or axis.
    pub code: u16,
    pub value: i32,
}

/// The event that key `code` has `value`.
pub open spec fn key(code: u16, value: i32) -> InputEvent {
    InputEvent { kind: EV_KEY, code, value }
}

/// The event that relative axis `code` moved by `value`.
pub open spec fn relative(code: u16, value: i32) -> InputEvent {
    InputEvent { kind: EV_REL, code, value }
}

/// The event that absolute axis `code` is at `value`.
pub open spec fn absolute(code: u16, value: i32) -> InputEvent {
    InputEvent { kind: EV_ABS, code, value }
}

/// Identity under which a device registers.
#[derive(Clone, Copy, Debug, PartialEq, Eq, Structural)]
pub struct DeviceId {
    pub bus: u16,
    pub vendor: u16,
    pub product: u16,
    pub version: u16,
}

/// An absolute axis that a device declares.
#[derive(Clone, Copy, Debug, PartialEq, Eq, Structural)]
pub struct AbsoluteAxis {
    pub code: u16,
    pub value: i32,
    pub minimum: i32,
    pub maximum: i32,
    pub fuzz: i32,
    pub flat: i32,
    pub resolution: i32,
}

/// Whether the codes stand in ascending order, none of them twice.
pub open spec fn ascending(codes: Seq<u16>) -> bool {
    forall|i: int, j: int| 0 <= i < j < codes.len() ==> codes[i] < codes[j]
}

/// Whether every code is less than `bound`.
pub open spec fn all_below(codes: Seq<u16>, bound: u16) -> bool {
    forall|i: int| 0 <= i < codes.len() ==> codes[i] < bound
}

/// `evdev::KeyEvent::new`: an event of the key type with the given code and value.
#[verifier::external_body]
pub(crate) fn key_event(code: u16, value: i32) -> (event: InputEvent)
    ensures
        event == key(code, value),
{
    let event = evdev::KeyEvent::new(evdev::KeyCode(code), value);
    InputEvent { kind: event.event_type().0, code: event.code().0, value: event.value() }
}

/// `evdev::RelativeAxisEvent::new`: an event of the relative axis type with the given code and
/// value.
#[verifier::external_body]
pub(crate) fn relative_axis_event(code: u16, value: i32) -> (event: InputEvent)
    ensures
        event == relative(code, value),
{
    let event = evdev::RelativeAxisEvent::new(evdev::RelativeAxisCode(code), value);
    InputEvent { kind: event.event_type().0, code: event.code().0, value: event.value() }
}

/// `evdev::AbsoluteAxisEvent::new`: an event of the absolute axis type with the given code and
/// value.
#[verifier::external_body]
pub(crate) fn absolute_axis_event(code: u16, value: i32) -> (event: InputEvent)
    ensures
        event == absolute(code, value),
{
    let event = evdev::AbsoluteAxisEvent::new(evdev::AbsoluteAxisCode(code), value);
    InputEvent { kind: event.event_type().0, code: event.code().0, value: event.value() }
}

/// `evdev::InputId::new`: an identity with the four given parts.
#[verifier::external_body]
pub(crate) fn input_id(bus: u16, vendor: u16, product: u16, version: u16) -> (id: DeviceId)
    ensures
        id == (DeviceId { bus, vendor, product, version }),
{
    let id = evdev::InputId::new(evdev::BusType(bus), vendor, product, version);
    DeviceId {
        bus: id.bus_type().0,
        vendor: id.vendor(),
        product: id.product(),
        version: id.version(),
    }
}

/// `evdev::UinputAbsSetup::new` on the result of `evdev::AbsInfo::new`: an axis with the given
/// code and the six given parts.
#[verifier::external_body]
pub(crate) fn absolute_axis(
    code: u16,
    value: i32,
    minimum: i32,
    maximum: i32,
    fuzz: i32,
    flat: i32,
    resolution: i32,
) -> (axis: AbsoluteAxis)
    ensures
        axis == (AbsoluteAxis { code, value, minimum, maximum, fuzz, flat, resolution }),
{
    let info = evdev::AbsInfo::new(value, minimum, maximum, fuzz, flat, resolution);
    let setup = evdev::UinputAbsSetup::new(evdev::AbsoluteAxisCode(code), info);
    let info = setup.absinfo();
    AbsoluteAxis {
        code: setup.code(),
        value: info.value(),
        minimum: info.minimum(),
        maximum: info.maximum(),
        fuzz: info.fuzz(),
        flat: info.flat(),
        resolution: info.resolution(),
    }
}

/// Collecting into an `evdev::AttributeSet` of key codes and reading it back: the same codes in
/// ascending order, each once. The set has room for codes below `KEY_COUNT` and panics on others.
#[verifier::external_body]
pub(crate) fn key_set(codes: &Vec<u16>) -> (set: Vec<u16>)
    requires
        all_below(codes@, KEY_COUNT),
    ensures
        ascending(set@),
        set@.to_set() == codes@.to_set(),
{
    let set: evdev::AttributeSet<evdev::KeyCode> = codes.iter().map(
        |code| evdev::KeyCode(*code),
    ).collect();
    set.iter().map(|key| key.0).collect()
}

/// Collecting into an `evdev::AttributeSet` of relative axes and reading it back: the same codes
/// in ascending order, each once. The set has room for codes below `REL_COUNT` and panics on
/// others.
#[verifier::external_body]
pub(crate) fn relative_axis_set(codes: &Vec<u16>) -> (set: Vec<u16>)
    requires
        all_below(codes@, REL_COUNT),
    ensures
        ascending(set@),
        set@.to_set() == codes@.to_set(),
{
    let set: evdev::AttributeSet<evdev::RelativeAxisCode> = codes.iter().map(
        |code| evdev::RelativeAxisCode(*code),
    ).collect();
    set.iter().map(|axis| axis.0).collect()
}

/// Collecting into an `evdev::AttributeSet` of device properties and reading it back: the same
/// codes in ascending order, each once. The set has room for codes below `PROP_COUNT` and panics
/// on others.
#[verifier::external_body]
pub(crate) fn property_set(codes: &Vec<u16>) -> (set: Vec<u16>)
    requires
        all_below(codes@, PROP_COUNT),
    ensures
        ascending(set@),
        set@.to_set() == codes@.to_set(),
{
    let set: evdev::AttributeSet<evdev::PropType> = codes.iter().map(
        |code| evdev::PropType(*code),
    ).collect();
    set.iter().map(|property| property.0).collect()
}

} // verus!
