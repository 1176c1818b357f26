//! The two virtual devices: what they are called and which events they declare.
//!
//! The mouse takes pointer motion, wheels, buttons and keys. It declares touchpad buttons too,
//! so that pointer acceleration applies to it. The touchpad takes multitouch contacts only.

use vstd::prelude::*;

use crate::codes::{
    ABS_MT_POSITION_X, ABS_MT_POSITION_Y, ABS_MT_SLOT, ABS_MT_TRACKING_ID, BTN_TOOL_DOUBLETAP,
    BTN_TOOL_FINGER, BTN_TOOL_QUADTAP, BTN_TOOL_QUINTTAP, BTN_TOOL_TRIPLETAP, BTN_TOUCH, BUS_USB,
    EV_ABS, EV_KEY, EV_REL, KEY_COUNT, PROP_POINTER, REL_HWHEEL, REL_HWHEEL_HI_RES, REL_WHEEL,
    REL_WHEEL_HI_RES, REL_X, REL_Y,
};
use crate::gesture::{LIFTED, TOUCHPAD_HEIGHT, TOUCHPAD_WIDTH};
use crate::input::{
    absolute_axis, all_below, ascending, input_id, key_set, property_set, relative_axis_set,
    AbsoluteAxis, DeviceId, InputEvent,
};

verus! {

/// Vendor under which both devices register.
pub const VENDOR: u16 = 0x1234;

pub const MOUSE_PRODUCT: u16 = 0x5678;

pub const TOUCHPAD_PRODUCT: u16 = 0x5679;

pub const DEVICE_VERSION: u16 = 0x0001;

/// Greatest tracking id that the touchpad declares.
pub const MAX_TRACKING_ID: i32 = 65535;

/// Resolution of the touchpad's position axes, in units per millimetre.
pub const POSITION_RESOLUTION: i32 = 10;

/// What is needed to register a device. The code lists are in ascending order.
#[derive(Debug)]
pub struct DeviceDescription {
    pub name: String,
    pub id: DeviceId,
    pub properties: Vec<u16>,
    pub keys: Vec<u16>,
    pub relative_axes: Vec<u16>,
    pub absolute_axes: Vec<AbsoluteAxis>,
}

/// A device by name, identity and capabilities.
#[verifier::ext_equal]
pub struct DeviceView {
    pub name: Seq<char>,
    pub id: DeviceId,
    pub properties: Set<u16>,
    pub keys: Set<u16>,
    pub relative_axes: Set<u16>,
    pub absolute_axes: Seq<AbsoluteAxis>,
}

impl View for DeviceDescription {
    type V = DeviceView;

    open spec fn view(&self) -> DeviceView {
        DeviceView {
            name: self.name@,
            id: self.id,
            properties: self.properties@.to_set(),
            keys: self.keys@.to_set(),
            relative_axes: self.relative_axes@.to_set(),
            absolute_axes: self.absolute_axes@,
        }
    }
}

impl DeviceDescription {
    /// Whether each code list is in ascending order, without repetition.
    pub open spec fn wf(&self) -> bool {
        &&& ascending(self.properties@)
        &&& ascending(self.keys@)
        &&& ascending(self.relative_axes@)
    }
}

impl DeviceView {
    /// Whether the device declares the event: its key or axis, and for an absolute axis the
    /// value too.
    pub open spec fn declares(self, event: InputEvent) -> bool {
        if event.kind == EV_KEY {
            self.keys.contains(event.code)
        } else if event.kind == EV_REL {
            self.relative_axes.contains(event.code)
        } else {
            &&& event.kind == EV_ABS
            &&& exists|i: int|
                0 <= i < self.absolute_axes.len() && (#[trigger] self.absolute_axes[i]).code
                    == event.code && self.absolute_axes[i].minimum <= event.value
                    <= self.absolute_axes[i].maximum
        }
    }
}

/// The keys and buttons that the mouse declares, by the ranges in which their codes lie.
pub open spec fn is_known_key(code: u16) -> bool {
    ||| 0x001 <= code <= 0x053
    ||| 0x055 <= code <= 0x0c2
    ||| 0x0c8 <= code <= 0x0f8
    ||| 0x100 <= code <= 0x109
    ||| 0x110 <= code <= 0x117
    ||| 0x120 <= code <= 0x12b
    ||| 0x12f <= code <= 0x13e
    ||| 0x140 <= code <= 0x148
    ||| 0x14a <= code <= 0x151
    ||| 0x160 <= code <= 0x1ba
    ||| 0x1bd <= code <= 0x1be
    ||| 0x1c0 <= code <= 0x1c3
    ||| 0x1d0 <= code <= 0x1e4
    ||| 0x1f1 <= code <= 0x1fa
    ||| 0x200 <= code <= 0x21e
    ||| 0x220 <= code <= 0x223
    ||| code == 0x230
    ||| 0x240 <= code <= 0x248
    ||| 0x250 <= code <= 0x251
    ||| 0x260 <= code <= 0x27a
    ||| 0x2c0 <= code <= 0x2e7
}

/// The mouse: all known keys and buttons, motion, and both wheels in both resolutions.
pub open spec fn mouse_view() -> DeviceView {
    DeviceView {
        name: "lan-mouse"@,
        id: DeviceId {
            bus: BUS_USB,
            vendor: VENDOR,
            product: MOUSE_PRODUCT,
            version: DEVICE_VERSION,
        },
        properties: set![PROP_POINTER],
        keys: Set::new(|code: u16| is_known_key(code)),
        relative_axes: set![
            REL_X,
            REL_Y,
            REL_WHEEL,
            REL_HWHEEL,
            REL_WHEEL_HI_RES,
            REL_HWHEEL_HI_RES,
        ],
        absolute_axes: seq![],
    }
}

/// An axis that starts at 0 and has neither fuzz nor flat.
pub open spec fn axis(code: u16, minimum: i32, maximum: i32, resolution: i32) -> AbsoluteAxis {
    AbsoluteAxis { code, value: 0, minimum, maximum, fuzz: 0, flat: 0, resolution }
}

/// The touchpad: the buttons of one to five fingers, and five multitouch slots.
pub open spec fn touchpad_view() -> DeviceView {
    DeviceView {
        name: "lan-mouse-gestures"@,
        id: DeviceId {
            bus: BUS_USB,
            vendor: VENDOR,
            product: TOUCHPAD_PRODUCT,
            version: DEVICE_VERSION,
        },
        properties: set![PROP_POINTER],
        keys: set![
            BTN_TOUCH,
            BTN_TOOL_FINGER,
            BTN_TOOL_DOUBLETAP,
            BTN_TOOL_TRIPLETAP,
            BTN_TOOL_QUADTAP,
            BTN_TOOL_QUINTTAP,
        ],
        relative_axes: set![],
        absolute_axes: seq![
            axis(ABS_MT_SLOT, 0, 4, 1),
            axis(ABS_MT_TRACKING_ID, LIFTED, MAX_TRACKING_ID, 1),
            axis(ABS_MT_POSITION_X, 0, TOUCHPAD_WIDTH, POSITION_RESOLUTION),
            axis(ABS_MT_POSITION_Y, 0, TOUCHPAD_HEIGHT, POSITION_RESOLUTION),
        ],
    }
}

/// Appends the codes from `first` to `last`.
fn push_range(codes: &mut Vec<u16>, first: u16, last: u16)
    requires
        first <= last < KEY_COUNT,
        all_below(old(codes)@, KEY_COUNT),
    ensures
        all_below(final(codes)@, KEY_COUNT),
        forall|code: u16| #[trigger]
            final(codes)@.contains(code) <==> old(codes)@.contains(code) || first <= code <= last,
{
    let ghost before = codes@;
    let mut next: u16 = first;
    while next <= last
        invariant
            first <= next <= last + 1,
            last < KEY_COUNT,
            all_below(codes@, KEY_COUNT),
            forall|code: u16| #[trigger]
                codes@.contains(code) <==> before.contains(code) || first <= code < next,
        decreases last + 1 - next,
    {
        let ghost shorter = codes@;
        codes.push(next);
        proof {
            assert forall|code: u16| #[trigger] codes@.contains(code) implies before.contains(code)
                || first <= code <= next by {
                let i = choose|i: int| 0 <= i < codes@.len() && codes@[i] == code;
                if i < shorter.len() {
                    assert(shorter[i] == code);
                    assert(shorter.contains(code));
                }
            }
            assert forall|code: u16| before.contains(code) || first <= code <= next implies
                #[trigger] codes@.contains(code) by {
                if code == next {
                    assert(codes@[shorter.len() as int] == code);
                } else {
                    assert(shorter.contains(code));
                    let i = choose|i: int| 0 <= i < shorter.len() && shorter[i] == code;
                    assert(codes@[i] == code);
                }
            }
        }
        next += 1;
    }
}

/// The codes of all known keys and buttons.
pub fn all_keys() -> (keys: Vec<u16>)
    ensures
        all_below(keys@, KEY_COUNT),
        keys@.to_set() == Set::new(|code: u16| is_known_key(code)),
{
    let mut keys: Vec<u16> = Vec::new();
    push_range(&mut keys, 0x001, 0x053);
    push_range(&mut keys, 0x055, 0x0c2);
    push_range(&mut keys, 0x0c8, 0x0f8);
    push_range(&mut keys, 0x100, 0x109);
    push_range(&mut keys, 0x110, 0x117);
    push_range(&mut keys, 0x120, 0x12b);
    push_range(&mut keys, 0x12f, 0x13e);
    push_range(&mut keys, 0x140, 0x148);
    push_range(&mut keys, 0x14a, 0x151);
    push_range(&mut keys, 0x160, 0x1ba);
    push_range(&mut keys, 0x1bd, 0x1be);
    push_range(&mut keys, 0x1c0, 0x1c3);
    push_range(&mut keys, 0x1d0, 0x1e4);
    push_range(&mut keys, 0x1f1, 0x1fa);
    push_range(&mut keys, 0x200, 0x21e);
    push_range(&mut keys, 0x220, 0x223);
    push_range(&mut keys, 0x230, 0x230);
    push_range(&mut keys, 0x240, 0x248);
    push_range(&mut keys, 0x250, 0x251);
    push_range(&mut keys, 0x260, 0x27a);
    push_range(&mut keys, 0x2c0, 0x2e7);
    assert(keys@.to_set() =~= Set::new(|code: u16| is_known_key(code)));
    keys
}

/// Describes the mouse.
pub fn mouse_device() -> (device: DeviceDescription)
    ensures
        device.wf(),
        device@ == mouse_view(),
{
    let mut keys = all_keys();
    proof {
        let with_touch = keys@.push(BTN_TOUCH);
        let with_both = with_touch.push(BTN_TOOL_FINGER);
        lemma_push_to_set(keys@, BTN_TOUCH);
        lemma_push_to_set(with_touch, BTN_TOOL_FINGER);
        assert(with_both.to_set() =~= keys@.to_set());
    }
    keys.push(BTN_TOUCH);
    keys.push(BTN_TOOL_FINGER);
    let axes = vec![
        REL_X,
        REL_Y,
        REL_WHEEL,
        REL_HWHEEL,
        REL_WHEEL_HI_RES,
        REL_HWHEEL_HI_RES,
    ];
    let properties = vec![PROP_POINTER];
    let device = DeviceDescription {
        name: "lan-mouse".to_string(),
        id: input_id(BUS_USB, VENDOR, MOUSE_PRODUCT, DEVICE_VERSION),
        properties: property_set(&properties),
        keys: key_set(&keys),
        relative_axes: relative_axis_set(&axes),
        absolute_axes: Vec::new(),
    };
    proof {
        assert(properties@.to_set() =~= mouse_view().properties) by {
            assert(properties@[0] == PROP_POINTER);
        }
        assert(axes@.to_set() =~= mouse_view().relative_axes) by {
            assert(axes@[0] == REL_X && axes@[1] == REL_Y && axes@[2] == REL_WHEEL);
            assert(axes@[3] == REL_HWHEEL && axes@[4] == REL_WHEEL_HI_RES);
            assert(axes@[5] == REL_HWHEEL_HI_RES);
        }
        assert(device@ =~= mouse_view());
    }
    device
}

/// Describes the touchpad.
pub fn touchpad_device() -> (device: DeviceDescription)
    ensures
        device.wf(),
        device@ == touchpad_view(),
{
    let keys = vec![
        BTN_TOUCH,
        BTN_TOOL_FINGER,
        BTN_TOOL_DOUBLETAP,
        BTN_TOOL_TRIPLETAP,
        BTN_TOOL_QUADTAP,
        BTN_TOOL_QUINTTAP,
    ];
    let properties = vec![PROP_POINTER];
    let device = DeviceDescription {
        name: "lan-mouse-gestures".to_string(),
        id: input_id(BUS_USB, VENDOR, TOUCHPAD_PRODUCT, DEVICE_VERSION),
        properties: property_set(&properties),
        keys: key_set(&keys),
        relative_axes: Vec::new(),
        absolute_axes: vec![
            absolute_axis(ABS_MT_SLOT, 0, 0, 4, 0, 0, 1),
            absolute_axis(ABS_MT_TRACKING_ID, 0, LIFTED, MAX_TRACKING_ID, 0, 0, 1),
            absolute_axis(ABS_MT_POSITION_X, 0, 0, TOUCHPAD_WIDTH, 0, 0, POSITION_RESOLUTION),
            absolute_axis(ABS_MT_POSITION_Y, 0, 0, TOUCHPAD_HEIGHT, 0, 0, POSITION_RESOLUTION),
        ],
    };
    proof {
        assert(properties@.to_set() =~= touchpad_view().properties) by {
            assert(properties@[0] == PROP_POINTER);
        }
        assert(keys@.to_set() =~= touchpad_view().keys) by {
            assert(keys@[0] == BTN_TOUCH && keys@[1] == BTN_TOOL_FINGER);
            assert(keys@[2] == BTN_TOOL_DOUBLETAP && keys@[3] == BTN_TOOL_TRIPLETAP);
            assert(keys@[4] == BTN_TOOL_QUADTAP && keys@[5] == BTN_TOOL_QUINTTAP);
        }
        assert(device@.relative_axes =~= touchpad_view().relative_axes);
        assert(device@.absolute_axes =~= touchpad_view().absolute_axes);
        assert(device@ =~= touchpad_view());
    }
    device
}

/// A code that is already there adds nothing to the set of codes.
proof fn lemma_push_to_set(codes: Seq<u16>, code: u16)
    ensures
        codes.push(code).to_set() == codes.to_set().insert(code),
{
    let longer = codes.push(code);
    assert(longer[codes.len() as int] == code);
    assert forall|c: u16| codes.contains(c) implies longer.contains(c) by {
        let i = choose|i: int| 0 <= i < codes.len() && codes[i] == c;
        assert(longer[i] == c);
    }
    assert(longer.to_set() =~= codes.to_set().insert(code));
}

} // verus!
