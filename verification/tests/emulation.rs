use lan_mouse::double::Double;
use lan_mouse::emulation::{
    get_pointer_motion_scale, EmulationError, EvdevEmulation, Step, DEFAULT_SCALE_BITS,
    WHEEL_SENSITIVITY_BITS,
};
use lan_mouse::event::{Event, GestureEvent, KeyboardEvent, PointerEvent};
use lan_mouse::gesture::{
    GestureState, Position, CENTER_X_BITS, CENTER_Y_BITS, HEIGHT_BITS, WIDTH_BITS,
};
use lan_mouse::input::InputEvent;
use lan_mouse::plan::{Device, Emission, Plan};

fn double(value: f64) -> Double {
    Double { bits: value.to_bits() }
}

fn number(value: Double) -> f64 {
    f64::from_bits(value.bits)
}

fn place(x: f64, y: f64) -> Position {
    Position { x: double(x), y: double(y) }
}

fn key(code: evdev::KeyCode, value: i32) -> InputEvent {
    InputEvent { kind: evdev::EventType::KEY.0, code: code.0, value }
}

fn rel(code: evdev::RelativeAxisCode, value: i32) -> InputEvent {
    InputEvent { kind: evdev::EventType::RELATIVE.0, code: code.0, value }
}

fn abs(code: evdev::AbsoluteAxisCode, value: i32) -> InputEvent {
    InputEvent { kind: evdev::EventType::ABSOLUTE.0, code: code.0, value }
}

fn slot(value: i32) -> InputEvent {
    abs(evdev::AbsoluteAxisCode::ABS_MT_SLOT, value)
}

fn tracking(value: i32) -> InputEvent {
    abs(evdev::AbsoluteAxisCode::ABS_MT_TRACKING_ID, value)
}

fn at(x: i32, y: i32) -> [InputEvent; 2] {
    [
        abs(evdev::AbsoluteAxisCode::ABS_MT_POSITION_X, x),
        abs(evdev::AbsoluteAxisCode::ABS_MT_POSITION_Y, y),
    ]
}

/// Does the arithmetic that a step asks for.
fn plan_for(emulation: &mut EvdevEmulation, event: Event, handle: u64) -> Plan {
    match emulation.consume(event, handle) {
        Step::ScaleMotion { dx, dy, scale } => emulation.motion_scaled(
            double(number(dx) * number(scale)),
            double(number(dy) * number(scale)),
        ),
        Step::ScaleWheel { axis, value, factor } => {
            emulation.wheel_scaled(axis, double(number(value) * number(factor)))
        }
        Step::MoveFingers { places, dx, dy } => {
            let moved = places
                .iter()
                .map(|p| place(number(p.x) + number(dx), number(p.y) + number(dy)))
                .collect();
            emulation.fingers_moved(&moved)
        }
        Step::Emit { plan } => plan,
    }
}

/// Plays an event on devices that take everything.
fn play(emulation: &mut EvdevEmulation, event: Event) -> Vec<Vec<InputEvent>> {
    let plan = plan_for(emulation, event, 0);
    let count = plan.batches.len();
    assert_eq!(emulation.finish(&plan, count), Ok(()));
    plan.batches
}

fn motion(dx: f64, dy: f64) -> Event {
    Event::Pointer(PointerEvent::Motion { time: 7, dx: double(dx), dy: double(dy) })
}

fn begin(fingers: u8) -> Event {
    Event::Gesture(GestureEvent::SwipeBegin { time: 1, fingers })
}

fn update(dx: f64, dy: f64) -> Event {
    Event::Gesture(GestureEvent::SwipeUpdate { time: 2, dx: double(dx), dy: double(dy) })
}

fn end(cancelled: bool) -> Event {
    Event::Gesture(GestureEvent::SwipeEnd { time: 3, cancelled })
}

fn axis(axis: u8, value: f64) -> Event {
    Event::Pointer(PointerEvent::Axis { time: 0, axis, value: double(value) })
}

#[test]
fn constants_are_the_patterns_of_their_numbers() {
    assert_eq!(f64::from_bits(DEFAULT_SCALE_BITS), 0.5);
    assert_eq!(f64::from_bits(WHEEL_SENSITIVITY_BITS), 3.0);
    assert_eq!(f64::from_bits(WIDTH_BITS), 1000.0);
    assert_eq!(f64::from_bits(HEIGHT_BITS), 600.0);
    assert_eq!(f64::from_bits(CENTER_X_BITS), 500.0);
    assert_eq!(f64::from_bits(CENTER_Y_BITS), 300.0);
}

#[test]
fn motion_is_scaled_by_one_half_by_default() {
    let mut emulation = EvdevEmulation::new(None);
    let plan = plan_for(&mut emulation, motion(10.0, -5.0), 3);
    assert_eq!(plan.device, Device::Mouse);
    assert!(!plan.ends_swipe);
    assert_eq!(
        plan.batches,
        vec![vec![
            rel(evdev::RelativeAxisCode::REL_X, 5),
            rel(evdev::RelativeAxisCode::REL_Y, -3),
        ]]
    );
}

#[test]
fn configured_scale_replaces_the_default() {
    assert_eq!(get_pointer_motion_scale(None), double(0.5));
    assert_eq!(get_pointer_motion_scale(Some(double(2.0))), double(2.0));
    let mut emulation = EvdevEmulation::new(Some(double(2.0)));
    let batches = play(&mut emulation, motion(1.25, 0.2));
    assert_eq!(batches[0][0].value, 3);
    assert_eq!(batches[0][1].value, 0);
}

#[test]
fn scales_belong_to_connections() {
    let mut emulation = EvdevEmulation::new(None);
    emulation.set_pointer_motion_scale(1, Some(double(1.0)));
    emulation.set_pointer_motion_scale(2, Some(double(0.25)));
    assert_eq!(emulation.scale_of(1), double(1.0));
    assert_eq!(emulation.scale_of(2), double(0.25));
    assert_eq!(emulation.scale_of(3), double(0.5));
    let plan = plan_for(&mut emulation, motion(8.0, 8.0), 2);
    assert_eq!(plan.batches[0][0].value, 2);
    let plan = plan_for(&mut emulation, motion(8.0, 8.0), 1);
    assert_eq!(plan.batches[0][0].value, 8);

    emulation.set_pointer_motion_scale(1, Some(double(0.125)));
    assert_eq!(emulation.scale_of(1), double(0.125));
    emulation.set_pointer_motion_scale(1, None);
    assert_eq!(emulation.scale_of(1), double(0.5));
    assert_eq!(emulation.scale_of(2), double(0.25));
    emulation.set_pointer_motion_scale(4, None);
    assert_eq!(emulation.scale_of(4), double(0.5));
}

#[test]
fn connections_come_and_go_without_effect() {
    let mut emulation = EvdevEmulation::new(None);
    emulation.set_pointer_motion_scale(1, Some(double(1.0)));
    emulation.create(1);
    assert_eq!(emulation.scale_of(1), double(1.0));
    emulation.destroy(1);
    assert_eq!(emulation.scale_of(1), double(1.0));
    emulation.terminate();
    assert_eq!(emulation.scale_of(1), double(1.0));
}

#[test]
fn buttons_keep_the_low_word_and_the_sign() {
    let mut emulation = EvdevEmulation::new(None);
    let button = |button: u32, state: u32| {
        Event::Pointer(PointerEvent::Button { time: 0, button, state })
    };
    assert_eq!(
        play(&mut emulation, button(0x110, 1)),
        vec![vec![key(evdev::KeyCode::BTN_LEFT, 1)]]
    );
    assert_eq!(
        play(&mut emulation, button(0x5_0111, 0)),
        vec![vec![key(evdev::KeyCode::BTN_RIGHT, 0)]]
    );
    assert_eq!(play(&mut emulation, button(0x110, 0xffff_ffff))[0][0].value, -1);
    assert_eq!(play(&mut emulation, button(0x110, 0x8000_0000))[0][0].value, i32::MIN);
    assert_eq!(play(&mut emulation, button(0x110, 0x7fff_ffff))[0][0].value, i32::MAX);
}

#[test]
fn keys_are_passed_on() {
    let mut emulation = EvdevEmulation::new(None);
    let pressed = Event::Keyboard(KeyboardEvent::Key { time: 0, key: 30, state: 1 });
    assert_eq!(play(&mut emulation, pressed), vec![vec![key(evdev::KeyCode::KEY_A, 1)]]);
    let odd = Event::Keyboard(KeyboardEvent::Key { time: 0, key: 0x1_001e, state: 255 });
    assert_eq!(play(&mut emulation, odd), vec![vec![key(evdev::KeyCode::KEY_A, 255)]]);
}

#[test]
fn modifiers_are_ignored() {
    let mut emulation = EvdevEmulation::new(None);
    let modifiers = Event::Keyboard(KeyboardEvent::Modifiers {
        depressed: 1,
        latched: 2,
        locked: 3,
        group: 4,
    });
    assert_eq!(play(&mut emulation, modifiers), Vec::<Vec<InputEvent>>::new());
}

#[test]
fn scrolling_is_tripled_and_rounded_to_detents() {
    let mut emulation = EvdevEmulation::new(None);
    let wheel = |hi_res: i32, legacy: i32| {
        vec![vec![
            rel(evdev::RelativeAxisCode::REL_WHEEL_HI_RES, hi_res),
            rel(evdev::RelativeAxisCode::REL_WHEEL, legacy),
        ]]
    };
    assert_eq!(play(&mut emulation, axis(0, 15.0)), wheel(45, 0));
    assert_eq!(play(&mut emulation, axis(0, 20.0)), wheel(60, 1));
    assert_eq!(play(&mut emulation, axis(0, -20.0)), wheel(-60, -1));
    assert_eq!(play(&mut emulation, axis(0, -19.5)), wheel(-59, 0));
    assert_eq!(play(&mut emulation, axis(0, 59.8)), wheel(179, 1));
    assert_eq!(play(&mut emulation, axis(0, 60.0)), wheel(180, 2));
    assert_eq!(
        play(&mut emulation, axis(1, -40.0)),
        vec![vec![
            rel(evdev::RelativeAxisCode::REL_HWHEEL_HI_RES, -120),
            rel(evdev::RelativeAxisCode::REL_HWHEEL, -1),
        ]]
    );
    assert_eq!(play(&mut emulation, axis(9, 40.0))[0][0].code, 0x0c);
}

#[test]
fn scrolling_works_up_to_half_a_detent_from_the_ends() {
    let emulation = EvdevEmulation::new(None);
    let plan = emulation.wheel_scaled(0, double(2147483587.0));
    assert_eq!(plan.batches[0][0].value, 2147483587);
    assert_eq!(plan.batches[0][1].value, (2147483587i64 + 60).div_euclid(120) as i32);
    let plan = emulation.wheel_scaled(0, double(-2147483588.0));
    assert_eq!(plan.batches[0][0].value, -2147483588);
    assert_eq!(plan.batches[0][1].value, ((-2147483588i64 - 60) / 120) as i32);
}

#[test]
fn detents_agree_with_truncating_division() {
    let emulation = EvdevEmulation::new(None);
    for hi_res in -1000i32..1000 {
        let plan = emulation.wheel_scaled(0, double(hi_res as f64));
        let expected = if hi_res >= 0 { (hi_res + 60) / 120 } else { (hi_res - 60) / 120 };
        assert_eq!(plan.batches[0][1].value, expected);
        assert!((expected * 120 - hi_res).abs() <= 60);
    }
}

#[test]
fn discrete_scrolling_counts_detents() {
    let mut emulation = EvdevEmulation::new(None);
    let discrete =
        |axis: u8, value: i32| Event::Pointer(PointerEvent::AxisDiscrete120 { axis, value });
    assert_eq!(
        play(&mut emulation, discrete(0, -2)),
        vec![vec![
            rel(evdev::RelativeAxisCode::REL_WHEEL_HI_RES, -240),
            rel(evdev::RelativeAxisCode::REL_WHEEL, -2),
        ]]
    );
    assert_eq!(
        play(&mut emulation, discrete(2, 17895697)),
        vec![vec![
            rel(evdev::RelativeAxisCode::REL_HWHEEL_HI_RES, 2147483640),
            rel(evdev::RelativeAxisCode::REL_HWHEEL, 17895697),
        ]]
    );
    // the same whole detents, once as an amount and once counted
    assert_eq!(play(&mut emulation, axis(0, 80.0)), play(&mut emulation, discrete(0, 2)));
}

#[test]
fn swipe_starts_in_the_centre() {
    let mut emulation = EvdevEmulation::new(None);
    let plan = plan_for(&mut emulation, begin(3), 0);
    assert_eq!(plan.device, Device::Touchpad);
    assert!(!plan.ends_swipe);
    let mut expected = vec![
        vec![key(evdev::KeyCode::BTN_TOUCH, 1)],
        vec![key(evdev::KeyCode::BTN_TOOL_TRIPLETAP, 1)],
    ];
    for i in 0..3 {
        let [x, y] = at(500, 300);
        expected.push(vec![slot(i), tracking(i), x, y]);
    }
    assert_eq!(plan.batches, expected);
}

#[test]
fn tool_tells_the_number_of_fingers() {
    let tools = [
        (0, evdev::KeyCode::BTN_TOOL_QUINTTAP, 0),
        (1, evdev::KeyCode::BTN_TOOL_FINGER, 1),
        (2, evdev::KeyCode::BTN_TOOL_DOUBLETAP, 2),
        (3, evdev::KeyCode::BTN_TOOL_TRIPLETAP, 3),
        (4, evdev::KeyCode::BTN_TOOL_QUADTAP, 4),
        (5, evdev::KeyCode::BTN_TOOL_QUINTTAP, 5),
        (6, evdev::KeyCode::BTN_TOOL_QUINTTAP, 5),
        (255, evdev::KeyCode::BTN_TOOL_QUINTTAP, 5),
    ];
    for (fingers, tool, contacts) in tools {
        let mut emulation = EvdevEmulation::new(None);
        let down = play(&mut emulation, begin(fingers));
        assert_eq!(down[1], vec![key(tool, 1)]);
        assert_eq!(down.len(), 2 + contacts);
        let up = play(&mut emulation, end(false));
        assert_eq!(up.len(), contacts + 2);
        assert_eq!(up[contacts], vec![key(tool, 0)]);
        assert_eq!(up[contacts + 1], vec![key(evdev::KeyCode::BTN_TOUCH, 0)]);
    }
}

#[test]
fn swipe_moves_all_fingers_and_stops_at_the_edge() {
    let mut emulation = EvdevEmulation::new(None);
    play(&mut emulation, begin(2));
    let expect = |x: i32, y: i32| {
        let [px, py] = at(x, y);
        vec![vec![slot(0), px, py], vec![slot(1), px, py]]
    };
    assert_eq!(play(&mut emulation, update(10.4, -0.5)), expect(510, 300));
    assert_eq!(play(&mut emulation, update(0.2, 0.0)), expect(511, 300));
    assert_eq!(play(&mut emulation, update(1e9, -1e9)), expect(1000, 0));
    assert_eq!(play(&mut emulation, update(-0.4, 600.5)), expect(1000, 600));
    assert_eq!(play(&mut emulation, update(-0.2, -0.6)), expect(999, 599));
    assert_eq!(play(&mut emulation, update(f64::NEG_INFINITY, 0.0)), expect(0, 599));
}

#[test]
fn nan_is_shown_at_the_origin_until_the_next_swipe() {
    let mut emulation = EvdevEmulation::new(None);
    play(&mut emulation, begin(1));
    let moved = play(&mut emulation, update(f64::NAN, 1.0));
    assert_eq!(&moved[0][1..], &at(0, 301));
    let moved = play(&mut emulation, update(5.0, 0.0));
    assert_eq!(&moved[0][1..], &at(0, 301));
    play(&mut emulation, end(false));
    let down = play(&mut emulation, begin(1));
    assert_eq!(&down[2][2..], &at(500, 300));
}

#[test]
fn swipe_ends_once_everything_was_emitted() {
    let mut emulation = EvdevEmulation::new(None);
    play(&mut emulation, begin(2));
    let plan = plan_for(&mut emulation, end(true), 0);
    assert!(plan.ends_swipe);
    assert_eq!(
        plan.batches,
        vec![
            vec![slot(0), tracking(-1)],
            vec![slot(1), tracking(-1)],
            vec![key(evdev::KeyCode::BTN_TOOL_DOUBLETAP, 0)],
            vec![key(evdev::KeyCode::BTN_TOUCH, 0)],
        ]
    );
    for emitted in 0..4 {
        assert_eq!(
            emulation.finish(&plan, emitted),
            Err(EmulationError::Rejected { batch: emitted })
        );
        // still in progress, so the same is to be emitted again
        assert_eq!(plan_for(&mut emulation, end(false), 0).batches, plan.batches);
        assert!(matches!(emulation.consume(update(1.0, 1.0), 0), Step::MoveFingers { .. }));
    }
    assert_eq!(emulation.finish(&plan, 4), Ok(()));
    assert_eq!(play(&mut emulation, update(1.0, 1.0)), Vec::<Vec<InputEvent>>::new());
}

#[test]
fn refused_start_still_counts() {
    let mut emulation = EvdevEmulation::new(None);
    let plan = plan_for(&mut emulation, begin(4), 0);
    assert_eq!(emulation.finish(&plan, 1), Err(EmulationError::Rejected { batch: 1 }));
    assert_eq!(play(&mut emulation, end(false)).len(), 6);
}

#[test]
fn updates_without_a_swipe_are_ignored() {
    let mut emulation = EvdevEmulation::new(None);
    let plan = plan_for(&mut emulation, update(3.0, 4.0), 0);
    assert_eq!(plan.device, Device::Touchpad);
    assert!(plan.batches.is_empty());
    let down = play(&mut emulation, begin(1));
    assert_eq!(&down[2][2..], &at(500, 300));
}

#[test]
fn ending_without_a_swipe_releases_the_buttons() {
    let mut emulation = EvdevEmulation::new(None);
    assert_eq!(
        play(&mut emulation, end(false)),
        vec![
            vec![key(evdev::KeyCode::BTN_TOOL_QUINTTAP, 0)],
            vec![key(evdev::KeyCode::BTN_TOUCH, 0)],
        ]
    );
}

#[test]
fn whole_swipe_leaves_nothing_on_the_pad() {
    for fingers in 0..8u8 {
        let mut emulation = EvdevEmulation::new(None);
        let mut batches = play(&mut emulation, begin(fingers));
        batches.extend(play(&mut emulation, update(12.0, 7.0)));
        batches.extend(play(&mut emulation, update(-900.0, 90.0)));
        batches.extend(play(&mut emulation, end(false)));
        let mut current = 0;
        let mut contacts = std::collections::BTreeMap::new();
        let mut pressed = std::collections::BTreeSet::new();
        let mut most = 0;
        for event in batches.iter().flatten() {
            if event.kind == evdev::EventType::KEY.0 {
                if event.value == 0 {
                    assert!(pressed.remove(&event.code));
                } else {
                    assert!(pressed.insert(event.code));
                }
            } else if event.code == evdev::AbsoluteAxisCode::ABS_MT_SLOT.0 {
                current = event.value;
            } else if event.code == evdev::AbsoluteAxisCode::ABS_MT_TRACKING_ID.0 {
                if event.value == -1 {
                    assert!(contacts.remove(&current).is_some());
                } else {
                    assert!(contacts.insert(current, event.value).is_none());
                }
            }
            most = most.max(contacts.len());
        }
        assert_eq!(most, fingers.min(5) as usize);
        assert!(contacts.is_empty());
        assert!(pressed.is_empty());
    }
}

#[test]
fn fingers_stay_together() {
    let mut state = GestureState::new();
    assert!(state.swipe_update().is_none());
    state.swipe_begin(4);
    let places = state.swipe_update().unwrap();
    assert_eq!(places, vec![Position::center(); 4]);
    state.fingers_moved(&vec![place(1.0, 2.0); 4]);
    assert_eq!(state.swipe_update().unwrap(), vec![place(1.0, 2.0); 4]);
    state.fingers_moved(&vec![place(-1.0, 700.0); 4]);
    assert_eq!(state.swipe_update().unwrap(), vec![place(0.0, 600.0); 4]);
    assert_eq!(state.swipe_end(true).len(), 6);
    state.swipe_ended();
    assert!(state.swipe_update().is_none());
}

#[test]
fn opposite_scrolling_cancels() {
    let mut emulation = EvdevEmulation::new(None);
    for amount in [0.1, 0.5, 19.9, 20.0, 20.5, 123.456, 7000.25] {
        let up = play(&mut emulation, axis(0, amount));
        let down = play(&mut emulation, axis(0, -amount));
        assert_eq!(up[0][0].value + down[0][0].value, 0);
        assert_eq!(up[0][1].value + down[0][1].value, 0);
    }
}

#[test]
fn buttons_wheels_and_keys_ignore_time_and_connection() {
    let mut emulation = EvdevEmulation::new(None);
    emulation.set_pointer_motion_scale(2, Some(double(0.25)));
    let events = |time: u32| {
        vec![
            Event::Pointer(PointerEvent::Button { time, button: 0x110, state: 1 }),
            Event::Pointer(PointerEvent::Axis { time, axis: 0, value: double(7.0) }),
            Event::Pointer(PointerEvent::AxisDiscrete120 { axis: 1, value: 3 }),
            Event::Keyboard(KeyboardEvent::Key { time, key: 30, state: 1 }),
        ]
    };
    for (event, later) in events(0).into_iter().zip(events(99)) {
        let one = plan_for(&mut emulation, event, 1);
        let other = plan_for(&mut emulation, later, 2);
        assert_eq!(one.batches, other.batches);
        assert_eq!(one.device, other.device);
    }
}

/// Emits a plan to a device that refuses the batch with the given index. Gives the batches that
/// the device was asked to emit, and how far it went.
fn emit(plan: &Plan, refused: Option<usize>) -> (Vec<Vec<InputEvent>>, Emission) {
    let mut asked = Vec::new();
    let mut emission = Emission::new();
    while let Some(batch) = plan.next_batch(emission) {
        emission = plan.replied(emission, refused != Some(asked.len()));
        asked.push(batch.clone());
    }
    (asked, emission)
}

#[test]
fn nothing_is_tried_after_a_refusal() {
    let mut emulation = EvdevEmulation::new(None);
    play(&mut emulation, begin(2));
    let plan = plan_for(&mut emulation, end(false), 0);
    for refused in 0..4 {
        let (asked, emission) = emit(&plan, Some(refused));
        assert_eq!(asked, plan.batches[..=refused]);
        assert_eq!(emission, Emission { emitted: refused, refused: true });
        assert_eq!(plan.next_batch(emission), None);
        assert_eq!(
            emulation.finish(&plan, emission.emitted),
            Err(EmulationError::Rejected { batch: refused })
        );
        assert!(matches!(emulation.consume(update(1.0, 1.0), 0), Step::MoveFingers { .. }));
    }
    let (asked, emission) = emit(&plan, None);
    assert_eq!(asked, plan.batches);
    assert_eq!(emission, Emission { emitted: 4, refused: false });
    assert_eq!(emulation.finish(&plan, emission.emitted), Ok(()));
    assert_eq!(play(&mut emulation, update(1.0, 1.0)), Vec::<Vec<InputEvent>>::new());
}

#[test]
fn empty_plan_asks_for_nothing() {
    let mut emulation = EvdevEmulation::new(None);
    let plan = plan_for(&mut emulation, update(3.0, 4.0), 0);
    assert_eq!(emit(&plan, None), (vec![], Emission { emitted: 0, refused: false }));
}
