//! What holds across the operations of the emulation.

use vstd::prelude::*;

use crate::codes::{
    ABS_MT_POSITION_X, ABS_MT_POSITION_Y, ABS_MT_SLOT, ABS_MT_TRACKING_ID, EV_ABS, EV_KEY, EV_REL,
    REL_HWHEEL, REL_HWHEEL_HI_RES, REL_WHEEL, REL_WHEEL_HI_RES, REL_X, REL_Y,
};
use crate::device::{is_known_key, mouse_view, touchpad_view, DeviceView, MAX_TRACKING_ID};
use crate::double::{
    law_opposite_values_round_to_opposites, law_rounding, lemma_round_between, one,
    round_half_away, Double,
};
use crate::emulation::{
    empty_plan, lemma_scale_constants, motion_batch, mouse_plan, nearest_detents, wheel_batch,
    wheel_in_range, EmulationHandle, EmulationState, Step, StepView,
};
use crate::event::{Event, GestureEvent, KeyboardEvent, PointerEvent, UNITS_PER_DETENT};
use crate::gesture::{
    begin_batches, contacts, down_batch, lemma_on_pad, lemma_touchpad_constants, up_batch,
    Position, SwipeState, LIFTED, TOUCHPAD_HEIGHT, TOUCHPAD_WIDTH,
};
use crate::input::{key, InputEvent};
use crate::plan::{emission_after, law_emission_stops_at_refusal, Device, Plan, PlanView};

verus! {

/// Whether a device declares every event of the batches.
pub open spec fn declares_all(device: DeviceView, batches: Seq<Seq<InputEvent>>) -> bool {
    forall|i: int, j: int|
        0 <= i < batches.len() && 0 <= j < batches[i].len() ==> device.declares(
            #[trigger] batches[i][j],
        )
}

/// Whether a device declares every event of a batch.
pub open spec fn declares_batch(device: DeviceView, batch: Seq<InputEvent>) -> bool {
    forall|j: int| 0 <= j < batch.len() ==> device.declares(#[trigger] batch[j])
}

/// The values that the touchpad declares for its axes.
proof fn lemma_touchpad_axes()
    ensures
        forall|event: InputEvent|
            ({
                &&& event.kind == EV_ABS
                &&& ({
                    ||| event.code == ABS_MT_SLOT && 0 <= event.value <= 4
                    ||| event.code == ABS_MT_TRACKING_ID && LIFTED <= event.value
                        <= MAX_TRACKING_ID
                    ||| event.code == ABS_MT_POSITION_X && 0 <= event.value
                        <= TOUCHPAD_WIDTH
                    ||| event.code == ABS_MT_POSITION_Y && 0 <= event.value
                        <= TOUCHPAD_HEIGHT
                })
            }) ==> #[trigger] touchpad_view().declares(event),
{
    let axes = touchpad_view().absolute_axes;
    assert(axes[0].code == ABS_MT_SLOT);
    assert(axes[1].code == ABS_MT_TRACKING_ID);
    assert(axes[2].code == ABS_MT_POSITION_X);
    assert(axes[3].code == ABS_MT_POSITION_Y);
}

/// Places on the pad have coordinates within the declared ranges, even where one is a NaN.
pub proof fn law_positions_in_range(place: Position)
    requires
        place.is_on_pad(),
    ensures
        0 <= place.x.rounded() <= TOUCHPAD_WIDTH,
        0 <= place.y.rounded() <= TOUCHPAD_HEIGHT,
{
    if !place.x.is_nan() {
        lemma_round_between(place.x.units(), 0, TOUCHPAD_WIDTH as int);
    }
    if !place.y.is_nan() {
        lemma_round_between(place.y.units(), 0, TOUCHPAD_HEIGHT as int);
    }
}

/// Every event that starts, updates or ends a swipe is one that the touchpad declares, with a
/// value in the range that it declares for it.
pub proof fn law_touchpad_declares_swipes(swipe: SwipeState, fingers: u8)
    requires
        swipe.wf(),
    ensures
        declares_all(touchpad_view(), begin_batches(fingers)),
        declares_all(touchpad_view(), swipe.position_batches()),
        declares_all(touchpad_view(), swipe.end_batches()),
{
    lemma_touchpad_axes();
    let pad = touchpad_view();
    let begin = begin_batches(fingers);
    assert forall|i: int, j: int| 0 <= i < begin.len() && 0 <= j < begin[i].len() implies
        pad.declares(#[trigger] begin[i][j]) by {
        if i >= 2 {
            assert(begin[i] == down_batch(i - 2, 500, 300));
        }
    }
    let positions = swipe.position_batches();
    assert forall|i: int, j: int| 0 <= i < positions.len() && 0 <= j < positions[i].len() implies
        pad.declares(#[trigger] positions[i][j]) by {
        law_positions_in_range(swipe.positions[i]);
    }
    let end = swipe.end_batches();
    assert forall|i: int, j: int| 0 <= i < end.len() && 0 <= j < end[i].len() implies pad.declares(
        #[trigger] end[i][j],
    ) by {
        if i < swipe.fingers {
            assert(end[i] == up_batch(i));
        }
    }
}

/// Every motion and wheel event is one that the mouse declares.
pub proof fn law_mouse_declares_motion(dx: i32, dy: i32, axis: u8, hi_res: i32, legacy: i32)
    ensures
        declares_batch(mouse_view(), motion_batch(dx, dy)),
        declares_batch(mouse_view(), wheel_batch(axis, hi_res, legacy)),
{
}

/// Of keys and buttons the mouse declares the known ones, touchpad buttons among them.
pub proof fn law_mouse_declares_known_keys(code: u16, value: i32)
    ensures
        mouse_view().declares(key(code, value)) <==> is_known_key(code),
        touchpad_view().declares(key(code, value)) ==> mouse_view().declares(key(code, value)),
{
}

/// A connection has the scale it was last given, or the default once that was taken back, and
/// giving or taking one changes no other connection.
pub proof fn law_scale_set_and_read(
    state: EmulationState,
    handle: EmulationHandle,
    scale: Option<Double>,
    other: EmulationHandle,
)
    ensures
        state.with_scale(handle, scale).scale_of(handle) == match scale {
            Some(s) => s,
            None => state.pointer_motion_scale,
        },
        other != handle ==> state.with_scale(handle, scale).scale_of(other) == state.scale_of(
            other,
        ),
        state.with_scale(handle, scale).gesture == state.gesture,
{
}

/// Of two scales given to one connection in turn, the second counts.
pub proof fn law_scale_last_wins(
    state: EmulationState,
    handle: EmulationHandle,
    first: Option<Double>,
    second: Option<Double>,
)
    ensures
        state.with_scale(handle, first).with_scale(handle, second) == state.with_scale(
            handle,
            second,
        ),
{
    assert(state.with_scale(handle, first).with_scale(handle, second).per_handle_scales
        =~= state.with_scale(handle, second).per_handle_scales);
}

/// Scales of different connections can be given in either order.
pub proof fn law_scales_commute(
    state: EmulationState,
    one_handle: EmulationHandle,
    one_scale: Option<Double>,
    other_handle: EmulationHandle,
    other_scale: Option<Double>,
)
    requires
        one_handle != other_handle,
    ensures
        state.with_scale(one_handle, one_scale).with_scale(other_handle, other_scale)
            == state.with_scale(other_handle, other_scale).with_scale(one_handle, one_scale),
{
    assert(state.with_scale(one_handle, one_scale).with_scale(
        other_handle,
        other_scale,
    ).per_handle_scales =~= state.with_scale(other_handle, other_scale).with_scale(
        one_handle,
        one_scale,
    ).per_handle_scales);
}

/// Motion is scaled by the scale that the connection was last given, and an event of one
/// connection does not depend on the scale of another.
pub proof fn law_motion_uses_own_scale(
    state: EmulationState,
    handle: EmulationHandle,
    scale: Double,
    other: EmulationHandle,
    time: u32,
    dx: Double,
    dy: Double,
)
    requires
        other != handle,
    ensures
        ({
            let motion = Event::Pointer(PointerEvent::Motion { time, dx, dy });
            let next = state.with_scale(handle, Some(scale));
            &&& next.step_for(motion, handle) == (StepView::ScaleMotion { dx, dy, scale })
            &&& next.step_for(motion, other) == state.step_for(motion, other)
        }),
{
}

/// Detents are within half a detent of the high-resolution amount, and opposite amounts give
/// opposite detents.
pub proof fn law_detents_are_nearest(hi_res: i32)
    ensures
        -60 <= nearest_detents(hi_res as int) * UNITS_PER_DETENT - hi_res <= 60,
        nearest_detents(-hi_res) == -nearest_detents(hi_res as int),
        wheel_in_range(hi_res) ==> i32::MIN <= nearest_detents(hi_res as int) <= i32::MAX,
{
}

/// More scrolling never gives fewer detents.
pub proof fn law_detents_are_monotone(less: i32, more: i32)
    requires
        less <= more,
    ensures
        nearest_detents(less as int) <= nearest_detents(more as int),
{
}

/// Whole detents are the same whether they arrive counted or as a high-resolution amount.
pub proof fn law_whole_detents_agree(detents: int)
    ensures
        nearest_detents(detents * UNITS_PER_DETENT) == detents,
{
}

/// Scrolling up and down by the same amount cancels, in high resolution and in detents, as long as
/// neither amount is beyond the range of `i32`.
pub proof fn law_opposite_scrolling_cancels(up: Double, down: Double)
    requires
        !up.is_nan(),
        !down.is_nan(),
        up.units() == -down.units(),
        -i32::MAX <= round_half_away(up.units()) <= i32::MAX,
    ensures
        up.rounded() + down.rounded() == 0,
        nearest_detents(up.rounded() as int) + nearest_detents(down.rounded() as int) == 0,
{
    law_opposite_values_round_to_opposites(up, down);
    law_detents_are_nearest(up.rounded());
}

/// Axis 0 turns the vertical wheel, every other axis the horizontal one.
pub proof fn law_axis_selects_wheel(axis: u8, hi_res: i32, legacy: i32, event: int)
    requires
        0 <= event < 2,
    ensures
        ({
            let code = wheel_batch(axis, hi_res, legacy)[event].code;
            if axis == 0 {
                code == REL_WHEEL_HI_RES || code == REL_WHEEL
            } else {
                code == REL_HWHEEL_HI_RES || code == REL_HWHEEL
            }
        }),
{
}

/// Neither the time of an event nor whether a swipe was cancelled makes a difference.
pub proof fn law_time_and_cancellation_do_not_matter(
    state: EmulationState,
    handle: EmulationHandle,
    time: u32,
    other_time: u32,
    cancelled: bool,
    fingers: u8,
    dx: Double,
    dy: Double,
)
    ensures
        state.step_for(Event::Gesture(GestureEvent::SwipeEnd { time, cancelled }), handle)
            == state.step_for(
            Event::Gesture(GestureEvent::SwipeEnd { time: other_time, cancelled: !cancelled }),
            handle,
        ),
        state.step_for(Event::Gesture(GestureEvent::SwipeBegin { time, fingers }), handle)
            == state.step_for(
            Event::Gesture(GestureEvent::SwipeBegin { time: other_time, fingers }),
            handle,
        ),
        state.step_for(Event::Gesture(GestureEvent::SwipeUpdate { time, dx, dy }), handle)
            == state.step_for(
            Event::Gesture(GestureEvent::SwipeUpdate { time: other_time, dx, dy }),
            handle,
        ),
        state.step_for(Event::Pointer(PointerEvent::Motion { time, dx, dy }), handle)
            == state.step_for(
            Event::Pointer(PointerEvent::Motion { time: other_time, dx, dy }),
            handle,
        ),
{
}

/// Neither the time nor the connection of a button, wheel or keyboard event makes a difference.
pub proof fn law_buttons_wheels_and_keys_are_shared(
    state: EmulationState,
    handle: EmulationHandle,
    other: EmulationHandle,
    time: u32,
    other_time: u32,
    number: u32,
    state_word: u32,
    key_state: u8,
    axis: u8,
    value: Double,
    detents: i32,
    modifiers: KeyboardEvent,
)
    requires
        modifiers is Modifiers,
    ensures
        state.step_for(
            Event::Pointer(PointerEvent::Button { time, button: number, state: state_word }),
            handle,
        ) == state.step_for(
            Event::Pointer(
                PointerEvent::Button { time: other_time, button: number, state: state_word },
            ),
            other,
        ),
        state.step_for(Event::Pointer(PointerEvent::Axis { time, axis, value }), handle)
            == state.step_for(
            Event::Pointer(PointerEvent::Axis { time: other_time, axis, value }),
            other,
        ),
        state.step_for(
            Event::Pointer(PointerEvent::AxisDiscrete120 { axis, value: detents }),
            handle,
        ) == state.step_for(
            Event::Pointer(PointerEvent::AxisDiscrete120 { axis, value: detents }),
            other,
        ),
        state.step_for(
            Event::Keyboard(KeyboardEvent::Key { time, key: number, state: key_state }),
            handle,
        ) == state.step_for(
            Event::Keyboard(KeyboardEvent::Key { time: other_time, key: number, state: key_state }),
            other,
        ),
        state.step_for(Event::Keyboard(modifiers), handle) == state.step_for(
            Event::Keyboard(modifiers),
            other,
        ),
{
}

/// Gestures do not depend on the connection they come from.
pub proof fn law_gestures_are_shared(
    state: EmulationState,
    gesture: GestureEvent,
    handle: EmulationHandle,
    other: EmulationHandle,
)
    ensures
        state.step_for(Event::Gesture(gesture), handle) == state.step_for(
            Event::Gesture(gesture),
            other,
        ),
{
}

/// Only gestures reach the touchpad, and only the other events reach the mouse.
pub proof fn law_device_follows_event(
    state: EmulationState,
    event: Event,
    handle: EmulationHandle,
)
    ensures
        state.step_for(event, handle) matches StepView::Emit { plan } ==> (plan.device
            == Device::Touchpad <==> event is Gesture),
{
}

/// Only the start of a swipe changes the state before anything is emitted, and it keeps scales.
pub proof fn law_consume_keeps_scales(
    state: EmulationState,
    event: Event,
    handle: EmulationHandle,
)
    ensures
        state.consumed(event).scale_of(handle) == state.scale_of(handle),
        !(event is Gesture) ==> state.consumed(event) == state,
        state.wf() ==> state.consumed(event).wf(),
{
    lemma_touchpad_constants();
}

/// Without a swipe in progress an update is ignored, so also right after a swipe has ended.
pub proof fn law_update_without_swipe_is_ignored(
    state: EmulationState,
    handle: EmulationHandle,
    time: u32,
    dx: Double,
    dy: Double,
)
    ensures
        ({
            let update = Event::Gesture(GestureEvent::SwipeUpdate { time, dx, dy });
            let over = EmulationState { gesture: state.gesture.ended(), ..state };
            &&& state.consumed(update) == state
            &&& !state.gesture.active ==> state.step_for(update, handle) == (StepView::Emit {
                plan: empty_plan(Device::Touchpad),
            })
            &&& over.step_for(update, handle) == (StepView::Emit {
                plan: empty_plan(Device::Touchpad),
            })
        }),
{
}

/// A swipe that could not be ended because the device refused a batch is still in progress, and
/// ending it again gives the same plan; once everything was emitted it is over.
pub proof fn law_end_can_be_repeated(
    state: EmulationState,
    handle: EmulationHandle,
    time: u32,
    cancelled: bool,
    emitted: int,
)
    requires
        state.wf(),
    ensures
        ({
            let end = Event::Gesture(GestureEvent::SwipeEnd { time, cancelled });
            let plan = state.step_for(end, handle)->plan;
            let next = state.consumed(end).finished(plan, emitted);
            &&& emitted < plan.batches.len() ==> next == state && next.step_for(end, handle)
                == state.step_for(end, handle)
            &&& emitted == plan.batches.len() ==> next.gesture == state.gesture.ended()
            &&& next.wf()
        }),
{
}

/// However a swipe was left, the next one starts with its fingers in the centre.
pub proof fn law_begin_centers_fingers(swipe: SwipeState, fingers: u8, finger: int)
    requires
        swipe.wf(),
        0 <= finger < contacts(fingers),
    ensures
        swipe.begun(fingers).positions[finger] == Position::center_spec(),
        swipe.begun(fingers).active,
        swipe.begun(fingers).wf(),
{
    lemma_touchpad_constants();
}

/// Once a plan has been emitted as far as the device takes it, the swipe is over exactly where the
/// plan is to end it and every batch was taken. Otherwise the state is as it was.
pub proof fn law_refusal_keeps_swipe(state: EmulationState, plan: PlanView, replies: Seq<bool>)
    requires
        plan.batches.len() <= usize::MAX,
        plan.batches.len() <= replies.len(),
    ensures
        ({
            let emission = emission_after(plan, replies);
            let all_taken = forall|i: int| 0 <= i < plan.batches.len() ==> replies[i];
            &&& !emission.wants(plan)
            &&& emission.emitted == plan.batches.len() <==> all_taken
            &&& state.finished(plan, emission.emitted as int) == if plan.ends_swipe && all_taken {
                EmulationState { gesture: state.gesture.ended(), ..state }
            } else {
                state
            }
        }),
{
    law_emission_stops_at_refusal(plan, replies);
}

/// Whether the fingers of a swipe are all in the same place.
pub open spec fn fingers_together(swipe: SwipeState) -> bool {
    forall|i: int, j: int|
        0 <= i < swipe.fingers && 0 <= j < swipe.fingers ==> swipe.positions[i]
            == swipe.positions[j]
}

/// The fingers of a swipe start together, and stay together where each is moved by a rule that
/// depends only on where it is.
pub proof fn law_fingers_stay_together(
    swipe: SwipeState,
    fingers: u8,
    rule: spec_fn(Position) -> Position,
)
    requires
        swipe.wf(),
    ensures
        fingers_together(swipe.begun(fingers)),
        fingers_together(swipe) ==> fingers_together(
            swipe.moved(swipe.positions.take(swipe.fingers).map_values(rule)),
        ),
{
}

/// A place on the pad is taken over unchanged, and restricting a place twice is restricting it
/// once.
pub proof fn law_places_on_pad_are_kept(place: Position)
    ensures
        place.is_on_pad() ==> place.on_pad() == place,
        place.on_pad().on_pad() == place.on_pad(),
{
    lemma_touchpad_constants();
    lemma_on_pad(place);
}

/// What the mouse has been told so far: how far the pointer and the wheels have moved, and which
/// keys and buttons are down.
#[verifier::ext_equal]
pub struct MouseState {
    pub x: int,
    pub y: int,
    /// The vertical wheel, in detents and in high-resolution units.
    pub vertical: int,
    pub vertical_units: int,
    /// The horizontal wheel, in detents and in high-resolution units.
    pub horizontal: int,
    pub horizontal_units: int,
    pub held: Set<u16>,
}

impl MouseState {
    /// The effect of one event.
    pub open spec fn after_event(self, event: InputEvent) -> MouseState {
        if event.kind == EV_KEY {
            if event.value == 0 {
                MouseState { held: self.held.remove(event.code), ..self }
            } else {
                MouseState { held: self.held.insert(event.code), ..self }
            }
        } else if event.kind != EV_REL {
            self
        } else if event.code == REL_X {
            MouseState { x: self.x + event.value, ..self }
        } else if event.code == REL_Y {
            MouseState { y: self.y + event.value, ..self }
        } else if event.code == REL_WHEEL {
            MouseState { vertical: self.vertical + event.value, ..self }
        } else if event.code == REL_WHEEL_HI_RES {
            MouseState { vertical_units: self.vertical_units + event.value, ..self }
        } else if event.code == REL_HWHEEL {
            MouseState { horizontal: self.horizontal + event.value, ..self }
        } else if event.code == REL_HWHEEL_HI_RES {
            MouseState { horizontal_units: self.horizontal_units + event.value, ..self }
        } else {
            self
        }
    }

    /// The effect of events, in order.
    pub open spec fn after_batch(self, batch: Seq<InputEvent>) -> MouseState
        decreases batch.len(),
    {
        if batch.len() == 0 {
            self
        } else {
            self.after_batch(batch.drop_last()).after_event(batch.last())
        }
    }

    /// The effect of a plan, if it is one for the mouse.
    pub open spec fn after(self, plan: PlanView) -> MouseState
        decreases plan.batches.len(),
    {
        if plan.device != Device::Mouse || plan.batches.len() == 0 {
            self
        } else {
            self.after(PlanView { batches: plan.batches.drop_last(), ..plan }).after_batch(
                plan.batches.last(),
            )
        }
    }
}

/// Whether the plan is to emit one batch to the mouse, of `count` events.
pub open spec fn is_one_batch(plan: PlanView, count: nat) -> bool {
    &&& plan.device == Device::Mouse
    &&& !plan.ends_swipe
    &&& plan.batches.len() == 1
    &&& plan.batches[0].len() == count
}

/// The effect of one batch of one or two events.
proof fn lemma_one_batch(mouse: MouseState, plan: PlanView)
    ensures
        is_one_batch(plan, 1) ==> mouse.after(plan) == mouse.after_event(plan.batches[0][0]),
        is_one_batch(plan, 2) ==> mouse.after(plan) == mouse.after_event(
            plan.batches[0][0],
        ).after_event(plan.batches[0][1]),
{
    reveal_with_fuel(MouseState::after, 2);
    reveal_with_fuel(MouseState::after_batch, 3);
    if is_one_batch(plan, 1) || is_one_batch(plan, 2) {
        assert(plan.batches.last() == plan.batches[0]);
    }
}

/// Motion moves the pointer by the rounded deltas, left and up as well as right and down, and does
/// nothing else: one event per direction, first the horizontal one.
pub proof fn law_motion_moves_pointer(mouse: MouseState, dx: Double, dy: Double)
    ensures
        ({
            let plan = mouse_plan(motion_batch(dx.rounded(), dy.rounded()));
            let next = mouse.after(plan);
            &&& is_one_batch(plan, 2)
            &&& plan.batches[0][0].kind == EV_REL && plan.batches[0][0].code == REL_X
            &&& plan.batches[0][1].kind == EV_REL && plan.batches[0][1].code == REL_Y
            &&& dx.rounds_to(plan.batches[0][0].value as int)
            &&& dy.rounds_to(plan.batches[0][1].value as int)
            &&& dx.rounds_to(next.x - mouse.x)
            &&& dy.rounds_to(next.y - mouse.y)
            &&& next == (MouseState { x: next.x, y: next.y, ..mouse })
        }),
{
    law_rounding(dx);
    law_rounding(dy);
    lemma_one_batch(mouse, mouse_plan(motion_batch(dx.rounded(), dy.rounded())));
}

/// Motion there and back leaves the pointer where it was, as long as no delta is beyond the range
/// of `i32`.
pub proof fn law_opposite_motions_cancel(
    mouse: MouseState,
    dx: Double,
    dy: Double,
    back_x: Double,
    back_y: Double,
)
    requires
        !dx.is_nan(),
        !dy.is_nan(),
        !back_x.is_nan(),
        !back_y.is_nan(),
        dx.units() == -back_x.units(),
        dy.units() == -back_y.units(),
        -i32::MAX <= round_half_away(dx.units()) <= i32::MAX,
        -i32::MAX <= round_half_away(dy.units()) <= i32::MAX,
    ensures
        mouse.after(mouse_plan(motion_batch(dx.rounded(), dy.rounded()))).after(
            mouse_plan(motion_batch(back_x.rounded(), back_y.rounded())),
        ) == mouse,
{
    law_opposite_values_round_to_opposites(dx, back_x);
    law_opposite_values_round_to_opposites(dy, back_y);
    let there = mouse_plan(motion_batch(dx.rounded(), dy.rounded()));
    lemma_one_batch(mouse, there);
    lemma_one_batch(
        mouse.after(there),
        mouse_plan(motion_batch(back_x.rounded(), back_y.rounded())),
    );
}

/// Motion deltas are taken as they come, to be scaled by what the connection was last given, or by
/// the default.
pub proof fn law_motion_keeps_deltas(
    state: EmulationState,
    handle: EmulationHandle,
    time: u32,
    dx: Double,
    dy: Double,
)
    ensures
        ({
            &&& state.step_for(Event::Pointer(PointerEvent::Motion { time, dx, dy }), handle)
                matches StepView::ScaleMotion { dx: x, dy: y, scale }
            &&& x == dx
            &&& y == dy
            &&& state.per_handle_scales.dom().contains(handle) ==> scale
                == state.per_handle_scales[handle]
            &&& !state.per_handle_scales.dom().contains(handle) ==> scale
                == state.pointer_motion_scale
        }),
{
}

/// The state after connections have been given scales, or lost them, one after the other.
pub open spec fn state_after_scales(
    state: EmulationState,
    given: Seq<(EmulationHandle, Option<Double>)>,
) -> EmulationState
    decreases given.len(),
{
    if given.len() == 0 {
        state
    } else {
        state_after_scales(state, given.drop_last()).with_scale(given.last().0, given.last().1)
    }
}

/// However many scales were given and taken back, the motion of a connection is scaled by the last
/// one it was given, if that was not taken back, and by the configured one if it was, or if it was
/// never given one.
pub proof fn law_last_scale_counts(
    configured: Double,
    given: Seq<(EmulationHandle, Option<Double>)>,
    last: int,
    handle: EmulationHandle,
    time: u32,
    dx: Double,
    dy: Double,
)
    requires
        -1 <= last < given.len(),
        last >= 0 ==> given[last].0 == handle,
        forall|i: int| last < i < given.len() ==> given[i].0 != handle,
    ensures
        ({
            let state = state_after_scales(EmulationState::initial(configured), given);
            let scale = if last >= 0 && given[last].1 is Some {
                given[last].1->0
            } else {
                configured
            };
            &&& state.scale_of(handle) == scale
            &&& state.pointer_motion_scale == configured
            &&& state.gesture == EmulationState::initial(configured).gesture
            &&& state.step_for(Event::Pointer(PointerEvent::Motion { time, dx, dy }), handle) == (
            StepView::ScaleMotion { dx, dy, scale })
        }),
    decreases given.len(),
{
    if given.len() > 0 {
        let earlier = given.drop_last();
        if last == given.len() - 1 {
            lemma_scales_keep_the_rest(EmulationState::initial(configured), earlier);
        } else {
            assert(last >= 0 ==> earlier[last] == given[last]);
            assert forall|i: int| last < i < earlier.len() implies earlier[i].0 != handle by {
                assert(earlier[i] == given[i]);
            }
            law_last_scale_counts(configured, earlier, last, handle, time, dx, dy);
        }
    }
}

/// Giving scales changes nothing but the scales of connections.
proof fn lemma_scales_keep_the_rest(
    state: EmulationState,
    given: Seq<(EmulationHandle, Option<Double>)>,
)
    ensures
        state_after_scales(state, given).pointer_motion_scale == state.pointer_motion_scale,
        state_after_scales(state, given).gesture == state.gesture,
    decreases given.len(),
{
    if given.len() > 0 {
        lemma_scales_keep_the_rest(state, given.drop_last());
    }
}

/// Whether the plan is to turn one wheel, by `units` in high resolution and then by `detents`: the
/// vertical one for axis 0, the horizontal one for every other axis.
pub open spec fn turns_wheel(plan: PlanView, axis: u8, units: int, detents: int) -> bool {
    let fine = plan.batches[0][0];
    let coarse = plan.batches[0][1];
    &&& is_one_batch(plan, 2)
    &&& fine.kind == EV_REL && fine.value == units
    &&& coarse.kind == EV_REL && coarse.value == detents
    &&& axis == 0 ==> fine.code == REL_WHEEL_HI_RES && coarse.code == REL_WHEEL
    &&& axis != 0 ==> fine.code == REL_HWHEEL_HI_RES && coarse.code == REL_HWHEEL
}

/// Such a plan turns that wheel by that much and does nothing else.
pub proof fn law_wheel_turns(
    mouse: MouseState,
    plan: PlanView,
    axis: u8,
    units: int,
    detents: int,
)
    requires
        turns_wheel(plan, axis, units, detents),
    ensures
        axis == 0 ==> mouse.after(plan) == (MouseState {
            vertical: mouse.vertical + detents,
            vertical_units: mouse.vertical_units + units,
            ..mouse
        }),
        axis != 0 ==> mouse.after(plan) == (MouseState {
            horizontal: mouse.horizontal + detents,
            horizontal_units: mouse.horizontal_units + units,
            ..mouse
        }),
{
    lemma_one_batch(mouse, plan);
}

/// Scrolling by detents turns the wheel of the event's axis by that many detents, 120 units each.
pub proof fn law_discrete_scrolling(
    state: EmulationState,
    handle: EmulationHandle,
    axis: u8,
    value: i32,
)
    requires
        i32::MIN <= value * 120 <= i32::MAX,
    ensures
        ({
            let event = Event::Pointer(PointerEvent::AxisDiscrete120 { axis, value });
            &&& event.in_range()
            &&& state.step_for(event, handle) matches StepView::Emit { plan }
            &&& turns_wheel(plan, axis, value * 120, value as int)
        }),
{
}

/// Continuous scrolling takes axis and value as they come, to be multiplied by three.
pub proof fn law_scrolling_keeps_axis_and_value(
    state: EmulationState,
    handle: EmulationHandle,
    time: u32,
    axis: u8,
    value: Double,
)
    ensures
        ({
            &&& state.step_for(Event::Pointer(PointerEvent::Axis { time, axis, value }), handle)
                matches StepView::ScaleWheel { axis: a, value: v, factor }
            &&& a == axis
            &&& v == value
            &&& !factor.is_nan()
            &&& factor.units() == 3 * one()
        }),
{
    lemma_scale_constants();
}

/// The product turns the wheel of the axis by the nearest number of units, and by the number of
/// detents nearest to that, of two the further from zero.
pub proof fn law_scrolling_turns_wheel(axis: u8, amount: Double)
    requires
        i32::MIN + 60 <= amount.rounded() <= i32::MAX - 60,
    ensures
        wheel_in_range(amount.rounded()),
        ({
            let plan = mouse_plan(
                wheel_batch(
                    axis,
                    amount.rounded(),
                    nearest_detents(amount.rounded() as int) as i32,
                ),
            );
            let units = plan.batches[0][0].value as int;
            let detents = plan.batches[0][1].value as int;
            &&& turns_wheel(plan, axis, units, detents)
            &&& amount.rounds_to(units)
            &&& -60 <= detents * 120 - units <= 60
            &&& detents * 120 - units == 60 ==> units > 0
            &&& detents * 120 - units == -60 ==> units < 0
        }),
{
    law_rounding(amount);
}

/// Whether the plan is to report `value` for the key or button whose code is the low word of
/// `number`.
pub open spec fn reports_key(plan: PlanView, number: u32, value: int) -> bool {
    let event = plan.batches[0][0];
    &&& is_one_batch(plan, 1)
    &&& event.kind == EV_KEY
    &&& (number - event.code) % 0x1_0000 == 0
    &&& event.value == value
}

/// A key event reports the state that it holds for its key, whatever the state.
pub proof fn law_keys_are_reported(
    state: EmulationState,
    handle: EmulationHandle,
    time: u32,
    number: u32,
    key_state: u8,
)
    ensures
        ({
            let event = Event::Keyboard(KeyboardEvent::Key { time, key: number, state: key_state });
            &&& state.step_for(event, handle) matches StepView::Emit { plan }
            &&& reports_key(plan, number, key_state as int)
        }),
{
}

/// A button event reports the state that it holds for its button, read as a signed number.
pub proof fn law_buttons_are_reported(
    state: EmulationState,
    handle: EmulationHandle,
    time: u32,
    number: u32,
    button_state: u32,
)
    ensures
        ({
            let event = Event::Pointer(
                PointerEvent::Button { time, button: number, state: button_state },
            );
            &&& state.step_for(event, handle) matches StepView::Emit { plan }
            &&& reports_key(plan, number, plan.batches[0][0].value as int)
            &&& (button_state - plan.batches[0][0].value) % 0x1_0000_0000 == 0
        }),
{
}

/// A key or button that is pressed is down, and up again once it is released; no other one changes.
pub proof fn law_release_undoes_press(
    mouse: MouseState,
    state: EmulationState,
    later: EmulationState,
    handle: EmulationHandle,
    time: u32,
    later_time: u32,
    number: u32,
)
    requires
        number < 0x1_0000,
    ensures
        ({
            let code = number as u16;
            let press = Event::Keyboard(KeyboardEvent::Key { time, key: number, state: 1 });
            let release = Event::Keyboard(
                KeyboardEvent::Key { time: later_time, key: number, state: 0 },
            );
            let pressed = mouse.after(state.step_for(press, handle)->plan);
            let released = pressed.after(later.step_for(release, handle)->plan);
            &&& pressed == (MouseState { held: mouse.held.insert(code), ..mouse })
            &&& released == (MouseState { held: mouse.held.remove(code), ..mouse })
        }),
        ({
            let code = number as u16;
            let press = Event::Pointer(PointerEvent::Button { time, button: number, state: 1 });
            let release = Event::Pointer(
                PointerEvent::Button { time: later_time, button: number, state: 0 },
            );
            let pressed = mouse.after(state.step_for(press, handle)->plan);
            let released = pressed.after(later.step_for(release, handle)->plan);
            &&& pressed == (MouseState { held: mouse.held.insert(code), ..mouse })
            &&& released == (MouseState { held: mouse.held.remove(code), ..mouse })
        }),
{
    let key_press = Event::Keyboard(KeyboardEvent::Key { time, key: number, state: 1 });
    let key_release = Event::Keyboard(
        KeyboardEvent::Key { time: later_time, key: number, state: 0 },
    );
    let button_press = Event::Pointer(PointerEvent::Button { time, button: number, state: 1 });
    let button_release = Event::Pointer(
        PointerEvent::Button { time: later_time, button: number, state: 0 },
    );
    let pressed = mouse.after(state.step_for(key_press, handle)->plan);
    lemma_one_batch(mouse, state.step_for(key_press, handle)->plan);
    lemma_one_batch(pressed, later.step_for(key_release, handle)->plan);
    let clicked = mouse.after(state.step_for(button_press, handle)->plan);
    lemma_one_batch(mouse, state.step_for(button_press, handle)->plan);
    lemma_one_batch(clicked, later.step_for(button_release, handle)->plan);
    assert(mouse.held.insert(number as u16).remove(number as u16) =~= mouse.held.remove(
        number as u16,
    ));
}

/// Modifier states are ignored.
pub proof fn law_modifiers_are_ignored(
    state: EmulationState,
    handle: EmulationHandle,
    modifiers: KeyboardEvent,
)
    requires
        modifiers is Modifiers,
    ensures
        ({
            &&& state.step_for(Event::Keyboard(modifiers), handle) matches StepView::Emit { plan }
            &&& plan.batches.len() == 0
            &&& !plan.ends_swipe
        }),
{
}

/// Which events are in range: all but detents of which 120 times as many units do not fit.
pub proof fn law_events_in_range(event: Event, units: i32)
    ensures
        !(event matches Event::Pointer(PointerEvent::AxisDiscrete120 { .. })) ==> event.in_range(),
        event matches Event::Pointer(PointerEvent::AxisDiscrete120 { value, .. }) ==> (
        event.in_range() <==> -17895697 <= value <= 17895697),
        wheel_in_range(units) <==> -2147483588 <= units <= 2147483587,
{
}

/// Only the start of a swipe changes anything before something is emitted: the swipe, with at most
/// five fingers, all of them in the middle of the pad. Other fingers and all scales stay.
pub proof fn law_only_begin_changes_state(state: EmulationState, event: Event, finger: int)
    requires
        state.wf(),
        0 <= finger < 5,
    ensures
        ({
            let next = state.consumed(event);
            let place = next.gesture.positions[finger];
            &&& next.pointer_motion_scale == state.pointer_motion_scale
            &&& next.per_handle_scales == state.per_handle_scales
            &&& !(event matches Event::Gesture(GestureEvent::SwipeBegin { .. })) ==> next == state
            &&& event matches Event::Gesture(GestureEvent::SwipeBegin { fingers, .. }) ==> {
                &&& next.gesture.active
                &&& next.gesture.fingers == if fingers <= 5 {
                    fingers as int
                } else {
                    5
                }
                &&& next.gesture.positions.len() == 5
                &&& finger < fingers ==> place.x.denotes(500) && place.y.denotes(300)
                &&& finger >= fingers ==> place == state.gesture.positions[finger]
            }
        }),
{
    lemma_touchpad_constants();
}

/// A plan that was emitted in full ends the swipe if it is to end it, which leaves the fingers
/// where they are; in every other case nothing changes.
pub proof fn law_finishing(state: EmulationState, plan: PlanView, emitted: int)
    ensures
        ({
            let next = state.finished(plan, emitted);
            let over = plan.ends_swipe && emitted == plan.batches.len();
            &&& next.pointer_motion_scale == state.pointer_motion_scale
            &&& next.per_handle_scales == state.per_handle_scales
            &&& next.gesture.positions == state.gesture.positions
            &&& over ==> !next.gesture.active && next.gesture.fingers == 0
            &&& !over ==> next == state
        }),
{
}

/// Before the first event there is no swipe, and every connection has the configured scale.
pub proof fn law_initial_state(configured: Double, handle: EmulationHandle)
    ensures
        ({
            let state = EmulationState::initial(configured);
            &&& !state.gesture.active && state.gesture.fingers == 0
            &&& state.scale_of(handle) == configured
            &&& state.wf()
        }),
{
    lemma_touchpad_constants();
}

/// Only the end of a swipe comes with a plan that ends it, and only motion, continuous scrolling
/// and an update of a swipe in progress need arithmetic first.
pub proof fn law_kind_of_step(state: EmulationState, event: Event, handle: EmulationHandle)
    ensures
        state.step_for(event, handle) matches StepView::Emit { plan } ==> (plan.ends_swipe
            <==> event matches Event::Gesture(GestureEvent::SwipeEnd { .. })),
        state.step_for(event, handle) is ScaleMotion <==> event matches Event::Pointer(
            PointerEvent::Motion { .. },
        ),
        state.step_for(event, handle) is ScaleWheel <==> event matches Event::Pointer(
            PointerEvent::Axis { .. },
        ),
        state.step_for(event, handle) is MoveFingers <==> state.gesture.active
            && event matches Event::Gesture(GestureEvent::SwipeUpdate { .. }),
{
}

/// A step and a plan are seen as they are.
pub proof fn law_steps_are_seen_as_they_are(step: Step, plan: Plan, batch: int)
    requires
        0 <= batch < plan.batches@.len(),
    ensures
        step matches Step::ScaleMotion { dx, dy, scale } ==> step@ == (StepView::ScaleMotion {
            dx,
            dy,
            scale,
        }),
        step matches Step::ScaleWheel { axis, value, factor } ==> step@ == (StepView::ScaleWheel {
            axis,
            value,
            factor,
        }),
        step matches Step::MoveFingers { places, dx, dy } ==> step@ == (StepView::MoveFingers {
            places: places@,
            dx,
            dy,
        }),
        step matches Step::Emit { plan: emitted } ==> step@ == (StepView::Emit { plan: emitted@ }),
        plan@.device == plan.device,
        plan@.ends_swipe == plan.ends_swipe,
        plan@.batches.len() == plan.batches@.len(),
        plan@.batches[batch] == plan.batches@[batch]@,
{
}

} // verus!
