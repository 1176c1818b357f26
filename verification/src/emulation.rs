//! Turns remote events into what is to be written to the virtual devices.
//!
//! Handling an event takes up to three calls. `consume` looks at the event and says what to do
//! next. Where that is arithmetic on doubles, the caller does it and hands the results to
//! `motion_scaled`, `wheel_scaled` or `fingers_moved`. The plan that comes out is then emitted,
//! and `finish` is told how far that went.

use std::collections::HashMap;

use vstd::prelude::*;

use crate::codes::{
    REL_HWHEEL, REL_HWHEEL_HI_RES, REL_WHEEL, REL_WHEEL_HI_RES, REL_X, REL_Y,
};
use crate::double::{lemma_denotes, one, Double};
use crate::event::{Event, GestureEvent, KeyboardEvent, PointerEvent, UNITS_PER_DETENT};
use crate::gesture::{begin_batches, GestureState, Position, SwipeState};
use crate::input::{key, key_event, relative, relative_axis_event, InputEvent};
use crate::plan::{batches_view, lemma_batches_push, Device, Plan, PlanView};

verus! {

/// Identifies the connection that an event comes from.
pub type EmulationHandle = u64;

/// Bit pattern of the factor by which continuous scrolling is scaled: 3.
pub const WHEEL_SENSITIVITY_BITS: u64 = 0x4008_0000_0000_0000;

/// Bit pattern of the pointer motion scale where none is configured: one half.
pub const DEFAULT_SCALE_BITS: u64 = 0x3fe0_0000_0000_0000;

/// What has to be done next for an event.
#[derive(Debug)]
pub enum Step {
    /// Multiply `dx` and `dy` by `scale`, and hand the products to `motion_scaled`.
    ScaleMotion { dx: Double, dy: Double, scale: Double },
    /// Multiply `value` by `factor`, and hand the product and `axis` to `wheel_scaled`.
    ScaleWheel { axis: u8, value: Double, factor: Double },
    /// Add `(dx, dy)` to each of `places`, and hand the sums to `fingers_moved`.
    MoveFingers { places: Vec<Position>, dx: Double, dy: Double },
    /// Emit the plan, and call `finish`.
    Emit { plan: Plan },
}

#[verifier::ext_equal]
pub enum StepView {
    ScaleMotion { dx: Double, dy: Double, scale: Double },
    ScaleWheel { axis: u8, value: Double, factor: Double },
    MoveFingers { places: Seq<Position>, dx: Double, dy: Double },
    Emit { plan: PlanView },
}

impl View for Step {
    type V = StepView;

    open spec fn view(&self) -> StepView {
        match self {
            Step::ScaleMotion { dx, dy, scale } => {
                StepView::ScaleMotion { dx: *dx, dy: *dy, scale: *scale }
            },
            Step::ScaleWheel { axis, value, factor } => {
                StepView::ScaleWheel { axis: *axis, value: *value, factor: *factor }
            },
            Step::MoveFingers { places, dx, dy } => {
                StepView::MoveFingers { places: places@, dx: *dx, dy: *dy }
            },
            Step::Emit { plan } => StepView::Emit { plan: plan@ },
        }
    }
}

/// Why an event was not played in full.
#[derive(Clone, Copy, Debug, PartialEq, Eq, Structural)]
pub enum EmulationError {
    /// The device refused the batch with this index; later ones were not tried.
    Rejected { batch: usize },
}

/// A plan for the mouse with one batch.
pub open spec fn mouse_plan(batch: Seq<InputEvent>) -> PlanView {
    PlanView { device: Device::Mouse, batches: seq![batch], ends_swipe: false }
}

/// A plan that leaves nothing to emit.
pub open spec fn empty_plan(device: Device) -> PlanView {
    PlanView { device, batches: seq![], ends_swipe: false }
}

/// The pointer moves by `(dx, dy)`.
pub open spec fn motion_batch(dx: i32, dy: i32) -> Seq<InputEvent> {
    seq![relative(REL_X, dx), relative(REL_Y, dy)]
}

/// The wheel of `axis` turns by `hi_res` units, or `legacy` detents.
pub open spec fn wheel_batch(axis: u8, hi_res: i32, legacy: i32) -> Seq<InputEvent> {
    if axis == 0 {
        seq![relative(REL_WHEEL_HI_RES, hi_res), relative(REL_WHEEL, legacy)]
    } else {
        seq![relative(REL_HWHEEL_HI_RES, hi_res), relative(REL_HWHEEL, legacy)]
    }
}

/// The number of detents nearest to `hi_res` units, halfway cases away from zero.
pub open spec fn nearest_detents(hi_res: int) -> int {
    if hi_res >= 0 {
        (hi_res + 60) / UNITS_PER_DETENT as int
    } else {
        -((60 - hi_res) / UNITS_PER_DETENT as int)
    }
}

/// Whether half a detent can be added to or taken from `hi_res` units.
pub open spec fn wheel_in_range(hi_res: i32) -> bool {
    i32::MIN <= hi_res - 60 && hi_res + 60 <= i32::MAX
}

/// The low 16 bits.
pub open spec fn low_word(code: u32) -> u16 {
    (code % 0x1_0000) as u16
}

/// The two's complement reading of a 32-bit word.
pub open spec fn as_signed(word: u32) -> i32 {
    if word <= i32::MAX {
        word as i32
    } else {
        (word - 0x1_0000_0000) as i32
    }
}

/// State of the emulation.
#[verifier::ext_equal]
pub struct EmulationState {
    pub gesture: SwipeState,
    /// Pointer motion scale of connections that have none of their own.
    pub pointer_motion_scale: Double,
    pub per_handle_scales: Map<EmulationHandle, Double>,
}

impl EmulationState {
    pub open spec fn wf(self) -> bool {
        self.gesture.wf()
    }

    /// No swipe, and every connection at the default scale.
    pub open spec fn initial(scale: Double) -> EmulationState {
        EmulationState {
            gesture: SwipeState::initial(),
            pointer_motion_scale: scale,
            per_handle_scales: Map::empty(),
        }
    }

    /// Pointer motion scale of a connection.
    pub open spec fn scale_of(self, handle: EmulationHandle) -> Double {
        if self.per_handle_scales.dom().contains(handle) {
            self.per_handle_scales[handle]
        } else {
            self.pointer_motion_scale
        }
    }

    /// A connection gets a scale of its own, or loses it.
    pub open spec fn with_scale(
        self,
        handle: EmulationHandle,
        scale: Option<Double>,
    ) -> EmulationState {
        EmulationState {
            per_handle_scales: match scale {
                Some(s) => self.per_handle_scales.insert(handle, s),
                None => self.per_handle_scales.remove(handle),
            },
            ..self
        }
    }

    /// What has to be done next for an event of a connection.
    pub open spec fn step_for(self, event: Event, handle: EmulationHandle) -> StepView {
        match event {
            Event::Pointer(PointerEvent::Motion { dx, dy, .. }) => {
                StepView::ScaleMotion { dx, dy, scale: self.scale_of(handle) }
            },
            Event::Pointer(PointerEvent::Button { button, state, .. }) => StepView::Emit {
                plan: mouse_plan(seq![key(low_word(button), as_signed(state))]),
            },
            Event::Pointer(PointerEvent::Axis { axis, value, .. }) => StepView::ScaleWheel {
                axis,
                value,
                factor: Double { bits: WHEEL_SENSITIVITY_BITS },
            },
            Event::Pointer(PointerEvent::AxisDiscrete120 { axis, value }) => StepView::Emit {
                plan: mouse_plan(wheel_batch(axis, (value * UNITS_PER_DETENT) as i32, value)),
            },
            Event::Keyboard(KeyboardEvent::Key { key: code, state, .. }) => StepView::Emit {
                plan: mouse_plan(seq![key(low_word(code), state as i32)]),
            },
            Event::Keyboard(KeyboardEvent::Modifiers { .. }) => StepView::Emit {
                plan: empty_plan(Device::Mouse),
            },
            Event::Gesture(gesture) => self.gesture_step(gesture),
        }
    }

    /// What has to be done next for a gesture event.
    pub open spec fn gesture_step(self, gesture: GestureEvent) -> StepView {
        match gesture {
            GestureEvent::SwipeBegin { fingers, .. } => StepView::Emit {
                plan: PlanView {
                    device: Device::Touchpad,
                    batches: begin_batches(fingers),
                    ends_swipe: false,
                },
            },
            GestureEvent::SwipeUpdate { dx, dy, .. } => {
                if self.gesture.active {
                    StepView::MoveFingers {
                        places: self.gesture.positions.take(self.gesture.fingers),
                        dx,
                        dy,
                    }
                } else {
                    StepView::Emit { plan: empty_plan(Device::Touchpad) }
                }
            },
            GestureEvent::SwipeEnd { .. } => StepView::Emit {
                plan: PlanView {
                    device: Device::Touchpad,
                    batches: self.gesture.end_batches(),
                    ends_swipe: true,
                },
            },
        }
    }

    /// State once `consume` has looked at an event: the start of a swipe counts from then on,
    /// whatever becomes of its plan.
    pub open spec fn consumed(self, event: Event) -> EmulationState {
        match event {
            Event::Gesture(GestureEvent::SwipeBegin { fingers, .. }) => EmulationState {
                gesture: self.gesture.begun(fingers),
                ..self
            },
            _ => self,
        }
    }

    /// State once `emitted` batches of a plan have been emitted and no more will be: a swipe is
    /// over only if all that ends it was emitted.
    pub open spec fn finished(self, plan: PlanView, emitted: int) -> EmulationState {
        if plan.ends_swipe && emitted == plan.batches.len() {
            EmulationState { gesture: self.gesture.ended(), ..self }
        } else {
            self
        }
    }
}

/// The default pointer scale is one half, and continuous scrolling is scaled by three.
pub proof fn lemma_scale_constants()
    ensures
        !(Double { bits: DEFAULT_SCALE_BITS }).is_nan(),
        2 * (Double { bits: DEFAULT_SCALE_BITS }).units() == one(),
        (Double { bits: WHEEL_SENSITIVITY_BITS }).denotes(3),
{
    vstd::arithmetic::power2::lemma2_to64();
    vstd::arithmetic::power2::lemma2_to64_rest();
    lemma_denotes(WHEEL_SENSITIVITY_BITS, 3);
    vstd::arithmetic::power2::lemma_pow2_adds(52, 1021);
    vstd::arithmetic::power2::lemma_pow2_adds(1, 1073);
}

/// The pointer motion scale to use: the configured one, or one half.
///
/// `configured` is the number in the configuration, if there is one and it could be read.
pub fn get_pointer_motion_scale(configured: Option<Double>) -> (scale: Double)
    ensures
        scale == match configured {
            Some(s) => s,
            None => Double { bits: DEFAULT_SCALE_BITS },
        },
{
    match configured {
        Some(scale) => scale,
        None => Double { bits: DEFAULT_SCALE_BITS },
    }
}

/// A plan for the mouse with one batch.
fn plan_for_mouse(batch: Vec<InputEvent>) -> (plan: Plan)
    ensures
        plan@ == mouse_plan(batch@),
{
    let mut batches: Vec<Vec<InputEvent>> = Vec::new();
    proof {
        lemma_batches_push(batches@, batch);
        assert(batches_view(batches@) =~= seq![]);
    }
    batches.push(batch);
    let plan = Plan { device: Device::Mouse, batches, ends_swipe: false };
    assert(plan@.batches =~= mouse_plan(batch@).batches);
    plan
}

/// A plan that leaves nothing to emit.
fn plan_for_nothing(device: Device) -> (plan: Plan)
    ensures
        plan@ == empty_plan(device),
{
    let plan = Plan { device, batches: Vec::new(), ends_swipe: false };
    assert(plan@.batches =~= empty_plan(device).batches);
    plan
}

/// The events of a wheel.
fn wheel_events(axis: u8, hi_res: i32, legacy: i32) -> (batch: Vec<InputEvent>)
    ensures
        batch@ == wheel_batch(axis, hi_res, legacy),
{
    let (axis_hi_res, axis_legacy): (u16, u16) = match axis {
        0 => (REL_WHEEL_HI_RES, REL_WHEEL),
        _ => (REL_HWHEEL_HI_RES, REL_HWHEEL),
    };
    let batch = vec![
        relative_axis_event(axis_hi_res, hi_res),
        relative_axis_event(axis_legacy, legacy),
    ];
    assert(batch@ =~= wheel_batch(axis, hi_res, legacy));
    batch
}

/// The number of detents nearest to `hi_res` units, halfway cases away from zero.
fn legacy_detents(hi_res: i32) -> (legacy: i32)
    requires
        wheel_in_range(hi_res),
    ensures
        legacy == nearest_detents(hi_res as int),
{
    if hi_res >= 0 {
        (hi_res + 60) / UNITS_PER_DETENT
    } else {
        let below: i64 = 60 - hi_res as i64;
        -((below / UNITS_PER_DETENT as i64) as i32)
    }
}

/// The low 16 bits of a key or button number.
fn key_code(number: u32) -> (code: u16)
    ensures
        code == low_word(number),
{
    (number % 0x1_0000) as u16
}

/// The value of a button event with the given state.
fn button_value(state: u32) -> (value: i32)
    ensures
        value == as_signed(state),
{
    if state <= 0x7fff_ffff {
        state as i32
    } else {
        (state as i64 - 0x1_0000_0000) as i32
    }
}

/// Emulates the input devices of a peer on two virtual devices.
#[derive(Debug)]
pub struct EvdevEmulation {
    gesture_state: GestureState,
    pointer_motion_scale: Double,
    per_handle_scales: HashMap<EmulationHandle, Double>,
}

impl View for EvdevEmulation {
    type V = EmulationState;

    closed spec fn view(&self) -> EmulationState {
        EmulationState {
            gesture: self.gesture_state@,
            pointer_motion_scale: self.pointer_motion_scale,
            per_handle_scales: self.per_handle_scales@,
        }
    }
}

impl EvdevEmulation {
    /// Starts with no swipe and no per-connection scales.
    ///
    /// `configured` is the number in the configuration, if there is one and it could be read.
    pub fn new(configured: Option<Double>) -> (emulation: EvdevEmulation)
        ensures
            emulation@.wf(),
            emulation@ == EmulationState::initial(
                match configured {
                    Some(s) => s,
                    None => Double { bits: DEFAULT_SCALE_BITS },
                },
            ),
    {
        EvdevEmulation {
            gesture_state: GestureState::new(),
            pointer_motion_scale: get_pointer_motion_scale(configured),
            per_handle_scales: HashMap::new(),
        }
    }

    /// Gives a connection a pointer motion scale of its own, or with `None` puts it back to the
    /// default.
    pub fn set_pointer_motion_scale(&mut self, handle: EmulationHandle, scale: Option<Double>)
        ensures
            final(self)@ == old(self)@.with_scale(handle, scale),
    {
        broadcast use vstd::std_specs::hash::group_hash_axioms;

        if let Some(scale) = scale {
            self.per_handle_scales.insert(handle, scale);
        } else {
            self.per_handle_scales.remove(&handle);
        }
    }

    /// Pointer motion scale of a connection: its own, or else the default.
    pub fn scale_of(&self, handle: EmulationHandle) -> (scale: Double)
        ensures
            scale == self@.scale_of(handle),
    {
        broadcast use vstd::std_specs::hash::group_hash_axioms;

        match self.per_handle_scales.get(&handle) {
            Some(scale) => *scale,
            None => self.pointer_motion_scale,
        }
    }

    /// A connection appears. Nothing is kept for it until it gets a scale.
    pub fn create(&mut self, handle: EmulationHandle)
        ensures
            final(self)@ == old(self)@,
    {
    }

    /// A connection disappears. Its scale is kept.
    pub fn destroy(&mut self, handle: EmulationHandle)
        ensures
            final(self)@ == old(self)@,
    {
    }

    /// The emulation is about to be dropped.
    pub fn terminate(&mut self)
        ensures
            final(self)@ == old(self)@,
    {
    }

    /// Looks at an event of a connection and says what has to be done next.
    pub fn consume(&mut self, event: Event, handle: EmulationHandle) -> (step: Step)
        requires
            event.in_range(),
        ensures
            step@ == old(self)@.step_for(event, handle),
            event matches Event::Pointer(PointerEvent::Motion { dx, dy, .. }) ==> step == (
            Step::ScaleMotion { dx, dy, scale: old(self)@.scale_of(handle) }),
            event matches Event::Pointer(PointerEvent::Axis { axis, value, .. }) ==> {
                &&& step matches Step::ScaleWheel { axis: a, value: v, factor }
                &&& a == axis && v == value && factor.denotes(3)
            },
            event matches Event::Gesture(GestureEvent::SwipeUpdate { dx, dy, .. }) ==> {
                &&& step is MoveFingers <==> old(self)@.gesture.active
                &&& step matches Step::MoveFingers { dx: x, dy: y, .. } ==> x == dx && y == dy
            },
            final(self)@ == old(self)@.consumed(event),
            final(self)@.wf(),
    {
        proof {
            use_type_invariant(&self.gesture_state);
            lemma_scale_constants();
        }
        match event {
            Event::Pointer(pointer) => match pointer {
                PointerEvent::Motion { time: _, dx, dy } => {
                    Step::ScaleMotion { dx, dy, scale: self.scale_of(handle) }
                },
                PointerEvent::Button { time: _, button, state } => {
                    let batch = vec![key_event(key_code(button), button_value(state))];
                    assert(batch@ =~= seq![key(low_word(button), as_signed(state))]);
                    Step::Emit { plan: plan_for_mouse(batch) }
                },
                PointerEvent::Axis { time: _, axis, value } => Step::ScaleWheel {
                    axis,
                    value,
                    factor: Double { bits: WHEEL_SENSITIVITY_BITS },
                },
                PointerEvent::AxisDiscrete120 { axis, value } => {
                    let hi_res: i32 = value * UNITS_PER_DETENT;
                    Step::Emit { plan: plan_for_mouse(wheel_events(axis, hi_res, value)) }
                },
            },
            Event::Keyboard(keyboard) => match keyboard {
                KeyboardEvent::Key { time: _, key: code, state } => {
                    let batch = vec![key_event(key_code(code), state as i32)];
                    assert(batch@ =~= seq![key(low_word(code), state as i32)]);
                    Step::Emit { plan: plan_for_mouse(batch) }
                },
                KeyboardEvent::Modifiers { .. } => {
                    Step::Emit { plan: plan_for_nothing(Device::Mouse) }
                },
            },
            Event::Gesture(gesture) => self.handle_gesture(gesture),
        }
    }

    /// Looks at a gesture event and says what has to be done next.
    fn handle_gesture(&mut self, gesture: GestureEvent) -> (step: Step)
        ensures
            step@ == old(self)@.gesture_step(gesture),
            gesture matches GestureEvent::SwipeUpdate { dx, dy, .. } ==> {
                &&& step is MoveFingers <==> old(self)@.gesture.active
                &&& step matches Step::MoveFingers { dx: x, dy: y, .. } ==> x == dx && y == dy
            },
            final(self)@ == old(self)@.consumed(Event::Gesture(gesture)),
            final(self)@.wf(),
    {
        match gesture {
            GestureEvent::SwipeBegin { time: _, fingers } => {
                let batches = self.gesture_state.swipe_begin(fingers);
                Step::Emit { plan: Plan { device: Device::Touchpad, batches, ends_swipe: false } }
            },
            GestureEvent::SwipeUpdate { time: _, dx, dy } => {
                match self.gesture_state.swipe_update() {
                    Some(places) => Step::MoveFingers { places, dx, dy },
                    None => Step::Emit { plan: plan_for_nothing(Device::Touchpad) },
                }
            },
            GestureEvent::SwipeEnd { time: _, cancelled } => {
                let batches = self.gesture_state.swipe_end(cancelled);
                Step::Emit { plan: Plan { device: Device::Touchpad, batches, ends_swipe: true } }
            },
        }
    }

    /// The plan for a pointer motion whose scaled deltas are `dx` and `dy`.
    pub fn motion_scaled(&self, dx: Double, dy: Double) -> (plan: Plan)
        ensures
            plan@ == mouse_plan(motion_batch(dx.rounded(), dy.rounded())),
            plan@.batches.len() == 1,
            plan@.batches[0].len() == 2,
            plan@.batches[0][0].code == REL_X,
            plan@.batches[0][1].code == REL_Y,
            dx.rounds_to(plan@.batches[0][0].value as int),
            dy.rounds_to(plan@.batches[0][1].value as int),
    {
        let batch = vec![
            relative_axis_event(REL_X, dx.round_to_i32()),
            relative_axis_event(REL_Y, dy.round_to_i32()),
        ];
        assert(batch@ =~= motion_batch(dx.rounded(), dy.rounded()));
        plan_for_mouse(batch)
    }

    /// The plan for continuous scrolling whose scaled amount is `amount`.
    pub fn wheel_scaled(&self, axis: u8, amount: Double) -> (plan: Plan)
        requires
            wheel_in_range(amount.rounded()),
        ensures
            plan@ == mouse_plan(
                wheel_batch(
                    axis,
                    amount.rounded(),
                    nearest_detents(amount.rounded() as int) as i32,
                ),
            ),
            plan@.batches.len() == 1,
            plan@.batches[0].len() == 2,
            plan@.batches[0][0].code == if axis == 0 {
                REL_WHEEL_HI_RES
            } else {
                REL_HWHEEL_HI_RES
            },
            plan@.batches[0][1].code == if axis == 0 {
                REL_WHEEL
            } else {
                REL_HWHEEL
            },
            amount.rounds_to(plan@.batches[0][0].value as int),
            -60 <= plan@.batches[0][1].value * 120 - plan@.batches[0][0].value <= 60,
    {
        let hi_res: i32 = amount.round_to_i32();
        let legacy: i32 = legacy_detents(hi_res);
        plan_for_mouse(wheel_events(axis, hi_res, legacy))
    }

    /// The plan for a swipe whose fingers have been moved to `places`, which it takes over as far
    /// as they are on the pad.
    pub fn fingers_moved(&mut self, places: &Vec<Position>) -> (plan: Plan)
        requires
            places@.len() == old(self)@.gesture.fingers,
        ensures
            final(self)@ == (EmulationState {
                gesture: old(self)@.gesture.moved(places@),
                ..old(self)@
            }),
            final(self)@.wf(),
            plan@ == (PlanView {
                device: Device::Touchpad,
                batches: final(self)@.gesture.position_batches(),
                ends_swipe: false,
            }),
    {
        let batches = self.gesture_state.fingers_moved(places);
        Plan { device: Device::Touchpad, batches, ends_swipe: false }
    }

    /// Records that the first `emitted` batches of `plan` have been emitted. Where that is not
    /// all of them, the next one was refused.
    pub fn finish(&mut self, plan: &Plan, emitted: usize) -> (result: Result<(), EmulationError>)
        requires
            emitted <= plan@.batches.len(),
        ensures
            final(self)@ == old(self)@.finished(plan@, emitted as int),
            final(self)@.wf(),
            result == if emitted == plan@.batches.len() {
                Ok::<(), EmulationError>(())
            } else {
                Err(EmulationError::Rejected { batch: emitted })
            },
    {
        proof {
            use_type_invariant(&self.gesture_state);
        }
        if emitted < plan.batches.len() {
            return Err(EmulationError::Rejected { batch: emitted });
        }
        if plan.ends_swipe {
            self.gesture_state.swipe_ended();
        }
        Ok(())
    }
}

} // verus!
