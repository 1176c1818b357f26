//! Swipe gestures on the virtual touchpad.
//!
//! A swipe is played as a multitouch contact per finger: the contacts go down in the centre of
//! the pad, move together with the gesture, and are lifted when it ends.

use vstd::prelude::*;

use crate::codes::{
    ABS_MT_POSITION_X, ABS_MT_POSITION_Y, ABS_MT_SLOT, ABS_MT_TRACKING_ID, BTN_TOOL_DOUBLETAP,
    BTN_TOOL_FINGER, BTN_TOOL_QUADTAP, BTN_TOOL_QUINTTAP, BTN_TOOL_TRIPLETAP, BTN_TOUCH,
};
use crate::double::{lemma_denotes, lemma_round_integer, one, Double};
use crate::input::{absolute, absolute_axis_event, key, key_event, InputEvent};
use crate::plan::{batches_view, lemma_batches_push};

verus! {

/// Width of the touchpad in logical units.
pub const TOUCHPAD_WIDTH: i32 = 1000;

/// Height of the touchpad in logical units.
pub const TOUCHPAD_HEIGHT: i32 = 600;

/// Bit patterns of the touchpad's dimensions and of its centre.
pub const WIDTH_BITS: u64 = 0x408f_4000_0000_0000;

pub const HEIGHT_BITS: u64 = 0x4082_c000_0000_0000;

pub const CENTER_X_BITS: u64 = 0x407f_4000_0000_0000;

pub const CENTER_Y_BITS: u64 = 0x4072_c000_0000_0000;

/// Number of contacts that the touchpad tracks.
pub const MAX_FINGERS: u8 = 5;

/// Tracking id of a slot without a contact.
pub const LIFTED: i32 = -1;

/// A place on the touchpad.
#[derive(Clone, Copy, Debug, PartialEq, Eq, Structural)]
pub struct Position {
    pub x: Double,
    pub y: Double,
}

/// Whether `coordinate` lies between 0 and `limit`, or is a NaN.
pub open spec fn coordinate_on_pad(coordinate: Double, limit: int) -> bool {
    coordinate.is_nan() || 0 <= coordinate.units() <= limit * one()
}

impl Position {
    /// The middle of the touchpad.
    pub open spec fn center_spec() -> Position {
        Position { x: Double { bits: CENTER_X_BITS }, y: Double { bits: CENTER_Y_BITS } }
    }

    /// The nearest place on the pad. A coordinate that is a NaN stays one.
    pub open spec fn on_pad(self) -> Position {
        Position {
            x: self.x.clamped(Double { bits: 0 }, Double { bits: WIDTH_BITS }),
            y: self.y.clamped(Double { bits: 0 }, Double { bits: HEIGHT_BITS }),
        }
    }

    /// Whether the place is on the pad, as far as its coordinates are numbers.
    pub open spec fn is_on_pad(self) -> bool {
        &&& coordinate_on_pad(self.x, TOUCHPAD_WIDTH as int)
        &&& coordinate_on_pad(self.y, TOUCHPAD_HEIGHT as int)
    }
}

/// A swipe in progress, or none.
#[verifier::ext_equal]
pub struct SwipeState {
    pub active: bool,
    pub fingers: int,
    /// Where each finger is. Entries from `fingers` on are left from earlier swipes.
    pub positions: Seq<Position>,
}

/// Number of contacts that a swipe with `fingers` fingers is played with.
pub open spec fn contacts(fingers: u8) -> int {
    if fingers < MAX_FINGERS {
        fingers as int
    } else {
        MAX_FINGERS as int
    }
}

/// The tool that tells how many fingers are down.
pub open spec fn tool(fingers: int) -> u16 {
    if fingers == 1 {
        BTN_TOOL_FINGER
    } else if fingers == 2 {
        BTN_TOOL_DOUBLETAP
    } else if fingers == 3 {
        BTN_TOOL_TRIPLETAP
    } else if fingers == 4 {
        BTN_TOOL_QUADTAP
    } else {
        BTN_TOOL_QUINTTAP
    }
}

/// A contact goes down in `slot` at `(x, y)`.
pub open spec fn down_batch(slot: int, x: i32, y: i32) -> Seq<InputEvent> {
    seq![
        absolute(ABS_MT_SLOT, slot as i32),
        absolute(ABS_MT_TRACKING_ID, slot as i32),
        absolute(ABS_MT_POSITION_X, x),
        absolute(ABS_MT_POSITION_Y, y),
    ]
}

/// The contact in `slot` moves to `(x, y)`.
pub open spec fn move_batch(slot: int, x: i32, y: i32) -> Seq<InputEvent> {
    seq![
        absolute(ABS_MT_SLOT, slot as i32),
        absolute(ABS_MT_POSITION_X, x),
        absolute(ABS_MT_POSITION_Y, y),
    ]
}

/// The contact in `slot` is lifted.
pub open spec fn up_batch(slot: int) -> Seq<InputEvent> {
    seq![absolute(ABS_MT_SLOT, slot as i32), absolute(ABS_MT_TRACKING_ID, LIFTED)]
}

/// What starts a swipe with `fingers` fingers: touch and tool go down, then a contact per finger
/// in the centre of the pad.
pub open spec fn begin_batches(fingers: u8) -> Seq<Seq<InputEvent>> {
    seq![seq![key(BTN_TOUCH, 1)], seq![key(tool(fingers as int), 1)]] + Seq::new(
        contacts(fingers) as nat,
        |slot: int| down_batch(slot, (TOUCHPAD_WIDTH / 2) as i32, (TOUCHPAD_HEIGHT / 2) as i32),
    )
}

impl SwipeState {
    /// What holds of every state: five places on the pad, no more fingers than places, and no
    /// fingers without a swipe.
    pub open spec fn wf(self) -> bool {
        &&& self.positions.len() == MAX_FINGERS
        &&& 0 <= self.fingers <= MAX_FINGERS
        &&& !self.active ==> self.fingers == 0
        &&& forall|i: int|
            0 <= i < self.positions.len() ==> (#[trigger] self.positions[i]).is_on_pad()
    }

    /// No swipe, and every finger in the centre.
    pub open spec fn initial() -> SwipeState {
        SwipeState {
            active: false,
            fingers: 0,
            positions: Seq::new(MAX_FINGERS as nat, |i: int| Position::center_spec()),
        }
    }

    /// A swipe with `fingers` fingers starts: they are put in the centre.
    pub open spec fn begun(self, fingers: u8) -> SwipeState {
        SwipeState {
            active: true,
            fingers: contacts(fingers),
            positions: Seq::new(
                self.positions.len(),
                |i: int|
                    if i < contacts(fingers) {
                        Position::center_spec()
                    } else {
                        self.positions[i]
                    },
            ),
        }
    }

    /// The fingers of the swipe go to `places`, as far as those are on the pad.
    pub open spec fn moved(self, places: Seq<Position>) -> SwipeState {
        SwipeState {
            positions: Seq::new(
                self.positions.len(),
                |i: int|
                    if i < self.fingers {
                        places[i].on_pad()
                    } else {
                        self.positions[i]
                    },
            ),
            ..self
        }
    }

    /// The swipe is over.
    pub open spec fn ended(self) -> SwipeState {
        SwipeState { active: false, fingers: 0, ..self }
    }

    /// What tells where the fingers of the swipe are.
    pub open spec fn position_batches(self) -> Seq<Seq<InputEvent>> {
        Seq::new(
            self.fingers as nat,
            |slot: int|
                move_batch(
                    slot,
                    self.positions[slot].x.rounded(),
                    self.positions[slot].y.rounded(),
                ),
        )
    }

    /// What ends the swipe: each contact is lifted, then the tool and touch.
    pub open spec fn end_batches(self) -> Seq<Seq<InputEvent>> {
        Seq::new(self.fingers as nat, |slot: int| up_batch(slot)) + seq![
            seq![key(tool(self.fingers), 0)],
            seq![key(BTN_TOUCH, 0)],
        ]
    }
}

/// The touchpad's constants denote its dimensions and its centre.
pub proof fn lemma_touchpad_constants()
    ensures
        (Double { bits: 0 }).denotes(0),
        (Double { bits: WIDTH_BITS }).denotes(TOUCHPAD_WIDTH as int),
        (Double { bits: HEIGHT_BITS }).denotes(TOUCHPAD_HEIGHT as int),
        (Double { bits: CENTER_X_BITS }).denotes((TOUCHPAD_WIDTH / 2) as int),
        (Double { bits: CENTER_Y_BITS }).denotes((TOUCHPAD_HEIGHT / 2) as int),
        Position::center_spec().is_on_pad(),
{
    vstd::arithmetic::power2::lemma2_to64();
    vstd::arithmetic::power2::lemma2_to64_rest();
    vstd::arithmetic::power2::lemma_pow2_pos(1074);
    lemma_denotes(WIDTH_BITS, 1000);
    lemma_denotes(HEIGHT_BITS, 600);
    lemma_denotes(CENTER_X_BITS, 500);
    lemma_denotes(CENTER_Y_BITS, 300);
    assert((Double { bits: 0 }).denotes(0));
}

/// A place restricted to the pad is on the pad.
pub proof fn lemma_on_pad(place: Position)
    ensures
        place.on_pad().is_on_pad(),
{
    lemma_touchpad_constants();
    vstd::arithmetic::power2::lemma_pow2_pos(1074);
}

/// Gesture state of the touchpad.
#[derive(Debug)]
pub struct GestureState {
    active: bool,
    fingers: u8,
    positions: [Position; 5],
}

impl View for GestureState {
    type V = SwipeState;

    closed spec fn view(&self) -> SwipeState {
        SwipeState {
            active: self.active,
            fingers: self.fingers as int,
            positions: self.positions@,
        }
    }
}

impl GestureState {
    /// What holds of every gesture state.
    #[verifier::type_invariant]
    pub open spec fn is_valid(self) -> bool {
        self@.wf()
    }
}

/// The tool that tells how many fingers are down.
fn tool_button(fingers: u8) -> (code: u16)
    ensures
        code == tool(fingers as int),
{
    match fingers {
        1 => BTN_TOOL_FINGER,
        2 => BTN_TOOL_DOUBLETAP,
        3 => BTN_TOOL_TRIPLETAP,
        4 => BTN_TOOL_QUADTAP,
        _ => BTN_TOOL_QUINTTAP,
    }
}

impl Position {
    /// The middle of the touchpad.
    pub fn center() -> (p: Position)
        ensures
            p == Position::center_spec(),
    {
        Position { x: Double { bits: CENTER_X_BITS }, y: Double { bits: CENTER_Y_BITS } }
    }

    /// Restricts the place to the touchpad.
    fn clamp_to_pad(self) -> (p: Position)
        ensures
            p == self.on_pad(),
    {
        proof {
            lemma_touchpad_constants();
            vstd::arithmetic::power2::lemma_pow2_pos(1074);
        }
        let origin = Double { bits: 0 };
        Position {
            x: self.x.clamp(origin, Double { bits: WIDTH_BITS }),
            y: self.y.clamp(origin, Double { bits: HEIGHT_BITS }),
        }
    }
}

impl GestureState {
    /// No swipe in progress, every finger in the centre.
    pub fn new() -> (state: GestureState)
        ensures
            state@ == SwipeState::initial(),
            state@.wf(),
    {
        proof {
            lemma_touchpad_constants();
        }
        let center = Position::center();
        let state = GestureState {
            active: false,
            fingers: 0,
            positions: [center, center, center, center, center],
        };
        assert(state@.positions =~= SwipeState::initial().positions);
        state
    }

    /// Starts a swipe with `fingers` fingers, of which at most `MAX_FINGERS` are played, and
    /// gives what is to be emitted for it.
    pub fn swipe_begin(&mut self, fingers: u8) -> (batches: Vec<Vec<InputEvent>>)
        ensures
            final(self)@ == old(self)@.begun(fingers),
            final(self)@.wf(),
            batches_view(batches@) == begin_batches(fingers),
    {
        proof {
            use_type_invariant(&*self);
            lemma_touchpad_constants();
        }
        self.active = true;
        self.fingers = if fingers < MAX_FINGERS {
            fingers
        } else {
            MAX_FINGERS
        };
        let count: u8 = self.fingers;
        let ghost before = self.positions@;
        let mut i: usize = 0;
        while i < count as usize
            invariant
                i <= count <= MAX_FINGERS,
                before.len() == 5,
                self@.wf(),
                Position::center_spec().is_on_pad(),
                self.active,
                self.fingers == count,
                self.positions@ =~= Seq::new(
                    5,
                    |j: int| if j < i { Position::center_spec() } else { before[j] },
                ),
            decreases count - i,
        {
            self.positions[i] = Position::center();
            i += 1;
            proof {
                use_type_invariant(&*self);
            }
        }
        proof {
            lemma_touchpad_constants();
            assert(self@ =~= old(self)@.begun(fingers));
            lemma_round_integer(Double { bits: CENTER_X_BITS }, 500);
            lemma_round_integer(Double { bits: CENTER_Y_BITS }, 300);
        }
        let mut batches: Vec<Vec<InputEvent>> = Vec::new();
        let touch = vec![key_event(BTN_TOUCH, 1)];
        let tool_down = vec![key_event(tool_button(fingers), 1)];
        proof {
            assert(touch@ =~= begin_batches(fingers)[0]);
            assert(tool_down@ =~= begin_batches(fingers)[1]);
            lemma_batches_push(batches@, touch);
            lemma_batches_push(batches@.push(touch), tool_down);
        }
        batches.push(touch);
        batches.push(tool_down);
        assert(batches_view(batches@) =~= begin_batches(fingers).take(2));
        let mut slot: u8 = 0;
        while slot < count
            invariant
                slot <= count == contacts(fingers),
                count <= MAX_FINGERS,
                self@ == old(self)@.begun(fingers),
                Position::center_spec().x.rounded() == 500,
                Position::center_spec().y.rounded() == 300,
                batches_view(batches@) == begin_batches(fingers).take(2 + slot),
            decreases count - slot,
        {
            let at: Position = self.positions[slot as usize];
            let batch = vec![
                absolute_axis_event(ABS_MT_SLOT, slot as i32),
                absolute_axis_event(ABS_MT_TRACKING_ID, slot as i32),
                absolute_axis_event(ABS_MT_POSITION_X, at.x.round_to_i32()),
                absolute_axis_event(ABS_MT_POSITION_Y, at.y.round_to_i32()),
            ];
            proof {
                assert(self@.positions[slot as int] == Position::center_spec());
                assert(batch@ =~= begin_batches(fingers)[2 + slot]);
                lemma_batches_push(batches@, batch);
            }
            batches.push(batch);
            assert(batches_view(batches@) =~= begin_batches(fingers).take(2 + slot + 1));
            slot += 1;
        }
        assert(begin_batches(fingers).take(2 + count) =~= begin_batches(fingers));
        batches
    }

    /// Where the fingers of the swipe in progress are, which an update has to move; `None` where
    /// there is no swipe and an update is to be ignored.
    pub fn swipe_update(&self) -> (places: Option<Vec<Position>>)
        ensures
            self@.wf(),
            places is Some <==> self@.active,
            places matches Some(p) ==> p@ == self@.positions.take(self@.fingers),
    {
        proof {
            use_type_invariant(self);
        }
        if !self.active {
            return None;
        }
        let mut places: Vec<Position> = Vec::new();
        let mut i: usize = 0;
        while i < self.fingers as usize
            invariant
                self@.wf(),
                i <= self.fingers,
                places@ == self@.positions.take(i as int),
            decreases self.fingers - i,
        {
            places.push(self.positions[i]);
            i += 1;
            assert(places@ =~= self@.positions.take(i as int));
        }
        Some(places)
    }

    /// Puts the fingers of the swipe at `places`, or at the nearest places on the pad, and gives
    /// what is to be emitted for it.
    pub fn fingers_moved(&mut self, places: &Vec<Position>) -> (batches: Vec<Vec<InputEvent>>)
        requires
            places@.len() == old(self)@.fingers,
        ensures
            final(self)@ == old(self)@.moved(places@),
            final(self)@.wf(),
            batches_view(batches@) == final(self)@.position_batches(),
    {
        proof {
            use_type_invariant(&*self);
        }
        let count: u8 = self.fingers;
        let ghost before = self.positions@;
        let mut i: usize = 0;
        while i < count as usize
            invariant
                i <= count <= MAX_FINGERS,
                before.len() == 5,
                places@.len() == count,
                self@.wf(),
                self.active == old(self).active,
                self.fingers == count,
                self.positions@ =~= Seq::new(
                    5,
                    |j: int| if j < i { places@[j].on_pad() } else { before[j] },
                ),
            decreases count - i,
        {
            proof {
                lemma_on_pad(places@[i as int]);
            }
            self.positions[i] = places[i].clamp_to_pad();
            i += 1;
            proof {
                use_type_invariant(&*self);
            }
        }
        proof {
            assert(self@ =~= old(self)@.moved(places@));
        }
        let mut batches: Vec<Vec<InputEvent>> = Vec::new();
        assert(batches_view(batches@) =~= self@.position_batches().take(0));
        let mut slot: u8 = 0;
        while slot < count
            invariant
                slot <= count == self@.fingers,
                self@.wf(),
                self@ == old(self)@.moved(places@),
                batches_view(batches@) == self@.position_batches().take(slot as int),
            decreases count - slot,
        {
            let at: Position = self.positions[slot as usize];
            let batch = vec![
                absolute_axis_event(ABS_MT_SLOT, slot as i32),
                absolute_axis_event(ABS_MT_POSITION_X, at.x.round_to_i32()),
                absolute_axis_event(ABS_MT_POSITION_Y, at.y.round_to_i32()),
            ];
            proof {
                assert(batch@ =~= self@.position_batches()[slot as int]);
                lemma_batches_push(batches@, batch);
            }
            batches.push(batch);
            slot += 1;
            assert(batches_view(batches@) =~= self@.position_batches().take(slot as int));
        }
        assert(self@.position_batches().take(count as int) =~= self@.position_batches());
        batches
    }

    /// What is to be emitted to end the swipe. Whether the gesture was cancelled makes no
    /// difference.
    pub fn swipe_end(&self, cancelled: bool) -> (batches: Vec<Vec<InputEvent>>)
        ensures
            self@.wf(),
            batches_view(batches@) == self@.end_batches(),
    {
        proof {
            use_type_invariant(self);
        }
        let mut batches: Vec<Vec<InputEvent>> = Vec::new();
        let ghost all = self@.end_batches();
        assert(batches_view(batches@) =~= all.take(0));
        let mut slot: u8 = 0;
        while slot < self.fingers
            invariant
                slot <= self.fingers,
                self@.wf(),
                all == self@.end_batches(),
                batches_view(batches@) == all.take(slot as int),
            decreases self.fingers - slot,
        {
            let batch = vec![
                absolute_axis_event(ABS_MT_SLOT, slot as i32),
                absolute_axis_event(ABS_MT_TRACKING_ID, LIFTED),
            ];
            proof {
                assert(batch@ =~= all[slot as int]);
                lemma_batches_push(batches@, batch);
            }
            batches.push(batch);
            slot += 1;
            assert(batches_view(batches@) =~= all.take(slot as int));
        }
        let tool_up = vec![key_event(tool_button(self.fingers), 0)];
        let touch = vec![key_event(BTN_TOUCH, 0)];
        proof {
            assert(tool_up@ =~= all[self.fingers as int]);
            assert(touch@ =~= all[self.fingers + 1]);
            lemma_batches_push(batches@, tool_up);
            lemma_batches_push(batches@.push(tool_up), touch);
        }
        batches.push(tool_up);
        batches.push(touch);
        assert(batches_view(batches@) =~= all);
        batches
    }

    /// Records that the swipe is over.
    pub fn swipe_ended(&mut self)
        ensures
            final(self)@ == old(self)@.ended(),
            final(self)@.wf(),
    {
        proof {
            use_type_invariant(&*self);
        }
        self.fingers = 0;
        self.active = false;
    }
}

} // verus!
