//! What a multitouch device shows after a sequence of events, and how that follows the swipe in
//! progress.
//!
//! The model follows the slot protocol: `ABS_MT_SLOT` selects a slot, `ABS_MT_TRACKING_ID` puts a
//! contact into it or lifts the one that is there, and the position axes move it.

use vstd::prelude::*;

use crate::codes::{
    ABS_MT_POSITION_X, ABS_MT_POSITION_Y, ABS_MT_SLOT, ABS_MT_TRACKING_ID, BTN_TOOL_DOUBLETAP,
    BTN_TOOL_FINGER, BTN_TOOL_QUADTAP, BTN_TOOL_QUINTTAP, BTN_TOOL_TRIPLETAP, BTN_TOUCH, EV_ABS,
    EV_KEY,
};
use crate::double::{law_rounding, lemma_round_integer, one, Double};
use crate::emulation::{EmulationHandle, EmulationState, StepView};
use crate::event::{Event, GestureEvent};
use crate::gesture::{
    begin_batches, contacts, down_batch, lemma_on_pad, lemma_touchpad_constants, move_batch, tool,
    up_batch, Position, SwipeState, LIFTED, TOUCHPAD_HEIGHT, TOUCHPAD_WIDTH,
};
use crate::input::{key, InputEvent};
use crate::plan::Device;

verus! {

/// A contact on the pad.
pub struct Contact {
    pub id: i32,
    pub x: i32,
    pub y: i32,
}

/// What a multitouch device shows.
#[verifier::ext_equal]
pub struct TouchState {
    /// The slot that position and tracking events apply to.
    pub slot: int,
    /// The contacts, by slot.
    pub contacts: Map<int, Contact>,
    /// The buttons that are down.
    pub pressed: Set<u16>,
}

impl TouchState {
    /// Whether nothing touches the pad.
    pub open spec fn is_idle(self) -> bool {
        &&& self.contacts == Map::<int, Contact>::empty()
        &&& self.pressed == Set::<u16>::empty()
    }

    /// The effect of one event.
    pub open spec fn after_event(self, event: InputEvent) -> TouchState {
        if event.kind == EV_KEY {
            TouchState {
                pressed: if event.value == 0 {
                    self.pressed.remove(event.code)
                } else {
                    self.pressed.insert(event.code)
                },
                ..self
            }
        } else if event.kind != EV_ABS {
            self
        } else if event.code == ABS_MT_SLOT {
            TouchState { slot: event.value as int, ..self }
        } else if event.code == ABS_MT_TRACKING_ID {
            TouchState {
                contacts: if event.value == LIFTED {
                    self.contacts.remove(self.slot)
                } else {
                    self.contacts.insert(
                        self.slot,
                        Contact { id: event.value, ..self.contacts[self.slot] },
                    )
                },
                ..self
            }
        } else if !self.contacts.dom().contains(self.slot) {
            self
        } else if event.code == ABS_MT_POSITION_X {
            TouchState {
                contacts: self.contacts.insert(
                    self.slot,
                    Contact { x: event.value, ..self.contacts[self.slot] },
                ),
                ..self
            }
        } else if event.code == ABS_MT_POSITION_Y {
            TouchState {
                contacts: self.contacts.insert(
                    self.slot,
                    Contact { y: event.value, ..self.contacts[self.slot] },
                ),
                ..self
            }
        } else {
            self
        }
    }

    /// The effect of the events of a batch, in order.
    pub open spec fn after_batch(self, batch: Seq<InputEvent>) -> TouchState
        decreases batch.len(),
    {
        if batch.len() == 0 {
            self
        } else {
            self.after_batch(batch.drop_last()).after_event(batch.last())
        }
    }

    /// The effect of batches, in order.
    pub open spec fn after(self, batches: Seq<Seq<InputEvent>>) -> TouchState
        decreases batches.len(),
    {
        if batches.len() == 0 {
            self
        } else {
            self.after(batches.drop_last()).after_batch(batches.last())
        }
    }

    /// Whether the pad shows the swipe: while there is one, a contact per finger, where the
    /// finger is, with touch and the tool of that many fingers down; else nothing.
    pub open spec fn shows(self, swipe: SwipeState) -> bool {
        if swipe.active {
            &&& forall|slot: int| #[trigger]
                self.contacts.dom().contains(slot) <==> 0 <= slot < swipe.fingers
            &&& forall|slot: int|
                0 <= slot < swipe.fingers ==> #[trigger] self.contacts[slot] == (Contact {
                    id: slot as i32,
                    x: swipe.positions[slot].x.rounded(),
                    y: swipe.positions[slot].y.rounded(),
                })
            &&& self.pressed == set![BTN_TOUCH, tool(swipe.fingers)]
        } else {
            self.is_idle()
        }
    }
}

/// A further batch comes last.
proof fn lemma_after_push(state: TouchState, batches: Seq<Seq<InputEvent>>, batch: Seq<InputEvent>)
    ensures
        state.after(batches.push(batch)) == state.after(batches).after_batch(batch),
{
    assert(batches.push(batch).drop_last() =~= batches);
}

/// Batches one after the other.
proof fn lemma_after_concat(
    state: TouchState,
    first: Seq<Seq<InputEvent>>,
    second: Seq<Seq<InputEvent>>,
)
    ensures
        state.after(first + second) == state.after(first).after(second),
    decreases second.len(),
{
    if second.len() == 0 {
        assert(first + second =~= first);
    } else {
        lemma_after_concat(state, first, second.drop_last());
        assert((first + second).drop_last() =~= first + second.drop_last());
    }
}

/// A batch of one key event.
proof fn lemma_key_batch(state: TouchState, code: u16, value: i32)
    ensures
        state.after_batch(seq![key(code, value)]) == state.after_event(key(code, value)),
{
    let batch = seq![key(code, value)];
    assert(batch.drop_last() =~= seq![]);
    reveal_with_fuel(TouchState::after_batch, 2);
}

/// A contact goes down.
proof fn lemma_down(state: TouchState, slot: int, x: i32, y: i32)
    requires
        0 <= slot <= i32::MAX,
    ensures
        ({
            let next = state.after_batch(down_batch(slot, x, y));
            &&& next.slot == slot
            &&& next.contacts == state.contacts.insert(slot, Contact { id: slot as i32, x, y })
            &&& next.pressed == state.pressed
        }),
{
    let b4 = down_batch(slot, x, y);
    let b3 = b4.drop_last();
    let b2 = b3.drop_last();
    let b1 = b2.drop_last();
    assert(b1.drop_last() =~= seq![]);
    reveal_with_fuel(TouchState::after_batch, 5);
    assert(state.after_batch(b1).slot == slot);
    assert(state.after_batch(b2).contacts.dom().contains(slot));
    assert(state.after_batch(b4).contacts =~= state.contacts.insert(
        slot,
        Contact { id: slot as i32, x, y },
    ));
}

/// A contact moves.
proof fn lemma_move(state: TouchState, slot: int, x: i32, y: i32)
    requires
        0 <= slot <= i32::MAX,
        state.contacts.dom().contains(slot),
    ensures
        ({
            let next = state.after_batch(move_batch(slot, x, y));
            &&& next.slot == slot
            &&& next.contacts == state.contacts.insert(
                slot,
                Contact { x, y, ..state.contacts[slot] },
            )
            &&& next.pressed == state.pressed
        }),
{
    let b3 = move_batch(slot, x, y);
    let b2 = b3.drop_last();
    let b1 = b2.drop_last();
    assert(b1.drop_last() =~= seq![]);
    reveal_with_fuel(TouchState::after_batch, 4);
    assert(state.after_batch(b1).slot == slot);
    assert(state.after_batch(b3).contacts =~= state.contacts.insert(
        slot,
        Contact { x, y, ..state.contacts[slot] },
    ));
}

/// Where there is no contact in `slot`, there is none to move.
proof fn lemma_move_nothing(state: TouchState, slot: int, x: i32, y: i32)
    requires
        0 <= slot <= i32::MAX,
        !state.contacts.dom().contains(slot),
    ensures
        state.after_batch(move_batch(slot, x, y)) == (TouchState { slot, ..state }),
{
    let b3 = move_batch(slot, x, y);
    let b2 = b3.drop_last();
    let b1 = b2.drop_last();
    assert(b1.drop_last() =~= seq![]);
    reveal_with_fuel(TouchState::after_batch, 4);
    assert(state.after_batch(b1).slot == slot);
}

/// A contact is lifted.
proof fn lemma_up(state: TouchState, slot: int)
    requires
        0 <= slot <= i32::MAX,
    ensures
        ({
            let next = state.after_batch(up_batch(slot));
            &&& next.slot == slot
            &&& next.contacts == state.contacts.remove(slot)
            &&& next.pressed == state.pressed
        }),
{
    let b2 = up_batch(slot);
    let b1 = b2.drop_last();
    assert(b1.drop_last() =~= seq![]);
    reveal_with_fuel(TouchState::after_batch, 3);
    assert(state.after_batch(b1).slot == slot);
}

/// Contacts that go down in slots `0..count`, all at `(x, y)`.
proof fn lemma_all_down(state: TouchState, count: nat, x: i32, y: i32)
    requires
        count <= i32::MAX,
    ensures
        ({
            let next = state.after(Seq::new(count, |slot: int| down_batch(slot, x, y)));
            &&& next.pressed == state.pressed
            &&& forall|slot: int| #[trigger]
                next.contacts.dom().contains(slot) <==> state.contacts.dom().contains(slot) || 0
                    <= slot < count
            &&& forall|slot: int|
                0 <= slot < count ==> #[trigger] next.contacts[slot] == (Contact {
                    id: slot as i32,
                    x,
                    y,
                })
        }),
    decreases count,
{
    let batches = Seq::new(count, |slot: int| down_batch(slot, x, y));
    if count > 0 {
        let last = count - 1;
        lemma_all_down(state, last as nat, x, y);
        assert(batches.drop_last() =~= Seq::new(last as nat, |slot: int| down_batch(slot, x, y)));
        lemma_down(state.after(batches.drop_last()), last, x, y);
    }
}

/// Contacts in slots `0..count` that move to `places`.
proof fn lemma_all_moved(state: TouchState, count: nat, places: Seq<Position>)
    requires
        count <= i32::MAX,
        forall|slot: int| 0 <= slot < count ==> #[trigger] state.contacts.dom().contains(slot),
    ensures
        ({
            let next = state.after(
                Seq::new(
                    count,
                    |slot: int|
                        move_batch(slot, places[slot].x.rounded(), places[slot].y.rounded()),
                ),
            );
            &&& next.pressed == state.pressed
            &&& next.contacts.dom() == state.contacts.dom()
            &&& forall|slot: int|
                0 <= slot < count ==> #[trigger] next.contacts[slot] == (Contact {
                    id: state.contacts[slot].id,
                    x: places[slot].x.rounded(),
                    y: places[slot].y.rounded(),
                })
            &&& forall|slot: int|
                !(0 <= slot < count) ==> #[trigger] next.contacts[slot] == state.contacts[slot]
        }),
    decreases count,
{
    let f = |slot: int| move_batch(slot, places[slot].x.rounded(), places[slot].y.rounded());
    let batches = Seq::new(count, f);
    if count > 0 {
        let last = count - 1;
        lemma_all_moved(state, last as nat, places);
        assert(batches.drop_last() =~= Seq::new(last as nat, f));
        let before = state.after(batches.drop_last());
        lemma_move(before, last, places[last].x.rounded(), places[last].y.rounded());
        assert(state.after(batches).contacts.dom() =~= state.contacts.dom());
    }
}

/// Contacts in slots `0..count` that are lifted.
proof fn lemma_all_up(state: TouchState, count: nat)
    requires
        count <= i32::MAX,
    ensures
        ({
            let next = state.after(Seq::new(count, |slot: int| up_batch(slot)));
            &&& next.pressed == state.pressed
            &&& forall|slot: int| #[trigger]
                next.contacts.dom().contains(slot) <==> state.contacts.dom().contains(slot) && !(0
                    <= slot < count)
        }),
    decreases count,
{
    let batches = Seq::new(count, |slot: int| up_batch(slot));
    if count > 0 {
        let last = count - 1;
        lemma_all_up(state, last as nat);
        assert(batches.drop_last() =~= Seq::new(last as nat, |slot: int| up_batch(slot)));
        lemma_up(state.after(batches.drop_last()), last);
    }
}

/// The tool of a swipe is that of the contacts it is played with.
pub proof fn law_tool_counts_contacts(fingers: u8)
    ensures
        tool(fingers as int) == tool(contacts(fingers)),
{
}

/// Whether nothing is on the pad but what a swipe with `count` contacts puts there.
pub open spec fn at_most(pad: TouchState, count: int) -> bool {
    &&& forall|slot: int| #[trigger] pad.contacts.dom().contains(slot) ==> 0 <= slot < count
    &&& pad.pressed.subset_of(set![BTN_TOUCH, tool(count)])
}

/// That is so where nothing touches the pad, and where the pad shows such a swipe.
pub proof fn law_at_most(pad: TouchState, swipe: SwipeState, count: int)
    requires
        swipe.wf(),
    ensures
        pad.is_idle() ==> at_most(pad, count),
        pad.shows(swipe) ==> at_most(pad, swipe.fingers),
{
}

/// Where nothing else is on the pad, the start of a swipe shows that swipe: a contact per finger
/// in the centre.
pub proof fn law_begin_shows_swipe(pad: TouchState, swipe: SwipeState, fingers: u8)
    requires
        swipe.wf(),
        at_most(pad, contacts(fingers)),
    ensures
        pad.after(begin_batches(fingers)).shows(swipe.begun(fingers)),
{
    let touch = seq![key(BTN_TOUCH, 1)];
    let tool_down = seq![key(tool(fingers as int), 1)];
    let keys = seq![touch, tool_down];
    let count = contacts(fingers) as nat;
    let (x, y) = ((TOUCHPAD_WIDTH / 2) as i32, (TOUCHPAD_HEIGHT / 2) as i32);
    let downs = Seq::new(count, |slot: int| down_batch(slot, x, y));
    lemma_after_concat(pad, keys, downs);
    assert(keys =~= Seq::<Seq<InputEvent>>::empty().push(touch).push(tool_down));
    lemma_after_push(pad, Seq::<Seq<InputEvent>>::empty(), touch);
    lemma_after_push(pad, Seq::<Seq<InputEvent>>::empty().push(touch), tool_down);
    lemma_key_batch(pad, BTN_TOUCH, 1);
    lemma_key_batch(pad.after_batch(touch), tool(fingers as int), 1);
    let pressed = pad.after(keys);
    lemma_all_down(pressed, count, x, y);
    lemma_touchpad_constants();
    lemma_round_integer(Position::center_spec().x, x as int);
    lemma_round_integer(Position::center_spec().y, y as int);
    let next = pad.after(begin_batches(fingers));
    assert(begin_batches(fingers) =~= keys + downs);
    assert(next.pressed =~= set![BTN_TOUCH, tool(contacts(fingers))]);
}

/// Where the pad shows a swipe, an update of it shows the swipe with its fingers moved.
pub proof fn law_update_shows_swipe(pad: TouchState, swipe: SwipeState, places: Seq<Position>)
    requires
        swipe.wf(),
        swipe.active,
        pad.shows(swipe),
    ensures
        pad.after(swipe.moved(places).position_batches()).shows(swipe.moved(places)),
{
    let moved = swipe.moved(places);
    lemma_all_moved(pad, moved.fingers as nat, moved.positions);
}

/// Where nothing is on the pad but what the swipe puts there, the end of it leaves nothing. That
/// includes a pad that shows the swipe, and one that was told of only a part of it.
pub proof fn law_end_lifts_everything(pad: TouchState, swipe: SwipeState)
    requires
        swipe.wf(),
        at_most(pad, swipe.fingers),
    ensures
        pad.after(swipe.end_batches()).is_idle(),
        pad.after(swipe.end_batches()).shows(swipe.ended()),
{
    let ups = Seq::new(swipe.fingers as nat, |slot: int| up_batch(slot));
    let tool_up = seq![key(tool(swipe.fingers), 0)];
    let touch = seq![key(BTN_TOUCH, 0)];
    let keys = seq![tool_up, touch];
    lemma_after_concat(pad, ups, keys);
    lemma_all_up(pad, swipe.fingers as nat);
    let lifted = pad.after(ups);
    assert(keys =~= Seq::<Seq<InputEvent>>::empty().push(tool_up).push(touch));
    lemma_after_push(lifted, Seq::<Seq<InputEvent>>::empty(), tool_up);
    lemma_after_push(lifted, Seq::<Seq<InputEvent>>::empty().push(tool_up), touch);
    lemma_key_batch(lifted, tool(swipe.fingers), 0);
    lemma_key_batch(lifted.after_batch(tool_up), BTN_TOUCH, 0);
    let next = pad.after(swipe.end_batches());
    assert(next.contacts =~= Map::<int, Contact>::empty());
    assert(next.pressed =~= Set::<u16>::empty());
}

/// Whether a batch is one of a swipe with `count` contacts.
pub open spec fn is_swipe_batch(batch: Seq<InputEvent>, count: int) -> bool {
    ||| exists|slot: int, x: i32, y: i32|
        0 <= slot < count && batch == #[trigger] down_batch(slot, x, y)
    ||| exists|slot: int, x: i32, y: i32|
        0 <= slot < count && batch == #[trigger] move_batch(slot, x, y)
    ||| exists|slot: int| 0 <= slot < count && batch == #[trigger] up_batch(slot)
    ||| exists|value: i32| batch == seq![#[trigger] key(BTN_TOUCH, value)]
    ||| exists|value: i32| batch == seq![#[trigger] key(tool(count), value)]
}

/// A batch of the swipe puts nothing else on the pad.
proof fn lemma_at_most_batch(pad: TouchState, count: int, batch: Seq<InputEvent>)
    requires
        count <= i32::MAX,
        at_most(pad, count),
        is_swipe_batch(batch, count),
    ensures
        at_most(pad.after_batch(batch), count),
{
    if exists|slot: int, x: i32, y: i32|
        0 <= slot < count && batch == #[trigger] down_batch(slot, x, y) {
        let (slot, x, y) = choose|slot: int, x: i32, y: i32|
            0 <= slot < count && batch == #[trigger] down_batch(slot, x, y);
        lemma_down(pad, slot, x, y);
    } else if exists|slot: int, x: i32, y: i32|
        0 <= slot < count && batch == #[trigger] move_batch(slot, x, y) {
        let (slot, x, y) = choose|slot: int, x: i32, y: i32|
            0 <= slot < count && batch == #[trigger] move_batch(slot, x, y);
        if pad.contacts.dom().contains(slot) {
            lemma_move(pad, slot, x, y);
        } else {
            lemma_move_nothing(pad, slot, x, y);
        }
    } else if exists|slot: int| 0 <= slot < count && batch == #[trigger] up_batch(slot) {
        let slot = choose|slot: int| 0 <= slot < count && batch == #[trigger] up_batch(slot);
        lemma_up(pad, slot);
    } else if exists|value: i32| batch == seq![#[trigger] key(BTN_TOUCH, value)] {
        let value = choose|value: i32| batch == seq![#[trigger] key(BTN_TOUCH, value)];
        lemma_key_batch(pad, BTN_TOUCH, value);
    } else {
        let value = choose|value: i32| batch == seq![#[trigger] key(tool(count), value)];
        lemma_key_batch(pad, tool(count), value);
    }
}

/// Batches of the swipe put nothing else on the pad.
proof fn lemma_at_most_after(pad: TouchState, count: int, batches: Seq<Seq<InputEvent>>)
    requires
        count <= i32::MAX,
        at_most(pad, count),
        forall|i: int| 0 <= i < batches.len() ==> is_swipe_batch(#[trigger] batches[i], count),
    ensures
        at_most(pad.after(batches), count),
    decreases batches.len(),
{
    if batches.len() > 0 {
        let shorter = batches.drop_last();
        assert forall|i: int| 0 <= i < shorter.len() implies is_swipe_batch(
            #[trigger] shorter[i],
            count,
        ) by {
            assert(shorter[i] == batches[i]);
        }
        lemma_at_most_after(pad, count, shorter);
        lemma_at_most_batch(pad.after(shorter), count, batches[batches.len() - 1]);
    }
}

/// What starts, updates or ends a swipe are batches of it.
pub proof fn law_plans_are_of_the_swipe(swipe: SwipeState, fingers: u8)
    requires
        swipe.wf(),
    ensures
        forall|i: int|
            0 <= i < begin_batches(fingers).len() ==> is_swipe_batch(
                #[trigger] begin_batches(fingers)[i],
                swipe.begun(fingers).fingers,
            ),
        forall|i: int|
            0 <= i < swipe.position_batches().len() ==> is_swipe_batch(
                #[trigger] swipe.position_batches()[i],
                swipe.fingers,
            ),
        forall|i: int|
            0 <= i < swipe.end_batches().len() ==> is_swipe_batch(
                #[trigger] swipe.end_batches()[i],
                swipe.fingers,
            ),
{
    law_tool_counts_contacts(fingers);
    let count = contacts(fingers);
    let begin = begin_batches(fingers);
    assert forall|i: int| 0 <= i < begin.len() implies is_swipe_batch(
        #[trigger] begin[i],
        count,
    ) by {
        if i == 0 {
            assert(begin[i] == seq![key(BTN_TOUCH, 1)]);
        } else if i == 1 {
            assert(begin[i] == seq![key(tool(count), 1)]);
        } else {
            assert(begin[i] == down_batch(
                i - 2,
                (TOUCHPAD_WIDTH / 2) as i32,
                (TOUCHPAD_HEIGHT / 2) as i32,
            ));
        }
    }
    let positions = swipe.position_batches();
    assert forall|i: int| 0 <= i < positions.len() implies is_swipe_batch(
        #[trigger] positions[i],
        swipe.fingers,
    ) by {
        assert(positions[i] == move_batch(
            i,
            swipe.positions[i].x.rounded(),
            swipe.positions[i].y.rounded(),
        ));
    }
    let end = swipe.end_batches();
    assert forall|i: int| 0 <= i < end.len() implies is_swipe_batch(
        #[trigger] end[i],
        swipe.fingers,
    ) by {
        if i < swipe.fingers {
            assert(end[i] == up_batch(i));
        } else if i == swipe.fingers {
            assert(end[i] == seq![key(tool(swipe.fingers), 0)]);
        } else {
            assert(end[i] == seq![key(BTN_TOUCH, 0)]);
        }
    }
}

/// However much of a swipe's batches was emitted before the device refused one, ending the swipe
/// leaves nothing on the pad.
pub proof fn law_end_cleans_up_interrupted_plan(
    pad: TouchState,
    swipe: SwipeState,
    batches: Seq<Seq<InputEvent>>,
    emitted: int,
)
    requires
        swipe.wf(),
        at_most(pad, swipe.fingers),
        forall|i: int|
            0 <= i < batches.len() ==> is_swipe_batch(#[trigger] batches[i], swipe.fingers),
        0 <= emitted <= batches.len(),
    ensures
        pad.after(batches.take(emitted)).after(swipe.end_batches()).is_idle(),
{
    let done = batches.take(emitted);
    assert forall|i: int| 0 <= i < done.len() implies is_swipe_batch(
        #[trigger] done[i],
        swipe.fingers,
    ) by {
        assert(done[i] == batches[i]);
    }
    lemma_at_most_after(pad, swipe.fingers, done);
    law_end_lifts_everything(pad.after(done), swipe);
}

/// The state of a swipe after its fingers have been moved to each of `moves` in turn.
pub open spec fn swipe_after(swipe: SwipeState, moves: Seq<Seq<Position>>) -> SwipeState
    decreases moves.len(),
{
    if moves.len() == 0 {
        swipe
    } else {
        swipe_after(swipe, moves.drop_last()).moved(moves.last())
    }
}

/// The pad after it was told of each of `moves` in turn.
pub open spec fn pad_after(
    pad: TouchState,
    swipe: SwipeState,
    moves: Seq<Seq<Position>>,
) -> TouchState
    decreases moves.len(),
{
    if moves.len() == 0 {
        pad
    } else {
        pad_after(pad, swipe, moves.drop_last()).after(
            swipe_after(swipe, moves).position_batches(),
        )
    }
}

/// Any number of updates keep the pad showing the swipe.
pub proof fn law_updates_show_swipe(pad: TouchState, swipe: SwipeState, moves: Seq<Seq<Position>>)
    requires
        swipe.wf(),
        swipe.active,
        pad.shows(swipe),
    ensures
        swipe_after(swipe, moves).wf(),
        swipe_after(swipe, moves).active,
        pad_after(pad, swipe, moves).shows(swipe_after(swipe, moves)),
    decreases moves.len(),
{
    if moves.len() > 0 {
        law_updates_show_swipe(pad, swipe, moves.drop_last());
        let before = swipe_after(swipe, moves.drop_last());
        law_update_shows_swipe(pad_after(pad, swipe, moves.drop_last()), before, moves.last());
        law_moved_fingers_stay_on_pad(before, moves.last());
    }
}

/// Moving the fingers keeps them on the pad, wherever they are moved to.
pub proof fn law_moved_fingers_stay_on_pad(swipe: SwipeState, places: Seq<Position>)
    requires
        swipe.wf(),
    ensures
        swipe.moved(places).wf(),
{
    assert forall|i: int| 0 <= i < swipe.positions.len() implies (
    #[trigger] swipe.moved(places).positions[i]).is_on_pad() by {
        lemma_on_pad(places[i]);
    }
}

/// A whole swipe, with any number of fingers and updates, leaves nothing on the pad, where
/// nothing else was on it before.
pub proof fn law_whole_swipe(
    pad: TouchState,
    swipe: SwipeState,
    fingers: u8,
    moves: Seq<Seq<Position>>,
)
    requires
        swipe.wf(),
        at_most(pad, contacts(fingers)),
    ensures
        pad_after(pad.after(begin_batches(fingers)), swipe.begun(fingers), moves).after(
            swipe_after(swipe.begun(fingers), moves).end_batches(),
        ).is_idle(),
{
    let begun = swipe.begun(fingers);
    let down = pad.after(begin_batches(fingers));
    law_begin_shows_swipe(pad, swipe, fingers);
    lemma_touchpad_constants();
    law_updates_show_swipe(down, begun, moves);
    law_end_lifts_everything(pad_after(down, begun, moves), swipe_after(begun, moves));
}

/// Whether `kept` is `coordinate` as far as that is on the pad: a number from 0 to `limit` and a
/// NaN stay as they are, and every other number becomes the nearer end.
pub open spec fn keeps_on_pad(coordinate: Double, kept: Double, limit: int) -> bool {
    if coordinate.is_nan() || 0 <= coordinate.units() <= limit * one() {
        kept == coordinate
    } else if coordinate.units() < 0 {
        kept.denotes(0)
    } else {
        kept.denotes(limit)
    }
}

/// Moving the fingers of a swipe puts each at its own place, kept on the pad. Nothing else changes.
pub proof fn law_fingers_go_to_their_places(
    swipe: SwipeState,
    places: Seq<Position>,
    finger: int,
)
    requires
        swipe.wf(),
        places.len() == swipe.fingers,
        0 <= finger < 5,
    ensures
        ({
            let next = swipe.moved(places);
            let place = next.positions[finger];
            &&& next.active == swipe.active
            &&& next.fingers == swipe.fingers
            &&& next.positions.len() == 5
            &&& finger < swipe.fingers ==> keeps_on_pad(places[finger].x, place.x, 1000)
            &&& finger < swipe.fingers ==> keeps_on_pad(places[finger].y, place.y, 600)
            &&& finger >= swipe.fingers ==> place == swipe.positions[finger]
        }),
{
    lemma_touchpad_constants();
    vstd::arithmetic::power2::lemma_pow2_pos(1074);
}

/// An update of the swipe in progress moves every finger, however many there are, by the update's
/// own delta: horizontally by `dx` and vertically by `dy`, kept on the pad. `sum` is the addition
/// of coordinates. A pad that shows the swipe then shows each contact where its finger is.
pub proof fn law_update_moves_every_finger(
    state: EmulationState,
    pad: TouchState,
    handle: EmulationHandle,
    time: u32,
    dx: Double,
    dy: Double,
    sum: spec_fn(Double, Double) -> Double,
    finger: int,
)
    requires
        state.wf(),
        state.gesture.active,
        pad.shows(state.gesture),
        0 <= finger < state.gesture.fingers,
    ensures
        ({
            let update = Event::Gesture(GestureEvent::SwipeUpdate { time, dx, dy });
            &&& state.step_for(update, handle) matches StepView::MoveFingers {
                places,
                dx: step_x,
                dy: step_y,
            }
            &&& step_x == dx
            &&& step_y == dy
            &&& places.len() == state.gesture.fingers
            &&& places[finger] == state.gesture.positions[finger]
            &&& {
                let sums = Seq::new(
                    places.len(),
                    |i: int|
                        Position { x: sum(places[i].x, step_x), y: sum(places[i].y, step_y) },
                );
                let from = state.gesture.positions[finger];
                let next = state.gesture.moved(sums);
                let to = next.positions[finger];
                let contact = pad.after(next.position_batches()).contacts[finger];
                &&& keeps_on_pad(sum(from.x, dx), to.x, 1000)
                &&& keeps_on_pad(sum(from.y, dy), to.y, 600)
                &&& to.x.rounds_to(contact.x as int)
                &&& to.y.rounds_to(contact.y as int)
                &&& contact.id == pad.contacts[finger].id
            }
        }),
{
    let places = state.gesture.positions.take(state.gesture.fingers);
    let sums = Seq::new(
        places.len(),
        |i: int| Position { x: sum(places[i].x, dx), y: sum(places[i].y, dy) },
    );
    law_fingers_go_to_their_places(state.gesture, sums, finger);
    law_update_shows_swipe(pad, state.gesture, sums);
    let to = state.gesture.moved(sums).positions[finger];
    law_rounding(to.x);
    law_rounding(to.y);
}

/// Without a swipe in progress an update emits nothing.
pub proof fn law_update_needs_swipe(
    state: EmulationState,
    handle: EmulationHandle,
    time: u32,
    dx: Double,
    dy: Double,
)
    requires
        !state.gesture.active,
    ensures
        ({
            let update = Event::Gesture(GestureEvent::SwipeUpdate { time, dx, dy });
            &&& state.step_for(update, handle) matches StepView::Emit { plan }
            &&& plan.batches.len() == 0
        }),
{
}

/// Whether the batch is one event, that the button `code` has `value`.
pub open spec fn is_button(batch: Seq<InputEvent>, code: u16, value: int) -> bool {
    &&& batch.len() == 1
    &&& batch[0].kind == EV_KEY
    &&& batch[0].code == code
    &&& batch[0].value == value
}

/// Whether an event is that the absolute axis `code` is at `value`.
pub open spec fn is_axis(event: InputEvent, code: u16, value: int) -> bool {
    event.kind == EV_ABS && event.code == code && event.value == value
}

/// The tool that stands for a number of fingers; five stand for every greater number, and for none.
pub proof fn law_tools(fingers: int)
    ensures
        fingers == 1 ==> tool(fingers) == BTN_TOOL_FINGER,
        fingers == 2 ==> tool(fingers) == BTN_TOOL_DOUBLETAP,
        fingers == 3 ==> tool(fingers) == BTN_TOOL_TRIPLETAP,
        fingers == 4 ==> tool(fingers) == BTN_TOOL_QUADTAP,
        fingers < 1 || fingers > 4 ==> tool(fingers) == BTN_TOOL_QUINTTAP,
{
}

/// A swipe starts with the touch button, the tool of its fingers and then a contact per finger, at
/// most five: each in a slot of its own, with the slot's number as its id, in the middle of the
/// pad.
pub proof fn law_begin_plan(
    state: EmulationState,
    handle: EmulationHandle,
    time: u32,
    fingers: u8,
    slot: int,
)
    requires
        0 <= slot < fingers,
        slot < 5,
    ensures
        ({
            let begin = Event::Gesture(GestureEvent::SwipeBegin { time, fingers });
            &&& state.step_for(begin, handle) matches StepView::Emit { plan }
            &&& plan.device == Device::Touchpad
            &&& plan.batches.len() == 2 + if fingers < 5 {
                fingers as int
            } else {
                5
            }
            &&& is_button(plan.batches[0], BTN_TOUCH, 1)
            &&& is_button(plan.batches[1], tool(fingers as int), 1)
            &&& {
                let down = plan.batches[2 + slot];
                &&& down.len() == 4
                &&& is_axis(down[0], ABS_MT_SLOT, slot)
                &&& is_axis(down[1], ABS_MT_TRACKING_ID, slot)
                &&& is_axis(down[2], ABS_MT_POSITION_X, 500)
                &&& is_axis(down[3], ABS_MT_POSITION_Y, 300)
            }
        }),
{
}

/// A swipe without fingers starts with the touch button and a tool only.
pub proof fn law_begin_plan_without_fingers(
    state: EmulationState,
    handle: EmulationHandle,
    time: u32,
)
    ensures
        ({
            let begin = Event::Gesture(GestureEvent::SwipeBegin { time, fingers: 0 });
            &&& state.step_for(begin, handle) matches StepView::Emit { plan }
            &&& plan.device == Device::Touchpad
            &&& plan.batches.len() == 2
            &&& is_button(plan.batches[0], BTN_TOUCH, 1)
            &&& is_button(plan.batches[1], BTN_TOOL_QUINTTAP, 1)
        }),
{
}

/// An update of a swipe tells each contact's slot and where its finger is, rounded.
pub proof fn law_position_plan(swipe: SwipeState, slot: int)
    requires
        swipe.wf(),
        0 <= slot < swipe.fingers,
    ensures
        ({
            let moves = swipe.position_batches();
            let moved = moves[slot];
            &&& moves.len() == swipe.fingers
            &&& moved.len() == 3
            &&& is_axis(moved[0], ABS_MT_SLOT, slot)
            &&& is_axis(moved[1], ABS_MT_POSITION_X, moved[1].value as int)
            &&& is_axis(moved[2], ABS_MT_POSITION_Y, moved[2].value as int)
            &&& swipe.positions[slot].x.rounds_to(moved[1].value as int)
            &&& swipe.positions[slot].y.rounds_to(moved[2].value as int)
        }),
{
    law_rounding(swipe.positions[slot].x);
    law_rounding(swipe.positions[slot].y);
}

/// A swipe without fingers has nothing to tell when it is updated.
pub proof fn law_position_plan_without_fingers(swipe: SwipeState)
    requires
        swipe.fingers == 0,
    ensures
        swipe.position_batches().len() == 0,
{
}

/// A swipe ends with each contact lifted from its slot, then the tool, then the touch button.
pub proof fn law_end_plan(
    state: EmulationState,
    handle: EmulationHandle,
    time: u32,
    cancelled: bool,
    slot: int,
)
    requires
        state.wf(),
    ensures
        ({
            let end = Event::Gesture(GestureEvent::SwipeEnd { time, cancelled });
            let count = state.gesture.fingers;
            &&& state.step_for(end, handle) matches StepView::Emit { plan }
            &&& plan.device == Device::Touchpad
            &&& plan.ends_swipe
            &&& plan.batches.len() == count + 2
            &&& is_button(plan.batches[count], tool(count), 0)
            &&& is_button(plan.batches[count + 1], BTN_TOUCH, 0)
            &&& 0 <= slot < count ==> {
                let up = plan.batches[slot];
                &&& up.len() == 2
                &&& is_axis(up[0], ABS_MT_SLOT, slot)
                &&& is_axis(up[1], ABS_MT_TRACKING_ID, -1)
            }
        }),
{
}

} // verus!
