//! The row that presents an incoming connection: its texts, and the slider for its pointer scale.

use vstd::prelude::*;
use vstd::string::StringExecFns;

use crate::double::Double;
use crate::incoming_object::{
    is_text, lemma_names_differ, IncomingObject, IncomingView, ValueView,
};

verus! {

/// Something to do with the slider.
#[derive(Clone, Copy, Debug, PartialEq, Eq, Structural)]
pub enum SliderStep {
    /// Stop telling of changes.
    Block,
    SetValue { value: Double },
    /// Tell of changes again.
    Unblock,
}

/// The texts of a row and what to do with its slider.
#[derive(Debug)]
pub struct Presentation {
    pub title: String,
    pub subtitle: String,
    pub slider: Vec<SliderStep>,
}

/// A signal with one number as its argument.
#[derive(Debug)]
pub struct Signal {
    pub name: String,
    pub value: Double,
}

/// The title of a connection: its description, or its fingerprint where that is empty.
pub open spec fn title_of(data: IncomingView) -> Seq<char> {
    if data.description.len() > 0 {
        data.description
    } else {
        data.fingerprint
    }
}

/// The subtitle of a connection: its fingerprint and its address.
pub open spec fn subtitle_of(data: IncomingView) -> Seq<char> {
    data.fingerprint + " @ "@ + data.address
}

/// Sets the slider without telling of the change.
pub open spec fn quiet_set(value: Double) -> Seq<SliderStep> {
    seq![SliderStep::Block, SliderStep::SetValue { value }, SliderStep::Unblock]
}

/// The title of a connection with the given description and fingerprint: the description, or the
/// fingerprint where that is empty.
pub fn title_for_description(description: String, fingerprint: String) -> (title: String)
    ensures
        title@ == (if description@.len() > 0 {
            description@
        } else {
            fingerprint@
        }),
{
    if description.as_str().is_empty() {
        fingerprint
    } else {
        description
    }
}

/// What a signal passes to its handlers.
#[derive(Clone, Copy, Debug, PartialEq, Eq, Structural)]
pub enum SignalParameter {
    /// A double-precision number.
    Number,
}

/// A signal that rows have.
#[derive(Debug)]
pub struct SignalSpec {
    pub name: String,
    pub parameters: Vec<SignalParameter>,
}

/// State of a row. `O` refers to a connection, `B` to a property binding and `H` to a connected
/// signal handler.
#[derive(Debug)]
#[verifier::reject_recursive_types(O)]
#[verifier::reject_recursive_types(B)]
#[verifier::reject_recursive_types(H)]
pub struct IncomingRow<O, B, H> {
    bindings: Vec<B>,
    pointer_scale_change_handler: Option<H>,
    incoming_object: Option<O>,
}

#[verifier::ext_equal]
#[verifier::reject_recursive_types(O)]
#[verifier::reject_recursive_types(B)]
#[verifier::reject_recursive_types(H)]
pub struct RowView<O, B, H> {
    pub bindings: Seq<B>,
    pub handler: Option<H>,
    pub object: Option<O>,
}

impl<O, B, H> View for IncomingRow<O, B, H> {
    type V = RowView<O, B, H>;

    closed spec fn view(&self) -> RowView<O, B, H> {
        RowView {
            bindings: self.bindings@,
            handler: self.pointer_scale_change_handler,
            object: self.incoming_object,
        }
    }
}

impl<O, B, H> RowView<O, B, H> {
    /// A row that presents nothing and has no slider yet.
    pub open spec fn initial() -> RowView<O, B, H> {
        RowView { bindings: seq![], handler: None, object: None }
    }

    /// The slider is there, and `handler` tells of its changes.
    pub open spec fn constructed(self, handler: H) -> RowView<O, B, H> {
        RowView { handler: Some(handler), ..self }
    }

    /// The row presents `object`.
    pub open spec fn bound(self, object: O) -> RowView<O, B, H> {
        RowView { object: Some(object), ..self }
    }

    /// The row keeps `binding` until it is unbound.
    pub open spec fn holding(self, binding: B) -> RowView<O, B, H> {
        RowView { bindings: self.bindings.push(binding), ..self }
    }

    /// The row presents nothing.
    pub open spec fn unbound(self) -> RowView<O, B, H> {
        RowView { bindings: seq![], object: None, ..self }
    }
}

impl<O, B, H> Default for IncomingRow<O, B, H> {
    fn default() -> (row: IncomingRow<O, B, H>)
        ensures
            row@ == RowView::<O, B, H>::initial(),
    {
        IncomingRow::new()
    }
}

impl<O, B, H> IncomingRow<O, B, H> {
    /// A row that presents nothing and has no slider yet.
    pub fn new() -> (row: IncomingRow<O, B, H>)
        ensures
            row@ == RowView::<O, B, H>::initial(),
    {
        let row = IncomingRow {
            bindings: Vec::new(),
            pointer_scale_change_handler: None,
            incoming_object: None,
        };
        assert(row@.bindings =~= seq![]);
        row
    }

    /// Records the handler that tells of changes of the slider.
    pub fn constructed(&mut self, handler: H)
        ensures
            final(self)@ == old(self)@.constructed(handler),
    {
        self.pointer_scale_change_handler = Some(handler);
    }

    /// The handler that tells of changes of the slider.
    pub fn handler(&self) -> (handler: Option<&H>)
        ensures
            handler is Some <==> self@.handler is Some,
            handler matches Some(h) ==> *h == self@.handler->0,
    {
        self.pointer_scale_change_handler.as_ref()
    }

    /// The signals of a row: the request for another pointer scale.
    pub fn signals() -> (signals: Vec<SignalSpec>)
        ensures
            signals@.len() == 1,
            signals@[0].name@ == "request-pointer-scale-change"@,
            signals@[0].parameters@ == seq![SignalParameter::Number],
    {
        let parameters = vec![SignalParameter::Number];
        assert(parameters@ =~= seq![SignalParameter::Number]);
        vec![SignalSpec { name: "request-pointer-scale-change".to_owned(), parameters }]
    }

    /// The signal to emit when the user has moved the slider to `value`.
    pub fn handle_pointer_scale_changed(&self, value: Double) -> (signal: Signal)
        ensures
            signal.name@ == "request-pointer-scale-change"@,
            signal.value == value,
    {
        Signal { name: "request-pointer-scale-change".to_owned(), value }
    }

    /// What to do to show `scale` on the slider without asking for it as a change.
    pub fn set_pointer_scale(&self, scale: Double) -> (steps: Vec<SliderStep>)
        requires
            self@.handler is Some,
        ensures
            steps@ == quiet_set(scale),
    {
        let steps = vec![
            SliderStep::Block,
            SliderStep::SetValue { value: scale },
            SliderStep::Unblock,
        ];
        assert(steps@ =~= quiet_set(scale));
        steps
    }

    /// Presents `incoming`, to which `object` refers.
    pub fn bind(&mut self, object: O, incoming: &IncomingObject) -> (presentation: Presentation)
        requires
            old(self)@.handler is Some,
        ensures
            final(self)@ == old(self)@.bound(object),
            presentation.title@ == title_of(incoming@),
            presentation.subtitle@ == subtitle_of(incoming@),
            presentation.slider@ == quiet_set(incoming@.pointer_scale),
    {
        let title = title_for_description(incoming.description(), incoming.fingerprint());
        let mut subtitle = incoming.fingerprint();
        subtitle.append(" @ ");
        subtitle.append(incoming.address().as_str());
        let slider = self.set_pointer_scale(incoming.pointer_scale());
        self.incoming_object = Some(object);
        Presentation { title, subtitle, slider }
    }

    /// Keeps the binding of the title to the description until the row is unbound.
    pub fn hold_binding(&mut self, binding: B)
        ensures
            final(self)@ == old(self)@.holding(binding),
    {
        self.bindings.push(binding);
    }

    /// Presents nothing any more, and gives the bindings that have to be released, oldest first.
    pub fn unbind(&mut self) -> (released: Vec<B>)
        ensures
            released@ == old(self)@.bindings,
            final(self)@ == old(self)@.unbound(),
    {
        let mut released: Vec<B> = Vec::new();
        std::mem::swap(&mut released, &mut self.bindings);
        self.incoming_object = None;
        assert(self@.bindings =~= seq![]);
        released
    }

    /// The connection that the row presents.
    pub fn incoming_object(&self) -> (object: Option<&O>)
        ensures
            object is Some <==> self@.object is Some,
            object matches Some(o) ==> *o == self@.object->0,
    {
        self.incoming_object.as_ref()
    }
}

/// A slider: where it stands, and how often telling of changes was blocked.
pub struct SliderState {
    pub value: Double,
    pub blocked: nat,
}

impl SliderState {
    /// The slider after a step.
    pub open spec fn after(self, step: SliderStep) -> SliderState {
        match step {
            SliderStep::Block => SliderState { blocked: self.blocked + 1, ..self },
            SliderStep::SetValue { value } => SliderState { value, ..self },
            SliderStep::Unblock => SliderState { blocked: (self.blocked - 1) as nat, ..self },
        }
    }

    /// Whether a step is told of: a change of the value while that is not blocked.
    pub open spec fn tells(self, step: SliderStep) -> bool {
        match step {
            SliderStep::SetValue { value } => self.blocked == 0 && value != self.value,
            _ => false,
        }
    }
}

/// Showing a scale leaves the slider at that scale and as blocked as it was, and no step of it is
/// told of, whereas the user moving an unblocked slider is.
pub proof fn law_shown_scale_is_not_requested(slider: SliderState, scale: Double, moved: Double)
    ensures
        ({
            let steps = quiet_set(scale);
            let blocked = slider.after(steps[0]);
            let set = blocked.after(steps[1]);
            let shown = set.after(steps[2]);
            &&& shown == (SliderState { value: scale, blocked: slider.blocked })
            &&& !slider.tells(steps[0]) && !blocked.tells(steps[1]) && !set.tells(steps[2])
            &&& slider.blocked == 0 && moved != scale ==> shown.tells(
                SliderStep::SetValue { value: moved },
            )
        }),
{
}

/// A title is empty only where both description and fingerprint are.
pub proof fn law_title_is_never_left_empty(data: IncomingView)
    ensures
        title_of(data).len() == 0 <==> data.description.len() == 0 && data.fingerprint.len() == 0,
{
}

/// The texts of a row hold no NUL character, so they are shown to their end.
pub proof fn law_shown_texts_are_whole(data: IncomingView)
    requires
        data.wf(),
    ensures
        is_text(title_of(data)),
        is_text(subtitle_of(data)),
{
    reveal_strlit(" @ ");
}

/// The data of a connection after its description was set to each of `descriptions` in turn.
pub open spec fn described(data: IncomingView, descriptions: Seq<Seq<char>>) -> IncomingView
    decreases descriptions.len(),
{
    if descriptions.len() == 0 {
        data
    } else {
        described(data, descriptions.drop_last()).with_property(
            "description"@,
            ValueView::Text { text: descriptions.last() },
        )
    }
}

/// However often the description is changed, the title is the last one where that is not empty,
/// and the fingerprint where it is.
pub proof fn law_title_follows_description(data: IncomingView, descriptions: Seq<Seq<char>>)
    requires
        descriptions.len() > 0,
    ensures
        title_of(described(data, descriptions)) == if descriptions.last().len() > 0 {
            descriptions.last()
        } else {
            data.fingerprint
        },
{
    lemma_described(data, descriptions);
}

/// Setting the description changes nothing else.
proof fn lemma_described(data: IncomingView, descriptions: Seq<Seq<char>>)
    ensures
        described(data, descriptions) == (IncomingView {
            description: if descriptions.len() > 0 {
                descriptions.last()
            } else {
                data.description
            },
            ..data
        }),
    decreases descriptions.len(),
{
    lemma_names_differ();
    if descriptions.len() > 0 {
        lemma_described(data, descriptions.drop_last());
    }
}

/// Unbinding undoes binding: what is left is the row as it was before it presented anything, and
/// a second unbinding changes nothing.
pub proof fn law_unbind_undoes_bind<O, B, H>(row: RowView<O, B, H>, object: O, binding: B)
    ensures
        row.bound(object).holding(binding).unbound() == row.unbound(),
        row.bindings.len() == 0 && row.object is None ==> row.bound(object).holding(
            binding,
        ).unbound() == row,
        row.unbound().unbound() == row.unbound(),
        row.unbound().handler == row.handler,
{
    if row.bindings.len() == 0 {
        assert(row.bindings =~= seq![]);
    }
}

/// The title is the description where there is one, else the fingerprint; address, position and
/// pointer scale make no difference to it.
pub proof fn law_title_is_description_or_fingerprint(data: IncomingView, other: IncomingView)
    ensures
        data.description.len() > 0 ==> title_of(data) == data.description,
        data.description.len() == 0 ==> title_of(data) == data.fingerprint,
        data.description == other.description && data.fingerprint == other.fingerprint
            ==> title_of(data) == title_of(other),
{
}

/// The subtitle starts with the fingerprint and ends with the address, and between them stands an
/// at sign with a space on either side.
pub proof fn law_subtitle(data: IncomingView)
    ensures
        ({
            let subtitle = subtitle_of(data);
            let end = data.fingerprint.len() as int;
            &&& subtitle.len() == end + 3 + data.address.len()
            &&& subtitle.take(end) == data.fingerprint
            &&& subtitle[end] == ' ' && subtitle[end + 1] == '@' && subtitle[end + 2] == ' '
            &&& subtitle.skip(end + 3) == data.address
        }),
{
    reveal_strlit(" @ ");
    let end = data.fingerprint.len() as int;
    assert(subtitle_of(data).take(end) =~= data.fingerprint);
    assert(subtitle_of(data).skip(end + 3) =~= data.address);
}

/// Showing a scale takes three steps: telling of changes is stopped, the scale is set, and changes
/// are told of again.
pub proof fn law_scale_is_set_between_blocks(scale: Double)
    ensures
        quiet_set(scale).len() == 3,
        quiet_set(scale)[0] is Block,
        quiet_set(scale)[1] == (SliderStep::SetValue { value: scale }),
        quiet_set(scale)[2] is Unblock,
{
}

/// Each operation on a row changes what it is for and nothing else.
pub proof fn law_row_operations<O, B, H>(row: RowView<O, B, H>, object: O, binding: B, handler: H)
    ensures
        row.bound(object).object == Some(object),
        row.bound(object).bindings == row.bindings,
        row.bound(object).handler == row.handler,
        row.holding(binding).bindings.len() == row.bindings.len() + 1,
        row.holding(binding).bindings.last() == binding,
        row.holding(binding).bindings.drop_last() == row.bindings,
        row.holding(binding).object == row.object,
        row.holding(binding).handler == row.handler,
        row.constructed(handler).handler == Some(handler),
        row.constructed(handler).bindings == row.bindings,
        row.constructed(handler).object == row.object,
        row.unbound().bindings.len() == 0,
        row.unbound().object is None,
        row.unbound().handler == row.handler,
        RowView::<O, B, H>::initial().bindings.len() == 0,
        RowView::<O, B, H>::initial().object is None,
        RowView::<O, B, H>::initial().handler is None,
{
    assert(row.holding(binding).bindings.drop_last() =~= row.bindings);
}

} // verus!
