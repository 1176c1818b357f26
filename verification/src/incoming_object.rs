//! What is known of an incoming connection, readable and writable by property name.

use vstd::prelude::*;

use crate::double::{one, Double};
use crate::emulation::DEFAULT_SCALE_BITS;

verus! {

/// Bit pattern of the greatest pointer scale: 1.
pub const MAX_SCALE_BITS: u64 = 0x3ff0_0000_0000_0000;

/// Whether a pointer scale lies between 0 and 1.
pub open spec fn is_pointer_scale(scale: Double) -> bool {
    !scale.is_nan() && 0 <= scale.units() <= one()
}

/// Whether a text can be the value of a property: one that holds no NUL character, which would end
/// it.
pub open spec fn is_text(text: Seq<char>) -> bool {
    !text.contains('\0')
}

/// Data of an incoming connection.
#[derive(Debug)]
pub struct IncomingData {
    pub fingerprint: String,
    pub description: String,
    pub address: String,
    pub position: String,
    /// Between 0 and 1.
    pub pointer_scale: Double,
}

#[verifier::ext_equal]
pub struct IncomingView {
    pub fingerprint: Seq<char>,
    pub description: Seq<char>,
    pub address: Seq<char>,
    pub position: Seq<char>,
    pub pointer_scale: Double,
}

impl View for IncomingData {
    type V = IncomingView;

    open spec fn view(&self) -> IncomingView {
        IncomingView {
            fingerprint: self.fingerprint@,
            description: self.description@,
            address: self.address@,
            position: self.position@,
            pointer_scale: self.pointer_scale,
        }
    }
}

impl Default for IncomingData {
    /// Empty texts, and a pointer scale of one half.
    fn default() -> (data: IncomingData)
        ensures
            data@ == IncomingView::initial(),
            data@.wf(),
    {
        proof {
            lemma_scale_bounds();
        }
        IncomingData {
            fingerprint: String::new(),
            description: String::new(),
            address: String::new(),
            position: String::new(),
            pointer_scale: Double { bits: DEFAULT_SCALE_BITS },
        }
    }
}

impl Clone for IncomingData {
    fn clone(&self) -> (data: IncomingData)
        ensures
            data@ == self@,
    {
        IncomingData {
            fingerprint: self.fingerprint.clone(),
            description: self.description.clone(),
            address: self.address.clone(),
            position: self.position.clone(),
            pointer_scale: self.pointer_scale,
        }
    }
}

/// A property's value.
#[derive(Debug)]
pub enum PropertyValue {
    Text { text: String },
    Number { number: Double },
}

#[verifier::ext_equal]
pub enum ValueView {
    Text { text: Seq<char> },
    Number { number: Double },
}

impl View for PropertyValue {
    type V = ValueView;

    open spec fn view(&self) -> ValueView {
        match self {
            PropertyValue::Text { text } => ValueView::Text { text: text@ },
            PropertyValue::Number { number } => ValueView::Number { number: *number },
        }
    }
}

/// What values a property takes.
#[derive(Clone, Copy, Debug, PartialEq, Eq, Structural)]
pub enum PropertyKind {
    Text,
    /// A number from `minimum` to `maximum`, at first `default`.
    Number { minimum: Double, maximum: Double, default: Double },
}

/// A property that incoming connections have.
#[derive(Debug)]
pub struct PropertySpec {
    pub name: String,
    pub kind: PropertyKind,
}

/// The names of the properties, in the order in which they are declared.
pub open spec fn property_names() -> Seq<Seq<char>> {
    seq!["fingerprint"@, "description"@, "address"@, "position"@, "pointer-scale"@]
}

/// The kinds of the properties, in the order in which they are declared.
pub open spec fn property_kinds() -> Seq<PropertyKind> {
    seq![
        PropertyKind::Text,
        PropertyKind::Text,
        PropertyKind::Text,
        PropertyKind::Text,
        PropertyKind::Number {
            minimum: Double { bits: 0 },
            maximum: Double { bits: MAX_SCALE_BITS },
            default: Double { bits: DEFAULT_SCALE_BITS },
        },
    ]
}

/// Whether the property called `name` exists and takes `value`.
pub open spec fn accepts_value(name: Seq<char>, value: ValueView) -> bool {
    match value {
        ValueView::Text { text } => {
            &&& is_text(text)
            &&& {
                ||| name == "fingerprint"@
                ||| name == "description"@
                ||| name == "address"@
                ||| name == "position"@
            }
        },
        ValueView::Number { number } => name == "pointer-scale"@ && is_pointer_scale(number),
    }
}

impl IncomingView {
    pub open spec fn wf(self) -> bool {
        &&& is_text(self.fingerprint)
        &&& is_text(self.description)
        &&& is_text(self.address)
        &&& is_text(self.position)
        &&& is_pointer_scale(self.pointer_scale)
    }

    /// Empty texts, and a pointer scale of one half.
    pub open spec fn initial() -> IncomingView {
        IncomingView {
            fingerprint: seq![],
            description: seq![],
            address: seq![],
            position: seq![],
            pointer_scale: Double { bits: DEFAULT_SCALE_BITS },
        }
    }

    /// The value of the property called `name`.
    pub open spec fn property(self, name: Seq<char>) -> ValueView {
        if name == "fingerprint"@ {
            ValueView::Text { text: self.fingerprint }
        } else if name == "description"@ {
            ValueView::Text { text: self.description }
        } else if name == "address"@ {
            ValueView::Text { text: self.address }
        } else if name == "position"@ {
            ValueView::Text { text: self.position }
        } else {
            ValueView::Number { number: self.pointer_scale }
        }
    }

    /// The data with the property called `name` set to `value`.
    pub open spec fn with_property(self, name: Seq<char>, value: ValueView) -> IncomingView {
        match value {
            ValueView::Text { text } => {
                if name == "fingerprint"@ {
                    IncomingView { fingerprint: text, ..self }
                } else if name == "description"@ {
                    IncomingView { description: text, ..self }
                } else if name == "address"@ {
                    IncomingView { address: text, ..self }
                } else {
                    IncomingView { position: text, ..self }
                }
            },
            ValueView::Number { number } => IncomingView { pointer_scale: number, ..self },
        }
    }
}

/// The default scale and the ends of the range are pointer scales.
pub proof fn lemma_scale_bounds()
    ensures
        is_pointer_scale(Double { bits: DEFAULT_SCALE_BITS }),
        (Double { bits: 0 }).denotes(0),
        (Double { bits: MAX_SCALE_BITS }).denotes(1),
{
    vstd::arithmetic::power2::lemma2_to64();
    vstd::arithmetic::power2::lemma2_to64_rest();
    crate::emulation::lemma_scale_constants();
    crate::double::lemma_denotes(MAX_SCALE_BITS, 1);
}

/// Whether two texts are the same.
fn same_text(one: &str, other: &str) -> (same: bool)
    ensures
        same == (one@ == other@),
{
    one.to_owned() == other.to_owned()
}

/// Whether a text holds no NUL character.
fn is_whole(text: &str) -> (whole: bool)
    ensures
        whole == is_text(text@),
{
    for c in iter: text.chars()
        invariant
            iter.seq() == text@,
            forall|i: int| 0 <= i < iter.index() ==> text@[i] != '\0',
    {
        if c == '\0' {
            assert(text@[iter.index() as int] == '\0');
            return false;
        }
    }
    true
}

/// An incoming connection.
#[derive(Debug)]
pub struct IncomingObject {
    data: IncomingData,
}

impl View for IncomingObject {
    type V = IncomingView;

    closed spec fn view(&self) -> IncomingView {
        self.data@
    }
}

impl Default for IncomingObject {
    /// A connection of which nothing is known.
    fn default() -> (object: IncomingObject)
        ensures
            object@ == IncomingView::initial(),
            object@.wf(),
    {
        IncomingObject { data: IncomingData::default() }
    }
}

impl IncomingObject {
    /// What holds of every connection.
    #[verifier::type_invariant]
    pub open spec fn is_valid(self) -> bool {
        self@.wf()
    }

    /// A connection with the given data.
    pub fn new(
        fingerprint: String,
        description: String,
        address: String,
        position: String,
        pointer_scale: Double,
    ) -> (object: IncomingObject)
        requires
            is_text(fingerprint@),
            is_text(description@),
            is_text(address@),
            is_text(position@),
            is_pointer_scale(pointer_scale),
        ensures
            object@ == (IncomingView {
                fingerprint: fingerprint@,
                description: description@,
                address: address@,
                position: position@,
                pointer_scale,
            }),
            object@.wf(),
    {
        let mut object = IncomingObject::default();
        object.set_fingerprint(fingerprint);
        object.set_description(description);
        object.set_address(address);
        object.set_position(position);
        object.set_pointer_scale(pointer_scale);
        object
    }

    /// The properties of a connection.
    pub fn properties() -> (specs: Vec<PropertySpec>)
        ensures
            specs@.map_values(|spec: PropertySpec| spec.name@) == property_names(),
            specs@.map_values(|spec: PropertySpec| spec.kind) == property_kinds(),
    {
        let specs = vec![
            PropertySpec { name: "fingerprint".to_owned(), kind: PropertyKind::Text },
            PropertySpec { name: "description".to_owned(), kind: PropertyKind::Text },
            PropertySpec { name: "address".to_owned(), kind: PropertyKind::Text },
            PropertySpec { name: "position".to_owned(), kind: PropertyKind::Text },
            PropertySpec {
                name: "pointer-scale".to_owned(),
                kind: PropertyKind::Number {
                    minimum: Double { bits: 0 },
                    maximum: Double { bits: MAX_SCALE_BITS },
                    default: Double { bits: DEFAULT_SCALE_BITS },
                },
            },
        ];
        assert(specs@.map_values(|spec: PropertySpec| spec.name@) =~= property_names());
        assert(specs@.map_values(|spec: PropertySpec| spec.kind) =~= property_kinds());
        specs
    }

    /// Whether the property called `name` exists and takes `value`.
    pub fn accepts(name: &str, value: &PropertyValue) -> (accepted: bool)
        ensures
            accepted == accepts_value(name@, value@),
    {
        match value {
            PropertyValue::Text { text } => {
                (same_text(name, "fingerprint") || same_text(name, "description") || same_text(
                    name,
                    "address",
                ) || same_text(name, "position")) && is_whole(text.as_str())
            },
            PropertyValue::Number { number } => {
                proof {
                    lemma_scale_bounds();
                }
                let zero = Double { bits: 0 };
                let greatest = Double { bits: MAX_SCALE_BITS };
                same_text(name, "pointer-scale") && !number.nan() && !number.lt(zero)
                    && !greatest.lt(*number)
            },
        }
    }

    /// The value of the property called `name`.
    pub fn property(&self, name: &str) -> (value: PropertyValue)
        requires
            property_names().contains(name@),
        ensures
            value@ == self@.property(name@),
    {
        if same_text(name, "fingerprint") {
            PropertyValue::Text { text: self.data.fingerprint.clone() }
        } else if same_text(name, "description") {
            PropertyValue::Text { text: self.data.description.clone() }
        } else if same_text(name, "address") {
            PropertyValue::Text { text: self.data.address.clone() }
        } else if same_text(name, "position") {
            PropertyValue::Text { text: self.data.position.clone() }
        } else {
            PropertyValue::Number { number: self.data.pointer_scale }
        }
    }

    /// Sets the property called `name`.
    pub fn set_property(&mut self, name: &str, value: PropertyValue)
        requires
            accepts_value(name@, value@),
        ensures
            final(self)@ == old(self)@.with_property(name@, value@),
            final(self)@.wf(),
    {
        proof {
            use_type_invariant(&*self);
        }
        match value {
            PropertyValue::Text { text } => {
                if same_text(name, "fingerprint") {
                    self.data.fingerprint = text;
                } else if same_text(name, "description") {
                    self.data.description = text;
                } else if same_text(name, "address") {
                    self.data.address = text;
                } else {
                    self.data.position = text;
                }
            },
            PropertyValue::Number { number } => {
                self.data.pointer_scale = number;
            },
        }
    }

    /// A copy of the data.
    pub fn get_data(&self) -> (data: IncomingData)
        ensures
            data@ == self@,
            data@.wf(),
    {
        proof {
            use_type_invariant(self);
        }
        self.data.clone()
    }

    pub fn fingerprint(&self) -> (fingerprint: String)
        ensures
            fingerprint@ == self@.fingerprint,
            is_text(fingerprint@),
    {
        proof {
            use_type_invariant(self);
        }
        self.data.fingerprint.clone()
    }

    pub fn set_fingerprint(&mut self, fingerprint: String)
        requires
            is_text(fingerprint@),
        ensures
            final(self)@ == (IncomingView { fingerprint: fingerprint@, ..old(self)@ }),
            final(self)@.wf(),
    {
        self.set_property("fingerprint", PropertyValue::Text { text: fingerprint });
    }

    pub fn description(&self) -> (description: String)
        ensures
            description@ == self@.description,
            is_text(description@),
    {
        proof {
            use_type_invariant(self);
        }
        self.data.description.clone()
    }

    pub fn set_description(&mut self, description: String)
        requires
            is_text(description@),
        ensures
            final(self)@ == (IncomingView { description: description@, ..old(self)@ }),
            final(self)@.wf(),
    {
        proof {
            lemma_names_differ();
        }
        self.set_property("description", PropertyValue::Text { text: description });
    }

    pub fn address(&self) -> (address: String)
        ensures
            address@ == self@.address,
            is_text(address@),
    {
        proof {
            use_type_invariant(self);
        }
        self.data.address.clone()
    }

    pub fn set_address(&mut self, address: String)
        requires
            is_text(address@),
        ensures
            final(self)@ == (IncomingView { address: address@, ..old(self)@ }),
            final(self)@.wf(),
    {
        proof {
            lemma_names_differ();
        }
        self.set_property("address", PropertyValue::Text { text: address });
    }

    pub fn position(&self) -> (position: String)
        ensures
            position@ == self@.position,
            is_text(position@),
    {
        proof {
            use_type_invariant(self);
        }
        self.data.position.clone()
    }

    pub fn set_position(&mut self, position: String)
        requires
            is_text(position@),
        ensures
            final(self)@ == (IncomingView { position: position@, ..old(self)@ }),
            final(self)@.wf(),
    {
        proof {
            lemma_names_differ();
        }
        self.set_property("position", PropertyValue::Text { text: position });
    }

    pub fn pointer_scale(&self) -> (pointer_scale: Double)
        ensures
            pointer_scale == self@.pointer_scale,
            is_pointer_scale(pointer_scale),
    {
        proof {
            use_type_invariant(self);
        }
        self.data.pointer_scale
    }

    pub fn set_pointer_scale(&mut self, pointer_scale: Double)
        requires
            is_pointer_scale(pointer_scale),
        ensures
            final(self)@ == (IncomingView { pointer_scale, ..old(self)@ }),
            final(self)@.wf(),
    {
        self.set_property("pointer-scale", PropertyValue::Number { number: pointer_scale });
    }
}

/// No two properties have the same name.
pub proof fn lemma_names_differ()
    ensures
        forall|i: int, j: int|
            0 <= i < j < property_names().len() ==> property_names()[i] != property_names()[j],
        "fingerprint"@ != "description"@,
        "fingerprint"@ != "address"@,
        "fingerprint"@ != "position"@,
        "fingerprint"@ != "pointer-scale"@,
        "description"@ != "address"@,
        "description"@ != "position"@,
        "description"@ != "pointer-scale"@,
        "address"@ != "position"@,
        "address"@ != "pointer-scale"@,
        "position"@ != "pointer-scale"@,
{
    reveal_strlit("fingerprint");
    reveal_strlit("description");
    reveal_strlit("address");
    reveal_strlit("position");
    reveal_strlit("pointer-scale");
    assert("fingerprint"@[0] != "description"@[0]);
    assert("address"@.len() == 7 && "position"@.len() == 8 && "pointer-scale"@.len() == 13);
}

/// A property reads back as what it was last set to, and setting it changes no other property.
pub proof fn law_property_set_and_read(
    data: IncomingView,
    name: Seq<char>,
    value: ValueView,
    other: Seq<char>,
)
    requires
        accepts_value(name, value),
        property_names().contains(other),
        other != name,
    ensures
        data.with_property(name, value).property(name) == value,
        data.with_property(name, value).property(other) == data.property(other),
        data.wf() ==> data.with_property(name, value).wf(),
{
    lemma_names_differ();
}

/// A value is accepted exactly by a declared property of its kind: a text if no character of it is
/// a NUL, a number if it lies in the declared range.
pub proof fn law_accepted_values(name: Seq<char>, value: ValueView)
    ensures
        accepts_value(name, value) <==> exists|i: int|
            0 <= i < property_names().len() && #[trigger] property_names()[i] == name && match (
                property_kinds()[i],
                value,
            ) {
                (PropertyKind::Text, ValueView::Text { text }) => forall|j: int|
                    0 <= j < text.len() ==> text[j] != '\0',
                (
                    PropertyKind::Number { minimum, maximum, .. },
                    ValueView::Number { number },
                ) => {
                    &&& !number.is_nan()
                    &&& minimum.units() <= number.units() <= maximum.units()
                },
                _ => false,
            },
{
    lemma_scale_bounds();
    lemma_names_differ();
    let names = property_names();
    assert(names[0] == "fingerprint"@ && names[1] == "description"@ && names[2] == "address"@);
    assert(names[3] == "position"@ && names[4] == "pointer-scale"@);
    if let ValueView::Text { text } = value {
        if !is_text(text) {
            let j = choose|j: int| 0 <= j < text.len() && text[j] == '\0';
            assert(text[j] == '\0');
        } else {
            assert forall|j: int| 0 <= j < text.len() implies text[j] != '\0' by {
                if text[j] == '\0' {
                    assert(text.contains('\0'));
                }
            }
        }
    }
}

/// Each property is the piece of data that it is named after, both read and set.
pub proof fn law_properties_are_the_data(data: IncomingView, text: Seq<char>, number: Double)
    ensures
        data.property("fingerprint"@) == (ValueView::Text { text: data.fingerprint }),
        data.property("description"@) == (ValueView::Text { text: data.description }),
        data.property("address"@) == (ValueView::Text { text: data.address }),
        data.property("position"@) == (ValueView::Text { text: data.position }),
        data.property("pointer-scale"@) == (ValueView::Number { number: data.pointer_scale }),
        data.with_property("fingerprint"@, ValueView::Text { text }) == (IncomingView {
            fingerprint: text,
            ..data
        }),
        data.with_property("description"@, ValueView::Text { text }) == (IncomingView {
            description: text,
            ..data
        }),
        data.with_property("address"@, ValueView::Text { text }) == (IncomingView {
            address: text,
            ..data
        }),
        data.with_property("position"@, ValueView::Text { text }) == (IncomingView {
            position: text,
            ..data
        }),
        data.with_property("pointer-scale"@, ValueView::Number { number }) == (IncomingView {
            pointer_scale: number,
            ..data
        }),
{
    lemma_names_differ();
}

/// Data and values are seen as they are.
pub proof fn law_data_is_seen_as_it_is(data: IncomingData, value: PropertyValue)
    ensures
        data@.fingerprint == data.fingerprint@,
        data@.description == data.description@,
        data@.address == data.address@,
        data@.position == data.position@,
        data@.pointer_scale == data.pointer_scale,
        value matches PropertyValue::Text { text } ==> value@ == (ValueView::Text { text: text@ }),
        value matches PropertyValue::Number { number } ==> value@ == (ValueView::Number { number }),
{
}

/// Every scale from 0 to 1 is a pointer scale, and nothing else is.
pub proof fn law_pointer_scales(scale: Double, n: int)
    ensures
        is_pointer_scale(scale) ==> !scale.is_nan() && 0 <= scale.units() <= one(),
        !scale.is_nan() && 0 <= scale.units() <= one() ==> is_pointer_scale(scale),
        scale.denotes(n) ==> (is_pointer_scale(scale) <==> n == 0 || n == 1),
{
    vstd::arithmetic::power2::lemma_pow2_pos(1074);
    let d = one() as int;
    assert(0 <= n * d <= d <==> n == 0 || n == 1) by (nonlinear_arith)
        requires
            d > 0,
    ;
}

} // verus!
