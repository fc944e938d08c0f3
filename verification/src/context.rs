//! The state of an extraction between two events, and what each event does to it.

use crate::coords::{coords_of, poslist_to_coords, Position, PositionView};
use crate::error::ExtractError;
use crate::feature::{
    with_property, Feature, FeatureView, PropertyMap, PropertyValue, PropertyValueView,
    PropertyView,
};
use crate::number::{is_float_text, parse_unsigned, unsigned_value, Decimal};
use crate::tags::{
    fixed_property, fixed_property_name, Tag, BUILDING_ID, EXTRUSION_HEIGHT_CODE, GROUP_LABEL,
    PROPERTY_BUILDING_ID, PROPERTY_EXTRUSION_HEIGHT, SEPARATOR,
};
use crate::text::{joined, str_eq, trim, trimmed};
use vstd::prelude::*;

verus! {

/// The state of an extraction as contracts see it.
pub struct ContextView {
    /// Inside a roof edge.
    pub in_roof_edge: bool,
    /// Inside a position list.
    pub in_pos_list: bool,
    /// Inside an element whose text is a value.
    pub in_value: bool,
    /// The name that attributes of the open generic attribute set are written under.
    pub prefix: Option<Seq<char>>,
    /// The text property that awaits its end tag, and the value seen for it.
    pub text_name: Option<Seq<char>>,
    pub text_value: Option<Seq<char>>,
    /// The number property that awaits its end tag, and the value seen for it.
    pub number_name: Option<Seq<char>>,
    pub number_value: Option<Seq<char>>,
    /// The unsigned property that awaits its end tag, and the value seen for it.
    pub unsigned_name: Option<Seq<char>>,
    pub unsigned_value: Option<u64>,
    /// Inside an extended attribute, a key-value pair, a key, a code value.
    pub in_extended_attribute: bool,
    pub in_key_value_pair: bool,
    pub in_key: bool,
    pub in_code_value: bool,
    /// The key and the value seen in the open extended attribute.
    pub extended_key: Option<Seq<char>>,
    pub extended_value: Option<Seq<char>>,
    /// The properties of the building that is being read.
    pub properties: Seq<PropertyView>,
    /// The rings gathered for the building that is being read.
    pub rings: Seq<Seq<PositionView>>,
}

/// The state before the first event.
pub open spec fn initial() -> ContextView {
    ContextView {
        in_roof_edge: false,
        in_pos_list: false,
        in_value: false,
        prefix: None,
        text_name: None,
        text_value: None,
        number_name: None,
        number_value: None,
        unsigned_name: None,
        unsigned_value: None,
        in_extended_attribute: false,
        in_key_value_pair: false,
        in_key: false,
        in_code_value: false,
        extended_key: None,
        extended_value: None,
        properties: Seq::empty(),
        rings: Seq::empty(),
    }
}

/// The name that attributes of the generic attribute set `name` are written under.
pub open spec fn group_prefix(name: Seq<char>) -> Seq<char> {
    GROUP_LABEL@ + name
}

/// The property of the attribute `name` in the set with the prefix `prefix`.
pub open spec fn grouped_name(prefix: Seq<char>, name: Seq<char>) -> Seq<char> {
    prefix + SEPARATOR@ + name
}

/// The property that the generic string attribute `name` is written to: inside a
/// set, the set's prefix and the name; outside, only the building's identifier has
/// one.
pub open spec fn string_attribute_property(prefix: Option<Seq<char>>, name: Seq<char>) -> Option<
    Seq<char>,
> {
    match prefix {
        Some(p) => Some(grouped_name(p, name)),
        None => if name == BUILDING_ID@ {
            Some(PROPERTY_BUILDING_ID@)
        } else {
            None
        },
    }
}

/// The property that the generic measure attribute `name` is written to.
pub open spec fn measure_attribute_property(prefix: Option<Seq<char>>, name: Seq<char>) -> Seq<
    char,
> {
    match prefix {
        Some(p) => grouped_name(p, name),
        None => name,
    }
}

/// The state after the start tag of `tag`. `name` is the value of the tag's `name`
/// attribute, which only the generic attributes and their sets read.
pub open spec fn after_start(s: ContextView, tag: Tag, name: Seq<char>) -> ContextView {
    match tag {
        Tag::Building => ContextView { properties: Seq::empty(), ..s },
        Tag::RoofEdge => ContextView { in_roof_edge: true, ..s },
        Tag::PosList => ContextView { in_pos_list: true, ..s },
        Tag::ExtendedAttribute => ContextView { in_extended_attribute: true, ..s },
        Tag::KeyValuePair => ContextView { in_key_value_pair: true, ..s },
        Tag::Key => ContextView { in_key: true, ..s },
        Tag::CodeValue => ContextView { in_code_value: true, ..s },
        Tag::GenericAttributeSet => ContextView { prefix: Some(group_prefix(name)), ..s },
        Tag::StringAttribute => ContextView {
            text_name: string_attribute_property(s.prefix, name),
            text_value: None,
            ..s
        },
        Tag::MeasureAttribute => ContextView {
            number_name: Some(measure_attribute_property(s.prefix, name)),
            number_value: None,
            ..s
        },
        Tag::Value => ContextView { in_value: true, ..s },
        Tag::Name | Tag::LocalityName => ContextView {
            text_name: fixed_property(tag),
            in_value: true,
            ..s
        },
        Tag::MeasuredHeight | Tag::RoofEdgeArea => ContextView {
            number_name: fixed_property(tag),
            number_value: None,
            in_value: true,
            ..s
        },
        Tag::DistrictsAndZonesType | Tag::Prefecture | Tag::City | Tag::SurveyYear => ContextView {
            unsigned_name: fixed_property(tag),
            unsigned_value: None,
            in_value: true,
            ..s
        },
        Tag::KeyValuePairProperty | Tag::Unknown => s,
    }
}

/// Where character data goes.
#[derive(Clone, Copy, Debug, PartialEq, Eq, Structural)]
pub enum TextRoute {
    /// To the rings, as a position list.
    Geometry,
    /// To the value of the open text property.
    TextValue,
    /// To the value of the open number property.
    NumberValue,
    /// To the value of the open unsigned property.
    UnsignedValue,
    /// To the key of the open extended attribute.
    ExtendedKey,
    /// To the value of the open extended attribute.
    ExtendedValue,
    /// Nowhere.
    Ignored,
}

/// Where character data goes in the state `s`: the first of the routes whose
/// elements are open.
pub open spec fn route_of(s: ContextView) -> TextRoute {
    if s.in_roof_edge && s.in_pos_list {
        TextRoute::Geometry
    } else if s.text_name is Some && s.in_value {
        TextRoute::TextValue
    } else if s.number_name is Some && s.in_value {
        TextRoute::NumberValue
    } else if s.unsigned_name is Some && s.in_value {
        TextRoute::UnsignedValue
    } else if s.in_extended_attribute && s.in_key_value_pair && s.in_key {
        TextRoute::ExtendedKey
    } else if s.in_extended_attribute && s.in_key_value_pair && s.in_code_value {
        TextRoute::ExtendedValue
    } else {
        TextRoute::Ignored
    }
}

/// The state after the character data `content`. A position list must denote a
/// ring and an unsigned value must be an unsigned integer; a number that is none is
/// recorded as absent.
pub open spec fn after_text(s: ContextView, content: Seq<char>) -> Result<
    ContextView,
    ExtractError,
> {
    match route_of(s) {
        TextRoute::Geometry => match coords_of(content) {
            Ok(ring) => Ok(ContextView { rings: s.rings.push(ring), ..s }),
            Err(e) => Err(e),
        },
        TextRoute::TextValue => Ok(ContextView { text_value: Some(trimmed(content)), ..s }),
        TextRoute::NumberValue => Ok(
            ContextView {
                number_value: if is_float_text(trimmed(content)) {
                    Some(trimmed(content))
                } else {
                    None
                },
                ..s
            },
        ),
        TextRoute::UnsignedValue => match unsigned_value(trimmed(content)) {
            Some(v) => Ok(ContextView { unsigned_value: Some(v), ..s }),
            None => Err(ExtractError::MalformedUnsigned),
        },
        TextRoute::ExtendedKey => Ok(ContextView { extended_key: Some(trimmed(content)), ..s }),
        TextRoute::ExtendedValue => Ok(ContextView { extended_value: Some(trimmed(content)), ..s }),
        TextRoute::Ignored => Ok(s),
    }
}

/// The properties once the open text property is closed: it is written where both
/// its name and a value are there.
pub open spec fn with_text_slot(s: ContextView) -> Seq<PropertyView> {
    match (s.text_name, s.text_value) {
        (Some(name), Some(value)) => with_property(
            s.properties,
            name,
            PropertyValueView::Text(value),
        ),
        _ => s.properties,
    }
}

/// The properties once the open number property is closed: it is written where its
/// name is there, as null where no value is.
pub open spec fn with_number_slot(s: ContextView) -> Seq<PropertyView> {
    match s.number_name {
        Some(name) => with_property(
            s.properties,
            name,
            match s.number_value {
                Some(value) => PropertyValueView::Number(value),
                None => PropertyValueView::Null,
            },
        ),
        None => s.properties,
    }
}

/// The properties once the open unsigned property is closed: it is written where
/// its name is there, as null where no value is.
pub open spec fn with_unsigned_slot(s: ContextView) -> Seq<PropertyView> {
    match s.unsigned_name {
        Some(name) => with_property(
            s.properties,
            name,
            match s.unsigned_value {
                Some(value) => PropertyValueView::Unsigned(value),
                None => PropertyValueView::Null,
            },
        ),
        None => s.properties,
    }
}

/// The properties once the open extended attribute is closed: its value is written
/// where its key is the code of the extrusion height.
pub open spec fn with_extended_slot(s: ContextView) -> Seq<PropertyView> {
    match (s.extended_key, s.extended_value) {
        (Some(key), Some(value)) => if key == EXTRUSION_HEIGHT_CODE@ {
            with_property(s.properties, PROPERTY_EXTRUSION_HEIGHT@, PropertyValueView::Text(value))
        } else {
            s.properties
        },
        _ => s.properties,
    }
}

/// The state after the end tag of `tag`, and the feature that the tag completes.
pub open spec fn after_end(s: ContextView, tag: Tag) -> (ContextView, Option<FeatureView>) {
    match tag {
        Tag::Building => (
            ContextView { rings: Seq::empty(), properties: Seq::empty(), ..s },
            Some(FeatureView { rings: s.rings, properties: s.properties }),
        ),
        Tag::RoofEdge => (ContextView { in_roof_edge: false, ..s }, None),
        Tag::PosList => (ContextView { in_pos_list: false, ..s }, None),
        Tag::Value => (ContextView { in_value: false, ..s }, None),
        Tag::KeyValuePair | Tag::KeyValuePairProperty => (
            ContextView { in_key_value_pair: false, ..s },
            None,
        ),
        Tag::Key => (ContextView { in_key: false, ..s }, None),
        Tag::CodeValue => (ContextView { in_code_value: false, ..s }, None),
        Tag::ExtendedAttribute => (
            ContextView {
                in_extended_attribute: false,
                properties: with_extended_slot(s),
                extended_key: None,
                extended_value: None,
                ..s
            },
            None,
        ),
        Tag::GenericAttributeSet => (ContextView { prefix: None, ..s }, None),
        Tag::StringAttribute => (
            ContextView { properties: with_text_slot(s), text_name: None, text_value: None, ..s },
            None,
        ),
        Tag::MeasureAttribute => (
            ContextView {
                properties: with_number_slot(s),
                number_name: None,
                number_value: None,
                ..s
            },
            None,
        ),
        Tag::Name | Tag::LocalityName => (
            ContextView {
                in_value: false,
                properties: with_text_slot(s),
                text_name: None,
                text_value: None,
                ..s
            },
            None,
        ),
        Tag::MeasuredHeight | Tag::RoofEdgeArea => (
            ContextView {
                in_value: false,
                properties: with_number_slot(s),
                number_name: None,
                number_value: None,
                ..s
            },
            None,
        ),
        Tag::DistrictsAndZonesType | Tag::Prefecture | Tag::City | Tag::SurveyYear => (
            ContextView {
                in_value: false,
                properties: with_unsigned_slot(s),
                unsigned_name: None,
                unsigned_value: None,
                ..s
            },
            None,
        ),
        Tag::Unknown => (s, None),
    }
}

/// The state of an extraction between two events.
pub struct ParseContext {
    in_roof_edge: bool,
    in_pos_list: bool,
    in_value: bool,
    prefix: Option<String>,
    text_name: Option<String>,
    text_value: Option<String>,
    number_name: Option<String>,
    number_value: Option<Decimal>,
    unsigned_name: Option<String>,
    unsigned_value: Option<u64>,
    in_extended_attribute: bool,
    in_key_value_pair: bool,
    in_key: bool,
    in_code_value: bool,
    extended_key: Option<String>,
    extended_value: Option<String>,
    properties: PropertyMap,
    rings: Vec<Vec<Position>>,
}

impl View for ParseContext {
    type V = ContextView;

    closed spec fn view(&self) -> ContextView {
        ContextView {
            in_roof_edge: self.in_roof_edge,
            in_pos_list: self.in_pos_list,
            in_value: self.in_value,
            prefix: self.prefix.deep_view(),
            text_name: self.text_name.deep_view(),
            text_value: self.text_value.deep_view(),
            number_name: self.number_name.deep_view(),
            number_value: self.number_value.deep_view(),
            unsigned_name: self.unsigned_name.deep_view(),
            unsigned_value: self.unsigned_value,
            in_extended_attribute: self.in_extended_attribute,
            in_key_value_pair: self.in_key_value_pair,
            in_key: self.in_key,
            in_code_value: self.in_code_value,
            extended_key: self.extended_key.deep_view(),
            extended_value: self.extended_value.deep_view(),
            properties: self.properties@,
            rings: self.rings.deep_view(),
        }
    }
}

impl ParseContext {
    /// The state before the first event.
    pub fn new() -> (context: ParseContext)
        ensures
            context@ == initial(),
    {
        let rings: Vec<Vec<Position>> = Vec::new();
        assert(rings.deep_view() =~= Seq::<Seq<PositionView>>::empty());
        ParseContext {
            in_roof_edge: false,
            in_pos_list: false,
            in_value: false,
            prefix: None,
            text_name: None,
            text_value: None,
            number_name: None,
            number_value: None,
            unsigned_name: None,
            unsigned_value: None,
            in_extended_attribute: false,
            in_key_value_pair: false,
            in_key: false,
            in_code_value: false,
            extended_key: None,
            extended_value: None,
            properties: PropertyMap::new(),
            rings,
        }
    }

    /// Takes the start tag of `tag`, whose `name` attribute is `name`.
    pub fn start_element(&mut self, tag: Tag, name: &str)
        ensures
            final(self)@ == after_start(old(self)@, tag, name@),
    {
        match tag {
            Tag::Building => {
                self.properties = PropertyMap::new();
            },
            Tag::RoofEdge => {
                self.in_roof_edge = true;
            },
            Tag::PosList => {
                self.in_pos_list = true;
            },
            Tag::ExtendedAttribute => {
                self.in_extended_attribute = true;
            },
            Tag::KeyValuePair => {
                self.in_key_value_pair = true;
            },
            Tag::Key => {
                self.in_key = true;
            },
            Tag::CodeValue => {
                self.in_code_value = true;
            },
            Tag::GenericAttributeSet => {
                self.prefix = Some(joined(GROUP_LABEL, name));
            },
            Tag::StringAttribute => {
                self.text_name = match &self.prefix {
                    Some(p) => Some(grouped(p.as_str(), name)),
                    None => if str_eq(name, BUILDING_ID) {
                        Some(PROPERTY_BUILDING_ID.to_owned())
                    } else {
                        None
                    },
                };
                self.text_value = None;
            },
            Tag::MeasureAttribute => {
                self.number_name = match &self.prefix {
                    Some(p) => Some(grouped(p.as_str(), name)),
                    None => Some(name.to_owned()),
                };
                self.number_value = None;
            },
            Tag::Value => {
                self.in_value = true;
            },
            Tag::Name | Tag::LocalityName => {
                self.text_name = fixed_property_name(tag);
                self.in_value = true;
            },
            Tag::MeasuredHeight | Tag::RoofEdgeArea => {
                self.number_name = fixed_property_name(tag);
                self.number_value = None;
                self.in_value = true;
            },
            Tag::DistrictsAndZonesType | Tag::Prefecture | Tag::City | Tag::SurveyYear => {
                self.unsigned_name = fixed_property_name(tag);
                self.unsigned_value = None;
                self.in_value = true;
            },
            Tag::KeyValuePairProperty | Tag::Unknown => {},
        }
    }

    /// Where character data goes now.
    pub fn text_route(&self) -> (route: TextRoute)
        ensures
            route == route_of(self@),
    {
        if self.in_roof_edge && self.in_pos_list {
            TextRoute::Geometry
        } else if self.text_name.is_some() && self.in_value {
            TextRoute::TextValue
        } else if self.number_name.is_some() && self.in_value {
            TextRoute::NumberValue
        } else if self.unsigned_name.is_some() && self.in_value {
            TextRoute::UnsignedValue
        } else if self.in_extended_attribute && self.in_key_value_pair && self.in_key {
            TextRoute::ExtendedKey
        } else if self.in_extended_attribute && self.in_key_value_pair && self.in_code_value {
            TextRoute::ExtendedValue
        } else {
            TextRoute::Ignored
        }
    }

    /// Takes the character data `content`. After an error the state is of no use.
    pub fn text(&mut self, content: &str) -> (r: Result<(), ExtractError>)
        ensures
            match r {
                Ok(()) => after_text(old(self)@, content@) == Ok::<ContextView, ExtractError>(
                    final(self)@,
                ),
                Err(e) => after_text(old(self)@, content@) == Err::<ContextView, ExtractError>(e),
            },
    {
        match self.text_route() {
            TextRoute::Geometry => {
                match poslist_to_coords(content) {
                    Ok(ring) => {
                        let ghost before = self.rings.deep_view();
                        self.rings.push(ring);
                        assert(self.rings.deep_view() =~= before.push(ring.deep_view()));
                    },
                    Err(e) => {
                        return Err(e);
                    },
                }
            },
            TextRoute::TextValue => {
                self.text_value = Some(trim(content));
            },
            TextRoute::NumberValue => {
                let value = trim(content);
                self.number_value = Decimal::parse(value.as_str());
            },
            TextRoute::UnsignedValue => {
                let value = trim(content);
                match parse_unsigned(value.as_str()) {
                    Some(v) => {
                        self.unsigned_value = Some(v);
                    },
                    None => {
                        return Err(ExtractError::MalformedUnsigned);
                    },
                }
            },
            TextRoute::ExtendedKey => {
                self.extended_key = Some(trim(content));
            },
            TextRoute::ExtendedValue => {
                self.extended_value = Some(trim(content));
            },
            TextRoute::Ignored => {},
        }
        Ok(())
    }

    /// Closes the open text property.
    fn close_text_slot(&mut self)
        ensures
            final(self)@ == (ContextView {
                properties: with_text_slot(old(self)@),
                text_name: None,
                text_value: None,
                ..old(self)@
            }),
    {
        let name = self.text_name.take();
        let value = self.text_value.take();
        match (name, value) {
            (Some(n), Some(v)) => {
                self.properties.insert(n, PropertyValue::Text(v));
            },
            _ => {},
        }
    }

    /// Closes the open number property.
    fn close_number_slot(&mut self)
        ensures
            final(self)@ == (ContextView {
                properties: with_number_slot(old(self)@),
                number_name: None,
                number_value: None,
                ..old(self)@
            }),
    {
        let name = self.number_name.take();
        let value = self.number_value.take();
        match name {
            Some(n) => {
                let v = match value {
                    Some(d) => PropertyValue::Number(d),
                    None => PropertyValue::Null,
                };
                self.properties.insert(n, v);
            },
            None => {},
        }
    }

    /// Closes the open unsigned property.
    fn close_unsigned_slot(&mut self)
        ensures
            final(self)@ == (ContextView {
                properties: with_unsigned_slot(old(self)@),
                unsigned_name: None,
                unsigned_value: None,
                ..old(self)@
            }),
    {
        let name = self.unsigned_name.take();
        let value = self.unsigned_value.take();
        match name {
            Some(n) => {
                let v = match value {
                    Some(u) => PropertyValue::Unsigned(u),
                    None => PropertyValue::Null,
                };
                self.properties.insert(n, v);
            },
            None => {},
        }
    }

    /// Closes the open extended attribute.
    fn close_extended_slot(&mut self)
        ensures
            final(self)@ == (ContextView {
                properties: with_extended_slot(old(self)@),
                extended_key: None,
                extended_value: None,
                ..old(self)@
            }),
    {
        let key = self.extended_key.take();
        let value = self.extended_value.take();
        match (key, value) {
            (Some(k), Some(v)) => {
                if str_eq(k.as_str(), EXTRUSION_HEIGHT_CODE) {
                    self.properties.insert(
                        PROPERTY_EXTRUSION_HEIGHT.to_owned(),
                        PropertyValue::Text(v),
                    );
                }
            },
            _ => {},
        }
    }

    /// Takes the end tag of `tag` and hands out the feature that it completes.
    pub fn end_element(&mut self, tag: Tag) -> (feature: Option<Feature>)
        ensures
            final(self)@ == after_end(old(self)@, tag).0,
            feature.deep_view() == after_end(old(self)@, tag).1,
    {
        match tag {
            Tag::Building => {
                let mut rings: Vec<Vec<Position>> = Vec::new();
                assert(rings.deep_view() =~= Seq::<Seq<PositionView>>::empty());
                let mut properties = PropertyMap::new();
                core::mem::swap(&mut self.rings, &mut rings);
                core::mem::swap(&mut self.properties, &mut properties);
                return Some(Feature { rings, properties });
            },
            Tag::RoofEdge => {
                self.in_roof_edge = false;
            },
            Tag::PosList => {
                self.in_pos_list = false;
            },
            Tag::Value => {
                self.in_value = false;
            },
            Tag::KeyValuePair | Tag::KeyValuePairProperty => {
                self.in_key_value_pair = false;
            },
            Tag::Key => {
                self.in_key = false;
            },
            Tag::CodeValue => {
                self.in_code_value = false;
            },
            Tag::ExtendedAttribute => {
                self.in_extended_attribute = false;
                self.close_extended_slot();
            },
            Tag::GenericAttributeSet => {
                self.prefix = None;
            },
            Tag::StringAttribute => {
                self.close_text_slot();
            },
            Tag::MeasureAttribute => {
                self.close_number_slot();
            },
            Tag::Name | Tag::LocalityName => {
                self.in_value = false;
                self.close_text_slot();
            },
            Tag::MeasuredHeight | Tag::RoofEdgeArea => {
                self.in_value = false;
                self.close_number_slot();
            },
            Tag::DistrictsAndZonesType | Tag::Prefecture | Tag::City | Tag::SurveyYear => {
                self.in_value = false;
                self.close_unsigned_slot();
            },
            Tag::Unknown => {},
        }
        None
    }
}

/// The property of the attribute `name` in the set with the prefix `prefix`.
fn grouped(prefix: &str, name: &str) -> (s: String)
    ensures
        s@ == grouped_name(prefix@, name@),
{
    let mut s = joined(prefix, SEPARATOR);
    s.append(name);
    s
}

} // verus!
