//! The element names that the extraction knows, and the property names it writes.

use crate::text::bytes_eq;
use vstd::prelude::*;
use vstd::utf8::encode_utf8;

verus! {

pub const BUILDING: &'static str = "bldg:Building";

pub const ROOF_EDGE: &'static str = "bldg:lod0RoofEdge";

pub const POS_LIST: &'static str = "gml:posList";

pub const EXTENDED_ATTRIBUTE: &'static str = "uro:extendedAttribute";

pub const KEY_VALUE_PAIR: &'static str = "uro:KeyValuePair";

pub const KEY_VALUE_PAIR_PROPERTY: &'static str = "uro:keyValuePair";

pub const KEY: &'static str = "uro:key";

pub const CODE_VALUE: &'static str = "uro:codeValue";

pub const GENERIC_ATTRIBUTE_SET: &'static str = "gen:genericAttributeSet";

pub const STRING_ATTRIBUTE: &'static str = "gen:stringAttribute";

pub const MEASURE_ATTRIBUTE: &'static str = "gen:measureAttribute";

pub const NAME: &'static str = "gml:name";

pub const VALUE: &'static str = "gen:value";

pub const MEASURED_HEIGHT: &'static str = "bldg:measuredHeight";

pub const LOCALITY_NAME: &'static str = "xAL:LocalityName";

pub const ROOF_EDGE_AREA: &'static str = "uro:buildingRoofEdgeArea";

pub const DISTRICTS_AND_ZONES_TYPE: &'static str = "uro:districtsAndZonesType";

pub const PREFECTURE: &'static str = "uro:prefecture";

pub const CITY: &'static str = "uro:city";

pub const SURVEY_YEAR: &'static str = "uro:surveyYear";

/// The key of the attribute that names a generic attribute.
pub const NAME_ATTRIBUTE: &'static str = "name";

/// What the name of a generic attribute set is written after.
pub const GROUP_LABEL: &'static str = "建築物::";

/// What stands between the name of a set and the name of an attribute in it.
pub const SEPARATOR: &'static str = "::";

/// The one generic string attribute that is kept outside a set.
pub const BUILDING_ID: &'static str = "建物ID";

pub const PROPERTY_BUILDING_ID: &'static str = "建築物::汎用属性::建物ID";

pub const PROPERTY_NAME: &'static str = "建築物::名称";

pub const PROPERTY_MEASURED_HEIGHT: &'static str = "建築物::計測高さ";

pub const PROPERTY_ADDRESS: &'static str = "建築物::住所";

pub const PROPERTY_ROOF_EDGE_AREA: &'static str = "建築物::建物利用現況::図上面積";

pub const PROPERTY_DISTRICTS_AND_ZONES: &'static str = "建築物::建物利用現況::地域地区";

pub const PROPERTY_PREFECTURE: &'static str = "建築物::建物利用現況::都道府県";

pub const PROPERTY_CITY: &'static str = "建築物::建物利用現況::市区町村";

pub const PROPERTY_SURVEY_YEAR: &'static str = "建築物::建物利用現況::調査年";

pub const PROPERTY_EXTRUSION_HEIGHT: &'static str =
    "建築物::拡張属性::LOD1の立ち上げに使用する建築物の高さ";

/// The key of the extended attribute that holds the height a model was extruded by.
pub const EXTRUSION_HEIGHT_CODE: &'static str = "2";

/// The elements that the extraction acts on; every other element is `Unknown`.
#[derive(Clone, Copy, Debug, PartialEq, Eq, Structural)]
pub enum Tag {
    Building,
    RoofEdge,
    PosList,
    ExtendedAttribute,
    KeyValuePair,
    /// The other spelling of a key-value pair: it closes a pair and opens none.
    KeyValuePairProperty,
    Key,
    CodeValue,
    GenericAttributeSet,
    StringAttribute,
    MeasureAttribute,
    Name,
    Value,
    MeasuredHeight,
    LocalityName,
    RoofEdgeArea,
    DistrictsAndZonesType,
    Prefecture,
    City,
    SurveyYear,
    Unknown,
}

/// The element that a qualified name stands for.
pub open spec fn tag_of(name: Seq<u8>) -> Tag {
    if name == encode_utf8(BUILDING@) {
        Tag::Building
    } else if name == encode_utf8(ROOF_EDGE@) {
        Tag::RoofEdge
    } else if name == encode_utf8(POS_LIST@) {
        Tag::PosList
    } else if name == encode_utf8(EXTENDED_ATTRIBUTE@) {
        Tag::ExtendedAttribute
    } else if name == encode_utf8(KEY_VALUE_PAIR@) {
        Tag::KeyValuePair
    } else if name == encode_utf8(KEY_VALUE_PAIR_PROPERTY@) {
        Tag::KeyValuePairProperty
    } else if name == encode_utf8(KEY@) {
        Tag::Key
    } else if name == encode_utf8(CODE_VALUE@) {
        Tag::CodeValue
    } else if name == encode_utf8(GENERIC_ATTRIBUTE_SET@) {
        Tag::GenericAttributeSet
    } else if name == encode_utf8(STRING_ATTRIBUTE@) {
        Tag::StringAttribute
    } else if name == encode_utf8(MEASURE_ATTRIBUTE@) {
        Tag::MeasureAttribute
    } else if name == encode_utf8(NAME@) {
        Tag::Name
    } else if name == encode_utf8(VALUE@) {
        Tag::Value
    } else if name == encode_utf8(MEASURED_HEIGHT@) {
        Tag::MeasuredHeight
    } else if name == encode_utf8(LOCALITY_NAME@) {
        Tag::LocalityName
    } else if name == encode_utf8(ROOF_EDGE_AREA@) {
        Tag::RoofEdgeArea
    } else if name == encode_utf8(DISTRICTS_AND_ZONES_TYPE@) {
        Tag::DistrictsAndZonesType
    } else if name == encode_utf8(PREFECTURE@) {
        Tag::Prefecture
    } else if name == encode_utf8(CITY@) {
        Tag::City
    } else if name == encode_utf8(SURVEY_YEAR@) {
        Tag::SurveyYear
    } else {
        Tag::Unknown
    }
}

/// The element that the qualified name `name` stands for.
pub fn classify(name: &[u8]) -> (tag: Tag)
    ensures
        tag == tag_of(name@),
{
    if bytes_eq(name, BUILDING.as_bytes()) {
        Tag::Building
    } else if bytes_eq(name, ROOF_EDGE.as_bytes()) {
        Tag::RoofEdge
    } else if bytes_eq(name, POS_LIST.as_bytes()) {
        Tag::PosList
    } else if bytes_eq(name, EXTENDED_ATTRIBUTE.as_bytes()) {
        Tag::ExtendedAttribute
    } else if bytes_eq(name, KEY_VALUE_PAIR.as_bytes()) {
        Tag::KeyValuePair
    } else if bytes_eq(name, KEY_VALUE_PAIR_PROPERTY.as_bytes()) {
        Tag::KeyValuePairProperty
    } else if bytes_eq(name, KEY.as_bytes()) {
        Tag::Key
    } else if bytes_eq(name, CODE_VALUE.as_bytes()) {
        Tag::CodeValue
    } else if bytes_eq(name, GENERIC_ATTRIBUTE_SET.as_bytes()) {
        Tag::GenericAttributeSet
    } else if bytes_eq(name, STRING_ATTRIBUTE.as_bytes()) {
        Tag::StringAttribute
    } else if bytes_eq(name, MEASURE_ATTRIBUTE.as_bytes()) {
        Tag::MeasureAttribute
    } else if bytes_eq(name, NAME.as_bytes()) {
        Tag::Name
    } else if bytes_eq(name, VALUE.as_bytes()) {
        Tag::Value
    } else if bytes_eq(name, MEASURED_HEIGHT.as_bytes()) {
        Tag::MeasuredHeight
    } else if bytes_eq(name, LOCALITY_NAME.as_bytes()) {
        Tag::LocalityName
    } else if bytes_eq(name, ROOF_EDGE_AREA.as_bytes()) {
        Tag::RoofEdgeArea
    } else if bytes_eq(name, DISTRICTS_AND_ZONES_TYPE.as_bytes()) {
        Tag::DistrictsAndZonesType
    } else if bytes_eq(name, PREFECTURE.as_bytes()) {
        Tag::Prefecture
    } else if bytes_eq(name, CITY.as_bytes()) {
        Tag::City
    } else if bytes_eq(name, SURVEY_YEAR.as_bytes()) {
        Tag::SurveyYear
    } else {
        Tag::Unknown
    }
}

/// Whether the start tag of the element must carry a `name` attribute.
pub open spec fn is_named(tag: Tag) -> bool {
    tag == Tag::GenericAttributeSet || tag == Tag::StringAttribute || tag == Tag::MeasureAttribute
}

/// Whether the start tag of the element must carry a `name` attribute.
pub fn needs_name(tag: Tag) -> (named: bool)
    ensures
        named == is_named(tag),
{
    match tag {
        Tag::GenericAttributeSet | Tag::StringAttribute | Tag::MeasureAttribute => true,
        _ => false,
    }
}

/// The property that an element with a property of its own is written to.
pub open spec fn fixed_property(tag: Tag) -> Option<Seq<char>> {
    match tag {
        Tag::Name => Some(PROPERTY_NAME@),
        Tag::LocalityName => Some(PROPERTY_ADDRESS@),
        Tag::MeasuredHeight => Some(PROPERTY_MEASURED_HEIGHT@),
        Tag::RoofEdgeArea => Some(PROPERTY_ROOF_EDGE_AREA@),
        Tag::DistrictsAndZonesType => Some(PROPERTY_DISTRICTS_AND_ZONES@),
        Tag::Prefecture => Some(PROPERTY_PREFECTURE@),
        Tag::City => Some(PROPERTY_CITY@),
        Tag::SurveyYear => Some(PROPERTY_SURVEY_YEAR@),
        _ => None,
    }
}

/// The property that an element with a property of its own is written to.
pub fn fixed_property_name(tag: Tag) -> (name: Option<String>)
    ensures
        name.deep_view() == fixed_property(tag),
{
    match tag {
        Tag::Name => Some(PROPERTY_NAME.to_owned()),
        Tag::LocalityName => Some(PROPERTY_ADDRESS.to_owned()),
        Tag::MeasuredHeight => Some(PROPERTY_MEASURED_HEIGHT.to_owned()),
        Tag::RoofEdgeArea => Some(PROPERTY_ROOF_EDGE_AREA.to_owned()),
        Tag::DistrictsAndZonesType => Some(PROPERTY_DISTRICTS_AND_ZONES.to_owned()),
        Tag::Prefecture => Some(PROPERTY_PREFECTURE.to_owned()),
        Tag::City => Some(PROPERTY_CITY.to_owned()),
        Tag::SurveyYear => Some(PROPERTY_SURVEY_YEAR.to_owned()),
        _ => None,
    }
}

} // verus!
