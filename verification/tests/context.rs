use jp_plateau_tool::context::{ParseContext, TextRoute};
use jp_plateau_tool::error::ExtractError;
use jp_plateau_tool::feature::PropertyValue;
use jp_plateau_tool::number::Decimal;
use jp_plateau_tool::tags::Tag;
use jp_plateau_tool::xml::XmlEvent;

#[test]
fn a_new_context_routes_text_nowhere() {
    let c = ParseContext::new();
    assert_eq!(c.text_route(), TextRoute::Ignored);
}

#[test]
fn geometry_needs_both_a_roof_edge_and_a_position_list() {
    let mut c = ParseContext::new();
    c.start_element(Tag::PosList, "");
    assert_eq!(c.text_route(), TextRoute::Ignored);
    c.start_element(Tag::RoofEdge, "");
    assert_eq!(c.text_route(), TextRoute::Geometry);
    assert_eq!(c.end_element(Tag::PosList), None);
    assert_eq!(c.text_route(), TextRoute::Ignored);
    c.start_element(Tag::PosList, "");
    assert_eq!(c.end_element(Tag::RoofEdge), None);
    assert_eq!(c.text_route(), TextRoute::Ignored);
}

#[test]
fn geometry_outranks_every_value() {
    let mut c = ParseContext::new();
    c.start_element(Tag::Name, "");
    c.start_element(Tag::MeasuredHeight, "");
    c.start_element(Tag::City, "");
    assert_eq!(c.text_route(), TextRoute::TextValue);
    c.start_element(Tag::RoofEdge, "");
    c.start_element(Tag::PosList, "");
    assert_eq!(c.text_route(), TextRoute::Geometry);
}

#[test]
fn values_are_routed_in_the_order_text_number_unsigned() {
    let mut c = ParseContext::new();
    c.start_element(Tag::City, "");
    assert_eq!(c.text_route(), TextRoute::UnsignedValue);
    c.start_element(Tag::MeasuredHeight, "");
    assert_eq!(c.text_route(), TextRoute::NumberValue);
    c.start_element(Tag::LocalityName, "");
    assert_eq!(c.text_route(), TextRoute::TextValue);
    c.end_element(Tag::LocalityName);
    assert_eq!(c.text_route(), TextRoute::Ignored);
    c.start_element(Tag::Value, "");
    assert_eq!(c.text_route(), TextRoute::NumberValue);
}

#[test]
fn a_generic_attribute_is_routed_only_inside_its_value() {
    let mut c = ParseContext::new();
    c.start_element(Tag::MeasureAttribute, "高さ");
    assert_eq!(c.text_route(), TextRoute::Ignored);
    c.start_element(Tag::Value, "");
    assert_eq!(c.text_route(), TextRoute::NumberValue);
    c.end_element(Tag::Value);
    assert_eq!(c.text_route(), TextRoute::Ignored);
}

#[test]
fn an_unknown_string_attribute_opens_no_slot() {
    let mut c = ParseContext::new();
    c.start_element(Tag::StringAttribute, "その他");
    c.start_element(Tag::Value, "");
    assert_eq!(c.text_route(), TextRoute::Ignored);
    let mut c = ParseContext::new();
    c.start_element(Tag::StringAttribute, "建物ID");
    c.start_element(Tag::Value, "");
    assert_eq!(c.text_route(), TextRoute::TextValue);
}

#[test]
fn extended_keys_need_the_whole_nesting() {
    let mut c = ParseContext::new();
    c.start_element(Tag::Key, "");
    assert_eq!(c.text_route(), TextRoute::Ignored);
    c.start_element(Tag::KeyValuePair, "");
    assert_eq!(c.text_route(), TextRoute::Ignored);
    c.start_element(Tag::ExtendedAttribute, "");
    assert_eq!(c.text_route(), TextRoute::ExtendedKey);
    c.start_element(Tag::CodeValue, "");
    assert_eq!(c.text_route(), TextRoute::ExtendedKey);
    c.end_element(Tag::Key);
    assert_eq!(c.text_route(), TextRoute::ExtendedValue);
    c.end_element(Tag::KeyValuePair);
    assert_eq!(c.text_route(), TextRoute::Ignored);
}

#[test]
fn either_spelling_closes_a_key_value_pair() {
    let mut c = ParseContext::new();
    c.start_element(Tag::ExtendedAttribute, "");
    c.start_element(Tag::KeyValuePairProperty, "");
    c.start_element(Tag::Key, "");
    assert_eq!(c.text_route(), TextRoute::Ignored);
    c.start_element(Tag::KeyValuePair, "");
    assert_eq!(c.text_route(), TextRoute::ExtendedKey);
    c.end_element(Tag::KeyValuePairProperty);
    assert_eq!(c.text_route(), TextRoute::Ignored);
}

#[test]
fn the_end_of_a_building_hands_out_what_was_gathered() {
    let mut c = ParseContext::new();
    c.start_element(Tag::Building, "");
    c.start_element(Tag::MeasuredHeight, "");
    assert_eq!(c.text(" 12.5\n"), Ok(()));
    assert_eq!(c.end_element(Tag::MeasuredHeight), None);
    c.start_element(Tag::RoofEdge, "");
    c.start_element(Tag::PosList, "");
    assert_eq!(c.text("1 2 3 4 5 6"), Ok(()));
    c.end_element(Tag::PosList);
    c.end_element(Tag::RoofEdge);
    let f = c.end_element(Tag::Building).unwrap();
    assert_eq!(f.rings.len(), 1);
    assert_eq!(f.rings[0].len(), 2);
    assert_eq!(f.rings[0][1].x.as_str(), "5");
    assert_eq!(f.rings[0][1].y.as_str(), "4");
    assert_eq!(f.properties.len(), 1);
    assert_eq!(
        f.properties.get("建築物::計測高さ"),
        Some(&PropertyValue::Number(Decimal::parse("12.5").unwrap()))
    );
    let g = c.end_element(Tag::Building).unwrap();
    assert_eq!(g.rings.len(), 0);
    assert_eq!(g.properties.len(), 0);
}

#[test]
fn rings_outside_a_building_go_to_the_next_one() {
    let mut c = ParseContext::new();
    c.start_element(Tag::RoofEdge, "");
    c.start_element(Tag::PosList, "");
    assert_eq!(c.text("1 2 3"), Ok(()));
    c.end_element(Tag::PosList);
    c.end_element(Tag::RoofEdge);
    c.start_element(Tag::Building, "");
    let f = c.end_element(Tag::Building).unwrap();
    assert_eq!(f.rings.len(), 1);
}

#[test]
fn text_errors_are_reported() {
    let mut c = ParseContext::new();
    c.start_element(Tag::SurveyYear, "");
    assert_eq!(c.text("20x6"), Err(ExtractError::MalformedUnsigned));
    let mut c = ParseContext::new();
    c.start_element(Tag::RoofEdge, "");
    c.start_element(Tag::PosList, "");
    assert_eq!(c.text("1 2 three"), Err(ExtractError::MalformedNumber));
    let mut c = ParseContext::new();
    c.start_element(Tag::RoofEdge, "");
    c.start_element(Tag::PosList, "");
    assert_eq!(c.text("1 2 3 4"), Err(ExtractError::IncompleteCoordinate));
}

#[test]
fn ignored_text_is_never_an_error() {
    let mut c = ParseContext::new();
    assert_eq!(c.text("anything at all"), Ok(()));
    assert_eq!(c.handle_event(&XmlEvent::Text(None)), Ok(None));
    assert_eq!(c.handle_event(&XmlEvent::Other), Ok(None));
}

#[test]
fn a_later_text_replaces_an_earlier_one() {
    let mut c = ParseContext::new();
    c.start_element(Tag::Name, "");
    assert_eq!(c.text("first"), Ok(()));
    assert_eq!(c.text(" second "), Ok(()));
    c.end_element(Tag::Name);
    let f = c.end_element(Tag::Building).unwrap();
    assert_eq!(f.properties.get("建築物::名称"), Some(&PropertyValue::Text("second".to_string())));
}

#[test]
fn a_number_after_a_word_is_kept_and_a_word_after_a_number_is_null() {
    let mut c = ParseContext::new();
    c.start_element(Tag::MeasuredHeight, "");
    assert_eq!(c.text("N/A"), Ok(()));
    assert_eq!(c.text("3"), Ok(()));
    c.end_element(Tag::MeasuredHeight);
    c.start_element(Tag::RoofEdgeArea, "");
    assert_eq!(c.text("3"), Ok(()));
    assert_eq!(c.text("N/A"), Ok(()));
    c.end_element(Tag::RoofEdgeArea);
    let f = c.end_element(Tag::Building).unwrap();
    assert_eq!(
        f.properties.get("建築物::計測高さ"),
        Some(&PropertyValue::Number(Decimal::parse("3").unwrap()))
    );
    assert_eq!(f.properties.get("建築物::建物利用現況::図上面積"), Some(&PropertyValue::Null));
}

#[test]
fn an_end_tag_without_an_open_slot_writes_nothing() {
    let mut c = ParseContext::new();
    c.end_element(Tag::MeasuredHeight);
    c.end_element(Tag::MeasureAttribute);
    c.end_element(Tag::StringAttribute);
    c.end_element(Tag::Name);
    c.end_element(Tag::City);
    c.end_element(Tag::ExtendedAttribute);
    c.end_element(Tag::GenericAttributeSet);
    let f = c.end_element(Tag::Building).unwrap();
    assert_eq!(f.properties.len(), 0);
}

#[test]
fn a_set_inside_a_set_replaces_the_prefix() {
    let mut c = ParseContext::new();
    c.start_element(Tag::GenericAttributeSet, "外");
    c.start_element(Tag::GenericAttributeSet, "内");
    c.start_element(Tag::StringAttribute, "a");
    c.start_element(Tag::Value, "");
    assert_eq!(c.text("1"), Ok(()));
    c.end_element(Tag::Value);
    c.end_element(Tag::StringAttribute);
    c.end_element(Tag::GenericAttributeSet);
    c.start_element(Tag::MeasureAttribute, "b");
    c.start_element(Tag::Value, "");
    assert_eq!(c.text("2"), Ok(()));
    c.end_element(Tag::Value);
    c.end_element(Tag::MeasureAttribute);
    let f = c.end_element(Tag::Building).unwrap();
    assert_eq!(f.properties.len(), 2);
    assert_eq!(f.properties.entry(0).name, "建築物::内::a");
    assert_eq!(f.properties.entry(1).name, "b");
}
