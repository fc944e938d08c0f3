use jp_plateau_tool::error::ExtractError;
use jp_plateau_tool::tags::{classify, fixed_property_name, needs_name, Tag};
use jp_plateau_tool::xml::{find_name_attribute, XmlAttribute};

#[test]
fn known_names_have_their_tags() {
    assert_eq!(classify(b"bldg:Building"), Tag::Building);
    assert_eq!(classify(b"bldg:lod0RoofEdge"), Tag::RoofEdge);
    assert_eq!(classify(b"gml:posList"), Tag::PosList);
    assert_eq!(classify(b"uro:extendedAttribute"), Tag::ExtendedAttribute);
    assert_eq!(classify(b"uro:KeyValuePair"), Tag::KeyValuePair);
    assert_eq!(classify(b"uro:keyValuePair"), Tag::KeyValuePairProperty);
    assert_eq!(classify(b"uro:key"), Tag::Key);
    assert_eq!(classify(b"uro:codeValue"), Tag::CodeValue);
    assert_eq!(classify(b"gen:genericAttributeSet"), Tag::GenericAttributeSet);
    assert_eq!(classify(b"gen:stringAttribute"), Tag::StringAttribute);
    assert_eq!(classify(b"gen:measureAttribute"), Tag::MeasureAttribute);
    assert_eq!(classify(b"gml:name"), Tag::Name);
    assert_eq!(classify(b"gen:value"), Tag::Value);
    assert_eq!(classify(b"bldg:measuredHeight"), Tag::MeasuredHeight);
    assert_eq!(classify(b"xAL:LocalityName"), Tag::LocalityName);
    assert_eq!(classify(b"uro:buildingRoofEdgeArea"), Tag::RoofEdgeArea);
    assert_eq!(classify(b"uro:districtsAndZonesType"), Tag::DistrictsAndZonesType);
    assert_eq!(classify(b"uro:prefecture"), Tag::Prefecture);
    assert_eq!(classify(b"uro:city"), Tag::City);
    assert_eq!(classify(b"uro:surveyYear"), Tag::SurveyYear);
}

#[test]
fn other_names_are_unknown() {
    assert_eq!(classify(b""), Tag::Unknown);
    assert_eq!(classify(b"Building"), Tag::Unknown);
    assert_eq!(classify(b"bldg:building"), Tag::Unknown);
    assert_eq!(classify(b"bldg:Building "), Tag::Unknown);
    assert_eq!(classify(b"bldg:BuildingPart"), Tag::Unknown);
    assert_eq!(classify(b"gml:pos"), Tag::Unknown);
    assert_eq!(classify(&[0xff, 0xfe]), Tag::Unknown);
}

#[test]
fn three_tags_need_a_name() {
    assert!(needs_name(Tag::GenericAttributeSet));
    assert!(needs_name(Tag::StringAttribute));
    assert!(needs_name(Tag::MeasureAttribute));
    assert!(!needs_name(Tag::Building));
    assert!(!needs_name(Tag::Name));
    assert!(!needs_name(Tag::Value));
    assert!(!needs_name(Tag::Unknown));
}

#[test]
fn fixed_properties_have_their_names() {
    assert_eq!(fixed_property_name(Tag::Name), Some("建築物::名称".to_string()));
    assert_eq!(fixed_property_name(Tag::LocalityName), Some("建築物::住所".to_string()));
    assert_eq!(fixed_property_name(Tag::MeasuredHeight), Some("建築物::計測高さ".to_string()));
    assert_eq!(
        fixed_property_name(Tag::RoofEdgeArea),
        Some("建築物::建物利用現況::図上面積".to_string())
    );
    assert_eq!(
        fixed_property_name(Tag::DistrictsAndZonesType),
        Some("建築物::建物利用現況::地域地区".to_string())
    );
    assert_eq!(
        fixed_property_name(Tag::Prefecture),
        Some("建築物::建物利用現況::都道府県".to_string())
    );
    assert_eq!(fixed_property_name(Tag::City), Some("建築物::建物利用現況::市区町村".to_string()));
    assert_eq!(
        fixed_property_name(Tag::SurveyYear),
        Some("建築物::建物利用現況::調査年".to_string())
    );
    assert_eq!(fixed_property_name(Tag::Building), None);
    assert_eq!(fixed_property_name(Tag::StringAttribute), None);
    assert_eq!(fixed_property_name(Tag::Unknown), None);
}

fn attribute(key: &str, value: &str) -> Option<XmlAttribute> {
    Some(XmlAttribute::new(key.as_bytes(), value.as_bytes()))
}

#[test]
fn an_attribute_keeps_its_key_and_value() {
    let a = XmlAttribute::new(b"name", b"a&amp;b");
    assert_eq!(a.key, b"name".to_vec());
    assert_eq!(a.value, b"a&amp;b".to_vec());
    assert_eq!(a, XmlAttribute { key: b"name".to_vec(), value: b"a&amp;b".to_vec() });
}

#[test]
fn the_first_name_attribute_is_found() {
    let attributes = vec![attribute("id", "1"), attribute("name", "a"), attribute("name", "b")];
    assert_eq!(find_name_attribute(&attributes), Ok(&b"a".to_vec()));
    let attributes = vec![attribute("name", ""), None];
    assert_eq!(find_name_attribute(&attributes), Ok(&b"".to_vec()));
}

#[test]
fn no_name_attribute_is_an_error() {
    assert_eq!(find_name_attribute(&vec![]), Err(ExtractError::MissingNameAttribute));
    let attributes = vec![attribute("id", "1"), attribute("Name", "a"), attribute("gml:name", "b")];
    assert_eq!(find_name_attribute(&attributes), Err(ExtractError::MissingNameAttribute));
}

#[test]
fn an_ill_formed_attribute_before_the_name_is_an_error() {
    let attributes = vec![attribute("id", "1"), None, attribute("name", "a")];
    assert_eq!(find_name_attribute(&attributes), Err(ExtractError::MalformedXml));
}

#[test]
fn every_error_has_its_message() {
    assert_eq!(ExtractError::MalformedXml.message(), "the markup is ill-formed");
    assert_eq!(ExtractError::MissingNameAttribute.message(), "a name attribute is missing");
    assert_eq!(ExtractError::MalformedNumber.message(), "a coordinate is not a number");
    assert_eq!(ExtractError::IncompleteCoordinate.message(), "a coordinate list is incomplete");
    assert_eq!(ExtractError::MalformedUnsigned.message(), "a value is not an unsigned integer");
}
