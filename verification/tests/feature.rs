use jp_plateau_tool::feature::{PropertyMap, PropertyValue};
use jp_plateau_tool::number::Decimal;

#[test]
fn a_new_map_is_empty() {
    let m = PropertyMap::new();
    assert_eq!(m.len(), 0);
    assert_eq!(m.get("a"), None);
}

#[test]
fn insert_appends_new_names_in_order() {
    let mut m = PropertyMap::new();
    m.insert("b".to_string(), PropertyValue::Unsigned(1));
    m.insert("a".to_string(), PropertyValue::Null);
    m.insert("c".to_string(), PropertyValue::Text("x".to_string()));
    assert_eq!(m.len(), 3);
    assert_eq!(m.entry(0).name, "b");
    assert_eq!(m.entry(1).name, "a");
    assert_eq!(m.entry(2).name, "c");
    assert_eq!(m.get("a"), Some(&PropertyValue::Null));
    assert_eq!(m.get("c"), Some(&PropertyValue::Text("x".to_string())));
    assert_eq!(m.get("d"), None);
}

#[test]
fn insert_replaces_in_place() {
    let mut m = PropertyMap::new();
    m.insert("a".to_string(), PropertyValue::Unsigned(1));
    m.insert("b".to_string(), PropertyValue::Unsigned(2));
    m.insert("a".to_string(), PropertyValue::Number(Decimal::parse("3.5").unwrap()));
    assert_eq!(m.len(), 2);
    assert_eq!(m.entry(0).name, "a");
    assert_eq!(m.entry(0).value, PropertyValue::Number(Decimal::parse("3.5").unwrap()));
    assert_eq!(m.entry(1).name, "b");
    assert_eq!(m.get("b"), Some(&PropertyValue::Unsigned(2)));
}
