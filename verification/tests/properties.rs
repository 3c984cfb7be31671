use purpy::error::Error;
use purpy::properties::{PropertiesXml, PropertyMap, PropertyValue, PropertyXml};

fn prop(name: &str, typ: &str, value: &str) -> PropertyXml {
    PropertyXml { name: name.to_string(), typ: typ.to_string(), value: value.to_string() }
}

#[test]
fn reads_typed_properties() {
    let xml = PropertiesXml {
        property: vec![prop("speed", "int", "-3"), prop("color", "string", "red"), prop("solid", "bool", "true"), prop("dark", "bool", "no")],
    };
    let m = PropertyMap::from_xml(&xml).unwrap();
    assert_eq!(m.get_int("speed").unwrap(), Some(-3));
    assert_eq!(m.get_string("color").unwrap(), Some("red"));
    assert_eq!(m.get_bool("solid").unwrap(), Some(true));
    assert_eq!(m.get_bool("dark").unwrap(), Some(false));
    assert_eq!(m.get_int("missing").unwrap(), None);
}

#[test]
fn later_property_replaces_earlier() {
    let xml = PropertiesXml { property: vec![prop("n", "int", "1"), prop("n", "int", "2")] };
    let m = PropertyMap::from_xml(&xml).unwrap();
    assert_eq!(m.get_int("n").unwrap(), Some(2));
}

#[test]
fn wrong_type_errors() {
    let xml = PropertiesXml { property: vec![prop("n", "int", "1"), prop("s", "string", "x")] };
    let m = PropertyMap::from_xml(&xml).unwrap();
    assert_eq!(m.get_string("n"), Err(Error::PropertyNotString("n".to_string())));
    assert_eq!(m.get_bool("n"), Err(Error::PropertyNotBool("n".to_string())));
    assert_eq!(m.get_int("s"), Err(Error::PropertyNotInt("s".to_string())));
}

#[test]
fn invalid_properties_error() {
    let bad_int = PropertiesXml { property: vec![prop("n", "int", "x1")] };
    assert!(matches!(PropertyMap::from_xml(&bad_int), Err(Error::InvalidNumber(t)) if t == "x1"));
    let bad_type = PropertiesXml { property: vec![prop("f", "float", "1.5")] };
    assert!(matches!(PropertyMap::from_xml(&bad_type), Err(Error::InvalidPropertyType(t)) if t == "float"));
}

#[test]
fn set_defaults_keeps_own_values() {
    let mut own = PropertyMap::new();
    own.insert("a".to_string(), PropertyValue::Int(1));
    let mut defaults = PropertyMap::new();
    defaults.insert("a".to_string(), PropertyValue::Int(9));
    defaults.insert("b".to_string(), PropertyValue::Bool(true));
    own.set_defaults(&defaults);
    assert_eq!(own.get_int("a").unwrap(), Some(1));
    assert_eq!(own.get_bool("b").unwrap(), Some(true));
}
