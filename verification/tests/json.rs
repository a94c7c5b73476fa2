use linear_cli::json::{Json, JsonNumber};
use linear_cli::json_path::{get_nodes, get_path};
use linear_cli::json_text::{json_from_value, notation, parse_json, value_of};
use linear_cli::name_map::NameMap;
use linear_cli::config::Workspace;

#[test]
fn json_text_is_read() {
    let value = parse_json(r#"{"a":[1,-2,2.5,"x",true,null],"b":{"c":"d"}}"#).unwrap();
    let items = value.at("a").items();
    assert_eq!(items[0], Json::Number(JsonNumber::Unsigned(1)));
    assert_eq!(items[1], Json::Number(JsonNumber::Negative(-2)));
    assert_eq!(
        items[2],
        Json::Number(JsonNumber::Decimal("2.5".to_string()))
    );
    assert_eq!(items[3].as_str(), Some("x"));
    assert!(items[4].is_true());
    assert!(items[5].is_null());
    assert_eq!(value.at("b").at("c").as_str(), Some("d"));
    assert!(parse_json("{").is_err());
    assert_eq!(
        json_from_value(serde_json::Value::from("x")).as_str(),
        Some("x")
    );
}

#[test]
fn a_field_that_was_set_is_read_back() {
    let object = Json::object()
        .with("a", Json::text("1"))
        .with("b", Json::number(2))
        .with("a", Json::text("3"));
    assert_eq!(object.at("a").as_str(), Some("3"));
    assert_eq!(object.at("b").as_u64(), Some(2));
    assert!(object.get("c").is_none());
    assert!(object.at("c").is_null());
    assert!(!object.is_empty_object());
    assert_eq!(object.copy(), object);
}

#[test]
fn values_are_written_compactly() {
    let text = r#"{"a":[1,-2,2.5,1e300,"x\n",true,null],"b":{"c":"d"}}"#;
    assert_eq!(
        notation(&parse_json(text).unwrap()),
        r#"{"a":[1,-2,2.5,1e+300,"x\n",true,null],"b":{"c":"d"}}"#
    );
    let unordered = Json::object()
        .with("z", Json::Null)
        .with("b", Json::Number(JsonNumber::Negative(3)));
    assert_eq!(notation(&unordered), r#"{"b":3,"z":null}"#);
    assert_eq!(json_from_value(value_of(&unordered)).at("b").as_u64(), Some(3));
    let blurred = Json::Number(JsonNumber::Decimal("nothing".to_string()));
    assert_eq!(notation(&blurred), "null");
}

#[test]
fn integers_keep_their_sign() {
    assert_eq!(Json::integer(-5).as_i64(), Some(-5));
    assert_eq!(Json::integer(5).as_u64(), Some(5));
    assert_eq!(Json::integer(-5).as_u64(), None);
}

#[test]
fn paths_lead_into_values() {
    let value = parse_json(r#"{"data":{"issues":{"nodes":[{"id":1},{"id":2}]}}}"#).unwrap();
    assert_eq!(get_nodes(&value, &["data", "issues", "nodes"]).len(), 2);
    assert!(get_nodes(&value, &["data", "teams"]).is_empty());
    assert!(get_path(&value, &["data", "issues"]).is_some());
    assert!(get_path(&value, &["data", "x"]).is_none());
}

#[test]
fn names_keep_their_order() {
    let mut map: NameMap<Workspace> = NameMap::new();
    map.insert("b", Workspace::with_api_key("1"));
    map.insert("a", Workspace::with_api_key("2"));
    map.insert("b", Workspace::with_api_key("3"));
    assert_eq!(map.len(), 2);
    assert_eq!(map.name_at(0), "b");
    assert_eq!(map.value_at(0).api_key, "3");
    assert!(map.remove("b"));
    assert!(!map.remove("b"));
    assert_eq!(map.name_at(0), "a");
    assert!(!map.contains("b"));
}
