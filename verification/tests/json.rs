use llm_gateway::json::{Json, JsonObject};
use serde_json::Value;

const SAMPLE: &str = r#"{"a":[1,-2,3.5,18446744073709551615,null,true],"b":{"c":"x\"y"},"d":""}"#;

#[test]
fn values_pass_through_unchanged() {
    let value: Value = serde_json::from_str(SAMPLE).unwrap();
    let json = Json::from_serde(value.clone());
    assert_eq!(json.to_serde(), value);
    assert_eq!(json.clone().to_serde(), value);
    assert_eq!(json.to_text(), SAMPLE);
    assert_eq!(Json::parse(SAMPLE).unwrap().to_serde(), value);
}

#[test]
fn text_that_is_no_json_is_rejected() {
    assert!(Json::parse("").is_none());
    assert!(Json::parse("{\"a\":}").is_none());
    assert!(Json::parse("1 2").is_none());
}

#[test]
fn of_two_members_of_one_name_the_last_counts() {
    let json = Json::parse(r#"{"a":1,"a":2}"#).unwrap();
    assert_eq!(json.get("a").unwrap().as_i64(), Some(2));
    let mut object = JsonObject::new();
    object.insert("k", Json::integer(1));
    object.insert("l", Json::string("s"));
    object.insert("k", Json::integer(-5));
    assert_eq!(object.get("k").unwrap().as_i64(), Some(-5));
    assert_eq!(Json::Object(object).to_text(), r#"{"k":-5,"l":"s"}"#);
}

#[test]
fn readers_answer_for_their_own_kind_only() {
    let json = Json::parse(SAMPLE).unwrap();
    let items = json.get("a").unwrap().as_array().unwrap();
    assert_eq!(items[0].as_i64(), Some(1));
    assert_eq!(items[1].as_i64(), Some(-2));
    assert_eq!(items[2].as_i64(), None);
    assert_eq!(items[3].as_i64(), None);
    assert_eq!(items[5].as_bool(), Some(true));
    assert_eq!(items[5].as_str(), None);
    assert!(items[0].get("a").is_none());
    assert!(json.get("z").is_none());
    assert!(json.as_array().is_none());
    assert_eq!(json.get("b").unwrap().get("c").unwrap().as_str(), Some("x\"y"));
}

#[test]
fn built_values_read_back() {
    assert_eq!(Json::index(7).as_i64(), Some(7));
    assert_eq!(Json::index(usize::MAX).as_i64(), None);
    assert_eq!(Json::index(usize::MAX).to_text(), format!("{}", usize::MAX));
    assert_eq!(Json::integer(i64::MIN).as_i64(), Some(i64::MIN));
    assert_eq!(Json::array(vec![Json::Null, Json::Bool(false)]).to_text(), "[null,false]");
}
