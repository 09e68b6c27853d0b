use sakura::message::Message;
use serde_json::Value;

fn pairs(message: &Message) -> Vec<(String, Option<String>)> {
    let mut params = message.params.clone().unwrap();
    params.sort();
    params
}

#[test]
fn an_answer_has_results() {
    let m = Message::parse("{\"id\":1,\"result\":[\"on\",\"100\"]}").unwrap();
    assert_eq!(m.method, None);
    assert_eq!(m.params, None);
    assert_eq!(m.result, Some(vec!["on".to_string(), "100".to_string()]));
}

#[test]
fn a_result_that_is_no_text_is_displayed() {
    let line = "{\"result\":[1,-2,1.5,true,false,null,[1, \"a\"],{\"b\": \"c\", \"a\":[]},\"\"]}";
    let m = Message::parse(line).unwrap();
    let expected = ["1", "-2", "1.5", "true", "false", "null", "[1,\"a\"]", "{\"a\":[],\"b\":\"c\"}", ""];
    assert_eq!(m.result.unwrap(), expected);
}

#[test]
fn a_notification_has_a_method_and_params() {
    let line = "{\"method\":\"props\",\"params\":{\"power\":\"on\",\"bright\":10,\"power\":\"off\"}}";
    let m = Message::parse(line).unwrap();
    assert_eq!(m.method.as_deref(), Some("props"));
    assert_eq!(pairs(&m), vec![
        ("bright".to_string(), None),
        ("power".to_string(), Some("off".to_string())),
    ]);
    assert_eq!(m.result, None);
}

#[test]
fn members_of_another_kind_do_not_count() {
    let m = Message::parse("{\"method\":1,\"params\":[\"a\"],\"result\":\"ok\"}").unwrap();
    assert_eq!(m.method, None);
    assert_eq!(m.params, None);
    assert_eq!(m.result, None);
    for line in ["[]", "\"props\"", "3", "null", "{}"] {
        let m = Message::parse(line).unwrap();
        assert!(m.method.is_none() && m.params.is_none() && m.result.is_none());
    }
}

#[test]
fn a_line_that_is_no_document_is_an_error() {
    for line in ["", "{", "props", "{} {}", "{\"a\":}", "'x'"] {
        assert!(Message::parse(line).is_err());
    }
}

#[test]
fn a_value_is_read_like_the_line_that_it_stands_on() {
    let mut params = serde_json::Map::new();
    params.insert("name".to_string(), Value::from("desk"));
    let mut object = serde_json::Map::new();
    object.insert("method".to_string(), Value::from("props"));
    object.insert("params".to_string(), Value::Object(params));
    object.insert("result".to_string(), Value::Array(vec![Value::from(5)]));
    let m = Message::from_value(&Value::Object(object));
    assert_eq!(m.method.as_deref(), Some("props"));
    assert_eq!(pairs(&m), vec![("name".to_string(), Some("desk".to_string()))]);
    assert_eq!(m.result, Some(vec!["5".to_string()]));
}
