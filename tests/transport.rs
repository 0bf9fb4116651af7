use waql_tool::json::{JsonObject, JsonValue};
use waql_tool::query::split;
use waql_tool::transport::{receive, request_body, Reply, TransportError};

#[test]
fn request_body_without_projection() {
    let q = split("$ from type Sound").unwrap();
    assert_eq!(
        request_body(&q),
        "{\"uri\":\"ak.wwise.core.object.get\",\"args\":{\"waql\":\"$ from type Sound\"},\"options\":{}}"
    );
}

#[test]
fn request_body_with_projection() {
    let q = split("$ \"\\Events\" | name id").unwrap();
    assert_eq!(
        request_body(&q),
        "{\"uri\":\"ak.wwise.core.object.get\",\"args\":{\"waql\":\"$ \\\"\\\\Events\\\"\"},\"options\":{\"return\":[\"name\",\"id\"]}}"
    );
}

#[test]
fn request_body_is_valid_json() {
    let q = split("$ from type Sound | name id").unwrap();
    let v: serde_json::Value = serde_json::from_str(&request_body(&q)).unwrap();
    assert_eq!(v["args"]["waql"], "$ from type Sound");
    assert_eq!(v["options"]["return"][1], "id");
}

#[test]
fn receive_non_json_body_is_invalid_response_body() {
    let parsed = serde_json::from_str::<serde_json::Value>("<html>busy</html>");
    let reply = match parsed {
        Ok(_) => panic!("the body should not parse"),
        Err(e) => Reply::Unreadable(e.to_string()),
    };
    assert!(matches!(receive(reply), Err(TransportError::InvalidResponseBody(_))));
}

#[test]
fn receive_array_is_not_an_object() {
    let reply = Reply::Parsed(JsonValue::Array(vec![JsonValue::Null]));
    assert_eq!(receive(reply), Err(TransportError::NotAnObject));
    let reply = Reply::Parsed(JsonValue::Number("3".to_string()));
    assert_eq!(receive(reply), Err(TransportError::NotAnObject));
}

#[test]
fn receive_unsent_is_send_failed() {
    let reply = Reply::Unsent("connection refused".to_string());
    assert_eq!(receive(reply), Err(TransportError::SendFailed("connection refused".to_string())));
}

#[test]
fn receive_object_is_returned_unchanged() {
    let o = JsonObject { entries: vec![("count".to_string(), JsonValue::Number("5".to_string()))] };
    let expected = JsonObject { entries: vec![("count".to_string(), JsonValue::Number("5".to_string()))] };
    assert_eq!(receive(Reply::Parsed(JsonValue::Object(o))), Ok(expected));
}
