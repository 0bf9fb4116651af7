use waql_tool::executor::{begin_query, failure_message, finish_query, EMPTY_QUERY_HINT};
use waql_tool::json::{JsonObject, JsonValue};
use waql_tool::transport::{Reply, TransportError};

fn rows_reply() -> Reply {
    let item = |id: &str| {
        JsonValue::Object(JsonObject { entries: vec![("id".to_string(), JsonValue::Str(id.to_string()))] })
    };
    Reply::Parsed(JsonValue::Object(JsonObject {
        entries: vec![("return".to_string(), JsonValue::Array(vec![item("1"), item("2"), item("3")]))],
    }))
}

#[test]
fn begin_query_blank_gives_hint() {
    assert_eq!(begin_query("  \n"), Err(EMPTY_QUERY_HINT.to_string()));
}

#[test]
fn begin_query_gives_request_body() {
    assert_eq!(
        begin_query(" $ from type Event | name "),
        Ok("{\"uri\":\"ak.wwise.core.object.get\",\"args\":{\"waql\":\"$ from type Event\"},\"options\":{\"return\":[\"name\"]}}".to_string())
    );
}

#[test]
fn finish_query_counts_rows() {
    let r = finish_query(rows_reply(), "{\"return\":[{\"id\":\"1\"}]}").unwrap();
    assert_eq!(r.raw_json, "{\n  \"return\": [\n    {\n      \"id\": \"1\"\n    }\n  ]\n}");
    assert_eq!(r.count, 3);
    let t = r.table_data.unwrap();
    assert_eq!(t.columns, vec!["id".to_string()]);
    assert_eq!(t.rows.len(), 3);
}

#[test]
fn finish_query_without_table_counts_zero() {
    let reply = Reply::Parsed(JsonValue::Object(JsonObject {
        entries: vec![("count".to_string(), JsonValue::Number("5".to_string()))],
    }));
    let r = finish_query(reply, "{\"count\":5}").unwrap();
    assert_eq!(r.raw_json, "{\n  \"count\": 5\n}");
    assert_eq!(r.table_data, None);
    assert_eq!(r.count, 0);
}

#[test]
fn finish_query_failures_are_stage_tagged() {
    let m = finish_query(Reply::Unsent("refused".to_string()), "").unwrap_err();
    assert_eq!(m, "transport: request failed: refused");
    let m = finish_query(Reply::Unreadable("eof".to_string()), "").unwrap_err();
    assert_eq!(m, "transport: response body is not JSON: eof");
    let m = finish_query(Reply::Parsed(JsonValue::Array(vec![])), "").unwrap_err();
    assert_eq!(m, "transport: response is not a JSON object");
}

#[test]
fn failure_message_of_each_error() {
    assert_eq!(failure_message(TransportError::NotAnObject), "transport: response is not a JSON object");
    assert!(failure_message(TransportError::SendFailed("x".to_string())).ends_with(": x"));
}
