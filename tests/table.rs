use waql_tool::json::{to_json_text, JsonObject, JsonValue};
use waql_tool::table::{normalize, value_to_string, TableData};

fn s(x: &str) -> JsonValue {
    JsonValue::Str(x.to_string())
}

fn num(x: &str) -> JsonValue {
    JsonValue::Number(x.to_string())
}

fn obj(members: Vec<(&str, JsonValue)>) -> JsonObject {
    JsonObject { entries: members.into_iter().map(|(k, v)| (k.to_string(), v)).collect() }
}

fn result_with(items: Vec<JsonValue>) -> JsonObject {
    obj(vec![("return", JsonValue::Array(items))])
}

fn sample() -> JsonObject {
    result_with(vec![
        JsonValue::Object(obj(vec![("a", num("1")), ("b", s("x"))])),
        JsonValue::Object(obj(vec![("b", s("y")), ("c", JsonValue::Bool(true))])),
    ])
}

fn strings(v: &[&str]) -> Vec<String> {
    v.iter().map(|x| x.to_string()).collect()
}

#[test]
fn test_value_to_string() {
    assert_eq!(value_to_string(&s("test")), "test");
    assert_eq!(value_to_string(&num("42")), "42");
    assert_eq!(value_to_string(&JsonValue::Bool(true)), "true");
    assert_eq!(value_to_string(&JsonValue::Null), "null");
}

#[test]
fn value_to_string_nested_is_compact_json() {
    let v = JsonValue::Array(vec![num("1"), s("a\"b"), JsonValue::Bool(false), JsonValue::Null]);
    assert_eq!(value_to_string(&v), "[1,\"a\\\"b\",false,null]");
    let o = JsonValue::Object(obj(vec![("id", s("{x}")), ("n", JsonValue::Array(vec![]))]));
    assert_eq!(value_to_string(&o), "{\"id\":\"{x}\",\"n\":[]}");
    assert_eq!(value_to_string(&JsonValue::Bool(false)), "false");
}

#[test]
fn compact_text_escapes_strings() {
    assert_eq!(to_json_text(&s("line\nbreak\\")), "\"line\\nbreak\\\\\"");
    assert_eq!(to_json_text(&JsonValue::Object(obj(vec![]))), "{}");
}

#[test]
fn normalize_empty_return_is_none() {
    assert_eq!(normalize(&result_with(vec![])), None);
}

#[test]
fn normalize_two_objects() {
    let t = normalize(&sample()).unwrap();
    assert_eq!(t.columns, strings(&["a", "b", "c"]));
    assert_eq!(t.rows, vec![strings(&["1", "x", ""]), strings(&["", "y", "true"])]);
    assert_eq!(t.cell(0, &"a".to_string()), Some(&"1".to_string()));
    assert_eq!(t.cell(1, &"c".to_string()), Some(&"true".to_string()));
    assert_eq!(t.cell(1, &"a".to_string()), Some(&String::new()));
    assert_eq!(t.cell(2, &"a".to_string()), None);
    assert_eq!(t.cell(0, &"d".to_string()), None);
}

#[test]
fn normalize_without_return_is_none() {
    assert_eq!(normalize(&obj(vec![("count", num("5"))])), None);
}

#[test]
fn normalize_return_not_array_is_none() {
    assert_eq!(normalize(&obj(vec![("return", s("x"))])), None);
}

#[test]
fn normalize_twice_is_identical() {
    let o = sample();
    assert_eq!(normalize(&o), normalize(&o));
}

#[test]
fn normalize_keeps_first_seen_order_and_skips_non_objects() {
    let o = result_with(vec![
        num("7"),
        JsonValue::Object(obj(vec![("z", s("1")), ("a", JsonValue::Null)])),
        s("skipped"),
        JsonValue::Object(obj(vec![("m", JsonValue::Array(vec![num("2")])), ("z", s("2"))])),
    ]);
    let t = normalize(&o).unwrap();
    assert_eq!(t.columns, strings(&["z", "a", "m"]));
    assert_eq!(t.rows, vec![strings(&["1", "null", ""]), strings(&["2", "", "[2]"])]);
}

#[test]
fn normalize_only_non_objects_gives_empty_table() {
    let t = normalize(&result_with(vec![num("1"), s("x")])).unwrap();
    assert!(t.columns.is_empty());
    assert!(t.rows.is_empty());
}

#[test]
fn export_two_rows() {
    let t = normalize(&sample()).unwrap();
    let bytes = t.export_to_csv().unwrap();
    assert_eq!(String::from_utf8(bytes).unwrap(), "a,b,c\n1,x,\n,y,true\n");
}

#[test]
fn export_quotes_special_fields() {
    let t = TableData {
        columns: strings(&["name", "note"]),
        rows: vec![strings(&["a,b", "say \"hi\"\nbye"])],
    };
    let bytes = t.export_to_csv().unwrap();
    assert_eq!(
        String::from_utf8(bytes).unwrap(),
        "name,note\n\"a,b\",\"say \"\"hi\"\"\nbye\"\n"
    );
}

#[test]
fn export_round_trips_through_csv_reader() {
    let o = result_with(vec![
        JsonValue::Object(obj(vec![("name", s("a,b")), ("path", s("\\x \"q\""))])),
        JsonValue::Object(obj(vec![("id", s("line1\nline2")), ("name", s(""))])),
        JsonValue::Object(obj(vec![("obj", JsonValue::Object(obj(vec![("k", num("3.5"))])))])),
    ]);
    let t = normalize(&o).unwrap();
    let bytes = t.export_to_csv().unwrap();
    let mut reader = csv::Reader::from_reader(bytes.as_slice());
    let header: Vec<String> = reader.headers().unwrap().iter().map(|f| f.to_string()).collect();
    assert_eq!(header, t.columns);
    let rows: Vec<Vec<String>> = reader
        .records()
        .map(|r| r.unwrap().iter().map(|f| f.to_string()).collect())
        .collect();
    assert_eq!(rows, t.rows);
    for (i, row) in rows.iter().enumerate() {
        for (j, col) in header.iter().enumerate() {
            assert_eq!(t.cell(i, col), Some(&row[j]));
        }
    }
}

#[test]
fn export_lone_empty_field_is_quoted() {
    let t = TableData { columns: strings(&[""]), rows: vec![strings(&[""]), strings(&["\r"])] };
    let bytes = t.export_to_csv().unwrap();
    assert_eq!(String::from_utf8(bytes).unwrap(), "\"\"\n\"\"\n\"\r\"\n");
}

#[test]
fn compact_text_escapes_controls() {
    assert_eq!(to_json_text(&s("\u{1}\t\u{1f}é")), "\"\\u0001\\t\\u001fé\"");
}
