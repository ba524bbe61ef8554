use xmrigcc_proxy_monitor::json::{
    as_array, copy_json, flatten_json_fields, get_member, miners_output_fields,
    output_fields_for_endpoint, render_json_value, workers_output_fields, JsonMember, JsonValue,
    OutputField,
};

fn num(n: &str) -> JsonValue {
    JsonValue::Number(n.to_string())
}

fn text(t: &str) -> JsonValue {
    JsonValue::Str(t.to_string())
}

fn obj(members: Vec<(&str, JsonValue)>) -> JsonValue {
    JsonValue::Object(
        members
            .into_iter()
            .map(|(key, value)| JsonMember { key: key.to_string(), value })
            .collect(),
    )
}

fn pairs(fields: &[OutputField]) -> Vec<(String, String)> {
    fields.iter().map(|f| (f.label.clone(), f.value.clone())).collect()
}

fn owned_pairs(expected: &[(&str, &str)]) -> Vec<(String, String)> {
    expected.iter().map(|(a, b)| (a.to_string(), b.to_string())).collect()
}

#[test]
fn rendering_follows_compact_json() {
    assert_eq!(render_json_value(&JsonValue::Null), "null");
    assert_eq!(render_json_value(&JsonValue::Bool(false)), "false");
    assert_eq!(render_json_value(&num("-1.5e3")), "-1.5e3");
    assert_eq!(render_json_value(&text("a \"b\"")), "a \"b\"");
    let v = JsonValue::Array(vec![
        text("q\"\\\n\t\u{1}/"),
        JsonValue::Bool(true),
        obj(vec![]),
        JsonValue::Array(vec![]),
    ]);
    assert_eq!(render_json_value(&v), "[\"q\\\"\\\\\\n\\t\\u0001/\",true,{},[]]");
    let o = obj(vec![("a", num("1")), ("b", JsonValue::Null)]);
    assert_eq!(render_json_value(&o), "{\"a\":1,\"b\":null}");
    assert_eq!(render_json_value(&text("\u{8}\u{c}\r\u{1f}")), "\u{8}\u{c}\r\u{1f}");
    assert_eq!(
        render_json_value(&JsonValue::Array(vec![text("\u{8}\u{c}\r\u{1f}")])),
        "[\"\\b\\f\\r\\u001f\"]"
    );
}

#[test]
fn flattening_labels_nested_values() {
    let v = obj(vec![
        ("hashrate", obj(vec![("total", JsonValue::Array(vec![num("1.0"), num("2.5")]))])),
        ("empty", obj(vec![])),
        ("list", JsonValue::Array(vec![])),
        ("name", text("proxy")),
    ]);
    let mut fields = Vec::new();
    flatten_json_fields(None, &v, &mut fields);
    assert_eq!(
        pairs(&fields),
        owned_pairs(&[
            ("hashrate.total[0]", "1.0"),
            ("hashrate.total[1]", "2.5"),
            ("empty", "{}"),
            ("list", "[]"),
            ("name", "proxy"),
        ])
    );
}

#[test]
fn flattening_top_level_values() {
    let mut fields = Vec::new();
    flatten_json_fields(None, &num("7"), &mut fields);
    flatten_json_fields(None, &obj(vec![]), &mut fields);
    flatten_json_fields(None, &JsonValue::Array(vec![text("x")]), &mut fields);
    flatten_json_fields(Some("p".to_string()), &JsonValue::Array(vec![]), &mut fields);
    assert_eq!(
        pairs(&fields),
        owned_pairs(&[("value", "7"), ("value", "{}"), ("[0]", "x"), ("p", "[]")])
    );
}

#[test]
fn miners_rows_use_the_format_names() {
    let v = obj(vec![
        ("format", JsonValue::Array(vec![text("id"), text("ip")])),
        (
            "miners",
            JsonValue::Array(vec![
                JsonValue::Array(vec![num("1"), text("10.0.0.2"), num("9")]),
                obj(vec![("odd", JsonValue::Bool(true))]),
            ]),
        ),
        ("now", num("2")),
    ]);
    let fields = miners_output_fields(&v);
    assert_eq!(
        pairs(&fields),
        owned_pairs(&[
            ("now", "2"),
            ("miners[0].id", "1"),
            ("miners[0].ip", "10.0.0.2"),
            ("miners[0].field_2", "9"),
            ("miners[1].odd", "true"),
        ])
    );
}

#[test]
fn miners_without_an_object_are_flattened() {
    let fields = miners_output_fields(&JsonValue::Array(vec![num("3")]));
    assert_eq!(pairs(&fields), owned_pairs(&[("[0]", "3")]));
}

#[test]
fn workers_rows_use_the_worker_columns() {
    let mut row = vec![text("rig"), text("1.2.3.4")];
    for i in 0..12 {
        row.push(num(&i.to_string()));
    }
    let v = obj(vec![
        ("mode", text("simple")),
        ("workers", JsonValue::Array(vec![JsonValue::Array(row), text("loose")])),
    ]);
    let fields = workers_output_fields(&v);
    let labels: Vec<String> = fields.iter().map(|f| f.label.clone()).collect();
    assert_eq!(fields.len(), 1 + 14 + 1);
    assert_eq!(labels[0], "mode");
    assert_eq!(labels[1], "workers[0].name");
    assert_eq!(labels[2], "workers[0].ip");
    assert_eq!(labels[3], "workers[0].connections");
    assert_eq!(labels[13], "workers[0].hashrate_24h");
    assert_eq!(labels[14], "workers[0].value");
    assert_eq!(fields[14].value, "11");
    assert_eq!(labels[15], "workers[1]");
    assert_eq!(fields[15].value, "loose");
}

#[test]
fn route_decides_the_field_layout() {
    let v = obj(vec![("workers", JsonValue::Array(vec![JsonValue::Array(vec![text("w")])]))]);
    assert_eq!(
        pairs(&output_fields_for_endpoint("/1/workers", &v)),
        owned_pairs(&[("workers[0].name", "w")])
    );
    assert_eq!(
        pairs(&output_fields_for_endpoint("/1/config", &v)),
        owned_pairs(&[("workers[0][0]", "w")])
    );
    let m = obj(vec![("miners", JsonValue::Array(vec![JsonValue::Array(vec![text("m")])]))]);
    assert_eq!(
        pairs(&output_fields_for_endpoint("/1/miners", &m)),
        owned_pairs(&[("miners[0].field_0", "m")])
    );
}

#[test]
fn member_lookup_and_arrays() {
    let v = obj(vec![("a", num("1")), ("a", num("2")), ("b", JsonValue::Array(vec![num("3")]))]);
    assert_eq!(render_json_value(get_member(&v, &['a']).unwrap()), "1");
    assert!(get_member(&v, &['c']).is_none());
    assert!(get_member(&num("1"), &['a']).is_none());
    assert_eq!(as_array(get_member(&v, &['b'])).unwrap().len(), 1);
    assert!(as_array(get_member(&v, &['a'])).is_none());
    assert!(as_array(None).is_none());
}

#[test]
fn copies_render_the_same() {
    let v = obj(vec![("x", JsonValue::Array(vec![num("1"), JsonValue::Null, text("s")]))]);
    assert_eq!(render_json_value(&copy_json(&v)), render_json_value(&v));
}

#[test]
fn every_value_yields_a_field() {
    let values = vec![
        JsonValue::Null,
        obj(vec![]),
        JsonValue::Array(vec![]),
        obj(vec![("a", obj(vec![("b", JsonValue::Array(vec![]))]))]),
        JsonValue::Array(vec![JsonValue::Array(vec![JsonValue::Array(vec![])])]),
    ];
    for v in &values {
        let mut fields = Vec::new();
        flatten_json_fields(Some("p".to_string()), v, &mut fields);
        assert!(!fields.is_empty());
    }
    let mut fields = Vec::new();
    flatten_json_fields(None, &values[4], &mut fields);
    assert_eq!(pairs(&fields), owned_pairs(&[("[0][0]", "[]")]));
}
