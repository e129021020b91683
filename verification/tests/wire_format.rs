use server_rust::data_access1 as da;
use server_rust::data_access1::Field;
use server_rust::data_access1::FilterNode;
use server_rust::data_access1::ListValue;
use server_rust::data_access1::Placeholders;
use server_rust::data_access1::StrValue;
use server_rust::data_access1::Value;
use server_rust::wire::JsonValue;
use server_rust::wire::from_json;
use server_rust::wire::parse_u64;

fn to_wire(v: &serde_json::Value) -> JsonValue {
    match v {
        serde_json::Value::Null => JsonValue::Null,
        serde_json::Value::Bool(b) => JsonValue::Bool(*b),
        serde_json::Value::Number(n) => JsonValue::Num(if let Some(u) = n.as_u64() {
            format!("{}", u)
        } else if let Some(f) = n.as_f64() {
            format!("{}", f)
        } else {
            n.to_string()
        }),
        serde_json::Value::String(s) => JsonValue::Str(s.clone()),
        serde_json::Value::Array(items) => JsonValue::Array(items.iter().map(to_wire).collect()),
        serde_json::Value::Object(m) => {
            JsonValue::Object(m.iter().map(|(k, v)| (k.clone(), to_wire(v))).collect())
        }
    }
}

fn read(json: &str) -> Option<FilterNode> {
    let doc: serde_json::Value = serde_json::from_str(json).unwrap();
    from_json(&to_wire(&doc))
}

#[test]
fn serde_eq_node() {
    let json = r#"["Eq", "name", { "type": "Str", "value": "AAAA" }]"#;
    let eq = read(json).unwrap();
    if let FilterNode::Equal(da::Eq::Eq, Field(field), Value::Str(StrValue(value))) = &eq {
        assert_eq!(field, "name");
        assert_eq!(value, "AAAA");
        return;
    }
    panic!("if let else, {:?}", eq);
}

#[test]
fn wire_whole_tree_reads_and_renders() {
    let json = r#"["And", [
        ["Eq", "id", {"type": "Int", "value": 123}],
        ["GtEq", "age", {"type": "Num", "value": 18.0}],
        ["Or", [
            ["Eq", "sex", {"type": "Str", "value": "female"}],
            ["And", [
                ["Eq", "sex", {"type": "Str", "value": "male"}],
                ["LtEq", "age", {"type": "Num", "value": 30.0}]
            ]]
        ]]
    ]]"#;
    let tree = read(json).unwrap();
    let ph = Placeholders {
        current_user_id: "@CurrentUserId".to_string(),
        current_date: "@CurrentDate".to_string(),
        current_time: "@CurrentTime".to_string(),
    };
    let res = "(id = 123 AND age >= 18 AND (sex = 'female' OR (sex = 'male' AND age <= 30)))";
    assert_eq!(tree.render(&ph), res);
}

#[test]
fn wire_reads_every_leaf_form() {
    assert_eq!(
        read(r#"["IsNull", "tag"]"#),
        Some(FilterNode::Nullable(
            da::Nullable::IsNull,
            Field("tag".to_string())
        ))
    );
    assert_eq!(
        read(r#"["In", "id", {"Int": [1, 2, 3]}]"#),
        Some(FilterNode::In(
            da::In::In,
            Field("id".to_string()),
            ListValue::Int(vec![1, 2, 3])
        ))
    );
    assert_eq!(
        read(r#"["NotIn", "tag", {"Str": ["a", "b"]}]"#),
        Some(FilterNode::In(
            da::In::NotIn,
            Field("tag".to_string()),
            ListValue::Str(vec![
                StrValue("a".to_string()),
                StrValue("b".to_string())
            ])
        ))
    );
    assert_eq!(
        read(r#"["Contains", "title", "50%"]"#),
        Some(FilterNode::Like(
            da::Like::Contains,
            Field("title".to_string()),
            StrValue("50%".to_string())
        ))
    );
    assert_eq!(
        read(r#"["Gt", "when", {"type": "CurrentDate"}]"#),
        Some(FilterNode::Cmp(
            da::Cmp::Gt,
            Field("when".to_string()),
            Value::CurrentDate
        ))
    );
}

#[test]
fn wire_rejects_malformed_documents() {
    // An operator name the grammar does not know.
    assert_eq!(read(r#"["Near", "x", {"type": "Int", "value": 1}]"#), None);
    // A leaf operator with a branch shape.
    assert_eq!(read(r#"["Eq", "x"]"#), None);
    // A literal whose tag does not fit its payload.
    assert_eq!(read(r#"["Eq", "x", {"type": "Int", "value": "12"}]"#), None);
    // A number that does not fit a 64-bit unsigned value.
    assert_eq!(
        read(r#"["Eq", "x", {"type": "Id", "value": 100000000000000000000}]"#),
        None
    );
    // Not a document of the filter shape at all.
    assert_eq!(read(r#"{"type": "Int", "value": 3}"#), None);
}

#[test]
fn wire_number_text_is_canonical() {
    assert_eq!(parse_u64(&"123".to_string()), Some(123));
    assert_eq!(parse_u64(&"0".to_string()), Some(0));
    assert_eq!(parse_u64(&"18446744073709551615".to_string()), Some(u64::MAX));
    assert_eq!(parse_u64(&"18446744073709551616".to_string()), None);
    assert_eq!(parse_u64(&"007".to_string()), None);
    assert_eq!(parse_u64(&"".to_string()), None);
    assert_eq!(parse_u64(&"-1".to_string()), None);
    assert_eq!(parse_u64(&"1.5".to_string()), None);
}
