//! The value model and its JSON text.
use phoebus::ConstValue;
use phoebus::Name;
use phoebus::NumberValue;
use phoebus::to_json;

fn obj(fields: Vec<(&str, ConstValue)>) -> ConstValue {
    ConstValue::Object(
        fields.into_iter().map(|(k, v)| (Name::new(k.to_string()), v)).collect(),
    )
}

#[test]
fn scalars() {
    assert_eq!(to_json(&ConstValue::Null), "null");
    assert_eq!(to_json(&ConstValue::Boolean(true)), "true");
    assert_eq!(to_json(&ConstValue::Boolean(false)), "false");
    assert_eq!(to_json(&ConstValue::Number(NumberValue::Int(0))), "0");
    assert_eq!(to_json(&ConstValue::Number(NumberValue::Int(-7))), "-7");
    assert_eq!(to_json(&ConstValue::Number(NumberValue::Int(9007199254740993))), "9007199254740993");
    assert_eq!(to_json(&ConstValue::Number(NumberValue::Int(i64::MIN))), "-9223372036854775808");
    assert_eq!(to_json(&ConstValue::Number(NumberValue::Int(i64::MAX))), "9223372036854775807");
    assert_eq!(to_json(&ConstValue::Number(NumberValue::Float("3.25".to_string()))), "3.25");
}

#[test]
fn strings_and_escapes() {
    assert_eq!(to_json(&ConstValue::Str("plain".to_string())), "\"plain\"");
    assert_eq!(
        to_json(&ConstValue::Str("say \"hi\"\\\n".to_string())),
        "\"say \\\"hi\\\"\\\\\\n\""
    );
    assert_eq!(to_json(&ConstValue::Str("tab\there".to_string())), "\"tab\\there\"");
    assert_eq!(to_json(&ConstValue::Str("\r".to_string())), "\"\\r\"");
    assert_eq!(to_json(&ConstValue::Str("\u{1}".to_string())), "\"\\u0001\"");
    assert_eq!(to_json(&ConstValue::Str("\u{1f}".to_string())), "\"\\u001f\"");
    assert_eq!(to_json(&ConstValue::Str("caf\u{e9}".to_string())), "\"caf\u{e9}\"");
}

#[test]
fn enums_serialize_as_strings() {
    assert_eq!(to_json(&ConstValue::Enum(Name::new("TABBY".to_string()))), "\"TABBY\"");
}

#[test]
fn lists_and_objects_keep_order() {
    let v = obj(vec![
        ("z", ConstValue::Number(NumberValue::Int(1))),
        ("a", ConstValue::List(vec![
            ConstValue::Null,
            ConstValue::Boolean(true),
            ConstValue::Str("x".to_string()),
        ])),
    ]);
    assert_eq!(to_json(&v), "{\"z\":1,\"a\":[null,true,\"x\"]}");
}

#[test]
fn empty_list_and_object() {
    assert_eq!(to_json(&ConstValue::List(vec![])), "[]");
    assert_eq!(to_json(&ConstValue::Object(vec![])), "{}");
}

#[test]
fn dup_preserves_json() {
    let v = obj(vec![
        ("k", ConstValue::List(vec![ConstValue::Number(NumberValue::Int(3))])),
        ("s", ConstValue::Str("v".to_string())),
    ]);
    let copy = v.dup();
    assert_eq!(to_json(&v), to_json(&copy));
}
