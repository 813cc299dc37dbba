use emissary::encode::{encode_json, encode_plain};
use emissary::template::Plain;
use emissary::text::{i64_to_dec, str_eq, u128_to_dec};
use emissary::value::Value;

fn s(text: &str) -> Value {
    Value::Str(text.to_string())
}

/// Mirrors the library tree in serde_json's value type.
fn to_serde(v: &Value) -> serde_json::Value {
    match v {
        Value::Null => serde_json::Value::Null,
        Value::Bool(b) => serde_json::Value::Bool(*b),
        Value::Int(n) => serde_json::Value::Number(serde_json::Number::from(*n)),
        Value::Str(text) => serde_json::Value::String(text.clone()),
        Value::Array(items) => serde_json::Value::Array(items.iter().map(to_serde).collect()),
        Value::Object(fields) => {
            let mut map = serde_json::Map::new();
            for (k, val) in fields {
                map.insert(k.clone(), to_serde(val));
            }
            serde_json::Value::Object(map)
        }
    }
}

#[test]
fn json_encoding_of_scalars() {
    assert_eq!(encode_json(&Value::Null), "null");
    assert_eq!(encode_json(&Value::Bool(true)), "true");
    assert_eq!(encode_json(&Value::Bool(false)), "false");
    assert_eq!(encode_json(&Value::Int(0)), "0");
    assert_eq!(encode_json(&Value::Int(-17)), "-17");
    assert_eq!(encode_json(&Value::Int(i64::MAX)), "9223372036854775807");
    assert_eq!(encode_json(&Value::Int(i64::MIN)), "-9223372036854775808");
    assert_eq!(encode_json(&s("plain")), "\"plain\"");
    assert_eq!(encode_json(&s("")), "\"\"");
}

#[test]
fn json_encoding_of_trees() {
    let tree = Value::Object(vec![
        ("a".to_string(), Value::Array(vec![Value::Int(1), Value::Bool(true), Value::Null])),
        ("b".to_string(), s("x")),
        ("empty_arr".to_string(), Value::Array(vec![])),
        ("empty_obj".to_string(), Value::Object(vec![])),
    ]);
    assert_eq!(
        encode_json(&tree),
        "{\"a\":[1,true,null],\"b\":\"x\",\"empty_arr\":[],\"empty_obj\":{}}"
    );
}

#[test]
fn json_escaping_matches_the_reference_serializer() {
    let samples = [
        "quote \" backslash \\",
        "newline \n tab \t return \r",
        "backspace \u{8} formfeed \u{c}",
        "control \u{1} \u{1f} \u{10}",
        "unicode \u{e9}\u{4e16}\u{1f600}",
        "slash / stays",
        "",
    ];
    for text in samples {
        let ours = encode_json(&s(text));
        let reference = serde_json::to_string(&serde_json::Value::String(text.to_string()))
            .unwrap();
        assert_eq!(ours, reference, "escaping of {:?}", text);
    }
}

#[test]
fn json_encoding_matches_the_reference_serializer_on_a_tree() {
    let tree = Value::Object(vec![
        ("k\"ey".to_string(), s("v\\al\nue")),
        ("nums".to_string(), Value::Array(vec![Value::Int(-3), Value::Int(0), Value::Int(99)])),
        (
            "inner".to_string(),
            Value::Object(vec![("deep".to_string(), Value::Array(vec![Value::Null]))]),
        ),
    ]);
    let ours = encode_json(&tree);
    // serde_json's map re-sorts keys, while this encoder keeps the
    // declared order; parse the emitted text and compare values.
    let parsed: serde_json::Value = serde_json::from_str(&ours).unwrap();
    assert_eq!(parsed, to_serde(&tree));
}

#[test]
fn plain_encoding_formats_each_field() {
    let plain = Plain {
        data: vec![
            ("first".to_string(), "one".to_string()),
            ("second".to_string(), "".to_string()),
        ],
    };
    assert_eq!(encode_plain(&plain), "first=\"one\" second=\"\" ");
    assert_eq!(encode_plain(&Plain { data: vec![] }), "");
}

#[test]
fn decimal_renderings() {
    assert_eq!(u128_to_dec(0), "0");
    assert_eq!(u128_to_dec(10), "10");
    assert_eq!(u128_to_dec(u128::MAX), u128::MAX.to_string());
    assert_eq!(i64_to_dec(0), "0");
    assert_eq!(i64_to_dec(-1), "-1");
    assert_eq!(i64_to_dec(i64::MIN), i64::MIN.to_string());
    assert_eq!(i64_to_dec(i64::MAX), i64::MAX.to_string());
}

#[test]
fn character_comparison_helpers() {
    assert!(str_eq("abc", "abc"));
    assert!(!str_eq("abc", "abd"));
    assert!(!str_eq("abc", "ab"));
    assert!(str_eq("", ""));
    assert!(str_eq("na\u{ef}ve", "na\u{ef}ve"));
}
