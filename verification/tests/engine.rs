use emissary::config::LoggingMode;
use emissary::context::{duration, header, Context, DurationUnit, Headers};
use emissary::info::Info;
use emissary::logging::Logging;
use emissary::placeholder::{classify, Placeholder};
use emissary::resolve::{resolve, resolve_flat_str, resolve_plain};
use emissary::template::{ConfigError, PathSeg, Plain};
use emissary::value::Value;

fn headers(entries: &[(&str, &str)]) -> Headers {
    let mut h = Headers::new();
    for (k, v) in entries {
        h.push((*k).to_string(), (*v).to_string());
    }
    h
}

fn context(
    start_ns: u128,
    end_ns: u128,
    method: &str,
    uri: &str,
    status: u16,
    req: &[(&str, &str)],
    res: &[(&str, &str)],
) -> Context {
    Context::new(
        start_ns,
        end_ns,
        method.to_string(),
        uri.to_string(),
        status,
        headers(req),
        headers(res),
    )
}

fn obj(fields: Vec<(&str, Value)>) -> Value {
    Value::Object(fields.into_iter().map(|(k, v)| (k.to_string(), v)).collect())
}

fn s(text: &str) -> Value {
    Value::Str(text.to_string())
}

fn is_uuid_like(text: &str) -> bool {
    let chars: Vec<char> = text.chars().collect();
    chars.len() == 36
        && chars.iter().enumerate().all(|(i, c)| match i {
            8 | 13 | 18 | 23 => *c == '-',
            14 => *c == '4',
            19 => matches!(c, '8' | '9' | 'a' | 'b'),
            _ => c.is_ascii_hexdigit() && !c.is_ascii_uppercase(),
        })
}

#[test]
fn end_to_end_structured_example() {
    let template = obj(vec![
        ("id", s("%{UUID()}")),
        ("method", s("%{METHOD}")),
        ("status", s("%{STATUS_CODE}")),
        ("dur_ms", s("%{DURATION(MS)}")),
    ]);
    let t0: u128 = 1_000;
    let ctx = context(t0, t0 + 15_000_000, "POST", "/orders", 201, &[], &[]);
    let record = resolve(&template, &ctx);
    match record {
        Value::Object(fields) => {
            assert_eq!(fields.len(), 4);
            assert_eq!(fields[0].0, "id");
            match &fields[0].1 {
                Value::Str(id) => {
                    assert!(is_uuid_like(id));
                    assert!(uuid::Uuid::parse_str(id).is_ok());
                }
                other => panic!("id resolved to {:?}", other),
            }
            assert_eq!(fields[1], ("method".to_string(), s("POST")));
            assert_eq!(fields[2], ("status".to_string(), Value::Int(201)));
            assert_eq!(fields[3], ("dur_ms".to_string(), s("15")));
        }
        other => panic!("record is {:?}", other),
    }
}

#[test]
fn flat_example() {
    let source = obj(vec![("m", s("%{METHOD}")), ("u", s("%{URI}"))]);
    let plain = Plain::from_value(&source).expect("flat template accepted");
    let ctx = context(0, 0, "GET", "/health", 200, &[], &[]);
    let resolved = resolve_plain(&plain, &ctx);
    let line = emissary::encode::encode_plain(&resolved);
    assert_eq!(line, "m=\"GET\" u=\"/health\" ");
}

#[test]
fn non_placeholder_strings_pass_through() {
    let ctx = context(0, 5, "GET", "/", 200, &[("Host", "a")], &[]);
    for text in [
        "",
        "hello",
        "%{METHOD",
        "method: %{METHOD}",
        "%{method}",
        "%{UUID()} ",
        "%{REQUEST_HEADER(Host)",
        "%{REQUEST_HEADER",
        "%{DURATION}",
        "%{UNKNOWN}",
        "abc%{REQUEST_HEADER(Host)}def",
    ] {
        let out = resolve(&s(text), &ctx);
        assert_eq!(out, s(text), "{:?} should pass through", text);
        let flat = resolve_flat_str(&text.to_string(), &ctx);
        assert_eq!(flat, text);
    }
}

#[test]
fn resolution_deterministic_except_uuid() {
    let template = obj(vec![
        ("id", s("%{UUID()}")),
        ("m", s("%{METHOD}")),
        ("deep", Value::Array(vec![s("%{URI}"), s("literal"), Value::Int(7)])),
    ]);
    let ctx = context(10, 4_000_000_000, "PUT", "/x", 204, &[], &[]);
    let r1 = resolve(&template, &ctx);
    let r2 = resolve(&template, &ctx);
    let (f1, f2) = match (r1, r2) {
        (Value::Object(f1), Value::Object(f2)) => (f1, f2),
        _ => panic!("records are not objects"),
    };
    match (&f1[0].1, &f2[0].1) {
        (Value::Str(id1), Value::Str(id2)) => {
            assert!(is_uuid_like(id1));
            assert!(is_uuid_like(id2));
            assert_ne!(id1, id2, "two resolutions drew the same identifier");
        }
        _ => panic!("ids are not strings"),
    }
    assert_eq!(f1[1..], f2[1..], "non-generated fields differ");
}

#[test]
fn duration_units_and_ordering() {
    let start: u128 = 500;
    let end = start + 1_234_567_890;
    let ns = duration(start, end, DurationUnit::Nanoseconds);
    let ms = duration(start, end, DurationUnit::Milliseconds);
    let s = duration(start, end, DurationUnit::Seconds);
    assert_eq!(ns, "1234567890");
    assert_eq!(ms, "1234");
    assert_eq!(s, "1");
    let (ns, ms, s): (u128, u128, u128) =
        (ns.parse().unwrap(), ms.parse().unwrap(), s.parse().unwrap());
    assert!(ns >= ms && ms >= s);
}

#[test]
fn duration_zero_elapsed() {
    for unit in [
        DurationUnit::Nanoseconds,
        DurationUnit::Milliseconds,
        DurationUnit::Seconds,
    ] {
        assert_eq!(duration(42, 42, unit), "0");
    }
}

#[test]
fn header_lookup_is_case_insensitive() {
    let ctx = context(
        0,
        1,
        "GET",
        "/",
        200,
        &[("X-Request-Id", "abc-123")],
        &[],
    );
    let lower = resolve(&s("%{REQUEST_HEADER(x-request-id)}"), &ctx);
    let upper = resolve(&s("%{REQUEST_HEADER(X-REQUEST-ID)}"), &ctx);
    let mixed = resolve(&s("%{REQUEST_HEADER(X-Request-Id)}"), &ctx);
    assert_eq!(lower, s("abc-123"));
    assert_eq!(upper, lower);
    assert_eq!(mixed, lower);
}

#[test]
fn missing_header_resolves_to_empty_string() {
    let ctx = context(0, 1, "GET", "/", 200, &[], &[("Server", "unit")]);
    let out = resolve(&s("%{RESPONSE_HEADER(Not-Present)}"), &ctx);
    assert_eq!(out, s(""));
}

#[test]
fn first_header_value_wins() {
    let h = headers(&[("Accept", "text/html"), ("accept", "application/json")]);
    assert_eq!(header(&h, "ACCEPT"), "text/html");
}

#[test]
fn structure_is_preserved() {
    let template = obj(vec![
        (
            "nested",
            obj(vec![("list", Value::Array(vec![s("%{METHOD}"), Value::Bool(true), Value::Null]))]),
        ),
        ("n", Value::Int(-5)),
    ]);
    let ctx = context(0, 1, "DELETE", "/it", 410, &[], &[]);
    let record = resolve(&template, &ctx);
    let expected = obj(vec![
        (
            "nested",
            obj(vec![("list", Value::Array(vec![s("DELETE"), Value::Bool(true), Value::Null]))]),
        ),
        ("n", Value::Int(-5)),
    ]);
    assert_eq!(record, expected);
}

#[test]
fn status_code_is_number_in_structured_and_text_in_flat() {
    let ctx = context(0, 1, "GET", "/", 503, &[], &[]);
    assert_eq!(resolve(&s("%{STATUS_CODE}"), &ctx), Value::Int(503));
    assert_eq!(resolve_flat_str(&"%{STATUS_CODE}".to_string(), &ctx), "503");
}

#[test]
fn flat_resolution_keeps_declared_order() {
    let source = obj(vec![
        ("zeta", s("%{METHOD}")),
        ("alpha", s("fixed")),
        ("mid", Value::Int(3)),
    ]);
    let plain = Plain::from_value(&source).unwrap();
    let ctx = context(0, 1, "HEAD", "/", 200, &[], &[]);
    let resolved = resolve_plain(&plain, &ctx);
    let keys: Vec<&str> = resolved.data.iter().map(|(k, _)| k.as_str()).collect();
    assert_eq!(keys, vec!["zeta", "alpha", "mid"]);
    assert_eq!(resolved.data[0].1, "HEAD");
    assert_eq!(resolved.data[1].1, "fixed");
    assert_eq!(resolved.data[2].1, "3");
}

#[test]
fn flat_template_rejects_non_object() {
    assert_eq!(
        Plain::from_value(&Value::Array(vec![])),
        Err(ConfigError::FlatNotObject)
    );
    assert_eq!(
        Plain::from_value(&s("just text")),
        Err(ConfigError::FlatNotObject)
    );
}

#[test]
fn flat_template_rejects_nested_field() {
    let source = obj(vec![("ok", s("x")), ("bad", Value::Array(vec![s("y")]))]);
    assert_eq!(
        Plain::from_value(&source),
        Err(ConfigError::FlatValueNotScalar { key: "bad".to_string() })
    );
    let with_null = obj(vec![("n", Value::Null)]);
    assert_eq!(
        Plain::from_value(&with_null),
        Err(ConfigError::FlatValueNotScalar { key: "n".to_string() })
    );
}

#[test]
fn flat_template_renders_scalars() {
    let source = obj(vec![("i", Value::Int(-42)), ("b", Value::Bool(false)), ("t", s("x"))]);
    let plain = Plain::from_value(&source).unwrap();
    let texts: Vec<&str> = plain.data.iter().map(|(_, v)| v.as_str()).collect();
    assert_eq!(texts, vec!["-42", "false", "x"]);
}

#[test]
fn unknown_duration_unit_rejected_at_construction() {
    let template = obj(vec![(
        "timing",
        Value::Array(vec![s("fine"), s("%{DURATION(HOURS)}")]),
    )]);
    let err = emissary::template::validate_template(&template).unwrap_err();
    match &err {
        ConfigError::UnknownDurationUnit { path } => {
            assert_eq!(
                path,
                &vec![PathSeg::Key("timing".to_string()), PathSeg::Index(1)]
            );
        }
        other => panic!("unexpected error {:?}", other),
    }
    assert_eq!(
        err.message(),
        "unrecognized duration unit at: timing.[1]"
    );

    let flat_source = obj(vec![("d", s("%{DURATION(US)}"))]);
    let err = Plain::from_value(&flat_source).unwrap_err();
    assert_eq!(
        err,
        ConfigError::UnknownDurationUnit { path: vec![PathSeg::Key("d".to_string())] }
    );
    assert_eq!(err.message(), "unrecognized duration unit at: d");
}

#[test]
fn recognized_duration_units_accepted() {
    let template = obj(vec![
        ("a", s("%{DURATION(NS)}")),
        ("b", s("%{DURATION(MS)}")),
        ("c", s("%{DURATION(S)}")),
        ("d", s("%{DURATION( whatever, not the duration shape")),
    ]);
    assert!(emissary::template::validate_template(&template).is_ok());
}

#[test]
fn error_messages_name_the_failure() {
    assert_eq!(
        ConfigError::FlatNotObject.message(),
        "the flat log template must be an object of scalar fields"
    );
    assert_eq!(
        ConfigError::FlatValueNotScalar { key: "why".to_string() }.message(),
        "the flat log template holds a non-scalar field: why"
    );
}

#[test]
fn classify_matches_the_anchored_header_pattern() {
    let req_re = regex::Regex::new(r"^%\{REQUEST_HEADER\((.*)\)\}$").unwrap();
    let res_re = regex::Regex::new(r"^%\{RESPONSE_HEADER\((.*)\)\}$").unwrap();
    for text in [
        "%{REQUEST_HEADER(Host)}",
        "%{REQUEST_HEADER()}",
        "%{REQUEST_HEADER(a(b)c)}",
        "%{RESPONSE_HEADER(Content-Type)}",
        "%{REQUEST_HEADER}",
        "%{REQUEST_HEADER()",
        "pre%{REQUEST_HEADER(Host)}",
        "%{RESPONSE_HEADER(x)}post",
        "%{METHOD}",
        "plain",
    ] {
        let got = classify(text);
        match req_re.captures(text) {
            Some(cap) => assert_eq!(
                got,
                Placeholder::RequestHeader(cap[1].to_string()),
                "on {:?}",
                text
            ),
            None => assert!(
                !matches!(got, Placeholder::RequestHeader(_)),
                "on {:?}",
                text
            ),
        }
        match res_re.captures(text) {
            Some(cap) => assert_eq!(
                got,
                Placeholder::ResponseHeader(cap[1].to_string()),
                "on {:?}",
                text
            ),
            None => assert!(
                !matches!(got, Placeholder::ResponseHeader(_)),
                "on {:?}",
                text
            ),
        }
    }
}

#[test]
fn classify_exact_tokens() {
    assert_eq!(classify("%{UUID()}"), Placeholder::Uuid);
    assert_eq!(classify("%{DURATION(NS)}"), Placeholder::DurationNs);
    assert_eq!(classify("%{DURATION(MS)}"), Placeholder::DurationMs);
    assert_eq!(classify("%{DURATION(S)}"), Placeholder::DurationS);
    assert_eq!(classify("%{METHOD}"), Placeholder::Method);
    assert_eq!(classify("%{URI}"), Placeholder::Uri);
    assert_eq!(classify("%{STATUS_CODE}"), Placeholder::StatusCode);
    assert_eq!(classify("%{uuid()}"), Placeholder::Literal);
    assert_eq!(classify("%{DURATION(ns)}"), Placeholder::Literal);
}

#[test]
fn logging_engine_renders_both_modes() {
    let json_template = obj(vec![("m", s("%{METHOD}")), ("code", s("%{STATUS_CODE}"))]);
    let flat_source = obj(vec![("m", s("%{METHOD}")), ("code", s("%{STATUS_CODE}"))]);
    let ctx = context(0, 2_000_000, "GET", "/health", 200, &[], &[]);

    let json_engine = Logging::new(
        LoggingMode::Json,
        json_template,
        &flat_source,
    )
    .unwrap();
    assert_eq!(json_engine.log_line(&ctx), "{\"m\":\"GET\",\"code\":200}");

    let rebuilt = obj(vec![("m", s("%{METHOD}")), ("code", s("%{STATUS_CODE}"))]);
    let plain_engine = Logging::new(LoggingMode::Plain, rebuilt, &flat_source).unwrap();
    assert_eq!(plain_engine.log_line(&ctx), "m=\"GET\" code=\"200\" ");
}

#[test]
fn logging_engine_rejects_bad_templates() {
    let bad_json = obj(vec![("d", s("%{DURATION(DAYS)}"))]);
    let good_flat = obj(vec![("m", s("%{METHOD}"))]);
    assert!(Logging::new(LoggingMode::Json, bad_json, &good_flat).is_err());

    let good_json = obj(vec![("m", s("%{METHOD}"))]);
    let bad_flat = obj(vec![("nested", obj(vec![("x", s("y"))]))]);
    assert!(Logging::new(LoggingMode::Json, good_json, &bad_flat).is_err());
}

#[test]
fn template_without_placeholders_is_constant() {
    let template = obj(vec![
        ("fixed", s("text")),
        ("n", Value::Int(1)),
        ("flag", Value::Bool(true)),
    ]);
    let ctx1 = context(0, 1, "GET", "/a", 200, &[("A", "1")], &[]);
    let ctx2 = context(5, 900_000_000, "POST", "/b", 500, &[], &[("B", "2")]);
    let r1 = resolve(&template, &ctx1);
    let r2 = resolve(&template, &ctx2);
    assert_eq!(r1, template);
    assert_eq!(r2, template);
}

#[test]
fn info_carries_the_crate_version() {
    assert_eq!(Info::new().version, "0.1.0");
}
