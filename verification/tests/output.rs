use posthog_cli_rs::commands::config::{mask_api_key, show_display};
use posthog_cli_rs::config::Config;
use posthog_cli_rs::errors::{classify_http_status, io_error, network_error, ErrorCode, PostHogError};
use posthog_cli_rs::json::JsonValue;
use posthog_cli_rs::output::{field_list, project_fields, render_error, render_json, OutputOptions};
use posthog_cli_rs::text::{i64_to_decimal, parse_usize, trim, u64_to_decimal};
use serde_json::{Number, Value};

fn s(v: &str) -> JsonValue {
    JsonValue::Str(v.to_string())
}

fn n(v: i64) -> JsonValue {
    JsonValue::Number(Number::from(v))
}

fn obj(members: Vec<(&str, JsonValue)>) -> JsonValue {
    JsonValue::Object(members.into_iter().map(|(k, v)| (k.to_string(), v)).collect())
}

fn str_value(v: &str) -> Value {
    Value::String(v.to_string())
}

// --- render_json ---

#[test]
fn renders_compact_json_by_default() {
    let out = render_json(obj(vec![("key", s("value")), ("num", n(42))]), &OutputOptions::default());
    assert_eq!(out, r#"{"key":"value","num":42}"#);
}

#[test]
fn renders_pretty_json_when_requested() {
    let opts = OutputOptions { pretty: true, fields: None };
    let out = render_json(obj(vec![("key", s("value"))]), &opts);
    assert_eq!(out, "{\n  \"key\": \"value\"\n}");
}

#[test]
fn renders_arrays() {
    let out = render_json(JsonValue::Array(vec![n(1), n(2), n(3)]), &OutputOptions::default());
    assert_eq!(out, "[1,2,3]");
}

#[test]
fn renders_null() {
    let out = render_json(JsonValue::Null, &OutputOptions::default());
    assert_eq!(out, "null");
}

#[test]
fn projects_fields_on_single_object() {
    let opts = OutputOptions {
        pretty: false,
        fields: Some("key,active".into()),
    };
    let out = render_json(
        obj(vec![
            ("id", n(1)),
            ("key", s("my-flag")),
            ("name", s("My Flag")),
            ("active", JsonValue::Bool(true)),
        ]),
        &opts,
    );
    assert_eq!(out, r#"{"key":"my-flag","active":true}"#);
}

#[test]
fn projects_fields_on_array_of_objects() {
    let opts = OutputOptions {
        pretty: false,
        fields: Some("key,active".into()),
    };
    let out = render_json(
        JsonValue::Array(vec![
            obj(vec![("id", n(1)), ("key", s("a")), ("active", JsonValue::Bool(true)), ("extra", s("x"))]),
            obj(vec![("id", n(2)), ("key", s("b")), ("active", JsonValue::Bool(false)), ("extra", s("y"))]),
        ]),
        &opts,
    );
    assert_eq!(
        out,
        r#"[{"key":"a","active":true},{"key":"b","active":false}]"#
    );
}

#[test]
fn silently_omits_missing_fields() {
    let opts = OutputOptions {
        pretty: false,
        fields: Some("key,nope".into()),
    };
    let out = render_json(obj(vec![("id", n(1)), ("key", s("x"))]), &opts);
    assert_eq!(out, r#"{"key":"x"}"#);
}

#[test]
fn trims_whitespace_in_fields_list() {
    let opts = OutputOptions {
        pretty: false,
        fields: Some(" a , c ".into()),
    };
    let out = render_json(obj(vec![("a", n(1)), ("b", n(2)), ("c", n(3))]), &opts);
    assert_eq!(out, r#"{"a":1,"c":3}"#);
}

#[test]
fn passes_scalar_values_through_unchanged_when_fields_set() {
    let opts = OutputOptions {
        pretty: false,
        fields: Some("key".into()),
    };
    let out = render_json(n(42), &opts);
    assert_eq!(out, "42");
}

#[test]
fn combines_pretty_and_fields() {
    let opts = OutputOptions {
        pretty: true,
        fields: Some("key".into()),
    };
    let out = render_json(obj(vec![("id", n(1)), ("key", s("x")), ("name", s("X"))]), &opts);
    assert_eq!(out, "{\n  \"key\": \"x\"\n}");
}

// --- project_fields ---

#[test]
fn project_fields_passes_through_when_none() {
    let data = obj(vec![("a", n(1)), ("b", n(2))]);
    assert_eq!(project_fields(data.deep_copy(), None), data);
}

#[test]
fn project_fields_passes_through_on_empty_string() {
    let data = obj(vec![("a", n(1)), ("b", n(2))]);
    assert_eq!(project_fields(data.deep_copy(), Some("")), data);
}

#[test]
fn project_fields_preserves_null_values() {
    let data = obj(vec![("a", JsonValue::Null), ("b", n(1))]);
    assert_eq!(
        project_fields(data, Some("a,b")),
        obj(vec![("a", JsonValue::Null), ("b", n(1))])
    );
}

#[test]
fn project_fields_follows_list_order_once() {
    let data = obj(vec![("a", n(1)), ("b", n(2)), ("c", n(3))]);
    assert_eq!(
        project_fields(data.deep_copy(), Some("c,a,c,,a")),
        obj(vec![("c", n(3)), ("a", n(1))])
    );
    // A list of separators and blanks names no field: nothing is cut.
    assert_eq!(project_fields(data.deep_copy(), Some(" , ,")), data);
    // Nested arrays are not objects and pass through.
    let nested = JsonValue::Array(vec![JsonValue::Array(vec![obj(vec![("a", n(1))])]), s("x")]);
    assert_eq!(project_fields(nested.deep_copy(), Some("b")), nested);
}

#[test]
fn projecting_twice_is_projecting_once() {
    let data = JsonValue::Array(vec![
        obj(vec![("id", n(1)), ("key", s("a")), ("active", JsonValue::Bool(true))]),
        n(7),
    ]);
    let once = project_fields(data, Some("active,key"));
    let twice = project_fields(once.deep_copy(), Some("active,key"));
    assert_eq!(once, twice);
}

#[test]
fn field_list_splits_trims_and_drops_blanks() {
    assert_eq!(field_list(" a , c "), vec!["a".to_string(), "c".to_string()]);
    assert_eq!(field_list(""), Vec::<String>::new());
    assert_eq!(field_list(",,x,\u{3000}y\t,"), vec!["x".to_string(), "y".to_string()]);
}

// --- render_error ---

#[test]
fn error_emits_structured_json() {
    let err = PostHogError::new("Something broke", ErrorCode::ApiError);
    let s = render_error(&err);
    let parsed: Value = serde_json::from_str(&s).unwrap();
    let mut inner = serde_json::Map::new();
    inner.insert("message".into(), str_value("Something broke"));
    inner.insert("code".into(), str_value("API_ERROR"));
    let mut outer = serde_json::Map::new();
    outer.insert("error".into(), Value::Object(inner));
    assert_eq!(parsed, Value::Object(outer));
    assert_eq!(s, r#"{"error":{"message":"Something broke","code":"API_ERROR"}}"#);
}

#[test]
fn error_preserves_code_hint_and_docs_url() {
    let err = PostHogError {
        message: "Nope".into(),
        code: ErrorCode::AuthInvalid,
        hint: Some("Run posthog login".into()),
        docs_url: Some("https://example.com/docs".into()),
        status: None,
    };
    let parsed: Value = serde_json::from_str(&render_error(&err)).unwrap();
    let mut inner = serde_json::Map::new();
    inner.insert("message".into(), str_value("Nope"));
    inner.insert("code".into(), str_value("AUTH_INVALID"));
    inner.insert("hint".into(), str_value("Run posthog login"));
    inner.insert("docs_url".into(), str_value("https://example.com/docs"));
    let mut outer = serde_json::Map::new();
    outer.insert("error".into(), Value::Object(inner));
    assert_eq!(parsed, Value::Object(outer));
}

#[test]
fn error_omits_hint_and_docs_url_when_absent() {
    let err = PostHogError::new("x", ErrorCode::ApiError);
    let parsed: Value = serde_json::from_str(&render_error(&err)).unwrap();
    assert_eq!(parsed["error"].get("hint"), None);
    assert_eq!(parsed["error"].get("docs_url"), None);
}

#[test]
fn error_envelope_leaves_out_status() {
    let mut err = PostHogError::new("down", ErrorCode::ApiError).with_hint("retry");
    err.status = Some(503);
    assert_eq!(render_error(&err), r#"{"error":{"message":"down","code":"API_ERROR","hint":"retry"}}"#);
}

// --- mask_api_key ---

#[test]
fn mask_empty_key_returns_not_set() {
    assert_eq!(mask_api_key(""), "(not set)");
}

#[test]
fn mask_typical_phx_key() {
    // head=7 chars, "..." separator, tail=4 chars
    assert_eq!(mask_api_key("phx_abcdefghijklmnop1234"), "phx_abc...1234");
}

#[test]
fn mask_short_key_degrades_gracefully() {
    // 3-char input: head=entire string, tail=entire string → "aaa...aaa"
    assert_eq!(mask_api_key("aaa"), "aaa...aaa");
}

#[test]
fn mask_non_ascii_key_does_not_panic() {
    // Defensive: even though real API keys are ASCII, masking must be char-safe.
    let result = mask_api_key("phx_😀😀😀😀😀");
    // Should not panic and should produce a string (exact formatting is not load-bearing).
    assert!(result.contains("..."));
    assert_eq!(result, "phx_😀😀😀...😀😀😀😀");
}

#[test]
fn mask_keys_around_the_boundaries() {
    assert_eq!(mask_api_key("abcdefg"), "abcdefg...defg");
    assert_eq!(mask_api_key("abcd"), "abcd...abcd");
    assert_eq!(mask_api_key("abcde"), "abcde...bcde");
}

#[test]
fn config_show_masks_the_key() {
    let c = Config {
        api_key: String::new(),
        project_id: "9".into(),
        host: "https://us.posthog.com".into(),
    };
    assert_eq!(
        render_json(show_display(&c), &OutputOptions::default()),
        r#"{"apiKey":"(not set)","projectId":"9","host":"https://us.posthog.com"}"#
    );
}

#[test]
fn error_code_serializes_all_variants_to_screaming_snake() {
    assert_eq!(
        serde_json::to_string(ErrorCode::AuthMissing.as_str()).unwrap(),
        "\"AUTH_MISSING\""
    );
    assert_eq!(
        serde_json::to_string(ErrorCode::RateLimited.as_str()).unwrap(),
        "\"RATE_LIMITED\""
    );
    assert_eq!(
        serde_json::to_string(ErrorCode::ApiError.as_str()).unwrap(),
        "\"API_ERROR\""
    );
    assert_eq!(ErrorCode::AuthInvalid.as_str(), "AUTH_INVALID");
    assert_eq!(ErrorCode::NotFound.as_str(), "NOT_FOUND");
    assert_eq!(ErrorCode::Validation.as_str(), "VALIDATION");
}

#[test]
fn http_statuses_map_to_codes() {
    assert_eq!(classify_http_status(401), ErrorCode::AuthInvalid);
    assert_eq!(classify_http_status(403), ErrorCode::AuthInvalid);
    assert_eq!(classify_http_status(404), ErrorCode::NotFound);
    assert_eq!(classify_http_status(429), ErrorCode::RateLimited);
    assert_eq!(classify_http_status(400), ErrorCode::Validation);
    assert_eq!(classify_http_status(499), ErrorCode::Validation);
    assert_eq!(classify_http_status(500), ErrorCode::ApiError);
    assert_eq!(classify_http_status(200), ErrorCode::ApiError);
}

#[test]
fn error_constructors_build_messages() {
    let e = PostHogError::new("m", ErrorCode::NotFound).with_hint("h");
    assert_eq!(e.message, "m");
    assert_eq!(e.hint.as_deref(), Some("h"));
    assert_eq!(e.docs_url, None);
    assert_eq!(io_error("denied").message, "I/O error: denied");
    assert_eq!(network_error("timeout").message, "Network error: timeout");
    assert_eq!(network_error("timeout").code, ErrorCode::ApiError);
}

#[test]
fn text_helpers_follow_std() {
    assert_eq!(trim("\t a b \u{a0}\n"), "a b");
    assert_eq!(trim("   "), "");
    assert_eq!(u64_to_decimal(0), "0");
    assert_eq!(u64_to_decimal(18446744073709551615), "18446744073709551615");
    assert_eq!(i64_to_decimal(-9223372036854775808), "-9223372036854775808");
    assert_eq!(i64_to_decimal(1200), "1200");
    assert_eq!(parse_usize("+17"), Some(17));
    assert_eq!(parse_usize("007"), Some(7));
    assert_eq!(parse_usize("+"), None);
    assert_eq!(parse_usize(" 1"), None);
    assert_eq!(parse_usize("18446744073709551616"), None);
    assert_eq!(parse_usize("18446744073709551615"), Some(usize::MAX));
}
