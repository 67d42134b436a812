//! One statement: the request, plain cells, and the output.

use bbcli::json::Json;
use bbcli::query::{
    build_output, flatten_row_value, latency_text, query_args, string_list, widen_integer,
};
use bbcli::resolve::Resolved;

fn json(text: &str) -> Json {
    Json::parse(text).expect("test text is JSON")
}

fn flat(cell: &str) -> Json {
    flatten_row_value(&json(cell))
}

/// A response with `n` rows.
fn response_with_rows(n: usize) -> Json {
    let rows: Vec<String> =
        (0..n).map(|i| format!("{{\"values\": [{{\"int64Value\": \"{i}\"}}]}}")).collect();
    json(&format!(
        "{{\"results\": [{{\"columnNames\": [\"id\"], \"columnTypeNames\": [\"INT\"], \"rows\": [{}]}}]}}",
        rows.join(", ")
    ))
}

#[test]
fn an_int64_string_becomes_a_json_number() {
    assert_eq!(flat(r#"{"int64Value": "42"}"#), json("42"));
    assert_eq!(flat(r#"{"int64Value": "-42"}"#), json("-42"));
    assert_eq!(
        flat(r#"{"uint64Value": "18446744073709551615"}"#),
        json("18446744073709551615")
    );
    assert_eq!(flat(r#"{"int64Value": 7}"#), json("7"));
}

#[test]
fn an_int64_too_large_for_json_keeps_its_string() {
    assert_eq!(
        flat(r#"{"int64Value": "184467440737095516150"}"#),
        json(r#""184467440737095516150""#)
    );
}

#[test]
fn the_widest_integers_fit_and_their_neighbours_do_not() {
    assert_eq!(widen_integer(&json(r#""-9223372036854775808""#)), Json::Int(i64::MIN));
    assert_eq!(
        widen_integer(&json(r#""-9223372036854775809""#)),
        json(r#""-9223372036854775809""#)
    );
    assert_eq!(
        widen_integer(&json(r#""18446744073709551616""#)),
        json(r#""18446744073709551616""#)
    );
    assert_eq!(widen_integer(&json(r#""+5""#)), json("5"));
    assert_eq!(widen_integer(&json(r#""""#)), json(r#""""#));
    assert_eq!(widen_integer(&json(r#"" 5""#)), json(r#"" 5""#));
}

#[test]
fn non_finite_doubles_stay_strings() {
    assert_eq!(flat(r#"{"doubleValue": "NaN"}"#), json(r#""NaN""#));
    assert_eq!(flat(r#"{"doubleValue": "-Infinity"}"#), json(r#""-Infinity""#));
    assert_eq!(flat(r#"{"doubleValue": 1.5}"#), json("1.5"));
}

#[test]
fn a_timestamp_collapses_to_its_utc_instant() {
    assert_eq!(
        flat(
            r#"{"timestampValue": {"googleTimestamp": "2026-01-01T00:00:00Z", "accuracy": 6}}"#
        ),
        json(r#""2026-01-01T00:00:00Z""#)
    );
    assert_eq!(
        flat(
            r#"{"timestampTzValue": {"googleTimestamp": "2026-01-01T00:00:00Z", "zone": "PST", "offset": -28800}}"#
        ),
        json(r#""2026-01-01T00:00:00Z""#)
    );
    assert_eq!(flat(r#"{"timestampValue": {"accuracy": 6}}"#), json(r#"{"accuracy": 6}"#));
}

#[test]
fn an_unknown_variant_passes_its_inner_value_through() {
    assert_eq!(flat(r#"{"somethingNewValue": "v"}"#), json(r#""v""#));
    assert_eq!(flat(r#"{"nullValue": "NULL_VALUE"}"#), Json::Null);
    assert_eq!(flat(r#"{"boolValue": true}"#), json("true"));
    assert_eq!(flat(r#"{"bytesValue": "aGk="}"#), json(r#""aGk=""#));
    assert_eq!(flat(r#"{"valueValue": {"a": [1]}}"#), json(r#"{"a": [1]}"#));
    assert_eq!(flat(r#""bare""#), json(r#""bare""#));
    assert_eq!(flat(r#"{"a": 1, "b": 2}"#), json(r#"{"a": 1, "b": 2}"#));
}

#[test]
fn one_row_past_the_limit_flags_truncation_and_is_trimmed_off() {
    let (out, _) = build_output("db", "ro", &response_with_rows(3), 2, 0).unwrap();
    assert_eq!(out.get("truncated"), Some(&json("true")));
    assert_eq!(out.get("rowCount"), Some(&json("2")));
    assert_eq!(out.get("rows"), Some(&json("[[0], [1]]")));

    let (out, _) = build_output("db", "ro", &response_with_rows(2), 2, 0).unwrap();
    assert_eq!(out.get("truncated"), Some(&json("false")));
    assert_eq!(out.get("rowCount"), Some(&json("2")));
}

#[test]
fn an_error_inside_a_successful_response_is_a_query_error() {
    let resp = json(r#"{"results": [{"error": "syntax error near bad"}]}"#);
    let err = build_output("db", "ro", &resp, 100, 0).unwrap_err().to_string();
    assert_eq!(err, "[QUERY_ERROR] syntax error near bad");
    let fine = json(r#"{"results": [{"error": ""}]}"#);
    assert!(build_output("db", "ro", &fine, 100, 0).is_ok());
}

#[test]
fn extra_result_sets_are_announced_and_only_the_first_is_shown() {
    let resp = json(
        r#"{"results": [
            {"columnNames": ["a"], "rows": [{"values": [{"int64Value": "1"}]}]},
            {"columnNames": ["b"], "rows": [{"values": [{"int64Value": "2"}]}]}
        ]}"#,
    );
    let (out, notes) = build_output("db", "ro", &resp, 100, 0).unwrap();
    assert_eq!(out.get("columns"), Some(&json(r#"["a"]"#)));
    assert_eq!(notes.len(), 1, "{notes:?}");
    assert!(notes[0].contains("2 result sets"), "{notes:?}");
    assert!(notes[0].contains("one statement per call"), "{notes:?}");
}

#[test]
fn no_result_set_still_yields_the_full_output_shape() {
    let (out, notes) = build_output("db", "", &json("{}"), 100, 0).unwrap();
    assert!(notes.is_empty());
    assert_eq!(out.get("rows"), Some(&json("[]")));
    assert_eq!(out.get("columns"), Some(&json("[]")));
    assert_eq!(out.get("columnTypes"), Some(&json("[]")));
    assert_eq!(out.get("rowCount"), Some(&json("0")));
    assert_eq!(out.get("truncated"), Some(&json("false")));
    assert_eq!(out.get("latencyMs"), Some(&json("0")));
    assert_eq!(out.get("database"), Some(&json(r#""db""#)));
}

#[test]
fn the_request_asks_for_one_row_more_and_names_a_source_only_if_there_is_one() {
    let mut resolved = Resolved {
        name: "instances/i/databases/d".to_string(),
        project: "projects/hr".to_string(),
        engine: "MYSQL".to_string(),
        data_source_id: "ro".to_string(),
    };
    assert_eq!(
        query_args(&resolved, "SELECT 1", 100).compact(),
        "{\"dataSourceId\":\"ro\",\"limit\":101,\"name\":\"instances/i/databases/d\",\"statement\":\"SELECT 1\"}"
    );
    resolved.data_source_id = String::new();
    assert_eq!(
        query_args(&resolved, "x", u32::MAX).compact(),
        "{\"limit\":4294967296,\"name\":\"instances/i/databases/d\",\"statement\":\"x\"}"
    );
}

#[test]
fn the_latency_is_read_as_the_text_of_its_seconds() {
    assert_eq!(latency_text(&json(r#"{"results": [{"latency": " 0.012s "}]}"#)), "0.012");
    assert_eq!(latency_text(&json(r#"{"results": [{"latency": "later"}]}"#)), "later");
    assert_eq!(latency_text(&json(r#"{"results": [{}]}"#)), "");
    assert_eq!(latency_text(&json("{}")), "");
    let (out, _) =
        build_output("db", "ro", &json(r#"{"results": [{"latency": "0.012s"}]}"#), 1, 12).unwrap();
    assert_eq!(out.get("latencyMs"), Some(&json("12")));
}

#[test]
fn only_strings_count_as_column_names() {
    let v = json(r#"{"columnNames": ["a", 1, null, "b"], "other": "x"}"#);
    assert_eq!(string_list(&v, "columnNames"), ["a", "b"]);
    assert!(string_list(&v, "other").is_empty());
    assert!(string_list(&v, "missing").is_empty());
}
