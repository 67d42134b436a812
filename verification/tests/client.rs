//! Calls: method references, errors, answers, retries, refreshes.

use bbcli::client::{
    announcement, connect_error, method_path, needs_refresh, not_logged_in, parse_method,
    read_answer, recovery_hint, refresh_plan, seconds_left, store_refreshed, succeeded,
    timeout_error, AnswerError, Exchange, ExchangeEvent, ExchangeStage, RefreshPlan,
};
use bbcli::json::Json;
use bbcli::store::{Credentials, TokenFile};

#[test]
fn method_path_forms() {
    assert_eq!(method_path("SQLService/Query").unwrap(), "/bytebase.v1.SQLService/Query");
    assert_eq!(
        method_path("bytebase.v1.SQLService/Query").unwrap(),
        "/bytebase.v1.SQLService/Query"
    );
    assert_eq!(method_path(" /SQLService/Query ").unwrap(), "/bytebase.v1.SQLService/Query");
    assert_eq!(method_path("SQLService.Query").unwrap(), "/bytebase.v1.SQLService/Query");
    assert!(method_path("SQLService").is_err());
    assert!(method_path("a/b/c").is_err());
    assert!(method_path("a.b.c").is_err());
}

#[test]
fn a_reference_is_parted_or_refused_with_itself() {
    assert_eq!(parse_method("//SQLService.Query").unwrap(), ("SQLService", "Query"));
    for bad in ["", "/", "a/", ".b", "bytebase.v1.", "a/b."] {
        assert_eq!(
            parse_method(bad).unwrap_err(),
            format!(
                "method must look like Service/Method, e.g. SQLService/Query (got {bad:?})"
            )
        );
    }
    // A path leads back to its method.
    assert_eq!(
        parse_method(&method_path("SQLService/Query").unwrap()).unwrap(),
        ("SQLService", "Query")
    );
}

#[test]
fn every_known_code_has_its_action() {
    for code in [
        "unauthenticated",
        "permission_denied",
        "not_found",
        "invalid_argument",
        "unimplemented",
        "deadline_exceeded",
        "unavailable",
    ] {
        assert!(recovery_hint(Some(code)).is_some(), "{code}");
    }
    assert_eq!(recovery_hint(Some("internal")), None);
    assert_eq!(recovery_hint(None), None);
    assert_eq!(recovery_hint(Some("deadline_exceeded")), recovery_hint(Some("unavailable")));
}

#[test]
fn a_connect_error_keeps_code_message_details_and_action() {
    assert_eq!(
        connect_error(
            "403 Forbidden",
            "/p",
            r#"{"code": "permission_denied", "message": "nope", "details": [{"a": 1}]}"#
        ),
        "HTTP 403 Forbidden from /p [permission_denied]: nope\n  details: [{\"a\":1}]\n  the \
         account lacks the required role: see `bbcli skill grant-permission`"
    );
    assert_eq!(
        connect_error("500 Internal Server Error", "/p", r#"{"code": "internal", "details": null}"#),
        "HTTP 500 Internal Server Error from /p [internal]: (no message)"
    );
    assert_eq!(connect_error("502 Bad Gateway", "/p", " \n"), "HTTP 502 Bad Gateway from /p (empty body)");
    assert_eq!(
        connect_error("502 Bad Gateway", "/p", " <html> "),
        "HTTP 502 Bad Gateway from /p: <html>"
    );
    assert_eq!(connect_error("400 Bad Request", "/p", "{}"), "HTTP 400 Bad Request from /p: (no message)");
}

#[test]
fn an_answer_is_a_value_a_refusal_or_unreadable() {
    assert_eq!(read_answer(200, "200 OK", "/p", " ").unwrap(), Json::Null);
    assert_eq!(
        read_answer(204, "204 No Content", "/p", r#"{"a": 1}"#).unwrap().compact(),
        "{\"a\":1}"
    );
    match read_answer(200, "200 OK", "/p", "{") {
        Err(AnswerError::Unreadable(why)) => assert!(why.contains("EOF"), "{why}"),
        _ => panic!("half an object is unreadable"),
    }
    match read_answer(404, "404 Not Found", "/p", r#"{"code": "not_found", "message": "m"}"#) {
        Err(AnswerError::Refused(words)) => {
            assert!(words.starts_with("HTTP 404 Not Found from /p [not_found]: m\n"), "{words}")
        }
        _ => panic!("a refusal"),
    }
    assert!(succeeded(200) && succeeded(299) && !succeeded(199) && !succeeded(300));
}

fn status(e: &mut Exchange, code: u16) {
    e.step(ExchangeEvent::Status(code, format!("{code}")));
}

#[test]
fn a_401_is_tried_again_once() {
    let mut e = Exchange::start("https://bb", "SQLService/Query").unwrap();
    assert_eq!(e.url(), "https://bb/bytebase.v1.SQLService/Query");
    assert!(matches!(e.stage, ExchangeStage::Fresh));
    e.step(ExchangeEvent::Ready);
    assert!(matches!(e.stage, ExchangeStage::Send { retried: false }));
    status(&mut e, 401);
    assert!(matches!(e.stage, ExchangeStage::Renew));
    e.step(ExchangeEvent::Ready);
    assert!(matches!(e.stage, ExchangeStage::Send { retried: true }));
    status(&mut e, 401);
    assert!(matches!(e.stage, ExchangeStage::Body { status: 401, .. }));
    e.step(ExchangeEvent::Body(String::new()));
    match e.stage {
        ExchangeStage::Done(Err(AnswerError::Refused(words))) => assert_eq!(
            words,
            "HTTP 401 from /bytebase.v1.SQLService/Query (empty body)"
        ),
        _ => panic!("the second 401 is the answer"),
    }
}

#[test]
fn a_call_that_works_is_sent_once() {
    let mut e = Exchange::start("https://bb", "a/b").unwrap();
    e.step(ExchangeEvent::Ready);
    status(&mut e, 200);
    // What is not waited for changes nothing.
    e.step(ExchangeEvent::Ready);
    e.step(ExchangeEvent::Body("[1]".to_string()));
    match e.stage {
        ExchangeStage::Done(Ok(v)) => assert_eq!(v.compact(), "[1]"),
        _ => panic!("the answer"),
    }
    assert!(Exchange::start("https://bb", "nope").is_err());
}

fn creds(token: &str, expires_at: i64) -> Credentials {
    Credentials {
        client_id: "c".to_string(),
        access_token: format!("at-{token}"),
        refresh_token: format!("rt-{token}"),
        expires_at,
        refresh_expires_at: expires_at,
    }
}

#[test]
fn a_token_is_refreshed_two_minutes_early() {
    assert!(needs_refresh(1119, 1000));
    assert!(!needs_refresh(1120, 1000));
    assert!(needs_refresh(i64::MIN, i64::MAX));
    assert!(!needs_refresh(i64::MAX, i64::MIN));
    assert_eq!(seconds_left(1000, 1120), -120);
}

#[test]
fn a_rotated_token_is_adopted_and_a_forced_refresh_uses_the_stored_one() {
    let mut tokens = TokenFile::new();
    let held = creds("old", 1000);
    match refresh_plan(&tokens, "https://bb", &held, false, 1000) {
        RefreshPlan::Refresh(c) => assert_eq!(c, held),
        _ => panic!("what is held is stale"),
    }
    store_refreshed(&mut tokens, "https://bb", &creds("new", 9000));
    match refresh_plan(&tokens, "https://bb", &held, false, 1000) {
        RefreshPlan::Adopt(c) => assert_eq!(c.access_token, "at-new"),
        _ => panic!("the rotated token is adopted"),
    }
    match refresh_plan(&tokens, "https://bb", &held, true, 1000) {
        RefreshPlan::Refresh(c) => assert_eq!(c.refresh_token, "rt-new"),
        _ => panic!("a 401 forces a refresh"),
    }
}

#[test]
fn the_words_of_a_call() {
    assert_eq!(
        announcement("SQLService/Query", "https://bb", "--context flag"),
        "SQLService/Query -> https://bb (source: --context flag)"
    );
    assert_eq!(
        timeout_error("/p", 30),
        "request to /p exceeded the client timeout of 30s — the server may still be executing \
         it; check its status before retrying"
    );
    assert_eq!(
        not_logged_in("https://bb"),
        "not logged in to https://bb; run `bbcli login --context https://bb` first"
    );
}
