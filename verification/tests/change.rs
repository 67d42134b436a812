//! The review flow of a change: plan checks, gates, failures, the document.

use bbcli::change::{
    build_plan_check_info, derive_next_action, resource_name, rollout_decision, sheet_content,
    step_error, ChangeAction, ChangeEvent, PlanCheckInfo, PlanCheckSummary, Proposal, Rollout,
    APPROVAL_PENDING, APPROVAL_REJECTED, AWAIT_HUMAN_APPROVAL, CHECK_DONE, CREATE_ROLLOUT,
    FIX_SQL_AND_RETRY, NOT_REQUESTED, PLAN_CHECK_ERROR, PLAN_CHECK_PENDING, WAIT_PLAN_CHECK,
};
use bbcli::json::Json;
use bbcli::resolve::Resolved;

use base64::engine::general_purpose::STANDARD;
use base64::Engine;

fn json(text: &str) -> Json {
    Json::parse(text).expect("test text is JSON")
}

fn done(error: usize, warning: usize) -> PlanCheckInfo {
    PlanCheckInfo {
        status: CHECK_DONE,
        summary: Some(PlanCheckSummary { error, warning }),
        results: Vec::new(),
        plan_check_run: Some("p/planCheckRun".to_string()),
    }
}

#[test]
fn only_an_approved_or_skipped_issue_moves_on_without_a_human() {
    assert_eq!(derive_next_action("APPROVED"), CREATE_ROLLOUT);
    assert_eq!(derive_next_action("SKIPPED"), CREATE_ROLLOUT);
    assert_eq!(derive_next_action("REJECTED"), FIX_SQL_AND_RETRY);
    assert_eq!(derive_next_action("PENDING"), AWAIT_HUMAN_APPROVAL);
    assert_eq!(derive_next_action("CHECKING"), AWAIT_HUMAN_APPROVAL);
    assert_eq!(derive_next_action(""), AWAIT_HUMAN_APPROVAL);
    assert_eq!(derive_next_action("SOMETHING_NEW"), AWAIT_HUMAN_APPROVAL);
    for status in ["APPROVED", "REJECTED", "PENDING", ""] {
        assert!(!derive_next_action(status).contains("APPROVE"));
    }
}

#[test]
fn without_rollout_nothing_is_attempted_and_the_output_says_why() {
    assert_eq!(
        rollout_decision(false, &done(0, 0), "APPROVED"),
        Rollout::Deferred { reason: NOT_REQUESTED, next: None },
        "not asking for a rollout must not change the approval-derived next action"
    );
}

#[test]
fn checks_still_running_defer_the_rollout_and_ask_for_a_wait() {
    let running = PlanCheckInfo::running("p/planCheckRun");
    assert_eq!(
        rollout_decision(true, &running, "APPROVED"),
        Rollout::Deferred { reason: PLAN_CHECK_PENDING, next: Some(WAIT_PLAN_CHECK) }
    );
}

#[test]
fn check_errors_outrank_an_approval_and_send_the_agent_back_to_the_sql() {
    assert_eq!(
        rollout_decision(true, &done(1, 0), "APPROVED"),
        Rollout::Deferred { reason: PLAN_CHECK_ERROR, next: Some(FIX_SQL_AND_RETRY) }
    );
    assert_eq!(
        rollout_decision(true, &PlanCheckInfo::failed(), "APPROVED"),
        Rollout::Deferred { reason: PLAN_CHECK_ERROR, next: Some(FIX_SQL_AND_RETRY) }
    );
    assert_eq!(rollout_decision(true, &done(0, 3), "APPROVED"), Rollout::Attempt);
}

#[test]
fn a_pending_approval_defers_the_rollout_to_the_human() {
    for status in ["PENDING", "CHECKING"] {
        assert_eq!(
            rollout_decision(true, &done(0, 0), status),
            Rollout::Deferred { reason: APPROVAL_PENDING, next: Some(AWAIT_HUMAN_APPROVAL) },
            "{status}"
        );
    }
}

#[test]
fn a_rejected_approval_defers_the_rollout_and_names_the_rejection() {
    assert_eq!(
        rollout_decision(true, &done(0, 0), "REJECTED"),
        Rollout::Deferred { reason: APPROVAL_REJECTED, next: Some(FIX_SQL_AND_RETRY) }
    );
}

#[test]
fn an_approved_change_with_clean_checks_is_eligible_for_a_rollout() {
    assert_eq!(rollout_decision(true, &done(0, 0), "APPROVED"), Rollout::Attempt);
    assert_eq!(rollout_decision(true, &done(0, 0), "SKIPPED"), Rollout::Attempt);
}

#[test]
fn an_unknown_approval_defers_the_rollout_to_the_human() {
    for status in ["", "SOMETHING_NEW", "approved", "APPROVED "] {
        assert_eq!(
            rollout_decision(true, &done(0, 0), status),
            Rollout::Deferred { reason: APPROVAL_PENDING, next: Some(AWAIT_HUMAN_APPROVAL) },
            "{status}"
        );
    }
    // The checks come first.
    assert_eq!(
        rollout_decision(true, &done(1, 0), "SOMETHING_NEW"),
        Rollout::Deferred { reason: PLAN_CHECK_ERROR, next: Some(FIX_SQL_AND_RETRY) }
    );
}

#[test]
fn plan_checks_count_errors_and_warnings_and_drop_the_successes() {
    let run = json(
        r#"{"status": "DONE", "results": [
            {"status": "SUCCESS", "title": "all good"},
            {"status": "WARNING", "title": "no index"},
            {"status": "ERROR", "title": "", "content": "column does not exist"},
            {"status": "ERROR", "title": "naming convention", "content": "ignored"}
        ]}"#,
    );
    let info = build_plan_check_info(&run, "p/planCheckRun");
    assert_eq!(info.status, CHECK_DONE);
    assert_eq!(info.summary, Some(PlanCheckSummary { error: 2, warning: 1 }));
    assert_eq!(info.results.len(), 3, "{:?}", info.results);
    assert_eq!(info.results[0].kind, "WARNING");
    assert_eq!(info.results[0].message, "no index");
    assert_eq!(info.results[1].message, "column does not exist");
    assert_eq!(info.results[2].message, "naming convention");
    assert!(info.blocking(), "errors must block a rollout");
    assert_eq!(info.plan_check_run.as_deref(), Some("p/planCheckRun"));

    let clean = build_plan_check_info(&json(r#"{"status": "DONE"}"#), "p/planCheckRun");
    assert!(clean.results.is_empty());
    assert!(!clean.blocking());
    assert_eq!(
        json(&clean.to_json().compact()),
        json(
            r#"{"status": "DONE", "summary": {"error": 0, "warning": 0},
                "planCheckRun": "p/planCheckRun"}"#
        ),
        "an empty results list is omitted, not printed as []"
    );
}

#[test]
fn a_step_failure_names_every_resource_created_so_far() {
    let cause = "HTTP 403 [permission_denied]: nope";

    let sheet_failed = step_error("SHEET_CREATE_FAILED", cause, &[], None).to_string();
    assert!(sheet_failed.starts_with("[SHEET_CREATE_FAILED]"), "{sheet_failed}");
    assert!(!sheet_failed.contains("created so far"), "nothing existed yet: {sheet_failed}");

    let plan_failed = step_error(
        "PLAN_CREATE_FAILED",
        cause,
        &[("sheet", "projects/hr/sheets/1")],
        None,
    )
    .to_string();
    assert!(
        plan_failed.contains("created so far: sheet=projects/hr/sheets/1"),
        "{plan_failed}"
    );

    let issue_failed = step_error(
        "ISSUE_CREATE_FAILED",
        cause,
        &[("sheet", "projects/hr/sheets/1"), ("plan", "projects/hr/plans/1")],
        Some("plan checks must pass before an issue can be created; fix the SQL and retry"),
    )
    .to_string();
    assert!(
        issue_failed
            .contains("created so far: sheet=projects/hr/sheets/1, plan=projects/hr/plans/1"),
        "{issue_failed}"
    );
    assert!(issue_failed.contains("plan checks must pass"), "{issue_failed}");
    assert!(issue_failed.contains("[permission_denied]"), "{issue_failed}");
}

#[test]
fn sheet_content_is_standard_base64_of_the_exact_sql_bytes() {
    assert_eq!(sheet_content("ALTER TABLE t ADD c int"), "QUxURVIgVEFCTEUgdCBBREQgYyBpbnQ=");
    assert_eq!(
        STANDARD.decode(sheet_content("SELECT 'ü', \"x\";\n")).unwrap(),
        "SELECT 'ü', \"x\";\n".as_bytes(),
        "multi-byte and quoted SQL must round-trip byte for byte"
    );
    assert_eq!(sheet_content("\u{fb}\u{ff}"), "w7vDvw==");
}

#[test]
fn a_name_must_be_there_and_not_empty() {
    assert_eq!(resource_name(&json(r#"{"name": "a"}"#)).as_deref(), Some("a"));
    assert_eq!(resource_name(&json(r#"{"name": ""}"#)), None);
    assert_eq!(resource_name(&json(r#"{"name": 1}"#)), None);
    assert_eq!(resource_name(&json("{}")), None);
}

fn resolved() -> Resolved {
    Resolved {
        name: "instances/i/databases/d".to_string(),
        project: "projects/hr".to_string(),
        engine: "POSTGRES".to_string(),
        data_source_id: "ro".to_string(),
    }
}

fn call(p: &Proposal) -> (String, Json, bool) {
    match p.action() {
        ChangeAction::Call { method, args, announced } => (method.to_string(), args, announced),
        _ => panic!("a call is due"),
    }
}

fn reply(p: &mut Proposal, text: &str) {
    p.step(ChangeEvent::Reply(json(text)));
}

/// Takes a proposal to the stage at which the issue is to be created.
fn up_to_issue(rollout: bool, run: &str) -> Proposal {
    let mut p =
        Proposal::start("https://bb", &resolved(), "SELECT 1", "t", Some("because"), rollout);
    let (method, args, announced) = call(&p);
    assert_eq!(method, "SheetService/CreateSheet");
    assert!(announced);
    assert_eq!(
        args.compact(),
        "{\"parent\":\"projects/hr\",\"sheet\":{\"content\":\"U0VMRUNUIDE=\"}}"
    );
    reply(&mut p, r#"{"name": "projects/hr/sheets/1"}"#);
    let (method, args, _) = call(&p);
    assert_eq!(method, "PlanService/CreatePlan");
    assert_eq!(
        args.compact(),
        "{\"parent\":\"projects/hr\",\"plan\":{\"specs\":[{\"changeDatabaseConfig\":\
         {\"sheet\":\"projects/hr/sheets/1\",\"targets\":[\"instances/i/databases/d\"]},\
         \"id\":\"spec-1\"}],\"title\":\"t\"}}"
    );
    reply(&mut p, r#"{"name": "projects/hr/plans/1"}"#);
    let (method, args, _) = call(&p);
    assert_eq!(method, "PlanService/RunPlanChecks");
    assert_eq!(args.compact(), "{\"name\":\"projects/hr/plans/1\"}");
    // That the trigger fails does not matter.
    p.step(ChangeEvent::Failure("nope".to_string()));
    assert!(matches!(p.action(), ChangeAction::Pause { first: true }));
    p.step(ChangeEvent::Clock(0));
    let (method, args, announced) = call(&p);
    assert_eq!(method, "PlanService/GetPlanCheckRun");
    assert!(!announced);
    assert_eq!(args.compact(), "{\"name\":\"projects/hr/plans/1/planCheckRun\"}");
    // A look that fails is repeated.
    p.step(ChangeEvent::Failure("brief".to_string()));
    assert!(matches!(p.action(), ChangeAction::Pause { first: false }));
    p.step(ChangeEvent::Clock(1));
    reply(&mut p, r#"{"status": "RUNNING"}"#);
    assert!(matches!(p.action(), ChangeAction::Pause { first: false }));
    if run.is_empty() {
        p.step(ChangeEvent::Clock(10));
    } else {
        p.step(ChangeEvent::Clock(9));
        reply(&mut p, run);
    }
    let (method, args, _) = call(&p);
    assert_eq!(method, "IssueService/CreateIssue");
    assert_eq!(
        args.compact(),
        "{\"issue\":{\"description\":\"because\",\"plan\":\"projects/hr/plans/1\",\
         \"title\":\"t\",\"type\":\"DATABASE_CHANGE\"},\"parent\":\"projects/hr\"}"
    );
    p
}

fn finish(p: &Proposal) -> (Json, Option<String>) {
    match p.action() {
        ChangeAction::Finish { document, warning } => (document, warning),
        _ => panic!("the flow is over"),
    }
}

fn fail(p: &Proposal) -> String {
    match p.action() {
        ChangeAction::Fail(e) => e.to_string(),
        _ => panic!("the flow has failed"),
    }
}

#[test]
fn an_approved_change_is_rolled_out_under_its_plan() {
    let mut p = up_to_issue(true, r#"{"status": "DONE"}"#);
    reply(&mut p, r#"{"name": "projects/hr/issues/1", "approvalStatus": "APPROVED"}"#);
    let (method, args, _) = call(&p);
    assert_eq!(method, "RolloutService/CreateRollout");
    assert_eq!(args.compact(), "{\"parent\":\"projects/hr/plans/1\"}");
    reply(&mut p, r#"{"name": "projects/hr/plans/1/rollout"}"#);
    let (doc, warning) = finish(&p);
    assert!(warning.is_none());
    assert_eq!(
        json(&doc.compact()),
        json(
            r#"{"database": "instances/i/databases/d", "project": "projects/hr",
                "sheet": "projects/hr/sheets/1", "plan": "projects/hr/plans/1",
                "planChecks": {"status": "DONE", "summary": {"error": 0, "warning": 0},
                    "planCheckRun": "projects/hr/plans/1/planCheckRun"},
                "issue": "projects/hr/issues/1", "rolloutCreated": true,
                "nextAction": "MONITOR_ROLLOUT", "rollout": "projects/hr/plans/1/rollout",
                "links": {"issue": "https://bb/projects/hr/issues/1",
                    "plan": "https://bb/projects/hr/plans/1",
                    "rollout": "https://bb/projects/hr/plans/1/rollout"}}"#
        )
    );
}

#[test]
fn a_rollout_that_fails_leaves_a_warning_and_a_reason() {
    let mut p = up_to_issue(true, r#"{"status": "DONE"}"#);
    reply(&mut p, r#"{"name": "projects/hr/issues/1", "approvalStatus": "SKIPPED"}"#);
    p.step(ChangeEvent::Failure("HTTP 500".to_string()));
    let (doc, warning) = finish(&p);
    assert_eq!(warning.as_deref(), Some("warning: rollout creation failed: HTTP 500"));
    assert_eq!(doc.get("rolloutCreated"), Some(&Json::Bool(false)));
    assert_eq!(doc.get_str("rolloutDeferredReason"), Some("ROLLOUT_CREATE_FAILED"));
    assert_eq!(doc.get_str("nextAction"), Some("CREATE_ROLLOUT"));
    assert!(doc.get("rollout").is_none());
}

#[test]
fn checks_that_do_not_end_in_time_defer_the_rollout() {
    let mut p = up_to_issue(true, "");
    reply(&mut p, r#"{"name": "projects/hr/issues/1", "approvalStatus": "APPROVED"}"#);
    let (doc, _) = finish(&p);
    assert_eq!(doc.get_str("rolloutDeferredReason"), Some("PLAN_CHECK_PENDING"));
    assert_eq!(doc.get_str("nextAction"), Some("WAIT_PLAN_CHECK"));
    assert_eq!(doc.get("planChecks").unwrap().get_str("status"), Some("RUNNING"));
}

#[test]
fn canceled_checks_count_as_failed() {
    let mut p = up_to_issue(true, r#"{"status": "CANCELED"}"#);
    reply(&mut p, r#"{"name": "projects/hr/issues/1", "approvalStatus": "APPROVED"}"#);
    let (doc, _) = finish(&p);
    assert_eq!(doc.get_str("rolloutDeferredReason"), Some("PLAN_CHECK_ERROR"));
    assert_eq!(doc.get("planChecks").unwrap().compact(), "{\"status\":\"FAILED\"}");
}

#[test]
fn an_issue_that_fails_names_sheet_and_plan_and_hints_at_the_checks() {
    let mut p = up_to_issue(
        true,
        r#"{"status": "DONE", "results": [{"status": "ERROR", "title": "bad"}]}"#,
    );
    p.step(ChangeEvent::Failure("refused".to_string()));
    assert_eq!(
        fail(&p),
        "[ISSUE_CREATE_FAILED] refused\n  created so far: sheet=projects/hr/sheets/1, \
         plan=projects/hr/plans/1\n  plan checks must pass before an issue can be created; fix \
         the SQL and retry"
    );
    let mut p = up_to_issue(true, r#"{"status": "DONE"}"#);
    p.step(ChangeEvent::Failure("refused".to_string()));
    assert!(!fail(&p).contains("plan checks must pass"));
    let mut p = up_to_issue(false, r#"{"status": "DONE"}"#);
    reply(&mut p, "{}");
    assert_eq!(
        fail(&p),
        "[ISSUE_CREATE_FAILED] CreateIssue returned no resource name\n  created so far: \
         sheet=projects/hr/sheets/1, plan=projects/hr/plans/1"
    );
}

#[test]
fn a_reply_without_a_name_is_a_failure() {
    let mut p = Proposal::start("https://bb", &resolved(), "SELECT 1", "t", None, false);
    reply(&mut p, "{}");
    assert_eq!(
        fail(&p),
        "[SHEET_CREATE_FAILED] SheetService/CreateSheet returned no resource name"
    );
    // The end stays the end.
    reply(&mut p, r#"{"name": "late"}"#);
    assert!(fail(&p).starts_with("[SHEET_CREATE_FAILED]"));

    let mut p = Proposal::start("https://bb", &resolved(), "SELECT 1", "t", Some(""), false);
    reply(&mut p, r#"{"name": "s"}"#);
    p.step(ChangeEvent::Failure("no".to_string()));
    assert_eq!(fail(&p), "[PLAN_CREATE_FAILED] no\n  created so far: sheet=s");
}

#[test]
fn an_issue_without_a_known_approval_is_not_rolled_out() {
    for issue in [
        r#"{"name": "projects/hr/issues/1"}"#,
        r#"{"name": "projects/hr/issues/1", "approvalStatus": "SOMETHING_NEW"}"#,
    ] {
        let mut p = up_to_issue(true, r#"{"status": "DONE"}"#);
        reply(&mut p, issue);
        let (doc, warning) = finish(&p);
        assert!(warning.is_none());
        assert_eq!(doc.get("rolloutCreated"), Some(&Json::Bool(false)));
        assert_eq!(doc.get_str("rolloutDeferredReason"), Some("APPROVAL_PENDING"));
        assert_eq!(doc.get_str("nextAction"), Some("AWAIT_HUMAN_APPROVAL"));
    }
}
