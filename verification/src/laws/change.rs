//! Laws of the review flow: from the server's replies to the calls that follow
//! and to the document at the end.

use vstd::prelude::*;
use vstd::utf8::encode_utf8;

use crate::change::{
    after_issue, asked, check_info, check_run_of, checks_members, count_kind, document,
    document_members, gate, link_members, next_stage, noteworthy, plan_fields, issue_members,
    result_json, sheet_text, stepped, ChangeActionView, ChangeEventView, OutcomeView,
    PlanCheckInfoView, PlanCheckResultView, PlanCheckSummaryView, ProposalView, RolloutView,
    StageView,
};
use crate::codec::base64_bytes;
use crate::json::{field, items_of, lemma_member_push, member, no_members, str_field, JsonView};
use crate::laws::texts::law_standing_in;
use crate::text::{has_part, has_prefix};

verus! {

// ---- plan checks ----

/// Whether the server gave an entry of a run this status.
pub open spec fn marked(e: JsonView, status: Seq<char>) -> bool {
    field(e, "status"@) == Some(JsonView::Str(status))
}

/// The text of a value that is a string and not empty.
pub open spec fn words_in(v: Option<JsonView>) -> Option<Seq<char>> {
    match v {
        Some(JsonView::Str(s)) => if s.len() > 0 {
            Some(s)
        } else {
            None
        },
        _ => None,
    }
}

/// What an entry of a run says: its title, or without one its content.
pub open spec fn told(e: JsonView) -> Seq<char> {
    match words_in(field(e, "title"@)) {
        Some(s) => s,
        None => match words_in(field(e, "content"@)) {
            Some(s) => s,
            None => Seq::empty(),
        },
    }
}

proof fn lemma_statuses()
    ensures
        "ERROR"@.len() == 5,
        "WARNING"@.len() == 7,
        "DONE"@ != "RUNNING"@,
        "DONE"@ != "FAILED"@,
        "RUNNING"@ != "FAILED"@,
        "CANCELED"@ != "DONE"@,
        "DONE"@.len() > 0 && "FAILED"@.len() > 0 && "CANCELED"@.len() > 0,
{
    reveal_strlit("ERROR");
    reveal_strlit("WARNING");
    reveal_strlit("DONE");
    reveal_strlit("RUNNING");
    reveal_strlit("FAILED");
    reveal_strlit("CANCELED");
    assert("DONE"@.len() == 4 && "RUNNING"@.len() == 7 && "FAILED"@.len() == 6 && "CANCELED"@.len()
        == 8);
}

/// Of the entries of a run the errors and warnings are kept, each with its kind
/// and what it says, in their order; all others are left out.
pub proof fn law_results_are_the_errors_and_warnings(entries: Seq<JsonView>)
    ensures
        noteworthy(entries) == entries.filter(
            |e: JsonView| marked(e, "ERROR"@) || marked(e, "WARNING"@),
        ).map_values(
            |e: JsonView|
                PlanCheckResultView {
                    kind: if marked(e, "ERROR"@) {
                        "ERROR"@
                    } else {
                        "WARNING"@
                    },
                    message: told(e),
                },
        ),
    decreases entries.len(),
{
    lemma_statuses();
    let keep = |e: JsonView| marked(e, "ERROR"@) || marked(e, "WARNING"@);
    let shown = |e: JsonView|
        PlanCheckResultView {
            kind: if marked(e, "ERROR"@) {
                "ERROR"@
            } else {
                "WARNING"@
            },
            message: told(e),
        };
    reveal(Seq::filter);
    if entries.len() == 0 {
        assert(noteworthy(entries) =~= entries.filter(keep).map_values(shown));
    } else {
        law_results_are_the_errors_and_warnings(entries.drop_last());
        let e = entries.last();
        assert(crate::change::result_message(e) =~= told(e));
        assert(noteworthy(entries) =~= entries.filter(keep).map_values(shown));
    }
}

proof fn lemma_count(entries: Seq<JsonView>, kind: Seq<char>)
    requires
        kind == "ERROR"@ || kind == "WARNING"@,
    ensures
        count_kind(noteworthy(entries), kind) == entries.filter(
            |e: JsonView| marked(e, kind),
        ).len(),
    decreases entries.len(),
{
    lemma_statuses();
    reveal(Seq::filter);
    if entries.len() > 0 {
        lemma_count(entries.drop_last(), kind);
        let e = entries.last();
        let before = noteworthy(entries.drop_last());
        if marked(e, "ERROR"@) || marked(e, "WARNING"@) {
            assert(noteworthy(entries).drop_last() =~= before);
        }
    }
}

/// The summary counts the entries that the server marked: as errors those with
/// the status `ERROR`, as warnings those with `WARNING`.
pub proof fn law_summary_counts_the_entries(run: JsonView, check_run: Seq<char>)
    ensures
        ({
            let entries = items_of(field(run, "results"@));
            let info = check_info(run, check_run);
            &&& info.status == "DONE"@
            &&& info.plan_check_run == Some(check_run)
            &&& info.summary == Some(
                PlanCheckSummaryView {
                    error: entries.filter(|e: JsonView| marked(e, "ERROR"@)).len(),
                    warning: entries.filter(|e: JsonView| marked(e, "WARNING"@)).len(),
                },
            )
            &&& info.results == noteworthy(entries)
        }),
{
    let entries = items_of(field(run, "results"@));
    lemma_count(entries, "ERROR"@);
    lemma_count(entries, "WARNING"@);
}

proof fn lemma_errors(entries: Seq<JsonView>, i: int)
    requires
        0 <= i < entries.len(),
        marked(entries[i], "ERROR"@),
    ensures
        entries.filter(|e: JsonView| marked(e, "ERROR"@)).len() > 0,
{
    let p = |e: JsonView| marked(e, "ERROR"@);
    entries.lemma_filter_contains(p, i);
    assert(entries.filter(p).contains(entries[i]));
}

proof fn lemma_no_errors(entries: Seq<JsonView>)
    requires
        forall|i: int| 0 <= i < entries.len() ==> !marked(#[trigger] entries[i], "ERROR"@),
    ensures
        entries.filter(|e: JsonView| marked(e, "ERROR"@)).len() == 0,
    decreases entries.len(),
{
    reveal(Seq::filter);
    if entries.len() > 0 {
        let front = entries.drop_last();
        assert forall|i: int| 0 <= i < front.len() implies !marked(
            #[trigger] front[i],
            "ERROR"@,
        ) by {
            assert(front[i] == entries[i]);
        }
        lemma_no_errors(front);
    }
}

/// A single error among the results of a finished run is enough: however many
/// warnings stand beside it and whatever the approval, the rollout is deferred
/// for it, and the statement is what has to be fixed.
pub proof fn law_a_check_error_blocks(
    run: JsonView,
    check_run: Seq<char>,
    approval: Seq<char>,
    i: int,
)
    requires
        0 <= i < items_of(field(run, "results"@)).len(),
        marked(items_of(field(run, "results"@))[i], "ERROR"@),
    ensures
        gate(true, check_info(run, check_run), approval) == (RolloutView::Deferred {
            reason: "PLAN_CHECK_ERROR"@,
            next: Some("FIX_SQL_AND_RETRY"@),
        }),
{
    lemma_statuses();
    law_summary_counts_the_entries(run, check_run);
    lemma_errors(items_of(field(run, "results"@)), i);
}

/// Warnings block nothing: a finished run without an error lets an approved
/// change, or one that needs no approval, be rolled out.
pub proof fn law_warnings_do_not_block(run: JsonView, check_run: Seq<char>, approval: Seq<char>)
    requires
        forall|i: int|
            0 <= i < items_of(field(run, "results"@)).len() ==> !marked(
                #[trigger] items_of(field(run, "results"@))[i],
                "ERROR"@,
            ),
        approval == "APPROVED"@ || approval == "SKIPPED"@,
    ensures
        gate(true, check_info(run, check_run), approval) == RolloutView::Attempt,
{
    lemma_statuses();
    law_summary_counts_the_entries(run, check_run);
    lemma_no_errors(items_of(field(run, "results"@)));
}

/// Whether a proposal asks for a rollout to be created.
pub open spec fn creates_rollout(p: ProposalView) -> bool {
    asked(p) matches ChangeActionView::Call { method, .. } && method
        == "RolloutService/CreateRollout"@
}

proof fn lemma_methods()
    ensures
        "SheetService/CreateSheet"@ != "RolloutService/CreateRollout"@,
        "PlanService/CreatePlan"@ != "RolloutService/CreateRollout"@,
        "PlanService/RunPlanChecks"@ != "RolloutService/CreateRollout"@,
        "PlanService/GetPlanCheckRun"@ != "RolloutService/CreateRollout"@,
        "IssueService/CreateIssue"@ != "RolloutService/CreateRollout"@,
{
    reveal_strlit("SheetService/CreateSheet");
    reveal_strlit("PlanService/CreatePlan");
    reveal_strlit("PlanService/RunPlanChecks");
    reveal_strlit("PlanService/GetPlanCheckRun");
    reveal_strlit("IssueService/CreateIssue");
    reveal_strlit("RolloutService/CreateRollout");
    assert("RolloutService/CreateRollout"@[0] == 'R');
    assert("SheetService/CreateSheet"@[0] == 'S');
    assert("PlanService/CreatePlan"@[0] == 'P');
    assert("PlanService/RunPlanChecks"@[0] == 'P');
    assert("PlanService/GetPlanCheckRun"@[0] == 'P');
    assert("IssueService/CreateIssue"@[0] == 'I');
}

/// A rollout is asked for in one stage only.
proof fn lemma_rollout_stage(p: ProposalView)
    ensures
        creates_rollout(p) <==> p.stage is Rollout,
{
    lemma_methods();
}

/// Once a look at the checks has brought a finished run with an error, no
/// rollout is created, whatever comes next; the document says so where one was
/// asked for.
pub proof fn law_no_rollout_after_a_check_error(
    p: ProposalView,
    run: JsonView,
    i: int,
    event: ChangeEventView,
)
    requires
        p.stage is Check,
        marked(run, "DONE"@),
        0 <= i < items_of(field(run, "results"@)).len(),
        marked(items_of(field(run, "results"@))[i], "ERROR"@),
    ensures
        ({
            let issue = stepped(p, ChangeEventView::Reply(run));
            let end = stepped(issue, event);
            &&& issue.stage is Issue
            &&& !creates_rollout(issue)
            &&& !creates_rollout(end)
            &&& end.stage is Issue || end.stage is Done || end.stage is Failed
            &&& p.rollout && end.stage is Done ==> str_field(
                end.stage->document,
                "rolloutDeferredReason"@,
            ) == Some("PLAN_CHECK_ERROR"@) && str_field(end.stage->document, "nextAction"@) == Some(
                "FIX_SQL_AND_RETRY"@,
            )
        }),
{
    lemma_statuses();
    let plan = p.stage->Check_plan;
    let issue = stepped(p, ChangeEventView::Reply(run));
    let end = stepped(issue, event);
    assert(issue.stage->Issue_checks == check_info(run, check_run_of(plan)));
    lemma_rollout_stage(issue);
    lemma_rollout_stage(end);
    match event {
        ChangeEventView::Reply(v) => {
            let approval = crate::json::str_field_or_empty(v, "approvalStatus"@);
            law_a_check_error_blocks(run, check_run_of(plan), approval, i);
            if end.stage is Done && p.rollout {
                law_issue_decides(issue, v);
            }
        },
        _ => {},
    }
}

/// A run that failed or was canceled has verified nothing: it blocks a rollout
/// like an error, and is reported as failed. One that is not finished is looked
/// at again.
pub proof fn law_unfinished_checks(p: ProposalView, run: JsonView, approval: Seq<char>)
    requires
        p.stage is Check,
    ensures
        ({
            let next = next_stage(p, ChangeEventView::Reply(run));
            &&& marked(run, "FAILED"@) || marked(run, "CANCELED"@) ==> {
                &&& next is Issue
                &&& next->Issue_checks.status == "FAILED"@
                &&& gate(true, next->Issue_checks, approval) == (RolloutView::Deferred {
                    reason: "PLAN_CHECK_ERROR"@,
                    next: Some("FIX_SQL_AND_RETRY"@),
                })
            }
            &&& !marked(run, "DONE"@) && !marked(run, "FAILED"@) && !marked(run, "CANCELED"@)
                ==> next is Pause
        }),
{
    lemma_statuses();
}

// ---- the decision ----

/// The next action that an approval alone leads to.
pub open spec fn by_approval(approval: Seq<char>) -> Seq<char> {
    if approval == "APPROVED"@ || approval == "SKIPPED"@ {
        "CREATE_ROLLOUT"@
    } else if approval == "REJECTED"@ {
        "FIX_SQL_AND_RETRY"@
    } else {
        "AWAIT_HUMAN_APPROVAL"@
    }
}

proof fn lemma_document_keys()
    ensures
        "database"@.len() == 8 && "project"@.len() == 7 && "sheet"@.len() == 5 && "plan"@.len()
            == 4,
        "planChecks"@.len() == 10 && "issue"@.len() == 5 && "rolloutCreated"@.len() == 14,
        "nextAction"@.len() == 10 && "rollout"@.len() == 7 && "rolloutDeferredReason"@.len() == 21,
        "links"@.len() == 5,
        "project"@[0] == 'p' && "rollout"@[0] == 'r',
        "sheet"@[0] == 's' && "issue"@[0] == 'i' && "links"@[0] == 'l',
        "planChecks"@[0] == 'p' && "nextAction"@[0] == 'n',
{
    reveal_strlit("database");
    reveal_strlit("project");
    reveal_strlit("sheet");
    reveal_strlit("plan");
    reveal_strlit("planChecks");
    reveal_strlit("issue");
    reveal_strlit("rolloutCreated");
    reveal_strlit("nextAction");
    reveal_strlit("rollout");
    reveal_strlit("rolloutDeferredReason");
    reveal_strlit("links");
}

proof fn lemma_document_member(
    p: ProposalView,
    sheet: Seq<char>,
    plan: Seq<char>,
    checks: PlanCheckInfoView,
    issue: Seq<char>,
    outcome: OutcomeView,
    key: Seq<char>,
)
    ensures
        field(document(p, sheet, plan, checks, issue, outcome), key) == (if key == "database"@ {
            Some(JsonView::Str(p.database))
        } else if key == "project"@ {
            Some(JsonView::Str(p.project))
        } else if key == "sheet"@ {
            Some(JsonView::Str(sheet))
        } else if key == "plan"@ {
            Some(JsonView::Str(plan))
        } else if key == "planChecks"@ {
            Some(JsonView::Object(checks_members(checks)))
        } else if key == "issue"@ {
            Some(JsonView::Str(issue))
        } else if key == "rolloutCreated"@ {
            Some(JsonView::Bool(outcome.rollout is Some))
        } else if key == "nextAction"@ {
            Some(JsonView::Str(outcome.next))
        } else if key == "rollout"@ && outcome.rollout is Some {
            Some(JsonView::Str(outcome.rollout->0))
        } else if key == "rolloutDeferredReason"@ && outcome.deferred is Some {
            Some(JsonView::Str(outcome.deferred->0))
        } else if key == "links"@ {
            Some(JsonView::Object(link_members(p.server, plan, issue, outcome.rollout)))
        } else {
            None
        }),
{
    let all = document_members(p, sheet, plan, checks, issue, outcome);
    let m0 = no_members();
    let m1 = m0.push(("database"@, JsonView::Str(p.database)));
    let m2 = m1.push(("project"@, JsonView::Str(p.project)));
    let m3 = m2.push(("sheet"@, JsonView::Str(sheet)));
    let m4 = m3.push(("plan"@, JsonView::Str(plan)));
    let m5 = m4.push(("planChecks"@, JsonView::Object(checks_members(checks))));
    let m6 = m5.push(("issue"@, JsonView::Str(issue)));
    let m7 = m6.push(("rolloutCreated"@, JsonView::Bool(outcome.rollout is Some)));
    let m8 = m7.push(("nextAction"@, JsonView::Str(outcome.next)));
    lemma_member_push(m0, m1.last(), key);
    lemma_member_push(m1, m2.last(), key);
    lemma_member_push(m2, m3.last(), key);
    lemma_member_push(m3, m4.last(), key);
    lemma_member_push(m4, m5.last(), key);
    lemma_member_push(m5, m6.last(), key);
    lemma_member_push(m6, m7.last(), key);
    lemma_member_push(m7, m8.last(), key);
    let m9 = match outcome.rollout {
        Some(name) => m8.push(("rollout"@, JsonView::Str(name))),
        None => m8,
    };
    if outcome.rollout is Some {
        lemma_member_push(m8, m9.last(), key);
    }
    let m10 = match outcome.deferred {
        Some(reason) => m9.push(("rolloutDeferredReason"@, JsonView::Str(reason))),
        None => m9,
    };
    if outcome.deferred is Some {
        lemma_member_push(m9, m10.last(), key);
    }
    lemma_member_push(m10, all.last(), key);
}

/// What the creation of the issue leads to. Without a request no rollout is
/// made, and what is next follows from the approval alone. With one, checks that
/// still run, checks that failed or found an error, a refusal and a missing
/// approval each defer it for their own reason, in this order; only where none
/// of them holds is it asked for.
pub proof fn law_issue_decides(p: ProposalView, v: JsonView)
    requires
        p.stage is Issue,
        words_in(field(v, "name"@)) is Some,
    ensures
        ({
            let checks = p.stage->Issue_checks;
            let approval = match field(v, "approvalStatus"@) {
                Some(JsonView::Str(s)) => s,
                _ => Seq::empty(),
            };
            let next = next_stage(p, ChangeEventView::Reply(v));
            let failed = checks.status == "FAILED"@ || (checks.status == "DONE"@
                && checks.summary is Some && checks.summary->0.error > 0);
            let expected = if !p.rollout {
                Some(("NOT_REQUESTED"@, by_approval(approval)))
            } else if checks.status == "RUNNING"@ {
                Some(("PLAN_CHECK_PENDING"@, "WAIT_PLAN_CHECK"@))
            } else if failed {
                Some(("PLAN_CHECK_ERROR"@, "FIX_SQL_AND_RETRY"@))
            } else if approval == "REJECTED"@ {
                Some(("APPROVAL_REJECTED"@, "FIX_SQL_AND_RETRY"@))
            } else if approval != "APPROVED"@ && approval != "SKIPPED"@ {
                Some(("APPROVAL_PENDING"@, "AWAIT_HUMAN_APPROVAL"@))
            } else {
                None
            };
            match expected {
                Some((reason, action)) => {
                    &&& next is Done
                    &&& next->warning is None
                    &&& field(next->document, "rolloutCreated"@) == Some(JsonView::Bool(false))
                    &&& field(next->document, "rollout"@) is None
                    &&& str_field(next->document, "rolloutDeferredReason"@) == Some(reason)
                    &&& str_field(next->document, "nextAction"@) == Some(action)
                    &&& str_field(next->document, "issue"@) == words_in(field(v, "name"@))
                },
                None => next is Rollout && next->Rollout_issue == words_in(field(v, "name"@))->0
                    && next->Rollout_plan == p.stage->Issue_plan,
            }
        }),
{
    lemma_document_keys();
    lemma_statuses();
    reveal_strlit("APPROVED");
    reveal_strlit("SKIPPED");
    reveal_strlit("REJECTED");
    assert("APPROVED"@.len() == 8 && "SKIPPED"@.len() == 7 && "REJECTED"@.len() == 8);
    assert("APPROVED"@[0] == 'A' && "REJECTED"@[0] == 'R');
    let sheet = p.stage->Issue_sheet;
    let plan = p.stage->Issue_plan;
    let checks = p.stage->Issue_checks;
    let issue = words_in(field(v, "name"@))->0;
    let approval = crate::json::str_field_or_empty(v, "approvalStatus"@);
    let next = next_stage(p, ChangeEventView::Reply(v));
    assert(next == after_issue(p, sheet, plan, checks, issue, approval));
    match gate(p.rollout, checks, approval) {
        RolloutView::Attempt => {},
        RolloutView::Deferred { reason, next: action } => {
            let outcome = OutcomeView {
                next: match action {
                    Some(n) => n,
                    None => crate::change::next_for(approval),
                },
                rollout: None,
                deferred: Some(reason),
            };
            lemma_document_member(p, sheet, plan, checks, issue, outcome, "rolloutCreated"@);
            lemma_document_member(p, sheet, plan, checks, issue, outcome, "rollout"@);
            lemma_document_member(p, sheet, plan, checks, issue, outcome, "rolloutDeferredReason"@);
            lemma_document_member(p, sheet, plan, checks, issue, outcome, "nextAction"@);
            lemma_document_member(p, sheet, plan, checks, issue, outcome, "issue"@);
        },
    }
}

/// What the call for a rollout leads to: its name and the next action where one
/// was made; where none was, the reason, a warning with the words of the
/// failure, and the action that the approval allows.
pub proof fn law_rollout_ends_the_flow(p: ProposalView, event: ChangeEventView)
    requires
        p.stage is Rollout,
        !(event is Clock),
    ensures
        ({
            let next = next_stage(p, event);
            let doc = next->document;
            let made = match event {
                ChangeEventView::Reply(v) => words_in(field(v, "name"@)),
                _ => None,
            };
            &&& next is Done
            &&& str_field(doc, "rollout"@) == made
            &&& field(doc, "rolloutCreated"@) == Some(JsonView::Bool(made is Some))
            &&& str_field(doc, "nextAction"@) == Some(
                if made is Some {
                    "MONITOR_ROLLOUT"@
                } else {
                    by_approval(p.stage->Rollout_approval)
                },
            )
            &&& str_field(doc, "rolloutDeferredReason"@) == (if made is Some {
                None
            } else {
                Some("ROLLOUT_CREATE_FAILED"@)
            })
            &&& next->warning is Some <==> made is None
            &&& event matches ChangeEventView::Failure(text) ==> has_part(next->warning->0, text)
        }),
{
    lemma_document_keys();
    let sheet = p.stage->Rollout_sheet;
    let plan = p.stage->Rollout_plan;
    let checks = p.stage->Rollout_checks;
    let issue = p.stage->Rollout_issue;
    let approval = p.stage->Rollout_approval;
    let outcome = match event {
        ChangeEventView::Reply(v) => match words_in(field(v, "name"@)) {
            Some(name) => OutcomeView {
                next: "MONITOR_ROLLOUT"@,
                rollout: Some(name),
                deferred: None,
            },
            None => OutcomeView {
                next: crate::change::next_for(approval),
                rollout: None,
                deferred: Some("ROLLOUT_CREATE_FAILED"@),
            },
        },
        _ => OutcomeView {
            next: crate::change::next_for(approval),
            rollout: None,
            deferred: Some("ROLLOUT_CREATE_FAILED"@),
        },
    };
    assert(next_stage(p, event)->document == document(p, sheet, plan, checks, issue, outcome));
    lemma_document_member(p, sheet, plan, checks, issue, outcome, "rolloutCreated"@);
    lemma_document_member(p, sheet, plan, checks, issue, outcome, "rollout"@);
    lemma_document_member(p, sheet, plan, checks, issue, outcome, "rolloutDeferredReason"@);
    lemma_document_member(p, sheet, plan, checks, issue, outcome, "nextAction"@);
    if event is Failure {
        let text = event->Failure_0;
        let w = next_stage(p, event)->warning->0;
        assert(w =~= "warning: rollout creation failed: "@ + text + Seq::<char>::empty());
        law_standing_in(w, text);
    }
}

proof fn lemma_linked(server: Seq<char>, plan: Seq<char>, issue: Seq<char>, rollout: Option<Seq<char>>)
    ensures
        ({
            let links = link_members(server, plan, issue, rollout);
            &&& member(links, "issue"@) == Some(JsonView::Str(server + "/"@ + issue))
            &&& member(links, "plan"@) == Some(JsonView::Str(server + "/"@ + plan))
            &&& member(links, "rollout"@) == match rollout {
                Some(name) => Some(JsonView::Str(server + "/"@ + name)),
                None => None,
            }
        }),
{
    lemma_document_keys();
    let links = link_members(server, plan, issue, rollout);
    let l0 = no_members();
    let l1 = l0.push(("issue"@, JsonView::Str(server + "/"@ + issue)));
    let l2 = l1.push(("plan"@, JsonView::Str(server + "/"@ + plan)));
    lemma_member_push(l0, l1.last(), "issue"@);
    lemma_member_push(l1, l2.last(), "issue"@);
    lemma_member_push(l0, l1.last(), "plan"@);
    lemma_member_push(l1, l2.last(), "plan"@);
    lemma_member_push(l0, l1.last(), "rollout"@);
    lemma_member_push(l1, l2.last(), "rollout"@);
    if rollout is Some {
        lemma_member_push(l2, links.last(), "issue"@);
        lemma_member_push(l2, links.last(), "plan"@);
        lemma_member_push(l2, links.last(), "rollout"@);
    }
}

/// The document names the database and the project, the checks, and every
/// resource with its address on the server.
pub proof fn law_document_points_to_everything(
    p: ProposalView,
    sheet: Seq<char>,
    plan: Seq<char>,
    checks: PlanCheckInfoView,
    issue: Seq<char>,
    outcome: OutcomeView,
)
    ensures
        ({
            let doc = document(p, sheet, plan, checks, issue, outcome);
            &&& str_field(doc, "database"@) == Some(p.database)
            &&& str_field(doc, "project"@) == Some(p.project)
            &&& str_field(doc, "sheet"@) == Some(sheet)
            &&& str_field(doc, "plan"@) == Some(plan)
            &&& str_field(doc, "issue"@) == Some(issue)
            &&& field(doc, "planChecks"@) == Some(JsonView::Object(checks_members(checks)))
            &&& str_field(field(doc, "planChecks"@)->0, "status"@) == Some(checks.status)
            &&& field(doc, "links"@) is Some
            &&& str_field(field(doc, "links"@)->0, "issue"@) == Some(p.server + "/"@ + issue)
            &&& str_field(field(doc, "links"@)->0, "plan"@) == Some(p.server + "/"@ + plan)
            &&& str_field(field(doc, "links"@)->0, "rollout"@) == match outcome.rollout {
                Some(name) => Some(p.server + "/"@ + name),
                None => None,
            }
        }),
{
    lemma_document_keys();
    lemma_document_member(p, sheet, plan, checks, issue, outcome, "database"@);
    lemma_document_member(p, sheet, plan, checks, issue, outcome, "project"@);
    lemma_document_member(p, sheet, plan, checks, issue, outcome, "sheet"@);
    lemma_document_member(p, sheet, plan, checks, issue, outcome, "plan"@);
    lemma_document_member(p, sheet, plan, checks, issue, outcome, "issue"@);
    lemma_document_member(p, sheet, plan, checks, issue, outcome, "planChecks"@);
    lemma_document_member(p, sheet, plan, checks, issue, outcome, "links"@);
    lemma_linked(p.server, plan, issue, outcome.rollout);
    law_checks_are_reported(checks, 0);
}

/// The report on the checks: the status, the two counts where there are any,
/// every result with its kind and what it says, in their order, and the name of
/// the run.
pub proof fn law_checks_are_reported(c: PlanCheckInfoView, i: int)
    ensures
        ({
            let report = JsonView::Object(checks_members(c));
            let shown = items_of(field(report, "results"@));
            &&& str_field(report, "status"@) == Some(c.status)
            &&& field(report, "summary"@) is Some <==> c.summary is Some
            &&& c.summary matches Some(s) ==> {
                &&& field(field(report, "summary"@)->0, "error"@) == Some(
                    JsonView::Number(s.error as int),
                )
                &&& field(field(report, "summary"@)->0, "warning"@) == Some(
                    JsonView::Number(s.warning as int),
                )
            }
            &&& shown.len() == c.results.len()
            &&& 0 <= i < shown.len() ==> {
                &&& str_field(shown[i], "type"@) == Some(c.results[i].kind)
                &&& str_field(shown[i], "message"@) == Some(c.results[i].message)
            }
            &&& str_field(report, "planCheckRun"@) == c.plan_check_run
        }),
{
    reveal_strlit("status");
    reveal_strlit("summary");
    reveal_strlit("results");
    reveal_strlit("planCheckRun");
    reveal_strlit("error");
    reveal_strlit("warning");
    reveal_strlit("type");
    reveal_strlit("message");
    assert("status"@.len() == 6 && "summary"@.len() == 7 && "results"@.len() == 7
        && "planCheckRun"@.len() == 12);
    assert("summary"@[0] == 's' && "results"@[0] == 'r');
    assert("error"@.len() == 5 && "warning"@.len() == 7 && "type"@.len() == 4 && "message"@.len()
        == 7);
    let all = checks_members(c);
    let m0 = no_members();
    let m1 = m0.push(("status"@, JsonView::Str(c.status)));
    let counts = no_members().push(("error"@, JsonView::Number(c.summary->0.error as int))).push(
        ("warning"@, JsonView::Number(c.summary->0.warning as int)),
    );
    let m2 = match c.summary {
        Some(s) => m1.push(("summary"@, JsonView::Object(counts))),
        None => m1,
    };
    let listed = JsonView::Array(Seq::new(c.results.len(), |k: int| result_json(c.results[k])));
    let m3 = if c.results.len() == 0 {
        m2
    } else {
        m2.push(("results"@, listed))
    };
    assert forall|key: Seq<char>| #[trigger]
        member(all, key) == (if key == "status"@ {
        Some(JsonView::Str(c.status))
    } else if key == "summary"@ && c.summary is Some {
        Some(JsonView::Object(counts))
    } else if key == "results"@ && c.results.len() > 0 {
        Some(listed)
    } else if key == "planCheckRun"@ && c.plan_check_run is Some {
        Some(JsonView::Str(c.plan_check_run->0))
    } else {
        None
    }) by {
        lemma_member_push(m0, m1.last(), key);
        if c.summary is Some {
            lemma_member_push(m1, m2.last(), key);
        }
        if c.results.len() > 0 {
            lemma_member_push(m2, m3.last(), key);
        }
        if c.plan_check_run is Some {
            lemma_member_push(m3, all.last(), key);
        }
    }
    let e1 = no_members().push(("error"@, JsonView::Number(c.summary->0.error as int)));
    lemma_member_push(no_members(), e1.last(), "error"@);
    lemma_member_push(no_members(), e1.last(), "warning"@);
    lemma_member_push(e1, counts.last(), "error"@);
    lemma_member_push(e1, counts.last(), "warning"@);
    if 0 <= i < c.results.len() {
        let r = c.results[i];
        let r1 = no_members().push(("type"@, JsonView::Str(r.kind)));
        let r2 = r1.push(("message"@, JsonView::Str(r.message)));
        lemma_member_push(no_members(), r1.last(), "type"@);
        lemma_member_push(no_members(), r1.last(), "message"@);
        lemma_member_push(r1, r2.last(), "type"@);
        lemma_member_push(r1, r2.last(), "message"@);
    }
}

// ---- the calls ----

/// The member of a nested object.
pub open spec fn within(v: Option<JsonView>, key: Seq<char>) -> Option<JsonView> {
    match v {
        Some(v) => field(v, key),
        None => None,
    }
}

proof fn lemma_pair(a: Seq<char>, x: JsonView, b: Seq<char>, y: JsonView)
    requires
        a != b,
    ensures
        member(no_members().push((a, x)).push((b, y)), a) == Some(x),
        member(no_members().push((a, x)).push((b, y)), b) == Some(y),
{
    let m = no_members().push((a, x));
    lemma_member_push(no_members(), (a, x), a);
    lemma_member_push(no_members(), (a, x), b);
    lemma_member_push(m, (b, y), a);
    lemma_member_push(m, (b, y), b);
}

proof fn lemma_single(a: Seq<char>, x: JsonView)
    ensures
        member(seq![(a, x)], a) == Some(x),
{
    assert(seq![(a, x)][0] == (a, x));
}

proof fn lemma_request_keys()
    ensures
        "parent"@ != "sheet"@ && "parent"@ != "plan"@ && "parent"@ != "issue"@,
        "title"@ != "specs"@ && "id"@ != "changeDatabaseConfig"@ && "targets"@ != "sheet"@,
        "title"@ != "type"@ && "title"@ != "plan"@ && "type"@ != "plan"@,
        "title"@ != "description"@ && "type"@ != "description"@ && "plan"@ != "description"@,
{
    reveal_strlit("parent");
    reveal_strlit("sheet");
    reveal_strlit("plan");
    reveal_strlit("issue");
    reveal_strlit("title");
    reveal_strlit("specs");
    reveal_strlit("id");
    reveal_strlit("changeDatabaseConfig");
    reveal_strlit("targets");
    reveal_strlit("type");
    reveal_strlit("description");
    assert("parent"@.len() == 6 && "sheet"@.len() == 5 && "plan"@.len() == 4 && "issue"@.len()
        == 5);
    assert("title"@.len() == 5 && "specs"@.len() == 5 && "title"@[0] == 't' && "specs"@[0] == 's');
    assert("id"@.len() == 2 && "changeDatabaseConfig"@.len() == 20 && "targets"@.len() == 7);
    assert("type"@.len() == 4 && "type"@[0] == 't' && "plan"@[0] == 'p' && "description"@.len()
        == 11);
}

/// The sheet is created in the database's project and holds the statement: its
/// content reads back as the bytes of the text.
pub proof fn law_sheet_request(p: ProposalView, sql: Seq<char>)
    requires
        p.stage is Sheet,
        p.content == sheet_text(sql),
    ensures
        ({
            let call = asked(p);
            &&& call is Call
            &&& call->method == "SheetService/CreateSheet"@ && call->announced
            &&& str_field(call->args, "parent"@) == Some(p.project)
            &&& within(field(call->args, "sheet"@), "content"@) matches Some(JsonView::Str(s))
                && base64_bytes(s, false) == encode_utf8(sql)
        }),
{
    lemma_request_keys();
    crate::change::law_sheet_reads_back(sql);
    let sheet = JsonView::Object(seq![("content"@, JsonView::Str(p.content))]);
    lemma_single("content"@, JsonView::Str(p.content));
    lemma_pair("parent"@, JsonView::Str(p.project), "sheet"@, sheet);
}

/// The plan is created in the same project, under the title, and changes the
/// one database by the one sheet.
pub proof fn law_plan_request(p: ProposalView)
    requires
        p.stage is Plan,
    ensures
        ({
            let call = asked(p);
            let specs = within(field(call->args, "plan"@), "specs"@);
            let config = field(items_of(specs)[0], "changeDatabaseConfig"@);
            &&& call is Call
            &&& call->method == "PlanService/CreatePlan"@ && call->announced
            &&& str_field(call->args, "parent"@) == Some(p.project)
            &&& within(field(call->args, "plan"@), "title"@) == Some(JsonView::Str(p.title))
            &&& items_of(specs).len() == 1
            &&& within(config, "sheet"@) == Some(JsonView::Str(p.stage->Plan_sheet))
            &&& items_of(within(config, "targets"@)) == seq![JsonView::Str(p.database)]
        }),
{
    lemma_request_keys();
    let sheet = p.stage->Plan_sheet;
    let targets = JsonView::Array(seq![JsonView::Str(p.database)]);
    let config = JsonView::Object(
        no_members().push(("targets"@, targets)).push(("sheet"@, JsonView::Str(sheet))),
    );
    let entry = JsonView::Object(
        no_members().push(("id"@, JsonView::Str("spec-1"@))).push(
            ("changeDatabaseConfig"@, config),
        ),
    );
    let plan = JsonView::Object(
        no_members().push(("title"@, JsonView::Str(p.title))).push(
            ("specs"@, JsonView::Array(seq![entry])),
        ),
    );
    lemma_pair("targets"@, targets, "sheet"@, JsonView::Str(sheet));
    lemma_pair("id"@, JsonView::Str("spec-1"@), "changeDatabaseConfig"@, config);
    lemma_pair("title"@, JsonView::Str(p.title), "specs"@, JsonView::Array(seq![entry]));
    lemma_pair("parent"@, JsonView::Str(p.project), "plan"@, plan);
    assert(asked(p)->args == plan_fields(p, sheet));
}

/// The checks are triggered for the plan and looked at under its name; the
/// looks leave no line of their own. The rollout is created under the plan.
pub proof fn law_calls_for_the_plan(p: ProposalView)
    ensures
        p.stage matches StageView::Trigger { plan, .. } ==> {
            &&& asked(p) matches ChangeActionView::Call { method, args, announced }
            &&& method == "PlanService/RunPlanChecks"@ && announced
            &&& str_field(args, "name"@) == Some(plan)
        },
        p.stage matches StageView::Check { plan, .. } ==> {
            &&& asked(p) matches ChangeActionView::Call { method, args, announced }
            &&& method == "PlanService/GetPlanCheckRun"@ && !announced
            &&& str_field(args, "name"@) == Some(plan + "/planCheckRun"@)
        },
        p.stage matches StageView::Rollout { plan, .. } ==> {
            &&& asked(p) matches ChangeActionView::Call { method, args, announced }
            &&& method == "RolloutService/CreateRollout"@ && announced
            &&& str_field(args, "parent"@) == Some(plan)
        },
{
    match p.stage {
        StageView::Trigger { plan, .. } => lemma_single("name"@, JsonView::Str(plan)),
        StageView::Check { plan, .. } => lemma_single(
            "name"@,
            JsonView::Str(plan + "/planCheckRun"@),
        ),
        StageView::Rollout { plan, .. } => lemma_single("parent"@, JsonView::Str(plan)),
        _ => {},
    }
}

/// The issue is created in the same project for the plan, under the title, and
/// described by the reason where one was given.
pub proof fn law_issue_request(p: ProposalView)
    requires
        p.stage is Issue,
    ensures
        ({
            let call = asked(p);
            let issue = field(call->args, "issue"@);
            &&& call is Call
            &&& call->method == "IssueService/CreateIssue"@ && call->announced
            &&& str_field(call->args, "parent"@) == Some(p.project)
            &&& within(issue, "title"@) == Some(JsonView::Str(p.title))
            &&& within(issue, "type"@) == Some(JsonView::Str("DATABASE_CHANGE"@))
            &&& within(issue, "plan"@) == Some(JsonView::Str(p.stage->Issue_plan))
            &&& within(issue, "description"@) == match p.reason {
                Some(r) => if r.len() > 0 {
                    Some(JsonView::Str(r))
                } else {
                    None
                },
                None => None,
            }
        }),
{
    lemma_request_keys();
    let plan = p.stage->Issue_plan;
    let all = issue_members(p, plan);
    let m0 = no_members();
    let m1 = m0.push(("title"@, JsonView::Str(p.title)));
    let m2 = m1.push(("type"@, JsonView::Str("DATABASE_CHANGE"@)));
    let m3 = m2.push(("plan"@, JsonView::Str(plan)));
    assert forall|key: Seq<char>| #[trigger]
        member(all, key) == (if key == "title"@ {
        Some(JsonView::Str(p.title))
    } else if key == "type"@ {
        Some(JsonView::Str("DATABASE_CHANGE"@))
    } else if key == "plan"@ {
        Some(JsonView::Str(plan))
    } else if key == "description"@ && p.reason is Some && p.reason->0.len() > 0 {
        Some(JsonView::Str(p.reason->0))
    } else {
        None
    }) by {
        lemma_member_push(m0, m1.last(), key);
        lemma_member_push(m1, m2.last(), key);
        lemma_member_push(m2, m3.last(), key);
        if p.reason is Some && p.reason->0.len() > 0 {
            lemma_member_push(m3, all.last(), key);
        }
    }
    lemma_pair("parent"@, JsonView::Str(p.project), "issue"@, JsonView::Object(all));
}

/// Each resource is named by the server's reply, and the flow goes on with that
/// name: the sheet to the plan, both to the checks and to the issue. That the
/// trigger fails does not matter, and a look that fails is repeated.
pub proof fn law_names_are_handed_on(p: ProposalView, v: JsonView, text: Seq<char>, name: Seq<char>)
    requires
        name.len() > 0,
        field(v, "name"@) == Some(JsonView::Str(name)),
    ensures
        p.stage is Sheet ==> next_stage(p, ChangeEventView::Reply(v)) == (StageView::Plan {
            sheet: name,
        }),
        p.stage matches StageView::Plan { sheet } ==> next_stage(p, ChangeEventView::Reply(v)) == (
        StageView::Trigger { sheet, plan: name }),
        p.stage matches StageView::Trigger { sheet, plan } ==> next_stage(
            p,
            ChangeEventView::Reply(v),
        ) == (StageView::Pause { sheet, plan, first: true }) && next_stage(
            p,
            ChangeEventView::Failure(text),
        ) == (StageView::Pause { sheet, plan, first: true }),
        p.stage matches StageView::Check { sheet, plan } ==> next_stage(
            p,
            ChangeEventView::Failure(text),
        ) == (StageView::Pause { sheet, plan, first: false }),
        p.stage matches StageView::Pause { sheet, plan, .. } ==> (forall|secs: nat|
            #![trigger next_stage(p, ChangeEventView::Clock(secs))]
            next_stage(p, ChangeEventView::Clock(secs)) matches StageView::Check {
                sheet: s,
                plan: q,
            } ==> s == sheet && q == plan),
{
}

/// A step that creates nothing ends the flow under the step's own code, with
/// the words of the failure first.
pub proof fn law_failures_are_told(p: ProposalView, event: ChangeEventView)
    requires
        p.stage is Sheet || p.stage is Plan || p.stage is Issue,
        !(event is Clock),
        event matches ChangeEventView::Reply(v) ==> words_in(field(v, "name"@)) is None,
    ensures
        ({
            let next = next_stage(p, event);
            &&& next is Failed
            &&& next->error.code == (if p.stage is Sheet {
                "SHEET_CREATE_FAILED"@
            } else if p.stage is Plan {
                "PLAN_CREATE_FAILED"@
            } else {
                "ISSUE_CREATE_FAILED"@
            })
            &&& event matches ChangeEventView::Failure(text) ==> {
                &&& has_prefix(next->error.message, text)
                &&& p.stage is Sheet ==> next->error.message == text
                &&& p.stage matches StageView::Plan { sheet } ==> next->error.message == text
                    + "\n  created so far: "@ + "sheet="@ + sheet
            }
        }),
{
    if event is Failure {
        let text = event->Failure_0;
        let m = next_stage(p, event)->error.message;
        if p.stage is Plan {
            let sheet = p.stage->Plan_sheet;
            let refs = crate::change::references(crate::change::created_by(p.stage));
            reveal_strlit("sheet");
            reveal_strlit("=");
            reveal_strlit("sheet=");
            assert("sheet"@ + "="@ =~= "sheet="@);
            assert(refs =~= seq!["sheet"@ + "="@ + sheet]);
            assert(m =~= text + "\n  created so far: "@ + "sheet="@ + sheet);
        }
        assert(has_prefix(m, text)) by {
            assert(m.take(text.len() as int) =~= text);
        }
    }
}

/// Where an issue is refused while the checks found an error or failed, the
/// failure hints at them; where they did not, it does not go beyond the words
/// and what was created.
pub proof fn law_refused_issue_hints_at_the_checks(p: ProposalView, text: Seq<char>)
    requires
        p.stage is Issue,
    ensures
        ({
            let checks = p.stage->Issue_checks;
            let blocked = checks.status == "FAILED"@ || (checks.status == "DONE"@
                && checks.summary is Some && checks.summary->0.error > 0);
            let m = next_stage(p, ChangeEventView::Failure(text))->error.message;
            let hint =
                "plan checks must pass before an issue can be created; fix the SQL and retry"@;
            &&& blocked ==> m.len() >= hint.len() && m.skip(m.len() - hint.len()) == hint
            &&& !blocked ==> m == text + "\n  created so far: "@ + "sheet="@
                + p.stage->Issue_sheet + ", "@ + "plan="@ + p.stage->Issue_plan
        }),
{
    let checks = p.stage->Issue_checks;
    let hint = "plan checks must pass before an issue can be created; fix the SQL and retry"@;
    let m = next_stage(p, ChangeEventView::Failure(text))->error.message;
    let sheet = p.stage->Issue_sheet;
    let plan = p.stage->Issue_plan;
    let made = crate::change::created_by(p.stage);
    let refs = crate::change::references(made);
    assert(refs =~= seq!["sheet"@ + "="@ + sheet, "plan"@ + "="@ + plan]);
    reveal_with_fuel(crate::text::join_text, 2);
    reveal_strlit("sheet");
    reveal_strlit("plan");
    reveal_strlit("=");
    reveal_strlit("sheet=");
    reveal_strlit("plan=");
    assert("sheet"@ + "="@ =~= "sheet="@);
    assert("plan"@ + "="@ =~= "plan="@);
    let listed = text + "\n  created so far: "@ + crate::text::join_text(refs, ", "@);
    assert(refs.drop_last() =~= seq![refs[0]]);
    assert(crate::text::join_text(refs, ", "@) =~= refs[0] + ", "@ + refs[1]);
    assert(listed =~= text + "\n  created so far: "@ + "sheet="@ + sheet + ", "@ + "plan="@ + plan);
    if checks.blocking() {
        assert(m =~= listed + "\n  "@ + hint);
        assert(m.skip(m.len() - hint.len()) =~= hint);
    }
}

/// A step changes nothing of a proposal but how far it has come.
pub proof fn law_step_keeps_the_rest(p: ProposalView, event: ChangeEventView)
    ensures
        ({
            let q = stepped(p, event);
            &&& q.server == p.server && q.database == p.database && q.project == p.project
            &&& q.content == p.content && q.title == p.title && q.reason == p.reason
            &&& q.rollout == p.rollout
        }),
{
}

/// What the flow ends in is handed out as it is, and a pause is a pause.
pub proof fn law_ends_are_handed_out(p: ProposalView)
    ensures
        p.stage matches StageView::Done { document, warning } ==> asked(p) == (
        ChangeActionView::Finish { document, warning }),
        p.stage matches StageView::Failed { error } ==> asked(p) == ChangeActionView::Fail(error),
        p.stage matches StageView::Pause { first, .. } ==> asked(p) == (ChangeActionView::Pause {
            first,
        }),
        asked(p) is Finish ==> p.stage is Done,
        asked(p) is Fail ==> p.stage is Failed,
{
}

/// However the checks end, the issue is created for the same sheet and plan, and
/// the report names their run: with what it found where it has finished, as
/// still running where the time was over, and without it where it failed.
pub proof fn law_checks_lead_to_the_issue(p: ProposalView, run: JsonView, secs: nat)
    ensures
        p.stage matches StageView::Check { sheet, plan } ==> {
            let next = next_stage(p, ChangeEventView::Reply(run));
            &&& marked(run, "DONE"@) ==> next == (StageView::Issue {
                sheet,
                plan,
                checks: check_info(run, plan + "/planCheckRun"@),
            })
            &&& marked(run, "FAILED"@) || marked(run, "CANCELED"@) ==> {
                &&& next matches StageView::Issue { sheet: s, plan: q, checks }
                &&& s == sheet && q == plan
                &&& checks.summary is None && checks.results.len() == 0
                &&& checks.plan_check_run is None
            }
            &&& next matches StageView::Pause { sheet: s, plan: q, first } ==> s == sheet && q
                == plan && !first
        },
        p.stage matches StageView::Pause { sheet, plan, .. } ==> (secs < 10 ==> next_stage(
            p,
            ChangeEventView::Clock(secs),
        ) == (StageView::Check { sheet, plan })),
        p.stage matches StageView::Pause { sheet, plan, .. } ==> (secs >= 10 ==> {
            &&& next_stage(p, ChangeEventView::Clock(secs)) matches StageView::Issue {
                sheet: s,
                plan: q,
                checks,
            }
            &&& s == sheet && q == plan
            &&& checks.status == "RUNNING"@ && checks.summary is None && checks.results.len() == 0
            &&& checks.plan_check_run == Some(plan + "/planCheckRun"@)
        }),
{
    lemma_statuses();
}

/// A reply that names nothing is told as such.
pub proof fn law_nameless_replies_are_told(p: ProposalView, v: JsonView)
    requires
        p.stage is Sheet || p.stage is Plan || p.stage is Issue || p.stage is Rollout,
        words_in(field(v, "name"@)) is None,
    ensures
        ({
            let next = next_stage(p, ChangeEventView::Reply(v));
            let part = "returned no resource name"@;
            &&& p.stage is Rollout ==> next is Done && next->warning is Some && has_part(
                next->warning->0,
                part,
            )
            &&& !(p.stage is Rollout) ==> next is Failed && has_part(next->error.message, part)
        }),
{
    let next = next_stage(p, ChangeEventView::Reply(v));
    let part = "returned no resource name"@;
    reveal_strlit("returned no resource name");
    reveal_strlit(" returned no resource name");
    reveal_strlit(" ");
    reveal_strlit("CreateIssue returned no resource name");
    reveal_strlit("CreateIssue ");
    assert(" returned no resource name"@ =~= " "@ + part);
    assert("CreateIssue returned no resource name"@ =~= "CreateIssue "@ + part);
    if p.stage is Rollout {
        let w = next->warning->0;
        let head = "warning: rollout creation failed: "@ + crate::change::CREATE_ROLLOUT_METHOD@
            + " "@;
        assert(w =~= head + part + Seq::<char>::empty());
        law_standing_in(w, part);
    } else {
        let m = next->error.message;
        let head = if p.stage is Sheet {
            crate::change::CREATE_SHEET_METHOD@ + " "@
        } else if p.stage is Plan {
            crate::change::CREATE_PLAN_METHOD@ + " "@
        } else {
            "CreateIssue "@
        };
        let n = (head + part).len() as int;
        assert(m =~= head + part + m.skip(n));
        law_standing_in(m, part);
    }
}

} // verus!
