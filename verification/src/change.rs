//! The review flow of a database change: a sheet, a plan, its checks, an issue,
//! and a rollout where one was asked for and the gates allow it.
//!
//! Every step consumes the name that the step before it minted. Nothing is
//! cleaned up: a failure names every resource created so far and stops. And no
//! next action names an approve call: approving is for a human.

use vstd::prelude::*;
use vstd::string::StringExecFns;
use vstd::utf8::{decode_utf8, encode_utf8, encode_utf8_decode_utf8};

use crate::codec::{
    base64_bytes, base64_fits, base64_standard, base64_text, law_base64_reads_back,
};
use crate::json::{
    field, items_of, lemma_member_push, member, no_members, opt_view, str_field, str_field_or_empty, Json, JsonView, Members,
};
use crate::resolve::{borrowed, given, nonempty, owned, tool_error, Resolved, ToolError, ToolErrorView};
use crate::text::{
    has_part, join, join_text, lemma_joined_part, lemma_part_stays, lemma_views_push, same_text, stands_at,
    views,
};

verus! {

/// A stop, not a task: approving is the human's.
pub const AWAIT_HUMAN_APPROVAL: &'static str = "AWAIT_HUMAN_APPROVAL";

pub const CREATE_ROLLOUT: &'static str = "CREATE_ROLLOUT";

pub const MONITOR_ROLLOUT: &'static str = "MONITOR_ROLLOUT";

pub const WAIT_PLAN_CHECK: &'static str = "WAIT_PLAN_CHECK";

pub const FIX_SQL_AND_RETRY: &'static str = "FIX_SQL_AND_RETRY";

pub const NOT_REQUESTED: &'static str = "NOT_REQUESTED";

pub const APPROVAL_PENDING: &'static str = "APPROVAL_PENDING";

pub const APPROVAL_REJECTED: &'static str = "APPROVAL_REJECTED";

pub const PLAN_CHECK_PENDING: &'static str = "PLAN_CHECK_PENDING";

pub const PLAN_CHECK_ERROR: &'static str = "PLAN_CHECK_ERROR";

pub const ROLLOUT_CREATE_FAILED: &'static str = "ROLLOUT_CREATE_FAILED";

pub const CHECK_DONE: &'static str = "DONE";

pub const CHECK_RUNNING: &'static str = "RUNNING";

pub const CHECK_FAILED: &'static str = "FAILED";

/// How many seconds the plan checks are waited for before they are reported as
/// still running.
pub const POLL_BUDGET_SECS: u64 = 10;

/// How many seconds pass between two looks at the plan checks.
pub const POLL_INTERVAL_SECS: u64 = 1;

// ---- plan checks ----

/// What became of the plan checks.
#[derive(Debug, PartialEq)]
pub struct PlanCheckInfo {
    pub status: &'static str,
    pub summary: Option<PlanCheckSummary>,
    pub results: Vec<PlanCheckResult>,
    pub plan_check_run: Option<String>,
}

/// How many results are errors and how many are warnings.
#[derive(Debug, PartialEq)]
pub struct PlanCheckSummary {
    pub error: usize,
    pub warning: usize,
}

/// An error or a warning.
#[derive(Debug, PartialEq)]
pub struct PlanCheckResult {
    /// `ERROR` or `WARNING`.
    pub kind: &'static str,
    pub message: String,
}

/// What became of the plan checks, by its texts and numbers.
pub struct PlanCheckInfoView {
    pub status: Seq<char>,
    pub summary: Option<PlanCheckSummaryView>,
    pub results: Seq<PlanCheckResultView>,
    pub plan_check_run: Option<Seq<char>>,
}

/// The counts as numbers.
pub struct PlanCheckSummaryView {
    pub error: nat,
    pub warning: nat,
}

/// An error or a warning by its texts.
pub struct PlanCheckResultView {
    pub kind: Seq<char>,
    pub message: Seq<char>,
}

impl View for PlanCheckSummary {
    type V = PlanCheckSummaryView;

    open spec fn view(&self) -> PlanCheckSummaryView {
        PlanCheckSummaryView { error: self.error as nat, warning: self.warning as nat }
    }
}

impl View for PlanCheckResult {
    type V = PlanCheckResultView;

    open spec fn view(&self) -> PlanCheckResultView {
        PlanCheckResultView { kind: self.kind@, message: self.message@ }
    }
}

impl View for PlanCheckInfo {
    type V = PlanCheckInfoView;

    open spec fn view(&self) -> PlanCheckInfoView {
        PlanCheckInfoView {
            status: self.status@,
            summary: opt_view(self.summary),
            results: views(self.results@),
            plan_check_run: opt_view(self.plan_check_run),
        }
    }
}

impl PlanCheckInfoView {
    /// Checks that did not finish in time.
    pub open spec fn running(check_run: Seq<char>) -> PlanCheckInfoView {
        PlanCheckInfoView {
            status: CHECK_RUNNING@,
            summary: None,
            results: Seq::empty(),
            plan_check_run: Some(check_run),
        }
    }

    /// Checks that failed outright.
    pub open spec fn failed() -> PlanCheckInfoView {
        PlanCheckInfoView {
            status: CHECK_FAILED@,
            summary: None,
            results: Seq::empty(),
            plan_check_run: None,
        }
    }

    /// Whether the checks are a reason not to roll out. Checks that failed
    /// outright are one too, for nothing has verified the statement.
    pub open spec fn blocking(self) -> bool {
        self.status == CHECK_FAILED@ || (self.status == CHECK_DONE@ && match self.summary {
            Some(s) => s.error > 0,
            None => false,
        })
    }
}

impl PlanCheckInfo {
    /// Checks that did not finish in time.
    pub fn running(check_run: &str) -> (r: PlanCheckInfo)
        ensures
            r@ == PlanCheckInfoView::running(check_run@),
    {
        let r = PlanCheckInfo {
            status: CHECK_RUNNING,
            summary: None,
            results: Vec::new(),
            plan_check_run: Some(check_run.to_owned()),
        };
        proof {
            assert(r@.results =~= Seq::<PlanCheckResultView>::empty());
        }
        r
    }

    /// Checks that failed outright.
    pub fn failed() -> (r: PlanCheckInfo)
        ensures
            r@ == PlanCheckInfoView::failed(),
    {
        let r = PlanCheckInfo {
            status: CHECK_FAILED,
            summary: None,
            results: Vec::new(),
            plan_check_run: None,
        };
        proof {
            assert(r@.results =~= Seq::<PlanCheckResultView>::empty());
        }
        r
    }

    /// Whether the checks are a reason not to roll out.
    pub fn blocking(&self) -> (r: bool)
        ensures
            r == self@.blocking(),
    {
        same_text(self.status, CHECK_FAILED) || (same_text(self.status, CHECK_DONE)
            && match &self.summary {
            Some(s) => s.error > 0,
            None => false,
        })
    }
}

/// The kind of a result that is worth telling: an error or a warning.
pub open spec fn result_kind(r: JsonView) -> Option<Seq<char>> {
    let status = str_field_or_empty(r, "status"@);
    if status == "ERROR"@ {
        Some("ERROR"@)
    } else if status == "WARNING"@ {
        Some("WARNING"@)
    } else {
        None
    }
}

/// The message of a result: its title, or its content where the title is
/// missing or empty.
pub open spec fn result_message(r: JsonView) -> Seq<char> {
    match given(str_field(r, "title"@)) {
        Some(s) => s,
        None => str_field_or_empty(r, "content"@),
    }
}

/// The results that are worth telling, in their order.
pub open spec fn noteworthy(entries: Seq<JsonView>) -> Seq<PlanCheckResultView>
    decreases entries.len(),
{
    if entries.len() == 0 {
        Seq::empty()
    } else {
        let before = noteworthy(entries.drop_last());
        match result_kind(entries.last()) {
            Some(kind) => before.push(
                PlanCheckResultView { kind, message: result_message(entries.last()) },
            ),
            None => before,
        }
    }
}

/// How many results are of the kind.
pub open spec fn count_kind(results: Seq<PlanCheckResultView>, kind: Seq<char>) -> nat
    decreases results.len(),
{
    if results.len() == 0 {
        0
    } else {
        count_kind(results.drop_last(), kind) + if results.last().kind == kind {
            1nat
        } else {
            0nat
        }
    }
}

/// What a finished run amounts to.
pub open spec fn check_info(run: JsonView, check_run: Seq<char>) -> PlanCheckInfoView {
    let results = noteworthy(items_of(field(run, "results"@)));
    PlanCheckInfoView {
        status: CHECK_DONE@,
        summary: Some(
            PlanCheckSummaryView {
                error: count_kind(results, "ERROR"@),
                warning: count_kind(results, "WARNING"@),
            },
        ),
        results,
        plan_check_run: Some(check_run),
    }
}

/// The message of a result.
fn message_of(r: &Json) -> (s: String)
    ensures
        s@ == result_message(r@),
{
    match nonempty(r.get_str("title")) {
        Some(s) => s.to_owned(),
        None => match r.get_str("content") {
            Some(s) => s.to_owned(),
            None => String::new(),
        },
    }
}

/// The kind of a result that is worth telling.
fn kind_of(r: &Json) -> (k: Option<&'static str>)
    ensures
        opt_view(k) == result_kind(r@),
{
    match r.get_str("status") {
        Some(s) => if same_text(s, "ERROR") {
            Some("ERROR")
        } else if same_text(s, "WARNING") {
            Some("WARNING")
        } else {
            None
        },
        None => {
            proof {
                reveal_strlit("ERROR");
                reveal_strlit("WARNING");
                assert("ERROR"@.len() == 5);
                assert("WARNING"@.len() == 7);
            }
            None
        },
    }
}

/// Sums up a finished run. Results that went right are dropped: they change no
/// decision.
pub fn build_plan_check_info(run: &Json, check_run: &str) -> (r: PlanCheckInfo)
    ensures
        r@ == check_info(run@, check_run@),
{
    let none: Vec<Json> = Vec::new();
    let entries: &Vec<Json> = match run.get("results") {
        Some(v) => match v.as_array() {
            Some(a) => a,
            None => &none,
        },
        None => &none,
    };
    let ghost all = views(entries@);
    proof {
        assert(views(none@) =~= Seq::<JsonView>::empty());
        assert(all == items_of(field(run@, "results"@)));
        reveal_strlit("ERROR");
        reveal_strlit("WARNING");
        assert("ERROR"@.len() == 5);
        assert("WARNING"@.len() == 7);
    }
    let mut error: usize = 0;
    let mut warning: usize = 0;
    let mut results: Vec<PlanCheckResult> = Vec::new();
    let mut i: usize = 0;
    proof {
        assert(all.take(0) =~= Seq::<JsonView>::empty());
        assert(views(results@) =~= Seq::<PlanCheckResultView>::empty());
    }
    while i < entries.len()
        invariant
            i <= entries@.len(),
            all == views(entries@),
            "ERROR"@ != "WARNING"@,
            views(results@) == noteworthy(all.take(i as int)),
            error == count_kind(views(results@), "ERROR"@),
            warning == count_kind(views(results@), "WARNING"@),
            error <= i,
            warning <= i,
        decreases entries.len() - i,
    {
        let r = &entries[i];
        let ghost before = results@;
        proof {
            assert(all.take(i + 1).drop_last() =~= all.take(i as int));
            assert(all.take(i + 1).last() == r@);
        }
        match kind_of(r) {
            Some(kind) => {
                let result = PlanCheckResult { kind, message: message_of(r) };
                proof {
                    lemma_views_push(before, result);
                    assert(views(before).push(result@).drop_last() =~= views(before));
                }
                results.push(result);
                if same_text(kind, "ERROR") {
                    error += 1;
                } else {
                    warning += 1;
                }
            },
            None => {},
        }
        i += 1;
    }
    proof {
        assert(all.take(all.len() as int) =~= all);
    }
    PlanCheckInfo {
        status: CHECK_DONE,
        summary: Some(PlanCheckSummary { error, warning }),
        results,
        plan_check_run: Some(check_run.to_owned()),
    }
}

// ---- decisions ----

/// What to do once the issue exists.
pub open spec fn next_for(approval: Seq<char>) -> Seq<char> {
    if approval == "APPROVED"@ || approval == "SKIPPED"@ {
        CREATE_ROLLOUT@
    } else if approval == "REJECTED"@ {
        FIX_SQL_AND_RETRY@
    } else {
        AWAIT_HUMAN_APPROVAL@
    }
}

/// What to do once the issue exists, by the approval that the server assigned.
/// A status that is not known is a stop: to go ahead on a guess would deploy a
/// change that nobody approved.
pub fn derive_next_action(approval: &str) -> (r: &'static str)
    ensures
        r@ == next_for(approval@),
{
    if same_text(approval, "APPROVED") || same_text(approval, "SKIPPED") {
        CREATE_ROLLOUT
    } else if same_text(approval, "REJECTED") {
        FIX_SQL_AND_RETRY
    } else {
        AWAIT_HUMAN_APPROVAL
    }
}

/// Whether to attempt the rollout, or why not.
#[derive(Debug, PartialEq)]
pub enum Rollout {
    Deferred {
        reason: &'static str,
        /// Set where the reason also changes what to do next.
        next: Option<&'static str>,
    },
    Attempt,
}

/// The same by its texts.
pub enum RolloutView {
    Deferred { reason: Seq<char>, next: Option<Seq<char>> },
    Attempt,
}

impl View for Rollout {
    type V = RolloutView;

    open spec fn view(&self) -> RolloutView {
        match *self {
            Rollout::Deferred { reason, next } => RolloutView::Deferred {
                reason: reason@,
                next: opt_view(next),
            },
            Rollout::Attempt => RolloutView::Attempt,
        }
    }
}

/// The gates in their order: the most specific blocker gives the reason, and
/// the checks come before the approval, for a failing check cannot be approved
/// away. The last gate opens only on an approval that is settled: a status that
/// is not known waits for a human like an open one.
pub open spec fn gate(requested: bool, checks: PlanCheckInfoView, approval: Seq<char>) -> RolloutView {
    if !requested {
        RolloutView::Deferred { reason: NOT_REQUESTED@, next: None }
    } else if checks.status == CHECK_RUNNING@ {
        RolloutView::Deferred { reason: PLAN_CHECK_PENDING@, next: Some(WAIT_PLAN_CHECK@) }
    } else if checks.blocking() {
        RolloutView::Deferred { reason: PLAN_CHECK_ERROR@, next: Some(FIX_SQL_AND_RETRY@) }
    } else if approval == "APPROVED"@ || approval == "SKIPPED"@ {
        RolloutView::Attempt
    } else if approval == "REJECTED"@ {
        RolloutView::Deferred { reason: APPROVAL_REJECTED@, next: Some(FIX_SQL_AND_RETRY@) }
    } else {
        RolloutView::Deferred { reason: APPROVAL_PENDING@, next: Some(AWAIT_HUMAN_APPROVAL@) }
    }
}

/// Whether to attempt the rollout, or why not.
pub fn rollout_decision(requested: bool, checks: &PlanCheckInfo, approval: &str) -> (r: Rollout)
    ensures
        r@ == gate(requested, checks@, approval@),
{
    if !requested {
        return Rollout::Deferred { reason: NOT_REQUESTED, next: None };
    }
    if same_text(checks.status, CHECK_RUNNING) {
        return Rollout::Deferred { reason: PLAN_CHECK_PENDING, next: Some(WAIT_PLAN_CHECK) };
    }
    if checks.blocking() {
        return Rollout::Deferred { reason: PLAN_CHECK_ERROR, next: Some(FIX_SQL_AND_RETRY) };
    }
    if same_text(approval, "APPROVED") || same_text(approval, "SKIPPED") {
        Rollout::Attempt
    } else if same_text(approval, "REJECTED") {
        Rollout::Deferred { reason: APPROVAL_REJECTED, next: Some(FIX_SQL_AND_RETRY) }
    } else {
        Rollout::Deferred { reason: APPROVAL_PENDING, next: Some(AWAIT_HUMAN_APPROVAL) }
    }
}

/// The references to the resources that exist, `key=name`.
pub open spec fn references(created: Seq<(Seq<char>, Seq<char>)>) -> Seq<Seq<char>> {
    Seq::new(created.len(), |i: int| created[i].0 + "="@ + created[i].1)
}

/// The failure of a step.
pub open spec fn failure(
    code: Seq<char>,
    err: Seq<char>,
    created: Seq<(Seq<char>, Seq<char>)>,
    hint: Option<Seq<char>>,
) -> ToolErrorView {
    let listed = if created.len() == 0 {
        err
    } else {
        err + "\n  created so far: "@ + join_text(references(created), ", "@)
    };
    ToolErrorView {
        code,
        message: match hint {
            Some(h) => listed + "\n  "@ + h,
            None => listed,
        },
    }
}

/// The failure of a step, with every resource that was created before it.
/// Nothing is rolled back, so this list is the only record of what exists.
pub fn step_error(code: &str, err: &str, created: &[(&str, &str)], hint: Option<&str>) -> (r:
    ToolError)
    ensures
        r@ == failure(code@, err@, views(created@), opt_view(hint)),
{
    let mut msg = err.to_owned();
    if created.len() > 0 {
        let ghost all = views(created@);
        let mut refs: Vec<String> = Vec::new();
        let mut i: usize = 0;
        while i < created.len()
            invariant
                i <= created@.len(),
                all == views(created@),
                refs@.len() == i,
                forall|k: int| 0 <= k < i ==> (#[trigger] refs@[k])@ == all[k].0 + "="@ + all[k].1,
            decreases created.len() - i,
        {
            let (key, name): (&str, &str) = created[i];
            let mut s = key.to_owned();
            s.append("=");
            s.append(name);
            refs.push(s);
            i += 1;
        }
        proof {
            assert(views(refs@) =~= references(all));
        }
        msg.append("\n  created so far: ");
        msg.append(join(&refs, ", ").as_str());
    }
    if let Some(h) = hint {
        msg.append("\n  ");
        msg.append(h);
    }
    tool_error(code, msg.as_str())
}

/// The name of the resource that a reply describes.
pub open spec fn named(resp: JsonView) -> Option<Seq<char>> {
    given(str_field(resp, "name"@))
}

/// The name of the resource that a reply describes, unless it is missing or
/// empty.
pub fn resource_name(resp: &Json) -> (r: Option<String>)
    ensures
        opt_view(r) == named(resp@),
{
    owned(nonempty(resp.get_str("name")))
}

/// The content of a sheet for the statement.
pub open spec fn sheet_text(sql: Seq<char>) -> Seq<char> {
    base64_text(encode_utf8(sql), false)
}

/// The content of a sheet: the statement's exact bytes in standard base64.
pub fn sheet_content(sql: &str) -> (r: String)
    requires
        base64_fits(encode_utf8(sql@).len()),
    ensures
        r@ == sheet_text(sql@),
{
    base64_standard(sql.as_bytes())
}

// ---- the course of a proposal ----

/// A change on its way through the review flow.
pub struct Proposal {
    /// The server, for the links.
    pub server: String,
    /// The full name of the database.
    pub database: String,
    /// The project that the database lives in: the parent of everything but
    /// the rollout.
    pub project: String,
    /// The statement as the content of a sheet.
    pub content: String,
    pub title: String,
    pub reason: Option<String>,
    /// Whether a rollout was asked for.
    pub rollout: bool,
    pub stage: Stage,
}

/// How far a proposal has come, with what it has created.
pub enum Stage {
    Sheet,
    Plan { sheet: String },
    /// The plan checks are to be triggered.
    Trigger { sheet: String, plan: String },
    /// Between two looks at the plan checks.
    Pause { sheet: String, plan: String, first: bool },
    /// The plan checks are looked at.
    Check { sheet: String, plan: String },
    Issue { sheet: String, plan: String, checks: PlanCheckInfo },
    Rollout { sheet: String, plan: String, checks: PlanCheckInfo, issue: String, approval: String },
    Done { document: Json, warning: Option<String> },
    Failed { error: ToolError },
}

/// A proposal by its texts.
pub struct ProposalView {
    pub server: Seq<char>,
    pub database: Seq<char>,
    pub project: Seq<char>,
    pub content: Seq<char>,
    pub title: Seq<char>,
    pub reason: Option<Seq<char>>,
    pub rollout: bool,
    pub stage: StageView,
}

/// A stage by its texts.
pub enum StageView {
    Sheet,
    Plan { sheet: Seq<char> },
    Trigger { sheet: Seq<char>, plan: Seq<char> },
    Pause { sheet: Seq<char>, plan: Seq<char>, first: bool },
    Check { sheet: Seq<char>, plan: Seq<char> },
    Issue { sheet: Seq<char>, plan: Seq<char>, checks: PlanCheckInfoView },
    Rollout {
        sheet: Seq<char>,
        plan: Seq<char>,
        checks: PlanCheckInfoView,
        issue: Seq<char>,
        approval: Seq<char>,
    },
    Done { document: JsonView, warning: Option<Seq<char>> },
    Failed { error: ToolErrorView },
}

impl View for Stage {
    type V = StageView;

    open spec fn view(&self) -> StageView {
        match *self {
            Stage::Sheet => StageView::Sheet,
            Stage::Plan { sheet } => StageView::Plan { sheet: sheet@ },
            Stage::Trigger { sheet, plan } => StageView::Trigger { sheet: sheet@, plan: plan@ },
            Stage::Pause { sheet, plan, first } => StageView::Pause {
                sheet: sheet@,
                plan: plan@,
                first,
            },
            Stage::Check { sheet, plan } => StageView::Check { sheet: sheet@, plan: plan@ },
            Stage::Issue { sheet, plan, checks } => StageView::Issue {
                sheet: sheet@,
                plan: plan@,
                checks: checks@,
            },
            Stage::Rollout { sheet, plan, checks, issue, approval } => StageView::Rollout {
                sheet: sheet@,
                plan: plan@,
                checks: checks@,
                issue: issue@,
                approval: approval@,
            },
            Stage::Done { document, warning } => StageView::Done {
                document: document@,
                warning: opt_view(warning),
            },
            Stage::Failed { error } => StageView::Failed { error: error@ },
        }
    }
}

impl View for Proposal {
    type V = ProposalView;

    open spec fn view(&self) -> ProposalView {
        ProposalView {
            server: self.server@,
            database: self.database@,
            project: self.project@,
            content: self.content@,
            title: self.title@,
            reason: opt_view(self.reason),
            rollout: self.rollout,
            stage: self.stage@,
        }
    }
}

/// What a proposal hears.
pub enum ChangeEvent {
    /// The server's reply to the call.
    Reply(Json),
    /// The words with which the call failed.
    Failure(String),
    /// After a pause: the whole seconds since the first one began.
    Clock(u64),
}

/// The same by its texts.
pub enum ChangeEventView {
    Reply(JsonView),
    Failure(Seq<char>),
    Clock(nat),
}

impl View for ChangeEvent {
    type V = ChangeEventView;

    open spec fn view(&self) -> ChangeEventView {
        match *self {
            ChangeEvent::Reply(v) => ChangeEventView::Reply(v@),
            ChangeEvent::Failure(t) => ChangeEventView::Failure(t@),
            ChangeEvent::Clock(secs) => ChangeEventView::Clock(secs as nat),
        }
    }
}

/// What a proposal asks for.
pub enum ChangeAction {
    /// A call. One that is not announced leaves no line of its own.
    Call { method: &'static str, args: Json, announced: bool },
    /// A look at the clock: the first time to start it, later on after a pause.
    Pause { first: bool },
    /// The end: the document, and a warning if there is one.
    Finish { document: Json, warning: Option<String> },
    /// The end: the flow has stopped.
    Fail(ToolError),
}

/// The same by its texts.
pub enum ChangeActionView {
    Call { method: Seq<char>, args: JsonView, announced: bool },
    Pause { first: bool },
    Finish { document: JsonView, warning: Option<Seq<char>> },
    Fail(ToolErrorView),
}

impl View for ChangeAction {
    type V = ChangeActionView;

    open spec fn view(&self) -> ChangeActionView {
        match *self {
            ChangeAction::Call { method, args, announced } => ChangeActionView::Call {
                method: method@,
                args: args@,
                announced,
            },
            ChangeAction::Pause { first } => ChangeActionView::Pause { first },
            ChangeAction::Finish { document, warning } => ChangeActionView::Finish {
                document: document@,
                warning: opt_view(warning),
            },
            ChangeAction::Fail(e) => ChangeActionView::Fail(e@),
        }
    }
}

pub const CREATE_SHEET_METHOD: &'static str = "SheetService/CreateSheet";

pub const CREATE_PLAN_METHOD: &'static str = "PlanService/CreatePlan";

pub const RUN_CHECKS_METHOD: &'static str = "PlanService/RunPlanChecks";

pub const GET_CHECKS_METHOD: &'static str = "PlanService/GetPlanCheckRun";

pub const CREATE_ISSUE_METHOD: &'static str = "IssueService/CreateIssue";

pub const CREATE_ROLLOUT_METHOD: &'static str = "RolloutService/CreateRollout";

/// The name of the run of a plan's checks.
pub open spec fn check_run_of(plan: Seq<char>) -> Seq<char> {
    plan + "/planCheckRun"@
}

/// The fields of the call that creates the sheet.
pub open spec fn sheet_fields(p: ProposalView) -> JsonView {
    JsonView::Object(
        no_members()
            .push(("parent"@, JsonView::Str(p.project)))
            .push(("sheet"@, JsonView::Object(seq![("content"@, JsonView::Str(p.content))]))),
    )
}

/// The fields of the call that creates the plan.
pub open spec fn plan_fields(p: ProposalView, sheet: Seq<char>) -> JsonView {
    let config = JsonView::Object(
        no_members()
            .push(("targets"@, JsonView::Array(seq![JsonView::Str(p.database)])))
            .push(("sheet"@, JsonView::Str(sheet))),
    );
    let spec_1 = JsonView::Object(
        no_members()
            .push(("id"@, JsonView::Str("spec-1"@)))
            .push(("changeDatabaseConfig"@, config)),
    );
    let plan = JsonView::Object(
        no_members()
            .push(("title"@, JsonView::Str(p.title)))
            .push(("specs"@, JsonView::Array(seq![spec_1]))),
    );
    JsonView::Object(
        no_members()
            .push(("parent"@, JsonView::Str(p.project)))
            .push(("plan"@, plan)),
    )
}

/// The fields of a call that takes nothing but a name.
pub open spec fn name_fields(name: Seq<char>) -> JsonView {
    JsonView::Object(seq![("name"@, JsonView::Str(name))])
}

/// The members of the issue that is to be created.
pub open spec fn issue_members(p: ProposalView, plan: Seq<char>) -> Seq<(Seq<char>, JsonView)> {
    let members = no_members()
        .push(("title"@, JsonView::Str(p.title)))
        .push(("type"@, JsonView::Str("DATABASE_CHANGE"@)))
        .push(("plan"@, JsonView::Str(plan)));
    match given(p.reason) {
        Some(reason) => members.push(("description"@, JsonView::Str(reason))),
        None => members,
    }
}

/// The fields of the call that creates the issue.
pub open spec fn issue_fields(p: ProposalView, plan: Seq<char>) -> JsonView {
    JsonView::Object(
        no_members()
            .push(("parent"@, JsonView::Str(p.project)))
            .push(("issue"@, JsonView::Object(issue_members(p, plan)))),
    )
}

/// The fields of the call that creates the rollout. Its parent is the plan.
pub open spec fn rollout_fields(plan: Seq<char>) -> JsonView {
    JsonView::Object(seq![("parent"@, JsonView::Str(plan))])
}

/// What a proposal asks for at its stage.
pub open spec fn asked(p: ProposalView) -> ChangeActionView {
    match p.stage {
        StageView::Sheet => ChangeActionView::Call {
            method: CREATE_SHEET_METHOD@,
            args: sheet_fields(p),
            announced: true,
        },
        StageView::Plan { sheet } => ChangeActionView::Call {
            method: CREATE_PLAN_METHOD@,
            args: plan_fields(p, sheet),
            announced: true,
        },
        StageView::Trigger { plan, .. } => ChangeActionView::Call {
            method: RUN_CHECKS_METHOD@,
            args: name_fields(plan),
            announced: true,
        },
        StageView::Pause { first, .. } => ChangeActionView::Pause { first },
        StageView::Check { plan, .. } => ChangeActionView::Call {
            method: GET_CHECKS_METHOD@,
            args: name_fields(check_run_of(plan)),
            announced: false,
        },
        StageView::Issue { plan, .. } => ChangeActionView::Call {
            method: CREATE_ISSUE_METHOD@,
            args: issue_fields(p, plan),
            announced: true,
        },
        StageView::Rollout { plan, .. } => ChangeActionView::Call {
            method: CREATE_ROLLOUT_METHOD@,
            args: rollout_fields(plan),
            announced: true,
        },
        StageView::Done { document, warning } => ChangeActionView::Finish { document, warning },
        StageView::Failed { error } => ChangeActionView::Fail(error),
    }
}

/// The fields of a call that takes nothing but a name.
fn name_args(name: &str) -> (r: Json)
    ensures
        r@ == name_fields(name@),
{
    let mut m = Members::new();
    m.put("name", Json::text(name));
    m.object()
}

/// An array of one item.
fn single(item: Json) -> (r: Json)
    ensures
        r@ == JsonView::Array(seq![item@]),
{
    let ghost v = item@;
    let mut items: Vec<Json> = Vec::new();
    items.push(item);
    proof {
        assert(views(items@) =~= seq![v]);
    }
    Json::array(items)
}

impl Proposal {
    /// The fields of the call that creates the sheet.
    fn sheet_args(&self) -> (r: Json)
        ensures
            r@ == sheet_fields(self@),
    {
        let mut sheet = Members::new();
        sheet.put("content", Json::text(self.content.as_str()));
        let mut m = Members::new();
        m.put("parent", Json::text(self.project.as_str()));
        m.put("sheet", sheet.object());
        m.object()
    }

    /// The fields of the call that creates the plan.
    fn plan_args(&self, sheet: &str) -> (r: Json)
        ensures
            r@ == plan_fields(self@, sheet@),
    {
        let mut config = Members::new();
        config.put("targets", single(Json::text(self.database.as_str())));
        config.put("sheet", Json::text(sheet));
        let mut spec_1 = Members::new();
        spec_1.put("id", Json::text("spec-1"));
        spec_1.put("changeDatabaseConfig", config.object());
        let mut plan = Members::new();
        plan.put("title", Json::text(self.title.as_str()));
        plan.put("specs", single(spec_1.object()));
        let mut m = Members::new();
        m.put("parent", Json::text(self.project.as_str()));
        m.put("plan", plan.object());
        m.object()
    }

    /// The fields of the call that creates the issue.
    fn issue_args(&self, plan: &str) -> (r: Json)
        ensures
            r@ == issue_fields(self@, plan@),
    {
        let mut issue = Members::new();
        issue.put("title", Json::text(self.title.as_str()));
        issue.put("type", Json::text("DATABASE_CHANGE"));
        issue.put("plan", Json::text(plan));
        match nonempty(borrowed(&self.reason)) {
            Some(reason) => issue.put("description", Json::text(reason)),
            None => {},
        }
        proof {
            assert(issue@ =~= issue_members(self@, plan@));
        }
        let mut m = Members::new();
        m.put("parent", Json::text(self.project.as_str()));
        m.put("issue", issue.object());
        m.object()
    }

    /// What the proposal asks for at its stage.
    pub fn action(&self) -> (r: ChangeAction)
        ensures
            r@ == asked(self@),
    {
        match &self.stage {
            Stage::Sheet => ChangeAction::Call {
                method: CREATE_SHEET_METHOD,
                args: self.sheet_args(),
                announced: true,
            },
            Stage::Plan { sheet } => ChangeAction::Call {
                method: CREATE_PLAN_METHOD,
                args: self.plan_args(sheet.as_str()),
                announced: true,
            },
            Stage::Trigger { plan, .. } => ChangeAction::Call {
                method: RUN_CHECKS_METHOD,
                args: name_args(plan.as_str()),
                announced: true,
            },
            Stage::Pause { first, .. } => ChangeAction::Pause { first: *first },
            Stage::Check { plan, .. } => {
                let mut run = plan.clone();
                run.append("/planCheckRun");
                ChangeAction::Call {
                    method: GET_CHECKS_METHOD,
                    args: name_args(run.as_str()),
                    announced: false,
                }
            },
            Stage::Issue { plan, .. } => ChangeAction::Call {
                method: CREATE_ISSUE_METHOD,
                args: self.issue_args(plan.as_str()),
                announced: true,
            },
            Stage::Rollout { plan, .. } => {
                let mut m = Members::new();
                m.put("parent", Json::text(plan.as_str()));
                ChangeAction::Call {
                    method: CREATE_ROLLOUT_METHOD,
                    args: m.object(),
                    announced: true,
                }
            },
            Stage::Done { document, warning } => ChangeAction::Finish {
                document: document.clone(),
                warning: warning.clone(),
            },
            Stage::Failed { error } => ChangeAction::Fail(error.copy()),
        }
    }
}

/// One result as the document shows it.
pub open spec fn result_json(r: PlanCheckResultView) -> JsonView {
    JsonView::Object(
        no_members()
            .push(("type"@, JsonView::Str(r.kind)))
            .push(("message"@, JsonView::Str(r.message))),
    )
}

/// The members of the plan checks in the document. What is absent, or an empty
/// list, is left out.
pub open spec fn checks_members(c: PlanCheckInfoView) -> Seq<(Seq<char>, JsonView)> {
    let status = no_members().push(("status"@, JsonView::Str(c.status)));
    let summary = match c.summary {
        Some(s) => status.push(
            (
                "summary"@,
                JsonView::Object(
                    no_members()
                        .push(("error"@, JsonView::Number(s.error as int)))
                        .push(("warning"@, JsonView::Number(s.warning as int))),
                ),
            ),
        ),
        None => status,
    };
    let results = if c.results.len() == 0 {
        summary
    } else {
        summary.push(
            (
                "results"@,
                JsonView::Array(Seq::new(c.results.len(), |i: int| result_json(c.results[i]))),
            ),
        )
    };
    match c.plan_check_run {
        Some(run) => results.push(("planCheckRun"@, JsonView::Str(run))),
        None => results,
    }
}

impl PlanCheckInfo {
    /// The plan checks as the document shows them.
    pub fn to_json(&self) -> (r: Json)
        ensures
            r@ == JsonView::Object(checks_members(self@)),
    {
        let mut m = Members::new();
        m.put("status", Json::text(self.status));
        match &self.summary {
            Some(s) => {
                let mut counts = Members::new();
                counts.put("error", Json::uint(s.error as u64));
                counts.put("warning", Json::uint(s.warning as u64));
                m.put("summary", counts.object());
            },
            None => {},
        }
        if self.results.len() > 0 {
            let ghost all = views(self.results@);
            let mut items: Vec<Json> = Vec::new();
            let mut i: usize = 0;
            while i < self.results.len()
                invariant
                    i <= self.results@.len(),
                    all == views(self.results@),
                    items@.len() == i,
                    forall|k: int| 0 <= k < i ==> (#[trigger] items@[k])@ == result_json(all[k]),
                decreases self.results.len() - i,
            {
                let mut one = Members::new();
                one.put("type", Json::text(self.results[i].kind));
                one.put("message", Json::text(self.results[i].message.as_str()));
                items.push(one.object());
                i += 1;
            }
            proof {
                assert(views(items@) =~= Seq::new(all.len(), |k: int| result_json(all[k])));
            }
            m.put("results", Json::array(items));
        }
        match &self.plan_check_run {
            Some(run) => m.put("planCheckRun", Json::text(run.as_str())),
            None => {},
        }
        m.object()
    }
}

/// What came of the rollout, and what is next.
pub struct OutcomeView {
    pub next: Seq<char>,
    pub rollout: Option<Seq<char>>,
    pub deferred: Option<Seq<char>>,
}

/// The same, as texts.
struct Outcome {
    next: &'static str,
    rollout: Option<String>,
    deferred: Option<&'static str>,
}

impl View for Outcome {
    type V = OutcomeView;

    closed spec fn view(&self) -> OutcomeView {
        OutcomeView {
            next: self.next@,
            rollout: opt_view(self.rollout),
            deferred: opt_view(self.deferred),
        }
    }
}

/// The link to a resource.
pub open spec fn link(server: Seq<char>, name: Seq<char>) -> JsonView {
    JsonView::Str(server + "/"@ + name)
}

/// The members of the document's links.
pub open spec fn link_members(
    server: Seq<char>,
    plan: Seq<char>,
    issue: Seq<char>,
    rollout: Option<Seq<char>>,
) -> Seq<(Seq<char>, JsonView)> {
    let members = no_members()
        .push(("issue"@, link(server, issue)))
        .push(("plan"@, link(server, plan)));
    match rollout {
        Some(name) => members.push(("rollout"@, link(server, name))),
        None => members,
    }
}

/// The members of the document.
pub open spec fn document_members(
    p: ProposalView,
    sheet: Seq<char>,
    plan: Seq<char>,
    checks: PlanCheckInfoView,
    issue: Seq<char>,
    outcome: OutcomeView,
) -> Seq<(Seq<char>, JsonView)> {
    let members = no_members()
        .push(("database"@, JsonView::Str(p.database)))
        .push(("project"@, JsonView::Str(p.project)))
        .push(("sheet"@, JsonView::Str(sheet)))
        .push(("plan"@, JsonView::Str(plan)))
        .push(("planChecks"@, JsonView::Object(checks_members(checks))))
        .push(("issue"@, JsonView::Str(issue)))
        .push(("rolloutCreated"@, JsonView::Bool(outcome.rollout is Some)))
        .push(("nextAction"@, JsonView::Str(outcome.next)));
    let created = match outcome.rollout {
        Some(name) => members.push(("rollout"@, JsonView::Str(name))),
        None => members,
    };
    let deferred = match outcome.deferred {
        Some(reason) => created.push(("rolloutDeferredReason"@, JsonView::Str(reason))),
        None => created,
    };
    deferred.push(
        ("links"@, JsonView::Object(link_members(p.server, plan, issue, outcome.rollout))),
    )
}

/// The document.
pub open spec fn document(
    p: ProposalView,
    sheet: Seq<char>,
    plan: Seq<char>,
    checks: PlanCheckInfoView,
    issue: Seq<char>,
    outcome: OutcomeView,
) -> JsonView {
    JsonView::Object(document_members(p, sheet, plan, checks, issue, outcome))
}

/// The link to a resource.
fn link_to(server: &str, name: &str) -> (r: Json)
    ensures
        r@ == link(server@, name@),
{
    let mut s = server.to_owned();
    s.append("/");
    s.append(name);
    Json::Str(s)
}

/// What a create call came to: the name of what was created, or why there is
/// none. Nothing if the event is no answer.
pub open spec fn made(method: Seq<char>, event: ChangeEventView) -> Option<
    Result<Seq<char>, Seq<char>>,
> {
    match event {
        ChangeEventView::Reply(v) => match named(v) {
            Some(name) => Some(Ok(name)),
            None => Some(Err(method + " returned no resource name"@)),
        },
        ChangeEventView::Failure(text) => Some(Err(text)),
        ChangeEventView::Clock(_) => None,
    }
}

/// The stage behind the plan checks once a look at them has settled them.
pub open spec fn settled_checks(run: JsonView, check_run: Seq<char>) -> Option<PlanCheckInfoView> {
    let status = str_field_or_empty(run, "status"@);
    if status == CHECK_DONE@ {
        Some(check_info(run, check_run))
    } else if status == CHECK_FAILED@ || status == "CANCELED"@ {
        Some(PlanCheckInfoView::failed())
    } else {
        None
    }
}

/// The hint when an issue cannot be created while checks block.
pub const ISSUE_HINT: &'static str =
    "plan checks must pass before an issue can be created; fix the SQL and retry";

/// The stage once the issue exists: the rollout, or the end.
pub open spec fn after_issue(
    p: ProposalView,
    sheet: Seq<char>,
    plan: Seq<char>,
    checks: PlanCheckInfoView,
    issue: Seq<char>,
    approval: Seq<char>,
) -> StageView {
    match gate(p.rollout, checks, approval) {
        RolloutView::Attempt => StageView::Rollout { sheet, plan, checks, issue, approval },
        RolloutView::Deferred { reason, next } => {
            let outcome = OutcomeView {
                next: match next {
                    Some(n) => n,
                    None => next_for(approval),
                },
                rollout: None,
                deferred: Some(reason),
            };
            StageView::Done {
                document: document(p, sheet, plan, checks, issue, outcome),
                warning: None,
            }
        },
    }
}

/// The stage after the event. An event that the stage does not wait for leaves
/// it as it is.
pub open spec fn next_stage(p: ProposalView, event: ChangeEventView) -> StageView {
    match p.stage {
        StageView::Sheet => match made(CREATE_SHEET_METHOD@, event) {
            Some(Ok(sheet)) => StageView::Plan { sheet },
            Some(Err(text)) => StageView::Failed {
                error: failure("SHEET_CREATE_FAILED"@, text, Seq::empty(), None),
            },
            None => p.stage,
        },
        StageView::Plan { sheet } => match made(CREATE_PLAN_METHOD@, event) {
            Some(Ok(plan)) => StageView::Trigger { sheet, plan },
            Some(Err(text)) => StageView::Failed {
                error: failure("PLAN_CREATE_FAILED"@, text, created_by(p.stage), None),
            },
            None => p.stage,
        },
        StageView::Trigger { sheet, plan } => if event is Clock {
            p.stage
        } else {
            StageView::Pause { sheet, plan, first: true }
        },
        StageView::Pause { sheet, plan, .. } => match event {
            ChangeEventView::Clock(secs) => if secs >= POLL_BUDGET_SECS {
                StageView::Issue {
                    sheet,
                    plan,
                    checks: PlanCheckInfoView::running(check_run_of(plan)),
                }
            } else {
                StageView::Check { sheet, plan }
            },
            _ => p.stage,
        },
        StageView::Check { sheet, plan } => match event {
            ChangeEventView::Reply(run) => match settled_checks(run, check_run_of(plan)) {
                Some(checks) => StageView::Issue { sheet, plan, checks },
                None => StageView::Pause { sheet, plan, first: false },
            },
            ChangeEventView::Failure(_) => StageView::Pause { sheet, plan, first: false },
            ChangeEventView::Clock(_) => p.stage,
        },
        StageView::Issue { sheet, plan, checks } => match event {
            ChangeEventView::Reply(v) => match named(v) {
                Some(issue) => after_issue(
                    p,
                    sheet,
                    plan,
                    checks,
                    issue,
                    str_field_or_empty(v, "approvalStatus"@),
                ),
                None => StageView::Failed {
                    error: failure(
                        "ISSUE_CREATE_FAILED"@,
                        "CreateIssue returned no resource name"@,
                        created_by(p.stage),
                        None,
                    ),
                },
            },
            ChangeEventView::Failure(text) => StageView::Failed {
                error: failure(
                    "ISSUE_CREATE_FAILED"@,
                    text,
                    created_by(p.stage),
                    if checks.blocking() {
                        Some(ISSUE_HINT@)
                    } else {
                        None
                    },
                ),
            },
            ChangeEventView::Clock(_) => p.stage,
        },
        StageView::Rollout { sheet, plan, checks, issue, approval } => match made(
            CREATE_ROLLOUT_METHOD@,
            event,
        ) {
            Some(Ok(name)) => StageView::Done {
                document: document(
                    p,
                    sheet,
                    plan,
                    checks,
                    issue,
                    OutcomeView { next: MONITOR_ROLLOUT@, rollout: Some(name), deferred: None },
                ),
                warning: None,
            },
            Some(Err(text)) => StageView::Done {
                document: document(
                    p,
                    sheet,
                    plan,
                    checks,
                    issue,
                    OutcomeView {
                        next: next_for(approval),
                        rollout: None,
                        deferred: Some(ROLLOUT_CREATE_FAILED@),
                    },
                ),
                warning: Some("warning: rollout creation failed: "@ + text),
            },
            None => p.stage,
        },
        StageView::Done { .. } => p.stage,
        StageView::Failed { .. } => p.stage,
    }
}

/// The resources that exist at a stage of the flow, in the order of their
/// creation.
pub open spec fn created_by(stage: StageView) -> Seq<(Seq<char>, Seq<char>)> {
    match stage {
        StageView::Plan { sheet } => seq![("sheet"@, sheet)],
        StageView::Trigger { sheet, plan } => seq![("sheet"@, sheet), ("plan"@, plan)],
        StageView::Pause { sheet, plan, .. } => seq![("sheet"@, sheet), ("plan"@, plan)],
        StageView::Check { sheet, plan } => seq![("sheet"@, sheet), ("plan"@, plan)],
        StageView::Issue { sheet, plan, .. } => seq![("sheet"@, sheet), ("plan"@, plan)],
        StageView::Rollout { sheet, plan, issue, .. } => seq![
            ("sheet"@, sheet),
            ("plan"@, plan),
            ("issue"@, issue),
        ],
        _ => Seq::empty(),
    }
}

/// The proposal after the event.
pub open spec fn stepped(p: ProposalView, event: ChangeEventView) -> ProposalView {
    ProposalView { stage: next_stage(p, event), ..p }
}

/// What a create call came to.
fn created_name(method: &str, event: ChangeEvent) -> (r: Option<Result<String, String>>)
    ensures
        match r {
            Some(Ok(name)) => made(method@, event@) == Some(Ok::<_, Seq<char>>(name@)),
            Some(Err(text)) => made(method@, event@) == Some(Err::<Seq<char>, _>(text@)),
            None => made(method@, event@) is None,
        },
{
    match event {
        ChangeEvent::Reply(v) => match resource_name(&v) {
            Some(name) => Some(Ok(name)),
            None => {
                let mut text = method.to_owned();
                text.append(" returned no resource name");
                Some(Err(text))
            },
        },
        ChangeEvent::Failure(text) => Some(Err(text)),
        ChangeEvent::Clock(_) => None,
    }
}

/// The checks that a look at them has settled.
fn checks_settled(run: &Json, check_run: &str) -> (r: Option<PlanCheckInfo>)
    ensures
        opt_view(r) == settled_checks(run@, check_run@),
{
    match run.get_str("status") {
        Some(s) => if same_text(s, CHECK_DONE) {
            Some(build_plan_check_info(run, check_run))
        } else if same_text(s, CHECK_FAILED) || same_text(s, "CANCELED") {
            Some(PlanCheckInfo::failed())
        } else {
            None
        },
        None => {
            proof {
                reveal_strlit("DONE");
                reveal_strlit("FAILED");
                reveal_strlit("CANCELED");
                assert(CHECK_DONE@.len() == 4);
                assert(CHECK_FAILED@.len() == 6);
                assert("CANCELED"@.len() == 8);
            }
            None
        },
    }
}

impl Proposal {
    /// Begins a proposal on a database. The project is the one that the
    /// database lives in, whatever narrowed the search for it.
    pub fn start(
        server: &str,
        resolved: &Resolved,
        sql: &str,
        title: &str,
        reason: Option<&str>,
        rollout: bool,
    ) -> (r: Proposal)
        requires
            base64_fits(encode_utf8(sql@).len()),
        ensures
            r@ == (ProposalView {
                server: server@,
                database: resolved@.name,
                project: resolved@.project,
                content: sheet_text(sql@),
                title: title@,
                reason: opt_view(reason),
                rollout,
                stage: StageView::Sheet,
            }),
    {
        Proposal {
            server: server.to_owned(),
            database: resolved.name.clone(),
            project: resolved.project.clone(),
            content: sheet_content(sql),
            title: title.to_owned(),
            reason: owned(reason),
            rollout,
            stage: Stage::Sheet,
        }
    }

    /// The document.
    fn document(
        &self,
        sheet: &str,
        plan: &str,
        checks: &PlanCheckInfo,
        issue: &str,
        outcome: &Outcome,
    ) -> (r: Json)
        ensures
            r@ == document(self@, sheet@, plan@, checks@, issue@, outcome@),
    {
        let mut links = Members::new();
        links.put("issue", link_to(self.server.as_str(), issue));
        links.put("plan", link_to(self.server.as_str(), plan));
        let mut m = Members::new();
        m.put("database", Json::text(self.database.as_str()));
        m.put("project", Json::text(self.project.as_str()));
        m.put("sheet", Json::text(sheet));
        m.put("plan", Json::text(plan));
        m.put("planChecks", checks.to_json());
        m.put("issue", Json::text(issue));
        m.put("rolloutCreated", Json::boolean(outcome.rollout.is_some()));
        m.put("nextAction", Json::text(outcome.next));
        match &outcome.rollout {
            Some(name) => {
                links.put("rollout", link_to(self.server.as_str(), name.as_str()));
                m.put("rollout", Json::text(name.as_str()));
            },
            None => {},
        }
        match outcome.deferred {
            Some(reason) => m.put("rolloutDeferredReason", Json::text(reason)),
            None => {},
        }
        m.put("links", links.object());
        m.object()
    }

    /// The stage once the issue exists.
    fn issue_created(
        &self,
        sheet: String,
        plan: String,
        checks: PlanCheckInfo,
        issue: String,
        approval: String,
    ) -> (r: Stage)
        ensures
            r@ == after_issue(self@, sheet@, plan@, checks@, issue@, approval@),
    {
        match rollout_decision(self.rollout, &checks, approval.as_str()) {
            Rollout::Attempt => Stage::Rollout { sheet, plan, checks, issue, approval },
            Rollout::Deferred { reason, next } => {
                let outcome = Outcome {
                    next: match next {
                        Some(n) => n,
                        None => derive_next_action(approval.as_str()),
                    },
                    rollout: None,
                    deferred: Some(reason),
                };
                let document = self.document(
                    sheet.as_str(),
                    plan.as_str(),
                    &checks,
                    issue.as_str(),
                    &outcome,
                );
                Stage::Done { document, warning: None }
            },
        }
    }

    /// The stage after an answer to the call that creates the issue.
    fn issue_answered(
        &self,
        sheet: String,
        plan: String,
        checks: PlanCheckInfo,
        event: ChangeEvent,
    ) -> (r: Stage)
        ensures
            r@ == next_stage(
                (ProposalView {
                    stage: StageView::Issue { sheet: sheet@, plan: plan@, checks: checks@ },
                    ..self@
                }),
                event@,
            ),
    {
        match event {
            ChangeEvent::Reply(v) => match resource_name(&v) {
                Some(issue) => {
                    let approval = match v.get_str("approvalStatus") {
                        Some(s) => s.to_owned(),
                        None => String::new(),
                    };
                    self.issue_created(sheet, plan, checks, issue, approval)
                },
                None => {
                    let created = [("sheet", sheet.as_str()), ("plan", plan.as_str())];
                    proof {
                        assert(views(created@) =~= created_by(
                            StageView::Issue { sheet: sheet@, plan: plan@, checks: checks@ },
                        ));
                    }
                    Stage::Failed {
                        error: step_error(
                            "ISSUE_CREATE_FAILED",
                            "CreateIssue returned no resource name",
                            &created,
                            None,
                        ),
                    }
                },
            },
            ChangeEvent::Failure(text) => {
                let created = [("sheet", sheet.as_str()), ("plan", plan.as_str())];
                proof {
                    assert(views(created@) =~= created_by(
                        StageView::Issue { sheet: sheet@, plan: plan@, checks: checks@ },
                    ));
                }
                let hint: Option<&str> = if checks.blocking() {
                    Some(ISSUE_HINT)
                } else {
                    None
                };
                Stage::Failed {
                    error: step_error("ISSUE_CREATE_FAILED", text.as_str(), &created, hint),
                }
            },
            ChangeEvent::Clock(_) => Stage::Issue { sheet, plan, checks },
        }
    }

    /// The stage after an answer to the call that creates the rollout.
    fn rollout_answered(
        &self,
        sheet: String,
        plan: String,
        checks: PlanCheckInfo,
        issue: String,
        approval: String,
        event: ChangeEvent,
    ) -> (r: Stage)
        ensures
            r@ == next_stage(
                (ProposalView {
                    stage: StageView::Rollout {
                        sheet: sheet@,
                        plan: plan@,
                        checks: checks@,
                        issue: issue@,
                        approval: approval@,
                    },
                    ..self@
                }),
                event@,
            ),
    {
        match created_name(CREATE_ROLLOUT_METHOD, event) {
            Some(Ok(name)) => {
                let outcome = Outcome {
                    next: MONITOR_ROLLOUT,
                    rollout: Some(name),
                    deferred: None,
                };
                Stage::Done {
                    document: self.document(
                        sheet.as_str(),
                        plan.as_str(),
                        &checks,
                        issue.as_str(),
                        &outcome,
                    ),
                    warning: None,
                }
            },
            Some(Err(text)) => {
                let mut warning = "warning: rollout creation failed: ".to_owned();
                warning.append(text.as_str());
                let outcome = Outcome {
                    next: derive_next_action(approval.as_str()),
                    rollout: None,
                    deferred: Some(ROLLOUT_CREATE_FAILED),
                };
                Stage::Done {
                    document: self.document(
                        sheet.as_str(),
                        plan.as_str(),
                        &checks,
                        issue.as_str(),
                        &outcome,
                    ),
                    warning: Some(warning),
                }
            },
            None => Stage::Rollout { sheet, plan, checks, issue, approval },
        }
    }

    /// Hears an event and moves on.
    pub fn step(&mut self, event: ChangeEvent)
        ensures
            final(self)@ == stepped(old(self)@, event@),
    {
        let mut stage = Stage::Sheet;
        std::mem::swap(&mut stage, &mut self.stage);
        let next = match stage {
            Stage::Sheet => match created_name(CREATE_SHEET_METHOD, event) {
                Some(Ok(sheet)) => Stage::Plan { sheet },
                Some(Err(text)) => Stage::Failed {
                    error: step_error("SHEET_CREATE_FAILED", text.as_str(), &[], None),
                },
                None => Stage::Sheet,
            },
            Stage::Plan { sheet } => match created_name(CREATE_PLAN_METHOD, event) {
                Some(Ok(plan)) => Stage::Trigger { sheet, plan },
                Some(Err(text)) => {
                    let created = [("sheet", sheet.as_str())];
                    proof {
                        assert(views(created@) =~= created_by(old(self)@.stage));
                    }
                    Stage::Failed {
                        error: step_error("PLAN_CREATE_FAILED", text.as_str(), &created, None),
                    }
                },
                None => Stage::Plan { sheet },
            },
            Stage::Trigger { sheet, plan } => match event {
                ChangeEvent::Clock(_) => Stage::Trigger { sheet, plan },
                _ => Stage::Pause { sheet, plan, first: true },
            },
            Stage::Pause { sheet, plan, first } => match event {
                ChangeEvent::Clock(secs) => if secs >= POLL_BUDGET_SECS {
                    let mut run = plan.clone();
                    run.append("/planCheckRun");
                    let checks = PlanCheckInfo::running(run.as_str());
                    Stage::Issue { sheet, plan, checks }
                } else {
                    Stage::Check { sheet, plan }
                },
                _ => Stage::Pause { sheet, plan, first },
            },
            Stage::Check { sheet, plan } => match event {
                ChangeEvent::Reply(v) => {
                    let mut run = plan.clone();
                    run.append("/planCheckRun");
                    match checks_settled(&v, run.as_str()) {
                        Some(checks) => Stage::Issue { sheet, plan, checks },
                        None => Stage::Pause { sheet, plan, first: false },
                    }
                },
                ChangeEvent::Failure(_) => Stage::Pause { sheet, plan, first: false },
                ChangeEvent::Clock(_) => Stage::Check { sheet, plan },
            },
            Stage::Issue { sheet, plan, checks } => {
                self.issue_answered(sheet, plan, checks, event)
            },
            Stage::Rollout { sheet, plan, checks, issue, approval } => {
                self.rollout_answered(sheet, plan, checks, issue, approval, event)
            },
            Stage::Done { document, warning } => Stage::Done { document, warning },
            Stage::Failed { error } => Stage::Failed { error },
        };
        self.stage = next;
    }
}

// ---- laws ----

/// The sheet holds the statement that was written, character for character.
pub proof fn law_sheet_reads_back(sql: Seq<char>)
    ensures
        base64_bytes(sheet_text(sql), false) == encode_utf8(sql),
        decode_utf8(base64_bytes(sheet_text(sql), false)) == sql,
{
    law_base64_reads_back(encode_utf8(sql), false);
    encode_utf8_decode_utf8(sql);
}

/// The methods that a proposal can ever call. None deletes, and none approves.
pub open spec fn is_flow_method(method: Seq<char>) -> bool {
    method == CREATE_SHEET_METHOD@ || method == CREATE_PLAN_METHOD@ || method == RUN_CHECKS_METHOD@
        || method == GET_CHECKS_METHOD@ || method == CREATE_ISSUE_METHOD@ || method
        == CREATE_ROLLOUT_METHOD@
}

/// Whatever has happened, a proposal asks for no call outside the flow: nothing
/// is cleaned up and nothing is approved.
pub proof fn law_only_the_flow_is_called(p: ProposalView)
    ensures
        asked(p) matches ChangeActionView::Call { method, .. } ==> is_flow_method(method),
{
}

/// Whether a stage that creates a rollout was reached through the gates.
pub open spec fn gates_passed(p: ProposalView) -> bool {
    p.stage matches StageView::Rollout { checks, approval, .. } ==> gate(
        p.rollout,
        checks,
        approval,
    ) is Attempt
}

/// A rollout is only ever attempted where one was asked for, the checks have
/// ended and do not block, and the issue is approved or needs no approval. This
/// holds at the start, and every event keeps it.
pub proof fn law_rollout_only_through_the_gates(p: ProposalView, event: ChangeEventView)
    ensures
        p.stage is Sheet ==> gates_passed(p),
        gates_passed(p) ==> gates_passed(stepped(p, event)),
        gates_passed(p) && p.stage is Rollout ==> p.rollout && p.stage->Rollout_checks.status
            != CHECK_RUNNING@ && !p.stage->Rollout_checks.blocking() && (p.stage->Rollout_approval
            == "APPROVED"@ || p.stage->Rollout_approval == "SKIPPED"@),
{
}

/// Whether a stage is an end.
pub open spec fn ended(stage: StageView) -> bool {
    stage is Done || stage is Failed
}

/// What exists goes on existing: until the end every event keeps the names of
/// what was created, and an end stays the end.
pub proof fn law_created_names_are_kept(p: ProposalView, event: ChangeEventView)
    ensures
        ended(p.stage) ==> stepped(p, event) == p,
        !ended(next_stage(p, event)) ==> created_by(p.stage).is_prefix_of(
            created_by(next_stage(p, event)),
        ),
{
    let a = created_by(p.stage);
    let b = created_by(next_stage(p, event));
    if !ended(next_stage(p, event)) {
        assert(a =~= b.take(a.len() as int));
    }
}

/// A flow that fails names every resource that it has created, each as
/// `key=name`.
pub proof fn law_failure_names_what_exists(p: ProposalView, event: ChangeEventView, k: int)
    requires
        !ended(p.stage),
        next_stage(p, event) is Failed,
        0 <= k < created_by(p.stage).len(),
    ensures
        has_part(
            next_stage(p, event)->error.message,
            created_by(p.stage)[k].0 + "="@ + created_by(p.stage)[k].1,
        ),
{
    let created = created_by(p.stage);
    let list = join_text(references(created), ", "@);
    let part = references(created)[k];
    lemma_joined_part(references(created), ", "@, k);
    let head = match event {
        ChangeEventView::Failure(text) => text,
        _ => if p.stage is Plan {
            CREATE_PLAN_METHOD@ + " returned no resource name"@
        } else {
            "CreateIssue returned no resource name"@
        },
    } + "\n  created so far: "@;
    lemma_part_stays(head, list, Seq::empty(), part);
    assert(head + list + Seq::<char>::empty() =~= head + list);
    lemma_part_stays(Seq::empty(), head + list, "\n  "@ + ISSUE_HINT@, part);
    assert(Seq::<char>::empty() + (head + list) + ("\n  "@ + ISSUE_HINT@) =~= head + list + "\n  "@
        + ISSUE_HINT@);
}

/// The keys of the document are all different.
proof fn lemma_document_keys()
    ensures
        "rolloutCreated"@.len() == 14,
        "rollout"@.len() == 7,
        "rollout"@[0] == 'r',
        "project"@[0] == 'p',
        "rolloutDeferredReason"@.len() == 21,
        "nextAction"@.len() == 10,
        "planChecks"@.len() == 10,
        "nextAction"@[0] == 'n',
        "planChecks"@[0] == 'p',
        "database"@.len() == 8,
        "project"@.len() == 7,
        "sheet"@.len() == 5,
        "sheet"@[0] == 's',
        "plan"@.len() == 4,
        "issue"@.len() == 5,
        "issue"@[0] == 'i',
        "links"@.len() == 5,
        "links"@[0] == 'l',
{
    reveal_strlit("rolloutCreated");
    reveal_strlit("rollout");
    reveal_strlit("rolloutDeferredReason");
    reveal_strlit("nextAction");
    reveal_strlit("planChecks");
    reveal_strlit("database");
    reveal_strlit("project");
    reveal_strlit("sheet");
    reveal_strlit("plan");
    reveal_strlit("issue");
    reveal_strlit("links");
}

/// What a key of the document holds.
proof fn lemma_document_fields(
    p: ProposalView,
    sheet: Seq<char>,
    plan: Seq<char>,
    checks: PlanCheckInfoView,
    issue: Seq<char>,
    outcome: OutcomeView,
)
    ensures
        ({
            let doc = document(p, sheet, plan, checks, issue, outcome);
            &&& field(doc, "database"@) == Some(JsonView::Str(p.database))
            &&& field(doc, "project"@) == Some(JsonView::Str(p.project))
            &&& field(doc, "sheet"@) == Some(JsonView::Str(sheet))
            &&& field(doc, "plan"@) == Some(JsonView::Str(plan))
            &&& field(doc, "issue"@) == Some(JsonView::Str(issue))
            &&& field(doc, "rolloutCreated"@) == Some(JsonView::Bool(outcome.rollout is Some))
            &&& field(doc, "nextAction"@) == Some(JsonView::Str(outcome.next))
            &&& str_field(doc, "rollout"@) == outcome.rollout
            &&& field(doc, "rollout"@) is Some <==> outcome.rollout is Some
            &&& str_field(doc, "rolloutDeferredReason"@) == outcome.deferred
            &&& field(doc, "rolloutDeferredReason"@) is Some <==> outcome.deferred is Some
        }),
{
    lemma_document_keys();
    let all = document_members(p, sheet, plan, checks, issue, outcome);
    let keys = seq![
        "database"@,
        "project"@,
        "sheet"@,
        "plan"@,
        "issue"@,
        "rolloutCreated"@,
        "nextAction"@,
        "rollout"@,
        "rolloutDeferredReason"@,
    ];
    assert forall|k: int| 0 <= k < keys.len() implies member(all, #[trigger] keys[k]) == (
    if k == 0 {
        Some(JsonView::Str(p.database))
    } else if k == 1 {
        Some(JsonView::Str(p.project))
    } else if k == 2 {
        Some(JsonView::Str(sheet))
    } else if k == 3 {
        Some(JsonView::Str(plan))
    } else if k == 4 {
        Some(JsonView::Str(issue))
    } else if k == 5 {
        Some(JsonView::Bool(outcome.rollout is Some))
    } else if k == 6 {
        Some(JsonView::Str(outcome.next))
    } else if k == 7 {
        match outcome.rollout {
            Some(name) => Some(JsonView::Str(name)),
            None => None,
        }
    } else {
        match outcome.deferred {
            Some(reason) => Some(JsonView::Str(reason)),
            None => None,
        }
    }) by {
        let key = keys[k];
        let m0 = no_members();
        let m1 = m0.push(("database"@, JsonView::Str(p.database)));
        let m2 = m1.push(("project"@, JsonView::Str(p.project)));
        let m3 = m2.push(("sheet"@, JsonView::Str(sheet)));
        let m4 = m3.push(("plan"@, JsonView::Str(plan)));
        let m5 = m4.push(("planChecks"@, JsonView::Object(checks_members(checks))));
        let m6 = m5.push(("issue"@, JsonView::Str(issue)));
        let m7 = m6.push(("rolloutCreated"@, JsonView::Bool(outcome.rollout is Some)));
        let m8 = m7.push(("nextAction"@, JsonView::Str(outcome.next)));
        lemma_member_push(m0, m1.last(), key);
        lemma_member_push(m1, m2.last(), key);
        lemma_member_push(m2, m3.last(), key);
        lemma_member_push(m3, m4.last(), key);
        lemma_member_push(m4, m5.last(), key);
        lemma_member_push(m5, m6.last(), key);
        lemma_member_push(m6, m7.last(), key);
        lemma_member_push(m7, m8.last(), key);
        let m9 = match outcome.rollout {
            Some(name) => m8.push(("rollout"@, JsonView::Str(name))),
            None => m8,
        };
        if outcome.rollout is Some {
            lemma_member_push(m8, m9.last(), key);
        }
        let m10 = match outcome.deferred {
            Some(reason) => m9.push(("rolloutDeferredReason"@, JsonView::Str(reason))),
            None => m9,
        };
        if outcome.deferred is Some {
            lemma_member_push(m9, m10.last(), key);
        }
        lemma_member_push(m10, all.last(), key);
    }
    assert(keys[0] == "database"@);
    assert(keys[1] == "project"@);
    assert(keys[2] == "sheet"@);
    assert(keys[3] == "plan"@);
    assert(keys[4] == "issue"@);
    assert(keys[5] == "rolloutCreated"@);
    assert(keys[6] == "nextAction"@);
    assert(keys[7] == "rollout"@);
    assert(keys[8] == "rolloutDeferredReason"@);
}

/// Whether a text is one of the next actions.
pub open spec fn is_next_action(s: Seq<char>) -> bool {
    s == AWAIT_HUMAN_APPROVAL@ || s == CREATE_ROLLOUT@ || s == MONITOR_ROLLOUT@ || s
        == WAIT_PLAN_CHECK@ || s == FIX_SQL_AND_RETRY@
}

/// No next action tells the caller to approve: approval is a human's.
pub proof fn law_no_next_action_approves(s: Seq<char>)
    requires
        is_next_action(s),
    ensures
        !has_part(s, "APPROVE"@),
{
    let part = "APPROVE"@;
    reveal_strlit("APPROVE");
    reveal_strlit("AWAIT_HUMAN_APPROVAL");
    reveal_strlit("CREATE_ROLLOUT");
    reveal_strlit("MONITOR_ROLLOUT");
    reveal_strlit("WAIT_PLAN_CHECK");
    reveal_strlit("FIX_SQL_AND_RETRY");
    assert forall|at: int| !stands_at(s, part, at) by {
        if stands_at(s, part, at) {
            let found = s.subrange(at, at + part.len());
            assert(found[0] == s[at] && found[1] == s[at + 1] && found[6] == s[at + 6]);
            assert(part[0] == 'A' && part[1] == 'P' && part[6] == 'E');
        }
    }
}

/// The document names everything that was created and says what is next; where
/// it reports no rollout it says why, and where it reports one it names it. To
/// monitor a rollout is next if and only if there is one.
pub proof fn law_document_tells_all(p: ProposalView, event: ChangeEventView, k: int)
    requires
        !ended(p.stage),
        next_stage(p, event) is Done,
    ensures
        ({
            let doc = next_stage(p, event)->document;
            &&& 0 <= k < created_by(p.stage).len() ==> field(doc, created_by(p.stage)[k].0) == Some(
                JsonView::Str(created_by(p.stage)[k].1),
            )
            &&& field(doc, "rolloutCreated"@) == Some(
                JsonView::Bool(field(doc, "rollout"@) is Some),
            )
            &&& field(doc, "rollout"@) is Some <==> field(doc, "rolloutDeferredReason"@) is None
            &&& str_field(doc, "nextAction"@) is Some
            &&& is_next_action(str_field(doc, "nextAction"@)->0)
            &&& str_field(doc, "nextAction"@)->0 == MONITOR_ROLLOUT@ <==> field(doc, "rollout"@)
                is Some
        }),
{
    let (sheet, plan, checks, issue, outcome) = match p.stage {
        StageView::Issue { sheet, plan, checks } => {
            let v = event->Reply_0;
            let approval = str_field_or_empty(v, "approvalStatus"@);
            let g = gate(p.rollout, checks, approval);
            (
                sheet,
                plan,
                checks,
                named(v)->0,
                OutcomeView {
                    next: match g->next {
                        Some(n) => n,
                        None => next_for(approval),
                    },
                    rollout: None,
                    deferred: Some(g->reason),
                },
            )
        },
        StageView::Rollout { sheet, plan, checks, issue, approval } => match made(
            CREATE_ROLLOUT_METHOD@,
            event,
        ) {
            Some(Ok(name)) => (
                sheet,
                plan,
                checks,
                issue,
                OutcomeView { next: MONITOR_ROLLOUT@, rollout: Some(name), deferred: None },
            ),
            _ => (
                sheet,
                plan,
                checks,
                issue,
                OutcomeView {
                    next: next_for(approval),
                    rollout: None,
                    deferred: Some(ROLLOUT_CREATE_FAILED@),
                },
            ),
        },
        _ => arbitrary(),
    };
    lemma_document_fields(p, sheet, plan, checks, issue, outcome);
    assert(next_stage(p, event)->document == document(p, sheet, plan, checks, issue, outcome));
    assert(outcome.rollout is None ==> outcome.next != MONITOR_ROLLOUT@) by {
        reveal_strlit("AWAIT_HUMAN_APPROVAL");
        reveal_strlit("CREATE_ROLLOUT");
        reveal_strlit("MONITOR_ROLLOUT");
        reveal_strlit("WAIT_PLAN_CHECK");
        reveal_strlit("FIX_SQL_AND_RETRY");
        assert(MONITOR_ROLLOUT@[0] == 'M');
    }
}

/// The wait for the checks is bounded by its budget: a pause is followed by
/// another look if and only if the budget is not used up. Where it is, the flow
/// goes on with checks that are reported as still running, and so without a
/// rollout.
pub proof fn law_wait_is_bounded(p: ProposalView, secs: nat, approval: Seq<char>)
    requires
        p.stage is Pause,
    ensures
        ({
            let next = next_stage(p, ChangeEventView::Clock(secs));
            &&& next is Check <==> secs < POLL_BUDGET_SECS
            &&& next is Issue <==> secs >= POLL_BUDGET_SECS
            &&& next is Issue ==> next->Issue_checks.status == CHECK_RUNNING@ && gate(
                p.rollout,
                next->Issue_checks,
                approval,
            ) is Deferred
        }),
{
}

/// A look at the checks ends the wait or leads to a pause, never straight to
/// another look: between two looks the clock is asked.
pub proof fn law_a_look_is_followed_by_a_pause(p: ProposalView, event: ChangeEventView)
    requires
        p.stage is Check,
        !(event is Clock),
    ensures
        next_stage(p, event) is Issue || (next_stage(p, event) matches StageView::Pause {
            first,
            ..
        } && !first),
{
}

} // verus!
