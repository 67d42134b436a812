//! Calls of the API: the method's path, when to refresh the access token, when
//! to try again, and what an answer means.

use vstd::prelude::*;
use vstd::string::{StrSliceExecFns, StringExecFns};

use crate::json::{field, json_of_text, opt_view, str_field, text_of_json, Json, JsonView};
use crate::keyed::lookup;
use crate::numbers::{decimal, u64_text};
use crate::store::{Credentials, CredentialsView, TokenFile};
use crate::text::{
    chars_of, has_part, has_prefix, is_white_space, lemma_part_behind, quoted, quoted_text,
    same_text, strip_prefix, trim, trim_both, trim_end, trim_leading, trim_start, trim_start_char,
};

verus! {

/// How many seconds before its end an access token counts as expired.
pub const REFRESH_MARGIN_SECS: i64 = 120;

// ---- methods ----

/// Whether a character parts a service from a method.
pub open spec fn parts_method(c: char) -> bool {
    c == '/' || c == '.'
}

/// Where the first such character stands; the length if there is none.
pub open spec fn first_part(s: Seq<char>) -> int
    decreases s.len(),
{
    if s.len() == 0 || parts_method(s[0]) {
        0
    } else {
        1 + first_part(s.skip(1))
    }
}

/// What is left of a reference: no white space around it, no slash before it,
/// and not the name of the package.
pub open spec fn bare_method(method: Seq<char>) -> Seq<char> {
    let s = trim_start_char(trim_both(method), '/');
    if has_prefix(s, "bytebase.v1."@) {
        s.skip("bytebase.v1."@.len() as int)
    } else {
        s
    }
}

/// The service and the method of a reference; nothing unless there is exactly
/// one part on either side of one parting character.
pub open spec fn method_parts(method: Seq<char>) -> Option<(Seq<char>, Seq<char>)> {
    let s = bare_method(method);
    let at = first_part(s);
    if at >= s.len() {
        None
    } else {
        let service = s.take(at);
        let name = s.skip(at + 1);
        if service.len() == 0 || name.len() == 0 || first_part(name) < name.len() {
            None
        } else {
            Some((service, name))
        }
    }
}

/// The refusal of a reference.
pub open spec fn method_refusal(method: Seq<char>) -> Seq<char> {
    "method must look like Service/Method, e.g. SQLService/Query (got "@ + quoted_text(method)
        + ")"@
}

/// The refusal of a reference.
fn method_err(method: &str) -> (r: String)
    ensures
        r@ == method_refusal(method@),
{
    let mut s = "method must look like Service/Method, e.g. SQLService/Query (got ".to_owned();
    s.append(quoted(method).as_str());
    s.append(")");
    s
}

/// Where the first parting character stands; the length if there is none.
fn find_part(s: &str) -> (r: usize)
    ensures
        r == first_part(s@),
        r <= s@.len(),
{
    let cs = chars_of(s);
    let n: usize = cs.len();
    let mut i: usize = 0;
    proof {
        assert(s@.skip(0) =~= s@);
    }
    while i < n && cs[i] != '/' && cs[i] != '.'
        invariant
            i <= n,
            n == cs@.len(),
            cs@ == s@,
            first_part(s@) == i + first_part(s@.skip(i as int)),
        decreases n - i,
    {
        proof {
            assert(s@.skip(i as int).skip(1) =~= s@.skip(i + 1));
        }
        i += 1;
    }
    i
}

/// The service and the method of a reference: `Service/Method`,
/// `Service.Method`, or either behind `bytebase.v1.`.
pub fn parse_method(method: &str) -> (r: Result<(&str, &str), String>)
    ensures
        r is Ok <==> method_parts(method@) is Some,
        r matches Ok(p) ==> (p.0@, p.1@) == method_parts(method@)->0,
        r matches Err(e) ==> e@ == method_refusal(method@),
{
    let s = trim_leading(trim(method), '/');
    let s = match strip_prefix(s, "bytebase.v1.") {
        Some(rest) => rest,
        None => s,
    };
    let n: usize = chars_of(s).len();
    let at: usize = find_part(s);
    if at >= n {
        return Err(method_err(method));
    }
    let service = s.substring_char(0, at);
    let name = s.substring_char(at + 1, n);
    proof {
        assert(service@ =~= s@.take(at as int));
        assert(name@ =~= s@.skip(at + 1));
    }
    if service.is_empty() || name.is_empty() || find_part(name) < chars_of(name).len() {
        return Err(method_err(method));
    }
    Ok((service, name))
}

/// The path of a method.
pub open spec fn path_of(service: Seq<char>, name: Seq<char>) -> Seq<char> {
    "/bytebase.v1."@ + service + "/"@ + name
}

/// The path of a method, from a reference to it.
pub fn method_path(method: &str) -> (r: Result<String, String>)
    ensures
        r is Ok <==> method_parts(method@) is Some,
        r matches Ok(p) ==> p@ == path_of((method_parts(method@)->0).0, (method_parts(method@)->0).1),
        r matches Err(e) ==> e@ == method_refusal(method@),
{
    match parse_method(method) {
        Ok((service, name)) => {
            let mut s = "/bytebase.v1.".to_owned();
            s.append(service);
            s.append("/");
            s.append(name);
            Ok(s)
        },
        Err(e) => Err(e),
    }
}

/// The line that says which server a call goes to, and why that one.
pub fn announcement(method: &str, server: &str, source: &str) -> (r: String)
    ensures
        r@ == method@ + " -> "@ + server@ + " (source: "@ + source@ + ")"@,
{
    let mut s = method.to_owned();
    s.append(" -> ");
    s.append(server);
    s.append(" (source: ");
    s.append(source);
    s.append(")");
    s
}

/// The refusal when there are no credentials for a server.
pub fn not_logged_in(key: &str) -> (r: String)
    ensures
        r@ == "not logged in to "@ + key@ + "; "@ + crate::store::login_words(key@),
{
    let mut s = "not logged in to ".to_owned();
    s.append(key);
    s.append("; ");
    s.append(crate::store::login_hint(key).as_str());
    s
}

// ---- errors ----

/// The one action that resolves an error of the code.
pub open spec fn hint_for(code: Seq<char>) -> Option<Seq<char>> {
    if code == "unauthenticated"@ {
        Some("credentials are not usable: run `bbcli login` again"@)
    } else if code == "permission_denied"@ {
        Some("the account lacks the required role: see `bbcli skill grant-permission`"@)
    } else if code == "not_found"@ {
        Some("the resource name does not exist — check its format with `bbcli search`"@)
    } else if code == "invalid_argument"@ {
        Some("the request fields are wrong: re-check with `bbcli search --operation-id <S/M>`"@)
    } else if code == "unimplemented"@ {
        Some(
            "this server does not serve that method; the embedded catalog may be newer or older than the server (see `bbcli --version`)"@,
        )
    } else if code == "deadline_exceeded"@ || code == "unavailable"@ {
        Some("transient server-side failure: retrying may work"@)
    } else {
        None
    }
}

/// The one action that resolves an error of the code, so that no call is tried
/// again that can never succeed as written.
pub fn recovery_hint(code: Option<&str>) -> (r: Option<&'static str>)
    ensures
        opt_view(r) == match opt_view(code) {
            Some(c) => hint_for(c),
            None => None,
        },
{
    match code {
        Some(c) => if same_text(c, "unauthenticated") {
            Some("credentials are not usable: run `bbcli login` again")
        } else if same_text(c, "permission_denied") {
            Some("the account lacks the required role: see `bbcli skill grant-permission`")
        } else if same_text(c, "not_found") {
            Some("the resource name does not exist — check its format with `bbcli search`")
        } else if same_text(c, "invalid_argument") {
            Some("the request fields are wrong: re-check with `bbcli search --operation-id <S/M>`")
        } else if same_text(c, "unimplemented") {
            Some(
                "this server does not serve that method; the embedded catalog may be newer or older than the server (see `bbcli --version`)",
            )
        } else if same_text(c, "deadline_exceeded") || same_text(c, "unavailable") {
            Some("transient server-side failure: retrying may work")
        } else {
            None
        },
        None => None,
    }
}

/// The line of an answer that is no Connect error.
pub open spec fn plain_error(status: Seq<char>, path: Seq<char>, body: Seq<char>) -> Seq<char> {
    let text = trim_both(body);
    if text.len() == 0 {
        "HTTP "@ + status + " from "@ + path + " (empty body)"@
    } else {
        "HTTP "@ + status + " from "@ + path + ": "@ + text
    }
}

/// The lines of a Connect error: its code and message, what it says of the
/// details, and the action that resolves it.
pub open spec fn rich_error(status: Seq<char>, path: Seq<char>, v: JsonView) -> Seq<char> {
    let message = match str_field(v, "message"@) {
        Some(m) => m,
        None => "(no message)"@,
    };
    let head = match str_field(v, "code"@) {
        Some(code) => "HTTP "@ + status + " from "@ + path + " ["@ + code + "]: "@ + message,
        None => "HTTP "@ + status + " from "@ + path + ": "@ + message,
    };
    let detailed = match field(v, "details"@) {
        Some(d) => if d is Null {
            head
        } else {
            head + "\n  details: "@ + text_of_json(d)
        },
        None => head,
    };
    match str_field(v, "code"@) {
        Some(code) => match hint_for(code) {
            Some(hint) => detailed + "\n  "@ + hint,
            None => detailed,
        },
        None => detailed,
    }
}

/// The line of an answer that is no Connect error.
fn plain_error_text(status: &str, path: &str, body: &str) -> (r: String)
    ensures
        r@ == plain_error(status@, path@, body@),
{
    let text = trim(body);
    let mut s = "HTTP ".to_owned();
    s.append(status);
    s.append(" from ");
    s.append(path);
    if text.is_empty() {
        s.append(" (empty body)");
    } else {
        s.append(": ");
        s.append(text);
    }
    s
}

/// The lines of a Connect error, from its parsed body.
pub fn connect_error_of(status: &str, path: &str, v: &Json) -> (r: String)
    ensures
        r@ == rich_error(status@, path@, v@),
{
    let code = v.get_str("code");
    let mut s = "HTTP ".to_owned();
    s.append(status);
    s.append(" from ");
    s.append(path);
    match code {
        Some(c) => {
            s.append(" [");
            s.append(c);
            s.append("]: ");
        },
        None => {
            s.append(": ");
        },
    }
    match v.get_str("message") {
        Some(m) => s.append(m),
        None => s.append("(no message)"),
    }
    match v.get("details") {
        Some(d) => if !d.is_null() {
            s.append("\n  details: ");
            s.append(d.compact().as_str());
        },
        None => {},
    }
    match recovery_hint(code) {
        Some(hint) => {
            s.append("\n  ");
            s.append(hint);
        },
        None => {},
    }
    s
}

/// An error answer in words. Nothing that decides the next step is dropped: the
/// code says whether to log in again, to mend the request or to ask for access,
/// and the details name what was refused.
pub fn connect_error(status: &str, path: &str, body: &str) -> (r: String)
    ensures
        r@ == match json_of_text(body@) {
            Ok(v) => rich_error(status@, path@, v),
            Err(_) => plain_error(status@, path@, body@),
        },
{
    match Json::parse(body) {
        Ok(v) => connect_error_of(status, path, &v),
        Err(_) => plain_error_text(status, path, body),
    }
}

/// What the words are when a call took longer than the client waits. That says
/// nothing of the server, which may still be at it.
pub fn timeout_error(path: &str, secs: u64) -> (r: String)
    ensures
        r@ == "request to "@ + path@ + " exceeded the client timeout of "@ + decimal(secs as nat)
            + "s — the server may still be executing it; check its status before retrying"@,
{
    let mut s = "request to ".to_owned();
    s.append(path);
    s.append(" exceeded the client timeout of ");
    s.append(u64_text(secs).as_str());
    s.append("s — the server may still be executing it; check its status before retrying");
    s
}

// ---- answers ----

/// Whether a status is a success.
pub open spec fn is_success(status: int) -> bool {
    200 <= status < 300
}

/// Whether a status is a success.
pub fn succeeded(status: u16) -> (r: bool)
    ensures
        r == is_success(status as int),
{
    200 <= status && status < 300
}

/// Why an answer is of no use.
#[derive(Debug)]
pub enum AnswerError {
    /// The server refused: the words.
    Refused(String),
    /// The body could not be read as JSON: why.
    Unreadable(String),
}

/// The same by its texts.
pub enum AnswerErrorView {
    Refused(Seq<char>),
    Unreadable(Seq<char>),
}

impl View for AnswerError {
    type V = AnswerErrorView;

    open spec fn view(&self) -> AnswerErrorView {
        match *self {
            AnswerError::Refused(s) => AnswerErrorView::Refused(s@),
            AnswerError::Unreadable(s) => AnswerErrorView::Unreadable(s@),
        }
    }
}

/// What an answer amounts to, given what its body parses to. A success without
/// a body is a null.
pub open spec fn answer_of(
    status: int,
    status_text: Seq<char>,
    path: Seq<char>,
    body: Seq<char>,
    parsed: Result<JsonView, Seq<char>>,
) -> Result<JsonView, AnswerErrorView> {
    if !is_success(status) {
        Err(
            AnswerErrorView::Refused(
                match parsed {
                    Ok(v) => rich_error(status_text, path, v),
                    Err(_) => plain_error(status_text, path, body),
                },
            ),
        )
    } else if trim_both(body).len() == 0 {
        Ok(JsonView::Null)
    } else {
        match parsed {
            Ok(v) => Ok(v),
            Err(e) => Err(AnswerErrorView::Unreadable(e)),
        }
    }
}

/// The result of a parse by its views.
pub open spec fn parsed_view(r: Result<Json, String>) -> Result<JsonView, Seq<char>> {
    match r {
        Ok(v) => Ok(v@),
        Err(e) => Err(e@),
    }
}

/// What an answer amounts to, given what its body parses to.
pub fn read_parsed(
    status: u16,
    status_text: &str,
    path: &str,
    body: &str,
    parsed: Result<Json, String>,
) -> (r: Result<Json, AnswerError>)
    ensures
        match r {
            Ok(v) => answer_of(status as int, status_text@, path@, body@, parsed_view(parsed))
                == Ok::<_, AnswerErrorView>(v@),
            Err(e) => answer_of(status as int, status_text@, path@, body@, parsed_view(parsed))
                == Err::<JsonView, _>(e@),
        },
{
    if !succeeded(status) {
        let words = match &parsed {
            Ok(v) => connect_error_of(status_text, path, v),
            Err(_) => plain_error_text(status_text, path, body),
        };
        return Err(AnswerError::Refused(words));
    }
    if trim(body).is_empty() {
        return Ok(Json::Null);
    }
    match parsed {
        Ok(v) => Ok(v),
        Err(e) => Err(AnswerError::Unreadable(e)),
    }
}

/// What an answer amounts to.
pub fn read_answer(status: u16, status_text: &str, path: &str, body: &str) -> (r: Result<
    Json,
    AnswerError,
>)
    ensures
        match r {
            Ok(v) => answer_of(status as int, status_text@, path@, body@, json_of_text(body@))
                == Ok::<_, AnswerErrorView>(v@),
            Err(e) => answer_of(status as int, status_text@, path@, body@, json_of_text(body@))
                == Err::<JsonView, _>(e@),
        },
{
    let parsed = Json::parse(body);
    proof {
        assert(parsed_view(parsed) == json_of_text(body@));
    }
    read_parsed(status, status_text, path, body, parsed)
}

// ---- the course of a call ----

/// A call on its way.
pub struct Exchange {
    /// The server.
    pub server: String,
    /// The path of the method.
    pub path: String,
    pub stage: ExchangeStage,
}

/// How far a call has come.
pub enum ExchangeStage {
    /// The access token is to be looked at, and refreshed if it is about to end.
    Fresh,
    /// The request is to be sent.
    Send { retried: bool },
    /// The server did not accept the token: it is to be refreshed at any rate.
    Renew,
    /// The body of the answer is to be read.
    Body { status: u16, text: String },
    /// The end.
    Done(Result<Json, AnswerError>),
}

/// A call by its texts.
pub struct ExchangeView {
    pub server: Seq<char>,
    pub path: Seq<char>,
    pub stage: ExchangeStageView,
}

/// A stage by its texts.
pub enum ExchangeStageView {
    Fresh,
    Send { retried: bool },
    Renew,
    Body { status: int, text: Seq<char> },
    Done(Result<JsonView, AnswerErrorView>),
}

impl View for ExchangeStage {
    type V = ExchangeStageView;

    open spec fn view(&self) -> ExchangeStageView {
        match *self {
            ExchangeStage::Fresh => ExchangeStageView::Fresh,
            ExchangeStage::Send { retried } => ExchangeStageView::Send { retried },
            ExchangeStage::Renew => ExchangeStageView::Renew,
            ExchangeStage::Body { status, text } => ExchangeStageView::Body {
                status: status as int,
                text: text@,
            },
            ExchangeStage::Done(r) => ExchangeStageView::Done(
                match r {
                    Ok(v) => Ok(v@),
                    Err(e) => Err(e@),
                },
            ),
        }
    }
}

impl View for Exchange {
    type V = ExchangeView;

    open spec fn view(&self) -> ExchangeView {
        ExchangeView { server: self.server@, path: self.path@, stage: self.stage@ }
    }
}

/// What a call hears.
pub enum ExchangeEvent {
    /// The token has been looked at, or refreshed.
    Ready,
    /// The status of the answer, as a number and in words.
    Status(u16, String),
    /// The body of the answer.
    Body(String),
}

/// The same by its texts.
pub enum ExchangeEventView {
    Ready,
    Status(int, Seq<char>),
    Body(Seq<char>),
}

impl View for ExchangeEvent {
    type V = ExchangeEventView;

    open spec fn view(&self) -> ExchangeEventView {
        match *self {
            ExchangeEvent::Ready => ExchangeEventView::Ready,
            ExchangeEvent::Status(n, t) => ExchangeEventView::Status(n as int, t@),
            ExchangeEvent::Body(b) => ExchangeEventView::Body(b@),
        }
    }
}

/// The stage after an event. An event that the stage does not wait for leaves
/// it as it is.
pub open spec fn next_exchange(e: ExchangeView, event: ExchangeEventView) -> ExchangeStageView {
    match (e.stage, event) {
        (ExchangeStageView::Fresh, ExchangeEventView::Ready) => ExchangeStageView::Send {
            retried: false,
        },
        (ExchangeStageView::Renew, ExchangeEventView::Ready) => ExchangeStageView::Send {
            retried: true,
        },
        (ExchangeStageView::Send { retried }, ExchangeEventView::Status(status, text)) => if status
            == 401 && !retried {
            ExchangeStageView::Renew
        } else {
            ExchangeStageView::Body { status, text }
        },
        (
            ExchangeStageView::Body { status, text },
            ExchangeEventView::Body(body),
        ) => ExchangeStageView::Done(answer_of(status, text, e.path, body, json_of_text(body))),
        _ => e.stage,
    }
}

impl Exchange {
    /// Begins a call of a method.
    pub fn start(server: &str, method: &str) -> (r: Result<Exchange, String>)
        ensures
            r is Ok <==> method_parts(method@) is Some,
            r matches Ok(e) ==> e@ == (ExchangeView {
                server: server@,
                path: path_of((method_parts(method@)->0).0, (method_parts(method@)->0).1),
                stage: ExchangeStageView::Fresh,
            }),
            r matches Err(e) ==> e@ == method_refusal(method@),
    {
        match method_path(method) {
            Ok(path) => Ok(
                Exchange { server: server.to_owned(), path, stage: ExchangeStage::Fresh },
            ),
            Err(e) => Err(e),
        }
    }

    /// The address that the request goes to.
    pub fn url(&self) -> (r: String)
        ensures
            r@ == self@.server + self@.path,
    {
        let mut s = self.server.clone();
        s.append(self.path.as_str());
        s
    }

    /// Hears an event and moves on.
    pub fn step(&mut self, event: ExchangeEvent)
        ensures
            final(self)@ == (ExchangeView {
                stage: next_exchange(old(self)@, event@),
                ..old(self)@
            }),
    {
        let mut stage = ExchangeStage::Fresh;
        std::mem::swap(&mut stage, &mut self.stage);
        let next = match (stage, event) {
            (ExchangeStage::Fresh, ExchangeEvent::Ready) => ExchangeStage::Send { retried: false },
            (ExchangeStage::Renew, ExchangeEvent::Ready) => ExchangeStage::Send { retried: true },
            (ExchangeStage::Send { retried }, ExchangeEvent::Status(status, text)) => if status
                == 401 && !retried {
                ExchangeStage::Renew
            } else {
                ExchangeStage::Body { status, text }
            },
            (ExchangeStage::Body { status, text }, ExchangeEvent::Body(body)) => {
                ExchangeStage::Done(
                    read_answer(status, text.as_str(), self.path.as_str(), body.as_str()),
                )
            },
            (stage, _) => stage,
        };
        self.stage = next;
    }
}

// ---- tokens ----

/// Whether a token that ends at a time is to be refreshed now.
pub open spec fn is_stale(expires_at: int, now: int) -> bool {
    expires_at - now < REFRESH_MARGIN_SECS
}

/// Whether a token that ends at a time is to be refreshed now.
pub fn needs_refresh(expires_at: i64, now: i64) -> (r: bool)
    ensures
        r == is_stale(expires_at as int, now as int),
{
    (expires_at as i128) - (now as i128) < REFRESH_MARGIN_SECS as i128
}

/// How many seconds a token has left; less than none once it has ended.
pub fn seconds_left(expires_at: i64, now: i64) -> (r: i64)
    requires
        i64::MIN <= expires_at - now <= i64::MAX,
    ensures
        r == expires_at - now,
{
    expires_at - now
}

/// What to do about a token, with the file of tokens under lock.
pub enum RefreshPlan {
    /// Use these credentials: they are fresh.
    Adopt(Credentials),
    /// Exchange the refresh token of these.
    Refresh(Credentials),
}

/// The same by its texts.
pub enum RefreshPlanView {
    Adopt(CredentialsView),
    Refresh(CredentialsView),
}

impl View for RefreshPlan {
    type V = RefreshPlanView;

    open spec fn view(&self) -> RefreshPlanView {
        match *self {
            RefreshPlan::Adopt(c) => RefreshPlanView::Adopt(c@),
            RefreshPlan::Refresh(c) => RefreshPlanView::Refresh(c@),
        }
    }
}

/// What to do about a token: what is stored counts before what is at hand, and
/// fresh credentials are adopted unless a refresh is forced.
pub open spec fn plan_for(
    tokens: Map<Seq<char>, CredentialsView>,
    key: Seq<char>,
    held: CredentialsView,
    force: bool,
    now: int,
) -> RefreshPlanView {
    let current = match lookup(tokens, key) {
        Some(stored) => stored,
        None => held,
    };
    if !force && !is_stale(current.expires_at, now) {
        RefreshPlanView::Adopt(current)
    } else {
        RefreshPlanView::Refresh(current)
    }
}

/// What to do about a token, with the file of tokens under lock. Another
/// process may have refreshed it meanwhile: its new token is adopted, and the
/// old one, which works only once, is not used up.
pub fn refresh_plan(tokens: &TokenFile, key: &str, held: &Credentials, force: bool, now: i64) -> (r:
    RefreshPlan)
    ensures
        r@ == plan_for(tokens@, key@, held@, force, now as int),
{
    let current = match tokens.servers.get(key) {
        Some(stored) => stored.clone(),
        None => held.clone(),
    };
    if !force && !needs_refresh(current.expires_at, now) {
        RefreshPlan::Adopt(current)
    } else {
        RefreshPlan::Refresh(current)
    }
}

/// Puts fresh credentials into the file of tokens.
pub fn store_refreshed(tokens: &mut TokenFile, key: &str, fresh: &Credentials)
    ensures
        final(tokens)@ == old(tokens)@.insert(key@, fresh@),
{
    tokens.servers.insert(key, fresh.clone());
}

// ---- laws ----

/// Whether a text has no character that parts a service from a method.
pub open spec fn one_part(s: Seq<char>) -> bool {
    forall|i: int| 0 <= i < s.len() ==> !parts_method(#[trigger] s[i])
}

/// Whether a text can stand as a part of a reference: something, in one part,
/// and without white space at its ends.
pub open spec fn plain_part(s: Seq<char>) -> bool {
    s.len() > 0 && one_part(s) && !is_white_space(s[0]) && !is_white_space(s.last())
}

proof fn lemma_first_part(head: Seq<char>, c: char, tail: Seq<char>)
    requires
        one_part(head),
        parts_method(c),
    ensures
        first_part(head + seq![c] + tail) == head.len(),
    decreases head.len(),
{
    let s = head + seq![c] + tail;
    if head.len() == 0 {
        assert(s[0] == c);
    } else {
        let rest = head.skip(1);
        assert forall|i: int| 0 <= i < rest.len() implies !parts_method(#[trigger] rest[i]) by {
            assert(rest[i] == head[i + 1]);
        }
        lemma_first_part(rest, c, tail);
        assert(s[0] == head[0]);
        assert(s.skip(1) =~= rest + seq![c] + tail);
    }
}

proof fn lemma_no_part(s: Seq<char>)
    requires
        one_part(s),
    ensures
        first_part(s) == s.len(),
    decreases s.len(),
{
    if s.len() > 0 {
        let rest = s.skip(1);
        assert(!parts_method(s[0]));
        assert forall|i: int| 0 <= i < rest.len() implies !parts_method(#[trigger] rest[i]) by {
            assert(rest[i] == s[i + 1]);
        }
        lemma_no_part(rest);
    }
}

/// What is left of a reference decides: two parts around a parting character.
proof fn lemma_parts_of_bare(method: Seq<char>, service: Seq<char>, name: Seq<char>, c: char)
    requires
        plain_part(service),
        plain_part(name),
        parts_method(c),
        bare_method(method) == service + seq![c] + name,
    ensures
        method_parts(method) == Some((service, name)),
{
    let s = service + seq![c] + name;
    lemma_first_part(service, c, name);
    lemma_no_part(name);
    assert(s.take(service.len() as int) =~= service);
    assert(s.skip(service.len() as int + 1) =~= name);
}

/// A reference in two parts does not begin with the name of the package, which
/// has a part more.
proof fn lemma_no_package(service: Seq<char>, name: Seq<char>, c: char)
    requires
        plain_part(service),
        plain_part(name),
    ensures
        !has_prefix(service + seq![c] + name, "bytebase.v1."@),
{
    reveal_strlit("bytebase.v1.");
    let s = service + seq![c] + name;
    if has_prefix(s, "bytebase.v1."@) {
        assert(s.take(12)[8] == '.');
        assert(s.take(12)[11] == '.');
        assert(s[8] == '.' && s[11] == '.');
        if service.len() > 8 {
            assert(!parts_method(service[8]));
        } else if service.len() < 8 {
            assert(s[8] == name[8 - service.len() - 1]);
            assert(!parts_method(name[8 - service.len() - 1]));
        } else {
            assert(s[11] == name[2]);
            assert(!parts_method(name[2]));
        }
    }
}

/// A text without white space at its ends loses nothing to trimming.
proof fn lemma_trimmed(s: Seq<char>)
    requires
        s.len() > 0,
        !is_white_space(s[0]),
        !is_white_space(s.last()),
    ensures
        trim_both(s) == s,
{
    assert(trim_start(s) == s);
    assert(trim_end(s) == s);
}

proof fn lemma_short_form(service: Seq<char>, name: Seq<char>, c: char)
    requires
        plain_part(service),
        plain_part(name),
        parts_method(c),
    ensures
        bare_method(service + seq![c] + name) == service + seq![c] + name,
{
    let s = service + seq![c] + name;
    assert(s[0] == service[0] && s.last() == name.last());
    assert(!parts_method(service[0]));
    lemma_trimmed(s);
    assert(trim_start_char(s, '/') == s);
    lemma_no_package(service, name, c);
}

proof fn lemma_package_form(service: Seq<char>, name: Seq<char>, c: char)
    requires
        plain_part(service),
        plain_part(name),
    ensures
        bare_method("bytebase.v1."@ + service + seq![c] + name) == service + seq![c] + name,
{
    reveal_strlit("bytebase.v1.");
    let prefix = "bytebase.v1."@;
    let s = service + seq![c] + name;
    let t = prefix + service + seq![c] + name;
    assert(t =~= prefix + s);
    assert(t[0] == 'b' && t.last() == name.last());
    lemma_trimmed(t);
    assert(trim_start_char(t, '/') == t);
    assert(t.take(12) =~= prefix);
    assert(t.skip(12) =~= s);
}

proof fn lemma_path_form(service: Seq<char>, name: Seq<char>)
    requires
        plain_part(service),
        plain_part(name),
    ensures
        bare_method(path_of(service, name)) == service + seq!['/'] + name,
{
    reveal_strlit("bytebase.v1.");
    reveal_strlit("/bytebase.v1.");
    reveal_strlit("/");
    let prefix = "bytebase.v1."@;
    let s = service + seq!['/'] + name;
    let p = path_of(service, name);
    let t = prefix + s;
    assert(p =~= seq!['/'] + t);
    assert(p[0] == '/' && p.last() == name.last());
    lemma_trimmed(p);
    assert(p.skip(1) =~= t);
    assert(t[0] == 'b');
    assert(trim_start_char(t, '/') == t);
    assert(trim_start_char(p, '/') == t);
    assert(t.take(12) =~= prefix);
    assert(t.skip(12) =~= s);
}

/// The three ways to write a reference lead to the same method, and a path
/// leads back to the method that it is the path of.
pub proof fn law_method_forms(service: Seq<char>, name: Seq<char>, c: char)
    requires
        plain_part(service),
        plain_part(name),
        parts_method(c),
    ensures
        method_parts(service + seq![c] + name) == Some((service, name)),
        method_parts("bytebase.v1."@ + service + seq![c] + name) == Some((service, name)),
        method_parts(path_of(service, name)) == Some((service, name)),
{
    lemma_short_form(service, name, c);
    lemma_parts_of_bare(service + seq![c] + name, service, name, c);
    lemma_package_form(service, name, c);
    lemma_parts_of_bare("bytebase.v1."@ + service + seq![c] + name, service, name, c);
    lemma_path_form(service, name);
    lemma_parts_of_bare(path_of(service, name), service, name, '/');
}

/// How far along a stage is.
pub open spec fn progress(stage: ExchangeStageView) -> int {
    match stage {
        ExchangeStageView::Fresh => 0,
        ExchangeStageView::Send { retried } => if retried {
            3
        } else {
            1
        },
        ExchangeStageView::Renew => 2,
        ExchangeStageView::Body { .. } => 4,
        ExchangeStageView::Done(_) => 5,
    }
}

/// A call only moves on: a request goes out at most twice, the second time only
/// after the first was answered with 401 and the token was refreshed.
pub proof fn law_at_most_one_retry(e: ExchangeView, event: ExchangeEventView)
    ensures
        progress(e.stage) <= progress(next_exchange(e, event)),
        progress(e.stage) == progress(next_exchange(e, event)) ==> next_exchange(e, event)
            == e.stage,
        next_exchange(e, event) is Renew && !(e.stage is Renew) ==> (event
            matches ExchangeEventView::Status(status, _) && status == 401),
        e.stage matches ExchangeStageView::Send { retried: true } ==> !(next_exchange(
            e,
            event,
        ) is Renew),
{
}

/// A token that another process has refreshed is adopted and not used up: after
/// it has stored fresh credentials, everyone who is not forced takes those,
/// whatever they held; and where a refresh is needed it is the stored token
/// that is exchanged.
pub proof fn law_refreshed_token_is_adopted(
    tokens: Map<Seq<char>, CredentialsView>,
    key: Seq<char>,
    fresh: CredentialsView,
    held: CredentialsView,
    now: int,
)
    ensures
        !is_stale(fresh.expires_at, now) ==> plan_for(
            tokens.insert(key, fresh),
            key,
            held,
            false,
            now,
        ) == RefreshPlanView::Adopt(fresh),
        plan_for(tokens.insert(key, fresh), key, held, true, now) == RefreshPlanView::Refresh(
            fresh,
        ),
        is_stale(fresh.expires_at, now) ==> plan_for(
            tokens.insert(key, fresh),
            key,
            held,
            false,
            now,
        ) == RefreshPlanView::Refresh(fresh),
{
}

/// The code, the message and the action of a Connect error all stand in what is
/// shown of it.
pub proof fn law_error_tells_all(
    status: Seq<char>,
    path: Seq<char>,
    v: JsonView,
    code: Seq<char>,
    message: Seq<char>,
)
    requires
        str_field(v, "code"@) == Some(code),
        str_field(v, "message"@) == Some(message),
    ensures
        has_part(rich_error(status, path, v), "["@ + code + "]: "@ + message),
        hint_for(code) matches Some(hint) ==> has_part(rich_error(status, path, v), hint),
{
    reveal_strlit(" [");
    reveal_strlit("[");
    let lead = "HTTP "@ + status + " from "@ + path + " "@;
    let part = "["@ + code + "]: "@ + message;
    let head = "HTTP "@ + status + " from "@ + path + " ["@ + code + "]: "@ + message;
    reveal_strlit(" ");
    assert(lead + part =~= head);
    let details = match field(v, "details"@) {
        Some(d) => if d is Null {
            Seq::empty()
        } else {
            "\n  details: "@ + text_of_json(d)
        },
        None => Seq::empty(),
    };
    let tail = match hint_for(code) {
        Some(hint) => "\n  "@ + hint,
        None => Seq::empty(),
    };
    let whole = rich_error(status, path, v);
    lemma_part_behind(lead, part, details + tail);
    assert(lead + part + (details + tail) =~= whole);
    if hint_for(code) is Some {
        let hint = hint_for(code)->0;
        lemma_part_behind(head + details + "\n  "@, hint, Seq::empty());
        assert(head + details + "\n  "@ + hint + Seq::<char>::empty() =~= whole);
    }
}

} // verus!
