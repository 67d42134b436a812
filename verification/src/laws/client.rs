//! Laws of a call: from the method to its path, and from the answer to what the
//! caller hears of it.

use vstd::prelude::*;

use crate::client::{
    answer_of, bare_method, first_part, hint_for, is_stale, method_parts, method_refusal,
    next_exchange, parts_method, path_of, plain_error, plan_for, rich_error, AnswerErrorView,
    ExchangeEventView, ExchangeStageView, ExchangeView, RefreshPlanView,
};
use crate::json::{field, json_of_text, str_field, text_of_json, JsonView};
use crate::laws::texts::law_taking_off;
use crate::store::CredentialsView;
use crate::text::{
    has_part, has_prefix, lemma_part_behind, quoted_text, stands_at, trim_both,
};

verus! {

// ---- methods ----

/// The path of a method is the package's, the service and the method.
pub proof fn law_paths(service: Seq<char>, name: Seq<char>)
    ensures
        path_of(service, name) == "/bytebase.v1."@ + service + "/"@ + name,
        has_prefix(path_of(service, name), "/bytebase.v1."@ + service + "/"@),
{
    let head = "/bytebase.v1."@ + service + "/"@;
    assert(path_of(service, name).take(head.len() as int) =~= head);
}

proof fn lemma_first_part_at(s: Seq<char>)
    ensures
        0 <= first_part(s) <= s.len(),
        forall|i: int| 0 <= i < first_part(s) ==> !parts_method(#[trigger] s[i]),
        first_part(s) < s.len() ==> parts_method(s[first_part(s)]),
    decreases s.len(),
{
    if s.len() > 0 && !parts_method(s[0]) {
        let rest = s.skip(1);
        lemma_first_part_at(rest);
        assert forall|i: int| 0 <= i < first_part(s) implies !parts_method(#[trigger] s[i]) by {
            if i > 0 {
                assert(rest[i - 1] == s[i]);
            }
        }
    }
}

/// What is read as a method is two parts, neither of them empty, with one slash
/// or dot between them and none within them: anything else is refused.
pub proof fn law_only_two_parts_are_a_method(method: Seq<char>)
    ensures
        method_parts(method) matches Some(p) ==> {
            &&& p.0.len() > 0 && p.1.len() > 0
            &&& !p.0.contains('/') && !p.0.contains('.')
            &&& !p.1.contains('/') && !p.1.contains('.')
            &&& bare_method(method) == p.0 + seq!['/'] + p.1 || bare_method(method) == p.0
                + seq!['.'] + p.1
        },
        has_part(trim_both(method), bare_method(method)),
{
    let s = bare_method(method);
    let at = first_part(s);
    lemma_first_part_at(s);
    if method_parts(method) is Some {
        let (service, name) = method_parts(method)->0;
        lemma_first_part_at(name);
        let c = s[at];
        assert(s =~= service + seq![c] + name);
        assert forall|i: int| 0 <= i < service.len() implies !parts_method(
            #[trigger] service[i],
        ) by {
            assert(service[i] == s[i]);
        }
    }
    let t = trim_both(method);
    law_taking_off(t, '/');
    let a = choose|a: int|
        0 <= a <= t.len() && crate::text::trim_start_char(t, '/') == #[trigger] t.skip(a) && (
        forall|i: int| 0 <= i < a ==> #[trigger] t[i] == '/') && (a < t.len() ==> t[a] != '/');
    let u = t.skip(a);
    let k = if has_prefix(u, "bytebase.v1."@) {
        "bytebase.v1."@.len() as int
    } else {
        0
    };
    assert(u.skip(0) =~= u);
    let b = a + k;
    assert(s =~= t.skip(b));
    assert(t.subrange(b, b + s.len()) =~= s);
    assert(stands_at(t, s, b));
}

// ---- answers ----

/// An answer counts as one exactly where its status is of the two hundreds. Its
/// body is what it says: nothing where it is blank, else what it reads as. Any
/// other status is a refusal, whatever the body.
pub proof fn law_answers(
    status: int,
    words: Seq<char>,
    path: Seq<char>,
    body: Seq<char>,
    parsed: Result<JsonView, Seq<char>>,
)
    ensures
        ({
            let r = answer_of(status, words, path, body, parsed);
            &&& status < 200 || status > 299 ==> (r matches Err(AnswerErrorView::Refused(_)))
            &&& 200 <= status <= 299 && trim_both(body).len() == 0 ==> r == Ok::<
                _,
                AnswerErrorView,
            >(JsonView::Null)
            &&& 200 <= status <= 299 && trim_both(body).len() > 0 ==> match parsed {
                Ok(v) => r == Ok::<_, AnswerErrorView>(v),
                Err(e) => r == Err::<JsonView, _>(AnswerErrorView::Unreadable(e)),
            }
            &&& r matches Err(AnswerErrorView::Refused(told)) ==> has_part(told, words) && has_part(
                told,
                path,
            )
        }),
{
    if status < 200 || status > 299 {
        match parsed {
            Ok(v) => law_refusals_tell_the_answer(words, path, v),
            Err(_) => law_refusals_tell_the_body(words, path, body),
        }
    }
}

/// A refusal without JSON tells the status, the path and the body, or that there
/// is none.
pub proof fn law_refusals_tell_the_body(status: Seq<char>, path: Seq<char>, body: Seq<char>)
    ensures
        ({
            let told = plain_error(status, path, body);
            let head = "HTTP "@ + status + " from "@ + path;
            &&& has_prefix(told, head)
            &&& has_part(told, status)
            &&& has_part(told, path)
            &&& trim_both(body).len() > 0 ==> told == head + ": "@ + trim_both(body)
            &&& trim_both(body).len() == 0 ==> told == head + " (empty body)"@
        }),
{
    let told = plain_error(status, path, body);
    let head = "HTTP "@ + status + " from "@ + path;
    let tail = told.skip(head.len() as int);
    assert(told.take(head.len() as int) =~= head);
    lemma_head(status, path, tail);
    assert(told =~= head + tail);
}

proof fn lemma_head(status: Seq<char>, path: Seq<char>, tail: Seq<char>)
    ensures
        has_part("HTTP "@ + status + " from "@ + path + tail, status),
        has_part("HTTP "@ + status + " from "@ + path + tail, path),
{
    let s = "HTTP "@ + status + " from "@ + path + tail;
    lemma_part_behind("HTTP "@, status, " from "@ + path + tail);
    assert(s =~= "HTTP "@ + status + (" from "@ + path + tail));
    lemma_part_behind("HTTP "@ + status + " from "@, path, tail);
}

/// A refusal in JSON tells the status, the path, the code where there is one,
/// the message or that there is none, the details that are not null, and the
/// remedy for the code.
pub proof fn law_refusals_tell_the_answer(status: Seq<char>, path: Seq<char>, v: JsonView)
    ensures
        ({
            let told = rich_error(status, path, v);
            let head = "HTTP "@ + status + " from "@ + path;
            let code = match field(v, "code"@) {
                Some(JsonView::Str(c)) => Some(c),
                _ => None,
            };
            let message = match field(v, "message"@) {
                Some(JsonView::Str(m)) => m,
                _ => "(no message)"@,
            };
            let first = head + (match code {
                Some(c) => " ["@ + c + "]"@,
                None => Seq::empty(),
            }) + ": "@ + message;
            let details = match field(v, "details"@) {
                Some(d) => if d is Null {
                    Seq::empty()
                } else {
                    "\n  details: "@ + text_of_json(d)
                },
                None => Seq::empty(),
            };
            let remedy = match code {
                Some(c) => match hint_for(c) {
                    Some(h) => "\n  "@ + h,
                    None => Seq::empty(),
                },
                None => Seq::empty(),
            };
            &&& told == first + details + remedy
            &&& has_part(told, status)
            &&& has_part(told, path)
        }),
{
    let told = rich_error(status, path, v);
    let head = "HTTP "@ + status + " from "@ + path;
    let code = str_field(v, "code"@);
    let message = match field(v, "message"@) {
        Some(JsonView::Str(m)) => m,
        _ => "(no message)"@,
    };
    let first = head + (match code {
        Some(c) => " ["@ + c + "]"@,
        None => Seq::empty(),
    }) + ": "@ + message;
    let details = match field(v, "details"@) {
        Some(d) => if d is Null {
            Seq::empty()
        } else {
            "\n  details: "@ + text_of_json(d)
        },
        None => Seq::empty(),
    };
    let remedy = match code {
        Some(c) => match hint_for(c) {
            Some(h) => "\n  "@ + h,
            None => Seq::empty(),
        },
        None => Seq::empty(),
    };
    reveal_strlit("]: ");
    reveal_strlit("]");
    reveal_strlit(": ");
    assert("]: "@ =~= "]"@ + ": "@);
    match code {
        Some(c) => {
            assert(first =~= head + " ["@ + c + "]: "@ + message);
        },
        None => {
            assert(first =~= head + ": "@ + message);
        },
    }
    assert(told =~= first + details + remedy);
    let tail = told.skip(head.len() as int);
    assert(told =~= head + tail);
    lemma_head(status, path, tail);
}

/// Each code has the remedy that fits it: a login, a role, the format of a name,
/// the fields of a request, another version, another try. Any other code has
/// none.
pub proof fn law_remedies(code: Seq<char>)
    ensures
        hint_for("unauthenticated"@) matches Some(h) && has_part(h, "bbcli login"@),
        hint_for("permission_denied"@) matches Some(h) && has_part(
            h,
            "bbcli skill grant-permission"@,
        ),
        hint_for("not_found"@) matches Some(h) && has_part(h, "bbcli search"@),
        hint_for("invalid_argument"@) matches Some(h) && has_part(
            h,
            "bbcli search --operation-id"@,
        ),
        hint_for("unimplemented"@) matches Some(h) && has_part(h, "bbcli --version"@),
        hint_for("unavailable"@) matches Some(h) && has_part(h, "retrying may work"@),
        hint_for("deadline_exceeded"@) == hint_for("unavailable"@),
        hint_for(code) is Some ==> code == "unauthenticated"@ || code == "permission_denied"@
            || code == "not_found"@ || code == "invalid_argument"@ || code == "unimplemented"@
            || code == "unavailable"@ || code == "deadline_exceeded"@,
{
    lemma_codes();
    reveal_strlit("credentials are not usable: run `bbcli login` again");
    reveal_strlit("bbcli login");
    lemma_literal_part(
        "credentials are not usable: run `bbcli login` again"@,
        "bbcli login"@,
        33,
    );
    reveal_strlit("the account lacks the required role: see `bbcli skill grant-permission`");
    reveal_strlit("bbcli skill grant-permission");
    lemma_literal_part(
        "the account lacks the required role: see `bbcli skill grant-permission`"@,
        "bbcli skill grant-permission"@,
        42,
    );
    reveal_strlit("the resource name does not exist — check its format with `bbcli search`");
    reveal_strlit("bbcli search");
    lemma_literal_part(
        "the resource name does not exist — check its format with `bbcli search`"@,
        "bbcli search"@,
        58,
    );
    lemma_remedies_for_requests();
}

proof fn lemma_remedies_for_requests()
    ensures
        has_part(
            "the request fields are wrong: re-check with `bbcli search --operation-id <S/M>`"@,
            "bbcli search --operation-id"@,
        ),
        has_part(
            "this server does not serve that method; the embedded catalog may be newer or older than the server (see `bbcli --version`)"@,
            "bbcli --version"@,
        ),
        has_part(
            "transient server-side failure: retrying may work"@,
            "retrying may work"@,
        ),
{
    reveal_strlit("the request fields are wrong: re-check with `bbcli search --operation-id <S/M>`");
    reveal_strlit("bbcli search --operation-id");
    lemma_literal_part(
        "the request fields are wrong: re-check with `bbcli search --operation-id <S/M>`"@,
        "bbcli search --operation-id"@,
        45,
    );
    reveal_strlit(
        "this server does not serve that method; the embedded catalog may be newer or older than the server (see `bbcli --version`)",
    );
    reveal_strlit("bbcli --version");
    lemma_literal_part(
        "this server does not serve that method; the embedded catalog may be newer or older than the server (see `bbcli --version`)"@,
        "bbcli --version"@,
        105,
    );
    reveal_strlit("transient server-side failure: retrying may work");
    reveal_strlit("retrying may work");
    lemma_literal_part(
        "transient server-side failure: retrying may work"@,
        "retrying may work"@,
        31,
    );
}

proof fn lemma_literal_part(s: Seq<char>, part: Seq<char>, at: int)
    requires
        0 <= at,
        at + part.len() <= s.len(),
        forall|i: int| 0 <= i < part.len() ==> s[at + i] == #[trigger] part[i],
    ensures
        has_part(s, part),
{
    assert(s.subrange(at, at + part.len()) =~= part);
    assert(stands_at(s, part, at));
}

proof fn lemma_codes()
    ensures
        "unauthenticated"@.len() == 15 && "permission_denied"@.len() == 17 && "not_found"@.len()
            == 9,
        "invalid_argument"@.len() == 16 && "unimplemented"@.len() == 13 && "unavailable"@.len()
            == 11,
        "deadline_exceeded"@.len() == 17 && "deadline_exceeded"@[0] == 'd',
        "permission_denied"@[0] == 'p',
{
    reveal_strlit("unauthenticated");
    reveal_strlit("permission_denied");
    reveal_strlit("not_found");
    reveal_strlit("invalid_argument");
    reveal_strlit("unimplemented");
    reveal_strlit("unavailable");
    reveal_strlit("deadline_exceeded");
}

// ---- the course of a call ----

/// A call goes its way: the token is looked at, the request is sent, and the
/// body of what came back decides. A first 401 has the token renewed and the
/// request sent once more; every other status, and a second 401, is the answer's.
pub proof fn law_course_of_a_call(e: ExchangeView, status: int, words: Seq<char>, body: Seq<char>)
    ensures
        e.stage is Fresh ==> next_exchange(e, ExchangeEventView::Ready) == (
        ExchangeStageView::Send { retried: false }),
        e.stage is Renew ==> next_exchange(e, ExchangeEventView::Ready) == (
        ExchangeStageView::Send { retried: true }),
        e.stage == (ExchangeStageView::Send { retried: false }) && status == 401 ==> next_exchange(
            e,
            ExchangeEventView::Status(status, words),
        ) is Renew,
        e.stage == (ExchangeStageView::Send { retried: false }) && status != 401 ==> next_exchange(
            e,
            ExchangeEventView::Status(status, words),
        ) == (ExchangeStageView::Body { status, text: words }),
        e.stage == (ExchangeStageView::Send { retried: true }) ==> next_exchange(
            e,
            ExchangeEventView::Status(status, words),
        ) == (ExchangeStageView::Body { status, text: words }),
        e.stage == (ExchangeStageView::Body { status, text: words }) ==> next_exchange(
            e,
            ExchangeEventView::Body(body),
        ) == ExchangeStageView::Done(
            answer_of(status, words, e.path, body, json_of_text(body)),
        ),
{
}

/// A token is refreshed from two minutes before its end on, and before that only
/// where it is forced. What another process has stored is gone by, and what is
/// held only where nothing is stored.
pub proof fn law_refresh_in_time(
    tokens: Map<Seq<char>, CredentialsView>,
    key: Seq<char>,
    held: CredentialsView,
    force: bool,
    now: int,
)
    ensures
        ({
            let current = if tokens.contains_key(key) {
                tokens[key]
            } else {
                held
            };
            &&& is_stale(current.expires_at, now) <==> current.expires_at < now + 120
            &&& plan_for(tokens, key, held, force, now) == (if force || current.expires_at < now
                + 120 {
                RefreshPlanView::Refresh(current)
            } else {
                RefreshPlanView::Adopt(current)
            })
        }),
{
}

/// White space around a method counts for nothing, and a refusal names what was
/// refused.
pub proof fn law_methods_are_trimmed(a: Seq<char>, b: Seq<char>)
    ensures
        trim_both(a) == trim_both(b) ==> method_parts(a) == method_parts(b),
        has_part(method_refusal(a), quoted_text(a)),
{
    lemma_part_behind(
        "method must look like Service/Method, e.g. SQLService/Query (got "@,
        quoted_text(a),
        ")"@,
    );
}

} // verus!
