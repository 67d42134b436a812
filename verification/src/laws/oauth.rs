//! Laws of a login: the redirect, the tokens and the requests.

use vstd::prelude::*;
use vstd::utf8::encode_utf8;

use crate::codec::{base64_bytes, law_base64_reads_back, sha256_of};
use crate::json::{
    field, items_of, lemma_member_push, member, no_members, str_field, texts_view, JsonView,
};
use crate::laws::texts::law_lines;
use crate::numbers::decimal;
use crate::oauth::{
    authorize_fields, callback_of, challenge_for, endpoint, first_byte, form_len, granted, has_room,
    head_done, last_value, lemma_first_byte, local_url, page, paste_note, paste_of, redirect_to, registration_members, response,
    response_to, target_of, url_parts, wait_after, wait_after_paste, CallbackView,
    TokenResponse, TokenResponseView, UrlParts, UrlPartsView, WaitView,
};
use crate::text::{
    has_part, has_prefix, is_blank, is_white_space, lemma_part_behind, line_seq, pieces, trim_both,
    words,
};

verus! {

// ---- the redirect ----

/// Of the fields with one key the last counts, and there is none only where no
/// field has the key.
pub proof fn law_last_field_counts(fields: Seq<(Seq<char>, Seq<char>)>, key: Seq<char>)
    ensures
        match last_value(fields, key) {
            Some(v) => exists|i: int|
                0 <= i < fields.len() && #[trigger] fields[i] == (key, v) && forall|j: int|
                    i < j < fields.len() ==> (#[trigger] fields[j]).0 != key,
            None => forall|i: int| 0 <= i < fields.len() ==> (#[trigger] fields[i]).0 != key,
        },
    decreases fields.len(),
{
    if fields.len() > 0 {
        let front = fields.drop_last();
        if fields.last().0 == key {
            assert(fields[fields.len() - 1] == (key, fields.last().1));
        } else {
            law_last_field_counts(front, key);
            match last_value(front, key) {
                Some(v) => {
                    let i = choose|i: int|
                        0 <= i < front.len() && #[trigger] front[i] == (key, v) && forall|j: int|
                            i < j < front.len() ==> (#[trigger] front[j]).0 != key;
                    assert(fields[i] == (key, v));
                    assert forall|j: int| i < j < fields.len() implies (#[trigger] fields[j]).0
                        != key by {
                        if j < front.len() {
                            assert(front[j] == fields[j]);
                        }
                    }
                },
                None => {
                    assert forall|i: int| 0 <= i < fields.len() implies (#[trigger] fields[i]).0
                        != key by {
                        if i < front.len() {
                            assert(front[i] == fields[i]);
                        }
                    }
                },
            }
        }
    }
}

/// What a redirect leads to. Another path is none and is waited past. An error
/// ends the login with its words, before anything else is looked at; then a
/// state that is not the login's own; then the lack of a code. Only what is left
/// brings the code.
pub proof fn law_redirects(parts: UrlPartsView, why: Seq<char>, state: Seq<char>)
    ensures
        ({
            let wait = wait_after(callback_of(Ok(parts), state));
            let error = last_value(parts.query, "error"@);
            let code = last_value(parts.query, "code"@);
            if parts.path != "/callback"@ {
                wait is Continue
            } else if error is Some {
                wait matches WaitView::Fail(told) && has_part(told, error->0) && (last_value(
                    parts.query,
                    "error_description"@,
                ) matches Some(d) ==> has_part(told, d))
            } else if last_value(parts.query, "state"@) != Some(state) {
                wait == WaitView::Fail("OAuth2 state mismatch on callback"@)
            } else if code is None {
                wait == WaitView::Fail("callback carried no authorization code"@)
            } else {
                wait == WaitView::Code(code->0)
            }
        }),
        wait_after(callback_of(Err(why), state)) is Continue,
{
    if last_value(parts.query, "error"@) is Some {
        let e = last_value(parts.query, "error"@)->0;
        let none = Seq::<char>::empty();
        match last_value(parts.query, "error_description"@) {
            Some(d) => {
                let told = "authorization failed: "@ + e + ": "@ + d;
                lemma_part_behind("authorization failed: "@, e, ": "@ + d);
                assert(told =~= "authorization failed: "@ + e + (": "@ + d));
                lemma_part_behind("authorization failed: "@ + e + ": "@, d, none);
                assert(told =~= "authorization failed: "@ + e + ": "@ + d + none);
            },
            None => {
                lemma_part_behind("authorization failed: "@, e, none);
                assert("authorization failed: "@ + e + none =~= "authorization failed: "@ + e);
            },
        }
    }
}

/// The browser is told what came of its request: a page with its title, under a
/// status that says whether it was fine, and as long as it says.
pub proof fn law_browser_is_answered(c: CallbackView, status: Seq<char>, title: Seq<char>, body: Seq<char>)
    ensures
        has_prefix(
            response_to(c),
            match c {
                CallbackView::NotFound => "HTTP/1.1 404 Not Found\r\n"@,
                CallbackView::Denied(_, _) => "HTTP/1.1 200 OK\r\n"@,
                CallbackView::Code(_) => "HTTP/1.1 200 OK\r\n"@,
                _ => "HTTP/1.1 400 Bad Request\r\n"@,
            },
        ),
        c matches CallbackView::Denied(e, _) ==> has_part(response_to(c), e),
        has_part(
            response(status, title, body),
            "Content-Length: "@ + decimal(encode_utf8(page(title, body)).len()) + "\r\n"@,
        ),
        has_part(page(title, body), title),
        has_part(page(title, body), body),
        response(status, title, body).skip(
            response(status, title, body).len() - page(title, body).len(),
        ) == page(title, body),
{
    lemma_status_lines(c);
    lemma_page(title, body);
    lemma_length(status, title, body);
    if c is Denied {
        let e = c->Denied_0;
        let p = page("Authorization failed"@, e);
        lemma_page("Authorization failed"@, e);
        lemma_length("200 OK"@, "Authorization failed"@, e);
        let r = response("200 OK"@, "Authorization failed"@, e);
        let head = r.take(r.len() - p.len());
        assert(r =~= head + p + Seq::<char>::empty());
        crate::text::lemma_part_stays(head, p, Seq::empty(), e);
    }
}

proof fn lemma_page(title: Seq<char>, body: Seq<char>)
    ensures
        has_part(page(title, body), title),
        has_part(page(title, body), body),
{
    let a = "<!DOCTYPE html><html><head><title>"@;
    let b =
        "</title></head><body style=\"font-family:sans-serif;text-align:center;padding:3em\"><h2>"@;
    let c = "</h2><p>"@;
    let d = "</p></body></html>"@;
    let p = page(title, body);
    lemma_part_behind(a, title, b + title + c + body + d);
    assert(p =~= a + title + (b + title + c + body + d));
    lemma_part_behind(a + title + b + title + c, body, d);
}

proof fn lemma_length(status: Seq<char>, title: Seq<char>, body: Seq<char>)
    ensures
        has_part(
            response(status, title, body),
            "Content-Length: "@ + decimal(encode_utf8(page(title, body)).len()) + "\r\n"@,
        ),
        response(status, title, body).len() >= page(title, body).len(),
        response(status, title, body).skip(
            response(status, title, body).len() - page(title, body).len(),
        ) == page(title, body),
{
    let n = decimal(encode_utf8(page(title, body)).len());
    let r = response(status, title, body);
    let p = page(title, body);
    reveal_strlit("\r\nContent-Type: text/html; charset=utf-8\r\nContent-Length: ");
    reveal_strlit("\r\nContent-Type: text/html; charset=utf-8\r\n");
    reveal_strlit("Content-Length: ");
    reveal_strlit("\r\nConnection: close\r\n\r\n");
    reveal_strlit("\r\n");
    reveal_strlit("Connection: close\r\n\r\n");
    assert("\r\nContent-Type: text/html; charset=utf-8\r\nContent-Length: "@
        =~= "\r\nContent-Type: text/html; charset=utf-8\r\n"@ + "Content-Length: "@);
    assert("\r\nConnection: close\r\n\r\n"@ =~= "\r\n"@ + "Connection: close\r\n\r\n"@);
    let part = "Content-Length: "@ + n + "\r\n"@;
    let before = "HTTP/1.1 "@ + status + "\r\nContent-Type: text/html; charset=utf-8\r\n"@;
    let behind = "Connection: close\r\n\r\n"@ + p;
    assert(r =~= before + part + behind);
    lemma_part_behind(before, part, behind);
    assert(r.skip(r.len() - p.len()) =~= p);
}

proof fn lemma_status_lines(c: CallbackView)
    ensures
        has_prefix(
            response_to(c),
            match c {
                CallbackView::NotFound => "HTTP/1.1 404 Not Found\r\n"@,
                CallbackView::Denied(_, _) => "HTTP/1.1 200 OK\r\n"@,
                CallbackView::Code(_) => "HTTP/1.1 200 OK\r\n"@,
                _ => "HTTP/1.1 400 Bad Request\r\n"@,
            },
        ),
{
    reveal_strlit("HTTP/1.1 ");
    reveal_strlit("404 Not Found");
    reveal_strlit("200 OK");
    reveal_strlit("400 Bad Request");
    reveal_strlit("HTTP/1.1 404 Not Found\r\n");
    reveal_strlit("HTTP/1.1 200 OK\r\n");
    reveal_strlit("HTTP/1.1 400 Bad Request\r\n");
    reveal_strlit("\r\nContent-Type: text/html; charset=utf-8\r\nContent-Length: ");
    let r = response_to(c);
    match c {
        CallbackView::NotFound => {
            let p = "HTTP/1.1 404 Not Found\r\n"@;
            assert(r.take(p.len() as int) =~= p);
        },
        CallbackView::Denied(_, _) => {
            let p = "HTTP/1.1 200 OK\r\n"@;
            assert(r.take(p.len() as int) =~= p);
        },
        CallbackView::Code(_) => {
            let p = "HTTP/1.1 200 OK\r\n"@;
            assert(r.take(p.len() as int) =~= p);
        },
        _ => {
            let p = "HTTP/1.1 400 Bad Request\r\n"@;
            assert(r.take(p.len() as int) =~= p);
        },
    }
}

/// Whether a text holds no white space.
pub open spec fn solid(s: Seq<char>) -> bool {
    forall|i: int| 0 <= i < s.len() ==> !is_white_space(#[trigger] s[i])
}

proof fn lemma_one_word(s: Seq<char>)
    requires
        solid(s),
    ensures
        pieces(s, is_blank()) == seq![s],
    decreases s.len(),
{
    if s.len() > 0 {
        let front = s.drop_last();
        assert forall|i: int| 0 <= i < front.len() implies !is_white_space(#[trigger] front[i]) by {
            assert(front[i] == s[i]);
        }
        lemma_one_word(front);
        assert(!is_white_space(s[s.len() - 1]));
        assert(front.push(s.last()) =~= s);
        assert(pieces(s, is_blank()) =~= seq![s]);
    } else {
        assert(s =~= Seq::<char>::empty());
        assert(pieces(s, is_blank()) =~= seq![s]);
    }
}

proof fn lemma_word_behind(head: Seq<char>, rest: Seq<char>)
    requires
        solid(head),
    ensures
        pieces(head + seq![' '] + rest, is_blank()) == seq![head] + pieces(rest, is_blank()),
        pieces(rest, is_blank()).len() > 0,
    decreases rest.len(),
{
    let s = head + seq![' '] + rest;
    if rest.len() == 0 {
        lemma_one_word(head);
        assert(s.drop_last() =~= head);
        assert(s.last() == ' ');
        assert(rest =~= Seq::<char>::empty());
        assert(pieces(s, is_blank()) =~= seq![head] + pieces(rest, is_blank()));
    } else {
        let front = rest.drop_last();
        lemma_word_behind(head, front);
        assert(s.drop_last() =~= head + seq![' '] + front);
        assert(s.last() == rest.last());
        let before = pieces(front, is_blank());
        let all = seq![head] + before;
        assert(all.last() == before.last());
        assert(all.drop_last() =~= seq![head] + before.drop_last());
        assert(pieces(s, is_blank()) =~= seq![head] + pieces(rest, is_blank()));
    }
}

/// The target of a request is what stands between the method and the version in
/// its first line, whatever headers follow.
pub proof fn law_request_targets(
    method: Seq<char>,
    target: Seq<char>,
    version: Seq<char>,
    headers: Seq<char>,
)
    requires
        method.len() > 0 && target.len() > 0 && version.len() > 0,
        solid(method) && solid(target) && solid(version),
    ensures
        target_of(
            method + seq![' '] + target + seq![' '] + version + seq!['\r', '\n'] + headers,
        ) == target,
{
    let line = method + seq![' '] + target + seq![' '] + version;
    let head = line + seq!['\r', '\n'] + headers;
    assert(!line.contains('\n')) by {
        if line.contains('\n') {
            let k = choose|k: int| 0 <= k < line.len() && line[k] == '\n';
            assert(is_white_space('\n'));
            if k < method.len() {
                assert(method[k] == '\n');
            } else if method.len() < k < method.len() + 1 + target.len() {
                assert(target[k - method.len() - 1] == '\n');
            } else if k > method.len() + 1 + target.len() {
                assert(version[k - method.len() - target.len() - 2] == '\n');
            }
        }
    }
    assert(line.last() == version[version.len() - 1]);
    assert(is_white_space('\r'));
    law_lines(line, headers);
    assert(method + seq![' '] + target + seq![' '] + version + seq!['\r', '\n'] + headers =~= line
        + seq!['\r', '\n'] + headers);
    assert(line_seq(head)[0] == line);
    let tail = target + seq![' '] + version;
    assert(line =~= method + seq![' '] + tail);
    lemma_word_behind(method, tail);
    lemma_word_behind(target, version);
    lemma_one_word(version);
    let all = seq![method, target, version];
    assert(pieces(line, is_blank()) =~= all);
    let p = |w: Seq<char>| w.len() > 0;
    reveal_with_fuel(Seq::filter, 4);
    assert(all.drop_last() =~= seq![method, target]);
    assert(all.drop_last().drop_last() =~= seq![method]);
    assert(all.drop_last().drop_last().drop_last() =~= Seq::<Seq<char>>::empty());
    assert(all.filter(p) =~= all);
    assert(words(line) =~= all);
}

/// A pasted line is the redirect exactly where it begins with its address, with
/// white space around it or not; what follows the address is judged as the
/// browser's request would be.
pub proof fn law_pasted_lines(line: Seq<char>, uri: Seq<char>, state: Seq<char>)
    ensures
        paste_of(line, uri, state) is Some <==> has_prefix(trim_both(line), uri),
        has_prefix(trim_both(line), uri) ==> paste_of(line, uri, state) == Some(
            callback_of(
                url_parts(
                    "http://localhost"@ + ("/callback"@ + trim_both(line).skip(uri.len() as int)),
                ),
                state,
            ),
        ),
        trim_both(line).len() == 0 ==> wait_after_paste(line, uri, state).0 is None,
        wait_after_paste(line, uri, state).0 is Some ==> wait_after_paste(
            line,
            uri,
            state,
        ).1 is Continue && has_part(wait_after_paste(line, uri, state).0->0, uri),
        wait_after_paste(line, uri, state).1 matches WaitView::Code(_) ==> has_prefix(
            trim_both(line),
            uri,
        ),
{
    let none = Seq::<char>::empty();
    let head = "that is not the redirect address: paste the whole URL, which begins with "@;
    lemma_part_behind(head, uri, none);
    assert(paste_note(uri) =~= head + uri + none);
}

/// The bytes of a blank line behind another line.
pub open spec fn blank_line() -> Seq<u8> {
    seq![13u8, 10u8, 13u8, 10u8]
}

/// The head of a request is complete with the blank line that ends it, and is
/// not waited for beyond sixty-four kilobytes.
pub proof fn law_heads(before: Seq<u8>, behind: Seq<u8>, buf: Seq<u8>)
    ensures
        head_done(before + blank_line() + behind),
        buf.len() > 65536 ==> head_done(buf),
        head_done(buf) && buf.len() <= 65536 ==> exists|a: Seq<u8>, b: Seq<u8>|
            buf == #[trigger] (a + blank_line() + b),
{
    let s = before + blank_line() + behind;
    let at = before.len() as int;
    assert(s[at] == 13 && s[at + 1] == 10 && s[at + 2] == 13 && s[at + 3] == 10);
    assert(crate::oauth::head_ends_at(s, at));
    if head_done(buf) && buf.len() <= 65536 {
        let i = choose|i: int| crate::oauth::head_ends_at(buf, i);
        assert(buf =~= buf.take(i) + blank_line() + buf.skip(i + 4));
    }
}

// ---- tokens ----

/// A token ends when its time is over, counted from now, and a refresh token
/// after thirty days; the client and the token are those that were granted. A
/// first login without a refresh token is refused.
pub proof fn law_grants(
    client: Seq<char>,
    before: Option<Seq<char>>,
    resp: TokenResponseView,
    now: int,
)
    ensures
        granted(client, before, resp, now) is None <==> resp.refresh_token is None && before is None,
        granted(client, before, resp, now) matches Some(c) ==> {
            &&& c.client_id == client
            &&& c.access_token == resp.access_token
            &&& c.expires_at - now == resp.expires_in
            &&& c.refresh_expires_at - now == 30 * 24 * 60 * 60
            &&& resp.refresh_token is Some ==> c.refresh_token == resp.refresh_token->0
            &&& resp.refresh_token is None ==> c.refresh_token == before->0
        },
{
}

/// The challenge reads back as the digest of the verifier.
pub proof fn law_challenge_is_the_digest(verifier: Seq<char>)
    ensures
        base64_bytes(challenge_for(verifier), true) == sha256_of(encode_utf8(verifier)),
{
    law_base64_reads_back(sha256_of(encode_utf8(verifier)), true);
}

// ---- requests ----

/// An authorization asks for a code, for this client and this redirect, under
/// this state, and proves itself by the challenge.
pub proof fn law_authorization_fields(
    client: Seq<char>,
    redirect: Seq<char>,
    state: Seq<char>,
    challenge: Seq<char>,
)
    ensures
        ({
            let f = authorize_fields(client, redirect, state, challenge);
            &&& f.len() == 6
            &&& f.contains(("response_type"@, "code"@))
            &&& f.contains(("client_id"@, client))
            &&& f.contains(("redirect_uri"@, redirect))
            &&& f.contains(("state"@, state))
            &&& f.contains(("code_challenge"@, challenge))
            &&& f.contains(("code_challenge_method"@, "S256"@))
        }),
{
    let f = authorize_fields(client, redirect, state, challenge);
    assert(f[0] == ("response_type"@, "code"@));
    assert(f[1] == ("client_id"@, client));
    assert(f[2] == ("redirect_uri"@, redirect));
    assert(f[3] == ("state"@, state));
    assert(f[4] == ("code_challenge"@, challenge));
    assert(f[5] == ("code_challenge_method"@, "S256"@));
}

/// The registration is that of a public client for the one redirect, which may
/// exchange a code and refresh its token.
pub proof fn law_registration(redirect: Seq<char>)
    ensures
        ({
            let j = JsonView::Object(registration_members(redirect));
            let grants = items_of(field(j, "grant_types"@));
            &&& str_field(j, "client_name"@) == Some("bbcli"@)
            &&& items_of(field(j, "redirect_uris"@)) == seq![JsonView::Str(redirect)]
            &&& grants.contains(JsonView::Str("authorization_code"@))
            &&& grants.contains(JsonView::Str("refresh_token"@))
            &&& grants.len() == 2
            &&& str_field(j, "token_endpoint_auth_method"@) == Some("none"@)
        }),
{
    reveal_strlit("client_name");
    reveal_strlit("redirect_uris");
    reveal_strlit("grant_types");
    reveal_strlit("token_endpoint_auth_method");
    assert("client_name"@.len() == 11 && "redirect_uris"@.len() == 13 && "grant_types"@.len() == 11
        && "token_endpoint_auth_method"@.len() == 26);
    assert("client_name"@[0] == 'c' && "grant_types"@[0] == 'g');
    let uris = texts_view(seq![redirect]);
    let grants = texts_view(seq!["authorization_code"@, "refresh_token"@]);
    let m0 = no_members();
    let m1 = m0.push(("client_name"@, JsonView::Str("bbcli"@)));
    let m2 = m1.push(("redirect_uris"@, uris));
    let m3 = m2.push(("grant_types"@, grants));
    let all = m3.push(("token_endpoint_auth_method"@, JsonView::Str("none"@)));
    assert forall|key: Seq<char>| #[trigger]
        member(all, key) == (if key == "client_name"@ {
        Some(JsonView::Str("bbcli"@))
    } else if key == "redirect_uris"@ {
        Some(uris)
    } else if key == "grant_types"@ {
        Some(grants)
    } else if key == "token_endpoint_auth_method"@ {
        Some(JsonView::Str("none"@))
    } else {
        None
    }) by {
        lemma_member_push(m0, m1.last(), key);
        lemma_member_push(m1, m2.last(), key);
        lemma_member_push(m2, m3.last(), key);
        lemma_member_push(m3, all.last(), key);
    }
    assert(registration_members(redirect) == all);
    assert(uris->Array_0 =~= seq![JsonView::Str(redirect)]);
    assert(grants->Array_0[0] == JsonView::Str("authorization_code"@));
    assert(grants->Array_0[1] == JsonView::Str("refresh_token"@));
}

/// The redirect leads to this machine, to the port of the listener and to the
/// callback; an endpoint stands under the server's address.
pub proof fn law_addresses(port: nat, server: Seq<char>, name: Seq<char>)
    ensures
        has_prefix(redirect_to(port), "http://127.0.0.1:"@ + decimal(port)),
        redirect_to(port).skip(("http://127.0.0.1:"@ + decimal(port)).len() as int) == "/callback"@,
        has_prefix(endpoint(server, name), server + "/api/oauth2/"@),
        endpoint(server, name).skip((server + "/api/oauth2/"@).len() as int) == name,
        local_url(name).skip("http://localhost"@.len() as int) == name,
        has_prefix(local_url(name), "http://localhost"@),
{
    let h = "http://127.0.0.1:"@ + decimal(port);
    assert(redirect_to(port).take(h.len() as int) =~= h);
    assert(redirect_to(port).skip(h.len() as int) =~= "/callback"@);
    let e = server + "/api/oauth2/"@;
    assert(endpoint(server, name).take(e.len() as int) =~= e);
    assert(endpoint(server, name).skip(e.len() as int) =~= name);
    let l = "http://localhost"@;
    assert(local_url(name).take(l.len() as int) =~= l);
    assert(local_url(name).skip(l.len() as int) =~= name);
}

/// A first line with fewer than two words has no target.
pub proof fn law_no_target(word: Seq<char>)
    requires
        solid(word),
    ensures
        target_of(word).len() == 0,
{
    lemma_one_word(word);
    if word.len() > 0 {
        assert(!word.contains('\n')) by {
            if word.contains('\n') {
                let k = choose|k: int| 0 <= k < word.len() && word[k] == '\n';
                assert(is_white_space(word[k]));
            }
        }
        assert(!is_white_space(word[word.len() - 1]));
        assert(is_white_space('\r'));
        law_lines(word, Seq::empty());
        seq![word].lemma_filter_len(|w: Seq<char>| w.len() > 0);
        assert(line_seq(word)[0] == word);
        assert(words(word).len() <= 1);
    } else {
        law_lines(seq!['x'], Seq::empty());
        assert(word =~= Seq::<char>::empty());
    }
}

/// What a token endpoint and an address say is taken as they say it.
pub proof fn law_answers_are_read_as_given(t: TokenResponse, u: UrlParts, k: int)
    ensures
        t@.access_token == t.access_token@ && t@.expires_in == t.expires_in,
        t@.refresh_token == match t.refresh_token {
            Some(s) => Some(s@),
            None => None,
        },
        u@.text == u.text@ && u@.path == u.path@ && u@.query.len() == u.query@.len(),
        0 <= k < u.query@.len() ==> u@.query[k] == (u.query@[k].0@, u.query@[k].1@),
{
}

/// An address has room for any fields where it is no longer than its places can
/// tell and has no fragment; one that is longer, and has no query to put them
/// in, has not.
pub proof fn law_room_for_fields(url: Seq<char>, fields: Seq<(Seq<char>, Seq<char>)>)
    requires
        forall|i: int| 0 <= i < encode_utf8(url).len() ==> #[trigger] encode_utf8(url)[i] != 35,
    ensures
        encode_utf8(url).len() <= u32::MAX ==> has_room(url, fields),
        encode_utf8(url).len() > u32::MAX && (forall|i: int|
            0 <= i < encode_utf8(url).len() ==> #[trigger] encode_utf8(url)[i] != 63) ==> !has_room(
            url,
            fields,
        ),
{
    let all = encode_utf8(url);
    lemma_first_byte(all, 35, all.len() as int);
    assert(all.take(all.len() as int) =~= all);
    lemma_first_byte_bound(all, 63);
    if forall|i: int| 0 <= i < all.len() ==> #[trigger] all[i] != 63 {
        lemma_first_byte(all, 63, all.len() as int);
    }
}

proof fn lemma_first_byte_bound(bytes: Seq<u8>, b: u8)
    ensures
        first_byte(bytes, b) <= bytes.len(),
    decreases bytes.len(),
{
    if bytes.len() > 0 && bytes[0] != b {
        lemma_first_byte_bound(bytes.skip(1), b);
    }
}

/// In a form a text takes at least as many bytes as it has, and at most three
/// times as many; letters and digits take one each.
pub proof fn law_form_sizes(bytes: Seq<u8>)
    ensures
        bytes.len() <= form_len(bytes) <= 3 * bytes.len(),
        (forall|i: int|
            0 <= i < bytes.len() ==> 97 <= #[trigger] bytes[i] <= 122 || 48 <= bytes[i] <= 57)
            ==> form_len(bytes) == bytes.len(),
        (forall|i: int| 0 <= i < bytes.len() ==> #[trigger] bytes[i] >= 128) ==> form_len(bytes) == 3
            * bytes.len(),
    decreases bytes.len(),
{
    if bytes.len() > 0 {
        let front = bytes.drop_last();
        law_form_sizes(front);
        let last = bytes[bytes.len() - 1];
        if forall|i: int|
            0 <= i < bytes.len() ==> 97 <= #[trigger] bytes[i] <= 122 || 48 <= bytes[i] <= 57 {
            assert forall|i: int| 0 <= i < front.len() implies 97 <= #[trigger] front[i] <= 122 || 48
                <= front[i] <= 57 by {
                assert(front[i] == bytes[i]);
            }
            assert(97 <= last <= 122 || 48 <= last <= 57);
        }
        if forall|i: int| 0 <= i < bytes.len() ==> #[trigger] bytes[i] >= 128 {
            assert forall|i: int| 0 <= i < front.len() implies #[trigger] front[i] >= 128 by {
                assert(front[i] == bytes[i]);
            }
            assert(last >= 128);
        }
    }
}

} // verus!
