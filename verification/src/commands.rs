//! What the commands decide and tell: which server is meant, what is stored,
//! how long a token lasts, and the words around a login.

use vstd::prelude::*;
use vstd::string::StringExecFns;

use crate::json::{json_of_text, opt_view, str_field, Json};
use crate::keyed::key_list;
use crate::numbers::{decimal, i64_text, int_text, u64_text};
use crate::store::{
    default_server, default_server_from, resolve_alias, server_named, ConfigFile, ConfigFileView,
    CredentialsView, TokenFile,
};
use crate::text::{
    has_prefix, line_seq, lines, quoted, quoted_text, same_text, strip_prefix, trim, trim_both, views,
};

verus! {

// ---- which server ----

/// What a project's file says: its text without the white space around it, if
/// there is any.
pub fn project_line(text: &str) -> (r: Option<String>)
    ensures
        opt_view(r) == if trim_both(text@).len() > 0 {
            Some(trim_both(text@))
        } else {
            None
        },
{
    let s = trim(text);
    if s.is_empty() {
        None
    } else {
        Some(s.to_owned())
    }
}

/// The server that is meant, and where that comes from: what was said on the
/// command line or in the environment, else the project's file, else the active
/// context.
pub open spec fn picked(
    explicit: Option<Seq<char>>,
    from_env: bool,
    project: Option<Seq<char>>,
    cfg: ConfigFileView,
) -> Result<(Seq<char>, Seq<char>), Seq<char>> {
    if explicit is Some && trim_both(explicit->0).len() > 0 {
        Ok(
            (
                server_named(cfg, trim_both(explicit->0)),
                if from_env {
                    "env BBCLI_SERVER"@
                } else {
                    "--context flag"@
                },
            ),
        )
    } else {
        match project {
            Some(s) => if trim_both(s).len() > 0 {
                Ok((server_named(cfg, trim_both(s)), "project file (.bbcli)"@))
            } else {
                Err("empty server name"@)
            },
            None => match default_server(cfg) {
                Some(url) => Ok((url, "default (context "@ + cfg.current_context + ")"@)),
                None => Err(
                    "no server configured: pass --context (or set BBCLI_SERVER), or run `bbcli login --context <url>` first"@,
                ),
            },
        }
    }
}

/// A server and its source, or a refusal, by its texts.
pub open spec fn pick_view(r: Result<(String, String), String>) -> Result<
    (Seq<char>, Seq<char>),
    Seq<char>,
> {
    match r {
        Ok(p) => Ok((p.0@, p.1@)),
        Err(e) => Err(e@),
    }
}

/// The server that is meant, and where that comes from.
pub fn resolve_server(
    explicit: Option<&str>,
    from_env: bool,
    project: Option<&str>,
    config: &ConfigFile,
) -> (r: Result<(String, String), String>)
    ensures
        pick_view(r) == picked(opt_view(explicit), from_env, opt_view(project), config@),
{
    match explicit {
        Some(s) => {
            if !trim(s).is_empty() {
                let source: &str = if from_env {
                    "env BBCLI_SERVER"
                } else {
                    "--context flag"
                };
                return match resolve_alias(config, s) {
                    Ok(url) => Ok((url, source.to_owned())),
                    Err(e) => Err(e),
                };
            }
        },
        None => {},
    }
    match project {
        Some(s) => {
            return match resolve_alias(config, s) {
                Ok(url) => Ok((url, "project file (.bbcli)".to_owned())),
                Err(e) => Err(e),
            };
        },
        None => {},
    }
    match default_server_from(config) {
        Some(url) => {
            let mut source = "default (context ".to_owned();
            source.append(config.current_context.as_str());
            source.append(")");
            Ok((url, source))
        },
        None => Err(
            "no server configured: pass --context (or set BBCLI_SERVER), or run `bbcli login --context <url>` first".to_owned(),
        ),
    }
}

// ---- times ----

/// What an expired token means. An access token is refreshed at the next call;
/// a refresh token is the end of a login.
#[derive(Debug, Clone, Copy, PartialEq, Eq, Structural)]
pub enum Expired {
    Recoverable,
    Terminal,
}

/// How long a token lasts, in words: in the two largest units that it fills.
pub open spec fn remaining(secs: int, expired: Expired) -> Seq<char> {
    if secs <= 0 {
        match expired {
            Expired::Recoverable => "expired (refreshes automatically on next use)"@,
            Expired::Terminal => "expired — run `bbcli login` again"@,
        }
    } else {
        let d = secs / 86400;
        let h = secs % 86400 / 3600;
        let m = secs % 86400 % 3600 / 60;
        if d > 0 {
            "expires in "@ + decimal(d as nat) + "d "@ + decimal(h as nat) + "h"@
        } else if h > 0 {
            "expires in "@ + decimal(h as nat) + "h "@ + decimal(m as nat) + "m"@
        } else {
            "expires in "@ + decimal(m as nat) + "m"@
        }
    }
}

/// How long a token lasts that is not expired, in words.
fn lasting(secs: u64) -> (r: String)
    requires
        secs > 0,
    ensures
        r@ == remaining(secs as int, Expired::Terminal),
{
    let d: u64 = secs / 86400;
    let rest: u64 = secs % 86400;
    let h: u64 = rest / 3600;
    let m: u64 = rest % 3600 / 60;
    let mut s = "expires in ".to_owned();
    if d > 0 {
        s.append(u64_text(d).as_str());
        s.append("d ");
        s.append(u64_text(h).as_str());
        s.append("h");
    } else if h > 0 {
        s.append(u64_text(h).as_str());
        s.append("h ");
        s.append(u64_text(m).as_str());
        s.append("m");
    } else {
        s.append(u64_text(m).as_str());
        s.append("m");
    }
    s
}

/// How long a token lasts, in words.
pub fn fmt_remaining(secs: i64, expired: Expired) -> (r: String)
    ensures
        r@ == remaining(secs as int, expired),
{
    if secs <= 0 {
        return match expired {
            Expired::Recoverable => "expired (refreshes automatically on next use)".to_owned(),
            Expired::Terminal => "expired — run `bbcli login` again".to_owned(),
        };
    }
    lasting(secs as u64)
}

/// How long a token lasts from now on, in words.
fn fmt_until(at: i64, now: i64, expired: Expired) -> (r: String)
    ensures
        r@ == remaining(at - now, expired),
{
    let left: i128 = (at as i128) - (now as i128);
    if left <= 0 {
        return fmt_remaining(0, expired);
    }
    lasting(left as u64)
}

/// Seconds in whole minutes; what is left over is dropped.
pub open spec fn whole_minutes(secs: int) -> int {
    if secs >= 0 {
        secs / 60
    } else {
        -((-secs) / 60)
    }
}

/// Seconds in whole minutes.
fn minutes(secs: i64) -> (r: i64)
    ensures
        r == whole_minutes(secs as int),
{
    if secs >= 0 {
        secs / 60
    } else {
        let m: i128 = -(secs as i128);
        (-(m / 60)) as i64
    }
}

// ---- what is stored ----

/// The mark of the default server.
pub open spec fn default_mark(default: Option<Seq<char>>, key: Seq<char>) -> Seq<char> {
    if default == Some(key) {
        "  [default]"@
    } else {
        ""@
    }
}

/// The lines on the credentials of one server.
pub open spec fn credential_lines(
    key: Seq<char>,
    c: CredentialsView,
    default: Option<Seq<char>>,
    now: int,
) -> Seq<Seq<char>> {
    seq![
        key + default_mark(default, key),
        "  client_id:     "@ + c.client_id,
        "  access token:  "@ + remaining(c.expires_at - now, Expired::Recoverable),
        "  refresh token: "@ + remaining(c.refresh_expires_at - now, Expired::Terminal),
    ]
}

/// The lines on the credentials of the servers, one after the other.
pub open spec fn all_credential_lines(
    tokens: Map<Seq<char>, CredentialsView>,
    keys: Seq<Seq<char>>,
    default: Option<Seq<char>>,
    now: int,
) -> Seq<Seq<char>>
    decreases keys.len(),
{
    if keys.len() == 0 {
        Seq::empty()
    } else {
        all_credential_lines(tokens, keys.drop_last(), default, now) + credential_lines(
            keys.last(),
            tokens[keys.last()],
            default,
            now,
        )
    }
}

/// The lines of the status, given the servers in their order.
pub open spec fn status_lines(
    tokens: Map<Seq<char>, CredentialsView>,
    keys: Seq<Seq<char>>,
    cfg: ConfigFileView,
    now: int,
) -> Seq<Seq<char>> {
    if keys.len() == 0 {
        seq!["Not logged in to any server. Run `bbcli login --context <url>`."@]
    } else {
        all_credential_lines(tokens, keys, default_server(cfg), now)
    }
}

/// Whether the optional text is the given one.
fn is_text(v: &Option<String>, s: &str) -> (r: bool)
    ensures
        r == (opt_view(*v) == Some(s@)),
{
    match v {
        Some(x) => same_text(x.as_str(), s),
        None => false,
    }
}

/// A line more.
fn put_line(out: &mut Vec<String>, line: String)
    ensures
        views(final(out)@) == views(old(out)@).push(line@),
{
    proof {
        crate::text::lemma_views_push(out@, line);
    }
    out.push(line);
}

/// A line of two parts.
fn two(a: &str, b: &str) -> (r: String)
    ensures
        r@ == a@ + b@,
{
    let mut s = a.to_owned();
    s.append(b);
    s
}

/// The stored credentials and how long they last.
pub fn status(tokens: &TokenFile, config: &ConfigFile, now: i64) -> (r: Vec<String>)
    ensures
        exists|keys: Seq<Seq<char>>|
            key_list(tokens@, keys) && views(r@) == #[trigger] status_lines(
                tokens@,
                keys,
                config@,
                now as int,
            ),
{
    let keys = tokens.servers.keys();
    let ghost names = views(keys@);
    let mut out: Vec<String> = Vec::new();
    proof {
        assert(views(out@) =~= Seq::<Seq<char>>::empty());
    }
    if keys.len() == 0 {
        put_line(
            &mut out,
            "Not logged in to any server. Run `bbcli login --context <url>`.".to_owned(),
        );
        proof {
            assert(views(out@) =~= status_lines(tokens@, names, config@, now as int));
        }
        return out;
    }
    let default = default_server_from(config);
    let ghost d = opt_view(default);
    let mut i: usize = 0;
    proof {
        assert(names.take(0) =~= Seq::<Seq<char>>::empty());
    }
    while i < keys.len()
        invariant
            i <= keys@.len(),
            names == views(keys@),
            key_list(tokens@, names),
            d == opt_view(default),
            views(out@) == all_credential_lines(tokens@, names.take(i as int), d, now as int),
        decreases keys.len() - i,
    {
        let key = keys[i].as_str();
        let ghost before = views(out@);
        proof {
            assert(names.take(i + 1).drop_last() =~= names.take(i as int));
            assert(names.take(i + 1).last() == key@);
            assert(names[i as int] == key@);
            assert(names.contains(key@));
            assert(tokens@.contains_key(key@));
        }
        match tokens.servers.get(key) {
            Some(c) => {
                let mark: &str = if is_text(&default, key) {
                    "  [default]"
                } else {
                    ""
                };
                put_line(&mut out, two(key, mark));
                put_line(&mut out, two("  client_id:     ", c.client_id.as_str()));
                put_line(
                    &mut out,
                    two(
                        "  access token:  ",
                        fmt_until(c.expires_at, now, Expired::Recoverable).as_str(),
                    ),
                );
                put_line(
                    &mut out,
                    two(
                        "  refresh token: ",
                        fmt_until(c.refresh_expires_at, now, Expired::Terminal).as_str(),
                    ),
                );
                proof {
                    assert(views(out@) =~= before + credential_lines(
                        key@,
                        tokens@[key@],
                        d,
                        now as int,
                    ));
                }
            },
            None => {},
        }
        i += 1;
    }
    proof {
        assert(names.take(names.len() as int) =~= names);
        assert(views(out@) == status_lines(tokens@, names, config@, now as int));
    }
    out
}

/// The line of a context.
pub open spec fn context_line(name: Seq<char>, cfg: ConfigFileView) -> Seq<char> {
    "  "@ + name + " -> "@ + cfg.contexts[name] + if name.len() > 0 && name == cfg.current_context {
        "  [active]"@
    } else {
        ""@
    }
}

/// The lines of the contexts, given their names in their order.
pub open spec fn context_lines(names: Seq<Seq<char>>, cfg: ConfigFileView) -> Seq<Seq<char>> {
    if names.len() == 0 {
        Seq::empty()
    } else {
        seq!["Contexts:"@] + Seq::new(names.len(), |i: int| context_line(names[i], cfg))
    }
}

/// The lines of the servers with credentials, given in their order.
pub open spec fn server_lines(keys: Seq<Seq<char>>, cfg: ConfigFileView) -> Seq<Seq<char>> {
    if keys.len() == 0 {
        Seq::empty()
    } else {
        seq!["Logged-in servers:"@] + Seq::new(
            keys.len(),
            |i: int| "  "@ + keys[i] + default_mark(default_server(cfg), keys[i]),
        )
    }
}

/// The first lines of the configuration: the server that is meant and where
/// the files are.
pub open spec fn effective_lines(
    server: Result<(Seq<char>, Seq<char>), Seq<char>>,
    config_path: Seq<char>,
    token_path: Seq<char>,
) -> Seq<Seq<char>> {
    let (effective, source) = match server {
        Ok(p) => p,
        Err(_) => ("-"@, "none: run `bbcli login --context <url>`"@),
    };
    seq![
        "Effective server: "@ + effective + " (source: "@ + source + ")"@,
        "Config file:      "@ + config_path,
        "Credential file:  "@ + token_path,
    ]
}

/// The lines of the contexts.
fn list_contexts(config: &ConfigFile) -> (r: Vec<String>)
    ensures
        exists|names: Seq<Seq<char>>|
            key_list(config@.contexts, names) && views(r@) == #[trigger] context_lines(
                names,
                config@,
            ),
{
    let keys = config.contexts.keys();
    let ghost names = views(keys@);
    let mut out: Vec<String> = Vec::new();
    proof {
        assert(views(out@) =~= Seq::<Seq<char>>::empty());
    }
    if keys.len() == 0 {
        proof {
            assert(views(out@) == context_lines(names, config@));
        }
        return out;
    }
    put_line(&mut out, "Contexts:".to_owned());
    let ghost head = seq!["Contexts:"@];
    let ghost line_at = |k: int| context_line(names[k], config@);
    let mut i: usize = 0;
    proof {
        assert(views(out@) =~= head + Seq::new(0, line_at));
    }
    while i < keys.len()
        invariant
            i <= keys@.len(),
            names == views(keys@),
            key_list(config@.contexts, names),
            line_at == (|k: int| context_line(names[k], config@)),
            views(out@) == head + Seq::new(i as nat, line_at),
        decreases keys.len() - i,
    {
        let name = keys[i].as_str();
        let ghost before = views(out@);
        proof {
            assert(names[i as int] == name@);
            assert(names.contains(name@));
            assert(config@.contexts.contains_key(name@));
        }
        match config.contexts.get(name) {
            Some(ctx) => {
                let mut line = "  ".to_owned();
                line.append(name);
                line.append(" -> ");
                line.append(ctx.server.as_str());
                if !name.is_empty() && same_text(name, config.current_context.as_str()) {
                    line.append("  [active]");
                } else {
                    line.append("");
                }
                put_line(&mut out, line);
                proof {
                    assert(line@ == line_at(i as int));
                    assert(before.push(line@) =~= head + Seq::new((i + 1) as nat, line_at));
                }
            },
            None => {},
        }
        i += 1;
    }
    proof {
        assert(views(out@) =~= context_lines(names, config@));
    }
    out
}

/// The lines of the servers with credentials.
fn list_servers(tokens: &TokenFile, config: &ConfigFile) -> (r: Vec<String>)
    ensures
        exists|keys: Seq<Seq<char>>|
            key_list(tokens@, keys) && views(r@) == #[trigger] server_lines(keys, config@),
{
    let keys = tokens.servers.keys();
    let ghost names = views(keys@);
    let mut out: Vec<String> = Vec::new();
    proof {
        assert(views(out@) =~= Seq::<Seq<char>>::empty());
    }
    if keys.len() == 0 {
        proof {
            assert(views(out@) == server_lines(names, config@));
        }
        return out;
    }
    let default = default_server_from(config);
    put_line(&mut out, "Logged-in servers:".to_owned());
    let ghost head = seq!["Logged-in servers:"@];
    let ghost line_at = |k: int|
        "  "@ + names[k] + default_mark(default_server(config@), names[k]);
    let mut i: usize = 0;
    proof {
        assert(views(out@) =~= head + Seq::new(0, line_at));
    }
    while i < keys.len()
        invariant
            i <= keys@.len(),
            names == views(keys@),
            opt_view(default) == default_server(config@),
            line_at == (|k: int|
                "  "@ + names[k] + default_mark(default_server(config@), names[k])),
            views(out@) == head + Seq::new(i as nat, line_at),
        decreases keys.len() - i,
    {
        let key = keys[i].as_str();
        let ghost before = views(out@);
        let mut line = "  ".to_owned();
        line.append(key);
        if is_text(&default, key) {
            line.append("  [default]");
        } else {
            line.append("");
        }
        put_line(&mut out, line);
        proof {
            assert(names[i as int] == key@);
            assert(line@ == line_at(i as int));
            assert(before.push(line@) =~= head + Seq::new((i + 1) as nat, line_at));
        }
        i += 1;
    }
    proof {
        assert(views(out@) =~= server_lines(names, config@));
    }
    out
}

/// The lines of the configuration: the server that is meant and why, the files,
/// all contexts, and all servers with credentials.
pub fn config_view(
    explicit: Option<&str>,
    from_env: bool,
    project: Option<&str>,
    config: &ConfigFile,
    tokens: &TokenFile,
    config_path: &str,
    token_path: &str,
) -> (r: Vec<String>)
    ensures
        exists|names: Seq<Seq<char>>, keys: Seq<Seq<char>>|
            key_list(config@.contexts, names) && key_list(tokens@, keys) && views(r@)
                == effective_lines(
                picked(opt_view(explicit), from_env, opt_view(project), config@),
                config_path@,
                token_path@,
            ) + #[trigger] context_lines(names, config@) + #[trigger] server_lines(keys, config@),
{
    let ghost server = picked(opt_view(explicit), from_env, opt_view(project), config@);
    let (effective, source): (String, String) = match resolve_server(
        explicit,
        from_env,
        project,
        config,
    ) {
        Ok(p) => p,
        Err(_) => ("-".to_owned(), "none: run `bbcli login --context <url>`".to_owned()),
    };
    let mut first = "Effective server: ".to_owned();
    first.append(effective.as_str());
    first.append(" (source: ");
    first.append(source.as_str());
    first.append(")");
    let mut out: Vec<String> = Vec::new();
    proof {
        assert(views(out@) =~= Seq::<Seq<char>>::empty());
    }
    put_line(&mut out, first);
    put_line(&mut out, two("Config file:      ", config_path));
    put_line(&mut out, two("Credential file:  ", token_path));
    proof {
        assert(views(out@) =~= effective_lines(server, config_path@, token_path@));
    }
    let mut contexts = list_contexts(config);
    let mut servers = list_servers(tokens, config);
    proof {
        assert(views(out@ + contexts@ + servers@) =~= views(out@) + views(contexts@) + views(
            servers@,
        ));
    }
    out.append(&mut contexts);
    out.append(&mut servers);
    out
}

// ---- a check of the configuration ----

/// The method that tells the server's version.
pub const INFO_METHOD: &'static str = "ActuatorService/GetActuatorInfo";

/// The method that only an authenticated call reaches.
pub const AUTH_METHOD: &'static str = "SQLService/SearchQueryHistories";

/// The lines of a configuration that works. A server that does not tell its
/// version has the version `?`.
pub fn check_report(server: &str, source: &str, info: &Json, seconds_left: i64) -> (r: Vec<String>)
    ensures
        views(r@) == seq![
            "server:      "@ + server@ + " (source: "@ + source@ + ")"@,
            "connectivity: ok (version "@ + (match str_field(info@, "version"@) {
                Some(v) => v,
                None => "?"@,
            }) + ")"@,
            "credentials:  ok (access token valid for "@ + int_text(
                whole_minutes(seconds_left as int),
            ) + "m)"@,
        ],
{
    let version: &str = match info.get_str("version") {
        Some(v) => v,
        None => "?",
    };
    let mut first = "server:      ".to_owned();
    first.append(server);
    first.append(" (source: ");
    first.append(source);
    first.append(")");
    let mut second = "connectivity: ok (version ".to_owned();
    second.append(version);
    second.append(")");
    let mut third = "credentials:  ok (access token valid for ".to_owned();
    third.append(i64_text(minutes(seconds_left)).as_str());
    third.append("m)");
    let mut out: Vec<String> = Vec::new();
    out.push(first);
    out.push(second);
    out.push(third);
    proof {
        assert(views(out@) =~= seq![first@, second@, third@]);
    }
    out
}

// ---- the words around a login ----

/// What is told before the wait for the redirect.
pub fn login_prompt(url: &str, no_browser: bool) -> (r: String)
    ensures
        r@ == (if no_browser {
            "Open this URL to authorize:\n  "@
        } else {
            "Opening browser for authorization:\n  "@
        }) + url@ + "\n"@,
{
    let mut s = if no_browser {
        "Open this URL to authorize:\n  ".to_owned()
    } else {
        "Opening browser for authorization:\n  ".to_owned()
    };
    s.append(url);
    s.append("\n");
    s
}

/// How to finish a login when the browser is elsewhere.
pub fn paste_help(redirect_uri: &str) -> (r: String)
    ensures
        r@ == "If the browser is on another machine, open that URL there. The redirect to\n  "@
            + redirect_uri@
            + "\nwill fail to load — that is expected. Copy the full address from the browser's\naddress bar and paste it here.\n\nWaiting up to 10 minutes for the callback or a pasted URL..."@,
{
    let mut s =
        "If the browser is on another machine, open that URL there. The redirect to\n  ".to_owned();
    s.append(redirect_uri);
    s.append(
        "\nwill fail to load — that is expected. Copy the full address from the browser's\naddress bar and paste it here.\n\nWaiting up to 10 minutes for the callback or a pasted URL...",
    );
    s
}

/// What is told after a login.
pub fn login_report(key: &str, alias: Option<&str>, client_id: &str, seconds_left: i64) -> (r:
    String)
    ensures
        r@ == "Logged in to "@ + key@ + (match opt_view(alias) {
            Some(name) => " as context "@ + name,
            None => ""@,
        }) + " (client "@ + client_id@ + "); access token valid for "@ + int_text(
            whole_minutes(seconds_left as int),
        ) + " minutes."@,
{
    let as_name = match alias {
        Some(name) => two(" as context ", name),
        None => "".to_owned(),
    };
    let mut s = "Logged in to ".to_owned();
    s.append(key);
    s.append(as_name.as_str());
    s.append(" (client ");
    s.append(client_id);
    s.append("); access token valid for ");
    s.append(i64_text(minutes(seconds_left)).as_str());
    s.append(" minutes.");
    s
}

/// What came of a logout.
#[derive(Debug)]
pub enum Logout {
    /// There was nothing stored.
    Unknown,
    /// The server has revoked the token.
    Revoked,
    /// The server has not: why.
    LocalOnly(String),
}

/// What is told after a logout.
pub fn logout_report(key: &str, outcome: &Logout) -> (r: String)
    ensures
        r@ == match *outcome {
            Logout::Unknown => "No stored credentials for "@ + key@ + "."@,
            Logout::Revoked => "Logged out from "@ + key@ + "."@,
            Logout::LocalOnly(e) => "Logged out from "@ + key@
                + " locally; server revoke failed ("@ + e@ + ")."@,
        },
{
    match outcome {
        Logout::Unknown => {
            let mut s = "No stored credentials for ".to_owned();
            s.append(key);
            s.append(".");
            s
        },
        Logout::Revoked => {
            let mut s = "Logged out from ".to_owned();
            s.append(key);
            s.append(".");
            s
        },
        Logout::LocalOnly(e) => {
            let mut s = "Logged out from ".to_owned();
            s.append(key);
            s.append(" locally; server revoke failed (");
            s.append(e.as_str());
            s.append(").");
            s
        },
    }
}

// ---- request fields ----

/// Why request fields are refused.
#[derive(Debug)]
pub enum ArgsError {
    /// They are no JSON: why.
    NotJson(String),
    /// They are no object: the words.
    NotObject(String),
}

/// Request fields, given what their text parses to.
pub fn check_args(raw: &str, parsed: Result<Json, String>) -> (r: Result<Json, ArgsError>)
    ensures
        match parsed {
            Ok(v) => if v@ is Object {
                r matches Ok(out) && out@ == v@
            } else {
                r matches Err(ArgsError::NotObject(e)) && e@
                    == "request fields must be a JSON object, got: "@ + raw@
            },
            Err(cause) => r matches Err(ArgsError::NotJson(e)) && e@ == cause@,
        },
{
    match parsed {
        Ok(v) => if v.is_object() {
            Ok(v)
        } else {
            Err(ArgsError::NotObject(two("request fields must be a JSON object, got: ", raw)))
        },
        Err(e) => Err(ArgsError::NotJson(e)),
    }
}

/// Request fields from their text: a JSON object and nothing else.
pub fn read_args(raw: &str) -> (r: Result<Json, ArgsError>)
    ensures
        match json_of_text(raw@) {
            Ok(v) => if v is Object {
                r matches Ok(out) && out@ == v
            } else {
                r matches Err(ArgsError::NotObject(e)) && e@
                    == "request fields must be a JSON object, got: "@ + raw@
            },
            Err(cause) => r matches Err(ArgsError::NotJson(e)) && e@ == cause,
        },
{
    let parsed = Json::parse(raw);
    check_args(raw, parsed)
}

// ---- guides ----

/// The names of the guides.
pub fn skill_names() -> (r: Vec<&'static str>)
    ensures
        views(r@) == seq!["query"@, "database-change"@, "grant-permission"@],
{
    let mut names: Vec<&'static str> = Vec::new();
    names.push("query");
    names.push("database-change");
    names.push("grant-permission");
    proof {
        assert(views(names@) =~= seq!["query"@, "database-change"@, "grant-permission"@]);
    }
    names
}

/// The refusal when there is no such guide.
pub fn no_skill(name: &str) -> (r: String)
    ensures
        r@ == "no skill "@ + quoted_text(name@)
            + "; available: query, database-change, grant-permission"@,
{
    let mut s = "no skill ".to_owned();
    s.append(quoted(name).as_str());
    s.append("; available: query, database-change, grant-permission");
    s
}

/// What follows the prefix in the first line that begins with it.
pub open spec fn first_value(all: Seq<Seq<char>>, prefix: Seq<char>) -> Seq<char>
    decreases all.len(),
{
    if all.len() == 0 {
        Seq::empty()
    } else if has_prefix(all[0], prefix) {
        all[0].skip(prefix.len() as int)
    } else {
        first_value(all.skip(1), prefix)
    }
}

/// What a guide says of itself: the description in its head.
pub fn skill_description(content: &str) -> (r: String)
    ensures
        r@ == trim_both(first_value(line_seq(content@), "description: "@)),
{
    let all = lines(content);
    let ghost texts = views(all@);
    let mut i: usize = 0;
    proof {
        assert(texts.skip(0) =~= texts);
    }
    while i < all.len()
        invariant
            i <= all@.len(),
            texts == views(all@),
            texts == line_seq(content@),
            first_value(texts, "description: "@) == first_value(
                texts.skip(i as int),
                "description: "@,
            ),
        decreases all.len() - i,
    {
        proof {
            assert(texts.skip(i as int).skip(1) =~= texts.skip(i + 1));
            assert(texts.skip(i as int)[0] == all@[i as int]@);
        }
        match strip_prefix(all[i].as_str(), "description: ") {
            Some(rest) => {
                return trim(rest).to_owned();
            },
            None => {},
        }
        i += 1;
    }
    proof {
        assert(trim_both(Seq::<char>::empty()) =~= Seq::<char>::empty());
    }
    String::new()
}

/// The line of a guide in the list of guides.
pub fn skill_line(name: &str, content: &str) -> (r: String)
    ensures
        r@ == "  "@ + name@ + " — "@ + trim_both(
            first_value(line_seq(content@), "description: "@),
        ),
{
    let mut s = "  ".to_owned();
    s.append(name);
    s.append(" — ");
    s.append(skill_description(content).as_str());
    s
}

/// A guide as it is shown: under the note on its syntax.
pub fn skill_text(content: &str) -> (r: String)
    ensures
        r@ == SKILL_SYNTAX_NOTE@ + "\n\n"@ + content@,
{
    let mut s = SKILL_SYNTAX_NOTE.to_owned();
    s.append("\n\n");
    s.append(content);
    s
}

/// What stands above every guide: the guides are written for other tools, and
/// this says which commands stand for those.
pub const SKILL_SYNTAX_NOTE: &'static str = "Note: this guide uses MCP tool syntax. Equivalent bbcli commands:
  search_api(service=\"S\")                  -> bbcli search --service S
  search_api(operationId=\"S/M\")            -> bbcli search --operation-id S/M
  search_api(schema=\"T\")                   -> bbcli search --schema T
  call_api(operationId=\"S/M\", body={...})  -> bbcli api S/M --args '<same fields, as JSON>'
  query_database(database=, statement=, ...)
                                            -> bbcli query <database> '<statement>' \\
                                               [--instance I] [--project P] [--limit N]
  get_schema(database=, schema=, table=, include=)
                                            -> bbcli schema <database> [--schema S] [--table T] \\
                                               [--include summary|columns|details]
  propose_database_change(database=, sql=, title=, ...)
                                            -> bbcli change propose <database> --sql '...' \\
                                               --title '...' [--rollout] [--reason '...']
---- guide follows ----";

// ---- laws ----

/// What is said on the command line or in the environment comes first, then the
/// project's file, then the active context.
pub proof fn law_server_precedence(
    explicit: Seq<char>,
    from_env: bool,
    project: Seq<char>,
    cfg: ConfigFileView,
)
    requires
        trim_both(explicit).len() > 0,
        trim_both(project).len() > 0,
    ensures
        picked(Some(explicit), from_env, Some(project), cfg) matches Ok(p) && p.0 == server_named(
            cfg,
            trim_both(explicit),
        ),
        picked(None, from_env, Some(project), cfg) matches Ok(p) && p.0 == server_named(
            cfg,
            trim_both(project),
        ),
        default_server(cfg) matches Some(url) ==> (picked(None, from_env, None, cfg) matches Ok(p)
            && p.0 == url),
        picked(None, from_env, None, cfg) is Err <==> default_server(cfg) is None,
{
}

/// An expired access token and an expired refresh token are never told alike,
/// and a token that lasts is told alike whichever it is.
pub proof fn law_expiries_are_told_apart(secs: int)
    ensures
        secs <= 0 ==> remaining(secs, Expired::Recoverable) != remaining(secs, Expired::Terminal),
        secs > 0 ==> remaining(secs, Expired::Recoverable) == remaining(secs, Expired::Terminal),
{
    reveal_strlit("expired (refreshes automatically on next use)");
    reveal_strlit("expired — run `bbcli login` again");
    assert("expired (refreshes automatically on next use)"@.len() == 45);
    assert("expired — run `bbcli login` again"@.len() == 33);
}

} // verus!
