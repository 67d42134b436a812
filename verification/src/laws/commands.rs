//! Laws of what the commands say: which server is meant, and how long a login
//! lasts.

use vstd::prelude::*;

use crate::agent_skill::refusal;
use crate::commands::{
    all_credential_lines, context_lines, credential_lines, effective_lines, first_value, picked,
    remaining, server_lines, status_lines, whole_minutes, Expired,
};
use crate::numbers::decimal;
use crate::store::{default_server, server_named, ConfigFileView, CredentialsView};
use crate::text::{has_part, has_prefix, lemma_part_behind, trim_both};

verus! {

/// Which server is meant, and where that comes from: what is said on the command
/// line or in the environment, unless it is blank; then what the project's file
/// says; then the active context. It is told which of them it was.
pub proof fn law_choice_of_the_server(
    explicit: Option<Seq<char>>,
    from_env: bool,
    project: Option<Seq<char>>,
    cfg: ConfigFileView,
)
    ensures
        ({
            let said = explicit is Some && trim_both(explicit->0).len() > 0;
            let p = picked(explicit, from_env, project, cfg);
            &&& said ==> p == Ok::<_, Seq<char>>(
                (
                    server_named(cfg, trim_both(explicit->0)),
                    if from_env {
                        "env BBCLI_SERVER"@
                    } else {
                        "--context flag"@
                    },
                ),
            )
            &&& !said && project is Some && trim_both(project->0).len() > 0 ==> p == Ok::<
                _,
                Seq<char>,
            >((server_named(cfg, trim_both(project->0)), "project file (.bbcli)"@))
            &&& !said && project is Some && trim_both(project->0).len() == 0 ==> p is Err
            &&& !said && project is None ==> match default_server(cfg) {
                Some(url) => p matches Ok(q) && q.0 == url && has_part(q.1, cfg.current_context)
                    && has_prefix(q.1, "default"@),
                None => p is Err,
            }
        }),
{
    if default_server(cfg) is Some {
        let q = "default (context "@ + cfg.current_context + ")"@;
        lemma_part_behind("default (context "@, cfg.current_context, ")"@);
        reveal_strlit("default");
        reveal_strlit("default (context ");
        assert(q.take("default"@.len() as int) =~= "default"@);
    }
}

/// How long a token lasts is told in days and hours from a day on, in hours and
/// minutes from an hour on, and else in minutes; what is over is told as
/// expired.
pub proof fn law_time_left(d: nat, h: nat, m: nat, s: nat, expired: Expired, over: int)
    requires
        h < 24,
        m < 60,
        s < 60,
        d + h + m + s > 0,
        over <= 0,
    ensures
        ({
            let secs = d * 86400 + h * 3600 + m * 60 + s;
            remaining(secs as int, expired) == (if d > 0 {
                "expires in "@ + decimal(d) + "d "@ + decimal(h) + "h"@
            } else if h > 0 {
                "expires in "@ + decimal(h) + "h "@ + decimal(m) + "m"@
            } else {
                "expires in "@ + decimal(m) + "m"@
            })
        }),
        has_prefix(remaining(over, expired), "expired"@),
        has_part(remaining(over, Expired::Terminal), "bbcli login"@),
{
    let secs = d * 86400 + h * 3600 + m * 60 + s;
    assert(secs / 86400 == d);
    assert(secs % 86400 == h * 3600 + m * 60 + s);
    assert((h * 3600 + m * 60 + s) / 3600 == h);
    assert((h * 3600 + m * 60 + s) % 3600 == m * 60 + s);
    assert((m * 60 + s) / 60 == m);
    reveal_strlit("expired");
    reveal_strlit("expired (refreshes automatically on next use)");
    reveal_strlit("expired — run `bbcli login` again");
    reveal_strlit("bbcli login");
    let r = remaining(over, expired);
    assert(r.take("expired"@.len() as int) =~= "expired"@);
    let t = remaining(over, Expired::Terminal);
    let part = "bbcli login"@;
    assert(t.subrange(15, 15 + part.len() as int) =~= part);
    assert(crate::text::stands_at(t, part, 15));
}

/// Minutes are whole ones, and what is left over counts for nothing, before the
/// end and after it alike.
pub proof fn law_minutes(secs: int)
    ensures
        secs >= 0 ==> whole_minutes(secs) * 60 <= secs < whole_minutes(secs) * 60 + 60,
        secs < 0 ==> whole_minutes(secs) == -whole_minutes(-secs),
{
}

proof fn lemma_credential_lines(
    tokens: Map<Seq<char>, CredentialsView>,
    keys: Seq<Seq<char>>,
    default: Option<Seq<char>>,
    now: int,
    k: int,
)
    ensures
        all_credential_lines(tokens, keys, default, now).len() == 4 * keys.len(),
        0 <= k < keys.len() ==> all_credential_lines(tokens, keys, default, now).subrange(
            4 * k,
            4 * k + 4,
        ) == credential_lines(keys[k], tokens[keys[k]], default, now),
    decreases keys.len(),
{
    if keys.len() > 0 {
        let front = keys.drop_last();
        lemma_credential_lines(tokens, front, default, now, k);
        let before = all_credential_lines(tokens, front, default, now);
        let all = all_credential_lines(tokens, keys, default, now);
        if 0 <= k < front.len() {
            assert(front[k] == keys[k]);
            assert(all.subrange(4 * k, 4 * k + 4) =~= before.subrange(4 * k, 4 * k + 4));
        } else if k == keys.len() - 1 {
            assert(all.subrange(4 * k, 4 * k + 4) =~= credential_lines(
                keys.last(),
                tokens[keys.last()],
                default,
                now,
            ));
        }
    }
}

/// The status tells every login in four lines, in the order of the servers: the
/// server and whether it is the default one, the client, and how long its access
/// token and its refresh token last.
pub proof fn law_status_tells_every_login(
    tokens: Map<Seq<char>, CredentialsView>,
    keys: Seq<Seq<char>>,
    cfg: ConfigFileView,
    now: int,
    k: int,
)
    requires
        0 <= k < keys.len(),
    ensures
        ({
            let lines = status_lines(tokens, keys, cfg, now);
            let c = tokens[keys[k]];
            &&& lines.len() == 4 * keys.len()
            &&& lines[4 * k] == keys[k] + (if default_server(cfg) == Some(keys[k]) {
                "  [default]"@
            } else {
                Seq::empty()
            })
            &&& has_part(lines[4 * k + 1], c.client_id)
            &&& has_part(lines[4 * k + 2], "access token"@)
            &&& has_part(
                lines[4 * k + 2],
                remaining(c.expires_at - now, Expired::Recoverable),
            )
            &&& has_part(lines[4 * k + 3], "refresh token"@)
            &&& has_part(
                lines[4 * k + 3],
                remaining(c.refresh_expires_at - now, Expired::Terminal),
            )
        }),
{
    let default = default_server(cfg);
    let lines = status_lines(tokens, keys, cfg, now);
    let c = tokens[keys[k]];
    lemma_credential_lines(tokens, keys, default, now, k);
    let four = lines.subrange(4 * k, 4 * k + 4);
    assert(four == credential_lines(keys[k], c, default, now));
    assert(four[0] == lines[4 * k] && four[1] == lines[4 * k + 1] && four[2] == lines[4 * k + 2]
        && four[3] == lines[4 * k + 3]);
    reveal_strlit("");
    assert(""@ =~= Seq::<char>::empty());
    let none = Seq::<char>::empty();
    lemma_part_behind("  client_id:     "@, c.client_id, none);
    assert("  client_id:     "@ + c.client_id + none =~= four[1]);
    let access = remaining(c.expires_at - now, Expired::Recoverable);
    let refresh = remaining(c.refresh_expires_at - now, Expired::Terminal);
    lemma_part_behind("  access token:  "@, access, none);
    assert("  access token:  "@ + access + none =~= four[2]);
    lemma_part_behind("  refresh token: "@, refresh, none);
    assert("  refresh token: "@ + refresh + none =~= four[3]);
    reveal_strlit("  access token:  ");
    reveal_strlit("access token");
    reveal_strlit("  refresh token: ");
    reveal_strlit("refresh token");
    let a = "access token"@;
    let r = "refresh token"@;
    assert(four[2].subrange(2, 2 + a.len() as int) =~= a);
    assert(crate::text::stands_at(four[2], a, 2));
    assert(four[3].subrange(2, 2 + r.len() as int) =~= r);
    assert(crate::text::stands_at(four[3], r, 2));
}

/// The view of the configuration tells every context with its server, and marks
/// the active one alone; and every login, and marks that of the default server
/// alone.
pub proof fn law_view_tells_contexts_and_logins(
    names: Seq<Seq<char>>,
    keys: Seq<Seq<char>>,
    cfg: ConfigFileView,
    k: int,
    n: int,
)
    ensures
        names.len() == 0 ==> context_lines(names, cfg).len() == 0,
        0 <= k < names.len() ==> {
            let lines = context_lines(names, cfg);
            &&& lines.len() == names.len() + 1
            &&& lines[k + 1] == "  "@ + names[k] + " -> "@ + cfg.contexts[names[k]] + (
            if names[k].len() > 0 && names[k] == cfg.current_context {
                "  [active]"@
            } else {
                Seq::empty()
            })
        },
        keys.len() == 0 ==> server_lines(keys, cfg).len() == 0,
        0 <= n < keys.len() ==> {
            let lines = server_lines(keys, cfg);
            &&& lines.len() == keys.len() + 1
            &&& lines[n + 1] == "  "@ + keys[n] + (if default_server(cfg) == Some(keys[n]) {
                "  [default]"@
            } else {
                Seq::empty()
            })
        },
{
    reveal_strlit("");
    assert(""@ =~= Seq::<char>::empty());
}

/// The view begins with the server that is meant and where that comes from, and
/// with where the two files are.
pub proof fn law_view_begins_with_the_server(
    server: Seq<char>,
    source: Seq<char>,
    config: Seq<char>,
    tokens: Seq<char>,
)
    ensures
        ({
            let lines = effective_lines(Ok((server, source)), config, tokens);
            &&& lines.len() == 3
            &&& has_part(lines[0], server) && has_part(lines[0], "(source: "@ + source + ")"@)
            &&& has_prefix(lines[1], "Config file:"@) && has_part(lines[1], config)
            &&& has_prefix(lines[2], "Credential file:"@) && has_part(lines[2], tokens)
        }),
{
    let none = Seq::<char>::empty();
    let lines = effective_lines(Ok((server, source)), config, tokens);
    reveal_strlit(" (source: ");
    reveal_strlit(" ");
    reveal_strlit("(source: ");
    assert(" (source: "@ =~= " "@ + "(source: "@);
    let from = "(source: "@ + source + ")"@;
    lemma_part_behind("Effective server: "@, server, " "@ + from);
    assert(lines[0] =~= "Effective server: "@ + server + (" "@ + from));
    lemma_part_behind("Effective server: "@ + server + " "@, from, none);
    assert(lines[0] =~= "Effective server: "@ + server + " "@ + from + none);
    lemma_part_behind("Config file:      "@, config, none);
    assert(lines[1] =~= "Config file:      "@ + config + none);
    lemma_part_behind("Credential file:  "@, tokens, none);
    assert(lines[2] =~= "Credential file:  "@ + tokens + none);
    reveal_strlit("Config file:      ");
    reveal_strlit("Config file:");
    reveal_strlit("Credential file:  ");
    reveal_strlit("Credential file:");
    assert(lines[1].take("Config file:"@.len() as int) =~= "Config file:"@);
    assert(lines[2].take("Credential file:"@.len() as int) =~= "Credential file:"@);
}

/// Of the lines that begin with a word the first counts, by what follows the
/// word; without any there is nothing.
pub proof fn law_first_line_of_a_kind(all: Seq<Seq<char>>, prefix: Seq<char>, k: int)
    ensures
        0 <= k < all.len() && has_prefix(all[k], prefix) && (forall|j: int|
            0 <= j < k ==> !has_prefix(#[trigger] all[j], prefix)) ==> prefix + first_value(
            all,
            prefix,
        ) == all[k],
        (forall|j: int| 0 <= j < all.len() ==> !has_prefix(#[trigger] all[j], prefix))
            ==> first_value(all, prefix).len() == 0,
    decreases all.len(),
{
    if all.len() > 0 {
        let rest = all.skip(1);
        if has_prefix(all[0], prefix) {
            assert(all[0] =~= prefix + all[0].skip(prefix.len() as int));
        } else {
            law_first_line_of_a_kind(rest, prefix, k - 1);
            if 0 <= k < all.len() && has_prefix(all[k], prefix) && (forall|j: int|
                0 <= j < k ==> !has_prefix(#[trigger] all[j], prefix)) {
                assert(k > 0);
                assert(rest[k - 1] == all[k]);
                assert forall|j: int| 0 <= j < k - 1 implies !has_prefix(
                    #[trigger] rest[j],
                    prefix,
                ) by {
                    assert(rest[j] == all[j + 1]);
                }
            }
            if forall|j: int| 0 <= j < all.len() ==> !has_prefix(#[trigger] all[j], prefix) {
                assert forall|j: int| 0 <= j < rest.len() implies !has_prefix(
                    #[trigger] rest[j],
                    prefix,
                ) by {
                    assert(rest[j] == all[j + 1]);
                }
            }
        }
    }
}

/// The refusal to overwrite names the file and what would.
pub proof fn law_refusal_to_overwrite(path: Seq<char>)
    ensures
        has_prefix(refusal(path), path),
        has_part(refusal(path), "--force"@),
{
    let r = refusal(path);
    assert(r.take(path.len() as int) =~= path);
    reveal_strlit(" exists and differs from the bundled skill; pass --force to overwrite");
    reveal_strlit("--force");
    let tail = " exists and differs from the bundled skill; pass --force to overwrite"@;
    let part = "--force"@;
    assert(tail.subrange(49, 49 + part.len() as int) =~= part);
    assert(crate::text::stands_at(tail, part, 49));
    crate::text::lemma_part_stays(path, tail, Seq::empty(), part);
    assert(r =~= path + tail + Seq::<char>::empty());
}

/// Where nobody is logged in, and where no server is meant, the way to log in is
/// told.
pub proof fn law_the_way_in_is_told(
    tokens: Map<Seq<char>, CredentialsView>,
    cfg: ConfigFileView,
    now: int,
    why: Seq<char>,
    config: Seq<char>,
    file: Seq<char>,
)
    ensures
        status_lines(tokens, Seq::empty(), cfg, now).len() == 1,
        has_part(status_lines(tokens, Seq::empty(), cfg, now)[0], "bbcli login"@),
        has_part(effective_lines(Err(why), config, file)[0], "bbcli login"@),
{
    let part = "bbcli login"@;
    reveal_strlit("bbcli login");
    reveal_strlit("Not logged in to any server. Run `bbcli login --context <url>`.");
    let s = "Not logged in to any server. Run `bbcli login --context <url>`."@;
    assert(s.subrange(34, 34 + part.len() as int) =~= part);
    assert(crate::text::stands_at(s, part, 34));
    reveal_strlit("none: run `bbcli login --context <url>`");
    let t = "none: run `bbcli login --context <url>`"@;
    assert(t.subrange(11, 11 + part.len() as int) =~= part);
    assert(crate::text::stands_at(t, part, 11));
    let head = "Effective server: "@ + "-"@ + " (source: "@;
    crate::text::lemma_part_stays(head, t, ")"@, part);
}

} // verus!
