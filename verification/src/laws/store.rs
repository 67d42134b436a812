//! Laws of what is stored: the names of servers, the contexts and the logins.

use vstd::prelude::*;

use crate::keyed::{key_list, lookup};
use crate::laws::texts::{law_taking_off, lemma_trim_end_at, lemma_trim_start_at};
use crate::order::{by_name, comes_before, lemma_total};
use crate::store::{
    activated, context_name, default_server, login_words, no_credentials, normalized, server_named, switched, without_server, ConfigFile, ConfigFileView,
    Credentials,
};
use crate::text::{has_part, is_white_space, lemma_part_behind, trim_end_char};

verus! {

/// A server is stored under one name, whatever white space stands around its
/// address and whatever slashes behind it.
pub proof fn law_servers_are_named_alike(
    before: Seq<char>,
    core: Seq<char>,
    slashes: Seq<char>,
    behind: Seq<char>,
)
    requires
        core.len() > 0,
        !is_white_space(core[0]),
        !is_white_space(core.last()),
        core.last() != '/',
        forall|i: int| 0 <= i < before.len() ==> is_white_space(#[trigger] before[i]),
        forall|i: int| 0 <= i < behind.len() ==> is_white_space(#[trigger] behind[i]),
        forall|i: int| 0 <= i < slashes.len() ==> #[trigger] slashes[i] == '/',
    ensures
        normalized(before + core + slashes + behind) == core,
{
    let s = before + core + slashes + behind;
    let a = lemma_trim_start_at(s);
    assert(a == before.len()) by {
        if a < before.len() {
            assert(s[a] == before[a]);
        } else if a > before.len() {
            assert(s[before.len() as int] == core[0]);
        }
    }
    let t = s.skip(a);
    assert(t =~= core + slashes + behind);
    let b = lemma_trim_end_at(t);
    let n = core.len() + slashes.len();
    assert(b == n) by {
        if b > n {
            assert(t[b - 1] == behind[b - 1 - n]);
        } else if b < n {
            assert(is_white_space(t[n - 1]));
            if slashes.len() > 0 {
                assert(t[n - 1] == slashes[slashes.len() - 1]);
            } else {
                assert(t[n - 1] == core.last());
            }
        }
    }
    let u = core + slashes;
    assert(t.take(b) =~= u);
    law_taking_off(u, '/');
    let c = choose|c: int|
        0 <= c <= u.len() && trim_end_char(u, '/') == #[trigger] u.take(c) && (forall|i: int|
            c <= i < u.len() ==> #[trigger] u[i] == '/') && (c > 0 ==> u[c - 1] != '/');
    assert(c == core.len()) by {
        if c > core.len() {
            assert(u[c - 1] == slashes[c - 1 - core.len()]);
        } else if c < core.len() {
            assert(u[core.len() - 1] == core.last());
        }
    }
    assert(u.take(c) =~= core);
}

/// A login sets the one context, which is the named one or `default`, and
/// leaves every other as it was; the configuration is of the current version.
pub proof fn law_login_leaves_other_contexts(
    cfg: ConfigFileView,
    server: Seq<char>,
    alias: Option<Seq<char>>,
    other: Seq<char>,
)
    ensures
        ({
            let name = match alias {
                Some(a) => a,
                None => "default"@,
            };
            let after = activated(cfg, server, alias);
            &&& context_name(alias) == name
            &&& after.current_context == name
            &&& lookup(after.contexts, name) == Some(normalized(server))
            &&& other != name ==> lookup(after.contexts, other) == lookup(cfg.contexts, other)
            &&& after.version == 1
        }),
{
}

/// A logout keeps the active context where it points elsewhere.
pub proof fn law_logout_keeps_another_active(cfg: ConfigFileView, server: Seq<char>)
    ensures
        ({
            let after = without_server(cfg, server);
            &&& cfg.contexts.contains_key(cfg.current_context) && normalized(
                cfg.contexts[cfg.current_context],
            ) != normalized(server) ==> after.current_context == cfg.current_context
                && default_server(after) == default_server(cfg)
            &&& after.version == 1
        }),
{
}

/// A context's name stands for its server, and anything else for itself. The
/// default server is that of the active context.
pub proof fn law_names_stand_for_servers(cfg: ConfigFileView, name: Seq<char>)
    ensures
        cfg.contexts.contains_key(name) ==> server_named(cfg, name) == normalized(
            cfg.contexts[name],
        ),
        !cfg.contexts.contains_key(name) ==> server_named(cfg, name) == normalized(name),
        default_server(cfg) is Some <==> cfg.current_context.len() > 0 && cfg.contexts.contains_key(
            cfg.current_context,
        ),
        default_server(cfg) matches Some(url) ==> url == server_named(cfg, cfg.current_context),
{
}

/// A switch changes no context but the one it makes active, and that one only
/// where it is `default` and no context points at the server yet.
pub proof fn law_switch_leaves_other_contexts(
    cfg: ConfigFileView,
    s: Seq<char>,
    after: ConfigFileView,
    other: Seq<char>,
)
    requires
        switched(cfg, s, after),
    ensures
        cfg.contexts.contains_key(s) ==> after.current_context == s && after.contexts
            == cfg.contexts,
        other != after.current_context ==> lookup(after.contexts, other) == lookup(
            cfg.contexts,
            other,
        ),
        !cfg.contexts.contains_key(s) ==> lookup(after.contexts, after.current_context) == Some(
            normalized(s),
        ),
        !cfg.contexts.contains_key(s) && (forall|name: Seq<char>|
            cfg.contexts.contains_key(name) ==> normalized(#[trigger] cfg.contexts[name])
                != normalized(s)) ==> after.current_context == "default"@,
        !cfg.contexts.contains_key(s) && (exists|name: Seq<char>|
            cfg.contexts.contains_key(name) && normalized(#[trigger] cfg.contexts[name])
                == normalized(s)) ==> cfg.contexts.contains_key(after.current_context)
            && normalized(cfg.contexts[after.current_context]) == normalized(s),
        after.version == 1,
{
    let key = normalized(s);
    if exists|name: Seq<char>|
        cfg.contexts.contains_key(name) && normalized(#[trigger] cfg.contexts[name]) == key {
        let name = choose|name: Seq<char>|
            cfg.contexts.contains_key(name) && normalized(#[trigger] cfg.contexts[name]) == key;
        assert(crate::store::points_at(cfg.contexts, name, key));
    }
    if forall|name: Seq<char>|
        cfg.contexts.contains_key(name) ==> normalized(#[trigger] cfg.contexts[name]) != key {
        assert forall|name: Seq<char>| !crate::store::points_at(cfg.contexts, name, key) by {
            if cfg.contexts.contains_key(name) {
                assert(normalized(cfg.contexts[name]) != key);
            }
        }
    }
}

/// A refusal for want of credentials names the server and the login that is
/// missing.
pub proof fn law_missing_logins_are_named(key: Seq<char>)
    ensures
        has_part(no_credentials(key), key),
        has_part(no_credentials(key), "bbcli login --context "@ + key),
        has_part(login_words(key), "bbcli login --context "@ + key),
{
    let none = Seq::<char>::empty();
    let w = login_words(key);
    reveal_strlit("run `bbcli login --context ");
    reveal_strlit("run `");
    reveal_strlit("bbcli login --context ");
    assert("run `bbcli login --context "@ =~= "run `"@ + "bbcli login --context "@);
    let part = "bbcli login --context "@ + key;
    lemma_part_behind("run `"@, part, "` first"@);
    assert(w =~= "run `"@ + part + "` first"@);
    let m = no_credentials(key);
    lemma_part_behind("no credentials for "@, key, "; "@ + w);
    assert(m =~= "no credentials for "@ + key + ("; "@ + w));
    crate::text::lemma_part_stays("no credentials for "@ + key + "; "@, w, none, part);
    assert(m =~= "no credentials for "@ + key + "; "@ + w + none);
}

/// Two logins are the same only if all of them is: the client, both tokens and
/// both times.
pub proof fn law_same_login(a: Credentials, b: Credentials)
    ensures
        a@ == b@ <==> a.client_id@ == b.client_id@ && a.access_token@ == b.access_token@
            && a.refresh_token@ == b.refresh_token@ && a.expires_at == b.expires_at
            && a.refresh_expires_at == b.refresh_expires_at,
{
}

/// The names of what is stored are all of them, each once, in their order.
pub proof fn law_stored_names_in_order<V>(
    m: Map<Seq<char>, V>,
    keys: Seq<Seq<char>>,
    key: Seq<char>,
    a: int,
    b: int,
)
    requires
        key_list(m, keys),
    ensures
        m.contains_key(key) <==> keys.contains(key),
        0 <= a < b < keys.len() ==> comes_before(keys[a], keys[b]),
{
    if 0 <= a < b < keys.len() {
        lemma_total(keys[a], keys[b]);
        assert(keys[a] != keys[b]);
        assert(!comes_before(by_name::<String>()(keys[b]), by_name::<String>()(keys[a])));
    }
}

/// What is stored is taken as it is stored.
pub proof fn law_files_are_read_as_stored(c: Credentials, f: ConfigFile)
    ensures
        c@.client_id == c.client_id@ && c@.access_token == c.access_token@,
        c@.refresh_token == c.refresh_token@,
        c@.expires_at == c.expires_at && c@.refresh_expires_at == c.refresh_expires_at,
        f@.version == f.version && f@.current_context == f.current_context@,
        f@.contexts == f.contexts@,
{
}

} // verus!
