//! What is stored locally: credentials under server URLs in one file, and named
//! contexts that point at those URLs in another.
//!
//! A context never holds credentials. It names a server, and the server's URL
//! leads to them, so that two contexts of one server share a login.

use vstd::prelude::*;
use vstd::string::StringExecFns;

use crate::json::opt_view;
use crate::keyed::{lookup, Keyed};
use crate::numbers::{decimal, u64_text};
use crate::text::{
    is_white_space, same_text, trim, trim_both, trim_end, trim_end_char, trim_start, trim_trailing,
    views,
};

verus! {

/// The credentials for one server. Times are in unix seconds; when the refresh
/// token expires is an estimate, for the server does not say.
#[derive(Debug, PartialEq)]
pub struct Credentials {
    pub client_id: String,
    pub access_token: String,
    pub refresh_token: String,
    pub expires_at: i64,
    pub refresh_expires_at: i64,
}

/// Credentials by their texts and times.
pub struct CredentialsView {
    pub client_id: Seq<char>,
    pub access_token: Seq<char>,
    pub refresh_token: Seq<char>,
    pub expires_at: int,
    pub refresh_expires_at: int,
}

impl View for Credentials {
    type V = CredentialsView;

    open spec fn view(&self) -> CredentialsView {
        CredentialsView {
            client_id: self.client_id@,
            access_token: self.access_token@,
            refresh_token: self.refresh_token@,
            expires_at: self.expires_at as int,
            refresh_expires_at: self.refresh_expires_at as int,
        }
    }
}

impl Clone for Credentials {
    fn clone(&self) -> (r: Self)
        ensures
            r@ == self@,
    {
        Credentials {
            client_id: self.client_id.clone(),
            access_token: self.access_token.clone(),
            refresh_token: self.refresh_token.clone(),
            expires_at: self.expires_at,
            refresh_expires_at: self.refresh_expires_at,
        }
    }
}

impl Credentials {
    /// Whether both are the same.
    pub fn same(&self, other: &Credentials) -> (r: bool)
        ensures
            r == (self@ == other@),
    {
        same_text(self.client_id.as_str(), other.client_id.as_str()) && same_text(
            self.access_token.as_str(),
            other.access_token.as_str(),
        ) && same_text(self.refresh_token.as_str(), other.refresh_token.as_str())
            && self.expires_at == other.expires_at && self.refresh_expires_at
            == other.refresh_expires_at
    }
}

/// The credentials of all servers, under their URLs.
#[derive(Debug)]
pub struct TokenFile {
    pub servers: Keyed<Credentials>,
}

impl View for TokenFile {
    type V = Map<Seq<char>, CredentialsView>;

    open spec fn view(&self) -> Map<Seq<char>, CredentialsView> {
        self.servers@
    }
}

/// The version of the configuration that is written. Older ones are read too.
pub const CONFIG_VERSION: u32 = 1;

/// The contexts, and which of them is active. No secrets.
#[derive(Debug)]
pub struct ConfigFile {
    pub version: u32,
    /// The name of the active context; empty if there is none.
    pub current_context: String,
    pub contexts: Keyed<ServerContext>,
}

/// A named context.
#[derive(Debug)]
pub struct ServerContext {
    pub server: String,
}

impl View for ServerContext {
    type V = Seq<char>;

    open spec fn view(&self) -> Seq<char> {
        self.server@
    }
}

/// The configuration by its texts: every context is the server it points at.
pub struct ConfigFileView {
    pub version: nat,
    pub current_context: Seq<char>,
    pub contexts: Map<Seq<char>, Seq<char>>,
}

impl View for ConfigFile {
    type V = ConfigFileView;

    open spec fn view(&self) -> ConfigFileView {
        ConfigFileView {
            version: self.version as nat,
            current_context: self.current_context@,
            contexts: self.contexts@,
        }
    }
}

// ---- texts ----

/// A server's URL as it is stored: no white space around it, no slash behind.
pub open spec fn normalized(server: Seq<char>) -> Seq<char> {
    trim_end_char(trim_both(server), '/')
}

/// A server's URL as it is stored.
pub fn normalize(server: &str) -> (r: String)
    ensures
        r@ == normalized(server@),
{
    trim_trailing(trim(server), '/').to_owned()
}

/// How to log in to a server.
pub open spec fn login_words(server: Seq<char>) -> Seq<char> {
    "run `bbcli login --context "@ + server + "` first"@
}

/// How to log in to a server, for errors about missing credentials.
pub fn login_hint(server: &str) -> (r: String)
    ensures
        r@ == login_words(server@),
{
    let mut s = "run `bbcli login --context ".to_owned();
    s.append(server);
    s.append("` first");
    s
}

/// Whether a file holds nothing but white space, and so stands for an empty
/// one.
pub fn is_blank_file(data: &str) -> (r: bool)
    ensures
        r == (trim_both(data@).len() == 0),
{
    trim(data).is_empty()
}

/// The refusal of a configuration that is newer than what is understood.
pub fn version_error(version: u32) -> (r: Option<String>)
    ensures
        r is Some <==> version > CONFIG_VERSION,
        r matches Some(s) ==> s@ == "config.yaml version "@ + decimal(version as nat)
            + " is newer than this bbcli supports ("@ + decimal(CONFIG_VERSION as nat) + ")"@,
{
    if version <= CONFIG_VERSION {
        return None;
    }
    let mut s = "config.yaml version ".to_owned();
    s.append(u64_text(version as u64).as_str());
    s.append(" is newer than this bbcli supports (");
    s.append(u64_text(CONFIG_VERSION as u64).as_str());
    s.append(")");
    Some(s)
}

/// Where the files are kept.
#[derive(Debug, PartialEq, Eq, Structural)]
pub enum ConfigBase {
    /// In the directory that the environment names.
    Xdg,
    /// In `.config` of the home directory.
    Home,
    /// In the directory that the operating system has for it.
    System,
}

/// Where the files are kept: the environment's choice unless it is empty, else
/// the home directory, else what the operating system has.
pub fn config_base(xdg: Option<&str>, has_home: bool) -> (r: ConfigBase)
    ensures
        r == (match opt_view(xdg) {
            Some(x) => if x.len() > 0 {
                ConfigBase::Xdg
            } else if has_home {
                ConfigBase::Home
            } else {
                ConfigBase::System
            },
            None => if has_home {
                ConfigBase::Home
            } else {
                ConfigBase::System
            },
        }),
{
    match xdg {
        Some(x) => if !x.is_empty() {
            return ConfigBase::Xdg;
        },
        None => {},
    }
    if has_home {
        ConfigBase::Home
    } else {
        ConfigBase::System
    }
}

// ---- one file at a time ----

impl TokenFile {
    /// No credentials.
    pub fn new() -> (r: TokenFile)
        ensures
            r@ == Map::<Seq<char>, CredentialsView>::empty(),
    {
        TokenFile { servers: Keyed::new() }
    }

    /// Stores the credentials of a server.
    pub fn keep(&mut self, server: &str, creds: &Credentials)
        ensures
            final(self)@ == old(self)@.insert(normalized(server@), creds@),
    {
        let key = normalize(server);
        self.servers.insert(key.as_str(), creds.clone());
    }

    /// Takes away the credentials of a server.
    pub fn forget(&mut self, server: &str) -> (r: Option<Credentials>)
        ensures
            final(self)@ == old(self)@.remove(normalized(server@)),
            opt_view(r) == lookup(old(self)@, normalized(server@)),
    {
        let key = normalize(server);
        self.servers.remove(key.as_str())
    }

    /// Whether every server of the one has the same credentials in the other.
    fn within(&self, other: &TokenFile) -> (r: bool)
        ensures
            r <==> forall|key: Seq<char>| #[trigger]
                self@.contains_key(key) ==> lookup(other@, key) == Some(self@[key]),
    {
        let keys = self.servers.keys();
        let ghost names = views(keys@);
        let mut i: usize = 0;
        while i < keys.len()
            invariant
                i <= keys@.len(),
                names == views(keys@),
                forall|key: Seq<char>| #[trigger] self@.contains_key(key) <==> names.contains(key),
                forall|k: int|
                    0 <= k < i ==> lookup(other@, #[trigger] names[k]) == Some(self@[names[k]]),
            decreases keys.len() - i,
        {
            proof {
                assert(names[i as int] == keys@[i as int]@);
                assert(names.contains(names[i as int]));
                assert(self@.contains_key(names[i as int]));
            }
            let equal = match (self.servers.get(keys[i].as_str()), other.servers.get(
                keys[i].as_str(),
            )) {
                (Some(a), Some(b)) => a.same(b),
                _ => false,
            };
            if !equal {
                proof {
                    assert(lookup(other@, names[i as int]) != Some(self@[names[i as int]]));
                }
                return false;
            }
            i += 1;
        }
        proof {
            assert forall|key: Seq<char>| #[trigger] self@.contains_key(key) implies lookup(
                other@,
                key,
            ) == Some(self@[key]) by {
                let k = choose|k: int| 0 <= k < names.len() && names[k] == key;
                assert(lookup(other@, names[k]) == Some(self@[names[k]]));
            }
        }
        true
    }

    /// Whether both hold the same. A file is written back only if it does not
    /// hold the same any more.
    pub fn same(&self, other: &TokenFile) -> (r: bool)
        ensures
            r <==> self@ == other@,
    {
        let there = self.within(other);
        let back = other.within(self);
        proof {
            if there && back {
                assert forall|key: Seq<char>| self@.contains_key(key) <==> other@.contains_key(
                    key,
                ) by {
                    if self@.contains_key(key) {
                        assert(lookup(other@, key) is Some);
                    }
                    if other@.contains_key(key) {
                        assert(lookup(self@, key) is Some);
                    }
                }
                assert(self@ =~= other@);
            }
        }
        there && back
    }
}

/// The name of the context that a login makes active.
pub open spec fn context_name(alias: Option<Seq<char>>) -> Seq<char> {
    match alias {
        Some(name) => name,
        None => "default"@,
    }
}

/// The configuration after a login.
pub open spec fn activated(
    cfg: ConfigFileView,
    server: Seq<char>,
    alias: Option<Seq<char>>,
) -> ConfigFileView {
    ConfigFileView {
        version: CONFIG_VERSION as nat,
        current_context: context_name(alias),
        contexts: cfg.contexts.insert(context_name(alias), normalized(server)),
    }
}

/// The contexts that do not point at the server.
pub open spec fn others(contexts: Map<Seq<char>, Seq<char>>, key: Seq<char>) -> Map<
    Seq<char>,
    Seq<char>,
> {
    contexts.restrict(
        Set::new(|name: Seq<char>| contexts.contains_key(name) && normalized(contexts[name]) != key),
    )
}

/// The configuration after a logout: no context points at the server any more,
/// and if the active one is gone none is active.
pub open spec fn without_server(cfg: ConfigFileView, server: Seq<char>) -> ConfigFileView {
    let rest = others(cfg.contexts, normalized(server));
    ConfigFileView {
        version: CONFIG_VERSION as nat,
        current_context: if rest.contains_key(cfg.current_context) {
            cfg.current_context
        } else {
            Seq::empty()
        },
        contexts: rest,
    }
}

impl ConfigFile {
    /// No contexts.
    pub fn new() -> (r: ConfigFile)
        ensures
            r@.version == 0,
            r@.current_context.len() == 0,
            r@.contexts == Map::<Seq<char>, Seq<char>>::empty(),
    {
        ConfigFile { version: 0, current_context: String::new(), contexts: Keyed::new() }
    }

    /// Points a context at a server and makes it the active one. Without a name
    /// it is the context `default`.
    pub fn activate(&mut self, server: &str, alias: Option<&str>)
        ensures
            final(self)@ == activated(old(self)@, server@, opt_view(alias)),
    {
        let name: &str = match alias {
            Some(name) => name,
            None => "default",
        };
        self.version = CONFIG_VERSION;
        self.contexts.insert(name, ServerContext { server: normalize(server) });
        self.current_context = name.to_owned();
    }

    /// Drops every context that points at a server.
    pub fn drop_server(&mut self, server: &str)
        ensures
            final(self)@ == without_server(old(self)@, server@),
    {
        let key = normalize(server);
        let keys = self.contexts.keys();
        let ghost all = self.contexts@;
        let ghost names = views(keys@);
        let ghost rest = others(all, key@);
        let mut i: usize = 0;
        while i < keys.len()
            invariant
                i <= keys@.len(),
                names == views(keys@),
                names.no_duplicates(),
                key@ == normalized(server@),
                all == old(self)@.contexts,
                self.current_context@ == old(self)@.current_context,
                rest == others(all, key@),
                forall|name: Seq<char>| #[trigger] all.contains_key(name) <==> names.contains(name),
                forall|name: Seq<char>| #[trigger]
                    self.contexts@.contains_key(name) <==> all.contains_key(name)
                        && !(normalized(all[name]) == key@ && names.take(i as int).contains(name)),
                forall|name: Seq<char>| #[trigger]
                    self.contexts@.contains_key(name) ==> self.contexts@[name] == all[name],
            decreases keys.len() - i,
        {
            let ghost name = names[i as int];
            let ghost before = self.contexts@;
            proof {
                assert(name == keys@[i as int]@);
                assert(names.contains(name));
                assert(all.contains_key(name));
                let seen = names.take(i as int);
                let now = names.take(i + 1);
                assert(now =~= seen.push(name));
                assert(!seen.contains(name)) by {
                    if seen.contains(name) {
                        let k = choose|k: int| 0 <= k < seen.len() && seen[k] == name;
                        assert(names[k] == names[i as int]);
                    }
                }
                assert(before.contains_key(name));
                assert forall|other: Seq<char>|
                    now.contains(other) <==> seen.contains(other) || other == name by {
                    if seen.contains(other) {
                        let k = choose|k: int| 0 <= k < seen.len() && seen[k] == other;
                        assert(now[k] == other);
                    }
                    if other == name {
                        assert(now[i as int] == other);
                    }
                    if now.contains(other) && other != name {
                        let k = choose|k: int| 0 <= k < now.len() && now[k] == other;
                        assert(seen[k] == other);
                    }
                }
            }
            let gone = match self.contexts.get(keys[i].as_str()) {
                Some(ctx) => same_text(normalize(ctx.server.as_str()).as_str(), key.as_str()),
                None => false,
            };
            if gone {
                self.contexts.remove(keys[i].as_str());
            }
            i += 1;
        }
        proof {
            assert(names.take(names.len() as int) =~= names);
            assert(self.contexts@ =~= rest);
        }
        self.version = CONFIG_VERSION;
        if !self.contexts.contains_key(self.current_context.as_str()) {
            self.current_context = String::new();
        }
        proof {
            assert(self.current_context@ =~= without_server(old(self)@, server@).current_context);
        }
    }

    /// A context that points at a server, if there is one.
    fn context_of(&self, key: &str) -> (r: Option<String>)
        ensures
            r matches Some(name) ==> points_at(self@.contexts, name@, key@),
            r is None ==> forall|name: Seq<char>| !points_at(self@.contexts, name, key@),
    {
        let keys = self.contexts.keys();
        let ghost all = self.contexts@;
        let ghost names = views(keys@);
        let mut i: usize = 0;
        while i < keys.len()
            invariant
                i <= keys@.len(),
                names == views(keys@),
                all == self@.contexts,
                forall|name: Seq<char>| #[trigger] all.contains_key(name) <==> names.contains(name),
                forall|k: int| 0 <= k < i ==> !points_at(all, #[trigger] names[k], key@),
            decreases keys.len() - i,
        {
            proof {
                assert(names[i as int] == keys@[i as int]@);
            }
            match self.contexts.get(keys[i].as_str()) {
                Some(ctx) => {
                    if same_text(normalize(ctx.server.as_str()).as_str(), key) {
                        return Some(keys[i].clone());
                    }
                },
                None => {},
            }
            i += 1;
        }
        proof {
            assert forall|name: Seq<char>| !points_at(all, name, key@) by {
                if points_at(all, name, key@) {
                    let k = choose|k: int| 0 <= k < names.len() && names[k] == name;
                    assert(!points_at(all, names[k], key@));
                }
            }
        }
        None
    }
}

/// Whether a context points at a server.
pub open spec fn points_at(
    contexts: Map<Seq<char>, Seq<char>>,
    name: Seq<char>,
    key: Seq<char>,
) -> bool {
    contexts.contains_key(name) && normalized(contexts[name]) == key
}

// ---- both files ----

/// Stores the credentials of a server and makes its context the active one.
/// A login without a name lands on the context `default`; the latest wins.
pub fn save_credentials(
    tokens: &mut TokenFile,
    config: &mut ConfigFile,
    server: &str,
    creds: &Credentials,
    alias: Option<&str>,
)
    ensures
        final(tokens)@ == old(tokens)@.insert(normalized(server@), creds@),
        final(config)@ == activated(old(config)@, server@, opt_view(alias)),
{
    tokens.keep(server, creds);
    config.activate(server, alias);
}

/// The server that a name stands for: that of the context with the name, else
/// the name itself as a URL.
pub open spec fn server_named(cfg: ConfigFileView, name: Seq<char>) -> Seq<char> {
    match lookup(cfg.contexts, name) {
        Some(server) => normalized(server),
        None => normalized(name),
    }
}

/// The server that a context name or a URL stands for. A blank one is refused.
pub fn resolve_alias(config: &ConfigFile, name_or_url: &str) -> (r: Result<String, String>)
    ensures
        r is Ok <==> trim_both(name_or_url@).len() > 0,
        r matches Ok(url) ==> url@ == server_named(config@, trim_both(name_or_url@)),
        r matches Err(e) ==> e@ == "empty server name"@,
{
    let s = trim(name_or_url);
    if s.is_empty() {
        return Err("empty server name".to_owned());
    }
    match config.contexts.get(s) {
        Some(ctx) => Ok(normalize(ctx.server.as_str())),
        None => Ok(normalize(s)),
    }
}

/// The server of the active context. An empty name is that of none, even where
/// a context is stored under it.
pub open spec fn default_server(cfg: ConfigFileView) -> Option<Seq<char>> {
    if cfg.current_context.len() == 0 {
        None
    } else {
        match lookup(cfg.contexts, cfg.current_context) {
            Some(server) => Some(normalized(server)),
            None => None,
        }
    }
}

/// The server of the active context; nothing if none is active.
pub fn default_server_from(config: &ConfigFile) -> (r: Option<String>)
    ensures
        opt_view(r) == default_server(config@),
{
    if config.current_context.as_str().is_empty() {
        return None;
    }
    match config.contexts.get(config.current_context.as_str()) {
        Some(ctx) => Some(normalize(ctx.server.as_str())),
        None => None,
    }
}

/// The credentials of a server.
pub fn get(tokens: &TokenFile, server: &str) -> (r: Option<Credentials>)
    ensures
        opt_view(r) == lookup(tokens@, normalized(server@)),
{
    let key = normalize(server);
    match tokens.servers.get(key.as_str()) {
        Some(creds) => Some(creds.clone()),
        None => None,
    }
}

/// Takes away the credentials of a server, and every context that points at it.
pub fn remove(tokens: &mut TokenFile, config: &mut ConfigFile, server: &str) -> (r: Option<
    Credentials,
>)
    ensures
        final(tokens)@ == old(tokens)@.remove(normalized(server@)),
        final(config)@ == without_server(old(config)@, server@),
        opt_view(r) == lookup(old(tokens)@, normalized(server@)),
{
    let removed = tokens.forget(server);
    config.drop_server(server);
    removed
}

/// The refusal to switch to a server without credentials.
pub open spec fn no_credentials(key: Seq<char>) -> Seq<char> {
    "no credentials for "@ + key + "; "@ + login_words(key)
}

/// Whether a configuration is what a switch to `s` makes of another: the context
/// of that name is active, else one that points at the URL, and `default` is made
/// to where none does.
pub open spec fn switched(before: ConfigFileView, s: Seq<char>, after: ConfigFileView) -> bool {
    let key = normalized(s);
    &&& after.version == CONFIG_VERSION
    &&& if before.contexts.contains_key(s) {
        after.current_context == s && after.contexts == before.contexts
    } else {
        &&& after.contexts == before.contexts.insert(after.current_context, key)
        &&& if exists|name: Seq<char>| points_at(before.contexts, name, key) {
            points_at(before.contexts, after.current_context, key)
        } else {
            after.current_context == "default"@
        }
    }
}

/// Makes another server the default: the context with the name, else a context
/// that points at the URL, which must be one with credentials. Where no context
/// points at it, `default` is made to; where several do, it is open which one
/// becomes active.
pub fn set_default(tokens: &TokenFile, config: &mut ConfigFile, name_or_url: &str) -> (r: Result<
    String,
    String,
>)
    ensures
        ({
            let s = trim_both(name_or_url@);
            let key = normalized(s);
            let before = old(config)@;
            let after = final(config)@;
            if before.contexts.contains_key(s) || tokens@.contains_key(key) {
                &&& r matches Ok(url) && url@ == server_named(before, s)
                &&& switched(before, s, after)
            } else {
                &&& r matches Err(e) && e@ == no_credentials(key)
                &&& after == before
            }
        }),
{
    let s = trim(name_or_url);
    match config.contexts.get(s) {
        Some(ctx) => {
            let url = normalize(ctx.server.as_str());
            config.version = CONFIG_VERSION;
            config.current_context = s.to_owned();
            return Ok(url);
        },
        None => {},
    }
    let key = normalize(s);
    if !tokens.servers.contains_key(key.as_str()) {
        let mut e = "no credentials for ".to_owned();
        e.append(key.as_str());
        e.append("; ");
        e.append(login_hint(key.as_str()).as_str());
        return Err(e);
    }
    let name = match config.context_of(key.as_str()) {
        Some(name) => name,
        None => "default".to_owned(),
    };
    config.version = CONFIG_VERSION;
    config.contexts.insert(name.as_str(), ServerContext { server: key.clone() });
    config.current_context = name;
    Ok(key)
}

// ---- laws ----

/// Whether a server's stored form ends in white space, as that of `x /` does.
/// Such a form is not stored as itself again.
pub open spec fn ends_blank(server: Seq<char>) -> bool {
    normalized(server).len() > 0 && is_white_space(normalized(server).last())
}

proof fn lemma_trim_start(s: Seq<char>)
    ensures
        trim_start(s).len() > 0 ==> !is_white_space(trim_start(s)[0]),
    decreases s.len(),
{
    if s.len() > 0 && is_white_space(s[0]) {
        lemma_trim_start(s.skip(1));
    }
}

proof fn lemma_trim_end(s: Seq<char>)
    ensures
        trim_end(s).is_prefix_of(s),
    decreases s.len(),
{
    if s.len() > 0 && is_white_space(s.last()) {
        lemma_trim_end(s.drop_last());
        assert(trim_end(s) =~= s.take(trim_end(s).len() as int));
    } else {
        assert(s =~= s.take(s.len() as int));
    }
}

proof fn lemma_trim_end_char(s: Seq<char>, c: char)
    ensures
        trim_end_char(s, c).is_prefix_of(s),
        trim_end_char(s, c).len() > 0 ==> trim_end_char(s, c).last() != c,
    decreases s.len(),
{
    if s.len() > 0 && s.last() == c {
        lemma_trim_end_char(s.drop_last(), c);
        assert(trim_end_char(s, c) =~= s.take(trim_end_char(s, c).len() as int));
    } else {
        assert(s =~= s.take(s.len() as int));
    }
}

/// A stored form is stored as itself.
pub proof fn law_normalized_once(server: Seq<char>)
    requires
        !ends_blank(server),
    ensures
        normalized(normalized(server)) == normalized(server),
{
    let a = trim_start(server);
    let b = trim_end(a);
    let n = trim_end_char(b, '/');
    lemma_trim_start(server);
    lemma_trim_end(a);
    lemma_trim_end_char(b, '/');
    if n.len() > 0 {
        assert(n[0] == b[0] && b[0] == a[0]);
    }
    assert(trim_start(n) == n);
    assert(trim_end(n) == n);
    assert(trim_end_char(n, '/') == n);
}

/// What was stored for a server is what is found for it, whatever slashes and
/// white space stand around its URL, and the login changes no other server's.
pub proof fn law_saved_credentials_are_found(
    tokens: Map<Seq<char>, CredentialsView>,
    server: Seq<char>,
    creds: CredentialsView,
    other: Seq<char>,
)
    ensures
        lookup(tokens.insert(normalized(server), creds), normalized(other)) == if normalized(
            other,
        ) == normalized(server) {
            Some(creds)
        } else {
            lookup(tokens, normalized(other))
        },
{
}

/// A login makes its server the default one, unless its context has no name to
/// be active by, and its name resolves to it.
pub proof fn law_login_activates(
    cfg: ConfigFileView,
    server: Seq<char>,
    alias: Option<Seq<char>>,
)
    requires
        !ends_blank(server),
    ensures
        default_server(activated(cfg, server, alias)) == if context_name(alias).len() > 0 {
            Some(normalized(server))
        } else {
            None
        },
        server_named(activated(cfg, server, alias), context_name(alias)) == normalized(server),
{
    law_normalized_once(server);
}

/// A switch makes what was named the default server, unless the context has no
/// name to be active by.
pub proof fn law_switch_activates(cfg: ConfigFileView, s: Seq<char>, after: ConfigFileView)
    requires
        cfg.contexts.contains_key(s) || !ends_blank(s),
        switched(cfg, s, after),
    ensures
        default_server(after) == if after.current_context.len() > 0 {
            Some(server_named(cfg, s))
        } else {
            None
        },
{
    if !ends_blank(s) {
        law_normalized_once(s);
    }
}

/// Contexts of one server share its login: a new one through any of them is
/// found through all.
pub proof fn law_contexts_share_credentials(
    tokens: Map<Seq<char>, CredentialsView>,
    cfg: ConfigFileView,
    server: Seq<char>,
    creds: CredentialsView,
    name: Seq<char>,
)
    requires
        points_at(cfg.contexts, name, normalized(server)),
    ensures
        lookup(tokens.insert(normalized(server), creds), server_named(cfg, name)) == Some(creds),
{
}

/// After a logout nothing is found for the server and no context points at it;
/// every other server and every other context is as before.
pub proof fn law_logout_leaves_no_trace(
    tokens: Map<Seq<char>, CredentialsView>,
    cfg: ConfigFileView,
    server: Seq<char>,
    other: Seq<char>,
    name: Seq<char>,
)
    ensures
        lookup(tokens.remove(normalized(server)), normalized(server)) is None,
        normalized(other) != normalized(server) ==> lookup(
            tokens.remove(normalized(server)),
            normalized(other),
        ) == lookup(tokens, normalized(other)),
        !points_at(without_server(cfg, server).contexts, name, normalized(server)),
        !points_at(cfg.contexts, name, normalized(server)) ==> lookup(
            without_server(cfg, server).contexts,
            name,
        ) == lookup(cfg.contexts, name),
        points_at(cfg.contexts, cfg.current_context, normalized(server)) ==> without_server(
            cfg,
            server,
        ).current_context.len() == 0,
{
}

/// Whether the active context exists, or none is named active.
pub open spec fn active_exists(cfg: ConfigFileView) -> bool {
    cfg.current_context.len() > 0 ==> cfg.contexts.contains_key(cfg.current_context)
}

/// Whether every context points at a server with credentials.
pub open spec fn all_backed(
    tokens: Map<Seq<char>, CredentialsView>,
    contexts: Map<Seq<char>, Seq<char>>,
) -> bool {
    forall|name: Seq<char>| #[trigger]
        contexts.contains_key(name) ==> tokens.contains_key(normalized(contexts[name]))
}

/// Logging in and logging out keep two things: no context points at a server
/// without credentials, and the active context exists.
pub proof fn law_contexts_stay_backed(
    tokens: Map<Seq<char>, CredentialsView>,
    cfg: ConfigFileView,
    server: Seq<char>,
    creds: CredentialsView,
    alias: Option<Seq<char>>,
)
    requires
        all_backed(tokens, cfg.contexts),
        active_exists(cfg),
    ensures
        !ends_blank(server) ==> all_backed(
            tokens.insert(normalized(server), creds),
            activated(cfg, server, alias).contexts,
        ),
        active_exists(activated(cfg, server, alias)),
        all_backed(tokens.remove(normalized(server)), without_server(cfg, server).contexts),
        active_exists(without_server(cfg, server)),
{
    if !ends_blank(server) {
        law_normalized_once(server);
    }
}

/// Switching keeps them too: where it is allowed, to a context or to a server
/// with credentials, every context stays backed, and the active one exists.
pub proof fn law_switch_keeps_contexts_backed(
    tokens: Map<Seq<char>, CredentialsView>,
    cfg: ConfigFileView,
    s: Seq<char>,
    after: ConfigFileView,
)
    requires
        all_backed(tokens, cfg.contexts),
        cfg.contexts.contains_key(s) || tokens.contains_key(normalized(s)),
        switched(cfg, s, after),
    ensures
        cfg.contexts.contains_key(s) || !ends_blank(s) ==> all_backed(tokens, after.contexts),
        after.contexts.contains_key(after.current_context),
        active_exists(after),
{
    if !ends_blank(s) {
        law_normalized_once(s);
    }
}

} // verus!
