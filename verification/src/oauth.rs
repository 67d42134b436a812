//! The OAuth2 side of a login: requests and forms of the authorization server,
//! the secrets of a login, and the redirect that brings the code.
//!
//! The redirect comes to a listener on this machine, or is pasted from the
//! address bar of a browser elsewhere. Both are checked alike.

use vstd::prelude::*;
use vstd::string::StringExecFns;
use vstd::utf8::{decode_utf8, encode_utf8, valid_utf8};

use crate::codec::{
    base64_fits, base64_text, base64_url, is_unreserved, law_base64_url_is_unreserved,
    lemma_base64_url_len, random_bytes, sha256, sha256_of,
};
use crate::json::{no_members, opt_view, texts_view, Json, JsonView, Members};
use crate::numbers::{decimal, u64_text};
use crate::resolve::owned;
use crate::store::{normalize, normalized, Credentials, CredentialsView};
use crate::text::{
    has_prefix, line_seq, lines, quoted, quoted_text, same_text, split_words, strip_prefix, trim,
    trim_both, views, words,
};

verus! {

/// How long a refresh token lives: thirty days.
pub const REFRESH_TOKEN_LIFETIME_SECS: i64 = 2592000;

/// How many seconds a request to the authorization server may take.
pub const OAUTH_TIMEOUT_SECS: u64 = 30;

/// How many seconds the redirect is waited for.
pub const CALLBACK_TIMEOUT_SECS: u64 = 600;

// ---- URLs ----

/// The parts of a URL that matter here.
#[derive(Debug)]
pub struct UrlParts {
    /// The whole URL, as it is written.
    pub text: String,
    pub path: String,
    /// The fields of the query, decoded, in their order.
    pub query: Vec<(String, String)>,
}

/// The same by its texts.
pub struct UrlPartsView {
    pub text: Seq<char>,
    pub path: Seq<char>,
    pub query: Seq<(Seq<char>, Seq<char>)>,
}

impl View for UrlParts {
    type V = UrlPartsView;

    open spec fn view(&self) -> UrlPartsView {
        UrlPartsView { text: self.text@, path: self.path@, query: views(self.query@) }
    }
}

/// What `Url::parse` makes of a text: the URL with its path and the fields of its
/// query, or the words with which it is refused.
pub uninterp spec fn url_parts(text: Seq<char>) -> Result<UrlPartsView, Seq<char>>;

/// What `Url::parse_with_params` makes of a text and fields: the URL with the
/// fields in its query; nothing if the text is refused.
pub uninterp spec fn url_with_fields(
    text: Seq<char>,
    fields: Seq<(Seq<char>, Seq<char>)>,
) -> Option<Seq<char>>;

/// `Url::parse` of the url crate, with what `as_str`, `path` and `query_pairs` say
/// of the URL: the outcome depends on the text alone.
#[verifier::external_body]
fn parse_url(text: &str) -> (r: Result<UrlParts, String>)
    ensures
        r is Ok <==> url_parts(text@) is Ok,
        r is Ok ==> r->Ok_0@ == url_parts(text@)->Ok_0,
        r is Err ==> r->Err_0@ == url_parts(text@)->Err_0,
{
    match reqwest::Url::parse(text) {
        Ok(u) => Ok(UrlParts {
            text: u.as_str().to_string(),
            path: u.path().to_string(),
            query: u.query_pairs().into_owned().collect(),
        }),
        Err(e) => Err(e.to_string()),
    }
}

/// Where a byte first stands, or the length if it stands nowhere.
pub open spec fn first_byte(bytes: Seq<u8>, b: u8) -> nat
    decreases bytes.len(),
{
    if bytes.len() == 0 || bytes[0] == b {
        0
    } else {
        1 + first_byte(bytes.skip(1), b)
    }
}

/// How many bytes a byte takes in a form: one if it stands for itself or is a
/// space, else three.
pub open spec fn form_width(b: u8) -> nat {
    if 48 <= b <= 57 || 65 <= b <= 90 || 97 <= b <= 122 || b == 32 || b == 42 || b == 45 || b == 46
        || b == 95 {
        1
    } else {
        3
    }
}

/// How many bytes a text takes in a form.
pub open spec fn form_len(bytes: Seq<u8>) -> nat
    decreases bytes.len(),
{
    if bytes.len() == 0 {
        0
    } else {
        form_len(bytes.drop_last()) + form_width(bytes.last())
    }
}

/// How long a URL of `len` bytes, whose query begins at `start`, is with the
/// fields behind it: each is `key=value`, parted by `&` from what stands before.
pub open spec fn len_with(len: nat, start: nat, fields: Seq<(Seq<char>, Seq<char>)>) -> nat
    decreases fields.len(),
{
    if fields.len() == 0 {
        len
    } else {
        let before = len_with(len, start, fields.drop_last());
        let parted: nat = if before > start {
            1
        } else {
            0
        };
        before + parted + form_len(encode_utf8(fields.last().0)) + 1 + form_len(
            encode_utf8(fields.last().1),
        )
    }
}

/// Whether a URL has room for fields. It keeps the places of its query and of its
/// fragment in 32 bits. The query begins at the first `?` before the fragment,
/// or is put behind what stands there; the fragment, which begins at the first
/// `#`, is put behind the fields.
pub open spec fn has_room(url: Seq<char>, fields: Seq<(Seq<char>, Seq<char>)>) -> bool {
    let all = encode_utf8(url);
    let base = all.take(first_byte(all, 35) as int);
    let query = first_byte(base, 63);
    let len = if query < base.len() {
        base.len()
    } else {
        base.len() + 1
    };
    &&& query <= u32::MAX
    &&& base.len() < all.len() ==> base.len() < u32::MAX && len_with(len, query + 1, fields)
        <= u32::MAX
}

pub(crate) proof fn lemma_first_byte(bytes: Seq<u8>, b: u8, n: int)
    requires
        0 <= n <= bytes.len(),
        forall|i: int| 0 <= i < n ==> bytes[i] != b,
        n < bytes.len() ==> bytes[n] == b,
    ensures
        first_byte(bytes, b) == n,
    decreases n,
{
    if n > 0 {
        lemma_first_byte(bytes.skip(1), b, n - 1);
    }
}

/// Where a byte first stands before an end.
fn find_byte(bytes: &[u8], end: usize, b: u8) -> (r: usize)
    requires
        end <= bytes@.len(),
    ensures
        r == first_byte(bytes@.take(end as int), b),
        r <= end,
{
    let ghost part = bytes@.take(end as int);
    let mut i: usize = 0;
    while i < end
        invariant
            i <= end <= bytes@.len(),
            part == bytes@.take(end as int),
            forall|k: int| 0 <= k < i ==> part[k] != b,
        decreases end - i,
    {
        if bytes[i] == b {
            proof {
                lemma_first_byte(part, b, i as int);
            }
            return i;
        }
        i += 1;
    }
    proof {
        lemma_first_byte(part, b, end as int);
    }
    end
}

/// How many bytes a text takes in a form.
fn form_size(s: &str) -> (r: u128)
    ensures
        r == form_len(encode_utf8(s@)),
        r <= 3 * usize::MAX,
{
    let bytes = s.as_bytes();
    let mut n: u128 = 0;
    let mut i: usize = 0;
    proof {
        assert(bytes@.take(0) =~= Seq::empty());
    }
    while i < bytes.len()
        invariant
            i <= bytes@.len(),
            n == form_len(bytes@.take(i as int)),
            n <= 3 * i,
        decreases bytes.len() - i,
    {
        let b: u8 = bytes[i];
        proof {
            let seen = bytes@.take(i + 1);
            assert(seen.drop_last() =~= bytes@.take(i as int));
            assert(seen.last() == b);
        }
        n = n + if (48 <= b && b <= 57) || (65 <= b && b <= 90) || (97 <= b && b <= 122) || b == 32
            || b == 42 || b == 45 || b == 46 || b == 95 {
            1
        } else {
            3
        };
        i += 1;
    }
    proof {
        assert(bytes@.take(bytes@.len() as int) =~= bytes@);
    }
    n
}

proof fn lemma_len_grows(len: nat, start: nat, fields: Seq<(Seq<char>, Seq<char>)>, n: int)
    requires
        0 <= n <= fields.len(),
    ensures
        len_with(len, start, fields.take(n)) <= len_with(len, start, fields),
    decreases fields.len(),
{
    if n < fields.len() {
        lemma_len_grows(len, start, fields.drop_last(), n);
        assert(fields.drop_last().take(n) =~= fields.take(n));
    } else {
        assert(fields.take(n) =~= fields);
    }
}

/// Whether a URL with fields behind it is within the limit of 32 bits.
fn stays_short(len: u128, start: u128, fields: &[(&str, &str)]) -> (r: bool)
    requires
        len <= usize::MAX + 1,
    ensures
        r == (len_with(len as nat, start as nat, views(fields@)) <= u32::MAX),
{
    let ghost all = views(fields@);
    let limit: u128 = 4294967295;
    let mut total: u128 = len;
    let mut i: usize = 0;
    proof {
        assert(all.take(0) =~= Seq::empty());
    }
    while i < fields.len()
        invariant
            i <= fields@.len(),
            all == views(fields@),
            limit == u32::MAX,
            total == len_with(len as nat, start as nat, all.take(i as int)),
            total <= limit || total == len,
            len <= usize::MAX + 1,
        decreases fields.len() - i,
    {
        let (key, value): (&str, &str) = fields[i];
        proof {
            assert(all[i as int] == (key@, value@));
            assert(all.take(i + 1).drop_last() =~= all.take(i as int));
            lemma_len_grows(len as nat, start as nat, all, i + 1);
        }
        if total > start {
            total = total + 1;
        }
        total = total + form_size(key) + 1 + form_size(value);
        if total > limit {
            return false;
        }
        i += 1;
    }
    proof {
        assert(all.take(all.len() as int) =~= all);
    }
    total <= limit
}

/// Whether a URL has room for fields.
pub fn check_room(url: &str, fields: &[(&str, &str)]) -> (r: bool)
    ensures
        r == has_room(url@, views(fields@)),
{
    let bytes = url.as_bytes();
    proof {
        assert(bytes@.take(bytes@.len() as int) =~= bytes@);
    }
    let end: usize = find_byte(bytes, bytes.len(), 35);
    let query: usize = find_byte(bytes, end, 63);
    if query as u128 > 4294967295 {
        return false;
    }
    if end == bytes.len() {
        return true;
    }
    if end as u128 >= 4294967295 {
        return false;
    }
    let len: u128 = if query < end {
        end as u128
    } else {
        end as u128 + 1
    };
    stays_short(len, query as u128 + 1, fields)
}

/// Whether a text is a URL to which fields can be added.
pub open spec fn takes_fields(text: Seq<char>, fields: Seq<(Seq<char>, Seq<char>)>) -> bool {
    url_parts(text) matches Ok(u) && has_room(u.text, fields)
}

/// `Url::parse_with_params` of the url crate, as text: the outcome depends on
/// the arguments alone, and there is one if and only if `Url::parse` takes the
/// text. On a URL that has no room for the fields it panics.
#[verifier::external_body]
fn add_fields(text: &str, fields: &[(&str, &str)]) -> (r: Option<String>)
    requires
        url_parts(text@) is Ok ==> takes_fields(text@, views(fields@)),
    ensures
        opt_view(r) == url_with_fields(text@, views(fields@)),
        r is Some <==> url_parts(text@) is Ok,
{
    match reqwest::Url::parse_with_params(text, fields) {
        Ok(u) => Some(u.to_string()),
        Err(_) => None,
    }
}

// ---- the authorization server ----

/// The authorization server of a Bytebase server.
#[derive(Debug)]
pub struct OAuth2Client {
    /// The server's URL as it is stored.
    pub server: String,
    /// Whether invalid certificates are accepted.
    pub insecure: bool,
}

/// Why a server's URL is refused.
#[derive(Debug)]
pub struct ServerUrlError {
    /// What was wrong.
    pub context: String,
    /// Why.
    pub cause: String,
}

/// The address of an endpoint.
pub open spec fn endpoint(server: Seq<char>, name: Seq<char>) -> Seq<char> {
    server + "/api/oauth2/"@ + name
}

/// The fields of an authorization.
pub open spec fn authorize_fields(
    client_id: Seq<char>,
    redirect_uri: Seq<char>,
    state: Seq<char>,
    code_challenge: Seq<char>,
) -> Seq<(Seq<char>, Seq<char>)> {
    seq![
        ("response_type"@, "code"@),
        ("client_id"@, client_id),
        ("redirect_uri"@, redirect_uri),
        ("state"@, state),
        ("code_challenge"@, code_challenge),
        ("code_challenge_method"@, "S256"@),
    ]
}

/// The refusal of a server's URL.
pub open spec fn invalid_server(server: Seq<char>) -> Seq<char> {
    "invalid server URL "@ + quoted_text(server)
}

impl OAuth2Client {
    /// The authorization server of a server, unless its URL is none.
    pub fn new(server: &str, insecure: bool) -> (r: Result<OAuth2Client, ServerUrlError>)
        ensures
            r is Ok <==> url_parts(normalized(server@)) is Ok,
            r matches Ok(c) ==> c.server@ == normalized(server@) && c.insecure == insecure,
            r matches Err(e) ==> e.context@ == invalid_server(server@) && e.cause@ == url_parts(
                normalized(server@),
            )->Err_0,
    {
        let key = normalize(server);
        match parse_url(key.as_str()) {
            Ok(_) => Ok(OAuth2Client { server: key, insecure }),
            Err(cause) => {
                let mut context = "invalid server URL ".to_owned();
                context.append(quoted(server).as_str());
                Err(ServerUrlError { context, cause })
            },
        }
    }

    /// The address of an endpoint.
    pub fn endpoint(&self, name: &str) -> (r: String)
        ensures
            r@ == endpoint(self.server@, name@),
    {
        let mut s = self.server.clone();
        s.append("/api/oauth2/");
        s.append(name);
        s
    }

    /// The address at which the user authorizes the login.
    pub fn authorize_url(
        &self,
        client_id: &str,
        redirect_uri: &str,
        state: &str,
        code_challenge: &str,
    ) -> (r: String)
        requires
            takes_fields(
                endpoint(self.server@, "authorize"@),
                authorize_fields(client_id@, redirect_uri@, state@, code_challenge@),
            ),
        ensures
            Some(r@) == url_with_fields(
                endpoint(self.server@, "authorize"@),
                authorize_fields(client_id@, redirect_uri@, state@, code_challenge@),
            ),
    {
        let fields = authorization(client_id, redirect_uri, state, code_challenge);
        match add_fields(self.endpoint("authorize").as_str(), &fields) {
            Some(url) => url,
            None => String::new(),
        }
    }

    /// The address at which the user authorizes the login; nothing if the
    /// server's URL does not lead to one, or it has no room for the fields.
    pub fn checked_authorize_url(
        &self,
        client_id: &str,
        redirect_uri: &str,
        state: &str,
        code_challenge: &str,
    ) -> (r: Option<String>)
        ensures
            opt_view(r) == {
                let base = endpoint(self.server@, "authorize"@);
                let fields = authorize_fields(client_id@, redirect_uri@, state@, code_challenge@);
                if takes_fields(base, fields) {
                    url_with_fields(base, fields)
                } else {
                    None
                }
            },
    {
        let base = self.endpoint("authorize");
        let fields = authorization(client_id, redirect_uri, state, code_challenge);
        match parse_url(base.as_str()) {
            Ok(u) => if check_room(u.text.as_str(), &fields) {
                Some(self.authorize_url(client_id, redirect_uri, state, code_challenge))
            } else {
                None
            },
            Err(_) => None,
        }
    }
}

/// The fields of an authorization.
fn authorization<'a>(
    client_id: &'a str,
    redirect_uri: &'a str,
    state: &'a str,
    code_challenge: &'a str,
) -> (r: [(&'a str, &'a str); 6])
    ensures
        views(r@) == authorize_fields(client_id@, redirect_uri@, state@, code_challenge@),
{
    let fields = [
        ("response_type", "code"),
        ("client_id", client_id),
        ("redirect_uri", redirect_uri),
        ("state", state),
        ("code_challenge", code_challenge),
        ("code_challenge_method", "S256"),
    ];
    proof {
        assert(views(fields@) =~= authorize_fields(
            client_id@,
            redirect_uri@,
            state@,
            code_challenge@,
        ));
    }
    fields
}

// ---- requests and forms ----

/// The registration of a public client.
pub open spec fn registration_members(redirect_uri: Seq<char>) -> Seq<(Seq<char>, JsonView)> {
    no_members()
        .push(("client_name"@, JsonView::Str("bbcli"@)))
        .push(("redirect_uris"@, texts_view(seq![redirect_uri])))
        .push(("grant_types"@, texts_view(seq!["authorization_code"@, "refresh_token"@])))
        .push(("token_endpoint_auth_method"@, JsonView::Str("none"@)))
}

/// The registration of a public client.
pub fn registration(redirect_uri: &str) -> (r: Json)
    ensures
        r@ == JsonView::Object(registration_members(redirect_uri@)),
{
    let mut uris: Vec<String> = Vec::new();
    uris.push(redirect_uri.to_owned());
    let mut grants: Vec<String> = Vec::new();
    grants.push("authorization_code".to_owned());
    grants.push("refresh_token".to_owned());
    proof {
        assert(views(uris@) =~= seq![redirect_uri@]);
        assert(views(grants@) =~= seq!["authorization_code"@, "refresh_token"@]);
    }
    let mut m = Members::new();
    m.put("client_name", Json::text("bbcli"));
    m.put("redirect_uris", Json::texts(&uris));
    m.put("grant_types", Json::texts(&grants));
    m.put("token_endpoint_auth_method", Json::text("none"));
    m.object()
}

/// A field of a form.
fn form_field(key: &str, value: &str) -> (r: (String, String))
    ensures
        r@ == (key@, value@),
{
    (key.to_owned(), value.to_owned())
}

/// The form that exchanges a code for tokens.
pub fn exchange_form(client_id: &str, redirect_uri: &str, code: &str, code_verifier: &str) -> (r:
    Vec<(String, String)>)
    ensures
        views(r@) == seq![
            ("client_id"@, client_id@),
            ("grant_type"@, "authorization_code"@),
            ("code"@, code@),
            ("redirect_uri"@, redirect_uri@),
            ("code_verifier"@, code_verifier@),
        ],
{
    let mut form: Vec<(String, String)> = Vec::new();
    form.push(form_field("client_id", client_id));
    form.push(form_field("grant_type", "authorization_code"));
    form.push(form_field("code", code));
    form.push(form_field("redirect_uri", redirect_uri));
    form.push(form_field("code_verifier", code_verifier));
    proof {
        assert(views(form@) =~= seq![
            ("client_id"@, client_id@),
            ("grant_type"@, "authorization_code"@),
            ("code"@, code@),
            ("redirect_uri"@, redirect_uri@),
            ("code_verifier"@, code_verifier@),
        ]);
    }
    form
}

/// The form that exchanges a refresh token for fresh ones.
pub fn refresh_form(creds: &Credentials) -> (r: Vec<(String, String)>)
    ensures
        views(r@) == seq![
            ("client_id"@, creds@.client_id),
            ("grant_type"@, "refresh_token"@),
            ("refresh_token"@, creds@.refresh_token),
        ],
{
    let mut form: Vec<(String, String)> = Vec::new();
    form.push(form_field("client_id", creds.client_id.as_str()));
    form.push(form_field("grant_type", "refresh_token"));
    form.push(form_field("refresh_token", creds.refresh_token.as_str()));
    proof {
        assert(views(form@) =~= seq![
            ("client_id"@, creds@.client_id),
            ("grant_type"@, "refresh_token"@),
            ("refresh_token"@, creds@.refresh_token),
        ]);
    }
    form
}

/// The form that revokes a refresh token.
pub fn revoke_form(creds: &Credentials) -> (r: Vec<(String, String)>)
    ensures
        views(r@) == seq![("token"@, creds@.refresh_token), ("client_id"@, creds@.client_id)],
{
    let mut form: Vec<(String, String)> = Vec::new();
    form.push(form_field("token", creds.refresh_token.as_str()));
    form.push(form_field("client_id", creds.client_id.as_str()));
    proof {
        assert(views(form@) =~= seq![
            ("token"@, creds@.refresh_token),
            ("client_id"@, creds@.client_id),
        ]);
    }
    form
}

/// The words for an answer that is no success.
pub fn rejection(status: &str, body: &str) -> (r: String)
    ensures
        r@ == "HTTP "@ + status@ + ": "@ + body@,
{
    let mut s = "HTTP ".to_owned();
    s.append(status);
    s.append(": ");
    s.append(body);
    s
}

/// What the token endpoint answers.
#[derive(Debug)]
pub struct TokenResponse {
    pub access_token: String,
    /// In seconds.
    pub expires_in: i64,
    pub refresh_token: Option<String>,
}

/// The same by its texts.
pub struct TokenResponseView {
    pub access_token: Seq<char>,
    pub expires_in: int,
    pub refresh_token: Option<Seq<char>>,
}

impl View for TokenResponse {
    type V = TokenResponseView;

    open spec fn view(&self) -> TokenResponseView {
        TokenResponseView {
            access_token: self.access_token@,
            expires_in: self.expires_in as int,
            refresh_token: opt_view(self.refresh_token),
        }
    }
}

/// The refresh token to keep: the new one, or the one before if there is none.
pub open spec fn kept_refresh_token(resp: TokenResponseView, before: Option<Seq<char>>) -> Option<
    Seq<char>,
> {
    match resp.refresh_token {
        Some(t) => Some(t),
        None => before,
    }
}

/// The credentials that an answer gives; nothing if there is no refresh token
/// to keep.
pub open spec fn granted(
    client_id: Seq<char>,
    before: Option<Seq<char>>,
    resp: TokenResponseView,
    now: int,
) -> Option<CredentialsView> {
    match kept_refresh_token(resp, before) {
        Some(refresh_token) => Some(
            CredentialsView {
                client_id,
                access_token: resp.access_token,
                refresh_token,
                expires_at: now + resp.expires_in,
                refresh_expires_at: now + REFRESH_TOKEN_LIFETIME_SECS,
            },
        ),
        None => None,
    }
}

/// The credentials that an answer gives. The server hands out a new refresh
/// token with every use; where it does not, the one before stays.
pub fn credentials_from(
    client_id: &str,
    before: Option<&str>,
    resp: TokenResponse,
    now: i64,
) -> (r: Result<Credentials, String>)
    requires
        i64::MIN <= now + resp@.expires_in <= i64::MAX,
        now + REFRESH_TOKEN_LIFETIME_SECS <= i64::MAX,
    ensures
        r is Ok <==> granted(client_id@, opt_view(before), resp@, now as int) is Some,
        r matches Ok(c) ==> Some(c@) == granted(client_id@, opt_view(before), resp@, now as int),
        r matches Err(e) ==> e@ == "token response carried no refresh token"@,
{
    let kept = match resp.refresh_token {
        Some(t) => Some(t),
        None => owned(before),
    };
    match kept {
        Some(refresh_token) => Ok(
            Credentials {
                client_id: client_id.to_owned(),
                access_token: resp.access_token,
                refresh_token,
                expires_at: now + resp.expires_in,
                refresh_expires_at: now + REFRESH_TOKEN_LIFETIME_SECS,
            },
        ),
        None => Err("token response carried no refresh token".to_owned()),
    }
}

// ---- secrets ----

/// Whether a text stands for so many bytes in URL base64.
pub open spec fn is_token(s: Seq<char>, n: nat) -> bool {
    exists|b: Seq<u8>| b.len() == n && s == #[trigger] base64_text(b, true)
}

/// A text of random bytes, fit for a URL.
pub fn random_token(n_bytes: usize) -> (r: String)
    requires
        base64_fits(n_bytes as nat),
    ensures
        is_token(r@, n_bytes as nat),
        r@.len() == (n_bytes * 4 + 2) / 3,
        forall|i: int| 0 <= i < r@.len() ==> is_unreserved(#[trigger] r@[i]),
{
    let bytes = random_bytes(n_bytes);
    let r = base64_url(bytes.as_slice());
    proof {
        lemma_base64_url_len(bytes@);
        assert forall|i: int| 0 <= i < r@.len() implies is_unreserved(#[trigger] r@[i]) by {
            law_base64_url_is_unreserved(bytes@, i);
        }
    }
    r
}

/// The challenge that goes with a verifier.
pub open spec fn challenge_for(verifier: Seq<char>) -> Seq<char> {
    base64_text(sha256_of(encode_utf8(verifier)), true)
}

/// The challenge that goes with a verifier: its SHA-256 in URL base64.
pub fn code_challenge(verifier: &str) -> (r: String)
    ensures
        r@ == challenge_for(verifier@),
{
    let digest = sha256(verifier.as_bytes());
    base64_url(digest.as_slice())
}

/// A verifier and its challenge. The verifier is as long as it has to be, and
/// of characters that it may have.
pub fn pkce_pair() -> (r: (String, String))
    ensures
        is_token((r.0)@, 48),
        (r.0)@.len() == 64,
        43 <= (r.0)@.len() <= 128,
        forall|i: int| 0 <= i < (r.0)@.len() ==> is_unreserved(#[trigger] (r.0)@[i]),
        (r.1)@ == challenge_for((r.0)@),
{
    let verifier = random_token(48);
    let challenge = code_challenge(verifier.as_str());
    (verifier, challenge)
}

// ---- the redirect ----

/// The address that the browser is sent back to.
pub open spec fn redirect_to(port: nat) -> Seq<char> {
    "http://127.0.0.1:"@ + decimal(port) + "/callback"@
}

/// The address that the browser is sent back to.
pub fn redirect_uri(port: u16) -> (r: String)
    ensures
        r@ == redirect_to(port as nat),
{
    let mut s = "http://127.0.0.1:".to_owned();
    s.append(u64_text(port as u64).as_str());
    s.append("/callback");
    s
}

/// Whether the head of a request ends at the place.
pub open spec fn head_ends_at(buf: Seq<u8>, i: int) -> bool {
    0 <= i && i + 4 <= buf.len() && buf[i] == 13 && buf[i + 1] == 10 && buf[i + 2] == 13 && buf[i
        + 3] == 10
}

/// Whether enough of a request has been read: its head to the blank line, or
/// more than any head should hold.
pub open spec fn head_done(buf: Seq<u8>) -> bool {
    buf.len() > 65536 || exists|i: int| head_ends_at(buf, i)
}

/// Whether enough of a request has been read.
pub fn head_complete(buf: &Vec<u8>) -> (r: bool)
    ensures
        r == head_done(buf@),
{
    let n: usize = buf.len();
    if n > 65536 {
        return true;
    }
    if n < 4 {
        return false;
    }
    let mut i: usize = 0;
    while i <= n - 4
        invariant
            4 <= n,
            n == buf@.len(),
            n <= 65536,
            i <= n - 3,
            forall|k: int| 0 <= k < i ==> !head_ends_at(buf@, k),
        decreases n - i,
    {
        if buf[i] == 13 && buf[i + 1] == 10 && buf[i + 2] == 13 && buf[i + 3] == 10 {
            proof {
                assert(head_ends_at(buf@, i as int));
            }
            return true;
        }
        i += 1;
    }
    false
}

/// Bytes as text, with a replacement for what is no UTF-8.
pub uninterp spec fn lossy_text(bytes: Seq<u8>) -> Seq<char>;

/// `String::from_utf8_lossy`: the text depends on the bytes alone, and bytes in
/// UTF-8 give the text that they encode.
#[verifier::external_body]
fn from_utf8_lossy(bytes: &[u8]) -> (r: String)
    ensures
        r@ == lossy_text(bytes@),
        valid_utf8(bytes@) ==> r@ == decode_utf8(bytes@),
{
    String::from_utf8_lossy(bytes).into_owned()
}

/// The target of a request: the second word of its first line.
pub open spec fn target_of(head: Seq<char>) -> Seq<char> {
    let all = line_seq(head);
    if all.len() == 0 || words(all[0]).len() < 2 {
        Seq::empty()
    } else {
        words(all[0])[1]
    }
}

/// The target of a request.
pub fn request_target(head: &str) -> (r: String)
    ensures
        r@ == target_of(head@),
{
    let all = lines(head);
    if all.len() == 0 {
        return String::new();
    }
    let parts = split_words(all[0].as_str());
    proof {
        assert(views(all@)[0] == all@[0]@);
    }
    if parts.len() < 2 {
        return String::new();
    }
    proof {
        assert(views(parts@)[1] == parts@[1]@);
    }
    parts[1].clone()
}

/// The value of the last field with the key.
pub open spec fn last_value(fields: Seq<(Seq<char>, Seq<char>)>, key: Seq<char>) -> Option<
    Seq<char>,
>
    decreases fields.len(),
{
    if fields.len() == 0 {
        None
    } else if fields.last().0 == key {
        Some(fields.last().1)
    } else {
        last_value(fields.drop_last(), key)
    }
}

/// The value of the last field with the key.
fn last_field(fields: &Vec<(String, String)>, key: &str) -> (r: Option<String>)
    ensures
        opt_view(r) == last_value(views(fields@), key@),
{
    let ghost all = views(fields@);
    let mut i: usize = fields.len();
    proof {
        assert(all.take(all.len() as int) =~= all);
    }
    while i > 0
        invariant
            i <= fields@.len(),
            all == views(fields@),
            last_value(all, key@) == last_value(all.take(i as int), key@),
        decreases i,
    {
        i -= 1;
        proof {
            assert(all.take(i + 1).drop_last() =~= all.take(i as int));
            assert(all.take(i + 1).last() == fields@[i as int]@);
        }
        if same_text(fields[i].0.as_str(), key) {
            return Some(fields[i].1.clone());
        }
    }
    None
}

/// What a redirect amounts to.
#[derive(Debug)]
pub enum Callback {
    /// No URL.
    BadRequest,
    /// Another address than that of the redirect.
    NotFound,
    /// The authorization was refused: the error, and what it says of itself.
    Denied(String, Option<String>),
    /// The state is not the one of this login.
    StateMismatch,
    /// There is no code.
    NoCode,
    /// The code.
    Code(String),
}

/// The same by its texts.
pub enum CallbackView {
    BadRequest,
    NotFound,
    Denied(Seq<char>, Option<Seq<char>>),
    StateMismatch,
    NoCode,
    Code(Seq<char>),
}

impl View for Callback {
    type V = CallbackView;

    open spec fn view(&self) -> CallbackView {
        match *self {
            Callback::BadRequest => CallbackView::BadRequest,
            Callback::NotFound => CallbackView::NotFound,
            Callback::Denied(e, d) => CallbackView::Denied(e@, opt_view(d)),
            Callback::StateMismatch => CallbackView::StateMismatch,
            Callback::NoCode => CallbackView::NoCode,
            Callback::Code(c) => CallbackView::Code(c@),
        }
    }
}

/// What a redirect amounts to, given what its address parses to. An error of
/// the server comes before the check of the state, and that before the code.
pub open spec fn callback_of(
    url: Result<UrlPartsView, Seq<char>>,
    expected_state: Seq<char>,
) -> CallbackView {
    match url {
        Err(_) => CallbackView::BadRequest,
        Ok(parts) => if parts.path != "/callback"@ {
            CallbackView::NotFound
        } else {
            match last_value(parts.query, "error"@) {
                Some(e) => CallbackView::Denied(e, last_value(parts.query, "error_description"@)),
                None => if last_value(parts.query, "state"@) != Some(expected_state) {
                    CallbackView::StateMismatch
                } else {
                    match last_value(parts.query, "code"@) {
                        Some(code) => CallbackView::Code(code),
                        None => CallbackView::NoCode,
                    }
                },
            }
        },
    }
}

/// The result of a parse by its views.
pub open spec fn parsed_url(r: Result<UrlParts, String>) -> Result<UrlPartsView, Seq<char>> {
    match r {
        Ok(p) => Ok(p@),
        Err(e) => Err(e@),
    }
}

/// What a redirect amounts to, given what its address parses to.
pub fn judge_callback(url: Result<UrlParts, String>, expected_state: &str) -> (r: Callback)
    ensures
        r@ == callback_of(parsed_url(url), expected_state@),
{
    let parts = match url {
        Ok(parts) => parts,
        Err(_) => {
            return Callback::BadRequest;
        },
    };
    if !same_text(parts.path.as_str(), "/callback") {
        return Callback::NotFound;
    }
    match last_field(&parts.query, "error") {
        Some(e) => {
            return Callback::Denied(e, last_field(&parts.query, "error_description"));
        },
        None => {},
    }
    let known = match last_field(&parts.query, "state") {
        Some(s) => same_text(s.as_str(), expected_state),
        None => false,
    };
    if !known {
        return Callback::StateMismatch;
    }
    match last_field(&parts.query, "code") {
        Some(code) => Callback::Code(code),
        None => Callback::NoCode,
    }
}

/// The address that a target is judged by; its host does not matter.
pub open spec fn local_url(target: Seq<char>) -> Seq<char> {
    "http://localhost"@ + target
}

/// What the redirect to a target amounts to.
pub fn judge_target(target: &str, expected_state: &str) -> (r: Callback)
    ensures
        r@ == callback_of(url_parts(local_url(target@)), expected_state@),
{
    let mut s = "http://localhost".to_owned();
    s.append(target);
    let url = parse_url(s.as_str());
    proof {
        assert(parsed_url(url) == url_parts(local_url(target@)));
    }
    judge_callback(url, expected_state)
}

/// The page for the browser.
pub open spec fn page(title: Seq<char>, body: Seq<char>) -> Seq<char> {
    "<!DOCTYPE html><html><head><title>"@ + title
        + "</title></head><body style=\"font-family:sans-serif;text-align:center;padding:3em\"><h2>"@
        + title + "</h2><p>"@ + body + "</p></body></html>"@
}

/// The response to the browser. The length counts bytes.
pub open spec fn response(status: Seq<char>, title: Seq<char>, body: Seq<char>) -> Seq<char> {
    "HTTP/1.1 "@ + status
        + "\r\nContent-Type: text/html; charset=utf-8\r\nContent-Length: "@ + decimal(
        encode_utf8(page(title, body)).len(),
    ) + "\r\nConnection: close\r\n\r\n"@ + page(title, body)
}

/// The response to the browser.
pub fn http_response(status: &str, title: &str, body: &str) -> (r: String)
    ensures
        r@ == response(status@, title@, body@),
{
    let mut html = "<!DOCTYPE html><html><head><title>".to_owned();
    html.append(title);
    html.append(
        "</title></head><body style=\"font-family:sans-serif;text-align:center;padding:3em\"><h2>",
    );
    html.append(title);
    html.append("</h2><p>");
    html.append(body);
    html.append("</p></body></html>");
    let mut s = "HTTP/1.1 ".to_owned();
    s.append(status);
    s.append("\r\nContent-Type: text/html; charset=utf-8\r\nContent-Length: ");
    s.append(u64_text(html.as_str().as_bytes().len() as u64).as_str());
    s.append("\r\nConnection: close\r\n\r\n");
    s.append(html.as_str());
    s
}

/// What the browser is shown for a redirect.
pub open spec fn response_to(c: CallbackView) -> Seq<char> {
    match c {
        CallbackView::BadRequest => response("400 Bad Request"@, "Bad request"@, ""@),
        CallbackView::NotFound => response("404 Not Found"@, "Not found"@, ""@),
        CallbackView::Denied(e, _) => response("200 OK"@, "Authorization failed"@, e),
        CallbackView::StateMismatch => response("400 Bad Request"@, "State mismatch"@, ""@),
        CallbackView::NoCode => response("400 Bad Request"@, "Missing code"@, ""@),
        CallbackView::Code(_) => response(
            "200 OK"@,
            "Logged in"@,
            "You can close this tab and return to the terminal."@,
        ),
    }
}

/// How the wait goes on.
#[derive(Debug)]
pub enum Wait {
    /// On.
    Continue,
    /// The login has failed: why.
    Fail(String),
    /// The code is here.
    Code(String),
}

/// The same by its texts.
pub enum WaitView {
    Continue,
    Fail(Seq<char>),
    Code(Seq<char>),
}

impl View for Wait {
    type V = WaitView;

    open spec fn view(&self) -> WaitView {
        match *self {
            Wait::Continue => WaitView::Continue,
            Wait::Fail(s) => WaitView::Fail(s@),
            Wait::Code(c) => WaitView::Code(c@),
        }
    }
}

/// How the wait goes on after a redirect. Only what is not the redirect at all
/// lets it go on.
pub open spec fn wait_after(c: CallbackView) -> WaitView {
    match c {
        CallbackView::BadRequest => WaitView::Continue,
        CallbackView::NotFound => WaitView::Continue,
        CallbackView::Denied(e, d) => WaitView::Fail(
            match d {
                Some(d) => "authorization failed: "@ + e + ": "@ + d,
                None => "authorization failed: "@ + e,
            },
        ),
        CallbackView::StateMismatch => WaitView::Fail("OAuth2 state mismatch on callback"@),
        CallbackView::NoCode => WaitView::Fail("callback carried no authorization code"@),
        CallbackView::Code(code) => WaitView::Code(code),
    }
}

impl Callback {
    /// What the browser is shown.
    pub fn response(&self) -> (r: String)
        ensures
            r@ == response_to(self@),
    {
        match self {
            Callback::BadRequest => http_response("400 Bad Request", "Bad request", ""),
            Callback::NotFound => http_response("404 Not Found", "Not found", ""),
            Callback::Denied(e, _) => http_response("200 OK", "Authorization failed", e.as_str()),
            Callback::StateMismatch => http_response("400 Bad Request", "State mismatch", ""),
            Callback::NoCode => http_response("400 Bad Request", "Missing code", ""),
            Callback::Code(_) => http_response(
                "200 OK",
                "Logged in",
                "You can close this tab and return to the terminal.",
            ),
        }
    }

    /// How the wait goes on.
    pub fn wait(self) -> (r: Wait)
        ensures
            r@ == wait_after(self@),
    {
        match self {
            Callback::BadRequest => Wait::Continue,
            Callback::NotFound => Wait::Continue,
            Callback::Denied(e, d) => {
                let mut s = "authorization failed: ".to_owned();
                s.append(e.as_str());
                match d {
                    Some(d) => {
                        s.append(": ");
                        s.append(d.as_str());
                    },
                    None => {},
                }
                Wait::Fail(s)
            },
            Callback::StateMismatch => Wait::Fail("OAuth2 state mismatch on callback".to_owned()),
            Callback::NoCode => Wait::Fail("callback carried no authorization code".to_owned()),
            Callback::Code(code) => Wait::Code(code),
        }
    }
}

/// A request of the browser: what it is shown, and how the wait goes on.
pub fn on_request(head: &Vec<u8>, expected_state: &str) -> (r: (String, Wait))
    ensures
        ({
            let c = callback_of(
                url_parts(local_url(target_of(lossy_text(head@)))),
                expected_state@,
            );
            (r.0)@ == response_to(c) && (r.1)@ == wait_after(c)
        }),
{
    let text = from_utf8_lossy(head.as_slice());
    let target = request_target(text.as_str());
    let callback = judge_target(target.as_str(), expected_state);
    let shown = callback.response();
    (shown, callback.wait())
}

/// What a pasted line amounts to: nothing if it does not begin with the address
/// of the redirect, else what the redirect to it amounts to.
pub open spec fn paste_of(
    line: Seq<char>,
    redirect_uri: Seq<char>,
    expected_state: Seq<char>,
) -> Option<CallbackView> {
    let s = trim_both(line);
    if has_prefix(s, redirect_uri) {
        Some(
            callback_of(
                url_parts(local_url("/callback"@ + s.skip(redirect_uri.len() as int))),
                expected_state,
            ),
        )
    } else {
        None
    }
}

/// How the wait goes on after a pasted line. A line that is not the redirect is
/// pointed out, unless it is blank.
pub open spec fn wait_after_paste(
    line: Seq<char>,
    redirect_uri: Seq<char>,
    expected_state: Seq<char>,
) -> (Option<Seq<char>>, WaitView) {
    let c = paste_of(line, redirect_uri, expected_state);
    let wait = match c {
        Some(c) => wait_after(c),
        None => WaitView::Continue,
    };
    if wait is Continue && trim_both(line).len() > 0 {
        (Some(paste_note(redirect_uri)), wait)
    } else {
        (None, wait)
    }
}

/// The note on a line that is not the redirect.
pub open spec fn paste_note(redirect_uri: Seq<char>) -> Seq<char> {
    "that is not the redirect address: paste the whole URL, which begins with "@ + redirect_uri
}

/// A pasted line: a note if it is not the redirect, and how the wait goes on.
/// A bare code is none: the state that comes with it in the URL is checked as
/// it is for a redirect that reaches this machine.
pub fn on_paste(line: &str, redirect_uri: &str, expected_state: &str) -> (r: (Option<String>, Wait))
    ensures
        (opt_view(r.0), (r.1)@) == wait_after_paste(line@, redirect_uri@, expected_state@),
{
    let s = trim(line);
    let wait = match strip_prefix(s, redirect_uri) {
        Some(rest) => {
            let mut target = "/callback".to_owned();
            target.append(rest);
            judge_target(target.as_str(), expected_state).wait()
        },
        None => Wait::Continue,
    };
    let pointless = match &wait {
        Wait::Continue => true,
        _ => false,
    };
    if pointless && !s.is_empty() {
        let mut note =
            "that is not the redirect address: paste the whole URL, which begins with ".to_owned();
        note.append(redirect_uri);
        (Some(note), wait)
    } else {
        (None, wait)
    }
}

// ---- laws ----

/// A pasted redirect is judged as the same redirect is when it reaches this
/// machine: by the same target and for the same state.
pub proof fn law_paste_is_judged_like_the_redirect(
    redirect_uri: Seq<char>,
    query: Seq<char>,
    expected_state: Seq<char>,
)
    requires
        trim_both(redirect_uri + query) == redirect_uri + query,
    ensures
        paste_of(redirect_uri + query, redirect_uri, expected_state) == Some(
            callback_of(url_parts(local_url("/callback"@ + query)), expected_state),
        ),
{
    let s = redirect_uri + query;
    assert(s.take(redirect_uri.len() as int) =~= redirect_uri);
    assert(s.skip(redirect_uri.len() as int) =~= query);
}

/// A line that is not the redirect, such as a bare code, neither ends the wait
/// nor passes in silence.
pub proof fn law_other_lines_change_nothing(
    line: Seq<char>,
    redirect_uri: Seq<char>,
    expected_state: Seq<char>,
)
    requires
        !has_prefix(trim_both(line), redirect_uri),
    ensures
        wait_after_paste(line, redirect_uri, expected_state).1 == WaitView::Continue,
        trim_both(line).len() > 0 ==> wait_after_paste(line, redirect_uri, expected_state).0
            == Some(paste_note(redirect_uri)),
{
}

/// No code is taken that did not come with the state of this login, and none
/// that came with an error.
pub proof fn law_code_only_with_its_state(
    url: Result<UrlPartsView, Seq<char>>,
    expected_state: Seq<char>,
)
    ensures
        wait_after(callback_of(url, expected_state)) matches WaitView::Code(code) ==> {
            &&& url matches Ok(parts)
            &&& parts.path == "/callback"@
            &&& last_value(parts.query, "error"@) is None
            &&& last_value(parts.query, "state"@) == Some(expected_state)
            &&& last_value(parts.query, "code"@) == Some(code)
        },
        wait_after(callback_of(url, expected_state)) is Continue <==> (url matches Ok(parts)
            ==> parts.path != "/callback"@),
{
}

/// A refresh keeps the client, and keeps a refresh token: the new one where
/// there is one, for the old one has been used up.
pub proof fn law_refresh_keeps_a_token(
    before: CredentialsView,
    resp: TokenResponseView,
    now: int,
)
    ensures
        granted(before.client_id, Some(before.refresh_token), resp, now) matches Some(fresh) && {
            &&& fresh.client_id == before.client_id
            &&& fresh.access_token == resp.access_token
            &&& fresh.refresh_token == match resp.refresh_token {
                Some(t) => t,
                None => before.refresh_token,
            }
        },
{
}

} // verus!
