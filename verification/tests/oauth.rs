//! Logins: secrets, addresses, forms, tokens, the redirect.

use bbcli::oauth::{
    check_room, code_challenge, credentials_from, exchange_form, head_complete, http_response, on_paste,
    on_request, pkce_pair, random_token, redirect_uri, refresh_form, registration, rejection,
    request_target, revoke_form, OAuth2Client, TokenResponse, Wait,
};
use bbcli::store::Credentials;

use base64::engine::general_purpose::URL_SAFE_NO_PAD;
use base64::Engine;
use sha2::{Digest, Sha256};

#[test]
fn pkce_pair_shape() {
    let (verifier, challenge) = pkce_pair();
    assert!((43..=128).contains(&verifier.len()), "verifier length {}", verifier.len());
    assert_eq!(challenge, URL_SAFE_NO_PAD.encode(Sha256::digest(verifier.as_bytes())));
    let (v2, c2) = pkce_pair();
    assert_ne!(verifier, v2);
    assert_ne!(challenge, c2);
}

#[test]
fn authorize_url_encoding() {
    let client = OAuth2Client::new("https://bb.example.com/", false).unwrap();
    let url = client.authorize_url("bb_oauth_1", "http://127.0.0.1:1234/callback", "st", "ch%=");
    assert!(url.starts_with("https://bb.example.com/api/oauth2/authorize?"));
    assert!(url.contains("client_id=bb_oauth_1"));
    assert!(url.contains("redirect_uri=http%3A%2F%2F127.0.0.1%3A1234%2Fcallback"));
    assert!(url.contains("state=st"));
    assert!(url.contains("code_challenge=ch%25%3D"));
    assert!(url.contains("code_challenge_method=S256"));
}

#[test]
fn rejects_unparsable_server_url() {
    assert!(OAuth2Client::new("not a url at all", false).is_err());
}

#[test]
fn the_address_to_authorize_is_exact() {
    let client = OAuth2Client::new(" https://bb.example.com// ", true).unwrap();
    assert_eq!(client.server, "https://bb.example.com");
    assert!(client.insecure);
    assert_eq!(client.endpoint("token"), "https://bb.example.com/api/oauth2/token");
    assert_eq!(
        client.checked_authorize_url("c", "http://r", "s", "x").as_deref(),
        Some(
            "https://bb.example.com/api/oauth2/authorize?response_type=code&client_id=c&\
             redirect_uri=http%3A%2F%2Fr&state=s&code_challenge=x&code_challenge_method=S256"
        )
    );
    let err = OAuth2Client::new("nope", false).unwrap_err();
    assert_eq!(err.context, "invalid server URL \"nope\"");
    assert_eq!(err.cause, "relative URL without a base");
}

#[test]
fn the_challenge_is_the_digest_of_the_verifier() {
    // The pair that RFC 7636 gives as its example.
    assert_eq!(
        code_challenge("dBjftJeZ4CVP-mB92K27uhbUJU1p1r_wW1gFWFOEjXk"),
        "E9Melhoa2OwvFrEMTJguCHaoeK1t8URWbuGJSstw-cM"
    );
}

#[test]
fn a_random_token_has_the_length_of_its_bytes() {
    for (bytes, chars) in [(0, 0), (1, 2), (2, 3), (3, 4), (24, 32), (48, 64)] {
        let token = random_token(bytes);
        assert_eq!(token.len(), chars);
        assert_eq!(URL_SAFE_NO_PAD.decode(&token).unwrap().len(), bytes);
    }
    assert_ne!(random_token(24), random_token(24));
}

#[test]
fn requests_and_forms_hold_what_the_server_asks_for() {
    assert_eq!(
        registration("http://r").compact(),
        "{\"client_name\":\"bbcli\",\"grant_types\":[\"authorization_code\",\"refresh_token\"],\
         \"redirect_uris\":[\"http://r\"],\"token_endpoint_auth_method\":\"none\"}"
    );
    let pairs = |form: Vec<(String, String)>| {
        form.iter().map(|(k, v)| format!("{k}={v}")).collect::<Vec<_>>().join("&")
    };
    assert_eq!(
        pairs(exchange_form("c", "http://r", "code1", "v")),
        "client_id=c&grant_type=authorization_code&code=code1&redirect_uri=http://r&code_verifier=v"
    );
    assert_eq!(
        pairs(refresh_form(&creds())),
        "client_id=c&grant_type=refresh_token&refresh_token=rt"
    );
    assert_eq!(pairs(revoke_form(&creds())), "token=rt&client_id=c");
    assert_eq!(rejection("400 Bad Request", "{}"), "HTTP 400 Bad Request: {}");
}

fn creds() -> Credentials {
    Credentials {
        client_id: "c".to_string(),
        access_token: "at".to_string(),
        refresh_token: "rt".to_string(),
        expires_at: 0,
        refresh_expires_at: 0,
    }
}

fn answer(refresh_token: Option<&str>) -> TokenResponse {
    TokenResponse {
        access_token: "new".to_string(),
        expires_in: 3600,
        refresh_token: refresh_token.map(|s| s.to_string()),
    }
}

#[test]
fn tokens_last_from_now_and_a_refresh_token_is_kept() {
    let fresh = credentials_from("c", Some("rt"), answer(Some("rt2")), 1000).unwrap();
    assert_eq!(fresh.access_token, "new");
    assert_eq!(fresh.refresh_token, "rt2");
    assert_eq!(fresh.expires_at, 4600);
    assert_eq!(fresh.refresh_expires_at, 1000 + 30 * 24 * 3600);
    let kept = credentials_from("c", Some("rt"), answer(None), 1000).unwrap();
    assert_eq!(kept.refresh_token, "rt");
    assert_eq!(
        credentials_from("c", None, answer(None), 1000).unwrap_err(),
        "token response carried no refresh token"
    );
}

#[test]
fn a_head_ends_at_the_blank_line_or_is_too_long() {
    assert!(!head_complete(&Vec::new()));
    assert!(!head_complete(&b"GET / HTTP/1.1\r\n".to_vec()));
    assert!(head_complete(&b"GET / HTTP/1.1\r\nHost: x\r\n\r\n".to_vec()));
    assert!(head_complete(&b"\r\n\r\n".to_vec()));
    assert!(!head_complete(&vec![b'a'; 65536]));
    assert!(head_complete(&vec![b'a'; 65537]));
}

#[test]
fn the_target_is_the_second_word_of_the_first_line() {
    assert_eq!(request_target("GET /callback?a=b HTTP/1.1\r\nHost: x\r\n\r\n"), "/callback?a=b");
    assert_eq!(request_target("GET"), "");
    assert_eq!(request_target(""), "");
}

fn request(line: &str) -> (String, Wait) {
    on_request(&format!("{line}\r\nHost: 127.0.0.1\r\n\r\n").into_bytes(), "st")
}

#[test]
fn a_redirect_brings_the_code_only_with_the_state() {
    let (shown, wait) = request("GET /callback?code=a%2Fb+c&state=st HTTP/1.1");
    assert!(shown.starts_with("HTTP/1.1 200 OK\r\n"), "{shown}");
    assert!(shown.contains("<h2>Logged in</h2>"), "{shown}");
    match wait {
        Wait::Code(code) => assert_eq!(code, "a/b c"),
        _ => panic!("the code is here"),
    }
    let (shown, wait) = request("GET /callback?code=x&state=other HTTP/1.1");
    assert!(shown.starts_with("HTTP/1.1 400 Bad Request\r\n"), "{shown}");
    match wait {
        Wait::Fail(why) => assert_eq!(why, "OAuth2 state mismatch on callback"),
        _ => panic!("another state"),
    }
    match request("GET /callback?code=x HTTP/1.1").1 {
        Wait::Fail(why) => assert_eq!(why, "OAuth2 state mismatch on callback"),
        _ => panic!("no state"),
    }
    match request("GET /callback?state=st HTTP/1.1").1 {
        Wait::Fail(why) => assert_eq!(why, "callback carried no authorization code"),
        _ => panic!("no code"),
    }
    // The last of two fields with one name counts.
    match request("GET /callback?state=no&state=st&code=1&code=2 HTTP/1.1").1 {
        Wait::Code(code) => assert_eq!(code, "2"),
        _ => panic!("the code is here"),
    }
}

#[test]
fn a_refused_authorization_ends_the_login() {
    let (shown, wait) =
        request("GET /callback?error=access_denied&error_description=no+way&state=x HTTP/1.1");
    assert!(shown.contains("<h2>Authorization failed</h2><p>access_denied</p>"), "{shown}");
    match wait {
        Wait::Fail(why) => assert_eq!(why, "authorization failed: access_denied: no way"),
        _ => panic!("refused"),
    }
    match request("GET /callback?error=e HTTP/1.1").1 {
        Wait::Fail(why) => assert_eq!(why, "authorization failed: e"),
        _ => panic!("refused"),
    }
}

#[test]
fn what_is_not_the_redirect_lets_the_wait_go_on() {
    let (shown, wait) = request("GET /favicon.ico HTTP/1.1");
    assert!(shown.starts_with("HTTP/1.1 404 Not Found\r\n"), "{shown}");
    assert!(matches!(wait, Wait::Continue));
    let (shown, wait) = request("GET :99999999 HTTP/1.1");
    assert!(shown.starts_with("HTTP/1.1 400 Bad Request\r\n"), "{shown}");
    assert!(matches!(wait, Wait::Continue));
    // Bytes that are no UTF-8 are replaced.
    let (_, wait) = on_request(&b"GET /callback?code=\xff&state=st HTTP/1.1\r\n\r\n".to_vec(), "st");
    match wait {
        Wait::Code(code) => assert_eq!(code, "\u{fffd}"),
        _ => panic!("the code is here"),
    }
}

#[test]
fn a_pasted_redirect_is_judged_alike_and_a_bare_code_is_not_taken() {
    let uri = redirect_uri(38123);
    assert_eq!(uri, "http://127.0.0.1:38123/callback");
    match on_paste(&format!("  {uri}?code=a%2Fb&state=st\n"), &uri, "st") {
        (None, Wait::Code(code)) => assert_eq!(code, "a/b"),
        _ => panic!("the code is here"),
    }
    match on_paste(&format!("{uri}?code=a&state=no"), &uri, "st") {
        (None, Wait::Fail(why)) => assert_eq!(why, "OAuth2 state mismatch on callback"),
        _ => panic!("another state"),
    }
    match on_paste("a-bare-code", &uri, "st") {
        (Some(note), Wait::Continue) => assert_eq!(
            note,
            "that is not the redirect address: paste the whole URL, which begins with \
             http://127.0.0.1:38123/callback"
        ),
        _ => panic!("a bare code is pointed out"),
    }
    assert!(matches!(on_paste(&format!("{uri}/other?x"), &uri, "st"), (Some(_), Wait::Continue)));
    assert!(matches!(on_paste(" \n", &uri, "st"), (None, Wait::Continue)));
}

#[test]
fn the_length_of_a_page_counts_bytes() {
    let shown = http_response("200 OK", "Ü", "");
    let (head, page) = shown.split_once("\r\n\r\n").unwrap();
    assert!(head.contains(&format!("Content-Length: {}", page.len())), "{head}");
    assert_ne!(page.len(), page.chars().count());
}

#[test]
fn a_long_address_is_an_address() {
    let mut server = "https://bb.example.com/".to_string();
    server.push_str(&"a".repeat(43_000_000));
    let client = OAuth2Client { server, insecure: false };
    let url = client.checked_authorize_url("c", "http://r", "s", "x").unwrap();
    assert!(url.ends_with("&code_challenge_method=S256"));
    let client = OAuth2Client { server: "nope".to_string(), insecure: false };
    assert!(client.checked_authorize_url("c", "http://r", "s", "x").is_none());
}

#[test]
fn fields_stand_between_the_query_and_the_fragment() {
    let client = OAuth2Client { server: "https://h/?a=1#f".to_string(), insecure: false };
    assert_eq!(
        client.checked_authorize_url("c d", "é", "s", "x").as_deref(),
        Some(
            "https://h/?a=1&response_type=code&client_id=c+d&redirect_uri=%C3%A9&state=s&\
             code_challenge=x&code_challenge_method=S256#f/api/oauth2/authorize"
        )
    );
    assert!(check_room("https://h/#f", &[("k", "v")]));
    assert!(check_room("https://h/?a=1#f", &[]));
}
