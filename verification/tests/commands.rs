//! What the commands decide and tell.

use bbcli::commands::{
    check_report, config_view, fmt_remaining, login_prompt, login_report, logout_report, no_skill,
    paste_help, project_line, read_args, resolve_server, skill_description, skill_line,
    skill_names, skill_text, status, ArgsError, Expired, Logout, SKILL_SYNTAX_NOTE,
};
use bbcli::json::Json;
use bbcli::store::{save_credentials, ConfigFile, Credentials, TokenFile};

fn creds(id: &str, expires_at: i64, refresh_expires_at: i64) -> Credentials {
    Credentials {
        client_id: id.to_string(),
        access_token: "at".to_string(),
        refresh_token: "rt".to_string(),
        expires_at,
        refresh_expires_at,
    }
}

fn stored() -> (TokenFile, ConfigFile) {
    let mut tokens = TokenFile::new();
    let mut config = ConfigFile::new();
    save_credentials(&mut tokens, &mut config, "https://b", &creds("2", 999, 500), Some("prod"));
    save_credentials(
        &mut tokens,
        &mut config,
        "https://a",
        &creds("1", 1000 + 3700, 1000 + 90061),
        Some("dev"),
    );
    (tokens, config)
}

#[test]
fn the_flag_comes_before_the_project_and_that_before_the_context() {
    let (_, config) = stored();
    let pick = |explicit, from_env, project| resolve_server(explicit, from_env, project, &config);
    let pair = |server: &str, source: &str| Ok((server.to_string(), source.to_string()));
    assert_eq!(pick(Some("prod"), false, Some("dev")), pair("https://b", "--context flag"));
    assert_eq!(
        pick(Some("https://c/"), true, None),
        pair("https://c", "env BBCLI_SERVER")
    );
    assert_eq!(pick(Some("  "), true, Some("prod")), pair("https://b", "project file (.bbcli)"));
    assert_eq!(pick(None, false, None), pair("https://a", "default (context dev)"));
    assert_eq!(
        resolve_server(None, false, None, &ConfigFile::new()),
        Err("no server configured: pass --context (or set BBCLI_SERVER), or run `bbcli login \
             --context <url>` first"
            .to_string())
    );
    assert_eq!(pick(None, false, Some(" ")), Err("empty server name".to_string()));
    assert_eq!(project_line(" staging \n").as_deref(), Some("staging"));
    assert_eq!(project_line(" \n"), None);
}

#[test]
fn what_is_left_is_told_in_two_units() {
    assert_eq!(fmt_remaining(90061, Expired::Terminal), "expires in 1d 1h");
    assert_eq!(fmt_remaining(86400, Expired::Recoverable), "expires in 1d 0h");
    assert_eq!(fmt_remaining(86399, Expired::Terminal), "expires in 23h 59m");
    assert_eq!(fmt_remaining(3599, Expired::Terminal), "expires in 59m");
    assert_eq!(fmt_remaining(1, Expired::Terminal), "expires in 0m");
    assert_eq!(
        fmt_remaining(0, Expired::Recoverable),
        "expired (refreshes automatically on next use)"
    );
    assert_eq!(fmt_remaining(-5, Expired::Terminal), "expired — run `bbcli login` again");
}

#[test]
fn the_status_lists_servers_in_order() {
    let (tokens, config) = stored();
    assert_eq!(
        status(&tokens, &config, 1000),
        [
            "https://a  [default]",
            "  client_id:     1",
            "  access token:  expires in 1h 1m",
            "  refresh token: expires in 1d 1h",
            "https://b",
            "  client_id:     2",
            "  access token:  expired (refreshes automatically on next use)",
            "  refresh token: expired — run `bbcli login` again",
        ]
    );
    assert_eq!(
        status(&TokenFile::new(), &config, 1000),
        ["Not logged in to any server. Run `bbcli login --context <url>`."]
    );
}

#[test]
fn the_configuration_is_shown_whole() {
    let (tokens, config) = stored();
    assert_eq!(
        config_view(None, false, Some("prod"), &config, &tokens, "/c", "/t"),
        [
            "Effective server: https://b (source: project file (.bbcli))",
            "Config file:      /c",
            "Credential file:  /t",
            "Contexts:",
            "  dev -> https://a  [active]",
            "  prod -> https://b",
            "Logged-in servers:",
            "  https://a  [default]",
            "  https://b",
        ]
    );
    assert_eq!(
        config_view(None, false, None, &ConfigFile::new(), &TokenFile::new(), "/c", "/t"),
        [
            "Effective server: - (source: none: run `bbcli login --context <url>`)",
            "Config file:      /c",
            "Credential file:  /t",
        ]
    );
}

#[test]
fn a_check_that_passes_is_reported() {
    let info = Json::parse(r#"{"version": "3.1"}"#).unwrap();
    assert_eq!(
        check_report("https://a", "s", &info, 3599),
        [
            "server:      https://a (source: s)",
            "connectivity: ok (version 3.1)",
            "credentials:  ok (access token valid for 59m)",
        ]
    );
    let silent = check_report("https://a", "s", &Json::Null, -61);
    assert_eq!(silent[1], "connectivity: ok (version ?)");
    assert_eq!(silent[2], "credentials:  ok (access token valid for -1m)");
    let past = check_report("https://a", "s", &Json::Null, -59);
    assert_eq!(past[2], "credentials:  ok (access token valid for 0m)");
}

#[test]
fn the_words_around_a_login() {
    assert_eq!(login_prompt("http://u", true), "Open this URL to authorize:\n  http://u\n");
    assert_eq!(
        login_prompt("http://u", false),
        "Opening browser for authorization:\n  http://u\n"
    );
    let help = paste_help("http://127.0.0.1:1/callback");
    assert!(help.contains("The redirect to\n  http://127.0.0.1:1/callback\nwill fail to load"));
    assert!(help.ends_with("Waiting up to 10 minutes for the callback or a pasted URL..."));
    assert_eq!(
        login_report("https://a", Some("prod"), "c", 3600),
        "Logged in to https://a as context prod (client c); access token valid for 60 minutes."
    );
    assert_eq!(
        login_report("https://a", None, "c", 59),
        "Logged in to https://a (client c); access token valid for 0 minutes."
    );
    assert_eq!(logout_report("k", &Logout::Unknown), "No stored credentials for k.");
    assert_eq!(logout_report("k", &Logout::Revoked), "Logged out from k.");
    assert_eq!(
        logout_report("k", &Logout::LocalOnly("why".to_string())),
        "Logged out from k locally; server revoke failed (why)."
    );
}

#[test]
fn request_fields_are_an_object() {
    assert_eq!(read_args(r#" {"a": [1]} "#).unwrap().compact(), "{\"a\":[1]}");
    match read_args("[1]") {
        Err(ArgsError::NotObject(e)) => {
            assert_eq!(e, "request fields must be a JSON object, got: [1]")
        }
        _ => panic!("an array is no object"),
    }
    match read_args("{") {
        Err(ArgsError::NotJson(e)) => assert!(e.contains("EOF"), "{e}"),
        _ => panic!("half an object is no JSON"),
    }
}

#[test]
fn guides_are_named_described_and_headed() {
    assert_eq!(skill_names(), ["query", "database-change", "grant-permission"]);
    assert_eq!(
        no_skill("x"),
        "no skill \"x\"; available: query, database-change, grant-permission"
    );
    let guide = "---\nname: query\ndescription:  Runs SQL. \ndescription: later\n---\n";
    assert_eq!(skill_description(guide), "Runs SQL.");
    assert_eq!(skill_description("none"), "");
    assert_eq!(skill_line("query", guide), "  query — Runs SQL.");
    assert!(SKILL_SYNTAX_NOTE.starts_with("Note: this guide uses MCP tool syntax."));
    assert!(SKILL_SYNTAX_NOTE.ends_with("---- guide follows ----"));
    assert_eq!(skill_text("g"), format!("{SKILL_SYNTAX_NOTE}\n\ng"));
}

#[test]
fn a_context_without_a_name_is_never_active() {
    let mut tokens = TokenFile::new();
    let mut config = ConfigFile::new();
    save_credentials(&mut tokens, &mut config, "https://a", &creds("1", 0, 0), Some(""));
    assert!(resolve_server(None, false, None, &config).is_err());
    assert_eq!(
        config_view(None, false, None, &config, &tokens, "/c", "/t"),
        [
            "Effective server: - (source: none: run `bbcli login --context <url>`)",
            "Config file:      /c",
            "Credential file:  /t",
            "Contexts:",
            "   -> https://a",
            "Logged-in servers:",
            "  https://a",
        ]
    );
}
