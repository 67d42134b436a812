//! What is stored: credentials, contexts, the default server.

use bbcli::store::{
    config_base, default_server_from, get, is_blank_file, login_hint, normalize, remove,
    resolve_alias, save_credentials, set_default, version_error, ConfigBase, ConfigFile,
    Credentials, ServerContext, TokenFile,
};

fn creds(id: &str) -> Credentials {
    Credentials {
        client_id: id.to_string(),
        access_token: format!("at-{id}"),
        refresh_token: format!("rt-{id}"),
        expires_at: 1000,
        refresh_expires_at: 2000,
    }
}

#[test]
fn normalize_trims_trailing_slash() {
    assert_eq!(normalize(" https://x.com/ "), "https://x.com");
    assert_eq!(normalize("https://x.com//"), "https://x.com");
}

#[test]
fn a_stored_form_that_ends_in_white_space_is_not_stored_as_itself() {
    assert_eq!(normalize("x /"), "x ");
    assert_eq!(normalize(&normalize("x /")), "x");
}

#[test]
fn what_is_saved_is_found_whatever_slashes_stand_behind() {
    let mut tokens = TokenFile::new();
    let mut config = ConfigFile::new();
    assert!(tokens.servers.is_empty());
    save_credentials(&mut tokens, &mut config, "https://a.example.com", &creds("a"), None);
    save_credentials(&mut tokens, &mut config, "https://b.example.com/", &creds("b"), None);
    assert_eq!(tokens.servers.keys().len(), 2);
    assert_eq!(default_server_from(&config).as_deref(), Some("https://b.example.com"));
    assert_eq!(get(&tokens, "https://a.example.com").unwrap().client_id, "a");
    assert_eq!(get(&tokens, "https://b.example.com").unwrap().client_id, "b");
    assert!(get(&tokens, "https://missing").is_none());
    assert_eq!(config.version, 1);
    assert_eq!(config.contexts.keys(), ["default"]);
}

#[test]
fn contexts_name_servers_and_follow_them() {
    let mut tokens = TokenFile::new();
    let mut config = ConfigFile::new();
    save_credentials(&mut tokens, &mut config, "https://a.example.com", &creds("a"), Some("prod"));
    save_credentials(
        &mut tokens,
        &mut config,
        "https://b.example.com",
        &creds("b"),
        Some("staging"),
    );
    assert_eq!(default_server_from(&config).as_deref(), Some("https://b.example.com"));
    assert_eq!(resolve_alias(&config, "prod").unwrap(), "https://a.example.com");
    assert_eq!(resolve_alias(&config, " staging ").unwrap(), "https://b.example.com");
    assert_eq!(
        resolve_alias(&config, "https://b.example.com/").unwrap(),
        "https://b.example.com"
    );
    assert_eq!(resolve_alias(&config, "  ").unwrap_err(), "empty server name");

    assert_eq!(set_default(&tokens, &mut config, "prod").unwrap(), "https://a.example.com");
    assert_eq!(default_server_from(&config).as_deref(), Some("https://a.example.com"));
    assert_eq!(
        set_default(&tokens, &mut config, "https://b.example.com").unwrap(),
        "https://b.example.com"
    );
    assert_eq!(config.current_context, "staging");

    let gone = remove(&mut tokens, &mut config, "https://b.example.com");
    assert_eq!(gone.unwrap().client_id, "b");
    assert!(!config.contexts.contains_key("staging"));
    assert_eq!(
        config.contexts.get("prod").map(|c| c.server.as_str()),
        Some("https://a.example.com")
    );
    assert_eq!(config.current_context, "");
    assert!(default_server_from(&config).is_none());
    assert!(remove(&mut tokens, &mut config, "https://b.example.com").is_none());

    assert_eq!(
        set_default(&tokens, &mut config, "nosuch").unwrap_err(),
        "no credentials for nosuch; run `bbcli login --context nosuch` first"
    );
    assert_eq!(config.current_context, "");
}

#[test]
fn a_url_without_a_context_becomes_the_default_one() {
    let mut tokens = TokenFile::new();
    let mut config = ConfigFile::new();
    tokens.keep("https://c", &creds("c"));
    assert_eq!(set_default(&tokens, &mut config, " https://c/ ").unwrap(), "https://c");
    assert_eq!(config.current_context, "default");
    assert_eq!(resolve_alias(&config, "default").unwrap(), "https://c");
}

#[test]
fn two_contexts_of_one_server_share_its_credentials() {
    let mut tokens = TokenFile::new();
    let mut config = ConfigFile::new();
    save_credentials(&mut tokens, &mut config, "https://a", &creds("1"), Some("x"));
    save_credentials(&mut tokens, &mut config, "https://a/", &creds("2"), Some("y"));
    for name in ["x", "y"] {
        let server = resolve_alias(&config, name).unwrap();
        assert_eq!(get(&tokens, &server).unwrap().client_id, "2");
    }
    remove(&mut tokens, &mut config, "https://a");
    assert!(config.contexts.is_empty());
}

#[test]
fn a_file_is_the_same_until_it_changes() {
    let mut a = TokenFile::new();
    let mut b = TokenFile::new();
    assert!(a.same(&b));
    a.keep("https://x", &creds("x"));
    a.keep("https://y", &creds("y"));
    assert!(!a.same(&b));
    assert!(!b.same(&a));
    b.keep("https://y", &creds("y"));
    b.keep("https://x", &creds("x"));
    assert!(a.same(&b), "the order does not matter");
    b.keep("https://x", &creds("z"));
    assert!(!a.same(&b));
    assert_eq!(b.forget("https://x").unwrap(), creds("z"));
    assert!(!a.same(&b));
}

#[test]
fn an_old_context_may_hold_a_slash() {
    let mut config = ConfigFile::new();
    config.contexts.insert("old", ServerContext { server: " https://o/ ".to_string() });
    config.current_context = "old".to_string();
    assert_eq!(default_server_from(&config).as_deref(), Some("https://o"));
    config.drop_server("https://o");
    assert!(config.contexts.is_empty());
    assert_eq!(config.current_context, "");
}

#[test]
fn only_a_newer_configuration_is_refused() {
    assert_eq!(version_error(0), None);
    assert_eq!(version_error(1), None);
    assert_eq!(
        version_error(2).as_deref(),
        Some("config.yaml version 2 is newer than this bbcli supports (1)")
    );
}

#[test]
fn blank_files_and_places() {
    assert!(is_blank_file(" \n\t"));
    assert!(!is_blank_file("{}"));
    assert_eq!(config_base(Some("/x"), true), ConfigBase::Xdg);
    assert_eq!(config_base(Some(""), true), ConfigBase::Home);
    assert_eq!(config_base(None, true), ConfigBase::Home);
    assert_eq!(config_base(None, false), ConfigBase::System);
    assert_eq!(login_hint("https://x"), "run `bbcli login --context https://x` first");
}

#[test]
fn keys_come_in_order() {
    let mut tokens = TokenFile::new();
    for key in ["b", "a", "ab", "b"] {
        tokens.keep(key, &creds(key));
    }
    assert_eq!(tokens.servers.keys(), ["a", "ab", "b"]);
}

#[test]
fn an_empty_name_is_that_of_no_active_context() {
    let mut tokens = TokenFile::new();
    let mut config = ConfigFile::new();
    save_credentials(&mut tokens, &mut config, "https://a", &creds("a"), Some(""));
    assert_eq!(config.current_context, "");
    assert_eq!(config.contexts.get("").map(|c| c.server.as_str()), Some("https://a"));
    assert!(default_server_from(&config).is_none());
    // A switch finds the context by its server, and it still has no name.
    assert_eq!(set_default(&tokens, &mut config, "https://a").unwrap(), "https://a");
    assert!(default_server_from(&config).is_none());
    save_credentials(&mut tokens, &mut config, "https://a", &creds("a"), Some("a"));
    assert_eq!(default_server_from(&config).as_deref(), Some("https://a"));
}
