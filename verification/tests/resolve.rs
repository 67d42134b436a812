//! Databases by name: matching, filters, refusals, and the course of a
//! resolution.

use bbcli::json::Json;
use bbcli::resolve::{
    ambiguous_error, build_database_filter, cel_escape, from_entry, is_full_database_name,
    match_databases, not_found_error, qualify, resolved_note, select_data_source,
    short_database_name, tool_error, DataSource, DatabaseEntry, InstanceResource, ResolveAction,
    ResolveEvent, Resolved, Resolving,
};

fn entry(name: &str, engine: &str, sources: &[(&str, &str)]) -> DatabaseEntry {
    DatabaseEntry {
        name: name.to_string(),
        project: "projects/hr".to_string(),
        instance_resource: InstanceResource {
            engine: engine.to_string(),
            data_sources: sources
                .iter()
                .map(|(id, t)| DataSource { id: id.to_string(), kind: t.to_string() })
                .collect(),
        },
    }
}

fn names(matches: &[&DatabaseEntry]) -> Vec<String> {
    matches.iter().map(|e| e.name.clone()).collect()
}

/// A full name skips the listing entirely, so the detector decides whether a
/// `GetDatabase` is legal.
#[test]
fn only_a_four_segment_instances_databases_name_skips_the_listing() {
    assert!(is_full_database_name("instances/a/databases/b"));
    assert!(!is_full_database_name("instances/a"));
    assert!(!is_full_database_name("projects/p"));
    assert!(!is_full_database_name("employee"));
    assert!(!is_full_database_name("instances/a/databases/"));
    assert!(!is_full_database_name("instances//databases/b"));
    assert!(!is_full_database_name("instances/a/databases/b/metadata"));
    assert!(!is_full_database_name("projects/p/instances/a"));
}

#[test]
fn an_exact_name_beats_case_insensitive_which_beats_substring() {
    let entries = vec![
        entry("instances/i1/databases/Employee", "POSTGRES", &[]),
        entry("instances/i2/databases/employee", "POSTGRES", &[]),
        entry("instances/i3/databases/employee_archive", "MYSQL", &[]),
    ];
    assert_eq!(
        names(&match_databases(&entries, "employee")),
        ["instances/i2/databases/employee"],
        "the exact tier must not admit the other two"
    );
    assert_eq!(
        names(&match_databases(&entries, "EMPLOYEE")),
        ["instances/i1/databases/Employee", "instances/i2/databases/employee"]
    );
}

#[test]
fn one_substring_match_resolves_and_two_stay_ambiguous() {
    let entries = vec![
        entry("instances/i1/databases/employee", "POSTGRES", &[]),
        entry("instances/i2/databases/employee_archive", "MYSQL", &[]),
    ];
    assert_eq!(
        names(&match_databases(&entries, "archive")),
        ["instances/i2/databases/employee_archive"]
    );
    assert_eq!(match_databases(&entries, "emp").len(), 2);
    assert!(match_databases(&entries, "nope").is_empty());
}

#[test]
fn read_only_wins_over_admin_and_admin_is_the_fallback() {
    assert_eq!(
        select_data_source(
            &entry("d", "POSTGRES", &[("admin", "ADMIN"), ("ro", "READ_ONLY")])
                .instance_resource
                .data_sources
        ),
        "ro"
    );
    assert_eq!(
        select_data_source(
            &entry("d", "POSTGRES", &[("admin", "ADMIN")]).instance_resource.data_sources
        ),
        "admin"
    );
    assert_eq!(
        select_data_source(&entry("d", "POSTGRES", &[]).instance_resource.data_sources),
        "",
        "no data source means the server picks, not that resolution failed"
    );
}

#[test]
fn a_bare_narrowing_id_is_qualified_and_a_canonical_one_passes_through() {
    assert_eq!(
        build_database_filter("emp", Some("prod"), None),
        "name.contains(\"emp\") && instance == \"instances/prod\""
    );
    assert_eq!(
        build_database_filter("emp", Some("instances/prod"), None),
        "name.contains(\"emp\") && instance == \"instances/prod\""
    );
    assert_eq!(
        build_database_filter("emp", Some("projects/hr/instances/prod"), None),
        "name.contains(\"emp\") && instance == \"projects/hr/instances/prod\""
    );
    assert_eq!(
        build_database_filter("emp", None, Some("hr")),
        "name.contains(\"emp\") && project == \"projects/hr\""
    );
    assert_eq!(
        build_database_filter("emp", Some("prod"), Some("projects/hr")),
        "name.contains(\"emp\") && instance == \"instances/prod\" && project == \"projects/hr\""
    );
}

#[test]
fn quotes_and_backslashes_are_escaped_in_the_cel_literal() {
    assert_eq!(cel_escape("a\"b"), "a\\\"b");
    assert_eq!(cel_escape("a\\b"), "a\\\\b");
    assert_eq!(build_database_filter("we\"ird", None, None), "name.contains(\"we\\\"ird\")");
}

#[test]
fn refusals_name_every_candidate_or_the_way_to_list_them() {
    let err = not_found_error("nope", None, None).to_string();
    assert!(err.starts_with("[DATABASE_NOT_FOUND]"), "{err}");
    assert!(err.contains("ListDatabases"), "{err}");
    let narrowed = not_found_error("nope", Some("prod"), None).to_string();
    assert!(narrowed.contains("try without --instance/--project"), "{narrowed}");

    let a = entry("instances/i2/databases/employee", "POSTGRES", &[]);
    let b = entry("instances/i1/databases/employee", "MYSQL", &[]);
    let err = ambiguous_error("employee", &[&a, &b]).to_string();
    assert!(err.starts_with("[AMBIGUOUS_TARGET] 2 databases match"), "{err}");
    assert!(err.contains("instances/i1/databases/employee  (MYSQL, projects/hr)"), "{err}");
    assert!(err.contains("instances/i2/databases/employee  (POSTGRES, projects/hr)"), "{err}");
    assert!(
        err.find("instances/i1").unwrap() < err.find("instances/i2").unwrap(),
        "{err}"
    );
}

#[test]
fn an_ambiguity_reads_the_same_in_either_order() {
    let a = entry("instances/i2/databases/employee", "POSTGRES", &[]);
    let b = entry("instances/i1/databases/employee", "MYSQL", &[]);
    assert_eq!(
        ambiguous_error("employee", &[&a, &b]).to_string(),
        ambiguous_error("employee", &[&b, &a]).to_string()
    );
    assert_eq!(
        ambiguous_error("e\"x", &[&a, &b]).to_string(),
        "[AMBIGUOUS_TARGET] 2 databases match \"e\\\"x\"; narrow with --instance/--project or \
         pass the full resource name:\n  instances/i1/databases/employee  (MYSQL, projects/hr)\n  \
         instances/i2/databases/employee  (POSTGRES, projects/hr)"
    );
}

#[test]
fn names_are_shortened_and_qualified() {
    assert_eq!(short_database_name("instances/a/databases/b"), "b");
    assert_eq!(short_database_name("instances/a"), "instances/a");
    assert_eq!(qualify("x", "projects"), "projects/x");
    assert_eq!(qualify("a/x", "projects"), "a/x");
    assert_eq!(tool_error("CODE", "words").to_string(), "[CODE] words");
}

#[test]
fn a_full_name_is_fetched_and_taken_at_its_word() {
    let (mut run, action) =
        Resolving::start("instances/i/databases/d", Some("ignored"), Some("ignored"));
    match action {
        ResolveAction::Get(args) => {
            assert_eq!(args.compact(), "{\"name\":\"instances/i/databases/d\"}")
        }
        _ => panic!("a full name is not listed"),
    }
    let found = entry("instances/i/databases/d", "POSTGRES", &[("ro", "READ_ONLY")]);
    match run.step(ResolveEvent::Database(found)) {
        ResolveAction::Done(r) => {
            assert_eq!(r.name, "instances/i/databases/d");
            assert_eq!(r.project, "projects/hr");
            assert_eq!(r.engine, "POSTGRES");
            assert_eq!(r.data_source_id, "ro");
        }
        _ => panic!("the database is the answer"),
    }
}

#[test]
fn pages_are_followed_and_judged_together() {
    let (mut run, action) = Resolving::start("employee", None, Some("hr"));
    let filter = "name.contains(\"employee\") && project == \"projects/hr\"";
    match action {
        ResolveAction::List(args) => {
            assert_eq!(args.get_str("parent"), Some("workspaces/-"));
            assert_eq!(args.get("pageSize"), Some(&Json::Uint(1000)));
            assert_eq!(args.get_str("filter"), Some(filter));
            assert!(args.get("pageToken").is_none());
        }
        _ => panic!("a bare name is listed"),
    }
    let first = vec![entry("instances/i1/databases/employee_archive", "MYSQL", &[])];
    match run.step(ResolveEvent::Page(first, "next".to_string())) {
        ResolveAction::List(args) => {
            assert_eq!(args.get_str("pageToken"), Some("next"));
            assert_eq!(args.get_str("filter"), Some(filter));
        }
        _ => panic!("a token asks for another page"),
    }
    let last = vec![entry("instances/i2/databases/employee", "POSTGRES", &[])];
    match run.step(ResolveEvent::Page(last, String::new())) {
        ResolveAction::Done(r) => assert_eq!(r.name, "instances/i2/databases/employee"),
        _ => panic!("the exact name wins over the first page"),
    }
}

#[test]
fn none_or_many_are_refused() {
    let (mut run, _) = Resolving::start("x", None, None);
    match run.step(ResolveEvent::Page(Vec::new(), String::new())) {
        ResolveAction::Refused(e) => assert_eq!(e.code, "DATABASE_NOT_FOUND"),
        _ => panic!("nothing fits"),
    }
    let (mut run, _) = Resolving::start("x", None, None);
    let two = vec![
        entry("instances/i1/databases/xa", "MYSQL", &[]),
        entry("instances/i2/databases/xb", "MYSQL", &[]),
    ];
    match run.step(ResolveEvent::Page(two, String::new())) {
        ResolveAction::Refused(e) => assert_eq!(e.code, "AMBIGUOUS_TARGET"),
        _ => panic!("two fit"),
    }
}

#[test]
fn the_note_says_who_chose_the_data_source() {
    let e = entry("instances/i/databases/d", "MYSQL", &[("ro", "READ_ONLY")]);
    assert_eq!(
        resolved_note("d", &from_entry(&e)),
        "resolved \"d\" -> instances/i/databases/d (MYSQL, projects/hr; data source ro)"
    );
    let open = Resolved {
        name: "n".to_string(),
        project: "p".to_string(),
        engine: "E".to_string(),
        data_source_id: String::new(),
    };
    assert_eq!(
        resolved_note("d", &open),
        "resolved \"d\" -> n (E, p; data source chosen server-side)"
    );
}
