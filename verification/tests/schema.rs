//! Schemas: levels of detail, truncation, one table, the output.

use bbcli::json::Json;
use bbcli::resolve::Resolved;
use bbcli::schema::{
    ambiguous_table_error, build_metadata_filter, build_table_entry, collect_candidates,
    engine_supports_schemas, find_table_matches, limit_for_include, metadata_args,
    primary_key_columns, resolve_include, row_count_from_text, table_name_matches,
    table_not_found_error, transform_schemas, ColumnMetadata, DatabaseMetadata,
    ForeignKeyMetadata, Include, IndexMetadata, Inspection, NamedMetadata, SchemaAction,
    SchemaMetadata, TableMetadata, CANDIDATE_CAP, TABLE_LIMIT,
};

fn json(text: &str) -> Json {
    Json::parse(text).expect("test text is JSON")
}

fn text(v: &Json, key: &str) -> String {
    v.get_str(key).unwrap_or("").to_string()
}

fn flag(v: &Json, key: &str) -> bool {
    v.get(key) == Some(&Json::Bool(true))
}

fn items<T>(v: &Json, key: &str, f: fn(&Json) -> T) -> Vec<T> {
    match v.get(key).and_then(|a| a.as_array()) {
        Some(a) => a.iter().map(f).collect(),
        None => Vec::new(),
    }
}

fn plain(v: &Json) -> String {
    v.as_str().unwrap_or("").to_string()
}

fn named(v: &Json) -> NamedMetadata {
    NamedMetadata { name: text(v, "name") }
}

fn table_of(v: &Json) -> TableMetadata {
    TableMetadata {
        name: text(v, "name"),
        columns: items(v, "columns", |c| ColumnMetadata {
            name: text(c, "name"),
            kind: text(c, "type"),
            nullable: flag(c, "nullable"),
            default: text(c, "default"),
            comment: text(c, "comment"),
        }),
        indexes: items(v, "indexes", |i| IndexMetadata {
            name: text(i, "name"),
            expressions: items(i, "expressions", plain),
            kind: text(i, "type"),
            unique: flag(i, "unique"),
            primary: flag(i, "primary"),
        }),
        row_count: match v.get("rowCount") {
            Some(Json::Uint(n)) => *n as i64,
            Some(Json::Int(n)) => *n,
            Some(Json::Str(s)) => row_count_from_text(s),
            _ => 0,
        },
        comment: text(v, "comment"),
        foreign_keys: items(v, "foreignKeys", |f| ForeignKeyMetadata {
            name: text(f, "name"),
            columns: items(f, "columns", plain),
            referenced_table: text(f, "referencedTable"),
            referenced_columns: items(f, "referencedColumns", plain),
        }),
    }
}

/// Metadata as a server writes it down.
fn metadata(source: &str) -> DatabaseMetadata {
    DatabaseMetadata {
        schemas: items(&json(source), "schemas", |s| SchemaMetadata {
            name: text(s, "name"),
            tables: items(s, "tables", table_of),
            views: items(s, "views", named),
            functions: items(s, "functions", named),
            procedures: items(s, "procedures", named),
        }),
    }
}

fn table(name: &str, columns: usize) -> String {
    let columns: Vec<String> =
        (0..columns).map(|i| format!("{{\"name\": \"c{i}\", \"type\": \"int\"}}")).collect();
    format!("{{\"name\": \"{name}\", \"columns\": [{}]}}", columns.join(", "))
}

fn many(count: usize) -> DatabaseMetadata {
    let tables: Vec<String> = (0..count).map(|i| table(&format!("t{i:03}"), 1)).collect();
    metadata(&format!(
        "{{\"schemas\": [{{\"name\": \"public\", \"tables\": [{}]}}]}}",
        tables.join(", ")
    ))
}

#[test]
fn include_defaults_to_summary_and_to_details_for_a_single_table() {
    assert_eq!(resolve_include(None, None), Include::Summary);
    assert_eq!(resolve_include(None, Some("orders")), Include::Details);
    assert_eq!(resolve_include(Some(Include::Columns), None), Include::Columns);
}

#[test]
fn columns_mode_trims_the_sentinel_table_and_flags_it_while_summary_never_does() {
    assert_eq!(limit_for_include(Include::Columns, None), Some(201));
    assert_eq!(limit_for_include(Include::Details, None), Some(201));
    assert_eq!(limit_for_include(Include::Summary, None), None);
    assert_eq!(limit_for_include(Include::Details, Some("orders")), None);

    let md = many(201);
    let bulk = &transform_schemas(&md, Include::Columns)[0];
    assert_eq!(bulk.tables.len(), TABLE_LIMIT);
    assert!(bulk.truncated);
    assert_eq!(bulk.tables_shown, Some(TABLE_LIMIT));

    let summary = &transform_schemas(&md, Include::Summary)[0];
    assert_eq!(summary.tables.len(), 201);
    assert!(!summary.truncated);
    assert_eq!(summary.tables_shown, None);
}

#[test]
fn exactly_the_limit_is_not_reported_as_truncated() {
    let md = many(200);
    let section = &transform_schemas(&md, Include::Details)[0];
    assert_eq!(section.tables.len(), 200);
    assert!(!section.truncated);
}

#[test]
fn primary_key_columns_come_from_the_primary_index() {
    let md = metadata(
        r#"{"schemas": [{"name": "public", "tables": [{
            "name": "orders",
            "columns": [{"name": "id", "type": "int"}, {"name": "email", "type": "text", "nullable": true}],
            "indexes": [
                {"name": "orders_email_key", "expressions": ["email"], "unique": true},
                {"name": "orders_pkey", "expressions": ["id"], "unique": true, "primary": true}
            ]
        }]}]}"#,
    );
    let section = &transform_schemas(&md, Include::Details)[0];
    let cols = &section.tables[0].columns;
    assert!(cols[0].primary_key, "id is the primary key");
    assert!(!cols[1].primary_key, "a unique index is not a primary key");
    assert!(!cols[0].nullable && cols[1].nullable);
    assert_eq!(primary_key_columns(&md.schemas[0].tables[0].indexes), ["id"]);
}

#[test]
fn tables_views_indexes_and_schemas_come_out_sorted() {
    let md = metadata(&format!(
        r#"{{"schemas": [
            {{"name": "zoo", "tables": [], "views": []}},
            {{"name": "", "tables": [], "views": []}},
            {{"name": "public",
             "tables": [{}, {}],
             "views": [{{"name": "v_z"}}, {{"name": "v_a"}}]}}
        ]}}"#,
        table("orders", 1),
        table("accounts", 1)
    ));
    let sections = transform_schemas(&md, Include::Summary);
    assert_eq!(
        sections.iter().map(|s| s.name.as_str()).collect::<Vec<_>>(),
        ["", "public", "zoo"],
        "the unnamed schema of a MySQL-family database sorts first"
    );
    let public = &sections[1];
    assert_eq!(
        public.tables.iter().map(|t| t.name.as_str()).collect::<Vec<_>>(),
        ["accounts", "orders"]
    );
    assert_eq!(public.views, ["v_a", "v_z"]);

    let md = metadata(
        r#"{"schemas": [{"name": "public", "tables": [{
            "name": "t",
            "indexes": [{"name": "i_b"}, {"name": "i_a"}],
            "foreignKeys": [{"name": "fk_b"}, {"name": "fk_a"}]
        }]}]}"#,
    );
    let t = &transform_schemas(&md, Include::Details)[0].tables[0];
    assert_eq!(t.indexes.iter().map(|i| i.name.as_str()).collect::<Vec<_>>(), ["i_a", "i_b"]);
    assert_eq!(
        t.foreign_keys.iter().map(|f| f.name.as_str()).collect::<Vec<_>>(),
        ["fk_a", "fk_b"]
    );
}

#[test]
fn a_table_name_in_two_schemas_is_ambiguous_rather_than_picked() {
    let md = metadata(&format!(
        r#"{{"schemas": [
            {{"name": "public", "tables": [{}]}},
            {{"name": "archive", "tables": [{}]}}
        ]}}"#,
        table("orders", 2),
        table("orders", 3)
    ));
    let matches = find_table_matches(&md, "orders");
    assert_eq!(matches.len(), 2);
    let schemas: Vec<String> = matches.iter().map(|(s, _)| s.to_string()).collect();
    let err = ambiguous_table_error("orders", "instances/i/databases/d", &schemas).to_string();
    assert!(err.starts_with("[AMBIGUOUS_TABLE]"), "{err}");
    assert!(err.contains("--schema"), "{err}");
    assert!(err.contains("public") && err.contains("archive"), "{err}");

    assert!(find_table_matches(&md, "nope").is_empty());
}

#[test]
fn candidates_match_by_substring_or_four_char_prefix_and_cap_at_ten() {
    assert!(table_name_matches("orders", "order"), "substring");
    assert!(table_name_matches("ORDERS", "order"), "case-insensitive");
    assert!(table_name_matches("order_items", "orderz"), "shared prefix");
    assert!(!table_name_matches("users", "orderz"), "unrelated");
    assert!(!table_name_matches("ord", "orderz"), "prefix shorter than 4");
    assert!(table_name_matches("abc_x", "abc"), "input shorter than 4 must match whole");
    assert!(!table_name_matches("axc_x", "abc"));
    assert!(!table_name_matches("orders", ""), "an empty input matches nothing");

    let tables: Vec<String> = (0..15).map(|i| table(&format!("orders_{i:02}"), 1)).collect();
    let md = metadata(&format!(
        "{{\"schemas\": [{{\"name\": \"public\", \"tables\": [{}]}}]}}",
        tables.join(", ")
    ));
    assert_eq!(collect_candidates(&md, "orders").len(), CANDIDATE_CAP);

    let err =
        table_not_found_error("nope", "instances/i/databases/d", &vec!["orders".to_string()]);
    let err = err.to_string();
    assert!(err.starts_with("[TABLE_NOT_FOUND]"), "{err}");
    assert!(err.contains("candidates: orders"), "{err}");
    assert!(err.contains("run without --table"), "{err}");
    let bare = table_not_found_error("nope", "instances/i/databases/d", &vec![]).to_string();
    assert!(!bare.contains("candidates:"), "{bare}");
    assert!(bare.contains("run without --table"), "{bare}");
}

#[test]
fn candidates_hold_beyond_ascii() {
    assert!(table_name_matches("BÜCHER_ALT", "bücherei"));
    assert!(!table_name_matches("bü", "bücherei"));
}

#[test]
fn schema_filter_survives_on_postgres_and_is_dropped_on_mysql() {
    assert!(engine_supports_schemas("POSTGRES"));
    assert!(engine_supports_schemas("MSSQL"));
    assert!(!engine_supports_schemas("MYSQL"));
    assert!(!engine_supports_schemas("TIDB"));
    assert!(
        !engine_supports_schemas(""),
        "an unknown engine must be treated as single-schema, not risked"
    );
    assert_eq!(
        build_metadata_filter(Some("public"), Some("orders")),
        "schema == \"public\" && table == \"orders\""
    );
    assert_eq!(build_metadata_filter(None, Some("orders")), "table == \"orders\"");
    assert_eq!(build_metadata_filter(None, None), "");
}

#[test]
fn row_count_decodes_from_a_string_or_a_number() {
    let md = metadata(
        r#"{"schemas": [{"name": "s", "tables": [
            {"name": "a", "rowCount": "1234"},
            {"name": "b", "rowCount": 7},
            {"name": "c"}
        ]}]}"#,
    );
    let tables = &transform_schemas(&md, Include::Summary)[0].tables;
    assert_eq!(tables[0].row_count, 1234);
    assert_eq!(tables[1].row_count, 7);
    assert_eq!(tables[2].row_count, 0);
}

#[test]
fn a_row_count_that_is_none_reads_as_zero() {
    assert_eq!(row_count_from_text(" -12 "), -12);
    assert_eq!(row_count_from_text("9223372036854775807"), i64::MAX);
    assert_eq!(row_count_from_text("9223372036854775808"), 0);
    assert_eq!(row_count_from_text("many"), 0);
    assert_eq!(row_count_from_text(""), 0);
}

#[test]
fn each_level_omits_the_fields_that_belong_to_another() {
    let md = metadata(
        r#"{"schemas": [{"name": "public", "tables": [{
            "name": "orders",
            "columns": [{"name": "id", "type": "int", "default": "0", "comment": "pk"}],
            "indexes": [{"name": "orders_pkey", "expressions": ["id"], "primary": true}],
            "foreignKeys": [{"name": "fk", "columns": ["id"], "referencedTable": "users"}]
        }]}]}"#,
    );
    let first = |level: Include| {
        let section = transform_schemas(&md, level)[0].to_json();
        section.get("tables").unwrap().as_array().unwrap()[0].clone()
    };
    let column = |t: &Json| t.get("columns").unwrap().as_array().unwrap()[0].clone();

    let summary = first(Include::Summary);
    assert_eq!(summary.get("columnCount"), Some(&json("1")));
    assert!(summary.get("columns").is_none());

    let columns = first(Include::Columns);
    assert!(columns.get("columnCount").is_none());
    assert_eq!(column(&columns).get_str("name"), Some("id"));
    assert!(column(&columns).get("default").is_none());
    assert!(columns.get("indexes").is_none());

    let details = first(Include::Details);
    assert_eq!(column(&details).get_str("default"), Some("0"));
    assert_eq!(column(&details).get("primaryKey"), Some(&json("true")));
    let index = details.get("indexes").unwrap().as_array().unwrap()[0].clone();
    assert_eq!(index.get_str("name"), Some("orders_pkey"));
    let key = details.get("foreignKeys").unwrap().as_array().unwrap()[0].clone();
    assert_eq!(key.get_str("referencedTable"), Some("users"));
}

#[test]
fn a_section_leaves_out_what_is_empty() {
    let md = metadata(
        r#"{"schemas": [{"name": "s", "tables": [], "functions": [{"name": "f"}]}]}"#,
    );
    assert_eq!(
        transform_schemas(&md, Include::Summary)[0].to_json().compact(),
        "{\"functionCount\":1,\"name\":\"s\",\"tables\":[]}"
    );
    let cut = transform_schemas(&many(201), Include::Columns)[0].to_json();
    assert_eq!(cut.get("truncated"), Some(&json("true")));
    assert_eq!(cut.get("tablesShown"), Some(&json("200")));
    let t = build_table_entry(&TableMetadata::default(), Include::Summary).to_json();
    assert_eq!(t.compact(), "{\"columnCount\":0,\"name\":\"\",\"rowCount\":0}");
}

fn resolved(engine: &str) -> Resolved {
    Resolved {
        name: "instances/i/databases/d".to_string(),
        project: "projects/hr".to_string(),
        engine: engine.to_string(),
        data_source_id: String::new(),
    }
}

#[test]
fn a_whole_database_is_asked_for_and_shown() {
    let (run, note) =
        Inspection::start(&resolved("POSTGRES"), Some("public"), None, Some(Include::Columns));
    assert!(note.is_none());
    assert_eq!(
        run.request().compact(),
        "{\"filter\":\"schema == \\\"public\\\"\",\"limit\":201,\
         \"name\":\"instances/i/databases/d/metadata\"}"
    );
    match run.answered(&metadata(r#"{"schemas": []}"#)) {
        SchemaAction::Finish(doc) => assert_eq!(
            doc.compact(),
            "{\"database\":\"instances/i/databases/d\",\"engine\":\"POSTGRES\"}"
        ),
        _ => panic!("the database is shown"),
    }
}

#[test]
fn a_schema_is_ignored_with_a_note_where_there_are_none() {
    let (run, note) = Inspection::start(&resolved("MYSQL"), Some("public"), None, None);
    assert_eq!(
        note.as_deref(),
        Some("note: --schema ignored — MYSQL does not use named schemas")
    );
    assert_eq!(run.request().compact(), "{\"name\":\"instances/i/databases/d/metadata\"}");
    let (_, note) = Inspection::start(&resolved(""), Some("public"), None, None);
    assert_eq!(
        note.as_deref(),
        Some("note: --schema ignored — this engine does not use named schemas")
    );
    let (_, note) = Inspection::start(&resolved("MYSQL"), Some(""), None, None);
    assert!(note.is_none());
}

#[test]
fn one_table_is_shown_in_full_and_many_or_none_are_not() {
    let (run, _) =
        Inspection::start(&resolved("POSTGRES"), None, Some("orders"), Some(Include::Summary));
    assert_eq!(
        run.request().compact(),
        "{\"filter\":\"table == \\\"orders\\\"\",\"name\":\"instances/i/databases/d/metadata\"}"
    );
    let one = metadata(&format!(
        "{{\"schemas\": [{{\"name\": \"public\", \"tables\": [{}]}}]}}",
        table("orders", 2)
    ));
    match run.answered(&one) {
        SchemaAction::Finish(doc) => {
            assert!(doc.get("schemas").is_none());
            let shown = doc.get("table").unwrap();
            assert_eq!(shown.get("columns").unwrap().as_array().unwrap().len(), 2);
        }
        _ => panic!("the table is shown"),
    }
    match run.answered(&metadata(r#"{"schemas": []}"#)) {
        SchemaAction::Lookup(args) => assert_eq!(
            args.compact(),
            "{\"limit\":500,\"name\":\"instances/i/databases/d/metadata\"}"
        ),
        _ => panic!("candidates are looked for"),
    }
    assert_eq!(
        run.refused(Some(&one)).to_string(),
        "[TABLE_NOT_FOUND] no table matching \"orders\" in instances/i/databases/d\n  \
         candidates: orders\n  run without --table to see available tables"
    );
    assert_eq!(
        run.refused(None).to_string(),
        "[TABLE_NOT_FOUND] no table matching \"orders\" in instances/i/databases/d\n  \
         run without --table to see available tables"
    );
    let two = metadata(&format!(
        "{{\"schemas\": [{{\"name\": \"a\", \"tables\": [{}]}}, {{\"name\": \"b\", \"tables\": [{}]}}]}}",
        table("orders", 1),
        table("orders", 1)
    ));
    match run.answered(&two) {
        SchemaAction::Fail(e) => assert_eq!(
            e.to_string(),
            "[AMBIGUOUS_TABLE] table \"orders\" exists in multiple schemas of \
             instances/i/databases/d; re-run with --schema set to one of: a, b"
        ),
        _ => panic!("none is picked"),
    }
}

#[test]
fn the_request_holds_only_what_narrows() {
    assert_eq!(metadata_args("d", "", None).compact(), "{\"name\":\"d/metadata\"}");
    assert_eq!(
        metadata_args("d", "f", Some(3)).compact(),
        "{\"filter\":\"f\",\"limit\":3,\"name\":\"d/metadata\"}"
    );
}

#[test]
fn the_level_does_not_matter_for_one_table() {
    let one = metadata(&format!(
        "{{\"schemas\": [{{\"name\": \"public\", \"tables\": [{}]}}]}}",
        table("orders", 2)
    ));
    let shown = |level: Option<Include>| {
        let (run, _) = Inspection::start(&resolved("POSTGRES"), None, Some("orders"), level);
        match run.answered(&one) {
            SchemaAction::Finish(doc) => (run.request().compact(), doc.compact()),
            _ => panic!("the table is shown"),
        }
    };
    let details = shown(Some(Include::Details));
    assert_eq!(shown(Some(Include::Summary)), details);
    assert_eq!(shown(Some(Include::Columns)), details);
    assert_eq!(shown(None), details);
}

#[test]
fn a_schema_that_is_ignored_changes_no_outcome() {
    let none = metadata(r#"{"schemas": []}"#);
    let outcome = |schema: Option<&str>| {
        let (run, _) = Inspection::start(&resolved("MYSQL"), schema, Some("orders"), None);
        match run.answered(&none) {
            SchemaAction::Lookup(args) => {
                (run.request().compact(), args.compact(), run.refused(None).to_string())
            }
            _ => panic!("candidates are looked for"),
        }
    };
    assert_eq!(outcome(Some("public")), outcome(None));
    assert!(outcome(None).2.starts_with("[TABLE_NOT_FOUND]"));
}
