//! The catalog: services, methods, operations, message types.

use bbcli::search::{
    desc_lines, desc_of, field_type, first_line, json_ref, print_fields, resolve_schema, run,
    service_of, CATALOG_COMMIT,
};
use bbcli::yaml::Yaml;

/// A catalog of two services.
const CATALOG: &str = r##"
paths:
  /bytebase.v1.SQLService/Query:
    post:
      summary: Query
      description: |-
        Executes a SQL query.
         Permissions required: bb.databases.get
      requestBody:
        content:
          application/json:
            schema:
              $ref: '#/components/schemas/bytebase.v1.QueryRequest'
      responses:
        "200":
          content:
            application/json:
              schema:
                $ref: '#/components/schemas/bytebase.v1.QueryResponse'
  /bytebase.v1.SQLService/Export:
    post:
      summary: Export
  /bytebase.v1.SheetService/CreateSheet:
    post:
      summary: CreateSheet
  /other/path:
    post:
      summary: Other
components:
  schemas:
    bytebase.v1.QueryRequest:
      required:
        - name
      properties:
        name:
          type: string
          description: |-
            The name is the instance name to execute the query against.
             Format: instances/{instance}/databases/{databaseName}
        statement:
          type: string
          description: The SQL statement to execute.
        limit:
          type: integer
        schema:
          type:
            - string
            - "null"
        queryOption:
          $ref: '#/components/schemas/bytebase.v1.QueryOption'
        tags:
          type: array
          items:
            type: string
        things:
          type: array
        mode:
          type: string
          enum: [A, B]
        letters:
          type: string
          enum: [A, B, C, D, E, F, G, H, I, J, K, L, M]
        nothing: {}
    bytebase.v1.Empty:
      title: Empty
"##;

fn doc() -> Yaml {
    Yaml::parse(CATALOG).expect("the catalog is YAML")
}

fn field<'a>(doc: &'a Yaml, name: &str) -> &'a Yaml {
    doc.get("components")
        .unwrap()
        .get("schemas")
        .unwrap()
        .get("bytebase.v1.QueryRequest")
        .unwrap()
        .get("properties")
        .unwrap()
        .get(name)
        .unwrap()
}

#[test]
fn field_description_keeps_continuation_lines() {
    let doc = doc();
    let lines = desc_lines(desc_of(field(&doc, "name")));
    assert!(lines.len() > 1, "expected a multi-line description: {lines:?}");
    assert!(
        lines.iter().any(|l| l.starts_with("Format: instances/")),
        "resource-name format line missing: {lines:?}"
    );
}

#[test]
fn nullable_field_reports_its_real_type() {
    let doc = doc();
    assert_eq!(field_type(field(&doc, "schema")), "string (optional)");
}

#[test]
fn catalog_commit_is_a_bare_sha() {
    assert_eq!(CATALOG_COMMIT.len(), 40, "COMMIT: {CATALOG_COMMIT:?}");
    assert!(CATALOG_COMMIT.chars().all(|c| c.is_ascii_hexdigit()));
}

#[test]
fn query_request_schema_resolves() {
    let doc = doc();
    let schemas = doc.get("components").unwrap().get("schemas").unwrap();
    let qr = schemas.get("bytebase.v1.QueryRequest").expect("QueryRequest schema");
    let props = qr.get("properties").and_then(|p| p.as_mapping()).unwrap();
    assert!(props.len() >= 3, "QueryRequest fields: {props:?}");
    assert!(props.iter().any(|(k, _)| k.as_str() == Some("name")));
    assert!(props.iter().any(|(k, _)| k.as_str() == Some("statement")));
}

#[test]
fn types_are_told_in_words() {
    let doc = doc();
    for (name, words) in [
        ("name", "string"),
        ("limit", "integer"),
        ("queryOption", "bytebase.v1.QueryOption"),
        ("tags", "array<string>"),
        ("things", "array<any>"),
        ("mode", "enum A | B"),
        ("letters", "enum A | B | C | D | E | F | G | H | I | J | K | L | ..."),
        ("nothing", "object"),
    ] {
        assert_eq!(field_type(field(&doc, name)), words, "{name}");
    }
}

#[test]
fn services_are_listed_with_their_methods_counted() {
    let out = run(CATALOG, None, None, None).unwrap();
    assert_eq!(
        out,
        [
            "Services (2 total). Browse one with: bbcli search --service <name>".to_string(),
            format!("Catalog: bytebase {CATALOG_COMMIT}\n"),
            "  SQLService (2 methods)".to_string(),
            "  SheetService (1 methods)".to_string(),
        ]
    );
    assert_eq!(service_of("/bytebase.v1.SQLService/Query").as_deref(), Some("SQLService"));
    assert_eq!(service_of("/bytebase.v1./Query"), None);
    assert_eq!(service_of("/other/path"), None);
}

#[test]
fn a_service_is_listed_or_refused() {
    assert_eq!(
        run(CATALOG, None, None, Some("SQLService")).unwrap(),
        [
            "SQLService (2 methods). Call with: bbcli api SQLService/<Method>",
            "  Query — Query: Executes a SQL query.",
            "  Export — Export",
        ]
    );
    assert_eq!(
        run(CATALOG, None, None, Some("Nope")).unwrap_err(),
        "no service \"Nope\"; list all with: bbcli search"
    );
}

#[test]
fn an_operation_is_shown_in_any_form_of_its_name() {
    let out = run(CATALOG, Some("SQLService/Query"), None, None).unwrap();
    assert_eq!(out[0], "POST /bytebase.v1.SQLService/Query\n");
    assert_eq!(out[1], "Executes a SQL query.\n Permissions required: bb.databases.get\n");
    assert_eq!(out[2], "Request fields (pass as --args, camelCase):");
    assert_eq!(
        out[3],
        "  name: string (required) — The name is the instance name to execute the query against."
    );
    assert_eq!(out[4], "      Format: instances/{instance}/databases/{databaseName}");
    assert_eq!(out[5], "  statement: string — The SQL statement to execute.");
    assert_eq!(out[6], "  limit: integer");
    assert_eq!(out[out.len() - 2], "");
    assert_eq!(
        out[out.len() - 1],
        "Response: bytebase.v1.QueryResponse (fields: bbcli search --schema \
         bytebase.v1.QueryResponse)"
    );
    for form in ["SQLService.Query", "bytebase.v1.SQLService/Query"] {
        assert_eq!(run(CATALOG, Some(form), None, None).unwrap(), out, "{form}");
    }
    assert_eq!(
        run(CATALOG, Some("SQLService/Nope"), None, None).unwrap_err(),
        "no operation \"SQLService/Nope\"; browse services with: bbcli search --service <name>"
    );
    assert!(run(CATALOG, Some("nope"), None, None)
        .unwrap_err()
        .starts_with("method must look like Service/Method"));
}

#[test]
fn a_message_type_is_shown_by_either_name() {
    let short = run(CATALOG, None, Some("QueryRequest"), None).unwrap();
    assert_eq!(short[0], "QueryRequest\n");
    let full = run(CATALOG, None, Some("bytebase.v1.QueryRequest"), None).unwrap();
    assert_eq!(short[1..], full[1..]);
    assert_eq!(run(CATALOG, None, Some("Empty"), None).unwrap(), ["Empty\n", "  (no fields)"]);
    assert_eq!(
        run(CATALOG, None, Some("Nope"), None).unwrap_err(),
        "no schema named \"Nope\""
    );
    assert_eq!(
        run("paths: {}", None, Some("X"), None).unwrap_err(),
        "spec has no components.schemas"
    );
}

#[test]
fn an_operation_comes_before_a_type_and_that_before_a_service() {
    let op = run(CATALOG, Some("SQLService/Export"), Some("Empty"), Some("SQLService")).unwrap();
    assert_eq!(op, ["POST /bytebase.v1.SQLService/Export\n"]);
    let ty = run(CATALOG, None, Some("Empty"), Some("SQLService")).unwrap();
    assert_eq!(ty[0], "Empty\n");
}

#[test]
fn a_catalog_without_paths_or_sense_is_refused() {
    assert_eq!(run("a: 1", None, None, None).unwrap_err(), "embedded OpenAPI spec has no paths");
    assert!(run("a: [", None, None, None).is_err());
}

#[test]
fn references_and_descriptions_are_read() {
    let doc = doc();
    let body = doc
        .get("paths")
        .unwrap()
        .get("/bytebase.v1.SQLService/Query")
        .unwrap()
        .get("post")
        .unwrap()
        .get("requestBody")
        .unwrap();
    let reference = json_ref(body).unwrap();
    assert_eq!(reference, "#/components/schemas/bytebase.v1.QueryRequest");
    assert_eq!(print_fields(resolve_schema(&doc, reference).unwrap()).len(), 11);
    assert!(resolve_schema(&doc, "#/x/Nope").is_none());
    assert_eq!(first_line(Some("\n  a  \nb")), "a");
    assert_eq!(first_line(None), "");
    assert_eq!(desc_lines(Some(" a \n\n b")), ["a", "b"]);
}

#[test]
fn a_tag_does_not_hide_a_value() {
    let v = Yaml::parse("!t {a: !u text, b: [1, x]}").unwrap();
    assert_eq!(v.get_str("a"), Some("text"));
    assert_eq!(v.get("b").unwrap().as_list().unwrap().len(), 2);
    assert!(v.get("c").is_none());
}
