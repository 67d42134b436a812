//! The offline catalog of the API: services, methods, requests and message
//! types, from an OpenAPI document.
//!
//! What a field says of itself is shown in full, for the formats that nobody
//! should guess stand in its second and later lines.

use vstd::prelude::*;
use vstd::string::StringExecFns;

use crate::client::{method_parts, method_path, method_refusal, path_of};
use crate::json::opt_view;
use crate::numbers::{decimal, u64_text};
use crate::text::{
    has_part, has_prefix, join, join_text, lemma_part_behind, lemma_pieces_nonempty,
    lemma_views_push, line_seq, lines, quoted, quoted_text, same_text, split, split_text, strip_prefix, trim, trim_both, views,
};
use crate::yaml::{
    child, child_of, child_text, entry, find_entry, lemma_child_smaller, list_of, mapping_of,
    text_of, yaml_of_text, Yaml, YamlView,
};

verus! {

/// The commit that the catalog and the guides were taken from.
pub const CATALOG_COMMIT: &'static str = "c19b6bf4b46ab9f333bc2790bd8ed7992f9805ea";

// ---- descriptions ----

/// The lines with something in them, without the white space around it.
pub open spec fn full_lines(all: Seq<Seq<char>>) -> Seq<Seq<char>>
    decreases all.len(),
{
    if all.len() == 0 {
        Seq::empty()
    } else {
        let before = full_lines(all.drop_last());
        let line = trim_both(all.last());
        if line.len() > 0 {
            before.push(line)
        } else {
            before
        }
    }
}

/// The lines of a description.
pub open spec fn described(desc: Option<Seq<char>>) -> Seq<Seq<char>> {
    match desc {
        Some(d) => full_lines(line_seq(d)),
        None => Seq::empty(),
    }
}

/// The first line of a description, for listings.
pub open spec fn headline(desc: Option<Seq<char>>) -> Seq<char> {
    if described(desc).len() > 0 {
        described(desc)[0]
    } else {
        Seq::empty()
    }
}

/// Every line of a description that has something in it, trimmed.
pub fn desc_lines(desc: Option<&str>) -> (r: Vec<String>)
    ensures
        views(r@) == described(opt_view(desc)),
{
    let mut out: Vec<String> = Vec::new();
    proof {
        assert(views(out@) =~= Seq::<Seq<char>>::empty());
    }
    match desc {
        Some(d) => {
            let raw = lines(d);
            let ghost all = views(raw@);
            let mut i: usize = 0;
            proof {
                assert(all.take(0) =~= Seq::<Seq<char>>::empty());
            }
            while i < raw.len()
                invariant
                    i <= raw@.len(),
                    all == views(raw@),
                    views(out@) == full_lines(all.take(i as int)),
                decreases raw.len() - i,
            {
                proof {
                    assert(all.take(i + 1).drop_last() =~= all.take(i as int));
                    assert(all.take(i + 1).last() == raw@[i as int]@);
                }
                let line = trim(raw[i].as_str());
                if !line.is_empty() {
                    let text = line.to_owned();
                    proof {
                        lemma_views_push(out@, text);
                    }
                    out.push(text);
                }
                i += 1;
            }
            proof {
                assert(all.take(all.len() as int) =~= all);
            }
        },
        None => {},
    }
    out
}

/// The first line of a description that has something in it.
pub fn first_line(desc: Option<&str>) -> (r: String)
    ensures
        r@ == headline(opt_view(desc)),
{
    let all = desc_lines(desc);
    if all.len() > 0 {
        proof {
            assert(views(all@)[0] == all@[0]@);
        }
        all[0].clone()
    } else {
        String::new()
    }
}

/// The description of a value.
pub fn desc_of(v: &Yaml) -> (r: Option<&str>)
    ensures
        opt_view(r) == child_text(v@, "description"@),
{
    v.get_str("description")
}

// ---- names ----

/// The last part of a reference.
pub open spec fn ref_name(reference: Seq<char>) -> Seq<char> {
    split_text(reference, '/').last()
}

/// The last part of a reference.
fn last_part(reference: &str) -> (r: String)
    ensures
        r@ == ref_name(reference@),
{
    let parts = split(reference, '/');
    proof {
        lemma_pieces_nonempty(reference@, crate::text::is_char('/'));
        assert(views(parts@).last() == parts@[parts@.len() - 1]@);
    }
    parts[parts.len() - 1].clone()
}

/// The service that a path belongs to.
pub open spec fn service_in(path: Seq<char>) -> Option<Seq<char>> {
    if has_prefix(path, "/bytebase.v1."@) {
        let service = split_text(path.skip("/bytebase.v1."@.len() as int), '/')[0];
        if service.len() > 0 {
            Some(service)
        } else {
            None
        }
    } else {
        None
    }
}

/// The service that a path belongs to.
pub fn service_of(path: &str) -> (r: Option<String>)
    ensures
        opt_view(r) == service_in(path@),
{
    match strip_prefix(path, "/bytebase.v1.") {
        Some(rest) => {
            let parts = split(rest, '/');
            proof {
                lemma_pieces_nonempty(rest@, crate::text::is_char('/'));
                assert(views(parts@)[0] == parts@[0]@);
            }
            if parts[0].as_str().is_empty() {
                None
            } else {
                Some(parts[0].clone())
            }
        },
        None => None,
    }
}

/// The reference of a JSON body.
pub open spec fn body_ref(v: YamlView) -> Option<Seq<char>> {
    let schema = child_of(
        child_of(child(v, "content"@), "application/json"@),
        "schema"@,
    );
    match schema {
        Some(s) => child_text(s, "$ref"@),
        None => None,
    }
}

/// The reference of a JSON body.
pub fn json_ref(v: &Yaml) -> (r: Option<&str>)
    ensures
        opt_view(r) == body_ref(v@),
{
    match v.get("content") {
        Some(c) => match c.get("application/json") {
            Some(j) => match j.get("schema") {
                Some(s) => s.get_str("$ref"),
                None => None,
            },
            None => None,
        },
        None => None,
    }
}

/// The message type that a reference leads to.
pub open spec fn referenced(doc: YamlView, reference: Seq<char>) -> Option<YamlView> {
    child_of(child_of(child(doc, "components"@), "schemas"@), ref_name(reference))
}

/// The message type that a reference leads to.
pub fn resolve_schema<'a>(doc: &'a Yaml, reference: &str) -> (r: Option<&'a Yaml>)
    ensures
        opt_view(r) == referenced(doc@, reference@),
{
    let name = last_part(reference);
    match doc.get("components") {
        Some(c) => match c.get("schemas") {
            Some(s) => s.get(name.as_str()),
            None => None,
        },
        None => None,
    }
}

// ---- types ----

/// The strings among the items.
pub open spec fn texts_in(items: Seq<YamlView>) -> Seq<Seq<char>>
    decreases items.len(),
{
    if items.len() == 0 {
        Seq::empty()
    } else {
        let before = texts_in(items.drop_last());
        match text_of(items.last()) {
            Some(s) => before.push(s),
            None => before,
        }
    }
}

/// The first text that is not `null`.
pub open spec fn first_real(texts: Seq<Seq<char>>) -> Option<Seq<char>>
    decreases texts.len(),
{
    if texts.len() == 0 {
        None
    } else if texts[0] != "null"@ {
        Some(texts[0])
    } else {
        first_real(texts.skip(1))
    }
}

/// The texts of the types of a field: one, or several where it can be null.
pub open spec fn type_texts(v: YamlView) -> Seq<Seq<char>> {
    match child(v, "type"@) {
        Some(node) => match list_of(node) {
            Some(items) => texts_in(items),
            None => Seq::empty(),
        },
        None => Seq::empty(),
    }
}

/// The type of a field by name: the one, or the first of several that is not
/// `null`; `object` if there is none.
pub open spec fn plain_type(v: YamlView) -> Seq<char> {
    match child_text(v, "type"@) {
        Some(t) => t,
        None => match first_real(type_texts(v)) {
            Some(t) => t,
            None => "object"@,
        },
    }
}

/// The values of an enumeration: the first twelve, and a mark if there are more.
pub open spec fn enum_text(items: Seq<YamlView>) -> Seq<char> {
    let texts = texts_in(items);
    let shown = if texts.len() > 12 {
        texts.take(12)
    } else {
        texts
    };
    "enum "@ + join_text(shown, " | "@) + if items.len() > 12 {
        " | ..."@
    } else {
        ""@
    }
}

/// The type of a field in words: the name of a message type, the type of an
/// array's items, the values of an enumeration, or a plain type; with a mark
/// where it can be null.
pub open spec fn type_words(v: YamlView) -> Seq<char>
    decreases v,
{
    match child_text(v, "$ref"@) {
        Some(r) => ref_name(r),
        None => {
            let ty = plain_type(v);
            let rendered = if ty == "array"@ {
                let item = match child(v, "items"@) {
                    Some(i) => {
                        proof {
                            lemma_child_smaller(v, "items"@);
                        }
                        type_words(i)
                    },
                    None => "any"@,
                };
                "array<"@ + item + ">"@
            } else if ty == "string"@ {
                match child(v, "enum"@) {
                    Some(e) => match list_of(e) {
                        Some(items) => enum_text(items),
                        None => "string"@,
                    },
                    None => "string"@,
                }
            } else {
                ty
            };
            if type_texts(v).contains("null"@) {
                rendered + " (optional)"@
            } else {
                rendered
            }
        },
    }
}

/// The strings among the items.
fn texts_of(items: &Vec<Yaml>) -> (r: Vec<String>)
    ensures
        views(r@) == texts_in(views(items@)),
{
    let ghost all = views(items@);
    let mut out: Vec<String> = Vec::new();
    let mut i: usize = 0;
    proof {
        assert(all.take(0) =~= Seq::<YamlView>::empty());
        assert(views(out@) =~= Seq::<Seq<char>>::empty());
    }
    while i < items.len()
        invariant
            i <= items@.len(),
            all == views(items@),
            views(out@) == texts_in(all.take(i as int)),
        decreases items.len() - i,
    {
        proof {
            assert(all.take(i + 1).drop_last() =~= all.take(i as int));
            assert(all.take(i + 1).last() == items@[i as int]@);
        }
        match items[i].as_str() {
            Some(s) => {
                let text = s.to_owned();
                proof {
                    lemma_views_push(out@, text);
                }
                out.push(text);
            },
            None => {},
        }
        i += 1;
    }
    proof {
        assert(all.take(all.len() as int) =~= all);
    }
    out
}

/// Whether the text is among the items.
fn among(items: &Vec<String>, s: &str) -> (r: bool)
    ensures
        r == views(items@).contains(s@),
{
    let ghost all = views(items@);
    let mut i: usize = 0;
    while i < items.len()
        invariant
            i <= items@.len(),
            all == views(items@),
            forall|k: int| 0 <= k < i ==> all[k] != s@,
        decreases items.len() - i,
    {
        if same_text(items[i].as_str(), s) {
            proof {
                assert(all[i as int] == s@);
            }
            return true;
        }
        i += 1;
    }
    false
}

/// The first text that is not `null`.
fn find_real(texts: &Vec<String>) -> (r: Option<String>)
    ensures
        opt_view(r) == first_real(views(texts@)),
{
    let ghost all = views(texts@);
    let mut i: usize = 0;
    proof {
        assert(all.skip(0) =~= all);
    }
    while i < texts.len()
        invariant
            i <= texts@.len(),
            all == views(texts@),
            first_real(all) == first_real(all.skip(i as int)),
        decreases texts.len() - i,
    {
        proof {
            assert(all.skip(i as int).skip(1) =~= all.skip(i + 1));
            assert(all.skip(i as int)[0] == texts@[i as int]@);
        }
        if !same_text(texts[i].as_str(), "null") {
            return Some(texts[i].clone());
        }
        i += 1;
    }
    None
}

/// The texts of the types of a field.
fn types_of(v: &Yaml) -> (r: Vec<String>)
    ensures
        views(r@) == type_texts(v@),
{
    match v.get("type") {
        Some(node) => match node.as_list() {
            Some(items) => {
                return texts_of(items);
            },
            None => {},
        },
        None => {},
    }
    let none: Vec<String> = Vec::new();
    proof {
        assert(views(none@) =~= Seq::<Seq<char>>::empty());
    }
    none
}

/// The values of an enumeration.
fn enum_words(items: &Vec<Yaml>) -> (r: String)
    ensures
        r@ == enum_text(views(items@)),
{
    let mut texts = texts_of(items);
    let ghost all = views(texts@);
    if texts.len() > 12 {
        texts.truncate(12);
        proof {
            assert(views(texts@) =~= all.take(12));
        }
    }
    let mut s = "enum ".to_owned();
    s.append(join(&texts, " | ").as_str());
    if items.len() > 12 {
        s.append(" | ...");
    } else {
        s.append("");
    }
    s
}

/// The type of a field by name, in words.
pub open spec fn rendered_type(v: YamlView, ty: Seq<char>) -> Seq<char> {
    if ty == "array"@ {
        let item = match child(v, "items"@) {
            Some(i) => type_words(i),
            None => "any"@,
        };
        "array<"@ + item + ">"@
    } else if ty == "string"@ {
        match child(v, "enum"@) {
            Some(e) => match list_of(e) {
                Some(items) => enum_text(items),
                None => "string"@,
            },
            None => "string"@,
        }
    } else {
        ty
    }
}

/// The type of a field by name, in words.
pub fn render_type(v: &Yaml, ty: &str) -> (r: String)
    ensures
        r@ == rendered_type(v@, ty@),
    decreases v@, 0int,
{
    if same_text(ty, "array") {
        let item = match v.get("items") {
            Some(i) => {
                proof {
                    lemma_child_smaller(v@, "items"@);
                }
                field_type(i)
            },
            None => "any".to_owned(),
        };
        let mut s = "array<".to_owned();
        s.append(item.as_str());
        s.append(">");
        return s;
    }
    if same_text(ty, "string") {
        match v.get("enum") {
            Some(e) => match e.as_list() {
                Some(items) => {
                    return enum_words(items);
                },
                None => {},
            },
            None => {},
        }
        return "string".to_owned();
    }
    ty.to_owned()
}

/// The type of a field in words. A field that can be null lists its type beside
/// `null`; to read that as anything but the type would tell the wrong one.
pub fn field_type(v: &Yaml) -> (r: String)
    ensures
        r@ == type_words(v@),
    decreases v@, 1int,
{
    match v.get_str("$ref") {
        Some(r) => {
            return last_part(r);
        },
        None => {},
    }
    let listed = types_of(v);
    let nullable = among(&listed, "null");
    let ty = match v.get_str("type") {
        Some(t) => t.to_owned(),
        None => match find_real(&listed) {
            Some(t) => t,
            None => "object".to_owned(),
        },
    };
    let mut s = render_type(v, ty.as_str());
    if nullable {
        s.append(" (optional)");
    }
    s
}

// ---- fields ----

/// The texts that a message type lists as required.
pub open spec fn required_in(schema: YamlView) -> Seq<Seq<char>> {
    match child(schema, "required"@) {
        Some(r) => match list_of(r) {
            Some(items) => texts_in(items),
            None => Seq::empty(),
        },
        None => Seq::empty(),
    }
}

/// The lines of one field: name, type and first line of its description, then
/// the other lines of it, indented.
pub open spec fn field_lines(key: YamlView, v: YamlView, required: Seq<Seq<char>>) -> Seq<
    Seq<char>,
> {
    let name = match text_of(key) {
        Some(s) => s,
        None => "?"@,
    };
    let mark = if required.contains(name) {
        " (required)"@
    } else {
        ""@
    };
    let desc = described(child_text(v, "description"@));
    let head = "  "@ + name + ": "@ + type_words(v) + mark;
    if desc.len() == 0 {
        Seq::empty().push(head)
    } else {
        Seq::empty().push(head + " — "@ + desc[0]) + Seq::new(
            (desc.len() - 1) as nat,
            |i: int| "      "@ + desc[i + 1],
        )
    }
}

/// The lines of all fields.
pub open spec fn all_field_lines(
    fields: Seq<(YamlView, YamlView)>,
    required: Seq<Seq<char>>,
) -> Seq<Seq<char>>
    decreases fields.len(),
{
    if fields.len() == 0 {
        Seq::empty()
    } else {
        all_field_lines(fields.drop_last(), required) + field_lines(
            fields.last().0,
            fields.last().1,
            required,
        )
    }
}

/// The lines of a message type.
pub open spec fn schema_lines(schema: YamlView) -> Seq<Seq<char>> {
    let props = match child(schema, "properties"@) {
        Some(p) => mapping_of(p),
        None => None,
    };
    match props {
        Some(fields) => all_field_lines(fields, required_in(schema)),
        None => Seq::empty().push("  (no fields)"@),
    }
}

/// One line.
fn single_line(s: &str) -> (r: Vec<String>)
    ensures
        views(r@) == Seq::empty().push(s@),
{
    let mut out: Vec<String> = Vec::new();
    out.push(s.to_owned());
    proof {
        assert(views(out@) =~= Seq::empty().push(s@));
    }
    out
}

/// More lines behind the others.
fn add_lines(out: &mut Vec<String>, more: Vec<String>)
    ensures
        views(final(out)@) == views(old(out)@) + views(more@),
{
    let mut more = more;
    let ghost a = out@;
    let ghost b = more@;
    out.append(&mut more);
    proof {
        assert(views(a + b) =~= views(a) + views(b));
    }
}

/// One line more behind the others.
fn add_line(out: &mut Vec<String>, line: String)
    ensures
        views(final(out)@) == views(old(out)@).push(line@),
{
    proof {
        lemma_views_push(out@, line);
    }
    out.push(line);
}

/// The texts that a message type lists as required.
fn required_of(schema: &Yaml) -> (r: Vec<String>)
    ensures
        views(r@) == required_in(schema@),
{
    match schema.get("required") {
        Some(v) => match v.as_list() {
            Some(items) => {
                return texts_of(items);
            },
            None => {},
        },
        None => {},
    }
    let none: Vec<String> = Vec::new();
    proof {
        assert(views(none@) =~= Seq::<Seq<char>>::empty());
    }
    none
}

/// The lines of one field.
fn print_field(key: &Yaml, v: &Yaml, required: &Vec<String>) -> (r: Vec<String>)
    ensures
        views(r@) == field_lines(key@, v@, views(required@)),
{
    let name: &str = match key.as_str() {
        Some(s) => s,
        None => "?",
    };
    let mut head = "  ".to_owned();
    head.append(name);
    head.append(": ");
    head.append(field_type(v).as_str());
    if among(required, name) {
        head.append(" (required)");
    } else {
        head.append("");
    }
    let desc = desc_lines(desc_of(v));
    let ghost all = views(desc@);
    if desc.len() == 0 {
        return single_line(head.as_str());
    }
    head.append(" — ");
    head.append(desc[0].as_str());
    let mut out = single_line(head.as_str());
    let ghost first = Seq::empty().push(head@);
    let mut i: usize = 1;
    proof {
        assert(all[0] == desc@[0]@);
        assert(views(out@) =~= first + Seq::new(0, |k: int| "      "@ + all[k + 1]));
    }
    while i < desc.len()
        invariant
            1 <= i <= desc@.len(),
            all == views(desc@),
            views(out@) == first + Seq::new((i - 1) as nat, |k: int| "      "@ + all[k + 1]),
        decreases desc.len() - i,
    {
        let mut line = "      ".to_owned();
        line.append(desc[i].as_str());
        let ghost before = views(out@);
        add_line(&mut out, line);
        proof {
            assert(all[i as int] == desc@[i as int]@);
            assert(before.push(line@) =~= first + Seq::new(
                i as nat,
                |k: int| "      "@ + all[k + 1],
            ));
        }
        i += 1;
    }
    proof {
        assert(views(out@) =~= field_lines(key@, v@, views(required@)));
    }
    out
}

/// The lines of a message type: one for each field, and under it the rest of
/// its description. None of it is dropped, for the formats of names stand there.
pub fn print_fields(schema: &Yaml) -> (r: Vec<String>)
    ensures
        views(r@) == schema_lines(schema@),
{
    let fields = match schema.get("properties") {
        Some(p) => match p.as_mapping() {
            Some(m) => m,
            None => {
                return single_line("  (no fields)");
            },
        },
        None => {
            return single_line("  (no fields)");
        },
    };
    let required = required_of(schema);
    let ghost all = views(fields@);
    let ghost req = views(required@);
    let mut out: Vec<String> = Vec::new();
    let mut i: usize = 0;
    proof {
        assert(all.take(0) =~= Seq::<(YamlView, YamlView)>::empty());
        assert(views(out@) =~= Seq::<Seq<char>>::empty());
    }
    while i < fields.len()
        invariant
            i <= fields@.len(),
            all == views(fields@),
            req == views(required@),
            views(out@) == all_field_lines(all.take(i as int), req),
        decreases fields.len() - i,
    {
        proof {
            assert(all.take(i + 1).drop_last() =~= all.take(i as int));
            assert(all.take(i + 1).last() == fields@[i as int]@);
        }
        let more = print_field(&fields[i].0, &fields[i].1, &required);
        add_lines(&mut out, more);
        i += 1;
    }
    proof {
        assert(all.take(all.len() as int) =~= all);
    }
    out
}

// ---- listings ----

/// The services that paths belong to, path by path.
pub open spec fn services_in(paths: Seq<(YamlView, YamlView)>) -> Seq<Seq<char>>
    decreases paths.len(),
{
    if paths.len() == 0 {
        Seq::empty()
    } else {
        let before = services_in(paths.drop_last());
        match text_of(paths.last().0) {
            Some(path) => match service_in(path) {
                Some(name) => before.push(name),
                None => before,
            },
            None => before,
        }
    }
}

/// Runs of the same name, each with its length.
pub open spec fn runs(names: Seq<Seq<char>>) -> Seq<(Seq<char>, nat)>
    decreases names.len(),
{
    if names.len() == 0 {
        Seq::empty()
    } else {
        let before = runs(names.drop_last());
        if before.len() > 0 && before.last().0 == names.last() {
            before.drop_last().push((names.last(), before.last().1 + 1))
        } else {
            before.push((names.last(), 1))
        }
    }
}

/// The line of one service.
pub open spec fn service_line(service: (Seq<char>, nat)) -> Seq<char> {
    "  "@ + service.0 + " ("@ + decimal(service.1) + " methods)"@
}

/// The lines of the list of services.
pub open spec fn services_lines(paths: Seq<(YamlView, YamlView)>) -> Seq<Seq<char>> {
    let services = runs(services_in(paths));
    Seq::empty().push(
        "Services ("@ + decimal(services.len())
            + " total). Browse one with: bbcli search --service <name>"@,
    ).push("Catalog: bytebase "@ + CATALOG_COMMIT@ + "\n"@) + Seq::new(
        services.len(),
        |i: int| service_line(services[i]),
    )
}

/// Runs by their views.
pub open spec fn run_views(s: Seq<(String, usize)>) -> Seq<(Seq<char>, nat)> {
    Seq::new(s.len(), |i: int| (s[i].0@, s[i].1 as nat))
}

/// Runs of the same service, each with its length.
fn service_runs(paths: &Vec<(Yaml, Yaml)>) -> (r: Vec<(String, usize)>)
    ensures
        run_views(r@) == runs(services_in(views(paths@))),
{
    let ghost all = views(paths@);
    let mut out: Vec<(String, usize)> = Vec::new();
    let mut i: usize = 0;
    proof {
        assert(all.take(0) =~= Seq::<(YamlView, YamlView)>::empty());
        assert(run_views(out@) =~= Seq::<(Seq<char>, nat)>::empty());
    }
    while i < paths.len()
        invariant
            i <= paths@.len(),
            all == views(paths@),
            run_views(out@) == runs(services_in(all.take(i as int))),
            forall|k: int| 0 <= k < out@.len() ==> (#[trigger] out@[k]).1 <= i,
        decreases paths.len() - i,
    {
        let ghost before = services_in(all.take(i as int));
        proof {
            assert(all.take(i + 1).drop_last() =~= all.take(i as int));
            assert(all.take(i + 1).last() == paths@[i as int]@);
        }
        let name = match paths[i].0.as_str() {
            Some(path) => service_of(path),
            None => None,
        };
        match name {
            Some(name) => {
                proof {
                    assert(before.push(name@).drop_last() =~= before);
                }
                let n: usize = out.len();
                if n > 0 && same_text(out[n - 1].0.as_str(), name.as_str()) {
                    let count: usize = out[n - 1].1 + 1;
                    let ghost old_runs = run_views(out@);
                    out.set(n - 1, (name, count));
                    proof {
                        assert(old_runs.last() == old_runs[n - 1]);
                        assert(run_views(out@) =~= old_runs.drop_last().push(
                            (name@, old_runs.last().1 + 1),
                        ));
                    }
                } else {
                    let ghost old_runs = run_views(out@);
                    out.push((name, 1));
                    proof {
                        if n > 0 {
                            assert(old_runs.last() == old_runs[n - 1]);
                        }
                        assert(run_views(out@) =~= old_runs.push((name@, 1)));
                    }
                }
            },
            None => {},
        }
        i += 1;
    }
    proof {
        assert(all.take(all.len() as int) =~= all);
    }
    out
}

/// The lines of the list of services, each with its number of methods.
pub fn print_services(paths: &Vec<(Yaml, Yaml)>) -> (r: Vec<String>)
    ensures
        views(r@) == services_lines(views(paths@)),
{
    let services = service_runs(paths);
    let ghost all = run_views(services@);
    let mut head = "Services (".to_owned();
    head.append(u64_text(services.len() as u64).as_str());
    head.append(" total). Browse one with: bbcli search --service <name>");
    let mut source = "Catalog: bytebase ".to_owned();
    source.append(CATALOG_COMMIT);
    source.append("\n");
    let mut out = single_line(head.as_str());
    add_line(&mut out, source);
    let ghost first = Seq::empty().push(head@).push(source@);
    let mut i: usize = 0;
    proof {
        assert(views(out@) =~= first + Seq::new(0, |k: int| service_line(all[k])));
    }
    while i < services.len()
        invariant
            i <= services@.len(),
            all == run_views(services@),
            views(out@) == first + Seq::new(i as nat, |k: int| service_line(all[k])),
        decreases services.len() - i,
    {
        let mut line = "  ".to_owned();
        line.append(services[i].0.as_str());
        line.append(" (");
        line.append(u64_text(services[i].1 as u64).as_str());
        line.append(" methods)");
        let ghost before = views(out@);
        add_line(&mut out, line);
        proof {
            assert(line@ == service_line(all[i as int]));
            assert(before.push(line@) =~= first + Seq::new(
                (i + 1) as nat,
                |k: int| service_line(all[k]),
            ));
        }
        i += 1;
    }
    proof {
        assert(views(out@) =~= services_lines(views(paths@)));
    }
    out
}

/// The line of a method of a service, if the entry is one.
pub open spec fn method_line(service: Seq<char>, key: YamlView, v: YamlView) -> Option<Seq<char>> {
    let prefix = "/bytebase.v1."@ + service + "/"@;
    match (text_of(key), child(v, "post"@)) {
        (Some(path), Some(post)) => if has_prefix(path, prefix) {
            let summary = match child_text(post, "summary"@) {
                Some(s) => s,
                None => Seq::empty(),
            };
            let head = "  "@ + path.skip(prefix.len() as int) + " — "@ + summary;
            let desc = headline(child_text(post, "description"@));
            Some(
                if desc.len() == 0 {
                    head
                } else {
                    head + ": "@ + desc
                },
            )
        } else {
            None
        },
        _ => None,
    }
}

/// The lines of the methods of a service.
pub open spec fn method_lines(service: Seq<char>, paths: Seq<(YamlView, YamlView)>) -> Seq<Seq<char>>
    decreases paths.len(),
{
    if paths.len() == 0 {
        Seq::empty()
    } else {
        let before = method_lines(service, paths.drop_last());
        match method_line(service, paths.last().0, paths.last().1) {
            Some(line) => before.push(line),
            None => before,
        }
    }
}

/// The line of a method of a service, if the entry is one.
fn print_method(service: &str, key: &Yaml, v: &Yaml) -> (r: Option<String>)
    ensures
        opt_view(r) == method_line(service@, key@, v@),
{
    let mut prefix = "/bytebase.v1.".to_owned();
    prefix.append(service);
    prefix.append("/");
    let path = match key.as_str() {
        Some(p) => p,
        None => {
            return None;
        },
    };
    let name = match strip_prefix(path, prefix.as_str()) {
        Some(n) => n,
        None => {
            return None;
        },
    };
    let post = match v.get("post") {
        Some(p) => p,
        None => {
            return None;
        },
    };
    let mut line = "  ".to_owned();
    line.append(name);
    line.append(" — ");
    match post.get_str("summary") {
        Some(s) => line.append(s),
        None => {
            let empty = String::new();
            line.append(empty.as_str());
        },
    }
    let desc = first_line(desc_of(post));
    if !desc.as_str().is_empty() {
        line.append(": ");
        line.append(desc.as_str());
    }
    Some(line)
}

/// What the list of a service's methods is headed by.
pub open spec fn service_head(service: Seq<char>, count: nat) -> Seq<char> {
    service + " ("@ + decimal(count) + " methods). Call with: bbcli api "@ + service + "/<Method>"@
}

/// The refusal when there is no such service.
pub open spec fn no_service(service: Seq<char>) -> Seq<char> {
    "no service "@ + quoted_text(service) + "; list all with: bbcli search"@
}

/// The lines of the methods of one service.
pub fn print_service(paths: &Vec<(Yaml, Yaml)>, service: &str) -> (r: Result<Vec<String>, String>)
    ensures
        r is Ok <==> method_lines(service@, views(paths@)).len() > 0,
        r matches Ok(out) ==> views(out@) == Seq::empty().push(
            service_head(service@, method_lines(service@, views(paths@)).len()),
        ) + method_lines(service@, views(paths@)),
        r matches Err(e) ==> e@ == no_service(service@),
{
    let ghost all = views(paths@);
    let mut rows: Vec<String> = Vec::new();
    let mut i: usize = 0;
    proof {
        assert(all.take(0) =~= Seq::<(YamlView, YamlView)>::empty());
        assert(views(rows@) =~= Seq::<Seq<char>>::empty());
    }
    while i < paths.len()
        invariant
            i <= paths@.len(),
            all == views(paths@),
            views(rows@) == method_lines(service@, all.take(i as int)),
        decreases paths.len() - i,
    {
        proof {
            assert(all.take(i + 1).drop_last() =~= all.take(i as int));
            assert(all.take(i + 1).last() == paths@[i as int]@);
        }
        match print_method(service, &paths[i].0, &paths[i].1) {
            Some(line) => add_line(&mut rows, line),
            None => {},
        }
        i += 1;
    }
    proof {
        assert(all.take(all.len() as int) =~= all);
    }
    if rows.len() == 0 {
        let mut e = "no service ".to_owned();
        e.append(quoted(service).as_str());
        e.append("; list all with: bbcli search");
        return Err(e);
    }
    let mut head = service.to_owned();
    head.append(" (");
    head.append(u64_text(rows.len() as u64).as_str());
    head.append(" methods). Call with: bbcli api ");
    head.append(service);
    head.append("/<Method>");
    let mut out = single_line(head.as_str());
    add_lines(&mut out, rows);
    Ok(out)
}

/// The refusal when there is no such operation.
pub open spec fn no_operation(operation: Seq<char>) -> Seq<char> {
    "no operation "@ + quoted_text(operation)
        + "; browse services with: bbcli search --service <name>"@
}

/// The lines of an operation: its path, what it says of itself, the fields of
/// its request, and the name of its response.
pub open spec fn operation_lines(doc: YamlView, path: Seq<char>, post: YamlView) -> Seq<Seq<char>> {
    let head = Seq::empty().push("POST "@ + path + "\n"@);
    let told = match child_text(post, "description"@) {
        Some(d) => head.push(d + "\n"@),
        None => head,
    };
    let request = match child(post, "requestBody"@) {
        Some(b) => match body_ref(b) {
            Some(r) => referenced(doc, r),
            None => None,
        },
        None => None,
    };
    let asked = match request {
        Some(schema) => (told.push("Request fields (pass as --args, camelCase):"@) + schema_lines(
            schema,
        )).push(""@),
        None => told,
    };
    let response = match child_of(child(post, "responses"@), "200"@) {
        Some(ok) => body_ref(ok),
        None => None,
    };
    match response {
        Some(r) => asked.push(
            "Response: "@ + ref_name(r) + " (fields: bbcli search --schema "@ + ref_name(r) + ")"@,
        ),
        None => asked,
    }
}

/// The operation at a path.
pub open spec fn operation_at(paths: Seq<(YamlView, YamlView)>, path: Seq<char>) -> Option<
    YamlView,
> {
    child_of(entry(paths, path), "post"@)
}

/// What the search for an operation brings.
pub open spec fn operation_found(
    doc: YamlView,
    paths: Seq<(YamlView, YamlView)>,
    operation: Seq<char>,
) -> Result<Seq<Seq<char>>, Seq<char>> {
    match method_parts(operation) {
        Some((service, name)) => {
            let path = path_of(service, name);
            match operation_at(paths, path) {
                Some(post) => Ok(operation_lines(doc, path, post)),
                None => Err(no_operation(operation)),
            }
        },
        None => Err(method_refusal(operation)),
    }
}

/// The lines of an operation.
fn describe_operation(doc: &Yaml, path: &str, post: &Yaml) -> (r: Vec<String>)
    ensures
        views(r@) == operation_lines(doc@, path@, post@),
{
    let mut head = "POST ".to_owned();
    head.append(path);
    head.append("\n");
    let mut out = single_line(head.as_str());
    match desc_of(post) {
        Some(d) => {
            let mut line = d.to_owned();
            line.append("\n");
            add_line(&mut out, line);
        },
        None => {},
    }
    let request = match post.get("requestBody") {
        Some(b) => match json_ref(b) {
            Some(r) => resolve_schema(doc, r),
            None => None,
        },
        None => None,
    };
    match request {
        Some(schema) => {
            add_line(&mut out, "Request fields (pass as --args, camelCase):".to_owned());
            let fields = print_fields(schema);
            add_lines(&mut out, fields);
            add_line(&mut out, "".to_owned());
        },
        None => {},
    }
    let response = match post.get("responses") {
        Some(all) => match all.get("200") {
            Some(ok) => json_ref(ok),
            None => None,
        },
        None => None,
    };
    match response {
        Some(r) => {
            let name = last_part(r);
            let mut line = "Response: ".to_owned();
            line.append(name.as_str());
            line.append(" (fields: bbcli search --schema ");
            line.append(name.as_str());
            line.append(")");
            add_line(&mut out, line);
        },
        None => {},
    }
    out
}

/// A list of lines or a refusal, by its texts.
pub open spec fn found_view(r: Result<Vec<String>, String>) -> Result<Seq<Seq<char>>, Seq<char>> {
    match r {
        Ok(out) => Ok(views(out@)),
        Err(e) => Err(e@),
    }
}

/// The lines of the operation that a reference names, in any of its forms.
pub fn print_operation(doc: &Yaml, paths: &Vec<(Yaml, Yaml)>, operation: &str) -> (r: Result<
    Vec<String>,
    String,
>)
    ensures
        found_view(r) == operation_found(doc@, views(paths@), operation@),
{
    let path = match method_path(operation) {
        Ok(path) => path,
        Err(e) => {
            return Err(e);
        },
    };
    let post = match find_entry(paths, path.as_str()) {
        Some(v) => v.get("post"),
        None => None,
    };
    match post {
        Some(post) => Ok(describe_operation(doc, path.as_str(), post)),
        None => {
            let mut e = "no operation ".to_owned();
            e.append(quoted(operation).as_str());
            e.append("; browse services with: bbcli search --service <name>");
            Err(e)
        },
    }
}

/// What the search for a message type brings: by its name, or by its name in
/// the package.
pub open spec fn schema_found(doc: YamlView, name: Seq<char>) -> Result<Seq<Seq<char>>, Seq<char>> {
    let schemas = match child_of(child(doc, "components"@), "schemas"@) {
        Some(s) => mapping_of(s),
        None => None,
    };
    match schemas {
        Some(m) => {
            let short = entry(m, name);
            let found = if short is Some {
                short
            } else {
                entry(m, "bytebase.v1."@ + name)
            };
            match found {
                Some(schema) => Ok(Seq::empty().push(name + "\n"@) + schema_lines(schema)),
                None => Err("no schema named "@ + quoted_text(name)),
            }
        },
        None => Err("spec has no components.schemas"@),
    }
}

/// The lines of a message type, by its name or by its name in the package.
pub fn print_schema(doc: &Yaml, name: &str) -> (r: Result<Vec<String>, String>)
    ensures
        found_view(r) == schema_found(doc@, name@),
{
    let schemas = match doc.get("components") {
        Some(c) => match c.get("schemas") {
            Some(s) => s.as_mapping(),
            None => None,
        },
        None => None,
    };
    let schemas = match schemas {
        Some(m) => m,
        None => {
            return Err("spec has no components.schemas".to_owned());
        },
    };
    let mut full = "bytebase.v1.".to_owned();
    full.append(name);
    let found = match find_entry(schemas, name) {
        Some(s) => Some(s),
        None => find_entry(schemas, full.as_str()),
    };
    match found {
        Some(schema) => {
            let mut head = name.to_owned();
            head.append("\n");
            let mut out = single_line(head.as_str());
            let fields = print_fields(schema);
            add_lines(&mut out, fields);
            Ok(out)
        },
        None => {
            let mut e = "no schema named ".to_owned();
            e.append(quoted(name).as_str());
            Err(e)
        },
    }
}

/// What a search in a document brings: an operation before a message type,
/// that before a service, and without any the list of all services.
pub open spec fn search_found(
    doc: YamlView,
    operation: Option<Seq<char>>,
    schema: Option<Seq<char>>,
    service: Option<Seq<char>>,
) -> Result<Seq<Seq<char>>, Seq<char>> {
    let paths = match child(doc, "paths"@) {
        Some(p) => mapping_of(p),
        None => None,
    };
    match paths {
        None => Err("embedded OpenAPI spec has no paths"@),
        Some(paths) => match operation {
            Some(op) => operation_found(doc, paths, op),
            None => match schema {
                Some(name) => schema_found(doc, name),
                None => match service {
                    Some(name) => if method_lines(name, paths).len() > 0 {
                        Ok(
                            Seq::empty().push(service_head(name, method_lines(name, paths).len()))
                                + method_lines(name, paths),
                        )
                    } else {
                        Err(no_service(name))
                    },
                    None => Ok(services_lines(paths)),
                },
            },
        },
    }
}

/// A search in a document: the lines that it brings, or why there are none.
pub fn search_document(
    doc: &Yaml,
    operation: Option<&str>,
    schema: Option<&str>,
    service: Option<&str>,
) -> (r: Result<Vec<String>, String>)
    ensures
        found_view(r) == search_found(
            doc@,
            opt_view(operation),
            opt_view(schema),
            opt_view(service),
        ),
{
    let paths = match doc.get("paths") {
        Some(p) => p.as_mapping(),
        None => None,
    };
    let paths = match paths {
        Some(p) => p,
        None => {
            return Err("embedded OpenAPI spec has no paths".to_owned());
        },
    };
    match operation {
        Some(op) => {
            return print_operation(doc, paths, op);
        },
        None => {},
    }
    match schema {
        Some(name) => {
            return print_schema(doc, name);
        },
        None => {},
    }
    match service {
        Some(name) => print_service(paths, name),
        None => Ok(print_services(paths)),
    }
}

/// A search in the catalog, from its text.
pub fn run(
    catalog: &str,
    operation: Option<&str>,
    schema: Option<&str>,
    service: Option<&str>,
) -> (r: Result<Vec<String>, String>)
    ensures
        found_view(r) == match yaml_of_text(catalog@) {
            Ok(doc) => search_found(
                doc,
                opt_view(operation),
                opt_view(schema),
                opt_view(service),
            ),
            Err(e) => Err(e),
        },
{
    match Yaml::parse(catalog) {
        Ok(doc) => search_document(&doc, operation, schema, service),
        Err(e) => Err(e),
    }
}

// ---- laws ----

/// How many methods the runs count in all.
pub open spec fn counted(services: Seq<(Seq<char>, nat)>) -> nat
    decreases services.len(),
{
    if services.len() == 0 {
        0
    } else {
        counted(services.drop_last()) + services.last().1
    }
}

/// The list of services counts every method once.
pub proof fn law_services_count_every_method(names: Seq<Seq<char>>)
    ensures
        counted(runs(names)) == names.len(),
    decreases names.len(),
{
    if names.len() > 0 {
        let before = runs(names.drop_last());
        law_services_count_every_method(names.drop_last());
        let all = runs(names);
        if before.len() > 0 && before.last().0 == names.last() {
            assert(all.drop_last() =~= before.drop_last());
        } else {
            assert(all.drop_last() =~= before);
        }
    }
}

/// No line of a description is lost: each that has something in it stands in
/// what is shown of the field.
pub proof fn law_no_description_is_dropped(
    key: YamlView,
    v: YamlView,
    required: Seq<Seq<char>>,
    k: int,
)
    requires
        0 <= k < described(child_text(v, "description"@)).len(),
    ensures
        field_lines(key, v, required).len() == described(child_text(v, "description"@)).len(),
        has_part(
            field_lines(key, v, required)[k],
            described(child_text(v, "description"@))[k],
        ),
{
    let desc = described(child_text(v, "description"@));
    let name = match text_of(key) {
        Some(s) => s,
        None => "?"@,
    };
    let mark = if required.contains(name) {
        " (required)"@
    } else {
        ""@
    };
    let head = "  "@ + name + ": "@ + type_words(v) + mark;
    let lead = if k == 0 {
        head + " — "@
    } else {
        "      "@
    };
    lemma_part_behind(lead, desc[k], Seq::empty());
    assert(lead + desc[k] + Seq::<char>::empty() =~= lead + desc[k]);
    assert(field_lines(key, v, required)[k] == lead + desc[k]);
}

/// A field that can be null tells its type and that it is optional; it is never
/// told as an object for that.
pub proof fn law_nullable_field_keeps_its_type(v: YamlView, texts: Seq<Seq<char>>, ty: Seq<char>)
    requires
        child_text(v, "$ref"@) is None,
        child_text(v, "type"@) is None,
        type_texts(v) == texts,
        texts.contains("null"@),
        first_real(texts) == Some(ty),
    ensures
        type_words(v) == rendered_type(v, ty) + " (optional)"@,
{
}

} // verus!
