//! Laws of the catalog: from its nodes to the lines that are shown.

use vstd::prelude::*;

use crate::client::{law_method_forms, path_of, plain_part};
use crate::laws::texts::{law_splitting, lemma_one_piece, lemma_split_behind};
use crate::numbers::decimal;
use crate::search::{
    all_field_lines, body_ref, described, enum_text, field_lines, first_real, full_lines, headline,
    method_line, method_lines, no_operation, no_service, operation_found, operation_lines, plain_type, ref_name, referenced,
    rendered_type, required_in, runs, schema_found, schema_lines, search_found, service_in,
    services_in, services_lines, texts_in, type_texts, type_words, CATALOG_COMMIT,
};
use crate::text::{
    has_part, has_prefix, join_text, lemma_part_behind, line_seq, quoted_text, split_text,
    trim_both,
};
use crate::yaml::{child, child_of, child_text, list_of, mapping_of, text_of, YamlView};

verus! {

// ---- types ----

/// A reference is shown by its last segment, wherever it stands.
pub proof fn law_references_are_shown_by_their_last_segment(
    v: YamlView,
    before: Seq<char>,
    name: Seq<char>,
)
    requires
        !name.contains('/'),
    ensures
        ref_name(before + seq!['/'] + name) == name,
        ref_name(name) == name,
        child_text(v, "$ref"@) == Some(before + seq!['/'] + name) ==> type_words(v) == name,
        child_text(v, "$ref"@) == Some(name) ==> type_words(v) == name,
{
    lemma_last_piece(before, name, '/');
    lemma_one_piece(name, '/');
    assert(seq![name].last() == name);
}

proof fn lemma_last_piece(before: Seq<char>, name: Seq<char>, c: char)
    requires
        !name.contains(c),
    ensures
        split_text(before + seq![c] + name, c).last() == name,
    decreases name.len(),
{
    let s = before + seq![c] + name;
    law_splitting(before, c);
    if name.len() == 0 {
        assert(s.drop_last() =~= before);
        assert(s.last() == c);
        assert(split_text(s, c).last() =~= name);
    } else {
        let front = name.drop_last();
        assert(!front.contains(c)) by {
            if front.contains(c) {
                let k = choose|k: int| 0 <= k < front.len() && front[k] == c;
                assert(name[k] == c);
            }
        }
        lemma_last_piece(before, front, c);
        assert(s.drop_last() =~= before + seq![c] + front);
        assert(s.last() == name.last());
        assert(name[name.len() - 1] != c);
        assert(front.push(name.last()) =~= name);
    }
}

/// An array is shown by what its items are shown by, and by the last segment of
/// their reference where they are one; nothing of that is lost, to any depth.
pub proof fn law_arrays_are_shown_by_their_items(
    v: YamlView,
    before: Seq<char>,
    name: Seq<char>,
)
    requires
        child_text(v, "$ref"@) is None,
        plain_type(v) == "array"@,
    ensures
        ({
            let shown = "array<"@ + (match child(v, "items"@) {
                Some(i) => type_words(i),
                None => "any"@,
            }) + ">"@;
            &&& rendered_type(v, "array"@) == shown
            &&& type_words(v) == (if type_texts(v).contains("null"@) {
                shown + " (optional)"@
            } else {
                shown
            })
            &&& !name.contains('/') && child(v, "items"@) is Some && child_text(
                child(v, "items"@)->0,
                "$ref"@,
            ) == Some(before + seq!['/'] + name) ==> shown == "array<"@ + name + ">"@
        }),
{
    if !name.contains('/') && child(v, "items"@) is Some {
        law_references_are_shown_by_their_last_segment(child(v, "items"@)->0, before, name);
    }
}

/// A type that is named is shown by its name; one that is a list is shown by the
/// first in it that is not `null`; without either it is an object.
pub proof fn law_plain_types(v: YamlView, t: Seq<char>, texts: Seq<Seq<char>>, k: int)
    ensures
        child_text(v, "type"@) == Some(t) ==> plain_type(v) == t,
        child_text(v, "type"@) is None && type_texts(v) == texts && 0 <= k < texts.len() && texts[k]
            != "null"@ && (forall|j: int| 0 <= j < k ==> #[trigger] texts[j] == "null"@)
            ==> plain_type(v) == texts[k],
        child(v, "type"@) is None ==> plain_type(v) == "object"@,
        t != "array"@ && t != "string"@ ==> rendered_type(v, t) == t,
        child(v, "enum"@) is None ==> rendered_type(v, "string"@) == "string"@,
{
    if type_texts(v) == texts && 0 <= k < texts.len() && texts[k] != "null"@ && (forall|j: int|
        0 <= j < k ==> #[trigger] texts[j] == "null"@) {
        lemma_first_real(texts, k);
    }
    reveal_strlit("array");
    reveal_strlit("string");
    assert("array"@.len() == 5 && "string"@.len() == 6);
}

proof fn lemma_first_real(texts: Seq<Seq<char>>, k: int)
    requires
        0 <= k < texts.len(),
        texts[k] != "null"@,
        forall|j: int| 0 <= j < k ==> #[trigger] texts[j] == "null"@,
    ensures
        first_real(texts) == Some(texts[k]),
    decreases k,
{
    if k > 0 {
        let rest = texts.skip(1);
        assert(texts[0] == "null"@);
        assert forall|j: int| 0 <= j < k - 1 implies #[trigger] rest[j] == "null"@ by {
            assert(rest[j] == texts[j + 1]);
        }
        lemma_first_real(rest, k - 1);
    }
}

/// What is shown of a field that is no reference is its plain type, rendered,
/// and marked as optional exactly where `null` is among its types.
pub proof fn law_types_are_rendered(v: YamlView)
    requires
        child_text(v, "$ref"@) is None,
    ensures
        type_words(v) == rendered_type(v, plain_type(v)) + (if type_texts(v).contains("null"@) {
            " (optional)"@
        } else {
            Seq::empty()
        }),
{
    let r = rendered_type(v, plain_type(v));
    assert(r + Seq::<char>::empty() =~= r);
}

/// The texts of a list are its nodes that are texts, in their order.
pub proof fn law_texts_of_a_list(items: Seq<YamlView>)
    ensures
        texts_in(items) == items.filter(|n: YamlView| text_of(n) is Some).map_values(
            |n: YamlView| text_of(n)->0,
        ),
    decreases items.len(),
{
    reveal(Seq::filter);
    let p = |n: YamlView| text_of(n) is Some;
    let f = |n: YamlView| text_of(n)->0;
    if items.len() > 0 {
        law_texts_of_a_list(items.drop_last());
    }
    assert(texts_in(items) =~= items.filter(p).map_values(f));
}

/// The values of an enumeration are shown in their order, the first twelve of
/// them, and dots where there are more.
pub proof fn law_enumerations(v: YamlView, items: Seq<YamlView>)
    requires
        child(v, "enum"@) is Some,
        list_of(child(v, "enum"@)->0) == Some(items),
    ensures
        ({
            let texts = texts_in(items);
            let shown = rendered_type(v, "string"@);
            &&& shown == enum_text(items)
            &&& items.len() <= 12 ==> shown == "enum "@ + join_text(texts, " | "@)
            &&& items.len() > 12 && texts.len() == items.len() ==> shown == "enum "@ + join_text(
                texts.take(12),
                " | "@,
            ) + " | ..."@
        }),
{
    reveal_strlit("array");
    reveal_strlit("string");
    reveal_strlit("");
    assert("array"@.len() == 5 && "string"@.len() == 6);
    lemma_texts_len(items);
    let texts = texts_in(items);
    let all = "enum "@ + join_text(texts, " | "@);
    assert(all + ""@ =~= all);
}

proof fn lemma_texts_len(items: Seq<YamlView>)
    ensures
        texts_in(items).len() <= items.len(),
    decreases items.len(),
{
    if items.len() > 0 {
        lemma_texts_len(items.drop_last());
    }
}

// ---- descriptions ----

/// A description is told by its lines without the white space around them, in
/// their order; only blank ones are left out. Its headline is the first.
pub proof fn law_descriptions(d: Seq<char>)
    ensures
        described(Some(d)) == line_seq(d).map_values(|l: Seq<char>| trim_both(l)).filter(
            |l: Seq<char>| l.len() > 0,
        ),
        described(None).len() == 0,
        headline(Some(d)) == (if described(Some(d)).len() > 0 {
            described(Some(d))[0]
        } else {
            Seq::empty()
        }),
        headline(None).len() == 0,
{
    lemma_full_lines(line_seq(d));
}

proof fn lemma_full_lines(all: Seq<Seq<char>>)
    ensures
        full_lines(all) == all.map_values(|l: Seq<char>| trim_both(l)).filter(
            |l: Seq<char>| l.len() > 0,
        ),
    decreases all.len(),
{
    reveal(Seq::filter);
    let f = |l: Seq<char>| trim_both(l);
    let p = |l: Seq<char>| l.len() > 0;
    if all.len() > 0 {
        lemma_full_lines(all.drop_last());
        assert(all.map_values(f).drop_last() =~= all.drop_last().map_values(f));
        assert(all.map_values(f).last() == trim_both(all.last()));
    }
    assert(full_lines(all) =~= all.map_values(f).filter(p));
}

// ---- fields ----

/// The first line of a field holds its name, its type and whether it is
/// required, and the first line of its description.
pub proof fn law_field_is_told(
    name: Seq<char>,
    v: YamlView,
    required: Seq<Seq<char>>,
)
    ensures
        ({
            let lines = field_lines(YamlView::Text(name), v, required);
            let desc = described(child_text(v, "description"@));
            let head = "  "@ + name + ": "@ + type_words(v) + (if required.contains(name) {
                " (required)"@
            } else {
                Seq::empty()
            });
            &&& lines.len() == if desc.len() > 0 {
                desc.len()
            } else {
                1
            }
            &&& desc.len() == 0 ==> lines[0] == head
            &&& desc.len() > 0 ==> lines[0] == head + " — "@ + desc[0]
            &&& forall|k: int|
                1 <= k < desc.len() ==> #[trigger] lines[k] == "      "@ + desc[k]
        }),
{
    reveal_strlit("");
    assert(""@ =~= Seq::<char>::empty());
    let desc = described(child_text(v, "description"@));
    let lines = field_lines(YamlView::Text(name), v, required);
    assert(text_of(YamlView::Text(name)) == Some(name));
    assert forall|k: int| 1 <= k < desc.len() implies #[trigger] lines[k] == "      "@
        + desc[k] by {
        assert(desc[k - 1 + 1] == desc[k]);
    }
}

/// The fields of a message are told one after the other, in the order of the
/// catalog; a message without any says so.
pub proof fn law_fields_in_their_order(
    a: Seq<(YamlView, YamlView)>,
    b: Seq<(YamlView, YamlView)>,
    f: (YamlView, YamlView),
    required: Seq<Seq<char>>,
    schema: YamlView,
)
    ensures
        all_field_lines(a + b, required) == all_field_lines(a, required) + all_field_lines(
            b,
            required,
        ),
        all_field_lines(seq![f], required) == field_lines(f.0, f.1, required),
        child(schema, "properties"@) is Some && mapping_of(child(schema, "properties"@)->0) == Some(
            a,
        ) ==> schema_lines(schema) == all_field_lines(a, required_in(schema)),
        child(schema, "properties"@) is None ==> schema_lines(schema) == seq!["  (no fields)"@],
        child(schema, "required"@) is Some ==> (list_of(child(schema, "required"@)->0)
            matches Some(items) ==> required_in(schema) == texts_in(items)),
        child(schema, "required"@) is None ==> required_in(schema).len() == 0,
    decreases b.len(),
{
    reveal_with_fuel(all_field_lines, 2);
    if b.len() == 0 {
        assert(a + b =~= a);
        assert(all_field_lines(a + b, required) =~= all_field_lines(a, required)
            + all_field_lines(b, required));
    } else {
        law_fields_in_their_order(a, b.drop_last(), f, required, schema);
        assert((a + b).drop_last() =~= a + b.drop_last());
        assert((a + b).last() == b.last());
        assert(all_field_lines(a + b, required) =~= all_field_lines(a, required)
            + all_field_lines(b, required));
    }
    assert(seq![f].drop_last() =~= Seq::<(YamlView, YamlView)>::empty());
    assert(seq![f].last() == f);
    assert(all_field_lines(seq![f], required) =~= field_lines(f.0, f.1, required));
    assert(Seq::empty().push("  (no fields)"@) =~= seq!["  (no fields)"@]);
}

// ---- services ----

/// A path belongs to the service that it names, and one that is not of this API
/// to none.
pub proof fn law_services_of_paths(service: Seq<char>, method: Seq<char>, path: Seq<char>)
    requires
        service.len() > 0,
        !service.contains('/'),
    ensures
        service_in("/bytebase.v1."@ + service + seq!['/'] + method) == Some(service),
        service_in("/bytebase.v1."@ + service) == Some(service),
        service_in("/bytebase.v1."@) is None,
        !has_prefix(path, "/bytebase.v1."@) ==> service_in(path) is None,
{
    let prefix = "/bytebase.v1."@;
    let p = prefix + service + seq!['/'] + method;
    let rest = service + seq!['/'] + method;
    assert(p =~= prefix + rest);
    assert(p.take(prefix.len() as int) =~= prefix);
    assert(p.skip(prefix.len() as int) =~= rest);
    lemma_split_behind(service, method, '/');
    assert((seq![service] + split_text(method, '/'))[0] == service);
    let q = prefix + service;
    assert(q.take(prefix.len() as int) =~= prefix);
    assert(q.skip(prefix.len() as int) =~= service);
    lemma_one_piece(service, '/');
    assert(seq![service][0] == service);
    assert(prefix.take(prefix.len() as int) =~= prefix);
    assert(prefix.skip(prefix.len() as int) =~= Seq::<char>::empty());
    lemma_one_piece(Seq::empty(), '/');
    assert(seq![Seq::<char>::empty()][0].len() == 0);
}

/// As many times as it is counted.
pub open spec fn spread(services: Seq<(Seq<char>, nat)>) -> Seq<Seq<char>>
    decreases services.len(),
{
    if services.len() == 0 {
        Seq::empty()
    } else {
        spread(services.drop_last()) + Seq::new(services.last().1, |i: int| services.last().0)
    }
}

/// Counting the services changes nothing of them: each stands as often as it is
/// counted, in their order; and no two that stand side by side are the same.
pub proof fn law_services_are_counted(names: Seq<Seq<char>>)
    ensures
        spread(runs(names)) == names,
        forall|i: int|
            0 <= i < runs(names).len() ==> (#[trigger] runs(names)[i]).1 > 0,
        forall|i: int, j: int|
            0 <= i && j == i + 1 && j < runs(names).len() ==> (#[trigger] runs(names)[i]).0 != (
            #[trigger] runs(names)[j]).0,
    decreases names.len(),
{
    if names.len() > 0 {
        let front = names.drop_last();
        law_services_are_counted(front);
        let before = runs(front);
        let all = runs(names);
        let name = names.last();
        assert(names =~= front.push(name));
        if before.len() > 0 && before.last().0 == name {
            let n = before.last().1;
            assert(all.drop_last() =~= before.drop_last());
            assert(all.last() == (name, n + 1));
            assert(Seq::new(n + 1, |i: int| name) =~= Seq::new(n, |i: int| name).push(name));
            assert(spread(before) =~= spread(before.drop_last()) + Seq::new(
                n,
                |i: int| before.last().0,
            ));
            assert(spread(all) =~= spread(before).push(name));
            assert forall|i: int| 0 <= i < all.len() implies (#[trigger] all[i]).1 > 0 by {
                if i < before.len() - 1 {
                    assert(all[i] == before[i]);
                }
            }
            assert forall|i: int, j: int|
                0 <= i && j == i + 1 && j < all.len() implies (#[trigger] all[i]).0 != (
            #[trigger] all[j]).0 by {
                assert(before[i].0 != before[j].0);
            }
        } else {
            assert(all.drop_last() =~= before);
            assert(Seq::new(1, |i: int| name) =~= seq![name]);
            assert(spread(all) =~= spread(before) + seq![name]);
            assert(spread(before) + seq![name] =~= spread(before).push(name));
            assert forall|i: int| 0 <= i < all.len() implies (#[trigger] all[i]).1 > 0 by {
                if i < before.len() {
                    assert(all[i] == before[i]);
                }
            }
            assert forall|i: int, j: int|
                0 <= i && j == i + 1 && j < all.len() implies (#[trigger] all[i]).0 != (
            #[trigger] all[j]).0 by {
                if j < before.len() {
                    assert(before[i].0 != before[j].0);
                }
            }
        }
    }
}

/// Every path of the catalog counts for its service, in their order, and a path
/// without one for none.
pub proof fn law_paths_count_for_their_service(
    a: Seq<(YamlView, YamlView)>,
    b: Seq<(YamlView, YamlView)>,
    path: Seq<char>,
    v: YamlView,
)
    ensures
        services_in(a + b) == services_in(a) + services_in(b),
        services_in(seq![(YamlView::Text(path), v)]) == (match service_in(path) {
            Some(name) => seq![name],
            None => Seq::empty(),
        }),
    decreases b.len(),
{
    reveal_with_fuel(services_in, 2);
    if b.len() == 0 {
        assert(a + b =~= a);
        assert(services_in(a + b) =~= services_in(a) + services_in(b));
    } else {
        law_paths_count_for_their_service(a, b.drop_last(), path, v);
        assert((a + b).drop_last() =~= a + b.drop_last());
        assert((a + b).last() == b.last());
        assert(services_in(a + b) =~= services_in(a) + services_in(b));
    }
    let one = seq![(YamlView::Text(path), v)];
    assert(one.drop_last() =~= Seq::<(YamlView, YamlView)>::empty());
    assert(one.last() == (YamlView::Text(path), v));
    assert(text_of(YamlView::Text(path)) == Some(path));
    assert(services_in(one) =~= (match service_in(path) {
        Some(name) => seq![name],
        None => Seq::empty(),
    }));
}

/// The overview says how many services there are, and each has a line of its own
/// with its name and the number of its methods.
pub proof fn law_overview_of_services(paths: Seq<(YamlView, YamlView)>, k: int)
    ensures
        ({
            let services = runs(services_in(paths));
            let lines = services_lines(paths);
            &&& lines.len() == services.len() + 2
            &&& has_prefix(lines[0], "Services ("@ + decimal(services.len()) + " total)"@)
            &&& has_part(lines[1], CATALOG_COMMIT@)
            &&& 0 <= k < services.len() ==> lines[k + 2] == "  "@ + services[k].0 + " ("@ + decimal(
                services[k].1,
            ) + " methods)"@
        }),
{
    let services = runs(services_in(paths));
    let lines = services_lines(paths);
    let head = "Services ("@ + decimal(services.len()) + " total)"@;
    reveal_strlit(" total)");
    reveal_strlit(" total). Browse one with: bbcli search --service <name>");
    assert(lines[0].take(head.len() as int) =~= head);
    lemma_part_behind("Catalog: bytebase "@, CATALOG_COMMIT@, "\n"@);
}

// ---- methods ----

/// A method is listed under its service by its name and its summary, and by the
/// headline of its description where it has one. A path of another service, or
/// one that is not called with a post, is not listed.
pub proof fn law_methods_are_listed(
    service: Seq<char>,
    name: Seq<char>,
    path: Seq<char>,
    v: YamlView,
)
    ensures
        ({
            let own = "/bytebase.v1."@ + service + "/"@ + name;
            let line = method_line(service, YamlView::Text(own), v);
            &&& child(v, "post"@) matches Some(post) ==> {
                let summary = match child_text(post, "summary"@) {
                    Some(s) => s,
                    None => Seq::empty(),
                };
                let desc = headline(child_text(post, "description"@));
                &&& desc.len() == 0 ==> line == Some("  "@ + name + " — "@ + summary)
                &&& desc.len() > 0 ==> line == Some(
                    "  "@ + name + " — "@ + summary + ": "@ + desc,
                )
            }
            &&& child(v, "post"@) is None ==> line is None
            &&& !has_prefix(path, "/bytebase.v1."@ + service + "/"@) ==> method_line(
                service,
                YamlView::Text(path),
                v,
            ) is None
        }),
{
    let prefix = "/bytebase.v1."@ + service + "/"@;
    let own = prefix + name;
    assert(own.take(prefix.len() as int) =~= prefix);
    assert(own.skip(prefix.len() as int) =~= name);
    assert(text_of(YamlView::Text(own)) == Some(own));
    assert(text_of(YamlView::Text(path)) == Some(path));
}

/// The methods of a service are listed in the order of the catalog.
pub proof fn law_methods_in_their_order(
    service: Seq<char>,
    a: Seq<(YamlView, YamlView)>,
    b: Seq<(YamlView, YamlView)>,
    p: (YamlView, YamlView),
)
    ensures
        method_lines(service, a + b) == method_lines(service, a) + method_lines(service, b),
        method_lines(service, seq![p]) == (match method_line(service, p.0, p.1) {
            Some(line) => seq![line],
            None => Seq::empty(),
        }),
    decreases b.len(),
{
    reveal_with_fuel(method_lines, 2);
    if b.len() == 0 {
        assert(a + b =~= a);
        assert(method_lines(service, a + b) =~= method_lines(service, a) + method_lines(
            service,
            b,
        ));
    } else {
        law_methods_in_their_order(service, a, b.drop_last(), p);
        assert((a + b).drop_last() =~= a + b.drop_last());
        assert((a + b).last() == b.last());
        assert(method_lines(service, a + b) =~= method_lines(service, a) + method_lines(
            service,
            b,
        ));
    }
    assert(seq![p].drop_last() =~= Seq::<(YamlView, YamlView)>::empty());
    assert(seq![p].last() == p);
    assert(method_lines(service, seq![p]) =~= (match method_line(service, p.0, p.1) {
        Some(line) => seq![line],
        None => Seq::empty(),
    }));
}

/// The schema that a body refers to.
pub open spec fn json_body(v: YamlView) -> Option<YamlView> {
    child_of(child_of(child(v, "content"@), "application/json"@), "schema"@)
}

/// An operation is told by its path and its description, by the fields of the
/// message that its request refers to, and by the name of its response.
pub proof fn law_operations_are_told(doc: YamlView, path: Seq<char>, post: YamlView)
    ensures
        ({
            let lines = operation_lines(doc, path, post);
            let desc = child_text(post, "description"@);
            let request = match child(post, "requestBody"@) {
                Some(b) => match json_body(b) {
                    Some(s) => child_text(s, "$ref"@),
                    None => None,
                },
                None => None,
            };
            let message = match request {
                Some(r) => child_of(
                    child_of(child(doc, "components"@), "schemas"@),
                    split_text(r, '/').last(),
                ),
                None => None,
            };
            let answer = match child_of(child(post, "responses"@), "200"@) {
                Some(ok) => match json_body(ok) {
                    Some(s) => child_text(s, "$ref"@),
                    None => None,
                },
                None => None,
            };
            let head = seq!["POST "@ + path + "\n"@] + (match desc {
                Some(d) => seq![d + "\n"@],
                None => Seq::empty(),
            });
            let fields = match message {
                Some(schema) => seq!["Request fields (pass as --args, camelCase):"@]
                    + schema_lines(schema) + seq![""@],
                None => Seq::empty(),
            };
            let response = match answer {
                Some(r) => seq![
                    "Response: "@ + split_text(r, '/').last()
                        + " (fields: bbcli search --schema "@ + split_text(r, '/').last() + ")"@,
                ],
                None => Seq::empty(),
            };
            lines == head + fields + response
        }),
{
    let desc = child_text(post, "description"@);
    let lines = operation_lines(doc, path, post);
    let head = seq!["POST "@ + path + "\n"@] + (match desc {
        Some(d) => seq![d + "\n"@],
        None => Seq::empty(),
    });
    let request = match child(post, "requestBody"@) {
        Some(b) => match body_ref(b) {
            Some(r) => referenced(doc, r),
            None => None,
        },
        None => None,
    };
    let fields = match request {
        Some(schema) => seq!["Request fields (pass as --args, camelCase):"@] + schema_lines(schema)
            + seq![""@],
        None => Seq::empty(),
    };
    let answer = match child_of(child(post, "responses"@), "200"@) {
        Some(ok) => body_ref(ok),
        None => None,
    };
    let response = match answer {
        Some(r) => seq![
            "Response: "@ + ref_name(r) + " (fields: bbcli search --schema "@ + ref_name(r) + ")"@,
        ],
        None => Seq::empty(),
    };
    assert(lines =~= head + fields + response);
}

/// An operation is found by any way to write its method, under the path of the
/// catalog, and by nothing else.
pub proof fn law_operations_are_found(
    doc: YamlView,
    paths: Seq<(YamlView, YamlView)>,
    service: Seq<char>,
    name: Seq<char>,
    c: char,
)
    requires
        plain_part(service),
        plain_part(name),
        c == '/' || c == '.',
    ensures
        ({
            let path = "/bytebase.v1."@ + service + "/"@ + name;
            let found = operation_found(doc, paths, service + seq![c] + name);
            match child_of(child(YamlView::Mapping(paths), path), "post"@) {
                Some(post) => found == Ok::<_, Seq<char>>(operation_lines(doc, path, post)),
                None => found is Err,
            }
        }),
{
    law_method_forms(service, name, c);
    let path = "/bytebase.v1."@ + service + "/"@ + name;
    assert(path_of(service, name) == path);
    assert(mapping_of(YamlView::Mapping(paths)) == Some(paths));
}

/// A message is found by its name in the catalog, and else by its name within
/// the package; it is told by its fields.
pub proof fn law_messages_are_found(
    doc: YamlView,
    schemas: Seq<(YamlView, YamlView)>,
    name: Seq<char>,
)
    requires
        child_of(child(doc, "components"@), "schemas"@) is Some,
        mapping_of(child_of(child(doc, "components"@), "schemas"@)->0) == Some(schemas),
    ensures
        ({
            let all = YamlView::Mapping(schemas);
            let found = schema_found(doc, name);
            match child(all, name) {
                Some(s) => found == Ok::<_, Seq<char>>(seq![name + "\n"@] + schema_lines(s)),
                None => match child(all, "bytebase.v1."@ + name) {
                    Some(s) => found == Ok::<_, Seq<char>>(seq![name + "\n"@] + schema_lines(s)),
                    None => found is Err,
                },
            }
        }),
{
    assert(mapping_of(YamlView::Mapping(schemas)) == Some(schemas));
    assert(Seq::empty().push(name + "\n"@) =~= seq![name + "\n"@]);
}

/// An operation that is asked for is shown before a message, a message before a
/// service, and the overview where nothing is asked for; without paths there is
/// no catalog.
pub proof fn law_what_is_asked_for_is_shown(
    doc: YamlView,
    paths: Seq<(YamlView, YamlView)>,
    operation: Option<Seq<char>>,
    schema: Option<Seq<char>>,
    service: Option<Seq<char>>,
)
    requires
        child(doc, "paths"@) is Some,
        mapping_of(child(doc, "paths"@)->0) == Some(paths),
    ensures
        operation matches Some(op) ==> search_found(doc, operation, schema, service)
            == operation_found(doc, paths, op),
        operation is None ==> (schema matches Some(name) ==> search_found(
            doc,
            operation,
            schema,
            service,
        ) == schema_found(doc, name)),
        operation is None && schema is None ==> (service matches Some(name) ==> {
            let found = search_found(doc, operation, schema, service);
            &&& found is Ok <==> method_lines(name, paths).len() > 0
            &&& found matches Ok(lines) ==> lines.len() == method_lines(name, paths).len() + 1
                && lines.skip(1) == method_lines(name, paths) && has_prefix(
                lines[0],
                name + " ("@ + decimal(method_lines(name, paths).len()) + " methods)"@,
            )
        }),
        operation is None && schema is None && service is None ==> search_found(
            doc,
            operation,
            schema,
            service,
        ) == Ok::<_, Seq<char>>(services_lines(paths)),
{
    if operation is None && schema is None && service is Some {
        let name = service->0;
        let found = search_found(doc, operation, schema, service);
        if found is Ok {
            let lines = found->Ok_0;
            assert(lines.skip(1) =~= method_lines(name, paths));
            let head = name + " ("@ + decimal(method_lines(name, paths).len()) + " methods)"@;
            reveal_strlit(" methods)");
            reveal_strlit(" methods). Call with: bbcli api ");
            assert(lines[0].take(head.len() as int) =~= head);
        }
    }
}

/// The types of a field whose type is a list are the texts in it; of any other
/// there are none.
pub proof fn law_lists_of_types(v: YamlView)
    ensures
        child(v, "type"@) matches Some(node) ==> (list_of(node) matches Some(items)
            ==> type_texts(v) == texts_in(items)),
        child(v, "type"@) matches Some(node) ==> (list_of(node) is None ==> type_texts(v).len()
            == 0),
        child(v, "type"@) is None ==> type_texts(v).len() == 0,
{
}

/// What is not in the catalog is refused by its name.
pub proof fn law_refusals_of_the_catalog(doc: YamlView, name: Seq<char>)
    ensures
        has_part(no_service(name), quoted_text(name)),
        has_part(no_operation(name), quoted_text(name)),
        schema_found(doc, name) matches Err(e) ==> has_part(e, quoted_text(name)) || e
            == "spec has no components.schemas"@,
{
    let q = quoted_text(name);
    let none = Seq::<char>::empty();
    lemma_part_behind("no service "@, q, "; list all with: bbcli search"@);
    lemma_part_behind(
        "no operation "@,
        q,
        "; browse services with: bbcli search --service <name>"@,
    );
    lemma_part_behind("no schema named "@, q, none);
    assert("no schema named "@ + q + none =~= "no schema named "@ + q);
}

} // verus!
