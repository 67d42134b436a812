//! One read-only statement: its request, and its result as plain rows.
//!
//! A cell comes wrapped in an object that names its kind. Here it becomes the
//! plain value: `[{"int64Value": "1"}, {"stringValue": "a"}]` reads `[1, "a"]`.

use vstd::prelude::*;
use vstd::string::StringExecFns;

use crate::json::{
    field, items_of, lemma_member_push, member, no_members, str_field, texts_view, Json,
    JsonView, Members,
};
use crate::numbers::{decimal, int_text, integer_value, law_integer_reads_back, parse_integer, u64_text};
use crate::resolve::{given, nonempty, tool_error, Resolved, ResolvedView, ToolError, ToolErrorView};
use crate::text::{same_text, strip_last, trim, trim_both, views, without_last};

verus! {

// ---- the request ----

/// The fields of the query. One row more than the limit is asked for, so that
/// `truncated` is a fact and not a guess. The data source is left out where the
/// server is to choose it.
pub open spec fn query_fields(
    resolved: ResolvedView,
    statement: Seq<char>,
    limit: nat,
) -> Seq<(Seq<char>, JsonView)> {
    let members = no_members()
        .push(("name"@, JsonView::Str(resolved.name)))
        .push(("statement"@, JsonView::Str(statement)))
        .push(("limit"@, JsonView::Number(limit as int + 1)));
    if resolved.data_source_id.len() == 0 {
        members
    } else {
        members.push(("dataSourceId"@, JsonView::Str(resolved.data_source_id)))
    }
}

/// The fields of the query.
pub fn query_args(resolved: &Resolved, statement: &str, limit: u32) -> (r: Json)
    ensures
        r@ == JsonView::Object(query_fields(resolved@, statement@, limit as nat)),
{
    let mut m = Members::new();
    m.put("name", Json::text(resolved.name.as_str()));
    m.put("statement", Json::text(statement));
    m.put("limit", Json::uint(limit as u64 + 1));
    if !resolved.data_source_id.as_str().is_empty() {
        m.put("dataSourceId", Json::text(resolved.data_source_id.as_str()));
    }
    m.object()
}

// ---- cells ----

/// A 64-bit integer that came as a string, as a number if it fits exactly;
/// anything else as it is.
pub open spec fn widened(inner: JsonView) -> JsonView {
    match inner {
        JsonView::Str(s) => match integer_value(s) {
            Some(n) => if i64::MIN <= n <= u64::MAX {
                JsonView::Number(n)
            } else {
                inner
            },
            None => inner,
        },
        _ => inner,
    }
}

/// A cell as the plain value that it wraps. A cell that is no object with
/// exactly one member stays as it is, and a kind that is not known gives its
/// inner value: nothing is dropped and nothing is invented.
pub open spec fn flat(cell: JsonView) -> JsonView {
    match cell {
        JsonView::Object(members) => if members.len() != 1 {
            cell
        } else {
            let key = members[0].0;
            let inner = members[0].1;
            if key == "nullValue"@ {
                JsonView::Null
            } else if key == "int64Value"@ || key == "uint64Value"@ {
                widened(inner)
            } else if key == "timestampValue"@ || key == "timestampTzValue"@ {
                match field(inner, "googleTimestamp"@) {
                    Some(instant) => instant,
                    None => inner,
                }
            } else {
                inner
            }
        },
        _ => cell,
    }
}

/// A 64-bit integer that came as a string, as a number if it fits exactly;
/// anything else as it is.
pub fn widen_integer(inner: &Json) -> (r: Json)
    ensures
        r@ == widened(inner@),
{
    match inner {
        Json::Str(s) => match parse_integer(s.as_str()) {
            Some(n) => {
                if n >= 0 {
                    Json::Uint(n as u64)
                } else if n >= i64::MIN as i128 {
                    Json::Int(n as i64)
                } else {
                    inner.clone()
                }
            },
            None => inner.clone(),
        },
        _ => inner.clone(),
    }
}

/// A cell as the plain value that it wraps.
pub fn flatten_row_value(cell: &Json) -> (r: Json)
    ensures
        r@ == flat(cell@),
{
    match cell {
        Json::Object(members) => {
            proof {
                crate::json::lemma_object_view(*members);
            }
            if members.len() != 1 {
                return cell.clone();
            }
            let key = members[0].0.as_str();
            let inner = &members[0].1;
            if same_text(key, "nullValue") {
                Json::Null
            } else if same_text(key, "int64Value") || same_text(key, "uint64Value") {
                widen_integer(inner)
            } else if same_text(key, "timestampValue") || same_text(key, "timestampTzValue") {
                match inner.get("googleTimestamp") {
                    Some(instant) => instant.clone(),
                    None => inner.clone(),
                }
            } else {
                inner.clone()
            }
        },
        _ => cell.clone(),
    }
}

/// A row as the array of its plain cells.
pub open spec fn flat_row(row: JsonView) -> JsonView {
    let cells = items_of(field(row, "values"@));
    JsonView::Array(Seq::new(cells.len(), |i: int| flat(cells[i])))
}

/// The items of an array that a value holds under a key; none if it holds none.
fn items<'a>(value: &'a Json, key: &str, none: &'a Vec<Json>) -> (r: &'a Vec<Json>)
    requires
        none@.len() == 0,
    ensures
        views(r@) == items_of(field(value@, key@)),
{
    proof {
        assert(views(none@) =~= Seq::<JsonView>::empty());
    }
    match value.get(key) {
        Some(v) => match v.as_array() {
            Some(a) => a,
            None => none,
        },
        None => none,
    }
}

/// A row as the array of its plain cells.
fn flatten_row(row: &Json) -> (r: Json)
    ensures
        r@ == flat_row(row@),
{
    let none: Vec<Json> = Vec::new();
    let cells = items(row, "values", &none);
    let ghost all = views(cells@);
    let mut out: Vec<Json> = Vec::new();
    let mut i: usize = 0;
    while i < cells.len()
        invariant
            i <= cells@.len(),
            all == views(cells@),
            out@.len() == i,
            forall|k: int| 0 <= k < i ==> (#[trigger] out@[k])@ == flat(all[k]),
        decreases cells.len() - i,
    {
        out.push(flatten_row_value(&cells[i]));
        i += 1;
    }
    proof {
        assert(views(out@) =~= Seq::new(all.len(), |k: int| flat(all[k])));
    }
    Json::array(out)
}

/// The strings among the items, in their order.
pub open spec fn strings_in(items: Seq<JsonView>) -> Seq<Seq<char>>
    decreases items.len(),
{
    if items.len() == 0 {
        Seq::empty()
    } else {
        let before = strings_in(items.drop_last());
        match items.last() {
            JsonView::Str(s) => before.push(s),
            _ => before,
        }
    }
}

/// The strings of an array that a value holds under a key.
pub fn string_list(value: &Json, key: &str) -> (r: Vec<String>)
    ensures
        views(r@) == strings_in(items_of(field(value@, key@))),
{
    let none: Vec<Json> = Vec::new();
    let list = items(value, key, &none);
    let ghost all = views(list@);
    let mut out: Vec<String> = Vec::new();
    let mut i: usize = 0;
    proof {
        assert(all.take(0) =~= Seq::<JsonView>::empty());
        assert(views(out@) =~= Seq::<Seq<char>>::empty());
    }
    while i < list.len()
        invariant
            i <= list@.len(),
            all == views(list@),
            views(out@) == strings_in(all.take(i as int)),
        decreases list.len() - i,
    {
        proof {
            assert(all.take(i + 1).drop_last() =~= all.take(i as int));
            assert(all.take(i + 1).last() == list@[i as int]@);
        }
        let ghost before = out@;
        match list[i].as_str() {
            Some(s) => {
                let text = s.to_owned();
                proof {
                    crate::text::lemma_views_push(before, text);
                }
                out.push(text);
            },
            None => {},
        }
        i += 1;
    }
    proof {
        assert(all.take(all.len() as int) =~= all);
    }
    out
}

// ---- the result ----

/// The result sets of a response.
pub open spec fn result_sets(resp: JsonView) -> Seq<JsonView> {
    items_of(field(resp, "results"@))
}

/// How long the first result says it took, without white space around it and
/// without the unit: the text of a number of seconds, if it is well-formed.
pub open spec fn latency_seconds(resp: JsonView) -> Seq<char> {
    if result_sets(resp).len() == 0 {
        Seq::empty()
    } else {
        match str_field(result_sets(resp)[0], "latency"@) {
            Some(s) => without_last(trim_both(s), 's'),
            None => Seq::empty(),
        }
    }
}

/// How long the first result says it took: the text of its seconds.
pub fn latency_text(resp: &Json) -> (r: String)
    ensures
        r@ == latency_seconds(resp@),
{
    let none: Vec<Json> = Vec::new();
    let results = items(resp, "results", &none);
    if results.len() == 0 {
        return String::new();
    }
    match results[0].get_str("latency") {
        Some(s) => strip_last(trim(s), 's').to_owned(),
        None => String::new(),
    }
}

/// The members of the output.
pub open spec fn output_members(
    database: Seq<char>,
    data_source_id: Seq<char>,
    columns: Seq<Seq<char>>,
    column_types: Seq<Seq<char>>,
    rows: Seq<JsonView>,
    truncated: bool,
    latency_ms: nat,
) -> Seq<(Seq<char>, JsonView)> {
    no_members()
        .push(("database"@, JsonView::Str(database)))
        .push(("dataSourceId"@, JsonView::Str(data_source_id)))
        .push(("columns"@, texts_view(columns)))
        .push(("columnTypes"@, texts_view(column_types)))
        .push(("rowCount"@, JsonView::Number(rows.len() as int)))
        .push(("rows"@, JsonView::Array(rows)))
        .push(("truncated"@, JsonView::Bool(truncated)))
        .push(("latencyMs"@, JsonView::Number(latency_ms as int)))
}

/// The rows that are shown: all of them, or the first `limit`.
pub open spec fn shown_rows(rows: Seq<JsonView>, limit: nat) -> Seq<JsonView> {
    let kept = if rows.len() > limit {
        rows.take(limit as int)
    } else {
        rows
    };
    Seq::new(kept.len(), |i: int| flat_row(kept[i]))
}

/// The note that there are more result sets than the one that is shown.
pub open spec fn extra_sets_note(count: nat) -> Seq<char> {
    decimal(count)
        + " result sets returned; showing the first — send one statement per call"@
}

/// The notes on a response.
pub open spec fn notes_on(resp: JsonView) -> Seq<Seq<char>> {
    if result_sets(resp).len() > 1 {
        seq![extra_sets_note(result_sets(resp).len())]
    } else {
        Seq::empty()
    }
}

/// The output for a response: the first result set in plain rows, or the error
/// that it holds. A statement can fail inside a successful call.
pub open spec fn output_of(
    database: Seq<char>,
    data_source_id: Seq<char>,
    resp: JsonView,
    limit: nat,
    latency_ms: nat,
) -> Result<JsonView, ToolErrorView> {
    let sets = result_sets(resp);
    if sets.len() == 0 {
        Ok(
            JsonView::Object(
                output_members(
                    database,
                    data_source_id,
                    Seq::empty(),
                    Seq::empty(),
                    Seq::empty(),
                    false,
                    0,
                ),
            ),
        )
    } else {
        match given(str_field(sets[0], "error"@)) {
            Some(message) => Err(ToolErrorView { code: "QUERY_ERROR"@, message }),
            None => {
                let rows = items_of(field(sets[0], "rows"@));
                Ok(
                    JsonView::Object(
                        output_members(
                            database,
                            data_source_id,
                            strings_in(items_of(field(sets[0], "columnNames"@))),
                            strings_in(items_of(field(sets[0], "columnTypeNames"@))),
                            shown_rows(rows, limit),
                            rows.len() > limit,
                            latency_ms,
                        ),
                    ),
                )
            },
        }
    }
}

/// The output, put together.
fn output(
    database: &str,
    data_source_id: &str,
    columns: &Vec<String>,
    column_types: &Vec<String>,
    rows: Vec<Json>,
    truncated: bool,
    latency_ms: u64,
) -> (r: Json)
    ensures
        r@ == JsonView::Object(
            output_members(
                database@,
                data_source_id@,
                views(columns@),
                views(column_types@),
                views(rows@),
                truncated,
                latency_ms as nat,
            ),
        ),
{
    let mut m = Members::new();
    m.put("database", Json::text(database));
    m.put("dataSourceId", Json::text(data_source_id));
    m.put("columns", Json::texts(columns));
    m.put("columnTypes", Json::texts(column_types));
    m.put("rowCount", Json::uint(rows.len() as u64));
    m.put("rows", Json::array(rows));
    m.put("truncated", Json::boolean(truncated));
    m.put("latencyMs", Json::uint(latency_ms));
    m.object()
}

/// The first rows, at most `limit` of them, in plain cells.
fn flatten_rows(rows: &Vec<Json>, limit: usize) -> (r: Vec<Json>)
    ensures
        views(r@) == shown_rows(views(rows@), limit as nat),
{
    let ghost all = views(rows@);
    let ghost shown = shown_rows(all, limit as nat);
    let count: usize = if rows.len() > limit {
        limit
    } else {
        rows.len()
    };
    let mut out: Vec<Json> = Vec::new();
    let mut i: usize = 0;
    while i < count
        invariant
            i <= count,
            count <= rows@.len(),
            all == views(rows@),
            out@.len() == i,
            forall|k: int| 0 <= k < i ==> (#[trigger] out@[k])@ == flat_row(all[k]),
        decreases count - i,
    {
        out.push(flatten_row(&rows[i]));
        i += 1;
    }
    proof {
        assert(views(out@) =~= shown);
    }
    out
}

/// Shapes a response into the output, with the notes on it. The latency comes
/// in whole milliseconds, as its text reads; a response without a result set
/// has none.
pub fn build_output(
    database: &str,
    data_source_id: &str,
    resp: &Json,
    limit: usize,
    latency_ms: u64,
) -> (r: Result<(Json, Vec<String>), ToolError>)
    ensures
        match r {
            Ok((doc, notes)) => output_of(
                database@,
                data_source_id@,
                resp@,
                limit as nat,
                latency_ms as nat,
            ) == Ok::<_, ToolErrorView>(doc@) && views(notes@) == notes_on(resp@),
            Err(e) => output_of(
                database@,
                data_source_id@,
                resp@,
                limit as nat,
                latency_ms as nat,
            ) == Err::<JsonView, _>(e@),
        },
{
    let none: Vec<Json> = Vec::new();
    let results = items(resp, "results", &none);
    let mut notes: Vec<String> = Vec::new();
    if results.len() > 1 {
        let mut note = u64_text(results.len() as u64);
        note.append(" result sets returned; showing the first — send one statement per call");
        notes.push(note);
    }
    proof {
        assert(views(notes@) =~= notes_on(resp@));
    }
    if results.len() == 0 {
        let empty: Vec<String> = Vec::new();
        let rows: Vec<Json> = Vec::new();
        proof {
            assert(views(empty@) =~= Seq::<Seq<char>>::empty());
            assert(views(rows@) =~= Seq::<JsonView>::empty());
        }
        return Ok((output(database, data_source_id, &empty, &empty, rows, false, 0), notes));
    }
    let result = &results[0];
    match nonempty(result.get_str("error")) {
        Some(message) => {
            return Err(tool_error("QUERY_ERROR", message));
        },
        None => {},
    }
    let rows = items(result, "rows", &none);
    let doc = output(
        database,
        data_source_id,
        &string_list(result, "columnNames"),
        &string_list(result, "columnTypeNames"),
        flatten_rows(rows, limit),
        rows.len() > limit,
        latency_ms,
    );
    Ok((doc, notes))
}

// ---- laws ----

/// A 64-bit integer reads as the same integer, as a JSON number; one that does
/// not fit keeps its digits.
pub proof fn law_integer_cell(n: int, key: Seq<char>)
    requires
        key == "int64Value"@ || key == "uint64Value"@,
    ensures
        flat(JsonView::Object(seq![(key, JsonView::Str(int_text(n)))])) == if i64::MIN <= n
            <= u64::MAX {
            JsonView::Number(n)
        } else {
            JsonView::Str(int_text(n))
        },
{
    law_integer_reads_back(n);
    reveal_strlit("nullValue");
    reveal_strlit("int64Value");
    reveal_strlit("uint64Value");
    assert("nullValue"@.len() == 9);
    assert("int64Value"@.len() == 10);
    assert("uint64Value"@.len() == 11);
}

/// A cell of a kind that is not known keeps its inner value.
pub proof fn law_unknown_kind_keeps_its_value(key: Seq<char>, inner: JsonView)
    requires
        key != "nullValue"@,
        key != "int64Value"@,
        key != "uint64Value"@,
        key != "timestampValue"@,
        key != "timestampTzValue"@,
    ensures
        flat(JsonView::Object(seq![(key, inner)])) == inner,
{
}

/// A row keeps the number and the order of its cells.
pub proof fn law_row_keeps_its_cells(row: JsonView)
    ensures
        flat_row(row)->Array_0.len() == items_of(field(row, "values"@)).len(),
        forall|i: int|
            0 <= i < flat_row(row)->Array_0.len() ==> #[trigger] flat_row(row)->Array_0[i] == flat(
                items_of(field(row, "values"@))[i],
            ),
{
}

/// The keys of the output are all different.
pub(crate) proof fn lemma_output_keys()
    ensures
        "database"@.len() == 8,
        "database"@[0] == 'd',
        "dataSourceId"@.len() == 12,
        "columns"@.len() == 7,
        "columnTypes"@.len() == 11,
        "rowCount"@.len() == 8,
        "rowCount"@[0] == 'r',
        "rows"@.len() == 4,
        "truncated"@.len() == 9,
        "truncated"@[0] == 't',
        "latencyMs"@.len() == 9,
        "latencyMs"@[0] == 'l',
{
    reveal_strlit("database");
    reveal_strlit("dataSourceId");
    reveal_strlit("columns");
    reveal_strlit("columnTypes");
    reveal_strlit("rowCount");
    reveal_strlit("rows");
    reveal_strlit("truncated");
    reveal_strlit("latencyMs");
}

/// What stands under a key of the output.
pub(crate) proof fn lemma_output_member(
    database: Seq<char>,
    data_source_id: Seq<char>,
    columns: Seq<Seq<char>>,
    column_types: Seq<Seq<char>>,
    rows: Seq<JsonView>,
    truncated: bool,
    latency_ms: nat,
    key: Seq<char>,
)
    ensures
        member(
            output_members(
                database,
                data_source_id,
                columns,
                column_types,
                rows,
                truncated,
                latency_ms,
            ),
            key,
        ) == if key == "database"@ {
            Some(JsonView::Str(database))
        } else if key == "dataSourceId"@ {
            Some(JsonView::Str(data_source_id))
        } else if key == "columns"@ {
            Some(texts_view(columns))
        } else if key == "columnTypes"@ {
            Some(texts_view(column_types))
        } else if key == "rowCount"@ {
            Some(JsonView::Number(rows.len() as int))
        } else if key == "rows"@ {
            Some(JsonView::Array(rows))
        } else if key == "truncated"@ {
            Some(JsonView::Bool(truncated))
        } else if key == "latencyMs"@ {
            Some(JsonView::Number(latency_ms as int))
        } else {
            None
        },
{
    lemma_output_keys();
    let m0 = no_members();
    let m1 = m0.push(("database"@, JsonView::Str(database)));
    let m2 = m1.push(("dataSourceId"@, JsonView::Str(data_source_id)));
    let m3 = m2.push(("columns"@, texts_view(columns)));
    let m4 = m3.push(("columnTypes"@, texts_view(column_types)));
    let m5 = m4.push(("rowCount"@, JsonView::Number(rows.len() as int)));
    let m6 = m5.push(("rows"@, JsonView::Array(rows)));
    let m7 = m6.push(("truncated"@, JsonView::Bool(truncated)));
    let m8 = m7.push(("latencyMs"@, JsonView::Number(latency_ms as int)));
    lemma_member_push(m0, m1.last(), key);
    lemma_member_push(m1, m2.last(), key);
    lemma_member_push(m2, m3.last(), key);
    lemma_member_push(m3, m4.last(), key);
    lemma_member_push(m4, m5.last(), key);
    lemma_member_push(m5, m6.last(), key);
    lemma_member_push(m6, m7.last(), key);
    lemma_member_push(m7, m8.last(), key);
}

/// Whatever the response, an output has the full shape: every key is there, the
/// count is that of the rows, and there are never more rows than the limit.
pub proof fn law_output_has_the_full_shape(
    database: Seq<char>,
    data_source_id: Seq<char>,
    resp: JsonView,
    limit: nat,
    latency_ms: nat,
)
    ensures
        output_of(database, data_source_id, resp, limit, latency_ms) matches Ok(doc) ==> {
            &&& str_field(doc, "database"@) == Some(database)
            &&& str_field(doc, "dataSourceId"@) == Some(data_source_id)
            &&& field(doc, "columns"@) matches Some(JsonView::Array(_))
            &&& field(doc, "columnTypes"@) matches Some(JsonView::Array(_))
            &&& field(doc, "rows"@) matches Some(JsonView::Array(rows))
            &&& rows.len() <= limit
            &&& field(doc, "rowCount"@) == Some(JsonView::Number(rows.len() as int))
            &&& field(doc, "truncated"@) matches Some(JsonView::Bool(_))
            &&& field(doc, "latencyMs"@) matches Some(JsonView::Number(_))
        },
{
    lemma_output_keys();
    let sets = result_sets(resp);
    let rows = items_of(field(sets[0], "rows"@));
    let (columns, types, shown, truncated, latency) = if sets.len() == 0 {
        (
            Seq::<Seq<char>>::empty(),
            Seq::<Seq<char>>::empty(),
            Seq::<JsonView>::empty(),
            false,
            0nat,
        )
    } else {
        (
            strings_in(items_of(field(sets[0], "columnNames"@))),
            strings_in(items_of(field(sets[0], "columnTypeNames"@))),
            shown_rows(rows, limit),
            rows.len() > limit,
            latency_ms,
        )
    };
    let key = "database"@;
    lemma_output_member(database, data_source_id, columns, types, shown, truncated, latency, key);
    let key = "dataSourceId"@;
    lemma_output_member(database, data_source_id, columns, types, shown, truncated, latency, key);
    let key = "columns"@;
    lemma_output_member(database, data_source_id, columns, types, shown, truncated, latency, key);
    let key = "columnTypes"@;
    lemma_output_member(database, data_source_id, columns, types, shown, truncated, latency, key);
    let key = "rowCount"@;
    lemma_output_member(database, data_source_id, columns, types, shown, truncated, latency, key);
    let key = "rows"@;
    lemma_output_member(database, data_source_id, columns, types, shown, truncated, latency, key);
    let key = "truncated"@;
    lemma_output_member(database, data_source_id, columns, types, shown, truncated, latency, key);
    let key = "latencyMs"@;
    lemma_output_member(database, data_source_id, columns, types, shown, truncated, latency, key);
}

/// A statement that failed is never reported as a result.
pub proof fn law_failed_statement_is_no_result(
    database: Seq<char>,
    data_source_id: Seq<char>,
    resp: JsonView,
    limit: nat,
    latency_ms: nat,
    message: Seq<char>,
)
    requires
        result_sets(resp).len() > 0,
        str_field(result_sets(resp)[0], "error"@) == Some(message),
        message.len() > 0,
    ensures
        output_of(database, data_source_id, resp, limit, latency_ms) == Err::<JsonView, _>(
            ToolErrorView { code: "QUERY_ERROR"@, message },
        ),
{
}

/// `truncated` is a fact: where the server hands back as many of the rows that
/// there are as it was asked for, the output is marked truncated if and only if
/// there are more rows than the limit, and shows as many as the limit allows.
pub proof fn law_truncated_is_exact(
    resolved: ResolvedView,
    statement: Seq<char>,
    resp: JsonView,
    limit: nat,
    latency_ms: nat,
    total: nat,
)
    requires
        result_sets(resp).len() > 0,
        given(str_field(result_sets(resp)[0], "error"@)) is None,
        ({
            let asked = field(
                JsonView::Object(query_fields(resolved, statement, limit)),
                "limit"@,
            )->0->Number_0;
            items_of(field(result_sets(resp)[0], "rows"@)).len() == if total <= asked {
                total as int
            } else {
                asked
            }
        }),
    ensures
        ({
            let r = output_of(resolved.name, resolved.data_source_id, resp, limit, latency_ms);
            &&& r is Ok
            &&& field(r->Ok_0, "truncated"@) == Some(JsonView::Bool(total > limit))
            &&& field(r->Ok_0, "rowCount"@) == Some(
                JsonView::Number(
                    if total <= limit {
                        total as int
                    } else {
                        limit as int
                    },
                ),
            )
        }),
{
    reveal_strlit("name");
    reveal_strlit("statement");
    reveal_strlit("limit");
    reveal_strlit("dataSourceId");
    assert("name"@.len() == 4);
    assert("statement"@.len() == 9);
    assert("limit"@.len() == 5);
    assert("dataSourceId"@.len() == 12);
    let m0 = no_members();
    let m1 = m0.push(("name"@, JsonView::Str(resolved.name)));
    let m2 = m1.push(("statement"@, JsonView::Str(statement)));
    let m3 = m2.push(("limit"@, JsonView::Number(limit as int + 1)));
    lemma_member_push(m0, m1.last(), "limit"@);
    lemma_member_push(m1, m2.last(), "limit"@);
    lemma_member_push(m2, m3.last(), "limit"@);
    if resolved.data_source_id.len() > 0 {
        lemma_member_push(
            m3,
            ("dataSourceId"@, JsonView::Str(resolved.data_source_id)),
            "limit"@,
        );
    }
    lemma_output_keys();
    let set = result_sets(resp)[0];
    let rows = items_of(field(set, "rows"@));
    let columns = strings_in(items_of(field(set, "columnNames"@)));
    let types = strings_in(items_of(field(set, "columnTypeNames"@)));
    let shown = shown_rows(rows, limit);
    let key = "truncated"@;
    lemma_output_member(
        resolved.name,
        resolved.data_source_id,
        columns,
        types,
        shown,
        rows.len() > limit,
        latency_ms,
        key,
    );
    let key = "rowCount"@;
    lemma_output_member(
        resolved.name,
        resolved.data_source_id,
        columns,
        types,
        shown,
        rows.len() > limit,
        latency_ms,
        key,
    );
}

} // verus!
