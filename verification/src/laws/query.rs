//! Laws of a query: from the server's response to the rows that are shown.

use vstd::prelude::*;

use crate::json::{
    field, items_of, lemma_member_push, member, no_members, str_field, texts_view, JsonView,
};
use crate::numbers::{decimal, integer_value};
use crate::query::{
    flat, latency_seconds, lemma_output_keys, lemma_output_member, notes_on, output_members, output_of, query_fields, shown_rows,
    strings_in,
};
use crate::resolve::ResolvedView;
use crate::text::trim_both;

verus! {

/// What stands in the output.
proof fn lemma_output(
    database: Seq<char>,
    source: Seq<char>,
    columns: Seq<Seq<char>>,
    types: Seq<Seq<char>>,
    rows: Seq<JsonView>,
    truncated: bool,
    latency: nat,
)
    ensures
        ({
            let m = output_members(database, source, columns, types, rows, truncated, latency);
            &&& member(m, "database"@) == Some(JsonView::Str(database))
            &&& member(m, "dataSourceId"@) == Some(JsonView::Str(source))
            &&& member(m, "columns"@) == Some(texts_view(columns))
            &&& member(m, "columnTypes"@) == Some(texts_view(types))
            &&& member(m, "rowCount"@) == Some(JsonView::Number(rows.len() as int))
            &&& member(m, "rows"@) == Some(JsonView::Array(rows))
            &&& member(m, "truncated"@) == Some(JsonView::Bool(truncated))
            &&& member(m, "latencyMs"@) == Some(JsonView::Number(latency as int))
        }),
{
    lemma_output_keys();
    lemma_output_member(database, source, columns, types, rows, truncated, latency, "database"@);
    lemma_output_member(database, source, columns, types, rows, truncated, latency, "dataSourceId"@);
    lemma_output_member(database, source, columns, types, rows, truncated, latency, "columns"@);
    lemma_output_member(database, source, columns, types, rows, truncated, latency, "columnTypes"@);
    lemma_output_member(database, source, columns, types, rows, truncated, latency, "rowCount"@);
    lemma_output_member(database, source, columns, types, rows, truncated, latency, "rows"@);
    lemma_output_member(database, source, columns, types, rows, truncated, latency, "truncated"@);
    lemma_output_member(database, source, columns, types, rows, truncated, latency, "latencyMs"@);
}

/// Whether the first result set of a response holds a result and no error.
pub open spec fn answered(resp: JsonView) -> bool {
    let sets = items_of(field(resp, "results"@));
    &&& sets.len() > 0
    &&& field(sets[0], "error"@) matches Some(JsonView::Str(s)) ==> s.len() == 0
}

/// The rows come out in the order in which the server sent them, from the first
/// on, as many as the limit allows; cell for cell, and none is left out.
pub proof fn law_rows_keep_their_order(
    database: Seq<char>,
    source: Seq<char>,
    resp: JsonView,
    limit: nat,
    latency: nat,
    i: int,
    j: int,
)
    requires
        answered(resp),
    ensures
        ({
            let sent = items_of(field(items_of(field(resp, "results"@))[0], "rows"@));
            let out = output_of(database, source, resp, limit, latency);
            let shown = items_of(field(out->Ok_0, "rows"@));
            &&& out is Ok
            &&& shown.len() == if sent.len() <= limit {
                sent.len()
            } else {
                limit
            }
            &&& field(out->Ok_0, "rowCount"@) == Some(JsonView::Number(shown.len() as int))
            &&& field(out->Ok_0, "truncated"@) == Some(JsonView::Bool(sent.len() > limit))
            &&& 0 <= i < shown.len() ==> {
                let cells = items_of(field(sent[i], "values"@));
                &&& shown[i] is Array
                &&& shown[i]->Array_0.len() == cells.len()
                &&& 0 <= j < cells.len() ==> shown[i]->Array_0[j] == flat(cells[j])
            }
        }),
{
    let set = items_of(field(resp, "results"@))[0];
    let sent = items_of(field(set, "rows"@));
    lemma_output(
        database,
        source,
        strings_in(items_of(field(set, "columnNames"@))),
        strings_in(items_of(field(set, "columnTypeNames"@))),
        shown_rows(sent, limit),
        sent.len() > limit,
        latency,
    );
}

proof fn lemma_strings(items: Seq<JsonView>)
    ensures
        texts_view(strings_in(items)) == JsonView::Array(
            items.filter(|v: JsonView| v is Str),
        ),
    decreases items.len(),
{
    reveal(Seq::filter);
    let p = |v: JsonView| v is Str;
    if items.len() > 0 {
        lemma_strings(items.drop_last());
        let before = strings_in(items.drop_last());
        let kept = items.drop_last().filter(p);
        assert(texts_view(before)->Array_0 == kept);
        assert forall|k: int| 0 <= k < before.len() implies JsonView::Str(#[trigger] before[k])
            == kept[k] by {
            assert(texts_view(before)->Array_0[k] == kept[k]);
        }
        assert(texts_view(strings_in(items))->Array_0 =~= items.filter(p));
    } else {
        assert(texts_view(strings_in(items))->Array_0 =~= items.filter(p));
    }
}

/// The columns and their types are those of the first result set, in its order;
/// the database, the data source and the time are those that were handed over.
pub proof fn law_columns_keep_their_order(
    database: Seq<char>,
    source: Seq<char>,
    resp: JsonView,
    limit: nat,
    latency: nat,
)
    requires
        answered(resp),
    ensures
        ({
            let set = items_of(field(resp, "results"@))[0];
            let out = output_of(database, source, resp, limit, latency);
            let doc = out->Ok_0;
            &&& out is Ok
            &&& items_of(field(doc, "columns"@)) == items_of(field(set, "columnNames"@)).filter(
                |v: JsonView| v is Str,
            )
            &&& items_of(field(doc, "columnTypes"@)) == items_of(
                field(set, "columnTypeNames"@),
            ).filter(|v: JsonView| v is Str)
            &&& str_field(doc, "database"@) == Some(database)
            &&& str_field(doc, "dataSourceId"@) == Some(source)
            &&& field(doc, "latencyMs"@) == Some(JsonView::Number(latency as int))
        }),
{
    let set = items_of(field(resp, "results"@))[0];
    let sent = items_of(field(set, "rows"@));
    lemma_output(
        database,
        source,
        strings_in(items_of(field(set, "columnNames"@))),
        strings_in(items_of(field(set, "columnTypeNames"@))),
        shown_rows(sent, limit),
        sent.len() > limit,
        latency,
    );
    lemma_strings(items_of(field(set, "columnNames"@)));
    lemma_strings(items_of(field(set, "columnTypeNames"@)));
}

/// A response without a result set has the same shape with nothing in it.
pub proof fn law_no_result_set(
    database: Seq<char>,
    source: Seq<char>,
    resp: JsonView,
    limit: nat,
    latency: nat,
)
    requires
        items_of(field(resp, "results"@)).len() == 0,
    ensures
        ({
            let out = output_of(database, source, resp, limit, latency);
            let doc = out->Ok_0;
            &&& out is Ok
            &&& str_field(doc, "database"@) == Some(database)
            &&& str_field(doc, "dataSourceId"@) == Some(source)
            &&& field(doc, "rows"@) == Some(JsonView::Array(Seq::empty()))
            &&& field(doc, "rowCount"@) == Some(JsonView::Number(0))
            &&& field(doc, "truncated"@) == Some(JsonView::Bool(false))
            &&& field(doc, "latencyMs"@) == Some(JsonView::Number(0))
            &&& items_of(field(doc, "columns"@)).len() == 0
            &&& items_of(field(doc, "columnTypes"@)).len() == 0
        }),
{
    lemma_output(database, source, Seq::empty(), Seq::empty(), Seq::empty(), false, 0);
}

/// An error makes the statement fail exactly where the first result set holds
/// one that says something.
pub proof fn law_fails_only_on_an_error(
    database: Seq<char>,
    source: Seq<char>,
    resp: JsonView,
    limit: nat,
    latency: nat,
)
    ensures
        output_of(database, source, resp, limit, latency) is Err <==> (items_of(
            field(resp, "results"@),
        ).len() > 0 && !answered(resp)),
{
}

proof fn lemma_cell_keys()
    ensures
        "nullValue"@.len() == 9 && "int64Value"@.len() == 10 && "uint64Value"@.len() == 11,
        "timestampValue"@.len() == 14 && "timestampTzValue"@.len() == 16,
{
    reveal_strlit("nullValue");
    reveal_strlit("int64Value");
    reveal_strlit("uint64Value");
    reveal_strlit("timestampValue");
    reveal_strlit("timestampTzValue");
}

/// A cell that is null is null whatever it holds, and an instant is its text
/// where it has one.
pub proof fn law_null_and_instant_cells(inner: JsonView)
    ensures
        flat(JsonView::Object(seq![("nullValue"@, inner)])) == JsonView::Null,
        flat(JsonView::Object(seq![("timestampValue"@, inner)])) == match field(
            inner,
            "googleTimestamp"@,
        ) {
            Some(instant) => instant,
            None => inner,
        },
        flat(JsonView::Object(seq![("timestampTzValue"@, inner)])) == match field(
            inner,
            "googleTimestamp"@,
        ) {
            Some(instant) => instant,
            None => inner,
        },
{
    lemma_cell_keys();
    assert(seq![("nullValue"@, inner)][0] == ("nullValue"@, inner));
    assert(seq![("timestampValue"@, inner)][0] == ("timestampValue"@, inner));
    assert(seq![("timestampTzValue"@, inner)][0] == ("timestampTzValue"@, inner));
}

/// What is no cell of one kind, and an integer's cell that holds no text, stay
/// as they are.
pub proof fn law_other_cells(cell: JsonView, n: int, s: Seq<char>)
    ensures
        integer_value(s) is None ==> flat(JsonView::Object(seq![("int64Value"@, JsonView::Str(s))]))
            == JsonView::Str(s),
        integer_value(s) is None ==> flat(
            JsonView::Object(seq![("uint64Value"@, JsonView::Str(s))]),
        ) == JsonView::Str(s),
        !(cell is Object) ==> flat(cell) == cell,
        cell is Object && cell->Object_0.len() != 1 ==> flat(cell) == cell,
        flat(JsonView::Object(seq![("int64Value"@, JsonView::Number(n))])) == JsonView::Number(n),
        flat(JsonView::Object(seq![("uint64Value"@, JsonView::Number(n))])) == JsonView::Number(n),
{
    lemma_cell_keys();
    assert(seq![("int64Value"@, JsonView::Str(s))][0] == ("int64Value"@, JsonView::Str(s)));
    assert(seq![("uint64Value"@, JsonView::Str(s))][0] == ("uint64Value"@, JsonView::Str(s)));
    assert(seq![("int64Value"@, JsonView::Number(n))][0] == ("int64Value"@, JsonView::Number(n)));
    assert(seq![("uint64Value"@, JsonView::Number(n))][0] == ("uint64Value"@, JsonView::Number(n)));
}

/// The request names the database, holds the statement as it was given and asks
/// for one row more than is shown; it names the data source where there is one.
pub proof fn law_query_request(resolved: ResolvedView, statement: Seq<char>, limit: nat)
    ensures
        ({
            let args = JsonView::Object(query_fields(resolved, statement, limit));
            &&& str_field(args, "name"@) == Some(resolved.name)
            &&& str_field(args, "statement"@) == Some(statement)
            &&& field(args, "limit"@) == Some(JsonView::Number(limit as int + 1))
            &&& str_field(args, "dataSourceId"@) == (if resolved.data_source_id.len() > 0 {
                Some(resolved.data_source_id)
            } else {
                None
            })
        }),
{
    reveal_strlit("name");
    reveal_strlit("statement");
    reveal_strlit("limit");
    reveal_strlit("dataSourceId");
    assert("name"@.len() == 4 && "statement"@.len() == 9 && "limit"@.len() == 5
        && "dataSourceId"@.len() == 12);
    let all = query_fields(resolved, statement, limit);
    let m0 = no_members();
    let m1 = m0.push(("name"@, JsonView::Str(resolved.name)));
    let m2 = m1.push(("statement"@, JsonView::Str(statement)));
    let m3 = m2.push(("limit"@, JsonView::Number(limit as int + 1)));
    assert forall|key: Seq<char>| #[trigger]
        member(all, key) == (if key == "name"@ {
        Some(JsonView::Str(resolved.name))
    } else if key == "statement"@ {
        Some(JsonView::Str(statement))
    } else if key == "limit"@ {
        Some(JsonView::Number(limit as int + 1))
    } else if key == "dataSourceId"@ && resolved.data_source_id.len() > 0 {
        Some(JsonView::Str(resolved.data_source_id))
    } else {
        None
    }) by {
        lemma_member_push(m0, m1.last(), key);
        lemma_member_push(m1, m2.last(), key);
        lemma_member_push(m2, m3.last(), key);
        if resolved.data_source_id.len() > 0 {
            lemma_member_push(m3, all.last(), key);
        }
    }
}

/// More than one result set is noted with how many there are; one or none is
/// not.
pub proof fn law_extra_sets_are_noted(resp: JsonView)
    ensures
        ({
            let n = items_of(field(resp, "results"@)).len();
            &&& notes_on(resp).len() == if n > 1 {
                1nat
            } else {
                0
            }
            &&& n > 1 ==> notes_on(resp)[0].take(decimal(n).len() as int) == decimal(n)
        }),
{
    let n = items_of(field(resp, "results"@)).len();
    if n > 1 {
        assert(notes_on(resp)[0].take(decimal(n).len() as int) =~= decimal(n));
    }
}

/// The time is that of the first result set: its text without white space around
/// it and without the unit behind it.
pub proof fn law_latency_is_that_of_the_first_set(resp: JsonView, s: Seq<char>)
    requires
        items_of(field(resp, "results"@)).len() > 0,
        field(items_of(field(resp, "results"@))[0], "latency"@) == Some(JsonView::Str(s)),
    ensures
        trim_both(s) == latency_seconds(resp) + seq!['s'] || (trim_both(s) == latency_seconds(resp)
            && (trim_both(s).len() == 0 || trim_both(s).last() != 's')),
{
    let t = trim_both(s);
    if t.len() > 0 && t.last() == 's' {
        assert(t =~= t.drop_last() + seq!['s']);
    }
}

} // verus!
