//! Laws of a schema's report: from what the server says of a database to the
//! fields of the document.

use vstd::prelude::*;

use crate::json::{
    field, items_of, lemma_member_push, member, no_members, str_field, texts_view, JsonView,
};
use crate::numbers::{int_text, integer_value, law_integer_reads_back};
use crate::order::{
    by_name, comes_before, law_sorted_in_order, law_sorted_items, lemma_sorted_len, sorted_by,
};
use crate::resolve::{cel_read, cel_text, law_cel_reads_back, ResolvedView};
use crate::schema::{
    ambiguous_table, candidates_of, column_entry, column_json, column_members, first_fields,
    fk_json, has_schemas, ignored_note, index_entry, index_json, inspection_of,
    law_primary_key_comes_from_the_primary_index, lookup_fields, metadata_fields, named_in,
    outcome, output_members, pk_columns, plausible, plausible_in, plausible_names, row_count_of,
    section_json, section_members, section_of, sections_of, table_entry, table_json, table_members,
    table_not_found, tables_named, ColumnEntryView, FkEntry, FkEntryView, ForeignKeyMetadata,
    Include, IndexEntry, IndexEntryView, IndexMetadata, InspectionView, SchemaMetadata,
    SchemaMetadataView, SchemaOutputView, SchemaSection, SchemaSectionView, TableEntryView,
    TableMetadata, TableMetadataView,
};
use crate::text::{
    has_part, has_prefix, join_text, lemma_joined_part, lemma_part_behind, lemma_part_stays,
    lower_text, quoted_text, trim_both, views,
};

verus! {

/// A text that is shown only where it says something.
pub open spec fn unless_empty(s: Seq<char>) -> Option<Seq<char>> {
    if s.len() > 0 {
        Some(s)
    } else {
        None
    }
}

// ---- columns ----

proof fn lemma_column_member(c: ColumnEntryView)
    ensures
        ({
            let j = column_json(c);
            &&& str_field(j, "name"@) == Some(c.name)
            &&& str_field(j, "type"@) == Some(c.kind)
            &&& field(j, "nullable"@) == Some(JsonView::Bool(c.nullable))
            &&& field(j, "primaryKey"@) == (if c.primary_key {
                Some(JsonView::Bool(true))
            } else {
                None
            })
            &&& str_field(j, "default"@) == unless_empty(c.default)
            &&& str_field(j, "comment"@) == unless_empty(c.comment)
            &&& field(j, "default"@) is Some <==> c.default.len() > 0
            &&& field(j, "comment"@) is Some <==> c.comment.len() > 0
        }),
{
    reveal_strlit("name");
    reveal_strlit("type");
    reveal_strlit("nullable");
    reveal_strlit("primaryKey");
    reveal_strlit("default");
    reveal_strlit("comment");
    assert("name"@.len() == 4 && "type"@.len() == 4 && "nullable"@.len() == 8 && "primaryKey"@.len()
        == 10 && "default"@.len() == 7 && "comment"@.len() == 7);
    assert("name"@[0] == 'n' && "type"@[0] == 't' && "default"@[0] == 'd' && "comment"@[0] == 'c');
    let all = column_members(c);
    let m0 = no_members();
    let m1 = m0.push(("name"@, JsonView::Str(c.name)));
    let m2 = m1.push(("type"@, JsonView::Str(c.kind)));
    let m3 = m2.push(("nullable"@, JsonView::Bool(c.nullable)));
    let m4 = if c.primary_key {
        m3.push(("primaryKey"@, JsonView::Bool(true)))
    } else {
        m3
    };
    let m5 = if c.default.len() > 0 {
        m4.push(("default"@, JsonView::Str(c.default)))
    } else {
        m4
    };
    assert forall|key: Seq<char>| #[trigger]
        member(all, key) == (if key == "name"@ {
        Some(JsonView::Str(c.name))
    } else if key == "type"@ {
        Some(JsonView::Str(c.kind))
    } else if key == "nullable"@ {
        Some(JsonView::Bool(c.nullable))
    } else if key == "primaryKey"@ && c.primary_key {
        Some(JsonView::Bool(true))
    } else if key == "default"@ && c.default.len() > 0 {
        Some(JsonView::Str(c.default))
    } else if key == "comment"@ && c.comment.len() > 0 {
        Some(JsonView::Str(c.comment))
    } else {
        None
    }) by {
        lemma_member_push(m0, m1.last(), key);
        lemma_member_push(m1, m2.last(), key);
        lemma_member_push(m2, m3.last(), key);
        if c.primary_key {
            lemma_member_push(m3, m4.last(), key);
        }
        if c.default.len() > 0 {
            lemma_member_push(m4, m5.last(), key);
        }
        if c.comment.len() > 0 {
            lemma_member_push(m5, all.last(), key);
        }
    }
}

/// Every column of a table stands in its entry, at its place, with the name, the
/// type and the nullability that the server gave it. It is marked as part of the
/// primary key exactly where a primary index names it. Its default and its
/// comment are shown where it has any and details were asked for.
pub proof fn law_columns_are_those_of_the_table(t: TableMetadata, level: Include, i: int)
    requires
        !(level is Summary),
        0 <= i < t.columns@.len(),
    ensures
        ({
            let shown = items_of(field(table_json(table_entry(t@, level)), "columns"@));
            let c = t.columns@[i];
            let keyed = exists|k: int|
                0 <= k < t.indexes@.len() && (#[trigger] t.indexes@[k]).primary && views(
                    t.indexes@[k].expressions@,
                ).contains(c.name@);
            &&& shown.len() == t.columns@.len()
            &&& str_field(shown[i], "name"@) == Some(c.name@)
            &&& str_field(shown[i], "type"@) == Some(c.kind@)
            &&& field(shown[i], "nullable"@) == Some(JsonView::Bool(c.nullable))
            &&& field(shown[i], "primaryKey"@) == (if keyed {
                Some(JsonView::Bool(true))
            } else {
                None
            })
            &&& str_field(shown[i], "default"@) == (if level is Details {
                unless_empty(c.default@)
            } else {
                None
            })
            &&& str_field(shown[i], "comment"@) == (if level is Details {
                unless_empty(c.comment@)
            } else {
                None
            })
        }),
{
    let e = table_entry(t@, level);
    let c = t.columns@[i];
    assert(t@.columns[i] == c@);
    lemma_table_member(e);
    let pk = pk_columns(t@.indexes);
    assert(e.columns[i] == column_entry(c@, pk, level is Details));
    lemma_column_member(e.columns[i]);
    law_primary_key_comes_from_the_primary_index(t@.indexes, c.name@);
    if pk.contains(c.name@) {
        let k = choose|k: int|
            0 <= k < t@.indexes.len() && (#[trigger] t@.indexes[k]).primary
                && t@.indexes[k].expressions.contains(c.name@);
        assert(t.indexes@[k]@ == t@.indexes[k]);
        assert(t.indexes@[k].primary);
    }
    if exists|k: int|
        0 <= k < t.indexes@.len() && (#[trigger] t.indexes@[k]).primary && views(
            t.indexes@[k].expressions@,
        ).contains(c.name@) {
        let k = choose|k: int|
            0 <= k < t.indexes@.len() && (#[trigger] t.indexes@[k]).primary && views(
                t.indexes@[k].expressions@,
            ).contains(c.name@);
        assert(t.indexes@[k]@ == t@.indexes[k]);
        assert(t@.indexes[k].primary);
    }
}

// ---- tables ----

proof fn lemma_table_keys()
    ensures
        "name"@.len() == 4 && "rowCount"@.len() == 8 && "columnCount"@.len() == 11,
        "comment"@.len() == 7 && "columns"@.len() == 7 && "indexes"@.len() == 7,
        "foreignKeys"@.len() == 11,
        "comment"@[2] == 'm' && "columns"@[2] == 'l' && "indexes"@[2] == 'd',
        "columnCount"@[0] == 'c' && "foreignKeys"@[0] == 'f',
{
    reveal_strlit("name");
    reveal_strlit("rowCount");
    reveal_strlit("columnCount");
    reveal_strlit("comment");
    reveal_strlit("columns");
    reveal_strlit("indexes");
    reveal_strlit("foreignKeys");
}

proof fn lemma_table_member(t: TableEntryView)
    ensures
        ({
            let j = table_json(t);
            &&& str_field(j, "name"@) == Some(t.name)
            &&& field(j, "rowCount"@) == Some(JsonView::Number(t.row_count))
            &&& field(j, "columnCount"@) == match t.column_count {
                Some(n) => Some(JsonView::Number(n as int)),
                None => None,
            }
            &&& str_field(j, "comment"@) == unless_empty(t.comment)
            &&& items_of(field(j, "columns"@)) == Seq::new(
                t.columns.len(),
                |i: int| column_json(t.columns[i]),
            )
            &&& items_of(field(j, "indexes"@)) == Seq::new(
                t.indexes.len(),
                |i: int| index_json(t.indexes[i]),
            )
            &&& items_of(field(j, "foreignKeys"@)) == Seq::new(
                t.foreign_keys.len(),
                |i: int| fk_json(t.foreign_keys[i]),
            )
            &&& field(j, "columns"@) is Some <==> t.columns.len() > 0
            &&& field(j, "indexes"@) is Some <==> t.indexes.len() > 0
            &&& field(j, "foreignKeys"@) is Some <==> t.foreign_keys.len() > 0
        }),
{
    lemma_table_keys();
    let all = table_members(t);
    let columns = JsonView::Array(Seq::new(t.columns.len(), |i: int| column_json(t.columns[i])));
    let indexes = JsonView::Array(Seq::new(t.indexes.len(), |i: int| index_json(t.indexes[i])));
    let keys = JsonView::Array(
        Seq::new(t.foreign_keys.len(), |i: int| fk_json(t.foreign_keys[i])),
    );
    let m0 = no_members();
    let m1 = m0.push(("name"@, JsonView::Str(t.name)));
    let m2 = m1.push(("rowCount"@, JsonView::Number(t.row_count)));
    let m3 = match t.column_count {
        Some(n) => m2.push(("columnCount"@, JsonView::Number(n as int))),
        None => m2,
    };
    let m4 = if t.comment.len() > 0 {
        m3.push(("comment"@, JsonView::Str(t.comment)))
    } else {
        m3
    };
    let m5 = if t.columns.len() > 0 {
        m4.push(("columns"@, columns))
    } else {
        m4
    };
    let m6 = if t.indexes.len() > 0 {
        m5.push(("indexes"@, indexes))
    } else {
        m5
    };
    assert forall|key: Seq<char>| #[trigger]
        member(all, key) == (if key == "name"@ {
        Some(JsonView::Str(t.name))
    } else if key == "rowCount"@ {
        Some(JsonView::Number(t.row_count))
    } else if key == "columnCount"@ && t.column_count is Some {
        Some(JsonView::Number(t.column_count->0 as int))
    } else if key == "comment"@ && t.comment.len() > 0 {
        Some(JsonView::Str(t.comment))
    } else if key == "columns"@ && t.columns.len() > 0 {
        Some(columns)
    } else if key == "indexes"@ && t.indexes.len() > 0 {
        Some(indexes)
    } else if key == "foreignKeys"@ && t.foreign_keys.len() > 0 {
        Some(keys)
    } else {
        None
    }) by {
        lemma_member_push(m0, m1.last(), key);
        lemma_member_push(m1, m2.last(), key);
        if t.column_count is Some {
            lemma_member_push(m2, m3.last(), key);
        }
        if t.comment.len() > 0 {
            lemma_member_push(m3, m4.last(), key);
        }
        if t.columns.len() > 0 {
            lemma_member_push(m4, m5.last(), key);
        }
        if t.indexes.len() > 0 {
            lemma_member_push(m5, m6.last(), key);
        }
        if t.foreign_keys.len() > 0 {
            lemma_member_push(m6, all.last(), key);
        }
    }
    assert(items_of(field(table_json(t), "columns"@)) =~= columns->Array_0);
    assert(items_of(field(table_json(t), "indexes"@)) =~= indexes->Array_0);
    assert(items_of(field(table_json(t), "foreignKeys"@)) =~= keys->Array_0);
}

/// A table is shown with its own name, row count and comment at every level. A
/// summary counts its columns and shows none; the other levels show them all
/// and leave the count out. Indexes and foreign keys come with details only.
pub proof fn law_table_is_shown_at_its_level(t: TableMetadata, level: Include)
    ensures
        ({
            let j = table_json(table_entry(t@, level));
            &&& str_field(j, "name"@) == Some(t.name@)
            &&& field(j, "rowCount"@) == Some(JsonView::Number(t.row_count as int))
            &&& str_field(j, "comment"@) == unless_empty(t.comment@)
            &&& field(j, "columnCount"@) == (if level is Summary {
                Some(JsonView::Number(t.columns@.len() as int))
            } else {
                None
            })
            &&& items_of(field(j, "columns"@)).len() == if level is Summary {
                0
            } else {
                t.columns@.len()
            }
            &&& items_of(field(j, "indexes"@)).len() == if level is Details {
                t.indexes@.len()
            } else {
                0
            }
            &&& items_of(field(j, "foreignKeys"@)).len() == if level is Details {
                t.foreign_keys@.len()
            } else {
                0
            }
        }),
{
    let e = table_entry(t@, level);
    lemma_table_member(e);
    lemma_sorted_len(
        Seq::new(t@.indexes.len(), |i: int| index_entry(t@.indexes[i])),
        by_name::<IndexEntry>(),
    );
    lemma_sorted_len(t@.foreign_keys, by_name::<FkEntry>());
}

proof fn lemma_index_member(i: IndexEntryView)
    ensures
        ({
            let j = index_json(i);
            &&& str_field(j, "name"@) == Some(i.name)
            &&& str_field(j, "type"@) == Some(i.kind)
            &&& field(j, "unique"@) == Some(JsonView::Bool(i.unique))
            &&& field(j, "columns"@) == Some(texts_view(i.columns))
        }),
{
    reveal_strlit("name");
    reveal_strlit("type");
    reveal_strlit("unique");
    reveal_strlit("columns");
    assert("name"@.len() == 4 && "type"@.len() == 4 && "unique"@.len() == 6 && "columns"@.len()
        == 7);
    assert("name"@[0] == 'n' && "type"@[0] == 't');
    let m0 = no_members();
    let m1 = m0.push(("name"@, JsonView::Str(i.name)));
    let m2 = m1.push(("type"@, JsonView::Str(i.kind)));
    let m3 = m2.push(("unique"@, JsonView::Bool(i.unique)));
    let all = m3.push(("columns"@, texts_view(i.columns)));
    assert forall|key: Seq<char>| #[trigger]
        member(all, key) == (if key == "name"@ {
        Some(JsonView::Str(i.name))
    } else if key == "type"@ {
        Some(JsonView::Str(i.kind))
    } else if key == "unique"@ {
        Some(JsonView::Bool(i.unique))
    } else if key == "columns"@ {
        Some(texts_view(i.columns))
    } else {
        None
    }) by {
        lemma_member_push(m0, m1.last(), key);
        lemma_member_push(m1, m2.last(), key);
        lemma_member_push(m2, m3.last(), key);
        lemma_member_push(m3, all.last(), key);
    }
    assert(index_json(i) == JsonView::Object(all));
}

/// Whether a JSON value tells an index as the server gave it.
pub open spec fn tells_index(j: JsonView, i: IndexMetadata) -> bool {
    &&& str_field(j, "name"@) == Some(i.name@)
    &&& str_field(j, "type"@) == Some(i.kind@)
    &&& field(j, "unique"@) == Some(JsonView::Bool(i.unique))
    &&& field(j, "columns"@) == Some(texts_view(views(i.expressions@)))
}

/// With details every index of a table is told once, as the server gave it, and
/// nothing else is; they stand in the order of their names.
pub proof fn law_indexes_are_those_of_the_table(t: TableMetadata, k: int, a: int, b: int)
    ensures
        ({
            let shown = items_of(field(table_json(table_entry(t@, Include::Details)), "indexes"@));
            &&& shown.len() == t.indexes@.len()
            &&& 0 <= k < t.indexes@.len() ==> exists|m: int|
                0 <= m < shown.len() && tells_index(#[trigger] shown[m], t.indexes@[k])
            &&& 0 <= k < shown.len() ==> exists|m: int|
                0 <= m < t.indexes@.len() && tells_index(shown[k], #[trigger] t.indexes@[m])
            &&& 0 <= a < b < shown.len() ==> !comes_before(
                str_field(shown[b], "name"@)->0,
                str_field(shown[a], "name"@)->0,
            )
        }),
{
    let e = table_entry(t@, Include::Details);
    lemma_table_member(e);
    let plain = Seq::new(t@.indexes.len(), |i: int| index_entry(t@.indexes[i]));
    let key = by_name::<IndexEntry>();
    let sorted = sorted_by(plain, key);
    assert(e.indexes == sorted);
    lemma_sorted_len(plain, key);
    law_sorted_items(plain, key);
    law_sorted_in_order(plain, key);
    plain.to_multiset_ensures();
    sorted.to_multiset_ensures();
    let shown = items_of(field(table_json(e), "indexes"@));
    if 0 <= k < t.indexes@.len() {
        assert(plain[k] == index_entry(t.indexes@[k]@));
        assert(plain.contains(plain[k]));
        assert(plain.to_multiset().contains(plain[k]));
        assert(sorted.contains(plain[k]));
        let m = choose|m: int| 0 <= m < sorted.len() && sorted[m] == plain[k];
        lemma_index_member(sorted[m]);
        assert(tells_index(shown[m], t.indexes@[k]));
    }
    if 0 <= k < shown.len() {
        assert(sorted.contains(sorted[k]));
        assert(sorted.to_multiset().contains(sorted[k]));
        assert(plain.contains(sorted[k]));
        let m = choose|m: int| 0 <= m < plain.len() && plain[m] == sorted[k];
        assert(plain[m] == index_entry(t.indexes@[m]@));
        lemma_index_member(sorted[k]);
        assert(tells_index(shown[k], t.indexes@[m]));
    }
    if 0 <= a < b < shown.len() {
        lemma_index_member(sorted[a]);
        lemma_index_member(sorted[b]);
    }
}

proof fn lemma_fk_member(f: FkEntryView)
    ensures
        ({
            let j = fk_json(f);
            &&& str_field(j, "name"@) == Some(f.name)
            &&& field(j, "columns"@) == Some(texts_view(f.columns))
            &&& str_field(j, "referencedTable"@) == Some(f.referenced_table)
            &&& field(j, "referencedColumns"@) == Some(texts_view(f.referenced_columns))
        }),
{
    reveal_strlit("name");
    reveal_strlit("columns");
    reveal_strlit("referencedTable");
    reveal_strlit("referencedColumns");
    assert("name"@.len() == 4 && "columns"@.len() == 7 && "referencedTable"@.len() == 15
        && "referencedColumns"@.len() == 17);
    let m0 = no_members();
    let m1 = m0.push(("name"@, JsonView::Str(f.name)));
    let m2 = m1.push(("columns"@, texts_view(f.columns)));
    let m3 = m2.push(("referencedTable"@, JsonView::Str(f.referenced_table)));
    let all = m3.push(("referencedColumns"@, texts_view(f.referenced_columns)));
    assert forall|key: Seq<char>| #[trigger]
        member(all, key) == (if key == "name"@ {
        Some(JsonView::Str(f.name))
    } else if key == "columns"@ {
        Some(texts_view(f.columns))
    } else if key == "referencedTable"@ {
        Some(JsonView::Str(f.referenced_table))
    } else if key == "referencedColumns"@ {
        Some(texts_view(f.referenced_columns))
    } else {
        None
    }) by {
        lemma_member_push(m0, m1.last(), key);
        lemma_member_push(m1, m2.last(), key);
        lemma_member_push(m2, m3.last(), key);
        lemma_member_push(m3, all.last(), key);
    }
    assert(fk_json(f) == JsonView::Object(all));
}

/// Whether a JSON value tells a foreign key as the server gave it.
pub open spec fn tells_key(j: JsonView, f: ForeignKeyMetadata) -> bool {
    &&& str_field(j, "name"@) == Some(f.name@)
    &&& field(j, "columns"@) == Some(texts_view(views(f.columns@)))
    &&& str_field(j, "referencedTable"@) == Some(f.referenced_table@)
    &&& field(j, "referencedColumns"@) == Some(texts_view(views(f.referenced_columns@)))
}

/// With details every foreign key of a table is told once, as the server gave
/// it, and nothing else is; they stand in the order of their names.
pub proof fn law_foreign_keys_are_those_of_the_table(t: TableMetadata, k: int, a: int, b: int)
    ensures
        ({
            let shown = items_of(
                field(table_json(table_entry(t@, Include::Details)), "foreignKeys"@),
            );
            &&& shown.len() == t.foreign_keys@.len()
            &&& 0 <= k < t.foreign_keys@.len() ==> exists|m: int|
                0 <= m < shown.len() && tells_key(#[trigger] shown[m], t.foreign_keys@[k])
            &&& 0 <= k < shown.len() ==> exists|m: int|
                0 <= m < t.foreign_keys@.len() && tells_key(shown[k], #[trigger] t.foreign_keys@[m])
            &&& 0 <= a < b < shown.len() ==> !comes_before(
                str_field(shown[b], "name"@)->0,
                str_field(shown[a], "name"@)->0,
            )
        }),
{
    let e = table_entry(t@, Include::Details);
    lemma_table_member(e);
    let plain = t@.foreign_keys;
    let key = by_name::<FkEntry>();
    let sorted = sorted_by(plain, key);
    assert(e.foreign_keys == sorted);
    lemma_sorted_len(plain, key);
    law_sorted_items(plain, key);
    law_sorted_in_order(plain, key);
    plain.to_multiset_ensures();
    sorted.to_multiset_ensures();
    let shown = items_of(field(table_json(e), "foreignKeys"@));
    if 0 <= k < t.foreign_keys@.len() {
        assert(plain[k] == t.foreign_keys@[k]@);
        assert(plain.contains(plain[k]));
        assert(plain.to_multiset().contains(plain[k]));
        assert(sorted.contains(plain[k]));
        let m = choose|m: int| 0 <= m < sorted.len() && sorted[m] == plain[k];
        lemma_fk_member(sorted[m]);
        assert(tells_key(shown[m], t.foreign_keys@[k]));
    }
    if 0 <= k < shown.len() {
        assert(sorted.contains(sorted[k]));
        assert(sorted.to_multiset().contains(sorted[k]));
        assert(plain.contains(sorted[k]));
        let m = choose|m: int| 0 <= m < plain.len() && plain[m] == sorted[k];
        assert(plain[m] == t.foreign_keys@[m]@);
        lemma_fk_member(sorted[k]);
        assert(tells_key(shown[k], t.foreign_keys@[m]));
    }
    if 0 <= a < b < shown.len() {
        lemma_fk_member(sorted[a]);
        lemma_fk_member(sorted[b]);
    }
}

// ---- schemas ----

proof fn lemma_section_member(s: SchemaSectionView)
    ensures
        ({
            let j = section_json(s);
            &&& str_field(j, "name"@) == Some(s.name)
            &&& field(j, "tables"@) == Some(
                JsonView::Array(Seq::new(s.tables.len(), |i: int| table_json(s.tables[i]))),
            )
            &&& field(j, "views"@) == (if s.views.len() > 0 {
                Some(texts_view(s.views))
            } else {
                None
            })
            &&& field(j, "functionCount"@) == (if s.function_count > 0 {
                Some(JsonView::Number(s.function_count as int))
            } else {
                None
            })
            &&& field(j, "procedureCount"@) == (if s.procedure_count > 0 {
                Some(JsonView::Number(s.procedure_count as int))
            } else {
                None
            })
            &&& field(j, "truncated"@) == (if s.truncated {
                Some(JsonView::Bool(true))
            } else {
                None
            })
            &&& field(j, "tablesShown"@) == match s.tables_shown {
                Some(n) => Some(JsonView::Number(n as int)),
                None => None,
            }
        }),
{
    reveal_strlit("name");
    reveal_strlit("tables");
    reveal_strlit("views");
    reveal_strlit("functionCount");
    reveal_strlit("procedureCount");
    reveal_strlit("truncated");
    reveal_strlit("tablesShown");
    assert("name"@.len() == 4 && "tables"@.len() == 6 && "views"@.len() == 5
        && "functionCount"@.len() == 13 && "procedureCount"@.len() == 14 && "truncated"@.len() == 9
        && "tablesShown"@.len() == 11);
    let all = section_members(s);
    let tables = JsonView::Array(Seq::new(s.tables.len(), |i: int| table_json(s.tables[i])));
    let m0 = no_members();
    let m1 = m0.push(("name"@, JsonView::Str(s.name)));
    let m2 = m1.push(("tables"@, tables));
    let m3 = if s.views.len() > 0 {
        m2.push(("views"@, texts_view(s.views)))
    } else {
        m2
    };
    let m4 = if s.function_count > 0 {
        m3.push(("functionCount"@, JsonView::Number(s.function_count as int)))
    } else {
        m3
    };
    let m5 = if s.procedure_count > 0 {
        m4.push(("procedureCount"@, JsonView::Number(s.procedure_count as int)))
    } else {
        m4
    };
    let m6 = if s.truncated {
        m5.push(("truncated"@, JsonView::Bool(true)))
    } else {
        m5
    };
    assert forall|key: Seq<char>| #[trigger]
        member(all, key) == (if key == "name"@ {
        Some(JsonView::Str(s.name))
    } else if key == "tables"@ {
        Some(tables)
    } else if key == "views"@ && s.views.len() > 0 {
        Some(texts_view(s.views))
    } else if key == "functionCount"@ && s.function_count > 0 {
        Some(JsonView::Number(s.function_count as int))
    } else if key == "procedureCount"@ && s.procedure_count > 0 {
        Some(JsonView::Number(s.procedure_count as int))
    } else if key == "truncated"@ && s.truncated {
        Some(JsonView::Bool(true))
    } else if key == "tablesShown"@ && s.tables_shown is Some {
        Some(JsonView::Number(s.tables_shown->0 as int))
    } else {
        None
    }) by {
        lemma_member_push(m0, m1.last(), key);
        lemma_member_push(m1, m2.last(), key);
        if s.views.len() > 0 {
            lemma_member_push(m2, m3.last(), key);
        }
        if s.function_count > 0 {
            lemma_member_push(m3, m4.last(), key);
        }
        if s.procedure_count > 0 {
            lemma_member_push(m4, m5.last(), key);
        }
        if s.truncated {
            lemma_member_push(m5, m6.last(), key);
        }
        if s.tables_shown is Some {
            lemma_member_push(m6, all.last(), key);
        }
    }
}

/// Whether texts are others in the order of names: the same ones, as often.
pub open spec fn in_name_order(s: Seq<Seq<char>>) -> bool {
    forall|i: int, j: int|
        0 <= i < j < s.len() ==> !comes_before(#[trigger] s[j], #[trigger] s[i])
}

/// A schema is shown under its name, with its views in the order of their names
/// and the numbers of its functions and procedures. Its tables stand in the order
/// of their names: in a summary all of them, at the other levels the first two
/// hundred, and it says so where there are more.
pub proof fn law_schema_is_shown(s: SchemaMetadata, level: Include, k: int)
    ensures
        ({
            let j = section_json(section_of(s@, level));
            let n = s.tables@.len();
            let cut = !(level is Summary) && n > 200;
            let shown = items_of(field(j, "tables"@));
            &&& str_field(j, "name"@) == Some(s.name@)
            &&& shown.len() == if cut {
                200
            } else {
                n
            }
            &&& field(j, "truncated"@) == (if cut {
                Some(JsonView::Bool(true))
            } else {
                None
            })
            &&& field(j, "tablesShown"@) == (if cut {
                Some(JsonView::Number(200))
            } else {
                None
            })
            &&& field(j, "functionCount"@) == (if s.functions@.len() > 0 {
                Some(JsonView::Number(s.functions@.len() as int))
            } else {
                None
            })
            &&& field(j, "procedureCount"@) == (if s.procedures@.len() > 0 {
                Some(JsonView::Number(s.procedures@.len() as int))
            } else {
                None
            })
            &&& exists|names: Seq<Seq<char>>|
                in_name_order(names) && names.to_multiset() == Seq::new(
                    s.views@.len(),
                    |i: int| s.views@[i].name@,
                ).to_multiset() && field(j, "views"@) == (if names.len() > 0 {
                    Some(#[trigger] texts_view(names))
                } else {
                    None
                })
            &&& exists|tables: Seq<TableMetadataView>|
                #![trigger tables.to_multiset()]
                tables.to_multiset() == views(s.tables@).to_multiset() && tables.len() == n
                    && in_name_order(Seq::new(tables.len(), |i: int| tables[i].name)) && (0 <= k
                    < shown.len() ==> shown[k] == table_json(table_entry(tables[k], level)))
        }),
{
    let section = section_of(s@, level);
    lemma_section_member(section);
    let tables = sorted_by(s@.tables, by_name::<&TableMetadata>());
    lemma_sorted_len(s@.tables, by_name::<&TableMetadata>());
    law_sorted_items(s@.tables, by_name::<&TableMetadata>());
    law_sorted_in_order(s@.tables, by_name::<&TableMetadata>());
    let names = Seq::new(tables.len(), |i: int| tables[i].name);
    assert forall|i: int, j: int| 0 <= i < j < names.len() implies !comes_before(
        #[trigger] names[j],
        #[trigger] names[i],
    ) by {
        assert(!comes_before(
            by_name::<&TableMetadata>()(tables[j]),
            by_name::<&TableMetadata>()(tables[i]),
        ));
    }
    assert(in_name_order(names));
    let shown = items_of(field(section_json(section), "tables"@));
    assert(0 <= k < shown.len() ==> shown[k] == table_json(table_entry(tables[k], level)));
    assert(tables.to_multiset() == views(s.tables@).to_multiset());
    let plain = Seq::new(s.views@.len(), |i: int| s.views@[i].name@);
    assert(s@.views =~= plain);
    let sorted = sorted_by(plain, by_name::<String>());
    law_sorted_items(plain, by_name::<String>());
    law_sorted_in_order(plain, by_name::<String>());
    assert forall|i: int, j: int| 0 <= i < j < sorted.len() implies !comes_before(
        #[trigger] sorted[j],
        #[trigger] sorted[i],
    ) by {
        assert(!comes_before(by_name::<String>()(sorted[j]), by_name::<String>()(sorted[i])));
    }
    assert(in_name_order(sorted));
    assert(section.views == sorted);
    assert(field(section_json(section), "views"@) == (if sorted.len() > 0 {
        Some(texts_view(sorted))
    } else {
        None
    }));
}

proof fn lemma_output_member(o: SchemaOutputView)
    ensures
        ({
            let j = JsonView::Object(output_members(o));
            &&& str_field(j, "database"@) == Some(o.database)
            &&& str_field(j, "engine"@) == Some(o.engine)
            &&& items_of(field(j, "schemas"@)) == Seq::new(
                o.schemas.len(),
                |i: int| section_json(o.schemas[i]),
            )
            &&& field(j, "table"@) == match o.table {
                Some(t) => Some(table_json(t)),
                None => None,
            }
        }),
{
    reveal_strlit("database");
    reveal_strlit("engine");
    reveal_strlit("schemas");
    reveal_strlit("table");
    assert("database"@.len() == 8 && "engine"@.len() == 6 && "schemas"@.len() == 7
        && "table"@.len() == 5);
    let all = output_members(o);
    let schemas = JsonView::Array(Seq::new(o.schemas.len(), |i: int| section_json(o.schemas[i])));
    let m0 = no_members();
    let m1 = m0.push(("database"@, JsonView::Str(o.database)));
    let m2 = m1.push(("engine"@, JsonView::Str(o.engine)));
    let m3 = if o.schemas.len() > 0 {
        m2.push(("schemas"@, schemas))
    } else {
        m2
    };
    assert forall|key: Seq<char>| #[trigger]
        member(all, key) == (if key == "database"@ {
        Some(JsonView::Str(o.database))
    } else if key == "engine"@ {
        Some(JsonView::Str(o.engine))
    } else if key == "schemas"@ && o.schemas.len() > 0 {
        Some(schemas)
    } else if key == "table"@ && o.table is Some {
        Some(table_json(o.table->0))
    } else {
        None
    }) by {
        lemma_member_push(m0, m1.last(), key);
        lemma_member_push(m1, m2.last(), key);
        if o.schemas.len() > 0 {
            lemma_member_push(m2, m3.last(), key);
        }
        if o.table is Some {
            lemma_member_push(m3, all.last(), key);
        }
    }
    assert(items_of(field(JsonView::Object(all), "schemas"@)) =~= schemas->Array_0);
}

/// Without a table the whole database is shown: every schema once, in the order
/// of their names, at the level that was asked for, or in summary.
pub proof fn law_whole_database_is_shown(
    resolved: ResolvedView,
    schema: Option<Seq<char>>,
    level: Option<Include>,
    metadata: Seq<SchemaMetadataView>,
    found: Option<Seq<SchemaMetadataView>>,
    k: int,
)
    ensures
        ({
            let end = outcome(inspection_of(resolved, schema, None, level), metadata, found);
            let used = match level {
                Some(l) => l,
                None => Include::Summary,
            };
            let shown = items_of(field(end->Ok_0, "schemas"@));
            &&& end is Ok
            &&& str_field(end->Ok_0, "database"@) == Some(resolved.name)
            &&& str_field(end->Ok_0, "engine"@) == Some(resolved.engine)
            &&& field(end->Ok_0, "table"@) is None
            &&& shown.len() == metadata.len()
            &&& exists|order: Seq<SchemaMetadataView>|
                #![trigger order.to_multiset()]
                order.to_multiset() == metadata.to_multiset() && order.len() == metadata.len()
                    && in_name_order(Seq::new(order.len(), |i: int| order[i].name)) && (0 <= k
                    < shown.len() ==> shown[k] == section_json(section_of(order[k], used)))
        }),
{
    let used = match level {
        Some(l) => l,
        None => Include::Summary,
    };
    let i = inspection_of(resolved, schema, None, level);
    let sections = sections_of(metadata, used);
    lemma_output_member(
        SchemaOutputView {
            database: resolved.name,
            engine: resolved.engine,
            schemas: sections,
            table: None,
        },
    );
    let by_schema = |s: SchemaMetadataView| s.name;
    let order = sorted_by(metadata, by_schema);
    lemma_sorted_len(metadata, by_schema);
    law_sorted_items(metadata, by_schema);
    law_sorted_in_order(metadata, by_schema);
    lemma_sorted_through(metadata, used);
    let names = Seq::new(order.len(), |i: int| order[i].name);
    assert forall|a: int, b: int| 0 <= a < b < names.len() implies !comes_before(
        #[trigger] names[b],
        #[trigger] names[a],
    ) by {
        assert(!comes_before(by_schema(order[b]), by_schema(order[a])));
    }
    assert(in_name_order(names));
    assert(order.to_multiset() == metadata.to_multiset());
}

/// To sort and then to show is to show and then to sort.
proof fn lemma_sorted_through(metadata: Seq<SchemaMetadataView>, level: Include)
    ensures
        sections_of(metadata, level) == Seq::new(
            metadata.len(),
            |i: int| section_of(sorted_by(metadata, |s: SchemaMetadataView| s.name)[i], level),
        ),
    decreases metadata.len(),
{
    let by_schema = |s: SchemaMetadataView| s.name;
    let by_section = by_name::<SchemaSection>();
    let shown = Seq::new(metadata.len(), |i: int| section_of(metadata[i], level));
    lemma_sorted_len(metadata, by_schema);
    if metadata.len() > 0 {
        let front = metadata.drop_last();
        lemma_sorted_through(front, level);
        lemma_sorted_len(front, by_schema);
        let before = Seq::new(front.len(), |i: int| section_of(front[i], level));
        assert(shown.drop_last() =~= before);
        assert(shown.last() == section_of(metadata.last(), level));
        lemma_placed_through(sorted_by(front, by_schema), metadata.last(), level);
        assert(sections_of(front, level) =~= Seq::new(
            sorted_by(front, by_schema).len(),
            |i: int| section_of(sorted_by(front, by_schema)[i], level),
        ));
        assert(sections_of(metadata, level) =~= Seq::new(
            metadata.len(),
            |i: int| section_of(sorted_by(metadata, by_schema)[i], level),
        ));
    } else {
        assert(sections_of(metadata, level) =~= Seq::new(
            metadata.len(),
            |i: int| section_of(sorted_by(metadata, by_schema)[i], level),
        ));
    }
}

proof fn lemma_placed_through(s: Seq<SchemaMetadataView>, x: SchemaMetadataView, level: Include)
    ensures
        crate::order::placed(
            Seq::new(s.len(), |i: int| section_of(s[i], level)),
            section_of(x, level),
            by_name::<SchemaSection>(),
        ) == Seq::new(
            s.len() + 1,
            |i: int|
                section_of(
                    crate::order::placed(s, x, |s: SchemaMetadataView| s.name)[i],
                    level,
                ),
        ),
        crate::order::placed(s, x, |s: SchemaMetadataView| s.name).len() == s.len() + 1,
    decreases s.len(),
{
    let by_schema = |s: SchemaMetadataView| s.name;
    let by_section = by_name::<SchemaSection>();
    let shown = Seq::new(s.len(), |i: int| section_of(s[i], level));
    let y = section_of(x, level);
    let put = crate::order::placed(s, x, by_schema);
    if s.len() > 0 && comes_before(by_schema(x), by_schema(s.last())) {
        let front = s.drop_last();
        lemma_placed_through(front, x, level);
        assert(shown.drop_last() =~= Seq::new(front.len(), |i: int| section_of(front[i], level)));
        assert(shown.last() == section_of(s.last(), level));
        assert(by_section(y) == by_schema(x) && by_section(shown.last()) == by_schema(s.last()));
        assert(crate::order::placed(shown, y, by_section) =~= Seq::new(
            s.len() + 1,
            |i: int| section_of(put[i], level),
        ));
    } else {
        if s.len() > 0 {
            assert(by_section(y) == by_schema(x) && by_section(shown.last()) == by_schema(
                s.last(),
            ));
        }
        assert(crate::order::placed(shown, y, by_section) =~= Seq::new(
            s.len() + 1,
            |i: int| section_of(put[i], level),
        ));
    }
}

// ---- which tables have a name ----

/// The tables of a name are those of each schema in turn, and of a schema those
/// that are called so, each beside the schema's name.
pub proof fn law_tables_of_a_name(
    a: Seq<SchemaMetadataView>,
    b: Seq<SchemaMetadataView>,
    s: SchemaMetadataView,
    table: Seq<char>,
)
    ensures
        tables_named(a + b, table) == tables_named(a, table) + tables_named(b, table),
        tables_named(seq![s], table) == s.tables.filter(
            |t: TableMetadataView| t.name == table,
        ).map_values(|t: TableMetadataView| (s.name, t)),
        tables_named(Seq::empty(), table).len() == 0,
    decreases b.len(),
{
    reveal_with_fuel(tables_named, 2);
    if b.len() == 0 {
        assert(a + b =~= a);
        assert(tables_named(a + b, table) =~= tables_named(a, table) + tables_named(b, table));
    } else {
        law_tables_of_a_name(a, b.drop_last(), s, table);
        assert((a + b).drop_last() =~= a + b.drop_last());
        assert((a + b).last() == b.last());
        assert(tables_named(a + b, table) =~= tables_named(a, table) + tables_named(b, table));
    }
    lemma_named(s.name, s.tables, table);
    assert(seq![s].drop_last() =~= Seq::<SchemaMetadataView>::empty());
    assert(seq![s].last() == s);
    assert(tables_named(seq![s], table) =~= named_in(s.name, s.tables, table));
}

proof fn lemma_named(schema: Seq<char>, tables: Seq<TableMetadataView>, table: Seq<char>)
    ensures
        named_in(schema, tables, table) == tables.filter(
            |t: TableMetadataView| t.name == table,
        ).map_values(|t: TableMetadataView| (schema, t)),
    decreases tables.len(),
{
    reveal(Seq::filter);
    let p = |t: TableMetadataView| t.name == table;
    let f = |t: TableMetadataView| (schema, t);
    if tables.len() > 0 {
        lemma_named(schema, tables.drop_last(), table);
    }
    assert(named_in(schema, tables, table) =~= tables.filter(p).map_values(f));
}

// ---- candidates ----

/// A table is a candidate for a missing one if its name holds the other's, or
/// begins as the other does with its first four characters, in any case; for an
/// empty name there is none.
pub proof fn law_plausible_names(name: Seq<char>, missing: Seq<char>)
    ensures
        missing.len() == 0 ==> !plausible(name, missing),
        missing.len() > 0 && has_part(lower_text(name), lower_text(missing)) ==> plausible(
            name,
            missing,
        ),
        missing.len() > 0 && lower_text(missing).len() >= 4 ==> (has_prefix(
            lower_text(name),
            lower_text(missing).take(4),
        ) ==> plausible(name, missing)),
        plausible(name, missing) ==> has_part(lower_text(name), lower_text(missing)) || has_prefix(
            lower_text(name),
            lower_text(missing).take(
                if lower_text(missing).len() < 4 {
                    lower_text(missing).len() as int
                } else {
                    4
                },
            ),
        ),
{
}

/// The candidates are the plausible names of the schemas in turn and of the
/// tables in their order, the first ten of them; none is left out before that.
pub proof fn law_candidates_in_their_order(
    a: Seq<SchemaMetadataView>,
    b: Seq<SchemaMetadataView>,
    s: SchemaMetadataView,
    missing: Seq<char>,
)
    ensures
        plausible_names(a + b, missing) == plausible_names(a, missing) + plausible_names(
            b,
            missing,
        ),
        plausible_names(seq![s], missing) == s.tables.filter(
            |t: TableMetadataView| plausible(t.name, missing),
        ).map_values(|t: TableMetadataView| t.name),
        candidates_of(a, missing).len() <= 10,
        candidates_of(a, missing).is_prefix_of(plausible_names(a, missing)),
        candidates_of(a, missing).len() < 10 ==> candidates_of(a, missing) == plausible_names(
            a,
            missing,
        ),
    decreases b.len(),
{
    reveal_with_fuel(plausible_names, 2);
    if b.len() == 0 {
        assert(a + b =~= a);
        assert(plausible_names(a + b, missing) =~= plausible_names(a, missing) + plausible_names(
            b,
            missing,
        ));
    } else {
        law_candidates_in_their_order(a, b.drop_last(), s, missing);
        assert((a + b).drop_last() =~= a + b.drop_last());
        assert((a + b).last() == b.last());
        assert(plausible_names(a + b, missing) =~= plausible_names(a, missing) + plausible_names(
            b,
            missing,
        ));
    }
    lemma_plausible(s.tables, missing);
    assert(seq![s].drop_last() =~= Seq::<SchemaMetadataView>::empty());
    assert(seq![s].last() == s);
    assert(plausible_names(seq![s], missing) =~= plausible_in(s.tables, missing));
}

proof fn lemma_plausible(tables: Seq<TableMetadataView>, missing: Seq<char>)
    ensures
        plausible_in(tables, missing) == tables.filter(
            |t: TableMetadataView| plausible(t.name, missing),
        ).map_values(|t: TableMetadataView| t.name),
    decreases tables.len(),
{
    reveal(Seq::filter);
    let p = |t: TableMetadataView| plausible(t.name, missing);
    let f = |t: TableMetadataView| t.name;
    if tables.len() > 0 {
        lemma_plausible(tables.drop_last(), missing);
    }
    assert(plausible_in(tables, missing) =~= tables.filter(p).map_values(f));
}

/// The refusals name what was asked for and where, and every candidate or every
/// schema there is.
pub proof fn law_refusals_name_the_choices(
    table: Seq<char>,
    database: Seq<char>,
    names: Seq<Seq<char>>,
    k: int,
)
    requires
        0 <= k < names.len(),
    ensures
        ({
            let missing = table_not_found(table, database, names).message;
            let many = ambiguous_table(table, database, names).message;
            &&& has_part(missing, names[k])
            &&& has_part(missing, quoted_text(table))
            &&& has_part(missing, database)
            &&& has_part(many, names[k])
            &&& has_part(many, quoted_text(table))
            &&& has_part(many, database)
        }),
{
    let q = quoted_text(table);
    let listed = join_text(names, ", "@);
    let none = Seq::<char>::empty();
    lemma_joined_part(names, ", "@, k);
    let missing = table_not_found(table, database, names).message;
    let tail = "\n  candidates: "@ + listed + "\n  run without --table to see available tables"@;
    assert(missing =~= "no table matching "@ + q + (" in "@ + database + tail));
    lemma_part_behind("no table matching "@, q, " in "@ + database + tail);
    assert(missing =~= "no table matching "@ + q + " in "@ + database + tail);
    lemma_part_behind("no table matching "@ + q + " in "@, database, tail);
    let head = "no table matching "@ + q + " in "@ + database + "\n  candidates: "@;
    let end = "\n  run without --table to see available tables"@;
    assert(missing =~= head + listed + end);
    lemma_part_stays(head, listed, end, names[k]);
    let many = ambiguous_table(table, database, names).message;
    let hint = "; re-run with --schema set to one of: "@;
    assert(many =~= "table "@ + q + (" exists in multiple schemas of "@ + database + hint
        + listed));
    lemma_part_behind(
        "table "@,
        q,
        " exists in multiple schemas of "@ + database + hint + listed,
    );
    assert(many =~= "table "@ + q + " exists in multiple schemas of "@ + database + (hint
        + listed));
    lemma_part_behind("table "@ + q + " exists in multiple schemas of "@, database, hint + listed);
    let before = "table "@ + q + " exists in multiple schemas of "@ + database + hint;
    assert(many =~= before + listed + none);
    lemma_part_stays(before, listed, none, names[k]);
}

// ---- the requests ----

proof fn lemma_metadata_member(database: Seq<char>, filter: Seq<char>, limit: Option<nat>)
    ensures
        ({
            let j = JsonView::Object(metadata_fields(database, filter, limit));
            &&& str_field(j, "name"@) == Some(database + "/metadata"@)
            &&& str_field(j, "filter"@) == unless_empty(filter)
            &&& field(j, "filter"@) is Some <==> filter.len() > 0
            &&& field(j, "limit"@) == match limit {
                Some(n) => Some(JsonView::Number(n as int)),
                None => None,
            }
        }),
{
    reveal_strlit("name");
    reveal_strlit("filter");
    reveal_strlit("limit");
    assert("name"@.len() == 4 && "filter"@.len() == 6 && "limit"@.len() == 5);
    let all = metadata_fields(database, filter, limit);
    let m0 = no_members();
    let m1 = m0.push(("name"@, JsonView::Str(database + "/metadata"@)));
    let m2 = if filter.len() > 0 {
        m1.push(("filter"@, JsonView::Str(filter)))
    } else {
        m1
    };
    assert forall|key: Seq<char>| #[trigger]
        member(all, key) == (if key == "name"@ {
        Some(JsonView::Str(database + "/metadata"@))
    } else if key == "filter"@ && filter.len() > 0 {
        Some(JsonView::Str(filter))
    } else if key == "limit"@ && limit is Some {
        Some(JsonView::Number(limit->0 as int))
    } else {
        None
    }) by {
        lemma_member_push(m0, m1.last(), key);
        if filter.len() > 0 {
            lemma_member_push(m1, m2.last(), key);
        }
        if limit is Some {
            lemma_member_push(m2, all.last(), key);
        }
    }
}

/// Whether a filter is a comparison of a field with a text, and reads back as
/// that text; and what stands behind it.
pub open spec fn compares(filter: Seq<char>, what: Seq<char>, s: Seq<char>, rest: Seq<char>) -> bool {
    &&& has_prefix(filter, what + " == \""@)
    &&& cel_read(filter.skip((what + " == \""@).len() as int)) == Some((s, rest))
}

/// The metadata of the database is asked for. A schema and a table narrow it by
/// their names, as they were given; one more table than is shown is asked for
/// where many are shown with their columns, and otherwise there is no limit.
pub proof fn law_metadata_requests(i: InspectionView)
    ensures
        ({
            let args = first_fields(i);
            let filter = str_field(args, "filter"@);
            let schema = i.schema is Some && i.schema->0.len() > 0;
            let table = i.table is Some && i.table->0.len() > 0;
            &&& str_field(args, "name"@) == Some(i.database + "/metadata"@)
            &&& !schema && !table ==> field(args, "filter"@) is None
            &&& schema && !table ==> filter is Some && compares(
                filter->0,
                "schema"@,
                i.schema->0,
                Seq::empty(),
            )
            &&& table && !schema ==> filter is Some && compares(
                filter->0,
                "table"@,
                i.table->0,
                Seq::empty(),
            )
            &&& table && schema ==> filter is Some && compares(
                filter->0,
                "schema"@,
                i.schema->0,
                " && table == \""@ + cel_text(i.table->0) + "\""@,
            )
            &&& field(args, "limit"@) == (if table || i.level is Summary {
                None
            } else {
                Some(JsonView::Number(201))
            })
            &&& str_field(lookup_fields(i), "name"@) == Some(i.database + "/metadata"@)
            &&& field(lookup_fields(i), "limit"@) == Some(JsonView::Number(500))
            &&& !schema ==> field(lookup_fields(i), "filter"@) is None
            &&& schema ==> str_field(lookup_fields(i), "filter"@) is Some && compares(
                str_field(lookup_fields(i), "filter"@)->0,
                "schema"@,
                i.schema->0,
                Seq::empty(),
            )
        }),
{
    let parts = crate::schema::filter_parts(i.schema, i.table);
    let filter = join_text(parts, " && "@);
    let alone = crate::schema::filter_parts(i.schema, None);
    let only = join_text(alone, " && "@);
    let limit = crate::schema::limit_for(i.level, i.table);
    lemma_metadata_member(i.database, filter, limit);
    lemma_metadata_member(i.database, only, Some(500));
    reveal_strlit("\"");
    assert("\""@ =~= seq!['"']);
    reveal_strlit("schema == \"");
    reveal_strlit("table == \"");
    reveal_strlit("schema");
    reveal_strlit("table");
    reveal_strlit(" == \"");
    assert("schema"@ + " == \""@ =~= "schema == \""@);
    assert("table"@ + " == \""@ =~= "table == \""@);
    let schema = i.schema is Some && i.schema->0.len() > 0;
    let table = i.table is Some && i.table->0.len() > 0;
    let none = Seq::<char>::empty();
    let s = "schema == \""@ + cel_text(i.schema->0) + "\""@;
    let t = "table == \""@ + cel_text(i.table->0) + "\""@;
    if schema {
        lemma_compares("schema"@, "schema == \""@, i.schema->0, none);
        assert(s =~= "schema == \""@ + cel_text(i.schema->0) + seq!['"'] + none);
        assert(alone =~= seq![s]);
        assert(only == s);
    }
    if table {
        lemma_compares("table"@, "table == \""@, i.table->0, none);
        assert(t =~= "table == \""@ + cel_text(i.table->0) + seq!['"'] + none);
    }
    if schema && !table {
        assert(parts =~= seq![s]);
        assert(filter == s);
    }
    if table && !schema {
        assert(parts =~= seq![t]);
        assert(filter == t);
    }
    if table && schema {
        assert(parts =~= seq![s, t]);
        assert(parts.drop_last() =~= seq![s]);
        reveal_with_fuel(join_text, 2);
        assert(filter =~= s + " && "@ + t);
        let rest = " && table == \""@ + cel_text(i.table->0) + "\""@;
        reveal_strlit(" && ");
        reveal_strlit(" && table == \"");
        assert(" && "@ + "table == \""@ =~= " && table == \""@);
        lemma_compares("schema"@, "schema == \""@, i.schema->0, rest);
        assert(filter =~= "schema == \""@ + cel_text(i.schema->0) + seq!['"'] + rest);
    }
}

proof fn lemma_compares(what: Seq<char>, head: Seq<char>, s: Seq<char>, rest: Seq<char>)
    requires
        head == what + " == \""@,
    ensures
        compares(head + cel_text(s) + seq!['"'] + rest, what, s, rest),
        (head + cel_text(s) + seq!['"'] + rest).len() > 0,
{
    let filter = head + cel_text(s) + seq!['"'] + rest;
    assert(filter.take(head.len() as int) =~= head);
    assert(filter.skip(head.len() as int) =~= cel_text(s) + seq!['"'] + rest);
    law_cel_reads_back(s, rest);
}

/// The engines that have schemas of their own.
pub proof fn law_engines_with_schemas(engine: Seq<char>)
    ensures
        has_schemas(engine) <==> seq![
            "POSTGRES"@,
            "COCKROACHDB"@,
            "MSSQL"@,
            "ORACLE"@,
            "SNOWFLAKE"@,
            "REDSHIFT"@,
            "DATABRICKS"@,
            "TRINO"@,
            "SPANNER"@,
            "HIVE"@,
        ].contains(engine),
{
    let all = seq![
        "POSTGRES"@,
        "COCKROACHDB"@,
        "MSSQL"@,
        "ORACLE"@,
        "SNOWFLAKE"@,
        "REDSHIFT"@,
        "DATABRICKS"@,
        "TRINO"@,
        "SPANNER"@,
        "HIVE"@,
    ];
    assert(all[0] == "POSTGRES"@ && all[1] == "COCKROACHDB"@ && all[2] == "MSSQL"@ && all[3]
        == "ORACLE"@ && all[4] == "SNOWFLAKE"@ && all[5] == "REDSHIFT"@ && all[6] == "DATABRICKS"@
        && all[7] == "TRINO"@ && all[8] == "SPANNER"@ && all[9] == "HIVE"@);
    if all.contains(engine) {
        let k = choose|k: int| 0 <= k < all.len() && all[k] == engine;
        assert(k == 0 || k == 1 || k == 2 || k == 3 || k == 4 || k == 5 || k == 6 || k == 7 || k
            == 8 || k == 9);
    }
}

/// A schema that was named counts on an engine that has schemas; the level is
/// the one that was asked for, and else full for one table and a summary
/// otherwise. The note on a schema that is ignored names the engine.
pub proof fn law_inspection_keeps_what_was_asked(
    resolved: ResolvedView,
    schema: Seq<char>,
    table: Option<Seq<char>>,
    level: Option<Include>,
)
    ensures
        ({
            let i = inspection_of(resolved, Some(schema), table, level);
            &&& i.database == resolved.name
            &&& i.engine == resolved.engine
            &&& i.table == table
            &&& has_schemas(resolved.engine) && schema.len() > 0 ==> i.schema == Some(schema)
            &&& schema.len() == 0 ==> i.schema is None
            &&& i.level == match level {
                Some(l) => l,
                None => if table is Some {
                    Include::Details
                } else {
                    Include::Summary
                },
            }
        }),
        resolved.engine.len() > 0 ==> has_part(ignored_note(resolved.engine), resolved.engine),
        resolved.engine.len() == 0 ==> has_part(ignored_note(resolved.engine), "this engine"@),
{
    if resolved.engine.len() == 0 {
        lemma_part_behind(
            "note: --schema ignored — "@,
            "this engine"@,
            " does not use named schemas"@,
        );
    }
    if resolved.engine.len() > 0 {
        lemma_part_behind(
            "note: --schema ignored — "@,
            resolved.engine,
            " does not use named schemas"@,
        );
    }
}

/// A row count reads as the number that it is, with white space around it or
/// not; one that is too large, or no number, counts for nothing.
pub proof fn law_row_counts(n: int, text: Seq<char>)
    ensures
        trim_both(text) == int_text(n) ==> row_count_of(text) == if i64::MIN <= n <= i64::MAX {
            n
        } else {
            0
        },
        integer_value(trim_both(text)) is None ==> row_count_of(text) == 0,
{
    law_integer_reads_back(n);
}

/// A table that no schema has is refused with every candidate that was found,
/// and one that several have with the name of each of them.
pub proof fn law_refused_tables_come_with_choices(
    i: InspectionView,
    metadata: Seq<SchemaMetadataView>,
    other: Seq<SchemaMetadataView>,
    table: Seq<char>,
    k: int,
)
    requires
        i.table == Some(table),
    ensures
        tables_named(metadata, table).len() == 0 && 0 <= k < candidates_of(other, table).len() ==> (
        outcome(i, metadata, Some(other)) matches Err(e) && has_part(
            e.message,
            candidates_of(other, table)[k],
        )),
        tables_named(metadata, table).len() > 1 && 0 <= k < tables_named(metadata, table).len() ==> (
        outcome(i, metadata, Some(other)) matches Err(e) && has_part(
            e.message,
            tables_named(metadata, table)[k].0,
        )),
{
    if 0 <= k < candidates_of(other, table).len() {
        law_refusals_name_the_choices(table, i.database, candidates_of(other, table), k);
    }
    let matches = tables_named(metadata, table);
    if 0 <= k < matches.len() {
        law_refusals_name_the_choices(table, i.database, crate::schema::schemas_of(matches), k);
    }
}

} // verus!
