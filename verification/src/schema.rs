//! The schema of a database, at a level of detail that a reader can afford.
//!
//! In the bulk modes one table more is asked for than is shown, so that
//! `truncated` is a fact; and the filter by schema is dropped for engines
//! without named schemas, where it would match nothing.

use vstd::prelude::*;
use vstd::string::StringExecFns;

use crate::json::{
    field, lemma_member_push, no_members, opt_view, texts_view, Json, JsonView, Members,
};
use crate::numbers::{integer_value, parse_i64};
use crate::order::{
    by_name, comes_before, in_order, law_sorted_in_order, law_sorted_items, lemma_sorted_len,
    sort_by_name, sorted_by, Named,
};
use crate::resolve::{
    borrowed, cel_escape, cel_text, given, nonempty, owned, tool_error, Resolved, ResolvedView,
    ToolError, ToolErrorView,
};
use crate::text::{
    chars_of, contains_text, has_part, join, join_text, lemma_views_push, lower_text, quoted,
    quoted_text, same_text, to_lowercase, trim, trim_both, views,
};

verus! {

/// How much of each table to show.
#[derive(Debug, Clone, Copy, PartialEq, Eq, Structural)]
pub enum Include {
    /// Name, row count, column count, comment.
    Summary,
    /// Also the columns, with type, nullability and primary-key flag.
    Columns,
    /// Also defaults and comments of columns, indexes and foreign keys.
    Details,
}

/// How many tables of a schema are shown in the bulk modes. One more is asked
/// for.
pub const TABLE_LIMIT: usize = 200;

/// How many tables are asked for in search of candidates.
pub const CANDIDATE_FETCH_LIMIT: u32 = 500;

/// How many candidates an error names.
pub const CANDIDATE_CAP: usize = 10;

// ---- what the server says of a database ----

/// A database.
#[derive(Debug, Default)]
pub struct DatabaseMetadata {
    pub schemas: Vec<SchemaMetadata>,
}

/// A schema of it.
#[derive(Debug, Default)]
pub struct SchemaMetadata {
    pub name: String,
    pub tables: Vec<TableMetadata>,
    pub views: Vec<NamedMetadata>,
    pub functions: Vec<NamedMetadata>,
    pub procedures: Vec<NamedMetadata>,
}

/// A table.
#[derive(Debug, Default)]
pub struct TableMetadata {
    pub name: String,
    pub columns: Vec<ColumnMetadata>,
    pub indexes: Vec<IndexMetadata>,
    pub row_count: i64,
    pub comment: String,
    pub foreign_keys: Vec<ForeignKeyMetadata>,
}

/// A column.
#[derive(Debug, Default)]
pub struct ColumnMetadata {
    pub name: String,
    pub kind: String,
    pub nullable: bool,
    pub default: String,
    pub comment: String,
}

/// An index.
#[derive(Debug, Default)]
pub struct IndexMetadata {
    pub name: String,
    pub expressions: Vec<String>,
    pub kind: String,
    pub unique: bool,
    pub primary: bool,
}

/// A foreign key.
#[derive(Debug, Default)]
pub struct ForeignKeyMetadata {
    pub name: String,
    pub columns: Vec<String>,
    pub referenced_table: String,
    pub referenced_columns: Vec<String>,
}

/// A view, a function or a procedure, of which only the name matters.
#[derive(Debug, Default)]
pub struct NamedMetadata {
    pub name: String,
}

/// A schema by its texts.
pub struct SchemaMetadataView {
    pub name: Seq<char>,
    pub tables: Seq<TableMetadataView>,
    pub views: Seq<Seq<char>>,
    pub functions: nat,
    pub procedures: nat,
}

/// A table by its texts.
pub struct TableMetadataView {
    pub name: Seq<char>,
    pub columns: Seq<ColumnMetadataView>,
    pub indexes: Seq<IndexMetadataView>,
    pub row_count: int,
    pub comment: Seq<char>,
    pub foreign_keys: Seq<FkEntryView>,
}

/// A column by its texts.
pub struct ColumnMetadataView {
    pub name: Seq<char>,
    pub kind: Seq<char>,
    pub nullable: bool,
    pub default: Seq<char>,
    pub comment: Seq<char>,
}

/// An index by its texts.
pub struct IndexMetadataView {
    pub name: Seq<char>,
    pub expressions: Seq<Seq<char>>,
    pub kind: Seq<char>,
    pub unique: bool,
    pub primary: bool,
}

impl View for NamedMetadata {
    type V = Seq<char>;

    open spec fn view(&self) -> Seq<char> {
        self.name@
    }
}

impl View for ColumnMetadata {
    type V = ColumnMetadataView;

    open spec fn view(&self) -> ColumnMetadataView {
        ColumnMetadataView {
            name: self.name@,
            kind: self.kind@,
            nullable: self.nullable,
            default: self.default@,
            comment: self.comment@,
        }
    }
}

impl View for IndexMetadata {
    type V = IndexMetadataView;

    open spec fn view(&self) -> IndexMetadataView {
        IndexMetadataView {
            name: self.name@,
            expressions: views(self.expressions@),
            kind: self.kind@,
            unique: self.unique,
            primary: self.primary,
        }
    }
}

impl View for ForeignKeyMetadata {
    type V = FkEntryView;

    open spec fn view(&self) -> FkEntryView {
        FkEntryView {
            name: self.name@,
            columns: views(self.columns@),
            referenced_table: self.referenced_table@,
            referenced_columns: views(self.referenced_columns@),
        }
    }
}

impl View for TableMetadata {
    type V = TableMetadataView;

    open spec fn view(&self) -> TableMetadataView {
        TableMetadataView {
            name: self.name@,
            columns: views(self.columns@),
            indexes: views(self.indexes@),
            row_count: self.row_count as int,
            comment: self.comment@,
            foreign_keys: views(self.foreign_keys@),
        }
    }
}

impl View for SchemaMetadata {
    type V = SchemaMetadataView;

    open spec fn view(&self) -> SchemaMetadataView {
        SchemaMetadataView {
            name: self.name@,
            tables: views(self.tables@),
            views: views(self.views@),
            functions: self.functions@.len(),
            procedures: self.procedures@.len(),
        }
    }
}

impl View for DatabaseMetadata {
    type V = Seq<SchemaMetadataView>;

    open spec fn view(&self) -> Seq<SchemaMetadataView> {
        views(self.schemas@)
    }
}

impl<'a> Named for &'a TableMetadata {
    open spec fn name_of(v: TableMetadataView) -> Seq<char> {
        v.name
    }

    fn name(&self) -> (r: &str) {
        self.name.as_str()
    }
}

// ---- what is shown of it ----

/// The output: the schemas of a database, or one table of it.
#[derive(Debug)]
pub struct SchemaOutput {
    pub database: String,
    pub engine: String,
    pub schemas: Vec<SchemaSection>,
    pub table: Option<TableEntry>,
}

/// A schema.
#[derive(Debug)]
pub struct SchemaSection {
    /// Empty for engines without named schemas.
    pub name: String,
    pub tables: Vec<TableEntry>,
    pub views: Vec<String>,
    pub function_count: usize,
    pub procedure_count: usize,
    pub truncated: bool,
    pub tables_shown: Option<usize>,
}

/// A table.
#[derive(Debug)]
pub struct TableEntry {
    pub name: String,
    pub row_count: i64,
    /// In the summary only.
    pub column_count: Option<usize>,
    pub comment: String,
    pub columns: Vec<ColumnEntry>,
    pub indexes: Vec<IndexEntry>,
    pub foreign_keys: Vec<FkEntry>,
}

/// A column.
#[derive(Debug)]
pub struct ColumnEntry {
    pub name: String,
    pub kind: String,
    pub nullable: bool,
    pub primary_key: bool,
    pub default: String,
    pub comment: String,
}

/// An index.
#[derive(Debug)]
pub struct IndexEntry {
    pub name: String,
    pub kind: String,
    pub unique: bool,
    pub columns: Vec<String>,
}

/// A foreign key.
#[derive(Debug)]
pub struct FkEntry {
    pub name: String,
    pub columns: Vec<String>,
    pub referenced_table: String,
    pub referenced_columns: Vec<String>,
}

/// The output by its texts.
pub struct SchemaOutputView {
    pub database: Seq<char>,
    pub engine: Seq<char>,
    pub schemas: Seq<SchemaSectionView>,
    pub table: Option<TableEntryView>,
}

/// A shown schema by its texts.
pub struct SchemaSectionView {
    pub name: Seq<char>,
    pub tables: Seq<TableEntryView>,
    pub views: Seq<Seq<char>>,
    pub function_count: nat,
    pub procedure_count: nat,
    pub truncated: bool,
    pub tables_shown: Option<nat>,
}

/// A shown table by its texts.
pub struct TableEntryView {
    pub name: Seq<char>,
    pub row_count: int,
    pub column_count: Option<nat>,
    pub comment: Seq<char>,
    pub columns: Seq<ColumnEntryView>,
    pub indexes: Seq<IndexEntryView>,
    pub foreign_keys: Seq<FkEntryView>,
}

/// A shown column by its texts.
pub struct ColumnEntryView {
    pub name: Seq<char>,
    pub kind: Seq<char>,
    pub nullable: bool,
    pub primary_key: bool,
    pub default: Seq<char>,
    pub comment: Seq<char>,
}

/// A shown index by its texts.
pub struct IndexEntryView {
    pub name: Seq<char>,
    pub kind: Seq<char>,
    pub unique: bool,
    pub columns: Seq<Seq<char>>,
}

/// A foreign key by its texts.
pub struct FkEntryView {
    pub name: Seq<char>,
    pub columns: Seq<Seq<char>>,
    pub referenced_table: Seq<char>,
    pub referenced_columns: Seq<Seq<char>>,
}

/// A count, if there is one.
pub open spec fn count_of(n: Option<usize>) -> Option<nat> {
    match n {
        Some(n) => Some(n as nat),
        None => None,
    }
}

impl View for FkEntry {
    type V = FkEntryView;

    open spec fn view(&self) -> FkEntryView {
        FkEntryView {
            name: self.name@,
            columns: views(self.columns@),
            referenced_table: self.referenced_table@,
            referenced_columns: views(self.referenced_columns@),
        }
    }
}

impl View for IndexEntry {
    type V = IndexEntryView;

    open spec fn view(&self) -> IndexEntryView {
        IndexEntryView {
            name: self.name@,
            kind: self.kind@,
            unique: self.unique,
            columns: views(self.columns@),
        }
    }
}

impl View for ColumnEntry {
    type V = ColumnEntryView;

    open spec fn view(&self) -> ColumnEntryView {
        ColumnEntryView {
            name: self.name@,
            kind: self.kind@,
            nullable: self.nullable,
            primary_key: self.primary_key,
            default: self.default@,
            comment: self.comment@,
        }
    }
}

impl View for TableEntry {
    type V = TableEntryView;

    open spec fn view(&self) -> TableEntryView {
        TableEntryView {
            name: self.name@,
            row_count: self.row_count as int,
            column_count: count_of(self.column_count),
            comment: self.comment@,
            columns: views(self.columns@),
            indexes: views(self.indexes@),
            foreign_keys: views(self.foreign_keys@),
        }
    }
}

impl View for SchemaSection {
    type V = SchemaSectionView;

    open spec fn view(&self) -> SchemaSectionView {
        SchemaSectionView {
            name: self.name@,
            tables: views(self.tables@),
            views: views(self.views@),
            function_count: self.function_count as nat,
            procedure_count: self.procedure_count as nat,
            truncated: self.truncated,
            tables_shown: count_of(self.tables_shown),
        }
    }
}

impl View for SchemaOutput {
    type V = SchemaOutputView;

    open spec fn view(&self) -> SchemaOutputView {
        SchemaOutputView {
            database: self.database@,
            engine: self.engine@,
            schemas: views(self.schemas@),
            table: opt_view(self.table),
        }
    }
}

impl Named for SchemaSection {
    open spec fn name_of(v: SchemaSectionView) -> Seq<char> {
        v.name
    }

    fn name(&self) -> (r: &str) {
        self.name.as_str()
    }
}

impl Named for IndexEntry {
    open spec fn name_of(v: IndexEntryView) -> Seq<char> {
        v.name
    }

    fn name(&self) -> (r: &str) {
        self.name.as_str()
    }
}

impl Named for FkEntry {
    open spec fn name_of(v: FkEntryView) -> Seq<char> {
        v.name
    }

    fn name(&self) -> (r: &str) {
        self.name.as_str()
    }
}

// ---- from the one to the other ----

/// The columns of the primary indexes.
pub open spec fn pk_columns(indexes: Seq<IndexMetadataView>) -> Seq<Seq<char>>
    decreases indexes.len(),
{
    if indexes.len() == 0 {
        Seq::empty()
    } else {
        let before = pk_columns(indexes.drop_last());
        if indexes.last().primary {
            before + indexes.last().expressions
        } else {
            before
        }
    }
}

/// A column as it is shown. Default and comment belong to the details.
pub open spec fn column_entry(c: ColumnMetadataView, pk: Seq<Seq<char>>, details: bool) ->
    ColumnEntryView {
    ColumnEntryView {
        name: c.name,
        kind: c.kind,
        nullable: c.nullable,
        primary_key: pk.contains(c.name),
        default: if details {
            c.default
        } else {
            Seq::empty()
        },
        comment: if details {
            c.comment
        } else {
            Seq::empty()
        },
    }
}

/// An index as it is shown.
pub open spec fn index_entry(i: IndexMetadataView) -> IndexEntryView {
    IndexEntryView { name: i.name, kind: i.kind, unique: i.unique, columns: i.expressions }
}

/// The indexes of a table as they are shown, by name.
pub open spec fn index_entries(indexes: Seq<IndexMetadataView>) -> Seq<IndexEntryView> {
    sorted_by(
        Seq::new(indexes.len(), |i: int| index_entry(indexes[i])),
        by_name::<IndexEntry>(),
    )
}

/// A table as it is shown at a level of detail.
pub open spec fn table_entry(t: TableMetadataView, level: Include) -> TableEntryView {
    let pk = pk_columns(t.indexes);
    let details = level is Details;
    TableEntryView {
        name: t.name,
        row_count: t.row_count,
        column_count: if level is Summary {
            Some(t.columns.len())
        } else {
            None
        },
        comment: t.comment,
        columns: if level is Summary {
            Seq::empty()
        } else {
            Seq::new(t.columns.len(), |i: int| column_entry(t.columns[i], pk, details))
        },
        indexes: if details {
            index_entries(t.indexes)
        } else {
            Seq::empty()
        },
        foreign_keys: if details {
            sorted_by(t.foreign_keys, by_name::<FkEntry>())
        } else {
            Seq::empty()
        },
    }
}

/// Copies of texts.
fn copies(items: &Vec<String>) -> (r: Vec<String>)
    ensures
        views(r@) == views(items@),
{
    let mut out: Vec<String> = Vec::new();
    let mut i: usize = 0;
    while i < items.len()
        invariant
            i <= items@.len(),
            out@.len() == i,
            forall|k: int| 0 <= k < i ==> (#[trigger] out@[k])@ == items@[k]@,
        decreases items.len() - i,
    {
        out.push(items[i].clone());
        i += 1;
    }
    proof {
        assert(views(out@) =~= views(items@));
    }
    out
}

/// The columns of the primary indexes. A column carries no such flag itself.
pub fn primary_key_columns(indexes: &[IndexMetadata]) -> (r: Vec<String>)
    ensures
        views(r@) == pk_columns(views(indexes@)),
{
    let ghost all = views(indexes@);
    let mut out: Vec<String> = Vec::new();
    let mut i: usize = 0;
    proof {
        assert(all.take(0) =~= Seq::<IndexMetadataView>::empty());
        assert(views(out@) =~= Seq::<Seq<char>>::empty());
    }
    while i < indexes.len()
        invariant
            i <= indexes@.len(),
            all == views(indexes@),
            views(out@) == pk_columns(all.take(i as int)),
        decreases indexes.len() - i,
    {
        proof {
            assert(all.take(i + 1).drop_last() =~= all.take(i as int));
            assert(all.take(i + 1).last() == indexes@[i as int]@);
        }
        if indexes[i].primary {
            let mut more = copies(&indexes[i].expressions);
            let ghost before = out@;
            let ghost added = more@;
            out.append(&mut more);
            proof {
                assert(views(before + added) =~= views(before) + views(added));
            }
        }
        i += 1;
    }
    proof {
        assert(all.take(all.len() as int) =~= all);
    }
    out
}

/// Whether the text is among the items.
fn is_among(items: &Vec<String>, s: &str) -> (r: bool)
    ensures
        r == views(items@).contains(s@),
{
    let ghost all = views(items@);
    let mut i: usize = 0;
    while i < items.len()
        invariant
            i <= items@.len(),
            all == views(items@),
            forall|k: int| 0 <= k < i ==> all[k] != s@,
        decreases items.len() - i,
    {
        if same_text(items[i].as_str(), s) {
            proof {
                assert(all[i as int] == s@);
            }
            return true;
        }
        i += 1;
    }
    false
}

/// The columns of a table as they are shown.
fn column_entries(columns: &Vec<ColumnMetadata>, pk: &Vec<String>, details: bool) -> (r: Vec<
    ColumnEntry,
>)
    ensures
        views(r@) == Seq::new(
            views(columns@).len(),
            |i: int| column_entry(views(columns@)[i], views(pk@), details),
        ),
{
    let ghost all = views(columns@);
    let ghost keys = views(pk@);
    let mut out: Vec<ColumnEntry> = Vec::new();
    let mut i: usize = 0;
    while i < columns.len()
        invariant
            i <= columns@.len(),
            all == views(columns@),
            keys == views(pk@),
            out@.len() == i,
            forall|k: int|
                0 <= k < i ==> (#[trigger] out@[k])@ == column_entry(all[k], keys, details),
        decreases columns.len() - i,
    {
        let c = &columns[i];
        let entry = ColumnEntry {
            name: c.name.clone(),
            kind: c.kind.clone(),
            nullable: c.nullable,
            primary_key: is_among(pk, c.name.as_str()),
            default: if details {
                c.default.clone()
            } else {
                String::new()
            },
            comment: if details {
                c.comment.clone()
            } else {
                String::new()
            },
        };
        out.push(entry);
        i += 1;
    }
    proof {
        assert(views(out@) =~= Seq::new(all.len(), |k: int| column_entry(all[k], keys, details)));
    }
    out
}

/// The indexes of a table as they are shown, by name.
fn sorted_indexes(indexes: &Vec<IndexMetadata>) -> (r: Vec<IndexEntry>)
    ensures
        views(r@) == index_entries(views(indexes@)),
{
    let ghost all = views(indexes@);
    let mut out: Vec<IndexEntry> = Vec::new();
    let mut i: usize = 0;
    while i < indexes.len()
        invariant
            i <= indexes@.len(),
            all == views(indexes@),
            out@.len() == i,
            forall|k: int| 0 <= k < i ==> (#[trigger] out@[k])@ == index_entry(all[k]),
        decreases indexes.len() - i,
    {
        let x = &indexes[i];
        let entry = IndexEntry {
            name: x.name.clone(),
            kind: x.kind.clone(),
            unique: x.unique,
            columns: copies(&x.expressions),
        };
        out.push(entry);
        i += 1;
    }
    proof {
        assert(views(out@) =~= Seq::new(all.len(), |k: int| index_entry(all[k])));
    }
    sort_by_name(out)
}

/// The foreign keys of a table as they are shown, by name.
fn sorted_foreign_keys(keys: &Vec<ForeignKeyMetadata>) -> (r: Vec<FkEntry>)
    ensures
        views(r@) == sorted_by(views(keys@), by_name::<FkEntry>()),
{
    let ghost all = views(keys@);
    let mut out: Vec<FkEntry> = Vec::new();
    let mut i: usize = 0;
    while i < keys.len()
        invariant
            i <= keys@.len(),
            all == views(keys@),
            out@.len() == i,
            forall|k: int| 0 <= k < i ==> (#[trigger] out@[k])@ == all[k],
        decreases keys.len() - i,
    {
        let x = &keys[i];
        let entry = FkEntry {
            name: x.name.clone(),
            columns: copies(&x.columns),
            referenced_table: x.referenced_table.clone(),
            referenced_columns: copies(&x.referenced_columns),
        };
        out.push(entry);
        i += 1;
    }
    proof {
        assert(views(out@) =~= all);
    }
    sort_by_name(out)
}

/// A table as it is shown at a level of detail.
pub fn build_table_entry(t: &TableMetadata, level: Include) -> (r: TableEntry)
    ensures
        r@ == table_entry(t@, level),
{
    let mut entry = TableEntry {
        name: t.name.clone(),
        row_count: t.row_count,
        column_count: None,
        comment: t.comment.clone(),
        columns: Vec::new(),
        indexes: Vec::new(),
        foreign_keys: Vec::new(),
    };
    proof {
        assert(views(entry.columns@) =~= Seq::<ColumnEntryView>::empty());
        assert(views(entry.indexes@) =~= Seq::<IndexEntryView>::empty());
        assert(views(entry.foreign_keys@) =~= Seq::<FkEntryView>::empty());
    }
    if level == Include::Summary {
        entry.column_count = Some(t.columns.len());
        return entry;
    }
    let details = level == Include::Details;
    let pk = primary_key_columns(t.indexes.as_slice());
    entry.columns = column_entries(&t.columns, &pk, details);
    if details {
        entry.indexes = sorted_indexes(&t.indexes);
        entry.foreign_keys = sorted_foreign_keys(&t.foreign_keys);
    }
    proof {
        let keys = pk_columns(t@.indexes);
        assert(entry@.columns =~= Seq::new(
            t@.columns.len(),
            |i: int| column_entry(t@.columns[i], keys, details),
        ));
    }
    entry
}

/// A schema as it is shown at a level of detail: tables and views by name, and
/// in the bulk modes no more tables than the limit.
pub open spec fn section_of(s: SchemaMetadataView, level: Include) -> SchemaSectionView {
    let sorted = sorted_by(s.tables, by_name::<&TableMetadata>());
    let truncated = !(level is Summary) && s.tables.len() > TABLE_LIMIT;
    let shown = if truncated {
        sorted.take(TABLE_LIMIT as int)
    } else {
        sorted
    };
    SchemaSectionView {
        name: s.name,
        tables: Seq::new(shown.len(), |i: int| table_entry(shown[i], level)),
        views: sorted_by(s.views, by_name::<String>()),
        function_count: s.functions,
        procedure_count: s.procedures,
        truncated,
        tables_shown: if truncated {
            Some(TABLE_LIMIT as nat)
        } else {
            None
        },
    }
}

/// The schemas of a database as they are shown, by name.
pub open spec fn sections_of(metadata: Seq<SchemaMetadataView>, level: Include) -> Seq<
    SchemaSectionView,
> {
    sorted_by(
        Seq::new(metadata.len(), |i: int| section_of(metadata[i], level)),
        by_name::<SchemaSection>(),
    )
}

/// A schema as it is shown at a level of detail.
fn build_section(schema: &SchemaMetadata, level: Include) -> (r: SchemaSection)
    ensures
        r@ == section_of(schema@, level),
{
    let ghost given_tables = views(schema.tables@);
    let mut tables: Vec<&TableMetadata> = Vec::new();
    let mut i: usize = 0;
    while i < schema.tables.len()
        invariant
            i <= schema.tables@.len(),
            given_tables == views(schema.tables@),
            tables@.len() == i,
            forall|k: int| 0 <= k < i ==> (#[trigger] tables@[k])@ == given_tables[k],
        decreases schema.tables.len() - i,
    {
        tables.push(&schema.tables[i]);
        i += 1;
    }
    proof {
        assert(views(tables@) =~= given_tables);
        lemma_sorted_len(given_tables, by_name::<&TableMetadata>());
    }
    let tables = sort_by_name(tables);
    let ghost sorted = views(tables@);
    let truncated = level != Include::Summary && tables.len() > TABLE_LIMIT;
    let count: usize = if truncated {
        TABLE_LIMIT
    } else {
        tables.len()
    };
    let mut entries: Vec<TableEntry> = Vec::new();
    let mut i: usize = 0;
    while i < count
        invariant
            i <= count,
            count <= tables@.len(),
            sorted == views(tables@),
            entries@.len() == i,
            forall|k: int|
                0 <= k < i ==> (#[trigger] entries@[k])@ == table_entry(sorted[k], level),
        decreases count - i,
    {
        entries.push(build_table_entry(tables[i], level));
        i += 1;
    }
    let ghost given_views = views(schema.views@);
    let mut names: Vec<String> = Vec::new();
    let mut i: usize = 0;
    while i < schema.views.len()
        invariant
            i <= schema.views@.len(),
            given_views == views(schema.views@),
            names@.len() == i,
            forall|k: int| 0 <= k < i ==> (#[trigger] names@[k])@ == given_views[k],
        decreases schema.views.len() - i,
    {
        names.push(schema.views[i].name.clone());
        i += 1;
    }
    proof {
        assert(views(names@) =~= given_views);
        assert(views(entries@) =~= section_of(schema@, level).tables);
    }
    SchemaSection {
        name: schema.name.clone(),
        tables: entries,
        views: sort_by_name(names),
        function_count: schema.functions.len(),
        procedure_count: schema.procedures.len(),
        truncated,
        tables_shown: if truncated {
            Some(TABLE_LIMIT)
        } else {
            None
        },
    }
}

/// The schemas of a database as they are shown. Only the bulk modes have asked
/// for one table too many, so only they drop one; the summary lists them all.
pub fn transform_schemas(metadata: &DatabaseMetadata, level: Include) -> (r: Vec<SchemaSection>)
    ensures
        views(r@) == sections_of(metadata@, level),
{
    let ghost all = views(metadata.schemas@);
    let mut sections: Vec<SchemaSection> = Vec::new();
    let mut i: usize = 0;
    while i < metadata.schemas.len()
        invariant
            i <= metadata.schemas@.len(),
            all == views(metadata.schemas@),
            sections@.len() == i,
            forall|k: int| 0 <= k < i ==> (#[trigger] sections@[k])@ == section_of(all[k], level),
        decreases metadata.schemas.len() - i,
    {
        sections.push(build_section(&metadata.schemas[i], level));
        i += 1;
    }
    proof {
        assert(views(sections@) =~= Seq::new(all.len(), |k: int| section_of(all[k], level)));
    }
    sort_by_name(sections)
}

/// The row count that a text writes down, white space around it aside; zero if
/// it is none.
pub open spec fn row_count_of(text: Seq<char>) -> int {
    match integer_value(trim_both(text)) {
        Some(n) => if i64::MIN <= n <= i64::MAX {
            n
        } else {
            0
        },
        None => 0,
    }
}

/// The row count that a text writes down. A 64-bit number can come as a string.
pub fn row_count_from_text(text: &str) -> (r: i64)
    ensures
        r == row_count_of(text@),
{
    match parse_i64(trim(text)) {
        Some(n) => n,
        None => 0,
    }
}

// ---- what to ask for ----

/// Whether an engine has more than one schema that a user sees.
pub open spec fn has_schemas(engine: Seq<char>) -> bool {
    engine == "POSTGRES"@ || engine == "COCKROACHDB"@ || engine == "MSSQL"@ || engine == "ORACLE"@
        || engine == "SNOWFLAKE"@ || engine == "REDSHIFT"@ || engine == "DATABRICKS"@ || engine
        == "TRINO"@ || engine == "SPANNER"@ || engine == "HIVE"@
}

/// Whether an engine has more than one schema that a user sees. An engine that
/// is not known counts as one without: to drop the filter beats to show nothing.
pub fn engine_supports_schemas(engine: &str) -> (r: bool)
    ensures
        r == has_schemas(engine@),
{
    same_text(engine, "POSTGRES") || same_text(engine, "COCKROACHDB") || same_text(engine, "MSSQL")
        || same_text(engine, "ORACLE") || same_text(engine, "SNOWFLAKE") || same_text(
        engine,
        "REDSHIFT",
    ) || same_text(engine, "DATABRICKS") || same_text(engine, "TRINO") || same_text(
        engine,
        "SPANNER",
    ) || same_text(engine, "HIVE")
}

/// The level of detail: what was asked for, else the details of a single table
/// and the summary of a whole database.
pub open spec fn level_for(asked: Option<Include>, table: Option<Seq<char>>) -> Include {
    match asked {
        Some(level) => level,
        None => match table {
            Some(_) => Include::Details,
            None => Include::Summary,
        },
    }
}

/// The level of detail.
pub fn resolve_include(asked: Option<Include>, table: Option<&str>) -> (r: Include)
    ensures
        r == level_for(asked, opt_view(table)),
{
    match asked {
        Some(level) => level,
        None => match table {
            Some(_) => Include::Details,
            None => Include::Summary,
        },
    }
}

/// The parts of the filter.
pub open spec fn filter_parts(schema: Option<Seq<char>>, table: Option<Seq<char>>) -> Seq<
    Seq<char>,
> {
    let by_schema = match given(schema) {
        Some(s) => Seq::empty().push("schema == \""@ + cel_text(s) + "\""@),
        None => Seq::empty(),
    };
    match given(table) {
        Some(t) => by_schema.push("table == \""@ + cel_text(t) + "\""@),
        None => by_schema,
    }
}

/// The filter for the schema and the table, as far as they are given.
pub fn build_metadata_filter(schema: Option<&str>, table: Option<&str>) -> (r: String)
    ensures
        r@ == join_text(filter_parts(opt_view(schema), opt_view(table)), " && "@),
{
    let mut parts: Vec<String> = Vec::new();
    match nonempty(schema) {
        Some(s) => {
            let mut part = "schema == \"".to_owned();
            part.append(cel_escape(s).as_str());
            part.append("\"");
            parts.push(part);
        },
        None => {},
    }
    match nonempty(table) {
        Some(t) => {
            let mut part = "table == \"".to_owned();
            part.append(cel_escape(t).as_str());
            part.append("\"");
            parts.push(part);
        },
        None => {},
    }
    proof {
        assert(views(parts@) =~= filter_parts(opt_view(schema), opt_view(table)));
    }
    join(&parts, " && ")
}

/// How many tables of each schema to ask for: one more than the limit in the
/// bulk modes, and as many as there are otherwise.
pub open spec fn limit_for(level: Include, table: Option<Seq<char>>) -> Option<nat> {
    if given(table) is Some || level is Summary {
        None
    } else {
        Some(TABLE_LIMIT as nat + 1)
    }
}

/// How many tables of each schema to ask for.
pub fn limit_for_include(level: Include, table: Option<&str>) -> (r: Option<u32>)
    ensures
        match r {
            Some(n) => limit_for(level, opt_view(table)) == Some(n as nat),
            None => limit_for(level, opt_view(table)) is None,
        },
{
    if nonempty(table).is_some() {
        return None;
    }
    match level {
        Include::Columns | Include::Details => Some(201),
        Include::Summary => None,
    }
}

/// The fields of the request for the metadata.
pub open spec fn metadata_fields(
    database: Seq<char>,
    filter: Seq<char>,
    limit: Option<nat>,
) -> Seq<(Seq<char>, JsonView)> {
    let name = no_members().push(("name"@, JsonView::Str(database + "/metadata"@)));
    let filtered = if filter.len() == 0 {
        name
    } else {
        name.push(("filter"@, JsonView::Str(filter)))
    };
    match limit {
        Some(n) => filtered.push(("limit"@, JsonView::Number(n as int))),
        None => filtered,
    }
}

/// The fields of the request for the metadata.
pub fn metadata_args(database: &str, filter: &str, limit: Option<u32>) -> (r: Json)
    ensures
        r@ == JsonView::Object(
            metadata_fields(
                database@,
                filter@,
                match limit {
                    Some(n) => Some(n as nat),
                    None => None,
                },
            ),
        ),
{
    let mut name = database.to_owned();
    name.append("/metadata");
    let mut m = Members::new();
    m.put("name", Json::Str(name));
    if !filter.is_empty() {
        m.put("filter", Json::text(filter));
    }
    match limit {
        Some(n) => m.put("limit", Json::uint(n as u64)),
        None => {},
    }
    m.object()
}

// ---- one table ----

/// The tables of a schema with the name, each with the schema's name.
pub open spec fn named_in(
    schema: Seq<char>,
    tables: Seq<TableMetadataView>,
    table: Seq<char>,
) -> Seq<(Seq<char>, TableMetadataView)>
    decreases tables.len(),
{
    if tables.len() == 0 {
        Seq::empty()
    } else {
        let before = named_in(schema, tables.drop_last(), table);
        if tables.last().name == table {
            before.push((schema, tables.last()))
        } else {
            before
        }
    }
}

/// Every table with the name, with the name of its schema.
pub open spec fn tables_named(schemas: Seq<SchemaMetadataView>, table: Seq<char>) -> Seq<
    (Seq<char>, TableMetadataView),
>
    decreases schemas.len(),
{
    if schemas.len() == 0 {
        Seq::empty()
    } else {
        tables_named(schemas.drop_last(), table) + named_in(
            schemas.last().name,
            schemas.last().tables,
            table,
        )
    }
}

/// The tables of a schema with the name, each with the schema's name.
fn find_in_schema<'a>(schema: &'a SchemaMetadata, table: &str) -> (r: Vec<
    (&'a str, &'a TableMetadata),
>)
    ensures
        views(r@) == named_in(schema@.name, schema@.tables, table@),
{
    let ghost all = views(schema.tables@);
    let mut out: Vec<(&'a str, &'a TableMetadata)> = Vec::new();
    let mut i: usize = 0;
    proof {
        assert(all.take(0) =~= Seq::<TableMetadataView>::empty());
        assert(views(out@) =~= Seq::<(Seq<char>, TableMetadataView)>::empty());
    }
    while i < schema.tables.len()
        invariant
            i <= schema.tables@.len(),
            all == views(schema.tables@),
            views(out@) == named_in(schema@.name, all.take(i as int), table@),
        decreases schema.tables.len() - i,
    {
        let t = &schema.tables[i];
        proof {
            assert(all.take(i + 1).drop_last() =~= all.take(i as int));
            assert(all.take(i + 1).last() == t@);
        }
        if same_text(t.name.as_str(), table) {
            let found = (schema.name.as_str(), t);
            proof {
                lemma_views_push(out@, found);
            }
            out.push(found);
        }
        i += 1;
    }
    proof {
        assert(all.take(all.len() as int) =~= all);
    }
    out
}

/// Every table with the name, with the name of its schema. What none, one or
/// many of them mean is for the caller: none is picked here.
pub fn find_table_matches<'a>(metadata: &'a DatabaseMetadata, table: &str) -> (r: Vec<
    (&'a str, &'a TableMetadata),
>)
    ensures
        views(r@) == tables_named(metadata@, table@),
{
    let ghost all = views(metadata.schemas@);
    let mut out: Vec<(&'a str, &'a TableMetadata)> = Vec::new();
    let mut i: usize = 0;
    proof {
        assert(all.take(0) =~= Seq::<SchemaMetadataView>::empty());
        assert(views(out@) =~= Seq::<(Seq<char>, TableMetadataView)>::empty());
    }
    while i < metadata.schemas.len()
        invariant
            i <= metadata.schemas@.len(),
            all == views(metadata.schemas@),
            views(out@) == tables_named(all.take(i as int), table@),
        decreases metadata.schemas.len() - i,
    {
        let schema = &metadata.schemas[i];
        let mut more = find_in_schema(schema, table);
        proof {
            assert(all.take(i + 1).drop_last() =~= all.take(i as int));
            assert(all.take(i + 1).last() == schema@);
            assert(views(out@ + more@) =~= views(out@) + views(more@));
        }
        out.append(&mut more);
        i += 1;
    }
    proof {
        assert(all.take(all.len() as int) =~= all);
    }
    out
}

/// Whether a table's name is a plausible spelling of one that is missing: it
/// contains it, or begins with the same four characters, whatever the case.
pub open spec fn plausible(name: Seq<char>, missing: Seq<char>) -> bool {
    let n = lower_text(name);
    let m = lower_text(missing);
    let k = if m.len() < 4 {
        m.len() as int
    } else {
        4
    };
    missing.len() > 0 && (has_part(n, m) || (n.len() >= k && n.take(k) == m.take(k)))
}

/// Whether a table's name is a plausible spelling of one that is missing.
pub fn table_name_matches(name: &str, missing: &str) -> (r: bool)
    ensures
        r == plausible(name@, missing@),
{
    if missing.is_empty() {
        return false;
    }
    let n = to_lowercase(name);
    let m = to_lowercase(missing);
    if contains_text(n.as_str(), m.as_str()) {
        return true;
    }
    let x = chars_of(n.as_str());
    let y = chars_of(m.as_str());
    let k: usize = if y.len() < 4 {
        y.len()
    } else {
        4
    };
    if x.len() < k {
        return false;
    }
    let mut i: usize = 0;
    while i < k
        invariant
            i <= k,
            k <= x@.len(),
            k == (if y@.len() < 4 {
                y@.len() as int
            } else {
                4
            }),
            x@ == lower_text(name@),
            y@ == lower_text(missing@),
            !has_part(x@, y@),
            forall|j: int| 0 <= j < i ==> x@[j] == y@[j],
        decreases k - i,
    {
        if x[i] != y[i] {
            proof {
                assert(x@.take(k as int)[i as int] != y@.take(k as int)[i as int]);
            }
            return false;
        }
        i += 1;
    }
    proof {
        assert(x@.take(k as int) =~= y@.take(k as int));
    }
    true
}

/// The names among the tables that are plausible spellings.
pub open spec fn plausible_in(tables: Seq<TableMetadataView>, missing: Seq<char>) -> Seq<Seq<char>>
    decreases tables.len(),
{
    if tables.len() == 0 {
        Seq::empty()
    } else {
        let before = plausible_in(tables.drop_last(), missing);
        if plausible(tables.last().name, missing) {
            before.push(tables.last().name)
        } else {
            before
        }
    }
}

/// The names in all schemas that are plausible spellings.
pub open spec fn plausible_names(schemas: Seq<SchemaMetadataView>, missing: Seq<char>) -> Seq<
    Seq<char>,
>
    decreases schemas.len(),
{
    if schemas.len() == 0 {
        Seq::empty()
    } else {
        plausible_names(schemas.drop_last(), missing) + plausible_in(
            schemas.last().tables,
            missing,
        )
    }
}

/// The names worth suggesting: the first plausible ones.
pub open spec fn candidates_of(schemas: Seq<SchemaMetadataView>, missing: Seq<char>) -> Seq<
    Seq<char>,
> {
    let names = plausible_names(schemas, missing);
    if names.len() > CANDIDATE_CAP {
        names.take(CANDIDATE_CAP as int)
    } else {
        names
    }
}

/// The names among the tables that are plausible spellings.
fn candidates_in(tables: &Vec<TableMetadata>, missing: &str) -> (r: Vec<String>)
    ensures
        views(r@) == plausible_in(views(tables@), missing@),
{
    let ghost all = views(tables@);
    let mut out: Vec<String> = Vec::new();
    let mut i: usize = 0;
    proof {
        assert(all.take(0) =~= Seq::<TableMetadataView>::empty());
        assert(views(out@) =~= Seq::<Seq<char>>::empty());
    }
    while i < tables.len()
        invariant
            i <= tables@.len(),
            all == views(tables@),
            views(out@) == plausible_in(all.take(i as int), missing@),
        decreases tables.len() - i,
    {
        let t = &tables[i];
        proof {
            assert(all.take(i + 1).drop_last() =~= all.take(i as int));
            assert(all.take(i + 1).last() == t@);
        }
        if table_name_matches(t.name.as_str(), missing) {
            let name = t.name.clone();
            proof {
                lemma_views_push(out@, name);
            }
            out.push(name);
        }
        i += 1;
    }
    proof {
        assert(all.take(all.len() as int) =~= all);
    }
    out
}

/// The names worth suggesting after a miss.
pub fn collect_candidates(metadata: &DatabaseMetadata, missing: &str) -> (r: Vec<String>)
    ensures
        views(r@) == candidates_of(metadata@, missing@),
{
    let ghost all = views(metadata.schemas@);
    let mut out: Vec<String> = Vec::new();
    let mut i: usize = 0;
    proof {
        assert(all.take(0) =~= Seq::<SchemaMetadataView>::empty());
        assert(views(out@) =~= Seq::<Seq<char>>::empty());
    }
    while i < metadata.schemas.len()
        invariant
            i <= metadata.schemas@.len(),
            all == views(metadata.schemas@),
            views(out@) == plausible_names(all.take(i as int), missing@),
        decreases metadata.schemas.len() - i,
    {
        let schema = &metadata.schemas[i];
        let mut more = candidates_in(&schema.tables, missing);
        proof {
            assert(all.take(i + 1).drop_last() =~= all.take(i as int));
            assert(all.take(i + 1).last() == schema@);
            assert(views(out@ + more@) =~= views(out@) + views(more@));
        }
        out.append(&mut more);
        i += 1;
    }
    proof {
        assert(all.take(all.len() as int) =~= all);
    }
    if out.len() > CANDIDATE_CAP {
        let ghost names = out@;
        out.truncate(CANDIDATE_CAP);
        proof {
            assert(views(out@) =~= views(names).take(CANDIDATE_CAP as int));
        }
    }
    out
}

/// The refusal when no table has the name.
pub open spec fn table_not_found(
    table: Seq<char>,
    database: Seq<char>,
    candidates: Seq<Seq<char>>,
) -> ToolErrorView {
    let head = "no table matching "@ + quoted_text(table) + " in "@ + database;
    let listed = if candidates.len() == 0 {
        head
    } else {
        head + "\n  candidates: "@ + join_text(candidates, ", "@)
    };
    ToolErrorView {
        code: "TABLE_NOT_FOUND"@,
        message: listed + "\n  run without --table to see available tables"@,
    }
}

/// The refusal when no table has the name. It says what to do next, and names
/// candidates where there are any.
pub fn table_not_found_error(table: &str, database: &str, candidates: &Vec<String>) -> (r:
    ToolError)
    ensures
        r@ == table_not_found(table@, database@, views(candidates@)),
{
    let mut msg = "no table matching ".to_owned();
    msg.append(quoted(table).as_str());
    msg.append(" in ");
    msg.append(database);
    if candidates.len() > 0 {
        msg.append("\n  candidates: ");
        msg.append(join(candidates, ", ").as_str());
    }
    msg.append("\n  run without --table to see available tables");
    tool_error("TABLE_NOT_FOUND", msg.as_str())
}

/// The refusal when tables of several schemas have the name.
pub open spec fn ambiguous_table(
    table: Seq<char>,
    database: Seq<char>,
    schemas: Seq<Seq<char>>,
) -> ToolErrorView {
    ToolErrorView {
        code: "AMBIGUOUS_TABLE"@,
        message: "table "@ + quoted_text(table) + " exists in multiple schemas of "@ + database
            + "; re-run with --schema set to one of: "@ + join_text(schemas, ", "@),
    }
}

/// The refusal when tables of several schemas have the name. It lists the
/// schemas and picks none.
pub fn ambiguous_table_error(table: &str, database: &str, schemas: &Vec<String>) -> (r: ToolError)
    ensures
        r@ == ambiguous_table(table@, database@, views(schemas@)),
{
    let mut msg = "table ".to_owned();
    msg.append(quoted(table).as_str());
    msg.append(" exists in multiple schemas of ");
    msg.append(database);
    msg.append("; re-run with --schema set to one of: ");
    msg.append(join(schemas, ", ").as_str());
    tool_error("AMBIGUOUS_TABLE", msg.as_str())
}

// ---- the output as JSON ----

/// A column. A flag that is off, and an empty text, are left out.
pub open spec fn column_members(c: ColumnEntryView) -> Seq<(Seq<char>, JsonView)> {
    let base = no_members()
        .push(("name"@, JsonView::Str(c.name)))
        .push(("type"@, JsonView::Str(c.kind)))
        .push(("nullable"@, JsonView::Bool(c.nullable)));
    let keyed = if c.primary_key {
        base.push(("primaryKey"@, JsonView::Bool(true)))
    } else {
        base
    };
    let defaulted = if c.default.len() > 0 {
        keyed.push(("default"@, JsonView::Str(c.default)))
    } else {
        keyed
    };
    if c.comment.len() > 0 {
        defaulted.push(("comment"@, JsonView::Str(c.comment)))
    } else {
        defaulted
    }
}

/// A column.
pub open spec fn column_json(c: ColumnEntryView) -> JsonView {
    JsonView::Object(column_members(c))
}

/// An index.
pub open spec fn index_json(i: IndexEntryView) -> JsonView {
    JsonView::Object(
        no_members()
            .push(("name"@, JsonView::Str(i.name)))
            .push(("type"@, JsonView::Str(i.kind)))
            .push(("unique"@, JsonView::Bool(i.unique)))
            .push(("columns"@, texts_view(i.columns))),
    )
}

/// A foreign key.
pub open spec fn fk_json(f: FkEntryView) -> JsonView {
    JsonView::Object(
        no_members()
            .push(("name"@, JsonView::Str(f.name)))
            .push(("columns"@, texts_view(f.columns)))
            .push(("referencedTable"@, JsonView::Str(f.referenced_table)))
            .push(("referencedColumns"@, texts_view(f.referenced_columns))),
    )
}

/// A table. What is absent at its level, and what is empty, is left out.
pub open spec fn table_members(t: TableEntryView) -> Seq<(Seq<char>, JsonView)> {
    let base = no_members()
        .push(("name"@, JsonView::Str(t.name)))
        .push(("rowCount"@, JsonView::Number(t.row_count)));
    let counted = match t.column_count {
        Some(n) => base.push(("columnCount"@, JsonView::Number(n as int))),
        None => base,
    };
    let commented = if t.comment.len() > 0 {
        counted.push(("comment"@, JsonView::Str(t.comment)))
    } else {
        counted
    };
    let columns = if t.columns.len() > 0 {
        commented.push(
            (
                "columns"@,
                JsonView::Array(Seq::new(t.columns.len(), |i: int| column_json(t.columns[i]))),
            ),
        )
    } else {
        commented
    };
    let indexes = if t.indexes.len() > 0 {
        columns.push(
            (
                "indexes"@,
                JsonView::Array(Seq::new(t.indexes.len(), |i: int| index_json(t.indexes[i]))),
            ),
        )
    } else {
        columns
    };
    if t.foreign_keys.len() > 0 {
        indexes.push(
            (
                "foreignKeys"@,
                JsonView::Array(
                    Seq::new(t.foreign_keys.len(), |i: int| fk_json(t.foreign_keys[i])),
                ),
            ),
        )
    } else {
        indexes
    }
}

/// A table.
pub open spec fn table_json(t: TableEntryView) -> JsonView {
    JsonView::Object(table_members(t))
}

/// A schema. What is empty, zero or off is left out, but for the tables.
pub open spec fn section_members(s: SchemaSectionView) -> Seq<(Seq<char>, JsonView)> {
    let base = no_members()
        .push(("name"@, JsonView::Str(s.name)))
        .push(
            (
                "tables"@,
                JsonView::Array(Seq::new(s.tables.len(), |i: int| table_json(s.tables[i]))),
            ),
        );
    let viewed = if s.views.len() > 0 {
        base.push(("views"@, texts_view(s.views)))
    } else {
        base
    };
    let functions = if s.function_count > 0 {
        viewed.push(("functionCount"@, JsonView::Number(s.function_count as int)))
    } else {
        viewed
    };
    let procedures = if s.procedure_count > 0 {
        functions.push(("procedureCount"@, JsonView::Number(s.procedure_count as int)))
    } else {
        functions
    };
    let truncated = if s.truncated {
        procedures.push(("truncated"@, JsonView::Bool(true)))
    } else {
        procedures
    };
    match s.tables_shown {
        Some(n) => truncated.push(("tablesShown"@, JsonView::Number(n as int))),
        None => truncated,
    }
}

/// A schema.
pub open spec fn section_json(s: SchemaSectionView) -> JsonView {
    JsonView::Object(section_members(s))
}

/// The output: the schemas or the table, whichever there is.
pub open spec fn output_members(o: SchemaOutputView) -> Seq<(Seq<char>, JsonView)> {
    let base = no_members()
        .push(("database"@, JsonView::Str(o.database)))
        .push(("engine"@, JsonView::Str(o.engine)));
    let schemas = if o.schemas.len() > 0 {
        base.push(
            (
                "schemas"@,
                JsonView::Array(Seq::new(o.schemas.len(), |i: int| section_json(o.schemas[i]))),
            ),
        )
    } else {
        base
    };
    match o.table {
        Some(t) => schemas.push(("table"@, table_json(t))),
        None => schemas,
    }
}

impl ColumnEntry {
    /// The column as JSON.
    pub fn to_json(&self) -> (r: Json)
        ensures
            r@ == column_json(self@),
    {
        let mut m = Members::new();
        m.put("name", Json::text(self.name.as_str()));
        m.put("type", Json::text(self.kind.as_str()));
        m.put("nullable", Json::boolean(self.nullable));
        if self.primary_key {
            m.put("primaryKey", Json::boolean(true));
        }
        if !self.default.as_str().is_empty() {
            m.put("default", Json::text(self.default.as_str()));
        }
        if !self.comment.as_str().is_empty() {
            m.put("comment", Json::text(self.comment.as_str()));
        }
        m.object()
    }
}

impl IndexEntry {
    /// The index as JSON.
    pub fn to_json(&self) -> (r: Json)
        ensures
            r@ == index_json(self@),
    {
        let mut m = Members::new();
        m.put("name", Json::text(self.name.as_str()));
        m.put("type", Json::text(self.kind.as_str()));
        m.put("unique", Json::boolean(self.unique));
        m.put("columns", Json::texts(&self.columns));
        m.object()
    }
}

impl FkEntry {
    /// The foreign key as JSON.
    pub fn to_json(&self) -> (r: Json)
        ensures
            r@ == fk_json(self@),
    {
        let mut m = Members::new();
        m.put("name", Json::text(self.name.as_str()));
        m.put("columns", Json::texts(&self.columns));
        m.put("referencedTable", Json::text(self.referenced_table.as_str()));
        m.put("referencedColumns", Json::texts(&self.referenced_columns));
        m.object()
    }
}

/// The columns as an array.
fn columns_json(items: &Vec<ColumnEntry>) -> (r: Json)
    ensures
        r@ == JsonView::Array(
            Seq::new(views(items@).len(), |i: int| column_json(views(items@)[i])),
        ),
{
    let ghost all = views(items@);
    let mut out: Vec<Json> = Vec::new();
    let mut i: usize = 0;
    while i < items.len()
        invariant
            i <= items@.len(),
            all == views(items@),
            out@.len() == i,
            forall|k: int| 0 <= k < i ==> (#[trigger] out@[k])@ == column_json(all[k]),
        decreases items.len() - i,
    {
        out.push(items[i].to_json());
        i += 1;
    }
    proof {
        assert(views(out@) =~= Seq::new(views(items@).len(), |i: int| column_json(views(items@)[i])));
    }
    Json::array(out)
}

/// The indexes as an array.
fn indexes_json(items: &Vec<IndexEntry>) -> (r: Json)
    ensures
        r@ == JsonView::Array(Seq::new(views(items@).len(), |i: int| index_json(views(items@)[i]))),
{
    let ghost all = views(items@);
    let mut out: Vec<Json> = Vec::new();
    let mut i: usize = 0;
    while i < items.len()
        invariant
            i <= items@.len(),
            all == views(items@),
            out@.len() == i,
            forall|k: int| 0 <= k < i ==> (#[trigger] out@[k])@ == index_json(all[k]),
        decreases items.len() - i,
    {
        out.push(items[i].to_json());
        i += 1;
    }
    proof {
        assert(views(out@) =~= Seq::new(views(items@).len(), |i: int| index_json(views(items@)[i])));
    }
    Json::array(out)
}

/// The foreign keys as an array.
fn fks_json(items: &Vec<FkEntry>) -> (r: Json)
    ensures
        r@ == JsonView::Array(Seq::new(views(items@).len(), |i: int| fk_json(views(items@)[i]))),
{
    let ghost all = views(items@);
    let mut out: Vec<Json> = Vec::new();
    let mut i: usize = 0;
    while i < items.len()
        invariant
            i <= items@.len(),
            all == views(items@),
            out@.len() == i,
            forall|k: int| 0 <= k < i ==> (#[trigger] out@[k])@ == fk_json(all[k]),
        decreases items.len() - i,
    {
        out.push(items[i].to_json());
        i += 1;
    }
    proof {
        assert(views(out@) =~= Seq::new(views(items@).len(), |i: int| fk_json(views(items@)[i])));
    }
    Json::array(out)
}

impl TableEntry {
    /// The table as JSON.
    pub fn to_json(&self) -> (r: Json)
        ensures
            r@ == table_json(self@),
    {
        let mut m = Members::new();
        m.put("name", Json::text(self.name.as_str()));
        m.put("rowCount", Json::signed(self.row_count));
        match self.column_count {
            Some(n) => m.put("columnCount", Json::uint(n as u64)),
            None => {},
        }
        if !self.comment.as_str().is_empty() {
            m.put("comment", Json::text(self.comment.as_str()));
        }
        if self.columns.len() > 0 {
            m.put("columns", columns_json(&self.columns));
        }
        if self.indexes.len() > 0 {
            m.put("indexes", indexes_json(&self.indexes));
        }
        if self.foreign_keys.len() > 0 {
            m.put("foreignKeys", fks_json(&self.foreign_keys));
        }
        m.object()
    }
}

/// The tables as an array.
fn tables_json(items: &Vec<TableEntry>) -> (r: Json)
    ensures
        r@ == JsonView::Array(Seq::new(views(items@).len(), |i: int| table_json(views(items@)[i]))),
{
    let ghost all = views(items@);
    let mut out: Vec<Json> = Vec::new();
    let mut i: usize = 0;
    while i < items.len()
        invariant
            i <= items@.len(),
            all == views(items@),
            out@.len() == i,
            forall|k: int| 0 <= k < i ==> (#[trigger] out@[k])@ == table_json(all[k]),
        decreases items.len() - i,
    {
        out.push(items[i].to_json());
        i += 1;
    }
    proof {
        assert(views(out@) =~= Seq::new(views(items@).len(), |i: int| table_json(views(items@)[i])));
    }
    Json::array(out)
}

impl SchemaSection {
    /// The schema as JSON.
    pub fn to_json(&self) -> (r: Json)
        ensures
            r@ == section_json(self@),
    {
        let mut m = Members::new();
        m.put("name", Json::text(self.name.as_str()));
        m.put("tables", tables_json(&self.tables));
        if self.views.len() > 0 {
            m.put("views", Json::texts(&self.views));
        }
        if self.function_count > 0 {
            m.put("functionCount", Json::uint(self.function_count as u64));
        }
        if self.procedure_count > 0 {
            m.put("procedureCount", Json::uint(self.procedure_count as u64));
        }
        if self.truncated {
            m.put("truncated", Json::boolean(true));
        }
        match self.tables_shown {
            Some(n) => m.put("tablesShown", Json::uint(n as u64)),
            None => {},
        }
        m.object()
    }
}

impl SchemaOutput {
    /// The output as JSON.
    pub fn to_json(&self) -> (r: Json)
        ensures
            r@ == JsonView::Object(output_members(self@)),
    {
        let mut m = Members::new();
        m.put("database", Json::text(self.database.as_str()));
        m.put("engine", Json::text(self.engine.as_str()));
        if self.schemas.len() > 0 {
            let ghost all = views(self.schemas@);
            let mut items: Vec<Json> = Vec::new();
            let mut i: usize = 0;
            while i < self.schemas.len()
                invariant
                    i <= self.schemas@.len(),
                    all == views(self.schemas@),
                    items@.len() == i,
                    forall|k: int| 0 <= k < i ==> (#[trigger] items@[k])@ == section_json(all[k]),
                decreases self.schemas.len() - i,
            {
                items.push(self.schemas[i].to_json());
                i += 1;
            }
            proof {
                assert(views(items@) =~= Seq::new(all.len(), |k: int| section_json(all[k])));
            }
            m.put("schemas", Json::array(items));
        }
        match &self.table {
            Some(t) => m.put("table", t.to_json()),
            None => {},
        }
        m.object()
    }
}

// ---- the course of an inspection ----

/// What was asked to be shown of a database.
pub struct Inspection {
    pub database: String,
    pub engine: String,
    /// The schema to filter by, for engines that have schemas.
    pub schema: Option<String>,
    pub table: Option<String>,
    pub level: Include,
}

/// The same by its texts.
pub struct InspectionView {
    pub database: Seq<char>,
    pub engine: Seq<char>,
    pub schema: Option<Seq<char>>,
    pub table: Option<Seq<char>>,
    pub level: Include,
}

impl View for Inspection {
    type V = InspectionView;

    open spec fn view(&self) -> InspectionView {
        InspectionView {
            database: self.database@,
            engine: self.engine@,
            schema: opt_view(self.schema),
            table: opt_view(self.table),
            level: self.level,
        }
    }
}

/// What comes after the metadata.
pub enum SchemaAction {
    /// The output.
    Finish(Json),
    /// A refusal.
    Fail(ToolError),
    /// There is no such table: ask for metadata with these fields, in search of
    /// candidates.
    Lookup(Json),
}

/// The same by its texts.
pub enum SchemaActionView {
    Finish(JsonView),
    Fail(ToolErrorView),
    Lookup(JsonView),
}

impl View for SchemaAction {
    type V = SchemaActionView;

    open spec fn view(&self) -> SchemaActionView {
        match *self {
            SchemaAction::Finish(j) => SchemaActionView::Finish(j@),
            SchemaAction::Fail(e) => SchemaActionView::Fail(e@),
            SchemaAction::Lookup(j) => SchemaActionView::Lookup(j@),
        }
    }
}

/// The note when a schema was named on an engine that has none.
pub open spec fn ignored_note(engine: Seq<char>) -> Seq<char> {
    let which = if engine.len() == 0 {
        "this engine"@
    } else {
        engine
    };
    "note: --schema ignored — "@ + which + " does not use named schemas"@
}

/// The inspection that was asked for: the schema counts only where the engine
/// has schemas.
pub open spec fn inspection_of(
    resolved: ResolvedView,
    schema: Option<Seq<char>>,
    table: Option<Seq<char>>,
    level: Option<Include>,
) -> InspectionView {
    InspectionView {
        database: resolved.name,
        engine: resolved.engine,
        schema: if has_schemas(resolved.engine) {
            given(schema)
        } else {
            None
        },
        table,
        level: level_for(level, table),
    }
}

/// The fields of the request for the metadata.
pub open spec fn first_fields(i: InspectionView) -> JsonView {
    JsonView::Object(
        metadata_fields(
            i.database,
            join_text(filter_parts(i.schema, i.table), " && "@),
            limit_for(i.level, i.table),
        ),
    )
}

/// The fields of the request that looks for candidates: no filter by table.
pub open spec fn lookup_fields(i: InspectionView) -> JsonView {
    JsonView::Object(
        metadata_fields(
            i.database,
            join_text(filter_parts(i.schema, None), " && "@),
            Some(CANDIDATE_FETCH_LIMIT as nat),
        ),
    )
}

/// The schemas that the matches stand in.
pub open spec fn schemas_of(matches: Seq<(Seq<char>, TableMetadataView)>) -> Seq<Seq<char>> {
    Seq::new(matches.len(), |i: int| matches[i].0)
}

/// What comes after the metadata: the whole database at its level, or the one
/// table that has the name in full detail.
pub open spec fn after_metadata(
    i: InspectionView,
    metadata: Seq<SchemaMetadataView>,
) -> SchemaActionView {
    match i.table {
        None => SchemaActionView::Finish(
            JsonView::Object(
                output_members(
                    SchemaOutputView {
                        database: i.database,
                        engine: i.engine,
                        schemas: sections_of(metadata, i.level),
                        table: None,
                    },
                ),
            ),
        ),
        Some(table) => {
            let matches = tables_named(metadata, table);
            if matches.len() == 0 {
                SchemaActionView::Lookup(lookup_fields(i))
            } else if matches.len() == 1 {
                SchemaActionView::Finish(
                    JsonView::Object(
                        output_members(
                            SchemaOutputView {
                                database: i.database,
                                engine: i.engine,
                                schemas: Seq::empty(),
                                table: Some(table_entry(matches[0].1, Include::Details)),
                            },
                        ),
                    ),
                )
            } else {
                SchemaActionView::Fail(ambiguous_table(table, i.database, schemas_of(matches)))
            }
        },
    }
}

/// The refusal of a table that no schema has, given what the search for
/// candidates found, if it did not fail.
pub open spec fn missed(
    i: InspectionView,
    found: Option<Seq<SchemaMetadataView>>,
) -> ToolErrorView {
    table_not_found(
        i.table->0,
        i.database,
        match found {
            Some(metadata) => candidates_of(metadata, i.table->0),
            None => Seq::empty(),
        },
    )
}

/// What an inspection ends in, given the metadata and, for where it comes to
/// that, what the search for candidates found.
pub open spec fn outcome(
    i: InspectionView,
    metadata: Seq<SchemaMetadataView>,
    found: Option<Seq<SchemaMetadataView>>,
) -> Result<JsonView, ToolErrorView> {
    match after_metadata(i, metadata) {
        SchemaActionView::Finish(output) => Ok(output),
        SchemaActionView::Fail(e) => Err(e),
        SchemaActionView::Lookup(_) => Err(missed(i, found)),
    }
}

impl Inspection {
    /// Begins an inspection. Where a schema was named that the engine cannot
    /// have, a note says that it is ignored.
    pub fn start(
        resolved: &Resolved,
        schema: Option<&str>,
        table: Option<&str>,
        level: Option<Include>,
    ) -> (r: (Inspection, Option<String>))
        ensures
            r.0@ == inspection_of(resolved@, opt_view(schema), opt_view(table), level),
            opt_view(r.1) == if given(opt_view(schema)) is Some && !has_schemas(resolved@.engine) {
                Some(ignored_note(resolved@.engine))
            } else {
                None
            },
    {
        let named = nonempty(schema);
        let supported = engine_supports_schemas(resolved.engine.as_str());
        let note = if named.is_some() && !supported {
            let mut note = "note: --schema ignored — ".to_owned();
            if resolved.engine.as_str().is_empty() {
                note.append("this engine");
            } else {
                note.append(resolved.engine.as_str());
            }
            note.append(" does not use named schemas");
            Some(note)
        } else {
            None
        };
        let run = Inspection {
            database: resolved.name.clone(),
            engine: resolved.engine.clone(),
            schema: if supported {
                owned(named)
            } else {
                None
            },
            table: owned(table),
            level: resolve_include(level, table),
        };
        (run, note)
    }

    /// The fields of the request for the metadata.
    pub fn request(&self) -> (r: Json)
        ensures
            r@ == first_fields(self@),
    {
        let filter = build_metadata_filter(borrowed(&self.schema), borrowed(&self.table));
        metadata_args(
            self.database.as_str(),
            filter.as_str(),
            limit_for_include(self.level, borrowed(&self.table)),
        )
    }

    /// Takes the metadata and says what comes next.
    pub fn answered(&self, metadata: &DatabaseMetadata) -> (r: SchemaAction)
        ensures
            r@ == after_metadata(self@, metadata@),
    {
        match &self.table {
            None => {
                let output = SchemaOutput {
                    database: self.database.clone(),
                    engine: self.engine.clone(),
                    schemas: transform_schemas(metadata, self.level),
                    table: None,
                };
                SchemaAction::Finish(output.to_json())
            },
            Some(table) => {
                let matches = find_table_matches(metadata, table.as_str());
                if matches.len() == 0 {
                    let filter = build_metadata_filter(borrowed(&self.schema), None);
                    SchemaAction::Lookup(
                        metadata_args(
                            self.database.as_str(),
                            filter.as_str(),
                            Some(CANDIDATE_FETCH_LIMIT),
                        ),
                    )
                } else if matches.len() == 1 {
                    let ghost found = views(matches@);
                    let (_, one): (&str, &TableMetadata) = matches[0];
                    proof {
                        assert(found[0].1 == one@);
                    }
                    let output = SchemaOutput {
                        database: self.database.clone(),
                        engine: self.engine.clone(),
                        schemas: Vec::new(),
                        table: Some(build_table_entry(one, Include::Details)),
                    };
                    proof {
                        assert(output@.schemas =~= Seq::<SchemaSectionView>::empty());
                    }
                    SchemaAction::Finish(output.to_json())
                } else {
                    let ghost found = views(matches@);
                    let mut schemas: Vec<String> = Vec::new();
                    let mut i: usize = 0;
                    while i < matches.len()
                        invariant
                            i <= matches@.len(),
                            found == views(matches@),
                            schemas@.len() == i,
                            forall|k: int| 0 <= k < i ==> (#[trigger] schemas@[k])@ == found[k].0,
                        decreases matches.len() - i,
                    {
                        let (schema, _): (&str, &TableMetadata) = matches[i];
                        schemas.push(schema.to_owned());
                        i += 1;
                    }
                    proof {
                        assert(views(schemas@) =~= schemas_of(found));
                    }
                    SchemaAction::Fail(
                        ambiguous_table_error(table.as_str(), self.database.as_str(), &schemas),
                    )
                }
            },
        }
    }

    /// The refusal after the search for candidates. Where that failed too,
    /// there are none; the refusal stays the same otherwise.
    pub fn refused(&self, found: Option<&DatabaseMetadata>) -> (r: ToolError)
        requires
            self@.table is Some,
        ensures
            r@ == missed(
                self@,
                match found {
                    Some(metadata) => Some(metadata@),
                    None => None,
                },
            ),
    {
        match &self.table {
            Some(table) => {
                let candidates: Vec<String> = match found {
                    Some(metadata) => collect_candidates(metadata, table.as_str()),
                    None => Vec::new(),
                };
                proof {
                    if found is None {
                        assert(views(candidates@) =~= Seq::<Seq<char>>::empty());
                    }
                }
                table_not_found_error(table.as_str(), self.database.as_str(), &candidates)
            },
            None => tool_error("TABLE_NOT_FOUND", "no table was named"),
        }
    }
}

// ---- laws ----

/// Tables, views, indexes, foreign keys and schemas come out in the order of
/// their names, and none is added or lost on the way.
pub proof fn law_schemas_come_out_sorted(metadata: Seq<SchemaMetadataView>, level: Include, k: int)
    ensures
        in_order(sections_of(metadata, level), by_name::<SchemaSection>()),
        sections_of(metadata, level).to_multiset() == Seq::new(
            metadata.len(),
            |i: int| section_of(metadata[i], level),
        ).to_multiset(),
        0 <= k < metadata.len() ==> {
            let section = section_of(metadata[k], level);
            &&& in_order(section.tables, table_names())
            &&& in_order(section.views, by_name::<String>())
            &&& section.views.to_multiset() == metadata[k].views.to_multiset()
        },
{
    let all = Seq::new(metadata.len(), |i: int| section_of(metadata[i], level));
    law_sorted_in_order(all, by_name::<SchemaSection>());
    law_sorted_items(all, by_name::<SchemaSection>());
    if 0 <= k < metadata.len() {
        let s = metadata[k];
        let section = section_of(s, level);
        let key = by_name::<&TableMetadata>();
        let sorted = sorted_by(s.tables, key);
        law_sorted_in_order(s.tables, key);
        lemma_sorted_len(s.tables, key);
        law_sorted_in_order(s.views, by_name::<String>());
        law_sorted_items(s.views, by_name::<String>());
        assert forall|i: int, j: int| 0 <= i < j < section.tables.len() implies !comes_before(
            table_names()(#[trigger] section.tables[j]),
            table_names()(#[trigger] section.tables[i]),
        ) by {
            assert(section.tables[i].name == sorted[i].name);
            assert(section.tables[j].name == sorted[j].name);
            assert(!comes_before(key(sorted[j]), key(sorted[i])));
        }
    }
}

/// The name of a shown table, as a key to sort by.
pub open spec fn table_names() -> spec_fn(TableEntryView) -> Seq<char> {
    |t: TableEntryView| t.name
}

/// The same of the parts of one table.
pub proof fn law_table_comes_out_sorted(t: TableMetadataView, level: Include)
    ensures
        in_order(table_entry(t, level).indexes, by_name::<IndexEntry>()),
        in_order(table_entry(t, level).foreign_keys, by_name::<FkEntry>()),
        level is Details ==> table_entry(t, level).foreign_keys.to_multiset()
            == t.foreign_keys.to_multiset(),
        level is Details ==> table_entry(t, level).indexes.len() == t.indexes.len(),
{
    let indexes = Seq::new(t.indexes.len(), |i: int| index_entry(t.indexes[i]));
    law_sorted_in_order(indexes, by_name::<IndexEntry>());
    lemma_sorted_len(indexes, by_name::<IndexEntry>());
    law_sorted_in_order(t.foreign_keys, by_name::<FkEntry>());
    law_sorted_items(t.foreign_keys, by_name::<FkEntry>());
}

/// `truncated` is a fact: where the server hands back as many of a schema's
/// tables as it was asked for, the schema is marked truncated if and only if a
/// limit was set and there are more tables than it shows. The summary shows
/// them all.
pub proof fn law_truncated_is_exact(s: SchemaMetadataView, level: Include, total: nat)
    requires
        s.tables.len() == match limit_for(level, None) {
            Some(asked) => if total <= asked {
                total
            } else {
                asked
            },
            None => total,
        },
    ensures
        section_of(s, level).truncated <==> (!(level is Summary) && total > TABLE_LIMIT),
        section_of(s, level).truncated ==> section_of(s, level).tables.len() == TABLE_LIMIT
            && section_of(s, level).tables_shown == Some(TABLE_LIMIT as nat),
        !section_of(s, level).truncated ==> section_of(s, level).tables.len() == total
            && section_of(s, level).tables_shown is None,
{
    lemma_sorted_len(s.tables, by_name::<&TableMetadata>());
}

/// What belongs to another level is absent: columns from the summary, the count
/// of columns from the other two, and indexes, foreign keys, defaults and
/// comments of columns from everything but the details.
pub proof fn law_levels_keep_apart(t: TableMetadataView, level: Include)
    ensures
        table_entry(t, level).column_count is Some <==> level is Summary,
        level is Summary ==> table_entry(t, level).columns.len() == 0,
        !(level is Summary) ==> table_entry(t, level).columns.len() == t.columns.len(),
        !(level is Details) ==> table_entry(t, level).indexes.len() == 0 && table_entry(
            t,
            level,
        ).foreign_keys.len() == 0,
        !(level is Details) ==> forall|i: int|
            0 <= i < table_entry(t, level).columns.len() ==> (#[trigger] table_entry(
                t,
                level,
            ).columns[i]).default.len() == 0 && table_entry(t, level).columns[i].comment.len() == 0,
{
}

/// A column is a key if and only if an index flagged primary names it.
pub proof fn law_primary_key_comes_from_the_primary_index(
    indexes: Seq<IndexMetadataView>,
    column: Seq<char>,
)
    ensures
        pk_columns(indexes).contains(column) <==> exists|i: int|
            0 <= i < indexes.len() && (#[trigger] indexes[i]).primary
                && indexes[i].expressions.contains(column),
    decreases indexes.len(),
{
    if indexes.len() > 0 {
        let front = indexes.drop_last();
        let last = indexes.last();
        let before = pk_columns(front);
        law_primary_key_comes_from_the_primary_index(front, column);
        assert(indexes[indexes.len() - 1] == last);
        if exists|i: int|
            0 <= i < front.len() && (#[trigger] front[i]).primary && front[i].expressions.contains(
                column,
            ) {
            let i = choose|i: int|
                0 <= i < front.len() && (#[trigger] front[i]).primary
                    && front[i].expressions.contains(column);
            assert(indexes[i] == front[i]);
        }
        if exists|i: int|
            0 <= i < indexes.len() && (#[trigger] indexes[i]).primary
                && indexes[i].expressions.contains(column) {
            let i = choose|i: int|
                0 <= i < indexes.len() && (#[trigger] indexes[i]).primary
                    && indexes[i].expressions.contains(column);
            if i < front.len() {
                assert(front[i] == indexes[i]);
            }
        }
        if last.primary {
            let all = before + last.expressions;
            if before.contains(column) {
                let j = choose|j: int| 0 <= j < before.len() && before[j] == column;
                assert(all[j] == column);
            }
            if last.expressions.contains(column) {
                let j = choose|j: int|
                    0 <= j < last.expressions.len() && last.expressions[j] == column;
                assert(all[before.len() + j] == column);
            }
            if all.contains(column) {
                let j = choose|j: int| 0 <= j < all.len() && all[j] == column;
                if j >= before.len() {
                    assert(last.expressions[j - before.len()] == column);
                } else {
                    assert(before[j] == column);
                }
            }
        }
    }
}

/// A name in more than one schema is refused with all of them, and never picked
/// from; a name in none leads to the search for candidates.
pub proof fn law_only_a_single_table_is_shown(
    i: InspectionView,
    metadata: Seq<SchemaMetadataView>,
    table: Seq<char>,
)
    requires
        i.table == Some(table),
    ensures
        after_metadata(i, metadata) is Finish <==> tables_named(metadata, table).len() == 1,
        after_metadata(i, metadata) is Lookup <==> tables_named(metadata, table).len() == 0,
        after_metadata(i, metadata) is Fail ==> after_metadata(i, metadata)
            == SchemaActionView::Fail(
            ambiguous_table(table, i.database, schemas_of(tables_named(metadata, table))),
        ),
{
}

/// One table is shown in full detail and without the schemas; a name that no
/// schema has, or more than one, is refused under its own code.
pub proof fn law_table_is_shown_in_detail(
    i: InspectionView,
    metadata: Seq<SchemaMetadataView>,
    found: Option<Seq<SchemaMetadataView>>,
    table: Seq<char>,
)
    requires
        i.table == Some(table),
    ensures
        ({
            let matches = tables_named(metadata, table);
            let end = outcome(i, metadata, found);
            if matches.len() == 1 {
                &&& end is Ok
                &&& field(end->Ok_0, "table"@) == Some(
                    table_json(table_entry(matches[0].1, Include::Details)),
                )
                &&& field(end->Ok_0, "schemas"@) is None
            } else if matches.len() == 0 {
                end is Err && end->Err_0.code == "TABLE_NOT_FOUND"@
            } else {
                end is Err && end->Err_0.code == "AMBIGUOUS_TABLE"@
            }
        }),
{
    if tables_named(metadata, table).len() == 1 {
        let shown = table_json(table_entry(tables_named(metadata, table)[0].1, Include::Details));
        let m0 = no_members();
        let m1 = m0.push(("database"@, JsonView::Str(i.database)));
        let m2 = m1.push(("engine"@, JsonView::Str(i.engine)));
        let m3 = m2.push(("table"@, shown));
        reveal_strlit("database");
        reveal_strlit("engine");
        reveal_strlit("schemas");
        reveal_strlit("table");
        assert("database"@.len() == 8 && "engine"@.len() == 6 && "schemas"@.len() == 7
            && "table"@.len() == 5);
        lemma_member_push(m0, m1.last(), "table"@);
        lemma_member_push(m1, m2.last(), "table"@);
        lemma_member_push(m2, m3.last(), "table"@);
        lemma_member_push(m0, m1.last(), "schemas"@);
        lemma_member_push(m1, m2.last(), "schemas"@);
        lemma_member_push(m2, m3.last(), "schemas"@);
        assert(outcome(i, metadata, found)->Ok_0 == JsonView::Object(m3));
    }
}

/// Where a table is named the level does not matter: what is asked of the
/// server and what comes of its replies are the same for every level.
pub proof fn law_table_ignores_the_level(
    resolved: ResolvedView,
    schema: Option<Seq<char>>,
    table: Seq<char>,
    one: Option<Include>,
    other: Option<Include>,
    metadata: Seq<SchemaMetadataView>,
    found: Option<Seq<SchemaMetadataView>>,
)
    requires
        table.len() > 0,
    ensures
        ({
            let a = inspection_of(resolved, schema, Some(table), one);
            let b = inspection_of(resolved, schema, Some(table), other);
            &&& first_fields(a) == first_fields(b)
            &&& lookup_fields(a) == lookup_fields(b)
            &&& outcome(a, metadata, found) == outcome(b, metadata, found)
        }),
{
}

/// On an engine without schemas it makes no difference to name one: no request
/// speaks of a schema, and the same replies have the same outcome, so that
/// naming one hides no table.
pub proof fn law_schema_is_dropped_without_schemas(
    resolved: ResolvedView,
    schema: Option<Seq<char>>,
    table: Option<Seq<char>>,
    level: Option<Include>,
    metadata: Seq<SchemaMetadataView>,
    found: Option<Seq<SchemaMetadataView>>,
)
    requires
        !has_schemas(resolved.engine),
    ensures
        ({
            let a = inspection_of(resolved, schema, table, level);
            let b = inspection_of(resolved, None, table, level);
            &&& a.schema is None
            &&& first_fields(a) == first_fields(b)
            &&& lookup_fields(a) == lookup_fields(b)
            &&& outcome(a, metadata, found) == outcome(b, metadata, found)
        }),
{
}

/// An error names no more candidates than its cap, and each is a plausible
/// spelling of what was missed.
pub proof fn law_candidates_are_plausible(
    schemas: Seq<SchemaMetadataView>,
    missing: Seq<char>,
    k: int,
)
    ensures
        candidates_of(schemas, missing).len() <= CANDIDATE_CAP,
        0 <= k < candidates_of(schemas, missing).len() ==> plausible(
            candidates_of(schemas, missing)[k],
            missing,
        ),
{
    lemma_plausible_names(schemas, missing);
}

proof fn lemma_plausible_in(tables: Seq<TableMetadataView>, missing: Seq<char>)
    ensures
        forall|i: int|
            0 <= i < plausible_in(tables, missing).len() ==> plausible(
                #[trigger] plausible_in(tables, missing)[i],
                missing,
            ),
    decreases tables.len(),
{
    if tables.len() > 0 {
        let before = plausible_in(tables.drop_last(), missing);
        let all = plausible_in(tables, missing);
        lemma_plausible_in(tables.drop_last(), missing);
        assert forall|i: int| 0 <= i < all.len() implies plausible(#[trigger] all[i], missing) by {
            if i < before.len() {
                assert(all[i] == before[i]);
            }
        }
    }
}

proof fn lemma_plausible_names(schemas: Seq<SchemaMetadataView>, missing: Seq<char>)
    ensures
        forall|i: int|
            0 <= i < plausible_names(schemas, missing).len() ==> plausible(
                #[trigger] plausible_names(schemas, missing)[i],
                missing,
            ),
    decreases schemas.len(),
{
    if schemas.len() > 0 {
        let before = plausible_names(schemas.drop_last(), missing);
        let last = plausible_in(schemas.last().tables, missing);
        let all = plausible_names(schemas, missing);
        lemma_plausible_names(schemas.drop_last(), missing);
        lemma_plausible_in(schemas.last().tables, missing);
        assert forall|i: int| 0 <= i < all.len() implies plausible(#[trigger] all[i], missing) by {
            if i < before.len() {
                assert(all[i] == before[i]);
            } else {
                assert(all[i] == last[i - before.len()]);
            }
        }
    }
}

} // verus!
