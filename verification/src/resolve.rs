//! Database resolution: from a short name to the one database that it names.
//!
//! A name that fits more than one database is an error that lists every
//! candidate, never a pick: a wrong guess would run a statement against a
//! database that nobody named.

use vstd::prelude::*;
use vstd::string::StringExecFns;

use crate::json::{no_members, opt_view, Json, JsonView, Members};
use crate::numbers::{decimal, u64_text};
use crate::order::{by_name, law_sorted_texts_unique, sort_by_name, sorted_by};
use crate::text::{
    chars_of, contains_char, contains_text, has_part, join, join_text, lemma_views_push, lower_text,
    quoted, quoted_text, same_text, split, split_text, to_lowercase, views,
};

verus! {

/// A database narrowed to exactly one, with everything that the callers need to
/// build their own requests.
#[derive(Debug)]
pub struct Resolved {
    /// `instances/{instance}/databases/{database}`.
    pub name: String,
    /// `projects/{project}`, the parent of sheets, plans and issues.
    pub project: String,
    /// The engine, such as `POSTGRES`.
    pub engine: String,
    /// The data source to read from; empty if the server is to choose.
    pub data_source_id: String,
}

/// A resolved database by its texts.
pub struct ResolvedView {
    pub name: Seq<char>,
    pub project: Seq<char>,
    pub engine: Seq<char>,
    pub data_source_id: Seq<char>,
}

impl View for Resolved {
    type V = ResolvedView;

    open spec fn view(&self) -> ResolvedView {
        ResolvedView {
            name: self.name@,
            project: self.project@,
            engine: self.engine@,
            data_source_id: self.data_source_id@,
        }
    }
}

/// One database, as a listing describes it.
#[derive(Debug, Default)]
pub struct DatabaseEntry {
    pub name: String,
    pub project: String,
    pub instance_resource: InstanceResource,
}

/// The instance that a database is on.
#[derive(Debug, Default)]
pub struct InstanceResource {
    pub engine: String,
    pub data_sources: Vec<DataSource>,
}

/// One way to connect to an instance.
#[derive(Debug, Default)]
pub struct DataSource {
    pub id: String,
    /// `ADMIN` or `READ_ONLY`.
    pub kind: String,
}

/// A database entry by its texts.
pub struct DatabaseEntryView {
    pub name: Seq<char>,
    pub project: Seq<char>,
    pub instance_resource: InstanceResourceView,
}

/// An instance by its texts.
pub struct InstanceResourceView {
    pub engine: Seq<char>,
    pub data_sources: Seq<DataSourceView>,
}

/// A data source by its texts.
pub struct DataSourceView {
    pub id: Seq<char>,
    pub kind: Seq<char>,
}

impl View for DataSource {
    type V = DataSourceView;

    open spec fn view(&self) -> DataSourceView {
        DataSourceView { id: self.id@, kind: self.kind@ }
    }
}

impl View for InstanceResource {
    type V = InstanceResourceView;

    open spec fn view(&self) -> InstanceResourceView {
        InstanceResourceView { engine: self.engine@, data_sources: views(self.data_sources@) }
    }
}

impl View for DatabaseEntry {
    type V = DatabaseEntryView;

    open spec fn view(&self) -> DatabaseEntryView {
        DatabaseEntryView {
            name: self.name@,
            project: self.project@,
            instance_resource: self.instance_resource@,
        }
    }
}

// ---- refusals ----

/// A refusal that bbcli itself raises, as opposed to one that a server returns.
///
/// The code is in capitals; the codes of a server are in small letters. That is
/// how a reader tells who refused.
#[derive(Debug)]
pub struct ToolError {
    pub code: String,
    pub message: String,
}

/// A refusal by its texts.
pub struct ToolErrorView {
    pub code: Seq<char>,
    pub message: Seq<char>,
}

impl View for ToolError {
    type V = ToolErrorView;

    open spec fn view(&self) -> ToolErrorView {
        ToolErrorView { code: self.code@, message: self.message@ }
    }
}

impl ToolErrorView {
    /// The line that is shown: the code in brackets, then the message.
    pub open spec fn shown(self) -> Seq<char> {
        "["@ + self.code + "] "@ + self.message
    }
}

impl ToolError {
    /// Another one with the same texts.
    pub fn copy(&self) -> (r: ToolError)
        ensures
            r@ == self@,
    {
        ToolError { code: self.code.clone(), message: self.message.clone() }
    }

    /// The line that is shown: the code in brackets, then the message.
    pub fn to_string(&self) -> (r: String)
        ensures
            r@ == self@.shown(),
    {
        let mut s = "[".to_owned();
        s.append(self.code.as_str());
        s.append("] ");
        s.append(self.message.as_str());
        s
    }
}

/// A refusal with its code and message.
pub fn tool_error(code: &str, msg: &str) -> (r: ToolError)
    ensures
        r@ == (ToolErrorView { code: code@, message: msg@ }),
{
    ToolError { code: code.to_owned(), message: msg.to_owned() }
}

// ---- names ----

/// Whether the name is `instances/{i}/databases/{d}` with both ids nonempty.
pub open spec fn is_full_name(s: Seq<char>) -> bool {
    let parts = split_text(s, '/');
    &&& parts.len() == 4
    &&& parts[0] == "instances"@
    &&& parts[2] == "databases"@
    &&& parts[1].len() > 0
    &&& parts[3].len() > 0
}

/// The database id: the last segment of a full resource name, else the name.
pub open spec fn short_name(s: Seq<char>) -> Seq<char> {
    if is_full_name(s) {
        split_text(s, '/').last()
    } else {
        s
    }
}

/// Whether the name is exactly `instances/{i}/databases/{d}` with both ids
/// nonempty.
pub fn is_full_database_name(s: &str) -> (r: bool)
    ensures
        r == is_full_name(s@),
{
    let parts = split(s, '/');
    let ghost model = split_text(s@, '/');
    proof {
        assert(forall|i: int| 0 <= i < parts@.len() ==> #[trigger] model[i] == parts@[i]@);
    }
    parts.len() == 4 && same_text(parts[0].as_str(), "instances") && same_text(
        parts[2].as_str(),
        "databases",
    ) && !parts[1].as_str().is_empty() && !parts[3].as_str().is_empty()
}

/// The database id: the last segment of a full resource name, else the name
/// unchanged.
pub fn short_database_name(name: &str) -> (r: String)
    ensures
        r@ == short_name(name@),
{
    if is_full_database_name(name) {
        let parts = split(name, '/');
        proof {
            assert(views(parts@).last() == parts@[parts@.len() - 1]@);
        }
        parts[parts.len() - 1].clone()
    } else {
        name.to_owned()
    }
}

// ---- the filter of a listing ----

/// One character inside a CEL literal between double quotes.
pub open spec fn cel_char(c: char) -> Seq<char> {
    if c == '\\' {
        seq!['\\', '\\']
    } else if c == '"' {
        seq!['\\', '"']
    } else {
        seq![c]
    }
}

/// A text inside a CEL literal between double quotes.
pub open spec fn cel_text(s: Seq<char>) -> Seq<char>
    decreases s.len(),
{
    if s.len() == 0 {
        Seq::empty()
    } else {
        cel_text(s.drop_last()) + cel_char(s.last())
    }
}

/// Escapes a text for use inside a CEL literal between double quotes.
pub fn cel_escape(s: &str) -> (r: String)
    ensures
        r@ == cel_text(s@),
{
    let cs = chars_of(s);
    let mut r = String::new();
    let mut i: usize = 0;
    while i < cs.len()
        invariant
            i <= cs@.len(),
            cs@ == s@,
            r@ == cel_text(s@.take(i as int)),
        decreases cs.len() - i,
    {
        let c = cs[i];
        let ghost before = r@;
        proof {
            assert(s@.take(i + 1).drop_last() =~= s@.take(i as int));
        }
        if c == '\\' {
            r.push('\\');
            r.push('\\');
        } else if c == '"' {
            r.push('\\');
            r.push('"');
        } else {
            r.push(c);
        }
        proof {
            assert(r@ =~= before + cel_char(c));
        }
        i += 1;
    }
    proof {
        assert(s@.take(s@.len() as int) =~= s@);
    }
    r
}

/// A bare id in its collection; a name with a slash as it is.
pub open spec fn qualified(value: Seq<char>, collection: Seq<char>) -> Seq<char> {
    if value.contains('/') {
        value
    } else {
        collection + "/"@ + value
    }
}

/// Turns a bare id into `{collection}/{id}` and leaves a qualified name alone.
pub fn qualify(value: &str, collection: &str) -> (r: String)
    ensures
        r@ == qualified(value@, collection@),
{
    if contains_char(value, '/') {
        value.to_owned()
    } else {
        let mut s = collection.to_owned();
        s.append("/");
        s.append(value);
        s
    }
}

/// The value, unless it is absent or empty.
pub open spec fn given(v: Option<Seq<char>>) -> Option<Seq<char>> {
    match v {
        Some(s) => if s.len() > 0 {
            Some(s)
        } else {
            None
        },
        None => None,
    }
}

/// The value, unless it is absent or empty.
pub fn nonempty<'a>(v: Option<&'a str>) -> (r: Option<&'a str>)
    ensures
        opt_view(r) == given(opt_view(v)),
{
    match v {
        Some(s) => if s.is_empty() {
            None
        } else {
            Some(s)
        },
        None => None,
    }
}

/// The filter by name, and by instance and project where they are given.
pub open spec fn database_filter(
    database: Seq<char>,
    instance: Option<Seq<char>>,
    project: Option<Seq<char>>,
) -> Seq<char> {
    let by_database = "name.contains(\""@ + cel_text(database) + "\")"@;
    let by_instance = match given(instance) {
        Some(i) => by_database + " && instance == \""@ + cel_text(qualified(i, "instances"@))
            + "\""@,
        None => by_database,
    };
    match given(project) {
        Some(p) => by_instance + " && project == \""@ + cel_text(qualified(p, "projects"@)) + "\""@,
        None => by_instance,
    }
}

/// The filter of a listing: `name.contains("db")`, and a term for the instance
/// and one for the project where they are given.
pub fn build_database_filter(
    database: &str,
    instance: Option<&str>,
    project: Option<&str>,
) -> (r: String)
    ensures
        r@ == database_filter(database@, opt_view(instance), opt_view(project)),
{
    let mut s = "name.contains(\"".to_owned();
    s.append(cel_escape(database).as_str());
    s.append("\")");
    if let Some(i) = nonempty(instance) {
        s.append(" && instance == \"");
        s.append(cel_escape(qualify(i, "instances").as_str()).as_str());
        s.append("\"");
    }
    if let Some(p) = nonempty(project) {
        s.append(" && project == \"");
        s.append(cel_escape(qualify(p, "projects").as_str()).as_str());
        s.append("\"");
    }
    s
}


// ---- matching ----

/// Whether a database fits the input in one of the three tiers: by its exact
/// id, by its id whatever the case, by a part of its id whatever the case.
pub open spec fn fits(tier: int, name: Seq<char>, input: Seq<char>) -> bool {
    let short = short_name(name);
    if tier == 0 {
        short == input
    } else if tier == 1 {
        lower_text(short) == lower_text(input)
    } else {
        has_part(lower_text(short), lower_text(input))
    }
}

/// The test of a tier.
pub open spec fn tier_test(tier: int, input: Seq<char>) -> spec_fn(DatabaseEntryView) -> bool {
    |e: DatabaseEntryView| fits(tier, e.name, input)
}

/// The databases that fit in a tier, in the order of the listing.
pub open spec fn tier_hits(
    entries: Seq<DatabaseEntryView>,
    tier: int,
    input: Seq<char>,
) -> Seq<DatabaseEntryView> {
    entries.filter(tier_test(tier, input))
}

/// The databases that the input names: those of the first tier with a hit.
pub open spec fn matched(
    entries: Seq<DatabaseEntryView>,
    input: Seq<char>,
) -> Seq<DatabaseEntryView> {
    if tier_hits(entries, 0, input).len() > 0 {
        tier_hits(entries, 0, input)
    } else if tier_hits(entries, 1, input).len() > 0 {
        tier_hits(entries, 1, input)
    } else {
        tier_hits(entries, 2, input)
    }
}

/// The databases that fit in a tier.
fn hits_of_tier<'a>(entries: &'a [DatabaseEntry], tier: u8, input: &str) -> (r: Vec<
    &'a DatabaseEntry,
>)
    requires
        tier <= 2,
    ensures
        views(r@) == tier_hits(views(entries@), tier as int, input@),
{
    let lower = to_lowercase(input);
    let ghost all = views(entries@);
    let ghost test = tier_test(tier as int, input@);
    let mut r: Vec<&'a DatabaseEntry> = Vec::new();
    let mut i: usize = 0;
    proof {
        reveal(Seq::filter);
        assert(views(r@) =~= all.take(0).filter(test));
    }
    while i < entries.len()
        invariant
            i <= entries@.len(),
            tier <= 2,
            lower@ == lower_text(input@),
            all == views(entries@),
            test == tier_test(tier as int, input@),
            views(r@) == all.take(i as int).filter(test),
        decreases entries.len() - i,
    {
        let e: &'a DatabaseEntry = &entries[i];
        let short = short_database_name(e.name.as_str());
        let hit = if tier == 0 {
            same_text(short.as_str(), input)
        } else if tier == 1 {
            same_text(to_lowercase(short.as_str()).as_str(), lower.as_str())
        } else {
            contains_text(to_lowercase(short.as_str()).as_str(), lower.as_str())
        };
        proof {
            reveal(Seq::filter);
            assert(all.take(i + 1).drop_last() =~= all.take(i as int));
            assert(all.take(i + 1).last() == e@);
            lemma_views_push(r@, e);
        }
        if hit {
            r.push(e);
        }
        i += 1;
    }
    proof {
        assert(all.take(all.len() as int) =~= all);
    }
    r
}

/// The databases that the input names. An exact id wins over an id in another
/// case, and that over a part of an id, so a database named exactly what was
/// asked for is never ambiguous with one that merely contains it.
pub fn match_databases<'a>(entries: &'a [DatabaseEntry], input: &str) -> (r: Vec<&'a DatabaseEntry>)
    ensures
        views(r@) == matched(views(entries@), input@),
{
    let exact = hits_of_tier(entries, 0, input);
    if exact.len() > 0 {
        return exact;
    }
    let any_case = hits_of_tier(entries, 1, input);
    if any_case.len() > 0 {
        return any_case;
    }
    hits_of_tier(entries, 2, input)
}

/// The id of the first data source of the kind.
pub open spec fn source_of_kind(sources: Seq<DataSourceView>, kind: Seq<char>) -> Option<Seq<char>>
    decreases sources.len(),
{
    if sources.len() == 0 {
        None
    } else if sources[0].kind == kind {
        Some(sources[0].id)
    } else {
        source_of_kind(sources.skip(1), kind)
    }
}

/// The data source to read from: a read-only one before an admin one; empty if
/// there is neither.
pub open spec fn chosen_source(sources: Seq<DataSourceView>) -> Seq<char> {
    match source_of_kind(sources, "READ_ONLY"@) {
        Some(id) => id,
        None => match source_of_kind(sources, "ADMIN"@) {
            Some(id) => id,
            None => Seq::empty(),
        },
    }
}

/// The id of the first data source of the kind.
fn find_source(sources: &[DataSource], kind: &str) -> (r: Option<String>)
    ensures
        opt_view(r) == source_of_kind(views(sources@), kind@),
{
    let ghost all = views(sources@);
    let mut i: usize = 0;
    assert(all.skip(0) =~= all);
    while i < sources.len()
        invariant
            i <= sources@.len(),
            all == views(sources@),
            source_of_kind(all, kind@) == source_of_kind(all.skip(i as int), kind@),
        decreases sources.len() - i,
    {
        proof {
            assert(all.skip(i as int).skip(1) =~= all.skip(i + 1));
            assert(all.skip(i as int)[0] == sources@[i as int]@);
        }
        if same_text(sources[i].kind.as_str(), kind) {
            return Some(sources[i].id.clone());
        }
        i += 1;
    }
    None
}

/// The data source to read from: read-only first, else admin, else nothing. A
/// query should not hit the admin connection when a replica exists.
pub fn select_data_source(sources: &[DataSource]) -> (r: String)
    ensures
        r@ == chosen_source(views(sources@)),
{
    match find_source(sources, "READ_ONLY") {
        Some(id) => id,
        None => match find_source(sources, "ADMIN") {
            Some(id) => id,
            None => String::new(),
        },
    }
}

/// What the callers need of a database.
pub open spec fn resolved_of(e: DatabaseEntryView) -> ResolvedView {
    ResolvedView {
        name: e.name,
        project: e.project,
        engine: e.instance_resource.engine,
        data_source_id: chosen_source(e.instance_resource.data_sources),
    }
}

/// What the callers need of a database.
pub fn from_entry(entry: &DatabaseEntry) -> (r: Resolved)
    ensures
        r@ == resolved_of(entry@),
{
    Resolved {
        name: entry.name.clone(),
        project: entry.project.clone(),
        engine: entry.instance_resource.engine.clone(),
        data_source_id: select_data_source(entry.instance_resource.data_sources.as_slice()),
    }
}

// ---- refusing ----

/// The refusal when no database fits.
pub open spec fn not_found(
    database: Seq<char>,
    instance: Option<Seq<char>>,
    project: Option<Seq<char>>,
) -> ToolErrorView {
    let hint = if given(instance) is Some || given(project) is Some {
        "try without --instance/--project"@
    } else {
        "list them with `bbcli api DatabaseService/ListDatabases --args '{\"parent\": \"workspaces/-\"}'`"@
    };
    ToolErrorView {
        code: "DATABASE_NOT_FOUND"@,
        message: "no database matching "@ + quoted_text(database) + "\n  "@ + hint,
    }
}

/// The refusal when no database fits. It says how to see what exists.
pub fn not_found_error(database: &str, instance: Option<&str>, project: Option<&str>) -> (r:
    ToolError)
    ensures
        r@ == not_found(database@, opt_view(instance), opt_view(project)),
{
    let narrowed = nonempty(instance).is_some() || nonempty(project).is_some();
    let hint = if narrowed {
        "try without --instance/--project"
    } else {
        "list them with `bbcli api DatabaseService/ListDatabases --args '{\"parent\": \"workspaces/-\"}'`"
    };
    let mut msg = "no database matching ".to_owned();
    msg.append(quoted(database).as_str());
    msg.append("\n  ");
    msg.append(hint);
    tool_error("DATABASE_NOT_FOUND", msg.as_str())
}

/// The line of one candidate.
pub open spec fn candidate_line(e: DatabaseEntryView) -> Seq<char> {
    "  "@ + e.name + "  ("@ + e.instance_resource.engine + ", "@ + e.project + ")"@
}

/// The lines of the candidates, sorted.
pub open spec fn candidate_lines(matches: Seq<DatabaseEntryView>) -> Seq<Seq<char>> {
    sorted_by(
        Seq::new(matches.len(), |i: int| candidate_line(matches[i])),
        by_name::<String>(),
    )
}

/// The refusal when several databases fit.
pub open spec fn ambiguous(database: Seq<char>, matches: Seq<DatabaseEntryView>) -> ToolErrorView {
    ToolErrorView {
        code: "AMBIGUOUS_TARGET"@,
        message: decimal(matches.len()) + " databases match "@ + quoted_text(database)
            + "; narrow with --instance/--project or pass the full resource name:\n"@ + join_text(
            candidate_lines(matches),
            "\n"@,
        ),
    }
}

/// The refusal when several databases fit. It lists every candidate, sorted, so
/// that the same ambiguity always reads the same, and picks none.
pub fn ambiguous_error(database: &str, matches: &[&DatabaseEntry]) -> (r: ToolError)
    ensures
        r@ == ambiguous(database@, views(matches@)),
{
    let ghost all = views(matches@);
    let mut lines: Vec<String> = Vec::new();
    let mut i: usize = 0;
    while i < matches.len()
        invariant
            i <= matches@.len(),
            all == views(matches@),
            lines@.len() == i,
            forall|k: int| 0 <= k < i ==> (#[trigger] lines@[k])@ == candidate_line(all[k]),
        decreases matches.len() - i,
    {
        let e: &DatabaseEntry = matches[i];
        let mut line = "  ".to_owned();
        line.append(e.name.as_str());
        line.append("  (");
        line.append(e.instance_resource.engine.as_str());
        line.append(", ");
        line.append(e.project.as_str());
        line.append(")");
        lines.push(line);
        i += 1;
    }
    proof {
        assert(views(lines@) =~= Seq::new(all.len(), |k: int| candidate_line(all[k])));
    }
    let lines = sort_by_name(lines);
    let mut msg = u64_text(matches.len() as u64);
    msg.append(" databases match ");
    msg.append(quoted(database).as_str());
    msg.append("; narrow with --instance/--project or pass the full resource name:\n");
    msg.append(join(&lines, "\n").as_str());
    tool_error("AMBIGUOUS_TARGET", msg.as_str())
}

/// The line that says what a name was resolved to.
pub open spec fn resolved_line(database: Seq<char>, r: ResolvedView) -> Seq<char> {
    let source = if r.data_source_id.len() == 0 {
        "data source chosen server-side"@
    } else {
        "data source "@ + r.data_source_id
    };
    "resolved "@ + quoted_text(database) + " -> "@ + r.name + " ("@ + r.engine + ", "@ + r.project
        + "; "@ + source + ")"@
}

/// The line that says what a name was resolved to. An empty data source is no
/// failure, for the server then chooses one itself: the line says which it is.
pub fn resolved_note(database: &str, resolved: &Resolved) -> (r: String)
    ensures
        r@ == resolved_line(database@, resolved@),
{
    let mut s = "resolved ".to_owned();
    s.append(quoted(database).as_str());
    s.append(" -> ");
    s.append(resolved.name.as_str());
    s.append(" (");
    s.append(resolved.engine.as_str());
    s.append(", ");
    s.append(resolved.project.as_str());
    s.append("; ");
    if resolved.data_source_id.as_str().is_empty() {
        s.append("data source chosen server-side");
    } else {
        let mut source = "data source ".to_owned();
        source.append(resolved.data_source_id.as_str());
        s.append(source.as_str());
    }
    s.append(")");
    s
}

// ---- the course of a resolution ----

/// What a resolution was asked for, and what its listing has brought so far.
pub struct Resolving {
    pub database: String,
    pub instance: Option<String>,
    pub project: Option<String>,
    pub found: Vec<DatabaseEntry>,
}

/// A resolution by its texts.
pub struct ResolvingView {
    pub database: Seq<char>,
    pub instance: Option<Seq<char>>,
    pub project: Option<Seq<char>>,
    pub found: Seq<DatabaseEntryView>,
}

impl View for Resolving {
    type V = ResolvingView;

    open spec fn view(&self) -> ResolvingView {
        ResolvingView {
            database: self.database@,
            instance: opt_view(self.instance),
            project: opt_view(self.project),
            found: views(self.found@),
        }
    }
}

/// What the server has answered.
pub enum ResolveEvent {
    /// The database that was asked for by its full name.
    Database(DatabaseEntry),
    /// A page of the listing; an empty token ends it.
    Page(Vec<DatabaseEntry>, String),
}

/// An answer by its texts.
pub enum ResolveEventView {
    Database(DatabaseEntryView),
    Page(Seq<DatabaseEntryView>, Seq<char>),
}

impl View for ResolveEvent {
    type V = ResolveEventView;

    open spec fn view(&self) -> ResolveEventView {
        match *self {
            ResolveEvent::Database(e) => ResolveEventView::Database(e@),
            ResolveEvent::Page(p, t) => ResolveEventView::Page(views(p@), t@),
        }
    }
}

/// What comes next.
pub enum ResolveAction {
    /// Ask for the database by its full name, with these fields.
    Get(Json),
    /// Ask for a page of the listing, with these fields.
    List(Json),
    /// The database.
    Done(Resolved),
    /// There is not exactly one.
    Refused(ToolError),
}

/// What comes next, by its texts.
pub enum ResolveActionView {
    Get(JsonView),
    List(JsonView),
    Done(ResolvedView),
    Refused(ToolErrorView),
}

impl View for ResolveAction {
    type V = ResolveActionView;

    open spec fn view(&self) -> ResolveActionView {
        match *self {
            ResolveAction::Get(j) => ResolveActionView::Get(j@),
            ResolveAction::List(j) => ResolveActionView::List(j@),
            ResolveAction::Done(r) => ResolveActionView::Done(r@),
            ResolveAction::Refused(e) => ResolveActionView::Refused(e@),
        }
    }
}

/// The fields of a request for one page: a thousand databases of the current
/// workspace that pass the filter, from the token on.
pub open spec fn list_request(filter: Seq<char>, page_token: Seq<char>) -> JsonView {
    let members = no_members()
        .push(("parent"@, JsonView::Str("workspaces/-"@)))
        .push(("pageSize"@, JsonView::Number(1000)))
        .push(("filter"@, JsonView::Str(filter)));
    if page_token.len() == 0 {
        JsonView::Object(members)
    } else {
        JsonView::Object(members.push(("pageToken"@, JsonView::Str(page_token))))
    }
}

/// The fields of a request for one page of the listing.
pub fn list_args(filter: &str, page_token: &str) -> (r: Json)
    ensures
        r@ == list_request(filter@, page_token@),
{
    let mut m = Members::new();
    m.put("parent", Json::text("workspaces/-"));
    m.put("pageSize", Json::uint(1000));
    m.put("filter", Json::text(filter));
    if !page_token.is_empty() {
        m.put("pageToken", Json::text(page_token));
    }
    m.object()
}

/// What a complete listing amounts to: the one database that fits, or a refusal.
pub open spec fn verdict(r: ResolvingView) -> ResolveActionView {
    let hits = matched(r.found, r.database);
    if hits.len() == 0 {
        ResolveActionView::Refused(not_found(r.database, r.instance, r.project))
    } else if hits.len() == 1 {
        ResolveActionView::Done(resolved_of(hits[0]))
    } else {
        ResolveActionView::Refused(ambiguous(r.database, hits))
    }
}

/// The first action: a full name is taken at its word, anything else is listed.
pub open spec fn first_action(r: ResolvingView) -> ResolveActionView {
    if is_full_name(r.database) {
        ResolveActionView::Get(JsonView::Object(seq![("name"@, JsonView::Str(r.database))]))
    } else {
        ResolveActionView::List(
            list_request(database_filter(r.database, r.instance, r.project), Seq::empty()),
        )
    }
}

/// The resolution after an answer.
pub open spec fn after(r: ResolvingView, event: ResolveEventView) -> ResolvingView {
    match event {
        ResolveEventView::Database(_) => r,
        ResolveEventView::Page(page, _) => ResolvingView { found: r.found + page, ..r },
    }
}

/// What comes next after an answer.
pub open spec fn next_action(r: ResolvingView, event: ResolveEventView) -> ResolveActionView {
    match event {
        ResolveEventView::Database(e) => ResolveActionView::Done(resolved_of(e)),
        ResolveEventView::Page(_, token) => if token.len() > 0 {
            ResolveActionView::List(
                list_request(database_filter(r.database, r.instance, r.project), token),
            )
        } else {
            verdict(after(r, event))
        },
    }
}

/// An owned copy of an optional text.
pub fn owned(v: Option<&str>) -> (r: Option<String>)
    ensures
        opt_view(r) == opt_view(v),
{
    match v {
        Some(s) => Some(s.to_owned()),
        None => None,
    }
}

/// An optional text, borrowed.
pub fn borrowed(v: &Option<String>) -> (r: Option<&str>)
    ensures
        opt_view(r) == opt_view(*v),
{
    match v {
        Some(s) => Some(s.as_str()),
        None => None,
    }
}

impl Resolving {
    /// Begins a resolution. The instance and the project narrow the listing
    /// only: a full name is unique without them.
    pub fn start(database: &str, instance: Option<&str>, project: Option<&str>) -> (r: (
        Resolving,
        ResolveAction,
    ))
        ensures
            r.0@ == (ResolvingView {
                database: database@,
                instance: opt_view(instance),
                project: opt_view(project),
                found: Seq::empty(),
            }),
            r.1@ == first_action(r.0@),
    {
        let run = Resolving {
            database: database.to_owned(),
            instance: owned(instance),
            project: owned(project),
            found: Vec::new(),
        };
        proof {
            assert(run@.found =~= Seq::<DatabaseEntryView>::empty());
        }
        let action = if is_full_database_name(database) {
            let mut m = Members::new();
            m.put("name", Json::text(database));
            ResolveAction::Get(m.object())
        } else {
            let filter = build_database_filter(database, instance, project);
            let empty = String::new();
            ResolveAction::List(list_args(filter.as_str(), empty.as_str()))
        };
        (run, action)
    }

    /// Takes the server's answer and says what comes next.
    pub fn step(&mut self, event: ResolveEvent) -> (r: ResolveAction)
        ensures
            final(self)@ == after(old(self)@, event@),
            r@ == next_action(old(self)@, event@),
    {
        match event {
            ResolveEvent::Database(e) => ResolveAction::Done(from_entry(&e)),
            ResolveEvent::Page(page, token) => {
                let ghost before = self.found@;
                let ghost added = page@;
                let mut page = page;
                self.found.append(&mut page);
                proof {
                    assert(views(before + added) =~= views(before) + views(added));
                }
                if !token.as_str().is_empty() {
                    let filter = build_database_filter(
                        self.database.as_str(),
                        borrowed(&self.instance),
                        borrowed(&self.project),
                    );
                    return ResolveAction::List(list_args(filter.as_str(), token.as_str()));
                }
                let hits = match_databases(self.found.as_slice(), self.database.as_str());
                if hits.len() == 0 {
                    ResolveAction::Refused(
                        not_found_error(
                            self.database.as_str(),
                            borrowed(&self.instance),
                            borrowed(&self.project),
                        ),
                    )
                } else if hits.len() == 1 {
                    ResolveAction::Done(from_entry(hits[0]))
                } else {
                    ResolveAction::Refused(
                        ambiguous_error(self.database.as_str(), hits.as_slice()),
                    )
                }
            },
        }
    }
}

// ---- laws ----

/// What a CEL reader takes from behind an opening double quote: the text up to
/// the closing one, and what stands behind that; nothing if none closes it.
pub open spec fn cel_read(s: Seq<char>) -> Option<(Seq<char>, Seq<char>)>
    decreases s.len(),
{
    if s.len() == 0 {
        None
    } else if s[0] == '"' {
        Some((Seq::empty(), s.skip(1)))
    } else if s[0] == '\\' {
        if s.len() == 1 {
            None
        } else {
            match cel_read(s.skip(2)) {
                Some(r) => Some((seq![s[1]] + r.0, r.1)),
                None => None,
            }
        }
    } else {
        match cel_read(s.skip(1)) {
            Some(r) => Some((seq![s[0]] + r.0, r.1)),
            None => None,
        }
    }
}

/// Escaping goes character by character, from either end.
proof fn lemma_cel_first(s: Seq<char>)
    requires
        s.len() > 0,
    ensures
        cel_text(s) == cel_char(s[0]) + cel_text(s.skip(1)),
    decreases s.len(),
{
    reveal_with_fuel(cel_text, 2);
    if s.len() == 1 {
        assert(s.drop_last() =~= Seq::<char>::empty());
        assert(s.skip(1) =~= Seq::<char>::empty());
        assert(cel_text(s) =~= cel_char(s[0]));
        assert(cel_char(s[0]) + cel_text(s.skip(1)) =~= cel_char(s[0]));
    } else {
        lemma_cel_first(s.drop_last());
        assert(s.skip(1).drop_last() =~= s.drop_last().skip(1));
        assert(s.skip(1).last() == s.last());
        assert(cel_text(s) =~= cel_char(s[0]) + cel_text(s.skip(1)));
    }
}

/// An escaped text reads back as the text that was escaped, and ends at the
/// quote that closes it: no text can break out of its literal.
pub proof fn law_cel_reads_back(s: Seq<char>, rest: Seq<char>)
    ensures
        cel_read(cel_text(s) + seq!['"'] + rest) == Some((s, rest)),
    decreases s.len(),
{
    let whole = cel_text(s) + seq!['"'] + rest;
    if s.len() == 0 {
        assert(whole[0] == '"');
        assert(whole.skip(1) =~= rest);
        assert(s =~= Seq::<char>::empty());
    } else {
        lemma_cel_first(s);
        law_cel_reads_back(s.skip(1), rest);
        let tail = cel_text(s.skip(1)) + seq!['"'] + rest;
        assert(whole =~= cel_char(s[0]) + tail);
        assert(seq![s[0]] + s.skip(1) =~= s);
        if s[0] == '\\' || s[0] == '"' {
            assert(whole[0] == '\\');
            assert(whole[1] == s[0]);
            assert(whole.skip(2) =~= tail);
        } else {
            assert(whole[0] == s[0]);
            assert(whole.skip(1) =~= tail);
        }
    }
}

/// A text without the break is one piece.
proof fn lemma_one_piece(s: Seq<char>, c: char)
    requires
        !s.contains(c),
    ensures
        split_text(s, c) == seq![s],
    decreases s.len(),
{
    if s.len() > 0 {
        let front = s.drop_last();
        assert forall|i: int| 0 <= i < front.len() implies front[i] != c by {
            assert(s[i] == front[i]);
        }
        lemma_one_piece(front, c);
        assert(s[s.len() - 1] != c);
        assert(front.push(s.last()) =~= s);
        assert(split_text(s, c) =~= seq![s]);
    } else {
        assert(s =~= Seq::<char>::empty());
        assert(split_text(s, c) =~= seq![s]);
    }
}

/// A text behind a break is a piece of its own.
proof fn lemma_piece_behind(head: Seq<char>, s: Seq<char>, c: char)
    requires
        !s.contains(c),
    ensures
        split_text(head.push(c) + s, c) == split_text(head, c).push(s),
    decreases s.len(),
{
    let whole = head.push(c) + s;
    if s.len() == 0 {
        assert(s =~= Seq::<char>::empty());
        assert(whole =~= head.push(c));
        assert(whole.drop_last() =~= head);
        assert(split_text(whole, c) =~= split_text(head, c).push(s));
    } else {
        let front = s.drop_last();
        assert forall|i: int| 0 <= i < front.len() implies front[i] != c by {
            assert(s[i] == front[i]);
        }
        lemma_piece_behind(head, front, c);
        assert(s[s.len() - 1] != c);
        assert(whole.drop_last() =~= head.push(c) + front);
        assert(front.push(s.last()) =~= s);
        assert(split_text(whole, c) =~= split_text(head, c).push(s));
    }
}

/// A name put together from two ids without a slash is a full name, and the id
/// of its database is the one that went in.
pub proof fn law_full_name(instance: Seq<char>, database: Seq<char>)
    requires
        instance.len() > 0,
        database.len() > 0,
        !instance.contains('/'),
        !database.contains('/'),
    ensures
        is_full_name("instances/"@ + instance + "/databases/"@ + database),
        short_name("instances/"@ + instance + "/databases/"@ + database) == database,
{
    reveal_strlit("instances/");
    reveal_strlit("/databases/");
    reveal_strlit("instances");
    reveal_strlit("databases");
    let a = "instances"@;
    let b = "databases"@;
    let whole = "instances/"@ + instance + "/databases/"@ + database;
    lemma_one_piece(a, '/');
    lemma_piece_behind(a, instance, '/');
    let two = a.push('/') + instance;
    lemma_piece_behind(two, b, '/');
    let three = two.push('/') + b;
    lemma_piece_behind(three, database, '/');
    assert(whole =~= three.push('/') + database);
    assert(split_text(whole, '/') =~= seq![a, instance, b, database]);
}

/// A listing resolves to a database if and only if exactly one of those listed
/// fits, and then to that one; where several fit none is picked.
pub proof fn law_only_a_single_match_resolves(r: ResolvingView)
    ensures
        verdict(r) is Done <==> matched(r.found, r.database).len() == 1,
        verdict(r) matches ResolveActionView::Done(d) ==> exists|i: int|
            0 <= i < r.found.len() && d == resolved_of(#[trigger] r.found[i]),
        matched(r.found, r.database).len() >= 2 ==> verdict(r) == ResolveActionView::Refused(
            ambiguous(r.database, matched(r.found, r.database)),
        ),
{
    let hits = matched(r.found, r.database);
    if hits.len() == 1 {
        lemma_matched_from(r.found, r.database, 0);
    }
}

/// What a filter keeps stands in the sequence and passes the test.
proof fn lemma_kept<V>(s: Seq<V>, test: spec_fn(V) -> bool, i: int)
    requires
        0 <= i < s.filter(test).len(),
    ensures
        test(s.filter(test)[i]),
        exists|k: int| 0 <= k < s.len() && #[trigger] s[k] == s.filter(test)[i],
    decreases s.len(),
{
    reveal(Seq::filter);
    if s.len() > 0 {
        let front = s.drop_last();
        if i < front.filter(test).len() {
            lemma_kept(front, test, i);
            let k = choose|k: int| 0 <= k < front.len() && #[trigger] front[k] == front.filter(test)[i];
            assert(s[k] == front[k]);
        } else {
            assert(s[s.len() - 1] == s.filter(test)[i]);
        }
    }
}

/// What passes the test stands in what the filter keeps.
proof fn lemma_keeps<V>(s: Seq<V>, test: spec_fn(V) -> bool, k: int)
    requires
        0 <= k < s.len(),
        test(s[k]),
    ensures
        exists|i: int| 0 <= i < s.filter(test).len() && #[trigger] s.filter(test)[i] == s[k],
    decreases s.len(),
{
    reveal(Seq::filter);
    let front = s.drop_last();
    if k == s.len() - 1 {
        assert(s.filter(test)[s.filter(test).len() - 1] == s[k]);
    } else {
        lemma_keeps(front, test, k);
        let i = choose|i: int|
            0 <= i < front.filter(test).len() && #[trigger] front.filter(test)[i] == front[k];
        assert(s.filter(test)[i] == s[k]);
    }
}

proof fn lemma_matched_from(entries: Seq<DatabaseEntryView>, input: Seq<char>, i: int)
    requires
        0 <= i < matched(entries, input).len(),
    ensures
        exists|k: int| 0 <= k < entries.len() && #[trigger] entries[k] == matched(entries, input)[i],
{
    if tier_hits(entries, 0, input).len() > 0 {
        lemma_kept(entries, tier_test(0, input), i);
    } else if tier_hits(entries, 1, input).len() > 0 {
        lemma_kept(entries, tier_test(1, input), i);
    } else {
        lemma_kept(entries, tier_test(2, input), i);
    }
}

/// Where some database has exactly the id that was asked for, every match has
/// it: an id in another case, or a longer one, never makes it ambiguous.
pub proof fn law_exact_id_wins(entries: Seq<DatabaseEntryView>, input: Seq<char>, k: int, i: int)
    requires
        0 <= k < entries.len(),
        short_name(entries[k].name) == input,
        0 <= i < matched(entries, input).len(),
    ensures
        short_name(matched(entries, input)[i].name) == input,
{
    lemma_keeps(entries, tier_test(0, input), k);
    lemma_kept(entries, tier_test(0, input), i);
}

/// A database that fits in any tier is found: nothing is refused as not found
/// while something fits.
pub proof fn law_what_fits_is_found(
    entries: Seq<DatabaseEntryView>,
    input: Seq<char>,
    k: int,
    tier: int,
)
    requires
        0 <= k < entries.len(),
        0 <= tier <= 2,
        fits(tier, entries[k].name, input),
    ensures
        matched(entries, input).len() > 0,
{
    lemma_keeps(entries, tier_test(tier, input), k);
}

/// A full name is taken at its word: instance and project do not matter.
pub proof fn law_full_name_ignores_narrowing(r: ResolvingView, t: ResolvingView)
    requires
        is_full_name(r.database),
        r.database == t.database,
    ensures
        first_action(r) == first_action(t),
        first_action(r) is Get,
{
}

/// The same ambiguity reads the same, in whatever order the listing came.
pub proof fn law_ambiguity_reads_the_same(
    database: Seq<char>,
    a: Seq<DatabaseEntryView>,
    b: Seq<DatabaseEntryView>,
)
    requires
        a.to_multiset() == b.to_multiset(),
    ensures
        ambiguous(database, a) == ambiguous(database, b),
{
    let f = |e: DatabaseEntryView| candidate_line(e);
    let s = Seq::new(a.len(), |i: int| candidate_line(a[i]));
    let t = Seq::new(b.len(), |i: int| candidate_line(b[i]));
    a.to_multiset_ensures();
    b.to_multiset_ensures();
    lemma_mapped_items(a, b, f);
    assert(s =~= a.map_values(f));
    assert(t =~= b.map_values(f));
    law_sorted_texts_unique(s, t);
}

/// Two sequences of the same items, mapped, hold the same items.
proof fn lemma_mapped_items<A, B>(a: Seq<A>, b: Seq<A>, f: spec_fn(A) -> B)
    requires
        a.to_multiset() == b.to_multiset(),
    ensures
        a.map_values(f).to_multiset() == b.map_values(f).to_multiset(),
    decreases a.len(),
{
    broadcast use vstd::seq_lib::group_to_multiset_ensures;
    broadcast use vstd::multiset::group_multiset_axioms;

    if a.len() == 0 {
        assert(b.len() == 0) by {
            a.to_multiset_ensures();
            b.to_multiset_ensures();
        }
        assert(a.map_values(f) =~= b.map_values(f));
    } else {
        let x = a.last();
        a.to_multiset_ensures();
        b.to_multiset_ensures();
        assert(a.contains(x));
        assert(a.to_multiset().count(x) > 0);
        assert(b.contains(x));
        let i = b.index_of(x);
        let front = a.drop_last();
        let rest = b.remove(i);
        assert(front.push(x) =~= a);
        assert(front.to_multiset() =~= a.to_multiset().remove(x));
        assert(rest.to_multiset() =~= b.to_multiset().remove(x));
        lemma_mapped_items(front, rest, f);
        assert(a.map_values(f) =~= front.map_values(f).push(f(x)));
        assert(rest.map_values(f) =~= b.map_values(f).remove(i));
        b.map_values(f).to_multiset_ensures();
        assert(b.map_values(f).contains(f(x))) by {
            assert(b.map_values(f)[i] == f(x));
        }
        assert(b.map_values(f).to_multiset() =~= rest.map_values(f).to_multiset().insert(f(x)));
    }
}

/// A resolution after a run of pages.
pub open spec fn after_pages(
    r: ResolvingView,
    pages: Seq<(Seq<DatabaseEntryView>, Seq<char>)>,
) -> ResolvingView
    decreases pages.len(),
{
    if pages.len() == 0 {
        r
    } else {
        after(
            after_pages(r, pages.drop_last()),
            ResolveEventView::Page(pages.last().0, pages.last().1),
        )
    }
}

/// The databases of all pages, one page behind the other.
pub open spec fn all_pages(
    pages: Seq<(Seq<DatabaseEntryView>, Seq<char>)>,
) -> Seq<DatabaseEntryView>
    decreases pages.len(),
{
    if pages.len() == 0 {
        Seq::empty()
    } else {
        all_pages(pages.drop_last()) + pages.last().0
    }
}

/// Every page counts: the answer to the last page judges the databases of all
/// of them, in the order in which they came, against the same request.
pub proof fn law_pages_add_up(
    r: ResolvingView,
    pages: Seq<(Seq<DatabaseEntryView>, Seq<char>)>,
    last: Seq<DatabaseEntryView>,
)
    requires
        r.found.len() == 0,
    ensures
        next_action(
            after_pages(r, pages),
            ResolveEventView::Page(last, Seq::empty()),
        ) == verdict(ResolvingView { found: all_pages(pages) + last, ..r }),
{
    lemma_after_pages(r, pages);
    assert(after_pages(r, pages).found =~= all_pages(pages));
}

proof fn lemma_after_pages(r: ResolvingView, pages: Seq<(Seq<DatabaseEntryView>, Seq<char>)>)
    ensures
        after_pages(r, pages).found == r.found + all_pages(pages),
        after_pages(r, pages).database == r.database,
        after_pages(r, pages).instance == r.instance,
        after_pages(r, pages).project == r.project,
    decreases pages.len(),
{
    if pages.len() > 0 {
        lemma_after_pages(r, pages.drop_last());
        assert(r.found + all_pages(pages.drop_last()) + pages.last().0 =~= r.found + all_pages(
            pages,
        ));
    } else {
        assert(r.found + all_pages(pages) =~= r.found);
    }
}

} // verus!
