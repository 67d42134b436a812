//! Laws of the resolution of a name: from the server's listing to the one
//! database that is meant, or to a refusal.

use vstd::prelude::*;

use crate::json::{field, lemma_member_push, member, no_members, str_field, JsonView};
use crate::laws::texts::{law_joining, law_splitting, law_standing_in};
use crate::numbers::decimal;
use crate::order::{by_name, comes_before, law_sorted_in_order, law_sorted_items};
use crate::resolve::{
    ambiguous, candidate_line, candidate_lines, cel_read, cel_text, chosen_source, database_filter,
    first_action, given, is_full_name, law_cel_reads_back, law_full_name, list_request, matched,
    next_action, not_found, qualified, resolved_line, resolved_of, short_name, source_of_kind,
    tier_test, verdict, DataSourceView, DatabaseEntry, DatabaseEntryView, ResolveActionView,
    ResolveEventView, Resolved, ResolvedView, ResolvingView, ToolErrorView,
};
use crate::text::{
    has_part, has_prefix, join_text, lemma_joined_part, lemma_part_behind, lemma_part_stays, lower_text,
    quoted_text, split_text,
};

verus! {

// ---- the data source ----

proof fn lemma_first_of_kind(sources: Seq<DataSourceView>, kind: Seq<char>)
    ensures
        match source_of_kind(sources, kind) {
            Some(id) => exists|i: int|
                0 <= i < sources.len() && (#[trigger] sources[i]).kind == kind && sources[i].id
                    == id && forall|j: int| 0 <= j < i ==> (#[trigger] sources[j]).kind != kind,
            None => forall|i: int|
                0 <= i < sources.len() ==> (#[trigger] sources[i]).kind != kind,
        },
    decreases sources.len(),
{
    if sources.len() > 0 && sources[0].kind != kind {
        let rest = sources.skip(1);
        lemma_first_of_kind(rest, kind);
        match source_of_kind(rest, kind) {
            Some(id) => {
                let i = choose|i: int|
                    0 <= i < rest.len() && (#[trigger] rest[i]).kind == kind && rest[i].id == id
                        && forall|j: int| 0 <= j < i ==> (#[trigger] rest[j]).kind != kind;
                assert(sources[i + 1] == rest[i]);
                assert forall|j: int| 0 <= j < i + 1 implies (#[trigger] sources[j]).kind
                    != kind by {
                    if j > 0 {
                        assert(rest[j - 1] == sources[j]);
                    }
                }
            },
            None => {
                assert forall|i: int| 0 <= i < sources.len() implies (#[trigger] sources[i]).kind
                    != kind by {
                    if i > 0 {
                        assert(rest[i - 1] == sources[i]);
                    }
                }
            },
        }
    }
}

/// A data source for reading is preferred wherever it stands in the list: the
/// first of that kind is chosen. Only where there is none is it the first for
/// administration, and only where there is neither is it left to the server.
pub proof fn law_reading_source_is_preferred(sources: Seq<DataSourceView>, i: int)
    ensures
        0 <= i < sources.len() && sources[i].kind == "READ_ONLY"@ && (forall|j: int|
            0 <= j < i ==> (#[trigger] sources[j]).kind != "READ_ONLY"@) ==> chosen_source(sources)
            == sources[i].id,
        0 <= i < sources.len() && sources[i].kind == "ADMIN"@ && (forall|j: int|
            0 <= j < i ==> (#[trigger] sources[j]).kind != "ADMIN"@) && (forall|j: int|
            0 <= j < sources.len() ==> (#[trigger] sources[j]).kind != "READ_ONLY"@)
            ==> chosen_source(sources) == sources[i].id,
        (forall|j: int|
            0 <= j < sources.len() ==> (#[trigger] sources[j]).kind != "READ_ONLY"@
                && sources[j].kind != "ADMIN"@) ==> chosen_source(sources).len() == 0,
{
    lemma_first_of_kind(sources, "READ_ONLY"@);
    lemma_first_of_kind(sources, "ADMIN"@);
}

/// What a name resolves to is told by the server's entry alone: its name, its
/// project and its engine as they stand there, and its data source.
pub proof fn law_entry_is_taken_over(r: ResolvingView, e: DatabaseEntryView, token: Seq<char>)
    ensures
        next_action(r, ResolveEventView::Database(e)) matches ResolveActionView::Done(d) && {
            &&& d.name == e.name
            &&& d.project == e.project
            &&& d.engine == e.instance_resource.engine
            &&& d.data_source_id == chosen_source(e.instance_resource.data_sources)
        },
        verdict(r) matches ResolveActionView::Done(d) ==> exists|k: int|
            0 <= k < r.found.len() && (#[trigger] r.found[k]).name == d.name && r.found[k].project
                == d.project && r.found[k].instance_resource.engine == d.engine && d.data_source_id
                == chosen_source(r.found[k].instance_resource.data_sources),
{
    crate::resolve::law_only_a_single_match_resolves(r);
    if verdict(r) is Done {
        let d = verdict(r)->Done_0;
        let k = choose|k: int| 0 <= k < r.found.len() && d == resolved_of(#[trigger] r.found[k]);
        assert(r.found[k].name == d.name);
    }
}

// ---- names ----

/// Four texts with slashes between them.
proof fn lemma_four(a: Seq<char>, b: Seq<char>, c: Seq<char>, d: Seq<char>, sep: Seq<char>)
    ensures
        join_text(seq![a, b, c, d], sep) == a + sep + (b + sep + (c + sep + d)),
{
    let (p1, p2) = (seq![a], seq![b, c, d]);
    assert(seq![a, b, c, d] =~= p1 + p2);
    law_joining(p1, p2, sep);
    let (q1, q2) = (seq![b], seq![c, d]);
    assert(p2 =~= q1 + q2);
    law_joining(q1, q2, sep);
    let (r1, r2) = (seq![c], seq![d]);
    assert(q2 =~= r1 + r2);
    law_joining(r1, r2, sep);
    assert(join_text(r2, sep) == d);
}

proof fn lemma_full_name_form(i: Seq<char>, d: Seq<char>)
    ensures
        "instances"@ + seq!['/'] + (i + seq!['/'] + ("databases"@ + seq!['/'] + d))
            == "instances/"@ + i + "/databases/"@ + d,
{
    reveal_strlit("instances");
    reveal_strlit("databases");
    reveal_strlit("instances/");
    reveal_strlit("/databases/");
    let c = seq!['/'];
    assert("instances"@ + c =~= "instances/"@);
    assert(c + "databases"@ + c =~= "/databases/"@);
    assert("instances"@ + c + (i + c + ("databases"@ + c + d)) =~= ("instances"@ + c) + i + (c
        + "databases"@ + c) + d);
}

/// A full name is `instances/`, an instance, `/databases/` and a database, where
/// neither of the two is empty or holds a slash; nothing else is.
pub proof fn law_full_names(s: Seq<char>)
    ensures
        is_full_name(s) <==> exists|i: Seq<char>, d: Seq<char>|
            i.len() > 0 && d.len() > 0 && !i.contains('/') && !d.contains('/') && s
                == #[trigger] ("instances/"@ + i + "/databases/"@ + d),
        !is_full_name(s) ==> short_name(s) == s,
{
    if is_full_name(s) {
        law_splitting(s, '/');
        let parts = split_text(s, '/');
        let (i, d) = (parts[1], parts[3]);
        assert(!i.contains('/') && !d.contains('/'));
        lemma_four("instances"@, i, "databases"@, d, seq!['/']);
        assert(parts =~= seq!["instances"@, i, "databases"@, d]);
        lemma_full_name_form(i, d);
        assert(s == "instances/"@ + i + "/databases/"@ + d);
    }
    if exists|i: Seq<char>, d: Seq<char>|
        i.len() > 0 && d.len() > 0 && !i.contains('/') && !d.contains('/') && s == #[trigger] (
        "instances/"@ + i + "/databases/"@ + d) {
        let (i, d) = choose|i: Seq<char>, d: Seq<char>|
            i.len() > 0 && d.len() > 0 && !i.contains('/') && !d.contains('/') && s
                == #[trigger] ("instances/"@ + i + "/databases/"@ + d);
        law_full_name(i, d);
    }
}

/// An id is put under its collection; what holds a slash is a name already.
pub proof fn law_ids_are_qualified(value: Seq<char>, collection: Seq<char>)
    ensures
        !value.contains('/') ==> qualified(value, collection) == collection + "/"@ + value,
        value.contains('/') ==> qualified(value, collection) == value,
{
}

// ---- which databases match ----

proof fn lemma_some_hit(s: Seq<DatabaseEntryView>, p: spec_fn(DatabaseEntryView) -> bool)
    ensures
        s.filter(p).len() > 0 <==> exists|k: int| 0 <= k < s.len() && p(#[trigger] s[k]),
    decreases s.len(),
{
    reveal(Seq::filter);
    if s.len() > 0 {
        let front = s.drop_last();
        lemma_some_hit(front, p);
        if front.filter(p).len() > 0 {
            let k = choose|k: int| 0 <= k < front.len() && p(#[trigger] front[k]);
            assert(s[k] == front[k]);
        } else if p(s.last()) {
            assert(p(s[s.len() - 1]));
        } else {
            assert forall|k: int| 0 <= k < s.len() implies !p(#[trigger] s[k]) by {
                if k < front.len() {
                    assert(front[k] == s[k]);
                }
            }
        }
    }
}

/// The databases whose id is the input itself match; where there is none, those
/// whose id is the input in another case; where there is none either, those
/// whose id holds it in any case. All of them do, and no others, in the order of
/// the listing.
pub proof fn law_matches_are_the_closest(entries: Seq<DatabaseEntryView>, input: Seq<char>)
    ensures
        ({
            let same = |e: DatabaseEntryView| short_name(e.name) == input;
            let alike = |e: DatabaseEntryView|
                lower_text(short_name(e.name)) == lower_text(input);
            let holding = |e: DatabaseEntryView|
                has_part(lower_text(short_name(e.name)), lower_text(input));
            matched(entries, input) == if exists|k: int|
                0 <= k < entries.len() && same(#[trigger] entries[k]) {
                entries.filter(same)
            } else if exists|k: int| 0 <= k < entries.len() && alike(#[trigger] entries[k]) {
                entries.filter(alike)
            } else {
                entries.filter(holding)
            }
        }),
{
    let same = |e: DatabaseEntryView| short_name(e.name) == input;
    let alike = |e: DatabaseEntryView| lower_text(short_name(e.name)) == lower_text(input);
    let holding = |e: DatabaseEntryView|
        has_part(lower_text(short_name(e.name)), lower_text(input));
    assert(tier_test(0, input) =~= same);
    assert(tier_test(1, input) =~= alike);
    assert(tier_test(2, input) =~= holding);
    lemma_some_hit(entries, same);
    lemma_some_hit(entries, alike);
}

/// Nothing is refused as not found unless no database's id holds the input in
/// any case, and nothing as ambiguous unless more than one match.
pub proof fn law_refusals(r: ResolvingView)
    ensures
        ({
            let n = matched(r.found, r.database).len();
            &&& n == 0 <==> (verdict(r) matches ResolveActionView::Refused(e) && e.code
                == "DATABASE_NOT_FOUND"@)
            &&& n >= 2 <==> (verdict(r) matches ResolveActionView::Refused(e) && e.code
                == "AMBIGUOUS_TARGET"@)
            &&& n == 1 <==> verdict(r) == ResolveActionView::Done(
                resolved_of(matched(r.found, r.database)[0]),
            )
        }),
{
    reveal_strlit("DATABASE_NOT_FOUND");
    reveal_strlit("AMBIGUOUS_TARGET");
    assert("DATABASE_NOT_FOUND"@.len() == 18 && "AMBIGUOUS_TARGET"@.len() == 16);
}

proof fn lemma_candidate_line(e: DatabaseEntryView)
    ensures
        has_part(candidate_line(e), e.name),
        has_part(candidate_line(e), e.instance_resource.engine),
        has_part(candidate_line(e), e.project),
{
    let line = candidate_line(e);
    let engine = e.instance_resource.engine;
    lemma_part_behind("  "@, e.name, "  ("@ + engine + ", "@ + e.project + ")"@);
    assert(line =~= "  "@ + e.name + ("  ("@ + engine + ", "@ + e.project + ")"@));
    lemma_part_behind("  "@ + e.name + "  ("@, engine, ", "@ + e.project + ")"@);
    assert(line =~= "  "@ + e.name + "  ("@ + engine + (", "@ + e.project + ")"@));
    lemma_part_behind("  "@ + e.name + "  ("@ + engine + ", "@, e.project, ")"@);
}

/// Every database that matches has a line of its own, and they stand in the
/// order of the lines.
pub proof fn law_candidates_are_listed(matches: Seq<DatabaseEntryView>, k: int, a: int, b: int)
    ensures
        candidate_lines(matches).len() == matches.len(),
        0 <= k < matches.len() ==> candidate_lines(matches).contains(candidate_line(matches[k])),
        0 <= a < b < matches.len() ==> !comes_before(
            candidate_lines(matches)[b],
            candidate_lines(matches)[a],
        ),
{
    let lines = Seq::new(matches.len(), |i: int| candidate_line(matches[i]));
    let sorted = candidate_lines(matches);
    let key = by_name::<String>();
    law_sorted_items(lines, key);
    law_sorted_in_order(lines, key);
    crate::order::lemma_sorted_len(lines, key);
    lines.to_multiset_ensures();
    sorted.to_multiset_ensures();
    if 0 <= k < matches.len() {
        let line = candidate_line(matches[k]);
        assert(lines[k] == line);
        assert(lines.contains(line));
        assert(lines.to_multiset().contains(line));
    }
    if 0 <= a < b < matches.len() {
        assert(!comes_before(key(sorted[b]), key(sorted[a])));
    }
}

proof fn lemma_ambiguous_lines(database: Seq<char>, matches: Seq<DatabaseEntryView>, line: Seq<char>)
    requires
        candidate_lines(matches).contains(line),
    ensures
        has_part(ambiguous(database, matches).message, line),
{
    let sorted = candidate_lines(matches);
    let j = choose|j: int| 0 <= j < sorted.len() && sorted[j] == line;
    lemma_joined_part(sorted, "\n"@, j);
    let listed = join_text(sorted, "\n"@);
    let head = decimal(matches.len()) + " databases match "@ + quoted_text(database)
        + "; narrow with --instance/--project or pass the full resource name:\n"@;
    let none = Seq::<char>::empty();
    assert(ambiguous(database, matches).message =~= head + listed + none);
    lemma_part_stays(head, listed, none, line);
}

/// A refusal as ambiguous names every database that matches, with its engine and
/// its project, and says how many there are and of what.
pub proof fn law_ambiguity_names_every_match(
    database: Seq<char>,
    matches: Seq<DatabaseEntryView>,
    k: int,
)
    requires
        0 <= k < matches.len(),
    ensures
        ({
            let m = ambiguous(database, matches).message;
            &&& has_part(m, matches[k].name)
            &&& has_part(m, matches[k].instance_resource.engine)
            &&& has_part(m, matches[k].project)
            &&& has_part(m, quoted_text(database))
            &&& has_prefix(m, decimal(matches.len()) + " databases match "@)
        }),
{
    let m = ambiguous(database, matches).message;
    let line = candidate_line(matches[k]);
    law_candidates_are_listed(matches, k, 0, 0);
    lemma_ambiguous_lines(database, matches, line);
    lemma_candidate_line(matches[k]);
    lemma_inner(m, line, matches[k].name);
    lemma_inner(m, line, matches[k].instance_resource.engine);
    lemma_inner(m, line, matches[k].project);
    let head = decimal(matches.len()) + " databases match "@;
    let q = quoted_text(database);
    let tail = "; narrow with --instance/--project or pass the full resource name:\n"@ + join_text(
        candidate_lines(matches),
        "\n"@,
    );
    assert(m =~= head + q + tail);
    lemma_part_behind(head, q, tail);
    assert(m.take(head.len() as int) =~= head);
}

/// What stands in a part of a text stands in the text.
pub proof fn lemma_inner(s: Seq<char>, part: Seq<char>, inner: Seq<char>)
    requires
        has_part(s, part),
        has_part(part, inner),
    ensures
        has_part(s, inner),
{
    law_standing_in(s, part);
    let (a, b) = choose|a: Seq<char>, b: Seq<char>| s == #[trigger] (a + part + b);
    lemma_part_stays(a, part, b, inner);
}

/// A refusal as not found says what was looked for, and its hint is to widen
/// the search exactly where it was narrowed.
pub proof fn law_not_found_says_what_to_do(
    database: Seq<char>,
    instance: Option<Seq<char>>,
    project: Option<Seq<char>>,
)
    ensures
        ({
            let m = not_found(database, instance, project).message;
            let narrowed = (instance is Some && instance->0.len() > 0) || (project is Some
                && project->0.len() > 0);
            let widen = "try without --instance/--project"@;
            &&& has_part(m, quoted_text(database))
            &&& has_part(m, widen) || !narrowed
            &&& !narrowed ==> has_part(m, "DatabaseService/ListDatabases"@)
        }),
{
    let m = not_found(database, instance, project).message;
    let q = quoted_text(database);
    let none = Seq::<char>::empty();
    let narrowed = (instance is Some && instance->0.len() > 0) || (project is Some
        && project->0.len() > 0);
    if narrowed {
        let hint = "try without --instance/--project"@;
        lemma_part_behind("no database matching "@, q, "\n  "@ + hint);
        assert(m =~= "no database matching "@ + q + ("\n  "@ + hint));
        lemma_part_behind("no database matching "@ + q + "\n  "@, hint, none);
        assert(m =~= "no database matching "@ + q + "\n  "@ + hint + none);
    } else {
        let hint =
            "list them with `bbcli api DatabaseService/ListDatabases --args '{\"parent\": \"workspaces/-\"}'`"@;
        lemma_part_behind("no database matching "@, q, "\n  "@ + hint);
        assert(m =~= "no database matching "@ + q + ("\n  "@ + hint));
        reveal_strlit(
            "list them with `bbcli api DatabaseService/ListDatabases --args '{\"parent\": \"workspaces/-\"}'`",
        );
        reveal_strlit("DatabaseService/ListDatabases");
        let part = "DatabaseService/ListDatabases"@;
        assert(hint.subrange(26, 26 + part.len() as int) =~= part);
        assert(crate::text::stands_at(hint, part, 26));
        lemma_part_stays("no database matching "@ + q + "\n  "@, hint, none, part);
        assert(m =~= "no database matching "@ + q + "\n  "@ + hint + none);
    }
}

/// The note on a resolution holds what was asked for and all that it was
/// resolved to.
pub proof fn law_note_tells_the_resolution(database: Seq<char>, r: ResolvedView)
    ensures
        ({
            let line = resolved_line(database, r);
            &&& has_part(line, quoted_text(database))
            &&& has_part(line, r.name)
            &&& has_part(line, r.engine)
            &&& has_part(line, r.project)
            &&& r.data_source_id.len() > 0 ==> has_part(line, "data source "@ + r.data_source_id)
            &&& r.data_source_id.len() == 0 ==> has_part(line, "chosen server-side"@)
        }),
{
    let line = resolved_line(database, r);
    let q = quoted_text(database);
    let source = if r.data_source_id.len() == 0 {
        "data source chosen server-side"@
    } else {
        "data source "@ + r.data_source_id
    };
    lemma_part_behind(
        "resolved "@,
        q,
        " -> "@ + r.name + " ("@ + r.engine + ", "@ + r.project + "; "@ + source + ")"@,
    );
    assert(line =~= "resolved "@ + q + (" -> "@ + r.name + " ("@ + r.engine + ", "@ + r.project
        + "; "@ + source + ")"@));
    lemma_part_behind(
        "resolved "@ + q + " -> "@,
        r.name,
        " ("@ + r.engine + ", "@ + r.project + "; "@ + source + ")"@,
    );
    assert(line =~= "resolved "@ + q + " -> "@ + r.name + (" ("@ + r.engine + ", "@ + r.project
        + "; "@ + source + ")"@));
    lemma_part_behind(
        "resolved "@ + q + " -> "@ + r.name + " ("@,
        r.engine,
        ", "@ + r.project + "; "@ + source + ")"@,
    );
    assert(line =~= "resolved "@ + q + " -> "@ + r.name + " ("@ + r.engine + (", "@ + r.project
        + "; "@ + source + ")"@));
    lemma_part_behind(
        "resolved "@ + q + " -> "@ + r.name + " ("@ + r.engine + ", "@,
        r.project,
        "; "@ + source + ")"@,
    );
    assert(line =~= "resolved "@ + q + " -> "@ + r.name + " ("@ + r.engine + ", "@ + r.project + (
    "; "@ + source + ")"@));
    lemma_part_behind(
        "resolved "@ + q + " -> "@ + r.name + " ("@ + r.engine + ", "@ + r.project + "; "@,
        source,
        ")"@,
    );
    if r.data_source_id.len() == 0 {
        reveal_strlit("data source chosen server-side");
        reveal_strlit("chosen server-side");
        let part = "chosen server-side"@;
        assert(source.subrange(12, 12 + part.len() as int) =~= part);
        assert(crate::text::stands_at(source, part, 12));
        lemma_inner(line, source, part);
    }
}

// ---- the requests ----

/// The filter reads back as what was asked for: a name that holds the input,
/// and where they were given the instance and the project, by their full names.
pub proof fn law_filter_reads_back(
    database: Seq<char>,
    instance: Option<Seq<char>>,
    project: Option<Seq<char>>,
)
    ensures
        ({
            let by_instance = match instance {
                Some(i) => if i.len() > 0 {
                    " && instance == \""@ + cel_text(qualified(i, "instances"@)) + "\""@
                } else {
                    Seq::empty()
                },
                None => Seq::empty(),
            };
            let by_project = match project {
                Some(p) => if p.len() > 0 {
                    " && project == \""@ + cel_text(qualified(p, "projects"@)) + "\""@
                } else {
                    Seq::empty()
                },
                None => Seq::empty(),
            };
            let filter = database_filter(database, instance, project);
            let head = "name.contains(\""@;
            &&& filter.take(head.len() as int) == head
            &&& cel_read(filter.skip(head.len() as int)) == Some(
                (database, ")"@ + by_instance + by_project),
            )
        }),
{
    let by_instance = match instance {
        Some(i) => if i.len() > 0 {
            " && instance == \""@ + cel_text(qualified(i, "instances"@)) + "\""@
        } else {
            Seq::empty()
        },
        None => Seq::empty(),
    };
    let by_project = match project {
        Some(p) => if p.len() > 0 {
            " && project == \""@ + cel_text(qualified(p, "projects"@)) + "\""@
        } else {
            Seq::empty()
        },
        None => Seq::empty(),
    };
    let filter = database_filter(database, instance, project);
    let head = "name.contains(\""@;
    let rest = ")"@ + by_instance + by_project;
    reveal_strlit("\")");
    reveal_strlit(")");
    assert("\")"@ =~= seq!['"'] + ")"@);
    assert(filter =~= head + (cel_text(database) + seq!['"'] + rest));
    assert(filter.take(head.len() as int) =~= head);
    assert(filter.skip(head.len() as int) =~= cel_text(database) + seq!['"'] + rest);
    law_cel_reads_back(database, rest);
}

/// A full name is fetched by itself. Any other is looked for in the listing of
/// the whole workspace by its filter, and every page is asked for by the token
/// that the page before it gave, under the same filter.
pub proof fn law_listing_requests(
    r: ResolvingView,
    page: Seq<DatabaseEntryView>,
    token: Seq<char>,
)
    ensures
        ({
            let filter = database_filter(r.database, r.instance, r.project);
            &&& is_full_name(r.database) ==> (first_action(r) matches ResolveActionView::Get(args)
                && str_field(args, "name"@) == Some(r.database))
            &&& !is_full_name(r.database) ==> (first_action(r) matches ResolveActionView::List(args)
                && lists(args, filter) && field(args, "pageToken"@) is None)
            &&& token.len() > 0 ==> (next_action(
                r,
                ResolveEventView::Page(page, token),
            ) matches ResolveActionView::List(args) && lists(args, filter) && str_field(
                args,
                "pageToken"@,
            ) == Some(token))
            &&& token.len() == 0 ==> !(next_action(
                r,
                ResolveEventView::Page(page, token),
            ) is List)
        }),
{
    let filter = database_filter(r.database, r.instance, r.project);
    assert(seq![("name"@, JsonView::Str(r.database))][0] == ("name"@, JsonView::Str(r.database)));
    lemma_list_request(filter, Seq::empty());
    lemma_list_request(filter, token);
}

/// Whether a request lists the databases of the workspace under a filter.
pub open spec fn lists(args: JsonView, filter: Seq<char>) -> bool {
    &&& str_field(args, "parent"@) == Some("workspaces/-"@)
    &&& str_field(args, "filter"@) == Some(filter)
    &&& field(args, "pageSize"@) == Some(JsonView::Number(1000))
}

proof fn lemma_list_request(filter: Seq<char>, token: Seq<char>)
    ensures
        lists(list_request(filter, token), filter),
        str_field(list_request(filter, token), "pageToken"@) == (if token.len() > 0 {
            Some(token)
        } else {
            None
        }),
        token.len() == 0 ==> field(list_request(filter, token), "pageToken"@) is None,
{
    reveal_strlit("parent");
    reveal_strlit("pageSize");
    reveal_strlit("filter");
    reveal_strlit("pageToken");
    assert("parent"@.len() == 6 && "pageSize"@.len() == 8 && "filter"@.len() == 6
        && "pageToken"@.len() == 9);
    assert("parent"@[0] == 'p' && "filter"@[0] == 'f');
    let m0 = no_members();
    let m1 = m0.push(("parent"@, JsonView::Str("workspaces/-"@)));
    let m2 = m1.push(("pageSize"@, JsonView::Number(1000)));
    let m3 = m2.push(("filter"@, JsonView::Str(filter)));
    let m4 = m3.push(("pageToken"@, JsonView::Str(token)));
    assert forall|key: Seq<char>| #[trigger]
        member(m3, key) == (if key == "parent"@ {
        Some(JsonView::Str("workspaces/-"@))
    } else if key == "pageSize"@ {
        Some(JsonView::Number(1000))
    } else if key == "filter"@ {
        Some(JsonView::Str(filter))
    } else {
        None
    }) by {
        lemma_member_push(m0, m1.last(), key);
        lemma_member_push(m1, m2.last(), key);
        lemma_member_push(m2, m3.last(), key);
    }
    assert forall|key: Seq<char>| #[trigger]
        member(m4, key) == (if member(m3, key) is Some {
        member(m3, key)
    } else if key == "pageToken"@ {
        Some(JsonView::Str(token))
    } else {
        None
    }) by {
        lemma_member_push(m3, m4.last(), key);
    }
}

/// What the server lists is taken as it is listed, and what is handed on as it
/// was resolved.
pub proof fn law_entries_are_read_as_listed(e: DatabaseEntry, r: Resolved, k: int)
    ensures
        e@.name == e.name@ && e@.project == e.project@,
        e@.instance_resource.engine == e.instance_resource.engine@,
        e@.instance_resource.data_sources.len() == e.instance_resource.data_sources@.len(),
        0 <= k < e.instance_resource.data_sources@.len() ==> {
            let s = e@.instance_resource.data_sources[k];
            &&& s.id == e.instance_resource.data_sources@[k].id@
            &&& s.kind == e.instance_resource.data_sources@[k].kind@
        },
        r@.name == r.name@ && r@.project == r.project@ && r@.engine == r.engine@,
        r@.data_source_id == r.data_source_id@,
{
}

/// What is empty is not given, and a refusal is shown with its code first.
pub proof fn law_given_and_shown(s: Seq<char>, e: ToolErrorView)
    ensures
        given(None) is None,
        given(Some(s)) == (if s.len() > 0 {
            Some(s)
        } else {
            None
        }),
        has_prefix(e.shown(), "["@ + e.code + "] "@),
        e.shown().skip(("["@ + e.code + "] "@).len() as int) == e.message,
{
    let head = "["@ + e.code + "] "@;
    assert(e.shown().take(head.len() as int) =~= head);
    assert(e.shown().skip(head.len() as int) =~= e.message);
}

} // verus!
