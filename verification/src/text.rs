//! Text: the string operations that the rest of the library is stated over.
//!
//! A string is modelled by the sequence of its characters.

use vstd::prelude::*;
use vstd::string::StrSliceExecFns;
use vstd::string::StringExecFns;

verus! {

/// `String::push`: appends one character and changes nothing else.
pub assume_specification[ String::push ](s: &mut String, c: char)
    ensures
        final(s)@ == old(s)@.push(c),
;

/// The characters of a string, in order.
pub fn chars_of(s: &str) -> (r: Vec<char>)
    ensures
        r@ == s@,
{
    let mut r: Vec<char> = Vec::new();
    for c in it: s.chars()
        invariant
            r@ == it.seq().take(it.index()),
            it.seq() == s@,
    {
        r.push(c);
        proof {
            assert(it.seq().take(it.index() + 1) =~= it.seq().take(it.index()).push(c));
        }
    }
    proof {
        assert(s@.take(s@.len() as int) =~= s@);
    }
    r
}

/// Whether two strings hold the same characters.
pub fn same_text(a: &str, b: &str) -> (r: bool)
    ensures
        r == (a@ == b@),
{
    a.to_owned() == b.to_owned()
}

/// The characters with the Unicode property `White_Space`.
pub open spec fn is_white_space(c: char) -> bool {
    ||| '\u{9}' <= c <= '\u{d}'
    ||| c == ' '
    ||| c == '\u{85}'
    ||| c == '\u{a0}'
    ||| c == '\u{1680}'
    ||| '\u{2000}' <= c <= '\u{200a}'
    ||| c == '\u{2028}'
    ||| c == '\u{2029}'
    ||| c == '\u{202f}'
    ||| c == '\u{205f}'
    ||| c == '\u{3000}'
}

/// Whether a character is white space.
pub fn white_space(c: char) -> (r: bool)
    ensures
        r == is_white_space(c),
{
    ('\u{9}' <= c && c <= '\u{d}') || c == ' ' || c == '\u{85}' || c == '\u{a0}' || c == '\u{1680}'
        || ('\u{2000}' <= c && c <= '\u{200a}') || c == '\u{2028}' || c == '\u{2029}'
        || c == '\u{202f}' || c == '\u{205f}' || c == '\u{3000}'
}


// ---- what std says of a text ----

/// The lower-case form of a text, by the Unicode rules of `str::to_lowercase`.
pub uninterp spec fn lower_text(s: Seq<char>) -> Seq<char>;

/// The text with its ASCII capitals as small letters.
pub open spec fn ascii_lower(s: Seq<char>) -> Seq<char> {
    Seq::new(
        s.len(),
        |i: int|
            if 'A' <= s[i] <= 'Z' {
                (s[i] as int + 32) as char
            } else {
                s[i]
            },
    )
}

/// Whether all characters of a text are ASCII.
pub open spec fn is_ascii_text(s: Seq<char>) -> bool {
    forall|i: int| 0 <= i < s.len() ==> (#[trigger] s[i]) <= '\u{7f}'
}

/// `str::to_lowercase`: the result depends on the text alone. Of an ASCII text
/// it changes the capitals to small letters and nothing else.
#[verifier::external_body]
pub(crate) fn to_lowercase(s: &str) -> (r: String)
    ensures
        r@ == lower_text(s@),
        is_ascii_text(s@) ==> r@ == ascii_lower(s@),
{
    s.to_lowercase()
}

/// A text between quotes, with the escapes of its `Debug` form.
pub uninterp spec fn quoted_text(s: Seq<char>) -> Seq<char>;

/// The `Debug` form of `str`: it depends on the text alone.
#[verifier::external_body]
pub(crate) fn quoted(s: &str) -> (r: String)
    ensures
        r@ == quoted_text(s@),
{
    format!("{:?}", s)
}

// ---- views of sequences ----

/// The views of the items of a sequence.
pub open spec fn views<T: View>(s: Seq<T>) -> Seq<T::V> {
    Seq::new(s.len(), |i: int| s[i]@)
}

/// Appending an item appends its view.
pub proof fn lemma_views_push<T: View>(s: Seq<T>, x: T)
    ensures
        views(s.push(x)) == views(s).push(x@),
{
    assert(views(s.push(x)) =~= views(s).push(x@));
}

// ---- trimming ----

/// `s` without its leading white space.
pub open spec fn trim_start(s: Seq<char>) -> Seq<char>
    decreases s.len(),
{
    if s.len() > 0 && is_white_space(s[0]) {
        trim_start(s.skip(1))
    } else {
        s
    }
}

/// `s` without its trailing white space.
pub open spec fn trim_end(s: Seq<char>) -> Seq<char>
    decreases s.len(),
{
    if s.len() > 0 && is_white_space(s.last()) {
        trim_end(s.drop_last())
    } else {
        s
    }
}

/// `s` without the white space at its two ends.
pub open spec fn trim_both(s: Seq<char>) -> Seq<char> {
    trim_end(trim_start(s))
}

/// `s` without its leading characters `c`.
pub open spec fn trim_start_char(s: Seq<char>, c: char) -> Seq<char>
    decreases s.len(),
{
    if s.len() > 0 && s[0] == c {
        trim_start_char(s.skip(1), c)
    } else {
        s
    }
}

/// `s` without its trailing characters `c`.
pub open spec fn trim_end_char(s: Seq<char>, c: char) -> Seq<char>
    decreases s.len(),
{
    if s.len() > 0 && s.last() == c {
        trim_end_char(s.drop_last(), c)
    } else {
        s
    }
}

/// The text without the white space at its two ends.
pub fn trim(s: &str) -> (r: &str)
    ensures
        r@ == trim_both(s@),
{
    let cs = chars_of(s);
    let n: usize = cs.len();
    let mut a: usize = 0;
    assert(s@.skip(0) =~= s@);
    while a < n && white_space(cs[a])
        invariant
            a <= n,
            n == cs@.len(),
            cs@ == s@,
            trim_start(s@) == trim_start(s@.skip(a as int)),
        decreases n - a,
    {
        proof {
            assert(s@.skip(a as int).skip(1) =~= s@.skip(a + 1));
        }
        a += 1;
    }
    let mut b: usize = n;
    assert(s@.subrange(a as int, b as int) =~= s@.skip(a as int));
    while b > a && white_space(cs[b - 1])
        invariant
            a <= b <= n,
            n == cs@.len(),
            cs@ == s@,
            trim_start(s@) == s@.skip(a as int),
            trim_end(s@.skip(a as int)) == trim_end(s@.subrange(a as int, b as int)),
        decreases b,
    {
        proof {
            assert(s@.subrange(a as int, b as int).drop_last() =~= s@.subrange(a as int, b - 1));
        }
        b -= 1;
    }
    s.substring_char(a, b)
}

/// The text without its leading characters `c`.
pub fn trim_leading(s: &str, c: char) -> (r: &str)
    ensures
        r@ == trim_start_char(s@, c),
{
    let cs = chars_of(s);
    let n: usize = cs.len();
    let mut a: usize = 0;
    assert(s@.skip(0) =~= s@);
    while a < n && cs[a] == c
        invariant
            a <= n,
            n == cs@.len(),
            cs@ == s@,
            trim_start_char(s@, c) == trim_start_char(s@.skip(a as int), c),
        decreases n - a,
    {
        proof {
            assert(s@.skip(a as int).skip(1) =~= s@.skip(a + 1));
        }
        a += 1;
    }
    assert(s@.subrange(a as int, n as int) =~= s@.skip(a as int));
    s.substring_char(a, n)
}

/// The text without its trailing characters `c`.
pub fn trim_trailing(s: &str, c: char) -> (r: &str)
    ensures
        r@ == trim_end_char(s@, c),
{
    let cs = chars_of(s);
    let mut b: usize = cs.len();
    assert(s@.take(b as int) =~= s@);
    while b > 0 && cs[b - 1] == c
        invariant
            b <= cs@.len(),
            cs@ == s@,
            trim_end_char(s@, c) == trim_end_char(s@.take(b as int), c),
        decreases b,
    {
        proof {
            assert(s@.take(b as int).drop_last() =~= s@.take(b - 1));
        }
        b -= 1;
    }
    assert(s@.subrange(0, b as int) =~= s@.take(b as int));
    s.substring_char(0, b)
}

// ---- prefixes, suffixes, substrings ----

/// Whether `s` begins with `prefix`.
pub open spec fn has_prefix(s: Seq<char>, prefix: Seq<char>) -> bool {
    prefix.len() <= s.len() && s.take(prefix.len() as int) == prefix
}

/// Whether `s` ends with the character `c`.
pub open spec fn ends_with_char(s: Seq<char>, c: char) -> bool {
    s.len() > 0 && s.last() == c
}

/// Whether `part` stands in `s` at `at`.
pub open spec fn stands_at(s: Seq<char>, part: Seq<char>, at: int) -> bool {
    0 <= at && at + part.len() <= s.len() && s.subrange(at, at + part.len()) == part
}

/// Whether `part` stands anywhere in `s`.
pub open spec fn has_part(s: Seq<char>, part: Seq<char>) -> bool {
    exists|at: int| stands_at(s, part, at)
}

/// Whether the characters of `part` stand in `cs` at `at`.
fn chars_stand_at(cs: &Vec<char>, part: &Vec<char>, at: usize) -> (r: bool)
    requires
        at + part@.len() <= cs@.len(),
    ensures
        r == stands_at(cs@, part@, at as int),
{
    let n: usize = cs.len();
    let mut i: usize = 0;
    while i < part.len()
        invariant
            i <= part@.len(),
            n == cs@.len(),
            at + part@.len() <= n,
            forall|k: int| 0 <= k < i ==> cs@[at + k] == #[trigger] part@[k],
        decreases part.len() - i,
    {
        if cs[at + i] != part[i] {
            proof {
                assert(cs@.subrange(at as int, at + part@.len())[i as int] == cs@[at + i]);
            }
            return false;
        }
        i += 1;
    }
    assert(cs@.subrange(at as int, at + part@.len()) =~= part@);
    true
}

/// What follows `prefix` in `s`; `None` if `s` does not begin with it.
pub fn strip_prefix<'a>(s: &'a str, prefix: &str) -> (r: Option<&'a str>)
    ensures
        r is Some <==> has_prefix(s@, prefix@),
        r is Some ==> r->0@ == s@.skip(prefix@.len() as int),
{
    let cs = chars_of(s);
    let ps = chars_of(prefix);
    if ps.len() > cs.len() {
        return None;
    }
    assert(s@.take(prefix@.len() as int) =~= s@.subrange(0, prefix@.len() as int));
    if chars_stand_at(&cs, &ps, 0) {
        assert(s@.subrange(prefix@.len() as int, s@.len() as int) =~= s@.skip(prefix@.len() as int));
        Some(s.substring_char(ps.len(), cs.len()))
    } else {
        None
    }
}

/// `s` without a last character `c`; `s` itself if it does not end with it.
pub open spec fn without_last(s: Seq<char>, c: char) -> Seq<char> {
    if ends_with_char(s, c) {
        s.drop_last()
    } else {
        s
    }
}

/// The text without a last character `c`, if it ends with it.
pub fn strip_last(s: &str, c: char) -> (r: &str)
    ensures
        r@ == without_last(s@, c),
{
    let cs = chars_of(s);
    let n: usize = cs.len();
    if n > 0 && cs[n - 1] == c {
        assert(s@.subrange(0, n - 1) =~= s@.drop_last());
        s.substring_char(0, n - 1)
    } else {
        s
    }
}

/// Whether `part` stands anywhere in `s`.
pub fn contains_text(s: &str, part: &str) -> (r: bool)
    ensures
        r == has_part(s@, part@),
{
    let cs = chars_of(s);
    let ps = chars_of(part);
    if ps.len() > cs.len() {
        return false;
    }
    let last: usize = cs.len() - ps.len();
    let mut at: usize = 0;
    while at < last
        invariant
            at <= last,
            last == cs@.len() - ps@.len(),
            cs@ == s@,
            ps@ == part@,
            forall|k: int| 0 <= k < at ==> !stands_at(s@, part@, k),
        decreases last - at,
    {
        if chars_stand_at(&cs, &ps, at) {
            return true;
        }
        at += 1;
    }
    chars_stand_at(&cs, &ps, last)
}

/// Whether the character `c` stands in `s`.
pub fn contains_char(s: &str, c: char) -> (r: bool)
    ensures
        r == s@.contains(c),
{
    for x in it: s.chars()
        invariant
            it.seq() == s@,
            forall|k: int| 0 <= k < it.index() ==> s@[k] != c,
    {
        if x == c {
            return true;
        }
    }
    false
}


// ---- splitting and joining ----

/// The pieces of `s` between the characters that `is_break` picks out: such a
/// character begins a new piece, any other extends the last piece.
pub open spec fn pieces(s: Seq<char>, is_break: spec_fn(char) -> bool) -> Seq<Seq<char>>
    decreases s.len(),
{
    if s.len() == 0 {
        seq![Seq::empty()]
    } else {
        let before = pieces(s.drop_last(), is_break);
        if is_break(s.last()) {
            before.push(Seq::empty())
        } else {
            before.drop_last().push(before.last().push(s.last()))
        }
    }
}

/// The test for one separator.
pub open spec fn is_char(c: char) -> spec_fn(char) -> bool {
    |x: char| x == c
}

/// The test for white space.
pub open spec fn is_blank() -> spec_fn(char) -> bool {
    |x: char| is_white_space(x)
}

/// The pieces of `s` between the separators `c`.
pub open spec fn split_text(s: Seq<char>, c: char) -> Seq<Seq<char>> {
    pieces(s, is_char(c))
}

/// There is always a piece, if only an empty one.
pub proof fn lemma_pieces_nonempty(s: Seq<char>, is_break: spec_fn(char) -> bool)
    ensures
        pieces(s, is_break).len() > 0,
    decreases s.len(),
{
    if s.len() > 0 {
        lemma_pieces_nonempty(s.drop_last(), is_break);
    }
}

/// The pieces of the text between the separators `c`.
pub fn split(s: &str, c: char) -> (r: Vec<String>)
    ensures
        views(r@) == split_text(s@, c),
        r@.len() > 0,
{
    let cs = chars_of(s);
    let mut done: Vec<String> = Vec::new();
    let mut cur = String::new();
    let mut i: usize = 0;
    proof {
        assert(views(done@).push(cur@) =~= split_text(s@.take(0), c));
    }
    while i < cs.len()
        invariant
            i <= cs@.len(),
            cs@ == s@,
            views(done@).push(cur@) == split_text(s@.take(i as int), c),
        decreases cs.len() - i,
    {
        let x = cs[i];
        proof {
            assert(s@.take(i + 1).drop_last() =~= s@.take(i as int));
            assert(views(done@).push(cur@).drop_last() =~= views(done@));
        }
        if x == c {
            proof {
                lemma_views_push(done@, cur);
            }
            done.push(cur);
            cur = String::new();
        } else {
            cur.push(x);
        }
        i += 1;
    }
    proof {
        assert(s@.take(s@.len() as int) =~= s@);
        lemma_views_push(done@, cur);
    }
    done.push(cur);
    done
}

/// The nonempty pieces of `s` between its white space.
pub open spec fn words(s: Seq<char>) -> Seq<Seq<char>> {
    pieces(s, is_blank()).filter(|w: Seq<char>| w.len() > 0)
}

/// The words of the text.
pub fn split_words(s: &str) -> (r: Vec<String>)
    ensures
        views(r@) == words(s@),
{
    let cs = chars_of(s);
    let ghost f = |w: Seq<char>| w.len() > 0;
    let ghost mut all: Seq<Seq<char>> = Seq::empty();
    let mut done: Vec<String> = Vec::new();
    let mut cur = String::new();
    let mut i: usize = 0;
    proof {
        reveal(Seq::filter);
        assert(all.push(cur@) =~= pieces(s@.take(0), is_blank()));
        assert(views(done@) =~= all.filter(f));
    }
    while i < cs.len()
        invariant
            i <= cs@.len(),
            cs@ == s@,
            f == (|w: Seq<char>| w.len() > 0),
            all.push(cur@) == pieces(s@.take(i as int), is_blank()),
            views(done@) == all.filter(f),
        decreases cs.len() - i,
    {
        let x = cs[i];
        proof {
            reveal(Seq::filter);
            assert(s@.take(i + 1).drop_last() =~= s@.take(i as int));
            assert(all.push(cur@).drop_last() =~= all);
        }
        if white_space(x) {
            proof {
                lemma_views_push(done@, cur);
                all = all.push(cur@);
            }
            if !cur.as_str().is_empty() {
                done.push(cur);
            }
            cur = String::new();
        } else {
            cur.push(x);
        }
        i += 1;
    }
    proof {
        reveal(Seq::filter);
        assert(s@.take(s@.len() as int) =~= s@);
        lemma_views_push(done@, cur);
        assert(all.push(cur@).drop_last() =~= all);
    }
    if !cur.as_str().is_empty() {
        done.push(cur);
    }
    done
}

/// A line without the carriage return before its line feed.
pub open spec fn line_body(s: Seq<char>) -> Seq<char> {
    without_last(s, '\r')
}

/// The lines of `s`: what stands before each line feed, without a carriage
/// return at its end, and what follows the last line feed, if anything does.
pub open spec fn line_seq(s: Seq<char>) -> Seq<Seq<char>> {
    let all = split_text(s, '\n');
    let ended = Seq::new((all.len() - 1) as nat, |i: int| line_body(all[i]));
    if all.last().len() == 0 {
        ended
    } else {
        ended.push(all.last())
    }
}

/// The lines of the text.
pub fn lines(s: &str) -> (r: Vec<String>)
    ensures
        views(r@) == line_seq(s@),
{
    let all = split(s, '\n');
    let ghost model = split_text(s@, '\n');
    let n: usize = all.len();
    let mut r: Vec<String> = Vec::new();
    let mut i: usize = 0;
    while i + 1 < n
        invariant
            0 <= i < n,
            n == all@.len(),
            views(all@) == model,
            r@.len() == i,
            forall|k: int| 0 <= k < i ==> (#[trigger] r@[k])@ == line_body(model[k]),
        decreases n - i,
    {
        let body = strip_last(all[i].as_str(), '\r').to_owned();
        proof {
            assert(views(all@)[i as int] == all@[i as int]@);
        }
        r.push(body);
        i += 1;
    }
    let ghost ended = Seq::new((model.len() - 1) as nat, |k: int| line_body(model[k]));
    proof {
        assert(views(all@)[n - 1] == all@[n - 1]@);
        assert(views(r@) =~= ended);
    }
    if !all[n - 1].as_str().is_empty() {
        proof {
            lemma_views_push(r@, all@[n - 1]);
        }
        r.push(all[n - 1].clone());
    }
    r
}

/// The parts in order, `sep` between each two.
pub open spec fn join_text(parts: Seq<Seq<char>>, sep: Seq<char>) -> Seq<char>
    decreases parts.len(),
{
    if parts.len() == 0 {
        Seq::empty()
    } else if parts.len() == 1 {
        parts[0]
    } else {
        join_text(parts.drop_last(), sep) + sep + parts.last()
    }
}

/// The parts in order, `sep` between each two.
pub fn join(parts: &Vec<String>, sep: &str) -> (r: String)
    ensures
        r@ == join_text(views(parts@), sep@),
{
    let mut r = String::new();
    let mut i: usize = 0;
    while i < parts.len()
        invariant
            i <= parts@.len(),
            r@ == join_text(views(parts@).take(i as int), sep@),
        decreases parts.len() - i,
    {
        proof {
            assert(views(parts@).take(i + 1).drop_last() =~= views(parts@).take(i as int));
            assert(views(parts@).take(i + 1).last() == parts@[i as int]@);
            assert(Seq::<char>::empty() + parts@[i as int]@ =~= parts@[i as int]@);
        }
        if i > 0 {
            r.append(sep);
        }
        r.append(parts[i].as_str());
        i += 1;
    }
    proof {
        assert(views(parts@).take(parts@.len() as int) =~= views(parts@));
    }
    r
}

// ---- what stands in a text ----

/// The parts of a joined text stand in it.
pub proof fn lemma_joined_part(parts: Seq<Seq<char>>, sep: Seq<char>, k: int)
    requires
        0 <= k < parts.len(),
    ensures
        has_part(join_text(parts, sep), parts[k]),
    decreases parts.len(),
{
    let whole = join_text(parts, sep);
    if parts.len() == 1 {
        assert(stands_at(whole, parts[0], 0)) by {
            assert(whole.subrange(0, parts[0].len() as int) =~= parts[0]);
        }
    } else {
        let front = join_text(parts.drop_last(), sep);
        if k == parts.len() - 1 {
            lemma_part_behind(front + sep, parts[k], Seq::empty());
            assert(front + sep + parts[k] + Seq::<char>::empty() =~= whole);
        } else {
            lemma_joined_part(parts.drop_last(), sep, k);
            lemma_part_stays(Seq::empty(), front, sep + parts.last(), parts[k]);
            assert(Seq::<char>::empty() + front + (sep + parts.last()) =~= whole);
        }
    }
}

/// A text stands in every text put together around it.
pub proof fn lemma_part_behind(before: Seq<char>, part: Seq<char>, behind: Seq<char>)
    ensures
        has_part(before + part + behind, part),
{
    let whole = before + part + behind;
    let at = before.len() as int;
    assert(whole.subrange(at, at + part.len()) =~= part);
    assert(stands_at(whole, part, at));
}

/// What stands in a text stands in every text put together around that one.
pub proof fn lemma_part_stays(before: Seq<char>, s: Seq<char>, behind: Seq<char>, part: Seq<char>)
    requires
        has_part(s, part),
    ensures
        has_part(before + s + behind, part),
{
    let k = choose|k: int| stands_at(s, part, k);
    let whole = before + s + behind;
    let at = before.len() + k;
    assert(whole.subrange(at, at + part.len()) =~= s.subrange(k, k + part.len()));
    assert(stands_at(whole, part, at));
}

} // verus!
