//! Laws of texts: trimming, splitting, joining, numbers and order.

use vstd::prelude::*;

use crate::numbers::{decimal, digits_value, int_text, integer_value, is_digit};
use crate::order::comes_before;
use crate::text::{
    has_part, has_prefix, is_white_space, join_text, line_seq, split_text,
    stands_at, trim_both, trim_end, trim_end_char, trim_start, trim_start_char, without_last,
};

verus! {

/// White space is what Unicode calls so: of ASCII the space and the controls from
/// tab to carriage return, and else the next line, the spaces of other widths and
/// the separators; no letter, digit or sign is.
pub proof fn law_white_space(c: char)
    ensures
        c <= '\u{7f}' ==> (is_white_space(c) <==> c == ' ' || c == '\t' || c == '\n' || c == '\r'
            || c == '\u{b}' || c == '\u{c}'),
        c > '\u{7f}' ==> (is_white_space(c) <==> c == '\u{85}' || c == '\u{a0}' || c == '\u{1680}'
            || '\u{2000}' <= c <= '\u{200a}' || c == '\u{2028}' || c == '\u{2029}' || c
            == '\u{202f}' || c == '\u{205f}' || c == '\u{3000}'),
{
}

pub proof fn lemma_trim_start_at(s: Seq<char>) -> (a: int)
    ensures
        0 <= a <= s.len(),
        trim_start(s) == s.skip(a),
        forall|i: int| 0 <= i < a ==> is_white_space(#[trigger] s[i]),
        a < s.len() ==> !is_white_space(s[a]),
    decreases s.len(),
{
    if s.len() > 0 && is_white_space(s[0]) {
        let rest = s.skip(1);
        let a = lemma_trim_start_at(rest);
        assert(rest.skip(a) =~= s.skip(a + 1));
        assert forall|i: int| 0 <= i < a + 1 implies is_white_space(#[trigger] s[i]) by {
            if i > 0 {
                assert(rest[i - 1] == s[i]);
            }
        }
        a + 1
    } else {
        assert(s.skip(0) =~= s);
        0
    }
}

pub proof fn lemma_trim_end_at(s: Seq<char>) -> (b: int)
    ensures
        0 <= b <= s.len(),
        trim_end(s) == s.take(b),
        forall|i: int| b <= i < s.len() ==> is_white_space(#[trigger] s[i]),
        b > 0 ==> !is_white_space(s[b - 1]),
    decreases s.len(),
{
    if s.len() > 0 && is_white_space(s.last()) {
        let front = s.drop_last();
        let b = lemma_trim_end_at(front);
        assert(front.take(b) =~= s.take(b));
        assert forall|i: int| b <= i < s.len() implies is_white_space(#[trigger] s[i]) by {
            if i < front.len() {
                assert(front[i] == s[i]);
            }
        }
        b
    } else {
        assert(s.take(s.len() as int) =~= s);
        s.len() as int
    }
}

/// Trimming takes away the white space at both ends and nothing else: what is
/// left stands in the text, only white space stood around it, and none stands
/// at its own ends.
pub proof fn law_trimming(s: Seq<char>)
    ensures
        exists|a: int, b: int|
            0 <= a <= b <= s.len() && trim_both(s) == #[trigger] s.subrange(a, b) && (forall|i: int|
                0 <= i < s.len() && !(a <= i < b) ==> is_white_space(#[trigger] s[i])),
        trim_both(s).len() > 0 ==> !is_white_space(trim_both(s)[0]) && !is_white_space(
            trim_both(s).last(),
        ),
{
    let a = lemma_trim_start_at(s);
    let rest = s.skip(a);
    let b = lemma_trim_end_at(rest);
    assert(rest.take(b) =~= s.subrange(a, a + b));
    assert forall|i: int| 0 <= i < s.len() && !(a <= i < a + b) implies is_white_space(
        #[trigger] s[i],
    ) by {
        if i >= a + b {
            assert(rest[i - a] == s[i]);
        }
    }
    if b > 0 {
        assert(rest.take(b)[0] == s[a]);
        assert(rest.take(b).last() == rest[b - 1]);
    }
}

/// Taking a character off the start or the end takes all of it off there, and
/// nothing else.
pub proof fn law_taking_off(s: Seq<char>, c: char)
    ensures
        exists|a: int|
            0 <= a <= s.len() && trim_start_char(s, c) == #[trigger] s.skip(a) && (forall|i: int|
                0 <= i < a ==> #[trigger] s[i] == c) && (a < s.len() ==> s[a] != c),
        exists|b: int|
            0 <= b <= s.len() && trim_end_char(s, c) == #[trigger] s.take(b) && (forall|i: int|
                b <= i < s.len() ==> #[trigger] s[i] == c) && (b > 0 ==> s[b - 1] != c),
    decreases s.len(),
{
    if s.len() > 0 && s[0] == c {
        let rest = s.skip(1);
        law_taking_off(rest, c);
        let a = choose|a: int|
            0 <= a <= rest.len() && trim_start_char(rest, c) == #[trigger] rest.skip(a) && (forall|
                i: int,
            |
                0 <= i < a ==> #[trigger] rest[i] == c) && (a < rest.len() ==> rest[a] != c);
        assert(rest.skip(a) =~= s.skip(a + 1));
        assert forall|i: int| 0 <= i < a + 1 implies #[trigger] s[i] == c by {
            if i > 0 {
                assert(rest[i - 1] == s[i]);
            }
        }
    } else {
        assert(s.skip(0) =~= s);
    }
    if s.len() > 0 && s.last() == c {
        let front = s.drop_last();
        law_taking_off(front, c);
        let b = choose|b: int|
            0 <= b <= front.len() && trim_end_char(front, c) == #[trigger] front.take(b) && (forall|
                i: int,
            |
                b <= i < front.len() ==> #[trigger] front[i] == c) && (b > 0 ==> front[b - 1] != c);
        assert(front.take(b) =~= s.take(b));
        assert forall|i: int| b <= i < s.len() implies #[trigger] s[i] == c by {
            if i < front.len() {
                assert(front[i] == s[i]);
            }
        }
    } else {
        assert(s.take(s.len() as int) =~= s);
    }
}

/// A text begins with another if something put behind that one gives it, and
/// holds another if something put around that one does.
pub proof fn law_standing_in(s: Seq<char>, part: Seq<char>)
    ensures
        has_prefix(s, part) <==> exists|t: Seq<char>| s == #[trigger] (part + t),
        has_part(s, part) <==> exists|a: Seq<char>, b: Seq<char>| s == #[trigger] (a + part + b),
{
    if has_prefix(s, part) {
        assert(s =~= part + s.skip(part.len() as int));
    }
    if exists|t: Seq<char>| s == #[trigger] (part + t) {
        assert(s.take(part.len() as int) =~= part);
    }
    if has_part(s, part) {
        let at = choose|at: int| stands_at(s, part, at);
        assert(s =~= s.take(at) + part + s.skip(at + part.len()));
    }
    if exists|a: Seq<char>, b: Seq<char>| s == #[trigger] (a + part + b) {
        let (a, b) = choose|a: Seq<char>, b: Seq<char>| s == #[trigger] (a + part + b);
        assert(s.subrange(a.len() as int, (a.len() + part.len()) as int) =~= part);
        assert(stands_at(s, part, a.len() as int));
    }
}

/// The pieces between a character hold it nowhere, and put together again with
/// it between them they are the text.
pub proof fn law_splitting(s: Seq<char>, c: char)
    ensures
        split_text(s, c).len() > 0,
        forall|i: int|
            0 <= i < split_text(s, c).len() ==> !(#[trigger] split_text(s, c)[i]).contains(c),
        join_text(split_text(s, c), seq![c]) == s,
    decreases s.len(),
{
    let all = split_text(s, c);
    if s.len() == 0 {
        assert(all =~= seq![Seq::<char>::empty()]);
    } else {
        let front = s.drop_last();
        let before = split_text(front, c);
        law_splitting(front, c);
        assert(s =~= front.push(s.last()));
        if s.last() == c {
            assert(all =~= before.push(Seq::empty()));
            assert(all.drop_last() =~= before);
            assert forall|i: int| 0 <= i < all.len() implies !(#[trigger] all[i]).contains(c) by {
                if i < before.len() {
                    assert(all[i] == before[i]);
                }
            }
            assert(join_text(all, seq![c]) =~= front + seq![c] + Seq::<char>::empty());
        } else {
            let last = before.last().push(s.last());
            assert(all =~= before.drop_last().push(last));
            assert forall|i: int| 0 <= i < all.len() implies !(#[trigger] all[i]).contains(c) by {
                if i < before.len() - 1 {
                    assert(all[i] == before[i]);
                } else {
                    assert(!before[before.len() - 1].contains(c));
                    if last.contains(c) {
                        let k = choose|k: int| 0 <= k < last.len() && last[k] == c;
                        assert(k < before.last().len());
                        assert(before.last()[k] == c);
                    }
                }
            }
            assert(all.drop_last() =~= before.drop_last());
            if before.len() == 1 {
                assert(join_text(all, seq![c]) =~= front.push(s.last()));
            } else {
                assert(join_text(all, seq![c]) =~= join_text(before.drop_last(), seq![c]) + seq![c]
                    + last);
                assert(join_text(all, seq![c]) =~= join_text(before, seq![c]).push(s.last()));
            }
        }
    }
}

/// A joined text is its parts in their order with the separator between any
/// two, and nothing at its ends.
pub proof fn law_joining(parts: Seq<Seq<char>>, more: Seq<Seq<char>>, sep: Seq<char>)
    requires
        parts.len() > 0,
        more.len() > 0,
    ensures
        join_text(parts + more, sep) == join_text(parts, sep) + sep + join_text(more, sep),
        parts.len() == 1 ==> join_text(parts, sep) == parts[0],
        join_text(Seq::empty(), sep).len() == 0,
    decreases more.len(),
{
    let all = parts + more;
    assert(all.drop_last() =~= parts + more.drop_last());
    assert(all.last() == more.last());
    if more.len() == 1 {
        assert(parts + more.drop_last() =~= parts);
    } else {
        law_joining(parts, more.drop_last(), sep);
        assert(join_text(all, sep) =~= join_text(parts, sep) + sep + (join_text(
            more.drop_last(),
            sep,
        ) + sep + more.last()));
    }
}

/// The lines of a text: put together again with line feeds they are the text,
/// but for a line feed at its end and a carriage return before any.
pub proof fn law_lines(s: Seq<char>, rest: Seq<char>)
    requires
        !s.contains('\n'),
        s.len() > 0,
        s.last() != '\r',
    ensures
        line_seq(s) == seq![s],
        line_seq(s + seq!['\n'] + rest) == seq![s] + line_seq(rest),
        line_seq(s + seq!['\r', '\n'] + rest) == seq![s] + line_seq(rest),
        line_seq(seq!['\n'] + rest) == seq![Seq::<char>::empty()] + line_seq(rest),
        line_seq(Seq::empty()).len() == 0,
{
    let c = '\n';
    let none = Seq::<char>::empty();
    lemma_one_piece(s, c);
    lemma_split_behind(s, rest, c);
    let r = s.push('\r');
    assert(!r.contains(c)) by {
        if r.contains(c) {
            let k = choose|k: int| 0 <= k < r.len() && r[k] == c;
            assert(k < s.len());
            assert(s[k] == c);
        }
    }
    lemma_split_behind(r, rest, c);
    lemma_split_behind(none, rest, c);
    assert(s + seq!['\r', '\n'] + rest =~= r + seq![c] + rest);
    assert(none + seq![c] + rest =~= seq!['\n'] + rest);
    assert(r.drop_last() =~= s);
    lemma_lines_behind(s, rest);
    lemma_lines_behind(r, rest);
    lemma_lines_behind(none, rest);
    assert(line_seq(s) =~= seq![s]);
    assert(split_text(none, c) =~= seq![none]);
    assert(line_seq(none) =~= Seq::<Seq<char>>::empty());
}

pub proof fn lemma_one_piece(s: Seq<char>, c: char)
    requires
        !s.contains(c),
    ensures
        split_text(s, c) == seq![s],
    decreases s.len(),
{
    if s.len() > 0 {
        let front = s.drop_last();
        assert(!front.contains(c)) by {
            if front.contains(c) {
                let k = choose|k: int| 0 <= k < front.len() && front[k] == c;
                assert(s[k] == c);
            }
        }
        lemma_one_piece(front, c);
        assert(s[s.len() - 1] != c);
        assert(front.push(s.last()) =~= s);
        assert(split_text(s, c) =~= seq![s]);
    } else {
        assert(s =~= Seq::<char>::empty());
        assert(split_text(s, c) =~= seq![s]);
    }
}

/// What stands before the first separator is the first piece.
pub proof fn lemma_split_behind(head: Seq<char>, rest: Seq<char>, c: char)
    requires
        !head.contains(c),
    ensures
        split_text(head + seq![c] + rest, c) == seq![head] + split_text(rest, c),
    decreases rest.len(),
{
    let s = head + seq![c] + rest;
    if rest.len() == 0 {
        lemma_one_piece(head, c);
        assert(s.drop_last() =~= head);
        assert(split_text(s, c) =~= seq![head] + split_text(rest, c));
    } else {
        let front = rest.drop_last();
        lemma_split_behind(head, front, c);
        assert(s.drop_last() =~= head + seq![c] + front);
        assert(s.last() == rest.last());
        law_splitting(front, c);
        let before = split_text(front, c);
        let all = seq![head] + before;
        assert(all.last() == before.last());
        assert(all.drop_last() =~= seq![head] + before.drop_last());
        if rest.last() == c {
            assert(split_text(s, c) =~= all.push(Seq::empty()));
            assert(split_text(s, c) =~= seq![head] + split_text(rest, c));
        } else {
            assert(split_text(s, c) =~= all.drop_last().push(before.last().push(rest.last())));
            assert(split_text(s, c) =~= seq![head] + split_text(rest, c));
        }
    }
}

proof fn lemma_lines_behind(head: Seq<char>, rest: Seq<char>)
    requires
        !head.contains('\n'),
    ensures
        line_seq(head + seq!['\n'] + rest) == seq![without_last(head, '\r')] + line_seq(rest),
{
    let c = '\n';
    lemma_split_behind(head, rest, c);
    law_splitting(rest, c);
    let tail = split_text(rest, c);
    let all = seq![head] + tail;
    assert(all.last() == tail.last());
    assert(line_seq(head + seq![c] + rest) =~= seq![without_last(head, '\r')] + line_seq(rest));
}

/// A number is written by its digits: the last is what ten leaves of it, and
/// before it stands what ten goes into it, without a zero in front.
pub proof fn law_decimal(n: nat)
    ensures
        decimal(n).len() > 0,
        decimal(n).last() as int == '0' as int + n % 10,
        n >= 10 ==> decimal(n).drop_last() == decimal(n / 10),
        n < 10 ==> decimal(n).len() == 1,
        n > 0 ==> decimal(n)[0] != '0',
        forall|i: int| 0 <= i < decimal(n).len() ==> is_digit(#[trigger] decimal(n)[i]),
    decreases n,
{
    if n >= 10 {
        law_decimal(n / 10);
        assert(decimal(n).drop_last() =~= decimal(n / 10));
        assert(decimal(n)[0] == decimal(n / 10)[0]);
        assert forall|i: int| 0 <= i < decimal(n).len() implies is_digit(
            #[trigger] decimal(n)[i],
        ) by {
            if i < decimal(n / 10).len() {
                assert(decimal(n)[i] == decimal(n / 10)[i]);
            }
        }
    }
}

/// A negative number has a minus before its digits, and one that is not has
/// nothing; to read, a plus counts for nothing.
pub proof fn law_signs(n: nat)
    ensures
        int_text(n as int) == decimal(n),
        n > 0 ==> int_text(-(n as int)) == seq!['-'] + decimal(n),
        integer_value(decimal(n)) == Some(n as int),
        integer_value(seq!['-'] + decimal(n)) == Some(-(n as int)),
        integer_value(seq!['+'] + decimal(n)) == Some(n as int),
{
    law_decimal(n);
    lemma_value_of_decimal(n);
    let d = decimal(n);
    assert((seq!['-'] + d).skip(1) =~= d);
    assert((seq!['+'] + d).skip(1) =~= d);
    assert(is_digit(d[0]));
}

proof fn lemma_value_of_decimal(n: nat)
    ensures
        digits_value(decimal(n)) == n,
    decreases n,
{
    reveal_with_fuel(digits_value, 2);
    if n >= 10 {
        lemma_value_of_decimal(n / 10);
        law_decimal(n);
    } else {
        assert(decimal(n).drop_last() =~= Seq::<char>::empty());
    }
}

/// What holds a character that is no digit, or none at all, is no number.
pub proof fn law_no_number(s: Seq<char>, i: int)
    requires
        0 < i < s.len(),
        !is_digit(s[i]),
    ensures
        integer_value(s) is None,
        integer_value(Seq::empty()) is None,
        integer_value(seq!['-']) is None,
        integer_value(seq!['+']) is None,
{
    assert(s.skip(1)[i - 1] == s[i]);
    assert(seq!['-'].skip(1).len() == 0);
    assert(seq!['+'].skip(1).len() == 0);
    assert(seq!['-'][0] == '-');
    assert(seq!['+'][0] == '+');
}

/// One text comes before another where they first differ, or where the other
/// goes on behind it.
pub proof fn law_order_of_texts(a: Seq<char>, b: Seq<char>)
    ensures
        comes_before(a, b) <==> exists|k: int|
            0 <= k <= a.len() && k < b.len() && #[trigger] a.take(k) == b.take(k) && (k == a.len()
                || a[k] < b[k]),
    decreases a.len(),
{
    if comes_before(a, b) {
        if a.len() == 0 {
            assert(a.take(0) =~= b.take(0));
        } else if a[0] != b[0] {
            assert(a.take(0) =~= b.take(0));
        } else {
            let (c, d) = (a.skip(1), b.skip(1));
            law_order_of_texts(c, d);
            let k = choose|k: int|
                0 <= k <= c.len() && k < d.len() && #[trigger] c.take(k) == d.take(k) && (k
                    == c.len() || c[k] < d[k]);
            assert forall|i: int| 0 <= i < k + 1 implies a[i] == b[i] by {
                if i > 0 {
                    assert(c.take(k)[i - 1] == d.take(k)[i - 1]);
                }
            }
            assert(a.take(k + 1) =~= b.take(k + 1));
        }
    }
    if exists|k: int|
        0 <= k <= a.len() && k < b.len() && #[trigger] a.take(k) == b.take(k) && (k == a.len()
            || a[k] < b[k]) {
        let k = choose|k: int|
            0 <= k <= a.len() && k < b.len() && #[trigger] a.take(k) == b.take(k) && (k == a.len()
                || a[k] < b[k]);
        if k > 0 {
            assert(a.take(k)[0] == b.take(k)[0]);
            let (c, d) = (a.skip(1), b.skip(1));
            assert forall|i: int| 0 <= i < k - 1 implies c[i] == d[i] by {
                assert(a.take(k)[i + 1] == b.take(k)[i + 1]);
            }
            assert(c.take(k - 1) =~= d.take(k - 1));
            law_order_of_texts(c, d);
        }
    }
}

/// A digit put behind others makes ten times as much of them and adds its own.
pub proof fn law_digits(s: Seq<char>, c: char)
    requires
        is_digit(c),
    ensures
        digits_value(s.push(c)) == 10 * digits_value(s) + (c as int - '0' as int),
        digits_value(Seq::empty()) == 0,
{
    assert(s.push(c).drop_last() =~= s);
}

/// A character that is taken off the end is taken off once.
pub proof fn law_taking_off_once(s: Seq<char>, c: char)
    ensures
        without_last(s.push(c), c) == s,
        s.len() == 0 || s.last() != c ==> without_last(s, c) == s,
{
    assert(s.push(c).drop_last() =~= s);
}

} // verus!
