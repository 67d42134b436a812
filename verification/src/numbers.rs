//! Integers as decimal text, in both directions.

use vstd::prelude::*;

use crate::text::chars_of;

verus! {

/// The digit of a value below ten.
pub open spec fn digit_char(d: int) -> char {
    ('0' as int + d) as char
}

/// `n` in decimal, without leading zeros.
pub open spec fn decimal(n: nat) -> Seq<char>
    decreases n,
{
    if n < 10 {
        seq![digit_char(n as int)]
    } else {
        decimal(n / 10).push(digit_char((n % 10) as int))
    }
}

/// `n` in decimal, with a minus sign if it is negative.
pub open spec fn int_text(n: int) -> Seq<char> {
    if n < 0 {
        seq!['-'] + decimal((-n) as nat)
    } else {
        decimal(n as nat)
    }
}

/// The digit of a value below ten.
fn digit(d: u8) -> (r: char)
    requires
        d < 10,
    ensures
        r == digit_char(d as int),
{
    (48 + d) as char
}

/// A natural number in decimal.
pub fn u64_text(n: u64) -> (r: String)
    ensures
        r@ == decimal(n as nat),
    decreases n,
{
    if n < 10 {
        let mut s = String::new();
        s.push(digit(n as u8));
        proof {
            assert(s@ =~= decimal(n as nat));
        }
        s
    } else {
        let mut s = u64_text(n / 10);
        s.push(digit((n % 10) as u8));
        s
    }
}

/// An integer in decimal.
pub fn i64_text(n: i64) -> (r: String)
    ensures
        r@ == int_text(n as int),
{
    if n >= 0 {
        u64_text(n as u64)
    } else {
        let m: u64 = (-(n as i128)) as u64;
        let digits = u64_text(m);
        let mut s = String::new();
        s.push('-');
        proof {
            assert(s@ =~= seq!['-']);
        }
        vstd::string::StringExecFns::append(&mut s, digits.as_str());
        s
    }
}

/// Whether `c` is one of the ten ASCII digits.
pub open spec fn is_digit(c: char) -> bool {
    '0' <= c <= '9'
}

/// Whether `s` is a nonempty run of digits.
pub open spec fn all_digits(s: Seq<char>) -> bool {
    s.len() > 0 && forall|i: int| 0 <= i < s.len() ==> is_digit(#[trigger] s[i])
}

/// The value of a run of digits.
pub open spec fn digits_value(s: Seq<char>) -> nat
    decreases s.len(),
{
    if s.len() == 0 {
        0
    } else {
        digits_value(s.drop_last()) * 10 + (s.last() as int - '0' as int) as nat
    }
}

/// The integer that `s` writes down: digits, with or without a sign before
/// them. `None` for any other text.
pub open spec fn integer_value(s: Seq<char>) -> Option<int> {
    if s.len() > 0 && s[0] == '-' && all_digits(s.skip(1)) {
        Some(-(digits_value(s.skip(1)) as int))
    } else if s.len() > 0 && s[0] == '+' && all_digits(s.skip(1)) {
        Some(digits_value(s.skip(1)) as int)
    } else if all_digits(s) {
        Some(digits_value(s) as int)
    } else {
        None
    }
}

/// A longer run of digits is worth no less than its beginning.
proof fn lemma_prefix_value(s: Seq<char>, n: int)
    requires
        0 <= n <= s.len(),
        all_digits(s),
    ensures
        digits_value(s.take(n)) <= digits_value(s),
    decreases s.len() - n,
{
    if n == s.len() {
        assert(s.take(n) =~= s);
    } else {
        lemma_prefix_value(s, n + 1);
        assert(s.take(n + 1).drop_last() =~= s.take(n));
        assert(is_digit(s[n]));
    }
}

/// The value of the digits of `cs` from `from` on; `None` if there is none, if
/// another character stands there, or if the value is not a `u64`.
fn magnitude(cs: &Vec<char>, from: usize) -> (r: Option<u64>)
    requires
        from <= cs@.len(),
    ensures
        r is Some <==> all_digits(cs@.skip(from as int)) && digits_value(cs@.skip(from as int))
            <= u64::MAX,
        r is Some ==> r->0 == digits_value(cs@.skip(from as int)),
{
    let n: usize = cs.len();
    if from == n {
        return None;
    }
    let ghost tail = cs@.skip(from as int);
    let mut acc: u64 = 0;
    let mut i: usize = from;
    while i < n
        invariant
            from <= i <= n,
            n == cs@.len(),
            tail == cs@.skip(from as int),
            forall|k: int| 0 <= k < i - from ==> is_digit(#[trigger] tail[k]),
            acc == digits_value(tail.take(i - from)),
        decreases n - i,
    {
        let c = cs[i];
        proof {
            assert(tail[i - from] == c);
            assert(tail.take(i - from + 1).drop_last() =~= tail.take(i - from));
        }
        if !('0' <= c && c <= '9') {
            return None;
        }
        let d: u64 = (c as u32 - '0' as u32) as u64;
        let wide: u128 = acc as u128 * 10 + d as u128;
        if wide > u64::MAX as u128 {
            proof {
                if all_digits(tail) {
                    lemma_prefix_value(tail, i - from + 1);
                }
            }
            return None;
        }
        acc = wide as u64;
        i += 1;
    }
    proof {
        assert(tail.take(tail.len() as int) =~= tail);
    }
    Some(acc)
}

/// The integer that the text writes down, if its distance from zero is a `u64`.
pub fn parse_integer(s: &str) -> (r: Option<i128>)
    ensures
        r is Some <==> (integer_value(s@) is Some && -u64::MAX <= integer_value(s@)->0 <= u64::MAX),
        r is Some ==> r->0 == integer_value(s@)->0,
{
    let cs = chars_of(s);
    proof {
        assert(s@.skip(0) =~= s@);
        assert(s@.len() > 0 && all_digits(s@) ==> is_digit(s@[0]));
    }
    if cs.len() > 0 && cs[0] == '-' {
        match magnitude(&cs, 1) {
            Some(m) => Some(-(m as i128)),
            None => None,
        }
    } else if cs.len() > 0 && cs[0] == '+' {
        match magnitude(&cs, 1) {
            Some(m) => Some(m as i128),
            None => None,
        }
    } else {
        match magnitude(&cs, 0) {
            Some(m) => Some(m as i128),
            None => None,
        }
    }
}

/// The integer that the text writes down, if it is an `i64`.
pub fn parse_i64(s: &str) -> (r: Option<i64>)
    ensures
        r is Some <==> (integer_value(s@) is Some && i64::MIN <= integer_value(s@)->0 <= i64::MAX),
        r is Some ==> r->0 == integer_value(s@)->0,
{
    match parse_integer(s) {
        Some(v) => {
            if i64::MIN as i128 <= v && v <= i64::MAX as i128 {
                Some(v as i64)
            } else {
                None
            }
        },
        None => None,
    }
}

// ---- laws ----

proof fn lemma_decimal_reads_back(n: nat)
    ensures
        all_digits(decimal(n)),
        digits_value(decimal(n)) == n,
    decreases n,
{
    reveal_with_fuel(digits_value, 2);
    let s = decimal(n);
    if n < 10 {
        assert(s.drop_last() =~= Seq::<char>::empty());
    } else {
        lemma_decimal_reads_back(n / 10);
        let front = decimal(n / 10);
        assert(s.drop_last() =~= front);
        assert forall|i: int| 0 <= i < s.len() implies is_digit(#[trigger] s[i]) by {
            if i < front.len() {
                assert(s[i] == front[i]);
            }
        }
    }
}

/// An integer written in decimal reads back as itself.
pub proof fn law_integer_reads_back(n: int)
    ensures
        integer_value(int_text(n)) == Some(n),
{
    if n < 0 {
        let digits = decimal((-n) as nat);
        lemma_decimal_reads_back((-n) as nat);
        assert(int_text(n).skip(1) =~= digits);
    } else {
        lemma_decimal_reads_back(n as nat);
        let s = decimal(n as nat);
        assert(is_digit(s[0]));
    }
}

} // verus!
