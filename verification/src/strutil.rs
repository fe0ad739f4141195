//! Conversions between `String` / `&str` and `Vec<char>`, the form in which
//! the parsers and encoders of this crate work.

use vstd::prelude::*;

verus! {

/// Relies on `String::push`: appends one character to the string.
#[verifier::external_body]
pub fn push_char(s: &mut String, c: char)
    ensures
        final(s)@ == old(s)@.push(c),
{
    s.push(c);
}

/// Collects the characters of a string slice into a vector.
pub fn str_to_chars(s: &str) -> (r: Vec<char>)
    ensures
        r@ == s@,
{
    let n = s.unicode_len();
    let mut r: Vec<char> = Vec::new();
    let mut i: usize = 0;
    while i < n
        invariant
            n == s@.len(),
            i <= n,
            r@ == s@.subrange(0, i as int),
        decreases n - i,
    {
        r.push(s.get_char(i));
        i = i + 1;
        proof {
            assert(r@ =~= s@.subrange(0, i as int));
        }
    }
    proof {
        assert(r@ =~= s@);
    }
    r
}

/// Builds a string whose characters are exactly the given vector.
pub fn chars_to_string(v: &Vec<char>) -> (r: String)
    ensures
        r@ == v@,
{
    let mut r = String::new();
    let mut i: usize = 0;
    while i < v.len()
        invariant
            i <= v@.len(),
            r@ == v@.subrange(0, i as int),
        decreases v@.len() - i,
    {
        push_char(&mut r, v[i]);
        i = i + 1;
        proof {
            assert(r@ =~= v@.subrange(0, i as int));
        }
    }
    proof {
        assert(r@ =~= v@);
    }
    r
}

/// The index of the first occurrence of `c` in `s`, or `s.len()` when `c`
/// does not occur.
pub open spec fn first_index_of(s: Seq<char>, c: char) -> int
    decreases s.len(),
{
    if s.len() == 0 {
        0
    } else if s[0] == c {
        0
    } else {
        1 + first_index_of(s.skip(1), c)
    }
}

pub proof fn lemma_first_index_of(s: Seq<char>, c: char)
    ensures
        0 <= first_index_of(s, c) <= s.len(),
        first_index_of(s, c) < s.len() ==> s[first_index_of(s, c)] == c,
        forall|j: int| 0 <= j < first_index_of(s, c) ==> s[j] != c,
    decreases s.len(),
{
    if s.len() != 0 && s[0] != c {
        lemma_first_index_of(s.skip(1), c);
        assert forall|j: int| 0 <= j < first_index_of(s, c) implies s[j] != c by {
            if j > 0 {
                assert(s.skip(1)[j - 1] == s[j]);
            }
        }
    }
}

/// Finds the first occurrence of `c` in `v` at or after nothing (the whole
/// vector); returns `v.len()` when absent.
pub fn find_char(v: &Vec<char>, c: char) -> (r: usize)
    ensures
        r == first_index_of(v@, c),
{
    let mut i: usize = 0;
    while i < v.len()
        invariant
            i <= v@.len(),
            forall|j: int| 0 <= j < i ==> v@[j] != c,
        decreases v@.len() - i,
    {
        if v[i] == c {
            proof {
                lemma_first_index_of(v@, c);
                let f = first_index_of(v@, c);
                if f < i {
                    assert(v@[f] != c);
                }
                if f > i {
                    assert(v@[i as int] != c);
                }
            }
            return i;
        }
        i = i + 1;
    }
    proof {
        lemma_first_index_of(v@, c);
        let f = first_index_of(v@, c);
        if f < v@.len() {
            assert(v@[f] != c);
        }
    }
    i
}

/// A copy of `v[a..b]`.
pub fn subvec(v: &Vec<char>, a: usize, b: usize) -> (r: Vec<char>)
    requires
        a <= b <= v@.len(),
    ensures
        r@ == v@.subrange(a as int, b as int),
{
    let mut r: Vec<char> = Vec::new();
    let mut i: usize = a;
    while i < b
        invariant
            a <= i <= b <= v@.len(),
            r@ == v@.subrange(a as int, i as int),
        decreases b - i,
    {
        r.push(v[i]);
        i = i + 1;
        proof {
            assert(r@ =~= v@.subrange(a as int, i as int));
        }
    }
    r
}

/// The segments of `s` between occurrences of `sep`: splitting never yields
/// an empty result, and an empty input yields one empty segment.
pub open spec fn split_on(s: Seq<char>, sep: char) -> Seq<Seq<char>>
    decreases s.len(),
    via split_on_decreases
{
    let i = first_index_of(s, sep);
    if i >= s.len() {
        seq![s]
    } else {
        seq![s.take(i)] + split_on(s.skip(i + 1), sep)
    }
}

#[via_fn]
proof fn split_on_decreases(s: Seq<char>, sep: char) {
    lemma_first_index_of(s, sep);
}

/// Splits `v` at every occurrence of `sep`.
pub fn split_on_exec(v: Vec<char>, sep: char) -> (r: Vec<Vec<char>>)
    ensures
        r.deep_view() == split_on(v@, sep),
    decreases v@.len(),
{
    proof {
        lemma_first_index_of(v@, sep);
    }
    let i = find_char(&v, sep);
    if i >= v.len() {
        let ghost vv = v@;
        let mut r: Vec<Vec<char>> = Vec::new();
        r.push(v);
        proof {
            assert(r.deep_view() =~~= seq![vv]);
            assert(split_on(vv, sep) == seq![vv]);
        }
        r
    } else {
        let head = subvec(&v, 0, i);
        let tail = subvec(&v, i + 1, v.len());
        proof {
            assert(head@ =~= v@.take(i as int));
            assert(tail@ =~= v@.skip(i + 1));
        }
        let mut rest = split_on_exec(tail, sep);
        let ghost r0 = rest.deep_view();
        let ghost head_view = head@;
        rest.insert(0, head);
        proof {
            assert(rest@.len() == r0.len() + 1);
            assert forall|j: int| 0 <= j < rest@.len() implies #[trigger] rest.deep_view()[j] == (
            seq![head_view] + r0)[j] by {
                if j == 0 {
                    assert(rest@[0]@ == head_view);
                } else {
                    assert(rest@[j]@ == r0[j - 1]);
                }
            }
            assert(rest.deep_view() =~~= seq![v@.take(i as int)] + split_on(v@.skip(i + 1), sep));
            assert(split_on(v@, sep) == seq![v@.take(i as int)] + split_on(v@.skip(i + 1), sep));
        }
        rest
    }
}

pub open spec fn is_space(c: char) -> bool {
    c == ' ' || c == '\t'
}

/// `s` without leading spaces and tabs.
pub open spec fn trim_start(s: Seq<char>) -> Seq<char>
    decreases s.len(),
{
    if s.len() > 0 && is_space(s[0]) {
        trim_start(s.skip(1))
    } else {
        s
    }
}

/// `s` without trailing spaces and tabs.
pub open spec fn trim_end(s: Seq<char>) -> Seq<char>
    decreases s.len(),
{
    if s.len() > 0 && is_space(s[s.len() - 1]) {
        trim_end(s.drop_last())
    } else {
        s
    }
}

/// `s` without leading and trailing spaces and tabs.
pub open spec fn trim(s: Seq<char>) -> Seq<char> {
    trim_end(trim_start(s))
}

fn trim_start_exec(v: Vec<char>) -> (r: Vec<char>)
    ensures
        r@ == trim_start(v@),
    decreases v@.len(),
{
    if v.len() > 0 && (v[0] == ' ' || v[0] == '\t') {
        let rest = subvec(&v, 1, v.len());
        proof {
            assert(rest@ =~= v@.skip(1));
        }
        trim_start_exec(rest)
    } else {
        v
    }
}

fn trim_end_exec(v: Vec<char>) -> (r: Vec<char>)
    ensures
        r@ == trim_end(v@),
    decreases v@.len(),
{
    if v.len() > 0 && (v[v.len() - 1] == ' ' || v[v.len() - 1] == '\t') {
        let rest = subvec(&v, 0, v.len() - 1);
        proof {
            assert(rest@ =~= v@.drop_last());
        }
        trim_end_exec(rest)
    } else {
        v
    }
}

/// Removes leading and trailing spaces and tabs.
pub fn trim_exec(v: Vec<char>) -> (r: Vec<char>)
    ensures
        r@ == trim(v@),
{
    trim_end_exec(trim_start_exec(v))
}

/// ASCII lowercase folding of one character.
pub open spec fn spec_lower(c: char) -> char {
    if 'A' <= c <= 'Z' {
        ((c as u8) + 32) as char
    } else {
        c
    }
}

pub fn lower_char(c: char) -> (r: char)
    ensures
        r == spec_lower(c),
{
    if 'A' <= c && c <= 'Z' {
        ((c as u8) + 32) as char
    } else {
        c
    }
}

pub open spec fn is_digit(c: char) -> bool {
    '0' <= c <= '9'
}

pub open spec fn digit_val(c: char) -> int {
    (c as u8) - 48
}

pub open spec fn all_digits(s: Seq<char>) -> bool {
    forall|i: int| 0 <= i < s.len() ==> is_digit(#[trigger] s[i])
}

/// The value of a digit string, most significant digit first.
pub open spec fn digits_value(s: Seq<char>) -> int
    decreases s.len(),
{
    if s.len() == 0 {
        0
    } else {
        digits_value(s.drop_last()) * 10 + digit_val(s.last())
    }
}

/// The integer a decimal string denotes: an optional `-` sign and at least
/// one digit; anything else denotes nothing.
pub open spec fn spec_parse_int(s: Seq<char>) -> Option<int> {
    if s.len() > 0 && s[0] == '-' {
        let rest = s.skip(1);
        if rest.len() > 0 && all_digits(rest) {
            Some(-digits_value(rest))
        } else {
            None
        }
    } else {
        if s.len() > 0 && all_digits(s) {
            Some(digits_value(s))
        } else {
            None
        }
    }
}

pub proof fn lemma_digits_value_nonneg(s: Seq<char>)
    requires
        all_digits(s),
    ensures
        digits_value(s) >= 0,
    decreases s.len(),
{
    if s.len() > 0 {
        assert(all_digits(s.drop_last())) by {
            assert(forall|i: int|
                0 <= i < s.len() - 1 ==> #[trigger] s.drop_last()[i] == s[i]);
        }
        lemma_digits_value_nonneg(s.drop_last());
    }
}

/// Parses an unsigned decimal digit string; `None` when empty, when any
/// character is not a digit, or when the value exceeds `bound`.
pub fn parse_digits_bounded(v: &Vec<char>, bound: u64) -> (r: Option<u64>)
    ensures
        match r {
            Some(n) => all_digits(v@) && v@.len() > 0 && n == digits_value(v@) && n <= bound,
            None => v@.len() == 0 || !all_digits(v@) || digits_value(v@) > bound,
        },
{
    if v.len() == 0 {
        return None;
    }
    let mut acc: u64 = 0;
    let mut i: usize = 0;
    while i < v.len()
        invariant
            i <= v@.len(),
            acc == digits_value(v@.take(i as int)),
            acc <= bound,
            all_digits(v@.take(i as int)),
        decreases v@.len() - i,
    {
        let c = v[i];
        if !('0' <= c && c <= '9') {
            return None;
        }
        let d: u64 = (c as u8 - 48) as u64;
        proof {
            assert(v@.take(i + 1).drop_last() =~= v@.take(i as int));
            assert(v@.take(i + 1).last() == v@[i as int]);
            assert(all_digits(v@.take(i + 1)));
        }
        if acc > bound / 10 || (acc == bound / 10 && d > bound % 10) {
            proof {
                assert(digits_value(v@.take(i + 1)) == acc * 10 + d);
                assert(acc * 10 + d > bound);
                if all_digits(v@) {
                    lemma_digits_tail_monotonic(v@, i + 1);
                }
            }
            return None;
        }
        acc = acc * 10 + d;
        i = i + 1;
    }
    proof {
        assert(v@.take(v@.len() as int) =~= v@);
    }
    Some(acc)
}

/// Appending digits never decreases a digit string's value.
pub proof fn lemma_digits_tail_monotonic(s: Seq<char>, k: int)
    requires
        0 <= k <= s.len(),
        all_digits(s),
    ensures
        digits_value(s) >= digits_value(s.take(k)),
    decreases s.len() - k,
{
    if k < s.len() {
        assert(all_digits(s.take(k + 1))) by {
            assert(forall|i: int| 0 <= i < k + 1 ==> #[trigger] s.take(k + 1)[i] == s[i]);
        }
        assert(s.take(k + 1).drop_last() =~= s.take(k));
        lemma_digits_value_nonneg(s.take(k));
        assert(digits_value(s.take(k + 1)) == digits_value(s.take(k)) * 10 + digit_val(s[k]));
        assert(digit_val(s[k]) >= 0);
        assert(digits_value(s.take(k)) * 10 >= digits_value(s.take(k)));
        lemma_digits_tail_monotonic(s, k + 1);
        assert(s.take(s.len() as int) =~= s);
    } else {
        assert(s.take(k) =~= s);
    }
}

pub open spec fn digit_char(d: int) -> char {
    ((48 + d) as u8) as char
}

/// The decimal digits of a non-negative number, most significant first.
pub open spec fn digits_of(n: int) -> Seq<char>
    decreases n,
{
    if n < 10 {
        seq![digit_char(if n < 0 { 0 } else { n })]
    } else {
        digits_of(n / 10).push(digit_char(n % 10))
    }
}

/// The digits of `n` are digits, at least one, and denote `n`.
pub proof fn lemma_digits_of(n: int)
    requires
        n >= 0,
    ensures
        digits_of(n).len() >= 1,
        all_digits(digits_of(n)),
        digits_value(digits_of(n)) == n,
    decreases n,
{
    if n < 10 {
        assert(digit_char(n) as u8 == 48 + n);
        assert(digit_val(digit_char(n)) == n);
        assert(digits_of(n) == seq![digit_char(n)]);
        assert(is_digit(digit_char(n)));
        assert(digits_of(n).drop_last() =~= Seq::<char>::empty());
        assert(digits_value(digits_of(n)) == digits_value(Seq::<char>::empty()) * 10 + digit_val(
            digits_of(n).last(),
        ));
    } else {
        lemma_digits_of(n / 10);
        let d = digits_of(n / 10);
        assert(d.push(digit_char(n % 10)).drop_last() =~= d);
        assert(all_digits(d.push(digit_char(n % 10)))) by {
            assert(forall|i: int|
                0 <= i < d.len() ==> #[trigger] d.push(digit_char(n % 10))[i] == d[i]);
            assert(is_digit(digit_char(n % 10)));
        }
        assert(digits_value(digits_of(n)) == (n / 10) * 10 + n % 10);
    }
}


pub fn digits_exec(n: u64) -> (r: Vec<char>)
    ensures
        r@ == digits_of(n as int),
    decreases n,
{
    if n < 10 {
        let mut r: Vec<char> = Vec::new();
        r.push(((48 + n) as u8) as char);
        proof {
            assert(r@ =~= seq![digit_char(n as int)]);
        }
        r
    } else {
        let mut r = digits_exec(n / 10);
        r.push(((48 + (n % 10)) as u8) as char);
        proof {
            assert((48 + (n % 10) as int) as u8 as char == digit_char((n % 10) as int));
        }
        r
    }
}

} // verus!

