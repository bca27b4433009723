//! Text as sequences of characters: searching, trimming, splitting into lines and reading numbers.
//!
//! The functions here work on slices of `char`, so that an index counts characters. Each of them
//! has a spec function beside it that says what it computes.
use vstd::prelude::*;
use vstd::slice::slice_subrange;

verus! {

// ---------------------------------------------------------------------------------------------
// Searching
// ---------------------------------------------------------------------------------------------

/// `pattern` stands in `s` at index `i`.
pub open spec fn occurs_at(s: Seq<char>, pattern: Seq<char>, i: int) -> bool {
    &&& 0 <= i
    &&& i + pattern.len() <= s.len()
    &&& s.subrange(i, i + pattern.len()) == pattern
}

/// `pattern` stands somewhere in `s`.
pub open spec fn has(s: Seq<char>, pattern: Seq<char>) -> bool {
    exists|i: int| occurs_at(s, pattern, i)
}

/// `i` is the first index at which `pattern` stands in `s`.
pub open spec fn first_at(s: Seq<char>, pattern: Seq<char>, i: int) -> bool {
    &&& occurs_at(s, pattern, i)
    &&& forall|j: int| 0 <= j < i ==> !occurs_at(s, pattern, j)
}

/// The first index at which `pattern` stands in `s`, if there is one.
pub open spec fn index_of(s: Seq<char>, pattern: Seq<char>) -> Option<int> {
    if has(s, pattern) {
        Some(choose|i: int| first_at(s, pattern, i))
    } else {
        None
    }
}

/// `i` is the first index at which `s` holds `c`.
pub open spec fn first_char_at(s: Seq<char>, c: char, i: int) -> bool {
    &&& 0 <= i < s.len()
    &&& s[i] == c
    &&& forall|j: int| 0 <= j < i ==> s[j] != c
}

/// The first index at which `s` holds `c`, if there is one.
pub open spec fn index_of_char(s: Seq<char>, c: char) -> Option<int> {
    if s.contains(c) {
        Some(choose|i: int| first_char_at(s, c, i))
    } else {
        None
    }
}

/// `i` is the last index at which `s` holds `c`.
pub open spec fn last_char_at(s: Seq<char>, c: char, i: int) -> bool {
    &&& 0 <= i < s.len()
    &&& s[i] == c
    &&& forall|j: int| i < j < s.len() ==> s[j] != c
}

/// The last index at which `s` holds `c`, if there is one.
pub open spec fn last_index_of_char(s: Seq<char>, c: char) -> Option<int> {
    if s.contains(c) {
        Some(choose|i: int| last_char_at(s, c, i))
    } else {
        None
    }
}

/// The first occurrence of a pattern is unique, so it is what `index_of` gives.
proof fn lemma_index_of(s: Seq<char>, pattern: Seq<char>, i: int)
    requires
        first_at(s, pattern, i),
    ensures
        index_of(s, pattern) == Some(i),
{
    let k = choose|k: int| first_at(s, pattern, k);
    assert(first_at(s, pattern, k));
    assert(k == i) by {
        if k < i {
            assert(!occurs_at(s, pattern, k));
        } else if i < k {
            assert(!occurs_at(s, pattern, i));
        }
    }
}

/// The first occurrence of a character is what `index_of_char` gives.
proof fn lemma_index_of_char(s: Seq<char>, c: char, i: int)
    requires
        first_char_at(s, c, i),
    ensures
        index_of_char(s, c) == Some(i),
{
    assert(s.contains(c));
    let k = choose|k: int| first_char_at(s, c, k);
    assert(first_char_at(s, c, k));
}

/// The last occurrence of a character is what `last_index_of_char` gives.
proof fn lemma_last_index_of_char(s: Seq<char>, c: char, i: int)
    requires
        last_char_at(s, c, i),
    ensures
        last_index_of_char(s, c) == Some(i),
{
    assert(s.contains(c));
    let k = choose|k: int| last_char_at(s, c, k);
    assert(last_char_at(s, c, k));
}

/// A pattern is found in a text just where it stands there, and it is found at its first occurrence.
pub proof fn law_pattern_is_found_first(s: Seq<char>, pattern: Seq<char>)
    ensures
        index_of(s, pattern) is Some <==> has(s, pattern),
        index_of(s, pattern) matches Some(i) ==> first_at(s, pattern, i),
{
    if has(s, pattern) {
        let k = choose|k: int| occurs_at(s, pattern, k);
        lemma_first_exists(s, pattern, k);
    }
}

proof fn lemma_first_exists(s: Seq<char>, pattern: Seq<char>, k: int)
    requires
        occurs_at(s, pattern, k),
    ensures
        exists|i: int| first_at(s, pattern, i),
    decreases k,
{
    if forall|j: int| 0 <= j < k ==> !occurs_at(s, pattern, j) {
        assert(first_at(s, pattern, k));
    } else {
        let j = choose|j: int| 0 <= j < k && occurs_at(s, pattern, j);
        lemma_first_exists(s, pattern, j);
    }
}

/// A character that a text holds has a first index there, and `index_of_char` is it.
proof fn lemma_index_of_char_first(s: Seq<char>, c: char)
    ensures
        index_of_char(s, c) is Some <==> s.contains(c),
        index_of_char(s, c) matches Some(i) ==> first_char_at(s, c, i),
    decreases s.len(),
{
    if s.contains(c) {
        if s[0] == c {
            assert(first_char_at(s, c, 0));
        } else {
            let rest = s.drop_first();
            let k = choose|k: int| 0 <= k < s.len() && s[k] == c;
            assert(rest[k - 1] == c);
            lemma_index_of_char_first(rest, c);
            let i = index_of_char(rest, c).unwrap();
            assert forall|j: int| 0 <= j < i + 1 implies s[j] != c by {
                if j > 0 {
                    assert(rest[j - 1] != c);
                }
            }
            assert(first_char_at(s, c, i + 1));
        }
    }
}

/// The characters of a string.
pub fn chars_of(s: &str) -> (cs: Vec<char>)
    ensures
        cs@ == s@,
{
    let mut cs: Vec<char> = Vec::new();
    for c in it: s.chars()
        invariant
            cs@ == it.seq().take(it.index() as int),
            it.seq() == s@,
    {
        cs.push(c);
    }
    cs
}

/// `String::push` of std: puts the character behind the characters that the string holds.
pub assume_specification[ String::push ](s: &mut String, c: char)
    ensures
        final(s)@ == old(s)@.push(c),
;

/// The string with the given characters.
pub fn string_of(cs: &[char]) -> (s: String)
    ensures
        s@ == cs@,
{
    let mut s: String = String::new();
    let mut i: usize = 0;
    while i < cs.len()
        invariant
            i <= cs@.len(),
            s@ == cs@.take(i as int),
        decreases cs@.len() - i,
    {
        s.push(cs[i]);
        i = i + 1;
        assert(cs@.take(i as int) == cs@.take(i - 1).push(cs@[i - 1]));
    }
    assert(cs@.take(i as int) == cs@);
    s
}

/// A copy of the string.
pub fn copy_string(s: &str) -> (r: String)
    ensures
        r@ == s@,
{
    let cs: Vec<char> = chars_of(s);
    string_of(cs.as_slice())
}

/// Puts the characters of `more` behind those of `out`.
pub fn push_all(out: &mut Vec<char>, more: &[char])
    ensures
        final(out)@ == old(out)@ + more@,
{
    let mut i: usize = 0;
    while i < more.len()
        invariant
            i <= more@.len(),
            out@ == old(out)@ + more@.take(i as int),
        decreases more@.len() - i,
    {
        out.push(more[i]);
        i = i + 1;
        assert(more@.take(i as int) == more@.take(i - 1).push(more@[i - 1]));
    }
    assert(more@.take(i as int) == more@);
}

/// Puts a string's characters behind those of `out`.
pub fn push_str(out: &mut Vec<char>, more: &str)
    ensures
        final(out)@ == old(out)@ + more@,
{
    let cs: Vec<char> = chars_of(more);
    push_all(out, cs.as_slice());
}

/// Whether `pattern` stands in `s` at index `i`.
pub fn stands_at(s: &[char], pattern: &[char], i: usize) -> (r: bool)
    ensures
        r == occurs_at(s@, pattern@, i as int),
{
    if i > s.len() || pattern.len() > s.len() - i {
        return false;
    }
    let n: usize = s.len();
    let mut k: usize = 0;
    while k < pattern.len()
        invariant
            n == s@.len(),
            i <= n,
            pattern@.len() <= s@.len() - i,
            k <= pattern@.len(),
            forall|j: int| 0 <= j < k ==> s@[i + j] == pattern@[j],
        decreases pattern@.len() - k,
    {
        if s[i + k] != pattern[k] {
            proof {
                assert(s@.subrange(i as int, i + pattern@.len())[k as int] == s@[i + k]);
            }
            return false;
        }
        k = k + 1;
    }
    assert(s@.subrange(i as int, i + pattern@.len()) == pattern@);
    true
}

/// The first index at which `pattern` stands in `s`.
pub fn find(s: &[char], pattern: &[char]) -> (r: Option<usize>)
    ensures
        r is Some <==> has(s@, pattern@),
        r matches Some(i) ==> first_at(s@, pattern@, i as int) && index_of(s@, pattern@) == Some(
            i as int,
        ),
        r is None ==> index_of(s@, pattern@) is None,
{
    let mut i: usize = 0;
    while i <= s.len() && pattern.len() <= s.len() - i
        invariant
            i <= s@.len() + 1,
            forall|j: int| 0 <= j < i ==> !occurs_at(s@, pattern@, j),
        decreases s@.len() + 1 - i,
    {
        if stands_at(s, pattern, i) {
            proof {
                lemma_index_of(s@, pattern@, i as int);
            }
            return Some(i);
        }
        if i == s.len() {
            proof {
                assert forall|j: int| !occurs_at(s@, pattern@, j) by {
                    if j == i {
                        assert(!occurs_at(s@, pattern@, i as int));
                    }
                }
            }
            return None;
        }
        i = i + 1;
    }
    None
}

/// Whether `pattern` stands somewhere in `s`.
pub fn contains(s: &[char], pattern: &[char]) -> (r: bool)
    ensures
        r == has(s@, pattern@),
{
    find(s, pattern).is_some()
}

/// Whether the string `pattern` stands somewhere in `s`.
pub fn contains_str(s: &[char], pattern: &str) -> (r: bool)
    ensures
        r == has(s@, pattern@),
{
    let p: Vec<char> = chars_of(pattern);
    contains(s, p.as_slice())
}

/// Whether `s` begins with the string `prefix`.
pub fn starts_with(s: &[char], prefix: &str) -> (r: bool)
    ensures
        r == prefix@.is_prefix_of(s@),
{
    let p: Vec<char> = chars_of(prefix);
    let r: bool = stands_at(s, p.as_slice(), 0);
    proof {
        if prefix@.is_prefix_of(s@) {
            assert(s@.subrange(0, prefix@.len() as int) == prefix@);
        }
    }
    r
}

/// Whether the characters of `s` are those of the string `t`.
pub fn same(s: &[char], t: &str) -> (r: bool)
    ensures
        r == (s@ == t@),
{
    let p: Vec<char> = chars_of(t);
    if p.len() != s.len() {
        return false;
    }
    let r: bool = stands_at(s, p.as_slice(), 0);
    assert(s@.subrange(0, p@.len() as int) == s@);
    r
}

/// The first index at which `s` holds `c`.
pub fn find_char(s: &[char], c: char) -> (r: Option<usize>)
    ensures
        r is Some <==> s@.contains(c),
        r matches Some(i) ==> first_char_at(s@, c, i as int) && index_of_char(s@, c) == Some(
            i as int,
        ),
        r is None ==> index_of_char(s@, c) is None,
{
    let mut i: usize = 0;
    while i < s.len()
        invariant
            i <= s@.len(),
            forall|j: int| 0 <= j < i ==> s@[j] != c,
        decreases s@.len() - i,
    {
        if s[i] == c {
            proof {
                lemma_index_of_char(s@, c, i as int);
            }
            return Some(i);
        }
        i = i + 1;
    }
    None
}

/// The last index at which `s` holds `c`.
pub fn rfind_char(s: &[char], c: char) -> (r: Option<usize>)
    ensures
        r is Some <==> s@.contains(c),
        r matches Some(i) ==> last_char_at(s@, c, i as int) && last_index_of_char(s@, c) == Some(
            i as int,
        ),
        r is None ==> last_index_of_char(s@, c) is None,
{
    let mut i: usize = s.len();
    while i > 0
        invariant
            i <= s@.len(),
            forall|j: int| i <= j < s@.len() ==> s@[j] != c,
        decreases i,
    {
        i = i - 1;
        if s[i] == c {
            proof {
                lemma_last_index_of_char(s@, c, i as int);
            }
            return Some(i);
        }
    }
    None
}

// ---------------------------------------------------------------------------------------------
// Trimming and splitting
// ---------------------------------------------------------------------------------------------

/// A character with the Unicode property `White_Space`.
pub open spec fn is_white(c: char) -> bool {
    ||| '\u{9}' <= c <= '\u{d}'
    ||| c == ' '
    ||| c == '\u{85}'
    ||| c == '\u{a0}'
    ||| c == '\u{1680}'
    ||| '\u{2000}' <= c <= '\u{200a}'
    ||| c == '\u{2028}'
    ||| c == '\u{2029}'
    ||| c == '\u{202f}'
    ||| c == '\u{205f}'
    ||| c == '\u{3000}'
}

/// `s` without the white space at its start.
pub open spec fn trimmed_start(s: Seq<char>) -> Seq<char>
    decreases s.len(),
{
    if s.len() > 0 && is_white(s[0]) {
        trimmed_start(s.drop_first())
    } else {
        s
    }
}

/// `s` without the white space at its end.
pub open spec fn trimmed_end(s: Seq<char>) -> Seq<char>
    decreases s.len(),
{
    if s.len() > 0 && is_white(s.last()) {
        trimmed_end(s.drop_last())
    } else {
        s
    }
}

/// `s` without the white space at its two ends.
pub open spec fn trimmed(s: Seq<char>) -> Seq<char> {
    trimmed_end(trimmed_start(s))
}

/// Whether the character is white space.
pub fn is_whitespace(c: char) -> (r: bool)
    ensures
        r == is_white(c),
{
    ('\u{9}' <= c && c <= '\u{d}') || c == ' ' || c == '\u{85}' || c == '\u{a0}' || c == '\u{1680}'
        || ('\u{2000}' <= c && c <= '\u{200a}') || c == '\u{2028}' || c == '\u{2029}'
        || c == '\u{202f}' || c == '\u{205f}' || c == '\u{3000}'
}

/// The text without the white space at its two ends.
pub fn trim(s: &[char]) -> (r: &[char])
    ensures
        r@ == trimmed(s@),
{
    let n: usize = s.len();
    let mut i: usize = 0;
    assert(s@.skip(0) == s@);
    while i < n && is_whitespace(s[i])
        invariant
            n == s@.len(),
            i <= n,
            trimmed_start(s@.skip(i as int)) == trimmed_start(s@),
        decreases n - i,
    {
        assert(s@.skip(i as int).drop_first() == s@.skip(i + 1));
        i = i + 1;
    }
    let mut j: usize = n;
    assert(s@.skip(i as int) == s@.subrange(i as int, j as int));
    while j > i && is_whitespace(s[j - 1])
        invariant
            n == s@.len(),
            i <= j <= n,
            trimmed_end(s@.subrange(i as int, j as int)) == trimmed(s@),
        decreases j,
    {
        assert(s@.subrange(i as int, j as int).drop_last() == s@.subrange(i as int, j - 1));
        j = j - 1;
    }
    slice_subrange(s, i, j)
}

/// What stands before the first `c`: all of the text where it holds none.
pub open spec fn before_char(s: Seq<char>, c: char) -> Seq<char> {
    match index_of_char(s, c) {
        Some(i) => s.take(i),
        None => s,
    }
}

/// What stands before the first `c`: all of the text where it holds none.
pub fn until_char(s: &[char], c: char) -> (r: &[char])
    ensures
        r@ == before_char(s@, c),
{
    match find_char(s, c) {
        Some(i) => slice_subrange(s, 0, i),
        None => s,
    }
}

/// What stands before and behind the first `c`.
pub open spec fn split_once(s: Seq<char>, c: char) -> Option<(Seq<char>, Seq<char>)> {
    match index_of_char(s, c) {
        Some(i) => Some((s.take(i), s.skip(i + 1))),
        None => None,
    }
}

/// What stands before and behind the first `c`.
pub fn split_at_char(s: &[char], c: char) -> (r: Option<(&[char], &[char])>)
    ensures
        r is Some <==> split_once(s@, c) is Some,
        r matches Some((a, b)) ==> split_once(s@, c) == Some((a@, b@)),
{
    let n: usize = s.len();
    match find_char(s, c) {
        Some(i) => Some((slice_subrange(s, 0, i), slice_subrange(s, i + 1, n))),
        None => None,
    }
}

/// A line without the carriage return at its end.
pub open spec fn without_cr(line: Seq<char>) -> Seq<char> {
    if line.len() > 0 && line.last() == '\r' {
        line.drop_last()
    } else {
        line
    }
}

/// The lines of a text. Each ends at a line feed, or at a carriage return and a line feed, which do
/// not belong to it; the last may end with the text.
pub open spec fn line_seq(s: Seq<char>) -> Seq<Seq<char>>
    decreases s.len(),
    via line_seq_shrinks
{
    if s.len() == 0 {
        Seq::empty()
    } else {
        match index_of_char(s, '\n') {
            Some(i) => seq![without_cr(s.take(i))] + line_seq(s.skip(i + 1)),
            None => seq![s],
        }
    }
}

#[via_fn]
proof fn line_seq_shrinks(s: Seq<char>) {
    lemma_index_of_char_first(s, '\n');
}

/// The texts that a vector of texts holds.
pub open spec fn texts(v: Seq<Vec<char>>) -> Seq<Seq<char>> {
    v.map_values(|t: Vec<char>| t@)
}

/// The lines of a text.
pub fn lines(s: &[char]) -> (r: Vec<Vec<char>>)
    ensures
        texts(r@) == line_seq(s@),
{
    let n: usize = s.len();
    let mut r: Vec<Vec<char>> = Vec::new();
    let mut from: usize = 0;
    assert(texts(r@) == Seq::<Seq<char>>::empty());
    assert(s@.skip(0) == s@);
    while from < n
        invariant
            n == s@.len(),
            from <= n,
            texts(r@) + line_seq(s@.skip(from as int)) == line_seq(s@),
        decreases n - from,
    {
        let rest: &[char] = slice_subrange(s, from, n);
        assert(rest@ == s@.skip(from as int));
        match find_char(rest, '\n') {
            Some(i) => {
                let mut end: usize = i;
                if end > 0 && rest[end - 1] == '\r' {
                    end = end - 1;
                }
                let line: Vec<char> = vstd::slice::slice_to_vec(slice_subrange(rest, 0, end));
                assert(line@ == without_cr(rest@.take(i as int)));
                let ghost before = r@;
                r.push(line);
                assert(texts(r@) == texts(before).push(line@));
                assert(rest@.skip(i + 1) == s@.skip(from + i + 1));
                assert(texts(before) + (seq![line@] + line_seq(s@.skip(from + i + 1))) == texts(r@)
                    + line_seq(s@.skip(from + i + 1)));
                from = from + i + 1;
            },
            None => {
                let line: Vec<char> = vstd::slice::slice_to_vec(rest);
                let ghost before = r@;
                r.push(line);
                assert(texts(r@) == texts(before).push(line@));
                assert(s@.skip(n as int) == Seq::<char>::empty());
                assert(texts(before) + seq![rest@] == texts(r@) + line_seq(s@.skip(n as int)));
                from = n;
            },
        }
    }
    assert(s@.skip(n as int) == Seq::<char>::empty());
    assert(texts(r@) + Seq::<Seq<char>>::empty() == texts(r@));
    r
}

// ---------------------------------------------------------------------------------------------
// Numbers
// ---------------------------------------------------------------------------------------------

/// A decimal digit.
pub open spec fn is_digit(c: char) -> bool {
    '0' <= c <= '9'
}

/// The number that a decimal digit stands for.
pub open spec fn digit_value(c: char) -> nat {
    (c as nat - '0' as nat) as nat
}

/// The number that a row of decimal digits stands for.
pub open spec fn digits_value(s: Seq<char>) -> nat
    decreases s.len(),
{
    if s.len() == 0 {
        0
    } else {
        digits_value(s.drop_last()) * 10 + digit_value(s.last())
    }
}

/// The digits of a number as it is written: all but the plus sign that may stand in front.
pub open spec fn unsigned_digits(s: Seq<char>) -> Seq<char> {
    if s.len() > 0 && s[0] == '+' {
        s.skip(1)
    } else {
        s
    }
}

/// The number that a text is, if the text is one and it is at most `max`: decimal digits, at least
/// one, with or without a plus sign in front.
pub open spec fn number(s: Seq<char>, max: nat) -> Option<nat> {
    let digits = unsigned_digits(s);
    if digits.len() > 0 && (forall|i: int| 0 <= i < digits.len() ==> is_digit(digits[i]))
        && digits_value(digits) <= max {
        Some(digits_value(digits))
    } else {
        None
    }
}

/// More digits behind a number make it no smaller.
proof fn lemma_digits_value_grows(s: Seq<char>, k: int)
    requires
        0 <= k <= s.len(),
    ensures
        digits_value(s.take(k)) <= digits_value(s),
    decreases s.len(),
{
    if k == s.len() {
        assert(s.take(k) == s);
    } else {
        lemma_digits_value_grows(s.drop_last(), k);
        assert(s.drop_last().take(k) == s.take(k));
    }
}

/// The number that a text is, if it is one and at most `max`.
pub fn parse_number(s: &[char], max: u64) -> (r: Option<u64>)
    ensures
        r is Some <==> number(s@, max as nat) is Some,
        r matches Some(n) ==> number(s@, max as nat) == Some(n as nat),
{
    let n: usize = s.len();
    let from: usize = if n > 0 && s[0] == '+' {
        1
    } else {
        0
    };
    let ghost digits = unsigned_digits(s@);
    assert(digits == s@.skip(from as int));
    if from == n {
        return None;
    }
    let mut value: u64 = 0;
    let mut i: usize = from;
    assert(digits.take(0) == Seq::<char>::empty());
    while i < n
        invariant
            n == s@.len(),
            from <= i <= n,
            digits == s@.skip(from as int),
            digits == unsigned_digits(s@),
            value == digits_value(digits.take(i - from)),
            value <= max,
            forall|j: int| 0 <= j < i - from ==> is_digit(digits[j]),
        decreases n - i,
    {
        let c: char = s[i];
        assert(digits[i - from] == c);
        if !('0' <= c && c <= '9') {
            return None;
        }
        let d: u64 = (c as u32 - '0' as u32) as u64;
        proof {
            let k = i - from + 1;
            assert(digits.take(k).drop_last() == digits.take(k - 1));
            assert(digits_value(digits.take(k)) == value * 10 + d);
            lemma_digits_value_grows(digits, k);
        }
        if value > (u64::MAX - d) / 10 {
            return None;
        }
        let next: u64 = value * 10 + d;
        if next > max {
            return None;
        }
        value = next;
        i = i + 1;
    }
    assert(digits.take(i - from) == digits);
    Some(value)
}

/// The character that a decimal digit is written as.
pub open spec fn digit_char(d: nat) -> char {
    ('0' as nat + d) as char
}

/// A number in decimal.
pub open spec fn decimal(n: nat) -> Seq<char>
    decreases n,
{
    if n < 10 {
        seq![digit_char(n)]
    } else {
        decimal(n / 10).push(digit_char(n % 10))
    }
}

/// A number in decimal.
pub fn to_decimal(n: u128) -> (r: Vec<char>)
    ensures
        r@ == decimal(n as nat),
    decreases n,
{
    let mut r: Vec<char> = if n < 10 {
        Vec::new()
    } else {
        to_decimal(n / 10)
    };
    let d: u8 = (n % 10) as u8;
    let c: char = (48u8 + d) as char;
    r.push(c);
    assert(r@ == decimal(n as nat));
    r
}

/// A number in decimal with at least two digits.
pub open spec fn two_digits(n: nat) -> Seq<char> {
    if n < 10 {
        seq!['0'] + decimal(n)
    } else {
        decimal(n)
    }
}

/// A number in decimal with at least two digits.
pub fn to_two_digits(n: u64) -> (r: Vec<char>)
    ensures
        r@ == two_digits(n as nat),
{
    let mut r: Vec<char> = Vec::new();
    if n < 10 {
        r.push('0');
    }
    let d: Vec<char> = to_decimal(n as u128);
    push_all(&mut r, d.as_slice());
    assert(r@ == two_digits(n as nat));
    r
}

/// A number that is written in decimal and read back is the same number.
pub proof fn law_decimal_reads_back(n: nat, max: nat)
    requires
        n <= max,
    ensures
        number(decimal(n), max) == Some(n),
{
    lemma_decimal_digits(n);
    let d = decimal(n);
    assert(is_digit(d[0]));
    assert(unsigned_digits(d) == d);
}

/// A number in decimal has at least one digit and nothing else, and they stand for the number.
pub proof fn lemma_decimal_digits(n: nat)
    ensures
        decimal(n).len() > 0,
        forall|i: int| 0 <= i < decimal(n).len() ==> is_digit(decimal(n)[i]),
        digits_value(decimal(n)) == n,
    decreases n,
{
    if n < 10 {
        assert(decimal(n).drop_last() == Seq::<char>::empty());
        assert(digits_value(decimal(n).drop_last()) == 0);
    } else {
        lemma_decimal_digits(n / 10);
        assert(decimal(n).drop_last() == decimal(n / 10));
    }
}

// ---------------------------------------------------------------------------------------------
// What searching, splitting and reading owe a text
// ---------------------------------------------------------------------------------------------

/// A pattern that stands in a text is found, whatever stands around it, and not behind that place.
/// Where it is found the text reads as the pattern.
pub proof fn law_pattern_is_found_anywhere(a: Seq<char>, pattern: Seq<char>, b: Seq<char>)
    ensures
        has(a + pattern + b, pattern),
        index_of(a + pattern + b, pattern) is Some,
        0 <= index_of(a + pattern + b, pattern).unwrap() <= a.len(),
        ({
            let i = index_of(a + pattern + b, pattern).unwrap();
            (a + pattern + b).subrange(i, i + pattern.len()) == pattern
        }),
{
    let s = a + pattern + b;
    assert(s.subrange(a.len() as int, a.len() as int + pattern.len()) =~= pattern);
    assert(occurs_at(s, pattern, a.len() as int));
    law_pattern_is_found_first(s, pattern);
    let i = index_of(s, pattern).unwrap();
    assert(first_at(s, pattern, i));
}

/// A pattern that is found splits the text into what stands before it, itself, and what stands
/// behind it. One that is not found stands nowhere in the text.
pub proof fn law_found_pattern_splits_the_text(s: Seq<char>, pattern: Seq<char>, k: int)
    ensures
        has(s, pattern) ==> ({
            let i = index_of(s, pattern).unwrap();
            0 <= i && i + pattern.len() <= s.len() && s == s.take(i) + pattern + s.skip(
                i + pattern.len(),
            )
        }),
        !(has(s, pattern)) && 0 <= k && k + pattern.len() <= s.len() ==> s.subrange(
            k,
            k + pattern.len(),
        ) != pattern,
        index_of(s, pattern) is Some <==> has(s, pattern),
{
    law_pattern_is_found_first(s, pattern);
    if has(s, pattern) {
        let i = index_of(s, pattern).unwrap();
        assert(first_at(s, pattern, i));
        assert(s =~= s.take(i) + s.subrange(i, i + pattern.len()) + s.skip(i + pattern.len()));
    } else {
        assert(!occurs_at(s, pattern, k));
    }
}

/// A pattern is found at the first of the places where it stands.
pub proof fn law_nothing_is_found_earlier(s: Seq<char>, pattern: Seq<char>, k: int)
    requires
        0 <= k,
        k + pattern.len() <= s.len(),
        s.subrange(k, k + pattern.len()) == pattern,
    ensures
        index_of(s, pattern) is Some,
        index_of(s, pattern).unwrap() <= k,
{
    law_pattern_is_found_first(s, pattern);
    assert(occurs_at(s, pattern, k));
    let i = index_of(s, pattern).unwrap();
    assert(first_at(s, pattern, i));
}

/// The first and the last place of a character split a text there: what stands before the first, and
/// what stands behind the last, does not hold it.
pub proof fn law_character_is_found(a: Seq<char>, c: char, b: Seq<char>)
    ensures
        !a.contains(c) ==> index_of_char(a + seq![c] + b, c) == Some(a.len() as int),
        !b.contains(c) ==> last_index_of_char(a + seq![c] + b, c) == Some(a.len() as int),
        !a.contains(c) ==> index_of_char(a, c) is None && last_index_of_char(a, c) is None,
{
    let s = a + seq![c] + b;
    assert(s[a.len() as int] == c);
    if !a.contains(c) {
        assert forall|j: int| 0 <= j < a.len() implies s[j] != c by {
            assert(a.contains(a[j]));
        }
        assert(first_char_at(s, c, a.len() as int));
        lemma_index_of_char(s, c, a.len() as int);
    }
    if !b.contains(c) {
        assert forall|j: int| a.len() < j < s.len() implies s[j] != c by {
            assert(b.contains(b[j - a.len() - 1]));
        }
        assert(last_char_at(s, c, a.len() as int));
        lemma_last_index_of_char(s, c, a.len() as int);
    }
}

/// Two texts that are joined by a character come apart again, if the first does not hold it. A text
/// without the character stays whole.
pub proof fn law_joined_texts_come_apart(a: Seq<char>, c: char, b: Seq<char>)
    requires
        !a.contains(c),
    ensures
        split_once(a + seq![c] + b, c) == Some((a, b)),
        before_char(a + seq![c] + b, c) == a,
        split_once(a, c) is None,
        before_char(a, c) == a,
{
    law_character_is_found(a, c, b);
    let s = a + seq![c] + b;
    assert(s.take(a.len() as int) =~= a);
    assert(s.skip(a.len() as int + 1) =~= b);
}

/// Of the characters of ASCII the tab, the four that begin a line or a page, and the space are white,
/// and no other.
pub proof fn law_ascii_white_space(c: char)
    requires
        (c as u32) < 128,
    ensures
        is_white(c) <==> c == '\t' || c == '\n' || c == '\u{b}' || c == '\u{c}' || c == '\r' || c
            == ' ',
{
}

/// Trimming takes white space from both ends and nothing else: a text with a character that is not
/// white at each end comes out as it is, whatever white space is put around it.
pub proof fn law_trimming_takes_white_space_only(a: Seq<char>, s: Seq<char>, b: Seq<char>)
    requires
        forall|i: int| 0 <= i < a.len() ==> is_white(a[i]),
        forall|i: int| 0 <= i < b.len() ==> is_white(b[i]),
        s.len() > 0 ==> !is_white(s[0]) && !is_white(s.last()),
    ensures
        trimmed(a + s + b) == s,
{
    lemma_trimmed_start(a, s + b);
    assert(a + s + b =~= a + (s + b));
    if s.len() > 0 {
        assert((s + b)[0] == s[0]);
        lemma_trimmed_end(s, b);
    } else {
        assert(s + b =~= b);
        assert(b + s =~= b);
        lemma_trimmed_start(b, s);
        assert(trimmed_start(a + (s + b)) == s);
    }
}

proof fn lemma_trimmed_start(a: Seq<char>, s: Seq<char>)
    requires
        forall|i: int| 0 <= i < a.len() ==> is_white(a[i]),
    ensures
        trimmed_start(a + s) == trimmed_start(s),
    decreases a.len(),
{
    if a.len() == 0 {
        assert(a + s =~= s);
    } else {
        assert((a + s)[0] == a[0]);
        assert((a + s).drop_first() =~= a.drop_first() + s);
        assert forall|i: int| 0 <= i < a.drop_first().len() implies is_white(a.drop_first()[i]) by {
            assert(a.drop_first()[i] == a[i + 1]);
        }
        lemma_trimmed_start(a.drop_first(), s);
    }
}

proof fn lemma_trimmed_end(s: Seq<char>, b: Seq<char>)
    requires
        forall|i: int| 0 <= i < b.len() ==> is_white(b[i]),
        s.len() > 0,
        !is_white(s.last()),
    ensures
        trimmed_end(s + b) == s,
    decreases b.len(),
{
    if b.len() == 0 {
        assert(s + b =~= s);
    } else {
        assert((s + b).last() == b.last());
        assert((s + b).drop_last() =~= s + b.drop_last());
        lemma_trimmed_end(s, b.drop_last());
    }
}

/// A line ends at a line feed, or at a carriage return and a line feed, and neither is part of it. A
/// carriage return anywhere else is. What stands behind is read as lines of its own, and the last line
/// needs no end.
pub proof fn law_lines_are_read_one_by_one(line: Seq<char>, rest: Seq<char>)
    requires
        !line.contains('\n'),
    ensures
        line.len() == 0 || line.last() != '\r' ==> line_seq(line + seq!['\n'] + rest) == seq![line]
            + line_seq(rest),
        line_seq(line + seq!['\r'] + seq!['\n'] + rest) == seq![line] + line_seq(rest),
        line.len() > 0 ==> line_seq(line) == seq![line],
        line_seq(Seq::empty()) == Seq::<Seq<char>>::empty(),
{
    let s = line + seq!['\n'] + rest;
    law_character_is_found(line, '\n', rest);
    assert(s.take(line.len() as int) =~= line);
    assert(s.skip(line.len() as int + 1) =~= rest);
    let l = line + seq!['\r'];
    assert(!l.contains('\n')) by {
        if l.contains('\n') {
            let k = choose|k: int| 0 <= k < l.len() && l[k] == '\n';
            assert(line[k] == '\n');
        }
    }
    let t = l + seq!['\n'] + rest;
    law_character_is_found(l, '\n', rest);
    assert(t.take(l.len() as int) =~= l);
    assert(t.skip(l.len() as int + 1) =~= rest);
    assert(l.drop_last() =~= line);
}

/// No line that is read holds a line feed, and none is longer than the text.
pub proof fn law_lines_hold_no_line_feed(s: Seq<char>, i: int)
    requires
        0 <= i < line_seq(s).len(),
    ensures
        !line_seq(s)[i].contains('\n'),
        line_seq(s)[i].len() <= s.len(),
    decreases s.len(),
{
    lemma_index_of_char_first(s, '\n');
    match index_of_char(s, '\n') {
        Some(k) => {
            let head = s.take(k);
            let first = without_cr(head);
            assert(!first.contains('\n')) by {
                if first.contains('\n') {
                    let j = choose|j: int| 0 <= j < first.len() && first[j] == '\n';
                    assert(s[j] == '\n');
                }
            }
            if i > 0 {
                law_lines_hold_no_line_feed(s.skip(k + 1), i - 1);
            }
        },
        None => {},
    }
}

/// A number grows by a digit at a time: another digit behind it multiplies it by ten and adds the
/// digit, as long as it is not too large.
pub proof fn law_number_grows_by_its_digits(s: Seq<char>, d: nat, max: nat)
    requires
        d < 10,
        number(s, max) is Some,
    ensures
        number(seq![('0' as nat + d) as char], 9) == Some(d),
        number(s.push(('0' as nat + d) as char), max) == (if number(s, max).unwrap() * 10 + d
            <= max {
            Some(number(s, max).unwrap() * 10 + d)
        } else {
            None
        }),
{
    let c = ('0' as nat + d) as char;
    let one = seq![c];
    assert(unsigned_digits(one) == one);
    assert(one.drop_last() =~= Seq::<char>::empty());
    assert(digits_value(one.drop_last()) == 0);
    assert(digits_value(one) == d);
    let t = s.push(c);
    let digits = unsigned_digits(s);
    assert(unsigned_digits(t) =~= digits.push(c));
    assert(digits.push(c).drop_last() =~= digits);
    assert(digits_value(digits.push(c)) == digits_value(digits) * 10 + d);
    assert forall|i: int| 0 <= i < digits.push(c).len() implies is_digit(digits.push(c)[i]) by {
        if i < digits.len() {
            assert(is_digit(digits[i]));
        }
    }
}

/// A number that is read is not above the limit, and a text is none that is empty or holds anything
/// but digits behind one plus sign.
pub proof fn law_only_digits_are_a_number(s: Seq<char>, max: nat, i: int)
    ensures
        number(s, max) matches Some(n) ==> n <= max,
        s.len() == 0 ==> number(s, max) is None,
        0 < i < s.len() && !('0' <= s[i] <= '9') ==> number(s, max) is None,
        0 < s.len() && !('0' <= s[0] <= '9') && s[0] != '+' ==> number(s, max) is None,
        s.len() > 0 && '0' <= s[0] <= '9' ==> number(seq!['+'] + s, max) == number(s, max),
{
    let digits = unsigned_digits(s);
    if number(s, max) is Some && 0 < i < s.len() && !('0' <= s[i] <= '9') {
        if s[0] == '+' {
            assert(digits[i - 1] == s[i]);
            assert(is_digit(digits[i - 1]));
        } else {
            assert(is_digit(digits[i]));
        }
    }
    if number(s, max) is Some && s.len() > 0 && s[0] != '+' {
        assert(is_digit(digits[0]));
    }
    if s.len() > 0 && '0' <= s[0] <= '9' {
        assert(unsigned_digits(seq!['+'] + s) =~= s);
    }
}

/// Two numbers are written alike only if they are the same, and no number but 0 begins with a 0.
pub proof fn law_decimals_are_distinct(n: nat, m: nat)
    ensures
        decimal(n) == decimal(m) ==> n == m,
        n > 0 ==> decimal(n)[0] != '0',
    decreases n,
{
    lemma_decimal_digits(n);
    lemma_decimal_digits(m);
    if n >= 10 {
        law_decimals_are_distinct(n / 10, m);
        lemma_decimal_digits(n / 10);
        assert(decimal(n)[0] == decimal(n / 10)[0]);
    }
}

/// A number of two digits is written with two digits, a shorter one with a leading 0, and either
/// reads back.
pub proof fn law_two_digits_read_back(n: nat, max: nat)
    requires
        n <= max,
    ensures
        n < 100 ==> two_digits(n).len() == 2,
        n >= 100 ==> two_digits(n) == decimal(n),
        n < 10 ==> two_digits(n)[0] == '0',
        number(two_digits(n), max) == Some(n),
{
    law_decimal_reads_back(n, max);
    lemma_decimal_digits(n);
    if n < 10 {
        let t = two_digits(n);
        assert(t =~= seq!['0', digit_char(n)]);
        assert(unsigned_digits(t) == t);
        assert(t.drop_last() =~= seq!['0']);
        assert(t.drop_last().drop_last() =~= Seq::<char>::empty());
        assert(digits_value(t.drop_last().drop_last()) == 0);
        assert(digits_value(t.drop_last()) == 0);
        assert(digits_value(t) == n);
    } else if n < 100 {
        assert(decimal(n / 10).len() == 1);
    }
}

/// What stands before a character is the beginning of the text.
pub proof fn law_cut_text_is_the_beginning(s: Seq<char>, c: char)
    ensures
        before_char(s, c).is_prefix_of(s),
        !before_char(s, c).contains(c),
        before_char(s, c).len() < s.len() ==> s[before_char(s, c).len() as int] == c,
        before_char(s, c).len() > 0 ==> before_char(s, c)[0] == s[0],
{
    lemma_index_of_char_first(s, c);
    let head = before_char(s, c);
    assert(s.subrange(0, head.len() as int) =~= head);
    match index_of_char(s, c) {
        Some(i) => {
            if head.contains(c) {
                let k = choose|k: int| 0 <= k < head.len() && head[k] == c;
                assert(s[k] == c);
            }
        },
        None => {},
    }
}

/// Beyond ASCII the spaces of typography and the separators of lines and paragraphs are white, and
/// nothing else.
pub proof fn law_wide_white_space(c: char)
    requires
        (c as u32) >= 128,
    ensures
        is_white(c) ==> (c as u32) <= 0x3000,
        (c as u32) < 0x1680 ==> (is_white(c) <==> (c as u32) == 0x85 || (c as u32) == 0xa0),
        0x1680 <= (c as u32) < 0x2000 ==> (is_white(c) <==> (c as u32) == 0x1680),
        0x2000 <= (c as u32) < 0x2030 ==> (is_white(c) <==> (c as u32) <= 0x200a || (c as u32)
            == 0x2028 || (c as u32) == 0x2029 || (c as u32) == 0x202f),
        0x2030 <= (c as u32) < 0x3000 ==> (is_white(c) <==> (c as u32) == 0x205f),
        (c as u32) == 0x3000 ==> is_white(c),
{
}

/// What is shown of a row of texts is every text as it is, in its place.
pub proof fn law_texts_are_shown_as_they_are(v: Seq<Vec<char>>, i: int)
    ensures
        texts(v).len() == v.len(),
        0 <= i < v.len() ==> texts(v)[i] == v[i]@,
{
}

} // verus!
