//! Character and string utilities shared by the whole crate: case-insensitive
//! comparison, substring search, digit parsing and placeholder replacement.

use vstd::prelude::*;

verus! {

/// True for an ASCII upper-case letter.
pub open spec fn is_upper(c: char) -> bool {
    65 <= c as u32 && c as u32 <= 90
}

/// Two characters are equal up to ASCII case.
pub open spec fn eq_nocase_char(a: char, b: char) -> bool {
    a == b
    || (is_upper(a) && a as u32 + 32 == b as u32)
    || (is_upper(b) && b as u32 + 32 == a as u32)
}

/// Two character sequences are equal up to ASCII case.
pub open spec fn eq_nocase(a: Seq<char>, b: Seq<char>) -> bool {
    a.len() == b.len() && forall|i: int| 0 <= i < a.len() ==> eq_nocase_char(a[i], b[i])
}

/// Compares two characters ignoring ASCII case.
pub fn chars_eq_nocase(a: char, b: char) -> (r: bool)
    ensures
        r == eq_nocase_char(a, b),
{
    if a == b {
        true
    } else {
        let au = a as u32;
        let bu = b as u32;
        (65 <= au && au <= 90 && au + 32 == bu) || (65 <= bu && bu <= 90 && bu + 32 == au)
    }
}

/// Compares two strings ignoring ASCII case.
pub fn str_eq_nocase(a: &str, b: &str) -> (r: bool)
    ensures
        r == eq_nocase(a@, b@),
{
    let an = a.unicode_len();
    let bn = b.unicode_len();
    if an != bn {
        return false;
    }
    let mut i: usize = 0;
    while i < an
        invariant
            an == a@.len(),
            an == b@.len(),
            i <= an,
            forall|k: int| 0 <= k < i ==> #[trigger] eq_nocase_char(a@[k], b@[k]),
        decreases an - i,
    {
        if !chars_eq_nocase(a.get_char(i), b.get_char(i)) {
            return false;
        }
        i = i + 1;
    }
    true
}

/// `needle` occurs in `hay` starting at position `i`.
pub open spec fn matches_at(hay: Seq<char>, i: int, needle: Seq<char>) -> bool {
    0 <= i && i + needle.len() <= hay.len() && hay.subrange(i, i + needle.len()) == needle
}

/// `needle` occurs somewhere in `hay`.
pub open spec fn contains_seq(hay: Seq<char>, needle: Seq<char>) -> bool {
    exists|i: int| matches_at(hay, i, needle)
}

/// Tests whether `needle` occurs in `hay` at position `i`.
pub fn matches_at_exec(hay: &str, i: usize, needle: &str) -> (r: bool)
    requires
        i + needle@.len() <= hay@.len(),
        hay@.len() <= usize::MAX,
    ensures
        r == matches_at(hay@, i as int, needle@),
{
    let n = needle.unicode_len();
    let mut j: usize = 0;
    while j < n
        invariant
            n == needle@.len(),
            i + n <= hay@.len(),
            hay@.len() <= usize::MAX,
            j <= n,
            forall|k: int| 0 <= k < j ==> hay@[i + k] == needle@[k],
        decreases n - j,
    {
        if hay.get_char(i + j) != needle.get_char(j) {
            proof {
                let sub = hay@.subrange(i as int, i + needle@.len());
                assert(sub[j as int] != needle@[j as int]);
            }
            return false;
        }
        j = j + 1;
    }
    proof {
        let sub = hay@.subrange(i as int, i + needle@.len());
        assert(sub =~= needle@);
    }
    true
}

/// Compares two strings character by character.
pub fn str_eq(a: &str, b: &str) -> (r: bool)
    ensures
        r == (a@ == b@),
{
    let an = a.unicode_len();
    let bn = b.unicode_len();
    if an != bn {
        return false;
    }
    let mut i: usize = 0;
    while i < an
        invariant
            an == a@.len(),
            an == b@.len(),
            i <= an,
            forall|k: int| 0 <= k < i ==> a@[k] == b@[k],
        decreases an - i,
    {
        if a.get_char(i) != b.get_char(i) {
            return false;
        }
        i = i + 1;
    }
    proof {
        assert(a@ =~= b@);
    }
    true
}

/// Substring search: does `needle` occur anywhere in `hay`?
pub fn contains_str(hay: &str, needle: &str) -> (r: bool)
    ensures
        r == contains_seq(hay@, needle@),
{
    let hn = hay.unicode_len();
    let nn = needle.unicode_len();
    if nn > hn {
        proof {
            assert(forall|i: int| !matches_at(hay@, i, needle@));
        }
        return false;
    }
    if nn == 0 {
        proof {
            assert(hay@.subrange(0, 0) =~= needle@);
            assert(matches_at(hay@, 0, needle@));
        }
        return true;
    }
    let mut i: usize = 0;
    while i <= hn - nn
        invariant
            hn == hay@.len(),
            nn == needle@.len(),
            0 < nn <= hn,
            i <= hn - nn + 1,
            forall|k: int| 0 <= k < i ==> !matches_at(hay@, k, needle@),
        decreases hn - nn + 1 - i,
    {
        if matches_at_exec(hay, i, needle) {
            return true;
        }
        i = i + 1;
    }
    proof {
        assert(forall|k: int| k > hn - nn ==> !matches_at(hay@, k, needle@));
    }
    false
}

/// Index of the first occurrence of `c` in `s` at or after `i`.
pub open spec fn spec_find_char(s: Seq<char>, i: int, c: char) -> Option<int>
    decreases s.len() - i when 0 <= i <= s.len()
{
    if i >= s.len() {
        None
    } else if s[i] == c {
        Some(i)
    } else {
        spec_find_char(s, i + 1, c)
    }
}

/// Index of the first occurrence of `c` in `s` at or after `i`, if any.
pub fn find_char_from(s: &str, i: usize, c: char) -> (r: Option<usize>)
    requires
        i <= s@.len(),
    ensures
        match r {
            Some(j) => spec_find_char(s@, i as int, c) == Some(j as int) && i <= j < s@.len()
                && s@[j as int] == c && forall|k: int| i <= k < j ==> s@[k] != c,
            None => spec_find_char(s@, i as int, c) is None && forall|k: int|
                i <= k < s@.len() ==> s@[k] != c,
        },
{
    let n = s.unicode_len();
    let mut j: usize = i;
    while j < n
        invariant
            n == s@.len(),
            i <= j <= n,
            spec_find_char(s@, i as int, c) == spec_find_char(s@, j as int, c),
            forall|k: int| i <= k < j ==> s@[k] != c,
        decreases n - j,
    {
        if s.get_char(j) == c {
            return Some(j);
        }
        j = j + 1;
    }
    None
}

/// A line's content: the line with one trailing carriage return dropped,
/// so documents with either line-ending style read the same.
pub open spec fn spec_strip_cr(line: Seq<char>) -> Seq<char> {
    if line.len() > 0 && line.last() == '\r' {
        line.drop_last()
    } else {
        line
    }
}

/// The whitespace stripped from a name's ends.
pub open spec fn is_blank(c: char) -> bool {
    c == ' ' || c == '\n' || c == '\r' || c == '\t'
}

/// First index at or after `i` holding a non-blank character.
pub open spec fn spec_blank_start(s: Seq<char>, i: int) -> int
    decreases s.len() - i when 0 <= i <= s.len()
{
    if i < s.len() && is_blank(s[i]) {
        spec_blank_start(s, i + 1)
    } else {
        i
    }
}

/// Last bound at or before `j` after dropping trailing blanks.
pub open spec fn spec_blank_end(s: Seq<char>, j: int) -> int
    decreases j when 0 <= j <= s.len()
{
    if j > 0 && is_blank(s[j - 1]) {
        spec_blank_end(s, j - 1)
    } else {
        j
    }
}

/// A string with leading and trailing whitespace dropped.
pub open spec fn spec_trim(s: Seq<char>) -> Seq<char> {
    let a = spec_blank_start(s, 0);
    let b = spec_blank_end(s, s.len() as int);
    if 0 <= a <= b <= s.len() {
        s.subrange(a, b)
    } else {
        Seq::empty()
    }
}

/// Tests a character for name-edge whitespace.
pub fn is_blank_exec(c: char) -> (r: bool)
    ensures
        r == is_blank(c),
{
    c == ' ' || c == '\n' || c == '\r' || c == '\t'
}

/// Strips leading and trailing whitespace.
pub fn trim_str(s: &str) -> (r: String)
    ensures
        r@ == spec_trim(s@),
{
    let n = s.unicode_len();
    let mut a: usize = 0;
    while a < n && is_blank_exec(s.get_char(a))
        invariant
            n == s@.len(),
            a <= n,
            spec_blank_start(s@, 0) == spec_blank_start(s@, a as int),
        decreases n - a,
    {
        a = a + 1;
    }
    let mut b: usize = n;
    while b > 0 && is_blank_exec(s.get_char(b - 1))
        invariant
            n == s@.len(),
            b <= n,
            spec_blank_end(s@, n as int) == spec_blank_end(s@, b as int),
        decreases b,
    {
        b = b - 1;
    }
    if a <= b {
        substring_string(s, a, b)
    } else {
        let r = String::new();
        proof {
            assert(spec_trim(s@) =~= Seq::<char>::empty());
        }
        r
    }
}

/// True for an ASCII decimal digit.
pub open spec fn is_digit(c: char) -> bool {
    48 <= c as u32 && c as u32 <= 57
}

/// Numeric value of a digit character.
pub open spec fn digit_val(c: char) -> int {
    c as u32 - 48
}

/// Every character of `s` is a decimal digit.
pub open spec fn all_digits(s: Seq<char>) -> bool {
    forall|i: int| 0 <= i < s.len() ==> is_digit(s[i])
}

/// The number denoted by a sequence of decimal digits, most significant first.
pub open spec fn digits_val(s: Seq<char>) -> int
    decreases s.len(),
{
    if s.len() == 0 {
        0
    } else {
        digits_val(s.drop_last()) * 10 + digit_val(s.last())
    }
}

/// The value of a digit run grows with its length, within any enclosing
/// sequence of digits.
pub proof fn lemma_digits_val_grows_sub(s: Seq<char>, i: int, k: int, j: int)
    requires
        0 <= i <= k <= j <= s.len(),
        all_digits(s.subrange(i, j)),
    ensures
        digits_val(s.subrange(i, k)) <= digits_val(s.subrange(i, j)),
{
    let t = s.subrange(i, j);
    assert(t.subrange(0, k - i) =~= s.subrange(i, k));
    lemma_digits_val_grows(t, k - i);
}

/// What parsing a decimal number from a whole string yields: the digits'
/// value, when the string is one or more digits denoting at most `u32::MAX`.
pub open spec fn spec_parse_u32(s: Seq<char>) -> Option<u32> {
    if s.len() > 0 && all_digits(s) && digits_val(s) <= u32::MAX {
        Some(digits_val(s) as u32)
    } else {
        None
    }
}

proof fn lemma_digits_val_nonneg(s: Seq<char>)
    requires
        all_digits(s),
    ensures
        digits_val(s) >= 0,
    decreases s.len(),
{
    if s.len() > 0 {
        assert(all_digits(s.drop_last()));
        lemma_digits_val_nonneg(s.drop_last());
    }
}

/// Appending further digits never shrinks the denoted value.
pub proof fn lemma_digits_val_grows(s: Seq<char>, i: int)
    requires
        all_digits(s),
        0 <= i <= s.len(),
    ensures
        digits_val(s.subrange(0, i)) <= digits_val(s),
    decreases s.len() - i,
{
    if i < s.len() {
        let t = s.subrange(0, i + 1);
        assert(t.drop_last() =~= s.subrange(0, i));
        assert(all_digits(t));
        lemma_digits_val_nonneg(s.subrange(0, i));
        assert(digits_val(s.subrange(0, i)) <= digits_val(t));
        lemma_digits_val_grows(s, i + 1);
        assert(s.subrange(0, s.len() as int) =~= s);
    } else {
        assert(s.subrange(0, i) =~= s);
    }
}

/// Parses a whole string as a decimal `u32`.
pub fn parse_u32(s: &str) -> (r: Option<u32>)
    ensures
        r == spec_parse_u32(s@),
{
    let n = s.unicode_len();
    if n == 0 {
        return None;
    }
    let mut acc: u64 = 0;
    let mut i: usize = 0;
    while i < n
        invariant
            n == s@.len(),
            i <= n,
            all_digits(s@.subrange(0, i as int)),
            acc == digits_val(s@.subrange(0, i as int)),
            acc <= u32::MAX,
        decreases n - i,
    {
        let c = s.get_char(i);
        let cu = c as u32;
        if cu < 48 || cu > 57 {
            assert(!all_digits(s@));
            return None;
        }
        let d = (cu - 48) as u64;
        let next = acc * 10 + d;
        proof {
            let t = s@.subrange(0, i + 1);
            assert(t.drop_last() =~= s@.subrange(0, i as int));
            assert(all_digits(t));
            assert(digits_val(t) == acc * 10 + d);
        }
        if next > u32::MAX as u64 {
            proof {
                if all_digits(s@) {
                    lemma_digits_val_grows(s@, i + 1);
                    assert(!(digits_val(s@) <= u32::MAX));
                }
            }
            return None;
        }
        acc = next;
        i = i + 1;
    }
    proof {
        assert(s@.subrange(0, n as int) =~= s@);
    }
    Some(acc as u32)
}

/// Every occurrence of the non-empty pattern `pat` in `s`, scanned left to
/// right, replaced by `sub`.
pub open spec fn spec_replace(s: Seq<char>, pat: Seq<char>, sub: Seq<char>) -> Seq<char>
    decreases s.len(),
{
    if pat.len() == 0 || s.len() < pat.len() {
        s
    } else if s.subrange(0, pat.len() as int) == pat {
        sub + spec_replace(s.skip(pat.len() as int), pat, sub)
    } else {
        seq![s[0]] + spec_replace(s.skip(1), pat, sub)
    }
}

fn replace_from(s: &str, i: usize, pat: &str, sub: &str) -> (r: String)
    requires
        pat@.len() > 0,
        i <= s@.len(),
    ensures
        r@ == spec_replace(s@.skip(i as int), pat@, sub@),
    decreases s@.len() - i@,
{
    let n = s.unicode_len();
    let pl = pat.unicode_len();
    if n - i < pl {
        let r = String::from_str(s.substring_char(i, n));
        proof {
            assert(s@.subrange(i as int, n as int) =~= s@.skip(i as int));
        }
        r
    } else if matches_at_exec(s, i, pat) {
        let rest = replace_from(s, i + pl, pat, sub);
        let mut r = String::from_str(sub);
        r.append(rest.as_str());
        proof {
            let t = s@.skip(i as int);
            assert(t.subrange(0, pat@.len() as int) =~= s@.subrange(i as int, i + pat@.len()));
            assert(t.skip(pat@.len() as int) =~= s@.skip(i + pl));
        }
        r
    } else {
        let rest = replace_from(s, i + 1, pat, sub);
        let mut r = String::from_str(s.substring_char(i, i + 1));
        r.append(rest.as_str());
        proof {
            let t = s@.skip(i as int);
            assert(t.subrange(0, pat@.len() as int) =~= s@.subrange(i as int, i + pat@.len()));
            assert(t.skip(1) =~= s@.skip(i + 1));
            assert(s@.subrange(i as int, i + 1) =~= seq![t[0]]);
        }
        r
    }
}

/// Copies the characters `from..to` of `s` into a fresh string.
pub fn substring_string(s: &str, from: usize, to: usize) -> (r: String)
    requires
        from <= to <= s@.len(),
    ensures
        r@ == s@.subrange(from as int, to as int),
{
    String::from_str(s.substring_char(from, to))
}

/// Does `s` end with `suffix`?
pub fn ends_with_str(s: &str, suffix: &str) -> (r: bool)
    ensures
        r == (s@.len() >= suffix@.len()
            && s@.subrange(s@.len() - suffix@.len(), s@.len() as int) == suffix@),
{
    let n = s.unicode_len();
    let m = suffix.unicode_len();
    if m > n {
        return false;
    }
    let r = matches_at_exec(s, n - m, suffix);
    proof {
        assert(s@.subrange(n - m, n as int) == s@.subrange(
            s@.len() - suffix@.len(),
            s@.len() as int,
        ));
    }
    r
}

/// Index of the last occurrence of `c` in `s`.
pub open spec fn spec_rfind_char(s: Seq<char>, c: char) -> Option<int>
    decreases s.len(),
{
    if s.len() == 0 {
        None
    } else if s.last() == c {
        Some(s.len() - 1)
    } else {
        spec_rfind_char(s.drop_last(), c)
    }
}

/// Index of the last occurrence of `c` in `s`, if any.
pub fn rfind_char(s: &str, c: char) -> (r: Option<usize>)
    ensures
        match r {
            Some(j) => spec_rfind_char(s@, c) == Some(j as int) && j < s@.len() && s@[j as int]
                == c && forall|k: int| j < k < s@.len() ==> s@[k] != c,
            None => spec_rfind_char(s@, c) is None && forall|k: int|
                0 <= k < s@.len() ==> s@[k] != c,
        },
{
    let n = s.unicode_len();
    let mut j: usize = n;
    proof {
        assert(s@.subrange(0, n as int) =~= s@);
    }
    while j > 0
        invariant
            n == s@.len(),
            j <= n,
            spec_rfind_char(s@, c) == spec_rfind_char(s@.subrange(0, j as int), c),
            forall|k: int| j <= k < s@.len() ==> s@[k] != c,
        decreases j,
    {
        j = j - 1;
        if s.get_char(j) == c {
            proof {
                assert(s@.subrange(0, j + 1).last() == s@[j as int]);
            }
            return Some(j);
        }
        proof {
            assert(s@.subrange(0, j + 1).last() == s@[j as int]);
            assert(s@.subrange(0, j + 1).drop_last() =~= s@.subrange(0, j as int));
        }
    }
    proof {
        assert(s@.subrange(0, 0).len() == 0);
    }
    None
}

/// The pieces of `s` between occurrences of the separator `sep`; splitting
/// the empty string gives one empty piece, and a trailing separator a
/// trailing empty piece.
pub open spec fn spec_split(s: Seq<char>, sep: char) -> Seq<Seq<char>>
    decreases s.len(),
{
    if s.len() == 0 {
        seq![Seq::<char>::empty()]
    } else if s[0] == sep {
        seq![Seq::<char>::empty()] + spec_split(s.skip(1), sep)
    } else {
        let rest = spec_split(s.skip(1), sep);
        seq![seq![s[0]] + rest[0]] + rest.skip(1)
    }
}

/// The pieces joined back with `sep` between them.
pub open spec fn spec_join(ps: Seq<Seq<char>>, sep: char) -> Seq<char>
    decreases ps.len(),
{
    if ps.len() == 0 {
        Seq::empty()
    } else if ps.len() == 1 {
        ps[0]
    } else {
        ps[0] + seq![sep] + spec_join(ps.skip(1), sep)
    }
}

pub proof fn lemma_split_len(s: Seq<char>, sep: char)
    ensures
        spec_split(s, sep).len() >= 1,
    decreases s.len(),
{
    if s.len() > 0 {
        lemma_split_len(s.skip(1), sep);
    }
}

/// Joining the pieces of a split restores the original string.
pub proof fn lemma_join_split(s: Seq<char>, sep: char)
    ensures
        spec_join(spec_split(s, sep), sep) == s,
    decreases s.len(),
{
    lemma_split_len(s, sep);
    if s.len() == 0 {
        assert(spec_join(spec_split(s, sep), sep) =~= s);
    } else if s[0] == sep {
        lemma_join_split(s.skip(1), sep);
        lemma_split_len(s.skip(1), sep);
        let ps = spec_split(s, sep);
        assert(ps.skip(1) =~= spec_split(s.skip(1), sep));
        assert(spec_join(ps, sep) =~= s);
    } else {
        lemma_join_split(s.skip(1), sep);
        let rest = spec_split(s.skip(1), sep);
        lemma_split_len(s.skip(1), sep);
        let ps = spec_split(s, sep);
        if rest.len() == 1 {
            assert(rest.skip(1).len() == 0);
            assert(ps.len() == 1);
            assert(spec_join(rest, sep) == rest[0]);
            assert(rest[0] == s.skip(1));
            assert(ps[0] == seq![s[0]] + rest[0]);
            assert(spec_join(ps, sep) == ps[0]);
            assert(seq![s[0]] + s.skip(1) =~= s);
        } else {
            assert(ps.len() >= 2);
            assert(ps.skip(1) =~~= rest.skip(1));
            assert(ps[0] == seq![s[0]] + rest[0]);
            assert(spec_join(ps, sep) == (seq![s[0]] + rest[0]) + seq![sep] + spec_join(
                rest.skip(1),
                sep,
            ));
            assert(spec_join(rest, sep) == rest[0] + seq![sep] + spec_join(rest.skip(1), sep));
            assert((seq![s[0]] + rest[0]) + seq![sep] + spec_join(rest.skip(1), sep) =~= seq![s[0]]
                + (rest[0] + seq![sep] + spec_join(rest.skip(1), sep)));
            assert(seq![s[0]] + s.skip(1) =~= s);
        }
    }
}

/// Splitting a join of separator-free pieces recovers the pieces.
pub proof fn lemma_split_join(ps: Seq<Seq<char>>, sep: char)
    requires
        ps.len() >= 1,
        forall|i: int, k: int| 0 <= i < ps.len() && 0 <= k < ps[i].len() ==> ps[i][k] != sep,
    ensures
        spec_split(spec_join(ps, sep), sep) == ps,
    decreases ps.len(),
{
    let s = spec_join(ps, sep);
    if ps.len() == 1 {
        lemma_split_no_sep(ps[0], sep);
        assert(spec_split(s, sep) =~~= ps);
    } else {
        let p0 = ps[0];
        assert(s == p0 + seq![sep] + spec_join(ps.skip(1), sep));
        assert(forall|k: int| 0 <= k < p0.len() ==> s[k] == p0[k]);
        assert(s[p0.len() as int] == sep);
        lemma_split_first(s, sep, p0.len() as int);
        assert(s.subrange(0, p0.len() as int) =~= p0);
        assert(s.skip(p0.len() as int + 1) =~= spec_join(ps.skip(1), sep));
        lemma_split_join(ps.skip(1), sep);
        assert(spec_split(s, sep) =~~= ps);
    }
}

/// A string without the separator splits into itself alone.
pub proof fn lemma_split_no_sep(s: Seq<char>, sep: char)
    requires
        forall|k: int| 0 <= k < s.len() ==> s[k] != sep,
    ensures
        spec_split(s, sep) == seq![s],
    decreases s.len(),
{
    if s.len() == 0 {
        assert(spec_split(s, sep) =~~= seq![s]);
    } else {
        lemma_split_no_sep(s.skip(1), sep);
        assert(spec_split(s, sep) =~~= seq![s]);
    }
}

/// Splitting at the first separator: everything before it is the first
/// piece, and the rest splits on its own.
pub proof fn lemma_split_first(s: Seq<char>, sep: char, j: int)
    requires
        0 <= j < s.len(),
        s[j] == sep,
        forall|k: int| 0 <= k < j ==> s[k] != sep,
    ensures
        spec_split(s, sep) == seq![s.subrange(0, j)] + spec_split(s.skip(j + 1), sep),
    decreases j,
{
    if j == 0 {
        assert(spec_split(s, sep) =~~= seq![s.subrange(0, 0)] + spec_split(s.skip(1), sep));
    } else {
        lemma_split_first(s.skip(1), sep, j - 1);
        let rest = spec_split(s.skip(1), sep);
        lemma_split_len(s.skip(1).skip(j), sep);
        assert(s.skip(1).subrange(0, j - 1) =~= s.subrange(1, j));
        assert(s.skip(1).skip(j) =~= s.skip(j + 1));
        lemma_split_len(s.skip(j + 1), sep);
        assert(rest[0] == s.subrange(1, j));
        assert(seq![s[0]] + rest[0] =~= s.subrange(0, j));
        assert(rest.skip(1) =~= spec_split(s.skip(j + 1), sep));
        assert(spec_split(s, sep) =~= seq![s.subrange(0, j)] + spec_split(s.skip(j + 1), sep));
    }
}

/// Splits `s` at every occurrence of `sep`.
pub fn split_str(s: &str, sep: char) -> (r: Vec<String>)
    ensures
        r.deep_view() == spec_split(s@, sep),
{
    let n = s.unicode_len();
    let mut out: Vec<String> = Vec::new();
    let mut i: usize = 0;
    proof {
        assert(s@.skip(0) =~= s@);
        assert(out.deep_view() =~= Seq::<Seq<char>>::empty());
        assert(out.deep_view() + spec_split(s@, sep) =~= spec_split(s@, sep));
    }
    loop
        invariant
            n == s@.len(),
            i <= n,
            spec_split(s@, sep) =~= out.deep_view() + spec_split(s@.skip(i as int), sep),
        ensures
            out.deep_view() == spec_split(s@, sep),
        decreases n - i,
    {
        match find_char_from(s, i, sep) {
            Some(j) => {
                let piece = substring_string(s, i, j);
                proof {
                    let t = s@.skip(i as int);
                    lemma_split_first(t, sep, j - i);
                    assert(t.subrange(0, j - i) =~= s@.subrange(i as int, j as int));
                    assert(t.skip(j - i + 1) =~= s@.skip(j + 1));
                }
                let ghost prev = out.deep_view();
                out.push(piece);
                proof {
                    assert(out.deep_view() =~= prev.push(s@.subrange(i as int, j as int)));
                }
                i = j + 1;
            },
            None => {
                let piece = substring_string(s, i, n);
                proof {
                    let t = s@.skip(i as int);
                    lemma_split_no_sep(t, sep);
                    assert(t =~= s@.subrange(i as int, n as int));
                }
                let ghost prev = out.deep_view();
                out.push(piece);
                proof {
                    assert(out.deep_view() =~= prev.push(s@.subrange(i as int, n as int)));
                }
                return out;
            },
        }
    }
}

/// Extending the piece list by one more piece extends the join by a
/// separator and that piece.
pub proof fn lemma_join_push(ps: Seq<Seq<char>>, p: Seq<char>, sep: char)
    ensures
        spec_join(ps.push(p), sep) == if ps.len() == 0 {
            p
        } else {
            spec_join(ps, sep) + seq![sep] + p
        },
    decreases ps.len(),
{
    if ps.len() == 0 {
        assert(ps.push(p).len() == 1);
        assert(spec_join(ps.push(p), sep) == ps.push(p)[0]);
    } else if ps.len() == 1 {
        assert(ps.push(p).skip(1) =~~= seq![p]);
        assert(ps.push(p)[0] == ps[0]);
        assert(spec_join(seq![p], sep) == p);
        assert(spec_join(ps.push(p), sep) =~= ps[0] + seq![sep] + p);
        assert(spec_join(ps, sep) + seq![sep] + p =~= ps[0] + seq![sep] + p);
    } else {
        lemma_join_push(ps.skip(1), p, sep);
        assert(ps.push(p).skip(1) =~= ps.skip(1).push(p));
        assert(spec_join(ps.push(p), sep) == ps[0] + seq![sep] + spec_join(ps.skip(1).push(p), sep));
        assert(spec_join(ps.push(p), sep) =~= spec_join(ps, sep) + seq![sep] + p);
    }
}

/// Joins the strings of `ps` with the one-character separator `sep`.
pub fn join_strs(ps: &Vec<String>, sep: &str) -> (r: String)
    requires
        sep@.len() == 1,
    ensures
        r@ == spec_join(ps.deep_view(), sep@[0]),
{
    let mut acc = String::new();
    let mut i: usize = 0;
    while i < ps.len()
        invariant
            sep@.len() == 1,
            i <= ps@.len(),
            acc@ == spec_join(ps.deep_view().subrange(0, i as int), sep@[0]),
        decreases ps@.len() - i,
    {
        if i > 0 {
            acc.append(sep);
        }
        acc.append(ps[i].as_str());
        proof {
            let dv = ps.deep_view();
            assert(dv.subrange(0, i + 1) =~= dv.subrange(0, i as int).push(dv[i as int]));
            lemma_join_push(dv.subrange(0, i as int), dv[i as int], sep@[0]);
            assert(ps[i as int]@ == dv[i as int]);
            if i == 0 {
                assert(dv.subrange(0, 0).len() == 0);
            }
        }
        i = i + 1;
    }
    proof {
        assert(ps.deep_view().subrange(0, ps@.len() as int) =~= ps.deep_view());
    }
    acc
}

/// Replaces every occurrence of the non-empty `pat` in `s` by `sub`.
pub fn replace_all(s: &str, pat: &str, sub: &str) -> (r: String)
    requires
        pat@.len() > 0,
    ensures
        r@ == spec_replace(s@, pat@, sub@),
{
    let r = replace_from(s, 0, pat, sub);
    proof {
        assert(s@.skip(0) =~= s@);
    }
    r
}

} // verus!
