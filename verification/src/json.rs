//! A reader for the JSON payloads the distribution providers return.
//!
//! Only what those payloads need is understood: objects, arrays, strings
//! with the simple escapes, unsigned integers, `true`, `false` and `null`.
//! Unknown members are tolerated and skipped; a member value that is a
//! signed, fractional or exponent number is skipped too, but such a number
//! is not accepted where an integer or a string is expected.  The string
//! escapes `\b`, `\f` and `\uXXXX` are not accepted: no provider payload
//! uses them, and a payload that does is treated as malformed.

use vstd::prelude::*;

use crate::text::{digits_val, is_digit};

verus! {

/// JSON insignificant whitespace.
pub open spec fn is_ws(c: char) -> bool {
    c == ' ' || c == '\n' || c == '\r' || c == '\t'
}

/// First index at or after `i` holding a non-whitespace character.
pub open spec fn spec_skip_ws(s: Seq<char>, i: int) -> int
    decreases s.len() - i when 0 <= i <= s.len()
{
    if i < s.len() && is_ws(s[i]) {
        spec_skip_ws(s, i + 1)
    } else {
        i
    }
}

/// Tests a character for JSON whitespace.
pub fn is_ws_exec(c: char) -> (r: bool)
    ensures
        r == is_ws(c),
{
    c == ' ' || c == '\n' || c == '\r' || c == '\t'
}

/// Tests a character for an ASCII decimal digit.
pub fn is_digit_exec(c: char) -> (r: bool)
    ensures
        r == is_digit(c),
{
    let cu = c as u32;
    48 <= cu && cu <= 57
}

/// Advances past whitespace.
pub fn skip_ws(s: &str, i: usize) -> (r: usize)
    requires
        i <= s@.len(),
    ensures
        r == spec_skip_ws(s@, i as int),
        i <= r <= s@.len(),
{
    let n = s.unicode_len();
    let mut j: usize = i;
    while j < n && is_ws_exec(s.get_char(j))
        invariant
            n == s@.len(),
            i <= j <= n,
            spec_skip_ws(s@, i as int) == spec_skip_ws(s@, j as int),
        decreases n - j,
    {
        j = j + 1;
    }
    j
}

/// End of the run of decimal digits starting at `i`.
pub open spec fn digit_run_end(s: Seq<char>, i: int) -> int
    decreases s.len() - i when 0 <= i <= s.len()
{
    if i < s.len() && is_digit(s[i]) {
        digit_run_end(s, i + 1)
    } else {
        i
    }
}

pub proof fn lemma_digit_run_end_bounds(s: Seq<char>, i: int)
    requires
        0 <= i <= s.len(),
    ensures
        i <= digit_run_end(s, i) <= s.len(),
        forall|k: int| i <= k < digit_run_end(s, i) ==> is_digit(s[k]),
    decreases s.len() - i,
{
    if i < s.len() && is_digit(s[i]) {
        lemma_digit_run_end_bounds(s, i + 1);
    }
}

/// Advances past a run of decimal digits.
pub fn digit_run_end_exec(s: &str, i: usize) -> (r: usize)
    requires
        i <= s@.len(),
    ensures
        r == digit_run_end(s@, i as int),
        i <= r <= s@.len(),
{
    let n = s.unicode_len();
    let mut j: usize = i;
    while j < n && is_digit_exec(s.get_char(j))
        invariant
            n == s@.len(),
            i <= j <= n,
            digit_run_end(s@, i as int) == digit_run_end(s@, j as int),
        decreases n - j,
    {
        j = j + 1;
    }
    j
}

/// End of a lexical JSON number starting at `i`: optional sign, integer
/// part, optional fraction, optional exponent.  Used only to step over
/// number values; no numeric value is attached.
pub open spec fn spec_number_end(s: Seq<char>, i: int) -> Option<int> {
    let st = if i < s.len() && s[i] == '-' {
        i + 1
    } else {
        i
    };
    if st < s.len() && is_digit(s[st]) {
        let j = digit_run_end(s, st);
        let k = if j + 1 < s.len() && s[j] == '.' && is_digit(s[j + 1]) {
            digit_run_end(s, j + 1)
        } else {
            j
        };
        if k < s.len() && (s[k] == 'e' || s[k] == 'E') {
            let e = if k + 1 < s.len() && (s[k + 1] == '+' || s[k + 1] == '-') {
                k + 2
            } else {
                k + 1
            };
            if e < s.len() && is_digit(s[e]) {
                Some(digit_run_end(s, e))
            } else {
                None
            }
        } else {
            Some(k)
        }
    } else {
        None
    }
}

pub proof fn lemma_number_end_bounds(s: Seq<char>, i: int)
    requires
        0 <= i <= s.len(),
        spec_number_end(s, i) is Some,
    ensures
        i < spec_number_end(s, i)->Some_0 <= s.len(),
{
    let st = if i < s.len() && s[i] == '-' {
        i + 1
    } else {
        i
    };
    lemma_digit_run_end_bounds(s, st);
    if st < s.len() && is_digit(s[st]) {
        lemma_digit_run_end_bounds(s, st + 1);
        assert(digit_run_end(s, st) == digit_run_end(s, st + 1));
    }
    let j = digit_run_end(s, st);
    let k = if j + 1 < s.len() && s[j] == '.' && is_digit(s[j + 1]) {
        digit_run_end(s, j + 1)
    } else {
        j
    };
    if j + 1 < s.len() && s[j] == '.' && is_digit(s[j + 1]) {
        lemma_digit_run_end_bounds(s, j + 1);
    }
    if k < s.len() && (s[k] == 'e' || s[k] == 'E') {
        let e = if k + 1 < s.len() && (s[k + 1] == '+' || s[k + 1] == '-') {
            k + 2
        } else {
            k + 1
        };
        if e < s.len() && is_digit(s[e]) {
            lemma_digit_run_end_bounds(s, e);
        }
    }
}

/// Steps over a lexical JSON number.
pub fn number_end_exec(s: &str, i: usize) -> (r: Option<usize>)
    requires
        i <= s@.len(),
    ensures
        match r {
            Some(j) => spec_number_end(s@, i as int) == Some(j as int) && i < j <= s@.len(),
            None => spec_number_end(s@, i as int) is None,
        },
{
    let n = s.unicode_len();
    let st = if i < n && s.get_char(i) == '-' {
        i + 1
    } else {
        i
    };
    if !(st < n && is_digit_exec(s.get_char(st))) {
        return None;
    }
    let j = digit_run_end_exec(s, st);
    let k = if j < n && s.get_char(j) == '.' && j + 1 < n && is_digit_exec(s.get_char(j + 1)) {
        digit_run_end_exec(s, j + 1)
    } else {
        j
    };
    if k < n && (s.get_char(k) == 'e' || s.get_char(k) == 'E') {
        let e = if k + 1 < n && (s.get_char(k + 1) == '+' || s.get_char(k + 1) == '-') {
            k + 2
        } else {
            k + 1
        };
        if e < n && is_digit_exec(s.get_char(e)) {
            let r = digit_run_end_exec(s, e);
            proof {
                lemma_number_end_bounds(s@, i as int);
            }
            Some(r)
        } else {
            None
        }
    } else {
        proof {
            lemma_number_end_bounds(s@, i as int);
        }
        Some(k)
    }
}

/// The escape characters accepted after a backslash inside a string.
pub open spec fn is_simple_escape(c: char) -> bool {
    c == '"' || c == '\\' || c == '/' || c == 'n' || c == 'r' || c == 't'
}

/// The character an escape stands for.
pub open spec fn unescape(c: char) -> char {
    if c == 'n' {
        '\n'
    } else if c == 'r' {
        '\r'
    } else if c == 't' {
        '\t'
    } else {
        c
    }
}

/// Reads a string body from just after the opening quote to the closing
/// quote, undoing escapes; yields the content and the index past the
/// closing quote.
pub open spec fn spec_string_body(s: Seq<char>, i: int) -> Option<(Seq<char>, int)>
    decreases s.len() - i when 0 <= i <= s.len()
{
    if i >= s.len() {
        None
    } else if s[i] == '"' {
        Some((Seq::empty(), i + 1))
    } else if s[i] == '\\' {
        if i + 1 < s.len() && is_simple_escape(s[i + 1]) {
            match spec_string_body(s, i + 2) {
                None => None,
                Some((t, j)) => Some((seq![unescape(s[i + 1])] + t, j)),
            }
        } else {
            None
        }
    } else {
        match spec_string_body(s, i + 1) {
            None => None,
            Some((t, j)) => Some((seq![s[i]] + t, j)),
        }
    }
}

/// Reads a string body from just after the opening quote.
pub fn string_body_exec(s: &str, i: usize) -> (r: Option<(String, usize)>)
    requires
        i <= s@.len(),
    ensures
        match r {
            Some((t, j)) => spec_string_body(s@, i as int) == Some((t@, j as int)) && i < j
                <= s@.len(),
            None => spec_string_body(s@, i as int) is None,
        },
    decreases s@.len() - i@,
{
    let n = s.unicode_len();
    if i >= n {
        return None;
    }
    let c = s.get_char(i);
    if c == '"' {
        Some((String::new(), i + 1))
    } else if c == '\\' {
        if i + 1 < n {
            let e = s.get_char(i + 1);
            if e == '"' || e == '\\' || e == '/' || e == 'n' || e == 'r' || e == 't' {
                match string_body_exec(s, i + 2) {
                    None => None,
                    Some((t, j)) => {
                        let mut out = if e == 'n' {
                            String::from_str("\n")
                        } else if e == 'r' {
                            String::from_str("\r")
                        } else if e == 't' {
                            String::from_str("\t")
                        } else {
                            crate::text::substring_string(s, i + 1, i + 2)
                        };
                        proof {
                            reveal_strlit("\n");
                            reveal_strlit("\r");
                            reveal_strlit("\t");
                            assert(s@.subrange(i + 1, i + 2) =~= seq![s@[i + 1]]);
                            assert(out@ =~= seq![unescape(s@[i + 1])]);
                        }
                        out.append(t.as_str());
                        Some((out, j))
                    },
                }
            } else {
                None
            }
        } else {
            None
        }
    } else {
        match string_body_exec(s, i + 1) {
            None => None,
            Some((t, j)) => {
                let mut out = crate::text::substring_string(s, i, i + 1);
                proof {
                    assert(s@.subrange(i as int, i + 1) =~= seq![s@[i as int]]);
                }
                out.append(t.as_str());
                Some((out, j))
            },
        }
    }
}

/// Steps over one JSON value starting at `i` (no leading whitespace),
/// yielding the index just past it.
pub open spec fn spec_skip_value(s: Seq<char>, i: int) -> Option<int>
    decreases s.len() - i, 0int when 0 <= i <= s.len()
{
    if i >= s.len() {
        None
    } else if s[i] == '"' {
        match spec_string_body(s, i + 1) {
            None => None,
            Some((t, j)) => Some(j),
        }
    } else if s[i] == '[' {
        spec_skip_array_items(s, i + 1, true)
    } else if s[i] == '{' {
        spec_skip_members(s, i + 1, true)
    } else if s[i] == 't' {
        if i + 3 < s.len() && s[i + 1] == 'r' && s[i + 2] == 'u' && s[i + 3] == 'e' {
            Some(i + 4)
        } else {
            None
        }
    } else if s[i] == 'f' {
        if i + 4 < s.len() && s[i + 1] == 'a' && s[i + 2] == 'l' && s[i + 3] == 's' && s[i + 4]
            == 'e' {
            Some(i + 5)
        } else {
            None
        }
    } else if s[i] == 'n' {
        if i + 3 < s.len() && s[i + 1] == 'u' && s[i + 2] == 'l' && s[i + 3] == 'l' {
            Some(i + 4)
        } else {
            None
        }
    } else {
        spec_number_end(s, i)
    }
}

/// Steps over the items of an array, `i` just past `[` or a comma.
pub open spec fn spec_skip_array_items(s: Seq<char>, i: int, first: bool) -> Option<int>
    decreases s.len() - i, 2int when 0 <= i <= s.len()
{
    if i >= s.len() {
        None
    } else if is_ws(s[i]) {
        spec_skip_array_items(s, i + 1, first)
    } else if s[i] == ']' && first {
        Some(i + 1)
    } else {
        match spec_skip_value(s, i) {
            None => None,
            Some(j) => if i < j <= s.len() {
                spec_skip_array_rest(s, j)
            } else {
                None
            },
        }
    }
}

/// Steps to the end of an array after one item has been read.
pub open spec fn spec_skip_array_rest(s: Seq<char>, i: int) -> Option<int>
    decreases s.len() - i, 1int when 0 <= i <= s.len()
{
    if i >= s.len() {
        None
    } else if is_ws(s[i]) {
        spec_skip_array_rest(s, i + 1)
    } else if s[i] == ']' {
        Some(i + 1)
    } else if s[i] == ',' {
        spec_skip_array_items(s, i + 1, false)
    } else {
        None
    }
}

/// Steps over the members of an object, `i` just past `{` or a comma.
pub open spec fn spec_skip_members(s: Seq<char>, i: int, first: bool) -> Option<int>
    decreases s.len() - i, 3int when 0 <= i <= s.len()
{
    if i >= s.len() {
        None
    } else if is_ws(s[i]) {
        spec_skip_members(s, i + 1, first)
    } else if s[i] == '}' && first {
        Some(i + 1)
    } else if s[i] == '"' {
        match spec_string_body(s, i + 1) {
            None => None,
            Some((k, j)) => if i + 1 < j <= s.len() {
                spec_skip_member_tail(s, j)
            } else {
                None
            },
        }
    } else {
        None
    }
}

/// Steps over a member's colon, `i` just past the key string.
pub open spec fn spec_skip_member_tail(s: Seq<char>, i: int) -> Option<int>
    decreases s.len() - i, 1int when 0 <= i <= s.len()
{
    if i >= s.len() {
        None
    } else if is_ws(s[i]) {
        spec_skip_member_tail(s, i + 1)
    } else if s[i] == ':' {
        spec_skip_member_value(s, i + 1)
    } else {
        None
    }
}

/// Steps over a member's value, `i` just past the colon.
pub open spec fn spec_skip_member_value(s: Seq<char>, i: int) -> Option<int>
    decreases s.len() - i, 2int when 0 <= i <= s.len()
{
    if i >= s.len() {
        None
    } else if is_ws(s[i]) {
        spec_skip_member_value(s, i + 1)
    } else {
        match spec_skip_value(s, i) {
            None => None,
            Some(j) => if i < j <= s.len() {
                spec_skip_obj_rest(s, j)
            } else {
                None
            },
        }
    }
}

/// Steps to the end of an object after one member has been read.
pub open spec fn spec_skip_obj_rest(s: Seq<char>, i: int) -> Option<int>
    decreases s.len() - i, 1int when 0 <= i <= s.len()
{
    if i >= s.len() {
        None
    } else if is_ws(s[i]) {
        spec_skip_obj_rest(s, i + 1)
    } else if s[i] == '}' {
        Some(i + 1)
    } else if s[i] == ',' {
        spec_skip_members(s, i + 1, false)
    } else {
        None
    }
}

/// The whole document is one object, possibly surrounded by whitespace.
pub open spec fn spec_doc_object_ok(s: Seq<char>) -> bool {
    let i = spec_skip_ws(s, 0);
    &&& i < s.len()
    &&& s[i] == '{'
    &&& match spec_skip_members(s, i + 1, true) {
        None => false,
        Some(j) => 0 <= j <= s.len() && spec_skip_ws(s, j) == s.len(),
    }
}

/// Scans an object's members for `key`: `Some(Some(v))` is the index of the
/// first such member's value, `Some(None)` a well-formed scan without the
/// key, `None` a malformed object.
pub open spec fn spec_find_members(s: Seq<char>, i: int, key: Seq<char>, first: bool) -> Option<
    Option<int>,
>
    decreases s.len() - i, 2int when 0 <= i <= s.len()
{
    if i >= s.len() {
        None
    } else if is_ws(s[i]) {
        spec_find_members(s, i + 1, key, first)
    } else if s[i] == '}' && first {
        Some(None)
    } else if s[i] == '"' {
        match spec_string_body(s, i + 1) {
            None => None,
            Some((k, j)) => if i + 1 < j <= s.len() {
                spec_find_tail(s, j, key, k == key)
            } else {
                None
            },
        }
    } else {
        None
    }
}

/// Crosses the colon of the member under scan.
pub open spec fn spec_find_tail(s: Seq<char>, i: int, key: Seq<char>, matched: bool) -> Option<
    Option<int>,
>
    decreases s.len() - i, 1int when 0 <= i <= s.len()
{
    if i >= s.len() {
        None
    } else if is_ws(s[i]) {
        spec_find_tail(s, i + 1, key, matched)
    } else if s[i] == ':' {
        spec_find_value(s, i + 1, key, matched)
    } else {
        None
    }
}

/// At the member's value: yield it when matched, else skip it and go on.
pub open spec fn spec_find_value(s: Seq<char>, i: int, key: Seq<char>, matched: bool) -> Option<
    Option<int>,
>
    decreases s.len() - i, 2int when 0 <= i <= s.len()
{
    if i >= s.len() {
        None
    } else if is_ws(s[i]) {
        spec_find_value(s, i + 1, key, matched)
    } else if matched {
        Some(Some(i))
    } else {
        match spec_skip_value(s, i) {
            None => None,
            Some(j) => if i < j <= s.len() {
                spec_find_rest(s, j, key)
            } else {
                None
            },
        }
    }
}

/// After a skipped member: close the object or go to the next member.
pub open spec fn spec_find_rest(s: Seq<char>, i: int, key: Seq<char>) -> Option<Option<int>>
    decreases s.len() - i, 1int when 0 <= i <= s.len()
{
    if i >= s.len() {
        None
    } else if is_ws(s[i]) {
        spec_find_rest(s, i + 1, key)
    } else if s[i] == '}' {
        Some(None)
    } else if s[i] == ',' {
        spec_find_members(s, i + 1, key, false)
    } else {
        None
    }
}

/// The value of the member `key` of the top-level object: found, absent, or
/// a malformed document.
pub open spec fn spec_member_value(s: Seq<char>, key: Seq<char>) -> Option<Option<int>> {
    let i = spec_skip_ws(s, 0);
    if i < s.len() && s[i] == '{' {
        spec_find_members(s, i + 1, key, true)
    } else {
        None
    }
}

/// The value of the member `key` of the object starting at `v`.
pub open spec fn spec_member_value_in(s: Seq<char>, v: int, key: Seq<char>) -> Option<Option<int>> {
    if 0 <= v < s.len() && s[v] == '{' {
        spec_find_members(s, v + 1, key, true)
    } else {
        None
    }
}

/// Reads a string value at `i`.
pub open spec fn spec_parse_string(s: Seq<char>, i: int) -> Option<(Seq<char>, int)> {
    if 0 <= i < s.len() && s[i] == '"' {
        spec_string_body(s, i + 1)
    } else {
        None
    }
}

/// Reads an unsigned decimal integer value at `i`: a plain digit run
/// without a redundant leading zero, denoting at most `u64::MAX`.
pub open spec fn spec_parse_u64(s: Seq<char>, i: int) -> Option<(u64, int)> {
    if 0 <= i < s.len() && is_digit(s[i]) {
        let j = digit_run_end(s, i);
        if s[i] == '0' && j > i + 1 {
            None
        } else if digits_val(s.subrange(i, j)) <= u64::MAX {
            Some((digits_val(s.subrange(i, j)) as u64, j))
        } else {
            None
        }
    } else {
        None
    }
}

/// Reads the items of an array of strings, `i` just past `[` or a comma.
pub open spec fn spec_str_arr_items(s: Seq<char>, i: int, first: bool) -> Option<
    (Seq<Seq<char>>, int),
>
    decreases s.len() - i, 1int when 0 <= i <= s.len()
{
    if i >= s.len() {
        None
    } else if is_ws(s[i]) {
        spec_str_arr_items(s, i + 1, first)
    } else if s[i] == ']' && first {
        Some((Seq::empty(), i + 1))
    } else if s[i] == '"' {
        match spec_string_body(s, i + 1) {
            None => None,
            Some((t, j)) => if i + 1 < j <= s.len() {
                match spec_str_arr_rest(s, j) {
                    None => None,
                    Some((ts, k)) => Some((seq![t] + ts, k)),
                }
            } else {
                None
            },
        }
    } else {
        None
    }
}

/// After one string item: close the array or go to the next item.
pub open spec fn spec_str_arr_rest(s: Seq<char>, i: int) -> Option<(Seq<Seq<char>>, int)>
    decreases s.len() - i, 0int when 0 <= i <= s.len()
{
    if i >= s.len() {
        None
    } else if is_ws(s[i]) {
        spec_str_arr_rest(s, i + 1)
    } else if s[i] == ']' {
        Some((Seq::empty(), i + 1))
    } else if s[i] == ',' {
        spec_str_arr_items(s, i + 1, false)
    } else {
        None
    }
}

/// Reads a whole array of strings at `i`.
pub open spec fn spec_parse_str_array(s: Seq<char>, i: int) -> Option<(Seq<Seq<char>>, int)> {
    if 0 <= i < s.len() && s[i] == '[' {
        spec_str_arr_items(s, i + 1, true)
    } else {
        None
    }
}

/// Reads the items of an array of unsigned integers.
pub open spec fn spec_u64_arr_items(s: Seq<char>, i: int, first: bool) -> Option<(Seq<u64>, int)>
    decreases s.len() - i, 1int when 0 <= i <= s.len()
{
    if i >= s.len() {
        None
    } else if is_ws(s[i]) {
        spec_u64_arr_items(s, i + 1, first)
    } else if s[i] == ']' && first {
        Some((Seq::empty(), i + 1))
    } else {
        match spec_parse_u64(s, i) {
            None => None,
            Some((v, j)) => if i < j <= s.len() {
                match spec_u64_arr_rest(s, j) {
                    None => None,
                    Some((vs, k)) => Some((seq![v] + vs, k)),
                }
            } else {
                None
            },
        }
    }
}

/// After one integer item: close the array or go to the next item.
pub open spec fn spec_u64_arr_rest(s: Seq<char>, i: int) -> Option<(Seq<u64>, int)>
    decreases s.len() - i, 0int when 0 <= i <= s.len()
{
    if i >= s.len() {
        None
    } else if is_ws(s[i]) {
        spec_u64_arr_rest(s, i + 1)
    } else if s[i] == ']' {
        Some((Seq::empty(), i + 1))
    } else if s[i] == ',' {
        spec_u64_arr_items(s, i + 1, false)
    } else {
        None
    }
}

/// Reads a whole array of unsigned integers at `i`.
pub open spec fn spec_parse_u64_array(s: Seq<char>, i: int) -> Option<(Seq<u64>, int)> {
    if 0 <= i < s.len() && s[i] == '[' {
        spec_u64_arr_items(s, i + 1, true)
    } else {
        None
    }
}

/// Steps over one JSON value.
pub fn skip_value_exec(s: &str, i: usize) -> (r: Option<usize>)
    requires
        i <= s@.len(),
    ensures
        match r {
            Some(j) => spec_skip_value(s@, i as int) == Some(j as int) && i < j <= s@.len(),
            None => spec_skip_value(s@, i as int) is None,
        },
    decreases s@.len() - i@, 0int,
{
    let n = s.unicode_len();
    if i >= n {
        return None;
    }
    let c = s.get_char(i);
    if c == '"' {
        match string_body_exec(s, i + 1) {
            None => None,
            Some((_t, j)) => Some(j),
        }
    } else if c == '[' {
        skip_array_items_exec(s, i + 1, true)
    } else if c == '{' {
        skip_members_exec(s, i + 1, true)
    } else if c == 't' {
        if n - i > 3 && s.get_char(i + 1) == 'r' && s.get_char(i + 2) == 'u' && s.get_char(i + 3)
            == 'e' {
            Some(i + 4)
        } else {
            None
        }
    } else if c == 'f' {
        if n - i > 4 && s.get_char(i + 1) == 'a' && s.get_char(i + 2) == 'l' && s.get_char(i + 3)
            == 's' && s.get_char(i + 4) == 'e' {
            Some(i + 5)
        } else {
            None
        }
    } else if c == 'n' {
        if n - i > 3 && s.get_char(i + 1) == 'u' && s.get_char(i + 2) == 'l' && s.get_char(i + 3)
            == 'l' {
            Some(i + 4)
        } else {
            None
        }
    } else {
        number_end_exec(s, i)
    }
}

/// Steps over the items of an array.
pub fn skip_array_items_exec(s: &str, i: usize, first: bool) -> (r: Option<usize>)
    requires
        i <= s@.len(),
    ensures
        match r {
            Some(j) => spec_skip_array_items(s@, i as int, first) == Some(j as int) && i < j
                <= s@.len(),
            None => spec_skip_array_items(s@, i as int, first) is None,
        },
    decreases s@.len() - i@, 2int,
{
    let n = s.unicode_len();
    if i >= n {
        return None;
    }
    let c = s.get_char(i);
    if is_ws_exec(c) {
        skip_array_items_exec(s, i + 1, first)
    } else if c == ']' && first {
        Some(i + 1)
    } else {
        match skip_value_exec(s, i) {
            None => None,
            Some(j) => skip_array_rest_exec(s, j),
        }
    }
}

/// Steps to the end of an array after an item.
pub fn skip_array_rest_exec(s: &str, i: usize) -> (r: Option<usize>)
    requires
        i <= s@.len(),
    ensures
        match r {
            Some(j) => spec_skip_array_rest(s@, i as int) == Some(j as int) && i < j <= s@.len(),
            None => spec_skip_array_rest(s@, i as int) is None,
        },
    decreases s@.len() - i@, 1int,
{
    let n = s.unicode_len();
    if i >= n {
        return None;
    }
    let c = s.get_char(i);
    if is_ws_exec(c) {
        skip_array_rest_exec(s, i + 1)
    } else if c == ']' {
        Some(i + 1)
    } else if c == ',' {
        skip_array_items_exec(s, i + 1, false)
    } else {
        None
    }
}

/// Steps over the members of an object.
pub fn skip_members_exec(s: &str, i: usize, first: bool) -> (r: Option<usize>)
    requires
        i <= s@.len(),
    ensures
        match r {
            Some(j) => spec_skip_members(s@, i as int, first) == Some(j as int) && i < j
                <= s@.len(),
            None => spec_skip_members(s@, i as int, first) is None,
        },
    decreases s@.len() - i@, 3int,
{
    let n = s.unicode_len();
    if i >= n {
        return None;
    }
    let c = s.get_char(i);
    if is_ws_exec(c) {
        skip_members_exec(s, i + 1, first)
    } else if c == '}' && first {
        Some(i + 1)
    } else if c == '"' {
        match string_body_exec(s, i + 1) {
            None => None,
            Some((_k, j)) => skip_member_tail_exec(s, j),
        }
    } else {
        None
    }
}

/// Crosses a member's colon.
pub fn skip_member_tail_exec(s: &str, i: usize) -> (r: Option<usize>)
    requires
        i <= s@.len(),
    ensures
        match r {
            Some(j) => spec_skip_member_tail(s@, i as int) == Some(j as int) && i < j <= s@.len(),
            None => spec_skip_member_tail(s@, i as int) is None,
        },
    decreases s@.len() - i@, 1int,
{
    let n = s.unicode_len();
    if i >= n {
        return None;
    }
    let c = s.get_char(i);
    if is_ws_exec(c) {
        skip_member_tail_exec(s, i + 1)
    } else if c == ':' {
        skip_member_value_exec(s, i + 1)
    } else {
        None
    }
}

/// Steps over a member's value.
pub fn skip_member_value_exec(s: &str, i: usize) -> (r: Option<usize>)
    requires
        i <= s@.len(),
    ensures
        match r {
            Some(j) => spec_skip_member_value(s@, i as int) == Some(j as int) && i < j <= s@.len(),
            None => spec_skip_member_value(s@, i as int) is None,
        },
    decreases s@.len() - i@, 2int,
{
    let n = s.unicode_len();
    if i >= n {
        return None;
    }
    let c = s.get_char(i);
    if is_ws_exec(c) {
        skip_member_value_exec(s, i + 1)
    } else {
        match skip_value_exec(s, i) {
            None => None,
            Some(j) => skip_obj_rest_exec(s, j),
        }
    }
}

/// Steps to the end of an object after a member.
pub fn skip_obj_rest_exec(s: &str, i: usize) -> (r: Option<usize>)
    requires
        i <= s@.len(),
    ensures
        match r {
            Some(j) => spec_skip_obj_rest(s@, i as int) == Some(j as int) && i < j <= s@.len(),
            None => spec_skip_obj_rest(s@, i as int) is None,
        },
    decreases s@.len() - i@, 1int,
{
    let n = s.unicode_len();
    if i >= n {
        return None;
    }
    let c = s.get_char(i);
    if is_ws_exec(c) {
        skip_obj_rest_exec(s, i + 1)
    } else if c == '}' {
        Some(i + 1)
    } else if c == ',' {
        skip_members_exec(s, i + 1, false)
    } else {
        None
    }
}

/// Checks that the whole document is one object.
pub fn doc_object_ok(s: &str) -> (r: bool)
    ensures
        r == spec_doc_object_ok(s@),
{
    let n = s.unicode_len();
    let i = skip_ws(s, 0);
    if !(i < n && s.get_char(i) == '{') {
        return false;
    }
    match skip_members_exec(s, i + 1, true) {
        None => false,
        Some(j) => skip_ws(s, j) == n,
    }
}

/// Scans an object's members for `key`.
pub fn find_members_exec(s: &str, i: usize, key: &str, first: bool) -> (r: Option<Option<usize>>)
    requires
        i <= s@.len(),
    ensures
        match r {
            Some(Some(v)) => spec_find_members(s@, i as int, key@, first) == Some(
                Some(v as int),
            ) && i <= v < s@.len(),
            Some(None) => spec_find_members(s@, i as int, key@, first) == Some(None::<int>),
            None => spec_find_members(s@, i as int, key@, first) is None,
        },
    decreases s@.len() - i@, 2int,
{
    let n = s.unicode_len();
    if i >= n {
        return None;
    }
    let c = s.get_char(i);
    if is_ws_exec(c) {
        find_members_exec(s, i + 1, key, first)
    } else if c == '}' && first {
        Some(None)
    } else if c == '"' {
        match string_body_exec(s, i + 1) {
            None => None,
            Some((k, j)) => {
                let matched = crate::text::str_eq(k.as_str(), key);
                find_tail_exec(s, j, key, matched)
            },
        }
    } else {
        None
    }
}

/// Crosses the colon of the member under scan.
pub fn find_tail_exec(s: &str, i: usize, key: &str, matched: bool) -> (r: Option<Option<usize>>)
    requires
        i <= s@.len(),
    ensures
        match r {
            Some(Some(v)) => spec_find_tail(s@, i as int, key@, matched) == Some(Some(v as int))
                && i <= v < s@.len(),
            Some(None) => spec_find_tail(s@, i as int, key@, matched) == Some(None::<int>),
            None => spec_find_tail(s@, i as int, key@, matched) is None,
        },
    decreases s@.len() - i@, 1int,
{
    let n = s.unicode_len();
    if i >= n {
        return None;
    }
    let c = s.get_char(i);
    if is_ws_exec(c) {
        find_tail_exec(s, i + 1, key, matched)
    } else if c == ':' {
        find_value_exec(s, i + 1, key, matched)
    } else {
        None
    }
}

/// At the member's value: yield it when matched, else skip it and go on.
pub fn find_value_exec(s: &str, i: usize, key: &str, matched: bool) -> (r: Option<Option<usize>>)
    requires
        i <= s@.len(),
    ensures
        match r {
            Some(Some(v)) => spec_find_value(s@, i as int, key@, matched) == Some(Some(v as int))
                && i <= v < s@.len(),
            Some(None) => spec_find_value(s@, i as int, key@, matched) == Some(None::<int>),
            None => spec_find_value(s@, i as int, key@, matched) is None,
        },
    decreases s@.len() - i@, 2int,
{
    let n = s.unicode_len();
    if i >= n {
        return None;
    }
    let c = s.get_char(i);
    if is_ws_exec(c) {
        find_value_exec(s, i + 1, key, matched)
    } else if matched {
        Some(Some(i))
    } else {
        match skip_value_exec(s, i) {
            None => None,
            Some(j) => find_rest_exec(s, j, key),
        }
    }
}

/// After a skipped member: close the object or go to the next member.
pub fn find_rest_exec(s: &str, i: usize, key: &str) -> (r: Option<Option<usize>>)
    requires
        i <= s@.len(),
    ensures
        match r {
            Some(Some(v)) => spec_find_rest(s@, i as int, key@) == Some(Some(v as int)) && i <= v
                < s@.len(),
            Some(None) => spec_find_rest(s@, i as int, key@) == Some(None::<int>),
            None => spec_find_rest(s@, i as int, key@) is None,
        },
    decreases s@.len() - i@, 1int,
{
    let n = s.unicode_len();
    if i >= n {
        return None;
    }
    let c = s.get_char(i);
    if is_ws_exec(c) {
        find_rest_exec(s, i + 1, key)
    } else if c == '}' {
        Some(None)
    } else if c == ',' {
        find_members_exec(s, i + 1, key, false)
    } else {
        None
    }
}

/// The value of the member `key` of the top-level object.
pub fn member_value_exec(s: &str, key: &str) -> (r: Option<Option<usize>>)
    ensures
        match r {
            Some(Some(v)) => spec_member_value(s@, key@) == Some(Some(v as int)) && v < s@.len(),
            Some(None) => spec_member_value(s@, key@) == Some(None::<int>),
            None => spec_member_value(s@, key@) is None,
        },
{
    let n = s.unicode_len();
    let i = skip_ws(s, 0);
    if i < n && s.get_char(i) == '{' {
        find_members_exec(s, i + 1, key, true)
    } else {
        None
    }
}

/// The value of the member `key` of the object starting at `v`.
pub fn member_value_in_exec(s: &str, v: usize, key: &str) -> (r: Option<Option<usize>>)
    requires
        v <= s@.len(),
    ensures
        match r {
            Some(Some(w)) => spec_member_value_in(s@, v as int, key@) == Some(Some(w as int)) && w
                < s@.len(),
            Some(None) => spec_member_value_in(s@, v as int, key@) == Some(None::<int>),
            None => spec_member_value_in(s@, v as int, key@) is None,
        },
{
    let n = s.unicode_len();
    if v < n && s.get_char(v) == '{' {
        find_members_exec(s, v + 1, key, true)
    } else {
        None
    }
}

/// Reads a string value at `i`.
pub fn parse_string_at(s: &str, i: usize) -> (r: Option<String>)
    requires
        i <= s@.len(),
    ensures
        match r {
            Some(t) => spec_parse_string(s@, i as int) matches Some(p) && p.0 == t@,
            None => spec_parse_string(s@, i as int) is None,
        },
{
    let n = s.unicode_len();
    if i < n && s.get_char(i) == '"' {
        match string_body_exec(s, i + 1) {
            None => None,
            Some((t, _j)) => Some(t),
        }
    } else {
        None
    }
}

/// Reads an unsigned decimal integer value at `i`.
pub fn parse_u64_at(s: &str, i: usize) -> (r: Option<(u64, usize)>)
    requires
        i <= s@.len(),
    ensures
        match r {
            Some((v, j)) => spec_parse_u64(s@, i as int) == Some((v, j as int)) && i < j
                <= s@.len(),
            None => spec_parse_u64(s@, i as int) is None,
        },
{
    let n = s.unicode_len();
    if !(i < n && is_digit_exec(s.get_char(i))) {
        return None;
    }
    let j = digit_run_end_exec(s, i);
    proof {
        lemma_digit_run_end_bounds(s@, i as int);
        lemma_digit_run_end_bounds(s@, i + 1);
        assert(digit_run_end(s@, i as int) == digit_run_end(s@, i + 1));
    }
    if s.get_char(i) == '0' && j > i + 1 {
        return None;
    }
    let ghost run = s@.subrange(i as int, j as int);
    proof {
        assert forall|w: int| 0 <= w < run.len() implies is_digit(run[w]) by {
            assert(run[w] == s@[i + w]);
        }
    }
    let mut acc: u64 = 0;
    let mut k: usize = i;
    while k < j
        invariant
            i <= k <= j <= s@.len(),
            i < j,
            s@.len() <= usize::MAX,
            i < s@.len(),
            is_digit(s@[i as int]),
            j == digit_run_end(s@, i as int),
            !(s@[i as int] == '0' && j > i + 1),
            run == s@.subrange(i as int, j as int),
            crate::text::all_digits(run),
            acc == digits_val(s@.subrange(i as int, k as int)),
        decreases j - k,
    {
        let cu = s.get_char(k) as u32;
        proof {
            assert(run[k - i] == s@[k as int]);
            assert(is_digit(s@[k as int]));
        }
        let d = (cu - 48) as u64;
        proof {
            let t = s@.subrange(i as int, k + 1);
            assert(t.drop_last() =~= s@.subrange(i as int, k as int));
            assert(digits_val(t) == acc * 10 + d);
        }
        if acc > (u64::MAX - d) / 10 {
            proof {
                let m = u64::MAX as int;
                let di = d as int;
                let a = acc as int;
                vstd::arithmetic::div_mod::lemma_fundamental_div_mod(m - di, 10);
                assert(10 * a + di > m);
                assert(digits_val(s@.subrange(i as int, k + 1)) > u64::MAX);
                crate::text::lemma_digits_val_grows_sub(s@, i as int, k + 1, j as int);
                assert(digits_val(run) > u64::MAX);
            }
            return None;
        }
        proof {
            let m = u64::MAX as int;
            let di = d as int;
            let a = acc as int;
            vstd::arithmetic::div_mod::lemma_fundamental_div_mod(m - di, 10);
            assert(10 * a + di <= m);
        }
        acc = acc * 10 + d;
        k = k + 1;
    }
    proof {
        assert(s@.subrange(i as int, j as int) == run);
    }
    Some((acc, j))
}

/// Reads the items of an array of strings.
pub fn str_arr_items_exec(s: &str, i: usize, first: bool) -> (r: Option<(Vec<String>, usize)>)
    requires
        i <= s@.len(),
    ensures
        match r {
            Some((ts, j)) => spec_str_arr_items(s@, i as int, first) == Some(
                (ts.deep_view(), j as int),
            ) && i < j <= s@.len(),
            None => spec_str_arr_items(s@, i as int, first) is None,
        },
    decreases s@.len() - i@, 1int,
{
    let n = s.unicode_len();
    if i >= n {
        return None;
    }
    let c = s.get_char(i);
    if is_ws_exec(c) {
        str_arr_items_exec(s, i + 1, first)
    } else if c == ']' && first {
        let ts: Vec<String> = Vec::new();
        proof {
            assert(ts.deep_view() =~= Seq::<Seq<char>>::empty());
        }
        Some((ts, i + 1))
    } else if c == '"' {
        match string_body_exec(s, i + 1) {
            None => None,
            Some((t, j)) => {
                match str_arr_rest_exec(s, j) {
                    None => None,
                    Some((ts, k)) => {
                        let ghost told = ts.deep_view();
                        let mut out: Vec<String> = Vec::new();
                        out.push(t);
                        let mut rest = ts;
                        let mut w: usize = 0;
                        while w < rest.len()
                            invariant
                                w <= rest@.len(),
                                rest.deep_view() == told,
                                out.deep_view() =~= seq![t@] + told.subrange(0, w as int),
                            decreases rest@.len() - w,
                        {
                            let piece = rest[w].clone();
                            proof {
                                assert(piece@ == told[w as int]);
                                assert((seq![t@] + told.subrange(0, w as int)).push(told[w as int])
                                    =~= seq![t@] + told.subrange(0, w + 1));
                            }
                            out.push(piece);
                            w = w + 1;
                        }
                        proof {
                            assert(told.subrange(0, told.len() as int) =~= told);
                            assert(out.deep_view() =~= seq![t@] + told);
                        }
                        Some((out, k))
                    },
                }
            },
        }
    } else {
        None
    }
}

/// After one string item: close the array or go to the next item.
pub fn str_arr_rest_exec(s: &str, i: usize) -> (r: Option<(Vec<String>, usize)>)
    requires
        i <= s@.len(),
    ensures
        match r {
            Some((ts, j)) => spec_str_arr_rest(s@, i as int) == Some((ts.deep_view(), j as int))
                && i < j <= s@.len(),
            None => spec_str_arr_rest(s@, i as int) is None,
        },
    decreases s@.len() - i@, 0int,
{
    let n = s.unicode_len();
    if i >= n {
        return None;
    }
    let c = s.get_char(i);
    if is_ws_exec(c) {
        str_arr_rest_exec(s, i + 1)
    } else if c == ']' {
        let ts: Vec<String> = Vec::new();
        proof {
            assert(ts.deep_view() =~= Seq::<Seq<char>>::empty());
        }
        Some((ts, i + 1))
    } else if c == ',' {
        str_arr_items_exec(s, i + 1, false)
    } else {
        None
    }
}

/// Reads a whole array of strings at `i`.
pub fn parse_str_array_at(s: &str, i: usize) -> (r: Option<Vec<String>>)
    requires
        i <= s@.len(),
    ensures
        match r {
            Some(ts) => spec_parse_str_array(s@, i as int) matches Some(p) && p.0
                == ts.deep_view(),
            None => spec_parse_str_array(s@, i as int) is None,
        },
{
    let n = s.unicode_len();
    if i < n && s.get_char(i) == '[' {
        match str_arr_items_exec(s, i + 1, true) {
            None => None,
            Some((ts, _j)) => Some(ts),
        }
    } else {
        None
    }
}

/// Reads the items of an array of unsigned integers.
pub fn u64_arr_items_exec(s: &str, i: usize, first: bool) -> (r: Option<(Vec<u64>, usize)>)
    requires
        i <= s@.len(),
    ensures
        match r {
            Some((vs, j)) => spec_u64_arr_items(s@, i as int, first) == Some((vs@, j as int)) && i
                < j <= s@.len(),
            None => spec_u64_arr_items(s@, i as int, first) is None,
        },
    decreases s@.len() - i@, 1int,
{
    let n = s.unicode_len();
    if i >= n {
        return None;
    }
    let c = s.get_char(i);
    if is_ws_exec(c) {
        u64_arr_items_exec(s, i + 1, first)
    } else if c == ']' && first {
        let vs: Vec<u64> = Vec::new();
        proof {
            assert(vs@ =~= Seq::<u64>::empty());
        }
        Some((vs, i + 1))
    } else {
        match parse_u64_at(s, i) {
            None => None,
            Some((v, j)) => {
                match u64_arr_rest_exec(s, j) {
                    None => None,
                    Some((vs, k)) => {
                        let mut out: Vec<u64> = Vec::new();
                        out.push(v);
                        let ghost vold = vs@;
                        let mut rest = vs;
                        let mut w: usize = 0;
                        while w < rest.len()
                            invariant
                                w <= rest@.len(),
                                rest@ == vold,
                                out@ =~= seq![v] + vold.subrange(0, w as int),
                            decreases rest@.len() - w,
                        {
                            let item = rest[w];
                            proof {
                                assert((seq![v] + vold.subrange(0, w as int)).push(vold[w as int])
                                    =~= seq![v] + vold.subrange(0, w + 1));
                            }
                            out.push(item);
                            w = w + 1;
                        }
                        proof {
                            assert(vold.subrange(0, vold.len() as int) =~= vold);
                            assert(out@ =~= seq![v] + vold);
                        }
                        Some((out, k))
                    },
                }
            },
        }
    }
}

/// After one integer item: close the array or go to the next item.
pub fn u64_arr_rest_exec(s: &str, i: usize) -> (r: Option<(Vec<u64>, usize)>)
    requires
        i <= s@.len(),
    ensures
        match r {
            Some((vs, j)) => spec_u64_arr_rest(s@, i as int) == Some((vs@, j as int)) && i < j
                <= s@.len(),
            None => spec_u64_arr_rest(s@, i as int) is None,
        },
    decreases s@.len() - i@, 0int,
{
    let n = s.unicode_len();
    if i >= n {
        return None;
    }
    let c = s.get_char(i);
    if is_ws_exec(c) {
        u64_arr_rest_exec(s, i + 1)
    } else if c == ']' {
        let vs: Vec<u64> = Vec::new();
        proof {
            assert(vs@ =~= Seq::<u64>::empty());
        }
        Some((vs, i + 1))
    } else if c == ',' {
        u64_arr_items_exec(s, i + 1, false)
    } else {
        None
    }
}

/// Reads a whole array of unsigned integers at `i`.
pub fn parse_u64_array_at(s: &str, i: usize) -> (r: Option<Vec<u64>>)
    requires
        i <= s@.len(),
    ensures
        match r {
            Some(vs) => spec_parse_u64_array(s@, i as int) matches Some(p) && p.0 == vs@,
            None => spec_parse_u64_array(s@, i as int) is None,
        },
{
    let n = s.unicode_len();
    if i < n && s.get_char(i) == '[' {
        match u64_arr_items_exec(s, i + 1, true) {
            None => None,
            Some((vs, _j)) => Some(vs),
        }
    } else {
        None
    }
}

} // verus!
