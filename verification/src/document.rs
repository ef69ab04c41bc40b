//! The line-oriented document format of the durable files: the registry
//! index and the per-server sidecar.  A document holds `key = "string"` and
//! `key = true` lines, and the index groups them under `[[servers]]`
//! headers.  Unknown keys are ignored on read, so the files stay forward
//! compatible; string values are quoted with the same escapes the provider
//! payloads use.

use vstd::prelude::*;

use crate::json;

verus! {

/// How one character is written inside a quoted value.
pub open spec fn esc_char(c: char) -> Seq<char> {
    if c == '"' {
        seq!['\\', '"']
    } else if c == '\\' {
        seq!['\\', '\\']
    } else if c == '\n' {
        seq!['\\', 'n']
    } else if c == '\r' {
        seq!['\\', 'r']
    } else if c == '\t' {
        seq!['\\', 't']
    } else {
        seq![c]
    }
}

/// A string value as written inside quotes.
pub open spec fn spec_escape(s: Seq<char>) -> Seq<char>
    decreases s.len(),
{
    if s.len() == 0 {
        Seq::empty()
    } else {
        esc_char(s[0]) + spec_escape(s.skip(1))
    }
}

/// Writes a string value as it stands inside quotes.
pub fn escape_str(s: &str) -> (r: String)
    ensures
        r@ == spec_escape(s@),
{
    let r = escape_from(s, 0);
    proof {
        assert(s@.skip(0) =~= s@);
    }
    r
}

fn escape_from(s: &str, i: usize) -> (r: String)
    requires
        i <= s@.len(),
    ensures
        r@ == spec_escape(s@.skip(i as int)),
    decreases s@.len() - i@,
{
    let n = s.unicode_len();
    if i >= n {
        let r = String::new();
        proof {
            assert(s@.skip(i as int).len() == 0);
        }
        r
    } else {
        let c = s.get_char(i);
        let rest = escape_from(s, i + 1);
        let mut out = if c == '"' {
            String::from_str("\\\"")
        } else if c == '\\' {
            String::from_str("\\\\")
        } else if c == '\n' {
            String::from_str("\\n")
        } else if c == '\r' {
            String::from_str("\\r")
        } else if c == '\t' {
            String::from_str("\\t")
        } else {
            crate::text::substring_string(s, i, i + 1)
        };
        proof {
            reveal_strlit("\\\"");
            reveal_strlit("\\\\");
            reveal_strlit("\\n");
            reveal_strlit("\\r");
            reveal_strlit("\\t");
            let t = s@.skip(i as int);
            assert(t[0] == s@[i as int]);
            assert(s@.subrange(i as int, i + 1) =~= seq![s@[i as int]]);
            assert(out@ =~= esc_char(s@[i as int]));
            assert(t.skip(1) =~= s@.skip(i + 1));
        }
        out.append(rest.as_str());
        proof {
            let t = s@.skip(i as int);
            assert(out@ == esc_char(t[0]) + spec_escape(t.skip(1)));
        }
        out
    }
}

/// No escaped value contains a newline, so a quoted value stays on its line.
pub proof fn lemma_escape_no_newline(s: Seq<char>)
    ensures
        forall|k: int| 0 <= k < spec_escape(s).len() ==> spec_escape(s)[k] != '\n',
    decreases s.len(),
{
    if s.len() > 0 {
        lemma_escape_no_newline(s.skip(1));
        assert forall|k: int| 0 <= k < spec_escape(s).len() implies spec_escape(s)[k] != '\n' by {
            let e = esc_char(s[0]);
            if k < e.len() {
                assert(spec_escape(s)[k] == e[k]);
            } else {
                assert(spec_escape(s)[k] == spec_escape(s.skip(1))[k - e.len()]);
            }
        }
    }
}

/// Reading a quoted value back: the string body scan of an escaped value
/// followed by the closing quote recovers the value exactly.
pub proof fn lemma_string_body_escape(s: Seq<char>, i: int, v: Seq<char>, rest: Seq<char>)
    requires
        0 <= i <= s.len(),
        s.skip(i) == spec_escape(v) + seq!['"'] + rest,
    ensures
        json::spec_string_body(s, i) == Some((v, i + spec_escape(v).len() + 1)),
    decreases v.len(),
{
    let t = s.skip(i);
    assert(t.len() == s.len() - i);
    if v.len() == 0 {
        assert(t[0] == '"');
        assert(s.skip(i)[0] == s[i]);
        assert(s[i] == '"');
        assert(json::spec_string_body(s, i) == Some((Seq::<char>::empty(), i + 1)));
        assert(Seq::<char>::empty() =~= v);
    } else {
        let c = v[0];
        let e = esc_char(c);
        assert(spec_escape(v) == e + spec_escape(v.skip(1)));
        if e.len() == 2 {
            assert(t.len() >= 2 + 1);
            assert(t[0] == e[0] && e[0] == '\\');
            assert(t[1] == e[1]);
            assert(s.skip(i)[0] == s[i]);
            assert(s.skip(i)[1] == s[i + 1]);
            assert(s[i] == '\\');
            assert(i + 1 < s.len());
            assert(s[i + 1] == e[1]);
            assert(json::is_simple_escape(e[1]));
            assert(json::unescape(e[1]) == c);
            assert(t.skip(2) =~= spec_escape(v.skip(1)) + seq!['"'] + rest);
            assert(s.skip(i + 2) =~= t.skip(2));
            lemma_string_body_escape(s, i + 2, v.skip(1), rest);
            assert(seq![c] + v.skip(1) =~= v);
            assert(json::spec_string_body(s, i) == Some(
                (v, i + 2 + spec_escape(v.skip(1)).len() + 1),
            ));
        } else {
            assert(t[0] == e[0] && e[0] == c);
            assert(s.skip(i)[0] == s[i]);
            assert(s[i] == c);
            assert(c != '"' && c != '\\');
            assert(t.skip(1) =~= spec_escape(v.skip(1)) + seq!['"'] + rest);
            assert(s.skip(i + 1) =~= t.skip(1));
            lemma_string_body_escape(s, i + 1, v.skip(1), rest);
            assert(seq![c] + v.skip(1) =~= v);
        }
    }
}

/// Spaces and tabs may pad a line's parts.
pub open spec fn is_sp(c: char) -> bool {
    c == ' ' || c == '\t'
}

/// First index at or after `i` holding a non-padding character.
pub open spec fn spec_skip_sp(s: Seq<char>, i: int) -> int
    decreases s.len() - i when 0 <= i <= s.len()
{
    if i < s.len() && is_sp(s[i]) {
        spec_skip_sp(s, i + 1)
    } else {
        i
    }
}

/// Tests a character for line padding.
pub fn is_sp_exec(c: char) -> (r: bool)
    ensures
        r == is_sp(c),
{
    c == ' ' || c == '\t'
}

/// Advances past padding.
pub fn skip_sp(s: &str, i: usize) -> (r: usize)
    requires
        i <= s@.len(),
    ensures
        r == spec_skip_sp(s@, i as int),
        i <= r <= s@.len(),
{
    let n = s.unicode_len();
    let mut j: usize = i;
    while j < n && is_sp_exec(s.get_char(j))
        invariant
            n == s@.len(),
            i <= j <= n,
            spec_skip_sp(s@, i as int) == spec_skip_sp(s@, j as int),
        decreases n - j,
    {
        j = j + 1;
    }
    j
}

/// End of a key: the first padding character or `=` at or after `i`.
pub open spec fn spec_key_end(s: Seq<char>, i: int) -> int
    decreases s.len() - i when 0 <= i <= s.len()
{
    if i < s.len() && !is_sp(s[i]) && s[i] != '=' {
        spec_key_end(s, i + 1)
    } else {
        i
    }
}

/// Advances to the end of a key.
pub fn key_end(s: &str, i: usize) -> (r: usize)
    requires
        i <= s@.len(),
    ensures
        r == spec_key_end(s@, i as int),
        i <= r <= s@.len(),
{
    let n = s.unicode_len();
    let mut j: usize = i;
    while j < n && !is_sp_exec(s.get_char(j)) && s.get_char(j) != '='
        invariant
            n == s@.len(),
            i <= j <= n,
            spec_key_end(s@, i as int) == spec_key_end(s@, j as int),
        decreases n - j,
    {
        j = j + 1;
    }
    j
}

/// A line's meaning: padding only, a section header, a key with a string or
/// boolean value, or nothing the format knows.
pub enum LineV {
    Blank,
    Header,
    Pair(Seq<char>, ValV),
    Bad,
}

/// A value's meaning.
pub enum ValV {
    S(Seq<char>),
    B(bool),
}

/// What one line of a document means.
pub open spec fn spec_parse_line(line: Seq<char>) -> LineV {
    let i = spec_skip_sp(line, 0);
    if i >= line.len() {
        LineV::Blank
    } else if line[i] == '[' {
        if i + 11 <= line.len() && line.subrange(i, i + 11) == "[[servers]]"@ && spec_skip_sp(
            line,
            i + 11,
        ) == line.len() {
            LineV::Header
        } else {
            LineV::Bad
        }
    } else {
        let j = spec_key_end(line, i);
        let key = line.subrange(i, j);
        let k = spec_skip_sp(line, j);
        if key.len() == 0 || k >= line.len() || line[k] != '=' {
            LineV::Bad
        } else {
            let m = spec_skip_sp(line, k + 1);
            if m >= line.len() {
                LineV::Bad
            } else if line[m] == '"' {
                match json::spec_string_body(line, m + 1) {
                    Some((v, e)) => if 0 <= e <= line.len() && spec_skip_sp(line, e)
                        == line.len() {
                        LineV::Pair(key, ValV::S(v))
                    } else {
                        LineV::Bad
                    },
                    None => LineV::Bad,
                }
            } else if m + 4 <= line.len() && line.subrange(m, m + 4) == "true"@ && spec_skip_sp(
                line,
                m + 4,
            ) == line.len() {
                LineV::Pair(key, ValV::B(true))
            } else if m + 5 <= line.len() && line.subrange(m, m + 5) == "false"@ && spec_skip_sp(
                line,
                m + 5,
            ) == line.len() {
                LineV::Pair(key, ValV::B(false))
            } else {
                LineV::Bad
            }
        }
    }
}

/// A value as read from a line.
pub enum Val {
    S(String),
    B(bool),
}

/// A line as read from a document.
pub enum Line {
    Blank,
    Header,
    Pair(String, Val),
    Bad,
}

impl Val {
    /// The meaning of this value.
    pub open spec fn dv(&self) -> ValV {
        match self {
            Val::S(s) => ValV::S(s@),
            Val::B(b) => ValV::B(*b),
        }
    }
}

impl Line {
    /// The meaning of this line.
    pub open spec fn dv(&self) -> LineV {
        match self {
            Line::Blank => LineV::Blank,
            Line::Header => LineV::Header,
            Line::Pair(k, v) => LineV::Pair(k@, v.dv()),
            Line::Bad => LineV::Bad,
        }
    }
}

/// Reads one line of a document.
pub fn parse_line(line: &str) -> (r: Line)
    ensures
        r.dv() == spec_parse_line(line@),
{
    proof {
        reveal_strlit("[[servers]]");
        reveal_strlit("true");
        reveal_strlit("false");
    }
    let n = line.unicode_len();
    let i = skip_sp(line, 0);
    if i >= n {
        return Line::Blank;
    }
    if line.get_char(i) == '[' {
        if n - i >= 11 && crate::text::matches_at_exec(line, i, "[[servers]]") && skip_sp(
            line,
            i + 11,
        ) == n {
            return Line::Header;
        } else {
            return Line::Bad;
        }
    }
    let j = key_end(line, i);
    let key = crate::text::substring_string(line, i, j);
    let k = skip_sp(line, j);
    if key.unicode_len() == 0 || k >= n || line.get_char(k) != '=' {
        return Line::Bad;
    }
    let m = skip_sp(line, k + 1);
    if m >= n {
        return Line::Bad;
    }
    if line.get_char(m) == '"' {
        match json::string_body_exec(line, m + 1) {
            Some((v, e)) => {
                if skip_sp(line, e) == n {
                    Line::Pair(key, Val::S(v))
                } else {
                    Line::Bad
                }
            },
            None => Line::Bad,
        }
    } else if n - m >= 4 && crate::text::matches_at_exec(line, m, "true") && skip_sp(line, m + 4)
        == n {
        Line::Pair(key, Val::B(true))
    } else if n - m >= 5 && crate::text::matches_at_exec(line, m, "false") && skip_sp(line, m + 5)
        == n {
        Line::Pair(key, Val::B(false))
    } else {
        Line::Bad
    }
}

/// A key as the format can write it back: non-empty, free of padding and
/// `=`, and not opening a header.
pub open spec fn spec_key_wf(key: Seq<char>) -> bool {
    &&& key.len() > 0
    &&& key[0] != '['
    &&& forall|k: int| 0 <= k < key.len() ==> !is_sp(key[k]) && key[k] != '='
}

/// A `key = "value"` line as written.
pub open spec fn spec_string_line(key: Seq<char>, v: Seq<char>) -> Seq<char> {
    key + " = \""@ + spec_escape(v) + "\""@
}

/// A `key = true` or `key = false` line as written.
pub open spec fn spec_bool_line(key: Seq<char>, b: bool) -> Seq<char> {
    key + " = "@ + (if b {
        "true"@
    } else {
        "false"@
    })
}

/// Writes a `key = "value"` line.
pub fn render_string_line(key: &str, v: &str) -> (r: String)
    ensures
        r@ == spec_string_line(key@, v@),
{
    let mut out = String::from_str(key);
    out.append(" = \"");
    let esc = escape_str(v);
    out.append(esc.as_str());
    out.append("\"");
    out
}

/// Writes a `key = true` or `key = false` line.
pub fn render_bool_line(key: &str, b: bool) -> (r: String)
    ensures
        r@ == spec_bool_line(key@, b),
{
    let mut out = String::from_str(key);
    out.append(" = ");
    if b {
        out.append("true");
    } else {
        out.append("false");
    }
    out
}

proof fn lemma_key_end_run(s: Seq<char>, i: int, j: int)
    requires
        0 <= i <= j <= s.len(),
        forall|k: int| i <= k < j ==> !is_sp(s[k]) && s[k] != '=',
        j == s.len() || is_sp(s[j]) || s[j] == '=',
    ensures
        spec_key_end(s, i) == j,
    decreases j - i,
{
    if i < j {
        lemma_key_end_run(s, i + 1, j);
    }
}

/// A written `key = "value"` line reads back as that pair.
pub proof fn lemma_parse_string_line(key: Seq<char>, v: Seq<char>)
    requires
        spec_key_wf(key),
    ensures
        spec_parse_line(spec_string_line(key, v)) == LineV::Pair(key, ValV::S(v)),
{
    reveal_strlit(" = \"");
    reveal_strlit("\"");
    let mid = " = \""@;
    let line = spec_string_line(key, v);
    let kl = key.len() as int;
    let el = spec_escape(v).len() as int;
    assert(mid.len() == 4);
    assert("\""@.len() == 1);
    assert(line.len() == kl + 4 + el + 1);
    assert(forall|k: int| 0 <= k < kl ==> line[k] == key[k]);
    assert(line[kl] == ' ' && line[kl + 1] == '=' && line[kl + 2] == ' ' && line[kl + 3] == '"');
    assert(spec_skip_sp(line, 0) == 0);
    assert(line[0] != '[');
    lemma_key_end_run(line, 0, kl);
    assert(line.subrange(0, kl) =~= key);
    assert(spec_skip_sp(line, kl) == spec_skip_sp(line, kl + 1));
    assert(spec_skip_sp(line, kl + 1) == kl + 1);
    assert(spec_skip_sp(line, kl + 2) == spec_skip_sp(line, kl + 3));
    assert(spec_skip_sp(line, kl + 3) == kl + 3);
    assert(line.skip(kl + 4) =~= spec_escape(v) + seq!['"'] + Seq::<char>::empty());
    lemma_string_body_escape(line, kl + 4, v, Seq::empty());
    assert(json::spec_string_body(line, kl + 4) == Some((v, line.len() as int)));
    assert(spec_skip_sp(line, line.len() as int) == line.len());
}

/// A written boolean line reads back as that pair.
pub proof fn lemma_parse_bool_line(key: Seq<char>, b: bool)
    requires
        spec_key_wf(key),
    ensures
        spec_parse_line(spec_bool_line(key, b)) == LineV::Pair(key, ValV::B(b)),
{
    reveal_strlit(" = ");
    reveal_strlit("true");
    reveal_strlit("false");
    let mid = " = "@;
    let line = spec_bool_line(key, b);
    let kl = key.len() as int;
    let w = if b {
        "true"@
    } else {
        "false"@
    };
    assert(mid.len() == 3);
    assert(w.len() == if b {
        4int
    } else {
        5int
    });
    assert(line.len() == kl + 3 + w.len());
    assert(forall|k: int| 0 <= k < kl ==> line[k] == key[k]);
    assert(line[kl] == ' ' && line[kl + 1] == '=' && line[kl + 2] == ' ');
    assert(line[kl + 3] == w[0]);
    assert(spec_skip_sp(line, 0) == 0);
    assert(line[0] != '[');
    lemma_key_end_run(line, 0, kl);
    assert(line.subrange(0, kl) =~= key);
    assert(spec_skip_sp(line, kl) == spec_skip_sp(line, kl + 1));
    assert(spec_skip_sp(line, kl + 1) == kl + 1);
    assert(spec_skip_sp(line, kl + 2) == spec_skip_sp(line, kl + 3));
    assert(spec_skip_sp(line, kl + 3) == kl + 3);
    assert(line[kl + 3] != '"');
    if b {
        assert(line.subrange(kl + 3, kl + 7) =~= "true"@);
        assert(spec_skip_sp(line, line.len() as int) == line.len());
    } else {
        assert(line.subrange(kl + 3, kl + 8) =~= "false"@);
        assert(spec_skip_sp(line, line.len() as int) == line.len());
        assert(!(kl + 3 + 4 <= line.len() && line.subrange(kl + 3, kl + 7) == "true"@)) by {
            if kl + 7 <= line.len() {
                assert(line.subrange(kl + 3, kl + 7)[0] == 'f');
            }
        }
    }
}

/// A written section header reads back as a header.
pub proof fn lemma_parse_header_line()
    ensures
        spec_parse_line("[[servers]]"@) == LineV::Header,
{
    reveal_strlit("[[servers]]");
    let line = "[[servers]]"@;
    assert(line.len() == 11);
    assert(line[0] == '[');
    assert(spec_skip_sp(line, 0) == 0);
    assert(line.subrange(0, 11) =~= line);
    assert(spec_skip_sp(line, 11) == 11);
}

/// A written `key = "value"` line stays on one line, whatever the value.
pub proof fn lemma_string_line_no_newline(key: Seq<char>, v: Seq<char>)
    requires
        forall|k: int| 0 <= k < key.len() ==> key[k] != '\n',
    ensures
        forall|c: int|
            0 <= c < spec_string_line(key, v).len() ==> spec_string_line(key, v)[c] != '\n',
{
    reveal_strlit(" = \"");
    reveal_strlit("\"");
    lemma_escape_no_newline(v);
    let line = spec_string_line(key, v);
    let kl = key.len() as int;
    let el = spec_escape(v).len() as int;
    assert forall|c: int| 0 <= c < line.len() implies line[c] != '\n' by {
        if c < kl {
            assert(line[c] == key[c]);
        } else if c < kl + 4 {
            assert(line[c] == " = \""@[c - kl]);
        } else if c < kl + 4 + el {
            assert(line[c] == spec_escape(v)[c - kl - 4]);
        } else {
            assert(line[c] == "\""@[c - kl - 4 - el]);
        }
    }
}

/// A written boolean line stays on one line.
pub proof fn lemma_bool_line_no_newline(key: Seq<char>, b: bool)
    requires
        forall|k: int| 0 <= k < key.len() ==> key[k] != '\n',
    ensures
        forall|c: int|
            0 <= c < spec_bool_line(key, b).len() ==> spec_bool_line(key, b)[c] != '\n',
{
    reveal_strlit(" = ");
    reveal_strlit("true");
    reveal_strlit("false");
    let line = spec_bool_line(key, b);
    let kl = key.len() as int;
    let w = if b {
        "true"@
    } else {
        "false"@
    };
    assert forall|c: int| 0 <= c < line.len() implies line[c] != '\n' by {
        if c < kl {
            assert(line[c] == key[c]);
        } else if c < kl + 3 {
            assert(line[c] == " = "@[c - kl]);
        } else {
            assert(line[c] == w[c - kl - 3]);
        }
    }
}

} // verus!