//! Reading, writing and tuning a server's properties file: plain
//! `key=value` lines, `#` comments, last occurrence of a key winning, as
//! the game server itself reads them.

use vstd::prelude::*;

use crate::error::Error;
use crate::server::Server;
use crate::text;

verus! {

/// Manipulates one server's auxiliary files.
#[derive(Debug, Clone)]
pub struct ServerManipulator {
    pub server: Server,
}

/// What one properties line means: nothing, a key–value pair, or a line
/// the format does not know.
pub enum PropLineV {
    Skip,
    Pair(Seq<char>, Seq<char>),
    Bad,
}

/// What one properties line denotes.  A carriage return at the end is
/// dropped; empty lines and `#` comments carry nothing; otherwise the line
/// must hold `=`, and the key and value are the first two `=`-separated
/// pieces.
pub open spec fn spec_parse_prop_line(line: Seq<char>) -> PropLineV {
    let l = text::spec_strip_cr(line);
    if l.len() == 0 {
        PropLineV::Skip
    } else if l[0] == '#' {
        PropLineV::Skip
    } else {
        match text::spec_find_char(l, 0, '=') {
            None => PropLineV::Bad,
            Some(p) => {
                let value = match text::spec_find_char(l, p + 1, '=') {
                    Some(q) => l.subrange(p + 1, q),
                    None => l.skip(p + 1),
                };
                PropLineV::Pair(l.subrange(0, p), value)
            },
        }
    }
}

/// The first index holding `key`.
pub open spec fn spec_find_key(props: Seq<(Seq<char>, Seq<char>)>, key: Seq<char>) -> Option<int>
    decreases props.len(),
{
    if props.len() == 0 {
        None
    } else if props[0].0 == key {
        Some(0)
    } else {
        match spec_find_key(props.skip(1), key) {
            Some(i) => Some(i + 1),
            None => None,
        }
    }
}

/// The pair list after setting `key` to `value`: an existing key is
/// overwritten in place, a fresh one appended.
pub open spec fn spec_upsert(
    props: Seq<(Seq<char>, Seq<char>)>,
    key: Seq<char>,
    value: Seq<char>,
) -> Seq<(Seq<char>, Seq<char>)> {
    match spec_find_key(props, key) {
        Some(i) => props.update(i, (key, value)),
        None => props.push((key, value)),
    }
}

/// Reads properties lines from `i` on into `acc`: later occurrences of a
/// key overwrite earlier ones.
pub open spec fn spec_props_scan(
    lines: Seq<Seq<char>>,
    i: int,
    acc: Seq<(Seq<char>, Seq<char>)>,
) -> Option<Seq<(Seq<char>, Seq<char>)>>
    decreases lines.len() - i when 0 <= i <= lines.len()
{
    if i >= lines.len() {
        Some(acc)
    } else {
        match spec_parse_prop_line(lines[i]) {
            PropLineV::Skip => spec_props_scan(lines, i + 1, acc),
            PropLineV::Bad => None,
            PropLineV::Pair(k, v) => spec_props_scan(lines, i + 1, spec_upsert(acc, k, v)),
        }
    }
}

/// What a whole properties document denotes.
pub open spec fn spec_parse_properties(text: Seq<char>) -> Option<Seq<(Seq<char>, Seq<char>)>> {
    spec_props_scan(text::spec_split(text, '\n'), 0, Seq::empty())
}

/// A whole properties document: one `key=value` line per pair, each with
/// its own newline.
pub open spec fn spec_props_text(props: Seq<(Seq<char>, Seq<char>)>) -> Seq<char>
    decreases props.len(),
{
    if props.len() == 0 {
        Seq::empty()
    } else {
        props[0].0 + "="@ + props[0].1 + "\n"@ + spec_props_text(props.skip(1))
    }
}

/// The pairs of a property vector.
pub open spec fn spec_pairs(props: Seq<(String, String)>) -> Seq<(Seq<char>, Seq<char>)> {
    Seq::new(props.len(), |i: int| (props[i].0@, props[i].1@))
}

/// Sets `key` to `value`: overwrites the first occurrence, else appends.
pub fn upsert(props: &mut Vec<(String, String)>, key: &str, value: &str)
    ensures
        spec_pairs(final(props)@) == spec_upsert(spec_pairs(old(props)@), key@, value@),
{
    let ghost oldp = spec_pairs(props@);
    let n = props.len();
    let mut i: usize = 0;
    while i < n
        invariant
            n == props@.len(),
            oldp == spec_pairs(props@),
            oldp == spec_pairs(old(props)@),
            *props == *old(props),
            i <= n,
            forall|k: int| 0 <= k < i ==> oldp[k].0 != key@,
        decreases n - i,
    {
        if text::str_eq(props[i].0.as_str(), key) {
            proof {
                lemma_find_key_skip(oldp, key@, i as int);
                assert(oldp.skip(i as int)[0] == oldp[i as int]);
                assert(spec_find_key(oldp, key@) == Some(i as int));
            }
            props.remove(i);
            props.insert(i, (String::from_str(key), String::from_str(value)));
            proof {
                assert(spec_pairs(props@) =~= oldp.update(i as int, (key@, value@)));
            }
            return ;
        }
        i = i + 1;
    }
    proof {
        lemma_find_key_skip(oldp, key@, n as int);
        assert(oldp.skip(n as int).len() == 0);
    }
    props.push((String::from_str(key), String::from_str(value)));
    proof {
        assert(spec_pairs(props@) =~= oldp.push((key@, value@)));
    }
}

proof fn lemma_find_key_skip(props: Seq<(Seq<char>, Seq<char>)>, key: Seq<char>, i: int)
    requires
        0 <= i <= props.len(),
        forall|k: int| 0 <= k < i ==> props[k].0 != key,
    ensures
        spec_find_key(props, key) == match spec_find_key(props.skip(i), key) {
            Some(x) => Some(x + i),
            None => None::<int>,
        },
    decreases i,
{
    if i == 0 {
        assert(props.skip(0) =~= props);
    } else {
        lemma_find_key_skip(props.skip(1), key, i - 1);
        assert(props.skip(1).skip(i - 1) =~= props.skip(i));
    }
}

impl ServerManipulator {
    /// Reads a properties document; a non-comment line without `=` is a
    /// local fault, as the game server itself would refuse the file.
    pub fn get_server_properties(&self, text_in: &str) -> (r: Result<Vec<(String, String)>, Error>)
        ensures
            match r {
                Ok(props) => spec_parse_properties(text_in@) == Some(spec_pairs(props@)),
                Err(e) => e matches Error::Io { .. } && spec_parse_properties(text_in@) is None,
            },
    {
        let lines = text::split_str(text_in, '\n');
        let ghost lv = lines.deep_view();
        let mut props: Vec<(String, String)> = Vec::new();
        let mut i: usize = 0;
        proof {
            assert(spec_pairs(props@) =~= Seq::<(Seq<char>, Seq<char>)>::empty());
        }
        while i < lines.len()
            invariant
                lines.deep_view() == lv,
                lv == text::spec_split(text_in@, '\n'),
                lines@.len() == lv.len(),
                i <= lv.len(),
                spec_parse_properties(text_in@) == spec_props_scan(
                    lv,
                    i as int,
                    spec_pairs(props@),
                ),
            decreases lv.len() - i,
        {
            proof {
                assert(lines@[i as int]@ == lv[i as int]);
            }
            let line = &lines[i];
            let ln = line.unicode_len();
            let end = if ln > 0 && line.get_char(ln - 1) == '\r' {
                ln - 1
            } else {
                ln
            };
            let body = text::substring_string(line.as_str(), 0, end);
            proof {
                if end < ln {
                    assert(lv[i as int].drop_last() =~= lv[i as int].subrange(0, end as int));
                } else {
                    assert(lv[i as int] =~= lv[i as int].subrange(0, end as int));
                }
                assert(body@ == text::spec_strip_cr(lv[i as int]));
            }
            let bn = body.unicode_len();
            if bn == 0 {
                // an empty line carries nothing
            } else if body.get_char(0) == '#' {
                // a comment carries nothing
            } else {
                match text::find_char_from(body.as_str(), 0, '=') {
                    None => {
                        return Err(
                            Error::Io { context: String::from_str("properties document") },
                        );
                    },
                    Some(p) => {
                        let key = text::substring_string(body.as_str(), 0, p);
                        let value = match text::find_char_from(body.as_str(), p + 1, '=') {
                            Some(q) => text::substring_string(body.as_str(), p + 1, q),
                            None => text::substring_string(body.as_str(), p + 1, bn),
                        };
                        proof {
                            assert(body@.subrange(p + 1, body@.len() as int) =~= body@.skip(p + 1));
                            assert(spec_parse_prop_line(lv[i as int]) == PropLineV::Pair(
                                key@,
                                value@,
                            ));
                        }
                        upsert(&mut props, key.as_str(), value.as_str());
                    },
                }
            }
            i = i + 1;
        }
        Ok(props)
    }

    /// Writes a properties document: one `key=value` line per pair.
    pub fn save_server_properties(&self, props: &Vec<(String, String)>) -> (r: String)
        ensures
            r@ == spec_props_text(spec_pairs(props@)),
    {
        let ghost pv = spec_pairs(props@);
        let mut out = String::new();
        let mut i: usize = 0;
        proof {
            assert(pv.skip(0) =~= pv);
        }
        while i < props.len()
            invariant
                pv == spec_pairs(props@),
                i <= props@.len(),
                pv.len() == props@.len(),
                spec_props_text(pv) == out@ + spec_props_text(pv.skip(i as int)),
            decreases props@.len() - i,
        {
            proof {
                assert(pv.skip(i as int)[0] == pv[i as int]);
                assert(pv.skip(i as int).skip(1) =~= pv.skip(i + 1));
            }
            out.append(props[i].0.as_str());
            out.append("=");
            out.append(props[i].1.as_str());
            out.append("\n");
            i = i + 1;
        }
        proof {
            assert(pv.skip(props@.len() as int).len() == 0);
            assert(out@ + spec_props_text(pv.skip(props@.len() as int)) =~= out@);
        }
        out
    }

    /// The documented tuning pass over a server's properties: compression
    /// past 256 bytes, simulation distance 4 and view distance 7.
    pub fn optimized_properties(&self, props: &mut Vec<(String, String)>)
        ensures
            spec_pairs(final(props)@) == spec_upsert(
                spec_upsert(
                    spec_upsert(spec_pairs(old(props)@), "network-compression-threshold"@, "256"@),
                    "simulation-distance"@,
                    "4"@,
                ),
                "view-distance"@,
                "7"@,
            ),
    {
        upsert(props, "network-compression-threshold", "256");
        upsert(props, "simulation-distance", "4");
        upsert(props, "view-distance", "7");
    }
}


} // verus!
