//! The registry: the durable, self-healing index from server names to
//! install locations.  The in-memory registry is the single owner of the
//! entry list; the index document makes it durable.

use vstd::prelude::*;

use crate::document;
use crate::document::{LineV, ValV};
use crate::error::Error;
use crate::server::Server;
use crate::text;
use crate::text::eq_nocase;

verus! {

/// One index entry: a server's display name and its install location.
#[derive(Debug, Clone, PartialEq, Eq)]
pub struct ServerInfo {
    pub server_name: String,
    pub location: String,
}

/// The registry of known servers.
#[derive(Debug, Clone)]
pub struct Config {
    pub servers: Vec<ServerInfo>,
}

impl ServerInfo {
    /// The index entry of a server record.
    pub fn from_server(server: &Server) -> (r: ServerInfo)
        ensures
            r.server_name == server.server_name,
            r.location == server.location,
    {
        ServerInfo { server_name: server.server_name.clone(), location: server.location.clone() }
    }

    /// The entry's content.
    pub open spec fn entry(self) -> (Seq<char>, Seq<char>) {
        (self.server_name@, self.location@)
    }
}

impl Default for Config {
    /// The empty registry.
    fn default() -> (r: Config)
        ensures
            r.entries() == Seq::<(Seq<char>, Seq<char>)>::empty(),
    {
        let r = Config { servers: Vec::new() };
        proof {
            assert(r.entries() =~= Seq::<(Seq<char>, Seq<char>)>::empty());
        }
        r
    }
}

/// The first entry whose location equals `loc`.
pub open spec fn spec_find_location(entries: Seq<(Seq<char>, Seq<char>)>, loc: Seq<char>) -> Option<
    int,
>
    decreases entries.len(),
{
    if entries.len() == 0 {
        None
    } else if entries[0].1 == loc {
        Some(0)
    } else {
        match spec_find_location(entries.skip(1), loc) {
            Some(i) => Some(i + 1),
            None => None,
        }
    }
}

/// The first entry whose name equals `name` up to ASCII case.
pub open spec fn spec_find_server(entries: Seq<(Seq<char>, Seq<char>)>, name: Seq<char>) -> Option<
    int,
>
    decreases entries.len(),
{
    if entries.len() == 0 {
        None
    } else if eq_nocase(entries[0].0, name) {
        Some(0)
    } else {
        match spec_find_server(entries.skip(1), name) {
            Some(i) => Some(i + 1),
            None => None,
        }
    }
}

/// The registry after `add`: an entry at the same location is replaced,
/// last-write-wins; otherwise the new entry is appended.  Names are not
/// forced unique here: imported directories are trusted as they stand, and
/// only locations identify entries.
pub open spec fn spec_add(
    entries: Seq<(Seq<char>, Seq<char>)>,
    name: Seq<char>,
    loc: Seq<char>,
) -> Seq<(Seq<char>, Seq<char>)> {
    match spec_find_location(entries, loc) {
        Some(i) => entries.remove(i).push((name, loc)),
        None => entries.push((name, loc)),
    }
}

/// The entry `get` yields: the first whose name matches up to case.
pub open spec fn spec_get(
    entries: Seq<(Seq<char>, Seq<char>)>,
    name: Seq<char>,
) -> Option<(Seq<char>, Seq<char>)> {
    match spec_find_server(entries, name) {
        Some(i) => Some(entries[i]),
        None => None,
    }
}

/// No two entries share a location.
pub open spec fn spec_locations_unique(entries: Seq<(Seq<char>, Seq<char>)>) -> bool {
    forall|i: int, j: int| 0 <= i < j < entries.len() ==> entries[i].1 != entries[j].1
}

proof fn lemma_find_location_skip(entries: Seq<(Seq<char>, Seq<char>)>, loc: Seq<char>, i: int)
    requires
        0 <= i <= entries.len(),
        forall|k: int| 0 <= k < i ==> entries[k].1 != loc,
    ensures
        spec_find_location(entries, loc) == match spec_find_location(entries.skip(i), loc) {
            Some(x) => Some(x + i),
            None => None::<int>,
        },
    decreases i,
{
    if i == 0 {
        assert(entries.skip(0) =~= entries);
    } else {
        lemma_find_location_skip(entries.skip(1), loc, i - 1);
        assert(entries.skip(1).skip(i - 1) =~= entries.skip(i));
    }
}

proof fn lemma_find_server_skip(entries: Seq<(Seq<char>, Seq<char>)>, name: Seq<char>, i: int)
    requires
        0 <= i <= entries.len(),
        forall|k: int| 0 <= k < i ==> !eq_nocase(entries[k].0, name),
    ensures
        spec_find_server(entries, name) == match spec_find_server(entries.skip(i), name) {
            Some(x) => Some(x + i),
            None => None::<int>,
        },
    decreases i,
{
    if i == 0 {
        assert(entries.skip(0) =~= entries);
    } else {
        lemma_find_server_skip(entries.skip(1), name, i - 1);
        assert(entries.skip(1).skip(i - 1) =~= entries.skip(i));
    }
}

impl Config {
    /// The registry's content: its entries in order.
    pub open spec fn entries(self) -> Seq<(Seq<char>, Seq<char>)> {
        Seq::new(self.servers@.len(), |i: int| self.servers@[i].entry())
    }

    /// Adds a server to the registry: an entry at the same install location
    /// is replaced, last-write-wins; otherwise the entry is appended.
    /// Entries never come to share a location.
    pub fn add_server(&mut self, server: &Server)
        ensures
            final(self).entries() == spec_add(
                old(self).entries(),
                server.server_name@,
                server.location@,
            ),
            spec_locations_unique(old(self).entries()) ==> spec_locations_unique(
                final(self).entries(),
            ),
    {
        let ghost olde = self.entries();
        let n = self.servers.len();
        let mut i: usize = 0;
        let mut found: Option<usize> = None;
        while i < n && found.is_none()
            invariant
                n == self.servers@.len(),
                i <= n,
                olde == self.entries(),
                olde.len() == n,
                match found {
                    Some(p) => p < i && olde[p as int].1 == server.location@ && forall|k: int|
                        0 <= k < p ==> olde[k].1 != server.location@,
                    None => forall|k: int| 0 <= k < i ==> olde[k].1 != server.location@,
                },
            decreases n - i,
        {
            if text::str_eq(self.servers[i].location.as_str(), server.location.as_str()) {
                found = Some(i);
            }
            i = i + 1;
        }
        match found {
            Some(p) => {
                proof {
                    lemma_find_location_skip(olde, server.location@, p as int);
                    assert(olde.skip(p as int)[0] == olde[p as int]);
                    assert(spec_find_location(olde, server.location@) == Some(p as int));
                }
                self.servers.remove(p);
                self.servers.push(ServerInfo::from_server(server));
                proof {
                    assert(self.entries() =~= olde.remove(p as int).push(
                        (server.server_name@, server.location@),
                    ));
                    if spec_locations_unique(olde) {
                        let newe = self.entries();
                        assert forall|a: int, b: int| 0 <= a < b < newe.len() implies newe[a].1
                            != newe[b].1 by {
                            if b < newe.len() - 1 {
                                assert(newe[a] == if a < p {
                                    olde[a]
                                } else {
                                    olde[a + 1]
                                });
                                assert(newe[b] == if b < p {
                                    olde[b]
                                } else {
                                    olde[b + 1]
                                });
                            } else {
                                assert(newe[b].1 == server.location@);
                                let oa = if a < p {
                                    a
                                } else {
                                    a + 1
                                };
                                assert(newe[a] == olde[oa]);
                                assert(oa != p);
                                if olde[oa].1 == server.location@ {
                                    assert(olde[p as int].1 == olde[oa].1);
                                    assert(false);
                                }
                            }
                        }
                    }
                }
            },
            None => {
                proof {
                    lemma_find_location_skip(olde, server.location@, n as int);
                    assert(olde.skip(n as int).len() == 0);
                    assert(spec_find_location(olde, server.location@) is None);
                }
                self.servers.push(ServerInfo::from_server(server));
                proof {
                    assert(self.entries() =~= olde.push((server.server_name@, server.location@)));
                    if spec_locations_unique(olde) {
                        let newe = self.entries();
                        assert forall|a: int, b: int| 0 <= a < b < newe.len() implies newe[a].1
                            != newe[b].1 by {
                            if b == newe.len() - 1 {
                                assert(newe[a] == olde[a]);
                                assert(newe[b].1 == server.location@);
                            }
                        }
                    }
                }
            },
        }
    }

    /// Case-insensitive lookup: the first entry answering to `name`.
    pub fn get_server(&self, name: &str) -> (r: Option<&ServerInfo>)
        ensures
            match r {
                Some(info) => spec_get(self.entries(), name@) == Some(info.entry()),
                None => spec_get(self.entries(), name@) is None,
            },
    {
        let n = self.servers.len();
        let mut i: usize = 0;
        while i < n
            invariant
                n == self.servers@.len(),
                i <= n,
                forall|k: int| 0 <= k < i ==> !eq_nocase(self.entries()[k].0, name@),
            decreases n - i,
        {
            if text::str_eq_nocase(self.servers[i].server_name.as_str(), name) {
                proof {
                    lemma_find_server_skip(self.entries(), name@, i as int);
                    assert(self.entries().skip(i as int)[0] == self.entries()[i as int]);
                    assert(spec_find_server(self.entries(), name@) == Some(i as int));
                }
                return Some(&self.servers[i]);
            }
            i = i + 1;
        }
        proof {
            lemma_find_server_skip(self.entries(), name@, n as int);
            assert(self.entries().skip(n as int).len() == 0);
        }
        None
    }

    /// Removes the first entry answering to `name`; says whether one was
    /// there.  Files on disk are not touched: deleting an installation is a
    /// separate, explicitly destructive operation.
    pub fn remove_server(&mut self, name: &str) -> (r: bool)
        ensures
            match spec_find_server(old(self).entries(), name@) {
                Some(i) => r && final(self).entries() == old(self).entries().remove(i),
                None => !r && *final(self) == *old(self),
            },
    {
        let ghost olde = self.entries();
        let n = self.servers.len();
        let mut i: usize = 0;
        while i < n
            invariant
                n == self.servers@.len(),
                olde == self.entries(),
                olde == old(self).entries(),
                *self == *old(self),
                i <= n,
                forall|k: int| 0 <= k < i ==> !eq_nocase(self.entries()[k].0, name@),
            decreases n - i,
        {
            if text::str_eq_nocase(self.servers[i].server_name.as_str(), name) {
                proof {
                    lemma_find_server_skip(olde, name@, i as int);
                    assert(olde.skip(i as int)[0] == olde[i as int]);
                    assert(spec_find_server(olde, name@) == Some(i as int));
                }
                self.servers.remove(i);
                proof {
                    assert(self.entries() =~= olde.remove(i as int));
                }
                return true;
            }
            i = i + 1;
        }
        proof {
            lemma_find_server_skip(olde, name@, n as int);
            assert(olde.skip(n as int).len() == 0);
        }
        false
    }

    /// Re-points the first entry answering to this server's name — names
    /// compare ignoring case — at the server's current location; a name the
    /// registry does not hold is reported as such, with the registry
    /// untouched.
    pub fn save_server(&mut self, server: &Server) -> (r: Result<(), Error>)
        ensures
            match spec_find_server(old(self).entries(), server.server_name@) {
                Some(i) => r is Ok && final(self).entries() == old(self).entries().remove(i).push(
                    (server.server_name@, server.location@),
                ),
                None => *final(self) == *old(self) && (r matches Err(Error::ServerNotFound {
                    name,
                }) && name@ == server.server_name@),
            },
    {
        let ghost olde = self.entries();
        let n = self.servers.len();
        let mut i: usize = 0;
        while i < n
            invariant
                n == self.servers@.len(),
                olde == self.entries(),
                olde == old(self).entries(),
                *self == *old(self),
                i <= n,
                forall|k: int| 0 <= k < i ==> !eq_nocase(self.entries()[k].0, server.server_name@),
            decreases n - i,
        {
            if text::str_eq_nocase(
                self.servers[i].server_name.as_str(),
                server.server_name.as_str(),
            ) {
                proof {
                    lemma_find_server_skip(olde, server.server_name@, i as int);
                    assert(olde.skip(i as int)[0] == olde[i as int]);
                    assert(spec_find_server(olde, server.server_name@) == Some(i as int));
                }
                self.servers.remove(i);
                self.servers.push(ServerInfo::from_server(server));
                proof {
                    assert(self.entries() =~= olde.remove(i as int).push(
                        (server.server_name@, server.location@),
                    ));
                }
                return Ok(());
            }
            i = i + 1;
        }
        proof {
            lemma_find_server_skip(olde, server.server_name@, n as int);
            assert(olde.skip(n as int).len() == 0);
        }
        Err(Error::ServerNotFound { name: server.server_name.clone() })
    }
}

/// The entries kept by a pruning pass: those whose flag is true, in order.
pub open spec fn spec_keep(
    entries: Seq<(Seq<char>, Seq<char>)>,
    flags: Seq<bool>,
) -> Seq<(Seq<char>, Seq<char>)>
    decreases entries.len(),
{
    if entries.len() == 0 {
        Seq::empty()
    } else {
        let rest = spec_keep(entries.skip(1), flags.skip(1));
        if flags.len() > 0 && flags[0] {
            seq![entries[0]] + rest
        } else {
            rest
        }
    }
}

impl Config {
    /// Self-healing: drops every entry whose location no longer exists, as
    /// the flags report, and says whether anything was dropped — the caller
    /// rewrites the index only then.
    pub fn prune_missing(&mut self, exists: &Vec<bool>) -> (changed: bool)
        requires
            exists@.len() == old(self).servers@.len(),
        ensures
            final(self).entries() == spec_keep(old(self).entries(), exists@),
            changed == exists|k: int| 0 <= k < exists@.len() && !exists@[k],
    {
        let ghost olde = self.entries();
        let n = self.servers.len();
        let mut out: Vec<ServerInfo> = Vec::new();
        let mut changed = false;
        let mut i: usize = 0;
        proof {
            assert(olde.skip(0) =~= olde);
            assert(exists@.skip(0) =~= exists@);
            assert(Seq::new(out@.len(), |k: int| out@[k].entry())
                =~= Seq::<(Seq<char>, Seq<char>)>::empty());
        }
        while i < n
            invariant
                n == self.servers@.len(),
                n == exists@.len(),
                olde == self.entries(),
                olde == old(self).entries(),
                *self == *old(self),
                i <= n,
                spec_keep(olde, exists@) =~= Seq::new(out@.len(), |k: int| out@[k].entry())
                    + spec_keep(olde.skip(i as int), exists@.skip(i as int)),
                changed == exists|k: int| 0 <= k < i && !exists@[k],
            decreases n - i,
        {
            let ghost outse = Seq::new(out@.len(), |k: int| out@[k].entry());
            proof {
                assert(olde.skip(i as int).len() == n - i);
                assert(olde.skip(i as int)[0] == olde[i as int]);
                assert(exists@.skip(i as int)[0] == exists@[i as int]);
                assert(olde.skip(i as int).skip(1) =~= olde.skip(i + 1));
                assert(exists@.skip(i as int).skip(1) =~= exists@.skip(i + 1));
            }
            if exists[i] {
                let info = ServerInfo {
                    server_name: self.servers[i].server_name.clone(),
                    location: self.servers[i].location.clone(),
                };
                out.push(info);
                proof {
                    assert(Seq::new(out@.len(), |k: int| out@[k].entry()) =~= outse.push(
                        olde[i as int],
                    ));
                    assert(outse.push(olde[i as int]) =~= outse + seq![olde[i as int]]);
                    assert(spec_keep(olde, exists@) =~= Seq::new(
                        out@.len(),
                        |k: int| out@[k].entry(),
                    ) + spec_keep(olde.skip(i + 1), exists@.skip(i + 1)));
                }
            } else {
                changed = true;
            }
            i = i + 1;
        }
        proof {
            assert(olde.skip(n as int).len() == 0);
            assert(spec_keep(olde.skip(n as int), exists@.skip(n as int))
                =~= Seq::<(Seq<char>, Seq<char>)>::empty());
        }
        self.servers = out;
        proof {
            assert(self.entries() =~= spec_keep(olde, exists@));
        }
        changed
    }
}

proof fn lemma_keep_all(entries: Seq<(Seq<char>, Seq<char>)>, flags: Seq<bool>)
    requires
        flags.len() == entries.len(),
        forall|k: int| 0 <= k < flags.len() ==> flags[k],
    ensures
        spec_keep(entries, flags) == entries,
    decreases entries.len(),
{
    if entries.len() > 0 {
        lemma_keep_all(entries.skip(1), flags.skip(1));
        assert(spec_keep(entries, flags) =~= entries);
    } else {
        assert(spec_keep(entries, flags) =~= entries);
    }
}

proof fn lemma_keep_sat(
    entries: Seq<(Seq<char>, Seq<char>)>,
    flags: Seq<bool>,
    ex: spec_fn(Seq<char>) -> bool,
)
    requires
        flags.len() == entries.len(),
        forall|k: int| 0 <= k < flags.len() ==> flags[k] == ex(entries[k].1),
    ensures
        forall|j: int|
            0 <= j < spec_keep(entries, flags).len() ==> ex(
                #[trigger] spec_keep(entries, flags)[j].1,
            ),
    decreases entries.len(),
{
    if entries.len() > 0 {
        assert(forall|k: int|
            0 <= k < flags.skip(1).len() ==> flags.skip(1)[k] == ex(entries.skip(1)[k].1));
        lemma_keep_sat(entries.skip(1), flags.skip(1), ex);
        let keep = spec_keep(entries, flags);
        let rest = spec_keep(entries.skip(1), flags.skip(1));
        assert forall|j: int| 0 <= j < keep.len() implies ex(keep[j].1) by {
            if flags[0] {
                if j == 0 {
                    assert(keep[j] == entries[0]);
                    assert(ex(entries[0].1));
                } else {
                    assert(keep[j] == rest[j - 1]);
                }
            } else {
                assert(keep[j] == rest[j]);
            }
        }
    }
}

/// Pruning is idempotent: after one load has dropped every entry whose
/// location is gone, a second load over the same disk state drops nothing.
pub proof fn lemma_prune_stable(entries: Seq<(Seq<char>, Seq<char>)>, ex: spec_fn(Seq<char>) -> bool)
    ensures
        ({
            let f1 = Seq::new(entries.len(), |i: int| ex(entries[i].1));
            let e1 = spec_keep(entries, f1);
            let f2 = Seq::new(e1.len(), |i: int| ex(e1[i].1));
            spec_keep(e1, f2) == e1
        }),
{
    let f1 = Seq::new(entries.len(), |i: int| ex(entries[i].1));
    let e1 = spec_keep(entries, f1);
    let f2 = Seq::new(e1.len(), |i: int| ex(e1[i].1));
    lemma_keep_sat(entries, f1, ex);
    assert(forall|k: int| 0 <= k < f2.len() ==> f2[k]);
    lemma_keep_all(e1, f2);
}

/// Reads index lines from line `i` on.  `cur` is the section under
/// construction: none before the first header, else the name and location
/// seen so far.  Every section must yield both fields exactly once; unknown
/// keys are ignored, blank lines skipped, anything else is malformed.
pub open spec fn spec_index_scan(
    lines: Seq<Seq<char>>,
    i: int,
    cur: Option<(Option<Seq<char>>, Option<Seq<char>>)>,
) -> Option<Seq<(Seq<char>, Seq<char>)>>
    decreases lines.len() - i when 0 <= i <= lines.len()
{
    if i >= lines.len() {
        match cur {
            None => Some(Seq::empty()),
            Some((Some(n), Some(l))) => Some(seq![(n, l)]),
            _ => None,
        }
    } else {
        match document::spec_parse_line(lines[i]) {
            LineV::Blank => spec_index_scan(lines, i + 1, cur),
            LineV::Bad => None,
            LineV::Header => match cur {
                None => spec_index_scan(lines, i + 1, Some((None, None))),
                Some((Some(n), Some(l))) => match spec_index_scan(lines, i + 1, Some((None, None))) {
                    Some(rest) => Some(seq![(n, l)] + rest),
                    None => None,
                },
                _ => None,
            },
            LineV::Pair(k, v) => match cur {
                None => None,
                Some((n0, l0)) => {
                    if k == "server_name"@ {
                        match (n0, v) {
                            (None, ValV::S(t)) => spec_index_scan(lines, i + 1, Some((Some(t), l0))),
                            _ => None,
                        }
                    } else if k == "location"@ {
                        match (l0, v) {
                            (None, ValV::S(t)) => spec_index_scan(lines, i + 1, Some((n0, Some(t)))),
                            _ => None,
                        }
                    } else {
                        spec_index_scan(lines, i + 1, cur)
                    }
                },
            },
        }
    }
}

/// What a whole index document denotes.
pub open spec fn spec_parse_index(text: Seq<char>) -> Option<Seq<(Seq<char>, Seq<char>)>> {
    spec_index_scan(text::spec_split(text, '\n'), 0, None)
}

/// A scan's result appended to the entries already emitted.
pub open spec fn spec_scan_concat(
    pre: Seq<(Seq<char>, Seq<char>)>,
    r: Option<Seq<(Seq<char>, Seq<char>)>>,
) -> Option<Seq<(Seq<char>, Seq<char>)>> {
    match r {
        Some(rest) => Some(pre + rest),
        None => None,
    }
}

/// The lines the index is written as: one header and two fields per entry.
pub open spec fn spec_index_lines(entries: Seq<(Seq<char>, Seq<char>)>) -> Seq<Seq<char>>
    decreases entries.len(),
{
    if entries.len() == 0 {
        Seq::empty()
    } else {
        seq![
            "[[servers]]"@,
            document::spec_string_line("server_name"@, entries[0].0),
            document::spec_string_line("location"@, entries[0].1),
        ] + spec_index_lines(entries.skip(1))
    }
}

/// A whole index document.
pub open spec fn spec_index_text(entries: Seq<(Seq<char>, Seq<char>)>) -> Seq<char> {
    text::spec_join(spec_index_lines(entries), '\n')
}

impl Config {
    /// Writes the registry's index document.
    pub fn index_text(&self) -> (r: String)
        ensures
            r@ == spec_index_text(self.entries()),
    {
        let ghost e = self.entries();
        let n = self.servers.len();
        let mut lines: Vec<String> = Vec::new();
        let mut i: usize = 0;
        proof {
            reveal_strlit("\n");
            assert(e.skip(0) =~= e);
            assert(lines.deep_view() + spec_index_lines(e) =~= spec_index_lines(e));
        }
        while i < n
            invariant
                n == self.servers@.len(),
                e == self.entries(),
                i <= n,
                spec_index_lines(e) =~= lines.deep_view() + spec_index_lines(e.skip(i as int)),
            decreases n - i,
        {
            let ghost prev = lines.deep_view();
            proof {
                assert(e.skip(i as int)[0] == e[i as int]);
                assert(e.skip(i as int).skip(1) =~= e.skip(i + 1));
                assert(e.skip(i as int).len() > 0);
            }
            lines.push(String::from_str("[[servers]]"));
            lines.push(
                document::render_string_line("server_name", self.servers[i].server_name.as_str()),
            );
            lines.push(document::render_string_line("location", self.servers[i].location.as_str()));
            proof {
                assert(lines.deep_view() =~= prev + seq![
                    "[[servers]]"@,
                    document::spec_string_line("server_name"@, e[i as int].0),
                    document::spec_string_line("location"@, e[i as int].1),
                ]);
                assert(spec_index_lines(e) =~= lines.deep_view() + spec_index_lines(e.skip(i + 1)));
            }
            i = i + 1;
        }
        proof {
            assert(e.skip(n as int).len() == 0);
            assert(spec_index_lines(e.skip(n as int)) =~= Seq::<Seq<char>>::empty());
            assert(lines.deep_view() =~= spec_index_lines(e));
        }
        text::join_strs(&lines, "\n")
    }

    /// Reads a registry back from its index document; a document the format
    /// cannot understand is a local fault.  An absent index file is not
    /// this function's concern: the caller starts from the empty registry
    /// then.
    pub fn from_index_text(text_in: &str) -> (r: Result<Config, Error>)
        ensures
            match r {
                Ok(c) => spec_parse_index(text_in@) == Some(c.entries()),
                Err(e) => e matches Error::Io { .. } && spec_parse_index(text_in@) is None,
            },
    {
        let lines = text::split_str(text_in, '\n');
        let ghost lv = lines.deep_view();
        let mut out: Vec<ServerInfo> = Vec::new();
        let mut open_section = false;
        let mut cur_name: Option<String> = None;
        let mut cur_loc: Option<String> = None;
        let mut i: usize = 0;
        let ghost curv0: Option<(Option<Seq<char>>, Option<Seq<char>>)> = None;
        proof {
            assert(Seq::new(out@.len(), |k: int| out@[k].entry())
                =~= Seq::<(Seq<char>, Seq<char>)>::empty());
            assert(spec_scan_concat(
                Seq::new(out@.len(), |k: int| out@[k].entry()),
                spec_index_scan(lv, 0, curv0),
            ) == spec_parse_index(text_in@));
        }
        while i < lines.len()
            invariant
                lines.deep_view() == lv,
                lv == text::spec_split(text_in@, '\n'),
                lines@.len() == lv.len(),
                i <= lv.len(),
                !open_section ==> cur_name is None && cur_loc is None,
                spec_parse_index(text_in@) == spec_scan_concat(
                    Seq::new(out@.len(), |k: int| out@[k].entry()),
                    spec_index_scan(
                        lv,
                        i as int,
                        if open_section {
                            Some((cur_name.deep_view(), cur_loc.deep_view()))
                        } else {
                            None
                        },
                    ),
                ),
            decreases lv.len() - i,
        {
            let ghost oute = Seq::new(out@.len(), |k: int| out@[k].entry());
            proof {
                assert(lines@[i as int]@ == lv[i as int]);
            }
            match document::parse_line(lines[i].as_str()) {
                document::Line::Blank => {},
                document::Line::Bad => {
                    return Err(Error::Io { context: String::from_str("index document") });
                },
                document::Line::Header => {
                    if open_section {
                        match (cur_name, cur_loc) {
                            (Some(n), Some(l)) => {
                                out.push(ServerInfo { server_name: n, location: l });
                                proof {
                                    assert(Seq::new(out@.len(), |k: int| out@[k].entry())
                                        =~= oute.push((out@.last().server_name@, out@.last().location@)));
                                }
                            },
                            _ => {
                                return Err(
                                    Error::Io { context: String::from_str("index document") },
                                );
                            },
                        }
                    }
                    open_section = true;
                    cur_name = None;
                    cur_loc = None;
                },
                document::Line::Pair(k, v) => {
                    if !open_section {
                        return Err(Error::Io { context: String::from_str("index document") });
                    }
                    if text::str_eq(k.as_str(), "server_name") {
                        match (&cur_name, v) {
                            (None, document::Val::S(t)) => {
                                cur_name = Some(t);
                            },
                            _ => {
                                return Err(
                                    Error::Io { context: String::from_str("index document") },
                                );
                            },
                        }
                    } else if text::str_eq(k.as_str(), "location") {
                        match (&cur_loc, v) {
                            (None, document::Val::S(t)) => {
                                cur_loc = Some(t);
                            },
                            _ => {
                                return Err(
                                    Error::Io { context: String::from_str("index document") },
                                );
                            },
                        }
                    } else {
                        // an unknown field: kept for forward compatibility,
                        // ignored here
                    }
                },
            }
            i = i + 1;
        }
        if open_section {
            match (cur_name, cur_loc) {
                (Some(n), Some(l)) => {
                    let ghost oute = Seq::new(out@.len(), |k: int| out@[k].entry());
                    out.push(ServerInfo { server_name: n, location: l });
                    proof {
                        assert(Seq::new(out@.len(), |k: int| out@[k].entry()) =~= oute.push(
                            (out@.last().server_name@, out@.last().location@),
                        ));
                        assert(oute.push((out@.last().server_name@, out@.last().location@))
                            =~= oute + seq![(out@.last().server_name@, out@.last().location@)]);
                    }
                },
                _ => {
                    return Err(Error::Io { context: String::from_str("index document") });
                },
            }
        }
        let c = Config { servers: out };
        proof {
            assert(c.entries() =~= Seq::new(c.servers@.len(), |k: int| c.servers@[k].entry()));
            assert(spec_parse_index(text_in@) == Some(c.entries()));
        }
        Ok(c)
    }
}

proof fn lemma_index_keys_wf()
    ensures
        document::spec_key_wf("server_name"@),
        document::spec_key_wf("location"@),
        forall|k: int| 0 <= k < "server_name"@.len() ==> "server_name"@[k] != '\n',
        forall|k: int| 0 <= k < "location"@.len() ==> "location"@[k] != '\n',
        forall|k: int| 0 <= k < "[[servers]]"@.len() ==> "[[servers]]"@[k] != '\n',
{
    reveal_strlit("server_name");
    reveal_strlit("location");
    reveal_strlit("[[servers]]");
}


proof fn lemma_index_lines_no_nl(entries: Seq<(Seq<char>, Seq<char>)>)
    ensures
        forall|i: int, k: int|
            0 <= i < spec_index_lines(entries).len() && 0 <= k < spec_index_lines(entries)[i].len()
                ==> spec_index_lines(entries)[i][k] != '\n',
    decreases entries.len(),
{
    lemma_index_keys_wf();
    if entries.len() > 0 {
        lemma_index_lines_no_nl(entries.skip(1));
        document::lemma_string_line_no_newline("server_name"@, entries[0].0);
        document::lemma_string_line_no_newline("location"@, entries[0].1);
        let lines = spec_index_lines(entries);
        let rest = spec_index_lines(entries.skip(1));
        assert forall|i: int, k: int|
            0 <= i < lines.len() && 0 <= k < lines[i].len() implies lines[i][k] != '\n' by {
            if i >= 3 {
                assert(lines[i] == rest[i - 3]);
            }
        }
    }
}

proof fn lemma_index_scan_lines(
    entries: Seq<(Seq<char>, Seq<char>)>,
    lines: Seq<Seq<char>>,
    i: int,
)
    requires
        0 <= i <= lines.len(),
        lines.skip(i) == spec_index_lines(entries),
    ensures
        spec_index_scan(lines, i, None) == Some(entries),
    decreases entries.len(),
{
    lemma_index_keys_wf();
    if entries.len() == 0 {
        assert(lines.skip(i).len() == 0);
        assert(Seq::<(Seq<char>, Seq<char>)>::empty() =~= entries);
    } else {
        let n = entries[0].0;
        let l = entries[0].1;
        let nl = document::spec_string_line("server_name"@, n);
        let ll = document::spec_string_line("location"@, l);
        assert(lines.skip(i).len() == 3 + spec_index_lines(entries.skip(1)).len());
        assert(lines.skip(i)[0] == "[[servers]]"@);
        assert(lines.skip(i)[1] == nl);
        assert(lines.skip(i)[2] == ll);
        assert(lines[i] == "[[servers]]"@);
        assert(lines[i + 1] == nl);
        assert(lines[i + 2] == ll);
        document::lemma_parse_header_line();
        document::lemma_parse_string_line("server_name"@, n);
        document::lemma_parse_string_line("location"@, l);
        reveal_strlit("location");
        reveal_strlit("server_name");
        assert("location"@.len() != "server_name"@.len());
        assert("location"@ != "server_name"@);
        assert(lines.skip(i + 3) =~= lines.skip(i).skip(3));
        assert(lines.skip(i + 3) =~= spec_index_lines(entries.skip(1)));
        lemma_index_scan_lines(entries.skip(1), lines, i + 3);
        assert(spec_index_scan(lines, i, None) == spec_index_scan(lines, i + 1, Some((None, None))));
        assert(spec_index_scan(lines, i + 1, Some((None, None))) == spec_index_scan(
            lines,
            i + 2,
            Some((Some(n), None)),
        ));
        assert(spec_index_scan(lines, i + 2, Some((Some(n), None))) == spec_index_scan(
            lines,
            i + 3,
            Some((Some(n), Some(l))),
        ));
        if entries.skip(1).len() == 0 {
            assert(i + 3 == lines.len());
            assert(spec_index_scan(lines, i + 3, Some((Some(n), Some(l)))) == Some(seq![(n, l)]));
            assert(seq![(n, l)] =~= entries);
        } else {
            assert(lines.skip(i + 3)[0] == "[[servers]]"@);
            assert(lines[i + 3] == "[[servers]]"@);
            assert(i + 3 < lines.len());
            assert(spec_index_scan(lines, i + 3, None) == spec_index_scan(
                lines,
                i + 4,
                Some((None, None)),
            ));
            assert(spec_index_scan(lines, i + 4, Some((None, None))) == Some(entries.skip(1)));
            assert(spec_index_scan(lines, i + 3, Some((Some(n), Some(l)))) == Some(
                seq![(n, l)] + entries.skip(1),
            ));
            assert(seq![(n, l)] + entries.skip(1) =~= entries);
        }
    }
}

/// Writing the registry's index and reading it back yields the same
/// entries, in the same order.
pub proof fn lemma_index_round_trip(entries: Seq<(Seq<char>, Seq<char>)>)
    ensures
        spec_parse_index(spec_index_text(entries)) == Some(entries),
{
    let lines = spec_index_lines(entries);
    lemma_index_lines_no_nl(entries);
    if entries.len() == 0 {
        assert(lines.len() == 0);
        assert(spec_index_text(entries) =~= Seq::<char>::empty());
        let sp = text::spec_split(Seq::<char>::empty(), '\n');
        assert(sp =~~= seq![Seq::<char>::empty()]);
        assert(document::spec_parse_line(Seq::<char>::empty()) == LineV::Blank);
        assert(spec_index_scan(sp, 0, None) == spec_index_scan(sp, 1, None));
        assert(spec_index_scan(sp, 1, None) == Some(Seq::<(Seq<char>, Seq<char>)>::empty()));
        assert(Seq::<(Seq<char>, Seq<char>)>::empty() =~= entries);
    } else {
        assert(lines.len() >= 3);
        text::lemma_split_join(lines, '\n');
        assert(lines.skip(0) =~= lines);
        lemma_index_scan_lines(entries, lines, 0);
    }
}

proof fn lemma_find_location_ok(entries: Seq<(Seq<char>, Seq<char>)>, loc: Seq<char>)
    ensures
        match spec_find_location(entries, loc) {
            Some(i) => 0 <= i < entries.len() && entries[i].1 == loc,
            None => true,
        },
    decreases entries.len(),
{
    if entries.len() > 0 && entries[0].1 != loc {
        lemma_find_location_ok(entries.skip(1), loc);
    }
}

/// Adding a record and then asking for its name yields that record's entry
/// back, and reading its sidecar yields every field intact — provided no
/// other record already answers to the name, for the lookup takes the
/// first match.
pub proof fn lemma_add_get_round_trip(
    entries: Seq<(Seq<char>, Seq<char>)>,
    d: crate::server::SidecarDoc,
)
    requires
        forall|i: int| 0 <= i < entries.len() ==> !eq_nocase(#[trigger] entries[i].0, d.server_name),
    ensures
        spec_get(spec_add(entries, d.server_name, d.location), d.server_name) == Some(
            (d.server_name, d.location),
        ),
        crate::server::spec_parse_sidecar(crate::server::spec_sidecar_text(d)) == Some(d),
{
    crate::server::lemma_sidecar_round_trip(d);
    let e2 = spec_add(entries, d.server_name, d.location);
    lemma_find_location_ok(entries, d.location);
    let m = e2.len() - 1;
    assert(e2[m] == (d.server_name, d.location));
    assert forall|k: int| 0 <= k < m implies !eq_nocase(e2[k].0, d.server_name) by {
        match spec_find_location(entries, d.location) {
            Some(p) => {
                assert(e2[k] == entries.remove(p)[k]);
                assert(entries.remove(p)[k] == if k < p {
                    entries[k]
                } else {
                    entries[k + 1]
                });
            },
            None => {
                assert(e2[k] == entries[k]);
            },
        }
    }
    assert(eq_nocase(d.server_name, d.server_name));
    lemma_find_server_skip(e2, d.server_name, m);
    assert(e2.skip(m)[0] == e2[m]);
    assert(spec_find_server(e2, d.server_name) == Some(m));
}


} // verus!
