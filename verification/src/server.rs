//! The server record: a named installation with its provenance (flavor,
//! version, build), run settings, and on-disk location, together with the
//! sidecar document that makes one record durable next to its installation.

use vstd::prelude::*;

use crate::document;
use crate::document::{LineV, ValV};
use crate::error::Error;
use crate::text;

verus! {

/// One provisioned server: identity, provenance, run settings, location.
#[derive(Debug, Clone, PartialEq, Eq)]
pub struct Server {
    pub server_name: String,
    pub jar_name: String,
    pub version: String,
    pub build: String,
    pub gui: bool,
    pub xms: Option<String>,
    pub xmx: Option<String>,
    pub location: String,
}

/// The mathematical content of a server record, as the sidecar stores it.
pub struct SidecarDoc {
    pub server_name: Seq<char>,
    pub jar_name: Seq<char>,
    pub version: Seq<char>,
    pub build: Seq<char>,
    pub gui: bool,
    pub xms: Option<Seq<char>>,
    pub xmx: Option<Seq<char>>,
    pub location: Seq<char>,
}

/// The fields seen so far while reading a sidecar.
pub struct SidecarAcc {
    pub server_name: Option<Seq<char>>,
    pub jar_name: Option<Seq<char>>,
    pub version: Option<Seq<char>>,
    pub build: Option<Seq<char>>,
    pub gui: Option<bool>,
    pub xms: Option<Seq<char>>,
    pub xmx: Option<Seq<char>>,
    pub location: Option<Seq<char>>,
}

/// Nothing seen yet.
pub open spec fn spec_empty_acc() -> SidecarAcc {
    SidecarAcc {
        server_name: None,
        jar_name: None,
        version: None,
        build: None,
        gui: None,
        xms: None,
        xmx: None,
        location: None,
    }
}

impl Server {
    /// The record's content.
    pub open spec fn doc(self) -> SidecarDoc {
        SidecarDoc {
            server_name: self.server_name@,
            jar_name: self.jar_name@,
            version: self.version@,
            build: self.build@,
            gui: self.gui,
            xms: match self.xms {
                Some(x) => Some(x@),
                None => None,
            },
            xmx: match self.xmx {
                Some(x) => Some(x@),
                None => None,
            },
            location: self.location@,
        }
    }

    /// Builds a fresh record with the default run settings: no graphical
    /// console and unset heap sizes.
    pub fn new(
        server_name: &str,
        jar_name: String,
        version: String,
        build: String,
        location: &str,
    ) -> (r: Server)
        ensures
            r.server_name@ == server_name@,
            r.jar_name == jar_name,
            r.version == version,
            r.build == build,
            r.gui == false,
            r.xms is None,
            r.xmx is None,
            r.location@ == location@,
    {
        Server {
            server_name: String::from_str(server_name),
            jar_name,
            version,
            build,
            gui: false,
            xms: None,
            xmx: None,
            location: String::from_str(location),
        }
    }
}

/// Reads sidecar lines from line `i` on, with `acc` already seen: every
/// line must be blank, an unknown pair, or the first occurrence of a known
/// field with the right kind of value; at the end all required fields must
/// have been seen.
pub open spec fn spec_sidecar_scan(lines: Seq<Seq<char>>, i: int, acc: SidecarAcc) -> Option<
    SidecarDoc,
>
    decreases lines.len() - i when 0 <= i <= lines.len()
{
    if i >= lines.len() {
        match (acc.server_name, acc.jar_name, acc.version, acc.build, acc.gui, acc.location) {
            (Some(n), Some(jn), Some(vv), Some(b), Some(g), Some(l)) => Some(
                SidecarDoc {
                    server_name: n,
                    jar_name: jn,
                    version: vv,
                    build: b,
                    gui: g,
                    xms: acc.xms,
                    xmx: acc.xmx,
                    location: l,
                },
            ),
            _ => None,
        }
    } else {
        match document::spec_parse_line(lines[i]) {
            LineV::Blank => spec_sidecar_scan(lines, i + 1, acc),
            LineV::Header => None,
            LineV::Bad => None,
            LineV::Pair(k, v) => {
                if k == "server_name"@ {
                    match (acc.server_name, v) {
                        (None, ValV::S(t)) => spec_sidecar_scan(
                            lines,
                            i + 1,
                            SidecarAcc { server_name: Some(t), ..acc },
                        ),
                        _ => None,
                    }
                } else if k == "jar_name"@ {
                    match (acc.jar_name, v) {
                        (None, ValV::S(t)) => spec_sidecar_scan(
                            lines,
                            i + 1,
                            SidecarAcc { jar_name: Some(t), ..acc },
                        ),
                        _ => None,
                    }
                } else if k == "version"@ {
                    match (acc.version, v) {
                        (None, ValV::S(t)) => spec_sidecar_scan(
                            lines,
                            i + 1,
                            SidecarAcc { version: Some(t), ..acc },
                        ),
                        _ => None,
                    }
                } else if k == "build"@ {
                    match (acc.build, v) {
                        (None, ValV::S(t)) => spec_sidecar_scan(
                            lines,
                            i + 1,
                            SidecarAcc { build: Some(t), ..acc },
                        ),
                        _ => None,
                    }
                } else if k == "gui"@ {
                    match (acc.gui, v) {
                        (None, ValV::B(g)) => spec_sidecar_scan(
                            lines,
                            i + 1,
                            SidecarAcc { gui: Some(g), ..acc },
                        ),
                        _ => None,
                    }
                } else if k == "xms"@ {
                    match (acc.xms, v) {
                        (None, ValV::S(t)) => spec_sidecar_scan(
                            lines,
                            i + 1,
                            SidecarAcc { xms: Some(t), ..acc },
                        ),
                        _ => None,
                    }
                } else if k == "xmx"@ {
                    match (acc.xmx, v) {
                        (None, ValV::S(t)) => spec_sidecar_scan(
                            lines,
                            i + 1,
                            SidecarAcc { xmx: Some(t), ..acc },
                        ),
                        _ => None,
                    }
                } else if k == "location"@ {
                    match (acc.location, v) {
                        (None, ValV::S(t)) => spec_sidecar_scan(
                            lines,
                            i + 1,
                            SidecarAcc { location: Some(t), ..acc },
                        ),
                        _ => None,
                    }
                } else {
                    spec_sidecar_scan(lines, i + 1, acc)
                }
            },
        }
    }
}

/// What a whole sidecar text denotes.
pub open spec fn spec_parse_sidecar(text: Seq<char>) -> Option<SidecarDoc> {
    spec_sidecar_scan(text::spec_split(text, '\n'), 0, spec_empty_acc())
}

/// The lines a record is written as: the six required fields, with the heap
/// sizes only when set.
pub open spec fn spec_sidecar_lines(d: SidecarDoc) -> Seq<Seq<char>> {
    seq![
        document::spec_string_line("server_name"@, d.server_name),
        document::spec_string_line("jar_name"@, d.jar_name),
        document::spec_string_line("version"@, d.version),
        document::spec_string_line("build"@, d.build),
        document::spec_bool_line("gui"@, d.gui),
    ] + (match d.xms {
        Some(x) => seq![document::spec_string_line("xms"@, x)],
        None => Seq::empty(),
    }) + (match d.xmx {
        Some(x) => seq![document::spec_string_line("xmx"@, x)],
        None => Seq::empty(),
    }) + seq![document::spec_string_line("location"@, d.location)]
}

/// A whole sidecar text.
pub open spec fn spec_sidecar_text(d: SidecarDoc) -> Seq<char> {
    text::spec_join(spec_sidecar_lines(d), '\n')
}

impl Server {
    /// Writes this record's sidecar document.
    pub fn sidecar_text(&self) -> (r: String)
        ensures
            r@ == spec_sidecar_text(self.doc()),
    {
        let mut lines: Vec<String> = Vec::new();
        lines.push(document::render_string_line("server_name", self.server_name.as_str()));
        lines.push(document::render_string_line("jar_name", self.jar_name.as_str()));
        lines.push(document::render_string_line("version", self.version.as_str()));
        lines.push(document::render_string_line("build", self.build.as_str()));
        lines.push(document::render_bool_line("gui", self.gui));
        match &self.xms {
            Some(x) => {
                lines.push(document::render_string_line("xms", x.as_str()));
            },
            None => {},
        }
        match &self.xmx {
            Some(x) => {
                lines.push(document::render_string_line("xmx", x.as_str()));
            },
            None => {},
        }
        lines.push(document::render_string_line("location", self.location.as_str()));
        proof {
            reveal_strlit("\n");
            assert(lines.deep_view() =~= spec_sidecar_lines(self.doc()));
        }
        text::join_strs(&lines, "\n")
    }

    /// Reads a record back from its sidecar document; a document the format
    /// cannot understand is reported as a local file fault.
    pub fn from_sidecar_text(text_in: &str) -> (r: Result<Server, Error>)
        ensures
            match r {
                Ok(s) => spec_parse_sidecar(text_in@) == Some(s.doc()),
                Err(e) => e matches Error::Io { .. } && spec_parse_sidecar(text_in@) is None,
            },
    {
        let lines = text::split_str(text_in, '\n');
        let ghost lv = lines.deep_view();
        let mut server_name: Option<String> = None;
        let mut jar_name: Option<String> = None;
        let mut version: Option<String> = None;
        let mut build: Option<String> = None;
        let mut gui: Option<bool> = None;
        let mut xms: Option<String> = None;
        let mut xmx: Option<String> = None;
        let mut location: Option<String> = None;
        let mut i: usize = 0;
        while i < lines.len()
            invariant
                lines.deep_view() == lv,
                lv == text::spec_split(text_in@, '\n'),
                i <= lv.len(),
                lines@.len() == lv.len(),
                spec_sidecar_scan(lv, 0, spec_empty_acc()) == spec_sidecar_scan(
                    lv,
                    i as int,
                    SidecarAcc {
                        server_name: server_name.deep_view(),
                        jar_name: jar_name.deep_view(),
                        version: version.deep_view(),
                        build: build.deep_view(),
                        gui: match gui {
                            Some(g) => Some(g),
                            None => None,
                        },
                        xms: xms.deep_view(),
                        xmx: xmx.deep_view(),
                        location: location.deep_view(),
                    },
                ),
            decreases lv.len() - i,
        {
            proof {
                assert(lines@[i as int]@ == lv[i as int]);
            }
            match document::parse_line(lines[i].as_str()) {
                document::Line::Blank => {},
                document::Line::Header => {
                    return Err(Error::Io { context: String::from_str("sidecar document") });
                },
                document::Line::Bad => {
                    return Err(Error::Io { context: String::from_str("sidecar document") });
                },
                document::Line::Pair(k, v) => {
                    if text::str_eq(k.as_str(), "server_name") {
                        match (&server_name, v) {
                            (None, document::Val::S(t)) => {
                                server_name = Some(t);
                            },
                            _ => {
                                return Err(
                                    Error::Io { context: String::from_str("sidecar document") },
                                );
                            },
                        }
                    } else if text::str_eq(k.as_str(), "jar_name") {
                        match (&jar_name, v) {
                            (None, document::Val::S(t)) => {
                                jar_name = Some(t);
                            },
                            _ => {
                                return Err(
                                    Error::Io { context: String::from_str("sidecar document") },
                                );
                            },
                        }
                    } else if text::str_eq(k.as_str(), "version") {
                        match (&version, v) {
                            (None, document::Val::S(t)) => {
                                version = Some(t);
                            },
                            _ => {
                                return Err(
                                    Error::Io { context: String::from_str("sidecar document") },
                                );
                            },
                        }
                    } else if text::str_eq(k.as_str(), "build") {
                        match (&build, v) {
                            (None, document::Val::S(t)) => {
                                build = Some(t);
                            },
                            _ => {
                                return Err(
                                    Error::Io { context: String::from_str("sidecar document") },
                                );
                            },
                        }
                    } else if text::str_eq(k.as_str(), "gui") {
                        match (&gui, v) {
                            (None, document::Val::B(g)) => {
                                gui = Some(g);
                            },
                            _ => {
                                return Err(
                                    Error::Io { context: String::from_str("sidecar document") },
                                );
                            },
                        }
                    } else if text::str_eq(k.as_str(), "xms") {
                        match (&xms, v) {
                            (None, document::Val::S(t)) => {
                                xms = Some(t);
                            },
                            _ => {
                                return Err(
                                    Error::Io { context: String::from_str("sidecar document") },
                                );
                            },
                        }
                    } else if text::str_eq(k.as_str(), "xmx") {
                        match (&xmx, v) {
                            (None, document::Val::S(t)) => {
                                xmx = Some(t);
                            },
                            _ => {
                                return Err(
                                    Error::Io { context: String::from_str("sidecar document") },
                                );
                            },
                        }
                    } else if text::str_eq(k.as_str(), "location") {
                        match (&location, v) {
                            (None, document::Val::S(t)) => {
                                location = Some(t);
                            },
                            _ => {
                                return Err(
                                    Error::Io { context: String::from_str("sidecar document") },
                                );
                            },
                        }
                    } else {
                        // an unknown field: kept for forward compatibility,
                        // ignored here
                    }
                },
            }
            i = i + 1;
        }
        match (server_name, jar_name, version, build, gui, location) {
            (Some(n), Some(jn), Some(vv), Some(b), Some(g), Some(l)) => Ok(
                Server {
                    server_name: n,
                    jar_name: jn,
                    version: vv,
                    build: b,
                    gui: g,
                    xms,
                    xmx,
                    location: l,
                },
            ),
            _ => Err(Error::Io { context: String::from_str("sidecar document") }),
        }
    }
}

/// A file name the engine treats as a server artifact.
pub open spec fn spec_is_jar_name(name: Seq<char>) -> bool {
    name.len() >= 4 && name.subrange(name.len() - 4, name.len() as int) == ".jar"@
}

/// The artifact test, as a value the sequence operations can share.
pub open spec fn jar_name_pred() -> spec_fn(Seq<char>) -> bool {
    |f: Seq<char>| spec_is_jar_name(f)
}

/// Keeps the file names ending in `.jar`, in order.
pub fn jar_file_names(files: &Vec<String>) -> (r: Vec<String>)
    ensures
        r.deep_view() == files.deep_view().filter(jar_name_pred()),
{
    proof {
        reveal_strlit(".jar");
        reveal(Seq::filter);
    }
    let mut out: Vec<String> = Vec::new();
    let mut i: usize = 0;
    proof {
        assert(files.deep_view().subrange(0, 0).filter(jar_name_pred())
            =~= Seq::<Seq<char>>::empty());
    }
    while i < files.len()
        invariant
            i <= files@.len(),
            files@.len() == files.deep_view().len(),
            out.deep_view() == files.deep_view().subrange(0, i as int).filter(
                jar_name_pred(),
            ),
        decreases files@.len() - i,
    {
        let ghost dv = files.deep_view();
        let ghost pred = jar_name_pred();
        proof {
            reveal(Seq::filter);
            reveal_strlit(".jar");
            assert(dv.subrange(0, i + 1).drop_last() =~= dv.subrange(0, i as int));
            assert(dv.subrange(0, i + 1).last() == dv[i as int]);
            assert(files@[i as int]@ == dv[i as int]);
        }
        if crate::text::ends_with_str(files[i].as_str(), ".jar") {
            let ghost prev = out.deep_view();
            let piece = files[i].clone();
            out.push(piece);
            proof {
                assert(spec_is_jar_name(dv[i as int]));
                assert(pred(dv[i as int]));
                assert(out.deep_view() =~= prev.push(dv[i as int]));
                assert(out.deep_view() =~= dv.subrange(0, i + 1).filter(pred));
            }
        } else {
            proof {
                assert(out.deep_view() =~= dv.subrange(0, i + 1).filter(pred));
            }
        }
        i = i + 1;
    }
    proof {
        assert(files.deep_view().subrange(0, files.deep_view().len() as int)
            =~= files.deep_view());
    }
    out
}

/// The last path segment of a location: what stands after the final slash.
pub open spec fn spec_last_segment(loc: Seq<char>) -> Seq<char> {
    match text::spec_rfind_char(loc, '/') {
        Some(p) => loc.skip(p + 1),
        None => loc,
    }
}

/// The flavor and version a jar file's stem denotes: the parts before and
/// after its first dash, or the whole stem and `Unknown` when it has none.
pub open spec fn spec_stem_split(stem: Seq<char>) -> (Seq<char>, Seq<char>) {
    match text::spec_find_char(stem, 0, '-') {
        Some(p) => (stem.subrange(0, p), stem.skip(p + 1)),
        None => (stem, "Unknown"@),
    }
}

impl Server {
    /// Builds a record for a directory that has no sidecar yet: the
    /// directory must hold exactly one jar file, whose name yields the
    /// flavor and version; the build is unknown and the server is named
    /// after the directory.  `files` lists the names of the directory's
    /// plain files.
    pub fn import_from_directory(location: &str, files: &Vec<String>) -> (r: Result<Server, Error>)
        ensures
            ({
                let jars = files.deep_view().filter(jar_name_pred());
                match r {
                    Ok(s) => jars.len() == 1 && {
                        let stem = jars[0].subrange(0, jars[0].len() - 4);
                        &&& s.server_name@ == spec_last_segment(location@)
                        &&& s.jar_name@ == spec_stem_split(stem).0
                        &&& s.version@ == spec_stem_split(stem).1
                        &&& s.build@ == "Unknown"@
                        &&& s.gui == false
                        &&& s.xms is None
                        &&& s.xmx is None
                        &&& s.location@ == location@
                    },
                    Err(e) => jars.len() != 1 && (e matches Error::NoJarFound { location: l } && l@
                        == location@),
                }
            }),
    {
        let jars = jar_file_names(files);
        if jars.len() != 1 {
            return Err(Error::NoJarFound { location: String::from_str(location) });
        }
        let jar = &jars[0];
        let jn = jar.unicode_len();
        proof {
            reveal_strlit(".jar");
            assert(jars.deep_view()[0] == jars@[0]@);
        }
        let stem = crate::text::substring_string(jar.as_str(), 0, jn - 4);
        let ghost stem_v = jars.deep_view()[0].subrange(0, jars.deep_view()[0].len() - 4);
        proof {
            assert(stem@ == stem_v);
        }
        let (flavor, version) = match crate::text::find_char_from(stem.as_str(), 0, '-') {
            Some(p) => {
                let f = crate::text::substring_string(stem.as_str(), 0, p);
                let v = crate::text::substring_string(stem.as_str(), p + 1, stem.unicode_len());
                proof {
                    assert(v@ =~= stem_v.skip(p + 1));
                }
                (f, v)
            },
            None => (stem, String::from_str("Unknown")),
        };
        let ln = location.unicode_len();
        let name = match crate::text::rfind_char(location, '/') {
            Some(p) => crate::text::substring_string(location, p + 1, ln),
            None => String::from_str(location),
        };
        proof {
            assert(match text::spec_rfind_char(location@, '/') {
                Some(p) => location@.subrange(p + 1, location@.len() as int) =~= location@.skip(
                    p + 1,
                ),
                None => true,
            });
        }
        Ok(
            Server {
                server_name: name,
                jar_name: flavor,
                version,
                build: String::from_str("Unknown"),
                gui: false,
                xms: None,
                xmx: None,
                location: String::from_str(location),
            },
        )
    }

    /// The jar file the server runs: its flavor, a dash and the version
    /// unless the version is unknown, then the extension.
    pub fn run_jar_file_name(&self) -> (r: String)
        ensures
            r@ == spec_run_jar_name(self.jar_name@, self.version@),
    {
        let mut out = self.jar_name.clone();
        if !crate::text::str_eq(self.version.as_str(), "Unknown") {
            out.append("-");
            out.append(self.version.as_str());
        }
        out.append(".jar");
        out
    }
}

/// The name of the jar file a record runs: flavor, dash and version unless
/// the version is unknown, then the extension.
pub open spec fn spec_run_jar_name(jar_name: Seq<char>, version: Seq<char>) -> Seq<char> {
    if version == "Unknown"@ {
        jar_name + ".jar"@
    } else {
        jar_name + "-"@ + version + ".jar"@
    }
}

/// The index of the first line whose content is the license-rejected value;
/// a trailing carriage return does not hide it, so files with either
/// line-ending style are remediated.
pub open spec fn spec_find_eula_line(lines: Seq<Seq<char>>, i: int) -> Option<int>
    decreases lines.len() - i when 0 <= i <= lines.len()
{
    if i >= lines.len() {
        None
    } else if text::spec_strip_cr(lines[i]) == "eula=false"@ {
        Some(i)
    } else {
        spec_find_eula_line(lines, i + 1)
    }
}

/// The flipped form of a rejected line: the acceptance value, keeping the
/// line's carriage return when it carried one.
pub open spec fn spec_flipped_eula_line(line: Seq<char>) -> Seq<char> {
    if line.len() > 0 && line.last() == '\r' {
        "eula=true"@ + seq!['\r']
    } else {
        "eula=true"@
    }
}

/// The license file after remediation: exactly the first `eula=false` line
/// flipped to `eula=true`, every other line untouched; a file without such
/// a line stays as it is.
pub open spec fn spec_accepted_eula_lines(lines: Seq<Seq<char>>) -> Seq<Seq<char>> {
    match spec_find_eula_line(lines, 0) {
        Some(p) => lines.update(p, spec_flipped_eula_line(lines[p])),
        None => lines,
    }
}

/// Flips the first `eula=false` line of the license file to `eula=true`,
/// leaving all other lines untouched.  Yields the new text and whether a
/// line was flipped; without one the text comes back unchanged.
pub fn accept_eula_text(text_in: &str) -> (r: (String, bool))
    ensures
        r.0@ == text::spec_join(
            spec_accepted_eula_lines(text::spec_split(text_in@, '\n')),
            '\n',
        ),
        r.1 == (spec_find_eula_line(text::spec_split(text_in@, '\n'), 0) is Some),
        !r.1 ==> r.0@ == text_in@,
{
    proof {
        reveal_strlit("eula=false");
        reveal_strlit("eula=true");
        reveal_strlit("eula=true\r");
        reveal_strlit("\n");
    }
    let mut lines = text::split_str(text_in, '\n');
    let ghost lv = lines.deep_view();
    let n = lines.len();
    let mut i: usize = 0;
    let mut flipped = false;
    while i < n && !flipped
        invariant
            n == lines@.len(),
            i <= n,
            lv == text::spec_split(text_in@, '\n'),
            !flipped ==> lines.deep_view() == lv,
            !flipped ==> spec_find_eula_line(lv, 0) == spec_find_eula_line(lv, i as int),
            flipped ==> (spec_find_eula_line(lv, 0) matches Some(p) && p < i
                && lines.deep_view() == lv.update(p, spec_flipped_eula_line(lv[p]))),
            lv.len() == n,
        decreases n - i,
    {
        proof {
            assert(lines@[i as int]@ == lines.deep_view()[i as int]);
            assert(lines.deep_view()[i as int] == lv[i as int]);
        }
        let line = &lines[i];
        let ln = line.unicode_len();
        let had_cr = ln > 0 && line.get_char(ln - 1) == '\r';
        let end = if had_cr {
            ln - 1
        } else {
            ln
        };
        let body = text::substring_string(line.as_str(), 0, end);
        proof {
            if had_cr {
                assert(lv[i as int].drop_last() =~= lv[i as int].subrange(0, end as int));
            } else {
                assert(lv[i as int] =~= lv[i as int].subrange(0, end as int));
            }
            assert(body@ == text::spec_strip_cr(lv[i as int]));
        }
        if crate::text::str_eq(body.as_str(), "eula=false") {
            let ghost before = lines.deep_view();
            lines.remove(i);
            if had_cr {
                lines.insert(i, String::from_str("eula=true\r"));
            } else {
                lines.insert(i, String::from_str("eula=true"));
            }
            flipped = true;
            proof {
                assert(before == lv);
                assert(text::spec_strip_cr(lv[i as int]) == "eula=false"@);
                assert(spec_find_eula_line(lv, i as int) == Some(i as int));
                if had_cr {
                    reveal_strlit("eula=true");
                    reveal_strlit("eula=true\r");
                    assert("eula=true\r"@ =~= "eula=true"@ + seq!['\r']);
                    assert(lv[i as int].last() == '\r');
                } else {
                    assert(!(lv[i as int].len() > 0 && lv[i as int].last() == '\r'));
                }
                assert(lines.deep_view() =~= before.update(
                    i as int,
                    spec_flipped_eula_line(lv[i as int]),
                ));
            }
        } else {
            proof {
                assert(text::spec_strip_cr(lv[i as int]) != "eula=false"@);
                assert(spec_find_eula_line(lv, i as int) == spec_find_eula_line(lv, i + 1));
            }
        }
        i = i + 1;
    }
    proof {
        if !flipped {
            assert(spec_find_eula_line(lv, n as int) is None);
            assert(spec_accepted_eula_lines(lv) == lv);
            text::lemma_join_split(text_in@, '\n');
        } else {
            assert(spec_accepted_eula_lines(lv) == lines.deep_view());
        }
    }
    let out = text::join_strs(&lines, "\n");
    (out, flipped)
}

proof fn lemma_sidecar_keys_wf()
    ensures
        document::spec_key_wf("server_name"@),
        document::spec_key_wf("jar_name"@),
        document::spec_key_wf("version"@),
        document::spec_key_wf("build"@),
        document::spec_key_wf("gui"@),
        document::spec_key_wf("xms"@),
        document::spec_key_wf("xmx"@),
        document::spec_key_wf("location"@),
        forall|k: int| 0 <= k < "server_name"@.len() ==> "server_name"@[k] != '\n',
        forall|k: int| 0 <= k < "jar_name"@.len() ==> "jar_name"@[k] != '\n',
        forall|k: int| 0 <= k < "version"@.len() ==> "version"@[k] != '\n',
        forall|k: int| 0 <= k < "build"@.len() ==> "build"@[k] != '\n',
        forall|k: int| 0 <= k < "gui"@.len() ==> "gui"@[k] != '\n',
        forall|k: int| 0 <= k < "xms"@.len() ==> "xms"@[k] != '\n',
        forall|k: int| 0 <= k < "xmx"@.len() ==> "xmx"@[k] != '\n',
        forall|k: int| 0 <= k < "location"@.len() ==> "location"@[k] != '\n',
{
    reveal_strlit("server_name");
    reveal_strlit("jar_name");
    reveal_strlit("version");
    reveal_strlit("build");
    reveal_strlit("gui");
    reveal_strlit("xms");
    reveal_strlit("xmx");
    reveal_strlit("location");
}



/// Writing a record's sidecar and reading it back yields the record
/// unchanged: every field of the record survives the round trip.
pub proof fn lemma_sidecar_round_trip(d: SidecarDoc)
    ensures
        spec_parse_sidecar(spec_sidecar_text(d)) == Some(d),
{
    lemma_sidecar_keys_wf();
    let lines = spec_sidecar_lines(d);
    let l0 = document::spec_string_line("server_name"@, d.server_name);
    let l1 = document::spec_string_line("jar_name"@, d.jar_name);
    let l2 = document::spec_string_line("version"@, d.version);
    let l3 = document::spec_string_line("build"@, d.build);
    let l4 = document::spec_bool_line("gui"@, d.gui);
    let ll = document::spec_string_line("location"@, d.location);
    document::lemma_string_line_no_newline("server_name"@, d.server_name);
    document::lemma_string_line_no_newline("jar_name"@, d.jar_name);
    document::lemma_string_line_no_newline("version"@, d.version);
    document::lemma_string_line_no_newline("build"@, d.build);
    document::lemma_bool_line_no_newline("gui"@, d.gui);
    document::lemma_string_line_no_newline("location"@, d.location);
    document::lemma_parse_string_line("server_name"@, d.server_name);
    document::lemma_parse_string_line("jar_name"@, d.jar_name);
    document::lemma_parse_string_line("version"@, d.version);
    document::lemma_parse_string_line("build"@, d.build);
    document::lemma_parse_bool_line("gui"@, d.gui);
    document::lemma_parse_string_line("location"@, d.location);
    reveal_strlit("server_name");
    reveal_strlit("jar_name");
    reveal_strlit("version");
    reveal_strlit("build");
    reveal_strlit("gui");
    reveal_strlit("xms");
    reveal_strlit("xmx");
    reveal_strlit("location");
    assert("xmx"@[2] == 'x' && "xms"@[2] == 's');
    assert("xmx"@ != "xms"@);
    assert("gui"@[0] == 'g' && "xms"@[0] == 'x' && "xmx"@[0] == 'x');
    assert("gui"@ != "xms"@ && "gui"@ != "xmx"@);
    if d.xms is Some {
        document::lemma_string_line_no_newline("xms"@, d.xms->Some_0);
        document::lemma_parse_string_line("xms"@, d.xms->Some_0);
    }
    if d.xmx is Some {
        document::lemma_string_line_no_newline("xmx"@, d.xmx->Some_0);
        document::lemma_parse_string_line("xmx"@, d.xmx->Some_0);
    }
    assert(forall|i: int, k: int|
        0 <= i < lines.len() && 0 <= k < lines[i].len() ==> lines[i][k] != '\n');
    text::lemma_split_join(lines, '\n');
    let acc0 = spec_empty_acc();
    let acc1 = SidecarAcc { server_name: Some(d.server_name), ..acc0 };
    let acc2 = SidecarAcc { jar_name: Some(d.jar_name), ..acc1 };
    let acc3 = SidecarAcc { version: Some(d.version), ..acc2 };
    let acc4 = SidecarAcc { build: Some(d.build), ..acc3 };
    let acc5 = SidecarAcc { gui: Some(d.gui), ..acc4 };
    assert(lines[0] == l0 && lines[1] == l1 && lines[2] == l2 && lines[3] == l3 && lines[4] == l4);
    assert(spec_sidecar_scan(lines, 0, acc0) == spec_sidecar_scan(lines, 1, acc1));
    assert(spec_sidecar_scan(lines, 1, acc1) == spec_sidecar_scan(lines, 2, acc2));
    assert(spec_sidecar_scan(lines, 2, acc2) == spec_sidecar_scan(lines, 3, acc3));
    assert(spec_sidecar_scan(lines, 3, acc3) == spec_sidecar_scan(lines, 4, acc4));
    assert(spec_sidecar_scan(lines, 4, acc4) == spec_sidecar_scan(lines, 5, acc5));
    match (d.xms, d.xmx) {
        (Some(x), Some(y)) => {
            let acc6 = SidecarAcc { xms: Some(x), ..acc5 };
            let acc7 = SidecarAcc { xmx: Some(y), ..acc6 };
            let acc8 = SidecarAcc { location: Some(d.location), ..acc7 };
            assert(lines.len() == 8);
            assert(lines[5] == document::spec_string_line("xms"@, x));
            assert(lines[6] == document::spec_string_line("xmx"@, y));
            assert(lines[7] == ll);
            assert(spec_sidecar_scan(lines, 5, acc5) == spec_sidecar_scan(lines, 6, acc6));
            assert(spec_sidecar_scan(lines, 6, acc6) == spec_sidecar_scan(lines, 7, acc7));
            assert(spec_sidecar_scan(lines, 7, acc7) == spec_sidecar_scan(lines, 8, acc8));
            assert(spec_sidecar_scan(lines, 8, acc8) == Some(d));
        },
        (Some(x), None) => {
            let acc6 = SidecarAcc { xms: Some(x), ..acc5 };
            let acc7 = SidecarAcc { location: Some(d.location), ..acc6 };
            assert(lines.len() == 7);
            assert(lines[5] == document::spec_string_line("xms"@, x));
            assert(lines[6] == ll);
            assert(spec_sidecar_scan(lines, 5, acc5) == spec_sidecar_scan(lines, 6, acc6));
            assert(spec_sidecar_scan(lines, 6, acc6) == spec_sidecar_scan(lines, 7, acc7));
            assert(spec_sidecar_scan(lines, 7, acc7) == Some(d));
        },
        (None, Some(y)) => {
            let acc6 = SidecarAcc { xmx: Some(y), ..acc5 };
            let acc7 = SidecarAcc { location: Some(d.location), ..acc6 };
            assert(lines.len() == 7);
            assert(lines[5] == document::spec_string_line("xmx"@, y));
            assert(lines[6] == ll);
            assert(spec_sidecar_scan(lines, 5, acc5) == spec_sidecar_scan(lines, 6, acc6));
            assert(spec_sidecar_scan(lines, 6, acc6) == spec_sidecar_scan(lines, 7, acc7));
            assert(spec_sidecar_scan(lines, 7, acc7) == Some(d));
        },
        (None, None) => {
            let acc6 = SidecarAcc { location: Some(d.location), ..acc5 };
            assert(lines.len() == 6);
            assert(lines[5] == ll);
            assert(spec_sidecar_scan(lines, 5, acc5) == spec_sidecar_scan(lines, 6, acc6));
            assert(spec_sidecar_scan(lines, 6, acc6) == Some(d));
        },
    }
}

} // verus!
