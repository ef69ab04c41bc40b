//! Build resolution: the static provider registry, the two payload shapes a
//! provider's build-list endpoint may answer with, and their normalization
//! into one latest-first list of numeric builds.

use vstd::prelude::*;

use crate::error::Error;
use crate::json;
use crate::text::{eq_nocase, spec_parse_u32, spec_replace};

verus! {

/// A distribution provider: a named source of server jars with templated
/// endpoints.  `{version}` and `{build}` are the placeholders substituted
/// when a concrete artifact is addressed.
#[derive(Debug, Clone)]
pub struct Jar {
    pub name: String,
    pub download_url: String,
    pub builds_url: String,
    pub versions_url: String,
}

/// The static registry of providers.
#[derive(Debug, Clone)]
pub struct JarManager {
    pub jars: Vec<Jar>,
}

/// The flat build-list payload: an object carrying the project identity and
/// a `builds` array of numbers, oldest first.
#[derive(Debug, Clone)]
pub struct PaperJarBuildInfo {
    pub project_id: String,
    pub project_name: String,
    pub version: String,
    pub builds: Vec<u32>,
}

/// The nested build-list payload: `builds` is an object with a `latest`
/// build and an `all` array of string-encoded numbers, oldest first.
#[derive(Debug, Clone)]
pub struct PurpurJarBuildInfo {
    pub project: String,
    pub version: String,
    pub builds: PurpurBuildsInfo,
}

/// The inner `builds` object of the nested payload shape.
#[derive(Debug, Clone)]
pub struct PurpurBuildsInfo {
    pub latest: String,
    pub all: Vec<String>,
}

/// The version-list payload: identity members are optional, the `versions`
/// array of strings (oldest first) is required.
#[derive(Debug, Clone)]
pub struct JarProjectInfo {
    pub project: Option<String>,
    pub project_id: Option<String>,
    pub project_name: Option<String>,
    pub version_groups: Option<Vec<String>>,
    pub versions: Vec<String>,
}

/// The capability a payload shape must offer: its build list as numbers,
/// oldest first, exactly when every build it carries is numeric.
pub trait JarBuildInfo: Sized {
    /// The build list this payload denotes, when well formed.
    spec fn spec_builds(&self) -> Option<Seq<u32>>;

    /// Extracts the build list.
    fn get_builds(&mut self) -> (r: Result<Vec<u32>, Error>)
        ensures
            *final(self) == *old(self),
            match r {
                Ok(bs) => old(self).spec_builds() == Some(bs@),
                Err(e) => old(self).spec_builds() is None && e matches Error::MalformedResponse {
                    ..
                },
            },
    ;
}

impl JarBuildInfo for PaperJarBuildInfo {
    open spec fn spec_builds(&self) -> Option<Seq<u32>> {
        Some(self.builds@)
    }

    fn get_builds(&mut self) -> (r: Result<Vec<u32>, Error>) {
        Ok(self.builds.clone())
    }
}

impl JarBuildInfo for PurpurJarBuildInfo {
    open spec fn spec_builds(&self) -> Option<Seq<u32>> {
        if forall|x: int|
            0 <= x < self.builds.all@.len() ==> spec_parse_u32(self.builds.all@[x]@) is Some {
            Some(
                Seq::new(
                    self.builds.all@.len(),
                    |x: int| spec_parse_u32(self.builds.all@[x]@)->Some_0,
                ),
            )
        } else {
            None
        }
    }

    fn get_builds(&mut self) -> (r: Result<Vec<u32>, Error>) {
        let mut out: Vec<u32> = Vec::new();
        let mut i: usize = 0;
        while i < self.builds.all.len()
            invariant
                i <= self.builds.all@.len(),
                out@.len() == i,
                forall|x: int| 0 <= x < i ==> spec_parse_u32(self.builds.all@[x]@) is Some,
                forall|x: int|
                    0 <= x < i ==> out@[x] == spec_parse_u32(self.builds.all@[x]@)->Some_0,
            decreases self.builds.all@.len() - i,
        {
            match crate::text::parse_u32(self.builds.all[i].as_str()) {
                Some(v) => {
                    out.push(v);
                },
                None => {
                    return Err(
                        Error::MalformedResponse {
                            context: String::from_str("build list holds a non-numeric build"),
                        },
                    );
                },
            }
            i = i + 1;
        }
        proof {
            assert(self.spec_builds() matches Some(bs) && bs =~= out@);
        }
        Ok(out)
    }
}

/// What the flat build-list payload denotes: the project identity strings
/// and the `builds` numbers, oldest first.
pub open spec fn spec_paper_doc(s: Seq<char>) -> Option<(Seq<char>, Seq<char>, Seq<char>, Seq<u64>)> {
    if !json::spec_doc_object_ok(s) {
        None
    } else {
        match (
            json::spec_member_value(s, "project_id"@),
            json::spec_member_value(s, "project_name"@),
            json::spec_member_value(s, "version"@),
            json::spec_member_value(s, "builds"@),
        ) {
            (Some(Some(a)), Some(Some(b)), Some(Some(c)), Some(Some(d))) => {
                match (
                    json::spec_parse_string(s, a),
                    json::spec_parse_string(s, b),
                    json::spec_parse_string(s, c),
                    json::spec_parse_u64_array(s, d),
                ) {
                    (Some(pa), Some(pb), Some(pc), Some(pd)) => Some((pa.0, pb.0, pc.0, pd.0)),
                    _ => None,
                }
            },
            _ => None,
        }
    }
}

/// What the nested build-list payload denotes: project, version, and the
/// inner `latest` and `all` members.
pub open spec fn spec_purpur_doc(s: Seq<char>) -> Option<
    (Seq<char>, Seq<char>, Seq<char>, Seq<Seq<char>>),
> {
    if !json::spec_doc_object_ok(s) {
        None
    } else {
        match (
            json::spec_member_value(s, "project"@),
            json::spec_member_value(s, "version"@),
            json::spec_member_value(s, "builds"@),
        ) {
            (Some(Some(a)), Some(Some(b)), Some(Some(c))) => {
                match (
                    json::spec_parse_string(s, a),
                    json::spec_parse_string(s, b),
                    json::spec_member_value_in(s, c, "latest"@),
                    json::spec_member_value_in(s, c, "all"@),
                ) {
                    (Some(pa), Some(pb), Some(Some(l)), Some(Some(al))) => {
                        match (json::spec_parse_string(s, l), json::spec_parse_str_array(s, al)) {
                            (Some(pl), Some(pal)) => Some((pa.0, pb.0, pl.0, pal.0)),
                            _ => None,
                        }
                    },
                    _ => None,
                }
            },
            _ => None,
        }
    }
}

/// What the version-list payload denotes: the optional identity members and
/// the required `versions` array, oldest first.
pub open spec fn spec_project_doc(s: Seq<char>) -> Option<
    (
        Option<Seq<char>>,
        Option<Seq<char>>,
        Option<Seq<char>>,
        Option<Seq<Seq<char>>>,
        Seq<Seq<char>>,
    ),
> {
    if !json::spec_doc_object_ok(s) {
        None
    } else {
        match (
            spec_opt_member_string(s, "project"@),
            spec_opt_member_string(s, "project_id"@),
            spec_opt_member_string(s, "project_name"@),
            spec_opt_member_str_array(s, "version_groups"@),
            json::spec_member_value(s, "versions"@),
        ) {
            (Some(a), Some(b), Some(c), Some(d), Some(Some(v))) => {
                match json::spec_parse_str_array(s, v) {
                    Some(pv) => Some((a, b, c, d, pv.0)),
                    None => None,
                }
            },
            _ => None,
        }
    }
}

/// An optional string member: absent is fine, present must be a string.
pub open spec fn spec_opt_member_string(s: Seq<char>, key: Seq<char>) -> Option<Option<Seq<char>>> {
    match json::spec_member_value(s, key) {
        None => None,
        Some(None) => Some(None),
        Some(Some(v)) => match json::spec_parse_string(s, v) {
            None => None,
            Some(p) => Some(Some(p.0)),
        },
    }
}

/// An optional string-array member: absent is fine, present must be an
/// array of strings.
pub open spec fn spec_opt_member_str_array(s: Seq<char>, key: Seq<char>) -> Option<
    Option<Seq<Seq<char>>>,
> {
    match json::spec_member_value(s, key) {
        None => None,
        Some(None) => Some(None),
        Some(Some(v)) => match json::spec_parse_str_array(s, v) {
            None => None,
            Some(p) => Some(Some(p.0)),
        },
    }
}

impl PaperJarBuildInfo {
    /// Parses a flat build-list payload; any other shape, and any build
    /// beyond `u32::MAX`, is malformed.
    pub fn parse(body: &str) -> (r: Result<PaperJarBuildInfo, Error>)
        ensures
            match r {
                Ok(info) => spec_paper_doc(body@) matches Some(f) && info.project_id@ == f.0
                    && info.project_name@ == f.1 && info.version@ == f.2 && info.builds@.map_values(
                    |b: u32| b as u64,
                ) == f.3,
                Err(e) => e matches Error::MalformedResponse { .. } && (spec_paper_doc(body@)
                    is None || (spec_paper_doc(body@) matches Some(f) && exists|x: int|
                    0 <= x < f.3.len() && f.3[x] > u32::MAX)),
            },
    {
        if !json::doc_object_ok(body) {
            return Err(
                Error::MalformedResponse { context: String::from_str("build list payload") },
            );
        }
        let a = match json::member_value_exec(body, "project_id") {
            Some(Some(v)) => v,
            _ => {
                return Err(
                    Error::MalformedResponse { context: String::from_str("build list payload") },
                );
            },
        };
        let b = match json::member_value_exec(body, "project_name") {
            Some(Some(v)) => v,
            _ => {
                return Err(
                    Error::MalformedResponse { context: String::from_str("build list payload") },
                );
            },
        };
        let c = match json::member_value_exec(body, "version") {
            Some(Some(v)) => v,
            _ => {
                return Err(
                    Error::MalformedResponse { context: String::from_str("build list payload") },
                );
            },
        };
        let d = match json::member_value_exec(body, "builds") {
            Some(Some(v)) => v,
            _ => {
                return Err(
                    Error::MalformedResponse { context: String::from_str("build list payload") },
                );
            },
        };
        let project_id = match json::parse_string_at(body, a) {
            Some(t) => t,
            None => {
                return Err(
                    Error::MalformedResponse { context: String::from_str("build list payload") },
                );
            },
        };
        let project_name = match json::parse_string_at(body, b) {
            Some(t) => t,
            None => {
                return Err(
                    Error::MalformedResponse { context: String::from_str("build list payload") },
                );
            },
        };
        let version = match json::parse_string_at(body, c) {
            Some(t) => t,
            None => {
                return Err(
                    Error::MalformedResponse { context: String::from_str("build list payload") },
                );
            },
        };
        let raw = match json::parse_u64_array_at(body, d) {
            Some(vs) => vs,
            None => {
                return Err(
                    Error::MalformedResponse { context: String::from_str("build list payload") },
                );
            },
        };
        let mut builds: Vec<u32> = Vec::new();
        let mut i: usize = 0;
        while i < raw.len()
            invariant
                i <= raw@.len(),
                builds@.len() == i,
                spec_paper_doc(body@) matches Some(f) && f.3 == raw@,
                forall|x: int| 0 <= x < i ==> raw@[x] <= u32::MAX,
                forall|x: int| 0 <= x < i ==> builds@[x] == raw@[x] as u32,
            decreases raw@.len() - i,
        {
            let v = raw[i];
            if v > u32::MAX as u64 {
                return Err(
                    Error::MalformedResponse {
                        context: String::from_str("build number out of range"),
                    },
                );
            }
            builds.push(v as u32);
            i = i + 1;
        }
        let r = PaperJarBuildInfo { project_id, project_name, version, builds };
        proof {
            assert(r.builds@.map_values(|b: u32| b as u64) =~= raw@);
        }
        Ok(r)
    }
}

impl PurpurJarBuildInfo {
    /// Parses a nested build-list payload; any other shape is malformed.
    pub fn parse(body: &str) -> (r: Result<PurpurJarBuildInfo, Error>)
        ensures
            match r {
                Ok(info) => spec_purpur_doc(body@) matches Some(f) && info.project@ == f.0
                    && info.version@ == f.1 && info.builds.latest@ == f.2
                    && info.builds.all.deep_view() == f.3,
                Err(e) => e matches Error::MalformedResponse { .. } && spec_purpur_doc(body@)
                    is None,
            },
    {
        if !json::doc_object_ok(body) {
            return Err(
                Error::MalformedResponse { context: String::from_str("build list payload") },
            );
        }
        let a = match json::member_value_exec(body, "project") {
            Some(Some(v)) => v,
            _ => {
                return Err(
                    Error::MalformedResponse { context: String::from_str("build list payload") },
                );
            },
        };
        let b = match json::member_value_exec(body, "version") {
            Some(Some(v)) => v,
            _ => {
                return Err(
                    Error::MalformedResponse { context: String::from_str("build list payload") },
                );
            },
        };
        let c = match json::member_value_exec(body, "builds") {
            Some(Some(v)) => v,
            _ => {
                return Err(
                    Error::MalformedResponse { context: String::from_str("build list payload") },
                );
            },
        };
        let project = match json::parse_string_at(body, a) {
            Some(t) => t,
            None => {
                return Err(
                    Error::MalformedResponse { context: String::from_str("build list payload") },
                );
            },
        };
        let version = match json::parse_string_at(body, b) {
            Some(t) => t,
            None => {
                return Err(
                    Error::MalformedResponse { context: String::from_str("build list payload") },
                );
            },
        };
        let l = match json::member_value_in_exec(body, c, "latest") {
            Some(Some(v)) => v,
            _ => {
                return Err(
                    Error::MalformedResponse { context: String::from_str("build list payload") },
                );
            },
        };
        let al = match json::member_value_in_exec(body, c, "all") {
            Some(Some(v)) => v,
            _ => {
                return Err(
                    Error::MalformedResponse { context: String::from_str("build list payload") },
                );
            },
        };
        let latest = match json::parse_string_at(body, l) {
            Some(t) => t,
            None => {
                return Err(
                    Error::MalformedResponse { context: String::from_str("build list payload") },
                );
            },
        };
        let all = match json::parse_str_array_at(body, al) {
            Some(ts) => ts,
            None => {
                return Err(
                    Error::MalformedResponse { context: String::from_str("build list payload") },
                );
            },
        };
        Ok(PurpurJarBuildInfo { project, version, builds: PurpurBuildsInfo { latest, all } })
    }
}

impl JarProjectInfo {
    /// Parses a version-list payload; any other shape is malformed.
    pub fn parse(body: &str) -> (r: Result<JarProjectInfo, Error>)
        ensures
            match r {
                Ok(info) => spec_project_doc(body@) matches Some(f) && {
                    &&& match (info.project, f.0) {
                        (Some(t), Some(v)) => t@ == v,
                        (None, None) => true,
                        _ => false,
                    }
                    &&& match (info.project_id, f.1) {
                        (Some(t), Some(v)) => t@ == v,
                        (None, None) => true,
                        _ => false,
                    }
                    &&& match (info.project_name, f.2) {
                        (Some(t), Some(v)) => t@ == v,
                        (None, None) => true,
                        _ => false,
                    }
                    &&& match (info.version_groups, f.3) {
                        (Some(t), Some(v)) => t.deep_view() == v,
                        (None, None) => true,
                        _ => false,
                    }
                    &&& info.versions.deep_view() == f.4
                },
                Err(e) => e matches Error::MalformedResponse { .. } && spec_project_doc(body@)
                    is None,
            },
    {
        if !json::doc_object_ok(body) {
            return Err(
                Error::MalformedResponse { context: String::from_str("version list payload") },
            );
        }
        let project = match json::member_value_exec(body, "project") {
            None => {
                return Err(
                    Error::MalformedResponse { context: String::from_str("version list payload") },
                );
            },
            Some(None) => None,
            Some(Some(v)) => match json::parse_string_at(body, v) {
                Some(t) => Some(t),
                None => {
                    return Err(
                        Error::MalformedResponse {
                            context: String::from_str("version list payload"),
                        },
                    );
                },
            },
        };
        let project_id = match json::member_value_exec(body, "project_id") {
            None => {
                return Err(
                    Error::MalformedResponse { context: String::from_str("version list payload") },
                );
            },
            Some(None) => None,
            Some(Some(v)) => match json::parse_string_at(body, v) {
                Some(t) => Some(t),
                None => {
                    return Err(
                        Error::MalformedResponse {
                            context: String::from_str("version list payload"),
                        },
                    );
                },
            },
        };
        let project_name = match json::member_value_exec(body, "project_name") {
            None => {
                return Err(
                    Error::MalformedResponse { context: String::from_str("version list payload") },
                );
            },
            Some(None) => None,
            Some(Some(v)) => match json::parse_string_at(body, v) {
                Some(t) => Some(t),
                None => {
                    return Err(
                        Error::MalformedResponse {
                            context: String::from_str("version list payload"),
                        },
                    );
                },
            },
        };
        let version_groups = match json::member_value_exec(body, "version_groups") {
            None => {
                return Err(
                    Error::MalformedResponse { context: String::from_str("version list payload") },
                );
            },
            Some(None) => None,
            Some(Some(v)) => match json::parse_str_array_at(body, v) {
                Some(ts) => Some(ts),
                None => {
                    return Err(
                        Error::MalformedResponse {
                            context: String::from_str("version list payload"),
                        },
                    );
                },
            },
        };
        let versions = match json::member_value_exec(body, "versions") {
            Some(Some(v)) => match json::parse_str_array_at(body, v) {
                Some(ts) => ts,
                None => {
                    return Err(
                        Error::MalformedResponse {
                            context: String::from_str("version list payload"),
                        },
                    );
                },
            },
            _ => {
                return Err(
                    Error::MalformedResponse { context: String::from_str("version list payload") },
                );
            },
        };
        Ok(JarProjectInfo { project, project_id, project_name, version_groups, versions })
    }
}

/// The flavors whose build list arrives as the flat shape.
pub open spec fn spec_flat_flavor(name: Seq<char>) -> bool {
    eq_nocase(name, "paper"@) || eq_nocase(name, "waterfall"@) || eq_nocase(name, "velocity"@)
}

/// The flavors whose build list arrives as the nested shape.
pub open spec fn spec_latest_all_flavor(name: Seq<char>) -> bool {
    eq_nocase(name, "purpur"@)
}

/// The build list a payload denotes for a flavor, still oldest first:
/// the flat shape's numbers, or the nested shape's `all` strings parsed as
/// numbers; `None` when the payload is malformed or the flavor unknown.
pub open spec fn spec_raw_builds(name: Seq<char>, body: Seq<char>) -> Option<Seq<u32>> {
    if spec_flat_flavor(name) {
        match spec_paper_doc(body) {
            Some(f) => if forall|x: int| 0 <= x < f.3.len() ==> f.3[x] <= u32::MAX {
                Some(f.3.map_values(|v: u64| v as u32))
            } else {
                None
            },
            None => None,
        }
    } else if spec_latest_all_flavor(name) {
        match spec_purpur_doc(body) {
            Some(f) => if forall|x: int| 0 <= x < f.3.len() ==> spec_parse_u32(f.3[x]) is Some {
                Some(Seq::new(f.3.len(), |x: int| spec_parse_u32(f.3[x])->Some_0))
            } else {
                None
            },
            None => None,
        }
    } else {
        None
    }
}

/// The normalized build list: the raw list reversed so index 0 is the
/// newest build; `None` when the raw list is missing or empty.
pub open spec fn spec_build_list(name: Seq<char>, body: Seq<char>) -> Option<Seq<u32>> {
    match spec_raw_builds(name, body) {
        Some(raw) => if raw.len() > 0 {
            Some(raw.reverse())
        } else {
            None
        },
        None => None,
    }
}

/// The newest build: the head of the normalized list.
pub open spec fn spec_latest_build(name: Seq<char>, body: Seq<char>) -> Option<u32> {
    match spec_build_list(name, body) {
        Some(bs) => Some(bs[0]),
        None => None,
    }
}

/// The normalized build list is sorted strictly descending by build number,
/// and its head is the last — greatest — raw build, provided the provider
/// published its raw list strictly ascending, as every provider does.
pub proof fn lemma_build_list_descending(name: Seq<char>, body: Seq<char>)
    requires
        spec_raw_builds(name, body) is Some,
        ({
            let raw = spec_raw_builds(name, body)->Some_0;
            forall|a: int, b: int| 0 <= a < b < raw.len() ==> raw[a] < raw[b]
        }),
        spec_raw_builds(name, body)->Some_0.len() > 0,
    ensures
        spec_build_list(name, body) is Some,
        ({
            let raw = spec_raw_builds(name, body)->Some_0;
            let bs = spec_build_list(name, body)->Some_0;
            &&& forall|a: int, b: int| 0 <= a < b < bs.len() ==> bs[a] > bs[b]
            &&& bs[0] == raw[raw.len() - 1]
            &&& spec_latest_build(name, body) == Some(raw[raw.len() - 1])
        }),
{
    let raw = spec_raw_builds(name, body)->Some_0;
    let bs = spec_build_list(name, body)->Some_0;
    assert(bs == raw.reverse());
    assert forall|a: int, b: int| 0 <= a < b < bs.len() implies bs[a] > bs[b] by {
        assert(bs[a] == raw[raw.len() - a - 1]);
        assert(bs[b] == raw[raw.len() - b - 1]);
    }
    assert(bs[0] == raw[raw.len() - 1]);
}

/// The head of the normalized build list is exactly what the latest-build
/// convenience yields.
pub proof fn lemma_latest_is_first(name: Seq<char>, body: Seq<char>)
    ensures
        spec_build_list(name, body) matches Some(bs) ==> spec_latest_build(name, body) == Some(
            bs[0],
        ),
        spec_build_list(name, body) is None ==> spec_latest_build(name, body) is None,
{
}

/// Copies a vector of numbers in reverse order.
fn reverse_u32(v: &Vec<u32>) -> (r: Vec<u32>)
    ensures
        r@ == v@.reverse(),
{
    let n = v.len();
    let mut out: Vec<u32> = Vec::new();
    let mut i: usize = 0;
    while i < n
        invariant
            n == v@.len(),
            i <= n,
            out@.len() == i,
            forall|k: int| 0 <= k < i ==> out@[k] == v@[n - k - 1],
        decreases n - i,
    {
        out.push(v[n - 1 - i]);
        i = i + 1;
    }
    proof {
        assert(out@ =~= v@.reverse());
    }
    out
}

/// Copies a vector of strings in reverse order.
fn reverse_strings(v: &Vec<String>) -> (r: Vec<String>)
    ensures
        r.deep_view() == v.deep_view().reverse(),
{
    let n = v.len();
    let mut out: Vec<String> = Vec::new();
    let mut i: usize = 0;
    while i < n
        invariant
            n == v@.len(),
            i <= n,
            out@.len() == i,
            forall|k: int| 0 <= k < i ==> out.deep_view()[k] == v.deep_view()[n - k - 1],
        decreases n - i,
    {
        let ghost prev = out.deep_view();
        let piece = v[n - 1 - i].clone();
        out.push(piece);
        proof {
            assert(out.deep_view() =~= prev.push(v@[n - 1 - i]@));
        }
        i = i + 1;
    }
    proof {
        assert(out.deep_view() =~= v.deep_view().reverse());
    }
    out
}

impl Jar {
    /// Packs the four provider fields.
    fn new(name: String, download_url: String, builds_url: String, versions_url: String) -> (r:
        Jar)
        ensures
            r.name == name,
            r.download_url == download_url,
            r.builds_url == builds_url,
            r.versions_url == versions_url,
    {
        Jar { name, download_url, builds_url, versions_url }
    }

    /// The build-list endpoint for one version: the `{version}` placeholder
    /// substituted into the provider's template.
    pub fn resolve_builds_url(&self, version: &str) -> (r: String)
        ensures
            r@ == spec_replace(self.builds_url@, "{version}"@, version@),
    {
        proof {
            reveal_strlit("{version}");
        }
        crate::text::replace_all(self.builds_url.as_str(), "{version}", version)
    }

    /// The download endpoint for one artifact: both placeholders
    /// substituted into the provider's template.  The URL is not checked
    /// for reachability; that is discovered at download time.
    pub fn resolve_download_url(&self, version: &str, build: &str) -> (r: String)
        ensures
            r@ == spec_replace(
                spec_replace(self.download_url@, "{version}"@, version@),
                "{build}"@,
                build@,
            ),
    {
        proof {
            reveal_strlit("{version}");
            reveal_strlit("{build}");
        }
        let first = crate::text::replace_all(self.download_url.as_str(), "{version}", version);
        crate::text::replace_all(first.as_str(), "{build}", build)
    }

    /// The file name the artifact of one version is stored under.
    pub fn jar_file_name(&self, version: &str) -> (r: String)
        ensures
            r@ == self.name@ + "-"@ + version@ + ".jar"@,
    {
        let mut out = self.name.clone();
        out.append("-");
        out.append(version);
        out.append(".jar");
        out
    }

    /// Normalizes the build-list payload `body` for this provider into a
    /// latest-first list of numeric builds: the payload's list, reversed.
    /// Fails with `UnknownFlavor` for an unregistered flavor,
    /// `MalformedResponse` when the payload has neither known shape, and
    /// `NoBuildsForVersion` when the list is empty.
    pub fn get_builds(&self, version: &str, body: &str) -> (r: Result<Vec<u32>, Error>)
        ensures
            match r {
                Ok(bs) => spec_build_list(self.name@, body@) == Some(bs@),
                Err(e) => match e {
                    Error::UnknownFlavor { name } => name@ == self.name@ && !spec_flat_flavor(
                        self.name@,
                    ) && !spec_latest_all_flavor(self.name@),
                    Error::MalformedResponse { .. } => (spec_flat_flavor(self.name@)
                        || spec_latest_all_flavor(self.name@)) && spec_raw_builds(
                        self.name@,
                        body@,
                    ) is None,
                    Error::NoBuildsForVersion { flavor, version: v } => flavor@ == self.name@ && v@
                        == version@ && spec_raw_builds(self.name@, body@) == Some(
                        Seq::<u32>::empty(),
                    ),
                    _ => false,
                },
            },
    {
        let flat = crate::text::str_eq_nocase(self.name.as_str(), "paper")
            || crate::text::str_eq_nocase(self.name.as_str(), "waterfall")
            || crate::text::str_eq_nocase(self.name.as_str(), "velocity");
        let nested = crate::text::str_eq_nocase(self.name.as_str(), "purpur");
        let raw: Vec<u32>;
        if flat {
            let mut info = match PaperJarBuildInfo::parse(body) {
                Ok(info) => info,
                Err(e) => {
                    return Err(e);
                },
            };
            raw = match info.get_builds() {
                Ok(bs) => bs,
                Err(e) => {
                    proof {
                        assert(false);
                    }
                    return Err(e);
                },
            };
            proof {
                let f = spec_paper_doc(body@).unwrap();
                assert(raw@ =~= f.3.map_values(|v: u64| v as u32));
            }
        } else if nested {
            let mut info = match PurpurJarBuildInfo::parse(body) {
                Ok(info) => info,
                Err(e) => {
                    return Err(e);
                },
            };
            raw = match info.get_builds() {
                Ok(bs) => bs,
                Err(e) => {
                    proof {
                        let f = spec_purpur_doc(body@).unwrap();
                        let x = choose|x: int|
                            !(0 <= x < info.builds.all@.len() ==> spec_parse_u32(
                                info.builds.all@[x]@,
                            ) is Some);
                        assert(f.3[x] == info.builds.all@[x]@);
                        assert(!(spec_parse_u32(f.3[x]) is Some));
                    }
                    return Err(e);
                },
            };
            proof {
                let f = spec_purpur_doc(body@).unwrap();
                assert(forall|x: int|
                    0 <= x < f.3.len() ==> f.3[x] == #[trigger] info.builds.all@[x]@);
                assert(raw@ =~= Seq::new(f.3.len(), |x: int| spec_parse_u32(f.3[x])->Some_0));
            }
        } else {
            return Err(Error::UnknownFlavor { name: self.name.clone() });
        }
        if raw.len() == 0 {
            proof {
                assert(raw@ =~= Seq::<u32>::empty());
            }
            return Err(
                Error::NoBuildsForVersion {
                    flavor: self.name.clone(),
                    version: String::from_str(version),
                },
            );
        }
        Ok(reverse_u32(&raw))
    }

    /// The newest build for one version: the head of the normalized list,
    /// or nothing when that list cannot be had.
    pub fn get_latest_build(&self, version: &str, body: &str) -> (r: Option<u32>)
        ensures
            r == spec_latest_build(self.name@, body@),
    {
        match self.get_builds(version, body) {
            Ok(bs) => Some(bs[0]),
            Err(_) => None,
        }
    }

    /// Normalizes the version-list payload into a newest-first list of
    /// version strings; any unexpected shape is malformed.
    pub fn get_versions(&self, body: &str) -> (r: Result<Vec<String>, Error>)
        ensures
            match r {
                Ok(vs) => spec_project_doc(body@) matches Some(f) && vs.deep_view()
                    == f.4.reverse(),
                Err(e) => e matches Error::MalformedResponse { .. } && spec_project_doc(body@)
                    is None,
            },
    {
        match JarProjectInfo::parse(body) {
            Ok(info) => Ok(reverse_strings(&info.versions)),
            Err(e) => Err(e),
        }
    }
}

/// The index of the first provider whose name equals `name` up to case.
pub open spec fn spec_find_jar(jars: Seq<Jar>, name: Seq<char>) -> Option<int>
    decreases jars.len(),
{
    if jars.len() == 0 {
        None
    } else if eq_nocase(jars[0].name@, name) {
        Some(0)
    } else {
        match spec_find_jar(jars.skip(1), name) {
            Some(i) => Some(i + 1),
            None => None,
        }
    }
}

proof fn lemma_find_jar_skip(jars: Seq<Jar>, name: Seq<char>, i: int)
    requires
        0 <= i <= jars.len(),
        forall|k: int| 0 <= k < i ==> !eq_nocase(jars[k].name@, name),
    ensures
        spec_find_jar(jars, name) == match spec_find_jar(jars.skip(i), name) {
            Some(x) => Some(x + i),
            None => None::<int>,
        },
    decreases i,
{
    if i == 0 {
        assert(jars.skip(0) =~= jars);
    } else {
        lemma_find_jar_skip(jars.skip(1), name, i - 1);
        assert(jars.skip(1).skip(i - 1) =~= jars.skip(i));
    }
}

impl JarManager {
    /// The registered flavor names, in registry order.  Never fails: the
    /// registry is static configuration.
    pub fn list_flavors(&self) -> (r: Vec<String>)
        ensures
            r.deep_view() == Seq::new(self.jars@.len(), |i: int| self.jars@[i].name@),
    {
        let mut out: Vec<String> = Vec::new();
        let mut i: usize = 0;
        while i < self.jars.len()
            invariant
                i <= self.jars@.len(),
                out.deep_view() =~= Seq::new(i as nat, |k: int| self.jars@[k].name@),
            decreases self.jars@.len() - i,
        {
            let ghost prev = out.deep_view();
            out.push(self.jars[i].name.clone());
            proof {
                assert(out.deep_view() =~= prev.push(self.jars@[i as int].name@));
                assert(out.deep_view() =~= Seq::new((i + 1) as nat, |k: int| self.jars@[k].name@));
            }
            i = i + 1;
        }
        proof {
            assert(out.deep_view() =~= Seq::new(self.jars@.len(), |k: int| self.jars@[k].name@));
        }
        out
    }

    /// The first registered provider whose name equals `name` ignoring
    /// ASCII case, if any.
    pub fn get_jar(&self, name: &str) -> (r: Option<&Jar>)
        ensures
            match r {
                Some(j) => spec_find_jar(self.jars@, name@) matches Some(i) && 0 <= i
                    < self.jars@.len() && *j == self.jars@[i],
                None => spec_find_jar(self.jars@, name@) is None,
            },
    {
        let n = self.jars.len();
        let mut i: usize = 0;
        while i < n
            invariant
                n == self.jars@.len(),
                i <= n,
                forall|k: int| 0 <= k < i ==> !eq_nocase(self.jars@[k].name@, name@),
            decreases n - i,
        {
            if crate::text::str_eq_nocase(self.jars[i].name.as_str(), name) {
                proof {
                    lemma_find_jar_skip(self.jars@, name@, i as int);
                    assert(eq_nocase(self.jars@.skip(i as int)[0].name@, name@));
                }
                return Some(&self.jars[i]);
            }
            i = i + 1;
        }
        proof {
            lemma_find_jar_skip(self.jars@, name@, n as int);
            assert(self.jars@.skip(n as int).len() == 0);
        }
        None
    }
}

/// Loads the static provider registry: the four known flavors with their
/// version, build and download endpoints.
pub fn load() -> (r: Result<JarManager, Error>)
    ensures
        r matches Ok(m) && m.jars@.len() == 4 && {
            &&& m.jars@[0].name@ == "Paper"@
            &&& m.jars@[0].download_url@ == "https://api.papermc.io/v2/projects/paper/versions/{version}/builds/{build}/downloads/paper-{version}-{build}.jar"@
            &&& m.jars@[0].builds_url@ == "https://api.papermc.io/v2/projects/paper/versions/{version}"@
            &&& m.jars@[0].versions_url@ == "https://api.papermc.io/v2/projects/paper"@
            &&& m.jars@[1].name@ == "Purpur"@
            &&& m.jars@[1].download_url@ == "https://api.purpurmc.org/v2/purpur/{version}/{build}/download"@
            &&& m.jars@[1].builds_url@ == "https://api.purpurmc.org/v2/purpur/{version}"@
            &&& m.jars@[1].versions_url@ == "https://api.purpurmc.org/v2/purpur"@
            &&& m.jars@[2].name@ == "Waterfall"@
            &&& m.jars@[2].download_url@ == "https://api.papermc.io/v2/projects/waterfall/versions/{version}/builds/{build}/downloads/waterfall-{version}-{build}.jar"@
            &&& m.jars@[2].builds_url@ == "https://api.papermc.io/v2/projects/waterfall/versions/{version}"@
            &&& m.jars@[2].versions_url@ == "https://api.papermc.io/v2/projects/waterfall"@
            &&& m.jars@[3].name@ == "Velocity"@
            &&& m.jars@[3].download_url@ == "https://api.papermc.io/v2/projects/velocity/versions/{version}/builds/{build}/downloads/velocity-{version}-{build}.jar"@
            &&& m.jars@[3].builds_url@ == "https://api.papermc.io/v2/projects/velocity/versions/{version}"@
            &&& m.jars@[3].versions_url@ == "https://api.papermc.io/v2/projects/velocity"@
        },
{
    let mut jars: Vec<Jar> = Vec::new();
    jars.push(
        Jar::new(
            String::from_str("Paper"),
            String::from_str(
                "https://api.papermc.io/v2/projects/paper/versions/{version}/builds/{build}/downloads/paper-{version}-{build}.jar",
            ),
            String::from_str("https://api.papermc.io/v2/projects/paper/versions/{version}"),
            String::from_str("https://api.papermc.io/v2/projects/paper"),
        ),
    );
    jars.push(
        Jar::new(
            String::from_str("Purpur"),
            String::from_str("https://api.purpurmc.org/v2/purpur/{version}/{build}/download"),
            String::from_str("https://api.purpurmc.org/v2/purpur/{version}"),
            String::from_str("https://api.purpurmc.org/v2/purpur"),
        ),
    );
    jars.push(
        Jar::new(
            String::from_str("Waterfall"),
            String::from_str(
                "https://api.papermc.io/v2/projects/waterfall/versions/{version}/builds/{build}/downloads/waterfall-{version}-{build}.jar",
            ),
            String::from_str("https://api.papermc.io/v2/projects/waterfall/versions/{version}"),
            String::from_str("https://api.papermc.io/v2/projects/waterfall"),
        ),
    );
    jars.push(
        Jar::new(
            String::from_str("Velocity"),
            String::from_str(
                "https://api.papermc.io/v2/projects/velocity/versions/{version}/builds/{build}/downloads/velocity-{version}-{build}.jar",
            ),
            String::from_str("https://api.papermc.io/v2/projects/velocity/versions/{version}"),
            String::from_str("https://api.papermc.io/v2/projects/velocity"),
        ),
    );
    Ok(JarManager { jars })
}

} // verus!
