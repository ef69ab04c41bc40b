//! Artifact download planning: where the jar of a resolved build lands,
//! what a finished download does to the target directory, and the progress
//! figure reported while streaming.  The byte transfer itself is the
//! caller's side effect; everything it needs to decide is computed here.

use vstd::prelude::*;

use crate::jars::Jar;
use crate::server::Server;

verus! {

/// A directory's file names after an artifact is stored under `name`: a
/// fresh name is appended, an existing one is overwritten in place.
pub open spec fn spec_files_after_download(files: Seq<Seq<char>>, name: Seq<char>) -> Seq<
    Seq<char>,
> {
    if files.contains(name) {
        files
    } else {
        files.push(name)
    }
}

/// The test for one particular file name.
pub open spec fn name_pred(name: Seq<char>) -> spec_fn(Seq<char>) -> bool {
    |f: Seq<char>| f == name
}

/// How often a name occurs in a directory listing.
pub open spec fn spec_name_count(files: Seq<Seq<char>>, name: Seq<char>) -> int {
    files.filter(name_pred(name)).len() as int
}

proof fn lemma_count_zero(files: Seq<Seq<char>>, name: Seq<char>)
    requires
        !files.contains(name),
    ensures
        spec_name_count(files, name) == 0,
    decreases files.len(),
{
    reveal(Seq::filter);
    if files.len() > 0 {
        assert(!files.drop_last().contains(name)) by {
            if files.drop_last().contains(name) {
                let w = choose|i: int|
                    0 <= i < files.drop_last().len() && files.drop_last()[i] == name;
                assert(files[w] == name);
            }
        }
        lemma_count_zero(files.drop_last(), name);
    }
}

/// Downloading the same artifact to the same directory twice leaves exactly
/// what one download leaves: one file of that name, never a duplicate.
pub proof fn lemma_download_overwrites(files: Seq<Seq<char>>, name: Seq<char>)
    requires
        spec_name_count(files, name) <= 1,
    ensures
        spec_files_after_download(spec_files_after_download(files, name), name)
            == spec_files_after_download(files, name),
        spec_name_count(spec_files_after_download(files, name), name) == 1,
{
    reveal(Seq::filter);
    let once = spec_files_after_download(files, name);
    if files.contains(name) {
        assert(once == files);
        assert(spec_name_count(files, name) >= 1) by {
            let w = choose|i: int| 0 <= i < files.len() && files[i] == name;
            assert(name_pred(name)(files[w]));
            files.lemma_filter_contains(name_pred(name), w);
            let fs = files.filter(name_pred(name));
            assert(fs.contains(name));
            let x = choose|i: int| 0 <= i < fs.len() && fs[i] == name;
            assert(fs.len() >= 1);
        }
    } else {
        assert(once == files.push(name));
        lemma_count_zero(files, name);
        assert(once.drop_last() =~= files);
        assert(once.last() == name);
        assert(spec_name_count(once, name) == 1);
        assert(once.contains(name)) by {
            assert(once[once.len() - 1] == name);
        }
    }
}

/// The percentage reported after `current` of `total` bytes have been
/// written, rounded down.
pub fn progress_percent(current: usize, total: usize) -> (r: u32)
    requires
        0 < total,
        current <= total,
    ensures
        r as int == current as int * 100 / total as int,
        r <= 100,
{
    let r = ((current as u128) * 100 / (total as u128)) as u32;
    proof {
        let c = current as int;
        let t = total as int;
        assert(c * 100 <= t * 100) by (nonlinear_arith)
            requires
                c <= t,
        ;
        assert(c * 100 / t <= t * 100 / t) by (nonlinear_arith)
            requires
                c * 100 <= t * 100,
                t > 0,
        ;
        assert(t * 100 / t == 100) by (nonlinear_arith)
            requires
                t > 0,
        ;
    }
    r
}

/// The finished record of a download: the resolved identity at the target
/// location, with the default run settings, exactly as a fresh record.
pub fn downloaded_record(
    jar: &Jar,
    version: &str,
    build: &str,
    server_name: &str,
    location: &str,
) -> (r: Server)
    ensures
        r.server_name@ == server_name@,
        r.jar_name == jar.name,
        r.version@ == version@,
        r.build@ == build@,
        r.gui == false,
        r.xms is None,
        r.xmx is None,
        r.location@ == location@,
{
    Server::new(
        server_name,
        jar.name.clone(),
        String::from_str(version),
        String::from_str(build),
        location,
    )
}

} // verus!
