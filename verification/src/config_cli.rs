//! The registry commands, and the rendering of the registry overview: the
//! known servers with their locations and running state, then the
//! registered providers.

use vstd::prelude::*;

use crate::colors::Color;
use crate::config::Config;
use crate::error::Error;
use crate::jars;
use crate::text;

verus! {

/// The registry subcommands.
#[derive(Debug)]
pub enum ConfigAction {
    /// Show the registry overview.
    Info,
}

/// A server's running state, colorized as the console shows it.
pub open spec fn spec_status_text(running: bool) -> Seq<char> {
    if running {
        Color::Green.spec_code() + "Running"@ + Color::Reset.spec_code()
    } else {
        Color::Red.spec_code() + "Stopped"@ + Color::Reset.spec_code()
    }
}

/// The overview lines for the servers from entry `i` on.
pub open spec fn spec_server_lines(
    entries: Seq<(Seq<char>, Seq<char>)>,
    running: Seq<bool>,
    i: int,
) -> Seq<char>
    decreases entries.len() - i when 0 <= i <= entries.len()
{
    if i >= entries.len() {
        Seq::empty()
    } else {
        "      \u{27a5} \u{1f4e6} "@ + entries[i].0 + " ("@ + entries[i].1 + ") ("@
            + spec_status_text(i < running.len() && running[i]) + ")\n"@ + spec_server_lines(
            entries,
            running,
            i + 1,
        )
    }
}

/// The overview lines for the provider names from index `i` on.
pub open spec fn spec_jar_lines(names: Seq<Seq<char>>, i: int) -> Seq<char>
    decreases names.len() - i when 0 <= i <= names.len()
{
    if i >= names.len() {
        Seq::empty()
    } else {
        "      \u{27a5} \u{1f4e6} "@ + names[i] + "\n"@ + spec_jar_lines(names, i + 1)
    }
}

/// The whole registry overview.
pub open spec fn spec_config_info_text(
    entries: Seq<(Seq<char>, Seq<char>)>,
    running: Seq<bool>,
    jar_names: Seq<Seq<char>>,
) -> Seq<char> {
    "\u{1f5c3}\u{fe0f} Config info:\n  \u{1f4be} Servers:\n"@ + (if entries.len() == 0 {
        "      No servers!\n"@
    } else {
        spec_server_lines(entries, running, 0)
    }) + "\u{1f5c3}\u{fe0f} Jar info:\n  \u{1f4be} Jars:\n"@ + (if jar_names.len() == 0 {
        "      No jars!\n"@
    } else {
        spec_jar_lines(jar_names, 0)
    })
}

/// Whether a server appears among the running processes: its name marker
/// occurs in the process listing.
pub fn server_running(process_listing: &str, name: &str) -> (r: bool)
    ensures
        r == text::contains_seq(process_listing@, "-Dname="@ + text::spec_trim(name@)),
{
    let mut marker = String::from_str("-Dname=");
    let trimmed = text::trim_str(name);
    marker.append(trimmed.as_str());
    text::contains_str(process_listing, marker.as_str())
}

/// Carries out a registry command: renders the registry overview, given
/// which of the servers are currently running.
pub fn manage_config_action(action: &ConfigAction, config: &Config, running: &Vec<bool>) -> (r:
    Result<String, Error>)
    requires
        running@.len() == config.servers@.len(),
    ensures
        match (action, r) {
            (ConfigAction::Info, Ok(t)) => t@ == spec_config_info_text(
                config.entries(),
                running@,
                seq!["Paper"@, "Purpur"@, "Waterfall"@, "Velocity"@],
            ),
            _ => false,
        },
{
    let ghost e = config.entries();
    let mut out = String::from_str("\u{1f5c3}\u{fe0f} Config info:\n  \u{1f4be} Servers:\n");
    let n = config.servers.len();
    if n == 0 {
        out.append("      No servers!\n");
    } else {
        let mut i: usize = 0;
        let ghost head = out@;
        while i < n
            invariant
                n == config.servers@.len(),
                n == running@.len(),
                e == config.entries(),
                i <= n,
                out@ + spec_server_lines(e, running@, i as int) == head + spec_server_lines(
                    e,
                    running@,
                    0,
                ),
            decreases n - i,
        {
            out.append("      \u{27a5} \u{1f4e6} ");
            out.append(config.servers[i].server_name.as_str());
            out.append(" (");
            out.append(config.servers[i].location.as_str());
            out.append(") (");
            let status = if running[i] {
                crate::colors::colorize("Running", Color::Green)
            } else {
                crate::colors::colorize("Stopped", Color::Red)
            };
            out.append(status.as_str());
            out.append(")\n");
            i = i + 1;
        }
        proof {
            assert(spec_server_lines(e, running@, n as int) =~= Seq::<char>::empty());
            assert(out@ + Seq::<char>::empty() =~= out@);
            assert(head + spec_server_lines(e, running@, 0) =~= out@);
        }
    }
    out.append("\u{1f5c3}\u{fe0f} Jar info:\n  \u{1f4be} Jars:\n");
    let jm = match jars::load() {
        Ok(m) => m,
        Err(_) => {
            proof {
                assert(false);
            }
            return Err(Error::Io { context: String::from_str("provider registry") });
        },
    };
    let ghost names = seq!["Paper"@, "Purpur"@, "Waterfall"@, "Velocity"@];
    proof {
        assert(Seq::new(jm.jars@.len(), |i: int| jm.jars@[i].name@) =~= names);
    }
    let mut j: usize = 0;
    let ghost head2 = out@;
    while j < jm.jars.len()
        invariant
            names == seq!["Paper"@, "Purpur"@, "Waterfall"@, "Velocity"@],
            jm.jars@.len() == names.len(),
            forall|k: int| 0 <= k < names.len() ==> jm.jars@[k].name@ == names[k],
            j <= names.len(),
            out@ + spec_jar_lines(names, j as int) == head2 + spec_jar_lines(names, 0),
        decreases names.len() - j,
    {
        out.append("      \u{27a5} \u{1f4e6} ");
        out.append(jm.jars[j].name.as_str());
        out.append("\n");
        j = j + 1;
    }
    proof {
        assert(spec_jar_lines(names, names.len() as int) =~= Seq::<char>::empty());
        assert(out@ + Seq::<char>::empty() =~= out@);
        assert(head2 + spec_jar_lines(names, 0) =~= out@);
    }
    Ok(out)
}

} // verus!
