//! The error taxonomy of the engine.  Every failure carries enough context
//! (flavor, version or location) for the caller to act on it.

use vstd::prelude::*;

verus! {

/// Everything that can go wrong in the engine.
///
/// `LicenseNotAccepted` is an expected terminal outcome of running a server,
/// not a crash; callers must check for it explicitly.
#[derive(Debug, Clone, PartialEq, Eq)]
pub enum Error {
    /// The requested flavor is not registered with any provider.
    UnknownFlavor { name: String },
    /// A provider endpoint could not be reached, or the transfer failed.
    UpstreamUnavailable { context: String },
    /// A provider payload could not be parsed into the expected shape.
    MalformedResponse { context: String },
    /// The provider returned an empty build list for the version.
    NoBuildsForVersion { flavor: String, version: String },
    /// A directory import found zero jar files, or more than one.
    NoJarFound { location: String },
    /// No registered server answers to the name.
    ServerNotFound { name: String },
    /// The server executable could not be started.
    ProcessSpawnFailed { context: String },
    /// A disk read or write failed, or a local file could not be understood.
    Io { context: String },
    /// The server's license was rejected and the user declined to accept it.
    LicenseNotAccepted,
}

impl Error {
    /// The user-facing description of this error.
    pub open spec fn spec_message(self) -> Seq<char> {
        match self {
            Error::UnknownFlavor { name } => "Unknown flavor: "@ + name@,
            Error::UpstreamUnavailable { context } => "Upstream unavailable: "@ + context@,
            Error::MalformedResponse { context } => "Malformed response: "@ + context@,
            Error::NoBuildsForVersion { flavor, version } => "No builds for version: "@ + flavor@
                + " "@ + version@,
            Error::NoJarFound { location } => "No jar found: "@ + location@,
            Error::ServerNotFound { name } => "Server not found: "@ + name@,
            Error::ProcessSpawnFailed { context } => "Process spawn failed: "@ + context@,
            Error::Io { context } => "IO error: "@ + context@,
            Error::LicenseNotAccepted => "License not accepted"@,
        }
    }

    /// Renders the user-facing description of this error.
    pub fn message(&self) -> (r: String)
        ensures
            r@ == self.spec_message(),
    {
        match self {
            Error::UnknownFlavor { name } => {
                let mut s = String::from_str("Unknown flavor: ");
                s.append(name.as_str());
                s
            },
            Error::UpstreamUnavailable { context } => {
                let mut s = String::from_str("Upstream unavailable: ");
                s.append(context.as_str());
                s
            },
            Error::MalformedResponse { context } => {
                let mut s = String::from_str("Malformed response: ");
                s.append(context.as_str());
                s
            },
            Error::NoBuildsForVersion { flavor, version } => {
                let mut s = String::from_str("No builds for version: ");
                s.append(flavor.as_str());
                s.append(" ");
                s.append(version.as_str());
                s
            },
            Error::NoJarFound { location } => {
                let mut s = String::from_str("No jar found: ");
                s.append(location.as_str());
                s
            },
            Error::ServerNotFound { name } => {
                let mut s = String::from_str("Server not found: ");
                s.append(name.as_str());
                s
            },
            Error::ProcessSpawnFailed { context } => {
                let mut s = String::from_str("Process spawn failed: ");
                s.append(context.as_str());
                s
            },
            Error::Io { context } => {
                let mut s = String::from_str("IO error: ");
                s.append(context.as_str());
                s
            },
            Error::LicenseNotAccepted => String::from_str("License not accepted"),
        }
    }
}

} // verus!
