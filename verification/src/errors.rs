//! Error type for version handling and path helpers.

use vstd::prelude::*;

verus! {

/// What went wrong while preparing or describing a build.
#[derive(Debug)]
pub enum Error {
    /// The version cannot be built for the named base image.
    InvalidVersionForStack(String, String),
    /// The version string did not parse.
    InvalidVersion { version: String, reason: String },
    /// Anything else, described in prose.
    Other(String),
}

impl Error {
    /// Human-readable description.
    pub fn message(&self) -> (m: String)
        ensures
            match self {
                Error::InvalidVersionForStack(v, s) => m@ == "Invalid version "@ + v@
                    + " for stack "@ + s@,
                Error::InvalidVersion { version, reason } => m@ == "Invalid ruby version "@
                    + version@ + " reason: "@ + reason@,
                Error::Other(d) => m@ == "Error "@ + d@,
            },
    {
        let mut out: Vec<char> = Vec::new();
        match self {
            Error::InvalidVersionForStack(v, s) => {
                crate::text::append_str(&mut out, "Invalid version ");
                crate::text::append_str(&mut out, v.as_str());
                crate::text::append_str(&mut out, " for stack ");
                crate::text::append_str(&mut out, s.as_str());
            },
            Error::InvalidVersion { version, reason } => {
                crate::text::append_str(&mut out, "Invalid ruby version ");
                crate::text::append_str(&mut out, version.as_str());
                crate::text::append_str(&mut out, " reason: ");
                crate::text::append_str(&mut out, reason.as_str());
            },
            Error::Other(d) => {
                crate::text::append_str(&mut out, "Error ");
                crate::text::append_str(&mut out, d.as_str());
            },
        }
        crate::text::chars_to_string(&out)
    }
}

} // verus!
