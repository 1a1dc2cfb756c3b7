//! The artifact record: what one published build output looks like in the
//! manifest, and when a record is well formed.

use vstd::prelude::*;
use crate::base_image::DistroVersion;
use crate::checksum::{checksum_clone, Algorithm, Checksum, ChecksumV};
use crate::text::plain_str;

verus! {

/// Operating systems artifacts are built for.
#[derive(Clone, Copy, Debug, PartialEq, Eq, Structural)]
pub enum Os {
    Linux,
}

/// CPU architectures artifacts are built for.
#[derive(Clone, Copy, Debug, PartialEq, Eq, Structural)]
pub enum Arch {
    Amd64,
    Arm64,
}

/// How an operating system is written in the manifest.
pub open spec fn os_str(o: Os) -> Seq<char> {
    "linux"@
}

/// How an architecture is written in the manifest.
pub open spec fn arch_str(a: Arch) -> Seq<char> {
    match a {
        Arch::Amd64 => "amd64"@,
        Arch::Arm64 => "arm64"@,
    }
}

impl Os {
    /// The manifest spelling of this operating system.
    pub fn name(&self) -> (s: &str)
        ensures
            s@ == os_str(*self),
    {
        "linux"
    }
}

impl Arch {
    /// The manifest spelling of this architecture.
    pub fn name(&self) -> (s: &str)
        ensures
            s@ == arch_str(*self),
    {
        match self {
            Arch::Amd64 => "amd64",
            Arch::Arm64 => "arm64",
        }
    }

    /// The architecture written `s`, if it is a known spelling.
    pub fn from_name(s: &str) -> (r: Option<Arch>)
        ensures
            match r {
                Some(a) => arch_str(a) == s@,
                None => s@ != "amd64"@ && s@ != "arm64"@,
            },
    {
        if crate::text::str_eq(s, "amd64") {
            Some(Arch::Amd64)
        } else if crate::text::str_eq(s, "arm64") {
            Some(Arch::Arm64)
        } else {
            None
        }
    }
}

/// A UTC instant, second precision, as the manifest stores it.
#[derive(Clone, Copy, Debug, PartialEq, Eq, Structural)]
pub struct Timestamp {
    pub year: u32,
    pub month: u32,
    pub day: u32,
    pub hour: u32,
    pub minute: u32,
    pub second: u32,
}

impl Timestamp {
    /// Fields fit the calendar and the four-digit year the manifest writes.
    pub open spec fn wf(self) -> bool {
        &&& 1 <= self.year <= 9999
        &&& 1 <= self.month <= 12
        &&& 1 <= self.day <= 31
        &&& self.hour <= 23
        &&& self.minute <= 59
        &&& self.second <= 59
    }
}

/// Descriptive data carried beside the artifact location.
#[derive(Debug, Clone)]
pub struct ArtifactMetadata {
    pub timestamp: Timestamp,
    pub distro_version: DistroVersion,
}

/// Mathematical model of the metadata.
#[verifier::ext_equal]
pub struct MetadataV {
    pub timestamp: Timestamp,
    pub distro_version: Seq<char>,
}

impl View for ArtifactMetadata {
    type V = MetadataV;

    open spec fn view(&self) -> MetadataV {
        MetadataV { timestamp: self.timestamp, distro_version: self.distro_version@ }
    }
}

impl PartialEq for ArtifactMetadata {
    fn eq(&self, other: &ArtifactMetadata) -> (r: bool) {
        let r = self.timestamp == other.timestamp && self.distro_version == other.distro_version;
        proof {
            if r {
                assert(self@ =~= other@);
            }
        }
        r
    }
}

impl vstd::std_specs::cmp::PartialEqSpecImpl for ArtifactMetadata {
    open spec fn obeys_eq_spec() -> bool {
        true
    }

    open spec fn eq_spec(&self, other: &ArtifactMetadata) -> bool {
        self@ == other@
    }
}

/// One published build output: where it lives and what it is.
#[derive(Debug, Clone)]
pub struct ArtifactRecord {
    pub version: String,
    pub os: Os,
    pub arch: Arch,
    pub url: String,
    pub checksum: Checksum,
    pub metadata: ArtifactMetadata,
}

/// Mathematical model of a record.
#[verifier::ext_equal]
pub struct RecordV {
    pub version: Seq<char>,
    pub os: Os,
    pub arch: Arch,
    pub url: Seq<char>,
    pub checksum: ChecksumV,
    pub metadata: MetadataV,
}

impl View for ArtifactRecord {
    type V = RecordV;

    open spec fn view(&self) -> RecordV {
        RecordV {
            version: self.version@,
            os: self.os,
            arch: self.arch,
            url: self.url@,
            checksum: self.checksum@,
            metadata: self.metadata@,
        }
    }
}

impl PartialEq for ArtifactRecord {
    fn eq(&self, other: &ArtifactRecord) -> (r: bool) {
        let r = self.version == other.version && self.os == other.os && self.arch == other.arch
            && self.url == other.url && self.checksum == other.checksum && self.metadata
            == other.metadata;
        proof {
            if r {
                assert(self@ =~= other@);
            }
        }
        r
    }
}

impl vstd::std_specs::cmp::PartialEqSpecImpl for ArtifactRecord {
    open spec fn obeys_eq_spec() -> bool {
        true
    }

    open spec fn eq_spec(&self, other: &ArtifactRecord) -> bool {
        self@ == other@
    }
}

/// A record the manifest can store and read back unchanged.
pub open spec fn valid_record(r: RecordV) -> bool {
    &&& plain_str(r.version)
    &&& plain_str(r.url)
    &&& plain_str(r.metadata.distro_version)
    &&& r.checksum.wf()
    &&& r.checksum.algorithm == Algorithm::Sha256
    &&& r.metadata.timestamp.wf()
}

/// Copies a record.
pub fn record_clone(r: &ArtifactRecord) -> (c: ArtifactRecord)
    ensures
        c@ == r@,
{
    let c = ArtifactRecord {
        version: r.version.clone(),
        os: r.os,
        arch: r.arch,
        url: r.url.clone(),
        checksum: checksum_clone(&r.checksum),
        metadata: ArtifactMetadata {
            timestamp: r.metadata.timestamp,
            distro_version: r.metadata.distro_version.clone_value(),
        },
    };
    proof {
        assert(c@ =~= r@);
    }
    c
}

} // verus!
