//! Base build images: the known image names, their distro version numbers,
//! and the CPU architectures artifacts are built for.

use vstd::prelude::*;
use vstd::string::StrSliceExecFns;
use vstd::string::StringExecFns;
use crate::text::str_eq;

verus! {

/// The name was not one of the known base images.
#[derive(Debug)]
pub struct BaseImageError(pub String);

/// A known base build image, such as `heroku-24`.
#[derive(Debug, Clone)]
pub struct BaseImage {
    name: String,
    distro_number: String,
}

/// Mathematical model of a base image.
#[verifier::ext_equal]
pub struct BaseImageV {
    pub name: Seq<char>,
    pub distro_number: Seq<char>,
}

impl View for BaseImage {
    type V = BaseImageV;

    closed spec fn view(&self) -> BaseImageV {
        BaseImageV { name: self.name@, distro_number: self.distro_number@ }
    }
}

/// A distro release label such as `24.04`.
#[derive(Debug, Clone)]
pub struct DistroVersion(String);

impl View for DistroVersion {
    type V = Seq<char>;

    closed spec fn view(&self) -> Seq<char> {
        self.0@
    }
}

impl DistroVersion {
    pub fn new(s: String) -> (d: DistroVersion)
        ensures
            d@ == s@,
    {
        DistroVersion(s)
    }

    pub fn as_str(&self) -> (s: &str)
        ensures
            s@ == self@,
    {
        self.0.as_str()
    }

    pub fn clone_value(&self) -> (d: DistroVersion)
        ensures
            d@ == self@,
    {
        DistroVersion(self.0.clone())
    }
}

impl PartialEq for DistroVersion {
    fn eq(&self, other: &DistroVersion) -> (r: bool) {
        self.0 == other.0
    }
}

impl vstd::std_specs::cmp::PartialEqSpecImpl for DistroVersion {
    open spec fn obeys_eq_spec() -> bool {
        true
    }

    open spec fn eq_spec(&self, other: &DistroVersion) -> bool {
        self@ == other@
    }
}

/// The image names this tooling knows how to build for.
pub open spec fn known_base_image(s: Seq<char>) -> bool {
    s == "heroku-20"@ || s == "heroku-22"@ || s == "heroku-24"@
}

/// The distro version number paired with each known image name.
pub open spec fn distro_number_of(s: Seq<char>) -> Seq<char> {
    if s == "heroku-20"@ {
        "20"@
    } else if s == "heroku-22"@ {
        "22"@
    } else {
        "24"@
    }
}

impl BaseImage {
    /// Accepts exactly the known image names.
    pub fn new(s: &str) -> (r: Result<BaseImage, BaseImageError>)
        ensures
            r is Ok <==> known_base_image(s@),
            r matches Ok(b) ==> b@.name == s@ && b@.distro_number == distro_number_of(s@),
            r matches Err(e) ==> e.0@ == s@,
    {
        if str_eq(s, "heroku-20") {
            Ok(BaseImage { name: s.to_owned(), distro_number: String::from_str("20") })
        } else if str_eq(s, "heroku-22") {
            Ok(BaseImage { name: s.to_owned(), distro_number: String::from_str("22") })
        } else if str_eq(s, "heroku-24") {
            Ok(BaseImage { name: s.to_owned(), distro_number: String::from_str("24") })
        } else {
            Err(BaseImageError(s.to_owned()))
        }
    }

    /// The distro release label: the version number followed by `.04`.
    pub fn distro_version(&self) -> (d: DistroVersion)
        ensures
            d@ == self@.distro_number + ".04"@,
    {
        DistroVersion(self.distro_number.clone().concat(".04"))
    }

    /// Whether artifacts for this image are laid out per architecture.
    pub fn is_arch_aware(&self) -> (r: bool)
        ensures
            r == (self@.name == "heroku-24"@),
    {
        str_eq(self.name.as_str(), "heroku-24")
    }

    pub fn name(&self) -> (s: &str)
        ensures
            s@ == self@.name,
    {
        self.name.as_str()
    }

    pub fn distro_number(&self) -> (s: &str)
        ensures
            s@ == self@.distro_number,
    {
        self.distro_number.as_str()
    }
}

impl core::str::FromStr for BaseImage {
    type Err = BaseImageError;

    fn from_str(s: &str) -> Result<BaseImage, BaseImageError> {
        BaseImage::new(s)
    }
}

/// The name was not one of the known CPU architectures.
#[derive(Debug)]
pub struct CpuArchError(pub String);

/// A CPU architecture named on the command line: `amd64` or `arm64`.
#[derive(Debug, Clone)]
pub struct CpuArch {
    name: String,
}

impl View for CpuArch {
    type V = Seq<char>;

    closed spec fn view(&self) -> Seq<char> {
        self.name@
    }
}

/// The architecture names this tooling accepts.
pub open spec fn known_cpu_arch(s: Seq<char>) -> bool {
    s == "amd64"@ || s == "arm64"@
}

impl CpuArch {
    /// Accepts exactly the known architecture names.
    pub fn new(s: &str) -> (r: Result<CpuArch, CpuArchError>)
        ensures
            r is Ok <==> known_cpu_arch(s@),
            r matches Ok(a) ==> a@ == s@,
            r matches Err(e) ==> e.0@ == s@,
    {
        if str_eq(s, "amd64") || str_eq(s, "arm64") {
            Ok(CpuArch { name: s.to_owned() })
        } else {
            Err(CpuArchError(s.to_owned()))
        }
    }

    pub fn name(&self) -> (s: &str)
        ensures
            s@ == self@,
    {
        self.name.as_str()
    }
}

impl core::str::FromStr for CpuArch {
    type Err = CpuArchError;

    fn from_str(s: &str) -> Result<CpuArch, CpuArchError> {
        CpuArch::new(s)
    }
}

} // verus!
