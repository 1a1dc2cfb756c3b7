//! Decisions made while preparing a build: which versions a base image
//! accepts, where the output archive goes, and which flags `configure` gets.

use vstd::prelude::*;
use vstd::string::StringExecFns;
use crate::base_image::BaseImage;
use crate::errors::Error;
use crate::record::{arch_str, Arch};
use crate::text::{append_str, chars_to_string, str_eq};
use crate::version::{spec_bundler_format, RubyDownloadVersion};

verus! {

/// Rejects versions that cannot run on the named base image: the `3.0` line
/// does not build on `heroku-22`.
pub fn validate_version_for_stack(ruby_version: &RubyDownloadVersion, base_image: &BaseImage) -> (r:
    Result<(), Error>)
    ensures
        r is Err <==> (base_image@.name == "heroku-22"@ && ruby_version@.major >= 3
            && ruby_version@.minor == 0),
        r matches Err(e) ==> (e matches Error::InvalidVersionForStack(v, n) && v@
            == spec_bundler_format(ruby_version@) && n@ == base_image@.name),
{
    if str_eq(base_image.name(), "heroku-22") && ruby_version.major >= 3 && ruby_version.minor == 0 {
        Err(
            Error::InvalidVersionForStack(
                ruby_version.bundler_format(),
                base_image.name().to_owned(),
            ),
        )
    } else {
        Ok(())
    }
}

/// Where the output archive for a build goes, below `output`: one directory
/// per base image, with a per-architecture subdirectory on images that are
/// laid out per architecture.
pub fn output_tar_path(
    output: &str,
    version: &RubyDownloadVersion,
    base_image: &BaseImage,
    cpu_architecture: &Arch,
) -> (r: String)
    ensures
        r@ == output@ + "/"@ + base_image@.name + (if base_image@.name == "heroku-24"@ {
            "/"@ + arch_str(*cpu_architecture)
        } else {
            Seq::<char>::empty()
        }) + "/ruby-"@ + spec_bundler_format(version@) + ".tgz"@,
{
    let mut out: Vec<char> = Vec::new();
    append_str(&mut out, output);
    append_str(&mut out, "/");
    append_str(&mut out, base_image.name());
    if base_image.is_arch_aware() {
        append_str(&mut out, "/");
        append_str(&mut out, cpu_architecture.name());
    }
    append_str(&mut out, "/ruby-");
    append_str(&mut out, version.bundler_format().as_str());
    append_str(&mut out, ".tgz");
    chars_to_string(&out)
}

/// The flags handed to the interpreter's `configure` script; YJIT is enabled
/// from the `3.2` line on.
pub fn configure_args(compiled_dir: &str, version: &RubyDownloadVersion) -> (r: Vec<String>)
    ensures
        ({
            let yjit = version@.major > 3 || (version@.major == 3 && version@.minor >= 2);
            &&& r@.len() == (if yjit {
                6int
            } else {
                5int
            })
            &&& r@[0]@ == "--disable-install-doc"@
            &&& r@[1]@ == "--enable-load-relative"@
            &&& r@[2]@ == "--enable-shared"@
            &&& r@[3]@ == "--prefix"@
            &&& r@[4]@ == compiled_dir@
            &&& yjit ==> r@[5]@ == "--enable-yjit"@
        }),
{
    let mut args: Vec<String> = Vec::new();
    args.push(String::from_str("--disable-install-doc"));
    args.push(String::from_str("--enable-load-relative"));
    args.push(String::from_str("--enable-shared"));
    args.push(String::from_str("--prefix"));
    args.push(String::from_str(compiled_dir));
    if version.major > 3 || (version.major == 3 && version.minor >= 2) {
        args.push(String::from_str("--enable-yjit"));
    }
    args
}

} // verus!
