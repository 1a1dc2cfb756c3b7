//! JRuby build properties: the `default.build.properties` document that a
//! JRuby release publishes, and the Ruby stdlib version it names.
//!
//! The document bytes are fetched by the caller; this module looks the
//! version up in the parsed key/value pairs.

use vstd::prelude::*;
use vstd::string::StringExecFns;
use crate::text::{bytes_clone, string_eq};

verus! {

/// The key/value map that a Java properties document holds, named so that
/// contracts can speak of it; the `java_properties` crate computes it.
pub uninterp spec fn properties_of(body: Seq<u8>) -> Map<Seq<char>, Seq<char>>;

/// Relies on `java_properties::read`: parses a properties document into its
/// key/value map (reading entries in order, later duplicates overwriting).
/// The pairs come back in the map's iteration order, which is not
/// specified, so the contract ties them only to the map itself.
#[verifier::external_body]
fn read_properties(body: &Vec<u8>) -> (r: Result<Vec<(String, String)>, String>)
    ensures
        r matches Ok(pairs) ==> {
            &&& forall|i: int|
                0 <= i < pairs@.len() ==> properties_of(body@).contains_pair(
                    (#[trigger] pairs@[i]).0@,
                    pairs@[i].1@,
                )
            &&& forall|k: Seq<char>|
                properties_of(body@).dom().contains(k) ==> exists|i: int|
                    0 <= i < pairs@.len() && (#[trigger] pairs@[i]).0@ == k
        },
{
    java_properties::read(&body[..]).map(|m| m.into_iter().collect()).map_err(|e| e.to_string())
}

/// A fetched `default.build.properties` document and where it came from.
#[derive(Debug)]
pub struct BuildProperties {
    pub body: Vec<u8>,
    pub url: String,
}

/// Why no stdlib version could be read out of the document.
#[derive(Debug)]
pub enum Error {
    /// The document parsed but holds no `version.ruby` entry; carries the
    /// source URL and the document for diagnostics.
    CannotParseJrubyStdlibVersion { url: String, body: Vec<u8> },
    /// The document is not a readable properties file.
    InvalidProperties(String),
}

impl BuildProperties {
    /// The Ruby stdlib version this JRuby release targets: the value of the
    /// `version.ruby` property.
    pub fn ruby_stdlib_version(&self) -> (r: Result<String, Error>)
        ensures
            r matches Ok(v) ==> properties_of(self.body@).contains_pair("version.ruby"@, v@),
            r matches Err(Error::CannotParseJrubyStdlibVersion { url, body }) ==> url@
                == self.url@ && body@ == self.body@ && !properties_of(self.body@).dom().contains(
                "version.ruby"@,
            ),
    {
        let pairs = match read_properties(&self.body) {
            Ok(p) => p,
            Err(m) => {
                return Err(Error::InvalidProperties(m));
            },
        };
        let key = String::from_str("version.ruby");
        let n = pairs.len();
        let mut i: usize = 0;
        while i < n
            invariant
                i <= n,
                n == pairs@.len(),
                key@ == "version.ruby"@,
                forall|i2: int|
                    0 <= i2 < pairs@.len() ==> properties_of(self.body@).contains_pair(
                        (#[trigger] pairs@[i2]).0@,
                        pairs@[i2].1@,
                    ),
                forall|k: Seq<char>|
                    properties_of(self.body@).dom().contains(k) ==> exists|i2: int|
                        0 <= i2 < pairs@.len() && (#[trigger] pairs@[i2]).0@ == k,
                forall|j: int| 0 <= j < i ==> (#[trigger] pairs@[j]).0@ != "version.ruby"@,
            decreases n - i,
        {
            let pair = &pairs[i];
            if string_eq(&pair.0, &key) {
                return Ok(pair.1.clone());
            }
            i = i + 1;
        }
        proof {
            if properties_of(self.body@).dom().contains("version.ruby"@) {
                let w = choose|i2: int|
                    0 <= i2 < pairs@.len() && (#[trigger] pairs@[i2]).0@ == "version.ruby"@;
                assert(pairs@[w].0@ != "version.ruby"@);
            }
        }
        Err(
            Error::CannotParseJrubyStdlibVersion {
                url: self.url.clone(),
                body: bytes_clone(&self.body),
            },
        )
    }
}

} // verus!
