//! Download versions for the interpreter sources: `<major>.<minor>.<patch>`
//! with an optional trailing tag (`-preview1`, `-rc1`), parsed and rendered
//! in the shapes the build pipeline needs.

use vstd::prelude::*;
use vstd::string::StrSliceExecFns;
use vstd::string::StringExecFns;
use crate::errors::Error;
use crate::num::{
    dec, digit_val, digit_value, digits_val, is_digit, leading_digits, lemma_digits_val_nonneg,
    lemma_leading_digits_at, push_dec_u32,
};
use crate::text::{
    append_chars, append_range, append_str, chars_to_string, find_char, find_char_vec,
    str_to_chars,
};

verus! {

/// A parsed download version.
#[derive(Debug, Clone)]
pub struct RubyDownloadVersion {
    pub major: u32,
    pub minor: u32,
    pub patch: u32,
    pub rest: String,
}

/// Mathematical model of a download version.
#[verifier::ext_equal]
pub struct RubyVersionV {
    pub major: u32,
    pub minor: u32,
    pub patch: u32,
    pub rest: Seq<char>,
}

impl View for RubyDownloadVersion {
    type V = RubyVersionV;

    open spec fn view(&self) -> RubyVersionV {
        RubyVersionV {
            major: self.major,
            minor: self.minor,
            patch: self.patch,
            rest: self.rest@,
        }
    }
}

/// Longest run of leading digits read as a number, if there is at least one
/// digit and the value fits in `u32`; also yields what follows the run.
pub open spec fn take_uint(s: Seq<char>) -> Option<(int, Seq<char>)> {
    let k = leading_digits(s);
    if k == 0 {
        None
    } else if digits_val(s.take(k)) > u32::MAX {
        None
    } else {
        Some((digits_val(s.take(k)), s.skip(k)))
    }
}

/// What parsing a version string yields, if anything: three dot-separated
/// numbers, then the remainder verbatim.
pub open spec fn spec_parse_version(s: Seq<char>) -> Option<RubyVersionV> {
    match take_uint(s) {
        None => None,
        Some((major, r1)) => if r1.len() == 0 || r1[0] != '.' {
            None
        } else {
            match take_uint(r1.skip(1)) {
                None => None,
                Some((minor, r2)) => if r2.len() == 0 || r2[0] != '.' {
                    None
                } else {
                    match take_uint(r2.skip(1)) {
                        None => None,
                        Some((patch, r3)) => Some(
                            RubyVersionV {
                                major: major as u32,
                                minor: minor as u32,
                                patch: patch as u32,
                                rest: r3,
                            },
                        ),
                    }
                },
            }
        },
    }
}

/// `<major>.<minor>.<patch>` without the trailing tag.
pub open spec fn spec_core_version(v: RubyVersionV) -> Seq<char> {
    dec(v.major as int) + "."@ + dec(v.minor as int) + "."@ + dec(v.patch as int)
}

/// The version exactly as it renders: core followed by the tag.
pub open spec fn spec_version_str(v: RubyVersionV) -> Seq<char> {
    spec_core_version(v) + v.rest
}

/// The tag with its first dash turned into a dot.
pub open spec fn dash_to_dot_once(s: Seq<char>) -> Seq<char> {
    match find_char(s, '-') {
        Some(i) => s.take(i) + "."@ + s.skip(i + 1),
        None => s,
    }
}

/// The shape a Gemfile pins: dots throughout.
pub open spec fn spec_bundler_format(v: RubyVersionV) -> Seq<char> {
    spec_core_version(v) + dash_to_dot_once(v.rest)
}

/// Reads the digit run starting at `pos`; `None` when there is none or its
/// value does not fit in `u32`.
fn scan_uint(v: &Vec<char>, pos: usize) -> (r: Option<(u32, usize)>)
    requires
        pos <= v@.len(),
    ensures
        match r {
            Some((x, p2)) => take_uint(v@.skip(pos as int)) == Some((x as int, v@.skip(p2 as int)))
                && pos < p2 <= v@.len(),
            None => take_uint(v@.skip(pos as int)) is None,
        },
{
    let ghost s = v@.skip(pos as int);
    let n = v.len();
    let mut i: usize = 0;
    let mut acc: u32 = 0;
    let mut overflow: bool = false;
    proof {
        assert(s.take(0int) =~= Seq::<char>::empty());
    }
    loop
        invariant
            pos + i <= n,
            n == v@.len(),
            s == v@.skip(pos as int),
            forall|j: int| 0 <= j < i ==> is_digit(#[trigger] s[j]),
            !overflow ==> acc as int == digits_val(s.take(i as int)),
            overflow ==> digits_val(s.take(i as int)) > u32::MAX,
        ensures
            pos + i <= n,
            n == v@.len(),
            forall|j: int| 0 <= j < i ==> is_digit(#[trigger] s[j]),
            !overflow ==> acc as int == digits_val(s.take(i as int)),
            overflow ==> digits_val(s.take(i as int)) > u32::MAX,
            pos + i == n || !is_digit(s[i as int]),
        decreases n - pos - i,
    {
        if pos + i == n {
            break;
        }
        let d = digit_value(v[pos + i]);
        if d >= 10 {
            proof {
                assert(s[i as int] == v@[pos + i]);
            }
            break;
        }
        proof {
            assert(s[i as int] == v@[pos + i]);
            assert(s.take(i + 1).drop_last() =~= s.take(i as int));
            assert(s.take(i + 1).last() == s[i as int]);
            assert(digits_val(s.take(i + 1)) == digits_val(s.take(i as int)) * 10 + digit_val(
                s[i as int],
            ));
        }
        if !overflow && acc <= (u32::MAX - d) / 10 {
            proof {
                assert(acc as int * 10 + d as int <= u32::MAX) by (nonlinear_arith)
                    requires
                        0 <= acc as int,
                        acc as int <= (u32::MAX as int - d as int) / 10,
                        (d as int) < 10,
                        0 <= d as int,
                ;
            }
            acc = acc * 10 + d;
        } else {
            proof {
                if !overflow {
                    assert(acc as int * 10 + d as int > u32::MAX) by (nonlinear_arith)
                        requires
                            acc as int > (u32::MAX as int - d as int) / 10,
                            (d as int) < 10,
                            0 <= d as int,
                    ;
                } else {
                    lemma_digits_val_nonneg(s.take(i as int));
                    assert(digits_val(s.take(i as int)) * 10 + digit_val(s[i as int])
                        > u32::MAX) by (nonlinear_arith)
                        requires
                            digits_val(s.take(i as int)) > u32::MAX as int,
                            0 <= digit_val(s[i as int]),
                    ;
                }
            }
            overflow = true;
        }
        i = i + 1;
    }
    proof {
        assert(i == s.len() || !is_digit(s[i as int])) by {
            if pos + i < n {
                assert(s[i as int] == v@[pos + i]);
            }
        }
        lemma_leading_digits_at(s, i as int);
    }
    if i == 0 {
        return None;
    }
    if overflow {
        return None;
    }
    proof {
        assert(v@.skip(pos as int).skip(i as int) =~= v@.skip(pos as int + i as int));
    }
    Some((acc, pos + i))
}

fn invalid_version_error(s: &str) -> (e: Error)
    ensures
        e matches Error::InvalidVersion { version, reason } && version@ == s@,
{
    Error::InvalidVersion {
        version: s.to_owned(),
        reason: String::from_str("expected a <major>.<minor>.<patch> version"),
    }
}

impl RubyDownloadVersion {
    /// Parses `"<major>.<minor>.<patch><rest>"`; rejects anything whose three
    /// leading numbers are missing, malformed or out of range.
    pub fn new(s: &str) -> (r: Result<RubyDownloadVersion, Error>)
        ensures
            r is Ok <==> spec_parse_version(s@) is Some,
            r matches Ok(ver) ==> spec_parse_version(s@) == Some(ver@),
            r matches Err(e) ==> (e matches Error::InvalidVersion { version, reason: _ }
                && version@ == s@),
    {
        let v = str_to_chars(s);
        proof {
            assert(v@.skip(0int) =~= v@);
        }
        let (major, p1) = match scan_uint(&v, 0) {
            Some(x) => x,
            None => {
                return Err(invalid_version_error(s));
            },
        };
        if p1 == v.len() || v[p1] != '.' {
            proof {
                if p1 < v@.len() {
                    assert(v@.skip(p1 as int)[0] == v@[p1 as int]);
                }
            }
            return Err(invalid_version_error(s));
        }
        proof {
            assert(v@.skip(p1 as int)[0] == v@[p1 as int]);
            assert(v@.skip(p1 as int).skip(1) =~= v@.skip(p1 as int + 1));
        }
        let (minor, p2) = match scan_uint(&v, p1 + 1) {
            Some(x) => x,
            None => {
                return Err(invalid_version_error(s));
            },
        };
        if p2 == v.len() || v[p2] != '.' {
            proof {
                if p2 < v@.len() {
                    assert(v@.skip(p2 as int)[0] == v@[p2 as int]);
                }
            }
            return Err(invalid_version_error(s));
        }
        proof {
            assert(v@.skip(p2 as int)[0] == v@[p2 as int]);
            assert(v@.skip(p2 as int).skip(1) =~= v@.skip(p2 as int + 1));
        }
        let (patch, p3) = match scan_uint(&v, p2 + 1) {
            Some(x) => x,
            None => {
                return Err(invalid_version_error(s));
            },
        };
        let mut rest_chars: Vec<char> = Vec::new();
        append_range(&mut rest_chars, &v, p3, v.len());
        proof {
            assert(rest_chars@ =~= v@.skip(p3 as int));
        }
        let rest = chars_to_string(&rest_chars);
        Ok(RubyDownloadVersion { major, minor, patch, rest })
    }

    /// For a prerelease (nonempty tag), the bare `<major>.<minor>.<patch>`
    /// it previews; `None` for a final release.
    pub fn is_prerelease(&self) -> (r: Option<String>)
        ensures
            self@.rest.len() == 0 ==> r is None,
            self@.rest.len() != 0 ==> (r matches Some(f) && f@ == spec_core_version(self@)),
    {
        if self.rest.as_str().unicode_len() == 0 {
            None
        } else {
            let mut out: Vec<char> = Vec::new();
            self.push_core(&mut out);
            Some(chars_to_string(&out))
        }
    }

    /// `<major>.<minor>.<patch>` with the tag's first dash rewritten to a
    /// dot, as a Gemfile expects.
    pub fn bundler_format(&self) -> (r: String)
        ensures
            r@ == spec_bundler_format(self@),
    {
        let mut out: Vec<char> = Vec::new();
        self.push_core(&mut out);
        let rv = str_to_chars(self.rest.as_str());
        match find_char_vec(&rv, '-') {
            Some(i) => {
                let len = rv.len();
                proof {
                    crate::text::lemma_find_char_props(rv@, '-');
                    assert(i < len);
                }
                append_range(&mut out, &rv, 0, i);
                append_str(&mut out, ".");
                append_range(&mut out, &rv, i + 1, len);
                proof {
                    assert(rv@.subrange(0int, i as int) =~= rv@.take(i as int));
                    assert(rv@.subrange(i as int + 1, rv@.len() as int) =~= rv@.skip(i as int + 1));
                }
            },
            None => {
                append_chars(&mut out, &rv);
            },
        }
        chars_to_string(&out)
    }

    /// The directory a source archive unpacks to: `ruby-<version>`.
    pub fn dir_name_format(&self) -> (r: String)
        ensures
            r@ == "ruby-"@ + spec_version_str(self@),
    {
        let mut out: Vec<char> = Vec::new();
        append_str(&mut out, "ruby-");
        self.push_core(&mut out);
        append_str(&mut out, self.rest.as_str());
        chars_to_string(&out)
    }

    /// Where the source archive for this version is published.
    pub fn download_url(&self) -> (r: String)
        ensures
            r@ == "https://cache.ruby-lang.org/pub/ruby/"@ + dec(self@.major as int) + "."@ + dec(
                self@.minor as int,
            ) + "/ruby-"@ + spec_version_str(self@) + ".tar.gz"@,
    {
        let mut out: Vec<char> = Vec::new();
        append_str(&mut out, "https://cache.ruby-lang.org/pub/ruby/");
        push_dec_u32(&mut out, self.major);
        append_str(&mut out, ".");
        push_dec_u32(&mut out, self.minor);
        append_str(&mut out, "/ruby-");
        self.push_core(&mut out);
        append_str(&mut out, self.rest.as_str());
        append_str(&mut out, ".tar.gz");
        chars_to_string(&out)
    }

    /// The version exactly as written: core plus tag.
    pub fn version_string(&self) -> (r: String)
        ensures
            r@ == spec_version_str(self@),
    {
        let mut out: Vec<char> = Vec::new();
        self.push_core(&mut out);
        append_str(&mut out, self.rest.as_str());
        chars_to_string(&out)
    }

    fn push_core(&self, out: &mut Vec<char>)
        ensures
            final(out)@ == old(out)@ + spec_core_version(self@),
    {
        push_dec_u32(out, self.major);
        append_str(out, ".");
        push_dec_u32(out, self.minor);
        append_str(out, ".");
        push_dec_u32(out, self.patch);
    }
}

impl core::str::FromStr for RubyDownloadVersion {
    type Err = Error;

    fn from_str(s: &str) -> Result<RubyDownloadVersion, Error> {
        RubyDownloadVersion::new(s)
    }
}

} // verus!
