//! Typed, algorithm-tagged digest values.
//!
//! A `Checksum` renders as `"sha256:<lowercase hex>"` and parses back from
//! exactly that shape; `lemma_checksum_roundtrip` states the round-trip law.
//! Digests are computed by streaming bounded-size chunks through the `sha2`
//! crate behind a small trusted boundary.

use vstd::prelude::*;
use vstd::slice::slice_subrange;
use crate::text::{append_str, bytes_clone, chars_to_string, has_prefix, str_to_chars, starts_with_at};

verus! {

/// The digest algorithms the store knows about.
#[derive(Clone, Copy, Debug, PartialEq, Eq, Structural)]
pub enum Algorithm {
    Sha256,
}

impl Algorithm {
    /// Digest size in bytes.
    pub open spec fn spec_digest_len(self) -> int {
        32
    }
}

/// Mathematical model of a checksum: the algorithm tag and the digest bytes.
#[verifier::ext_equal]
pub struct ChecksumV {
    pub algorithm: Algorithm,
    pub value: Seq<u8>,
}

impl ChecksumV {
    /// The digest length matches the algorithm's fixed size.
    pub open spec fn wf(self) -> bool {
        self.value.len() == self.algorithm.spec_digest_len()
    }
}

/// An algorithm-tagged digest.
#[derive(Debug, Clone)]
pub struct Checksum {
    pub algorithm: Algorithm,
    pub value: Vec<u8>,
}

impl View for Checksum {
    type V = ChecksumV;

    open spec fn view(&self) -> ChecksumV {
        ChecksumV { algorithm: self.algorithm, value: self.value@ }
    }
}

impl PartialEq for Checksum {
    /// Exact byte-for-byte comparison under the same algorithm tag.
    fn eq(&self, other: &Checksum) -> (r: bool) {
        let alg_eq = match (self.algorithm, other.algorithm) {
            (Algorithm::Sha256, Algorithm::Sha256) => true,
        };
        let r = alg_eq && crate::text::bytes_eq(&self.value, &other.value);
        proof {
            if r {
                assert(self@ =~= other@);
            }
        }
        r
    }
}

impl vstd::std_specs::cmp::PartialEqSpecImpl for Checksum {
    open spec fn obeys_eq_spec() -> bool {
        true
    }

    open spec fn eq_spec(&self, other: &Checksum) -> bool {
        self@ == other@
    }
}

/// Hex character for a value below sixteen.
pub open spec fn hex_char_of(n: u8) -> char {
    if n == 0 {
        '0'
    } else if n == 1 {
        '1'
    } else if n == 2 {
        '2'
    } else if n == 3 {
        '3'
    } else if n == 4 {
        '4'
    } else if n == 5 {
        '5'
    } else if n == 6 {
        '6'
    } else if n == 7 {
        '7'
    } else if n == 8 {
        '8'
    } else if n == 9 {
        '9'
    } else if n == 10 {
        'a'
    } else if n == 11 {
        'b'
    } else if n == 12 {
        'c'
    } else if n == 13 {
        'd'
    } else if n == 14 {
        'e'
    } else {
        'f'
    }
}

/// Value of a lowercase hex character, or sixteen for anything else.
pub open spec fn hex_val_of(c: char) -> u8 {
    if c == '0' {
        0
    } else if c == '1' {
        1
    } else if c == '2' {
        2
    } else if c == '3' {
        3
    } else if c == '4' {
        4
    } else if c == '5' {
        5
    } else if c == '6' {
        6
    } else if c == '7' {
        7
    } else if c == '8' {
        8
    } else if c == '9' {
        9
    } else if c == 'a' {
        10
    } else if c == 'b' {
        11
    } else if c == 'c' {
        12
    } else if c == 'd' {
        13
    } else if c == 'e' {
        14
    } else if c == 'f' {
        15
    } else {
        16
    }
}

pub open spec fn is_hex_digit(c: char) -> bool {
    hex_val_of(c) < 16
}

/// Lowercase hex rendering of a byte sequence: two characters per byte.
pub open spec fn spec_hex(bytes: Seq<u8>) -> Seq<char> {
    Seq::new(
        bytes.len() * 2,
        |i: int|
            if i % 2 == 0 {
                hex_char_of(bytes[i / 2] / 16)
            } else {
                hex_char_of(bytes[i / 2] % 16)
            },
    )
}

/// Bytes read back from a hex character sequence of even length.
pub open spec fn hex_val_seq(h: Seq<char>) -> Seq<u8> {
    Seq::new(h.len() / 2, |i: int| (hex_val_of(h[2 * i]) * 16 + hex_val_of(h[2 * i + 1])) as u8)
}

proof fn lemma_hex_digit_inverse(n: u8)
    requires
        n < 16,
    ensures
        hex_val_of(hex_char_of(n)) == n,
        is_hex_digit(hex_char_of(n)),
{
}

/// Reading hex back gives the original bytes.
pub proof fn lemma_hex_roundtrip(bytes: Seq<u8>)
    ensures
        hex_val_seq(spec_hex(bytes)) =~= bytes,
        forall|j: int| 0 <= j < spec_hex(bytes).len() ==> is_hex_digit(#[trigger] spec_hex(bytes)[j]),
{
    assert forall|i: int| 0 <= i < bytes.len() implies hex_val_seq(spec_hex(bytes))[i] == bytes[i] by {
        let b = bytes[i];
        assert(b / 16 < 16 && b % 16 < 16);
        lemma_hex_digit_inverse(b / 16);
        lemma_hex_digit_inverse(b % 16);
        assert(spec_hex(bytes)[2 * i] == hex_char_of(b / 16));
        assert(spec_hex(bytes)[2 * i + 1] == hex_char_of(b % 16));
        assert(b / 16 * 16 + b % 16 == b) by (nonlinear_arith);
    }
    assert forall|j: int| 0 <= j < spec_hex(bytes).len() implies is_hex_digit(
        #[trigger] spec_hex(bytes)[j],
    ) by {
        let b = if j % 2 == 0 { bytes[j / 2] / 16 } else { bytes[j / 2] % 16 };
        assert(b < 16);
        lemma_hex_digit_inverse(b);
    }
}

/// Exec twin of `hex_char_of`.
fn hex_char(n: u8) -> (c: char)
    requires
        n < 16,
    ensures
        c == hex_char_of(n),
{
    match n {
        0 => '0',
        1 => '1',
        2 => '2',
        3 => '3',
        4 => '4',
        5 => '5',
        6 => '6',
        7 => '7',
        8 => '8',
        9 => '9',
        10 => 'a',
        11 => 'b',
        12 => 'c',
        13 => 'd',
        14 => 'e',
        _ => 'f',
    }
}

/// Exec twin of `hex_val_of`.
fn hex_val(c: char) -> (v: u8)
    ensures
        v == hex_val_of(c),
{
    match c {
        '0' => 0,
        '1' => 1,
        '2' => 2,
        '3' => 3,
        '4' => 4,
        '5' => 5,
        '6' => 6,
        '7' => 7,
        '8' => 8,
        '9' => 9,
        'a' => 10,
        'b' => 11,
        'c' => 12,
        'd' => 13,
        'e' => 14,
        'f' => 15,
        _ => 16,
    }
}

/// Appends the hex rendering of `bytes` to `out`.
pub fn push_hex(out: &mut Vec<char>, bytes: &Vec<u8>)
    ensures
        final(out)@ == old(out)@ + spec_hex(bytes@),
{
    let n = bytes.len();
    let mut i: usize = 0;
    while i < n
        invariant
            i <= n,
            n == bytes@.len(),
            out@ == old(out)@ + spec_hex(bytes@.take(i as int)),
        decreases n - i,
    {
        let b = bytes[i];
        out.push(hex_char(b / 16));
        out.push(hex_char(b % 16));
        i = i + 1;
        proof {
            assert(old(out)@ + spec_hex(bytes@.take(i as int)) =~= (old(out)@ + spec_hex(
                bytes@.take(i - 1),
            )).push(hex_char_of(bytes@[i - 1] / 16)).push(hex_char_of(bytes@[i - 1] % 16)));
        }
    }
    proof {
        assert(bytes@.take(n as int) =~= bytes@);
    }
}

/// Result of digesting a byte sequence with SHA-256, named so that contracts
/// can speak of it; the `sha2` crate computes it.
pub uninterp spec fn sha256_of(bytes: Seq<u8>) -> Seq<u8>;

/// Bytes absorbed so far by a streaming hasher.
pub uninterp spec fn sha256_fed(h: Sha256Stream) -> Seq<u8>;

/// Streaming SHA-256 state, backed by the `sha2` crate. The crate's hasher
/// type is a deep stack of generic wrappers that Verus cannot declare, so it
/// sits in a hidden field and the contracts speak of `sha256_fed`, the bytes
/// absorbed so far.
#[verifier::external_body]
pub struct Sha256Stream {
    inner: sha2::Sha256,
}

impl Sha256Stream {
    /// Relies on `sha2::Sha256::new` (`Digest` trait): a fresh hasher has
    /// absorbed nothing.
    #[verifier::external_body]
    pub fn new() -> (h: Sha256Stream)
        ensures
            sha256_fed(h) == Seq::<u8>::empty(),
    {
        Sha256Stream { inner: <sha2::Sha256 as sha2::Digest>::new() }
    }

    /// Relies on `sha2::Sha256::update` (`Digest` trait): absorbing a chunk
    /// appends it to what came before.
    #[verifier::external_body]
    pub fn update(&mut self, chunk: &[u8])
        ensures
            sha256_fed(*final(self)) == sha256_fed(*old(self)) + chunk@,
    {
        <sha2::Sha256 as sha2::Digest>::update(&mut self.inner, chunk);
    }

    /// Relies on `sha2::Sha256::finalize` (`Digest` trait): the digest is 32
    /// bytes and depends on exactly the absorbed bytes.
    #[verifier::external_body]
    pub fn finish(self) -> (d: Vec<u8>)
        ensures
            d@ == sha256_of(sha256_fed(self)),
            d@.len() == 32,
    {
        <sha2::Sha256 as sha2::Digest>::finalize(self.inner).to_vec()
    }
}

/// Rendering of a checksum: the algorithm tag, a colon, the hex digest.
pub open spec fn spec_checksum_str(c: ChecksumV) -> Seq<char> {
    "sha256:"@ + spec_hex(c.value)
}

/// What parsing a checksum string yields, if anything.
pub open spec fn spec_parse_checksum(s: Seq<char>) -> Option<ChecksumV> {
    if !has_prefix(s, "sha256:"@) {
        None
    } else {
        let h = s.skip("sha256:"@.len() as int);
        if h.len() != 64 {
            None
        } else if exists|j: int| 0 <= j < h.len() && !is_hex_digit(h[j]) {
            None
        } else {
            Some(ChecksumV { algorithm: Algorithm::Sha256, value: hex_val_seq(h) })
        }
    }
}

/// Why a checksum string failed to parse.
#[derive(Clone, Copy, Debug, PartialEq, Eq, Structural)]
pub enum ChecksumParseError {
    /// The string does not begin with a known algorithm tag.
    UnknownAlgorithm,
    /// The hex payload does not decode to the algorithm's digest size.
    WrongLength,
    /// The payload holds a character that is not a lowercase hex digit.
    InvalidHex,
}

impl Checksum {
    /// Streams `bytes` through SHA-256 in bounded-size chunks and returns the
    /// tagged digest.
    pub fn compute(bytes: &Vec<u8>) -> (c: Checksum)
        ensures
            c@.algorithm == Algorithm::Sha256,
            c@.value == sha256_of(bytes@),
            c@.wf(),
    {
        let mut h = Sha256Stream::new();
        let n = bytes.len();
        let mut i: usize = 0;
        proof {
            assert(sha256_fed(h) =~= bytes@.take(0int));
        }
        while i < n
            invariant
                i <= n,
                n == bytes@.len(),
                sha256_fed(h) == bytes@.take(i as int),
            decreases n - i,
        {
            let j = if n - i < 1024 {
                n
            } else {
                i + 1024
            };
            let chunk = slice_subrange(bytes.as_slice(), i, j);
            h.update(chunk);
            proof {
                assert(bytes@.take(i as int) + bytes@.subrange(i as int, j as int) =~= bytes@.take(
                    j as int,
                ));
            }
            i = j;
        }
        proof {
            assert(bytes@.take(n as int) =~= bytes@);
        }
        Checksum { algorithm: Algorithm::Sha256, value: h.finish() }
    }

    /// Renders the checksum as `"sha256:<hex>"`.
    pub fn to_string(&self) -> (s: String)
        ensures
            s@ == spec_checksum_str(self@),
    {
        let mut out: Vec<char> = Vec::new();
        append_str(&mut out, "sha256:");
        push_hex(&mut out, &self.value);
        chars_to_string(&out)
    }

    /// Parses `"sha256:<64 lowercase hex digits>"`; says exactly which part
    /// was malformed otherwise.
    pub fn parse(s: &str) -> (r: Result<Checksum, ChecksumParseError>)
        ensures
            r matches Ok(c) ==> spec_parse_checksum(s@) == Some(c@) && c@.wf(),
            r is Ok <==> spec_parse_checksum(s@) is Some,
            r == Err::<Checksum, _>(ChecksumParseError::UnknownAlgorithm) <==> !has_prefix(
                s@,
                "sha256:"@,
            ),
            r == Err::<Checksum, _>(ChecksumParseError::WrongLength) <==> (has_prefix(
                s@,
                "sha256:"@,
            ) && s@.skip("sha256:"@.len() as int).len() != 64),
            r == Err::<Checksum, _>(ChecksumParseError::InvalidHex) <==> (has_prefix(
                s@,
                "sha256:"@,
            ) && s@.skip("sha256:"@.len() as int).len() == 64 && exists|j: int|
                0 <= j < 64 && !is_hex_digit(s@.skip("sha256:"@.len() as int)[j])),
    {
        let v = str_to_chars(s);
        proof {
            assert(v@.skip(0int) =~= v@);
            reveal_strlit("sha256:");
        }
        if !starts_with_at(&v, 0, "sha256:") {
            return Err(ChecksumParseError::UnknownAlgorithm);
        }
        let ghost h = s@.skip("sha256:"@.len() as int);
        if v.len() - 7 != 64 {
            return Err(ChecksumParseError::WrongLength);
        }
        let mut value: Vec<u8> = Vec::new();
        let mut i: usize = 0;
        while i < 32
            invariant
                i <= 32,
                v@ == s@,
                v@.len() == 71,
                has_prefix(s@, "sha256:"@),
                "sha256:"@.len() == 7,
                h == s@.skip(7int),
                value@.len() == i,
                forall|j: int| 0 <= j < 2 * i ==> is_hex_digit(#[trigger] h[j]),
                forall|k: int| 0 <= k < i ==> value@[k] == hex_val_seq(h)[k],
            decreases 32 - i,
        {
            let hi = hex_val(v[7 + 2 * i]);
            let lo = hex_val(v[7 + 2 * i + 1]);
            if hi >= 16 {
                proof {
                    assert(!is_hex_digit(h[2 * (i as int)]));
                }
                return Err(ChecksumParseError::InvalidHex);
            }
            if lo >= 16 {
                proof {
                    assert(!is_hex_digit(h[2 * (i as int) + 1]));
                }
                return Err(ChecksumParseError::InvalidHex);
            }
            value.push(hi * 16 + lo);
            i = i + 1;
        }
        proof {
            assert(value@ =~= hex_val_seq(h));
            assert forall|j: int| 0 <= j < h.len() implies is_hex_digit(#[trigger] h[j]) by {
                assert(0 <= j < 64);
            }
        }
        Ok(Checksum { algorithm: Algorithm::Sha256, value })
    }
}

/// Parses a checksum rendering held as characters; `None` on any deviation
/// from `"sha256:<64 lowercase hex digits>"`.
pub(crate) fn checksum_from_chars(f: &Vec<char>) -> (r: Option<Checksum>)
    ensures
        match r {
            Some(c) => spec_parse_checksum(f@) == Some(c@) && c@.wf(),
            None => spec_parse_checksum(f@) is None,
        },
{
    proof {
        assert(f@.skip(0int) =~= f@);
        reveal_strlit("sha256:");
    }
    if !starts_with_at(f, 0, "sha256:") {
        return None;
    }
    if f.len() != 71 {
        return None;
    }
    let ghost h = f@.skip(7int);
    let mut value: Vec<u8> = Vec::new();
    let mut i: usize = 0;
    while i < 32
        invariant
            i <= 32,
            f@.len() == 71,
            has_prefix(f@, "sha256:"@),
            "sha256:"@.len() == 7,
            h == f@.skip(7int),
            value@.len() == i,
            forall|j: int| 0 <= j < 2 * i ==> is_hex_digit(#[trigger] h[j]),
            forall|k: int| 0 <= k < i ==> value@[k] == hex_val_seq(h)[k],
        decreases 32 - i,
    {
        let hi = hex_val(f[7 + 2 * i]);
        let lo = hex_val(f[7 + 2 * i + 1]);
        if hi >= 16 {
            proof {
                assert(!is_hex_digit(h[2 * (i as int)]));
            }
            return None;
        }
        if lo >= 16 {
            proof {
                assert(!is_hex_digit(h[2 * (i as int) + 1]));
            }
            return None;
        }
        value.push(hi * 16 + lo);
        i = i + 1;
    }
    proof {
        assert(value@ =~= hex_val_seq(h));
        assert forall|j: int| 0 <= j < h.len() implies is_hex_digit(#[trigger] h[j]) by {
            assert(0 <= j < 64);
        }
    }
    Some(Checksum { algorithm: Algorithm::Sha256, value })
}

/// Round-trip law: rendering a well-formed checksum and parsing it back gives
/// the same checksum.
pub proof fn lemma_checksum_roundtrip(c: ChecksumV)
    requires
        c.wf(),
        c.algorithm == Algorithm::Sha256,
    ensures
        spec_parse_checksum(spec_checksum_str(c)) == Some(c),
{
    reveal_strlit("sha256:");
    let s = spec_checksum_str(c);
    assert(s.take("sha256:"@.len() as int) =~= "sha256:"@);
    assert(s.skip("sha256:"@.len() as int) =~= spec_hex(c.value));
    lemma_hex_roundtrip(c.value);
    assert(spec_parse_checksum(s) == Some(ChecksumV { algorithm: Algorithm::Sha256, value: hex_val_seq(spec_hex(c.value)) }));
    assert(ChecksumV { algorithm: Algorithm::Sha256, value: hex_val_seq(spec_hex(c.value)) } =~= c);
}

/// Copies a checksum.
pub fn checksum_clone(c: &Checksum) -> (r: Checksum)
    ensures
        r@ == c@,
{
    Checksum { algorithm: c.algorithm, value: bytes_clone(&c.value) }
}

} // verus!
