//! The manifest document format and its round-trip guarantee.
//!
//! A manifest is a structured text document: one `[[artifacts]]` table per
//! record, fields in a fixed order, each value on one quoted line, and a
//! nested `[artifacts.metadata]` table. `ser_record`/`ser_records` define
//! the exact rendering; `parse_record`/`parse_records`/`parse_doc` define
//! what parsing yields for every input. An empty or whitespace-only document
//! is the empty inventory; anything else must follow the rendering exactly.
//! `lemma_manifest_roundtrip` proves that parsing a rendered inventory gives
//! it back unchanged.

use vstd::prelude::*;
use crate::base_image::DistroVersion;
use crate::checksum::{checksum_from_chars, spec_checksum_str, spec_parse_checksum, ChecksumV};
use crate::num::{
    all_digits, dec_pad, digit_value, digits_val, is_digit, lemma_dec_pad_val, pow10,
};
use crate::record::{
    arch_str, os_str, valid_record, Arch, ArtifactMetadata, ArtifactRecord, MetadataV, Os, RecordV,
    Timestamp,
};
use crate::text::{
    append_range, chars_eq_str, chars_to_string, find_char, has_prefix, lemma_find_char_at,
    lemma_find_char_props, plain_str, starts_with_at,
};

verus! {

/// Whitespace, for the purposes of recognizing a blank manifest.
pub open spec fn is_ws(c: char) -> bool {
    c == ' ' || c == '\t' || c == '\n' || c == '\r'
}

pub open spec fn all_ws(s: Seq<char>) -> bool {
    forall|j: int| 0 <= j < s.len() ==> is_ws(#[trigger] s[j])
}

/// Strips `lit` off the front of `s`, if it stands there.
pub open spec fn take_lit(s: Seq<char>, lit: Seq<char>) -> Option<Seq<char>> {
    if has_prefix(s, lit) {
        Some(s.skip(lit.len() as int))
    } else {
        None
    }
}

/// Reads up to the next quote: the characters before it, and what follows
/// it.
pub open spec fn take_str(s: Seq<char>) -> Option<(Seq<char>, Seq<char>)> {
    match find_char(s, '"') {
        Some(i) => Some((s.take(i), s.skip(i + 1))),
        None => None,
    }
}

pub proof fn lemma_take_lit(lit: Seq<char>, rest: Seq<char>)
    ensures
        take_lit(lit + rest, lit) == Some(rest),
{
    assert((lit + rest).take(lit.len() as int) =~= lit);
    assert((lit + rest).skip(lit.len() as int) =~= rest);
}

pub proof fn lemma_take_str(field: Seq<char>, rest: Seq<char>)
    requires
        plain_str(field),
    ensures
        take_str(field + "\""@ + rest) == Some((field, rest)),
{
    reveal_strlit("\"");
    let s = field + "\""@ + rest;
    assert(s[field.len() as int] == '"');
    assert forall|j: int| 0 <= j < field.len() implies s[j] != '"' by {
        assert(s[j] == field[j]);
    }
    lemma_find_char_at(s, '"', field.len() as int);
    assert(s.take(field.len() as int) =~= field);
    assert(s.skip(field.len() as int + 1) =~= rest);
}

/// The timestamp rendering: `YYYY-MM-DDTHH:MM:SSZ`.
pub open spec fn ts_str(t: Timestamp) -> Seq<char> {
    dec_pad(t.year as int, 4) + "-"@ + dec_pad(t.month as int, 2) + "-"@ + dec_pad(
        t.day as int,
        2,
    ) + "T"@ + dec_pad(t.hour as int, 2) + ":"@ + dec_pad(t.minute as int, 2) + ":"@ + dec_pad(
        t.second as int,
        2,
    ) + "Z"@
}

/// What parsing a timestamp field yields: the fixed-width shape above, with
/// each component read back and held to the calendar ranges.
pub open spec fn parse_ts(f: Seq<char>) -> Option<Timestamp> {
    if f.len() != 20 {
        None
    } else if !(f[4] == '-' && f[7] == '-' && f[10] == 'T' && f[13] == ':' && f[16] == ':' && f[19]
        == 'Z') {
        None
    } else if !(all_digits(f.subrange(0, 4)) && all_digits(f.subrange(5, 7)) && all_digits(
        f.subrange(8, 10),
    ) && all_digits(f.subrange(11, 13)) && all_digits(f.subrange(14, 16)) && all_digits(
        f.subrange(17, 19),
    )) {
        None
    } else {
        let y = digits_val(f.subrange(0, 4));
        let mo = digits_val(f.subrange(5, 7));
        let d = digits_val(f.subrange(8, 10));
        let h = digits_val(f.subrange(11, 13));
        let mi = digits_val(f.subrange(14, 16));
        let sec = digits_val(f.subrange(17, 19));
        if 1 <= y && 1 <= mo <= 12 && 1 <= d <= 31 && h <= 23 && mi <= 59 && sec <= 59 {
            Some(
                Timestamp {
                    year: y as u32,
                    month: mo as u32,
                    day: d as u32,
                    hour: h as u32,
                    minute: mi as u32,
                    second: sec as u32,
                },
            )
        } else {
            None
        }
    }
}

pub proof fn lemma_pow10_small()
    ensures
        pow10(0) == 1,
        pow10(1) == 10,
        pow10(2) == 100,
        pow10(3) == 1000,
        pow10(4) == 10000,
{
    assert(pow10(0) == 1);
    assert(pow10(1) == 10);
    assert(pow10(2) == 100);
    assert(pow10(3) == 1000);
    assert(pow10(4) == 10000);
}

/// A well-formed timestamp renders to twenty quote-free characters and
/// parses back to itself.
pub proof fn lemma_ts_roundtrip(t: Timestamp)
    requires
        t.wf(),
    ensures
        parse_ts(ts_str(t)) == Some(t),
        ts_str(t).len() == 20,
        plain_str(ts_str(t)),
{
    reveal_strlit("-");
    reveal_strlit("T");
    reveal_strlit(":");
    reveal_strlit("Z");
    lemma_pow10_small();
    lemma_dec_pad_val(t.year as int, 4);
    lemma_dec_pad_val(t.month as int, 2);
    lemma_dec_pad_val(t.day as int, 2);
    lemma_dec_pad_val(t.hour as int, 2);
    lemma_dec_pad_val(t.minute as int, 2);
    lemma_dec_pad_val(t.second as int, 2);
    let f = ts_str(t);
    assert(f.len() == 20);
    assert(f.subrange(0, 4) =~= dec_pad(t.year as int, 4));
    assert(f[4] == '-');
    assert(f.subrange(5, 7) =~= dec_pad(t.month as int, 2));
    assert(f[7] == '-');
    assert(f.subrange(8, 10) =~= dec_pad(t.day as int, 2));
    assert(f[10] == 'T');
    assert(f.subrange(11, 13) =~= dec_pad(t.hour as int, 2));
    assert(f[13] == ':');
    assert(f.subrange(14, 16) =~= dec_pad(t.minute as int, 2));
    assert(f[16] == ':');
    assert(f.subrange(17, 19) =~= dec_pad(t.second as int, 2));
    assert(f[19] == 'Z');
    assert(parse_ts(f) == Some(t)) by {
        assert(digits_val(f.subrange(0, 4)) == t.year as int);
        assert(digits_val(f.subrange(5, 7)) == t.month as int);
        assert(digits_val(f.subrange(8, 10)) == t.day as int);
        assert(digits_val(f.subrange(11, 13)) == t.hour as int);
        assert(digits_val(f.subrange(14, 16)) == t.minute as int);
        assert(digits_val(f.subrange(17, 19)) == t.second as int);
    }
    assert forall|j: int| 0 <= j < f.len() implies f[j] != '"' by {
        if f[j] == '"' {
            assert(crate::num::digit_val('"') == 10);
            if 0 <= j < 4 {
                assert(crate::num::is_digit(f.subrange(0, 4)[j]));
            } else if 5 <= j < 7 {
                assert(crate::num::is_digit(f.subrange(5, 7)[j - 5]));
            } else if 8 <= j < 10 {
                assert(crate::num::is_digit(f.subrange(8, 10)[j - 8]));
            } else if 11 <= j < 13 {
                assert(crate::num::is_digit(f.subrange(11, 13)[j - 11]));
            } else if 14 <= j < 16 {
                assert(crate::num::is_digit(f.subrange(14, 16)[j - 14]));
            } else if 17 <= j < 19 {
                assert(crate::num::is_digit(f.subrange(17, 19)[j - 17]));
            }
        }
    }
}

/// Rendered checksums hold no quote character.
pub proof fn lemma_checksum_str_plain(c: ChecksumV)
    ensures
        plain_str(spec_checksum_str(c)),
        spec_checksum_str(c).len() == 7 + 2 * c.value.len(),
{
    reveal_strlit("sha256:");
    let s = spec_checksum_str(c);
    assert forall|j: int| 0 <= j < s.len() implies s[j] != '"' by {
        if j < 7 {
            assert(s[j] == "sha256:"@[j]);
        } else {
            assert(s[j] == crate::checksum::spec_hex(c.value)[j - 7]);
        }
    }
}

/// The exact rendering of one record.
pub open spec fn ser_record(r: RecordV) -> Seq<char> {
    "[[artifacts]]\nversion = \""@ + r.version + "\""@ + "\nos = \""@ + os_str(r.os) + "\""@
        + "\narch = \""@ + arch_str(r.arch) + "\""@ + "\nurl = \""@ + r.url + "\""@
        + "\nchecksum = \""@ + spec_checksum_str(r.checksum) + "\""@
        + "\n\n[artifacts.metadata]\ntimestamp = \""@ + ts_str(r.metadata.timestamp) + "\""@
        + "\ndistro_version = \""@ + r.metadata.distro_version + "\""@ + "\n\n"@
}

/// What parsing one record table yields: the fields in order, each read
/// back, and the rest of the document.
pub open spec fn parse_record(s: Seq<char>) -> Option<(RecordV, Seq<char>)> {
    match take_lit(s, "[[artifacts]]\nversion = \""@) {
        None => None,
        Some(s1) => match take_str(s1) {
            None => None,
            Some((version, s2)) => match take_lit(s2, "\nos = \""@) {
                None => None,
                Some(s3) => match take_str(s3) {
                    None => None,
                    Some((osf, s4)) => if osf != "linux"@ {
                        None
                    } else {
                        match take_lit(s4, "\narch = \""@) {
                            None => None,
                            Some(s5) => match take_str(s5) {
                                None => None,
                                Some((archf, s6)) => if archf != "amd64"@ && archf != "arm64"@ {
                                    None
                                } else {
                                    let arch = if archf == "amd64"@ {
                                        Arch::Amd64
                                    } else {
                                        Arch::Arm64
                                    };
                                    match take_lit(s6, "\nurl = \""@) {
                                        None => None,
                                        Some(s7) => match take_str(s7) {
                                            None => None,
                                            Some((url, s8)) => match take_lit(
                                                s8,
                                                "\nchecksum = \""@,
                                            ) {
                                                None => None,
                                                Some(s9) => match take_str(s9) {
                                                    None => None,
                                                    Some((cksf, s10)) => match spec_parse_checksum(
                                                        cksf,
                                                    ) {
                                                        None => None,
                                                        Some(cks) => match take_lit(
                                                            s10,
                                                            "\n\n[artifacts.metadata]\ntimestamp = \""@,
                                                        ) {
                                                            None => None,
                                                            Some(s11) => match take_str(s11) {
                                                                None => None,
                                                                Some((tsf, s12)) => match parse_ts(
                                                                    tsf,
                                                                ) {
                                                                    None => None,
                                                                    Some(ts) => match take_lit(
                                                                        s12,
                                                                        "\ndistro_version = \""@,
                                                                    ) {
                                                                        None => None,
                                                                        Some(s13) => match take_str(
                                                                            s13,
                                                                        ) {
                                                                            None => None,
                                                                            Some((dv, s14)) => match take_lit(
                                                                                s14,
                                                                                "\n\n"@,
                                                                            ) {
                                                                                None => None,
                                                                                Some(rest) => Some(
                                                                                    (
                                                                                        RecordV {
                                                                                            version,
                                                                                            os: Os::Linux,
                                                                                            arch,
                                                                                            url,
                                                                                            checksum: cks,
                                                                                            metadata: MetadataV {
                                                                                                timestamp: ts,
                                                                                                distro_version: dv,
                                                                                            },
                                                                                        },
                                                                                        rest,
                                                                                    ),
                                                                                ),
                                                                            },
                                                                        },
                                                                    },
                                                                },
                                                            },
                                                        },
                                                    },
                                                },
                                            },
                                        },
                                    }
                                },
                            },
                        }
                    },
                },
            },
        },
    }
}

/// A rendered record followed by anything parses back to the record and
/// that remainder.
#[verifier::rlimit(100)]
pub proof fn lemma_ser_record_parse(r: RecordV, rest: Seq<char>)
    requires
        valid_record(r),
    ensures
        parse_record(ser_record(r) + rest) == Some((r, rest)),
        ser_record(r).len() > 0,
        (ser_record(r) + rest)[0] == '[',
{
    reveal_strlit("[[artifacts]]\nversion = \"");
    reveal_strlit("\"");
    reveal_strlit("linux");
    reveal_strlit("amd64");
    reveal_strlit("arm64");
    let q = "\""@;
    let b7 = "\n\n"@ + rest;
    let a7 = r.metadata.distro_version + q + b7;
    let b6 = "\ndistro_version = \""@ + a7;
    let a6 = ts_str(r.metadata.timestamp) + q + b6;
    let b5 = "\n\n[artifacts.metadata]\ntimestamp = \""@ + a6;
    let a5 = spec_checksum_str(r.checksum) + q + b5;
    let b4 = "\nchecksum = \""@ + a5;
    let a4 = r.url + q + b4;
    let b3 = "\nurl = \""@ + a4;
    let a3 = arch_str(r.arch) + q + b3;
    let b2 = "\narch = \""@ + a3;
    let a2 = os_str(r.os) + q + b2;
    let b1 = "\nos = \""@ + a2;
    let a1 = r.version + q + b1;
    let s = ser_record(r) + rest;
    assert(s =~= "[[artifacts]]\nversion = \""@ + a1);
    lemma_take_lit("[[artifacts]]\nversion = \""@, a1);
    lemma_take_str(r.version, b1);
    lemma_take_lit("\nos = \""@, a2);
    assert(plain_str(os_str(r.os)));
    lemma_take_str(os_str(r.os), b2);
    lemma_take_lit("\narch = \""@, a3);
    assert(plain_str(arch_str(r.arch)));
    lemma_take_str(arch_str(r.arch), b3);
    lemma_take_lit("\nurl = \""@, a4);
    lemma_take_str(r.url, b4);
    lemma_take_lit("\nchecksum = \""@, a5);
    lemma_checksum_str_plain(r.checksum);
    lemma_take_str(spec_checksum_str(r.checksum), b5);
    crate::checksum::lemma_checksum_roundtrip(r.checksum);
    lemma_take_lit("\n\n[artifacts.metadata]\ntimestamp = \""@, a6);
    lemma_ts_roundtrip(r.metadata.timestamp);
    lemma_take_str(ts_str(r.metadata.timestamp), b6);
    lemma_take_lit("\ndistro_version = \""@, a7);
    lemma_take_str(r.metadata.distro_version, b7);
    lemma_take_lit("\n\n"@, rest);
    assert(os_str(r.os) == "linux"@);
    assert(arch_str(r.arch) == "amd64"@ || arch_str(r.arch) == "arm64"@);
    assert("amd64"@ != "arm64"@) by {
        assert("amd64"@[1] == 'm' && "arm64"@[1] == 'r');
    }
    match parse_record(s) {
        Some((parsed, tail)) => {
            assert(parsed =~= r);
            assert(tail == rest);
        },
        None => {
            assert(false);
        },
    }
}

/// The exact rendering of a whole inventory: records in order, nothing
/// else.
pub open spec fn ser_records(recs: Seq<RecordV>) -> Seq<char>
    decreases recs.len(),
{
    if recs.len() == 0 {
        Seq::empty()
    } else {
        ser_record(recs[0]) + ser_records(recs.skip(1))
    }
}

/// What parsing a sequence of record tables yields, if anything.
pub open spec fn parse_records(s: Seq<char>) -> Option<Seq<RecordV>>
    decreases s.len(),
{
    if s.len() == 0 {
        Some(Seq::empty())
    } else {
        match parse_record(s) {
            None => None,
            Some((r, rest)) => if rest.len() < s.len() {
                match parse_records(rest) {
                    None => None,
                    Some(t) => Some(seq![r] + t),
                }
            } else {
                None
            },
        }
    }
}

/// What parsing a whole manifest yields: a blank document is the empty
/// inventory, anything else must be rendered record tables.
pub open spec fn parse_doc(s: Seq<char>) -> Option<Seq<RecordV>> {
    if all_ws(s) {
        Some(Seq::empty())
    } else {
        parse_records(s)
    }
}

/// Rendering distributes over concatenation of record sequences.
pub proof fn lemma_ser_records_append(a: Seq<RecordV>, b: Seq<RecordV>)
    ensures
        ser_records(a + b) == ser_records(a) + ser_records(b),
    decreases a.len(),
{
    if a.len() == 0 {
        assert(a + b =~= b);
        assert(ser_records(a) =~= Seq::<char>::empty());
        assert(ser_records(a) + ser_records(b) =~= ser_records(b));
    } else {
        assert((a + b).len() > 0);
        assert((a + b)[0] == a[0]);
        assert((a + b).skip(1) =~= a.skip(1) + b);
        lemma_ser_records_append(a.skip(1), b);
        assert(ser_records(a + b) =~= ser_records(a) + ser_records(b));
    }
}

/// A rendered inventory parses back to exactly its records.
#[verifier::rlimit(100)]
pub proof fn lemma_ser_records_parse(recs: Seq<RecordV>)
    requires
        forall|i: int| 0 <= i < recs.len() ==> valid_record(#[trigger] recs[i]),
    ensures
        parse_records(ser_records(recs)) == Some(recs),
    decreases recs.len(),
{
    if recs.len() == 0 {
        assert(recs =~= Seq::<RecordV>::empty());
    } else {
        let r0 = recs[0];
        let tail = recs.skip(1);
        assert(forall|i: int| 0 <= i < tail.len() ==> tail[i] == recs[i + 1]);
        lemma_ser_records_parse(tail);
        lemma_ser_record_parse(r0, ser_records(tail));
        let s = ser_records(recs);
        assert(s == ser_record(r0) + ser_records(tail));
        assert(s.len() >= ser_record(r0).len() + 0);
        assert(s.len() > ser_records(tail).len());
        assert(parse_record(s) == Some((r0, ser_records(tail))));
        assert(parse_records(ser_records(tail)) == Some(tail));
        assert(parse_records(s) == Some(seq![r0] + tail));
        assert(seq![r0] + tail =~= recs);
    }
}

/// Strips the characters of `lit` at `pos`.
fn take_lit_at(v: &Vec<char>, pos: usize, lit: &str) -> (r: Option<usize>)
    requires
        pos <= v@.len(),
    ensures
        match r {
            Some(p2) => take_lit(v@.skip(pos as int), lit@) == Some(v@.skip(p2 as int)) && pos <= p2
                <= v@.len() && p2 - pos == lit@.len(),
            None => take_lit(v@.skip(pos as int), lit@) is None,
        },
{
    let n = v.len();
    let m = lit.unicode_len();
    if starts_with_at(v, pos, lit) {
        proof {
            assert(v@.skip(pos as int).skip(m as int) =~= v@.skip(pos as int + m as int));
        }
        Some(pos + m)
    } else {
        None
    }
}

/// Reads a quoted field: the characters before the next quote, and the
/// position just past it.
fn take_str_at(v: &Vec<char>, pos: usize) -> (r: Option<(Vec<char>, usize)>)
    requires
        pos <= v@.len(),
    ensures
        match r {
            Some((f, p2)) => take_str(v@.skip(pos as int)) == Some((f@, v@.skip(p2 as int))) && pos
                < p2 <= v@.len(),
            None => take_str(v@.skip(pos as int)) is None,
        },
{
    let ghost s = v@.skip(pos as int);
    let n = v.len();
    let mut j: usize = pos;
    while j < n
        invariant
            pos <= j <= n,
            n == v@.len(),
            s == v@.skip(pos as int),
            forall|k: int| 0 <= k < j - pos ==> s[k] != '"',
        decreases n - j,
    {
        if v[j] == '"' {
            proof {
                assert(s[j - pos] == v@[j as int]);
                lemma_find_char_at(s, '"', j - pos);
                assert(s.take(j - pos) =~= v@.subrange(pos as int, j as int));
                assert(s.skip(j - pos + 1) =~= v@.skip(j as int + 1));
            }
            let mut f: Vec<char> = Vec::new();
            append_range(&mut f, v, pos, j);
            return Some((f, j + 1));
        }
        proof {
            assert(s[j - pos] == v@[j as int]);
        }
        j = j + 1;
    }
    proof {
        lemma_find_char_props(s, '"');
        if let Some(k) = find_char(s, '"') {
            assert(s[k] != '"');
        }
    }
    None
}

/// Reads up to four digit characters as a number.
fn read_digits(f: &Vec<char>, from: usize, to: usize) -> (r: Option<u32>)
    requires
        from <= to <= f@.len(),
        to - from <= 4,
    ensures
        match r {
            Some(x) => all_digits(f@.subrange(from as int, to as int)) && x as int == digits_val(
                f@.subrange(from as int, to as int),
            ) && (x as int) < pow10((to - from) as nat),
            None => !all_digits(f@.subrange(from as int, to as int)),
        },
{
    proof {
        lemma_pow10_small();
    }
    let ghost seg = f@.subrange(from as int, to as int);
    let mut x: u32 = 0;
    let mut i: usize = from;
    proof {
        assert(f@.subrange(from as int, from as int) =~= Seq::<char>::empty());
    }
    while i < to
        invariant
            from <= i <= to <= f@.len(),
            to - from <= 4,
            seg == f@.subrange(from as int, to as int),
            all_digits(f@.subrange(from as int, i as int)),
            x as int == digits_val(f@.subrange(from as int, i as int)),
            (x as int) < pow10((i - from) as nat),
            pow10(0) == 1 && pow10(1) == 10 && pow10(2) == 100 && pow10(3) == 1000 && pow10(4)
                == 10000,
        decreases to - i,
    {
        let d = digit_value(f[i]);
        if d >= 10 {
            proof {
                assert(seg[i - from] == f@[i as int]);
                assert(!is_digit(seg[i - from]));
            }
            return None;
        }
        proof {
            let prev = f@.subrange(from as int, i as int);
            let cur = f@.subrange(from as int, i + 1);
            assert(cur.drop_last() =~= prev);
            assert(cur.last() == f@[i as int]);
            assert(digits_val(cur) == digits_val(prev) * 10 + d as int);
            assert(pow10((i + 1 - from) as nat) == 10 * pow10((i - from) as nat));
            assert((digits_val(prev) * 10 + d as int) < 10 * pow10((i - from) as nat))
                by (nonlinear_arith)
                requires
                    0 <= digits_val(prev) < pow10((i - from) as nat),
                    0 <= d as int,
                    (d as int) < 10,
            ;
            assert(pow10((i - from) as nat) <= 1000) by {
                if i - from == 0 {
                } else if i - from == 1 {
                } else if i - from == 2 {
                } else {
                    assert(i - from == 3);
                }
            }
            assert forall|k: int| 0 <= k < cur.len() implies is_digit(#[trigger] cur[k]) by {
                if k < cur.len() - 1 {
                    assert(cur[k] == prev[k]);
                }
            }
        }
        x = x * 10 + d;
        i = i + 1;
    }
    Some(x)
}

/// Parses a timestamp field; `None` on any deviation from the fixed-width
/// rendering or the calendar ranges.
fn ts_from_chars(f: &Vec<char>) -> (r: Option<Timestamp>)
    ensures
        match r {
            Some(t) => parse_ts(f@) == Some(t) && t.wf(),
            None => parse_ts(f@) is None,
        },
{
    let n = f.len();
    if n != 20 {
        return None;
    }
    if !(f[4] == '-' && f[7] == '-' && f[10] == 'T' && f[13] == ':' && f[16] == ':' && f[19]
        == 'Z') {
        return None;
    }
    proof {
        lemma_pow10_small();
    }
    let y = match read_digits(f, 0, 4) {
        Some(x) => x,
        None => {
            return None;
        },
    };
    let mo = match read_digits(f, 5, 7) {
        Some(x) => x,
        None => {
            return None;
        },
    };
    let d = match read_digits(f, 8, 10) {
        Some(x) => x,
        None => {
            return None;
        },
    };
    let h = match read_digits(f, 11, 13) {
        Some(x) => x,
        None => {
            return None;
        },
    };
    let mi = match read_digits(f, 14, 16) {
        Some(x) => x,
        None => {
            return None;
        },
    };
    let sec = match read_digits(f, 17, 19) {
        Some(x) => x,
        None => {
            return None;
        },
    };
    if !(1 <= y && 1 <= mo && mo <= 12 && 1 <= d && d <= 31 && h <= 23 && mi <= 59 && sec <= 59) {
        return None;
    }
    Some(Timestamp { year: y, month: mo, day: d, hour: h, minute: mi, second: sec })
}

/// Parses one record table at `pos`.
pub(crate) fn parse_record_at(v: &Vec<char>, pos: usize) -> (r: Option<(ArtifactRecord, usize)>)
    requires
        pos <= v@.len(),
    ensures
        match r {
            Some((rec, p2)) => parse_record(v@.skip(pos as int)) == Some(
                (rec@, v@.skip(p2 as int)),
            ) && pos < p2 <= v@.len(),
            None => parse_record(v@.skip(pos as int)) is None,
        },
{
    let p1 = match take_lit_at(v, pos, "[[artifacts]]\nversion = \"") {
        Some(p) => p,
        None => {
            return None;
        },
    };
    let (version_chars, p2) = match take_str_at(v, p1) {
        Some(x) => x,
        None => {
            return None;
        },
    };
    let p3 = match take_lit_at(v, p2, "\nos = \"") {
        Some(p) => p,
        None => {
            return None;
        },
    };
    let (os_chars, p4) = match take_str_at(v, p3) {
        Some(x) => x,
        None => {
            return None;
        },
    };
    if !chars_eq_str(&os_chars, "linux") {
        return None;
    }
    let p5 = match take_lit_at(v, p4, "\narch = \"") {
        Some(p) => p,
        None => {
            return None;
        },
    };
    let (arch_chars, p6) = match take_str_at(v, p5) {
        Some(x) => x,
        None => {
            return None;
        },
    };
    let arch = if chars_eq_str(&arch_chars, "amd64") {
        Arch::Amd64
    } else if chars_eq_str(&arch_chars, "arm64") {
        Arch::Arm64
    } else {
        return None;
    };
    let p7 = match take_lit_at(v, p6, "\nurl = \"") {
        Some(p) => p,
        None => {
            return None;
        },
    };
    let (url_chars, p8) = match take_str_at(v, p7) {
        Some(x) => x,
        None => {
            return None;
        },
    };
    let p9 = match take_lit_at(v, p8, "\nchecksum = \"") {
        Some(p) => p,
        None => {
            return None;
        },
    };
    let (cks_chars, p10) = match take_str_at(v, p9) {
        Some(x) => x,
        None => {
            return None;
        },
    };
    let cks = match checksum_from_chars(&cks_chars) {
        Some(c) => c,
        None => {
            return None;
        },
    };
    let p11 = match take_lit_at(v, p10, "\n\n[artifacts.metadata]\ntimestamp = \"") {
        Some(p) => p,
        None => {
            return None;
        },
    };
    let (ts_chars, p12) = match take_str_at(v, p11) {
        Some(x) => x,
        None => {
            return None;
        },
    };
    let ts = match ts_from_chars(&ts_chars) {
        Some(t) => t,
        None => {
            return None;
        },
    };
    let p13 = match take_lit_at(v, p12, "\ndistro_version = \"") {
        Some(p) => p,
        None => {
            return None;
        },
    };
    let (dv_chars, p14) = match take_str_at(v, p13) {
        Some(x) => x,
        None => {
            return None;
        },
    };
    let p_end = match take_lit_at(v, p14, "\n\n") {
        Some(p) => p,
        None => {
            return None;
        },
    };
    let rec = ArtifactRecord {
        version: chars_to_string(&version_chars),
        os: Os::Linux,
        arch,
        url: chars_to_string(&url_chars),
        checksum: cks,
        metadata: ArtifactMetadata {
            timestamp: ts,
            distro_version: DistroVersion::new(chars_to_string(&dv_chars)),
        },
    };
    proof {
        match parse_record(v@.skip(pos as int)) {
            Some((specrec, tail)) => {
                assert(rec@ =~= specrec);
            },
            None => {
                assert(false);
            },
        }
    }
    Some((rec, p_end))
}

/// Appends the rendering of one record to `out`.
pub(crate) fn serialize_record_into(out: &mut Vec<char>, rec: &ArtifactRecord)
    ensures
        final(out)@ == old(out)@ + ser_record(rec@),
{
    crate::text::append_str(out, "[[artifacts]]\nversion = \"");
    crate::text::append_str(out, rec.version.as_str());
    crate::text::append_str(out, "\"");
    crate::text::append_str(out, "\nos = \"");
    crate::text::append_str(out, rec.os.name());
    crate::text::append_str(out, "\"");
    crate::text::append_str(out, "\narch = \"");
    crate::text::append_str(out, rec.arch.name());
    crate::text::append_str(out, "\"");
    crate::text::append_str(out, "\nurl = \"");
    crate::text::append_str(out, rec.url.as_str());
    crate::text::append_str(out, "\"");
    crate::text::append_str(out, "\nchecksum = \"");
    crate::text::append_str(out, rec.checksum.to_string().as_str());
    crate::text::append_str(out, "\"");
    crate::text::append_str(out, "\n\n[artifacts.metadata]\ntimestamp = \"");
    push_ts(out, &rec.metadata.timestamp);
    crate::text::append_str(out, "\"");
    crate::text::append_str(out, "\ndistro_version = \"");
    crate::text::append_str(out, rec.metadata.distro_version.as_str());
    crate::text::append_str(out, "\"");
    crate::text::append_str(out, "\n\n");
    proof {
        assert(out@ =~= old(out)@ + ser_record(rec@));
    }
}

/// Appends the fixed-width timestamp rendering to `out`.
fn push_ts(out: &mut Vec<char>, t: &Timestamp)
    ensures
        final(out)@ == old(out)@ + ts_str(*t),
{
    crate::num::push_dec_pad(out, t.year, 4);
    crate::text::append_str(out, "-");
    crate::num::push_dec_pad(out, t.month, 2);
    crate::text::append_str(out, "-");
    crate::num::push_dec_pad(out, t.day, 2);
    crate::text::append_str(out, "T");
    crate::num::push_dec_pad(out, t.hour, 2);
    crate::text::append_str(out, ":");
    crate::num::push_dec_pad(out, t.minute, 2);
    crate::text::append_str(out, ":");
    crate::num::push_dec_pad(out, t.second, 2);
    crate::text::append_str(out, "Z");
    proof {
        assert(out@ =~= old(out)@ + ts_str(*t));
    }
}

/// Round-trip law for the manifest: rendering any inventory of well-formed
/// records and parsing the document back yields the same inventory.
pub proof fn lemma_manifest_roundtrip(recs: Seq<RecordV>)
    requires
        forall|i: int| 0 <= i < recs.len() ==> valid_record(#[trigger] recs[i]),
    ensures
        parse_doc(ser_records(recs)) == Some(recs),
{
    if recs.len() == 0 {
        assert(recs =~= Seq::<RecordV>::empty());
    } else {
        lemma_ser_record_parse(recs[0], ser_records(recs.skip(1)));
        let s = ser_records(recs);
        assert(s == ser_record(recs[0]) + ser_records(recs.skip(1)));
        assert(s[0] == '[');
        assert(!is_ws('['));
        assert(!all_ws(s));
        lemma_ser_records_parse(recs);
    }
}

} // verus!
