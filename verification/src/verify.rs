//! Integrity verification: every record's URL is re-fetched (by the caller,
//! in parallel) and the bytes are re-hashed here; failures are aggregated
//! into one report rather than aborting the remaining checks.

use vstd::prelude::*;
use crate::checksum::{checksum_clone, sha256_of, Algorithm, Checksum, ChecksumV};
use crate::inventory::Inventory;
use crate::record::RecordV;
use crate::text::bytes_eq;

verus! {

/// What fetching one record's URL produced: the body bytes, or a
/// description of the network failure. Fetching is the caller's job; one
/// outcome is handed in per record, in record order.
#[derive(Debug)]
pub enum Fetched {
    Bytes(Vec<u8>),
    Failed(String),
}

/// Mathematical model of a fetch outcome.
pub enum FetchedV {
    Bytes(Seq<u8>),
    Failed(Seq<char>),
}

impl View for Fetched {
    type V = FetchedV;

    open spec fn view(&self) -> FetchedV {
        match self {
            Fetched::Bytes(b) => FetchedV::Bytes(b@),
            Fetched::Failed(m) => FetchedV::Failed(m@),
        }
    }
}

/// A record passes verification when its URL was fetched and the fetched
/// bytes hash to exactly the recorded digest.
pub open spec fn record_passes(r: RecordV, f: FetchedV) -> bool {
    match f {
        FetchedV::Bytes(b) => r.checksum.algorithm == Algorithm::Sha256 && r.checksum.value
            == sha256_of(b),
        FetchedV::Failed(m) => false,
    }
}

/// One record's failure, named by its URL with enough context to diagnose.
#[derive(Debug)]
pub enum VerifyFailure {
    /// The URL could not be fetched.
    Download { url: String, message: String },
    /// The fetched bytes hash to something other than the recorded digest.
    Mismatch { url: String, expected: Checksum, actual: Checksum },
}

/// Mathematical model of one failure.
#[verifier::ext_equal]
pub enum VerifyFailureV {
    Download { url: Seq<char>, message: Seq<char> },
    Mismatch { url: Seq<char>, expected: ChecksumV, actual: ChecksumV },
}

impl View for VerifyFailure {
    type V = VerifyFailureV;

    open spec fn view(&self) -> VerifyFailureV {
        match self {
            VerifyFailure::Download { url, message } => VerifyFailureV::Download {
                url: url@,
                message: message@,
            },
            VerifyFailure::Mismatch { url, expected, actual } => VerifyFailureV::Mismatch {
                url: url@,
                expected: expected@,
                actual: actual@,
            },
        }
    }
}

/// The failure report for one record, empty when it passes.
pub open spec fn spec_failure_of(r: RecordV, f: FetchedV) -> Seq<VerifyFailureV> {
    match f {
        FetchedV::Failed(m) => seq![VerifyFailureV::Download { url: r.url, message: m }],
        FetchedV::Bytes(b) => if record_passes(r, f) {
            Seq::empty()
        } else {
            seq![
                VerifyFailureV::Mismatch {
                    url: r.url,
                    expected: r.checksum,
                    actual: ChecksumV { algorithm: Algorithm::Sha256, value: sha256_of(b) },
                },
            ]
        },
    }
}

/// All failures across the records, in record order.
pub open spec fn spec_failures(recs: Seq<RecordV>, fetched: Seq<FetchedV>) -> Seq<VerifyFailureV>
    decreases recs.len(),
{
    if recs.len() == 0 || fetched.len() == 0 {
        Seq::empty()
    } else {
        spec_failure_of(recs[0], fetched[0]) + spec_failures(recs.skip(1), fetched.skip(1))
    }
}

/// What one failure reads as: the URL and either the download error or the
/// expected and actual digests.
pub open spec fn spec_failure_message(f: VerifyFailureV) -> Seq<char> {
    match f {
        VerifyFailureV::Download { url, message } => "Error downloading "@ + url + ": "@ + message,
        VerifyFailureV::Mismatch { url, expected, actual } => "Checksum mismatch for "@ + url
            + " expected "@ + crate::checksum::spec_checksum_str(expected) + " got "@
            + crate::checksum::spec_checksum_str(actual),
    }
}

impl VerifyFailure {
    /// Human-readable description naming the URL and what went wrong.
    pub fn message(&self) -> (m: String)
        ensures
            m@ == spec_failure_message(self@),
    {
        let mut out: Vec<char> = Vec::new();
        match self {
            VerifyFailure::Download { url, message } => {
                crate::text::append_str(&mut out, "Error downloading ");
                crate::text::append_str(&mut out, url.as_str());
                crate::text::append_str(&mut out, ": ");
                crate::text::append_str(&mut out, message.as_str());
            },
            VerifyFailure::Mismatch { url, expected, actual } => {
                crate::text::append_str(&mut out, "Checksum mismatch for ");
                crate::text::append_str(&mut out, url.as_str());
                crate::text::append_str(&mut out, " expected ");
                crate::text::append_str(&mut out, expected.to_string().as_str());
                crate::text::append_str(&mut out, " got ");
                crate::text::append_str(&mut out, actual.to_string().as_str());
            },
        }
        crate::text::chars_to_string(&out)
    }
}

/// The aggregated verification report: every failing record's URL with what
/// went wrong, nothing for the ones that pass.
#[derive(Debug)]
pub struct VerifyError {
    pub failures: Vec<VerifyFailure>,
}

/// The whole report: one line per failure.
pub open spec fn spec_report(fs: Seq<VerifyFailureV>) -> Seq<char>
    decreases fs.len(),
{
    if fs.len() == 0 {
        Seq::empty()
    } else if fs.len() == 1 {
        spec_failure_message(fs[0])
    } else {
        spec_failure_message(fs[0]) + "\n"@ + spec_report(fs.skip(1))
    }
}

impl VerifyError {
    /// The combined report, one failure per line, in record order.
    pub fn message(&self) -> (m: String)
        ensures
            m@ == spec_report(self.failures@.map_values(|x: VerifyFailure| x@)),
    {
        let mut out: Vec<char> = Vec::new();
        append_report(&mut out, &self.failures, 0);
        proof {
            assert(self.failures@.map_values(|x: VerifyFailure| x@).skip(0int)
                =~= self.failures@.map_values(|x: VerifyFailure| x@));
        }
        crate::text::chars_to_string(&out)
    }
}

/// Appends the report lines for the failures from `i` on.
fn append_report(out: &mut Vec<char>, failures: &Vec<VerifyFailure>, i: usize)
    requires
        i <= failures@.len(),
    ensures
        final(out)@ == old(out)@ + spec_report(
            failures@.map_values(|x: VerifyFailure| x@).skip(i as int),
        ),
    decreases failures@.len() - i,
{
    let ghost fs = failures@.map_values(|x: VerifyFailure| x@).skip(i as int);
    let n = failures.len();
    if i == n {
        proof {
            assert(fs =~= Seq::<VerifyFailureV>::empty());
            assert(old(out)@ + spec_report(fs) =~= old(out)@);
        }
        return;
    }
    let line = failures[i].message();
    crate::text::append_str(out, line.as_str());
    proof {
        assert(fs[0] == failures@.map_values(|x: VerifyFailure| x@)[i as int]);
    }
    if i + 1 == n {
        proof {
            assert(fs.len() == 1);
            assert(out@ =~= old(out)@ + spec_report(fs));
        }
    } else {
        crate::text::append_str(out, "\n");
        append_report(out, failures, i + 1);
        proof {
            assert(failures@.map_values(|x: VerifyFailure| x@).skip(i + 1) =~= fs.skip(1));
            assert(out@ =~= old(out)@ + spec_report(fs));
        }
    }
}

/// The failure report distributes over splitting the records.
proof fn lemma_spec_failures_append(
    ar: Seq<RecordV>,
    af: Seq<FetchedV>,
    br: Seq<RecordV>,
    bf: Seq<FetchedV>,
)
    requires
        ar.len() == af.len(),
    ensures
        spec_failures(ar + br, af + bf) == spec_failures(ar, af) + spec_failures(br, bf),
    decreases ar.len(),
{
    if ar.len() == 0 {
        assert(ar + br =~= br);
        assert(af + bf =~= bf);
        assert(spec_failures(ar, af) =~= Seq::<VerifyFailureV>::empty());
        assert(spec_failures(ar, af) + spec_failures(br, bf) =~= spec_failures(br, bf));
    } else {
        assert((ar + br)[0] == ar[0]);
        assert((af + bf)[0] == af[0]);
        assert((ar + br).skip(1) =~= ar.skip(1) + br);
        assert((af + bf).skip(1) =~= af.skip(1) + bf);
        lemma_spec_failures_append(ar.skip(1), af.skip(1), br, bf);
        assert(spec_failures(ar + br, af + bf) =~= spec_failures(ar, af) + spec_failures(br, bf));
    }
}

/// Checks every record against its fetch outcome: succeeds exactly when
/// every record passes, and otherwise reports every failure, in record
/// order, naming each failing URL with the expected and actual digests (or
/// the download failure). All records are always checked; the manifest is
/// not touched.
pub fn verify_inventory(inv: &Inventory, fetched: &Vec<Fetched>) -> (r: Result<(), VerifyError>)
    requires
        inv@.len() == fetched@.len(),
    ensures
        r is Ok <==> (forall|i: int|
            0 <= i < inv@.len() ==> record_passes(inv@[i], #[trigger] fetched@[i]@)),
        r matches Err(e) ==> e.failures@.map_values(|x: VerifyFailure| x@) == spec_failures(
            inv@,
            fetched@.map_values(|x: Fetched| x@),
        ) && e.failures@.len() > 0,
{
    let ghost recs = inv@;
    let ghost fv = fetched@.map_values(|x: Fetched| x@);
    let n = inv.artifacts.len();
    let mut failures: Vec<VerifyFailure> = Vec::new();
    let mut i: usize = 0;
    proof {
        assert(recs.take(0int) =~= Seq::<RecordV>::empty());
        assert(fv.take(0int) =~= Seq::<FetchedV>::empty());
        assert(failures@.map_values(|x: VerifyFailure| x@) =~= spec_failures(
            recs.take(0int),
            fv.take(0int),
        ));
    }
    while i < n
        invariant
            i <= n,
            n == inv.artifacts@.len(),
            recs == inv@,
            recs.len() == fv.len(),
            fv == fetched@.map_values(|x: Fetched| x@),
            failures@.map_values(|x: VerifyFailure| x@) == spec_failures(
                recs.take(i as int),
                fv.take(i as int),
            ),
            failures@.len() == 0 <==> (forall|j: int|
                0 <= j < i ==> record_passes(recs[j], #[trigger] fv[j])),
        decreases n - i,
    {
        let rec = &inv.artifacts[i];
        let ghost prev = failures@;
        proof {
            assert(recs[i as int] == rec@);
            assert(fv[i as int] == fetched@[i as int]@);
        }
        match &fetched[i] {
            Fetched::Failed(m) => {
                failures.push(
                    VerifyFailure::Download { url: rec.url.clone(), message: m.clone() },
                );
                proof {
                    assert(!record_passes(recs[i as int], fv[i as int]));
                    assert(failures@.map_values(|x: VerifyFailure| x@) =~= prev.map_values(
                        |x: VerifyFailure| x@,
                    ) + spec_failure_of(recs[i as int], fv[i as int]));
                }
            },
            Fetched::Bytes(b) => {
                let actual = Checksum::compute(b);
                let pass = match rec.checksum.algorithm {
                    Algorithm::Sha256 => bytes_eq(&rec.checksum.value, &actual.value),
                };
                if pass {
                    proof {
                        assert(record_passes(recs[i as int], fv[i as int]));
                        assert(spec_failure_of(recs[i as int], fv[i as int])
                            =~= Seq::<VerifyFailureV>::empty());
                        assert(failures@.map_values(|x: VerifyFailure| x@) =~= prev.map_values(
                            |x: VerifyFailure| x@,
                        ) + spec_failure_of(recs[i as int], fv[i as int]));
                    }
                } else {
                    failures.push(
                        VerifyFailure::Mismatch {
                            url: rec.url.clone(),
                            expected: checksum_clone(&rec.checksum),
                            actual,
                        },
                    );
                    proof {
                        assert(!record_passes(recs[i as int], fv[i as int]));
                        assert(failures@.map_values(|x: VerifyFailure| x@) =~= prev.map_values(
                            |x: VerifyFailure| x@,
                        ) + spec_failure_of(recs[i as int], fv[i as int]));
                    }
                }
            },
        }
        proof {
            assert(recs.take(i + 1) =~= recs.take(i as int) + seq![recs[i as int]]);
            assert(fv.take(i + 1) =~= fv.take(i as int) + seq![fv[i as int]]);
            lemma_spec_failures_append(
                recs.take(i as int),
                fv.take(i as int),
                seq![recs[i as int]],
                seq![fv[i as int]],
            );
            assert(seq![recs[i as int]].skip(1) =~= Seq::<RecordV>::empty());
            assert(seq![fv[i as int]].skip(1) =~= Seq::<FetchedV>::empty());
            assert(seq![recs[i as int]][0] == recs[i as int]);
            assert(seq![fv[i as int]][0] == fv[i as int]);
            assert(spec_failures(Seq::<RecordV>::empty(), Seq::<FetchedV>::empty())
                =~= Seq::<VerifyFailureV>::empty());
            assert(spec_failures(seq![recs[i as int]], seq![fv[i as int]]) =~= spec_failure_of(
                recs[i as int],
                fv[i as int],
            ) + Seq::<VerifyFailureV>::empty());
            assert(spec_failure_of(recs[i as int], fv[i as int]) + Seq::<VerifyFailureV>::empty()
                =~= spec_failure_of(recs[i as int], fv[i as int]));
        }
        i = i + 1;
    }
    proof {
        assert(recs.take(n as int) =~= recs);
        assert(fv.take(n as int) =~= fv);
        if failures@.len() == 0 {
            assert forall|k: int| 0 <= k < inv@.len() implies record_passes(
                inv@[k],
                #[trigger] fetched@[k]@,
            ) by {
                assert(fv[k] == fetched@[k]@);
                assert(record_passes(recs[k], fv[k]));
            }
        } else {
            if forall|k: int| 0 <= k < inv@.len() ==> record_passes(inv@[k], #[trigger] fetched@[k]@) {
                assert forall|j: int| 0 <= j < recs.len() implies record_passes(
                    recs[j],
                    #[trigger] fv[j],
                ) by {
                    assert(fetched@[j]@ == fv[j]);
                    assert(record_passes(inv@[j], fetched@[j]@));
                }
                assert(failures@.len() == 0);
            }
        }
    }
    if failures.is_empty() {
        Ok(())
    } else {
        Err(VerifyError { failures })
    }
}

} // verus!
