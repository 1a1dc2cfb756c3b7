//! The pure heart of the locked read-modify-write transaction.
//!
//! The caller (outside this library) creates the manifest file if absent,
//! takes an exclusive lock, reads the full contents, hands them here
//! together with the record to publish, and writes the returned document
//! back in full before releasing the lock — or writes nothing when an error
//! comes back, leaving the file byte-identical.

use vstd::prelude::*;
use crate::codec::{all_ws, parse_doc, ser_records};
use crate::inventory::{lemma_inventory_roundtrip, Inventory, ParseError};
use crate::policy::{has_conflict, publish, records_conflict, spec_publish, ChecksumConflict};
use crate::record::{valid_record, ArtifactRecord, RecordV};

verus! {

/// Why a manifest transaction failed. Either way the manifest file is left
/// untouched.
#[derive(Debug)]
pub enum UpdateError {
    /// The existing manifest did not parse.
    Parse(ParseError),
    /// The candidate clashed with a published URL; the caller must also
    /// discard any artifact bytes already uploaded for it.
    Conflict(ChecksumConflict),
}

impl UpdateError {
    /// Human-readable description of why the transaction aborted.
    pub fn message(&self) -> (m: String)
        ensures
            match self {
                UpdateError::Parse(e) => m@ == "Could not parse inventory:\n"@ + e.contents@,
                UpdateError::Conflict(e) => m@ == "Duplicate url "@ + e.url@
                    + " has different checksums "@ + crate::checksum::spec_checksum_str(
                    e.existing@,
                ) + " != "@ + crate::checksum::spec_checksum_str(e.candidate@),
            },
    {
        match self {
            UpdateError::Parse(e) => e.message(),
            UpdateError::Conflict(e) => e.message(),
        }
    }
}

/// What the transaction writes back, if anything: the current contents must
/// parse, the candidate must not clash, and then the new document is the
/// surviving records with the candidate appended.
pub open spec fn spec_apply(s: Seq<char>, c: RecordV) -> Option<Seq<char>> {
    match parse_doc(s) {
        None => None,
        Some(recs) => if has_conflict(recs, c) {
            None
        } else {
            Some(ser_records(spec_publish(recs, c)))
        },
    }
}

/// Applies one publish to the manifest contents read under the lock:
/// either the full new document to write back, or the error that aborts
/// the transaction without writing.
pub fn apply_update(contents: &str, candidate: ArtifactRecord) -> (r: Result<String, UpdateError>)
    ensures
        r is Ok <==> spec_apply(contents@, candidate@) is Some,
        r matches Ok(out) ==> spec_apply(contents@, candidate@) == Some(out@),
        r matches Err(UpdateError::Parse(e)) ==> parse_doc(contents@) is None && e.contents@
            == contents@,
        r matches Err(UpdateError::Conflict(e)) ==> (parse_doc(contents@) matches Some(recs)
            && exists|i: int|
            {
                &&& 0 <= i < recs.len()
                &&& records_conflict(#[trigger] recs[i], candidate@)
                &&& e.url@ == recs[i].url
                &&& e.existing@ == recs[i].checksum
                &&& e.candidate@ == candidate@.checksum
            }),
{
    let mut inv = match Inventory::parse(contents) {
        Ok(i) => i,
        Err(e) => {
            return Err(UpdateError::Parse(e));
        },
    };
    match publish(&mut inv, candidate) {
        Err(e) => Err(UpdateError::Conflict(e)),
        Ok(()) => Ok(inv.serialize()),
    }
}

/// Idempotent bootstrap law: a blank manifest (the file just created, or
/// whitespace only) is the empty inventory; publishing one well-formed
/// record into it succeeds, and the document written back parses to exactly
/// that one record.
pub proof fn lemma_bootstrap(contents: Seq<char>, c: RecordV)
    requires
        all_ws(contents),
        valid_record(c),
    ensures
        parse_doc(contents) == Some(Seq::<RecordV>::empty()),
        spec_publish(Seq::<RecordV>::empty(), c) == seq![c],
        spec_apply(contents, c) == Some(ser_records(seq![c])),
        parse_doc(ser_records(seq![c])) == Some(seq![c]),
        spec_publish(seq![c], c) == seq![c],
{
    reveal(Seq::filter);
    assert(crate::policy::spec_keep(Seq::<RecordV>::empty(), c) =~= Seq::<RecordV>::empty());
    assert(spec_publish(Seq::<RecordV>::empty(), c) =~= seq![c]);
    assert(!has_conflict(Seq::<RecordV>::empty(), c));
    assert(forall|i: int| 0 <= i < seq![c].len() ==> valid_record(#[trigger] seq![c][i]));
    lemma_inventory_roundtrip(seq![c]);
    // Publishing the very same record again replaces it with itself.
    assert(seq![c].drop_last() =~= Seq::<RecordV>::empty());
    assert(seq![c].last() == c);
    assert(!crate::policy::records_differ(c, c));
    assert(crate::policy::spec_keep(seq![c], c) =~= Seq::<RecordV>::empty());
    assert(spec_publish(seq![c], c) =~= seq![c]);
}

/// Conflict rejection law: when the manifest holds a record sharing the
/// candidate's URL under a different digest, the transaction yields no new
/// contents — nothing is written, so the file stays byte-identical.
pub proof fn lemma_conflict_rejected(s: Seq<char>, recs: Seq<RecordV>, c: RecordV)
    requires
        parse_doc(s) == Some(recs),
        has_conflict(recs, c),
    ensures
        spec_apply(s, c) is None,
{
}

} // verus!
