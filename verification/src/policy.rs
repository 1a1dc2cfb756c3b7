//! Conflict and dedup policy over artifact records, and the publish
//! operation that applies it to an inventory.
//!
//! Two rules govern publishing. A candidate sharing a URL with an existing
//! record must carry the same digest, else the transaction hard-fails rather
//! than silently changing bytes a consumer may have pinned. And a candidate
//! with the same dedup key (version, architecture, distro version) as
//! existing records supersedes them: they are dropped and the candidate is
//! appended.

use vstd::prelude::*;
use crate::checksum::{checksum_clone, Checksum};
use crate::inventory::Inventory;
use crate::record::{record_clone, ArtifactRecord, RecordV};
use crate::text::string_eq;

verus! {

/// Two records advertise the same URL with different digests.
pub open spec fn records_conflict(a: RecordV, b: RecordV) -> bool {
    a.url == b.url && a.checksum != b.checksum
}

/// The records differ in their dedup key: version, architecture or distro
/// version.
pub open spec fn records_differ(a: RecordV, b: RecordV) -> bool {
    a.version != b.version || a.arch != b.arch || a.metadata.distro_version
        != b.metadata.distro_version
}

/// Some existing record shares the candidate's URL under a different digest.
pub open spec fn has_conflict(s: Seq<RecordV>, c: RecordV) -> bool {
    exists|i: int| 0 <= i < s.len() && records_conflict(#[trigger] s[i], c)
}

/// The records that survive publishing `c`: those differing from it in the
/// dedup key, in their original order.
pub open spec fn spec_keep(s: Seq<RecordV>, c: RecordV) -> Seq<RecordV> {
    s.filter(|r: RecordV| records_differ(r, c))
}

/// What a successful publish leaves behind: the surviving records with the
/// candidate appended.
pub open spec fn spec_publish(s: Seq<RecordV>, c: RecordV) -> Seq<RecordV> {
    spec_keep(s, c).push(c)
}

/// A same-URL-different-digest clash, fatal to a publish transaction. The
/// caller is expected to discard any artifact bytes already uploaded for the
/// candidate.
#[derive(Debug)]
pub struct ChecksumConflict {
    /// The URL both records advertise.
    pub url: String,
    /// The digest already recorded for that URL.
    pub existing: Checksum,
    /// The digest the rejected candidate carried.
    pub candidate: Checksum,
}

impl ChecksumConflict {
    /// Human-readable description naming the URL and both digests.
    pub fn message(&self) -> (m: String)
        ensures
            m@ == "Duplicate url "@ + self.url@ + " has different checksums "@
                + crate::checksum::spec_checksum_str(self.existing@) + " != "@
                + crate::checksum::spec_checksum_str(self.candidate@),
    {
        let mut out: Vec<char> = Vec::new();
        crate::text::append_str(&mut out, "Duplicate url ");
        crate::text::append_str(&mut out, self.url.as_str());
        crate::text::append_str(&mut out, " has different checksums ");
        crate::text::append_str(&mut out, self.existing.to_string().as_str());
        crate::text::append_str(&mut out, " != ");
        crate::text::append_str(&mut out, self.candidate.to_string().as_str());
        crate::text::chars_to_string(&out)
    }
}

/// Fails exactly when `a` and `b` share a URL but their digests differ.
pub fn artifact_same_url_different_checksum(a: &ArtifactRecord, b: &ArtifactRecord) -> (r: Result<
    (),
    ChecksumConflict,
>)
    ensures
        r is Err <==> records_conflict(a@, b@),
        r matches Err(e) ==> e.url@ == a@.url && e.existing@ == a@.checksum && e.candidate@
            == b@.checksum,
{
    if string_eq(&a.url, &b.url) && !(a.checksum == b.checksum) {
        Err(
            ChecksumConflict {
                url: a.url.clone(),
                existing: checksum_clone(&a.checksum),
                candidate: checksum_clone(&b.checksum),
            },
        )
    } else {
        Ok(())
    }
}

/// True exactly when the records differ in version, architecture or distro
/// version.
pub fn artifact_is_different(a: &ArtifactRecord, b: &ArtifactRecord) -> (r: bool)
    ensures
        r == records_differ(a@, b@),
{
    !string_eq(&a.version, &b.version) || !(a.arch == b.arch) || !(a.metadata.distro_version
        == b.metadata.distro_version)
}

/// Publishes `candidate` into the inventory: rejects it on the first
/// same-URL-different-digest clash (leaving the inventory untouched), else
/// drops every record it supersedes and appends it.
pub fn publish(inv: &mut Inventory, candidate: ArtifactRecord) -> (r: Result<(), ChecksumConflict>)
    ensures
        r is Ok <==> !has_conflict(old(inv)@, candidate@),
        r is Ok ==> final(inv)@ == spec_publish(old(inv)@, candidate@),
        r is Err ==> final(inv)@ == old(inv)@,
        r matches Err(e) ==> exists|i: int|
            {
                &&& 0 <= i < old(inv)@.len()
                &&& records_conflict(#[trigger] old(inv)@[i], candidate@)
                &&& forall|j: int| 0 <= j < i ==> !records_conflict(#[trigger] old(inv)@[j], candidate@)
                &&& e.url@ == old(inv)@[i].url
                &&& e.existing@ == old(inv)@[i].checksum
                &&& e.candidate@ == candidate@.checksum
            },
{
    let n = inv.artifacts.len();
    let mut i: usize = 0;
    while i < n
        invariant
            i <= n,
            n == inv.artifacts@.len(),
            inv == old(inv),
            forall|j: int| 0 <= j < i ==> !records_conflict(#[trigger] inv@[j], candidate@),
        decreases n - i,
    {
        let prior = &inv.artifacts[i];
        proof {
            assert(inv@[i as int] == prior@);
        }
        match artifact_same_url_different_checksum(prior, &candidate) {
            Err(e) => {
                return Err(e);
            },
            Ok(()) => {},
        }
        i = i + 1;
    }
    let ghost s = inv@;
    let mut kept: Vec<ArtifactRecord> = Vec::new();
    let mut k: usize = 0;
    proof {
        reveal(Seq::filter);
        assert(s.take(0int) =~= Seq::<RecordV>::empty());
        assert(kept@.map_values(|r: ArtifactRecord| r@) =~= spec_keep(s.take(0int), candidate@));
    }
    while k < n
        invariant
            k <= n,
            n == inv.artifacts@.len(),
            inv == old(inv),
            s == inv@,
            kept@.map_values(|r: ArtifactRecord| r@) == spec_keep(s.take(k as int), candidate@),
        decreases n - k,
    {
        let keep_it = artifact_is_different(&inv.artifacts[k], &candidate);
        proof {
            reveal(Seq::filter);
            assert(inv@[k as int] == inv.artifacts@[k as int]@);
            assert(s.take(k + 1).drop_last() =~= s.take(k as int));
            assert(s.take(k + 1).last() == s[k as int]);
        }
        if keep_it {
            let c = record_clone(&inv.artifacts[k]);
            kept.push(c);
            proof {
                assert(kept@.map_values(|r: ArtifactRecord| r@) =~= spec_keep(
                    s.take(k + 1),
                    candidate@,
                ));
            }
        } else {
            proof {
                assert(kept@.map_values(|r: ArtifactRecord| r@) =~= spec_keep(
                    s.take(k + 1),
                    candidate@,
                ));
            }
        }
        k = k + 1;
    }
    proof {
        assert(s.take(n as int) =~= s);
    }
    kept.push(candidate);
    inv.artifacts = kept;
    proof {
        assert(inv@ =~= spec_publish(s, candidate@));
    }
    Ok(())
}

/// A filter that keeps every element changes nothing.
proof fn lemma_filter_all(s: Seq<RecordV>, pred: spec_fn(RecordV) -> bool)
    requires
        forall|i: int| 0 <= i < s.len() ==> pred(#[trigger] s[i]),
    ensures
        s.filter(pred) == s,
    decreases s.len(),
{
    reveal(Seq::filter);
    if s.len() > 0 {
        assert(forall|i: int| 0 <= i < s.len() - 1 ==> s.drop_last()[i] == s[i]);
        lemma_filter_all(s.drop_last(), pred);
        assert(s.filter(pred) =~= s);
    }
}

/// Append growth law: starting from the empty inventory, publishing two
/// records that neither clash on URL nor share a dedup key succeeds both
/// times and leaves exactly the two records, in call order.
pub proof fn lemma_publish_append_growth(r1: RecordV, r2: RecordV)
    requires
        !records_conflict(r1, r2),
        records_differ(r1, r2),
    ensures
        !has_conflict(Seq::<RecordV>::empty(), r1),
        spec_publish(Seq::<RecordV>::empty(), r1) == seq![r1],
        !has_conflict(seq![r1], r2),
        spec_publish(seq![r1], r2) == seq![r1, r2],
{
    reveal(Seq::filter);
    assert(spec_keep(Seq::<RecordV>::empty(), r1) =~= Seq::<RecordV>::empty());
    assert(spec_publish(Seq::<RecordV>::empty(), r1) =~= seq![r1]);
    assert(!has_conflict(seq![r1], r2)) by {
        if has_conflict(seq![r1], r2) {
            let i = choose|i: int|
                0 <= i < seq![r1].len() && records_conflict(#[trigger] seq![r1][i], r2);
            assert(seq![r1][i] == r1);
        }
    }
    let one = seq![r1];
    assert(one.drop_last() =~= Seq::<RecordV>::empty());
    assert(one.last() == r1);
    assert(spec_keep(one, r2) =~= one);
    assert(spec_publish(one, r2) =~= seq![r1, r2]);
}

/// Dedup replace law: when exactly one existing record matches the
/// candidate's dedup key and no URLs clash, publishing keeps the inventory's
/// length, appends the candidate, and drops exactly the superseded record.
/// When, further, no other record carries the superseded record's digest and
/// the candidate's digest differs from it, that digest is gone afterwards.
pub proof fn lemma_publish_dedup_replace(s: Seq<RecordV>, c: RecordV, j: int)
    requires
        0 <= j < s.len(),
        !records_differ(s[j], c),
        forall|i: int| 0 <= i < s.len() && i != j ==> records_differ(#[trigger] s[i], c),
        !has_conflict(s, c),
    ensures
        spec_publish(s, c).len() == s.len(),
        spec_publish(s, c).last() == c,
        spec_keep(s, c) == s.remove(j),
        (forall|i: int| 0 <= i < s.len() && i != j ==> (#[trigger] s[i]).checksum != s[j].checksum)
            && c.checksum != s[j].checksum ==> forall|i: int|
            0 <= i < spec_publish(s, c).len() ==> (#[trigger] spec_publish(s, c)[i]).checksum
                != s[j].checksum,
    decreases s.len(),
{
    reveal(Seq::filter);
    let pred = |r: RecordV| records_differ(r, c);
    if j == s.len() - 1 {
        assert(forall|i: int| 0 <= i < s.len() - 1 ==> s.drop_last()[i] == s[i]);
        lemma_filter_all(s.drop_last(), pred);
        assert(spec_keep(s, c) == s.drop_last());
        assert(s.remove(j) =~= s.drop_last());
    } else {
        assert(forall|i: int| 0 <= i < s.len() - 1 ==> s.drop_last()[i] == s[i]);
        assert(!has_conflict(s.drop_last(), c)) by {
            if has_conflict(s.drop_last(), c) {
                let i = choose|i: int|
                    0 <= i < s.drop_last().len() && records_conflict(
                        #[trigger] s.drop_last()[i],
                        c,
                    );
                assert(records_conflict(s[i], c));
            }
        }
        lemma_publish_dedup_replace(s.drop_last(), c, j);
        assert(pred(s.last()));
        assert(spec_keep(s, c) == s.drop_last().remove(j).push(s.last()));
        assert(s.drop_last().remove(j).push(s.last()) =~= s.remove(j));
    }
    if (forall|i: int| 0 <= i < s.len() && i != j ==> (#[trigger] s[i]).checksum != s[j].checksum)
        && c.checksum != s[j].checksum {
        assert forall|i: int| 0 <= i < spec_publish(s, c).len() implies (#[trigger] spec_publish(
            s,
            c,
        )[i]).checksum != s[j].checksum by {
            if i < spec_publish(s, c).len() - 1 {
                assert(spec_publish(s, c)[i] == s.remove(j)[i]);
                if i < j {
                    assert(s.remove(j)[i] == s[i]);
                } else {
                    assert(s.remove(j)[i] == s[i + 1]);
                }
            } else {
                assert(spec_publish(s, c)[i] == c);
            }
        }
    }
}

} // verus!
