//! The inventory: an ordered collection of artifact records, a dumb
//! container mutated through `push` and the publish policy, serialized and
//! parsed by the manifest codec.

use vstd::prelude::*;
use crate::codec::{
    all_ws, is_ws, lemma_manifest_roundtrip, lemma_ser_records_append, parse_doc, parse_record,
    parse_records, ser_record, ser_records, serialize_record_into, parse_record_at,
};
use crate::record::{valid_record, ArtifactRecord, RecordV};
use crate::text::{chars_to_string, str_to_chars};

verus! {

/// The manifest contents did not parse; carries the offending text for
/// diagnostics.
#[derive(Debug)]
pub struct ParseError {
    pub contents: String,
}

impl ParseError {
    /// Human-readable description carrying the offending contents.
    pub fn message(&self) -> (m: String)
        ensures
            m@ == "Could not parse inventory:\n"@ + self.contents@,
    {
        let mut out: Vec<char> = Vec::new();
        crate::text::append_str(&mut out, "Could not parse inventory:\n");
        crate::text::append_str(&mut out, self.contents.as_str());
        chars_to_string(&out)
    }
}

/// The ordered collection of published artifact records, insertion order
/// preserved, newest appended last.
#[derive(Debug)]
pub struct Inventory {
    pub artifacts: Vec<ArtifactRecord>,
}

impl View for Inventory {
    type V = Seq<RecordV>;

    open spec fn view(&self) -> Seq<RecordV> {
        self.artifacts@.map_values(|r: ArtifactRecord| r@)
    }
}

impl Inventory {
    /// The inventory with no records.
    pub fn new() -> (inv: Inventory)
        ensures
            inv@ == Seq::<RecordV>::empty(),
    {
        let inv = Inventory { artifacts: Vec::new() };
        proof {
            assert(inv@ =~= Seq::<RecordV>::empty());
        }
        inv
    }

    /// Appends a record at the end; enforces no policy.
    pub fn push(&mut self, record: ArtifactRecord)
        ensures
            final(self)@ == old(self)@.push(record@),
    {
        self.artifacts.push(record);
        proof {
            assert(self@ =~= old(self)@.push(self.artifacts@.last()@));
        }
    }

    /// Number of records held.
    pub fn len(&self) -> (n: usize)
        ensures
            n == self@.len(),
    {
        self.artifacts.len()
    }

    /// Renders the inventory as a manifest document: deterministic, stable
    /// field ordering, record order preserved exactly.
    pub fn serialize(&self) -> (out: String)
        ensures
            out@ == ser_records(self@),
    {
        let mut chars: Vec<char> = Vec::new();
        let n = self.artifacts.len();
        let mut i: usize = 0;
        proof {
            assert(self@.take(0int) =~= Seq::<RecordV>::empty());
        }
        while i < n
            invariant
                i <= n,
                n == self.artifacts@.len(),
                chars@ == ser_records(self@.take(i as int)),
            decreases n - i,
        {
            serialize_record_into(&mut chars, &self.artifacts[i]);
            proof {
                assert(self@[i as int] == self.artifacts@[i as int]@);
                assert(self@.take(i + 1) =~= self@.take(i as int) + seq![self@[i as int]]);
                lemma_ser_records_append(self@.take(i as int), seq![self@[i as int]]);
                assert(seq![self@[i as int]].skip(1) =~= Seq::<RecordV>::empty());
                assert(seq![self@[i as int]][0] == self@[i as int]);
                assert(ser_records(Seq::<RecordV>::empty()) =~= Seq::<char>::empty());
                assert(ser_records(seq![self@[i as int]]) =~= ser_record(self@[i as int])
                    + ser_records(Seq::<RecordV>::empty()));
                assert(ser_record(self@[i as int]) + Seq::<char>::empty() =~= ser_record(
                    self@[i as int],
                ));
            }
            i = i + 1;
        }
        proof {
            assert(self@.take(n as int) =~= self@);
        }
        chars_to_string(&chars)
    }

    /// Parses a manifest document. An empty or whitespace-only document is
    /// the empty inventory; any other content must be exactly rendered
    /// record tables, else the offending contents come back in the error.
    pub fn parse(contents: &str) -> (r: Result<Inventory, ParseError>)
        ensures
            r is Ok <==> parse_doc(contents@) is Some,
            r matches Ok(inv) ==> parse_doc(contents@) == Some(inv@),
            r matches Err(e) ==> e.contents@ == contents@,
    {
        let v = str_to_chars(contents);
        let n = v.len();
        // A blank manifest file bootstraps the empty inventory.
        let mut ws_only = true;
        let mut j: usize = 0;
        while j < n
            invariant
                j <= n,
                n == v@.len(),
                v@ == contents@,
                ws_only ==> forall|k: int| 0 <= k < j ==> is_ws(#[trigger] v@[k]),
                !ws_only ==> !all_ws(v@),
            decreases n - j,
        {
            let c = v[j];
            if !(c == ' ' || c == '\t' || c == '\n' || c == '\r') {
                proof {
                    assert(!is_ws(v@[j as int]));
                }
                ws_only = false;
            }
            j = j + 1;
        }
        if ws_only {
            return Ok(Inventory::new());
        }
        let mut records: Vec<ArtifactRecord> = Vec::new();
        let mut pos: usize = 0;
        proof {
            assert(v@.skip(0int) =~= v@);
        }
        while pos < n
            invariant
                pos <= n,
                n == v@.len(),
                v@ == contents@,
                !all_ws(v@),
                parse_records(v@.skip(pos as int)) is Some ==> parse_records(v@) == Some(
                    records@.map_values(|x: ArtifactRecord| x@) + parse_records(
                        v@.skip(pos as int),
                    ).unwrap(),
                ),
                parse_records(v@.skip(pos as int)) is None ==> parse_records(v@) is None,
            decreases n - pos,
        {
            let ghost suffix = v@.skip(pos as int);
            match parse_record_at(&v, pos) {
                None => {
                    proof {
                        assert(suffix.len() > 0);
                        assert(parse_records(suffix) is None);
                    }
                    return Err(ParseError { contents: contents.to_owned() });
                },
                Some((rec, p2)) => {
                    let ghost recv = rec@;
                    let ghost prev = records@;
                    proof {
                        assert(parse_record(suffix) == Some((recv, v@.skip(p2 as int))));
                        assert(v@.skip(p2 as int).len() < suffix.len());
                        match parse_records(v@.skip(p2 as int)) {
                            Some(t) => {
                                assert(parse_records(suffix) == Some(seq![recv] + t));
                                assert(prev.map_values(|x: ArtifactRecord| x@).push(recv) + t
                                    =~= prev.map_values(|x: ArtifactRecord| x@) + (seq![recv] + t));
                            },
                            None => {
                                assert(parse_records(suffix) is None);
                            },
                        }
                    }
                    records.push(rec);
                    proof {
                        assert(records@.map_values(|x: ArtifactRecord| x@) =~= prev.map_values(
                            |x: ArtifactRecord| x@,
                        ).push(recv));
                    }
                    pos = p2;
                },
            }
        }
        proof {
            assert(v@.skip(n as int) =~= Seq::<char>::empty());
            assert(parse_records(v@.skip(n as int)) == Some(Seq::<RecordV>::empty()));
            assert(records@.map_values(|x: ArtifactRecord| x@) + Seq::<RecordV>::empty()
                =~= records@.map_values(|x: ArtifactRecord| x@));
        }
        let inv = Inventory { artifacts: records };
        proof {
            assert(inv@ == records@.map_values(|x: ArtifactRecord| x@));
        }
        Ok(inv)
    }
}

/// Round-trip law for inventories: any inventory of well-formed records,
/// rendered and parsed back, is itself.
pub proof fn lemma_inventory_roundtrip(recs: Seq<RecordV>)
    requires
        forall|i: int| 0 <= i < recs.len() ==> valid_record(#[trigger] recs[i]),
    ensures
        parse_doc(ser_records(recs)) == Some(recs),
{
    lemma_manifest_roundtrip(recs);
}

} // verus!
