//! The record model: an owned parsed entry (identifier line, sequence bytes,
//! optional quality bytes) and the read-only view the processing callbacks
//! receive.

use vstd::prelude::*;
use vstd::string::StringSliceAdditionalSpecFns;

verus! {

/// The mathematical view of one record: its header bytes, its sequence
/// bytes, and its quality bytes — absent, not merely empty, for a record of
/// a source with no quality concept.
pub struct RecordData {
    pub head: Seq<u8>,
    pub bases: Seq<u8>,
    pub qual: Option<Seq<u8>>,
}

/// One parsed record, owned by the batch that holds it. The engine never
/// mutates a record; its contents are overwritten only when the batch slot
/// that holds it is reused.
pub struct OwnedRecord {
    pub head: Vec<u8>,
    pub bases: Vec<u8>,
    pub qual: Option<Vec<u8>>,
}

impl View for OwnedRecord {
    type V = RecordData;

    open spec fn view(&self) -> RecordData {
        RecordData {
            head: self.head@,
            bases: self.bases@,
            qual: match self.qual {
                Some(q) => Some(q@),
                None => None,
            },
        }
    }
}

/// Where a header's identifier ends: at its first space, or at the
/// header's end when it holds none.
pub open spec fn id_end(head: Seq<u8>) -> int
    decreases head.len(),
{
    if head.len() == 0 {
        0
    } else if head[0] == 32 {
        0
    } else {
        1 + id_end(head.drop_first())
    }
}

/// The identifier bytes of a header: everything before the first space.
pub open spec fn id_bytes(head: Seq<u8>) -> Seq<u8> {
    head.take(id_end(head))
}

pub proof fn lemma_id_end_bounds(head: Seq<u8>)
    ensures
        0 <= id_end(head) <= head.len(),
    decreases head.len(),
{
    if head.len() > 0 && head[0] != 32 {
        lemma_id_end_bounds(head.drop_first());
    }
}

proof fn lemma_id_end_at(head: Seq<u8>, i: int)
    requires
        0 <= i <= head.len(),
        forall|k: int| 0 <= k < i ==> head[k] != 32,
        i == head.len() || head[i] == 32,
    ensures
        id_end(head) == i,
    decreases head.len(),
{
    if head.len() > 0 && head[0] != 32 {
        lemma_id_end_at(head.drop_first(), i - 1);
    }
}

/// The read-only accessors a processing callback may use on a record,
/// whatever concrete record type the source produced.
pub trait MinimalRefRecord: Sized {
    /// The record the accessors read.
    spec fn rec_view(&self) -> RecordData;

    /// The identifier: the header bytes before the first space, as text —
    /// absent when they are not valid text.
    fn ref_id(&self) -> (r: Option<&str>)
        ensures
            r matches Some(s) ==> s.spec_bytes() == id_bytes(self.rec_view().head)
                && vstd::utf8::valid_utf8(id_bytes(self.rec_view().head)),
            r is None ==> !vstd::utf8::valid_utf8(id_bytes(self.rec_view().head)),
    ;

    /// The header line's bytes, identifier included.
    fn ref_head(&self) -> (r: &[u8])
        ensures
            r@ == self.rec_view().head,
    ;

    /// The sequence bytes.
    fn ref_seq(&self) -> (r: &[u8])
        ensures
            r@ == self.rec_view().bases,
    ;

    /// Whether the record carries quality bytes at all.
    fn has_quality(&self) -> (r: bool)
        ensures
            r == self.rec_view().qual is Some,
    ;

    /// The quality bytes. Asking a record of a quality-less source for them
    /// is a programming error, ruled out by the precondition rather than
    /// answered with a panic or a made-up value.
    fn ref_qual(&self) -> (r: &[u8])
        requires
            self.rec_view().qual is Some,
        ensures
            Some(r@) == self.rec_view().qual,
    ;

    /// The whole sequence, line breaks already removed: for records held in
    /// owned, contiguous form it is the sequence bytes themselves.
    fn ref_full_seq(&self) -> (r: &[u8])
        ensures
            r@ == self.rec_view().bases,
    ;
}

impl MinimalRefRecord for OwnedRecord {
    open spec fn rec_view(&self) -> RecordData {
        self@
    }

    fn ref_id(&self) -> (r: Option<&str>) {
        let head = self.head.as_slice();
        let mut i: usize = 0;
        loop
            invariant
                i <= head@.len(),
                head@ == self@.head,
                forall|k: int| 0 <= k < i ==> head@[k] != 32,
            ensures
                i <= head@.len(),
                forall|k: int| 0 <= k < i ==> head@[k] != 32,
                i == head@.len() || head@[i as int] == 32,
            decreases head@.len() - i,
        {
            if i == head.len() {
                break ;
            }
            if head[i] == 32 {
                break ;
            }
            i += 1;
        }
        proof {
            lemma_id_end_at(head@, i as int);
        }
        let id_slice = vstd::slice::slice_subrange(head, 0, i);
        proof {
            assert(id_slice@ =~= id_bytes(self@.head));
        }
        utf8_str(id_slice)
    }

    fn ref_head(&self) -> (r: &[u8]) {
        self.head.as_slice()
    }

    fn ref_seq(&self) -> (r: &[u8]) {
        self.bases.as_slice()
    }

    fn has_quality(&self) -> (r: bool) {
        self.qual.is_some()
    }

    fn ref_qual(&self) -> (r: &[u8]) {
        match &self.qual {
            Some(q) => q.as_slice(),
            None => &[],  // unreachable: the precondition owes quality bytes
        }
    }

    fn ref_full_seq(&self) -> (r: &[u8]) {
        self.bases.as_slice()
    }
}

/// Relies on std's str::from_utf8: it succeeds exactly on valid UTF-8 and
/// returns a text view of the same bytes.
#[verifier::external_body]
fn utf8_str(bytes: &[u8]) -> (r: Option<&str>)
    ensures
        r matches Some(s) ==> s.spec_bytes() == bytes@ && vstd::utf8::valid_utf8(bytes@),
        r is None ==> !vstd::utf8::valid_utf8(bytes@),
{
    std::str::from_utf8(bytes).ok()
}

} // verus!
