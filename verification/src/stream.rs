//! The guarded stream of a sink: complete lines, one record each.
//!
//! The stream keeps what was appended until it is drained. A record goes
//! in whole, with its terminator, or not at all. The guard of the stream
//! is a flag: once it is poisoned, nothing is appended any more.

use crate::error::EmitError;
use vstd::prelude::*;

verus! {

/// The byte that ends a record: a line feed.
pub const TERMINATOR: u8 = 10;

/// Whether the bytes can stand as one record on a line of their own: there
/// is at least one byte, and none is the terminator.
pub open spec fn is_payload(bytes: Seq<u8>) -> bool {
    bytes.len() > 0 && forall|i: int| 0 <= i < bytes.len() ==> bytes[i] != TERMINATOR
}

/// The line that carries a record: the record, then the terminator.
pub open spec fn line_of(payload: Seq<u8>) -> Seq<u8> {
    payload.push(TERMINATOR)
}

/// Every one of the records can stand on a line of its own.
pub open spec fn all_payloads(records: Seq<Seq<u8>>) -> bool {
    forall|i: int| 0 <= i < records.len() ==> is_payload(#[trigger] records[i])
}

/// The bytes of a stream that holds the given records: their lines, one
/// after the other.
pub open spec fn join(records: Seq<Seq<u8>>) -> Seq<u8>
    decreases records.len(),
{
    if records.len() == 0 {
        Seq::empty()
    } else {
        join(records.drop_last()) + line_of(records.last())
    }
}

/// The number of terminators in the bytes.
pub open spec fn count_terminators(bytes: Seq<u8>) -> nat
    decreases bytes.len(),
{
    if bytes.len() == 0 {
        0
    } else if bytes.last() == TERMINATOR {
        count_terminators(bytes.drop_last()) + 1
    } else {
        count_terminators(bytes.drop_last())
    }
}

/// Whether the bytes can stand as one record on a line of their own.
pub fn check_payload(bytes: &[u8]) -> (r: bool)
    ensures
        r == is_payload(bytes@),
{
    if bytes.len() == 0 {
        return false;
    }
    let mut i: usize = 0;
    while i < bytes.len()
        invariant
            0 <= i <= bytes.len(),
            forall|k: int| 0 <= k < i ==> bytes@[k] != TERMINATOR,
        decreases bytes.len() - i,
    {
        if bytes[i] == TERMINATOR {
            return false;
        }
        i += 1;
    }
    true
}

/// Frames a record: the line that carries it, or `Serialize` where the
/// bytes cannot stand as one record.
pub fn frame(payload: &[u8]) -> (r: Result<Vec<u8>, EmitError>)
    ensures
        is_payload(payload@) ==> r is Ok && r.unwrap()@ == line_of(payload@),
        !is_payload(payload@) ==> r is Err && r->Err_0 == EmitError::Serialize,
{
    if !check_payload(payload) {
        return Err(EmitError::Serialize);
    }
    let mut line: Vec<u8> = Vec::new();
    let mut i: usize = 0;
    while i < payload.len()
        invariant
            0 <= i <= payload.len(),
            line@ == payload@.take(i as int),
        decreases payload.len() - i,
    {
        line.push(payload[i]);
        assert(line@ =~= payload@.take(i + 1));
        i += 1;
    }
    assert(payload@.take(i as int) =~= payload@);
    line.push(TERMINATOR);
    Ok(line)
}

/// An in-memory stream of lines behind a guard.
pub struct LineStream {
    bytes: Vec<u8>,
    limit: usize,
    closed: bool,
    poisoned: bool,
    records: Ghost<Seq<Seq<u8>>>,
}

impl LineStream {
    /// The bytes that the stream holds.
    pub closed spec fn written(&self) -> Seq<u8> {
        self.bytes@
    }

    /// The records that the stream holds, in the order in which they came.
    pub closed spec fn records(&self) -> Seq<Seq<u8>> {
        self.records@
    }

    /// The number of bytes that the stream can hold.
    pub closed spec fn limit_spec(&self) -> nat {
        self.limit as nat
    }

    /// Whether the stream was closed.
    pub closed spec fn closed_spec(&self) -> bool {
        self.closed
    }

    /// Whether the guard of the stream is poisoned.
    pub closed spec fn poisoned_spec(&self) -> bool {
        self.poisoned
    }

    /// The invariant of a stream: its bytes are the lines of its records,
    /// each record stands on one line, and the bytes fit the limit.
    pub open spec fn wf(&self) -> bool {
        &&& self.written() == join(self.records())
        &&& all_payloads(self.records())
        &&& self.written().len() <= self.limit_spec()
    }

    /// Whether the stream has room for a record of `n` bytes and its
    /// terminator.
    pub open spec fn has_room(&self, n: nat) -> bool {
        self.written().len() + n + 1 <= self.limit_spec()
    }

    /// What `append` answers for the given record.
    pub open spec fn append_outcome(&self, payload: Seq<u8>) -> Result<(), EmitError> {
        if self.poisoned_spec() {
            Err(EmitError::Internal)
        } else if !is_payload(payload) {
            Err(EmitError::Serialize)
        } else if self.closed_spec() || !self.has_room(payload.len()) {
            Err(EmitError::Write)
        } else {
            Ok(())
        }
    }

    /// An open, empty stream that holds at most `limit` bytes.
    pub fn new(limit: usize) -> (r: LineStream)
        ensures
            r.wf(),
            r.written() == Seq::<u8>::empty(),
            r.records() == Seq::<Seq<u8>>::empty(),
            r.limit_spec() == limit,
            !r.closed_spec(),
            !r.poisoned_spec(),
    {
        LineStream {
            bytes: Vec::new(),
            limit,
            closed: false,
            poisoned: false,
            records: Ghost(Seq::empty()),
        }
    }

    /// The number of bytes that the stream can hold.
    pub fn limit(&self) -> (r: usize)
        ensures
            r == self.limit_spec(),
    {
        self.limit
    }

    /// Whether the stream was closed.
    pub fn is_closed(&self) -> (r: bool)
        ensures
            r == self.closed_spec(),
    {
        self.closed
    }

    /// Whether the guard of the stream is poisoned.
    pub fn is_poisoned(&self) -> (r: bool)
        ensures
            r == self.poisoned_spec(),
    {
        self.poisoned
    }

    /// The bytes that the stream holds.
    pub fn as_bytes(&self) -> (r: &[u8])
        ensures
            r@ == self.written(),
    {
        self.bytes.as_slice()
    }

    /// Closes the stream: from now on it rejects every record.
    pub fn close(&mut self)
        ensures
            final(self).closed_spec(),
            final(self).written() == old(self).written(),
            final(self).records() == old(self).records(),
            final(self).limit_spec() == old(self).limit_spec(),
            final(self).poisoned_spec() == old(self).poisoned_spec(),
    {
        self.closed = true;
    }

    /// Marks the guard as poisoned: a writer failed in the middle of a
    /// record, and the stream refuses all further records.
    pub fn poison(&mut self)
        ensures
            final(self).poisoned_spec(),
            final(self).written() == old(self).written(),
            final(self).records() == old(self).records(),
            final(self).limit_spec() == old(self).limit_spec(),
            final(self).closed_spec() == old(self).closed_spec(),
    {
        self.poisoned = true;
    }

    /// Appends one record as one line. The record goes in whole, followed
    /// by the terminator, or the stream stays as it was.
    pub fn append(&mut self, payload: &[u8]) -> (r: Result<(), EmitError>)
        ensures
            old(self).wf() ==> final(self).wf(),
            r == old(self).append_outcome(payload@),
            r is Ok ==> final(self).records() == old(self).records().push(payload@),
            r is Ok ==> final(self).written() == old(self).written() + line_of(payload@),
            r is Err ==> final(self).records() == old(self).records(),
            r is Err ==> final(self).written() == old(self).written(),
            final(self).limit_spec() == old(self).limit_spec(),
            final(self).closed_spec() == old(self).closed_spec(),
            final(self).poisoned_spec() == old(self).poisoned_spec(),
    {
        if self.poisoned {
            return Err(EmitError::Internal);
        }
        let mut line = match frame(payload) {
            Ok(line) => line,
            Err(e) => {
                return Err(e);
            },
        };
        if self.closed {
            return Err(EmitError::Write);
        }
        if self.bytes.len() >= self.limit {
            return Err(EmitError::Write);
        }
        let room: usize = self.limit - self.bytes.len();
        if payload.len() >= room {
            return Err(EmitError::Write);
        }
        self.bytes.append(&mut line);
        proof {
            self.records = Ghost(old(self).records@.push(payload@));
            assert(self.records@.drop_last() =~= old(self).records@);
            assert(self.records@.last() == payload@);
        }
        Ok(())
    }

    /// Takes out what the stream holds and leaves it empty.
    pub fn drain(&mut self) -> (r: Vec<u8>)
        ensures
            r@ == old(self).written(),
            final(self).written() == Seq::<u8>::empty(),
            final(self).records() == Seq::<Seq<u8>>::empty(),
            final(self).limit_spec() == old(self).limit_spec(),
            final(self).closed_spec() == old(self).closed_spec(),
            final(self).poisoned_spec() == old(self).poisoned_spec(),
            final(self).wf(),
    {
        let mut out: Vec<u8> = Vec::new();
        std::mem::swap(&mut self.bytes, &mut out);
        proof {
            self.records = Ghost(Seq::empty());
        }
        out
    }
}

/// Records that can each stand on a line still can when the last one is
/// left out.
proof fn lemma_payloads_without_last(records: Seq<Seq<u8>>)
    requires
        all_payloads(records),
        records.len() > 0,
    ensures
        all_payloads(records.drop_last()),
{
    assert forall|i: int| 0 <= i < records.drop_last().len() implies is_payload(
        #[trigger] records.drop_last()[i],
    ) by {
        assert(records.drop_last()[i] == records[i]);
    }
}

/// A stream that holds a record is not empty and ends with the terminator;
/// a stream without records has no bytes.
pub proof fn lemma_join_ends_with_terminator(records: Seq<Seq<u8>>)
    ensures
        records.len() == 0 <==> join(records).len() == 0,
        records.len() > 0 ==> join(records).last() == TERMINATOR,
        records.len() > 0 ==> join(records).len() == join(records.drop_last()).len()
            + records.last().len() + 1,
{
    if records.len() > 0 {
        assert(join(records) == join(records.drop_last()) + line_of(records.last()));
    }
}

/// Where two sequences of records make up the same bytes, the last record
/// of the first is no longer than the last record of the second.
proof fn lemma_last_record_no_longer(a: Seq<Seq<u8>>, b: Seq<Seq<u8>>)
    requires
        all_payloads(a),
        all_payloads(b),
        a.len() > 0,
        b.len() > 0,
        join(a) == join(b),
    ensures
        a.last().len() >= b.last().len(),
{
    let s = join(a);
    let ja = join(a.drop_last());
    let jb = join(b.drop_last());
    let pa = a.last();
    let pb = b.last();
    lemma_join_ends_with_terminator(a);
    lemma_join_ends_with_terminator(b);
    lemma_join_ends_with_terminator(a.drop_last());
    assert(s == ja + line_of(pa));
    assert(s == jb + line_of(pb));
    if pa.len() < pb.len() {
        if ja.len() == 0 {
            assert(s.len() == pa.len() + 1);
            assert(s.len() == jb.len() + pb.len() + 1);
        } else {
            let q = ja.len() - 1;
            assert(s[q] == ja[q]);
            assert(ja.last() == TERMINATOR);
            assert(q >= jb.len());
            assert(q - jb.len() < pb.len());
            assert(s[q] == line_of(pb)[q - jb.len()]);
            assert(line_of(pb)[q - jb.len()] == pb[q - jb.len()]);
            assert(is_payload(pb));
        }
    }
}

/// The bytes of a stream determine its records: two sequences of records
/// that make up the same bytes are the same sequence. So what was written
/// splits into complete records in one way only.
pub proof fn lemma_join_determines_records(a: Seq<Seq<u8>>, b: Seq<Seq<u8>>)
    requires
        all_payloads(a),
        all_payloads(b),
        join(a) == join(b),
    ensures
        a == b,
    decreases a.len(),
{
    lemma_join_ends_with_terminator(a);
    lemma_join_ends_with_terminator(b);
    if a.len() == 0 {
        assert(a =~= b);
    } else {
        lemma_last_record_no_longer(a, b);
        lemma_last_record_no_longer(b, a);
        let s = join(a);
        let ja = join(a.drop_last());
        let jb = join(b.drop_last());
        let pa = a.last();
        let pb = b.last();
        assert(s == ja + line_of(pa));
        assert(s == jb + line_of(pb));
        assert(ja.len() == jb.len());
        assert(ja =~= s.take(ja.len() as int));
        assert(jb =~= s.take(ja.len() as int));
        assert(pa =~= s.subrange(ja.len() as int, (ja.len() + pa.len()) as int));
        assert(pb =~= s.subrange(ja.len() as int, (ja.len() + pa.len()) as int));
        lemma_payloads_without_last(a);
        lemma_payloads_without_last(b);
        lemma_join_determines_records(a.drop_last(), b.drop_last());
        assert(a =~= a.drop_last().push(pa));
        assert(b =~= b.drop_last().push(pb));
    }
}

/// Terminators are counted part by part.
pub proof fn lemma_count_of_concat(a: Seq<u8>, b: Seq<u8>)
    ensures
        count_terminators(a + b) == count_terminators(a) + count_terminators(b),
    decreases b.len(),
{
    if b.len() == 0 {
        assert(a + b =~= a);
    } else {
        assert((a + b).drop_last() =~= a + b.drop_last());
        assert((a + b).last() == b.last());
        lemma_count_of_concat(a, b.drop_last());
    }
}

/// A record holds no terminator.
pub proof fn lemma_count_of_payload(payload: Seq<u8>)
    requires
        forall|i: int| 0 <= i < payload.len() ==> payload[i] != TERMINATOR,
    ensures
        count_terminators(payload) == 0,
    decreases payload.len(),
{
    if payload.len() > 0 {
        lemma_count_of_payload(payload.drop_last());
    }
}

/// The terminators in a stream are as many as its records: each record
/// stands on one line, and no line is empty or torn.
pub proof fn lemma_one_line_per_record(records: Seq<Seq<u8>>)
    requires
        all_payloads(records),
    ensures
        count_terminators(join(records)) == records.len(),
    decreases records.len(),
{
    if records.len() > 0 {
        let rest = records.drop_last();
        lemma_payloads_without_last(records);
        lemma_one_line_per_record(rest);
        lemma_count_of_concat(join(rest), line_of(records.last()));
        lemma_count_of_payload(records.last());
        assert(line_of(records.last()).drop_last() =~= records.last());
    }
}

} // verus!
