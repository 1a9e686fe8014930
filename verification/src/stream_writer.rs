//! Stand-ins for the delivery-stream writer in local runs and tests: a stub
//! that accepts everything, and a spy that keeps what it was given, with the
//! trailing newline that the real writer appends to every batched record.
use vstd::prelude::*;
use crate::errors::DomainError;
use crate::sources::random_uuid;
use crate::text::joined;

verus! {

/// A record id handed out by a stand-in: `prefix` followed by a random UUID.
pub open spec fn is_record_id(prefix: Seq<char>, id: Seq<char>) -> bool {
    id.len() == prefix.len() + 36 && id.take(prefix.len() as int) == prefix
}

fn record_id(prefix: &str) -> (r: String)
    ensures
        is_record_id(prefix@, r@),
{
    let u = random_uuid();
    let r = joined(prefix, u.as_str());
    assert(r@.take(prefix@.len() as int) =~= prefix@);
    r
}

/// A writer that accepts every record and keeps none.
#[derive(Debug)]
pub struct StubStreamWriter {}

impl StubStreamWriter {
    /// The stub writer.
    pub fn new() -> (r: StubStreamWriter) {
        StubStreamWriter {  }
    }

    /// Accepts one record and answers a fresh id `stub-record-<uuid>`.
    pub fn put_record(&self, stream_name: &str, partition_key: &str, data: Vec<u8>) -> (r: Result<String, DomainError>)
        ensures
            r matches Ok(id) && is_record_id("stub-record-"@, id@),
    {
        Ok(record_id("stub-record-"))
    }

    /// Accepts a batch and answers one fresh id per record.
    pub fn put_records(&self, stream_name: &str, batch: Vec<(String, Vec<u8>)>) -> (r: Result<Vec<String>, DomainError>)
        ensures
            r matches Ok(ids) && ids@.len() == batch@.len() && forall|i: int|
                0 <= i < ids@.len() ==> is_record_id("stub-record-"@, #[trigger] ids@[i]@),
    {
        let mut ids: Vec<String> = Vec::new();
        let mut i: usize = 0;
        while i < batch.len()
            invariant
                i <= batch@.len(),
                ids@.len() == i,
                forall|k: int| 0 <= k < ids@.len() ==> is_record_id("stub-record-"@, #[trigger] ids@[k]@),
            decreases batch@.len() - i,
        {
            ids.push(record_id("stub-record-"));
            i = i + 1;
        }
        Ok(ids)
    }
}

/// A record as the spy received it.
#[derive(Debug)]
pub struct CapturedRecord {
    pub stream_name: String,
    pub partition_key: String,
    pub data: Vec<u8>,
}

/// A writer that keeps every record it receives, and counts its batch calls.
#[derive(Debug)]
pub struct SpyStreamWriter {
    captured: Vec<CapturedRecord>,
    batch_calls: usize,
}

impl View for SpyStreamWriter {
    /// The records kept, in order of arrival, and the number of batch calls.
    type V = (Seq<CapturedRecord>, nat);

    closed spec fn view(&self) -> (Seq<CapturedRecord>, nat) {
        (self.captured@, self.batch_calls as nat)
    }
}

fn copy_bytes(v: &Vec<u8>) -> (r: Vec<u8>)
    ensures
        r@ == v@,
{
    let mut r: Vec<u8> = Vec::new();
    let mut i: usize = 0;
    while i < v.len()
        invariant
            i <= v@.len(),
            r@ == v@.take(i as int),
        decreases v@.len() - i,
    {
        r.push(v[i]);
        i = i + 1;
        assert(r@ =~= v@.take(i as int));
    }
    assert(v@.take(v@.len() as int) =~= v@);
    r
}

/// The record that a batch entry becomes: the stream, the entry's key, and
/// its bytes followed by a newline.
pub open spec fn batched_record(rec: CapturedRecord, stream: Seq<char>, entry: (String, Vec<u8>)) -> bool {
    rec.stream_name@ == stream && rec.partition_key == entry.0 && rec.data@ == entry.1@.push(10u8)
}

impl SpyStreamWriter {
    /// A spy with nothing captured and no batch calls.
    pub fn new() -> (r: SpyStreamWriter)
        ensures
            r@.0 == Seq::<CapturedRecord>::empty(),
            r@.1 == 0,
    {
        SpyStreamWriter { captured: Vec::new(), batch_calls: 0 }
    }

    /// The records kept so far, in order of arrival.
    pub fn captured(&self) -> (r: &Vec<CapturedRecord>)
        ensures
            r@ == self@.0,
    {
        &self.captured
    }

    /// How many batch calls the spy received.
    pub fn batch_calls(&self) -> (r: usize)
        ensures
            r == self@.1,
    {
        self.batch_calls
    }

    /// Hands out the records kept so far and forgets them.
    pub fn drain(&mut self) -> (r: Vec<CapturedRecord>)
        ensures
            r@ == old(self)@.0,
            final(self)@.0 == Seq::<CapturedRecord>::empty(),
            final(self)@.1 == old(self)@.1,
    {
        let mut out: Vec<CapturedRecord> = Vec::new();
        std::mem::swap(&mut out, &mut self.captured);
        out
    }

    /// Keeps one record as given and answers a fresh id `spy-record-<uuid>`.
    pub fn put_record(&mut self, stream_name: &str, partition_key: &str, data: Vec<u8>) -> (r: Result<String, DomainError>)
        ensures
            final(self)@.1 == old(self)@.1,
            final(self)@.0.len() == old(self)@.0.len() + 1,
            final(self)@.0.take(old(self)@.0.len() as int) == old(self)@.0,
            final(self)@.0.last().stream_name@ == stream_name@,
            final(self)@.0.last().partition_key@ == partition_key@,
            final(self)@.0.last().data == data,
            r matches Ok(id) && is_record_id("spy-record-"@, id@),
    {
        let rec = CapturedRecord {
            stream_name: stream_name.to_owned(),
            partition_key: partition_key.to_owned(),
            data,
        };
        self.captured.push(rec);
        proof {
            assert(self@.0.take(old(self)@.0.len() as int) =~= old(self)@.0);
        }
        Ok(record_id("spy-record-"))
    }

    /// Counts one batch call and keeps one record per entry, its bytes
    /// followed by a newline as the real writer delivers them; answers one
    /// fresh id per entry.
    pub fn put_records(&mut self, stream_name: &str, batch: Vec<(String, Vec<u8>)>) -> (r: Result<Vec<String>, DomainError>)
        requires
            old(self)@.1 < usize::MAX,
        ensures
            final(self)@.1 == old(self)@.1 + 1,
            final(self)@.0.len() == old(self)@.0.len() + batch@.len(),
            final(self)@.0.take(old(self)@.0.len() as int) == old(self)@.0,
            forall|i: int|
                0 <= i < batch@.len() ==> batched_record(
                    #[trigger] final(self)@.0[old(self)@.0.len() + i],
                    stream_name@,
                    batch@[i],
                ),
            r matches Ok(ids) && ids@.len() == batch@.len() && forall|i: int|
                0 <= i < ids@.len() ==> is_record_id("spy-record-"@, #[trigger] ids@[i]@),
    {
        self.batch_calls = self.batch_calls + 1;
        let ghost start = self.captured@.len();
        let mut ids: Vec<String> = Vec::new();
        let mut i: usize = 0;
        while i < batch.len()
            invariant
                i <= batch@.len(),
                ids@.len() == i,
                start == old(self)@.0.len(),
                self.batch_calls == old(self)@.1 + 1,
                self.captured@.len() == start + i,
                self.captured@.take(start as int) == old(self)@.0,
                forall|k: int|
                    0 <= k < i ==> batched_record(#[trigger] self.captured@[start + k], stream_name@, batch@[k]),
                forall|k: int| 0 <= k < ids@.len() ==> is_record_id("spy-record-"@, #[trigger] ids@[k]@),
            decreases batch@.len() - i,
        {
            let mut data = copy_bytes(&batch[i].1);
            data.push(10u8);
            let rec = CapturedRecord {
                stream_name: stream_name.to_owned(),
                partition_key: batch[i].0.clone(),
                data,
            };
            let ghost before = self.captured@;
            self.captured.push(rec);
            proof {
                assert(self.captured@.take(start as int) =~= before.take(start as int));
                assert(forall|k: int| 0 <= k < i ==> #[trigger] self.captured@[start + k] == before[start + k]);
            }
            ids.push(record_id("spy-record-"));
            i = i + 1;
        }
        Ok(ids)
    }
}

/// Records per batch call that the delivery stream accepts.
pub const FIREHOSE_BATCH_LIMIT: usize = 500;

/// The size of the `c`-th call of a batch of `n` records.
pub open spec fn chunk_len(n: int, c: int) -> int {
    if n - 500 * c >= 500 {
        500
    } else {
        n - 500 * c
    }
}

/// The calls that deliver a batch: `ceil(n / 500)` calls of at most 500
/// records each, in order, each record's bytes followed by a newline.
pub fn firehose_chunks(batch: &Vec<(String, Vec<u8>)>) -> (r: Vec<Vec<Vec<u8>>>)
    ensures
        r@.len() == (batch@.len() + 499) / 500,
        forall|c: int| 0 <= c < r@.len() ==> (#[trigger] r@[c])@.len() == chunk_len(batch@.len() as int, c),
        forall|c: int, k: int|
            0 <= c < r@.len() && 0 <= k < r@[c]@.len() ==> (#[trigger] r@[c]@[k])@ == batch@[500 * c + k].1@.push(
                10u8,
            ),
{
    let n = batch.len();
    let mut r: Vec<Vec<Vec<u8>>> = Vec::new();
    let mut start: usize = 0;
    while start < n
        invariant
            n == batch@.len(),
            start <= n,
            start < n ==> start == 500 * r@.len(),
            start == n ==> r@.len() == (n + 499) / 500,
            forall|c: int| 0 <= c < r@.len() ==> (#[trigger] r@[c])@.len() == chunk_len(n as int, c),
            forall|c: int, k: int|
                0 <= c < r@.len() && 0 <= k < r@[c]@.len() ==> (#[trigger] r@[c]@[k])@ == batch@[500 * c + k].1@.push(
                    10u8,
                ),
        decreases n - start,
    {
        let end: usize = if n - start >= 500 {
            start + 500
        } else {
            n
        };
        let mut chunk: Vec<Vec<u8>> = Vec::new();
        let mut i: usize = start;
        while i < end
            invariant
                start <= i <= end <= n,
                n == batch@.len(),
                chunk@.len() == i - start,
                forall|k: int| 0 <= k < chunk@.len() ==> (#[trigger] chunk@[k])@ == batch@[start + k].1@.push(10u8),
            decreases end - i,
        {
            let mut data = copy_bytes(&batch[i].1);
            data.push(10u8);
            chunk.push(data);
            i = i + 1;
        }
        let ghost c = r@.len() as int;
        r.push(chunk);
        proof {
            assert(r@[c]@.len() == chunk_len(n as int, c));
        }
        start = end;
    }
    r
}

} // verus!
