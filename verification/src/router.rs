//! The partition router: every client is served by one worker, chosen by
//! a hash of the client's identifier.

use crate::csv::CsvPaymentRecord;
use vstd::prelude::*;
use vstd::utf8::encode_utf8;

verus! {

/// What `murmur2::murmur2` computes of these bytes with the seed
/// `murmur2::KAFKA_SEED`.
pub uninterp spec fn murmur2_kafka(data: Seq<u8>) -> u32;

/// `murmur2::murmur2`, called with `murmur2::KAFKA_SEED`. Claimed of it:
/// the hash depends on the bytes alone.
#[verifier::external_body]
fn murmur2_with_kafka_seed(data: &[u8]) -> (r: u32)
    ensures
        r == murmur2_kafka(data@),
{
    murmur2::murmur2(data, murmur2::KAFKA_SEED)
}

/// The worker that serves a client: the hash of the client's identifier,
/// taken modulo the number of workers.
pub open spec fn worker_index(partition_count: u32, client_id: Seq<char>) -> int
    recommends
        partition_count > 0,
{
    (murmur2_kafka(encode_utf8(client_id)) % partition_count) as int
}

/// Where a record goes: to its client's worker, or nowhere where it names
/// no client.
pub open spec fn destination(partition_count: u32, record: CsvPaymentRecord) -> Option<int> {
    if record.client_id@.len() == 0 {
        None
    } else {
        Some(worker_index(partition_count, record.client_id@))
    }
}

/// The test of whether a record goes to a worker.
pub open spec fn goes_to(partition_count: u32, worker: int) -> spec_fn(CsvPaymentRecord) -> bool {
    |record: CsvPaymentRecord| destination(partition_count, record) == Some(worker)
}

/// The records a worker receives, in the order they were read.
pub open spec fn queue_of(records: Seq<CsvPaymentRecord>, partition_count: u32, worker: int) -> Seq<
    CsvPaymentRecord,
> {
    records.filter(goes_to(partition_count, worker))
}

/// The test of whether a record is a client's.
pub open spec fn of_client(client_id: Seq<char>) -> spec_fn(CsvPaymentRecord) -> bool {
    |record: CsvPaymentRecord| record.client_id@ == client_id
}

/// All the records of a client go to the client's worker, in the order
/// they were read, and none of them goes to another worker.
pub proof fn lemma_client_stays_together(
    records: Seq<CsvPaymentRecord>,
    partition_count: u32,
    client_id: Seq<char>,
    worker: int,
)
    requires
        client_id.len() > 0,
    ensures
        worker == worker_index(partition_count, client_id) ==> queue_of(
            records,
            partition_count,
            worker,
        ).filter(of_client(client_id)) == records.filter(of_client(client_id)),
        worker != worker_index(partition_count, client_id) ==> queue_of(
            records,
            partition_count,
            worker,
        ).filter(of_client(client_id)).len() == 0,
    decreases records.len(),
{
    reveal(Seq::filter);
    if records.len() > 0 {
        let shorter = records.drop_last();
        let last = records.last();
        lemma_client_stays_together(shorter, partition_count, client_id, worker);
        assert(shorter.push(last) =~= records);
        shorter.lemma_filter_push(last, goes_to(partition_count, worker));
        shorter.lemma_filter_push(last, of_client(client_id));
        queue_of(shorter, partition_count, worker).lemma_filter_push(last, of_client(client_id));
    }
}

/// The worker that serves a client. It depends on the client's identifier
/// and the number of workers alone.
pub fn get_channel_by_client_id(partition_count: u32, client_id: &str) -> (r: usize)
    requires
        partition_count > 0,
    ensures
        r == worker_index(partition_count, client_id@),
        r < partition_count,
{
    (murmur2_with_kafka_seed(client_id.as_bytes()) % partition_count) as usize
}

/// Where a record goes: to its client's worker, or nowhere where it names
/// no client.
pub fn route(partition_count: u32, record: &CsvPaymentRecord) -> (r: Option<usize>)
    requires
        partition_count > 0,
    ensures
        match r {
            Some(worker) => destination(partition_count, *record) == Some(worker as int) && worker
                < partition_count,
            None => destination(partition_count, *record) is None,
        },
{
    if record.client_id.as_str().is_empty() {
        None
    } else {
        Some(get_channel_by_client_id(partition_count, record.client_id.as_str()))
    }
}

/// Deals the records out to the workers' queues. Each queue keeps its
/// records in the order they were read; records without a client are
/// left out.
pub fn partition(records: &Vec<CsvPaymentRecord>, partition_count: u32) -> (queues: Vec<
    Vec<CsvPaymentRecord>,
>)
    requires
        partition_count > 0,
    ensures
        queues.len() == partition_count,
        forall|w: int|
            0 <= w < partition_count ==> (#[trigger] queues[w])@ == queue_of(
                records@,
                partition_count,
                w,
            ),
{
    let mut queues: Vec<Vec<CsvPaymentRecord>> = Vec::new();
    let mut w: u32 = 0;
    proof {
        reveal(Seq::filter);
    }
    while w < partition_count
        invariant
            w <= partition_count,
            queues.len() == w,
            forall|k: int|
                0 <= k < w ==> (#[trigger] queues[k])@ == queue_of(
                    records@.take(0),
                    partition_count,
                    k,
                ),
        decreases partition_count - w,
    {
        queues.push(Vec::new());
        w += 1;
    }
    let mut i: usize = 0;
    while i < records.len()
        invariant
            partition_count > 0,
            i <= records.len(),
            queues.len() == partition_count,
            forall|k: int|
                0 <= k < partition_count ==> (#[trigger] queues[k])@ == queue_of(
                    records@.take(i as int),
                    partition_count,
                    k,
                ),
        decreases records.len() - i,
    {
        let ghost before = queues@;
        proof {
            assert(records@.take(i + 1) =~= records@.take(i as int).push(records@[i as int]));
            assert forall|k: int| 0 <= k < partition_count implies queue_of(
                records@.take(i + 1),
                partition_count,
                k,
            ) == (if destination(partition_count, records@[i as int]) == Some(k) {
                queue_of(records@.take(i as int), partition_count, k).push(records@[i as int])
            } else {
                queue_of(records@.take(i as int), partition_count, k)
            }) by {
                records@.take(i as int).lemma_filter_push(
                    records@[i as int],
                    goes_to(partition_count, k),
                );
            }
        }
        match route(partition_count, &records[i]) {
            Some(worker) => {
                let record = records[i].clone();
                let queue = &mut queues[worker];
                queue.push(record);
                assert(forall|k: int|
                    0 <= k < partition_count && k != worker ==> (#[trigger] queues[k])
                        == before[k]);
            },
            None => {},
        }
        i += 1;
    }
    proof {
        assert(records@.take(records@.len() as int) =~= records@);
    }
    queues
}

} // verus!
