//! The batch runner: it deals the records out to workers, lets each worker
//! process its own queue in order with its own event store, and gathers
//! the account tables worker by worker.

use crate::csv::CsvPaymentRecord;
use crate::payments::{Payments, PaymentsState};
use crate::query::account::{rows_of, AccountRow, AccountView};
use crate::router::{partition, queue_of};
use vstd::prelude::*;

verus! {

/// The account table of one worker after its queue.
pub open spec fn worker_table(records: Seq<CsvPaymentRecord>, partition_count: u32, worker: int)
    -> Seq<AccountRow> {
    PaymentsState::initial().run(queue_of(records, partition_count, worker)).table()
}

/// The account tables of the first workers, one after the other.
pub open spec fn batch_table(records: Seq<CsvPaymentRecord>, partition_count: u32, workers: int)
    -> Seq<AccountRow>
    decreases workers,
{
    if workers <= 0 {
        Seq::empty()
    } else {
        batch_table(records, partition_count, workers - 1) + worker_table(
            records,
            partition_count,
            workers - 1,
        )
    }
}

/// Runs a batch of records over a number of workers and gathers the
/// account table. The rows of one worker stand together, in the order in
/// which that worker first saw each client.
pub fn process(records: &Vec<CsvPaymentRecord>, partition_count: u32) -> (rows: Vec<AccountView>)
    requires
        partition_count > 0,
    ensures
        rows_of(rows@) == batch_table(records@, partition_count, partition_count as int),
        forall|i: int|
            0 <= i < rows.len() ==> (#[trigger] rows[i])@.balanced() && rows[i]@.held.units() >= 0
                && rows[i]@.available.units() >= 0,
{
    let queues = partition(records, partition_count);
    let mut rows: Vec<AccountView> = Vec::new();
    let mut w: usize = 0;
    proof {
        assert(rows_of(rows@) =~= batch_table(records@, partition_count, 0));
    }
    while w < queues.len()
        invariant
            w <= queues.len(),
            queues.len() == partition_count,
            forall|k: int|
                0 <= k < partition_count ==> (#[trigger] queues[k])@ == queue_of(
                    records@,
                    partition_count,
                    k,
                ),
            rows_of(rows@) == batch_table(records@, partition_count, w as int),
            forall|i: int|
                0 <= i < rows.len() ==> (#[trigger] rows[i])@.balanced() && rows[i]@.held.units()
                    >= 0 && rows[i]@.available.units() >= 0,
        decreases queues.len() - w,
    {
        let mut worker = Payments::new();
        worker.process_all(&queues[w]);
        let mut table = worker.accounts();
        let ghost before = rows@;
        let ghost added = table@;
        rows.append(&mut table);
        proof {
            assert(rows_of(before + added) =~= rows_of(before) + rows_of(added));
        }
        w += 1;
    }
    rows
}

} // verus!
