//! How the render is scheduled: how many worker threads to run and in which
//! order the image rows are handed out to them.
//!
//! The image is written top to bottom, which is row `height - 1` first (the
//! image-space `y` axis points up). The dispatcher hands each worker a pair of
//! a running dispatch index and the image row it stands for; the dispatch
//! index is what the reorder buffer later sorts by.

use vstd::prelude::*;

verus! {

/// How many worker threads a render should use on a machine with `cpus`
/// CPUs: all but one, and at least one.
pub fn worker_count(cpus: usize) -> (n: usize)
    ensures
        cpus <= 1 ==> n == 1,
        cpus > 1 ==> n == cpus - 1,
{
    match cpus {
        0..=1 => 1,
        n => n - 1,
    }
}

/// Relies on `num_cpus::get` for the number of available CPUs. The result
/// depends on the machine, so nothing is promised of it; `worker_count`
/// yields a usable count for every value.
#[verifier::external_body]
fn cpu_count() -> usize {
    ::num_cpus::get()
}

/// The worker count for the machine this runs on: one fewer than its CPU
/// count, and at least one.
pub fn available_worker_count() -> (n: usize)
    ensures
        n >= 1,
{
    worker_count(cpu_count())
}

/// The order in which image rows are dispatched: row `height - 1` down to
/// row `0`, so that the image is rendered top to bottom. The position of a
/// row in this sequence is its dispatch index.
pub fn dispatch_order(height: usize) -> (rows: Vec<usize>)
    ensures
        rows@.len() == height,
        forall|k: int| 0 <= k < height ==> rows@[k] == height - 1 - k,
{
    let mut rows: Vec<usize> = Vec::with_capacity(height);
    let mut j: usize = height;
    while j > 0
        invariant
            j <= height,
            rows@.len() == height - j,
            forall|k: int| 0 <= k < rows@.len() ==> rows@[k] == height - 1 - k,
        decreases j,
    {
        j = j - 1;
        rows.push(j);
    }
    rows
}

/// Law: rows released in dispatch order leave the image top to bottom.
/// The `k`-th dispatched row is image row `height - 1 - k`, so when rows
/// are released in ascending dispatch order, each released image row is
/// exactly one below the previous — the order a single-threaded render
/// writes.
pub proof fn lemma_dispatch_order_is_top_to_bottom(height: int, image_rows: Seq<int>)
    requires
        forall|k: int| 0 <= k < image_rows.len() ==> image_rows[k] == height - 1 - k,
    ensures
        forall|k: int| 0 <= k && k + 1 < image_rows.len() ==> image_rows[k + 1] == #[trigger] image_rows[k] - 1,
{
    assert forall|k: int| 0 <= k && k + 1 < image_rows.len() implies image_rows[k + 1]
        == #[trigger] image_rows[k] - 1 by {
        assert(image_rows[k] == height - 1 - k);
        assert(image_rows[k + 1] == height - 1 - (k + 1));
    }
}

} // verus!
