//! The batch pipeline: orders source items newest first, applies an
//! optional processing limit, and keeps a per-item report in which one
//! item's failure never touches another item's outcome.
//!
//! Resolving, downloading and transcribing are outside work; the caller
//! performs them one item at a time and records each item's outcome here.

use vstd::prelude::*;
use vstd::multiset::Multiset;

use crate::errors::PipelineError;

verus! {

/// One transcribable unit: a podcast episode or a video.
#[derive(Debug, Clone)]
pub struct SourceItem {
    /// The item's title, as the resolver delivered it.
    pub title: String,
    /// Where the raw audio lives: a URL or a local path.
    pub audio_location: String,
    /// Publish instant as seconds since the Unix epoch, if known.
    pub published_at: Option<i64>,
}

/// The ordering key of an item: its publish instant; items without one sort
/// as the minimum instant, hence last.
pub open spec fn item_key(it: SourceItem) -> int {
    match it.published_at {
        Some(t) => t as int,
        None => i64::MIN as int,
    }
}

fn item_key_exec(it: &SourceItem) -> (k: i64)
    ensures
        k as int == item_key(*it),
{
    match it.published_at {
        Some(t) => t,
        None => i64::MIN,
    }
}

/// Newest first: keys never increase along the sequence.
pub open spec fn sorted_newest_first(s: Seq<SourceItem>) -> bool {
    forall|a: int, b: int| 0 <= a <= b < s.len() ==> item_key(#[trigger] s[a]) >= item_key(
        #[trigger] s[b],
    )
}

/// Strictly newest first: all keys distinct and decreasing.
pub open spec fn strictly_newest_first(s: Seq<SourceItem>) -> bool {
    forall|a: int, b: int| 0 <= a < b < s.len() ==> item_key(#[trigger] s[a]) > item_key(
        #[trigger] s[b],
    )
}

/// Sorts the items newest first (a permutation of the input; items without
/// a publish instant come last).
pub fn order_newest_first(items: Vec<SourceItem>) -> (r: Vec<SourceItem>)
    ensures
        sorted_newest_first(r@),
        r@.to_multiset() == items@.to_multiset(),
{
    broadcast use vstd::seq_lib::group_to_multiset_ensures;

    let mut input = items;
    let mut out: Vec<SourceItem> = Vec::new();
    proof {
        assert(out@.to_multiset().add(input@.to_multiset()) =~= items@.to_multiset());
    }
    while input.len() > 0
        invariant
            sorted_newest_first(out@),
            out@.to_multiset().add(input@.to_multiset()) == items@.to_multiset(),
            forall|a: int, b: int|
                0 <= a < out@.len() && 0 <= b < input@.len() ==> item_key(#[trigger] out@[a])
                    >= item_key(#[trigger] input@[b]),
        decreases input@.len(),
    {
        // select the newest remaining item
        let mut best: usize = 0;
        let mut k: usize = 1;
        while k < input.len()
            invariant
                input@.len() > 0,
                best < k,
                k <= input@.len(),
                forall|j: int|
                    0 <= j < k ==> item_key(input@[best as int]) >= item_key(#[trigger] input@[j]),
            decreases input@.len() - k,
        {
            if item_key_exec(&input[k]) > item_key_exec(&input[best]) {
                best = k;
            }
            k = k + 1;
        }
        let ghost old_out = out@;
        let ghost old_input = input@;
        let picked = input.remove(best);
        out.push(picked);
        proof {
            old_out.to_multiset_ensures();
            old_input.to_multiset_ensures();
            assert(out@ == old_out.push(picked));
            assert(input@ == old_input.remove(best as int));
            assert(old_out.push(picked).to_multiset() =~= old_out.to_multiset().insert(picked));
            assert(old_input.remove(best as int).to_multiset() =~= old_input.to_multiset().remove(
                old_input[best as int],
            ));
            assert(picked == old_input[best as int]);
            assert(out@.to_multiset() =~= old_out.to_multiset().insert(picked));
            assert(input@.to_multiset() =~= old_input.to_multiset().remove(picked));
            assert(old_input.to_multiset().count(picked) > 0);
            assert(out@.to_multiset().add(input@.to_multiset()) =~= old_out.to_multiset().add(
                old_input.to_multiset(),
            ));
            assert forall|a: int, b: int|
                0 <= a <= b < out@.len() implies item_key(out@[a]) >= item_key(out@[b]) by {
                if b < old_out.len() {
                } else {
                    assert(out@[b] == picked);
                    if a < old_out.len() {
                        assert(item_key(old_out[a]) >= item_key(old_input[best as int]));
                    }
                }
            }
            assert forall|a: int, b: int|
                0 <= a < out@.len() && 0 <= b < input@.len() implies item_key(out@[a]) >= item_key(
                input@[b],
            ) by {
                assert(input@[b] == if b < best { old_input[b] } else {
                    old_input[b + 1]
                });
                if a < old_out.len() {
                } else {
                    assert(out@[a] == picked);
                }
            }
        }
    }
    proof {
        assert(input@.to_multiset() =~= Multiset::<SourceItem>::empty());
        assert(out@.to_multiset() =~= items@.to_multiset());
    }
    out
}

/// Truncates the batch to the first `limit` items when a limit is set and
/// the batch exceeds it.
pub fn apply_limit(items: Vec<SourceItem>, limit: Option<usize>) -> (r: Vec<SourceItem>)
    ensures
        match limit {
            Some(l) => r@ == items@.take(if l < items@.len() {
                l as int
            } else {
                items@.len() as int
            }),
            None => r@ == items@,
        },
{
    let mut v = items;
    match limit {
        Some(l) => {
            if l < v.len() {
                v.truncate(l);
            } else {
                proof {
                    assert(v@.take(v@.len() as int) =~= v@);
                }
            }
            v
        },
        None => v,
    }
}

/// A newest-first ordering of a strictly newest-first batch is the batch
/// itself: sorting cannot reorder items with distinct publish instants, so
/// with a limit of `l` exactly the `l` newest items are kept.
pub proof fn lemma_order_unique(items: Seq<SourceItem>, s: Seq<SourceItem>)
    requires
        strictly_newest_first(items),
        sorted_newest_first(s),
        s.to_multiset() == items.to_multiset(),
    ensures
        s == items,
    decreases items.len(),
{
    broadcast use vstd::seq_lib::group_to_multiset_ensures;

    assert(s.len() == items.len()) by {
        assert(s.to_multiset().len() == s.len());
        assert(items.to_multiset().len() == items.len());
    }
    if items.len() == 0 {
        assert(s =~= items);
    } else {
        let h = items[0];
        assert(items.contains(h));
        assert(items.to_multiset().count(h) > 0);
        assert(s.to_multiset().count(h) > 0);
        assert(s.contains(h));
        let k = choose|k: int| 0 <= k < s.len() && s[k] == h;
        assert(item_key(s[0]) >= item_key(s[k]));
        let h2 = s[0];
        assert(s.contains(h2));
        assert(s.to_multiset().count(h2) > 0);
        assert(items.contains(h2));
        let k2 = choose|k2: int| 0 <= k2 < items.len() && items[k2] == h2;
        assert(item_key(items[0]) >= item_key(items[k2]));
        assert(item_key(s[0]) == item_key(items[0]));
        // distinct keys force the head to sit at the front
        if k2 != 0 {
            assert(item_key(items[0]) > item_key(items[k2]));
            assert(false);
        }
        assert(s[0] == items[0]);
        let st = s.drop_first();
        let it = items.drop_first();
        assert(s.remove(0) =~= st);
        assert(items.remove(0) =~= it);
        assert(st.to_multiset() =~= s.to_multiset().remove(s[0]));
        assert(it.to_multiset() =~= items.to_multiset().remove(items[0]));
        assert(st.to_multiset() == it.to_multiset());
        assert(strictly_newest_first(it)) by {
            assert(forall|a: int, b: int|
                0 <= a < b < it.len() ==> item_key(#[trigger] it[a]) == item_key(items[a + 1])
                    && item_key(#[trigger] it[b]) == item_key(items[b + 1]));
        }
        assert(sorted_newest_first(st)) by {
            assert(forall|a: int, b: int|
                0 <= a <= b < st.len() ==> item_key(#[trigger] st[a]) == item_key(s[a + 1])
                    && item_key(#[trigger] st[b]) == item_key(s[b + 1]));
        }
        lemma_order_unique(it, st);
        assert(s =~= items) by {
            assert(forall|j: int| 1 <= j < s.len() ==> #[trigger] s[j] == st[j - 1]);
            assert(forall|j: int| 1 <= j < items.len() ==> #[trigger] items[j] == it[j - 1]);
        }
    }
}

/// How one item of the batch turned out.
#[derive(Debug, Clone, PartialEq, Eq)]
pub enum ItemOutcome {
    /// The item's transcript was written.
    Succeeded,
    /// The item was skipped after this failure; the batch went on.
    Failed { error: PipelineError },
}

/// The running state of one batch: how many items it holds and the
/// outcomes recorded so far, one per processed item, in batch order.
pub struct BatchRun {
    /// Number of items the batch set out to process.
    pub total: usize,
    /// Outcome of each item processed so far.
    pub completed: Vec<ItemOutcome>,
}

/// The report never holds more outcomes than the batch has items.
pub open spec fn batch_run_wf(b: BatchRun) -> bool {
    b.completed@.len() <= b.total
}

/// Starts a batch of `total` items with an empty report.
pub fn batch_start(total: usize) -> (b: BatchRun)
    ensures
        batch_run_wf(b),
        b.total == total,
        b.completed@.len() == 0,
{
    BatchRun { total, completed: Vec::new() }
}

/// Records the outcome of the next item. A failure is recorded exactly as a
/// success is: the batch is never aborted and no earlier outcome changes.
pub fn batch_record(run: &mut BatchRun, outcome: ItemOutcome)
    requires
        batch_run_wf(*old(run)),
        old(run).completed@.len() < old(run).total,
    ensures
        batch_run_wf(*final(run)),
        final(run).total == old(run).total,
        final(run).completed@ == old(run).completed@.push(outcome),
{
    run.completed.push(outcome);
}

/// Whether every item of the batch has an outcome.
pub fn batch_finished(run: &BatchRun) -> (b: bool)
    ensures
        b == (run.completed@.len() == run.total),
{
    run.completed.len() == run.total
}

/// How many of the outcomes are successes.
pub open spec fn success_count_spec(s: Seq<ItemOutcome>) -> int
    decreases s.len(),
{
    if s.len() == 0 {
        0
    } else {
        success_count_spec(s.drop_last()) + if s.last() is Succeeded {
            1int
        } else {
            0int
        }
    }
}

/// Counts the items reported as succeeded.
pub fn batch_success_count(run: &BatchRun) -> (n: usize)
    ensures
        n == success_count_spec(run.completed@),
{
    let mut n: usize = 0;
    let mut i: usize = 0;
    proof {
        assert(run.completed@.take(0) =~= Seq::<ItemOutcome>::empty());
    }
    while i < run.completed.len()
        invariant
            i <= run.completed@.len(),
            n <= i,
            n == success_count_spec(run.completed@.take(i as int)),
        decreases run.completed@.len() - i,
    {
        proof {
            assert(run.completed@.take(i + 1).drop_last() =~= run.completed@.take(i as int));
            assert(run.completed@.take(i + 1).last() == run.completed@[i as int]);
        }
        match run.completed[i] {
            ItemOutcome::Succeeded => {
                n = n + 1;
            },
            ItemOutcome::Failed { .. } => {},
        }
        i = i + 1;
    }
    proof {
        assert(run.completed@.take(i as int) =~= run.completed@);
    }
    n
}

/// A failure is contained to its own item: if one item fails where it would
/// have succeeded and every other item turns out the same, only that item's
/// accounting changes.
pub proof fn lemma_failure_isolated(a: Seq<ItemOutcome>, b: Seq<ItemOutcome>, j: int)
    requires
        a.len() == b.len(),
        0 <= j < a.len(),
        forall|k: int| 0 <= k < a.len() && k != j ==> a[k] == b[k],
        a[j] is Succeeded,
        b[j] is Failed,
    ensures
        success_count_spec(b) == success_count_spec(a) - 1,
    decreases a.len(),
{
    if j == a.len() - 1 {
        lemma_success_count_same(a.drop_last(), b.drop_last());
    } else {
        assert(a.drop_last()[j] == a[j]);
        assert(b.drop_last()[j] == b[j]);
        lemma_failure_isolated(a.drop_last(), b.drop_last(), j);
        assert(a.last() == b.last());
    }
}

proof fn lemma_success_count_same(a: Seq<ItemOutcome>, b: Seq<ItemOutcome>)
    requires
        a.len() == b.len(),
        forall|k: int| 0 <= k < a.len() ==> a[k] == b[k],
    ensures
        success_count_spec(a) == success_count_spec(b),
    decreases a.len(),
{
    if a.len() > 0 {
        lemma_success_count_same(a.drop_last(), b.drop_last());
    }
}

} // verus!
