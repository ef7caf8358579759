//! Parallel work on a batch: how a batch is cut into partitions for a
//! fixed number of workers, and how the workers' results, each tagged with
//! the place of its partition, come together again in the order of the
//! input whatever the order in which the workers finish.

use vstd::prelude::*;
use vstd::seq_lib::*;
use crate::vectors::reversed;

verus! {

/// The number of workers that a batch is shared among.
pub const WORKERS: usize = 4;

/// Items per partition for a batch of `n`: a quarter of the batch, rounded
/// up, and never less than one.
pub open spec fn chunk_len(n: nat) -> nat {
    if n == 0 {
        1
    } else {
        (n + 3) / 4
    }
}

/// One partition: the items from `start` up to, not including, `end`.
#[derive(Debug, Clone, Copy, PartialEq, Eq, Structural)]
pub struct Chunk {
    pub start: usize,
    pub end: usize,
}

/// `plan` cuts a batch of `n` items into consecutive partitions, none of
/// them empty, each but the last of `chunk_len(n)` items and the last no
/// longer than that.
pub open spec fn is_plan(plan: Seq<Chunk>, n: nat) -> bool {
    &&& plan.len() <= WORKERS
    &&& n == 0 ==> plan.len() == 0
    &&& n > 0 ==> plan.len() > 0 && plan[0].start == 0 && plan.last().end == n
    &&& forall|k: int|
        0 <= k < plan.len() ==> (#[trigger] plan[k]).start < plan[k].end <= plan[k].start
            + chunk_len(n)
    &&& forall|k: int|
        0 <= k < plan.len() - 1 ==> (#[trigger] plan[k]).end == plan[k + 1].start && plan[k].end
            - plan[k].start == chunk_len(n)
}

/// Items per partition for a batch of `n`.
pub fn chunk_size(n: usize) -> (size: usize)
    ensures
        size == chunk_len(n as nat),
{
    if n == 0 {
        1
    } else if n % 4 == 0 {
        n / 4
    } else {
        n / 4 + 1
    }
}

/// Cuts a batch of `n` items into partitions, one for each worker that
/// gets any.
pub fn plan_chunks(n: usize) -> (plan: Vec<Chunk>)
    ensures
        is_plan(plan@, n as nat),
{
    let size = chunk_size(n);
    let mut plan: Vec<Chunk> = Vec::new();
    let mut start: usize = 0;
    assert(0 * size == 0) by (nonlinear_arith);
    while start < n
        invariant
            size == chunk_len(n as nat),
            start <= n,
            start < n ==> start == plan@.len() * size,
            plan@.len() <= WORKERS,
            start < n ==> plan@.len() < WORKERS,
            plan@.len() > 0 ==> plan@[0].start == 0 && plan@.last().end == start,
            plan@.len() == 0 ==> start == 0,
            forall|k: int|
                0 <= k < plan@.len() ==> (#[trigger] plan@[k]).start < plan@[k].end
                    <= plan@[k].start + size,
            forall|k: int|
                0 <= k < plan@.len() - 1 ==> (#[trigger] plan@[k]).end == plan@[k + 1].start
                    && plan@[k].end - plan@[k].start == size,
            forall|k: int|
                0 <= k < plan@.len() && plan@[k].end < n ==> (#[trigger] plan@[k]).end
                    - plan@[k].start == size,
        decreases n - start,
    {
        let end = if n - start <= size {
            n
        } else {
            start + size
        };
        proof {
            let k = plan@.len() as int;
            assert((k + 1) * size == k * size + size) by (nonlinear_arith);
            if end < n {
                assert(k + 1 < 4) by {
                    assert(4 * size >= n);
                    if k + 1 >= 4 {
                        assert((k + 1) * size >= 4 * size) by (nonlinear_arith)
                            requires
                                k + 1 >= 4,
                                size >= 0,
                        ;
                    }
                }
            }
        }
        plan.push(Chunk { start, end });
        start = end;
    }
    plan
}

/// `slots` after the values `items` are written at the places from `start`
/// on. Places that come into being in between stand empty.
pub open spec fn absorbed<T>(slots: Seq<Option<T>>, start: int, items: Seq<Option<T>>) -> Seq<
    Option<T>,
> {
    let len = if items.len() == 0 || start + items.len() <= slots.len() {
        slots.len() as int
    } else {
        start + items.len()
    };
    Seq::new(
        len as nat,
        |i: int|
            if start <= i < start + items.len() {
                items[i - start]
            } else if i < slots.len() {
                slots[i]
            } else {
                None
            },
    )
}

/// `slots` brought to the length `n`: cut off, or filled up with empty
/// places.
pub open spec fn fitted<T>(slots: Seq<Option<T>>, n: nat) -> Seq<Option<T>> {
    Seq::new(
        n,
        |i: int|
            if i < slots.len() {
                slots[i]
            } else {
                None
            },
    )
}

/// The buffer in which the results of the partitions are brought together.
/// It grows to the place that is written.
pub struct ResultBuffer<T> {
    slots: Vec<Option<T>>,
}

impl<T> View for ResultBuffer<T> {
    type V = Seq<Option<T>>;

    closed spec fn view(&self) -> Seq<Option<T>> {
        self.slots@
    }
}

impl<T> ResultBuffer<T> {
    /// A buffer without places.
    pub fn new() -> (buffer: ResultBuffer<T>)
        ensures
            buffer@ == Seq::<Option<T>>::empty(),
    {
        ResultBuffer { slots: Vec::new() }
    }

    /// Writes `value` at `index`.
    pub fn store(&mut self, index: usize, value: Option<T>)
        ensures
            final(self)@ == absorbed(old(self)@, index as int, seq![value]),
    {
        while self.slots.len() <= index
            invariant
                old(self).slots@.len() <= self.slots@.len(),
                self.slots@.len() <= index + 1 || self.slots@ == old(self).slots@,
                forall|i: int| 0 <= i < old(self).slots@.len() ==> self.slots@[i] == old(self).slots@[i],
                forall|i: int| old(self).slots@.len() <= i < self.slots@.len() ==> self.slots@[i].is_none(),
            decreases index + 1 - self.slots@.len(),
        {
            self.slots.push(None);
        }
        self.slots[index] = value;
        assert(self.slots@ =~= absorbed(old(self).slots@, index as int, seq![value]));
    }

    /// Writes the results of one partition, which starts at `start`.
    pub fn absorb(&mut self, start: usize, items: Vec<Option<T>>)
        requires
            start + items@.len() <= usize::MAX,
        ensures
            final(self)@ == absorbed(old(self)@, start as int, items@),
    {
        let ghost given = items@;
        let mut rest = reversed(items);
        let n = rest.len();
        let mut j: usize = 0;
        assert(self.slots@ =~= absorbed(old(self).slots@, start as int, given.take(0)));
        while j < n
            invariant
                j <= n,
                n == given.len(),
                start + n <= usize::MAX,
                rest@ == given.reverse().take(n - j),
                self.slots@ == absorbed(old(self).slots@, start as int, given.take(j as int)),
            decreases n - j,
        {
            proof {
                assert(given.reverse()[n - j - 1] == given[j as int]);
            }
            let item = rest.pop().unwrap();
            let ghost before = self.slots@;
            self.store(start + j, item);
            assert(self.slots@ =~= absorbed(
                old(self).slots@,
                start as int,
                given.take(j + 1),
            ));
            j += 1;
            assert(rest@ =~= given.reverse().take(n - j));
        }
        proof {
            given.lemma_take_len();
        }
    }

    /// Hands the results out as a batch of `n`: what was written at each
    /// place, and nothing where no partition wrote.
    pub fn into_results(self, n: usize) -> (results: Vec<Option<T>>)
        ensures
            results@ == fitted(self@, n as nat),
    {
        let mut results = self.slots;
        results.truncate(n);
        while results.len() < n
            invariant
                results@.len() <= n,
                results@.len() >= self.slots@.len() || results@.len() == n,
                forall|i: int| 0 <= i < results@.len() ==> results@[i] == fitted(self.slots@, n as nat)[i],
            decreases n - results@.len(),
        {
            results.push(None);
        }
        assert(results@ =~= fitted(self.slots@, n as nat));
        results
    }
}

/// The results of one partition as a worker hands them in: the values and
/// the place of the first.
pub struct Delivery<T> {
    pub start: int,
    pub items: Seq<Option<T>>,
}

/// The delivery holds the values that `expected` has from `start` on.
pub open spec fn delivers<T>(d: Delivery<T>, expected: Seq<Option<T>>) -> bool {
    &&& 0 <= d.start
    &&& d.start + d.items.len() <= expected.len()
    &&& d.items == expected.subrange(d.start, d.start + d.items.len())
}

/// The delivery has a value for place `i`.
pub open spec fn covers<T>(d: Delivery<T>, i: int) -> bool {
    d.start <= i < d.start + d.items.len()
}

/// Some delivery has a value for place `i`.
pub open spec fn covered<T>(deliveries: Seq<Delivery<T>>, i: int) -> bool {
    exists|k: int| 0 <= k < deliveries.len() && covers(#[trigger] deliveries[k], i)
}

/// An empty buffer after it absorbed the deliveries one after the other.
pub open spec fn absorb_all<T>(deliveries: Seq<Delivery<T>>) -> Seq<Option<T>>
    decreases deliveries.len(),
{
    if deliveries.len() == 0 {
        Seq::empty()
    } else {
        absorbed(
            absorb_all(deliveries.drop_last()),
            deliveries.last().start,
            deliveries.last().items,
        )
    }
}

/// The delivery that a worker makes for the partition `chunk` when its
/// results are those of `expected`.
pub open spec fn delivery_of<T>(expected: Seq<Option<T>>, chunk: Chunk) -> Delivery<T> {
    Delivery {
        start: chunk.start as int,
        items: expected.subrange(chunk.start as int, chunk.end as int),
    }
}

proof fn lemma_absorb_all<T>(expected: Seq<Option<T>>, deliveries: Seq<Delivery<T>>)
    requires
        forall|k: int| 0 <= k < deliveries.len() ==> delivers(#[trigger] deliveries[k], expected),
    ensures
        absorb_all(deliveries).len() <= expected.len(),
        forall|i: int|
            0 <= i < absorb_all(deliveries).len() ==> #[trigger] absorb_all(deliveries)[i] == if covered(
                deliveries,
                i,
            ) {
                expected[i]
            } else {
                None
            },
        forall|i: int| covered(deliveries, i) ==> 0 <= i < absorb_all(deliveries).len(),
    decreases deliveries.len(),
{
    if deliveries.len() > 0 {
        let before = deliveries.drop_last();
        let last = deliveries.last();
        assert forall|k: int| 0 <= k < before.len() implies delivers(
            #[trigger] before[k],
            expected,
        ) by {
            assert(before[k] == deliveries[k]);
        }
        lemma_absorb_all(expected, before);
        assert(delivers(last, expected));
        let all = absorb_all(deliveries);
        assert forall|i: int| covered(deliveries, i) <==> (covered(before, i) || covers(last, i)) by {
            if covered(deliveries, i) {
                let k = choose|k: int| 0 <= k < deliveries.len() && covers(#[trigger] deliveries[k], i);
                if k < before.len() {
                    assert(covers(before[k], i));
                }
            }
            if covered(before, i) {
                let k = choose|k: int| 0 <= k < before.len() && covers(#[trigger] before[k], i);
                assert(covers(deliveries[k], i));
            }
            if covers(last, i) {
                assert(covers(deliveries[deliveries.len() - 1], i));
            }
        }
        assert forall|i: int| 0 <= i < all.len() implies #[trigger] all[i] == if covered(
            deliveries,
            i,
        ) {
            expected[i]
        } else {
            None
        } by {
            assert(covered(deliveries, i) <==> (covered(before, i) || covers(last, i)));
        }
        assert forall|i: int| covered(deliveries, i) implies 0 <= i < all.len() by {
            assert(covered(deliveries, i) <==> (covered(before, i) || covers(last, i)));
        }
    } else {
        assert forall|i: int| !covered(deliveries, i) by {}
    }
}

/// Whatever the order in which the partitions' results come in, the batch
/// that is handed out holds at every place the value that was computed for
/// that place, and nothing at the places of a partition that never came in.
pub proof fn lemma_reassembly_keeps_order<T>(
    expected: Seq<Option<T>>,
    deliveries: Seq<Delivery<T>>,
)
    requires
        forall|k: int| 0 <= k < deliveries.len() ==> delivers(#[trigger] deliveries[k], expected),
    ensures
        fitted(absorb_all(deliveries), expected.len()).len() == expected.len(),
        forall|i: int|
            0 <= i < expected.len() ==> #[trigger] fitted(absorb_all(deliveries), expected.len())[i]
                == if covered(deliveries, i) {
                expected[i]
            } else {
                None
            },
{
    lemma_absorb_all(expected, deliveries);
}

/// Every item of a batch lies in one partition of its plan.
pub proof fn lemma_plan_covers(plan: Seq<Chunk>, n: nat, i: int)
    requires
        is_plan(plan, n),
        0 <= i < n,
    ensures
        exists|k: int| 0 <= k < plan.len() && (#[trigger] plan[k]).start <= i < plan[k].end,
{
    lemma_plan_covers_from(plan, n, i, 0);
}

proof fn lemma_plan_covers_from(plan: Seq<Chunk>, n: nat, i: int, from: int)
    requires
        is_plan(plan, n),
        0 <= i < n,
        0 <= from < plan.len(),
        plan[from].start <= i,
    ensures
        exists|k: int| 0 <= k < plan.len() && (#[trigger] plan[k]).start <= i < plan[k].end,
    decreases plan.len() - from,
{
    if i < plan[from].end {
    } else {
        assert(from < plan.len() - 1);
        lemma_plan_covers_from(plan, n, i, from + 1);
    }
}

/// When the results of every partition of the plan have come in, in
/// whatever order and however often, the batch handed out is the batch
/// expected.
pub proof fn lemma_full_reassembly<T>(
    expected: Seq<Option<T>>,
    plan: Seq<Chunk>,
    order: Seq<int>,
)
    requires
        is_plan(plan, expected.len()),
        forall|j: int| 0 <= j < order.len() ==> 0 <= #[trigger] order[j] < plan.len(),
        forall|k: int| 0 <= k < plan.len() ==> order.contains(k),
    ensures
        fitted(
            absorb_all(order.map_values(|k: int| delivery_of(expected, plan[k]))),
            expected.len(),
        ) == expected,
{
    let deliveries = order.map_values(|k: int| delivery_of(expected, plan[k]));
    let n = expected.len();
    assert forall|j: int| 0 <= j < deliveries.len() implies delivers(
        #[trigger] deliveries[j],
        expected,
    ) by {
        lemma_chunk_in_batch(plan, n, order[j]);
    }
    lemma_reassembly_keeps_order(expected, deliveries);
    let out = fitted(absorb_all(deliveries), n);
    assert forall|i: int| 0 <= i < n implies out[i] == expected[i] by {
        lemma_plan_covers(plan, n, i);
        let k = choose|k: int| 0 <= k < plan.len() && (#[trigger] plan[k]).start <= i < plan[k].end;
        assert(order.contains(k));
        let j = choose|j: int| 0 <= j < order.len() && order[j] == k;
        lemma_chunk_in_batch(plan, n, k);
        assert(covers(deliveries[j], i));
    }
    assert(out =~= expected);
}

/// No partition of a plan reaches past the batch.
pub proof fn lemma_chunk_in_batch(plan: Seq<Chunk>, n: nat, k: int)
    requires
        is_plan(plan, n),
        0 <= k < plan.len(),
    ensures
        plan[k].start < plan[k].end <= n,
    decreases plan.len() - k,
{
    if k < plan.len() - 1 {
        lemma_chunk_in_batch(plan, n, k + 1);
    }
}

} // verus!
