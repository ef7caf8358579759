//! The order in which an import hands its records back: most recently
//! taken first, records without a capture date last, and among records
//! taken at the same instant the one catalogued later first.

use vstd::prelude::*;
use vstd::seq_lib::*;
use crate::vectors::reversed;
use crate::media::{MediaRecord, Timestamp};

verus! {

/// What a record is ordered by.
pub struct RecencyKey {
    pub taken: Option<Timestamp>,
    pub created: Timestamp,
}

pub open spec fn recency_key(r: MediaRecord) -> RecencyKey {
    RecencyKey { taken: r.taken_date, created: r.created_at }
}

/// An absent date is earlier than every date.
pub open spec fn date_before(a: Option<Timestamp>, b: Option<Timestamp>) -> bool {
    match (a, b) {
        (None, None) => false,
        (None, Some(_)) => true,
        (Some(_), None) => false,
        (Some(x), Some(y)) => x.before(y),
    }
}

/// `a` is less recent than `b`: taken earlier, or taken at the same instant
/// (or both undated) and catalogued earlier.
pub open spec fn less_recent(a: RecencyKey, b: RecencyKey) -> bool {
    date_before(a.taken, b.taken) || (a.taken == b.taken && a.created.before(b.created))
}

/// No record is followed by a more recent one.
pub open spec fn ordered_by_recency(s: Seq<MediaRecord>) -> bool {
    forall|i: int, j: int|
        0 <= i < j < s.len() ==> !less_recent(recency_key(#[trigger] s[i]), recency_key(#[trigger] s[j]))
}

/// The records of `s` whose key is `k`, in the order in which `s` holds them.
pub open spec fn with_key(s: Seq<MediaRecord>, k: RecencyKey) -> Seq<MediaRecord> {
    s.filter(|r: MediaRecord| recency_key(r) == k)
}

/// `sorted` is `given` put in order of recency by a stable sort: it is
/// ordered, and for each key it holds the very records that `given` holds
/// with that key, in the same order. So it is a rearrangement of `given`
/// in which records of equal recency keep their places among themselves.
pub open spec fn is_recency_sort_of(sorted: Seq<MediaRecord>, given: Seq<MediaRecord>) -> bool {
    &&& ordered_by_recency(sorted)
    &&& forall|k: RecencyKey| #[trigger] with_key(sorted, k) == with_key(given, k)
    &&& sorted.to_multiset() == given.to_multiset()
    &&& sorted.len() == given.len()
}

fn date_is_before(a: &Option<Timestamp>, b: &Option<Timestamp>) -> (r: bool)
    ensures
        r == date_before(*a, *b),
{
    match (a, b) {
        (None, None) => false,
        (None, Some(_)) => true,
        (Some(_), None) => false,
        (Some(x), Some(y)) => x.is_before(y),
    }
}

fn same_date(a: &Option<Timestamp>, b: &Option<Timestamp>) -> (r: bool)
    ensures
        r == (*a == *b),
{
    match (a, b) {
        (None, None) => true,
        (Some(x), Some(y)) => x.secs == y.secs && x.nanos == y.nanos,
        _ => false,
    }
}

/// Whether `a` is less recent than `b`.
pub fn is_less_recent(a: &MediaRecord, b: &MediaRecord) -> (r: bool)
    ensures
        r == less_recent(recency_key(*a), recency_key(*b)),
{
    date_is_before(&a.taken_date, &b.taken_date) || (same_date(&a.taken_date, &b.taken_date)
        && a.created_at.is_before(&b.created_at))
}

proof fn lemma_with_key_concat(a: Seq<MediaRecord>, b: Seq<MediaRecord>, k: RecencyKey)
    ensures
        with_key(a + b, k) == with_key(a, k) + with_key(b, k),
{
    Seq::filter_distributes_over_add(a, b, |r: MediaRecord| recency_key(r) == k);
}

proof fn lemma_with_key_absent(a: Seq<MediaRecord>, k: RecencyKey)
    requires
        forall|i: int| 0 <= i < a.len() ==> recency_key(#[trigger] a[i]) != k,
    ensures
        with_key(a, k) == Seq::<MediaRecord>::empty(),
{
    let pred = |r: MediaRecord| recency_key(r) == k;
    assert(a.all(|r: MediaRecord| !pred(r)));
    a.lemma_all_neg_filter_empty(pred);
    assert(with_key(a, k) =~= Seq::<MediaRecord>::empty());
}

proof fn lemma_with_key_single(x: MediaRecord, k: RecencyKey)
    ensures
        with_key(seq![x], k) == if recency_key(x) == k {
            seq![x]
        } else {
            Seq::<MediaRecord>::empty()
        },
{
    let pred = |r: MediaRecord| recency_key(r) == k;
    let e = Seq::<MediaRecord>::empty();
    assert(e.filter(pred) =~= e) by {
        reveal(Seq::filter);
    }
    e.lemma_filter_push(x, pred);
    assert(e.push(x) =~= seq![x]);
}

proof fn lemma_not_less_chain(a: RecencyKey, b: RecencyKey, c: RecencyKey)
    requires
        !less_recent(a, b),
        !less_recent(b, c),
    ensures
        !less_recent(a, c),
{
}

proof fn lemma_less_below(a: RecencyKey, lower: RecencyKey, b: RecencyKey)
    requires
        less_recent(a, b),
        !less_recent(a, lower),
    ensures
        less_recent(lower, b),
{
}

/// Puts `x` behind the records of `sorted`, none of which is less recent
/// than it, where `sorted` is `a + b` in order and no record of `b` has the
/// key of `x`.
proof fn lemma_place_at_end(
    sorted: Seq<MediaRecord>,
    a: Seq<MediaRecord>,
    b: Seq<MediaRecord>,
    x: MediaRecord,
)
    requires
        is_recency_sort_of(sorted, a + b),
        forall|i: int|
            0 <= i < sorted.len() ==> !less_recent(recency_key(#[trigger] sorted[i]), recency_key(x)),
        forall|i: int| 0 <= i < b.len() ==> recency_key(#[trigger] b[i]) != recency_key(x),
    ensures
        is_recency_sort_of(sorted.push(x), a.push(x) + b),
{
    let after = sorted.push(x);
    let given = a.push(x) + b;
    assert(after =~= sorted + seq![x]);
    assert(a.push(x) =~= a + seq![x]);
    assert forall|k: RecencyKey| #[trigger] with_key(after, k) == with_key(given, k) by {
        lemma_with_key_concat(sorted, seq![x], k);
        lemma_with_key_concat(a, b, k);
        lemma_with_key_concat(a, seq![x], k);
        lemma_with_key_concat(a + seq![x], b, k);
        lemma_with_key_single(x, k);
        assert(with_key(sorted, k) == with_key(a + b, k));
        if recency_key(x) == k {
            lemma_with_key_absent(b, k);
            assert(with_key(after, k) =~= with_key(a, k) + seq![x]);
            assert(with_key(given, k) =~= with_key(a, k) + seq![x]);
        } else {
            assert(with_key(after, k) =~= with_key(a, k) + with_key(b, k));
            assert(with_key(given, k) =~= with_key(a, k) + with_key(b, k));
        }
    }
    assert(after.to_multiset() == given.to_multiset()) by {
        to_multiset_build(sorted, x);
        to_multiset_insert(a + b, a.len() as int, x);
        assert((a + b).insert(a.len() as int, x) =~= given);
    }
}

/// Merges two sequences that are in order into one. Where a record of
/// `left` and one of `right` are of equal recency, the one of `left` comes
/// first.
fn merge_by_recency(left: Vec<MediaRecord>, right: Vec<MediaRecord>) -> (merged: Vec<MediaRecord>)
    requires
        ordered_by_recency(left@),
        ordered_by_recency(right@),
    ensures
        is_recency_sort_of(merged@, left@ + right@),
{
    let ghost a = left@;
    let ghost b = right@;
    let n = left.len();
    let m = right.len();
    let mut l = reversed(left);
    let mut r = reversed(right);
    let mut merged: Vec<MediaRecord> = Vec::new();
    let mut i: usize = 0;
    let mut j: usize = 0;
    proof {
        assert(a.take(0) + b.take(0) =~= Seq::<MediaRecord>::empty());
    }
    while i < n || j < m
        invariant
            i <= n,
            j <= m,
            n == a.len(),
            m == b.len(),
            ordered_by_recency(a),
            ordered_by_recency(b),
            l@ == a.reverse().take(n - i),
            r@ == b.reverse().take(m - j),
            is_recency_sort_of(merged@, a.take(i as int) + b.take(j as int)),
            i < n ==> forall|x: int|
                0 <= x < merged@.len() ==> !less_recent(
                    recency_key(#[trigger] merged@[x]),
                    recency_key(a[i as int]),
                ),
            j < m ==> forall|x: int|
                0 <= x < merged@.len() ==> !less_recent(
                    recency_key(#[trigger] merged@[x]),
                    recency_key(b[j as int]),
                ),
            i < n ==> forall|y: int|
                0 <= y < j ==> less_recent(recency_key(a[i as int]), recency_key(#[trigger] b[y])),
        decreases (n - i) + (m - j),
    {
        proof {
            if i < n {
                assert(a.reverse()[n - i - 1] == a[i as int]);
            }
            if j < m {
                assert(b.reverse()[m - j - 1] == b[j as int]);
            }
        }
        let from_right = if i >= n {
            true
        } else if j >= m {
            false
        } else {
            is_less_recent(&l[l.len() - 1], &r[r.len() - 1])
        };
        let ghost before = merged@;
        if from_right {
            let x = r.pop().unwrap();
            proof {
                let taken = a.take(i as int) + b.take(j as int);
                lemma_place_at_end(before, taken, Seq::empty(), x);
                assert(taken + Seq::<MediaRecord>::empty() =~= taken);
                assert(taken.push(x) + Seq::<MediaRecord>::empty() =~= a.take(i as int) + b.take(
                    j + 1,
                ));
                assert forall|z: int| 0 <= z < before.push(x).len() && j + 1 < m implies !less_recent(
                    recency_key(#[trigger] before.push(x)[z]),
                    recency_key(b[j + 1]),
                ) by {
                    assert(!less_recent(recency_key(b[j as int]), recency_key(b[j + 1])));
                    if z < before.len() {
                        lemma_not_less_chain(
                            recency_key(before[z]),
                            recency_key(b[j as int]),
                            recency_key(b[j + 1]),
                        );
                    }
                }
            }
            merged.push(x);
            j += 1;
            assert(r@ =~= b.reverse().take(m - j));
        } else {
            let x = l.pop().unwrap();
            proof {
                lemma_place_at_end(before, a.take(i as int), b.take(j as int), x);
                assert(a.take(i as int).push(x) =~= a.take(i + 1));
                if i + 1 < n {
                    let next = recency_key(a[i + 1]);
                    assert(!less_recent(recency_key(a[i as int]), next));
                    assert forall|z: int| 0 <= z < before.push(x).len() implies !less_recent(
                        recency_key(#[trigger] before.push(x)[z]),
                        next,
                    ) by {
                        if z < before.len() {
                            lemma_not_less_chain(recency_key(before[z]), recency_key(a[i as int]), next);
                        }
                    }
                    assert forall|y: int| 0 <= y < j implies less_recent(
                        next,
                        recency_key(#[trigger] b[y]),
                    ) by {
                        lemma_less_below(recency_key(a[i as int]), next, recency_key(b[y]));
                    }
                }
            }
            merged.push(x);
            i += 1;
            assert(l@ =~= a.reverse().take(n - i));
        }
    }
    proof {
        a.lemma_take_len();
        b.lemma_take_len();
    }
    merged
}

/// Puts `records` in the order in which an import returns them: most
/// recently taken first, undated records last, ties by the later
/// `created_at` first, and records equal in both in the order given.
pub fn sort_by_recency(records: Vec<MediaRecord>) -> (sorted: Vec<MediaRecord>)
    ensures
        is_recency_sort_of(sorted@, records@),
    decreases records@.len(),
{
    if records.len() <= 1 {
        return records;
    }
    let ghost given = records@;
    let mut left = records;
    let mid = left.len() / 2;
    let right = left.split_off(mid);
    let ghost first = left@;
    let ghost second = right@;
    let left = sort_by_recency(left);
    let right = sort_by_recency(right);
    let ghost sorted_first = left@;
    let ghost sorted_second = right@;
    let merged = merge_by_recency(left, right);
    proof {
        assert(given =~= first + second);
        assert forall|k: RecencyKey| #[trigger] with_key(merged@, k) == with_key(given, k) by {
            lemma_with_key_concat(sorted_first, sorted_second, k);
            lemma_with_key_concat(first, second, k);
            assert(with_key(sorted_first, k) == with_key(first, k));
            assert(with_key(sorted_second, k) == with_key(second, k));
        }
        lemma_multiset_commutative(sorted_first, sorted_second);
        lemma_multiset_commutative(first, second);
    }
    merged
}

/// In records put in order of recency, a record with a capture
/// date never follows one without, the capture dates never rise, and among
/// records taken at the same instant, or all undated, the times of making
/// never rise.
pub proof fn lemma_order_of_pair(s: Seq<MediaRecord>, i: int, j: int)
    requires
        ordered_by_recency(s),
        0 <= i < j < s.len(),
    ensures
        s[j].taken_date.is_some() ==> s[i].taken_date.is_some(),
        s[i].taken_date.is_some() && s[j].taken_date.is_some() ==> !s[i].taken_date.unwrap().before(
            s[j].taken_date.unwrap(),
        ),
        s[i].taken_date == s[j].taken_date ==> !s[i].created_at.before(s[j].created_at),
{
    assert(!less_recent(recency_key(s[i]), recency_key(s[j])));
}

/// Two keys of which neither is less recent than the other are one key.
proof fn lemma_keys_coincide(a: RecencyKey, b: RecencyKey)
    requires
        !less_recent(a, b),
        !less_recent(b, a),
    ensures
        a == b,
{
}

proof fn lemma_with_key_member(s: Seq<MediaRecord>, k: RecencyKey, i: int)
    requires
        0 <= i < with_key(s, k).len(),
    ensures
        recency_key(with_key(s, k)[i]) == k,
        s.contains(with_key(s, k)[i]),
{
    let pred = |r: MediaRecord| recency_key(r) == k;
    s.lemma_filter_pred(pred, i);
    assert(s.filter(pred).contains(s.filter(pred)[i]));
    s.lemma_filter_contains_rev(pred, s.filter(pred)[i]);
}

proof fn lemma_with_key_first(s: Seq<MediaRecord>)
    requires
        s.len() > 0,
    ensures
        with_key(s, recency_key(s[0])).len() > 0,
        with_key(s, recency_key(s[0]))[0] == s[0],
        forall|k: RecencyKey|
            with_key(s, k) == #[trigger] with_key(seq![s[0]], k) + with_key(s.drop_first(), k),
{
    assert(s =~= seq![s[0]] + s.drop_first());
    assert forall|k: RecencyKey|
        with_key(s, k) == #[trigger] with_key(seq![s[0]], k) + with_key(s.drop_first(), k) by {
        lemma_with_key_concat(seq![s[0]], s.drop_first(), k);
    }
    lemma_with_key_single(s[0], recency_key(s[0]));
}

/// The order of recency is settled by the records alone: two orderly
/// sequences that hold, for every key, the same records in the same order
/// are one sequence.
proof fn lemma_ordered_unique(a: Seq<MediaRecord>, b: Seq<MediaRecord>)
    requires
        ordered_by_recency(a),
        ordered_by_recency(b),
        a.len() == b.len(),
        forall|k: RecencyKey| #[trigger] with_key(a, k) == with_key(b, k),
    ensures
        a == b,
    decreases a.len(),
{
    if a.len() == 0 {
        assert(a =~= b);
    } else {
        let ka = recency_key(a[0]);
        let kb = recency_key(b[0]);
        lemma_with_key_first(a);
        lemma_with_key_first(b);
        assert(with_key(a, ka) == with_key(b, ka));
        assert(with_key(a, kb) == with_key(b, kb));
        // a[0] occurs in b, and b[0] in a, so neither key is less recent.
        lemma_with_key_member(b, ka, 0);
        lemma_with_key_member(a, kb, 0);
        let x = with_key(b, ka)[0];
        let jb = choose|j: int| 0 <= j < b.len() && b[j] == x;
        if jb > 0 {
            assert(!less_recent(recency_key(b[0]), recency_key(b[jb])));
        }
        let y = with_key(a, kb)[0];
        let ja = choose|j: int| 0 <= j < a.len() && a[j] == y;
        if ja > 0 {
            assert(!less_recent(recency_key(a[0]), recency_key(a[ja])));
        }
        lemma_keys_coincide(ka, kb);
        assert(a[0] == b[0]);
        let ta = a.drop_first();
        let tb = b.drop_first();
        assert forall|k: RecencyKey| #[trigger] with_key(ta, k) == with_key(tb, k) by {
            assert(with_key(a, k) == with_key(b, k));
            let head = with_key(seq![a[0]], k);
            assert(with_key(a, k) == head + with_key(ta, k));
            assert(with_key(b, k) == head + with_key(tb, k));
            lemma_cancel_prefix(head, with_key(ta, k), with_key(tb, k));
        }
        assert(ordered_by_recency(ta)) by {
            assert forall|i: int, j: int| 0 <= i < j < ta.len() implies !less_recent(
                recency_key(#[trigger] ta[i]),
                recency_key(#[trigger] ta[j]),
            ) by {
                assert(ta[i] == a[i + 1] && ta[j] == a[j + 1]);
            }
        }
        assert(ordered_by_recency(tb)) by {
            assert forall|i: int, j: int| 0 <= i < j < tb.len() implies !less_recent(
                recency_key(#[trigger] tb[i]),
                recency_key(#[trigger] tb[j]),
            ) by {
                assert(tb[i] == b[i + 1] && tb[j] == b[j + 1]);
            }
        }
        lemma_ordered_unique(ta, tb);
        assert(a =~= seq![a[0]] + ta);
        assert(b =~= seq![b[0]] + tb);
    }
}

proof fn lemma_cancel_prefix(head: Seq<MediaRecord>, x: Seq<MediaRecord>, y: Seq<MediaRecord>)
    requires
        head + x == head + y,
    ensures
        x == y,
{
    let l = head + x;
    let r = head + y;
    assert(l.len() == head.len() + x.len());
    assert(r.len() == head.len() + y.len());
    assert forall|i: int| 0 <= i < x.len() implies x[i] == y[i] by {
        assert(l[head.len() + i] == x[i]);
        assert(r[head.len() + i] == y[i]);
    }
    assert(x =~= y);
}

/// The stable sort by recency has one result: whatever two sequences are
/// `given` put in order of recency, they are the same.
pub proof fn lemma_recency_sort_unique(
    a: Seq<MediaRecord>,
    b: Seq<MediaRecord>,
    given: Seq<MediaRecord>,
)
    requires
        is_recency_sort_of(a, given),
        is_recency_sort_of(b, given),
    ensures
        a == b,
{
    assert forall|k: RecencyKey| #[trigger] with_key(a, k) == with_key(b, k) by {
        assert(with_key(a, k) == with_key(given, k));
        assert(with_key(b, k) == with_key(given, k));
    }
    lemma_ordered_unique(a, b);
}

/// Records that are in order already stay as they are.
pub proof fn lemma_ordered_is_sorted(s: Seq<MediaRecord>)
    requires
        ordered_by_recency(s),
    ensures
        is_recency_sort_of(s, s),
{
}

} // verus!
