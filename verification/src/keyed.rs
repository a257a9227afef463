use vstd::prelude::*;

verus! {

/// Entries ordered by strictly increasing key: no key occurs twice.
pub open spec fn keys_increasing<V>(entries: Seq<(usize, V)>) -> bool {
    forall|i: int, j: int| 0 <= i < j < entries.len() ==> entries[i].0 < entries[j].0
}

/// The number of leading entries whose key is below `key`: where `key` belongs.
pub open spec fn insertion_point<V>(entries: Seq<(usize, V)>, key: usize) -> int
    decreases entries.len(),
{
    if entries.len() == 0 {
        0
    } else if entries[0].0 >= key {
        0
    } else {
        1 + insertion_point(entries.drop_first(), key)
    }
}

/// `entries` with `value` stored under `key`: the entry for `key` is replaced if there is one,
/// otherwise a new entry is inserted where the order puts it.
pub open spec fn upserted<V>(entries: Seq<(usize, V)>, key: usize, value: V) -> Seq<(usize, V)> {
    let at = insertion_point(entries, key);
    if at < entries.len() && entries[at].0 == key {
        entries.update(at, (key, value))
    } else {
        entries.insert(at, (key, value))
    }
}

proof fn lemma_insertion_point<V>(entries: Seq<(usize, V)>, key: usize)
    requires
        keys_increasing(entries),
    ensures
        0 <= insertion_point(entries, key) <= entries.len(),
        forall|i: int| 0 <= i < insertion_point(entries, key) ==> entries[i].0 < key,
        forall|i: int| insertion_point(entries, key) <= i < entries.len() ==> entries[i].0 >= key,
    decreases entries.len(),
{
    if entries.len() > 0 && entries[0].0 < key {
        let rest = entries.drop_first();
        assert(keys_increasing(rest));
        lemma_insertion_point(rest, key);
        assert forall|i: int| insertion_point(entries, key) <= i < entries.len() implies entries[i].0
            >= key by {
            assert(entries[i] == rest[i - 1]);
        }
        assert forall|i: int| 0 <= i < insertion_point(entries, key) implies entries[i].0 < key by {
            if i > 0 {
                assert(entries[i] == rest[i - 1]);
            }
        }
    } else if entries.len() > 0 {
        assert forall|i: int| 0 <= i < entries.len() implies entries[i].0 >= key by {
            if i > 0 {
                assert(entries[0].0 < entries[i].0);
            }
        }
    }
}

/// Stores `value` under `key`, keeping the keys in increasing order.
pub fn upsert<V>(entries: &mut Vec<(usize, V)>, key: usize, value: V)
    requires
        keys_increasing(old(entries)@),
    ensures
        final(entries)@ == upserted(old(entries)@, key, value),
        keys_increasing(final(entries)@),
{
    proof {
        lemma_insertion_point(entries@, key);
    }
    let ghost initial = entries@;
    let mut at: usize = 0;
    while at < entries.len() && entries[at].0 < key
        invariant
            entries@ == initial,
            at <= entries@.len(),
            at <= insertion_point(initial, key),
            forall|i: int| 0 <= i < insertion_point(initial, key) ==> initial[i].0 < key,
            forall|i: int|
                insertion_point(initial, key) <= i < initial.len() ==> initial[i].0 >= key,
        decreases entries.len() - at,
    {
        at = at + 1;
    }
    assert(at == insertion_point(initial, key));
    if at < entries.len() && entries[at].0 == key {
        entries.set(at, (key, value));
    } else {
        entries.insert(at, (key, value));
    }
    assert(entries@ =~= upserted(initial, key, value));
}

/// The sum of the counts stored in `entries`.
pub open spec fn sum_counts(entries: Seq<(usize, usize)>) -> int
    decreases entries.len(),
{
    if entries.len() == 0 {
        0
    } else {
        sum_counts(entries.drop_last()) + entries.last().1
    }
}

proof fn lemma_sum_counts_nonnegative(entries: Seq<(usize, usize)>)
    ensures
        sum_counts(entries) >= 0,
    decreases entries.len(),
{
    if entries.len() > 0 {
        lemma_sum_counts_nonnegative(entries.drop_last());
    }
}

/// `value`, or `usize::MAX` when it is larger.
pub open spec fn saturated(value: int) -> usize {
    if value > usize::MAX { usize::MAX } else { value as usize }
}

/// The sum of the stored counts, saturating at `usize::MAX`.
pub fn total_count(entries: &Vec<(usize, usize)>) -> (total: usize)
    ensures
        total == saturated(sum_counts(entries@)),
{
    let mut total: usize = 0;
    let mut i: usize = 0;
    while i < entries.len()
        invariant
            i <= entries@.len(),
            total == saturated(sum_counts(entries@.take(i as int))),
        decreases entries.len() - i,
    {
        assert(entries@.take(i + 1).drop_last() =~= entries@.take(i as int));
        assert(sum_counts(entries@.take(i + 1)) == sum_counts(entries@.take(i as int))
            + entries@[i as int].1);
        proof {
            lemma_sum_counts_nonnegative(entries@.take(i as int));
        }
        total = total.saturating_add(entries[i].1);
        i = i + 1;
    }
    assert(entries@.take(entries@.len() as int) =~= entries@);
    total
}

} // verus!
