//! Orders of keys.
use vstd::prelude::*;

verus! {

/// The order without one of its keys.
pub open spec fn without(keys: Seq<usize>, key: usize) -> Seq<usize> {
    keys.remove(keys.index_of(key))
}

/// Without its first key an order holds the others.
pub proof fn lemma_drop_first(keys: Seq<usize>)
    requires
        keys.len() > 0,
        keys.no_duplicates(),
    ensures
        keys.contains(keys[0]),
        keys.drop_first().no_duplicates(),
        forall|k: usize| #[trigger]
            keys.drop_first().contains(k) == (keys.contains(k) && k != keys[0]),
{
    let rest = keys.drop_first();
    assert forall|k: usize| #[trigger] rest.contains(k) == (keys.contains(k) && k != keys[0]) by {
        if rest.contains(k) {
            let i = choose|i: int| 0 <= i < rest.len() && rest[i] == k;
            assert(keys[i + 1] == k);
        }
        if keys.contains(k) && k != keys[0] {
            let i = choose|i: int| 0 <= i < keys.len() && keys[i] == k;
            assert(rest[i - 1] == k);
        }
    }
}

/// With another key behind them an order holds the same and that one.
pub proof fn lemma_push(keys: Seq<usize>, key: usize)
    requires
        keys.no_duplicates(),
        !keys.contains(key),
    ensures
        keys.push(key).no_duplicates(),
        forall|k: usize| #[trigger]
            keys.push(key).contains(k) == (keys.contains(k) || k == key),
{
    let more = keys.push(key);
    assert forall|k: usize| #[trigger] more.contains(k) == (keys.contains(k) || k == key) by {
        if keys.contains(k) {
            let i = choose|i: int| 0 <= i < keys.len() && keys[i] == k;
            assert(more[i] == k);
        }
        assert(more[keys.len() as int] == key);
        if more.contains(k) {
            let i = choose|i: int| 0 <= i < more.len() && more[i] == k;
            if i < keys.len() {
                assert(keys[i] == k);
            }
        }
    }
}

/// Two orders one after the other hold the keys of both.
pub proof fn lemma_concat(first: Seq<usize>, second: Seq<usize>)
    ensures
        forall|k: usize| #[trigger]
            (first + second).contains(k) == (first.contains(k) || second.contains(k)),
{
    let both = first + second;
    assert forall|k: usize| #[trigger] both.contains(k) == (first.contains(k)
        || second.contains(k)) by {
        if first.contains(k) {
            let i = choose|i: int| 0 <= i < first.len() && first[i] == k;
            assert(both[i] == k);
        }
        if second.contains(k) {
            let i = choose|i: int| 0 <= i < second.len() && second[i] == k;
            assert(both[first.len() + i] == k);
        }
        if both.contains(k) {
            let i = choose|i: int| 0 <= i < both.len() && both[i] == k;
            if i < first.len() {
                assert(first[i] == k);
            } else {
                assert(second[i - first.len()] == k);
            }
        }
    }
}

/// Without one of its keys an order holds the others.
pub proof fn lemma_without(keys: Seq<usize>, key: usize)
    requires
        keys.contains(key),
        keys.no_duplicates(),
    ensures
        without(keys, key).no_duplicates(),
        forall|k: usize| #[trigger]
            without(keys, key).contains(k) == (keys.contains(k) && k != key),
{
    let n = keys.index_of(key);
    let rest = without(keys, key);
    assert forall|i: int| 0 <= i < rest.len() implies #[trigger] rest[i] == if i < n {
        keys[i]
    } else {
        keys[i + 1]
    } by {}
    assert forall|k: usize| #[trigger] rest.contains(k) == (keys.contains(k) && k != key) by {
        if rest.contains(k) {
            let i = choose|i: int| 0 <= i < rest.len() && rest[i] == k;
            assert(keys[if i < n {
                i
            } else {
                i + 1
            }] == k);
        }
        if keys.contains(k) && k != key {
            let i = choose|i: int| 0 <= i < keys.len() && keys[i] == k;
            assert(rest[if i < n {
                i
            } else {
                i - 1
            }] == k);
        }
    }
}

} // verus!
