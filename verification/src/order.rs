//! Sorting by a key, stable: what has one key keeps its order.

use vstd::prelude::*;

verus! {

/// Where an item of key `k` goes among sorted items: behind all whose key is not
/// greater.
pub open spec fn slot_of(sorted: Seq<int>, keys: Seq<int>, k: int) -> nat
    decreases sorted.len(),
{
    if sorted.len() == 0 || keys[sorted[0]] > k {
        0
    } else {
        1 + slot_of(sorted.drop_first(), keys, k)
    }
}

/// The items `ids` in the order of their keys; items of one key stay in the order
/// they came in. The key of an item is `keys[item]`.
pub open spec fn stable_sort(ids: Seq<int>, keys: Seq<int>) -> Seq<int>
    decreases ids.len(),
{
    if ids.len() == 0 {
        Seq::empty()
    } else {
        let front = stable_sort(ids.drop_last(), keys);
        front.insert(slot_of(front, keys, keys[ids.last()]) as int, ids.last())
    }
}

/// The numbers from 0 to `n - 1`.
pub open spec fn upto(n: nat) -> Seq<int> {
    Seq::new(n, |k: int| k)
}

proof fn lemma_slot_is(sorted: Seq<int>, keys: Seq<int>, k: int, n: int)
    requires
        0 <= n <= sorted.len(),
        forall|j: int| 0 <= j < n ==> keys[#[trigger] sorted[j]] <= k,
        n < sorted.len() ==> keys[sorted[n]] > k,
    ensures
        slot_of(sorted, keys, k) == n,
    decreases n,
{
    if n > 0 {
        assert(keys[sorted[0]] <= k);
        let t = sorted.drop_first();
        assert forall|j: int| 0 <= j < n - 1 implies keys[#[trigger] t[j]] <= k by {
            assert(t[j] == sorted[j + 1]);
        }
        lemma_slot_is(t, keys, k, n - 1);
    }
}

proof fn lemma_slot_facts(sorted: Seq<int>, keys: Seq<int>, k: int)
    ensures
        slot_of(sorted, keys, k) <= sorted.len(),
        forall|j: int| 0 <= j < slot_of(sorted, keys, k) ==> keys[#[trigger] sorted[j]] <= k,
        slot_of(sorted, keys, k) < sorted.len() ==> keys[sorted[slot_of(sorted, keys, k) as int]] > k,
    decreases sorted.len(),
{
    if sorted.len() > 0 && keys[sorted[0]] <= k {
        let t = sorted.drop_first();
        lemma_slot_facts(t, keys, k);
        let n = slot_of(sorted, keys, k);
        assert forall|j: int| 0 <= j < n implies keys[#[trigger] sorted[j]] <= k by {
            if j > 0 {
                assert(sorted[j] == t[j - 1]);
            }
        }
        if n < sorted.len() {
            assert(sorted[n as int] == t[n - 1]);
        }
    }
}

/// The keys never fall along `s`.
pub open spec fn ordered(s: Seq<int>, keys: Seq<int>) -> bool {
    forall|i: int, j: int| 0 <= i <= j < s.len() ==> keys[#[trigger] s[i]] <= keys[#[trigger] s[j]]
}

/// Sorting orders the items by their keys and neither adds nor loses one.
pub proof fn stable_sort_sorts(ids: Seq<int>, keys: Seq<int>)
    ensures
        stable_sort(ids, keys).len() == ids.len(),
        ordered(stable_sort(ids, keys), keys),
        stable_sort(ids, keys).to_multiset() == ids.to_multiset(),
    decreases ids.len(),
{
    if ids.len() == 0 {
        assert(ids =~= Seq::<int>::empty());
    } else {
        let rest = ids.drop_last();
        let x = ids.last();
        let front = stable_sort(rest, keys);
        stable_sort_sorts(rest, keys);
        lemma_slot_facts(front, keys, keys[x]);
        let n = slot_of(front, keys, keys[x]) as int;
        let s = stable_sort(ids, keys);
        assert forall|i: int, j: int| 0 <= i <= j < s.len() implies keys[#[trigger] s[i]] <= keys[#[trigger] s[j]] by {
            let a = if i < n { i } else { i - 1 };
            let b = if j < n { j } else { j - 1 };
            if i != n && j != n {
                assert(s[i] == front[a] && s[j] == front[b]);
            } else if i == n && j > n {
                assert(s[j] == front[b]);
                assert(keys[front[n]] <= keys[front[b]]);
            } else if j == n && i < n {
                assert(s[i] == front[a]);
            }
        }
        front.insert_ensures(n, x);
        assert(rest.push(x) =~= ids);
        vstd::seq_lib::to_multiset_insert(front, n, x);
        vstd::seq_lib::to_multiset_build(rest, x);
    }
}

/// Indices as integers.
pub open spec fn as_ints(v: Seq<usize>) -> Seq<int> {
    v.map_values(|x: usize| x as int)
}

/// Keys as integers.
pub open spec fn key_ints(v: Seq<i64>) -> Seq<int> {
    v.map_values(|x: i64| x as int)
}

/// Every item is an index below `n`.
pub open spec fn all_below(ids: Seq<int>, n: int) -> bool {
    forall|k: int| 0 <= k < ids.len() ==> 0 <= #[trigger] ids[k] < n
}

/// Sorting keeps the items what they were.
pub proof fn lemma_sort_items(ids: Seq<int>, keys: Seq<int>)
    ensures
        forall|x: int| #[trigger] stable_sort(ids, keys).contains(x) <==> ids.contains(x),
        ids.no_duplicates() ==> stable_sort(ids, keys).no_duplicates(),
        forall|n: int| all_below(ids, n) ==> #[trigger] all_below(stable_sort(ids, keys), n),
{
    stable_sort_sorts(ids, keys);
    let s = stable_sort(ids, keys);
    ids.to_multiset_ensures();
    s.to_multiset_ensures();
    assert forall|x: int| #[trigger] s.contains(x) <==> ids.contains(x) by {
        assert(s.to_multiset().count(x) == ids.to_multiset().count(x));
    }
    if ids.no_duplicates() {
        ids.lemma_multiset_has_no_duplicates();
        s.lemma_multiset_has_no_duplicates_conv();
    }
    assert forall|n: int| all_below(ids, n) implies #[trigger] all_below(s, n) by {
        assert forall|k: int| 0 <= k < s.len() implies 0 <= #[trigger] s[k] < n by {
            assert(s.contains(s[k]));
            let j = choose|j: int| 0 <= j < ids.len() && ids[j] == s[k];
            assert(0 <= ids[j] < n);
        }
    }
}

/// Sorts the items by their keys; items of one key keep their order.
pub fn sort_by(ids: &Vec<usize>, keys: &Vec<i64>) -> (r: Vec<usize>)
    requires
        all_below(as_ints(ids@), keys@.len() as int),
    ensures
        as_ints(r@) == stable_sort(as_ints(ids@), key_ints(keys@)),
        all_below(as_ints(r@), keys@.len() as int),
        r@.len() == ids@.len(),
{
    let ghost want = as_ints(ids@);
    let ghost ks = key_ints(keys@);
    let mut out: Vec<usize> = Vec::new();
    let mut k: usize = 0;
    proof {
        assert(want.take(0) =~= Seq::<int>::empty());
        assert(as_ints(out@) =~= Seq::<int>::empty());
    }
    while k < ids.len()
        invariant
            k <= ids@.len(),
            out@.len() == k,
            want == as_ints(ids@),
            ks == key_ints(keys@),
            all_below(want, keys@.len() as int),
            as_ints(out@) == stable_sort(want.take(k as int), ks),
            forall|j: int| 0 <= j < out@.len() ==> (#[trigger] out@[j]) < keys@.len(),
        decreases ids@.len() - k,
    {
        let x: usize = ids[k];
        assert(want[k as int] == x);
        let key: i64 = keys[x];
        let mut n: usize = 0;
        while n < out.len() && keys[out[n]] <= key
            invariant
                n <= out@.len(),
                ks == key_ints(keys@),
                forall|j: int| 0 <= j < out@.len() ==> (#[trigger] out@[j]) < keys@.len(),
                forall|j: int| 0 <= j < n ==> keys@[#[trigger] out@[j] as int] <= key,
            decreases out@.len() - n,
        {
            n += 1;
        }
        let ghost front = as_ints(out@);
        proof {
            assert forall|j: int| 0 <= j < n implies ks[#[trigger] front[j]] <= key by {
                assert(front[j] == out@[j]);
            }
            if n < out@.len() {
                assert(front[n as int] == out@[n as int]);
            }
            lemma_slot_is(front, ks, key as int, n as int);
            let t = want.take(k + 1);
            assert(t.drop_last() =~= want.take(k as int));
            assert(t.last() == x);
        }
        out.insert(n, x);
        proof {
            assert(as_ints(out@) =~= front.insert(n as int, x as int));
        }
        k += 1;
    }
    proof {
        assert(want.take(k as int) =~= want);
        assert forall|j: int| 0 <= j < out@.len() implies 0 <= #[trigger] as_ints(out@)[j] < keys@.len() by {
            assert(as_ints(out@)[j] == out@[j]);
        }
    }
    out
}

/// The indices of `n` items.
pub fn indices(n: usize) -> (r: Vec<usize>)
    ensures
        as_ints(r@) == upto(n as nat),
        all_below(as_ints(r@), n as int),
        r@.len() == n,
{
    let mut out: Vec<usize> = Vec::new();
    let mut k: usize = 0;
    while k < n
        invariant
            k <= n,
            out@.len() == k,
            forall|j: int| 0 <= j < k ==> #[trigger] out@[j] == j,
        decreases n - k,
    {
        out.push(k);
        k += 1;
    }
    proof {
        assert(as_ints(out@) =~= upto(n as nat));
    }
    out
}

/// Items of one key keep the order they came in.
pub proof fn equal_keys_keep_their_order(
    ids: Seq<int>,
    keys: Seq<int>,
    i: int,
    j: int,
    p: int,
    q: int,
)
    requires
        ids.no_duplicates(),
        0 <= i < j < ids.len(),
        keys[ids[i]] == keys[ids[j]],
        0 <= p < ids.len(),
        0 <= q < ids.len(),
        stable_sort(ids, keys)[p] == ids[i],
        stable_sort(ids, keys)[q] == ids[j],
    ensures
        p < q,
    decreases ids.len(),
{
    let less = ids.drop_last();
    let front = stable_sort(less, keys);
    let x = ids.last();
    let at = slot_of(front, keys, keys[x]) as int;
    let all = stable_sort(ids, keys);
    stable_sort_sorts(ids, keys);
    stable_sort_sorts(less, keys);
    lemma_sort_items(ids, keys);
    lemma_sort_items(less, keys);
    lemma_slot_facts(front, keys, keys[x]);
    assert(all == front.insert(at, x));
    assert(all[at] == x);
    assert(ids[i] != ids[j]);
    assert(p != q);
    if j == ids.len() - 1 {
        assert(q == at) by {
            assert(all.no_duplicates());
        }
        if p > at {
            assert(all[p] == front[p - 1]);
            assert(keys[front[at]] <= keys[front[p - 1]]);
        }
    } else {
        assert(p != at && q != at) by {
            assert(ids[i] != ids.last() && ids[j] != ids.last());
        }
        let p2 = if p < at {
            p
        } else {
            p - 1
        };
        let q2 = if q < at {
            q
        } else {
            q - 1
        };
        assert(front[p2] == less[i] && front[q2] == less[j]);
        assert(less.no_duplicates());
        equal_keys_keep_their_order(less, keys, i, j, p2, q2);
    }
}

/// The items that are sorted are all indices, each once and in their order.
pub proof fn indices_count_up(n: nat, k: int)
    requires
        0 <= k < n,
    ensures
        upto(n).len() == n,
        upto(n)[k] == k,
{
}

} // verus!
