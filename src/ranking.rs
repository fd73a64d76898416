//! Deterministic top-k selection: keys in descending order, equal keys in
//! ascending index order.
use vstd::prelude::*;
use vstd::set_lib::*;

verus! {

/// Whether index `i` ranks ahead of index `j`: a larger key, or an equal key
/// and a smaller index.
pub open spec fn ranks_before(keys: Seq<nat>, i: int, j: int) -> bool {
    keys[i] > keys[j] || (keys[i] == keys[j] && i < j)
}

/// `j` is the first-ranked index among those not in `chosen`.
pub open spec fn is_best_remaining(keys: Seq<nat>, chosen: Seq<int>, j: int) -> bool {
    &&& 0 <= j < keys.len()
    &&& !chosen.contains(j)
    &&& forall|o: int|
        0 <= o < keys.len() && !chosen.contains(o) && o != j ==> #[trigger] ranks_before(keys, j, o)
}

pub open spec fn best_remaining(keys: Seq<nat>, chosen: Seq<int>) -> int {
    choose|j: int| is_best_remaining(keys, chosen, j)
}

/// The `k` first-ranked indices, in rank order.
pub open spec fn top_ranked(keys: Seq<nat>, k: nat) -> Seq<int>
    decreases k,
{
    if k == 0 {
        Seq::empty()
    } else {
        let c = top_ranked(keys, (k - 1) as nat);
        c.push(best_remaining(keys, c))
    }
}

pub open spec fn usize_keys(v: Seq<usize>) -> Seq<nat> {
    v.map_values(|x: usize| x as nat)
}

pub open spec fn as_ints(v: Seq<usize>) -> Seq<int> {
    v.map_values(|x: usize| x as int)
}

proof fn lemma_best_unique(keys: Seq<nat>, chosen: Seq<int>, a: int, b: int)
    requires
        is_best_remaining(keys, chosen, a),
        is_best_remaining(keys, chosen, b),
    ensures
        a == b,
{
    if a != b {
        assert(ranks_before(keys, a, b));
        assert(ranks_before(keys, b, a));
    }
}

/// Some index is left while fewer than `keys.len()` distinct indices are chosen.
proof fn lemma_some_left(n: nat, chosen: Seq<int>)
    requires
        chosen.no_duplicates(),
        chosen.len() < n,
        forall|i: int| 0 <= i < chosen.len() ==> 0 <= #[trigger] chosen[i] < n,
    ensures
        exists|j: int| 0 <= j < n && !chosen.contains(j),
{
    if forall|j: int| 0 <= j < n ==> chosen.contains(j) {
        let range = set_int_range(0, n as int);
        lemma_int_range(0, n as int);
        chosen.unique_seq_to_set();
        assert(range.subset_of(chosen.to_set()));
        lemma_len_subset(range, chosen.to_set());
    }
}

/// The `k` first-ranked indices of `keys`: keys in descending order, ties by
/// ascending index.
pub fn top_indices(keys: &Vec<usize>, k: usize) -> (r: Vec<usize>)
    requires
        k <= keys.len(),
    ensures
        r.len() == k,
        forall|i: int| 0 <= i < k ==> #[trigger] r@[i] < keys.len(),
        as_ints(r@) == top_ranked(usize_keys(keys@), k as nat),
{
    let ghost ks = usize_keys(keys@);
    let n = keys.len();
    let mut taken: Vec<bool> = Vec::new();
    let mut i: usize = 0;
    while i < n
        invariant
            n == keys.len(),
            0 <= i <= n,
            taken.len() == i,
            forall|j: int| 0 <= j < i ==> !taken@[j],
        decreases n - i,
    {
        taken.push(false);
        i += 1;
    }
    let mut r: Vec<usize> = Vec::new();
    let mut t: usize = 0;
    while t < k
        invariant
            n == keys.len(),
            k <= n,
            0 <= t <= k,
            taken.len() == n,
            r.len() == t,
            ks == usize_keys(keys@),
            as_ints(r@) == top_ranked(ks, t as nat),
            as_ints(r@).no_duplicates(),
            forall|j: int| 0 <= j < t ==> 0 <= #[trigger] r@[j] < n,
            forall|j: int| 0 <= j < n ==> (#[trigger] taken@[j] <==> as_ints(r@).contains(j)),
        decreases k - t,
    {
        let ghost chosen = as_ints(r@);
        proof {
            assert forall|q: int| 0 <= q < chosen.len() implies 0 <= #[trigger] chosen[q] < n by {
                assert(chosen[q] == r@[q] as int);
            }
            lemma_some_left(n as nat, chosen);
        }
        let mut best: usize = n;
        let mut j: usize = 0;
        while j < n
            invariant
                n == keys.len(),
                taken.len() == n,
                0 <= j <= n,
                best <= n,
                ks == usize_keys(keys@),
                chosen == as_ints(r@),
                forall|q: int| 0 <= q < n ==> (#[trigger] taken@[q] <==> chosen.contains(q)),
                best == n ==> forall|q: int| 0 <= q < j ==> chosen.contains(q),
                best < n ==> {
                    &&& best < j
                    &&& !chosen.contains(best as int)
                    &&& forall|q: int|
                        0 <= q < j && !chosen.contains(q) && q != best ==> #[trigger] ranks_before(
                            ks,
                            best as int,
                            q,
                        )
                },
            decreases n - j,
        {
            let ghost old_best = best;
            if !taken[j] {
                if best == n || keys[j] > keys[best] {
                    best = j;
                }
            }
            proof {
                assert(ks[j as int] == keys@[j as int] as nat);
                if old_best < n {
                    assert(ks[old_best as int] == keys@[old_best as int] as nat);
                }
                if best < n {
                    assert forall|q: int|
                        0 <= q < j + 1 && !chosen.contains(q) && q != best implies #[trigger] ranks_before(
                            ks,
                            best as int,
                            q,
                        ) by {
                        if q < j && best == j && old_best < n && q != old_best {
                            assert(ranks_before(ks, old_best as int, q));
                        }
                    }
                }
            }
            j += 1;
        }
        proof {
            if best == n {
                let w = choose|w: int| 0 <= w < n && !chosen.contains(w);
                assert(chosen.contains(w));
            }
            assert(is_best_remaining(ks, chosen, best as int));
            lemma_best_unique(ks, chosen, best as int, best_remaining(ks, chosen));
        }
        taken.set(best, true);
        r.push(best);
        proof {
            let nc = as_ints(r@);
            assert(nc =~= chosen.push(best as int));
            assert(nc.no_duplicates()) by {
                assert forall|a: int, b: int| 0 <= a < b < nc.len() implies nc[a] != nc[b] by {
                    if b == nc.len() - 1 {
                        assert(chosen[a] == nc[a]);
                    }
                }
            }
            assert forall|q: int| 0 <= q < n implies (#[trigger] taken@[q] <==> nc.contains(q)) by {
                if q == best {
                    assert(nc[nc.len() - 1] == q);
                } else if taken@[q] {
                    let p = choose|p: int| 0 <= p < chosen.len() && chosen[p] == q;
                    assert(nc[p] == q);
                } else {
                    if nc.contains(q) {
                        let p = choose|p: int| 0 <= p < nc.len() && nc[p] == q;
                        assert(chosen[p] == q);
                    }
                }
            }
        }
        t += 1;
    }
    r
}

/// `top_ranked` yields exactly `k` indices.
pub proof fn lemma_top_ranked_len(keys: Seq<nat>, k: nat)
    ensures
        top_ranked(keys, k).len() == k,
    decreases k,
{
    if k > 0 {
        lemma_top_ranked_len(keys, (k - 1) as nat);
    }
}

} // verus!
