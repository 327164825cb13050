//! The coin-selection heuristic behind `blockchain.scripthash.select_unspent`.
//!
//! The unspent list is pre-filtered and sorted ascending by value; for each
//! target amount a small set of entries is chosen and consumed before the
//! next target is processed.
use vstd::prelude::*;

use crate::types::{UnspentEntry, EntryV, entries_v};

verus! {

/// The pre-filter: a minimum value, and confirmation when asked for.
pub open spec fn keeps(e: EntryV, min_amount: u64, confirmed: bool) -> bool {
    e.value >= min_amount && (confirmed ==> e.height > 0)
}

/// The kept entries, in order.
pub open spec fn spec_filter(s: Seq<EntryV>, min_amount: u64, confirmed: bool) -> Seq<EntryV>
    decreases s.len(),
{
    if s.len() == 0 {
        Seq::empty()
    } else {
        spec_filter(s.drop_last(), min_amount, confirmed) + if keeps(s.last(), min_amount, confirmed) {
            seq![s.last()]
        } else {
            Seq::empty()
        }
    }
}

/// Ascending by value.
pub open spec fn sorted_by_value(s: Seq<EntryV>) -> bool {
    forall|i: int, j: int| 0 <= i < j < s.len() ==> s[i].value <= s[j].value
}

/// The least index at or after `i` whose value reaches `t`.
pub open spec fn first_ge(s: Seq<EntryV>, t: u64, i: int) -> Option<int>
    decreases s.len() - i,
{
    if i < 0 || i >= s.len() {
        None
    } else if s[i].value >= t {
        Some(i)
    } else {
        first_ge(s, t, i + 1)
    }
}

/// The least index at or after `i` holding a confirmed entry.
pub open spec fn first_conf(s: Seq<EntryV>, i: int) -> Option<int>
    decreases s.len() - i,
{
    if i < 0 || i >= s.len() {
        None
    } else if s[i].height > 0 {
        Some(i)
    } else {
        first_conf(s, i + 1)
    }
}

/// How many entries the greedy walk may take at most.
pub open spec fn spec_cap(n: int) -> nat {
    if n < 21 {
        if n < 0 {
            0
        } else {
            n as nat
        }
    } else {
        21
    }
}

/// Greedy walk from the large end: indices taken in descending order until
/// the running total exceeds the remaining target or the cap is reached.
pub open spec fn greedy_idx(s: Seq<EntryV>, t: int, from: int, cap: nat) -> Seq<int>
    decreases cap,
{
    if cap == 0 || from < 0 {
        Seq::empty()
    } else if s[from].value > t {
        seq![from]
    } else {
        seq![from] + greedy_idx(s, t - s[from].value, from - 1, (cap - 1) as nat)
    }
}

/// The indices one target selects out of a filtered, sorted list.
pub open spec fn chosen_idx(s: Seq<EntryV>, t: u64) -> Seq<int> {
    let n = s.len() as int;
    if n <= 3 {
        Seq::new(s.len(), |i: int| i)
    } else {
        match first_ge(s, t, 0) {
            Some(i) => if i == 0 {
                seq![0, 1, 2]
            } else if i == n - 1 {
                seq![0, n - 2, n - 1]
            } else {
                match first_conf(s, i + 1) {
                    Some(j) => seq![0, i, j],
                    None => seq![0, i, n - 1],
                }
            },
            None => {
                let g = greedy_idx(s, t as int, n - 1, spec_cap(n));
                if g.len() < 3 {
                    g + seq![0]
                } else {
                    g
                }
            },
        }
    }
}

/// A hit of `first_ge` lies in range, reaches the target, and nothing before
/// it does; a miss means nothing from `i` on reaches it.
pub proof fn lemma_first_ge(s: Seq<EntryV>, t: u64, i: int)
    requires
        0 <= i <= s.len(),
    ensures
        match first_ge(s, t, i) {
            Some(j) => i <= j < s.len() && s[j].value >= t && forall|k: int|
                i <= k < j ==> s[k].value < t,
            None => forall|k: int| i <= k < s.len() ==> s[k].value < t,
        },
    decreases s.len() - i,
{
    if i < s.len() && s[i].value < t {
        lemma_first_ge(s, t, i + 1);
    }
}

/// The same shape for `first_conf`.
pub proof fn lemma_first_conf(s: Seq<EntryV>, i: int)
    requires
        0 <= i <= s.len(),
    ensures
        match first_conf(s, i) {
            Some(j) => i <= j < s.len() && s[j].height > 0,
            None => forall|k: int| i <= k < s.len() ==> s[k].height <= 0,
        },
    decreases s.len() - i,
{
    if i < s.len() && s[i].height <= 0 {
        lemma_first_conf(s, i + 1);
    }
}

/// The greedy walk takes consecutive indices downward from `from`.
pub proof fn lemma_greedy_shape(s: Seq<EntryV>, t: int, from: int, cap: nat)
    requires
        from < s.len(),
    ensures
        greedy_idx(s, t, from, cap).len() <= cap,
        forall|k: int|
            0 <= k < greedy_idx(s, t, from, cap).len() ==> #[trigger] greedy_idx(
                s,
                t,
                from,
                cap,
            )[k] == from - k,
        cap > 0 && from >= 0 ==> greedy_idx(s, t, from, cap).len() >= 1,
        cap > 1 && from >= 1 && s[from].value <= t ==> greedy_idx(s, t, from, cap).len() >= 2,
    decreases cap,
{
    if cap > 0 && from >= 0 && !(s[from].value > t) {
        lemma_greedy_shape(s, t - s[from].value, from - 1, (cap - 1) as nat);
    }
}

/// Everything one target chooses is a distinct valid index, and at least
/// `min(3, n)` entries are chosen.
pub proof fn lemma_chosen(s: Seq<EntryV>, t: u64)
    ensures
        forall|k: int| 0 <= k < chosen_idx(s, t).len() ==> 0 <= #[trigger] chosen_idx(s, t)[k]
            < s.len(),
        forall|k1: int, k2: int|
            0 <= k1 < k2 < chosen_idx(s, t).len() ==> chosen_idx(s, t)[k1] != chosen_idx(s, t)[k2],
        s.len() >= 3 ==> chosen_idx(s, t).len() >= 3,
        s.len() < 3 ==> chosen_idx(s, t).len() == s.len(),
{
    let n = s.len() as int;
    if n <= 3 {
    } else {
        lemma_first_ge(s, t, 0);
        match first_ge(s, t, 0) {
            Some(i) => {
                if i == 0 {
                } else if i == n - 1 {
                } else {
                    lemma_first_conf(s, i + 1);
                }
            },
            None => {
                let g = greedy_idx(s, t as int, n - 1, spec_cap(n));
                lemma_greedy_shape(s, t as int, n - 1, spec_cap(n));
                assert(s[n - 1].value < t);
                assert(g.len() >= 2);
            },
        }
    }
}

/// Kept entries of the prefix handled so far.
#[verifier::loop_isolation(false)]
pub fn filter_entries(u: &Vec<UnspentEntry>, min_amount: u64, confirmed: bool) -> (r: Vec<
    UnspentEntry,
>)
    ensures
        entries_v(r@) == spec_filter(entries_v(u@), min_amount, confirmed),
        forall|k: int| 0 <= k < r@.len() ==> keeps(#[trigger] r@[k]@, min_amount, confirmed),
{
    let mut out: Vec<UnspentEntry> = Vec::new();
    let mut i: usize = 0;
    while i < u.len()
        invariant
            i <= u.len(),
            entries_v(out@) =~= spec_filter(entries_v(u@).take(i as int), min_amount, confirmed),
            forall|k: int| 0 <= k < out@.len() ==> keeps(#[trigger] out@[k]@, min_amount, confirmed),
        decreases u.len() - i,
    {
        let e = &u[i];
        let ok = e.value >= min_amount && (!confirmed || e.height > 0);
        if ok {
            out.push(e.dup());
        }
        proof {
            let pre = entries_v(u@).take(i + 1 as int);
            assert(pre.drop_last() =~= entries_v(u@).take(i as int));
            assert(pre.last() == u@[i as int]@);
            assert(entries_v(out@) =~= spec_filter(pre, min_amount, confirmed));
        }
        i = i + 1;
    }
    proof {
        assert(entries_v(u@).take(u@.len() as int) =~= entries_v(u@));
    }
    out
}

/// Sorts ascending by value; the entries are a rearrangement of the input.
#[verifier::loop_isolation(false)]
pub fn sort_by_value(u: Vec<UnspentEntry>) -> (r: Vec<UnspentEntry>)
    ensures
        sorted_by_value(entries_v(r@)),
        entries_v(r@).to_multiset() == entries_v(u@).to_multiset(),
        r@.len() == u@.len(),
{
    broadcast use vstd::seq_lib::group_to_multiset_ensures;

    let mut out: Vec<UnspentEntry> = Vec::new();
    let mut i: usize = 0;
    while i < u.len()
        invariant
            i <= u.len(),
            sorted_by_value(entries_v(out@)),
            entries_v(out@).to_multiset() == entries_v(u@.take(i as int)).to_multiset(),
            out@.len() == i,
        decreases u.len() - i,
    {
        let e = u[i].dup();
        let mut j: usize = 0;
        while j < out.len() && out[j].value <= e.value
            invariant
                j <= out.len(),
                forall|k: int| 0 <= k < j ==> entries_v(out@)[k].value <= e@.value,
            decreases out.len() - j,
        {
            j = j + 1;
        }
        let ghost pre = entries_v(out@);
        out.insert(j, e);
        proof {
            let post = entries_v(out@);
            assert(post =~= pre.insert(j as int, e@));
            assert forall|a: int, b: int| 0 <= a < b < post.len() implies post[a].value
                <= post[b].value by {
                assert(j < pre.len() ==> pre[j as int].value > e@.value);
            }
            assert(post.remove(j as int) =~= pre);
            assert(post.remove(j as int).to_multiset() =~= post.to_multiset().remove(
                post[j as int],
            ));
            assert(post[j as int] == e@);
            assert(post.contains(e@)) by {
                assert(post[j as int] == e@);
            }
            assert(post.to_multiset().count(e@) > 0);
            assert(post.to_multiset() =~= pre.to_multiset().insert(e@));
            let t1 = entries_v(u@.take(i + 1 as int));
            assert(t1.drop_last() =~= entries_v(u@.take(i as int)));
            assert(t1 =~= entries_v(u@.take(i as int)).push(u@[i as int]@));
            assert(t1.to_multiset() =~= entries_v(u@.take(i as int)).to_multiset().insert(
                u@[i as int]@,
            ));
        }
        i = i + 1;
    }
    proof {
        assert(u@.take(u@.len() as int) =~= u@);
        assert(entries_v(u@.take(u@.len() as int)) =~= entries_v(u@));
    }
    out
}

/// One target's selection: the chosen entries and their indices, exactly as
/// `chosen_idx` lays them out.
#[verifier::loop_isolation(false)]
pub fn select_utxos(utxos: &Vec<UnspentEntry>, target_value: u64) -> (r: (
    Vec<UnspentEntry>,
    Vec<usize>,
))
    ensures
        r.1@.map_values(|x: usize| x as int) == chosen_idx(entries_v(utxos@), target_value),
        r.0@.len() == r.1@.len(),
        forall|k: int| 0 <= k < r.0@.len() ==> r.0@[k]@ == entries_v(utxos@)[r.1@[k] as int],
{
    let ghost sv = entries_v(utxos@);
    proof {
        lemma_chosen(sv, target_value);
    }
    let n = utxos.len();
    let mut list: Vec<UnspentEntry> = Vec::new();
    let mut idx: Vec<usize> = Vec::new();
    if n <= 3 {
        let mut i: usize = 0;
        while i < n
            invariant
                i <= n,
                idx@.len() == i,
                forall|k: int| 0 <= k < i ==> idx@[k] == k,
                list@.len() == i,
                forall|k: int| 0 <= k < i ==> list@[k]@ == entries_v(utxos@)[idx@[k] as int],
            decreases n - i,
        {
            list.push(utxos[i].dup());
            idx.push(i);
            i = i + 1;
        }
        proof {
            assert(idx@.map_values(|x: usize| x as int) =~= chosen_idx(sv, target_value));
        }
        return (list, idx);
    }
    // look for the first entry that covers the target on its own
    let mut found: Option<usize> = None;
    let mut i: usize = 0;
    while i < n && found.is_none()
        invariant
            i <= n,
            n == utxos@.len(),
            match found {
                Some(f) => i == f && first_ge(sv, target_value, 0) == Some(f as int),
                None => first_ge(sv, target_value, 0) == first_ge(sv, target_value, i as int),
            },
        decreases n - i + (if found is None {
            1int
        } else {
            0int
        }),
    {
        if utxos[i].value >= target_value {
            found = Some(i);
        } else {
            i = i + 1;
        }
    }
    match found {
        Some(f) => {
            let picks: Vec<usize> = if f == 0 {
                let mut p: Vec<usize> = Vec::new();
                p.push(0);
                p.push(1);
                p.push(2);
                p
            } else if f == n - 1 {
                let mut p: Vec<usize> = Vec::new();
                p.push(0);
                p.push(n - 2);
                p.push(n - 1);
                p
            } else {
                // prefer another confirmed entry above the covering one
                let mut conf: Option<usize> = None;
                let mut j: usize = f + 1;
                while j < n && conf.is_none()
                    invariant
                        f + 1 <= j <= n,
                        n == utxos@.len(),
                        match conf {
                            Some(c) => j == c && first_conf(sv, f + 1 as int) == Some(c as int),
                            None => first_conf(sv, f + 1 as int) == first_conf(sv, j as int),
                        },
                    decreases n - j + (if conf is None {
                        1int
                    } else {
                        0int
                    }),
                {
                    if utxos[j].height > 0 {
                        conf = Some(j);
                    } else {
                        j = j + 1;
                    }
                }
                let mut p: Vec<usize> = Vec::new();
                p.push(0);
                p.push(f);
                match conf {
                    Some(c) => p.push(c),
                    None => p.push(n - 1),
                }
                p
            };
            let mut k: usize = 0;
            while k < picks.len()
                invariant
                    k <= picks.len(),
                    n == utxos@.len(),
                    forall|m: int| 0 <= m < picks@.len() ==> picks@[m] < n,
                    list@.len() == k,
                    forall|m: int| 0 <= m < k ==> list@[m]@ == entries_v(utxos@)[picks@[m] as int],
                decreases picks.len() - k,
            {
                list.push(utxos[picks[k]].dup());
                k = k + 1;
            }
            proof {
                assert(picks@.map_values(|x: usize| x as int) =~= chosen_idx(sv, target_value));
            }
            (list, picks)
        },
        None => {
            // nothing reaches the target: walk down from the large end
            let cap: usize = if n < 21 {
                n
            } else {
                21
            };
            let mut rem: u64 = target_value;
            let mut pos: usize = n - 1;
            let mut taken: usize = 0;
            let mut stop: bool = false;
            let ghost g = greedy_idx(sv, target_value as int, n - 1 as int, spec_cap(n as int));
            while !stop && taken < cap
                invariant
                    taken <= cap,
                    idx@.len() == taken,
                    list@.len() == taken,
                    forall|m: int| 0 <= m < taken ==> idx@[m] < n,
                    forall|m: int| 0 <= m < taken ==> g[m] == idx@[m] as int,
                    forall|m: int| 0 <= m < taken ==> list@[m]@ == entries_v(utxos@)[idx@[m] as int],
                    !stop ==> pos < n && pos as int == n - 1 - taken,
                    g.len() >= taken,
                    g.skip(taken as int) =~= (if !stop && taken < cap {
                        greedy_idx(sv, rem as int, pos as int, (cap - taken) as nat)
                    } else {
                        Seq::<int>::empty()
                    }),
                decreases (if stop {
                    0int
                } else {
                    1int
                }) + cap - taken,
            {
                let ghost tail = g.skip(taken as int);
                let ghost rem0 = rem;
                let ghost pos0 = pos as int;
                let ghost left0 = (cap - taken) as nat;
                let e = &utxos[pos];
                proof {
                    assert(sv[pos0] == utxos@[pos0]@);
                    if sv[pos0].value > rem0 {
                        assert(tail =~= seq![pos0]);
                    } else {
                        assert(tail =~= seq![pos0] + greedy_idx(
                            sv,
                            rem0 - sv[pos0].value,
                            pos0 - 1,
                            (left0 - 1) as nat,
                        ));
                    }
                }
                idx.push(pos);
                list.push(e.dup());
                taken = taken + 1;
                if e.value > rem {
                    stop = true;
                } else {
                    rem = rem - e.value;
                    if pos == 0 {
                        stop = true;
                    } else {
                        pos = pos - 1;
                    }
                }
                proof {
                    assert(g[taken - 1] == tail[0]);
                    assert(g.skip(taken as int) =~= tail.skip(1));
                    if sv[pos0].value > rem0 {
                        assert(tail.skip(1) =~= Seq::<int>::empty());
                    } else if pos0 == 0 {
                        assert(tail.skip(1) =~= greedy_idx(sv, rem as int, -1, (left0 - 1) as nat));
                    }
                }
            }
            proof {
                assert(g.len() == taken);
            }
            if idx.len() < 3 {
                idx.push(0);
                list.push(utxos[0].dup());
            }
            proof {
                assert(idx@.map_values(|x: usize| x as int) =~= chosen_idx(sv, target_value));
            }
            (list, idx)
        },
    }
}

/// The entries whose positions are not among the chosen indices, in order,
/// looking at the first `n` positions.
pub open spec fn remove_upto(s: Seq<EntryV>, picked: Seq<int>, n: int) -> Seq<EntryV>
    decreases n,
{
    if n <= 0 {
        Seq::empty()
    } else {
        remove_upto(s, picked, n - 1) + if picked.contains(n - 1) {
            Seq::empty()
        } else {
            seq![s[n - 1]]
        }
    }
}

/// Drops the chosen positions out of the pool.
#[verifier::loop_isolation(false)]
pub fn remove_chosen(pool: &Vec<UnspentEntry>, picked: &Vec<usize>) -> (r: Vec<UnspentEntry>)
    ensures
        entries_v(r@) == remove_upto(
            entries_v(pool@),
            picked@.map_values(|x: usize| x as int),
            pool@.len() as int,
        ),
{
    let ghost pv = picked@.map_values(|x: usize| x as int);
    let mut out: Vec<UnspentEntry> = Vec::new();
    let mut i: usize = 0;
    while i < pool.len()
        invariant
            i <= pool.len(),
            entries_v(out@) =~= remove_upto(entries_v(pool@), pv, i as int),
        decreases pool.len() - i,
    {
        let mut hit: bool = false;
        let mut j: usize = 0;
        while j < picked.len() && !hit
            invariant
                j <= picked.len(),
                hit ==> pv.contains(i as int),
                !hit ==> forall|m: int| 0 <= m < j ==> pv[m] != i as int,
            decreases picked.len() - j + (if hit {
                0int
            } else {
                1int
            }),
        {
            if picked[j] == i {
                proof {
                    assert(pv[j as int] == i as int);
                    assert(pv.contains(i as int));
                }
                hit = true;
            } else {
                proof {
                    assert(pv[j as int] == picked@[j as int] as int);
                }
                j = j + 1;
            }
        }
        if !hit {
            proof {
                assert(!pv.contains(i as int));
            }
            out.push(pool[i].dup());
        }
        i = i + 1;
    }
    out
}

/// How many positions the chosen indices strike out of the first `n`.
pub proof fn lemma_remove_count(s: Seq<EntryV>, picked: Seq<int>, n: int)
    requires
        forall|k1: int, k2: int| 0 <= k1 < k2 < picked.len() ==> picked[k1] != picked[k2],
        forall|k: int| 0 <= k < picked.len() ==> 0 <= #[trigger] picked[k] < n,
        n >= 0,
    ensures
        remove_upto(s, picked, n).len() == n - picked.len(),
    decreases n,
{
    if n == 0 {
        assert(picked.len() == 0) by {
            if picked.len() > 0 {
                assert(0 <= picked[0] < n);
            }
        }
    } else {
        if picked.contains(n - 1) {
            let k = choose|k: int| 0 <= k < picked.len() && picked[k] == n - 1;
            let sub = picked.remove(k);
            assert forall|m: int| 0 <= m < sub.len() implies 0 <= #[trigger] sub[m] < n - 1 by {
                if m < k {
                    assert(sub[m] == picked[m]);
                } else {
                    assert(sub[m] == picked[m + 1]);
                }
            }
            assert forall|m1: int, m2: int| 0 <= m1 < m2 < sub.len() implies sub[m1] != sub[m2] by {
                if m1 < k && m2 < k {
                    assert(sub[m1] == picked[m1] && sub[m2] == picked[m2]);
                } else if m1 < k {
                    assert(sub[m1] == picked[m1] && sub[m2] == picked[m2 + 1]);
                } else {
                    assert(sub[m1] == picked[m1 + 1] && sub[m2] == picked[m2 + 1]);
                }
            }
            assert forall|x: int| x < n - 1 implies (picked.contains(x) <==> sub.contains(
                x,
            )) by {
                if picked.contains(x) {
                    let w = choose|w: int| 0 <= w < picked.len() && picked[w] == x;
                    if w < k {
                        assert(sub[w] == x);
                    } else {
                        assert(w != k);
                        assert(sub[w - 1] == x);
                    }
                    assert(sub.contains(x));
                }
                if sub.contains(x) {
                    let w = choose|w: int| 0 <= w < sub.len() && sub[w] == x;
                    if w < k {
                        assert(picked[w] == x);
                    } else {
                        assert(picked[w + 1] == x);
                    }
                    assert(picked.contains(x));
                }
            }
            lemma_remove_count(s, sub, n - 1);
            lemma_remove_same(s, picked, sub, n - 1);
            assert(remove_upto(s, picked, n) =~= remove_upto(s, picked, n - 1));
        } else {
            assert(forall|m: int| 0 <= m < picked.len() ==> 0 <= #[trigger] picked[m] < n - 1);
            lemma_remove_count(s, picked, n - 1);
            assert(remove_upto(s, picked, n) =~= remove_upto(s, picked, n - 1) + seq![s[n - 1]]);
        }
    }
}

/// Every surviving entry is one of the first `n` entries of the pool.
pub proof fn lemma_remove_elems(s: Seq<EntryV>, picked: Seq<int>, n: int)
    ensures
        forall|m: int| 0 <= m < remove_upto(s, picked, n).len() ==> exists|w: int|
            0 <= w < n && #[trigger] remove_upto(s, picked, n)[m] == s[w],
    decreases n,
{
    if n > 0 {
        lemma_remove_elems(s, picked, n - 1);
        let cur = remove_upto(s, picked, n);
        let prev = remove_upto(s, picked, n - 1);
        assert forall|m: int| 0 <= m < cur.len() implies exists|w: int| 0 <= w < n
            && #[trigger] cur[m] == s[w] by {
            if m < prev.len() {
                assert(cur[m] == prev[m]);
                let w = choose|w: int| 0 <= w < n - 1 && prev[m] == s[w];
                assert(cur[m] == s[w]);
            } else {
                assert(cur[m] == s[n - 1]);
            }
        }
    }
}

/// Two index sets that agree below `n` strike out the same entries there.
pub proof fn lemma_remove_same(s: Seq<EntryV>, p1: Seq<int>, p2: Seq<int>, n: int)
    requires
        forall|x: int| x < n ==> (p1.contains(x) <==> p2.contains(x)),
    ensures
        remove_upto(s, p1, n) == remove_upto(s, p2, n),
    decreases n,
{
    if n > 0 {
        lemma_remove_same(s, p1, p2, n - 1);
        assert(remove_upto(s, p1, n) =~= remove_upto(s, p2, n));
    }
}

/// What serving the first `i` targets selects out of a sorted pool, and the
/// pool that remains: each target takes `chosen_idx` of the current pool and
/// consumes it.
pub open spec fn select_loop(pool: Seq<EntryV>, amounts: Seq<u64>, i: int) -> (
    Seq<EntryV>,
    Seq<EntryV>,
)
    decreases i,
{
    if i <= 0 {
        (Seq::<EntryV>::empty(), pool)
    } else {
        let prev = select_loop(pool, amounts, i - 1);
        let picked = chosen_idx(prev.1, amounts[i - 1]);
        (
            prev.0 + Seq::new(picked.len(), |k: int| prev.1[picked[k]]),
            remove_upto(prev.1, picked, prev.1.len() as int),
        )
    }
}

/// The whole request: filter, sort, then serve each target in order.
///
/// The outcome is the fold of `chosen_idx` over some ascending arrangement
/// of the kept entries; at least `min(3 k, m)` entries come back for `k`
/// targets over `m` kept entries, and every entry served passes the
/// pre-filter.
#[verifier::loop_isolation(false)]
pub fn select_unspent(
    unspent: &Vec<UnspentEntry>,
    amounts: &Vec<u64>,
    min_amount: u64,
    confirmed: bool,
) -> (r: Vec<UnspentEntry>)
    ensures
        forall|k: int| 0 <= k < r@.len() ==> keeps(#[trigger] r@[k]@, min_amount, confirmed),
        amounts@.len() > 0 ==> r@.len() >= vstd::math::min(
            3 * amounts@.len() as int,
            spec_filter(entries_v(unspent@), min_amount, confirmed).len() as int,
        ),
        exists|s: Seq<EntryV>|
            sorted_by_value(s) && s.to_multiset() == spec_filter(
                entries_v(unspent@),
                min_amount,
                confirmed,
            ).to_multiset() && entries_v(r@) == #[trigger] select_loop(
                s,
                amounts@,
                amounts@.len() as int,
            ).0,
{
    broadcast use vstd::seq_lib::group_to_multiset_ensures;

    let filtered = filter_entries(unspent, min_amount, confirmed);
    let ghost m = spec_filter(entries_v(unspent@), min_amount, confirmed).len() as int;
    let mut pool = sort_by_value(filtered);
    proof {
        assert forall|k: int| 0 <= k < pool@.len() implies keeps(
            #[trigger] pool@[k]@,
            min_amount,
            confirmed,
        ) by {
            let pv = entries_v(pool@);
            assert(pv.to_multiset().contains(pv[k]));
            let fv = spec_filter(entries_v(unspent@), min_amount, confirmed);
            assert(fv.to_multiset().contains(pv[k]));
            assert(fv.contains(pv[k]));
            let w = choose|w: int| 0 <= w < fv.len() && fv[w] == pv[k];
            assert(keeps(fv[w], min_amount, confirmed));
        }
    }
    let ghost s0 = entries_v(pool@);
    let mut out: Vec<UnspentEntry> = Vec::new();
    let mut a: usize = 0;
    while a < amounts.len()
        invariant
            a <= amounts.len(),
            out@.len() + pool@.len() == m,
            pool@.len() == 0 || out@.len() >= 3 * a,
            forall|k: int| 0 <= k < pool@.len() ==> keeps(#[trigger] pool@[k]@, min_amount, confirmed),
            forall|k: int| 0 <= k < out@.len() ==> keeps(#[trigger] out@[k]@, min_amount, confirmed),
            entries_v(out@) == select_loop(s0, amounts@, a as int).0,
            entries_v(pool@) == select_loop(s0, amounts@, a as int).1,
        decreases amounts.len() - a,
    {
        let ghost pv = entries_v(pool@);
        proof {
            lemma_chosen(pv, amounts@[a as int]);
        }
        let (mut part, picks) = select_utxos(&pool, amounts[a]);
        let next = remove_chosen(&pool, &picks);
        proof {
            let pi = picks@.map_values(|x: usize| x as int);
            assert(pi =~= chosen_idx(pv, amounts@[a as int]));
            lemma_remove_count(pv, pi, pv.len() as int);
            lemma_remove_elems(pv, pi, pv.len() as int);
            assert forall|k: int| 0 <= k < part@.len() implies keeps(
                #[trigger] part@[k]@,
                min_amount,
                confirmed,
            ) by {
                assert(pi[k] == picks@[k] as int);
                assert(part@[k]@ == pv[picks@[k] as int]);
                assert(pv[pi[k]] == pool@[pi[k]]@);
            }
            assert forall|k: int| 0 <= k < next@.len() implies keeps(
                #[trigger] next@[k]@,
                min_amount,
                confirmed,
            ) by {
                let nv = entries_v(next@);
                assert(nv[k] == next@[k]@);
                let w = choose|w: int| 0 <= w < pv.len() && nv[k] == pv[w];
                assert(pv[w] == pool@[w]@);
            }
            if pool@.len() >= 3 {
                assert(part@.len() >= 3);
            } else if pool@.len() > 0 {
                assert(part@.len() == pool@.len());
                assert(next@.len() == 0);
            } else {
                assert(part@.len() == 0);
                assert(next@.len() == 0);
            }
        }
        proof {
            let picked = chosen_idx(pv, amounts@[a as int]);
            assert(entries_v(part@) =~= Seq::new(picked.len(), |k: int| pv[picked[k]]));
            assert(entries_v(out@) + entries_v(part@) =~= select_loop(
                s0,
                amounts@,
                a + 1 as int,
            ).0);
        }
        out.append(&mut part);
        pool = next;
        a = a + 1;
        proof {
            assert(entries_v(out@) =~= select_loop(s0, amounts@, a as int).0);
        }
    }
    proof {
        assert(sorted_by_value(s0) && s0.to_multiset() == spec_filter(
            entries_v(unspent@),
            min_amount,
            confirmed,
        ).to_multiset() && entries_v(out@) == select_loop(s0, amounts@, amounts@.len() as int).0);
    }
    out
}

} // verus!
