//! Ordering of statistics: the largest entries first.
use vstd::multiset::Multiset;
use vstd::prelude::*;

verus! {

broadcast use vstd::seq_lib::group_seq_properties;

/// An entry that is ranked by an amount and grouped by a key.
pub trait Ranked: Sized {
    type Key;

    spec fn rank(&self) -> int;

    spec fn group_key(&self) -> Self::Key;

    fn rank_value(&self) -> (r: i64)
        ensures
            r as int == self.rank(),
    ;
}

/// No two entries of `s` share a key.
pub open spec fn distinct_keys<T: Ranked>(s: Seq<T>) -> bool {
    forall|i: int, j: int|
        0 <= i < s.len() && 0 <= j < s.len() && i != j ==> s[i].group_key() != s[j].group_key()
}

/// Entries are in non-increasing order of rank.
pub open spec fn sorted_desc<T: Ranked>(s: Seq<T>) -> bool {
    forall|i: int, j: int| 0 <= i <= j < s.len() ==> s[i].rank() >= s[j].rank()
}

pub open spec fn min_nat(a: int, b: int) -> int {
    if a <= b {
        a
    } else {
        b
    }
}

/// `out[i]` is the entry `idx[i]` of `v`, no entry is taken twice, equal
/// ranks keep their order in `v`, and an entry of `v` left out comes after
/// every kept entry of the same rank.
pub open spec fn stable_pick<T: Ranked>(v: Seq<T>, out: Seq<T>, idx: Seq<int>) -> bool {
    &&& idx.len() == out.len()
    &&& forall|i: int| 0 <= i < out.len() ==> 0 <= #[trigger] idx[i] < v.len() && out[i] == v[idx[i]]
    &&& forall|i: int, j: int| 0 <= i < out.len() && 0 <= j < out.len() && i != j ==> idx[i] != idx[j]
    &&& forall|i: int, j: int|
        0 <= i < j < out.len() && out[i].rank() == out[j].rank() ==> idx[i] < idx[j]
    &&& forall|m: int, i: int|
        0 <= m < v.len() && !idx.contains(m) && 0 <= i < out.len() && v[m].rank() == out[i].rank()
            ==> idx[i] < m
}

/// Among equal ranks, entries are kept and listed in the order of `v`.
pub open spec fn picked_stably<T: Ranked>(v: Seq<T>, out: Seq<T>) -> bool {
    exists|idx: Seq<int>| stable_pick(v, out, idx)
}

/// `s[i]` is the entry `idx[i]` of `orig`, and `idx` is increasing.
pub open spec fn tracks_in_order<T>(orig: Seq<T>, s: Seq<T>, idx: Seq<int>) -> bool {
    &&& idx.len() == s.len()
    &&& forall|i: int| 0 <= i < s.len() ==> 0 <= #[trigger] idx[i] < orig.len() && s[i] == orig[idx[i]]
    &&& forall|i: int, j: int| 0 <= i < j < s.len() ==> idx[i] < idx[j]
}

/// Taking the first entry of highest rank from `rest` (position `best`)
/// keeps the index bookkeeping of `select_top`.
proof fn lemma_stable_step<T: Ranked>(
    orig: Seq<T>,
    out: Seq<T>,
    rest: Seq<T>,
    oidx: Seq<int>,
    ridx: Seq<int>,
    best: int,
    out2: Seq<T>,
    rest2: Seq<T>,
)
    requires
        0 <= best < rest.len(),
        forall|i: int| 0 <= i < rest.len() ==> (#[trigger] rest[i]).rank() <= rest[best].rank(),
        forall|i: int| 0 <= i < best ==> (#[trigger] rest[i]).rank() < rest[best].rank(),
        out2 == out.push(rest[best]),
        rest2 == rest.remove(best),
        tracks_in_order(orig, rest, ridx),
        oidx.len() == out.len(),
        forall|i: int| 0 <= i < out.len() ==> 0 <= #[trigger] oidx[i] < orig.len() && out[i] == orig[oidx[i]],
        forall|i: int, j: int| 0 <= i < out.len() && 0 <= j < out.len() && i != j ==> oidx[i] != oidx[j],
        forall|i: int, j: int| 0 <= i < out.len() && 0 <= j < rest.len() ==> oidx[i] != ridx[j],
        forall|m: int| 0 <= m < orig.len() ==> oidx.contains(m) || ridx.contains(m),
        forall|i: int, j: int| 0 <= i < j < out.len() && out[i].rank() == out[j].rank() ==> oidx[i] < oidx[j],
        forall|i: int, j: int|
            0 <= i < out.len() && 0 <= j < rest.len() && out[i].rank() == rest[j].rank() ==> oidx[i] < ridx[j],
    ensures
        ({
            let oidx2 = oidx.push(ridx[best]);
            let ridx2 = ridx.remove(best);
            &&& tracks_in_order(orig, rest2, ridx2)
            &&& oidx2.len() == out2.len()
            &&& forall|i: int|
                0 <= i < out2.len() ==> 0 <= #[trigger] oidx2[i] < orig.len() && out2[i] == orig[oidx2[i]]
            &&& forall|i: int, j: int|
                0 <= i < out2.len() && 0 <= j < out2.len() && i != j ==> oidx2[i] != oidx2[j]
            &&& forall|i: int, j: int| 0 <= i < out2.len() && 0 <= j < rest2.len() ==> oidx2[i] != ridx2[j]
            &&& forall|m: int| 0 <= m < orig.len() ==> oidx2.contains(m) || ridx2.contains(m)
            &&& forall|i: int, j: int|
                0 <= i < j < out2.len() && out2[i].rank() == out2[j].rank() ==> oidx2[i] < oidx2[j]
            &&& forall|i: int, j: int|
                0 <= i < out2.len() && 0 <= j < rest2.len() && out2[i].rank() == rest2[j].rank() ==> oidx2[i]
                    < ridx2[j]
        }),
{
    let b = ridx[best];
    let oidx2 = oidx.push(b);
    let ridx2 = ridx.remove(best);
    let n: int = out.len() as int;
    assert forall|j: int| 0 <= j < rest2.len() implies ridx2[j] == if j < best {
        ridx[j]
    } else {
        ridx[j + 1]
    } && rest2[j] == if j < best {
        rest[j]
    } else {
        rest[j + 1]
    } by {}
    assert forall|i: int| 0 <= i < rest2.len() implies 0 <= #[trigger] ridx2[i] < orig.len() && rest2[i]
        == orig[ridx2[i]] by {
        if i >= best {
            assert(ridx[i + 1] < orig.len());
        }
    }
    assert forall|i: int, j: int| 0 <= i < j < rest2.len() implies ridx2[i] < ridx2[j] by {
        let a = if i < best { i } else { i + 1 };
        let c = if j < best { j } else { j + 1 };
        assert(ridx[a] < ridx[c]);
    }
    assert forall|i: int| 0 <= i < out2.len() implies 0 <= #[trigger] oidx2[i] < orig.len() && out2[i]
        == orig[oidx2[i]] by {
        if i == n {
            assert(ridx[best] < orig.len());
        }
    }
    assert forall|i: int, j: int| 0 <= i < out2.len() && 0 <= j < out2.len() && i != j implies oidx2[i]
        != oidx2[j] by {
        if i == n {
            assert(oidx[j] != ridx[best]);
        } else if j == n {
            assert(oidx[i] != ridx[best]);
        }
    }
    assert forall|i: int, j: int| 0 <= i < out2.len() && 0 <= j < rest2.len() implies oidx2[i]
        != ridx2[j] by {
        let c = if j < best { j } else { j + 1 };
        assert(ridx2[j] == ridx[c]);
        if i == n {
            if c < best {
                assert(ridx[c] < ridx[best]);
            } else {
                assert(ridx[best] < ridx[c]);
            }
        } else {
            assert(oidx[i] != ridx[c]);
        }
    }
    assert forall|m: int| 0 <= m < orig.len() implies oidx2.contains(m) || ridx2.contains(m) by {
        if oidx.contains(m) {
            let i = choose|i: int| 0 <= i < oidx.len() && oidx[i] == m;
            assert(oidx2[i] == m);
        } else {
            assert(ridx.contains(m));
            let j = choose|j: int| 0 <= j < ridx.len() && ridx[j] == m;
            if j == best {
                assert(oidx2[n] == m);
            } else if j < best {
                assert(ridx2[j] == m);
            } else {
                assert(ridx2[j - 1] == m);
            }
        }
    }
    assert forall|i: int, j: int|
        0 <= i < j < out2.len() && out2[i].rank() == out2[j].rank() implies oidx2[i] < oidx2[j] by {
        if j == n {
            assert(out2[j] == rest[best]);
            assert(oidx[i] < ridx[best]);
        }
    }
    assert forall|i: int, j: int|
        0 <= i < out2.len() && 0 <= j < rest2.len() && out2[i].rank() == rest2[j].rank() implies oidx2[i]
        < ridx2[j] by {
        let c = if j < best { j } else { j + 1 };
        assert(rest2[j] == rest[c]);
        assert(ridx2[j] == ridx[c]);
        if i == n {
            assert(out2[i] == rest[best]);
            if c < best {
                assert(rest[c].rank() < rest[best].rank());
            } else {
                assert(ridx[best] < ridx[c]);
            }
        } else {
            assert(oidx[i] < ridx[c]);
        }
    }
}

/// The `k` largest entries of `v`, largest first: the result is drawn from
/// `v` (as a multiset), holds `min(k, |v|)` entries in non-increasing order,
/// and every entry of `v` left out ranks no higher than the last one kept.
/// Among equal ranks the earlier entry of `v` is taken first.
pub fn select_top<T: Ranked>(v: Vec<T>, k: usize) -> (out: Vec<T>)
    ensures
        out@.len() == min_nat(k as int, v@.len() as int),
        sorted_desc(out@),
        out@.to_multiset().subset_of(v@.to_multiset()),
        out@.len() == v@.len() ==> out@.to_multiset() == v@.to_multiset(),
        forall|x: T|
            v@.to_multiset().count(x) > out@.to_multiset().count(x) ==> out@.len() == k && (out@.len()
                > 0 ==> x.rank() <= out@.last().rank()),
        forall|i: int| 0 <= i < out@.len() ==> v@.contains(#[trigger] out@[i]),
        distinct_keys(v@) ==> distinct_keys(out@),
        picked_stably(v@, out@),
{
    let ghost orig = v@;
    let mut rest = v;
    let mut out: Vec<T> = Vec::new();
    let ghost mut oidx: Seq<int> = Seq::empty();
    let ghost mut ridx: Seq<int> = Seq::new(orig.len(), |i: int| i);
    proof {
        assert forall|m: int| 0 <= m < orig.len() implies oidx.contains(m) || ridx.contains(m) by {
            assert(ridx[m] == m);
        }
        assert(out@.to_multiset() =~= Multiset::empty());
        assert(out@.to_multiset().add(rest@.to_multiset()) =~= orig.to_multiset());
    }
    while out.len() < k && rest.len() > 0
        invariant
            out@.len() + rest@.len() == orig.len(),
            out@.len() <= k,
            out@.to_multiset().add(rest@.to_multiset()) == orig.to_multiset(),
            sorted_desc(out@),
            out@.len() > 0 ==> forall|i: int|
                0 <= i < rest@.len() ==> (#[trigger] rest@[i]).rank() <= out@.last().rank(),
            distinct_keys(orig) ==> distinct_keys(out@),
            distinct_keys(orig) ==> distinct_keys(rest@),
            distinct_keys(orig) ==> forall|i: int, j: int|
                0 <= i < out@.len() && 0 <= j < rest@.len() ==> out@[i].group_key()
                    != rest@[j].group_key(),
            tracks_in_order(orig, rest@, ridx),
            oidx.len() == out@.len(),
            forall|i: int| 0 <= i < out@.len() ==> 0 <= #[trigger] oidx[i] < orig.len() && out@[i] == orig[oidx[i]],
            forall|i: int, j: int| 0 <= i < out@.len() && 0 <= j < out@.len() && i != j ==> oidx[i] != oidx[j],
            forall|i: int, j: int| 0 <= i < out@.len() && 0 <= j < rest@.len() ==> oidx[i] != ridx[j],
            forall|m: int| 0 <= m < orig.len() ==> oidx.contains(m) || ridx.contains(m),
            forall|i: int, j: int|
                0 <= i < j < out@.len() && out@[i].rank() == out@[j].rank() ==> oidx[i] < oidx[j],
            forall|i: int, j: int|
                0 <= i < out@.len() && 0 <= j < rest@.len() && out@[i].rank() == rest@[j].rank() ==> oidx[i]
                    < ridx[j],
        decreases rest@.len(),
    {
        let n = rest.len();
        let mut best: usize = 0;
        let mut best_rank = rest[0].rank_value();
        let mut j: usize = 1;
        while j < n
            invariant
                n == rest@.len(),
                1 <= j <= n,
                best < j,
                best_rank == rest@[best as int].rank(),
                forall|i: int| 0 <= i < j ==> (#[trigger] rest@[i]).rank() <= best_rank,
                forall|i: int| 0 <= i < best ==> (#[trigger] rest@[i]).rank() < best_rank,
            decreases n - j,
        {
            let r = rest[j].rank_value();
            if r > best_rank {
                best = j;
                best_rank = r;
            }
            j = j + 1;
        }
        let ghost old_out = out@;
        let ghost old_rest = rest@;
        let ghost old_oidx = oidx;
        let ghost old_ridx = ridx;
        let ghost b = ridx[best as int];
        let x = rest.remove(best);
        proof {
            assert(x == old_rest[best as int]);
            old_rest.to_multiset_ensures();
            old_out.to_multiset_ensures();
        }
        out.push(x);
        proof {
            oidx = old_oidx.push(b);
            ridx = old_ridx.remove(best as int);
            lemma_stable_step(orig, old_out, old_rest, old_oidx, old_ridx, best as int, out@, rest@);
            assert(out@ == old_out.push(x));
            assert(rest@ == old_rest.remove(best as int));
            assert(out@.to_multiset() == old_out.to_multiset().insert(x));
            assert(rest@.to_multiset() == old_rest.to_multiset().remove(x));
            assert(old_rest.to_multiset().count(x) > 0) by {
                assert(old_rest.contains(x));
            }
            assert(out@.to_multiset().add(rest@.to_multiset()) =~= orig.to_multiset());
            assert forall|i: int, jj: int| 0 <= i <= jj < out@.len() implies out@[i].rank()
                >= out@[jj].rank() by {
                if jj == out@.len() - 1 && i < jj {
                    assert(old_rest[best as int].rank() <= old_out.last().rank());
                }
            }
            assert forall|i: int| 0 <= i < rest@.len() implies (
            #[trigger] rest@[i]).rank() <= out@.last().rank() by {
                if i < best {
                    assert(rest@[i] == old_rest[i]);
                } else {
                    assert(rest@[i] == old_rest[i + 1]);
                }
            }
            if distinct_keys(orig) {
                assert forall|a: int, b: int|
                    0 <= a < out@.len() && 0 <= b < out@.len() && a != b implies out@[a].group_key()
                    != out@[b].group_key() by {
                    if a == out@.len() - 1 {
                        assert(old_rest[best as int] == x);
                    } else if b == out@.len() - 1 {
                        assert(old_rest[best as int] == x);
                    }
                }
                assert forall|a: int, b: int|
                    0 <= a < rest@.len() && 0 <= b < rest@.len() && a != b implies rest@[a].group_key()
                    != rest@[b].group_key() by {
                    let ia = if a < best {
                        a
                    } else {
                        a + 1
                    };
                    let ib = if b < best {
                        b
                    } else {
                        b + 1
                    };
                    assert(rest@[a] == old_rest[ia]);
                    assert(rest@[b] == old_rest[ib]);
                }
                assert forall|a: int, b: int|
                    0 <= a < out@.len() && 0 <= b < rest@.len() implies out@[a].group_key()
                    != rest@[b].group_key() by {
                    let ib = if b < best {
                        b
                    } else {
                        b + 1
                    };
                    assert(rest@[b] == old_rest[ib]);
                    if a == out@.len() - 1 {
                        assert(out@[a] == old_rest[best as int]);
                    }
                }
            }
        }
    }
    proof {
        rest@.to_multiset_ensures();
        out@.to_multiset_ensures();
        orig.to_multiset_ensures();
        if out@.len() == orig.len() {
            assert(rest@.len() == 0);
            assert(rest@.to_multiset().len() == 0);
            assert(rest@.to_multiset() =~= Multiset::empty());
            assert(out@.to_multiset() =~= orig.to_multiset());
        }
        assert forall|x: T|
            orig.to_multiset().count(x) > out@.to_multiset().count(x) implies out@.len() == k && (
            out@.len() > 0 ==> x.rank() <= out@.last().rank()) by {
            assert(rest@.to_multiset().count(x) > 0);
            assert(rest@.contains(x));
            let i = choose|i: int| 0 <= i < rest@.len() && rest@[i] == x;
            assert(rest@[i] == x);
        }
        assert forall|m: int, i: int|
            0 <= m < orig.len() && !oidx.contains(m) && 0 <= i < out@.len() && orig[m].rank()
                == out@[i].rank() implies oidx[i] < m by {
            assert(ridx.contains(m));
            let j = choose|j: int| 0 <= j < ridx.len() && ridx[j] == m;
            assert(rest@[j] == orig[m]);
        }
        assert(stable_pick(orig, out@, oidx));
        assert forall|i: int| 0 <= i < out@.len() implies orig.contains(#[trigger] out@[i]) by {
            assert(out@.contains(out@[i]));
            assert(out@.to_multiset().count(out@[i]) > 0);
            assert(orig.to_multiset().count(out@[i]) > 0);
        }
    }
    out
}

} // verus!
