use std::collections::HashMap;
use vstd::prelude::*;
use vstd::std_specs::iter::IteratorSpec;

verus! {

broadcast use vstd::std_specs::hash::group_hash_axioms;

/// The keys of `m`, each once, in the map's own order.
pub fn key_list<V>(m: &HashMap<u64, V>) -> (r: Vec<u64>)
    ensures
        r@.no_duplicates(),
        forall|x: u64| r@.contains(x) <==> m@.contains_key(x),
{
    let mut out: Vec<u64> = Vec::new();
    let ghost all = vstd::std_specs::hash::spec_keys_iter(m).remaining().unref();
    proof {
        broadcast use vstd::std_specs::hash::axiom_spec_keys_iter;
    }
    for k in it: m.keys()
        invariant
            it.seq().unref() == all,
            all.to_set() == m@.dom(),
            all.no_duplicates(),
            out@ == all.take(it.index() as int),
    {
        assert(all[it.index() as int] == *k);
        out.push(*k);
        assert(out@ =~= all.take(it.index() + 1));
    }
    assert(out@ =~= all);
    assert forall|x: u64| out@.contains(x) <==> m@.contains_key(x) by {
        assert(all.to_set().contains(x) == all.contains(x));
    }
    out
}

/// `s` is strictly increasing.
pub open spec fn strictly_increasing(s: Seq<u64>) -> bool {
    forall|i: int, j: int| 0 <= i < j < s.len() ==> s[i] < s[j]
}

/// The distinct numbers of `v`, in increasing order.
pub fn sorted_ids(v: &Vec<u64>) -> (r: Vec<u64>)
    requires
        v@.no_duplicates(),
    ensures
        r@.len() == v@.len(),
        strictly_increasing(r@),
        forall|x: u64| r@.contains(x) <==> v@.contains(x),
{
    let mut out: Vec<u64> = Vec::new();
    let mut i: usize = 0;
    while i < v.len()
        invariant
            v@.no_duplicates(),
            i <= v@.len(),
            out@.len() == i,
            strictly_increasing(out@),
            forall|x: u64| out@.contains(x) <==> v@.take(i as int).contains(x),
        decreases v@.len() - i,
    {
        let x = v[i];
        let ghost before = out@;
        assert(v@.take(i + 1) =~= v@.take(i as int).push(x));
        assert(!v@.take(i as int).contains(x)) by {
            if v@.take(i as int).contains(x) {
                let k = choose|k: int| 0 <= k < i && v@.take(i as int)[k] == x;
                assert(v@[k] == v@[i as int]);
            }
        }
        assert(!before.contains(x));
        let mut pos: usize = 0;
        while pos < out.len() && out[pos] < x
            invariant
                pos <= out@.len(),
                out@ == before,
                forall|k: int| 0 <= k < pos ==> out@[k] < x,
            decreases out@.len() - pos,
        {
            pos = pos + 1;
        }
        out.insert(pos, x);
        assert(out@ =~= before.take(pos as int).push(x) + before.skip(pos as int));
        assert forall|a: int, b: int| 0 <= a < b < out@.len() implies out@[a] < out@[b] by {
            if b < pos {
            } else if b == pos {
            } else if a < pos {
                assert(before[a] < x);
                assert(out@[b] == before[b - 1]);
                assert(pos < before.len());
                assert(before[pos as int] != x);
                assert(x < before[pos as int]);
            } else if a == pos {
                assert(out@[b] == before[b - 1]);
                assert(before[pos as int] != x) by {
                    assert(before.contains(before[pos as int]));
                }
                if b - 1 > pos {
                    assert(before[pos as int] < before[b - 1]);
                }
            } else {
                assert(out@[a] == before[a - 1] && out@[b] == before[b - 1]);
            }
        }
        assert forall|y: u64| out@.contains(y) <==> v@.take(i + 1).contains(y) by {
            let t0 = v@.take(i as int);
            let t1 = v@.take(i + 1);
            if out@.contains(y) {
                let k = choose|k: int| 0 <= k < out@.len() && out@[k] == y;
                if k == pos {
                    assert(t1[i as int] == y);
                } else {
                    if k < pos {
                        assert(out@[k] == before[k]);
                        assert(before.contains(y));
                    } else {
                        assert(out@[k] == before[k - 1]);
                        assert(before.contains(y));
                    }
                    assert(t0.contains(y));
                    let k2 = choose|k2: int| 0 <= k2 < t0.len() && t0[k2] == y;
                    assert(t1[k2] == y);
                }
            }
            if t1.contains(y) {
                let k = choose|k: int| 0 <= k < t1.len() && t1[k] == y;
                if k == i {
                    assert(out@[pos as int] == y);
                } else {
                    assert(t0[k] == y);
                    assert(t0.contains(y));
                    assert(before.contains(y));
                    let k3 = choose|k3: int| 0 <= k3 < before.len() && before[k3] == y;
                    if k3 < pos {
                        assert(out@[k3] == y);
                    } else {
                        assert(out@[k3 + 1] == y);
                    }
                }
            }
        }
        i = i + 1;
    }
    assert(v@.take(v@.len() as int) =~= v@);
    out
}

} // verus!
