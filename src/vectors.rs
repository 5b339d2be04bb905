use std::collections::HashSet;
use vstd::prelude::*;

verus! {

broadcast use vstd::std_specs::hash::group_hash_axioms;

/// True iff adding `n` to every element of `s` stays within `i32`.
pub open spec fn add_fits(s: Seq<i32>, n: i32) -> bool {
    forall|i: int| 0 <= i < s.len() ==> i32::MIN <= #[trigger] s[i] + n <= i32::MAX
}

/// A copy of `v` with `n` added to every element.
pub fn add_n(v: Vec<i32>, n: i32) -> (r: Vec<i32>)
    requires
        add_fits(v@, n),
    ensures
        r@.len() == v@.len(),
        forall|i: int| 0 <= i < v@.len() ==> #[trigger] r@[i] == v@[i] + n,
{
    let mut new_v: Vec<i32> = Vec::new();
    let mut i: usize = 0;
    while i < v.len()
        invariant
            i <= v@.len(),
            add_fits(v@, n),
            new_v@.len() == i,
            forall|j: int| 0 <= j < i ==> #[trigger] new_v@[j] == v@[j] + n,
        decreases v.len() - i,
    {
        let x = v[i];
        assert(i32::MIN <= v@[i as int] + n <= i32::MAX);
        new_v.push(x + n);
        i = i + 1;
    }
    new_v
}

/// Adds `n` to every element of `v` in place.
pub fn add_n_inplace(v: &mut Vec<i32>, n: i32)
    requires
        add_fits(old(v)@, n),
    ensures
        final(v)@.len() == old(v)@.len(),
        forall|i: int| 0 <= i < old(v)@.len() ==> #[trigger] final(v)@[i] == old(v)@[i] + n,
{
    let mut i: usize = 0;
    while i < v.len()
        invariant
            i <= v@.len(),
            v@.len() == old(v)@.len(),
            add_fits(old(v)@, n),
            forall|j: int| 0 <= j < i ==> #[trigger] v@[j] == old(v)@[j] + n,
            forall|j: int| i <= j < v@.len() ==> #[trigger] v@[j] == old(v)@[j],
        decreases v.len() - i,
    {
        let x = v[i];
        assert(i32::MIN <= old(v)@[i as int] + n <= i32::MAX);
        v.set(i, x + n);
        i = i + 1;
    }
}

/// `s` with every element after its first occurrence left out, order kept.
pub open spec fn first_occurrences(s: Seq<i32>) -> Seq<i32>
    decreases s.len(),
{
    if s.len() == 0 {
        Seq::empty()
    } else {
        let t = first_occurrences(s.drop_last());
        if s.drop_last().contains(s.last()) {
            t
        } else {
            t.push(s.last())
        }
    }
}

/// Removes repeated elements from `v`, keeping the first occurrence of each.
pub fn dedup(v: &mut Vec<i32>)
    ensures
        final(v)@ == first_occurrences(old(v)@),
{
    let mut nums: HashSet<i32> = HashSet::new();
    let mut kept: Vec<i32> = Vec::new();
    let mut i: usize = 0;
    while i < v.len()
        invariant
            i <= v@.len(),
            kept@ == first_occurrences(v@.subrange(0, i as int)),
            forall|x: i32| nums@.contains(x) <==> v@.subrange(0, i as int).contains(x),
        decreases v.len() - i,
    {
        let item = v[i];
        let ghost pre = v@.subrange(0, i as int);
        let ghost next = v@.subrange(0, i + 1);
        assert(next.drop_last() =~= pre);
        assert(next.last() == item);
        if !nums.contains(&item) {
            nums.insert(item);
            kept.push(item);
        }
        assert forall|x: i32| nums@.contains(x) <==> next.contains(x) by {
            if next.contains(x) && x != item {
                let k = choose|k: int| 0 <= k < next.len() && next[k] == x;
                assert(pre[k] == x);
            }
            if pre.contains(x) {
                let k = choose|k: int| 0 <= k < pre.len() && pre[k] == x;
                assert(next[k] == x);
            }
            assert(next[i as int] == item);
        }
        i = i + 1;
    }
    assert(v@.subrange(0, i as int) =~= v@);
    *v = kept;
}

} // verus!
