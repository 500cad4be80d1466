//! Lists.

use vstd::prelude::*;

verus! {

/// Append a copy of `from` to `to`.
pub fn append_copy<T: Copy>(to: &mut Vec<T>, from: &Vec<T>)
    ensures
        final(to)@ == old(to)@ + from@,
{
    let ghost before = to@;
    let mut i: usize = 0;
    while i < from.len()
        invariant
            i <= from@.len(),
            to@ =~= before + from@.take(i as int),
        decreases from@.len() - i,
    {
        to.push(from[i]);
        i = i + 1;
    }
    assert(from@.take(i as int) =~= from@);
}

/// A copy of `from`.
pub fn copy_of<T: Copy>(from: &[T]) -> (to: Vec<T>)
    ensures
        to@ == from@,
{
    let num = from.len();
    let mut to: Vec<T> = Vec::with_capacity(num);
    let mut i: usize = 0;
    while i < num
        invariant
            i <= num == from@.len(),
            to@ =~= from@.take(i as int),
        decreases num - i,
    {
        to.push(from[i]);
        i = i + 1;
    }
    assert(from@.take(i as int) =~= from@);
    to
}

/// Where in a sequence of equally long sequences, one after the other, an item stands.
pub proof fn lemma_flat_index<T>(lists: Seq<Seq<T>>, len: nat, u: int, k: int)
    requires
        forall|i: int| 0 <= i < lists.len() ==> (#[trigger] lists[i]).len() == len,
        0 <= u < lists.len(),
        0 <= k < len,
    ensures
        0 <= u * len + k < lists.flatten().len(),
        lists.flatten()[u * len + k] == lists[u][k],
    decreases lists.len(),
{
    let first = lists.first();
    let rest = lists.drop_first();
    lemma_flat_len(rest, len);
    assert(first == lists[0]);
    if u == 0 {
        assert(0 * len == 0);
    } else {
        lemma_flat_index(rest, len, u - 1, k);
        assert(rest[u - 1] == lists[u]);
        assert(u * len + k == len + ((u - 1) * len + k)) by (nonlinear_arith);
    }
}

/// How long equally long sequences are, one after the other.
pub proof fn lemma_flat_len<T>(lists: Seq<Seq<T>>, len: nat)
    requires
        forall|i: int| 0 <= i < lists.len() ==> (#[trigger] lists[i]).len() == len,
    ensures
        lists.flatten().len() == lists.len() * len,
    decreases lists.len(),
{
    if lists.len() == 0 {
        assert(0 * len == 0);
    } else {
        let rest = lists.drop_first();
        assert(lists.first() == lists[0]);
        assert forall|i: int| 0 <= i < rest.len() implies (#[trigger] rest[i]).len() == len by {
            assert(rest[i] == lists[i + 1]);
        }
        lemma_flat_len(rest, len);
        let n = lists.len();
        assert(n * len == len + (n - 1) * len) by (nonlinear_arith)
            requires
                n > 0,
        ;
    }
}

} // verus!
