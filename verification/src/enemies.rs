use vstd::prelude::*;

use crate::game::{pos_differs, Pos};

verus! {

/// Declares heapless's fixed-capacity vector to Verus as an opaque type.
#[verifier::external_type_specification]
#[verifier::external_body]
#[verifier::reject_recursive_types(T)]
pub struct ExHeaplessVec<T, const N: usize>(heapless::Vec<T, N>);

/// The positions that a fixed-capacity vector of enemies holds, in order.
pub uninterp spec fn enemy_seq(v: heapless::Vec<Pos, 25>) -> Seq<Pos>;

/// `heapless::Vec::new`: a vector that holds nothing.
#[verifier::external_body]
pub(crate) fn enemies_new() -> (v: heapless::Vec<Pos, 25>)
    ensures
        enemy_seq(v) == Seq::<Pos>::empty(),
{
    heapless::Vec::new()
}

/// The slice length of a `heapless::Vec` (through its `Deref` to a slice):
/// the number of items it holds, which never exceeds its capacity.
#[verifier::external_body]
pub(crate) fn enemies_len(v: &heapless::Vec<Pos, 25>) -> (n: usize)
    ensures
        n == enemy_seq(*v).len(),
        n <= 25,
{
    v.len()
}

/// Slice indexing of a `heapless::Vec` (through `Deref`): the item at `i`.
#[verifier::external_body]
pub(crate) fn enemy_at(v: &heapless::Vec<Pos, 25>, i: usize) -> (p: Pos)
    requires
        i < enemy_seq(*v).len(),
    ensures
        p == enemy_seq(*v)[i as int],
{
    v[i]
}

/// Slice index assignment on a `heapless::Vec` (through `DerefMut`): the item
/// at `i` is replaced by `p`, the others stay.
#[verifier::external_body]
pub(crate) fn enemy_set(v: &mut heapless::Vec<Pos, 25>, i: usize, p: Pos)
    requires
        i < enemy_seq(*old(v)).len(),
    ensures
        enemy_seq(*final(v)) == enemy_seq(*old(v)).update(i as int, p),
{
    v[i] = p;
}

/// `heapless::Vec::push`: appends `p` when fewer than 25 items are held and
/// returns `Ok`; otherwise leaves the vector as it was and hands `p` back.
#[verifier::external_body]
pub(crate) fn enemies_push(v: &mut heapless::Vec<Pos, 25>, p: Pos) -> (r: Result<(), Pos>)
    ensures
        r is Ok <==> enemy_seq(*old(v)).len() < 25,
        r is Ok ==> enemy_seq(*final(v)) == enemy_seq(*old(v)).push(p),
        r matches Err(q) ==> q == p && enemy_seq(*final(v)) == enemy_seq(*old(v)),
{
    v.push(p)
}

/// `heapless::Vec::retain` with a predicate that keeps the items different
/// from `p`: every item equal to `p` is removed, the rest keep their order.
#[verifier::external_body]
pub(crate) fn enemies_remove_all(v: &mut heapless::Vec<Pos, 25>, p: Pos)
    ensures
        enemy_seq(*final(v)) == enemy_seq(*old(v)).filter(|e: Pos| e != p),
{
    v.retain(|e| pos_differs(e, &p))
}

} // verus!
