//! The registry's laws, stated over the mapping that a registry denotes.
//! `Registry::set`, `Registry::remove` and `Registry::snapshot` promise in
//! their contracts that the view evolves by `insert` and `remove` and that a
//! snapshot denotes the view itself; these laws say what then holds of any
//! sequence of such operations.

use vstd::prelude::*;

verus! {

/// Deleting a name that is not present leaves the registry unchanged (and,
/// at the handler, still reports success: `delete_grocery_list_item` returns
/// 200 unconditionally).
pub proof fn lemma_delete_absent_is_noop(m: Map<Seq<char>, int>, name: Seq<char>)
    requires
        !m.contains_key(name),
    ensures
        m.remove(name) == m,
{
    assert(m.remove(name) =~= m);
}

/// Upserting a name twice leaves exactly one binding for it, carrying the
/// later quantity.
pub proof fn lemma_upsert_overwrite(m: Map<Seq<char>, int>, name: Seq<char>, q1: int, q2: int)
    ensures
        m.insert(name, q1).insert(name, q2) == m.insert(name, q2),
{
    assert(m.insert(name, q1).insert(name, q2) =~= m.insert(name, q2));
}

/// Read after write: once an upsert has completed, a later snapshot of the
/// unchanged registry contains that name with that quantity.
pub proof fn lemma_read_after_write(m: Map<Seq<char>, int>, name: Seq<char>, q: int)
    ensures
        m.insert(name, q).contains_key(name),
        m.insert(name, q)[name] == q,
{
}

/// The mapping after a batch of upserts has been applied in order.
pub open spec fn apply_upserts(m: Map<Seq<char>, int>, writes: Seq<(Seq<char>, int)>) -> Map<
    Seq<char>,
    int,
>
    decreases writes.len(),
{
    if writes.len() == 0 {
        m
    } else {
        apply_upserts(m, writes.drop_last()).insert(writes.last().0, writes.last().1)
    }
}

/// Writers serialize without loss: concurrent upserts are applied one at a
/// time in some order, and when their names are pairwise distinct, every one
/// of them lands in the final registry with its own quantity, whatever that
/// order was.
pub proof fn lemma_distinct_upserts_all_land(m: Map<Seq<char>, int>, writes: Seq<(Seq<char>, int)>)
    requires
        forall|i: int, j: int| 0 <= i < j < writes.len() ==> writes[i].0 != writes[j].0,
    ensures
        forall|i: int|
            0 <= i < writes.len() ==> apply_upserts(m, writes).contains_key(#[trigger] writes[i].0)
                && apply_upserts(m, writes)[writes[i].0] == writes[i].1,
    decreases writes.len(),
{
    if writes.len() > 0 {
        let dl = writes.drop_last();
        lemma_distinct_upserts_all_land(m, dl);
        assert forall|i: int|
            0 <= i < writes.len() implies apply_upserts(m, writes).contains_key(
            #[trigger] writes[i].0,
        ) && apply_upserts(m, writes)[writes[i].0] == writes[i].1 by {
            if i < writes.len() - 1 {
                assert(dl[i] == writes[i]);
                assert(writes[i].0 != writes[writes.len() - 1].0);
            }
        }
    }
}

} // verus!
