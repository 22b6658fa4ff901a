//! Properties that relate several operations, stated over the abstract
//! values that the operations' contracts speak of.
use vstd::prelude::*;

use crate::error::StateError;
use crate::state::StateView;

verus! {

/// Along a run of `create_shape` calls, each taking `views[k]` to
/// `views[k + 1]` and returning `ids[k]`, every identifier registered before
/// step `j` is still registered at step `j`.
proof fn lemma_created_stay_registered<S>(
    views: Seq<StateView<S>>,
    ids: Seq<u128>,
    shapes: Seq<S>,
    j: int,
)
    requires
        views.len() == ids.len() + 1,
        shapes.len() == ids.len(),
        forall|k: int|
            0 <= k < ids.len() ==> #[trigger] views[k + 1] == views[k].with_shape(ids[k], shapes[k]),
        0 <= j <= ids.len(),
    ensures
        forall|i: int| 0 <= i < j ==> views[j].registry.contains_key(#[trigger] ids[i]),
    decreases j,
{
    if j > 0 {
        lemma_created_stay_registered(views, ids, shapes, j - 1);
        assert(views[(j - 1) + 1] == views[j - 1].with_shape(ids[j - 1], shapes[j - 1]));
    }
}

/// The identifiers that a run of `create_shape` calls returns are pairwise
/// distinct: each call returns one that no shape held, and no call in the
/// run gives one up.
pub proof fn lemma_created_identifiers_distinct<S>(
    views: Seq<StateView<S>>,
    ids: Seq<u128>,
    shapes: Seq<S>,
)
    requires
        views.len() == ids.len() + 1,
        shapes.len() == ids.len(),
        forall|k: int| 0 <= k < ids.len() ==> !views[k].registry.contains_key(#[trigger] ids[k]),
        forall|k: int|
            0 <= k < ids.len() ==> #[trigger] views[k + 1] == views[k].with_shape(ids[k], shapes[k]),
    ensures
        forall|i: int, j: int| 0 <= i < j < ids.len() ==> ids[i] != ids[j],
{
    assert forall|i: int, j: int| 0 <= i < j < ids.len() implies ids[i] != ids[j] by {
        lemma_created_stay_registered(views, ids, shapes, j);
        assert(views[j].registry.contains_key(ids[i]));
        assert(!views[j].registry.contains_key(ids[j]));
    }
}

/// After `remove_shape(id)` no shape is registered under `id`, so `get(id)`
/// finds nothing.
pub proof fn lemma_removed_is_absent<S>(pre: StateView<S>, id: u128)
    ensures
        !pre.after_remove(id).registry.contains_key(id),
{
}

/// `remove_shape(id)` while the cursor is on `id` leaves no cursor.
pub proof fn lemma_remove_clears_cursor<S>(pre: StateView<S>, id: u128)
    requires
        pre.cursor == Some(id),
    ensures
        pre.after_remove(id).cursor is None,
{
}

/// Appending a registered identifier twice: the second append fails with
/// `Duplicate` and leaves the order as the first one left it.
pub proof fn lemma_append_twice<S>(pre: StateView<S>, id: u128)
    requires
        pre.wf(),
        pre.registry.contains_key(id),
    ensures
        pre.after_append(id).append_outcome(id) == Err::<(), StateError>(StateError::Duplicate),
        pre.after_append(id).after_append(id) == pre.after_append(id),
        pre.after_append(id).after_append(id).order.len() == pre.after_append(id).order.len(),
{
    let mid = pre.after_append(id);
    if pre.append_outcome(id) is Ok {
        assert(mid.order[mid.order.len() - 1] == id);
    }
    assert(mid.order.contains(id));
}

/// Two `begin_edit` calls on registered shapes: the cursor ends on the
/// second, whatever the first was.
pub proof fn lemma_last_edit_wins<S>(pre: StateView<S>, a: u128, b: u128)
    requires
        pre.registry.contains_key(a),
        pre.registry.contains_key(b),
    ensures
        pre.after_edit(a).after_edit(b).cursor == Some(b),
{
}

} // verus!
