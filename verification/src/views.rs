//! How the element-wise view of a vector follows the vector's own changes.

use vstd::prelude::*;

verus! {

/// Pushing an element pushes its view.
pub proof fn lemma_deep_view_push<T: DeepView>(before: Vec<T>, x: T)
    ensures
        forall|after: Vec<T>|
            after@ == before@.push(x) ==> #[trigger] after.deep_view() == before.deep_view().push(
                x.deep_view(),
            ),
{
    assert forall|after: Vec<T>| after@ == before@.push(x) implies #[trigger] after.deep_view()
        == before.deep_view().push(x.deep_view()) by {
        assert(after.deep_view() =~= before.deep_view().push(x.deep_view()));
    }
}

/// Replacing an element replaces its view.
pub proof fn lemma_deep_view_update<T: DeepView>(before: Vec<T>, i: int, x: T)
    requires
        0 <= i < before@.len(),
    ensures
        forall|after: Vec<T>|
            after@ == before@.update(i, x) ==> #[trigger] after.deep_view()
                == before.deep_view().update(i, x.deep_view()),
{
    assert forall|after: Vec<T>| after@ == before@.update(i, x) implies #[trigger] after.deep_view()
        == before.deep_view().update(i, x.deep_view()) by {
        assert(after.deep_view() =~= before.deep_view().update(i, x.deep_view()));
    }
}

/// A vector without elements has the empty view.
pub proof fn lemma_deep_view_empty<T: DeepView>(v: Vec<T>)
    requires
        v@.len() == 0,
    ensures
        v.deep_view() == Seq::<T::V>::empty(),
{
    assert(v.deep_view() =~= Seq::<T::V>::empty());
}

} // verus!
