//! Lists and what they hold, item by item.
use vstd::prelude::*;

verus! {

/// A list with one more item holds what it held before, and the item.
pub proof fn lemma_push_deep_view<T: DeepView>(before: Vec<T>, item: T, after: Vec<T>)
    requires
        after@ == before@.push(item),
    ensures
        after.deep_view() == before.deep_view().push(item.deep_view()),
{
    assert(after.deep_view() =~= before.deep_view().push(item.deep_view())) by {
        assert forall|k: int| 0 <= k < before@.len() implies after.deep_view()[k]
            == before.deep_view()[k] by {
            assert(after@[k] == before@[k]);
        }
    }
}

/// Two lists, one behind the other, hold what each of them held.
pub proof fn lemma_append_deep_view<T: DeepView>(before: Vec<T>, more: Vec<T>, after: Vec<T>)
    requires
        after@ == before@ + more@,
    ensures
        after.deep_view() == before.deep_view() + more.deep_view(),
{
    assert(after.deep_view() =~= before.deep_view() + more.deep_view());
}

} // verus!
