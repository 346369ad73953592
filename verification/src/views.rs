//! Vectors and their element-wise views.

use vstd::prelude::*;

verus! {

/// Appends `item` to `items`.
pub fn push_view<T: DeepView>(items: &mut Vec<T>, item: T)
    ensures
        final(items).deep_view() == old(items).deep_view().push(item.deep_view()),
        final(items)@ == old(items)@.push(item),
{
    items.push(item);
    assert(items.deep_view() =~= old(items).deep_view().push(item.deep_view()));
}

/// Appends all of `more` to `items`.
pub fn append_view<T: DeepView>(items: &mut Vec<T>, more: Vec<T>)
    ensures
        final(items).deep_view() == old(items).deep_view() + more.deep_view(),
        final(items)@ == old(items)@ + more@,
{
    let mut more = more;
    let ghost added = more.deep_view();
    items.append(&mut more);
    assert(items.deep_view() =~= old(items).deep_view() + added);
}

/// The vector that holds `item` alone.
pub fn single_view<T: DeepView>(item: T) -> (items: Vec<T>)
    ensures
        items.deep_view() == seq![item.deep_view()],
        items@ == seq![item],
{
    let mut items = Vec::new();
    items.push(item);
    assert(items.deep_view() =~= seq![item.deep_view()]);
    items
}

/// The vector that holds nothing.
pub fn empty_view<T: DeepView>() -> (items: Vec<T>)
    ensures
        items.deep_view() == Seq::<T::V>::empty(),
        items@ == Seq::<T>::empty(),
{
    let items = Vec::new();
    assert(items.deep_view() =~= Seq::<T::V>::empty());
    items
}

} // verus!
