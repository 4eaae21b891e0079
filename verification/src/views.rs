//! Helpers for the mathematical views of vectors.

use vstd::prelude::*;

verus! {

/// Appends `x` to `v`; the view of the vector grows by the view of `x`.
pub fn push_view<T: DeepView>(v: &mut Vec<T>, x: T)
    ensures
        final(v)@ == old(v)@.push(x),
        final(v).deep_view() == old(v).deep_view().push(x.deep_view()),
{
    v.push(x);
    assert(v.deep_view() =~= old(v).deep_view().push(x.deep_view()));
}

/// The view of an empty vector is the empty sequence.
pub proof fn lemma_empty_view<T: DeepView>(v: Vec<T>)
    requires
        v@.len() == 0,
    ensures
        v.deep_view() == Seq::<T::V>::empty(),
{
    assert(v.deep_view() =~= Seq::<T::V>::empty());
}

/// Moves the elements of `more` to the end of `v`; the view of the vector
/// grows by the view of `more`.
pub fn append_view<T: DeepView>(v: &mut Vec<T>, more: Vec<T>)
    ensures
        final(v)@ == old(v)@ + more@,
        final(v).deep_view() == old(v).deep_view() + more.deep_view(),
{
    let mut more = more;
    let ghost added = more;
    v.append(&mut more);
    assert(v.deep_view() =~= old(v).deep_view() + added.deep_view());
}

} // verus!
