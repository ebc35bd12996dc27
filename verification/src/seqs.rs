//! Helpers for reasoning about element-wise views of sequences.

use vstd::prelude::*;

verus! {

/// The sequence of the elements' own views.
pub open spec fn seq_deep_view<T: DeepView>(s: Seq<T>) -> Seq<T::V> {
    Seq::new(s.len(), |i: int| s[i].deep_view())
}

/// A vector's deep view is the element-wise view of its view.
pub proof fn lemma_vec_deep_view<T: DeepView>(v: &Vec<T>)
    ensures
        v.deep_view() == seq_deep_view(v@),
{
    assert(v.deep_view() =~= seq_deep_view(v@));
}

/// Pushing an element commutes with taking element-wise views.
pub proof fn lemma_seq_deep_view_push<T: DeepView>(s: Seq<T>, x: T)
    ensures
        seq_deep_view(s.push(x)) == seq_deep_view(s).push(x.deep_view()),
{
    assert(seq_deep_view(s.push(x)) =~= seq_deep_view(s).push(x.deep_view()));
}

} // verus!
