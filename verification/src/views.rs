//! Facts about the views of results and vectors.

use vstd::prelude::*;
use crate::error::{Error, ErrorView};

verus! {

/// What a result holds: the view of the value, or the view of the error.
pub open spec fn outcome<T: DeepView>(r: Result<T, Error>) -> Result<T::V, ErrorView> {
    match r {
        Ok(v) => Ok(v.deep_view()),
        Err(e) => Err(e.deep_view()),
    }
}

/// A vector that has one more item than another has its view with one more
/// item.
pub proof fn lemma_pushed<T: DeepView>(before: Vec<T>, after: Vec<T>, item: T)
    ensures
        after@ == before@.push(item) ==> after.deep_view() == before.deep_view().push(
            item.deep_view(),
        ),
{
}

/// A vector that has lost its last item has its view without the last
/// item.
pub proof fn lemma_popped<T: DeepView>(before: Vec<T>, after: Vec<T>)
    ensures
        before@.len() > 0 && after@ == before@.drop_last() ==> after.deep_view()
            == before.deep_view().drop_last() && before.deep_view().last()
            == before@.last().deep_view(),
{
}

/// A vector that has lost its first item has its view without the first
/// item.
pub proof fn lemma_shifted<T: DeepView>(before: Vec<T>, after: Vec<T>)
    ensures
        before@.len() > 0 && after@ == before@.remove(0) ==> after.deep_view()
            == before.deep_view().skip(1) && before.deep_view()[0] == before@[0].deep_view(),
{
}

/// An empty vector has an empty view.
pub proof fn lemma_empty<T: DeepView>(v: Vec<T>)
    ensures
        v@.len() == 0 ==> v.deep_view() == Seq::<T::V>::empty(),
{
}

} // verus!
