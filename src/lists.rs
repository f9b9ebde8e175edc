use vstd::prelude::*;
use crate::cursor::Parsed;

verus! {

/// `r` with `acc` put in front of the sequence it reads; errors pass through.
pub open spec fn prepend<T>(acc: Seq<T>, r: Parsed<Seq<T>>) -> Parsed<Seq<T>> {
    match r {
        Ok((s, e)) => Ok((acc + s, e)),
        Err(x) => Err(x),
    }
}

pub proof fn lemma_prepend_push<T>(acc: Seq<T>, v: T, r: Parsed<Seq<T>>)
    ensures
        prepend(acc, prepend(seq![v], r)) == prepend(acc.push(v), r),
{
    if let Ok((s, e)) = r {
        assert(acc + (seq![v] + s) =~= acc.push(v) + s);
    }
}

pub proof fn lemma_prepend_empty<T>(acc: Seq<T>, p: int)
    ensures
        prepend(acc, Ok((Seq::empty(), p))) == Ok::<(Seq<T>, int), crate::types::ErrorModel>((acc, p)),
{
    assert(acc + Seq::<T>::empty() =~= acc);
}

} // verus!
