use vstd::prelude::*;

verus! {

/// Appending one element and filtering appends the element exactly when it
/// matches the predicate.
pub proof fn lemma_filter_push<A>(s: Seq<A>, pred: spec_fn(A) -> bool, x: A)
    ensures
        s.push(x).filter(pred) == (if pred(x) {
            s.filter(pred).push(x)
        } else {
            s.filter(pred)
        }),
{
    reveal_with_fuel(Seq::filter, 2);
    assert(s.push(x).drop_last() =~= s);
    assert(s.push(x).last() == x);
}

/// All chunks laid end to end, in order.
pub open spec fn concat_all<A>(chunks: Seq<Seq<A>>) -> Seq<A>
    decreases chunks.len(),
{
    if chunks.len() == 0 {
        Seq::empty()
    } else {
        concat_all(chunks.drop_last()) + chunks.last()
    }
}

/// Appending one chunk appends its elements.
pub proof fn lemma_concat_all_push<A>(chunks: Seq<Seq<A>>, c: Seq<A>)
    ensures
        concat_all(chunks.push(c)) == concat_all(chunks) + c,
{
    assert(chunks.push(c).drop_last() =~= chunks);
}

} // verus!
