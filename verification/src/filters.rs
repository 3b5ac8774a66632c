//! Facts about filtered sequences that the rate-limit laws rest on.
use vstd::prelude::*;

verus! {

/// Filtering by a weaker test first changes nothing for a stronger one.
pub proof fn lemma_filter_nested<A>(s: Seq<A>, weak: spec_fn(A) -> bool, strong: spec_fn(A) -> bool)
    requires
        forall|x: A| #[trigger] strong(x) ==> weak(x),
    ensures
        s.filter(weak).filter(strong) == s.filter(strong),
    decreases s.len(),
{
    if s.len() > 0 {
        let init = s.drop_last();
        let x = s.last();
        lemma_filter_nested(init, weak, strong);
        assert(s =~= init.push(x));
        init.lemma_filter_push(x, weak);
        init.lemma_filter_push(x, strong);
        if weak(x) {
            init.filter(weak).lemma_filter_push(x, strong);
        }
    } else {
        assert(s.filter(weak) =~= s);
    }
}

/// A filtered sequence is no longer than the sequence.
pub proof fn lemma_filter_shorter<A>(s: Seq<A>, p: spec_fn(A) -> bool)
    ensures
        s.filter(p).len() <= s.len(),
{
    s.lemma_filter_len(p);
}

} // verus!
