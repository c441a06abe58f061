//! Two facts about selecting from a sequence.

use vstd::prelude::*;

verus! {

broadcast use {
    vstd::seq_lib::group_seq_properties,
    vstd::seq::group_seq_axioms,
};

/// When no element is accepted, the selection is empty.
pub proof fn lemma_filter_none<T>(s: Seq<T>, accepts: spec_fn(T) -> bool)
    requires
        forall|j: int| 0 <= j < s.len() ==> !accepts(#[trigger] s[j]),
    ensures
        s.filter(accepts) == Seq::<T>::empty(),
    decreases s.len(),
{
    reveal(Seq::filter);
    if s.len() > 0 {
        let shorter = s.drop_last();
        assert forall|j: int| 0 <= j < shorter.len() implies !accepts(#[trigger] shorter[j]) by {
            assert(shorter[j] == s[j]);
        }
        lemma_filter_none(shorter, accepts);
    }
    assert(s.filter(accepts) =~= Seq::<T>::empty());
}

/// When exactly one element is accepted, the selection is that element.
pub proof fn lemma_filter_one<T>(s: Seq<T>, accepts: spec_fn(T) -> bool, at: int)
    requires
        0 <= at < s.len(),
        accepts(s[at]),
        forall|j: int| 0 <= j < s.len() && j != at ==> !accepts(#[trigger] s[j]),
    ensures
        s.filter(accepts) == seq![s[at]],
    decreases s.len(),
{
    reveal(Seq::filter);
    let shorter = s.drop_last();
    if at == s.len() - 1 {
        assert forall|j: int| 0 <= j < shorter.len() implies !accepts(#[trigger] shorter[j]) by {
            assert(shorter[j] == s[j]);
        }
        lemma_filter_none(shorter, accepts);
        assert(s.filter(accepts) =~= seq![s[at]]);
    } else {
        assert(shorter[at] == s[at]);
        assert forall|j: int| 0 <= j < shorter.len() && j != at implies !accepts(
            #[trigger] shorter[j],
        ) by {
            assert(shorter[j] == s[j]);
        }
        lemma_filter_one(shorter, accepts, at);
    }
}

} // verus!
