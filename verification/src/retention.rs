//! Keeping the elements of a sequence that a sequence of flags selects.
use vstd::prelude::*;

verus! {

/// Keeps the elements whose flag is `true`, in their order.
pub open spec fn retain_kept<X>(s: Seq<X>, flags: Seq<bool>) -> Seq<X>
    decreases s.len(),
{
    if s.len() == 0 {
        Seq::empty()
    } else {
        let rest = retain_kept(s.drop_last(), flags.drop_last());
        if flags.last() {
            rest.push(s.last())
        } else {
            rest
        }
    }
}

/// Retaining with every flag `true` keeps every element: when every
/// notification succeeds, every subscriber stays subscribed.
pub proof fn lemma_retain_all<X>(s: Seq<X>, flags: Seq<bool>)
    requires
        flags.len() == s.len(),
        forall|i: int| 0 <= i < flags.len() ==> flags[i],
    ensures
        retain_kept(s, flags) == s,
    decreases s.len(),
{
    if s.len() > 0 {
        lemma_retain_all(s.drop_last(), flags.drop_last());
        assert(s.drop_last().push(s.last()) =~= s);
    }
}

/// Retaining never adds elements: a notification never adds subscribers.
pub proof fn lemma_retain_len<X>(s: Seq<X>, flags: Seq<bool>)
    requires
        flags.len() == s.len(),
    ensures
        retain_kept(s, flags).len() <= s.len(),
    decreases s.len(),
{
    if s.len() > 0 {
        lemma_retain_len(s.drop_last(), flags.drop_last());
    }
}

/// Extending both arguments of [`retain_kept`] by one element extends the
/// result by that element when it is kept.
pub proof fn lemma_retain_step<X>(s: Seq<X>, f: Seq<bool>, d: int)
    requires
        0 <= d < s.len(),
        s.len() == f.len(),
    ensures
        retain_kept(s.take(d + 1), f.take(d + 1)) == if f[d] {
            retain_kept(s.take(d), f.take(d)).push(s[d])
        } else {
            retain_kept(s.take(d), f.take(d))
        },
{
    assert(s.take(d + 1).drop_last() =~= s.take(d));
    assert(f.take(d + 1).drop_last() =~= f.take(d));
}

/// How many elements a retention keeps depends on the flags alone.
pub proof fn lemma_retain_len_same<X, Y>(s: Seq<X>, t: Seq<Y>, f: Seq<bool>)
    requires
        s.len() == f.len(),
        t.len() == f.len(),
    ensures
        retain_kept(s, f).len() == retain_kept(t, f).len(),
    decreases s.len(),
{
    if s.len() > 0 {
        lemma_retain_len_same(s.drop_last(), t.drop_last(), f.drop_last());
    }
}

} // verus!

verus! {

/// Every element a retention keeps satisfies a property that every element
/// of the retained sequence satisfies.
pub proof fn lemma_retain_all_satisfy<X>(s: Seq<X>, flags: Seq<bool>, p: spec_fn(X) -> bool)
    requires
        flags.len() == s.len(),
        forall|i: int| 0 <= i < s.len() ==> p(#[trigger] s[i]),
    ensures
        forall|j: int| 0 <= j < retain_kept(s, flags).len() ==> p(#[trigger] retain_kept(s, flags)[j]),
    decreases s.len(),
{
    if s.len() > 0 {
        lemma_retain_all_satisfy(s.drop_last(), flags.drop_last(), p);
        let rest = retain_kept(s.drop_last(), flags.drop_last());
        assert forall|j: int| 0 <= j < retain_kept(s, flags).len() implies p(
            #[trigger] retain_kept(s, flags)[j],
        ) by {
            if j < rest.len() {
                assert(retain_kept(s, flags)[j] == rest[j]);
            } else {
                assert(retain_kept(s, flags)[j] == s.last());
                assert(s.last() == s[s.len() - 1]);
            }
        }
    }
}

} // verus!
