use vstd::prelude::*;
use crate::sample::Sample;

verus! {

/// A sample at `x` lies inside the window that trails `newest`.
pub open spec fn within(x: int, newest: int, window: int) -> bool {
    x + window >= newest
}

/// The time stamps of `samples` never decrease from front to back.
pub open spec fn ascending<T>(samples: Seq<Sample<T>>) -> bool {
    forall|i: int, j: int| 0 <= i <= j < samples.len() ==> samples[i].x <= samples[j].x
}

/// Two series carry the same time stamps, position by position.
pub open spec fn same_times<T>(a: Seq<Sample<T>>, b: Seq<Sample<T>>) -> bool {
    &&& a.len() == b.len()
    &&& forall|i: int| 0 <= i < a.len() ==> a[i].x == b[i].x
}

/// What a series keeps once its newest sample, the last one, has been pushed.
///
/// With a positive window these are the samples inside the window that trails
/// the newest sample, in their old order. A window of zero or less keeps the
/// newest sample and nothing else.
pub open spec fn retained<T>(samples: Seq<Sample<T>>, window: int) -> Seq<Sample<T>>
    recommends
        samples.len() > 0,
{
    if window <= 0 {
        seq![samples.last()]
    } else {
        samples.filter(|s: Sample<T>| within(s.x as int, samples.last().x as int, window))
    }
}

/// `cut` is the place where eviction stops: everything before it has left the
/// window, everything from it on is kept. With a window of zero or less the
/// cut stands right before the newest sample.
pub open spec fn is_cut<T>(samples: Seq<Sample<T>>, window: int, cut: int) -> bool {
    &&& 0 <= cut < samples.len()
    &&& window <= 0 ==> cut == samples.len() - 1
    &&& window > 0 ==> forall|i: int|
        0 <= i < samples.len() ==> (cut <= i <==> within(
            #[trigger] samples[i].x as int,
            samples.last().x as int,
            window,
        ))
}

/// A filter whose predicate fails on a prefix and holds on the rest keeps
/// exactly the rest.
pub proof fn lemma_filter_keeps_suffix<A>(s: Seq<A>, pred: spec_fn(A) -> bool, cut: int)
    requires
        0 <= cut <= s.len(),
        forall|i: int| 0 <= i < s.len() ==> (cut <= i <==> pred(#[trigger] s[i])),
    ensures
        s.filter(pred) == s.skip(cut),
    decreases s.len(),
{
    reveal(Seq::filter);
    if s.len() == 0 {
        assert(s.filter(pred) =~= s.skip(cut));
    } else {
        let front = s.drop_last();
        if cut == s.len() {
            lemma_filter_keeps_suffix(front, pred, cut - 1);
            assert(!pred(s.last()));
            assert(front.skip(cut - 1) =~= s.skip(cut));
        } else {
            lemma_filter_keeps_suffix(front, pred, cut);
            assert(pred(s.last()));
            assert(front.skip(cut).push(s.last()) =~= s.skip(cut));
        }
    }
}

/// Whatever stands behind a cut is what the series retains.
pub proof fn lemma_cut_retains<T>(samples: Seq<Sample<T>>, window: int, cut: int)
    requires
        is_cut(samples, window, cut),
    ensures
        retained(samples, window) == samples.skip(cut),
{
    if window <= 0 {
        assert(seq![samples.last()] =~= samples.skip(cut));
    } else {
        let pred = |s: Sample<T>| within(s.x as int, samples.last().x as int, window);
        assert forall|i: int| 0 <= i < samples.len() implies (cut <= i <==> pred(
            #[trigger] samples[i],
        )) by {
            assert(pred(samples[i]) == within(
                samples[i].x as int,
                samples.last().x as int,
                window,
            ));
        }
        lemma_filter_keeps_suffix(samples, pred, cut);
    }
}

proof fn lemma_first_within<T>(samples: Seq<Sample<T>>, window: int, from: int) -> (cut: int)
    requires
        window > 0,
        0 <= from < samples.len(),
        forall|i: int|
            0 <= i < from ==> !within(
                #[trigger] samples[i].x as int,
                samples.last().x as int,
                window,
            ),
    ensures
        from <= cut < samples.len(),
        within(samples[cut].x as int, samples.last().x as int, window),
        forall|i: int|
            0 <= i < cut ==> !within(
                #[trigger] samples[i].x as int,
                samples.last().x as int,
                window,
            ),
    decreases samples.len() - from,
{
    if within(samples[from].x as int, samples.last().x as int, window) {
        from
    } else {
        lemma_first_within(samples, window, from + 1)
    }
}

/// Every ascending, non-empty series has a cut, and only one.
pub proof fn lemma_cut_exists<T>(samples: Seq<Sample<T>>, window: int) -> (cut: int)
    requires
        samples.len() > 0,
        ascending(samples),
    ensures
        is_cut(samples, window, cut),
        forall|other: int| is_cut(samples, window, other) ==> other == cut,
{
    if window <= 0 {
        samples.len() - 1
    } else {
        let cut = lemma_first_within(samples, window, 0);
        assert forall|other: int| is_cut(samples, window, other) implies other == cut by {
            if other < cut {
                assert(within(samples[other].x as int, samples.last().x as int, window));
            } else if cut < other {
                assert(!within(samples[cut].x as int, samples.last().x as int, window));
            }
        }
        cut
    }
}

/// The cut depends on the time stamps alone.
pub proof fn lemma_cut_shared<T>(a: Seq<Sample<T>>, b: Seq<Sample<T>>, window: int, cut: int)
    requires
        same_times(a, b),
        is_cut(a, window, cut),
    ensures
        is_cut(b, window, cut),
{
    if window > 0 {
        assert forall|i: int| 0 <= i < b.len() implies (cut <= i <==> within(
            #[trigger] b[i].x as int,
            b.last().x as int,
            window,
        )) by {
            assert(b[i].x == a[i].x);
            assert(b.last().x == a.last().x);
        }
    }
}

} // verus!
