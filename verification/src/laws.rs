use vstd::prelude::*;
use crate::measurements::{contents, StoreView};
use crate::parser::fields;
use crate::sample::Sample;
use crate::shared::consistent;
use crate::window::{is_cut, lemma_cut_exists, lemma_cut_retains, same_times, within};

verus! {

/// In a store whose window is not negative, every retained sample lies
/// within the window that trails the newest one.
pub proof fn retained_samples_lie_within_window<T>(store: StoreView<T>, c: int, i: int)
    requires
        store.wf(),
        store.window >= 0,
        0 <= c < store.channels.len(),
        0 <= i < store.channels[c].len(),
    ensures
        store.channels[c][i].x >= store.channels[c].last().x - store.window,
        store.channels[c].last().x == store.last_x,
{
    let channel = store.channels[c];
    assert(is_cut(channel, store.window, 0));
    if store.window > 0 {
        assert(within(channel[i].x as int, channel.last().x as int, store.window));
    }
}

/// After every accepted append to a store whose window is not negative,
/// every retained sample lies within the window that trails the new one.
pub proof fn window_holds_after_append<T>(
    store: StoreView<T>,
    elapsed: nat,
    vs: Seq<T>,
    c: int,
    i: int,
)
    requires
        store.wf(),
        store.window >= 0,
        store.refusal(elapsed, vs) is None,
        0 <= c < store.appended(elapsed, vs).channels.len(),
        0 <= i < store.appended(elapsed, vs).channels[c].len(),
    ensures
        store.appended(elapsed, vs).channels[c][i].x >= store.last_x + elapsed - store.window,
{
    let after = store.appended(elapsed, vs);
    store.lemma_appended_wf(elapsed, vs);
    retained_samples_lie_within_window(after, c, i);
}

/// The store that a run of appends leaves, each with the time that has
/// passed and its values, the first of them made to a fresh store.
pub open spec fn run<T>(window: int, appends: Seq<(nat, Seq<T>)>) -> StoreView<T>
    decreases appends.len(),
{
    if appends.len() == 0 {
        StoreView::fresh(window)
    } else {
        run(window, appends.drop_last()).after(appends.last().0, appends.last().1)
    }
}

/// Whatever is appended, in whatever order, accepted or not, the store
/// stays well-formed.
pub proof fn every_run_is_well_formed<T>(window: int, appends: Seq<(nat, Seq<T>)>)
    ensures
        run(window, appends).wf(),
    decreases appends.len(),
{
    if appends.len() > 0 {
        let before = run(window, appends.drop_last());
        every_run_is_well_formed(window, appends.drop_last());
        if before.refusal(appends.last().0, appends.last().1) is None {
            before.lemma_appended_wf(appends.last().0, appends.last().1);
        }
    }
}

/// After every run of appends to a store whose window is not negative,
/// every retained sample lies within the window that trails the newest one.
pub proof fn window_holds_after_every_run<T>(
    window: int,
    appends: Seq<(nat, Seq<T>)>,
    c: int,
    i: int,
)
    requires
        window >= 0,
        0 <= c < run(window, appends).channels.len(),
        0 <= i < run(window, appends).channels[c].len(),
    ensures
        run(window, appends).channels[c][i].x >= run(window, appends).channels[c].last().x
            - window,
{
    every_run_is_well_formed(window, appends);
    lemma_run_keeps_window(window, appends);
    retained_samples_lie_within_window(run(window, appends), c, i);
}

proof fn lemma_run_keeps_window<T>(window: int, appends: Seq<(nat, Seq<T>)>)
    ensures
        run(window, appends).window == window,
    decreases appends.len(),
{
    if appends.len() > 0 {
        lemma_run_keeps_window(window, appends.drop_last());
    }
}

/// The window alone decides what an append evicts: it is positive, or it is
/// zero and no sample of the store shares the time stamp of the new one.
///
/// In the other stores the newest sample is all that stays, although a window
/// of zero would let its equals stay, and a negative one not even the newest.
pub open spec fn window_decides<T>(store: StoreView<T>, elapsed: nat) -> bool {
    store.window > 0 || (store.window == 0 && (elapsed > 0 || !store.sized()))
}

/// Eviction takes samples from the old end only and keeps the order of the
/// rest. Where the window decides, it takes exactly the samples that have
/// left the window: none that is still inside is removed, none that is
/// outside stays. The result is the place where it stops.
pub proof fn eviction_is_exact<T>(store: StoreView<T>, elapsed: nat, vs: Seq<T>, c: int) -> (cut:
    int)
    requires
        store.wf(),
        store.refusal(elapsed, vs) is None,
        0 <= c < vs.len(),
    ensures
        0 <= cut < store.pushed(elapsed, vs[c], c).len(),
        store.appended(elapsed, vs).channels[c] == store.pushed(elapsed, vs[c], c).skip(cut),
        window_decides(store, elapsed) ==> forall|i: int|
            0 <= i < store.pushed(elapsed, vs[c], c).len() ==> (cut <= i <==> (
            #[trigger] store.pushed(elapsed, vs[c], c)[i]).x >= store.last_x + elapsed
                - store.window),
{
    let full = store.pushed(elapsed, vs[c], c);
    store.lemma_pushed(elapsed, vs[c], c);
    let cut = lemma_cut_exists(full, store.window);
    lemma_cut_retains(full, store.window, cut);
    if window_decides(store, elapsed) {
        assert forall|i: int| 0 <= i < full.len() implies (cut <= i <==> (#[trigger] full[i]).x
            >= store.last_x + elapsed - store.window) by {
            if store.window > 0 {
                assert(within(full[i].x as int, full.last().x as int, store.window) == (
                full[i].x >= store.last_x + elapsed - store.window));
            } else if i < full.len() - 1 {
                assert(full[i] == store.channels[c][i]);
                assert(store.channels[c][i].x <= store.channels[c].last().x);
            }
        }
    }
    cut
}

/// A store never holds more samples in a channel than it held before the
/// append, and one.
pub proof fn append_grows_by_one_at_most<T>(store: StoreView<T>, elapsed: nat, vs: Seq<T>, c: int)
    requires
        store.wf(),
        store.sized(),
        store.refusal(elapsed, vs) is None,
        0 <= c < vs.len(),
    ensures
        1 <= store.appended(elapsed, vs).channels[c].len() <= store.channels[c].len() + 1,
{
    let cut = eviction_is_exact(store, elapsed, vs, c);
    store.lemma_pushed(elapsed, vs[c], c);
}

/// With a window of zero or less, every accepted append leaves exactly one
/// sample in each channel: the one it brought.
pub proof fn empty_window_keeps_the_newest<T>(
    store: StoreView<T>,
    elapsed: nat,
    vs: Seq<T>,
    c: int,
)
    requires
        store.wf(),
        store.window <= 0,
        store.refusal(elapsed, vs) is None,
        0 <= c < vs.len(),
    ensures
        store.appended(elapsed, vs).channels[c].len() == 1,
        store.appended(elapsed, vs).channels[c][0] == (Sample {
            x: (store.last_x + elapsed) as u64,
            y: vs[c],
        }),
{
    store.lemma_pushed(elapsed, vs[c], c);
}

/// The first accepted append fixes the number of channels: every later one
/// leaves it as it is.
pub proof fn channel_count_is_fixed<T>(store: StoreView<T>, elapsed: nat, vs: Seq<T>)
    requires
        store.wf(),
        store.sized(),
        store.refusal(elapsed, vs) is None,
    ensures
        store.appended(elapsed, vs).channels.len() == store.channels.len(),
{
}

/// Time never runs backwards in a channel, and an append never stamps a
/// sample earlier than the newest one before it.
pub proof fn time_stamps_ascend<T>(
    store: StoreView<T>,
    elapsed: nat,
    vs: Seq<T>,
    c: int,
    i: int,
    j: int,
)
    requires
        store.wf(),
        store.refusal(elapsed, vs) is None,
        0 <= c < vs.len(),
        0 <= i <= j < store.appended(elapsed, vs).channels[c].len(),
    ensures
        store.appended(elapsed, vs).channels[c][i].x <= store.appended(
            elapsed,
            vs,
        ).channels[c][j].x,
        store.last_x <= store.appended(elapsed, vs).last_x,
{
    store.lemma_appended_wf(elapsed, vs);
}

/// A snapshot is never torn: whatever has been appended, and by whom, all
/// channels of a snapshot have the same length and the same time stamps.
pub proof fn snapshot_is_aligned<T>(snapshot: Seq<Seq<Sample<T>>>, c: int, d: int)
    requires
        consistent(snapshot),
        0 <= c < snapshot.len(),
        0 <= d < snapshot.len(),
    ensures
        snapshot[c].len() == snapshot[d].len(),
        same_times(snapshot[c], snapshot[d]),
{
    let store = choose|store: StoreView<T>| store.wf() && store.channels == snapshot;
    assert(same_times(store.channels[c], store.channels[0]));
    assert(same_times(store.channels[d], store.channels[0]));
}

/// Two snapshots of one store, with no append between them, hold the same
/// samples.
pub proof fn snapshots_agree<T>(
    store: StoreView<T>,
    first: Vec<Vec<Sample<T>>>,
    second: Vec<Vec<Sample<T>>>,
)
    requires
        contents(first) == store.channels,
        contents(second) == store.channels,
    ensures
        first@.len() == second@.len(),
        forall|c: int| 0 <= c < first@.len() ==> (#[trigger] first@[c])@ == second@[c]@,
{
    assert(contents(first).len() == first@.len());
    assert(contents(second).len() == second@.len());
    assert forall|c: int| 0 <= c < first@.len() implies (#[trigger] first@[c])@ == second@[c]@ by {
        assert(contents(first)[c] == first@[c]@);
        assert(contents(second)[c] == second@[c]@);
    }
}

/// The fields of a line, written one after the other with a comma between
/// each two.
pub open spec fn joined(parts: Seq<Seq<char>>) -> Seq<char>
    decreases parts.len(),
{
    if parts.len() == 0 {
        Seq::empty()
    } else if parts.len() == 1 {
        parts[0]
    } else {
        joined(parts.drop_last()) + seq![','] + parts.last()
    }
}

/// Splitting a line loses nothing: there is at least one field, no field
/// holds a comma, and the fields joined by commas give the line back.
pub proof fn fields_rejoin(line: Seq<char>)
    ensures
        fields(line).len() >= 1,
        forall|i: int, j: int|
            0 <= i < fields(line).len() && 0 <= j < fields(line)[i].len() ==> fields(line)[i][j]
                != ',',
        joined(fields(line)) == line,
    decreases line.len(),
{
    if line.len() == 0 {
        assert(joined(fields(line)) =~= line);
    } else {
        let before = fields(line.drop_last());
        fields_rejoin(line.drop_last());
        let parts = fields(line);
        if line.last() == ',' {
            assert(parts.drop_last() =~= before);
            assert(joined(parts) =~= line);
        } else {
            let grown = before.last().push(line.last());
            assert(parts.last() == grown);
            if before.len() == 1 {
                assert(joined(parts) =~= line);
            } else {
                assert(parts.drop_last() =~= before.drop_last());
                assert(joined(parts) =~= joined(before).push(line.last()));
                assert(joined(parts) =~= line);
            }
            assert forall|i: int, j: int|
                0 <= i < parts.len() && 0 <= j < parts[i].len() implies parts[i][j] != ',' by {
                if i < parts.len() - 1 {
                    assert(parts[i] == before[i]);
                } else if j < before.last().len() {
                    assert(parts[i][j] == before.last()[j]);
                }
            }
        }
    }
}

} // verus!
