use vstd::prelude::*;
use std::collections::VecDeque;
use std::time::Instant;
use crate::sample::Sample;
use crate::window::{
    ascending, is_cut, lemma_cut_exists, lemma_cut_retains, lemma_cut_shared, retained,
    same_times, within,
};

verus! {

/// Why an append was turned down. The store is left as it was.
#[derive(Clone, Copy, Debug, PartialEq, Eq)]
pub enum AppendError {
    /// The vector of values was empty.
    NoValues,
    /// The vector does not have one value for each channel of the store.
    ChannelMismatch,
    /// The time axis would run past what a `u64` of milliseconds can hold.
    ClockOverflow,
}

/// The mathematical content of a store: what each channel retains, the time
/// stamp of the newest sample, and the length of the window, the last two in
/// milliseconds.
pub struct StoreView<T> {
    pub channels: Seq<Seq<Sample<T>>>,
    pub last_x: nat,
    pub window: int,
}

impl<T> StoreView<T> {
    /// The store before its first append: no channels, and the time axis at
    /// its start.
    pub open spec fn fresh(window: int) -> StoreView<T> {
        StoreView { channels: Seq::empty(), last_x: 0, window }
    }

    /// The first accepted append has fixed the number of channels.
    pub open spec fn sized(self) -> bool {
        self.channels.len() > 0
    }

    /// What holds of every store at every moment.
    ///
    /// Each channel holds at least its newest sample, stamped `last_x`; all
    /// channels carry the same ascending time stamps; and no channel holds
    /// more than the window lets it keep.
    pub open spec fn wf(self) -> bool {
        &&& self.last_x <= u64::MAX
        &&& forall|c: int|
            0 <= c < self.channels.len() ==> {
                &&& (#[trigger] self.channels[c]).len() > 0
                &&& self.channels[c].last().x == self.last_x
                &&& ascending(self.channels[c])
                &&& same_times(self.channels[c], self.channels[0])
                &&& is_cut(self.channels[c], self.window, 0)
            }
    }

    /// The reason for which a vector of `count` values is turned down
    /// whatever the time, if there is one.
    pub open spec fn count_refusal(self, count: nat) -> Option<AppendError> {
        if count == 0 {
            Some(AppendError::NoValues)
        } else if self.sized() && count != self.channels.len() {
            Some(AppendError::ChannelMismatch)
        } else {
            None
        }
    }

    /// The reason for which an append of `vs`, `elapsed` milliseconds past
    /// the newest time stamp, is turned down, if there is one.
    pub open spec fn refusal(self, elapsed: nat, vs: Seq<T>) -> Option<AppendError> {
        if self.count_refusal(vs.len()) is Some {
            self.count_refusal(vs.len())
        } else if self.last_x + elapsed > u64::MAX {
            Some(AppendError::ClockOverflow)
        } else {
            None
        }
    }

    /// Channel `c` with the sample for `v` pushed, and nothing evicted yet.
    /// The sample is stamped `last_x + elapsed`.
    pub open spec fn pushed(self, elapsed: nat, v: T, c: int) -> Seq<Sample<T>> {
        let sample = Sample { x: (self.last_x + elapsed) as u64, y: v };
        if self.sized() {
            self.channels[c].push(sample)
        } else {
            seq![sample]
        }
    }

    /// The store after an append that is not turned down.
    pub open spec fn appended(self, elapsed: nat, vs: Seq<T>) -> StoreView<T> {
        StoreView {
            channels: Seq::new(
                vs.len(),
                |c: int| retained(self.pushed(elapsed, vs[c], c), self.window),
            ),
            last_x: self.last_x + elapsed,
            window: self.window,
        }
    }

    /// The store that an append leaves: unchanged where it is turned down.
    pub open spec fn after(self, elapsed: nat, vs: Seq<T>) -> StoreView<T> {
        if self.refusal(elapsed, vs) is None {
            self.appended(elapsed, vs)
        } else {
            self
        }
    }

    /// What an append returns.
    pub open spec fn outcome(self, elapsed: nat, vs: Seq<T>) -> Result<(), AppendError> {
        match self.refusal(elapsed, vs) {
            Some(reason) => Err(reason),
            None => Ok(()),
        }
    }

    /// `after` and `outcome` are what an append of `vs` leaves and returns.
    pub open spec fn append_step(
        self,
        elapsed: nat,
        vs: Seq<T>,
        after: StoreView<T>,
        outcome: Result<(), AppendError>,
    ) -> bool {
        after == self.after(elapsed, vs) && outcome == self.outcome(elapsed, vs)
    }

    /// An accepted append leaves a well-formed store.
    pub proof fn lemma_appended_wf(self, elapsed: nat, vs: Seq<T>)
        requires
            self.wf(),
            self.refusal(elapsed, vs) is None,
        ensures
            self.appended(elapsed, vs).wf(),
    {
        let after = self.appended(elapsed, vs);
        let full0 = self.pushed(elapsed, vs[0], 0);
        self.lemma_pushed(elapsed, vs[0], 0);
        let cut = lemma_cut_exists(full0, self.window);
        lemma_cut_retains(full0, self.window, cut);
        assert(after.channels[0] == full0.skip(cut));
        assert forall|c: int| 0 <= c < after.channels.len() implies {
            &&& (#[trigger] after.channels[c]).len() > 0
            &&& after.channels[c].last().x == after.last_x
            &&& ascending(after.channels[c])
            &&& same_times(after.channels[c], after.channels[0])
            &&& is_cut(after.channels[c], after.window, 0)
        } by {
            let full = self.pushed(elapsed, vs[c], c);
            self.lemma_pushed(elapsed, vs[c], c);
            assert(same_times(full0, full)) by {
                if self.sized() {
                    assert(same_times(self.channels[c], self.channels[0]));
                    assert(same_times(self.channels[0], self.channels[0]));
                }
            }
            lemma_cut_shared(full0, full, self.window, cut);
            lemma_cut_retains(full, self.window, cut);
            assert(after.channels[c] == full.skip(cut));
        }
    }

    /// A channel with its new sample pushed is ascending and ends in that
    /// sample.
    pub proof fn lemma_pushed(self, elapsed: nat, v: T, c: int)
        requires
            self.wf(),
            self.last_x + elapsed <= u64::MAX,
            self.sized() ==> 0 <= c < self.channels.len(),
        ensures
            self.pushed(elapsed, v, c).len() > 0,
            self.pushed(elapsed, v, c).last() == (Sample {
                x: (self.last_x + elapsed) as u64,
                y: v,
            }),
            ascending(self.pushed(elapsed, v, c)),
            self.sized() ==> self.pushed(elapsed, v, c).len() == self.channels[c].len() + 1,
            self.sized() ==> forall|i: int|
                0 <= i < self.channels[c].len() ==> self.pushed(elapsed, v, c)[i]
                    == self.channels[c][i],
    {
        if self.sized() {
            let old_c = self.channels[c];
            assert(old_c.len() > 0);
            assert(forall|i: int| 0 <= i < old_c.len() ==> old_c[i].x <= old_c.last().x);
        }
    }
}

/// The windowed store: for each channel the samples of the trailing window.
#[derive(Debug)]
pub struct Measurements<T> {
    values: Vec<VecDeque<Sample<T>>>,
    start: Instant,
    last_x_value: u64,
    window_size: i64,
}

impl<T> View for Measurements<T> {
    type V = StoreView<T>;

    closed spec fn view(&self) -> StoreView<T> {
        StoreView {
            channels: Seq::new(self.values@.len(), |c: int| self.values@[c]@),
            last_x: self.last_x_value as nat,
            window: self.window_size as int,
        }
    }
}

impl<T> Measurements<T> {
    /// Holds of every store that exists: see [`StoreView::wf`].
    #[verifier::type_invariant]
    pub open spec fn well_formed(self) -> bool {
        self@.wf()
    }
}

/// The contents of a snapshot, channel by channel.
pub open spec fn contents<T>(snapshot: Vec<Vec<Sample<T>>>) -> Seq<Seq<Sample<T>>> {
    Seq::new(snapshot@.len(), |c: int| snapshot@[c]@)
}

/// Evicts from the front of `channel` what has left the window.
fn evict_front<T: Copy>(channel: &mut VecDeque<Sample<T>>, window_size: i64)
    requires
        old(channel)@.len() > 0,
        ascending(old(channel)@),
    ensures
        final(channel)@ == retained(old(channel)@, window_size as int),
{
    let ghost full = channel@;
    let ghost mut cut: int = 0;
    let newest: u64 = channel[channel.len() - 1].x;
    while channel.len() > 1 && (window_size <= 0 || newest - channel[0].x > window_size as u64)
        invariant
            full.len() > 0,
            ascending(full),
            newest == full.last().x,
            0 <= cut < full.len(),
            channel@ == full.skip(cut),
            window_size > 0 ==> forall|i: int|
                0 <= i < cut ==> !within(
                    #[trigger] full[i].x as int,
                    newest as int,
                    window_size as int,
                ),
        decreases channel@.len(),
    {
        proof {
            assert(channel@[0] == full[cut]);
            assert(full.skip(cut).subrange(1, full.skip(cut).len() as int) =~= full.skip(cut + 1));
        }
        channel.pop_front();
        proof {
            cut = cut + 1;
        }
    }
    proof {
        assert(channel@[0] == full[cut]);
        assert(is_cut(full, window_size as int, cut)) by {
            if window_size > 0 {
                assert(within(full[cut].x as int, newest as int, window_size as int));
            }
        }
        lemma_cut_retains(full, window_size as int, cut);
    }
}

impl<T: Copy> Measurements<T> {
    /// An empty store with a window of `window_size` milliseconds and no
    /// channels yet.
    pub fn new(window_size: i64) -> (store: Self)
        ensures
            store@ == StoreView::<T>::fresh(window_size as int),
    {
        let store = Measurements {
            values: Vec::new(),
            start: Instant::now(),
            last_x_value: 0,
            window_size,
        };
        assert(store@.channels =~= Seq::empty());
        store
    }

    /// The length of the window in milliseconds.
    pub fn window_size(&self) -> (window: i64)
        ensures
            window == self@.window,
    {
        self.window_size
    }

    /// The time stamp of the newest sample in milliseconds, zero before the
    /// first one.
    pub fn last_x_value(&self) -> (x: u64)
        ensures
            x == self@.last_x,
    {
        self.last_x_value
    }

    /// The number of channels, zero before the first accepted append.
    pub fn channel_count(&self) -> (count: usize)
        ensures
            count == self@.channels.len(),
    {
        self.values.len()
    }

    fn check_count(&self, count: usize) -> (refusal: Option<AppendError>)
        ensures
            refusal == self@.count_refusal(count as nat),
    {
        if count == 0 {
            Some(AppendError::NoValues)
        } else if self.values.len() != 0 && self.values.len() != count {
            Some(AppendError::ChannelMismatch)
        } else {
            None
        }
    }

    /// Appends one value per channel, stamped with the time that the clock
    /// shows, and evicts what has left the window.
    ///
    /// The clock reference is taken anew while the store has no channels.
    /// The time read off it, in whole milliseconds since that reference, is
    /// added to the newest time stamp to give the new one. What then happens
    /// is what [`Measurements::append_after`] does with that number.
    pub fn append_value(&mut self, vs: Vec<T>) -> (outcome: Result<(), AppendError>)
        ensures
            final(self)@.wf(),
            exists|elapsed: nat| old(self)@.append_step(elapsed, vs@, final(self)@, outcome),
    {
        proof {
            use_type_invariant(&*self);
        }
        let ghost before = self@;
        if self.values.is_empty() {
            self.start = Instant::now();
        }
        let elapsed: u128 = self.start.elapsed().as_millis();
        if elapsed <= u64::MAX as u128 {
            let outcome = self.append_after(elapsed as u64, vs);
            assert(before.append_step(elapsed as nat, vs@, self@, outcome));
            outcome
        } else {
            let outcome = match self.check_count(vs.len()) {
                Some(reason) => Err(reason),
                None => Err(AppendError::ClockOverflow),
            };
            assert(before.append_step(elapsed as nat, vs@, self@, outcome));
            outcome
        }
    }

    /// Appends one value per channel, stamped `elapsed_ms` milliseconds past
    /// the newest time stamp, and evicts what has left the window.
    ///
    /// The first accepted append fixes the number of channels. A vector that
    /// is empty or of another length is turned down, and so is a time stamp
    /// past `u64::MAX`; the store is then unchanged.
    pub fn append_after(&mut self, elapsed_ms: u64, vs: Vec<T>) -> (outcome: Result<
        (),
        AppendError,
    >)
        ensures
            final(self)@.wf(),
            old(self)@.append_step(elapsed_ms as nat, vs@, final(self)@, outcome),
    {
        proof {
            use_type_invariant(&*self);
        }
        let ghost before = self@;
        let count = vs.len();
        match self.check_count(count) {
            Some(reason) => {
                return Err(reason);
            },
            None => {},
        }
        if elapsed_ms > u64::MAX - self.last_x_value {
            return Err(AppendError::ClockOverflow);
        }
        let x: u64 = self.last_x_value + elapsed_ms;
        let window_size = self.window_size;
        let mut channels: Vec<VecDeque<Sample<T>>> = Vec::new();
        std::mem::swap(&mut self.values, &mut channels);
        if channels.len() == 0 {
            while channels.len() < count
                invariant
                    channels@.len() <= count,
                    forall|c: int|
                        0 <= c < channels@.len() ==> (#[trigger] channels@[c])@.len() == 0,
                decreases count - channels@.len(),
            {
                channels.push(VecDeque::new());
            }
        }
        let mut c: usize = 0;
        while c < count
            invariant
                before.wf(),
                before.refusal(elapsed_ms as nat, vs@) is None,
                x == before.last_x + elapsed_ms,
                window_size == before.window,
                count == vs@.len(),
                channels@.len() == count,
                c <= count,
                forall|d: int|
                    0 <= d < c ==> (#[trigger] channels@[d])@ == retained(
                        before.pushed(elapsed_ms as nat, vs@[d], d),
                        before.window,
                    ),
                forall|d: int|
                    c <= d < count ==> (#[trigger] channels@[d])@ == (if before.sized() {
                        before.channels[d]
                    } else {
                        Seq::empty()
                    }),
            decreases count - c,
        {
            proof {
                before.lemma_pushed(elapsed_ms as nat, vs@[c as int], c as int);
            }
            let ghost full = before.pushed(elapsed_ms as nat, vs@[c as int], c as int);
            let channel = &mut channels[c];
            channel.push_back(Sample { x, y: vs[c] });
            assert(channel@ =~= full);
            evict_front(channel, window_size);
            c += 1;
        }
        proof {
            before.lemma_appended_wf(elapsed_ms as nat, vs@);
            let after = before.appended(elapsed_ms as nat, vs@);
            assert(Seq::new(channels@.len(), |d: int| channels@[d]@) =~= after.channels);
        }
        self.last_x_value = x;
        self.values = channels;
        Ok(())
    }

    /// A copy of what every channel retains at this moment.
    pub fn values(&self) -> (snapshot: Vec<Vec<Sample<T>>>)
        ensures
            self@.wf(),
            contents(snapshot) == self@.channels,
    {
        proof {
            use_type_invariant(self);
        }
        let mut snapshot: Vec<Vec<Sample<T>>> = Vec::new();
        let mut c: usize = 0;
        while c < self.values.len()
            invariant
                c <= self.values@.len(),
                snapshot@.len() == c,
                forall|d: int| 0 <= d < c ==> (#[trigger] snapshot@[d])@ == self.values@[d]@,
            decreases self.values@.len() - c,
        {
            let channel = &self.values[c];
            let mut copy: Vec<Sample<T>> = Vec::new();
            let mut i: usize = 0;
            while i < channel.len()
                invariant
                    i <= channel@.len(),
                    copy@ == channel@.take(i as int),
                decreases channel@.len() - i,
            {
                copy.push(channel[i]);
                assert(channel@.take(i as int).push(channel@[i as int]) =~= channel@.take(i + 1));
                i += 1;
            }
            assert(channel@.take(i as int) =~= channel@);
            snapshot.push(copy);
            c += 1;
        }
        assert(contents(snapshot) =~= self@.channels);
        snapshot
    }
}

} // verus!
