//! One audio channel: its full-rate history, its half-rate history, and the
//! flag that sends every second sample on to the half-rate one.

use vstd::prelude::*;
use crate::history::{
    lemma_shift_in_all_concat, lemma_shift_in_all_empty, lemma_shift_in_all_push, shift_in_all,
    RollingHistory,
};

verus! {

/// The decimation flag after `count` more samples: each sample toggles it.
pub open spec fn phase_after(on: bool, count: nat) -> bool {
    if count % 2 == 0 {
        on
    } else {
        !on
    }
}

/// The samples of a block that reach the half-rate history, in arrival order,
/// when the flag is `on` before the block. A sample is forwarded when its
/// toggle turns the flag on: every second one, starting with the first where
/// the flag was off and with the second where it was on.
pub open spec fn forwarded<T>(on: bool, samples: Seq<T>) -> Seq<T> {
    let skip: int = if on { 1 } else { 0 };
    Seq::new(((samples.len() + 1 - skip) / 2) as nat, |k: int| samples[2 * k + skip])
}

/// One more sample is forwarded exactly when its toggle turns the flag on.
pub proof fn lemma_forwarded_push<T>(on: bool, samples: Seq<T>, sample: T)
    ensures
        forwarded(on, samples.push(sample)) == (if phase_after(on, samples.len() + 1) {
            forwarded(on, samples).push(sample)
        } else {
            forwarded(on, samples)
        }),
        phase_after(on, samples.len() + 1) == !phase_after(on, samples.len()),
{
    let more = forwarded(on, samples.push(sample));
    if phase_after(on, samples.len() + 1) {
        assert(more =~= forwarded(on, samples).push(sample));
    } else {
        assert(more =~= forwarded(on, samples));
    }
}

/// What is forwarded of two blocks in a row is what is forwarded of the first,
/// then what is forwarded of the second with the flag as the first left it.
pub proof fn lemma_forwarded_concat<T>(on: bool, first: Seq<T>, second: Seq<T>)
    ensures
        forwarded(on, first + second) == forwarded(on, first) + forwarded(
            phase_after(on, first.len()),
            second,
        ),
        phase_after(on, (first + second).len()) == phase_after(
            phase_after(on, first.len()),
            second.len(),
        ),
{
    let whole = forwarded(on, first + second);
    let head = forwarded(on, first);
    let tail = forwarded(phase_after(on, first.len()), second);
    assert(whole.len() == head.len() + tail.len());
    assert forall|k: int| 0 <= k < whole.len() implies whole[k] == (head + tail)[k] by {
        if k >= head.len() {
            assert((head + tail)[k] == tail[k - head.len()]);
        }
    }
    assert(whole =~= head + tail);
}

/// What a channel holds, as plain sequences.
pub struct ChannelView<T> {
    /// The full-rate history, newest first.
    pub full_rate: Seq<T>,
    /// The half-rate history, newest first.
    pub half_rate: Seq<T>,
    /// Whether the last sample was forwarded to the half-rate history.
    pub on_alternate_sample: bool,
}

impl<T> ChannelView<T> {
    /// The channel after it has taken a block, sample by sample in arrival
    /// order: every sample enters the full-rate history, the forwarded ones
    /// the half-rate history as well, and each toggles the flag.
    pub open spec fn after(self, block: Seq<T>) -> ChannelView<T> {
        ChannelView {
            full_rate: shift_in_all(self.full_rate, block),
            half_rate: shift_in_all(self.half_rate, forwarded(self.on_alternate_sample, block)),
            on_alternate_sample: phase_after(self.on_alternate_sample, block.len()),
        }
    }

    /// Both histories have `len` entries.
    pub open spec fn has_len(self, len: nat) -> bool {
        self.full_rate.len() == len && self.half_rate.len() == len
    }
}

/// Taking two blocks one after the other equals taking their concatenation.
pub proof fn lemma_after_concat<T>(channel: ChannelView<T>, first: Seq<T>, second: Seq<T>)
    ensures
        channel.after(first).after(second) == channel.after(first + second),
{
    lemma_forwarded_concat(channel.on_alternate_sample, first, second);
    lemma_shift_in_all_concat(channel.full_rate, first, second);
    lemma_shift_in_all_concat(
        channel.half_rate,
        forwarded(channel.on_alternate_sample, first),
        forwarded(phase_after(channel.on_alternate_sample, first.len()), second),
    );
}

/// A channel keeps the length of its histories whatever block it takes.
pub proof fn lemma_after_keeps_len<T>(channel: ChannelView<T>, block: Seq<T>, len: nat)
    requires
        channel.has_len(len),
    ensures
        channel.after(block).has_len(len),
{
}

/// Taking an empty block changes nothing.
pub proof fn lemma_after_empty<T>(channel: ChannelView<T>)
    ensures
        channel.after(Seq::<T>::empty()) == channel,
{
    lemma_shift_in_all_empty(channel.full_rate);
    lemma_shift_in_all_empty(channel.half_rate);
    assert(forwarded(channel.on_alternate_sample, Seq::<T>::empty()) =~= Seq::<T>::empty());
}

/// What the half-rate history shows after a block, whatever the flag was: the
/// forwarded samples newest first, then what it held before, moved back by
/// their number, and as many entries as before.
pub proof fn lemma_half_rate_after<T>(channel: ChannelView<T>, samples: Seq<T>)
    ensures
        ({
            let kept = forwarded(channel.on_alternate_sample, samples);
            let half = channel.after(samples).half_rate;
            &&& half.len() == channel.half_rate.len()
            &&& forall|j: int|
                0 <= j < half.len() ==> #[trigger] half[j] == (if j < kept.len() {
                    kept[kept.len() - 1 - j]
                } else {
                    channel.half_rate[j - kept.len()]
                })
        }),
{
}

/// The decimation law for a channel whose flag is on when the block starts, as
/// it is after any odd number of samples. Of `m` samples exactly `m / 2`
/// (rounded down) reach the half-rate history: the second, the fourth and so
/// on, in arrival order, so that afterwards the half-rate history shows them
/// newest first as far as it has room.
pub proof fn lemma_decimation_from_on<T>(channel: ChannelView<T>, samples: Seq<T>)
    requires
        channel.on_alternate_sample,
    ensures
        ({
            let kept = forwarded(true, samples);
            let half = channel.after(samples).half_rate;
            &&& half == shift_in_all(channel.half_rate, kept)
            &&& kept.len() == samples.len() / 2
            &&& forall|k: int| 0 <= k < kept.len() ==> #[trigger] kept[k] == samples[2 * k + 1]
            &&& forall|j: int|
                0 <= j < half.len() && j < kept.len() ==> #[trigger] half[j] == samples[2 * (
                kept.len() - 1 - j) + 1]
        }),
{
    lemma_half_rate_after(channel, samples);
}

/// The decimation law for a channel whose flag is off when the block starts,
/// as it is for a new channel. Of `m` samples exactly `(m + 1) / 2` (rounded
/// down) reach the half-rate history, which is `m / 2` for an even `m`: the
/// first, the third and so on, in arrival order.
pub proof fn lemma_decimation_from_off<T>(channel: ChannelView<T>, samples: Seq<T>)
    requires
        !channel.on_alternate_sample,
    ensures
        ({
            let kept = forwarded(false, samples);
            let half = channel.after(samples).half_rate;
            &&& half == shift_in_all(channel.half_rate, kept)
            &&& kept.len() == (samples.len() + 1) / 2
            &&& samples.len() % 2 == 0 ==> kept.len() == samples.len() / 2
            &&& forall|k: int| 0 <= k < kept.len() ==> #[trigger] kept[k] == samples[2 * k]
            &&& forall|j: int|
                0 <= j < half.len() && j < kept.len() ==> #[trigger] half[j] == samples[2 * (
                kept.len() - 1 - j)]
        }),
{
    lemma_half_rate_after(channel, samples);
}

/// Forwarding keeps the relative order: of two forwarded samples the one that
/// comes first was also first in the block.
pub proof fn lemma_decimation_keeps_order<T>(on: bool, samples: Seq<T>, j: int, k: int)
    requires
        0 <= j < k < forwarded(on, samples).len(),
    ensures
        ({
            let skip: int = if on { 1 } else { 0 };
            &&& 0 <= 2 * j + skip < 2 * k + skip < samples.len()
            &&& forwarded(on, samples)[j] == samples[2 * j + skip]
            &&& forwarded(on, samples)[k] == samples[2 * k + skip]
        }),
{
}

/// The histories of one channel.
pub struct ChannelHistory<T> {
    full_rate: RollingHistory<T>,
    half_rate: RollingHistory<T>,
    on_alternate_sample: bool,
}

impl<T> View for ChannelHistory<T> {
    type V = ChannelView<T>;

    closed spec fn view(&self) -> ChannelView<T> {
        ChannelView {
            full_rate: self.full_rate@,
            half_rate: self.half_rate@,
            on_alternate_sample: self.on_alternate_sample,
        }
    }
}

impl<T: Copy> ChannelHistory<T> {
    /// A channel with two histories of `len` entries of `fill`, and the flag off.
    pub fn new(len: usize, fill: T) -> (channel: Self)
        ensures
            channel@ == (ChannelView {
                full_rate: Seq::new(len as nat, |i: int| fill),
                half_rate: Seq::new(len as nat, |i: int| fill),
                on_alternate_sample: false,
            }),
    {
        ChannelHistory {
            full_rate: RollingHistory::new(len, fill),
            half_rate: RollingHistory::new(len, fill),
            on_alternate_sample: false,
        }
    }

    /// The length of the full-rate history.
    pub fn len(&self) -> (len: usize)
        ensures
            len == self@.full_rate.len(),
    {
        self.full_rate.len()
    }

    /// The full-rate entry at `index`, where there is one.
    pub fn full_rate_at(&self, index: usize) -> (sample: Option<T>)
        ensures
            sample == (if index < self@.full_rate.len() {
                Some(self@.full_rate[index as int])
            } else {
                None
            }),
    {
        self.full_rate.get(index)
    }

    /// The half-rate entry at `index`, where there is one.
    pub fn half_rate_at(&self, index: usize) -> (sample: Option<T>)
        ensures
            sample == (if index < self@.half_rate.len() {
                Some(self@.half_rate[index as int])
            } else {
                None
            }),
    {
        self.half_rate.get(index)
    }

    /// The flag as it stands.
    pub fn is_on_alternate_sample(&self) -> (on: bool)
        ensures
            on == self@.on_alternate_sample,
    {
        self.on_alternate_sample
    }

    /// A copy of the full-rate history, newest first.
    pub fn full_rate_samples(&self) -> (samples: Vec<T>)
        ensures
            samples@ == self@.full_rate,
    {
        self.full_rate.to_vec()
    }

    /// A copy of the half-rate history, newest first.
    pub fn half_rate_samples(&self) -> (samples: Vec<T>)
        ensures
            samples@ == self@.half_rate,
    {
        self.half_rate.to_vec()
    }

    /// Takes one sample: into the full-rate history always, then toggles the
    /// flag, and into the half-rate history where the flag is now on.
    pub fn push_sample(&mut self, sample: T)
        ensures
            final(self)@ == old(self)@.after(seq![sample]),
    {
        proof {
            lemma_shift_in_all_empty(self.full_rate@);
            lemma_shift_in_all_empty(self.half_rate@);
            lemma_shift_in_all_push(self.full_rate@, Seq::<T>::empty(), sample);
            lemma_shift_in_all_push(self.half_rate@, Seq::<T>::empty(), sample);
            lemma_forwarded_push(self.on_alternate_sample, Seq::<T>::empty(), sample);
            assert(Seq::<T>::empty().push(sample) =~= seq![sample]);
            assert(forwarded(self.on_alternate_sample, Seq::<T>::empty()) =~= Seq::<T>::empty());
        }
        self.full_rate.insert(sample);
        self.on_alternate_sample = !self.on_alternate_sample;
        if self.on_alternate_sample {
            self.half_rate.insert(sample);
        }
    }

    /// Takes a block, sample by sample in arrival order.
    pub fn push_block(&mut self, block: &[T])
        ensures
            final(self)@ == old(self)@.after(block@),
    {
        let mut i: usize = 0;
        proof {
            lemma_after_empty(self@);
            assert(block@.take(0) =~= Seq::<T>::empty());
        }
        while i < block.len()
            invariant
                i <= block.len(),
                self@ == old(self)@.after(block@.take(i as int)),
            decreases block.len() - i,
        {
            proof {
                lemma_after_concat(old(self)@, block@.take(i as int), seq![block@[i as int]]);
                assert(block@.take(i as int) + seq![block@[i as int]] =~= block@.take(i + 1));
            }
            self.push_sample(block[i]);
            i += 1;
        }
        assert(block@.take(block@.len() as int) =~= block@);
    }
}

} // verus!
