//! A window of the most recent samples of one stream, newest first.

use vstd::prelude::*;

verus! {

/// The samples of a block in reverse arrival order: the last one arrived first.
pub open spec fn newest_first<T>(samples: Seq<T>) -> Seq<T> {
    Seq::new(samples.len(), |i: int| samples[samples.len() - 1 - i])
}

/// A window after `samples` have been shifted in at the front, one by one in
/// arrival order, each shift dropping the oldest entry so that the length stays.
pub open spec fn shift_in_all<T>(window: Seq<T>, samples: Seq<T>) -> Seq<T> {
    (newest_first(samples) + window).take(window.len() as int)
}

/// A window after one sample has been shifted in at the front.
pub open spec fn shift_in<T>(window: Seq<T>, sample: T) -> Seq<T> {
    (seq![sample] + window).take(window.len() as int)
}

/// The entry that leaves a window when `sample` is shifted in: the oldest one,
/// or the sample itself where the window holds nothing.
pub open spec fn evicted_by<T>(window: Seq<T>, sample: T) -> T {
    (seq![sample] + window).last()
}

/// Shifting in a block equals shifting in all but its last sample, then that one.
pub proof fn lemma_shift_in_all_push<T>(window: Seq<T>, samples: Seq<T>, sample: T)
    ensures
        shift_in_all(window, samples.push(sample)) == shift_in(
            shift_in_all(window, samples),
            sample,
        ),
{
    let n = window.len() as int;
    let left = shift_in_all(window, samples.push(sample));
    let right = shift_in(shift_in_all(window, samples), sample);
    assert(left.len() == right.len());
    assert forall|i: int| 0 <= i < left.len() implies left[i] == right[i] by {
        if i > 0 {
            assert(right[i] == shift_in_all(window, samples)[i - 1]);
        }
    }
    assert(left =~= right);
}

/// Shifting in nothing leaves a window as it is.
pub proof fn lemma_shift_in_all_empty<T>(window: Seq<T>)
    ensures
        shift_in_all(window, Seq::<T>::empty()) == window,
{
    assert(shift_in_all(window, Seq::<T>::empty()) =~= window);
}

/// Shifting in two blocks one after the other equals shifting in their
/// concatenation.
pub proof fn lemma_shift_in_all_concat<T>(window: Seq<T>, first: Seq<T>, second: Seq<T>)
    ensures
        shift_in_all(shift_in_all(window, first), second) == shift_in_all(window, first + second),
{
    let left = shift_in_all(shift_in_all(window, first), second);
    let right = shift_in_all(window, first + second);
    assert(left.len() == right.len());
    assert forall|i: int| 0 <= i < left.len() implies left[i] == right[i] by {
        if i >= second.len() {
            assert(left[i] == shift_in_all(window, first)[i - second.len()]);
        }
    }
    assert(left =~= right);
}

/// The rolling-history law. However many samples are shifted in, the window
/// keeps its length and, where it has room for one, shows the newest sample at
/// index 0. In a window of length `n` that has taken in `n` samples, the next
/// insertion evicts the one that was inserted first.
pub proof fn lemma_rolling_history<T>(window: Seq<T>, samples: Seq<T>)
    ensures
        shift_in_all(window, samples).len() == window.len(),
        samples.len() > 0 && window.len() > 0 ==> shift_in_all(window, samples)[0]
            == samples.last(),
        samples.len() == window.len() + 1 ==> evicted_by(
            shift_in_all(window, samples.drop_last()),
            samples.last(),
        ) == samples[0],
{
}

/// Samples that no longer fit leave by themselves: once a window has taken in
/// at least as many samples as it has entries, it shows the newest of them and
/// nothing of what it held before.
pub proof fn lemma_full_turn<T>(window: Seq<T>, samples: Seq<T>)
    requires
        samples.len() >= window.len(),
    ensures
        shift_in_all(window, samples) == newest_first(samples).take(window.len() as int),
        forall|i: int|
            0 <= i < window.len() ==> #[trigger] shift_in_all(window, samples)[i]
                == samples[samples.len() - 1 - i],
{
    assert(shift_in_all(window, samples) =~= newest_first(samples).take(window.len() as int));
}

/// A fixed-length history of one stream. Index 0 holds the newest sample.
pub struct RollingHistory<T> {
    samples: Vec<T>,
}

impl<T> View for RollingHistory<T> {
    type V = Seq<T>;

    closed spec fn view(&self) -> Seq<T> {
        self.samples@
    }
}

impl<T: Copy> RollingHistory<T> {
    /// A history of `len` entries, each holding `fill`.
    pub fn new(len: usize, fill: T) -> (history: Self)
        ensures
            history@ == Seq::new(len as nat, |i: int| fill),
    {
        let mut samples: Vec<T> = Vec::new();
        let mut i: usize = 0;
        while i < len
            invariant
                i <= len,
                samples@ == Seq::new(i as nat, |k: int| fill),
            decreases len - i,
        {
            samples.push(fill);
            i += 1;
            assert(samples@ =~= Seq::new(i as nat, |k: int| fill));
        }
        RollingHistory { samples }
    }

    /// The fixed number of entries.
    pub fn len(&self) -> (len: usize)
        ensures
            len == self@.len(),
    {
        self.samples.len()
    }

    /// The entry at `index`, counted from the newest, where there is one.
    pub fn get(&self, index: usize) -> (sample: Option<T>)
        ensures
            sample == (if index < self@.len() {
                Some(self@[index as int])
            } else {
                None
            }),
    {
        if index < self.samples.len() {
            Some(self.samples[index])
        } else {
            None
        }
    }

    /// Shifts `sample` in at index 0 and hands back the entry that left.
    pub fn insert(&mut self, sample: T) -> (evicted: T)
        ensures
            final(self)@ == shift_in(old(self)@, sample),
            evicted == evicted_by(old(self)@, sample),
    {
        self.samples.insert(0, sample);
        let popped = self.samples.pop();
        assert(self.samples@ =~= shift_in(old(self).samples@, sample));
        match popped {
            Some(oldest) => oldest,
            None => sample,
        }
    }

    /// Shifts a block in, sample by sample in arrival order.
    pub fn extend(&mut self, block: &[T])
        ensures
            final(self)@ == shift_in_all(old(self)@, block@),
    {
        let mut i: usize = 0;
        proof {
            lemma_shift_in_all_empty(self@);
            assert(block@.take(0) =~= Seq::<T>::empty());
        }
        while i < block.len()
            invariant
                i <= block.len(),
                self@ == shift_in_all(old(self)@, block@.take(i as int)),
            decreases block.len() - i,
        {
            proof {
                lemma_shift_in_all_push(old(self)@, block@.take(i as int), block@[i as int]);
                assert(block@.take(i as int).push(block@[i as int]) =~= block@.take(i + 1));
            }
            self.insert(block[i]);
            i += 1;
        }
        assert(block@.take(block@.len() as int) =~= block@);
    }

    /// A copy of the entries, newest first.
    pub fn to_vec(&self) -> (samples: Vec<T>)
        ensures
            samples@ == self@,
    {
        let mut samples: Vec<T> = Vec::new();
        let mut i: usize = 0;
        while i < self.samples.len()
            invariant
                i <= self.samples.len(),
                samples@ == self.samples@.take(i as int),
            decreases self.samples.len() - i,
        {
            samples.push(self.samples[i]);
            i += 1;
            assert(samples@ =~= self.samples@.take(i as int));
        }
        assert(self.samples@.take(self.samples@.len() as int) =~= self.samples@);
        samples
    }
}

} // verus!
