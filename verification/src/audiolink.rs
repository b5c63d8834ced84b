//! The per-frame aggregator: it takes the blocks that the capture worker sent
//! since the last frame into the histories of the two channels, and folds the
//! histories into the feature frame that the compute kernel reads.
//!
//! The two operations of the fold, which make the mid and the side signal of a
//! left and a right sample, are the caller's: the aggregator decides which
//! samples they are applied to and where the results go.

use vstd::prelude::*;
use crate::channel::{lemma_after_concat, lemma_after_empty, ChannelHistory, ChannelView};
use crate::node::{AudiolinkDataTexture, ImageSlot};
use crate::pipewire::PipewireIncomingMessage;

verus! {

/// Entries per history, and feature vectors per frame.
pub const SAMPLE_HISTORY: usize = 4096;

/// One of the two channels of the stream.
#[derive(Clone, Copy, Debug, PartialEq, Eq, Structural)]
pub enum Channel {
    Left,
    Right,
}

/// Where the half-rate half of a frame is read from.
#[derive(Clone, Copy, Debug, PartialEq, Eq, Structural)]
pub enum HalfRateSource {
    /// From the half-rate histories.
    HalfRate,
    /// From the full-rate histories once more, so that both halves of a frame
    /// agree; kept for consumers that were tuned against such frames.
    FullRate,
}

/// What the four histories hold at one index.
#[derive(Debug, PartialEq)]
pub struct StereoSample<T> {
    pub left_full: T,
    pub right_full: T,
    pub left_half: T,
    pub right_half: T,
}

/// One entry of a feature frame: the sum and the difference signal of the two
/// channels, each derived once from the full-rate histories and once from the
/// half-rate ones.
#[derive(Debug, PartialEq)]
pub struct FeatureVector<T> {
    pub mid_full: T,
    pub side_full: T,
    pub mid_half: T,
    pub side_half: T,
}

/// Whether `vector` is what `mid` and `side` make of `sample`: each applied
/// to the left and the right sample of one rate, in this order.
pub open spec fn is_feature_of<T, M: Fn(T, T) -> T, S: Fn(T, T) -> T>(
    vector: FeatureVector<T>,
    sample: StereoSample<T>,
    mid: M,
    side: S,
) -> bool {
    &&& call_ensures(mid, (sample.left_full, sample.right_full), vector.mid_full)
    &&& call_ensures(side, (sample.left_full, sample.right_full), vector.side_full)
    &&& call_ensures(mid, (sample.left_half, sample.right_half), vector.mid_half)
    &&& call_ensures(side, (sample.left_half, sample.right_half), vector.side_half)
}

/// What one frame derives from the histories: the feature frame, newest
/// first, and the peak of each channel.
#[derive(Debug, PartialEq)]
pub struct Frame<T> {
    pub features: Vec<FeatureVector<T>>,
    pub left_max: T,
    pub right_max: T,
}

/// Whether `peaks` are the peaks that a fold of `samples` into `start` goes
/// through: it begins with `start`, and each further one is what `louder`
/// makes of the peak before it, as its first argument, and the next sample,
/// as its second.
pub open spec fn is_fold_trace<T, F: Fn(T, T) -> T>(
    louder: F,
    start: T,
    samples: Seq<T>,
    peaks: Seq<T>,
) -> bool {
    &&& peaks.len() == samples.len() + 1
    &&& peaks[0] == start
    &&& forall|i: int|
        0 < i <= samples.len() ==> call_ensures(
            louder,
            (peaks[i - 1], samples[i - 1]),
            #[trigger] peaks[i],
        )
}

/// Whether `result` is what comes of folding `samples` into `start` with
/// `louder`, one after the other from index 0.
pub open spec fn folds_to<T, F: Fn(T, T) -> T>(
    louder: F,
    start: T,
    samples: Seq<T>,
    result: T,
) -> bool {
    exists|peaks: Seq<T>| #[trigger]
        is_fold_trace(louder, start, samples, peaks) && peaks.last() == result
}

/// How far a scan has come in a history of `len` entries after `steps` steps.
pub open spec fn reach(steps: int, len: int) -> int {
    if steps < len {
        steps
    } else {
        len
    }
}

/// The entries of a history that a frame of `len` entries reaches.
pub open spec fn scanned<T>(history: Seq<T>, len: nat) -> Seq<T> {
    if len < history.len() {
        history.take(len as int)
    } else {
        history
    }
}

/// The samples that a message carries for a channel.
pub open spec fn block_of<T>(message: PipewireIncomingMessage<T>, channel: Channel) -> Seq<T> {
    match (message, channel) {
        (PipewireIncomingMessage::LeftChannelData(block), Channel::Left) => block@,
        (PipewireIncomingMessage::RightChannelData(block), Channel::Right) => block@,
        _ => Seq::empty(),
    }
}

/// The samples that a run of messages carries for a channel, in arrival order.
pub open spec fn stream_of<T>(messages: Seq<PipewireIncomingMessage<T>>, channel: Channel) -> Seq<
    T,
>
    decreases messages.len(),
{
    if messages.len() == 0 {
        Seq::empty()
    } else {
        stream_of(messages.drop_last(), channel) + block_of(messages.last(), channel)
    }
}

/// The entry of a history at `index`, or `silence` where it has none.
pub open spec fn entry_or<T>(history: Seq<T>, index: int, silence: T) -> T {
    if 0 <= index < history.len() {
        history[index]
    } else {
        silence
    }
}

/// The entry of a frame at `index`, read from the histories of two channels.
pub open spec fn sample_at<T>(
    left: ChannelView<T>,
    right: ChannelView<T>,
    source: HalfRateSource,
    silence: T,
    index: int,
) -> StereoSample<T> {
    StereoSample {
        left_full: entry_or(left.full_rate, index, silence),
        right_full: entry_or(right.full_rate, index, silence),
        left_half: match source {
            HalfRateSource::HalfRate => entry_or(left.half_rate, index, silence),
            HalfRateSource::FullRate => entry_or(left.full_rate, index, silence),
        },
        right_half: match source {
            HalfRateSource::HalfRate => entry_or(right.half_rate, index, silence),
            HalfRateSource::FullRate => entry_or(right.full_rate, index, silence),
        },
    }
}

/// Index 0 of a frame is the newest sample: after a channel with room for at
/// least one entry has taken a block that is not empty, the full-rate entry of
/// the frame at index 0 is the last sample of the block, whatever stands for
/// silence.
pub proof fn lemma_frame_starts_with_newest<T>(channel: ChannelView<T>, block: Seq<T>, silence: T)
    requires
        channel.full_rate.len() > 0,
        block.len() > 0,
    ensures
        entry_or(channel.after(block).full_rate, 0, silence) == block.last(),
{
}

/// The aggregator's state: the histories of both channels.
pub struct Audiolink<T> {
    cursor_move: bool,
    half_rate_source: HalfRateSource,
    history_len: usize,
    silence: T,
    left: ChannelHistory<T>,
    right: ChannelHistory<T>,
}

impl<T: Copy> Audiolink<T> {
    /// The left channel.
    pub closed spec fn left(&self) -> ChannelView<T> {
        self.left@
    }

    /// The right channel.
    pub closed spec fn right(&self) -> ChannelView<T> {
        self.right@
    }

    /// Where the half-rate half of a frame is read from.
    pub closed spec fn half_rate_source(&self) -> HalfRateSource {
        self.half_rate_source
    }

    /// Whether a meter has been printed, so that the next one overwrites it.
    pub closed spec fn cursor_move(&self) -> bool {
        self.cursor_move
    }

    /// The number of entries of a frame.
    pub closed spec fn history_len(&self) -> nat {
        self.history_len as nat
    }

    /// The sample that stands for no signal.
    pub closed spec fn silence(&self) -> T {
        self.silence
    }

    /// The channel of this name.
    pub open spec fn channel(&self, channel: Channel) -> ChannelView<T> {
        match channel {
            Channel::Left => self.left(),
            Channel::Right => self.right(),
        }
    }

    /// Whether the aggregator differs from `before` in its channels at most.
    pub open spec fn same_setup(&self, before: &Self) -> bool {
        &&& self.history_len() == before.history_len()
        &&& self.silence() == before.silence()
        &&& self.half_rate_source() == before.half_rate_source()
        &&& self.cursor_move() == before.cursor_move()
    }

    /// All four histories have as many entries as a frame.
    pub open spec fn filled(&self) -> bool {
        self.left().has_len(self.history_len()) && self.right().has_len(self.history_len())
    }

    /// An aggregator whose four histories hold `history_len` entries of
    /// `silence`, with both decimation flags off.
    pub fn new(history_len: usize, silence: T, half_rate_source: HalfRateSource) -> (audiolink:
        Self)
        ensures
            audiolink.history_len() == history_len,
            audiolink.silence() == silence,
            audiolink.half_rate_source() == half_rate_source,
            !audiolink.cursor_move(),
            audiolink.left() == audiolink.right(),
            audiolink.left() == (ChannelView {
                full_rate: Seq::new(history_len as nat, |i: int| silence),
                half_rate: Seq::new(history_len as nat, |i: int| silence),
                on_alternate_sample: false,
            }),
            audiolink.filled(),
    {
        Audiolink {
            cursor_move: false,
            half_rate_source,
            history_len,
            silence,
            left: ChannelHistory::new(history_len, silence),
            right: ChannelHistory::new(history_len, silence),
        }
    }

    /// The number of entries of a frame.
    pub fn len(&self) -> (len: usize)
        ensures
            len == self.history_len(),
    {
        self.history_len
    }

    /// Whether a meter has been printed before.
    pub fn has_printed(&self) -> (printed: bool)
        ensures
            printed == self.cursor_move(),
    {
        self.cursor_move
    }

    /// Records that a meter has been printed.
    pub fn mark_printed(&mut self)
        ensures
            final(self).cursor_move(),
            final(self).left() == old(self).left(),
            final(self).right() == old(self).right(),
            final(self).history_len() == old(self).history_len(),
            final(self).silence() == old(self).silence(),
            final(self).half_rate_source() == old(self).half_rate_source(),
    {
        self.cursor_move = true;
    }

    /// Takes one message: a block of samples goes into the histories of its
    /// channel, anything else is passed over.
    pub fn ingest(&mut self, message: &PipewireIncomingMessage<T>)
        ensures
            final(self).left() == old(self).left().after(block_of(*message, Channel::Left)),
            final(self).right() == old(self).right().after(block_of(*message, Channel::Right)),
            final(self).same_setup(old(self)),
            old(self).filled() ==> final(self).filled(),
    {
        proof {
            lemma_after_empty(self.left@);
            lemma_after_empty(self.right@);
        }
        match message {
            PipewireIncomingMessage::LeftChannelData(block) => {
                self.left.push_block(block.as_slice());
            },
            PipewireIncomingMessage::RightChannelData(block) => {
                self.right.push_block(block.as_slice());
            },
            _ => {},
        }
    }

    /// Takes all the messages of one frame, in arrival order. Each channel ends
    /// as if it had taken its samples as one block.
    pub fn ingest_all(&mut self, messages: &[PipewireIncomingMessage<T>])
        ensures
            final(self).left() == old(self).left().after(stream_of(messages@, Channel::Left)),
            final(self).right() == old(self).right().after(stream_of(messages@, Channel::Right)),
            final(self).same_setup(old(self)),
            old(self).filled() ==> final(self).filled(),
    {
        let mut i: usize = 0;
        proof {
            lemma_after_empty(self.left@);
            lemma_after_empty(self.right@);
            assert(messages@.take(0) =~= Seq::<PipewireIncomingMessage<T>>::empty());
        }
        while i < messages.len()
            invariant
                i <= messages.len(),
                self.left() == old(self).left().after(
                    stream_of(messages@.take(i as int), Channel::Left),
                ),
                self.right() == old(self).right().after(
                    stream_of(messages@.take(i as int), Channel::Right),
                ),
                self.same_setup(old(self)),
            decreases messages.len() - i,
        {
            proof {
                let seen = messages@.take(i as int);
                let more = messages@.take(i + 1);
                assert(more.drop_last() =~= seen);
                assert(more.last() == messages@[i as int]);
                lemma_after_concat(
                    old(self).left(),
                    stream_of(seen, Channel::Left),
                    block_of(messages@[i as int], Channel::Left),
                );
                lemma_after_concat(
                    old(self).right(),
                    stream_of(seen, Channel::Right),
                    block_of(messages@[i as int], Channel::Right),
                );
            }
            self.ingest(&messages[i]);
            i += 1;
        }
        assert(messages@.take(messages@.len() as int) =~= messages@);
    }

    /// The entry of a frame at `index`: what the four histories hold there,
    /// `silence` standing in for a history that does not reach so far.
    pub fn sample(&self, index: usize) -> (entry: StereoSample<T>)
        ensures
            entry == sample_at(
                self.left(),
                self.right(),
                self.half_rate_source(),
                self.silence(),
                index as int,
            ),
    {
        let left_full = match self.left.full_rate_at(index) {
            Some(sample) => sample,
            None => self.silence,
        };
        let right_full = match self.right.full_rate_at(index) {
            Some(sample) => sample,
            None => self.silence,
        };
        match self.half_rate_source {
            HalfRateSource::FullRate => StereoSample {
                left_full,
                right_full,
                left_half: left_full,
                right_half: right_full,
            },
            HalfRateSource::HalfRate => {
                let left_half = match self.left.half_rate_at(index) {
                    Some(sample) => sample,
                    None => self.silence,
                };
                let right_half = match self.right.half_rate_at(index) {
                    Some(sample) => sample,
                    None => self.silence,
                };
                StereoSample { left_full, right_full, left_half, right_half }
            },
        }
    }

    /// The feature frame, newest first: for each index of a frame the four
    /// histories folded into mid and side signals by the two operations given.
    pub fn features<M: Fn(T, T) -> T, S: Fn(T, T) -> T>(&self, mid: M, side: S) -> (frame: Vec<
        FeatureVector<T>,
    >)
        requires
            forall|left: T, right: T| call_requires(mid, (left, right)),
            forall|left: T, right: T| call_requires(side, (left, right)),
        ensures
            frame@.len() == self.history_len(),
            forall|i: int|
                0 <= i < frame@.len() ==> is_feature_of(
                    #[trigger] frame@[i],
                    sample_at(
                        self.left(),
                        self.right(),
                        self.half_rate_source(),
                        self.silence(),
                        i,
                    ),
                    mid,
                    side,
                ),
    {
        let mut frame: Vec<FeatureVector<T>> = Vec::new();
        let mut i: usize = 0;
        while i < self.history_len
            invariant
                i <= self.history_len,
                frame@.len() == i,
                forall|left: T, right: T| call_requires(mid, (left, right)),
                forall|left: T, right: T| call_requires(side, (left, right)),
                forall|k: int|
                    0 <= k < i ==> is_feature_of(
                        #[trigger] frame@[k],
                        sample_at(
                            self.left(),
                            self.right(),
                            self.half_rate_source(),
                            self.silence(),
                            k,
                        ),
                        mid,
                        side,
                    ),
            decreases self.history_len - i,
        {
            let sample = self.sample(i);
            let vector = FeatureVector {
                mid_full: mid(sample.left_full, sample.right_full),
                side_full: side(sample.left_full, sample.right_full),
                mid_half: mid(sample.left_half, sample.right_half),
                side_half: side(sample.left_half, sample.right_half),
            };
            frame.push(vector);
            i += 1;
        }
        frame
    }

    /// The peaks of the two channels, left first: each the fold of `louder`
    /// over the full-rate history of its channel, newest sample first, begun
    /// with silence. The half-rate histories have no part in it.
    pub fn peaks<F: Fn(T, T) -> T>(&self, louder: F) -> (max: (T, T))
        requires
            forall|peak: T, sample: T| call_requires(louder, (peak, sample)),
        ensures
            folds_to(
                louder,
                self.silence(),
                scanned(self.left().full_rate, self.history_len()),
                max.0,
            ),
            folds_to(
                louder,
                self.silence(),
                scanned(self.right().full_rate, self.history_len()),
                max.1,
            ),
    {
        let left_max = fold_full_rate(&self.left, self.history_len, self.silence, &louder);
        let right_max = fold_full_rate(&self.right, self.history_len, self.silence, &louder);
        (left_max, right_max)
    }

    /// The four histories side by side, newest first: one entry per index of
    /// a frame.
    pub fn samples(&self) -> (frame: Vec<StereoSample<T>>)
        ensures
            frame@.len() == self.history_len(),
            forall|i: int|
                0 <= i < frame@.len() ==> #[trigger] frame@[i] == sample_at(
                    self.left(),
                    self.right(),
                    self.half_rate_source(),
                    self.silence(),
                    i,
                ),
    {
        let mut frame: Vec<StereoSample<T>> = Vec::new();
        let mut i: usize = 0;
        while i < self.history_len
            invariant
                i <= self.history_len,
                frame@.len() == i,
                forall|k: int|
                    0 <= k < i ==> #[trigger] frame@[k] == sample_at(
                        self.left(),
                        self.right(),
                        self.half_rate_source(),
                        self.silence(),
                        k,
                    ),
            decreases self.history_len - i,
        {
            let entry = self.sample(i);
            frame.push(entry);
            i += 1;
        }
        frame
    }
}

/// Folds the full-rate entries of a channel that a frame of `len` entries
/// reaches into `start`, from index 0.
fn fold_full_rate<T: Copy, F: Fn(T, T) -> T>(
    channel: &ChannelHistory<T>,
    len: usize,
    start: T,
    louder: &F,
) -> (max: T)
    requires
        forall|peak: T, sample: T| call_requires(*louder, (peak, sample)),
    ensures
        folds_to(*louder, start, scanned(channel@.full_rate, len as nat), max),
{
    let ghost samples = scanned(channel@.full_rate, len as nat);
    let mut max = start;
    let ghost mut peaks: Seq<T> = seq![start];
    let mut i: usize = 0;
    while i < len
        invariant
            i <= len,
            samples == scanned(channel@.full_rate, len as nat),
            forall|peak: T, sample: T| call_requires(*louder, (peak, sample)),
            is_fold_trace(
                *louder,
                start,
                samples.take(reach(i as int, samples.len() as int)),
                peaks,
            ),
            peaks.last() == max,
        decreases len - i,
    {
        match channel.full_rate_at(i) {
            Some(sample) => {
                max = louder(max, sample);
                proof {
                    peaks = peaks.push(max);
                }
            },
            None => {},
        }
        i += 1;
    }
    proof {
        assert(samples.take(samples.len() as int) =~= samples);
    }
    max
}

/// A run of messages carries at least as many samples as any of its prefixes.
pub proof fn lemma_stream_grows<T>(
    messages: Seq<PipewireIncomingMessage<T>>,
    channel: Channel,
    seen: int,
)
    requires
        0 <= seen <= messages.len(),
    ensures
        stream_of(messages.take(seen), channel).len() <= stream_of(messages, channel).len(),
    decreases messages.len(),
{
    if seen == messages.len() {
        assert(messages.take(seen) =~= messages);
    } else {
        assert(messages.take(seen) =~= messages.drop_last().take(seen));
        lemma_stream_grows(messages.drop_last(), channel, seen);
    }
}

/// The number of samples that a run of messages carries for a channel, or
/// `None` where the number is beyond what the machine counts.
pub fn captured_samples<T>(messages: &[PipewireIncomingMessage<T>], channel: Channel) -> (count:
    Option<usize>)
    ensures
        count == (if stream_of(messages@, channel).len() <= usize::MAX {
            Some(stream_of(messages@, channel).len() as usize)
        } else {
            None
        }),
{
    let mut count: usize = 0;
    let mut i: usize = 0;
    proof {
        assert(messages@.take(0) =~= Seq::<PipewireIncomingMessage<T>>::empty());
    }
    while i < messages.len()
        invariant
            i <= messages.len(),
            count == stream_of(messages@.take(i as int), channel).len(),
        decreases messages.len() - i,
    {
        proof {
            assert(messages@.take(i + 1).drop_last() =~= messages@.take(i as int));
            assert(messages@.take(i + 1).last() == messages@[i as int]);
            lemma_stream_grows(messages@, channel, i + 1);
        }
        let block_len = match (&messages[i], channel) {
            (PipewireIncomingMessage::LeftChannelData(block), Channel::Left) => block.len(),
            (PipewireIncomingMessage::RightChannelData(block), Channel::Right) => block.len(),
            _ => 0,
        };
        match count.checked_add(block_len) {
            Some(sum) => {
                count = sum;
            },
            None => {
                return None;
            },
        }
        i += 1;
    }
    assert(messages@.take(messages@.len() as int) =~= messages@);
    Some(count)
}

/// What the frame loop starts with: image A shown to consumers, and an
/// aggregator whose histories hold `history_len` entries of `silence`.
pub fn setup<T: Copy>(history_len: usize, silence: T, half_rate_source: HalfRateSource) -> (state:
    (AudiolinkDataTexture, Audiolink<T>))
    ensures
        state.0.0 == ImageSlot::A,
        state.1.history_len() == history_len,
        state.1.silence() == silence,
        state.1.half_rate_source() == half_rate_source,
        !state.1.cursor_move(),
        state.1.left() == state.1.right(),
        state.1.left() == (ChannelView {
            full_rate: Seq::new(history_len as nat, |i: int| silence),
            half_rate: Seq::new(history_len as nat, |i: int| silence),
            on_alternate_sample: false,
        }),
        state.1.filled(),
{
    (AudiolinkDataTexture::new(), Audiolink::new(history_len, silence, half_rate_source))
}

/// One frame of the frame loop: shows consumers the image that the node
/// publishes, takes the messages that came since the last frame, folds the
/// histories into the feature frame, and finds the peak of each channel.
pub fn update<T: Copy, M: Fn(T, T) -> T, S: Fn(T, T) -> T, L: Fn(T, T) -> T>(
    audiolink: &mut Audiolink<T>,
    data_texture: &mut AudiolinkDataTexture,
    published: ImageSlot,
    messages: &[PipewireIncomingMessage<T>],
    mid: M,
    side: S,
    louder: L,
) -> (frame: Frame<T>)
    requires
        forall|left: T, right: T| call_requires(mid, (left, right)),
        forall|left: T, right: T| call_requires(side, (left, right)),
        forall|peak: T, sample: T| call_requires(louder, (peak, sample)),
    ensures
        final(data_texture).0 == published,
        final(audiolink).left() == old(audiolink).left().after(
            stream_of(messages@, Channel::Left),
        ),
        final(audiolink).right() == old(audiolink).right().after(
            stream_of(messages@, Channel::Right),
        ),
        final(audiolink).same_setup(old(audiolink)),
        old(audiolink).filled() ==> final(audiolink).filled(),
        frame.features@.len() == final(audiolink).history_len(),
        forall|i: int|
            0 <= i < frame.features@.len() ==> is_feature_of(
                #[trigger] frame.features@[i],
                sample_at(
                    final(audiolink).left(),
                    final(audiolink).right(),
                    final(audiolink).half_rate_source(),
                    final(audiolink).silence(),
                    i,
                ),
                mid,
                side,
            ),
        folds_to(
            louder,
            final(audiolink).silence(),
            scanned(final(audiolink).left().full_rate, final(audiolink).history_len()),
            frame.left_max,
        ),
        folds_to(
            louder,
            final(audiolink).silence(),
            scanned(final(audiolink).right().full_rate, final(audiolink).history_len()),
            frame.right_max,
        ),
{
    data_texture.publish(published);
    audiolink.ingest_all(messages);
    let features = audiolink.features(mid, side);
    let (left_max, right_max) = audiolink.peaks(louder);
    Frame { features, left_max, right_max }
}

} // verus!
