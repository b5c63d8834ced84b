//! The messages between the capture worker and the frame loop, the decision
//! that ends the worker's start-up, and the decoding of a captured buffer into
//! one block of sample words per channel.
//!
//! A sample travels as the 32-bit little-endian word that the device wrote; the
//! caller reinterprets the word as the number it encodes.

use vstd::prelude::*;

verus! {

/// What the owner tells the worker.
#[derive(Clone, Copy, Debug, PartialEq, Eq, Structural)]
pub enum PipewireOutgoingMessage {
    /// Leave the event loop.
    Terminate,
}

/// What the worker tells the frame loop.
#[derive(Debug)]
pub enum PipewireIncomingMessage<T> {
    /// The stream is connected; data follows.
    Ready,
    /// Setting up failed for this cause; nothing follows.
    Error(String),
    /// One block of the left channel, in arrival order.
    LeftChannelData(Vec<T>),
    /// One block of the right channel, in arrival order.
    RightChannelData(Vec<T>),
}

/// Why the capture worker could not be started.
#[derive(Debug, PartialEq, Eq)]
pub enum StartupError {
    /// The worker reported this cause.
    Worker(String),
    /// The worker went away before it sent anything.
    Disconnected,
}

/// How start-up ends given the first thing that came from the worker, `None`
/// standing for a transport that closed before any message.
pub open spec fn startup_result<T>(first: Option<PipewireIncomingMessage<T>>) -> Result<
    (),
    StartupError,
> {
    match first {
        None => Err(StartupError::Disconnected),
        Some(PipewireIncomingMessage::Error(cause)) => Err(StartupError::Worker(cause)),
        Some(_) => Ok(()),
    }
}

/// Decides whether the worker has started: it has unless its first message is
/// an error or the transport closed before any message.
pub fn startup_outcome<T>(first: Option<PipewireIncomingMessage<T>>) -> (outcome: Result<
    (),
    StartupError,
>)
    ensures
        outcome == startup_result(first),
{
    match first {
        None => Err(StartupError::Disconnected),
        Some(PipewireIncomingMessage::Error(cause)) => Err(StartupError::Worker(cause)),
        Some(_) => Ok(()),
    }
}

/// Bytes per sample on the wire.
pub const SAMPLE_BYTES: u32 = 4;

/// The number that four bytes encode, least significant byte first.
pub open spec fn le_word(b0: u8, b1: u8, b2: u8, b3: u8) -> int {
    b0 + 256 * b1 + 65536 * b2 + 16777216 * b3
}

/// The sample word at `index` of a buffer.
pub open spec fn sample_word(bytes: Seq<u8>, index: int) -> int {
    le_word(bytes[4 * index], bytes[4 * index + 1], bytes[4 * index + 2], bytes[4 * index + 3])
}

/// The number of whole samples in a chunk of `chunk_size` bytes.
pub open spec fn sample_count(chunk_size: u32) -> nat {
    (chunk_size / SAMPLE_BYTES) as nat
}

/// The word at `from` and every `channels`-th word after it, below `count`.
pub open spec fn strided_words(bytes: Seq<u8>, count: nat, channels: nat, from: nat) -> Seq<u32>
    decreases
            (if from < count {
                count - from
            } else {
                0
            }),
{
    if channels > 0 && from < count {
        let rest = strided_words(bytes, count, channels, (from + channels) as nat);
        seq![sample_word(bytes, from as int) as u32] + rest
    } else {
        Seq::empty()
    }
}

/// The block of one channel in an interleaved buffer of `count` samples:
/// nothing for a channel that the stream does not have.
pub open spec fn channel_block(bytes: Seq<u8>, count: nat, channels: nat, channel: nat) -> Seq<
    u32,
> {
    if channel < channels {
        strided_words(bytes, count, channels, channel)
    } else {
        Seq::empty()
    }
}

/// Whether a buffer holds all the samples that its chunk size announces.
pub open spec fn holds_chunk(bytes: Seq<u8>, chunk_size: u32) -> bool {
    4 * sample_count(chunk_size) <= bytes.len()
}

/// The `k`-th word of a strided selection is the one `k` strides after the
/// first, and the selection stops at the last such word below `count`.
pub proof fn lemma_strided_words(bytes: Seq<u8>, count: nat, channels: nat, from: nat, k: nat)
    requires
        channels > 0,
    ensures
        from + k * channels < count <==> k < strided_words(bytes, count, channels, from).len(),
        from + k * channels < count ==> strided_words(bytes, count, channels, from)[k as int]
            == sample_word(bytes, (from + k * channels) as int) as u32,
    decreases k,
{
    if k == 0 {
        assert(from + 0 * channels == from);
    } else {
        assert(from + k * channels == (from + channels) + (k - 1) * channels)
            by (nonlinear_arith);
        assert((k - 1) * channels >= 0) by (nonlinear_arith)
            requires
                k >= 1,
                channels > 0,
        ;
        if from < count {
            lemma_strided_words(bytes, count, channels, (from + channels) as nat, (k - 1) as nat);
        }
    }
}

/// Decodes the sample word at `index`.
fn read_word(samples: &[u8], index: usize) -> (word: u32)
    requires
        4 * index + 4 <= samples@.len(),
    ensures
        word == sample_word(samples@, index as int),
{
    let len = samples.len();
    let at: usize = 4 * index;
    let b0: u32 = samples[at] as u32;
    let b1: u32 = samples[at + 1] as u32;
    let b2: u32 = samples[at + 2] as u32;
    let b3: u32 = samples[at + 3] as u32;
    b0 + 256 * b1 + 65536 * b2 + 16777216 * b3
}

/// Collects the words of one channel.
fn strided_block(samples: &[u8], count: u32, channels: u32, channel: u32) -> (block: Vec<u32>)
    requires
        channel < channels,
        4 * count <= samples@.len(),
    ensures
        block@ == strided_words(samples@, count as nat, channels as nat, channel as nat),
{
    let ghost whole = strided_words(samples@, count as nat, channels as nat, channel as nat);
    let mut block: Vec<u32> = Vec::new();
    let mut index: u64 = channel as u64;
    while index < count as u64
        invariant
            channels > 0,
            4 * count <= samples@.len(),
            channel <= index <= count + channels,
            block@ + strided_words(samples@, count as nat, channels as nat, index as nat) == whole,
        decreases count + channels - index,
    {
        let ghost rest = strided_words(
            samples@,
            count as nat,
            channels as nat,
            (index + channels) as nat,
        );
        let word = read_word(samples, index as usize);
        proof {
            assert(block@.push(word) + rest =~= block@ + (seq![word] + rest));
        }
        block.push(word);
        index += channels as u64;
    }
    proof {
        assert(block@ + Seq::<u32>::empty() =~= block@);
    }
    block
}

/// Splits a captured buffer into the blocks of the left and the right channel.
///
/// The buffer holds `chunk_size / 4` samples, interleaved over
/// `number_channels` channels. Channel 0 is the left one, channel 1 the right
/// one; further channels are dropped. A stream of one channel has no right
/// block, and one of no channels has neither.
pub fn deinterleave(samples: &[u8], number_channels: u32, chunk_size: u32) -> (blocks: (
    Vec<u32>,
    Vec<u32>,
))
    requires
        number_channels == 0 || holds_chunk(samples@, chunk_size),
    ensures
        blocks.0@ == channel_block(
            samples@,
            sample_count(chunk_size),
            number_channels as nat,
            0,
        ),
        blocks.1@ == channel_block(
            samples@,
            sample_count(chunk_size),
            number_channels as nat,
            1,
        ),
{
    let count: u32 = chunk_size / SAMPLE_BYTES;
    let left = if number_channels > 0 {
        strided_block(samples, count, number_channels, 0)
    } else {
        Vec::new()
    };
    let right = if number_channels > 1 {
        strided_block(samples, count, number_channels, 1)
    } else {
        Vec::new()
    };
    (left, right)
}

/// Whether `deinterleave` can take this buffer.
pub fn can_deinterleave(samples: &[u8], number_channels: u32, chunk_size: u32) -> (ok: bool)
    ensures
        ok == (number_channels == 0 || holds_chunk(samples@, chunk_size)),
{
    if number_channels == 0 {
        return true;
    }
    let count: u32 = chunk_size / SAMPLE_BYTES;
    count as u64 * 4 <= samples.len() as u64
}

} // verus!
