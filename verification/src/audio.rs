//! Audio buffers.

use crate::frame::Frame;
use crate::samp::{le_code, Samp16, Samp24, Sample};
use crate::sink::{accepted, Sink};
use vstd::prelude::*;
use vstd::std_specs::iter::IteratorSpec;

verus! {

/// A sample rate in hertz: a number other than zero.
#[derive(Clone, Copy, Debug)]
struct Hertz(u32);

impl Hertz {
    #[verifier::type_invariant]
    spec fn inv(self) -> bool {
        self.0 != 0
    }

    fn get(self) -> (hz: u32)
        ensures
            hz == self.0,
            hz != 0,
    {
        proof {
            use_type_invariant(&self);
        }
        self.0
    }
}

/// Audio buffer (fixed-size array of audio [`Frame`](crate::frame::Frame)s
/// at sample rate specified in hertz).
///
/// The view of a buffer is the sequence of its frames.
pub struct Audio<S, const N: usize> {
    // Sample rate of the audio in hertz.
    sample_rate: Hertz,
    // Audio frames.
    frames: Vec<Frame<S, N>>,
}

impl<S, const N: usize> View for Audio<S, N> {
    type V = Seq<Frame<S, N>>;

    closed spec fn view(&self) -> Seq<Frame<S, N>> {
        self.frames@
    }
}

impl<S, const N: usize> Audio<S, N> {
    /// The sample rate of the buffer in hertz.
    pub closed spec fn rate(&self) -> nat {
        self.sample_rate.0 as nat
    }

    /// Construct an `Audio` buffer with owned sample data.  You can get
    /// ownership of the sample data back from the `Audio` buffer by calling
    /// [`into_frames`](Audio::into_frames).
    pub fn with_frames(hz: u32, frames: Vec<Frame<S, N>>) -> (audio: Self)
        requires
            hz != 0,
        ensures
            audio.rate() == hz,
            audio@ == frames@,
    {
        Audio { sample_rate: Hertz(hz), frames }
    }

    /// Get internal sample data as `Vec` of audio frames.
    pub fn into_frames(self) -> (frames: Vec<Frame<S, N>>)
        ensures
            frames@ == self@,
    {
        self.frames
    }

    /// Get a slice of all audio frames.
    pub fn as_slice(&self) -> (frames: &[Frame<S, N>])
        ensures
            frames@ == self@,
    {
        self.frames.as_slice()
    }

    /// Get a slice of all audio frames.
    pub fn as_mut_slice(&mut self) -> (frames: &mut [Frame<S, N>])
        ensures
            frames@ == old(self)@,
            final(self)@ == final(frames)@,
            final(self).rate() == old(self).rate(),
    {
        self.frames.as_mut_slice()
    }

    /// Returns an iterator over the audio frames.
    pub fn iter(&self) -> (frames: core::slice::Iter<'_, Frame<S, N>>)
        ensures
            frames.remaining() == self@.as_ref(),
    {
        self.frames.as_slice().iter()
    }

    /// Get the sample rate of this audio buffer.
    pub fn sample_rate(&self) -> (hz: u32)
        ensures
            hz == self.rate(),
            hz != 0,
    {
        self.sample_rate.get()
    }

    /// Get the length of the `Audio` buffer.
    pub fn len(&self) -> (frames: usize)
        ensures
            frames == self@.len(),
    {
        self.frames.len()
    }

    /// Check if `Audio` buffer is empty.
    pub fn is_empty(&self) -> (empty: bool)
        ensures
            empty == (self@.len() == 0),
    {
        self.len() == 0
    }

    /// Sink audio into this audio buffer, from its first frame on.
    pub fn sink(self) -> (sink: AudioSink<S, N>)
        ensures
            sink.audio() == self,
            sink.position() == 0,
    {
        AudioSink { index: 0, audio: self }
    }
}

impl<S: Copy, const N: usize> Audio<S, N> {
    /// Get an audio frame.
    pub fn get(&self, index: usize) -> (frame: Option<Frame<S, N>>)
        ensures
            index < self@.len() ==> frame == Some(self@[index as int]),
            index >= self@.len() ==> frame is None,
    {
        if index < self.frames.len() {
            Some(self.frames[index])
        } else {
            None
        }
    }

    /// Get a mutable reference to an audio frame.
    pub fn get_mut(&mut self, index: usize) -> (frame: Option<&mut Frame<S, N>>)
        ensures
            final(self).rate() == old(self).rate(),
            index >= old(self)@.len() ==> frame is None && final(self)@ == old(self)@,
            index < old(self)@.len() ==> {
                &&& frame matches Some(slot)
                &&& *slot == old(self)@[index as int]
                &&& final(self)@ == old(self)@.update(index as int, *final(slot))
            },
    {
        if index < self.frames.len() {
            Some(&mut self.frames[index])
        } else {
            None
        }
    }
}

impl<S: Sample, const N: usize> Audio<S, N> {
    /// Construct an `Audio` buffer with all all samples set to zero.
    pub fn with_silence(hz: u32, len: usize) -> (audio: Self)
        requires
            hz != 0,
        ensures
            audio.rate() == hz,
            audio@.len() == len,
            forall|i: int, c: int|
                0 <= i < len && 0 <= c < N ==> (#[trigger] audio@[i]@[c]).value() == 0,
    {
        let mut frames: Vec<Frame<S, N>> = Vec::new();
        let mut i: usize = 0;
        while i < len
            invariant
                i <= len,
                frames@.len() == i,
                forall|j: int, c: int|
                    0 <= j < i && 0 <= c < N ==> (#[trigger] frames@[j]@[c]).value() == 0,
            decreases len - i,
        {
            frames.push(Frame::default());
            i += 1;
        }
        Audio { sample_rate: Hertz(hz), frames }
    }

    /// Silence the audio buffer.
    pub fn silence(&mut self)
        ensures
            final(self).rate() == old(self).rate(),
            final(self)@.len() == old(self)@.len(),
            forall|i: int, c: int|
                0 <= i < final(self)@.len() && 0 <= c < N ==> (#[trigger] final(
                    self
                )@[i]@[c]).value() == 0,
    {
        let len = self.frames.len();
        let mut i: usize = 0;
        while i < len
            invariant
                i <= len,
                self.rate() == old(self).rate(),
                self@.len() == len,
                forall|j: int, c: int|
                    0 <= j < i && 0 <= c < N ==> (#[trigger] self@[j]@[c]).value() == 0,
            decreases len - i,
        {
            self.frames.set(i, Frame::default());
            i += 1;
        }
    }
}

/// Returned from [`Audio::sink()`](crate::audio::Audio::sink): a sink that
/// writes into an audio buffer, from its first frame on.
pub struct AudioSink<S, const N: usize> {
    index: usize,
    audio: Audio<S, N>,
}

impl<S, const N: usize> AudioSink<S, N> {
    /// The buffer that the sink writes into.
    pub closed spec fn audio(&self) -> Audio<S, N> {
        self.audio
    }

    /// Number of frames that the sink wrote.
    pub closed spec fn position(&self) -> nat {
        self.index as nat
    }

    /// Give the buffer back.
    pub fn into_audio(self) -> (audio: Audio<S, N>)
        ensures
            audio == self.audio(),
    {
        self.audio
    }
}

impl<S: Copy, const N: usize> Sink<S, N> for AudioSink<S, N> {
    /// The sample rate of the buffer.
    open spec fn rate(&self) -> nat {
        self.audio().rate()
    }

    /// The length of the buffer.
    open spec fn capacity(&self) -> nat {
        self.audio()@.len()
    }

    /// The frames of the buffer that the sink did not write yet.
    open spec fn room(&self) -> nat {
        if self.position() <= self.audio()@.len() {
            (self.audio()@.len() - self.position()) as nat
        } else {
            0
        }
    }

    /// The frames of the buffer that the sink wrote.
    open spec fn taken(&self) -> Seq<Frame<S, N>> {
        if self.position() <= self.audio()@.len() {
            self.audio()@.take(self.position() as int)
        } else {
            self.audio()@
        }
    }

    fn sample_rate(&self) -> (hz: u32) {
        self.audio.sample_rate()
    }

    fn len(&self) -> (frames: usize) {
        self.audio.len()
    }

    fn remaining(&self) -> (frames: usize) {
        if self.index <= self.audio.len() {
            self.audio.len() - self.index
        } else {
            0
        }
    }

    /// Sink audio frames: the frames overwrite those of the buffer, from
    /// where the sink stands.
    fn sink_with(&mut self, frames: &[Frame<S, N>])
        ensures
            final(self).position() == old(self).position() + accepted(
                frames@.len(),
                old(self).room(),
            ),
            final(self).audio().rate() == old(self).audio().rate(),
            final(self).audio()@.len() == old(self).audio()@.len(),
            forall|i: int|
                0 <= i < old(self).audio()@.len() ==> #[trigger] final(self).audio()@[i]
                    == if old(self).position() <= i < final(self).position() {
                    frames@[i - old(self).position()]
                } else {
                    old(self).audio()@[i]
                },
    {
        let ghost before = self.audio@;
        let ghost start = self.index;
        let mut i: usize = 0;
        while i < frames.len() && self.index < self.audio.frames.len()
            invariant
                i <= frames@.len(),
                self.audio.rate() == old(self).audio.rate(),
                self.audio@.len() == before.len(),
                self.index == start + i,
                i == 0 || self.index <= before.len(),
                forall|j: int|
                    0 <= j < before.len() ==> #[trigger] self.audio@[j] == if start <= j < start
                        + i {
                        frames@[j - start]
                    } else {
                        before[j]
                    },
            decreases frames@.len() - i,
        {
            self.audio.frames.set(self.index, frames[i]);
            self.index += 1;
            i += 1;
        }
        proof {
            if start <= before.len() {
                assert(self.audio@.take(self.index as int) =~= before.take(start as int)
                    + frames@.take(i as int));
            } else {
                assert(self.audio@ =~= before + frames@.take(0));
            }
        }
    }
}

impl<const N: usize> Audio<Samp16, N> {
    /// Construct an `Audio` buffer from an `i16` buffer: the samples of a
    /// frame follow each other, and the frames follow each other.
    pub fn with_i16_buffer(hz: u32, buffer: Vec<i16>) -> (audio: Self)
        requires
            hz != 0,
            N >= 1,
            buffer@.len() % N as nat == 0,
        ensures
            audio.rate() == hz,
            audio@.len() * N == buffer@.len(),
            forall|i: int, c: int|
                0 <= i < audio@.len() && 0 <= c < N ==> (#[trigger] audio@[i]@[c])@ == buffer@[i
                    * N + c],
    {
        let total: usize = buffer.len();
        let count: usize = total / N;
        proof {
            vstd::arithmetic::div_mod::lemma_fundamental_div_mod(total as int, N as int);
            assert(count * N == total) by (nonlinear_arith)
                requires
                    total == N * count,
            ;
        }
        let mut frames: Vec<Frame<Samp16, N>> = Vec::new();
        let mut i: usize = 0;
        while i < count
            invariant
                N >= 1,
                i <= count,
                count * N == total,
                total == buffer@.len(),
                frames@.len() == i,
                forall|j: int, c: int|
                    0 <= j < i && 0 <= c < N ==> (#[trigger] frames@[j]@[c])@ == buffer@[j * N + c],
            decreases count - i,
        {
            let mut frame: Frame<Samp16, N> = Frame::default();
            proof {
                frame.lemma_view();
            }
            let mut c: usize = 0;
            while c < N
                invariant
                    c <= N,
                    i < count,
                    count * N == total,
                    total == buffer@.len(),
                    frame@.len() == N,
                    forall|d: int| 0 <= d < c ==> (#[trigger] frame@[d])@ == buffer@[i * N + d],
                decreases N - c,
            {
                assert(0 <= i * N <= i * N + c < total) by (nonlinear_arith)
                    requires
                        0 <= i < count,
                        0 <= c < N,
                        count * N == total,
                ;
                let sample = Samp16::new(buffer[i * N + c]);
                let slots = frame.samples_mut();
                slots[c] = sample;
                c += 1;
            }
            frames.push(frame);
            i += 1;
        }
        Audio { sample_rate: Hertz(hz), frames }
    }

    /// The samples of the buffer as `i16`: the samples of a frame follow
    /// each other, and the frames follow each other.
    pub fn to_i16_buffer(&self) -> (buffer: Vec<i16>)
        ensures
            buffer@.len() == self@.len() * N,
            forall|i: int, c: int|
                0 <= i < self@.len() && 0 <= c < N ==> #[trigger] buffer@[i * N + c]
                    == self@[i]@[c]@,
    {
        let mut buffer: Vec<i16> = Vec::new();
        let mut i: usize = 0;
        while i < self.frames.len()
            invariant
                i <= self@.len(),
                buffer@.len() == i * N,
                forall|j: int, c: int|
                    0 <= j < i && 0 <= c < N ==> #[trigger] buffer@[j * N + c] == self@[j]@[c]@,
            decreases self@.len() - i,
        {
            let frame = self.frames[i];
            let ghost row = buffer@;
            let mut c: usize = 0;
            while c < N
                invariant
                    c <= N,
                    row.len() == i * N,
                    buffer@.len() == i * N + c,
                    frame == self@[i as int],
                    forall|k: int| 0 <= k < row.len() ==> buffer@[k] == row[k],
                    forall|d: int| 0 <= d < c ==> #[trigger] buffer@[i * N + d] == frame@[d]@,
                decreases N - c,
            {
                buffer.push(i16::from(frame.samples()[c]));
                c += 1;
            }
            proof {
                assert((i + 1) * N == i * N + N) by (nonlinear_arith);
                assert forall|j: int, c: int|
                    0 <= j < i + 1 && 0 <= c < N implies #[trigger] buffer@[j * N + c]
                    == self@[j]@[c]@ by {
                    if j < i {
                        assert(0 <= j * N + c < i * N) by (nonlinear_arith)
                            requires
                                0 <= j < i,
                                0 <= c < N,
                        ;
                        assert(row[j * N + c] == self@[j]@[c]@);
                    }
                }
            }
            i += 1;
        }
        buffer
    }
}

impl<const N: usize> Audio<Samp24, N> {
    /// Construct an `Audio` buffer from an `u8` buffer: each sample is
    /// three bytes, the low byte first; the samples of a frame follow each
    /// other, and the frames follow each other.
    pub fn with_u8_buffer(hz: u32, buffer: Vec<u8>) -> (audio: Self)
        requires
            hz != 0,
            N >= 1,
            buffer@.len() % (3 * N) as nat == 0,
        ensures
            audio.rate() == hz,
            audio@.len() * (3 * N) == buffer@.len(),
            forall|i: int, c: int|
                0 <= i < audio@.len() && 0 <= c < N ==> (#[trigger] audio@[i]@[c])@ == le_code(
                    buffer@[(i * N + c) * 3],
                    buffer@[(i * N + c) * 3 + 1],
                    buffer@[(i * N + c) * 3 + 2],
                ),
    {
        let total: usize = buffer.len();
        let samples: usize = total / 3;
        let count: usize = samples / N;
        proof {
            vstd::arithmetic::div_mod::lemma_fundamental_div_mod(total as int, 3 * N as int);
            let whole = total as int / (3 * N as int);
            assert(total == 3 * (N * whole)) by (nonlinear_arith)
                requires
                    total == (3 * N) * whole,
            ;
            assert(samples == N * whole);
            vstd::arithmetic::div_mod::lemma_fundamental_div_mod_converse(
                samples as int,
                N as int,
                whole,
                0,
            );
            assert(count * N == samples) by (nonlinear_arith)
                requires
                    samples == N * whole,
                    count == whole,
            ;
        }
        let mut frames: Vec<Frame<Samp24, N>> = Vec::new();
        let mut i: usize = 0;
        while i < count
            invariant
                N >= 1,
                i <= count,
                count * N == samples,
                samples * 3 == total,
                total == buffer@.len(),
                frames@.len() == i,
                forall|j: int, c: int|
                    0 <= j < i && 0 <= c < N ==> (#[trigger] frames@[j]@[c])@ == le_code(
                        buffer@[(j * N + c) * 3],
                        buffer@[(j * N + c) * 3 + 1],
                        buffer@[(j * N + c) * 3 + 2],
                    ),
            decreases count - i,
        {
            let mut frame: Frame<Samp24, N> = Frame::default();
            proof {
                frame.lemma_view();
            }
            let mut c: usize = 0;
            while c < N
                invariant
                    c <= N,
                    i < count,
                    count * N == samples,
                    samples * 3 == total,
                    total == buffer@.len(),
                    frame@.len() == N,
                    forall|d: int|
                        0 <= d < c ==> (#[trigger] frame@[d])@ == le_code(
                            buffer@[(i * N + d) * 3],
                            buffer@[(i * N + d) * 3 + 1],
                            buffer@[(i * N + d) * 3 + 2],
                        ),
                decreases N - c,
            {
                assert(0 <= i * N <= i * N + c < samples) by (nonlinear_arith)
                    requires
                        0 <= i < count,
                        0 <= c < N,
                        count * N == samples,
                ;
                let at: usize = (i * N + c) * 3;
                let sample = Samp24::from_le_bytes([buffer[at], buffer[at + 1], buffer[at + 2]]);
                let slots = frame.samples_mut();
                slots[c] = sample;
                c += 1;
            }
            frames.push(frame);
            i += 1;
        }
        proof {
            assert(count * (3 * N) == total) by (nonlinear_arith)
                requires
                    count * N == samples,
                    samples * 3 == total,
            ;
        }
        Audio { sample_rate: Hertz(hz), frames }
    }

    /// The samples of the buffer as bytes: each sample is three bytes, the
    /// low byte first; the samples of a frame follow each other, and the
    /// frames follow each other.
    pub fn to_u8_buffer(&self) -> (buffer: Vec<u8>)
        ensures
            buffer@.len() == self@.len() * N * 3,
            forall|i: int, c: int|
                0 <= i < self@.len() && 0 <= c < N ==> le_code(
                    buffer@[(i * N + c) * 3],
                    buffer@[(i * N + c) * 3 + 1],
                    buffer@[(i * N + c) * 3 + 2],
                ) == (#[trigger] self@[i]@[c])@,
    {
        let mut buffer: Vec<u8> = Vec::new();
        let mut i: usize = 0;
        while i < self.frames.len()
            invariant
                i <= self@.len(),
                buffer@.len() == i * N * 3,
                forall|j: int, c: int|
                    0 <= j < i && 0 <= c < N ==> le_code(
                        buffer@[(j * N + c) * 3],
                        buffer@[(j * N + c) * 3 + 1],
                        buffer@[(j * N + c) * 3 + 2],
                    ) == (#[trigger] self@[j]@[c])@,
            decreases self@.len() - i,
        {
            let frame = self.frames[i];
            let ghost row = buffer@;
            let mut c: usize = 0;
            while c < N
                invariant
                    c <= N,
                    row.len() == i * N * 3,
                    buffer@.len() == (i * N + c) * 3,
                    frame == self@[i as int],
                    forall|k: int| 0 <= k < row.len() ==> buffer@[k] == row[k],
                    forall|d: int|
                        0 <= d < c ==> le_code(
                            buffer@[(i * N + d) * 3],
                            buffer@[(i * N + d) * 3 + 1],
                            buffer@[(i * N + d) * 3 + 2],
                        ) == (#[trigger] frame@[d])@,
                decreases N - c,
            {
                let bytes = frame.samples()[c].to_le_bytes();
                buffer.push(bytes[0]);
                buffer.push(bytes[1]);
                buffer.push(bytes[2]);
                c += 1;
            }
            proof {
                assert((i + 1) * N * 3 == (i * N + N) * 3) by (nonlinear_arith);
                assert forall|j: int, c: int| 0 <= j < i + 1 && 0 <= c < N implies le_code(
                    buffer@[(j * N + c) * 3],
                    buffer@[(j * N + c) * 3 + 1],
                    buffer@[(j * N + c) * 3 + 2],
                ) == (#[trigger] self@[j]@[c])@ by {
                    if j < i {
                        assert(0 <= (j * N + c) * 3 && (j * N + c) * 3 + 2 < i * N * 3)
                            by (nonlinear_arith)
                            requires
                                0 <= j < i,
                                0 <= c < N,
                        ;
                        assert(le_code(
                            row[(j * N + c) * 3],
                            row[(j * N + c) * 3 + 1],
                            row[(j * N + c) * 3 + 2],
                        ) == self@[j]@[c]@);
                    }
                }
            }
            i += 1;
        }
        buffer
    }
}

} // verus!
