//! Sinks: consumers of audio frames.

use crate::frame::{Frame, Mix};
use crate::samp::Sample;
use vstd::prelude::*;

verus! {

/// Number of frames that a sink with `room` frames left takes when it is
/// given `offered` frames.
pub open spec fn accepted(offered: nat, room: nat) -> nat {
    if offered <= room {
        offered
    } else {
        room
    }
}

/// Audio sink - a type that consumes audio frames.
///
/// A sink has a fixed sample rate and a finite length.  It takes the frames
/// that it is given for as long as it has room, and lets the rest go.
///
/// The contracts of the methods speak of the sink through four ghost
/// functions.  A verified sink says what they are; a sink that is written
/// in ordinary Rust leaves them out, and nothing is known of it.
pub trait Sink<S, const N: usize> {
    /// The sample rate of the sink in hertz.
    open spec fn rate(&self) -> nat {
        arbitrary()
    }

    /// The length of the sink in frames.
    open spec fn capacity(&self) -> nat {
        arbitrary()
    }

    /// The frames that the sink can still take.
    open spec fn room(&self) -> nat {
        arbitrary()
    }

    /// The frames that the sink took so far, in the order in which it took
    /// them.
    open spec fn taken(&self) -> Seq<Frame<S, N>> {
        arbitrary()
    }

    /// Get the sample rate of the sink in hertz.
    fn sample_rate(&self) -> (hz: u32)
        ensures
            hz == self.rate(),
            hz != 0,
    ;

    /// Get the length of the sink in frames.
    ///
    /// Sinks must always have finite length.
    fn len(&self) -> (frames: usize)
        ensures
            frames == self.capacity(),
    ;

    /// Get the number of frames that the sink can still take.
    fn remaining(&self) -> (frames: usize)
        ensures
            frames == self.room(),
    ;

    /// Sink audio frames: the sink takes as many of `frames`, from the
    /// first on, as it has room for.
    ///
    /// **Warning**: if used incorrectly, this method may introduce audio
    /// aliasing.  To avoid that, make sure the sample rate of the frames
    /// matches exactly the sample rate of the sink.
    fn sink_with(&mut self, frames: &[Frame<S, N>])
        ensures
            final(self).rate() == old(self).rate(),
            final(self).capacity() == old(self).capacity(),
            final(self).taken() == old(self).taken() + frames@.take(
                accepted(frames@.len(), old(self).room()) as int,
            ),
            final(self).room() == old(self).room() - accepted(frames@.len(), old(self).room()),
    ;

    /// Check if the sink is empty (length of zero).
    fn is_empty(&self) -> (empty: bool)
        ensures
            empty == (self.capacity() == 0),
    {
        self.len() == 0
    }
}

/// Sink that converts to a different audio format before passing to another
/// [`Sink`](crate::sink::Sink).
///
/// The sink takes frames of `N` channels of samples `S`, and passes frames
/// of `COUNT` channels of samples `Samp` on.
pub struct SinkTo<Samp, S, K, const COUNT: usize, const N: usize> where
    Samp: Sample,
    S: Sample,
    K: Sink<Samp, COUNT>,
 {
    sink: K,
    mix: Mix<S, Samp, N, COUNT>,
    taken: Ghost<Seq<Frame<S, N>>>,
}

impl<Samp, S, K, const COUNT: usize, const N: usize> SinkTo<Samp, S, K, COUNT, N> where
    Samp: Sample,
    S: Sample,
    K: Sink<Samp, COUNT>,
 {
    /// The sink that the converted frames are passed to.
    pub closed spec fn inner(&self) -> K {
        self.sink
    }

    /// The gains of the conversion.
    pub closed spec fn mix(&self) -> Mix<S, Samp, N, COUNT> {
        self.mix
    }

    /// The frames `frames`, each converted with the gains `mix`.
    pub open spec fn converted_frames(frames: Seq<Frame<S, N>>, mix: Mix<S, Samp, N, COUNT>) -> Seq<
        Frame<Samp, COUNT>,
    > {
        Seq::new(frames.len(), |i: int| frames[i].converted_with::<Samp, COUNT>(mix))
    }

    /// Convert an arbitrary `Sink` type to a different format.
    pub fn new(sink: K, mix: Mix<S, Samp, N, COUNT>) -> (to: Self)
        ensures
            to.inner() == sink,
            to.mix() == mix,
            to.taken() == Seq::<Frame<S, N>>::empty(),
    {
        Self { sink, mix, taken: Ghost(Seq::empty()) }
    }

    /// Give the sink back that the converted frames were passed to.
    pub fn into_inner(self) -> (sink: K)
        ensures
            sink == self.inner(),
    {
        self.sink
    }
}

impl<Samp, S, K, const COUNT: usize, const N: usize> Sink<S, N> for SinkTo<
    Samp,
    S,
    K,
    COUNT,
    N,
> where Samp: Sample, S: Sample, K: Sink<Samp, COUNT> {
    /// The sample rate of the sink that the converted frames are passed
    /// to.
    open spec fn rate(&self) -> nat {
        self.inner().rate()
    }

    /// The length of the sink that the converted frames are passed to.
    open spec fn capacity(&self) -> nat {
        self.inner().capacity()
    }

    /// The frames that the sink which the converted frames are passed to
    /// can still take.
    open spec fn room(&self) -> nat {
        self.inner().room()
    }

    closed spec fn taken(&self) -> Seq<Frame<S, N>> {
        self.taken@
    }

    /// Get the sample rate of the sink in hertz.
    fn sample_rate(&self) -> (hz: u32)
        ensures
            hz == self.inner().rate(),
    {
        self.sink.sample_rate()
    }

    /// Get the length of the sink in frames.
    ///
    /// Sinks must always have finite length.
    fn len(&self) -> (frames: usize)
        ensures
            frames == self.inner().capacity(),
    {
        self.sink.len()
    }

    /// Get the number of frames that the sink can still take.
    fn remaining(&self) -> (frames: usize)
        ensures
            frames == self.inner().room(),
    {
        self.sink.remaining()
    }

    /// Sink audio frames: each frame is converted, and passed on for as
    /// long as there is room.
    fn sink_with(&mut self, frames: &[Frame<S, N>])
        ensures
            final(self).mix() == old(self).mix(),
            final(self).inner().rate() == old(self).inner().rate(),
            final(self).inner().capacity() == old(self).inner().capacity(),
            final(self).inner().room() == old(self).inner().room() - accepted(
                frames@.len(),
                old(self).inner().room(),
            ),
            final(self).inner().taken() == old(self).inner().taken() + Self::converted_frames(
                frames@.take(accepted(frames@.len(), old(self).inner().room()) as int),
                old(self).mix(),
            ),
    {
        let ghost before = self.sink.taken();
        let ghost room = self.sink.room();
        let mut i: usize = 0;
        while i < frames.len() && self.sink.remaining() > 0
            invariant
                i <= frames@.len(),
                i <= room,
                self.mix == old(self).mix,
                self.taken@ == old(self).taken@ + frames@.take(i as int),
                self.sink.rate() == old(self).sink.rate(),
                self.sink.capacity() == old(self).sink.capacity(),
                self.sink.room() == room - i,
                self.sink.taken() == before + Self::converted_frames(
                    frames@.take(i as int),
                    self.mix,
                ),
            decreases frames@.len() - i,
        {
            // One frame at a time: nothing is held back.
            let one = [frames[i].to::<Samp, COUNT>(&self.mix)];
            let ghost so_far = self.sink.taken();
            self.sink.sink_with(&one);
            proof {
                let ghost taken = self.taken@;
                self.taken@ = taken + seq![frames@[i as int]];
                assert(self.taken@ =~= old(self).taken@ + frames@.take(i + 1)) by {
                    assert(frames@.take(i + 1) =~= frames@.take(i as int) + seq![
                        frames@[i as int],
                    ]);
                }
                assert(one@.take(1) =~= seq![one@[0]]);
                assert(frames@.take(i + 1) =~= frames@.take(i as int) + seq![frames@[i as int]]);
                assert(Self::converted_frames(frames@.take(i + 1), self.mix)
                    =~= Self::converted_frames(frames@.take(i as int), self.mix) + seq![one@[0]]);
                assert(self.sink.taken() =~= before + Self::converted_frames(
                    frames@.take(i + 1),
                    self.mix,
                ));
            }
            i += 1;
        }
        proof {
            assert(frames@.take(0) =~= Seq::<Frame<S, N>>::empty());
            assert(Self::converted_frames(frames@.take(0), self.mix) =~= Seq::<
                Frame<Samp, COUNT>,
            >::empty());
        }
    }
}

} // verus!
