//! Audio types and conversions, with machine-checked contracts.
//!
//! An [audio buffer](crate::audio::Audio) holds frames at a sample rate.  A
//! [frame](crate::frame::Frame) holds one sample for each channel of a
//! speaker configuration, and a [sample](crate::samp::Sample) holds one audio
//! value in a fixed encoding.
//!
//! Supported formats:
//!  - Any integer sample rate (32 bits needed to support at least 96_000 Hz)
//!  - Integer bit depths
//!    - [16-bit Signed Integer PCM](crate::samp::Samp16)
//!    - [24-bit Signed Integer PCM](crate::samp::Samp24)
//!  - Up to 8 channels:
//!    - 1 Channel: Mono (Mono)
//!    - 2 Channels: Stereo (Left, Right)
//!    - 3 Channels: Surround 3.0 (Left, Right, Center)
//!    - 4 Channels: Surround 4.0 (FrontL, FrontR, SurroundL, SurroundR)
//!    - 5 Channels: Surround 5.0 (FrontL, FrontR, Front, SurroundL,
//!      SurroundR)
//!    - 6 Channels: Surround 5.1 (FrontL, FrontR, Front, Lfe, SurroundL,
//!      SurroundR)
//!    - 7 Channels: Surround 6.1 (FrontL, FrontR, Front, Lfe, Back, Left,
//!      Right)
//!    - 8 Channels: Surround 7.1 (FrontL, FrontR, Front, Lfe, BackL, BackR,
//!      Left, Right)
//!
//! Everything in this crate is integer arithmetic.  What takes floating
//! point is left to the caller and comes in as plain values: the gains of the
//! speakers that a sound is panned between ([`frame::Frame::pan`],
//! [`frame::Mix`]), and the filter that computes the output samples which a
//! [stream](crate::stream::Stream) schedules.

mod private;

pub mod audio;
pub mod frame;
pub mod layout;
pub mod pos;
pub mod samp;
pub mod sink;
pub mod stream;

pub use audio::{Audio, AudioSink};
pub use frame::Frame;
pub use sink::{Sink, SinkTo};
pub use stream::Stream;
