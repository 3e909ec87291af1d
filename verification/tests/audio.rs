use fon::audio::Audio;
use fon::frame::{Frame, Mix};
use fon::samp::{Samp16, Samp24, Sample};
use fon::sink::{Sink, SinkTo};

fn s16(v: i16) -> Samp16 {
    Samp16::new(v)
}

fn stereo(l: i16, r: i16) -> Frame<Samp16, 2> {
    Frame::<Samp16, 2>::new(s16(l), s16(r))
}

#[test]
fn silence_is_all_mid_values() {
    let audio = Audio::<Samp16, 2>::with_silence(48_000, 3);
    assert_eq!(48_000, audio.sample_rate());
    assert_eq!(3, audio.len());
    assert!(!audio.is_empty());
    assert_eq!(vec![stereo(0, 0); 3], audio.as_slice().to_vec());
    let empty = Audio::<Samp24, 6>::with_silence(1, 0);
    assert!(empty.is_empty());
    assert_eq!(0, empty.len());
}

#[test]
fn frames_are_kept_in_order() {
    let frames = vec![stereo(1, 2), stereo(3, 4), stereo(5, 6)];
    let mut audio = Audio::with_frames(44_100, frames.clone());
    assert_eq!(44_100, audio.sample_rate());
    assert_eq!(3, audio.len());
    assert_eq!(Some(stereo(1, 2)), audio.get(0));
    assert_eq!(Some(stereo(5, 6)), audio.get(2));
    assert_eq!(None, audio.get(3));
    assert_eq!(frames, audio.as_slice().to_vec());
    assert_eq!(frames, audio.iter().copied().collect::<Vec<_>>());
    *audio.get_mut(1).unwrap() = stereo(30, 40);
    assert!(audio.get_mut(3).is_none());
    audio.as_mut_slice()[2] = stereo(50, 60);
    assert_eq!(vec![stereo(1, 2), stereo(30, 40), stereo(50, 60)], audio.as_slice().to_vec());
    audio.silence();
    assert_eq!(vec![stereo(0, 0); 3], audio.as_slice().to_vec());
    assert_eq!(44_100, audio.sample_rate());
    assert_eq!(vec![stereo(0, 0); 3], audio.into_frames());
}

#[test]
fn i16_buffer_is_interleaved() {
    let audio = Audio::<Samp16, 2>::with_i16_buffer(48_000, vec![1, 2, 3, 4, 5, 6]);
    assert_eq!(vec![stereo(1, 2), stereo(3, 4), stereo(5, 6)], audio.as_slice().to_vec());
    assert_eq!(vec![1, 2, 3, 4, 5, 6], audio.to_i16_buffer());
    let audio = Audio::<Samp16, 3>::with_i16_buffer(48_000, vec![1, 2, 3, -4, -5, -6]);
    assert_eq!(2, audio.len());
    assert_eq!(
        Some(Frame::<Samp16, 3>::new(s16(-4), s16(-5), s16(-6))),
        audio.get(1)
    );
    let audio = Audio::<Samp16, 1>::with_i16_buffer(48_000, vec![]);
    assert!(audio.is_empty());
    assert_eq!(Vec::<i16>::new(), audio.to_i16_buffer());
}

#[test]
fn u8_buffer_is_three_bytes_a_sample() {
    let bytes = vec![0x56, 0x34, 0x12, 0xff, 0xff, 0xff, 0x00, 0x00, 0x80, 0xff, 0xff, 0x7f];
    let audio = Audio::<Samp24, 2>::with_u8_buffer(48_000, bytes.clone());
    assert_eq!(
        vec![
            Frame::<Samp24, 2>::new(Samp24::new(0x12_34_56), Samp24::new(-1)),
            Frame::<Samp24, 2>::new(Samp24::min_value(), Samp24::max_value()),
        ],
        audio.as_slice().to_vec()
    );
    assert_eq!(bytes, audio.to_u8_buffer());
    let audio = Audio::<Samp24, 4>::with_u8_buffer(48_000, bytes.clone());
    assert_eq!(1, audio.len());
    assert_eq!(bytes, audio.to_u8_buffer());
}

#[test]
fn sink_overwrites_from_the_first_frame() {
    let audio = Audio::with_frames(48_000, vec![stereo(1, 1), stereo(2, 2), stereo(3, 3)]);
    let mut sink = audio.sink();
    assert_eq!(48_000, sink.sample_rate());
    assert_eq!(3, sink.len());
    assert_eq!(3, sink.remaining());
    assert!(!sink.is_empty());
    sink.sink_with(&[stereo(10, 10)]);
    assert_eq!(2, sink.remaining());
    assert_eq!(3, sink.len());
    sink.sink_with(&[]);
    assert_eq!(2, sink.remaining());
    sink.sink_with(&[stereo(20, 20)]);
    assert_eq!(1, sink.remaining());
    let audio = sink.into_audio();
    assert_eq!(vec![stereo(10, 10), stereo(20, 20), stereo(3, 3)], audio.as_slice().to_vec());
}

#[test]
fn sink_lets_the_excess_go() {
    let audio = Audio::with_frames(48_000, vec![stereo(1, 1), stereo(2, 2), stereo(3, 3)]);
    let mut sink = audio.sink();
    sink.sink_with(&[stereo(10, 10), stereo(20, 20)]);
    sink.sink_with(&[stereo(30, 30), stereo(40, 40), stereo(50, 50)]);
    assert_eq!(0, sink.remaining());
    sink.sink_with(&[stereo(60, 60)]);
    assert_eq!(0, sink.remaining());
    let audio = sink.into_audio();
    assert_eq!(vec![stereo(10, 10), stereo(20, 20), stereo(30, 30)], audio.as_slice().to_vec());
    let mut empty = Audio::<Samp16, 2>::with_silence(48_000, 0).sink();
    assert!(empty.is_empty());
    empty.sink_with(&[stereo(1, 1)]);
    assert_eq!(0, empty.into_audio().len());
}

#[test]
fn sink_to_converts_on_the_way() {
    let audio = Audio::<Samp24, 2>::with_silence(48_000, 3);
    let mix = Mix::<Samp16, Samp24, 1, 2>::unity();
    let mut sink = SinkTo::<Samp24, Samp16, _, 2, 1>::new(audio.sink(), mix);
    assert_eq!(48_000, sink.sample_rate());
    assert_eq!(3, sink.len());
    assert_eq!(3, sink.remaining());
    assert!(!sink.is_empty());
    sink.sink_with(&[Frame::<Samp16, 1>::new(s16(0x1234))]);
    assert_eq!(2, sink.remaining());
    sink.sink_with(&[
        Frame::<Samp16, 1>::new(s16(1)),
        Frame::<Samp16, 1>::new(s16(-1)),
        Frame::<Samp16, 1>::new(s16(77)),
    ]);
    assert_eq!(0, sink.remaining());
    let audio = sink.into_inner().into_audio();
    let wide = |v: i32| Frame::<Samp24, 2>::new(Samp24::new(v), Samp24::new(v));
    assert_eq!(vec![wide(0x12_34_92), wide(256 + 128), wide(-256 + 127)], audio.as_slice().to_vec());
}

#[test]
fn sink_to_mixes_down() {
    let audio = Audio::<Samp16, 1>::with_silence(48_000, 2);
    let mix = Mix::<Samp16, Samp16, 2, 1>::unity();
    let mut sink = SinkTo::<Samp16, Samp16, _, 1, 2>::new(audio.sink(), mix);
    sink.sink_with(&[stereo(100, 300), stereo(-7, 0)]);
    let audio = sink.into_inner().into_audio();
    assert_eq!(
        vec![Frame::<Samp16, 1>::new(s16(200)), Frame::<Samp16, 1>::new(s16(-4))],
        audio.as_slice().to_vec()
    );
    assert_eq!(vec![200, -4], audio.to_i16_buffer());
}
