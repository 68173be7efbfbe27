//! Splitting and decoding audio.

use meetily_server::pcm::pcm16_to_f32;
use meetily_server::segmenter::{
    Segmenter, Utterance, FLUSH_SAMPLES, FRAME, MAX_SAMPLES, MIN_SAMPLES, SAMPLE_RATE,
    SILENCE_SAMPLES,
};

fn rms(samples: &[f32]) -> f32 {
    if samples.is_empty() {
        return 0.0;
    }
    let sum: f32 = samples.iter().map(|s| s * s).sum();
    (sum / samples.len() as f32).sqrt()
}

fn quiet(samples: &[f32]) -> bool {
    rms(samples) < 0.006
}

fn seconds(samples: usize) -> f64 {
    samples as f64 / SAMPLE_RATE as f64
}

fn tone(seconds: f32) -> Vec<f32> {
    let n = (SAMPLE_RATE as f32 * seconds) as usize;
    (0..n)
        .map(|i| (i as f32 * 440.0 * 2.0 * std::f32::consts::PI / SAMPLE_RATE as f32).sin() * 0.3)
        .collect()
}

fn silence(seconds: f32) -> Vec<f32> {
    vec![0.0; (SAMPLE_RATE as f32 * seconds) as usize]
}

#[test]
fn splits_on_trailing_silence() {
    let mut segmenter = Segmenter::new();
    let mut input = tone(1.5);
    input.extend(silence(1.2));
    let out = segmenter.push(&input, quiet);
    assert_eq!(out.len(), 1, "one utterance should close on the silence");
    assert!(seconds(out[0].start) < 0.01);
    assert!(seconds(out[0].end) > 1.4, "end was {}", seconds(out[0].end));

    // A second utterance is timed against the whole stream, not the buffer.
    let mut next = tone(1.5);
    next.extend(silence(1.2));
    let out2 = segmenter.push(&next, quiet);
    assert_eq!(out2.len(), 1);
    assert!(seconds(out2[0].start) > 2.0, "start was {}", seconds(out2[0].start));
}

#[test]
fn drops_pure_silence_and_caps_long_speech() {
    let mut segmenter = Segmenter::new();
    assert!(segmenter.push(&silence(5.0), quiet).is_empty(), "silence must not reach the engine");

    let mut long = Segmenter::new();
    let out = long.push(&tone(25.0), quiet);
    assert_eq!(out.len(), 1, "the 20s cap should force one cut");
    assert!(seconds(out[0].end) <= 20.5);
}

#[test]
fn decodes_pcm16_frames() {
    let bytes = [0x00, 0x00, 0x00, 0x40, 0x00, 0xC0];
    let samples: Vec<f32> = pcm16_to_f32(&bytes).into_iter().map(f32::from_bits).collect();
    assert_eq!(samples.len(), 3);
    assert!(samples[0].abs() < f32::EPSILON);
    assert!((samples[1] - 0.5).abs() < 0.001, "got {}", samples[1]);
    assert!((samples[2] + 0.5).abs() < 0.001, "got {}", samples[2]);
}

#[test]
fn every_pcm_sample_is_exact() {
    for n in i16::MIN..=i16::MAX {
        let bits = pcm16_to_f32(&n.to_le_bytes());
        assert_eq!(bits, vec![(n as f32 / 32768.0).to_bits()], "for {}", n);
    }
}

#[test]
fn an_odd_byte_at_the_end_is_dropped() {
    assert_eq!(pcm16_to_f32(&[0x00, 0x80, 0x7f]), vec![(-1.0f32).to_bits()]);
    assert!(pcm16_to_f32(&[0x01]).is_empty());
    assert!(pcm16_to_f32(&[]).is_empty());
}

/// A stretch is quiet where all of its samples are large. So a sample can say where in
/// the stream it stands.
fn large(samples: &[u32]) -> bool {
    samples.iter().all(|s| *s >= 1_000_000)
}

#[test]
fn utterances_are_stretches_of_the_stream() {
    // Two seconds of speech, one of silence, three times over, and a remainder.
    let mut stream: Vec<u32> = Vec::new();
    for _ in 0..3 {
        for _ in 0..32_000 {
            stream.push(stream.len() as u32);
        }
        for _ in 0..16_000 {
            stream.push(1_000_000 + stream.len() as u32);
        }
    }
    for _ in 0..5_000 {
        stream.push(stream.len() as u32);
    }
    let mut segmenter = Segmenter::default();
    let mut found: Vec<Utterance<u32>> = Vec::new();
    for piece in stream.chunks(1_600) {
        found.extend(segmenter.push(piece, large));
    }
    assert_eq!(segmenter.fed(), stream.len());
    found.extend(segmenter.flush(large));
    assert_eq!(segmenter.fed(), stream.len());
    assert_eq!(found.len(), 4);
    let mut end = 0;
    for u in &found {
        assert!(end <= u.start && u.start < u.end && u.end <= stream.len());
        assert_eq!(u.samples, stream[u.start..u.end]);
        end = u.end;
    }
    assert_eq!(end, stream.len());
}

#[test]
fn whole_frames_may_come_together_or_apart() {
    let mut stream: Vec<u32> = Vec::new();
    for i in 0..484 * 200 {
        stream.push(if i % 40_000 < 20_000 { i } else { 1_000_000 + i });
    }
    let mut together = Segmenter::new();
    let at_once = together.push(&stream, large);
    let mut apart = Segmenter::new();
    let mut one_by_one: Vec<Utterance<u32>> = Vec::new();
    for frame in stream.chunks(484) {
        one_by_one.extend(apart.push(frame, large));
    }
    assert_eq!(at_once, one_by_one);
    assert_eq!(at_once.len(), 2);
    assert_eq!(together.flush(large), apart.flush(large));
}

#[test]
fn long_speech_is_cut_at_the_end_of_a_frame() {
    let mut segmenter = Segmenter::new();
    let stream: Vec<u32> = vec![7; 700_000];
    let out = segmenter.push(&stream, large);
    assert_eq!(out.len(), 2);
    // 662 frames of 484 samples are the first to reach twenty seconds.
    assert_eq!((out[0].start, out[0].end), (0, 320_408));
    assert_eq!((out[1].start, out[1].end), (320_408, 640_816));
    let rest = segmenter.flush(large).expect("the rest");
    assert_eq!((rest.start, rest.end), (640_816, 700_000));
}

#[test]
fn short_remainders_are_dropped_but_counted() {
    let mut segmenter = Segmenter::new();
    assert!(segmenter.push(&[1u32; 3_999], large).is_empty());
    assert_eq!(segmenter.flush(large), None);
    assert_eq!(segmenter.fed(), 3_999);
    assert!(segmenter.push(&[1u32; 4_000], large).is_empty());
    let u = segmenter.flush(large).expect("a quarter of a second");
    assert_eq!((u.start, u.end), (3_999, 7_999));
    assert_eq!(segmenter.flush(large), None);
}

#[test]
fn a_quiet_remainder_is_no_utterance() {
    let mut segmenter = Segmenter::new();
    assert!(segmenter.push(&silence(0.5), quiet).is_empty());
    assert_eq!(segmenter.flush(quiet), None);
    assert_eq!(segmenter.fed(), 8_000);
}

#[test]
fn durations_are_counted_in_samples() {
    assert_eq!(FRAME, (SAMPLE_RATE / 33) as usize);
    assert_eq!(MIN_SAMPLES, SAMPLE_RATE as usize);
    assert_eq!(SILENCE_SAMPLES, (SAMPLE_RATE as f32 * 0.9) as usize);
    assert_eq!(MAX_SAMPLES, SAMPLE_RATE as usize * 20);
    assert_eq!(FLUSH_SAMPLES, (SAMPLE_RATE as f32 * 0.25) as usize);
}

#[test]
fn utterances_are_well_cut() {
    let mut stream = tone(3.0);
    stream.extend(silence(0.8));
    stream.extend(tone(0.5));
    stream.extend(silence(2.0));
    stream.extend(tone(22.0));
    stream.extend(silence(1.0));
    let mut segmenter = Segmenter::new();
    let out = segmenter.push(&stream, quiet);
    assert_eq!(out.len(), 3);
    for u in &out {
        assert!(!quiet(&u.samples));
        assert!(u.samples.len() >= MIN_SAMPLES && u.samples.len() < MAX_SAMPLES + FRAME);
        if u.samples.len() < MAX_SAMPLES {
            let tail = &u.samples[u.samples.len() - (SILENCE_SAMPLES - FRAME)..];
            assert!(quiet(tail), "the utterance from {} should end in silence", u.start);
        }
    }
}

/// All utterances of a stream that comes in pieces, with the one that its end leads to.
fn all_heard(pieces: &[Vec<f32>], quiet: fn(&[f32]) -> bool) -> Vec<Utterance<f32>> {
    let mut segmenter = Segmenter::new();
    let mut all: Vec<Utterance<f32>> = Vec::new();
    for piece in pieces {
        all.extend(segmenter.push(piece, quiet));
    }
    all.extend(segmenter.flush(quiet));
    all
}

#[test]
fn only_silence_is_left_out() {
    let pieces = [silence(3.0), tone(1.5), silence(2.5), tone(1.1), silence(0.3)];
    let stream: Vec<f32> = pieces.concat();
    let mut at: usize = 0;
    for u in all_heard(&pieces, quiet) {
        assert!(quiet(&stream[at..u.start]));
        assert_eq!(u.samples, stream[u.start..u.end]);
        at = u.end;
    }
    assert!(at > 0);
    assert!(quiet(&stream[at..]));
}

#[test]
fn speech_without_silence_is_heard_whole() {
    fn never(_: &[f32]) -> bool {
        false
    }
    let ends = [(FLUSH_SAMPLES - 1, 0), (FLUSH_SAMPLES, FLUSH_SAMPLES)];
    for (left, kept) in ends {
        // Utterances are cut at the end of the frame that makes them too long.
        let cut: usize = MAX_SAMPLES.div_ceil(FRAME) * FRAME;
        let stream: Vec<f32> = (0..2 * cut + left).map(|i| i as f32).collect();
        let pieces = [stream[..10 * FRAME].to_vec(), stream[10 * FRAME..].to_vec()];
        let all: Vec<f32> =
            all_heard(&pieces, never).into_iter().flat_map(|u| u.samples).collect();
        assert_eq!(all, stream[..2 * cut + kept]);
    }
}
