use transcriber::audio::AudioBuffer;
use transcriber::gate::has_speech;

fn buffer(samples: Vec<i16>) -> AudioBuffer {
    AudioBuffer::from_samples(samples)
}

/// Ten segments of `m` samples; segment `k` is silent but for the samples listed
/// for it, which are written at its start.
fn segments(m: usize, content: [&[i16]; 10]) -> Vec<i16> {
    let mut samples = vec![0i16; 10 * m];
    for (k, values) in content.iter().enumerate() {
        for (j, v) in values.iter().enumerate() {
            samples[k * m + j] = *v;
        }
    }
    samples
}

fn square(len: usize, amplitude: i16) -> Vec<i16> {
    (0..len).map(|i| if i % 2 == 0 { amplitude } else { -amplitude }).collect()
}

/// Loud and quiet segments in turn, each filled with a square wave.
fn pattern(m: usize, loud: [bool; 10], amplitude: i16) -> Vec<i16> {
    let mut samples: Vec<i16> = Vec::new();
    for k in 0..10 {
        if loud[k] {
            samples.extend(square(m, amplitude));
        } else {
            samples.extend(vec![0i16; m]);
        }
    }
    samples
}

#[test]
fn silence_of_any_length_has_no_speech() {
    for len in [0usize, 1, 7_999, 8_000, 16_000, 100_003] {
        assert!(!has_speech(&buffer(vec![0i16; len])), "length {}", len);
    }
}

#[test]
fn short_buffer_has_no_speech_however_loud() {
    let on_off = [true, false, true, false, true, false, true, false, true, false];
    let mut samples = pattern(800, on_off, 30_000);
    assert_eq!(samples.len(), 8_000);
    assert!(has_speech(&buffer(samples.clone())));
    samples.pop();
    assert_eq!(samples.len(), 7_999);
    assert!(!has_speech(&buffer(samples)));
}

#[test]
fn steady_tone_has_no_speech() {
    assert!(!has_speech(&buffer(square(16_000, 20_000))));
}

#[test]
fn loud_and_quiet_in_turn_is_speech() {
    let on_off = [true, false, true, false, true, false, true, false, true, false];
    assert!(has_speech(&buffer(pattern(1_600, on_off, 10_000))));
}

#[test]
fn peak_must_exceed_a_tenth_of_full_scale() {
    let on_off = [true, false, true, false, true, false, true, false, true, false];
    // 3277 / 32768 > 0.1 >= 3276 / 32768
    assert!(has_speech(&buffer(pattern(1_600, on_off, 3_277))));
    assert!(!has_speech(&buffer(pattern(1_600, on_off, 3_276))));
}

#[test]
fn negative_peak_counts_like_a_positive_one() {
    let mut samples = pattern(
        1_600,
        [true, false, true, false, true, false, true, false, true, false],
        3_000,
    );
    assert!(!has_speech(&buffer(samples.clone())));
    samples[0] = -3_277;
    assert!(has_speech(&buffer(samples)));
}

#[test]
fn energy_must_exceed_the_rms_threshold() {
    // With 16000 samples the rule 10000 * energy > 2^32 * 16000 asks for an energy
    // of more than 6871947673.6.
    let big: &[i16] = &[20_000, 20_000, 20_000, 20_000];
    let above = segments(
        1_600,
        [big, &[], big, &[], big, &[], big, &[], &[20_000, 8_482, 57, 10, 1], &[]],
    );
    let energy: i64 = above.iter().map(|v| (*v as i64) * (*v as i64)).sum();
    assert_eq!(energy, 6_871_947_674);
    assert!(has_speech(&buffer(above)));
    let below = segments(
        1_600,
        [big, &[], big, &[], big, &[], big, &[], &[20_000, 8_482, 57, 10, 0], &[]],
    );
    let energy: i64 = below.iter().map(|v| (*v as i64) * (*v as i64)).sum();
    assert_eq!(energy, 6_871_947_673);
    assert!(!has_speech(&buffer(below)));
}

#[test]
fn three_pairs_of_segments_must_differ() {
    let two = [true, true, true, true, true, true, true, true, false, true];
    assert!(!has_speech(&buffer(pattern(1_600, two, 10_000))));
    let three = [false, true, true, true, true, true, true, true, false, true];
    assert!(has_speech(&buffer(pattern(1_600, three, 10_000))));
}

#[test]
fn segments_differ_only_beyond_the_level_threshold() {
    // Against a silent neighbour a segment of 1600 samples differs when its energy
    // exceeds 1600 * 491.52^2 = 386547056.64.
    let edge: &[i16] = &[19_660, 177, 11, 2, 1, 1, 1];
    let under: &[i16] = &[19_660, 177, 11, 2, 1, 1, 0];
    let loud: Vec<i16> = vec![20_000; 8];
    let l: &[i16] = &loud;
    let with_edge = segments(1_600, [edge, &[], edge, &[], l, l, l, l, l, l]);
    assert!(has_speech(&buffer(with_edge)));
    let with_under = segments(1_600, [under, &[], under, &[], l, l, l, l, l, l]);
    assert!(!has_speech(&buffer(with_under)));
}

#[test]
fn samples_beyond_the_tenth_segment_are_not_compared() {
    let on_off = [true, false, true, false, true, false, true, false, true, false];
    let mut samples = pattern(1_600, on_off, 10_000);
    samples.extend(vec![0i16; 9]);
    assert_eq!(samples.len() / 10, 1_600);
    assert!(has_speech(&buffer(samples)));
}

#[test]
fn gate_agrees_with_floating_point_on_clear_cases() {
    fn rms(s: &[i16]) -> f64 {
        let sum: f64 = s.iter().map(|v| (*v as f64 / 32768.0).powi(2)).sum();
        (sum / s.len() as f64).sqrt()
    }
    fn reference(s: &[i16]) -> bool {
        if s.len() < 8_000 {
            return false;
        }
        let peak = s.iter().map(|v| (*v as f64 / 32768.0).abs()).fold(0.0, f64::max);
        let m = s.len() / 10;
        let levels: Vec<f64> = (0..10).map(|k| rms(&s[k * m..(k + 1) * m])).collect();
        let varied = (0..9).filter(|k| (levels[*k] - levels[k + 1]).abs() > 0.015).count();
        rms(s) > 0.02 && peak > 0.1 && varied >= 3
    }
    let mut state: u32 = 12_345;
    for round in 0..40 {
        let mut samples: Vec<i16> = Vec::new();
        for k in 0..10 {
            state = state.wrapping_mul(1_664_525).wrapping_add(1_013_904_223);
            let amplitude = ((state >> 16) % 12_000) as i16 + 100 * (round % 3) as i16;
            samples.extend(square(900, amplitude + k as i16));
        }
        assert_eq!(has_speech(&buffer(samples.clone())), reference(&samples), "round {}", round);
    }
}

#[test]
fn long_buffers_are_judged_like_short_ones() {
    // more than an hour of audio: loud and silent tenths in turn
    let on_off = [true, false, true, false, true, false, true, false, true, false];
    assert!(has_speech(&buffer(pattern(6_000_000, on_off, 10_000))));
    assert!(!has_speech(&buffer(square(60_000_000, 30_000))));
    assert!(!has_speech(&buffer(vec![0i16; 60_000_000])));
}

#[test]
fn full_scale_segments_are_compared_exactly() {
    // every sample at the largest magnitude: the energies are as large as they get
    let flat = vec![-32_768i16; 1_000_000];
    assert!(!has_speech(&buffer(flat)));
    let mut turns: Vec<i16> = Vec::new();
    for k in 0..10 {
        turns.extend(vec![if k % 2 == 0 { -32_768i16 } else { 32_767 }; 100_000]);
    }
    // the levels differ by 1 / 32768 only, far below the threshold
    assert!(!has_speech(&buffer(turns)));
    let mut steps: Vec<i16> = Vec::new();
    for k in 0..10 {
        steps.extend(vec![if k % 2 == 0 { -32_768i16 } else { 32_000 }; 100_000]);
    }
    // 768 / 32768 is more than 0.015
    assert!(has_speech(&buffer(steps)));
    let mut close: Vec<i16> = Vec::new();
    for k in 0..10 {
        close.extend(vec![if k % 2 == 0 { -32_768i16 } else { 32_277 }; 100_000]);
    }
    // 491 / 32768 is less than 0.015, 492 / 32768 is more
    assert!(!has_speech(&buffer(close)));
    let mut apart: Vec<i16> = Vec::new();
    for k in 0..10 {
        apart.extend(vec![if k % 2 == 0 { -32_768i16 } else { 32_276 }; 100_000]);
    }
    assert!(has_speech(&buffer(apart)));
}
