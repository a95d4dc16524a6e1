use meeting_recorder::capture::samples_from_f32_bits;
use meeting_recorder::pcm::FULL_SCALE;
use meeting_recorder::resample::resample;

fn fixed(values: &[f32]) -> Vec<i32> {
    let bits: Vec<u32> = values.iter().map(|v| v.to_bits()).collect();
    samples_from_f32_bits(&bits)
}

fn to_f32(x: i32) -> f32 {
    x as f32 / FULL_SCALE as f32
}

#[test]
fn audio_test_resample_identity() {
    let input = fixed(&[0.1, 0.2, 0.3, 0.4, 0.5]);
    let output = resample(&input, 48000, 48000);
    assert_eq!(input, output);
}

#[test]
fn audio_test_resample_empty() {
    let input: Vec<i32> = vec![];
    let output = resample(&input, 48000, 16000);
    assert!(output.is_empty());
}

#[test]
fn test_resample_downsample() {
    let values: Vec<f32> = (0..4800).map(|i| i as f32 / 4800.0).collect();
    let input = fixed(&values);
    let output = resample(&input, 48000, 16000);
    assert_eq!(output.len(), 1600);
    assert!((to_f32(output[0]) - to_f32(input[0])).abs() < 0.01);
}

#[test]
fn test_resample_upsample() {
    let values: Vec<f32> = (0..1600).map(|i| i as f32 / 1600.0).collect();
    let input = fixed(&values);
    let output = resample(&input, 16000, 48000);
    assert_eq!(output.len(), 4800);
}

#[test]
fn test_resample_interpolation() {
    let input = fixed(&[0.0, 0.5, 1.0, 0.5]);
    let output = resample(&input, 4, 2);
    assert_eq!(output.len(), 2);
    assert!((to_f32(output[0]) - 0.0).abs() < 0.01);
}

#[test]
fn transcribe_test_resample_identity() {
    let input = fixed(&[0.1, 0.2, 0.3, 0.4, 0.5]);
    let output = resample(&input, 48000, 48000);
    assert_eq!(input, output);
}

#[test]
fn transcribe_test_resample_empty() {
    let input: Vec<i32> = vec![];
    let output = resample(&input, 48000, 16000);
    assert!(output.is_empty());
}

#[test]
fn resample_same_rate_keeps_any_input() {
    let input = vec![5, -7, i32::MAX, i32::MIN, 0];
    assert_eq!(resample(&input, 0, 0), input);
    assert_eq!(resample(&input, 44100, 44100), input);
}

#[test]
fn resample_length_rounds_up() {
    // ceil(5 * 2 / 3) = 4
    assert_eq!(resample(&[1, 2, 3, 4, 5], 3, 2).len(), 4);
    // ceil(7 * 48000 / 44100) = 8
    assert_eq!(resample(&[0; 7], 44100, 48000).len(), 8);
    // a zero target rate gives nothing
    assert!(resample(&[1, 2, 3], 8000, 0).is_empty());
}

#[test]
fn resample_empty_for_any_rates() {
    assert!(resample(&[], 0, 16000).is_empty());
    assert!(resample(&[], 16000, 0).is_empty());
}

#[test]
fn resample_interpolates_exact_values() {
    // upsampling by 2: midpoints are blended, the end is clamped
    assert_eq!(resample(&[0, 100, 200], 1, 2), vec![0, 50, 100, 150, 200, 200]);
    // blends round down, also below zero
    assert_eq!(resample(&[0, -3], 1, 2), vec![0, -2, -3, -3]);
    // fraction 1/3 between 0 and 10 gives 3
    assert_eq!(resample(&[0, 10, 20], 1, 3)[1], 3);
}
