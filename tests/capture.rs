use meeting_recorder::capture::{
    decode_system_buffer, mic_samples_from_i16, samples_from_f32_bits, MicAccumulator,
};
use meeting_recorder::pcm::{fixed_from_f32_bits, floor_div, int_sample_to_fixed, FULL_SCALE};
use meeting_recorder::resample::resample;

#[test]
fn float_bits_convert_exactly() {
    assert_eq!(fixed_from_f32_bits(1.0f32.to_bits()), FULL_SCALE);
    assert_eq!(fixed_from_f32_bits(0.5f32.to_bits()), FULL_SCALE / 2);
    assert_eq!(fixed_from_f32_bits((-0.25f32).to_bits()), -FULL_SCALE / 4);
    assert_eq!(fixed_from_f32_bits(0.0f32.to_bits()), 0);
    assert_eq!(fixed_from_f32_bits((-0.0f32).to_bits()), 0);
    assert_eq!(fixed_from_f32_bits(f32::NAN.to_bits()), 0);
    assert_eq!(fixed_from_f32_bits(f32::INFINITY.to_bits()), i32::MAX);
    assert_eq!(fixed_from_f32_bits(f32::NEG_INFINITY.to_bits()), i32::MIN);
    assert_eq!(fixed_from_f32_bits(1000.0f32.to_bits()), i32::MAX);
    assert_eq!(fixed_from_f32_bits(f32::MIN_POSITIVE.to_bits()), 0);
    for v in [0.1f32, -0.3, 0.999, -1.0, 3.75, 1e-6, -127.5] {
        assert_eq!(fixed_from_f32_bits(v.to_bits()), (v * FULL_SCALE as f32) as i32);
    }
}

#[test]
fn system_buffer_decodes_little_endian_floats() {
    let mut bytes = Vec::new();
    for v in [0.5f32, -1.0, 0.25] {
        bytes.extend_from_slice(&v.to_le_bytes());
    }
    bytes.push(0xff);
    let out = decode_system_buffer(&bytes);
    assert_eq!(out, vec![FULL_SCALE / 2, -FULL_SCALE, FULL_SCALE / 4]);
    assert!(decode_system_buffer(&[1, 2, 3]).is_empty());
    assert_eq!(samples_from_f32_bits(&[0.5f32.to_bits()]), vec![FULL_SCALE / 2]);
}

#[test]
fn i16_samples_are_divided_by_32768() {
    assert_eq!(mic_samples_from_i16(&[16384, -32768, 1, 0]), vec![FULL_SCALE / 2, -FULL_SCALE, 512, 0]);
    assert_eq!(int_sample_to_fixed(32767, 16), 32767 * 512);
    assert_eq!(int_sample_to_fixed(-8388608, 24), -FULL_SCALE);
    assert_eq!(int_sample_to_fixed(i32::MIN, 32), -FULL_SCALE);
    assert_eq!(int_sample_to_fixed(-1, 32), -1);
    assert_eq!(int_sample_to_fixed(1, 1), FULL_SCALE);
    assert_eq!(int_sample_to_fixed(200, 1), i32::MAX);
    assert_eq!(floor_div(-7, 2), -4);
    assert_eq!(floor_div(7, 2), 3);
    assert_eq!(floor_div(i64::MIN, 1), i64::MIN);
}

#[test]
fn mic_accumulator_drains_at_half_a_second() {
    let mut acc = MicAccumulator::new(8);
    assert_eq!(acc.push(&[1, 2]), None);
    assert_eq!(acc.push(&[3]), None);
    assert_eq!(acc.push(&[4, 5]), Some(vec![1, 2, 3, 4, 5]));
    assert_eq!(acc.push(&[6]), None);
    assert_eq!(acc.drain(), vec![6]);
    assert_eq!(acc.drain(), Vec::<i32>::new());
    assert_eq!(acc.push(&[]), None);

    let mut every = MicAccumulator::new(1);
    assert_eq!(every.push(&[9]), Some(vec![9]));
    assert_eq!(every.push(&[]), None);
}

#[test]
fn mic_chunks_resample_to_session_rate() {
    let mut acc = MicAccumulator::new(16000);
    let mut written = Vec::new();
    for _ in 0..5 {
        if let Some(raw) = acc.push(&vec![FULL_SCALE / 2; 3000]) {
            written.extend(resample(&raw, 16000, 48000));
        }
    }
    let rest = acc.drain();
    written.extend(resample(&rest, 16000, 48000));
    assert_eq!(written.len(), 15000 * 3);
    assert!(written.iter().all(|&s| s == FULL_SCALE / 2));
}
