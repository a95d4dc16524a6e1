use meeting_recorder::recognize::{
    collect_segments, downmix, prepare_for_recognition, samples_from_int, segment_from_recognized,
    single_file_transcript, RecognizedSegment,
};

fn raw(text: &str, t0: i64, t1: i64) -> RecognizedSegment {
    RecognizedSegment { text: text.to_string(), t0, t1 }
}

#[test]
fn recognized_segments_are_trimmed_and_blank_ones_dropped() {
    let segs = collect_segments(&vec![raw("  Hello there ", 0, 150), raw(" \n ", 150, 160), raw("Bye", -5, 300)], "Me");
    assert_eq!(segs.len(), 2);
    assert_eq!(segs[0].text, "Hello there");
    assert_eq!(segs[0].start_time, 0);
    assert_eq!(segs[0].end_time, 150);
    assert_eq!(segs[0].speaker, "Me");
    assert_eq!(segs[0].id, "");
    assert_eq!(segs[1].start_time, 0);
    assert!(segment_from_recognized(&raw("\t", 0, 1), "Me").is_none());
}

#[test]
fn downmix_averages_frames() {
    assert_eq!(downmix(&[1, 3, 5, 7], 2), vec![2, 6]);
    assert_eq!(downmix(&[1, 3, 5], 2), vec![2, 2]);
    assert_eq!(downmix(&[-1, 0], 2), vec![-1]);
    assert_eq!(downmix(&[4, 5, 6], 1), vec![4, 5, 6]);
    assert_eq!(downmix(&[i32::MAX, i32::MAX, i32::MIN, i32::MIN], 2), vec![i32::MAX, i32::MIN]);
}

#[test]
fn recognition_input_is_mono_at_16k() {
    let stereo = vec![100; 96];
    let out = prepare_for_recognition(&stereo, 2, 48000);
    assert_eq!(out, vec![100; 16]);
    let same = prepare_for_recognition(&[1, 2, 3], 1, 16000);
    assert_eq!(same, vec![1, 2, 3]);
    assert_eq!(samples_from_int(&[16384, -16384], 16), vec![8388608, -8388608]);
}

#[test]
fn single_file_transcript_keeps_every_segment() {
    let (segs, full_text) = single_file_transcript(&vec![raw(" One ", 0, 100), raw("", 100, 120), raw("Two", 120, 200)]);
    assert_eq!(segs.len(), 3);
    assert_eq!(segs[0].id, "seg_0");
    assert_eq!(segs[1].text, "");
    assert_eq!(segs[2].id, "seg_2");
    assert_eq!(segs[2].speaker, "Unknown");
    assert_eq!(full_text, "One  Two");
}
