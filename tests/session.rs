use meeting_recorder::session::{AudioRecorder, RecordingStats, SessionError, DEFAULT_SAMPLE_RATE};

#[test]
fn start_twice_is_refused() {
    let mut rec = AudioRecorder::new();
    let out = rec.prepare_start("/rec/first").unwrap();
    assert_eq!(out.system_file, "/rec/first/system.wav");
    assert_eq!(out.mic_file, "/rec/first/mic.wav");
    assert_eq!(out.mixed_file, "/rec/first/mixed.wav");
    assert_eq!(rec.start_recording(&out, 44100, 1000), Ok(()));
    assert!(rec.add_system_samples(10));

    // a second start names no files and leaves the first session as it was
    assert_eq!(rec.prepare_start("/rec/second").err(), Some(SessionError::AlreadyRecording));
    let other = AudioRecorder::new().prepare_start("/rec/second").unwrap();
    assert_eq!(rec.start_recording(&other, 16000, 5000), Err(SessionError::AlreadyRecording));
    assert!(rec.is_recording());
    assert_eq!(rec.mic_sample_rate(), 44100);
    assert_eq!(
        rec.get_stats(1500),
        Some(RecordingStats { duration_ms: 500, system_samples_written: 10, mic_samples_written: 0 })
    );
    let stopped = rec.stop_recording().unwrap();
    assert_eq!(stopped.directory, "/rec/first");
    assert_eq!(SessionError::AlreadyRecording.message(), "Already recording");
}

#[test]
fn stop_while_idle_is_refused() {
    let mut rec = AudioRecorder::new();
    assert_eq!(rec.stop_recording().err(), Some(SessionError::NotRecording));
    assert!(!rec.is_recording());
    assert_eq!(rec.get_stats(10), None);
    assert_eq!(SessionError::NotRecording.message(), "Not recording");
}

#[test]
fn session_cycle_counts_and_resets() {
    let mut rec = AudioRecorder::new();
    assert_eq!(rec.sample_rate(), DEFAULT_SAMPLE_RATE);
    assert!(!rec.add_mic_samples(5));
    let out = rec.prepare_start("dir/").unwrap();
    assert_eq!(out.system_file, "dir/system.wav");
    rec.start_recording(&out, 48000, 100).unwrap();
    assert!(rec.add_mic_samples(24000));
    assert!(rec.add_mic_samples(u64::MAX));
    assert!(rec.add_system_samples(7));
    let stats = rec.get_stats(50).unwrap();
    assert_eq!(stats.duration_ms, 0);
    assert_eq!(stats.mic_samples_written, u64::MAX);
    assert_eq!(stats.system_samples_written, 7);
    let done = rec.stop_recording().unwrap();
    assert_eq!(done.mixed_file, "dir/mixed.wav");
    assert!(!rec.add_system_samples(1));
    assert_eq!(rec.get_stats(200), None);

    let out2 = rec.prepare_start("next").unwrap();
    rec.start_recording(&out2, 8000, 300).unwrap();
    assert_eq!(
        rec.get_stats(300),
        Some(RecordingStats { duration_ms: 0, system_samples_written: 0, mic_samples_written: 0 })
    );
}
