use meeting_recorder::mixer::{mix_frames, mix_pair, MixingJob, MixingProgress, MIX_CHUNK_FRAMES};
use meeting_recorder::pcm::FULL_SCALE;

#[test]
fn mix_pair_weights_and_clamps() {
    // 70% of full scale, rounded down
    assert_eq!(mix_pair(FULL_SCALE, 0), 11744051);
    assert_eq!(mix_pair(0, FULL_SCALE), 5033164);
    assert_eq!(mix_pair(FULL_SCALE, FULL_SCALE), FULL_SCALE);
    assert_eq!(mix_pair(2 * FULL_SCALE, 2 * FULL_SCALE), FULL_SCALE);
    assert_eq!(mix_pair(-2 * FULL_SCALE, -FULL_SCALE), -FULL_SCALE);
    assert_eq!(mix_pair(i32::MIN, i32::MIN), -FULL_SCALE);
    // -7 / 10 rounds down to -1
    assert_eq!(mix_pair(-1, 0), -1);
}

#[test]
fn mix_length_is_longer_input() {
    let system = vec![10, 20, 30, 40];
    let mic = vec![100, 200, 300, 400, 500];
    let out = mix_frames(&system, &mic, 0, 5);
    assert_eq!(out.len(), 10);
    // frame 0: 0.7 * 10 + 0.3 * 100 = 37
    assert_eq!(out[0], 37);
    assert_eq!(out[1], 44);
    // frames past the system stream use silence for it
    assert_eq!(out[4], 90);
    assert_eq!(out[5], 90);
    assert_eq!(out[8], 150);

    let job = MixingJob::new(vec![1; 9], vec![2; 3]);
    assert_eq!(job.total_frames(), 4);
    let job = MixingJob::new(vec![1; 4], vec![2; 3]);
    assert_eq!(job.total_frames(), 3);
}

#[test]
fn mixed_samples_stay_in_range() {
    let system = vec![i32::MAX, i32::MIN, FULL_SCALE * 3, -FULL_SCALE * 3, 5, -5];
    let mic = vec![i32::MAX, i32::MIN, 0, FULL_SCALE * 100];
    let out = mix_frames(&system, &mic, 0, 4);
    assert_eq!(out.len(), 8);
    for s in out {
        assert!(-FULL_SCALE <= s && s <= FULL_SCALE);
    }
}

#[test]
fn mixing_job_chunks_and_progress() {
    let frames = MIX_CHUNK_FRAMES * 2 + 100;
    let system: Vec<i32> = (0..frames * 2).map(|i| (i % 1000) as i32).collect();
    let mic: Vec<i32> = (0..frames).map(|i| -((i % 777) as i32)).collect();
    let whole = mix_frames(&system, &mic, 0, frames);
    let mut job = MixingJob::new(system, mic);
    assert_eq!(job.total_frames(), frames);
    let mut out = Vec::new();
    let mut reports = Vec::new();
    while !job.is_done() {
        let (chunk, progress) = job.next_chunk();
        out.extend(chunk);
        if let Some(p) = progress {
            reports.push(p);
        }
    }
    assert_eq!(out, whole);
    assert_eq!(reports.len(), 3);
    assert_eq!(
        reports[0],
        MixingProgress {
            current_frame: MIX_CHUNK_FRAMES as u64,
            total_frames: frames as u64,
            percent: (MIX_CHUNK_FRAMES * 100 / frames) as u64
        }
    );
    assert_eq!(reports[2].percent, 100);
    assert_eq!(reports[2].current_frame, frames as u64);
}

#[test]
fn mixing_job_reports_completion_once() {
    let mut job = MixingJob::new(vec![0; 4], vec![0; 1]);
    let (chunk, progress) = job.next_chunk();
    assert_eq!(chunk, vec![0, 0, 0, 0]);
    assert_eq!(progress, Some(MixingProgress { current_frame: 2, total_frames: 2, percent: 100 }));
    assert!(job.is_done());
    let empty = MixingJob::new(vec![], vec![]);
    assert!(empty.is_done());
}
