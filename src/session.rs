use crate::text::{join_path, join_path_spec};
use vstd::prelude::*;

verus! {

/// Sample rate of every file a session writes, in Hz.
pub const DEFAULT_SAMPLE_RATE: u32 = 48000;

/// A request that the session's state does not allow.
#[derive(Clone, Copy, Debug, PartialEq, Eq, Structural)]
pub enum SessionError {
    /// `start` while a session is recording.
    AlreadyRecording,
    /// `stop` while no session is recording.
    NotRecording,
}

impl SessionError {
    /// A message for the user.
    pub fn message(&self) -> (r: String)
        ensures
            *self == SessionError::AlreadyRecording ==> r@ == "Already recording"@,
            *self == SessionError::NotRecording ==> r@ == "Not recording"@,
    {
        match self {
            SessionError::AlreadyRecording => {
                proof {
                    reveal_strlit("Already recording");
                }
                String::from_str("Already recording")
            },
            SessionError::NotRecording => {
                proof {
                    reveal_strlit("Not recording");
                }
                String::from_str("Not recording")
            },
        }
    }
}

/// The files of one session.
#[derive(Clone, Debug)]
pub struct RecordingOutput {
    pub directory: String,
    pub system_file: String,
    pub mic_file: String,
    pub mixed_file: String,
}

/// The paths of the three files of a session in `dir`.
pub open spec fn output_paths_ok(out: RecordingOutput, dir: Seq<char>) -> bool {
    &&& out.directory@ == dir
    &&& out.system_file@ == join_path_spec(dir, "system.wav"@)
    &&& out.mic_file@ == join_path_spec(dir, "mic.wav"@)
    &&& out.mixed_file@ == join_path_spec(dir, "mixed.wav"@)
}

/// Live figures of a running session.
#[derive(Clone, Copy, Debug, PartialEq, Eq, Structural)]
pub struct RecordingStats {
    pub duration_ms: u64,
    pub system_samples_written: u64,
    pub mic_samples_written: u64,
}

/// The recording session: Idle or Recording, with the figures of the
/// current session. The clock and the capture devices stay outside: their
/// readings are handed in.
pub struct AudioRecorder {
    recording: bool,
    start_time_ms: u64,
    recording_dir: String,
    sample_rate: u32,
    mic_sample_rate: u32,
    system_samples_written: u64,
    mic_samples_written: u64,
}

/// The mathematical state of a session.
pub struct SessionView {
    pub recording: bool,
    pub start_time_ms: nat,
    pub recording_dir: Seq<char>,
    pub sample_rate: nat,
    pub mic_sample_rate: nat,
    pub system_samples_written: nat,
    pub mic_samples_written: nat,
}

impl View for AudioRecorder {
    type V = SessionView;

    closed spec fn view(&self) -> SessionView {
        SessionView {
            recording: self.recording,
            start_time_ms: self.start_time_ms as nat,
            recording_dir: self.recording_dir@,
            sample_rate: self.sample_rate as nat,
            mic_sample_rate: self.mic_sample_rate as nat,
            system_samples_written: self.system_samples_written as nat,
            mic_samples_written: self.mic_samples_written as nat,
        }
    }
}

/// A running counter after `n` more samples, held at its largest value.
pub open spec fn count_after(count: nat, n: nat) -> nat {
    if count + n > u64::MAX {
        u64::MAX as nat
    } else {
        count + n
    }
}

fn paths_in(dir: &str) -> (out: RecordingOutput)
    ensures
        output_paths_ok(out, dir@),
{
    RecordingOutput {
        directory: String::from_str(dir),
        system_file: join_path(dir, "system.wav"),
        mic_file: join_path(dir, "mic.wav"),
        mixed_file: join_path(dir, "mixed.wav"),
    }
}

impl AudioRecorder {
    /// An idle session that records at `DEFAULT_SAMPLE_RATE`.
    pub fn new() -> (r: Self)
        ensures
            !r@.recording,
            r@.sample_rate == DEFAULT_SAMPLE_RATE,
            r@.mic_sample_rate == DEFAULT_SAMPLE_RATE,
            r@.system_samples_written == 0,
            r@.mic_samples_written == 0,
    {
        AudioRecorder {
            recording: false,
            start_time_ms: 0,
            recording_dir: String::new(),
            sample_rate: DEFAULT_SAMPLE_RATE,
            mic_sample_rate: DEFAULT_SAMPLE_RATE,
            system_samples_written: 0,
            mic_samples_written: 0,
        }
    }

    pub fn is_recording(&self) -> (r: bool)
        ensures
            r == self@.recording,
    {
        self.recording
    }

    /// The rate, in Hz, of the files the session writes.
    pub fn sample_rate(&self) -> (r: u32)
        ensures
            r == self@.sample_rate,
    {
        self.sample_rate
    }

    /// The microphone's own rate in the current or last session.
    pub fn mic_sample_rate(&self) -> (r: u32)
        ensures
            r == self@.mic_sample_rate,
    {
        self.mic_sample_rate
    }

    /// First step of `start`: refuses while recording, else names the files
    /// that a session in `recording_dir` writes. Changes nothing.
    pub fn prepare_start(&self, recording_dir: &str) -> (r: Result<RecordingOutput, SessionError>)
        ensures
            self@.recording ==> r == Err::<RecordingOutput, SessionError>(
                SessionError::AlreadyRecording,
            ),
            !self@.recording ==> r is Ok && output_paths_ok(r->Ok_0, recording_dir@),
    {
        if self.recording {
            return Err(SessionError::AlreadyRecording);
        }
        Ok(paths_in(recording_dir))
    }

    /// Second step of `start`, once the files are open and the captures run:
    /// moves to Recording with zeroed counters, the session's directory, the
    /// microphone's rate and the start instant `now_ms`. While recording it
    /// refuses and changes nothing.
    pub fn start_recording(&mut self, output: &RecordingOutput, mic_sample_rate: u32, now_ms: u64)
        -> (r: Result<(), SessionError>)
        ensures
            old(self)@.recording ==> r == Err::<(), SessionError>(SessionError::AlreadyRecording)
                && final(self)@ == old(self)@,
            !old(self)@.recording ==> r is Ok && final(self)@ == (SessionView {
                recording: true,
                start_time_ms: now_ms as nat,
                recording_dir: output.directory@,
                sample_rate: old(self)@.sample_rate,
                mic_sample_rate: mic_sample_rate as nat,
                system_samples_written: 0,
                mic_samples_written: 0,
            }),
    {
        if self.recording {
            return Err(SessionError::AlreadyRecording);
        }
        self.recording_dir = output.directory.clone();
        self.mic_sample_rate = mic_sample_rate;
        self.system_samples_written = 0;
        self.mic_samples_written = 0;
        self.start_time_ms = now_ms;
        self.recording = true;
        Ok(())
    }

    /// `stop`: refuses while idle; else leaves Recording (so that no more
    /// samples are counted) and returns the session's files, which the caller
    /// then finalizes and mixes.
    pub fn stop_recording(&mut self) -> (r: Result<RecordingOutput, SessionError>)
        ensures
            !old(self)@.recording ==> r == Err::<RecordingOutput, SessionError>(
                SessionError::NotRecording,
            ) && final(self)@ == old(self)@,
            old(self)@.recording ==> r is Ok && output_paths_ok(r->Ok_0, old(self)@.recording_dir)
                && final(self)@ == (SessionView { recording: false, ..old(self)@ }),
    {
        if !self.recording {
            return Err(SessionError::NotRecording);
        }
        self.recording = false;
        Ok(paths_in(self.recording_dir.as_str()))
    }

    /// Elapsed time and counters while recording; nothing while idle.
    pub fn get_stats(&self, now_ms: u64) -> (r: Option<RecordingStats>)
        ensures
            !self@.recording ==> r is None,
            self@.recording ==> r == Some(
                RecordingStats {
                    duration_ms: if now_ms >= self@.start_time_ms {
                        (now_ms - self@.start_time_ms) as u64
                    } else {
                        0
                    },
                    system_samples_written: self@.system_samples_written as u64,
                    mic_samples_written: self@.mic_samples_written as u64,
                },
            ),
    {
        if !self.recording {
            return None;
        }
        let duration_ms = if now_ms >= self.start_time_ms {
            now_ms - self.start_time_ms
        } else {
            0
        };
        Some(
            RecordingStats {
                duration_ms,
                system_samples_written: self.system_samples_written,
                mic_samples_written: self.mic_samples_written,
            },
        )
    }

    /// Counts `n` system samples written; only while recording.
    pub fn add_system_samples(&mut self, n: u64) -> (accepted: bool)
        ensures
            accepted == old(self)@.recording,
            accepted ==> final(self)@ == (SessionView {
                system_samples_written: count_after(old(self)@.system_samples_written, n as nat),
                ..old(self)@
            }),
            !accepted ==> final(self)@ == old(self)@,
    {
        if !self.recording {
            return false;
        }
        self.system_samples_written = self.system_samples_written.saturating_add(n);
        true
    }

    /// Counts `n` microphone samples written (at the session's rate); only
    /// while recording.
    pub fn add_mic_samples(&mut self, n: u64) -> (accepted: bool)
        ensures
            accepted == old(self)@.recording,
            accepted ==> final(self)@ == (SessionView {
                mic_samples_written: count_after(old(self)@.mic_samples_written, n as nat),
                ..old(self)@
            }),
            !accepted ==> final(self)@ == old(self)@,
    {
        if !self.recording {
            return false;
        }
        self.mic_samples_written = self.mic_samples_written.saturating_add(n);
        true
    }
}

impl Default for AudioRecorder {
    fn default() -> (r: Self)
        ensures
            !r@.recording,
            r@.sample_rate == DEFAULT_SAMPLE_RATE,
            r@.system_samples_written == 0,
            r@.mic_samples_written == 0,
    {
        AudioRecorder::new()
    }
}

} // verus!
