use crate::pcm::{clamp_sample, clamp_unit, FULL_SCALE};
use vstd::prelude::*;

verus! {

/// Frames handed out by one step of a mixing job.
pub const MIX_CHUNK_FRAMES: usize = 16384;

/// Number of stereo frames in the mixed output: the longer of the two inputs.
pub open spec fn mixed_frames(system: Seq<i32>, mic: Seq<i32>) -> nat {
    let sys_frames = system.len() / 2;
    if sys_frames >= mic.len() {
        sys_frames
    } else {
        mic.len()
    }
}

/// Sample `i` of `s`, or silence past its end.
pub open spec fn sample_or_silence(s: Seq<i32>, i: int) -> int {
    if 0 <= i < s.len() {
        s[i] as int
    } else {
        0
    }
}

/// 70% of a system sample plus 30% of a microphone sample, clamped to [-1, 1].
pub open spec fn mix_value(sys: int, mic: int) -> int {
    clamp_unit((7 * sys + 3 * mic) / 10)
}

/// Sample `k` of the interleaved stereo output: channel `k % 2` of frame `k / 2`.
pub open spec fn mixed_sample(system: Seq<i32>, mic: Seq<i32>, k: int) -> int {
    mix_value(sample_or_silence(system, k), sample_or_silence(mic, k / 2))
}

/// The whole interleaved stereo mix of a stereo system stream and a mono
/// microphone stream.
pub open spec fn mix_spec(system: Seq<i32>, mic: Seq<i32>) -> Seq<i32> {
    Seq::new(2 * mixed_frames(system, mic), |k: int| mixed_sample(system, mic, k) as i32)
}

/// Whole percent of `done` out of `total`.
pub open spec fn percent_of(done: nat, total: nat) -> nat {
    if total == 0 {
        100
    } else {
        done * 100 / total
    }
}

/// Number of stereo frames that mixing streams of these lengths gives.
pub fn mixed_frame_count(system_len: usize, mic_len: usize) -> (r: usize)
    ensures
        r == (if system_len / 2 >= mic_len {
            system_len / 2
        } else {
            mic_len
        }),
{
    let sys_frames = system_len / 2;
    if sys_frames >= mic_len {
        sys_frames
    } else {
        mic_len
    }
}

fn sample_at(s: &[i32], i: usize) -> (r: i64)
    ensures
        r as int == sample_or_silence(s@, i as int),
{
    if i < s.len() {
        s[i] as i64
    } else {
        0
    }
}

/// Mixes one pair of samples.
pub fn mix_pair(sys: i32, mic: i32) -> (r: i32)
    ensures
        r as int == mix_value(sys as int, mic as int),
{
    let v: i64 = 7 * (sys as i64) + 3 * (mic as i64);
    let q: i64 = if v >= 0 {
        v / 10
    } else {
        -((-v + 9) / 10)
    };
    proof {
        if v < 0 {
            let x = -v + 9;
            vstd::arithmetic::div_mod::lemma_fundamental_div_mod(x as int, 10);
            vstd::arithmetic::div_mod::lemma_fundamental_div_mod_converse(
                v as int, 10, -(x / 10), 9 - x % 10);
        }
    }
    clamp_sample(q)
}

/// The interleaved mixed samples of frames `start` up to `end`.
pub fn mix_frames(system: &[i32], mic: &[i32], start: usize, end: usize) -> (r: Vec<i32>)
    requires
        start <= end <= mixed_frames(system@, mic@),
        2 * mixed_frames(system@, mic@) <= usize::MAX,
    ensures
        r@ == mix_spec(system@, mic@).subrange(2 * start as int, 2 * end as int),
{
    let ghost whole = mix_spec(system@, mic@);
    let mut out: Vec<i32> = Vec::new();
    let mut i: usize = start;
    while i < end
        invariant
            start <= i <= end <= mixed_frames(system@, mic@),
            2 * mixed_frames(system@, mic@) <= usize::MAX,
            whole == mix_spec(system@, mic@),
            out@ == whole.subrange(2 * start as int, 2 * i as int),
        decreases end - i,
    {
        let mic_s = sample_at(mic, i);
        let left = sample_at(system, 2 * i);
        let right = sample_at(system, 2 * i + 1);
        let l = mix_pair(left as i32, mic_s as i32);
        let r = mix_pair(right as i32, mic_s as i32);
        out.push(l);
        out.push(r);
        proof {
            assert((2 * i as int) / 2 == i);
            assert((2 * i as int + 1) / 2 == i);
            assert(out@ =~= whole.subrange(2 * start as int, 2 * (i + 1) as int));
        }
        i = i + 1;
    }
    out
}

/// Progress of a mixing job after one step.
#[derive(Clone, Copy, Debug, PartialEq, Eq)]
pub struct MixingProgress {
    pub current_frame: u64,
    pub total_frames: u64,
    pub percent: u64,
}

/// A post-session mix of a stereo system stream and a mono microphone
/// stream, produced in chunks of `MIX_CHUNK_FRAMES` frames.
pub struct MixingJob {
    system: Vec<i32>,
    mic: Vec<i32>,
    total: usize,
    next_frame: usize,
    last_percent: u64,
}

impl MixingJob {
    pub closed spec fn system(&self) -> Seq<i32> {
        self.system@
    }

    pub closed spec fn mic(&self) -> Seq<i32> {
        self.mic@
    }

    /// Frames already handed out.
    pub closed spec fn frames_done(&self) -> nat {
        self.next_frame as nat
    }

    /// Percent carried by the last progress report (0 before any).
    pub closed spec fn last_percent(&self) -> nat {
        self.last_percent as nat
    }

    pub open spec fn total_frames_spec(&self) -> nat {
        mixed_frames(self.system(), self.mic())
    }

    pub closed spec fn wf(&self) -> bool {
        &&& self.total as nat == mixed_frames(self.system@, self.mic@)
        &&& 2 * self.total <= usize::MAX
        &&& self.next_frame <= self.total
        &&& self.last_percent <= 100
    }

    /// A job that has not mixed anything yet.
    pub fn new(system: Vec<i32>, mic: Vec<i32>) -> (job: Self)
        requires
            2 * mixed_frames(system@, mic@) <= usize::MAX,
        ensures
            job.wf(),
            job.system() == system@,
            job.mic() == mic@,
            job.frames_done() == 0,
            job.last_percent() == 0,
    {
        let total = mixed_frame_count(system.len(), mic.len());
        MixingJob { system, mic, total, next_frame: 0, last_percent: 0 }
    }

    /// Number of frames of the finished mix.
    pub fn total_frames(&self) -> (r: usize)
        requires
            self.wf(),
        ensures
            r == self.total_frames_spec(),
    {
        self.total
    }

    /// Whether every frame has been handed out.
    pub fn is_done(&self) -> (r: bool)
        requires
            self.wf(),
        ensures
            r == (self.frames_done() == self.total_frames_spec()),
    {
        self.next_frame == self.total
    }

    /// Mixes the next chunk of frames. A progress report comes with it when
    /// the whole percent done has grown since the last report, and always
    /// with the last chunk.
    pub fn next_chunk(&mut self) -> (r: (Vec<i32>, Option<MixingProgress>))
        requires
            old(self).wf(),
            old(self).frames_done() < old(self).total_frames_spec(),
        ensures
            final(self).wf(),
            final(self).system() == old(self).system(),
            final(self).mic() == old(self).mic(),
            final(self).frames_done() == if old(self).frames_done() + MIX_CHUNK_FRAMES
                <= old(self).total_frames_spec() {
                old(self).frames_done() + MIX_CHUNK_FRAMES
            } else {
                old(self).total_frames_spec() as int
            },
            r.0@ == mix_spec(old(self).system(), old(self).mic()).subrange(
                2 * old(self).frames_done() as int,
                2 * final(self).frames_done() as int,
            ),
            r.1 is Some <==> (percent_of(final(self).frames_done(), old(self).total_frames_spec())
                > old(self).last_percent() || final(self).frames_done()
                == old(self).total_frames_spec()),
            r.1 is Some ==> r.1 == Some(
                MixingProgress {
                    current_frame: final(self).frames_done() as u64,
                    total_frames: old(self).total_frames_spec() as u64,
                    percent: percent_of(final(self).frames_done(), old(self).total_frames_spec())
                        as u64,
                },
            ),
            final(self).last_percent() == if r.1 is Some {
                percent_of(final(self).frames_done(), old(self).total_frames_spec())
            } else {
                old(self).last_percent()
            },
    {
        let start = self.next_frame;
        let end = if self.total - start >= MIX_CHUNK_FRAMES {
            start + MIX_CHUNK_FRAMES
        } else {
            self.total
        };
        let chunk = mix_frames(self.system.as_slice(), self.mic.as_slice(), start, end);
        self.next_frame = end;
        let percent: u64 = ((end as u128) * 100 / (self.total as u128)) as u64;
        proof {
            vstd::arithmetic::div_mod::lemma_div_is_ordered(
                (end as int) * 100,
                (self.total as int) * 100,
                self.total as int,
            );
            vstd::arithmetic::div_mod::lemma_div_multiples_vanish(100, self.total as int);
            assert((self.total as int) * 100 == (self.total as int) * 100);
            assert(100 * (self.total as int) == (self.total as int) * 100);
        }
        let progress = if percent > self.last_percent || end == self.total {
            self.last_percent = percent;
            Some(
                MixingProgress {
                    current_frame: end as u64,
                    total_frames: self.total as u64,
                    percent,
                },
            )
        } else {
            None
        };
        (chunk, progress)
    }
}

/// The mixed output has as many frames as the longer of the two inputs.
pub proof fn lemma_mix_length(system: Seq<i32>, mic: Seq<i32>)
    ensures
        mix_spec(system, mic).len() == 2 * (if system.len() / 2 >= mic.len() {
            system.len() / 2
        } else {
            mic.len()
        }),
{
}

/// Every mixed sample lies in [-1, 1].
pub proof fn lemma_mix_in_range(system: Seq<i32>, mic: Seq<i32>)
    ensures
        forall|k: int|
            0 <= k < mix_spec(system, mic).len() ==> -FULL_SCALE <= #[trigger] mix_spec(
                system,
                mic,
            )[k] <= FULL_SCALE,
{
}

} // verus!
