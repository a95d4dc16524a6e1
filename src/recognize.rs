use crate::pcm::{floor_div, int_sample_spec, int_sample_to_fixed};
use crate::resample::{resample, resample_spec, resampled_len};
use crate::text::{chars_of, string_of, trim_chars, trim_spec};
use crate::text::{push_char, push_decimal};
use crate::transcript::{join_texts, seg_id, segs_view, SegmentView, TranscriptSegment};
use vstd::prelude::*;

verus! {

/// Sample rate, in Hz, that the recognizer takes.
pub const RECOGNITION_RATE: u32 = 16000;

/// One segment as the recognizer reports it: raw text and start and end in
/// centiseconds.
#[derive(Clone, Debug)]
pub struct RecognizedSegment {
    pub text: String,
    pub t0: i64,
    pub t1: i64,
}

/// A recognizer time as a point of the timeline (negative times mean 0).
pub open spec fn centis(t: i64) -> nat {
    if t < 0 {
        0
    } else {
        t as nat
    }
}

/// The segment that a raw recognizer segment gives on the channel `speaker`:
/// none when its text is blank, else with the text trimmed and no id yet.
pub open spec fn recognized_view(r: RecognizedSegment, speaker: Seq<char>) -> Option<SegmentView> {
    let t = trim_spec(r.text@);
    if t.len() == 0 {
        None
    } else {
        Some(
            SegmentView {
                id: Seq::empty(),
                text: t,
                start_time: centis(r.t0),
                end_time: centis(r.t1),
                speaker,
            },
        )
    }
}

/// The segments of a channel, in the recognizer's order, blank ones left out.
pub open spec fn recognized_segments(raw: Seq<RecognizedSegment>, speaker: Seq<char>) -> Seq<
    SegmentView,
>
    decreases raw.len(),
{
    if raw.len() == 0 {
        Seq::empty()
    } else {
        let prev = recognized_segments(raw.drop_last(), speaker);
        match recognized_view(raw.last(), speaker) {
            Some(v) => prev.push(v),
            None => prev,
        }
    }
}

fn centis_of(t: i64) -> (r: u64)
    ensures
        r as nat == centis(t),
{
    if t < 0 {
        0
    } else {
        t as u64
    }
}

/// Turns one raw recognizer segment into a segment of channel `speaker`.
pub fn segment_from_recognized(raw: &RecognizedSegment, speaker: &str) -> (r: Option<
    TranscriptSegment,
>)
    ensures
        match recognized_view(*raw, speaker@) {
            Some(v) => r is Some && r->0@ == v,
            None => r is None,
        },
{
    let cs = chars_of(raw.text.as_str());
    let t = trim_chars(&cs);
    if t.len() == 0 {
        return None;
    }
    let text = string_of(&t, 0, t.len());
    assert(t@.subrange(0, t@.len() as int) =~= t@);
    Some(
        TranscriptSegment {
            id: String::new(),
            text,
            start_time: centis_of(raw.t0),
            end_time: centis_of(raw.t1),
            speaker: String::from_str(speaker),
        },
    )
}

/// The segments of one channel from the recognizer's raw output.
pub fn collect_segments(raw: &Vec<RecognizedSegment>, speaker: &str) -> (r: Vec<TranscriptSegment>)
    ensures
        segs_view(r@) == recognized_segments(raw@, speaker@),
{
    let mut out: Vec<TranscriptSegment> = Vec::new();
    let mut i: usize = 0;
    while i < raw.len()
        invariant
            i <= raw@.len(),
            segs_view(out@) == recognized_segments(raw@.subrange(0, i as int), speaker@),
        decreases raw@.len() - i,
    {
        let ghost before = out@;
        let seg = segment_from_recognized(&raw[i], speaker);
        proof {
            assert(raw@.subrange(0, i + 1).drop_last() =~= raw@.subrange(0, i as int));
        }
        match seg {
            Some(s) => {
                out.push(s);
                assert(segs_view(out@) =~= segs_view(before).push(out@.last()@));
            },
            None => {},
        }
        i = i + 1;
    }
    assert(raw@.subrange(0, raw@.len() as int) =~= raw@);
    out
}

/// Sum of the samples of `s`.
pub open spec fn seq_sum(s: Seq<i32>) -> int
    decreases s.len(),
{
    if s.len() == 0 {
        0
    } else {
        seq_sum(s.drop_last()) + s.last() as int
    }
}

/// The mean (rounded down) of each frame of `channels` interleaved samples;
/// a last, incomplete frame is still divided by `channels`. One channel is
/// left as it is.
pub open spec fn downmix_spec(s: Seq<i32>, channels: nat) -> Seq<i32> {
    if channels <= 1 {
        s
    } else {
        Seq::new(
            ((s.len() + channels - 1) / channels as int) as nat,
            |k: int|
                (seq_sum(
                    s.subrange(
                        k * channels,
                        if (k + 1) * channels <= s.len() {
                            (k + 1) * channels
                        } else {
                            s.len() as int
                        },
                    ),
                ) / channels as int) as i32,
        )
    }
}

proof fn lemma_sum_bounds(s: Seq<i32>)
    ensures
        s.len() * (i32::MIN as int) <= seq_sum(s) <= s.len() * (i32::MAX as int),
    decreases s.len(),
{
    if s.len() > 0 {
        lemma_sum_bounds(s.drop_last());
    }
}

/// The mean of `s[start..end]` divided by `channels` (rounded down).
fn frame_mean(s: &[i32], start: usize, end: usize, channels: u16) -> (r: i32)
    requires
        start <= end <= s@.len(),
        end - start <= channels,
        channels >= 1,
    ensures
        r as int == seq_sum(s@.subrange(start as int, end as int)) / channels as int,
{
    let mut sum: i64 = 0;
    let mut i: usize = start;
    while i < end
        invariant
            start <= i <= end <= s@.len(),
            end - start <= channels,
            sum as int == seq_sum(s@.subrange(start as int, i as int)),
        decreases end - i,
    {
        proof {
            lemma_sum_bounds(s@.subrange(start as int, i as int));
            assert(s@.subrange(start as int, i + 1).drop_last() =~= s@.subrange(
                start as int,
                i as int,
            ));
            assert((i - start) * (i32::MAX as int) <= 65535 * 0x7fff_ffff) by (nonlinear_arith)
                requires i - start <= 65535;
            assert((i - start) * (i32::MIN as int) >= 65535 * (-0x8000_0000)) by (nonlinear_arith)
                requires i - start <= 65535, i - start >= 0;
        }
        sum = sum + s[i] as i64;
        i = i + 1;
    }
    let ghost frame = s@.subrange(start as int, end as int);
    proof {
        lemma_sum_bounds(frame);
        let c = channels as int;
        let n = frame.len() as int;
        assert(n * (i32::MIN as int) >= c * (i32::MIN as int)) by (nonlinear_arith)
            requires n <= c, n >= 0;
        assert(n * (i32::MAX as int) <= c * (i32::MAX as int)) by (nonlinear_arith)
            requires n <= c, n >= 0;
        vstd::arithmetic::div_mod::lemma_div_is_ordered(c * (i32::MIN as int), sum as int, c);
        vstd::arithmetic::div_mod::lemma_div_is_ordered(sum as int, c * (i32::MAX as int), c);
        vstd::arithmetic::div_mod::lemma_div_multiples_vanish(i32::MIN as int, c);
        vstd::arithmetic::div_mod::lemma_div_multiples_vanish(i32::MAX as int, c);
    }
    floor_div(sum, channels as i64) as i32
}

/// Averages interleaved frames of `channels` samples down to one channel.
pub fn downmix(s: &[i32], channels: u16) -> (r: Vec<i32>)
    ensures
        r@ == downmix_spec(s@, channels as nat),
{
    let mut out: Vec<i32> = Vec::new();
    if channels <= 1 {
        let mut i: usize = 0;
        while i < s.len()
            invariant
                i <= s@.len(),
                out@ == s@.subrange(0, i as int),
            decreases s@.len() - i,
        {
            out.push(s[i]);
            i = i + 1;
        }
        assert(out@ =~= s@);
        return out;
    }
    let c = channels as usize;
    let n = s.len();
    let ghost spec_out = downmix_spec(s@, channels as nat);
    proof {
        vstd::arithmetic::div_mod::lemma_div_is_ordered_by_denominator(n as int, 2, c as int);
    }
    let total = n / c + if n % c != 0 { 1 } else { 0 };
    proof {
        lemma_frame_count(n as int, c as int);
    }
    let mut k: usize = 0;
    while k < total
        invariant
            n == s@.len(),
            c == channels as nat >= 2,
            total == spec_out.len(),
            forall|j: int| 0 <= j < total ==> #[trigger] (j * c) < n,
            spec_out == downmix_spec(s@, channels as nat),
            k <= total,
            out@ == spec_out.subrange(0, k as int),
        decreases total - k,
    {
        assert((k as int) * c < n);
        let start = k * c;
        let end = if n - start >= c { start + c } else { n };
        assert(((k as int) + 1) * c == (k as int) * c + c) by (nonlinear_arith);
        let m = frame_mean(s, start, end, channels);
        out.push(m);
        assert(out@ =~= spec_out.subrange(0, k + 1));
        k = k + 1;
    }
    out
}

/// Number of frames of `c` samples, the last one possibly incomplete.
proof fn lemma_frame_count(n: int, c: int)
    requires
        n >= 0,
        c >= 2,
    ensures
        (n + c - 1) / c == n / c + if n % c != 0 { 1int } else { 0int },
        forall|j: int| 0 <= j < (n + c - 1) / c ==> #[trigger] (j * c) < n,
{
    vstd::arithmetic::div_mod::lemma_fundamental_div_mod(n, c);
    let q = n / c;
    let r = n % c;
    if r != 0 {
        assert(n + c - 1 == (q + 1) * c + (r - 1)) by (nonlinear_arith) requires n == c * q + r;
        vstd::arithmetic::div_mod::lemma_fundamental_div_mod_converse(n + c - 1, c, q + 1, r - 1);
    } else {
        assert(n + c - 1 == q * c + (c - 1)) by (nonlinear_arith) requires n == c * q + r, r == 0;
        vstd::arithmetic::div_mod::lemma_fundamental_div_mod_converse(n + c - 1, c, q, c - 1);
    }
    assert forall|j: int| 0 <= j < (n + c - 1) / c implies #[trigger] (j * c) < n by {
        if r != 0 {
            assert(j * c < n) by (nonlinear_arith)
                requires j <= q, n == c * q + r, r > 0, c > 0;
        } else {
            assert(j * c < n) by (nonlinear_arith)
                requires j < q, n == c * q + r, r == 0, c > 0;
        }
    }
}

/// The audio the recognizer is given: mixed down to one channel and
/// resampled to `RECOGNITION_RATE`.
pub open spec fn recognition_input_spec(s: Seq<i32>, channels: nat, rate: nat) -> Seq<i32> {
    resample_spec(downmix_spec(s, channels), rate, RECOGNITION_RATE as nat)
}

/// Prepares decoded samples of a file for the recognizer.
pub fn prepare_for_recognition(samples: &[i32], channels: u16, sample_rate: u32) -> (r: Vec<i32>)
    requires
        sample_rate > 0,
        resampled_len(
            downmix_spec(samples@, channels as nat).len(),
            sample_rate as nat,
            RECOGNITION_RATE as nat,
        ) <= usize::MAX,
    ensures
        r@ == recognition_input_spec(samples@, channels as nat, sample_rate as nat),
{
    let mono = downmix(samples, channels);
    resample(mono.as_slice(), sample_rate, RECOGNITION_RATE)
}

/// Normalizes integer samples of `bits` bits to fixed point.
pub fn samples_from_int(samples: &[i32], bits: u16) -> (r: Vec<i32>)
    requires
        1 <= bits <= 32,
    ensures
        r@.len() == samples@.len(),
        forall|i: int|
            0 <= i < samples@.len() ==> r@[i] as int == int_sample_spec(
                #[trigger] samples@[i],
                bits as nat,
            ),
{
    let mut out: Vec<i32> = Vec::new();
    let mut i: usize = 0;
    while i < samples.len()
        invariant
            1 <= bits <= 32,
            i <= samples@.len(),
            out@.len() == i,
            forall|j: int|
                0 <= j < i ==> out@[j] as int == int_sample_spec(#[trigger] samples@[j], bits as nat),
        decreases samples@.len() - i,
    {
        out.push(int_sample_to_fixed(samples[i], bits));
        i = i + 1;
    }
    out
}

/// Segment `i` of a single-file transcript: every raw segment is kept,
/// trimmed, named after its index and labelled "Unknown".
pub open spec fn single_file_segment(r: RecognizedSegment, i: nat) -> SegmentView {
    SegmentView {
        id: seg_id(i),
        text: trim_spec(r.text@),
        start_time: centis(r.t0),
        end_time: centis(r.t1),
        speaker: "Unknown"@,
    }
}

/// All segments of a single-file transcript.
pub open spec fn single_file_segments(raw: Seq<RecognizedSegment>) -> Seq<SegmentView> {
    Seq::new(raw.len(), |i: int| single_file_segment(raw[i], i as nat))
}

/// The transcript of one file with no channel labels: the recognizer's
/// segments in order, with the full text joined by spaces.
pub fn single_file_transcript(raw: &Vec<RecognizedSegment>) -> (r: (Vec<TranscriptSegment>, String))
    ensures
        segs_view(r.0@) == single_file_segments(raw@),
        r.1@ == join_texts(single_file_segments(raw@)),
{
    let ghost all = single_file_segments(raw@);
    let mut out: Vec<TranscriptSegment> = Vec::new();
    let mut full_text = String::new();
    let mut i: usize = 0;
    while i < raw.len()
        invariant
            i <= raw@.len(),
            all == single_file_segments(raw@),
            segs_view(out@) =~= all.subrange(0, i as int),
            full_text@ == join_texts(all.subrange(0, i as int)),
        decreases raw@.len() - i,
    {
        let cs = chars_of(raw[i].text.as_str());
        let t = trim_chars(&cs);
        let text = string_of(&t, 0, t.len());
        assert(t@.subrange(0, t@.len() as int) =~= t@);
        if i > 0 {
            push_char(&mut full_text, ' ');
        }
        full_text.append(text.as_str());
        let mut id = String::from_str("seg_");
        proof {
            reveal_strlit("seg_");
            assert(id@ =~= seq!['s', 'e', 'g', '_']);
        }
        push_decimal(&mut id, i);
        let seg = TranscriptSegment {
            id,
            text,
            start_time: centis_of(raw[i].t0),
            end_time: centis_of(raw[i].t1),
            speaker: String::from_str("Unknown"),
        };
        out.push(seg);
        proof {
            let prefix = all.subrange(0, i + 1);
            assert(prefix.drop_last() =~= all.subrange(0, i as int));
            assert(seg@ == all[i as int]);
            assert(full_text@ =~= join_texts(prefix));
        }
        i = i + 1;
    }
    assert(all.subrange(0, raw@.len() as int) =~= all);
    (out, full_text)
}

} // verus!
