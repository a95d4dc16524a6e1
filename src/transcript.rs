use crate::text::{decimal, push_char, push_decimal};
use vstd::prelude::*;

verus! {

/// One recognized span of speech. Times are in centiseconds from the start
/// of the recording, as the recognizer reports them.
#[derive(Clone, Debug)]
pub struct TranscriptSegment {
    pub id: String,
    pub text: String,
    pub start_time: u64,
    pub end_time: u64,
    pub speaker: String,
}

/// The mathematical value of a segment.
pub struct SegmentView {
    pub id: Seq<char>,
    pub text: Seq<char>,
    pub start_time: nat,
    pub end_time: nat,
    pub speaker: Seq<char>,
}

impl View for TranscriptSegment {
    type V = SegmentView;

    open spec fn view(&self) -> SegmentView {
        SegmentView {
            id: self.id@,
            text: self.text@,
            start_time: self.start_time as nat,
            end_time: self.end_time as nat,
            speaker: self.speaker@,
        }
    }
}

/// The views of a list of segments.
pub open spec fn segs_view(v: Seq<TranscriptSegment>) -> Seq<SegmentView> {
    v.map_values(|s: TranscriptSegment| s@)
}

/// A merged transcript.
#[derive(Clone, Debug)]
pub struct TranscriptionResult {
    pub segments: Vec<TranscriptSegment>,
    pub full_text: String,
    pub duration: u64,
}

/// `s` inserted into the list `l` after every element that does not start later.
pub open spec fn insert_by_start(l: Seq<SegmentView>, s: SegmentView) -> Seq<SegmentView>
    decreases l.len(),
{
    if l.len() == 0 {
        seq![s]
    } else if l.last().start_time <= s.start_time {
        l.push(s)
    } else {
        insert_by_start(l.drop_last(), s).push(l.last())
    }
}

/// Stable sort by start time (segments that start together keep their order).
pub open spec fn sort_by_start(l: Seq<SegmentView>) -> Seq<SegmentView>
    decreases l.len(),
{
    if l.len() == 0 {
        l
    } else {
        insert_by_start(sort_by_start(l.drop_last()), l.last())
    }
}

/// Whether `l` is non-decreasing in start time.
pub open spec fn sorted_by_start(l: Seq<SegmentView>) -> bool {
    forall|i: int, j: int| 0 <= i <= j < l.len() ==> l[i].start_time <= l[j].start_time
}

/// The identifier given to the segment at position `k` of a merged transcript.
pub open spec fn seg_id(k: nat) -> Seq<char> {
    seq!['s', 'e', 'g', '_'] + decimal(k)
}

/// The segments of `l` renamed after their positions.
pub open spec fn renumber(l: Seq<SegmentView>) -> Seq<SegmentView> {
    Seq::new(l.len(), |k: int| SegmentView { id: seg_id(k as nat), ..l[k] })
}

/// The segments of both channels in one timeline, renamed in order.
pub open spec fn merge_spec(meeting: Seq<SegmentView>, me: Seq<SegmentView>) -> Seq<SegmentView> {
    renumber(sort_by_start(meeting + me))
}

/// The texts of `l` joined by single spaces.
pub open spec fn join_texts(l: Seq<SegmentView>) -> Seq<char>
    decreases l.len(),
{
    if l.len() == 0 {
        Seq::empty()
    } else if l.len() == 1 {
        l[0].text
    } else {
        join_texts(l.drop_last()) + seq![' '] + l.last().text
    }
}

/// The latest end time in `l`, or 0 for an empty list.
pub open spec fn max_end(l: Seq<SegmentView>) -> nat
    decreases l.len(),
{
    if l.len() == 0 {
        0
    } else {
        let m = max_end(l.drop_last());
        if l.last().end_time > m {
            l.last().end_time
        } else {
            m
        }
    }
}

/// Inserting at position `k`, where everything before does not start later
/// and everything after starts later, is what `insert_by_start` does.
proof fn lemma_insert_at(l: Seq<SegmentView>, s: SegmentView, k: int)
    requires
        0 <= k <= l.len(),
        k > 0 ==> l[k - 1].start_time <= s.start_time,
        forall|j: int| k <= j < l.len() ==> l[j].start_time > s.start_time,
    ensures
        insert_by_start(l, s) == l.insert(k, s),
    decreases l.len(),
{
    if l.len() == 0 {
        assert(l.insert(k, s) =~= seq![s]);
    } else if l.last().start_time <= s.start_time {
        assert(k == l.len());
        assert(l.insert(k, s) =~= l.push(s));
    } else {
        lemma_insert_at(l.drop_last(), s, k);
        assert(l.insert(k, s) =~= l.drop_last().insert(k, s).push(l.last()));
    }
}

proof fn lemma_insert_sorted(l: Seq<SegmentView>, s: SegmentView)
    requires
        sorted_by_start(l),
    ensures
        sorted_by_start(insert_by_start(l, s)),
        insert_by_start(l, s).len() == l.len() + 1,
        insert_by_start(l, s).to_multiset() =~= l.to_multiset().insert(s),
    decreases l.len(),
{
    broadcast use vstd::seq_lib::group_to_multiset_ensures;

    if l.len() == 0 {
        assert(seq![s] =~= Seq::<SegmentView>::empty().push(s));
    } else if l.last().start_time <= s.start_time {
    } else {
        let r = insert_by_start(l.drop_last(), s);
        lemma_insert_sorted(l.drop_last(), s);
        assert(l.drop_last().push(l.last()) =~= l);
        assert forall|i: int| 0 <= i < r.len() implies r[i].start_time <= l.last().start_time by {
            assert(r.to_multiset().count(r[i]) > 0);
            if r[i] != s {
                assert(l.drop_last().to_multiset().count(r[i]) > 0);
                let j = choose|j: int| 0 <= j < l.drop_last().len() && l.drop_last()[j] == r[i];
                assert(l[j] == r[i]);
            }
        }
    }
}

proof fn lemma_sort_props(l: Seq<SegmentView>)
    ensures
        sorted_by_start(sort_by_start(l)),
        sort_by_start(l).len() == l.len(),
        sort_by_start(l).to_multiset() =~= l.to_multiset(),
    decreases l.len(),
{
    broadcast use vstd::seq_lib::group_to_multiset_ensures;

    if l.len() > 0 {
        lemma_sort_props(l.drop_last());
        lemma_insert_sorted(sort_by_start(l.drop_last()), l.last());
        assert(l.drop_last().push(l.last()) =~= l);
    }
}

/// Stable insertion sort of segments by start time.
fn sort_segments(input: Vec<TranscriptSegment>) -> (r: Vec<TranscriptSegment>)
    ensures
        segs_view(r@) == sort_by_start(segs_view(input@)),
{
    let len = input.len();
    let mut rest = input;
    let ghost all = segs_view(input@);
    let ghost n = input@.len();
    let mut out: Vec<TranscriptSegment> = Vec::new();
    let mut taken: usize = 0;
    assert(all.subrange(0, 0) =~= Seq::<SegmentView>::empty());
    while rest.len() > 0
        invariant
            all == segs_view(input@),
            n == input@.len() == len,
            taken + rest@.len() == n,
            segs_view(rest@) =~= all.subrange(taken as int, n as int),
            segs_view(out@) == sort_by_start(all.subrange(0, taken as int)),
        decreases rest.len(),
    {
        let ghost old_rest = rest@;
        assert(segs_view(old_rest)[0] == old_rest[0]@);
        let s = rest.remove(0);
        assert(s@ == all[taken as int]);
        assert(segs_view(rest@) =~= segs_view(old_rest).drop_first());
        let ghost before = segs_view(out@);
        proof {
            lemma_sort_props(all.subrange(0, taken as int));
        }
        let mut pos: usize = out.len();
        while pos > 0 && out[pos - 1].start_time > s.start_time
            invariant
                pos <= out@.len(),
                before == segs_view(out@),
                forall|j: int| pos <= j < out@.len() ==> out@[j].start_time > s.start_time,
            decreases pos,
        {
            pos = pos - 1;
        }
        proof {
            lemma_insert_at(before, s@, pos as int);
        }
        out.insert(pos, s);
        proof {
            assert(segs_view(out@) =~= before.insert(pos as int, s@));
            assert(all.subrange(0, taken + 1).drop_last() =~= all.subrange(0, taken as int));
        }
        taken = taken + 1;
    }
    assert(all.subrange(0, n as int) =~= all);
    out
}

/// Combines the segments of the two channels into one timeline: stable-sorted
/// by start time, renamed `seg_0`, `seg_1`, ... in that order. Also returns the
/// texts joined by spaces and the latest end time (0 when there is none).
/// Both input lists are left empty.
pub fn merge_segments(
    meeting: &mut Vec<TranscriptSegment>,
    me: &mut Vec<TranscriptSegment>,
) -> (r: (Vec<TranscriptSegment>, String, u64))
    ensures
        final(meeting)@.len() == 0,
        final(me)@.len() == 0,
        segs_view(r.0@) == merge_spec(segs_view(old(meeting)@), segs_view(old(me)@)),
        r.1@ == join_texts(merge_spec(segs_view(old(meeting)@), segs_view(old(me)@))),
        r.2 == max_end(merge_spec(segs_view(old(meeting)@), segs_view(old(me)@))),
{
    let ghost merged = merge_spec(segs_view(old(meeting)@), segs_view(old(me)@));
    let mut all: Vec<TranscriptSegment> = Vec::new();
    all.append(meeting);
    all.append(me);
    assert(segs_view(all@) =~= segs_view(old(meeting)@) + segs_view(old(me)@));
    let sorted = sort_segments(all);
    proof {
        lemma_sort_props(segs_view(old(meeting)@) + segs_view(old(me)@));
    }
    let ghost sorted_view = segs_view(sorted@);
    let n = sorted.len();
    let mut rest = sorted;
    let mut out: Vec<TranscriptSegment> = Vec::new();
    let mut full_text = String::new();
    let mut max_end_time: u64 = 0;
    let mut k: usize = 0;
    while rest.len() > 0
        invariant
            merged == renumber(sorted_view),
            n == sorted_view.len(),
            k + rest@.len() == n,
            segs_view(rest@) =~= sorted_view.subrange(k as int, n as int),
            segs_view(out@) =~= merged.subrange(0, k as int),
            full_text@ == join_texts(merged.subrange(0, k as int)),
            max_end_time == max_end(merged.subrange(0, k as int)),
        decreases rest.len(),
    {
        let ghost old_rest = rest@;
        assert(segs_view(old_rest)[0] == old_rest[0]@);
        let seg = rest.remove(0);
        assert(segs_view(rest@) =~= segs_view(old_rest).drop_first());
        let mut id = String::from_str("seg_");
        proof {
            reveal_strlit("seg_");
            assert(id@ =~= seq!['s', 'e', 'g', '_']);
        }
        push_decimal(&mut id, k);
        assert(id@ == seg_id(k as nat));
        if k > 0 {
            push_char(&mut full_text, ' ');
        }
        full_text.append(seg.text.as_str());
        if seg.end_time > max_end_time {
            max_end_time = seg.end_time;
        }
        let renamed = TranscriptSegment {
            id,
            text: seg.text,
            start_time: seg.start_time,
            end_time: seg.end_time,
            speaker: seg.speaker,
        };
        out.push(renamed);
        proof {
            let prefix = merged.subrange(0, k + 1);
            assert(prefix.drop_last() =~= merged.subrange(0, k as int));
            assert(renamed@ == merged[k as int]);
            if k == 0 {
                assert(full_text@ =~= join_texts(prefix));
            } else {
                assert(full_text@ =~= join_texts(prefix));
            }
        }
        k = k + 1;
    }
    assert(merged.subrange(0, n as int) =~= merged);
    (out, full_text, max_end_time)
}

/// `max_end` is an upper bound of every end time, reached by some segment
/// when there is one.
proof fn lemma_max_end_is_max(l: Seq<SegmentView>)
    ensures
        forall|i: int| 0 <= i < l.len() ==> l[i].end_time <= max_end(l),
        l.len() == 0 ==> max_end(l) == 0,
        l.len() > 0 ==> exists|i: int| 0 <= i < l.len() && l[i].end_time == max_end(l),
    decreases l.len(),
{
    if l.len() > 0 {
        lemma_max_end_is_max(l.drop_last());
        assert forall|i: int| 0 <= i < l.len() - 1 implies l[i] == l.drop_last()[i] by {}
        if l.len() > 1 && l.last().end_time <= max_end(l.drop_last()) {
            let i = choose|i: int|
                0 <= i < l.drop_last().len() && l.drop_last()[i].end_time == max_end(
                    l.drop_last(),
                );
            assert(l[i].end_time == max_end(l));
        } else {
            assert(l[l.len() - 1].end_time == max_end(l));
        }
    }
}

/// Two lists with the same segments have the same latest end time.
proof fn lemma_max_end_permutation(a: Seq<SegmentView>, b: Seq<SegmentView>)
    requires
        a.to_multiset() =~= b.to_multiset(),
    ensures
        max_end(a) == max_end(b),
{
    broadcast use vstd::seq_lib::group_to_multiset_ensures;

    lemma_max_end_is_max(a);
    lemma_max_end_is_max(b);
    assert(a.len() == a.to_multiset().len());
    assert(b.len() == b.to_multiset().len());
    if a.len() > 0 {
        let i = choose|i: int| 0 <= i < a.len() && a[i].end_time == max_end(a);
        let j = choose|j: int| 0 <= j < b.len() && b[j].end_time == max_end(b);
        assert(a.contains(a[i]));
        assert(a.to_multiset().count(a[i]) > 0);
        assert(b.contains(a[i]));
        let k = choose|k: int| 0 <= k < b.len() && b[k] == a[i];
        assert(b.contains(b[j]));
        assert(b.to_multiset().count(b[j]) > 0);
        assert(a.contains(b[j]));
        let m = choose|m: int| 0 <= m < a.len() && a[m] == b[j];
    }
}

/// Renaming leaves texts and times as they are.
proof fn lemma_join_renumber(l: Seq<SegmentView>)
    ensures
        join_texts(renumber(l)) == join_texts(l),
    decreases l.len(),
{
    if l.len() > 1 {
        assert(renumber(l).drop_last() =~= renumber(l.drop_last()));
        lemma_join_renumber(l.drop_last());
    }
}

proof fn lemma_max_end_renumber(l: Seq<SegmentView>)
    ensures
        max_end(renumber(l)) == max_end(l),
    decreases l.len(),
{
    if l.len() > 0 {
        assert(renumber(l).drop_last() =~= renumber(l.drop_last()));
        lemma_max_end_renumber(l.drop_last());
    }
}

/// The merged transcript holds as many segments as both channels together.
pub proof fn lemma_merge_len(meeting: Seq<SegmentView>, me: Seq<SegmentView>)
    ensures
        merge_spec(meeting, me).len() == meeting.len() + me.len(),
{
    lemma_sort_props(meeting + me);
}

/// The merged transcript is non-decreasing in start time.
pub proof fn lemma_merge_sorted(meeting: Seq<SegmentView>, me: Seq<SegmentView>)
    ensures
        sorted_by_start(merge_spec(meeting, me)),
{
    lemma_sort_props(meeting + me);
}

/// The merged segments are named `seg_0` to `seg_{n-1}` in order, whatever
/// names they came with.
pub proof fn lemma_merge_ids(meeting: Seq<SegmentView>, me: Seq<SegmentView>)
    ensures
        forall|k: int|
            0 <= k < merge_spec(meeting, me).len() ==> #[trigger] merge_spec(meeting, me)[k].id
                == seg_id(k as nat),
{
}

/// No segment is lost or duplicated: apart from the new names, the merged
/// transcript is a rearrangement of the two channels' segments.
pub proof fn lemma_merge_keeps_segments(meeting: Seq<SegmentView>, me: Seq<SegmentView>)
    ensures
        sort_by_start(meeting + me).to_multiset() =~= (meeting + me).to_multiset(),
        forall|k: int|
            0 <= k < merge_spec(meeting, me).len() ==> #[trigger] merge_spec(meeting, me)[k]
                == (SegmentView { id: seg_id(k as nat), ..sort_by_start(meeting + me)[k] }),
{
    lemma_sort_props(meeting + me);
}

/// The full text joins the texts in the merged order, and the duration is the
/// latest end time of any input segment, 0 when both channels are empty.
pub proof fn lemma_merge_text_and_duration(meeting: Seq<SegmentView>, me: Seq<SegmentView>)
    ensures
        join_texts(merge_spec(meeting, me)) == join_texts(sort_by_start(meeting + me)),
        max_end(merge_spec(meeting, me)) == max_end(meeting + me),
        forall|i: int|
            0 <= i < (meeting + me).len() ==> (meeting + me)[i].end_time <= max_end(
                merge_spec(meeting, me),
            ),
        meeting.len() + me.len() == 0 ==> max_end(merge_spec(meeting, me)) == 0,
        meeting.len() + me.len() > 0 ==> exists|i: int|
            0 <= i < (meeting + me).len() && (meeting + me)[i].end_time == max_end(
                merge_spec(meeting, me),
            ),
{
    lemma_sort_props(meeting + me);
    lemma_join_renumber(sort_by_start(meeting + me));
    lemma_max_end_renumber(sort_by_start(meeting + me));
    lemma_max_end_permutation(sort_by_start(meeting + me), meeting + me);
    lemma_max_end_is_max(meeting + me);
}

} // verus!
