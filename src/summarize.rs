use crate::text::{
    chars_of, has_prefix, push_char, starts_with, string_of, slice_chars, strip_prefix_all,
    strip_prefix_repeated, trim_chars, trim_spec,
};
use crate::transcript::{segs_view, SegmentView, TranscriptionResult};
use vstd::prelude::*;

verus! {

/// End (exclusive) of a tag whose name starts at `j`: just past the next
/// `>`, or the end of the text.
pub open spec fn tag_close(s: Seq<char>, j: int) -> int
    decreases s.len() - j,
{
    if j >= s.len() {
        s.len() as int
    } else if s[j] == '>' {
        j + 1
    } else {
        tag_close(s, j + 1)
    }
}

/// The text from position `i` on with `<think>` ... `</think>` blocks left
/// out; `in_think` tells whether position `i` lies inside such a block. A tag
/// runs from `<` to the next `>`, or to the end of the text.
pub open spec fn strip_at(s: Seq<char>, i: int, in_think: bool) -> Seq<char>
    decreases s.len() - i,
{
    if i < 0 || i >= s.len() {
        Seq::empty()
    } else if s[i] == '<' {
        let e = tag_close(s, i + 1);
        if e <= i || e > s.len() {
            Seq::empty()
        } else {
            let tag = s.subrange(i, e);
            if tag == "<think>"@ {
                strip_at(s, e, true)
            } else if tag == "</think>"@ {
                strip_at(s, e, false)
            } else if !in_think {
                tag + strip_at(s, e, in_think)
            } else {
                strip_at(s, e, in_think)
            }
        }
    } else if !in_think {
        seq![s[i]] + strip_at(s, i + 1, in_think)
    } else {
        strip_at(s, i + 1, in_think)
    }
}

/// What `strip_thinking_blocks` returns.
pub open spec fn strip_thinking_spec(s: Seq<char>) -> Seq<char> {
    strip_at(s, 0, false)
}

proof fn lemma_tag_close_bounds(s: Seq<char>, j: int)
    requires
        0 <= j,
    ensures
        j <= tag_close(s, j) <= s.len() || (j > s.len() && tag_close(s, j) == s.len()),
    decreases s.len() - j,
{
    if j < s.len() && s[j] != '>' {
        lemma_tag_close_bounds(s, j + 1);
    }
}

/// Whether `cs[start..end]` spells `lit`.
fn equals_at(cs: &Vec<char>, start: usize, end: usize, lit: &str) -> (r: bool)
    requires
        start <= end <= cs@.len(),
    ensures
        r == (cs@.subrange(start as int, end as int) == lit@),
{
    let m = lit.unicode_len();
    if m != end - start {
        return false;
    }
    let mut i: usize = 0;
    while i < m
        invariant
            m == lit@.len() == end - start,
            start <= end <= cs@.len(),
            i <= m,
            cs@.subrange(start as int, start + i) == lit@.subrange(0, i as int),
        decreases m - i,
    {
        if cs[start + i] != lit.get_char(i) {
            assert(cs@.subrange(start as int, end as int)[i as int] != lit@[i as int]);
            return false;
        }
        assert(cs@.subrange(start as int, start + i + 1) =~= lit@.subrange(0, i + 1));
        i = i + 1;
    }
    assert(lit@.subrange(0, m as int) =~= lit@);
    true
}

/// Removes the `<think>` ... `</think>` blocks a reasoning model may emit.
pub fn strip_thinking_blocks(text: &str) -> (r: String)
    ensures
        r@ == strip_thinking_spec(text@),
{
    let cs = chars_of(text);
    let n = cs.len();
    let mut out = String::new();
    let mut in_think = false;
    let mut i: usize = 0;
    while i < n
        invariant
            n == cs@.len(),
            cs@ == text@,
            i <= n,
            out@ + strip_at(cs@, i as int, in_think) == strip_at(cs@, 0, false),
        decreases n - i,
    {
        let ghost before = out@;
        let ghost old_in = in_think;
        if cs[i] == '<' {
            let mut j: usize = i + 1;
            while j < n && cs[j] != '>'
                invariant
                    i < j <= n == cs@.len(),
                    tag_close(cs@, j as int) == tag_close(cs@, i + 1),
                decreases n - j,
            {
                j = j + 1;
            }
            let e = if j < n { j + 1 } else { n };
            proof {
                lemma_tag_close_bounds(cs@, i + 1);
            }
            assert(e == tag_close(cs@, i + 1));
            if equals_at(&cs, i, e, "<think>") {
                in_think = true;
            } else if equals_at(&cs, i, e, "</think>") {
                in_think = false;
            } else if !in_think {
                let mut k: usize = i;
                while k < e
                    invariant
                        i <= k <= e <= n == cs@.len(),
                        out@ == before + cs@.subrange(i as int, k as int),
                    decreases e - k,
                {
                    push_char(&mut out, cs[k]);
                    assert(out@ =~= before + cs@.subrange(i as int, k + 1));
                    k = k + 1;
                }
                assert(before + (cs@.subrange(i as int, e as int) + strip_at(cs@, e as int, old_in))
                    =~= out@ + strip_at(cs@, e as int, old_in));
            }
            i = e;
        } else {
            if !in_think {
                push_char(&mut out, cs[i]);
                assert(before + (seq![cs@[i as int]] + strip_at(cs@, i + 1, old_in)) =~= out@
                    + strip_at(cs@, i + 1, old_in));
            }
            i = i + 1;
        }
    }
    assert(strip_at(cs@, n as int, in_think) =~= Seq::<char>::empty());
    assert(out@ =~= out@ + strip_at(cs@, n as int, in_think));
    out
}

/// Structured summary of a meeting.
#[derive(Clone, Debug)]
pub struct SummaryResult {
    pub summary: String,
    pub key_points: Vec<String>,
    pub action_items: Vec<String>,
}

/// The mathematical value of a summary.
pub struct SummaryView {
    pub summary: Seq<char>,
    pub key_points: Seq<Seq<char>>,
    pub action_items: Seq<Seq<char>>,
}

/// The views of a list of strings.
pub open spec fn strings_view(v: Seq<String>) -> Seq<Seq<char>> {
    v.map_values(|s: String| s@)
}

impl View for SummaryResult {
    type V = SummaryView;

    open spec fn view(&self) -> SummaryView {
        SummaryView {
            summary: self.summary@,
            key_points: strings_view(self.key_points@),
            action_items: strings_view(self.action_items@),
        }
    }
}

/// The heading a line of the summary falls under.
#[derive(Clone, Copy, PartialEq, Eq, Structural)]
pub enum Section {
    Before,
    Summary,
    KeyPoints,
    ActionItems,
}

/// The lines of `s`, split at each newline (the last one may be empty).
pub open spec fn split_lines(s: Seq<char>) -> Seq<Seq<char>>
    decreases s.len(),
{
    if s.len() == 0 {
        seq![Seq::empty()]
    } else {
        let prev = split_lines(s.drop_last());
        if s.last() == '\n' {
            prev.push(Seq::empty())
        } else {
            prev.update(prev.len() - 1, prev.last().push(s.last()))
        }
    }
}

/// The key point a trimmed line under "Key Points" gives: a bullet loses its
/// marker, a heading gives none.
pub open spec fn key_point_of(t: Seq<char>) -> Option<Seq<char>> {
    if has_prefix(t, "- "@) || has_prefix(t, "* "@) {
        Some(t.subrange(2, t.len() as int))
    } else if !has_prefix(t, "#"@) {
        Some(t)
    } else {
        None
    }
}

/// The action item a trimmed line under "Action Items" gives: check-box and
/// bullet markers removed; none when nothing is left or it is a heading.
pub open spec fn action_item_of(t: Seq<char>) -> Option<Seq<char>> {
    let item = strip_prefix_all(
        strip_prefix_all(strip_prefix_all(strip_prefix_all(t, "- [ ] "@), "- [x] "@), "- "@),
        "* "@,
    );
    if item.len() > 0 && !has_prefix(item, "#"@) {
        Some(item)
    } else {
        None
    }
}

/// The summary built so far and the current section.
pub open spec fn step(st: (Section, SummaryView), line: Seq<char>) -> (Section, SummaryView) {
    let t = trim_spec(line);
    let out = st.1;
    if has_prefix(t, "## Summary"@) {
        (Section::Summary, out)
    } else if has_prefix(t, "## Key Points"@) {
        (Section::KeyPoints, out)
    } else if has_prefix(t, "## Action Items"@) {
        (Section::ActionItems, out)
    } else if t.len() == 0 {
        st
    } else {
        match st.0 {
            Section::Summary => (
                st.0,
                SummaryView {
                    summary: if out.summary.len() == 0 {
                        t
                    } else {
                        out.summary + seq![' '] + t
                    },
                    ..out
                },
            ),
            Section::KeyPoints => match key_point_of(t) {
                Some(k) => (st.0, SummaryView { key_points: out.key_points.push(k), ..out }),
                None => st,
            },
            Section::ActionItems => match action_item_of(t) {
                Some(a) => (st.0, SummaryView { action_items: out.action_items.push(a), ..out }),
                None => st,
            },
            Section::Before => st,
        }
    }
}

/// The state after reading `lines` in order.
pub open spec fn parse_lines(lines: Seq<Seq<char>>) -> (Section, SummaryView)
    decreases lines.len(),
{
    if lines.len() == 0 {
        (
            Section::Before,
            SummaryView { summary: Seq::empty(), key_points: Seq::empty(), action_items: Seq::empty() },
        )
    } else {
        step(parse_lines(lines.drop_last()), lines.last())
    }
}

/// What `parse_summary` returns for the model output `s`.
pub open spec fn parse_summary_spec(s: Seq<char>) -> SummaryView {
    parse_lines(split_lines(strip_thinking_spec(s))).1
}

proof fn lemma_split_lines_nonempty(s: Seq<char>)
    ensures
        split_lines(s).len() >= 1,
    decreases s.len(),
{
    if s.len() > 0 {
        lemma_split_lines_nonempty(s.drop_last());
    }
}

struct SummaryAcc {
    section: Section,
    result: SummaryResult,
}

fn key_point(t: Vec<char>) -> (r: Option<Vec<char>>)
    ensures
        match key_point_of(t@) {
            Some(k) => r is Some && r->0@ == k,
            None => r is None,
        },
{
    if starts_with(&t, "- ") || starts_with(&t, "* ") {
        proof {
            reveal_strlit("- ");
            reveal_strlit("* ");
        }
        Some(slice_chars(&t, 2, t.len()))
    } else if !starts_with(&t, "#") {
        Some(t)
    } else {
        None
    }
}

fn action_item(t: Vec<char>) -> (r: Option<Vec<char>>)
    ensures
        match action_item_of(t@) {
            Some(a) => r is Some && r->0@ == a,
            None => r is None,
        },
{
    let a = strip_prefix_repeated(t, "- [ ] ");
    let b = strip_prefix_repeated(a, "- [x] ");
    let c = strip_prefix_repeated(b, "- ");
    let item = strip_prefix_repeated(c, "* ");
    if item.len() > 0 && !starts_with(&item, "#") {
        Some(item)
    } else {
        None
    }
}

fn push_string(v: &mut Vec<String>, cs: &Vec<char>)
    ensures
        strings_view(final(v)@) == strings_view(old(v)@).push(cs@),
{
    let s = string_of(cs, 0, cs.len());
    assert(cs@.subrange(0, cs@.len() as int) =~= cs@);
    v.push(s);
    assert(strings_view(v@) =~= strings_view(old(v)@).push(cs@));
}

fn process_line(acc: &mut SummaryAcc, line: &Vec<char>)
    ensures
        (final(acc).section, final(acc).result@) == step((old(acc).section, old(acc).result@), line@),
{
    let t = trim_chars(line);
    if starts_with(&t, "## Summary") {
        acc.section = Section::Summary;
    } else if starts_with(&t, "## Key Points") {
        acc.section = Section::KeyPoints;
    } else if starts_with(&t, "## Action Items") {
        acc.section = Section::ActionItems;
    } else if t.len() > 0 {
        match acc.section {
            Section::Summary => {
                if acc.result.summary.unicode_len() > 0 {
                    push_char(&mut acc.result.summary, ' ');
                }
                let ts = string_of(&t, 0, t.len());
                assert(t@.subrange(0, t@.len() as int) =~= t@);
                acc.result.summary.append(ts.as_str());
                assert(acc.result.summary@ =~= if old(acc).result.summary@.len() == 0 {
                    t@
                } else {
                    old(acc).result.summary@ + seq![' '] + t@
                });
                assert(acc.result@ == step((old(acc).section, old(acc).result@), line@).1);
            },
            Section::KeyPoints => {
                if let Some(k) = key_point(t) {
                    push_string(&mut acc.result.key_points, &k);
                }
                assert(acc.result@ == step((old(acc).section, old(acc).result@), line@).1);
            },
            Section::ActionItems => {
                if let Some(a) = action_item(t) {
                    push_string(&mut acc.result.action_items, &a);
                }
                assert(acc.result@ == step((old(acc).section, old(acc).result@), line@).1);
            },
            Section::Before => {},
        }
    }
}

/// Reads a model's answer into its summary, key points and action items,
/// after dropping `<think>` blocks. Lines are trimmed; a line starting with
/// "## Summary", "## Key Points" or "## Action Items" opens that section.
pub fn parse_summary(output: &str) -> (r: SummaryResult)
    ensures
        r@ == parse_summary_spec(output@),
{
    let cleaned = strip_thinking_blocks(output);
    let cs = chars_of(cleaned.as_str());
    let n = cs.len();
    let mut acc = SummaryAcc {
        section: Section::Before,
        result: SummaryResult { summary: String::new(), key_points: Vec::new(), action_items: Vec::new() },
    };
    assert(strings_view(acc.result.key_points@) =~= Seq::<Seq<char>>::empty());
    assert(strings_view(acc.result.action_items@) =~= Seq::<Seq<char>>::empty());
    let mut cur: Vec<char> = Vec::new();
    let mut i: usize = 0;
    assert(cs@.subrange(0, 0) =~= Seq::<char>::empty());
    while i < n
        invariant
            n == cs@.len(),
            i <= n,
            (acc.section, acc.result@) == parse_lines(split_lines(cs@.subrange(0, i as int)).drop_last()),
            cur@ == split_lines(cs@.subrange(0, i as int)).last(),
        decreases n - i,
    {
        let ghost prefix = cs@.subrange(0, i + 1);
        assert(prefix.drop_last() =~= cs@.subrange(0, i as int));
        proof {
            lemma_split_lines_nonempty(prefix);
            lemma_split_lines_nonempty(cs@.subrange(0, i as int));
        }
        if cs[i] == '\n' {
            process_line(&mut acc, &cur);
            cur = Vec::new();
            proof {
                let prev = split_lines(cs@.subrange(0, i as int));
                assert(split_lines(prefix).drop_last() =~= prev);
                assert(prev =~= prev.drop_last().push(prev.last()));
            }
        } else {
            cur.push(cs[i]);
            proof {
                let prev = split_lines(cs@.subrange(0, i as int));
                assert(split_lines(prefix).drop_last() =~= prev.drop_last());
            }
        }
        i = i + 1;
    }
    process_line(&mut acc, &cur);
    proof {
        let all = split_lines(cs@.subrange(0, n as int));
        lemma_split_lines_nonempty(cs@.subrange(0, n as int));
        assert(cs@.subrange(0, n as int) =~= cs@);
        assert(all =~= all.drop_last().push(all.last()));
    }
    acc.result
}

/// The transcript as the language model reads it: one `[speaker] text` line
/// per segment.
pub open spec fn transcript_lines(segs: Seq<SegmentView>) -> Seq<char>
    decreases segs.len(),
{
    if segs.len() == 0 {
        Seq::empty()
    } else {
        transcript_lines(segs.drop_last()) + seq!['['] + segs.last().speaker + seq![']', ' ']
            + segs.last().text + seq!['\n']
    }
}

/// What `build_user_prompt` returns for the segments `segs`.
pub open spec fn user_prompt_spec(segs: Seq<SegmentView>) -> Seq<char> {
    "Please summarize the following meeting transcript:\n\n"@ + transcript_lines(segs)
        + "\n\nProvide your response in this exact format:\n## Summary\n[2-3 sentence overview of the meeting]\n\n## Key Points\n- [point 1]\n- [point 2]\n- [point 3]\n\n## Action Items\n- [ ] [action 1]\n- [ ] [action 2]"@
}

/// The request for a summary of `transcript`, in the layout that
/// `parse_summary` reads back.
pub fn build_user_prompt(transcript: &TranscriptionResult) -> (r: String)
    ensures
        r@ == user_prompt_spec(segs_view(transcript.segments@)),
{
    let segs = &transcript.segments;
    let mut lines = String::new();
    let mut i: usize = 0;
    while i < segs.len()
        invariant
            i <= segs@.len(),
            lines@ == transcript_lines(segs_view(segs@.subrange(0, i as int))),
        decreases segs@.len() - i,
    {
        let ghost before = lines@;
        push_char(&mut lines, '[');
        lines.append(segs[i].speaker.as_str());
        push_char(&mut lines, ']');
        push_char(&mut lines, ' ');
        lines.append(segs[i].text.as_str());
        push_char(&mut lines, '\n');
        proof {
            let prefix = segs_view(segs@.subrange(0, i + 1));
            assert(prefix.drop_last() =~= segs_view(segs@.subrange(0, i as int)));
            assert(prefix.last() == segs@[i as int]@);
            assert(lines@ =~= transcript_lines(prefix));
        }
        i = i + 1;
    }
    assert(segs@.subrange(0, segs@.len() as int) =~= segs@);
    let mut prompt = String::from_str("Please summarize the following meeting transcript:\n\n");
    prompt.append(lines.as_str());
    prompt.append(
        "\n\nProvide your response in this exact format:\n## Summary\n[2-3 sentence overview of the meeting]\n\n## Key Points\n- [point 1]\n- [point 2]\n- [point 3]\n\n## Action Items\n- [ ] [action 1]\n- [ ] [action 2]",
    );
    prompt
}

} // verus!
