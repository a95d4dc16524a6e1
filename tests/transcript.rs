use meeting_recorder::transcript::{merge_segments, TranscriptSegment};

fn make_segment(id: &str, text: &str, start: u64, end: u64, speaker: &str) -> TranscriptSegment {
    TranscriptSegment {
        id: id.to_string(),
        text: text.to_string(),
        start_time: start,
        end_time: end,
        speaker: speaker.to_string(),
    }
}

#[test]
fn test_merge_segments_empty() {
    let mut meeting: Vec<TranscriptSegment> = vec![];
    let mut me: Vec<TranscriptSegment> = vec![];
    let (segments, full_text, duration) = merge_segments(&mut meeting, &mut me);

    assert!(segments.is_empty());
    assert!(full_text.is_empty());
    assert_eq!(duration, 0);
}

#[test]
fn test_merge_segments_single_source() {
    let mut meeting = vec![
        make_segment("", "Hello", 0, 100, "Meeting"),
        make_segment("", "World", 200, 300, "Meeting"),
    ];
    let mut me: Vec<TranscriptSegment> = vec![];
    let (segments, full_text, duration) = merge_segments(&mut meeting, &mut me);

    assert_eq!(segments.len(), 2);
    assert_eq!(segments[0].id, "seg_0");
    assert_eq!(segments[1].id, "seg_1");
    assert_eq!(full_text, "Hello World");
    assert_eq!(duration, 300);
}

#[test]
fn test_merge_segments_chronological() {
    let mut meeting = vec![
        make_segment("", "First", 0, 100, "Meeting"),
        make_segment("", "Third", 400, 500, "Meeting"),
    ];
    let mut me = vec![
        make_segment("", "Second", 200, 300, "Me"),
        make_segment("", "Fourth", 600, 700, "Me"),
    ];
    let (segments, full_text, _) = merge_segments(&mut meeting, &mut me);

    assert_eq!(segments.len(), 4);
    assert_eq!(segments[0].text, "First");
    assert_eq!(segments[0].speaker, "Meeting");
    assert_eq!(segments[1].text, "Second");
    assert_eq!(segments[1].speaker, "Me");
    assert_eq!(segments[2].text, "Third");
    assert_eq!(segments[3].text, "Fourth");

    assert_eq!(segments[0].id, "seg_0");
    assert_eq!(segments[1].id, "seg_1");
    assert_eq!(segments[2].id, "seg_2");
    assert_eq!(segments[3].id, "seg_3");

    assert_eq!(full_text, "First Second Third Fourth");
}

#[test]
fn test_merge_segments_overlapping() {
    let mut meeting = vec![make_segment("", "Meeting overlap", 100, 300, "Meeting")];
    let mut me = vec![make_segment("", "Me overlap", 150, 250, "Me")];
    let (segments, _, _) = merge_segments(&mut meeting, &mut me);

    assert_eq!(segments.len(), 2);
    assert_eq!(segments[0].speaker, "Meeting");
    assert_eq!(segments[1].speaker, "Me");
}

#[test]
fn merge_two_channels_scenario() {
    let mut a = vec![make_segment("x", "hi", 0, 100, "Meeting")];
    let mut b = vec![make_segment("y", "there", 50, 150, "Me")];
    let (segments, full_text, duration) = merge_segments(&mut a, &mut b);
    assert_eq!(segments.len(), 2);
    assert_eq!(segments[0].text, "hi");
    assert_eq!(segments[0].id, "seg_0");
    assert_eq!(segments[1].text, "there");
    assert_eq!(segments[1].id, "seg_1");
    assert_eq!(full_text, "hi there");
    assert_eq!(duration, 150);
    assert!(a.is_empty());
    assert!(b.is_empty());
}

#[test]
fn merge_ties_keep_channel_order() {
    let mut a = vec![make_segment("", "a1", 100, 200, "Meeting"), make_segment("", "a2", 100, 150, "Meeting")];
    let mut b = vec![make_segment("", "b1", 100, 120, "Me"), make_segment("", "b0", 50, 60, "Me")];
    let (segments, full_text, duration) = merge_segments(&mut a, &mut b);
    let texts: Vec<&str> = segments.iter().map(|s| s.text.as_str()).collect();
    assert_eq!(texts, vec!["b0", "a1", "a2", "b1"]);
    assert_eq!(full_text, "b0 a1 a2 b1");
    assert_eq!(duration, 200);
}

#[test]
fn merge_is_sorted_and_complete() {
    let mut a: Vec<TranscriptSegment> = (0..7)
        .map(|i| make_segment("old", &format!("a{}", i), (i * 37 % 11) as u64, 1000 + i as u64, "Meeting"))
        .collect();
    let mut b: Vec<TranscriptSegment> = (0..5)
        .map(|i| make_segment("old", &format!("b{}", i), (i * 5 % 7) as u64, 10, "Me"))
        .collect();
    let (segments, _, duration) = merge_segments(&mut a, &mut b);
    assert_eq!(segments.len(), 12);
    for w in segments.windows(2) {
        assert!(w[0].start_time <= w[1].start_time);
    }
    for (k, s) in segments.iter().enumerate() {
        assert_eq!(s.id, format!("seg_{}", k));
    }
    assert_eq!(segments[10].id, "seg_10");
    assert_eq!(duration, 1006);
}
