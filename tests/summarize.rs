use meeting_recorder::summarize::{build_user_prompt, parse_summary, strip_thinking_blocks};
use meeting_recorder::transcript::{TranscriptSegment, TranscriptionResult};

#[test]
fn test_parse_summary_basic() {
    let output = "## Summary\nThis was a productive meeting about the project.\n\n## Key Points\n- Discussed timeline\n- Reviewed budget\n- Assigned tasks\n\n## Action Items\n- [ ] Send follow-up email\n- [ ] Schedule next meeting\n";

    let result = parse_summary(output);

    assert_eq!(result.summary, "This was a productive meeting about the project.");
    assert_eq!(result.key_points.len(), 3);
    assert_eq!(result.key_points[0], "Discussed timeline");
    assert_eq!(result.action_items.len(), 2);
    assert_eq!(result.action_items[0], "Send follow-up email");
}

#[test]
fn test_parse_summary_empty() {
    let output = "";
    let result = parse_summary(output);

    assert!(result.summary.is_empty());
    assert!(result.key_points.is_empty());
    assert!(result.action_items.is_empty());
}

#[test]
fn test_strip_thinking_blocks() {
    let input = "<think>Let me think about this...</think>## Summary\nHere is the summary.";
    let result = strip_thinking_blocks(input);
    assert_eq!(result, "## Summary\nHere is the summary.");
}

#[test]
fn test_parse_summary_with_thinking() {
    let output = "<think>\nI should analyze this transcript carefully.\n</think>\n## Summary\nThis was a productive meeting.\n\n## Key Points\n- Point one\n\n## Action Items\n- [ ] Do something\n";

    let result = parse_summary(output);
    assert_eq!(result.summary, "This was a productive meeting.");
    assert_eq!(result.key_points.len(), 1);
    assert_eq!(result.action_items.len(), 1);
}

#[test]
fn strip_keeps_other_tags_and_unclosed_text() {
    assert_eq!(strip_thinking_blocks("a <b>c</b> d"), "a <b>c</b> d");
    assert_eq!(strip_thinking_blocks("x<think>hidden<i>more</think>y"), "xy");
    assert_eq!(strip_thinking_blocks("tail <unclosed"), "tail <unclosed");
    assert_eq!(strip_thinking_blocks("<think>never closed"), "");
}

#[test]
fn parse_summary_markers_and_headings() {
    let output = "intro ignored\n  ## Summary  \r\n first line \nsecond line\n## Key Points\n* starred\nplain point\n# heading skipped\n## Action Items\n- [x] done item\n- - nested\n* star item\n#not an item\n- [ ] \n";
    let r = parse_summary(output);
    assert_eq!(r.summary, "first line second line");
    assert_eq!(r.key_points, vec!["starred".to_string(), "plain point".to_string()]);
    assert_eq!(
        r.action_items,
        vec![
            "done item".to_string(),
            "nested".to_string(),
            "star item".to_string(),
            "[ ]".to_string()
        ]
    );
}

#[test]
fn user_prompt_lists_segments() {
    let t = TranscriptionResult {
        segments: vec![
            TranscriptSegment {
                id: "seg_0".to_string(),
                text: "Hello".to_string(),
                start_time: 0,
                end_time: 100,
                speaker: "Me".to_string(),
            },
            TranscriptSegment {
                id: "seg_1".to_string(),
                text: "Hi".to_string(),
                start_time: 100,
                end_time: 200,
                speaker: "Meeting".to_string(),
            },
        ],
        full_text: "Hello Hi".to_string(),
        duration: 200,
    };
    let p = build_user_prompt(&t);
    assert!(p.starts_with("Please summarize the following meeting transcript:\n\n[Me] Hello\n[Meeting] Hi\n\n\nProvide your response"));
    assert!(p.ends_with("- [ ] [action 2]"));
    let back = parse_summary("## Summary\nok\n## Key Points\n- a\n## Action Items\n- [ ] b");
    assert_eq!(back.summary, "ok");
}
