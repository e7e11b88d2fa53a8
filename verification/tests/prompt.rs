use sg_agent::prompt::{is_kw, is_kw_with_args, parse, Prompt, Segment, SegmentKind};

#[test]
fn test_prompt() {
    let prompt = Prompt::from("test @test @selected test".to_string());
    let r = prompt.as_string();
    assert_eq!(prompt.segments.len(), 5);
    assert_eq!("test @test @selected test".to_string(), r);
}

#[test]
fn test_parse() {
    let input = "@test @selected test";
    let r = parse(input);
    assert_eq!(
        r,
        vec![
            Segment::new(0, 4, SegmentKind::File),
            Segment::new(5, 5, SegmentKind::Text),
            Segment::new(6, 14, SegmentKind::Selected),
            Segment::new(15, 19, SegmentKind::Text),
        ]
    )
}

#[test]
fn parse_empty_prompt_has_no_segments() {
    assert_eq!(parse(""), vec![]);
}

#[test]
fn parse_selected_needs_whitespace_after_keyword() {
    // "@selectedx" is a file mention, "@selected" at the end is the keyword
    assert_eq!(parse("@selectedx"), vec![Segment::new(0, 9, SegmentKind::File)]);
    assert_eq!(parse("a @selected"), vec![
        Segment::new(0, 1, SegmentKind::Text),
        Segment::new(2, 10, SegmentKind::Selected),
    ]);
    assert_eq!(parse("@selected\tx"), vec![
        Segment::new(0, 8, SegmentKind::Selected),
        Segment::new(9, 10, SegmentKind::Text),
    ]);
}

#[test]
fn parse_uses_byte_offsets() {
    // 'é' is two bytes; the text segment's end is where its last char starts
    let r = parse("é @a");
    assert_eq!(r, vec![
        Segment::new(0, 2, SegmentKind::Text),
        Segment::new(3, 4, SegmentKind::File),
    ]);
}

#[test]
fn parse_refuses_symbol_and_hash() {
    assert!(Prompt::checked_from("@s:foo".to_string()).is_none());
    assert!(Prompt::checked_from("look @symbol:x".to_string()).is_none());
    assert!(Prompt::checked_from("#tag".to_string()).is_none());
    assert!(Prompt::checked_from("a #b".to_string()).is_none());
    // inside a mention a '#' is fine
    let p = Prompt::checked_from("@a#b c".to_string()).unwrap();
    assert_eq!(p.segments, vec![
        Segment::new(0, 3, SegmentKind::File),
        Segment::new(4, 5, SegmentKind::Text),
    ]);
}

#[test]
fn checked_from_agrees_with_from() {
    let p = Prompt::checked_from("test @test @selected test".to_string()).unwrap();
    let q = Prompt::from("test @test @selected test".to_string());
    assert_eq!(p.segments, q.segments);
    assert_eq!(p.raw, q.raw);
}

#[test]
fn expand_replaces_mentions_and_adds_spaces() {
    let p = Prompt::from("fix @main.rs @selected now".to_string());
    assert!(p.text_segments_fit());
    assert_eq!(p.expand(), "fix  file   selected  now ".to_string());
}

#[test]
fn segment_expand_and_prefix_len() {
    let s = Segment::new(0, 3, SegmentKind::Text);
    assert_eq!(s.expand("abcdef"), "abcd");
    assert_eq!(Segment::new(0, 0, SegmentKind::File).expand("x"), "file");
    assert_eq!(Segment::new(0, 0, SegmentKind::Lsp).expand("x"), "lsp");
    assert_eq!(Segment::new(0, 0, SegmentKind::Selected).expand("x"), "selected");
    assert_eq!(Segment::new(0, 0, SegmentKind::Text).prefix_len(), 0);
    assert_eq!(Segment::new(0, 0, SegmentKind::File).prefix_len(), 1);
    assert_eq!(Segment::new(0, 0, SegmentKind::Lsp).prefix_len(), 2);
    assert_eq!(Segment::new(0, 0, SegmentKind::Selected).prefix_len(), 1);
}

#[test]
fn fits_in_checks_char_boundaries() {
    assert!(Segment::new(0, 0, SegmentKind::Text).fits_in("ab"));
    // 'é' starts at 0 and is two bytes: byte 1 is inside it
    assert!(!Segment::new(0, 0, SegmentKind::Text).fits_in("é"));
    assert!(Segment::new(0, 1, SegmentKind::Text).fits_in("é"));
    assert!(!Segment::new(0, 5, SegmentKind::Text).fits_in("ab"));
    let p = Prompt::from("é".to_string());
    assert!(!p.text_segments_fit());
}

#[test]
fn round_trip_law_on_values() {
    for s in ["hello @a.rs world", "@x", "  @selected  ", "a@b@c", "x @selected\ny"] {
        let p = Prompt::from(s.to_string());
        assert_eq!(p.as_string(), s.to_string());
    }
}

#[test]
fn tiling_law_on_values() {
    let s = "ab @c @selected d";
    let segs = parse(s);
    assert_eq!(segs[0].start, 0);
    for w in segs.windows(2) {
        assert_eq!(w[0].end + 1, w[1].start);
    }
    assert_eq!(segs.last().unwrap().end, s.len() - 1);
}

#[test]
fn is_kw_cases() {
    assert!(is_kw("@selected", "@selected"));
    assert!(is_kw("@selected more", "@selected"));
    assert!(!is_kw("@selectedmore", "@selected"));
    assert!(!is_kw("@sel", "@selected"));
    assert!(!is_kw_with_args("@selected x", "@selected"));
}

#[test]
fn plain_text_expands_to_itself_and_a_space() {
    assert_eq!(Prompt::from("just some words".to_string()).expand(), "just some words ");
    assert_eq!(Prompt::from("héllo wörld".to_string()).expand(), "héllo wörld ");
    assert_eq!(Prompt::from(String::new()).expand(), "");
}

#[test]
fn prefix_len_counts_the_leading_sigil() {
    let raw = "see @a.rs and @selected now";
    for seg in parse(raw) {
        let n = seg.prefix_len();
        assert!(seg.start + n <= seg.end + 1);
        assert!(raw.as_bytes()[seg.start..seg.start + n].iter().all(|b| *b == b'@'));
        match seg.kind {
            SegmentKind::Text => assert_eq!(n, 0),
            _ => assert_eq!(n, 1),
        }
    }
}
