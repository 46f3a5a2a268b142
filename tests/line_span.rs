use markdown_frontmatter::lines::LineSpan;

#[test]
fn line_span() {
    let input = "line 1\r\nline 2\nline 3";
    let mut lines = LineSpan::new(input);

    let line1 = lines.next().unwrap();
    assert_eq!(line1.line, "line 1");
    assert_eq!(line1.start, 0);
    assert_eq!(line1.next_start, 8);

    let line2 = lines.next().unwrap();
    assert_eq!(line2.line, "line 2");
    assert_eq!(line2.start, 8);
    assert_eq!(line2.next_start, 15);

    let line3 = lines.next().unwrap();
    assert_eq!(line3.line, "line 3");
    assert_eq!(line3.start, 15);
    assert_eq!(line3.next_start, 21);

    assert!(lines.next().is_none());
}

#[test]
fn line_span_of_empty_text_yields_nothing() {
    let mut lines = LineSpan::new("");
    assert!(lines.next().is_none());
}

#[test]
fn line_span_of_lone_terminator() {
    for terminator in ["\n", "\r", "\r\n"] {
        let mut lines = LineSpan::new(terminator);
        let span = lines.next().unwrap();
        assert_eq!(span.line, "");
        assert_eq!(span.start, 0);
        assert_eq!(span.next_start, terminator.len());
        assert!(lines.next().is_none());
    }
}

#[test]
fn line_span_lone_cr_then_lf_pairs() {
    let input = "a\rb\n\rc\r\n";
    let mut lines = LineSpan::new(input);
    let expected = [("a", 0, 2), ("b", 2, 4), ("", 4, 5), ("c", 5, 8)];
    for (text, start, next_start) in expected {
        let span = lines.next().unwrap();
        assert_eq!(span.line, text);
        assert_eq!(span.start, start);
        assert_eq!(span.next_start, next_start);
    }
    assert!(lines.next().is_none());
}

#[test]
fn line_span_keeps_multibyte_text() {
    let input = "é\nß✓";
    let mut lines = LineSpan::new(input);
    let first = lines.next().unwrap();
    assert_eq!(first.line, "é");
    assert_eq!(first.next_start, 3);
    let second = lines.next().unwrap();
    assert_eq!(second.line, "ß✓");
    assert_eq!(second.start, 3);
    assert_eq!(second.next_start, input.len());
    assert!(lines.next().is_none());
}
