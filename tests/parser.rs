use enkai::{parse_conflicts, ConflictedFile, MalformedKind, ParseError};

fn parse(content: &str) -> Result<ConflictedFile, ParseError> {
    parse_conflicts("conflicted.txt".to_string(), content.to_string())
}

#[test]
fn test_parse_simple_conflict() {
    let content = format!(
        "{}\n",
        "line 1\n<<<<<<< HEAD\ncurrent content\n=======\nincoming content\n>>>>>>> branch\nline 2"
    );
    let result = parse(&content);
    assert!(result.is_ok());

    let conflicted_file = result.unwrap();
    assert_eq!(conflicted_file.conflicts.len(), 1);
    assert_eq!(conflicted_file.conflicts[0].current, "current content");
    assert_eq!(conflicted_file.conflicts[0].incoming, "incoming content");
}

#[test]
fn test_parse_multiple_conflicts() {
    let content = format!(
        "{}\n",
        "<<<<<<< HEAD\nfirst current\n=======\nfirst incoming\n>>>>>>> branch\nmiddle\n<<<<<<< HEAD\nsecond current\n=======\nsecond incoming\n>>>>>>> branch"
    );
    let result = parse(&content);
    assert!(result.is_ok());

    let conflicted_file = result.unwrap();
    assert_eq!(conflicted_file.conflicts.len(), 2);
}

#[test]
fn test_parse_no_conflicts() {
    let content = format!("{}\n", "just normal content\nno conflicts here");
    let result = parse(&content);
    assert!(result.is_err());
}

#[test]
fn parse_records_marker_lines_in_file_order() {
    let text = "a\n<<<<<<< HEAD\nx1\nx2\n=======\ny\n>>>>>>> b\nmid\n<<<<<<< HEAD\n=======\nz\n>>>>>>> b\nend";
    let file = parse(text).unwrap();
    assert_eq!(file.conflicts.len(), 2);
    assert_eq!(file.conflicts[0].start_line, 1);
    assert_eq!(file.conflicts[0].end_line, 6);
    assert_eq!(file.conflicts[0].current, "x1\nx2");
    assert_eq!(file.conflicts[0].incoming, "y");
    assert_eq!(file.conflicts[1].start_line, 8);
    assert_eq!(file.conflicts[1].end_line, 11);
    assert_eq!(file.conflicts[1].current, "");
    assert_eq!(file.conflicts[1].incoming, "z");
    assert!(file.conflicts[0].end_line < file.conflicts[1].start_line);
    assert_eq!(file.resolutions, vec![None, None]);
    assert_eq!(file.original_content, text);
    assert_eq!(file.path, "conflicted.txt");
}

#[test]
fn parse_counts_three_regions() {
    let block = "<<<<<<< ours\nA\n=======\nB\n>>>>>>> theirs\n";
    let text = format!("top\n{}{}between\n{}", block, block, block);
    let file = parse(&text).unwrap();
    assert_eq!(file.conflicts.len(), 3);
    for h in &file.conflicts {
        assert!(h.start_line <= h.end_line);
    }
    assert!(file.is_well_formed());
}

#[test]
fn parse_missing_separator_reports_start_line() {
    let result = parse("ok\n<<<<<<< HEAD\nx\n>>>>>>> b\n");
    match result {
        Err(ParseError::MalformedConflict { kind, line }) => {
            assert_eq!(kind, MalformedKind::MissingSeparator);
            assert_eq!(line, 2);
        }
        _ => panic!("expected a missing separator"),
    }
}

#[test]
fn parse_missing_end_marker_reports_separator_line() {
    let result = parse("<<<<<<< HEAD\nx\ny\n=======\nz\n");
    match result {
        Err(ParseError::MalformedConflict { kind, line }) => {
            assert_eq!(kind, MalformedKind::MissingEndMarker);
            assert_eq!(line, 4);
        }
        _ => panic!("expected a missing end marker"),
    }
}

#[test]
fn parse_second_region_malformed_fails_whole_file() {
    let result = parse("<<<<<<< a\nx\n=======\ny\n>>>>>>> b\n<<<<<<< a\nq\n");
    assert_eq!(
        result.err(),
        Some(ParseError::MalformedConflict { kind: MalformedKind::MissingSeparator, line: 6 })
    );
}

#[test]
fn parse_empty_text_has_no_conflicts() {
    assert_eq!(parse("").err(), Some(ParseError::NoConflictsFound));
    assert_eq!(parse("=======\n>>>>>>> x\n").err(), Some(ParseError::NoConflictsFound));
}

#[test]
fn parse_handles_crlf_line_endings() {
    let file = parse("a\r\n<<<<<<< H\r\nleft\r\n=======\r\nright\r\n>>>>>>> B\r\n").unwrap();
    assert_eq!(file.conflicts[0].current, "left");
    assert_eq!(file.conflicts[0].incoming, "right");
    assert_eq!(file.conflicts[0].start_line, 1);
    assert_eq!(file.conflicts[0].end_line, 5);
}

#[test]
fn parse_markers_need_seven_characters() {
    let result = parse("<<<<<< short\nx\n=======\ny\n>>>>>>> b\n");
    assert_eq!(result.err(), Some(ParseError::NoConflictsFound));
}
