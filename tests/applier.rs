use enkai::{parse_conflicts, ApplyError, ConflictHunk, ConflictedFile, Resolution};

#[test]
fn test_apply_resolutions() {
    let content = "line 1\n<<<<<<< HEAD\ncurrent\n=======\nincoming\n>>>>>>> branch\nline 2\n";
    let hunk = ConflictHunk::new("current".to_string(), "incoming".to_string(), 1, 5);
    let mut file = ConflictedFile::new("file.txt".to_string(), vec![hunk], content.to_string());

    file.set_resolution(0, Resolution::Current);

    let result = file.resolved_content();
    assert!(result.is_ok());

    let new_content = result.unwrap();
    assert!(new_content.contains("current"));
    assert!(!new_content.contains("incoming"));
    assert!(!new_content.contains("<<<<<<<"));
}

fn parsed(text: &str) -> ConflictedFile {
    parse_conflicts("f.txt".to_string(), text.to_string()).unwrap()
}

#[test]
fn round_trip_keeps_surrounding_lines() {
    let mut file = parsed("a\n<<<<<<< H\nX\n=======\nY\n>>>>>>> B\nb\n");
    file.set_resolution(0, Resolution::Current);
    assert_eq!(file.resolved_content().unwrap(), "a\nX\nb\n");
}

#[test]
fn round_trip_incoming_and_both() {
    let text = "a\n<<<<<<< H\nX\n=======\nY\n>>>>>>> B\nb\n";
    let mut file = parsed(text);
    file.set_resolution(0, Resolution::Incoming);
    assert_eq!(file.resolved_content().unwrap(), "a\nY\nb\n");
    file.set_resolution(0, Resolution::Both);
    assert_eq!(file.resolved_content().unwrap(), "a\nX\nY\nb\n");
}

#[test]
fn missing_trailing_newline_is_kept_missing() {
    let mut file = parsed("a\n<<<<<<< H\nX\n=======\nY\n>>>>>>> B\nb");
    file.set_resolution(0, Resolution::Incoming);
    assert_eq!(file.resolved_content().unwrap(), "a\nY\nb");
    let mut at_end = parsed("<<<<<<< H\nX\n=======\nY\n>>>>>>> B");
    at_end.set_resolution(0, Resolution::Current);
    assert_eq!(at_end.resolved_content().unwrap(), "X");
}

#[test]
fn several_conflicts_and_blank_lines() {
    let text = "one\n\n<<<<<<< H\nc1\n=======\ni1\n>>>>>>> B\nmid\n<<<<<<< H\nc2a\nc2b\n=======\n>>>>>>> B\n\nlast\n";
    let mut file = parsed(text);
    file.set_resolution(0, Resolution::Incoming);
    file.set_resolution(1, Resolution::Current);
    assert_eq!(file.resolved_content().unwrap(), "one\n\ni1\nmid\nc2a\nc2b\n\nlast\n");
    file.set_resolution(1, Resolution::Incoming);
    assert_eq!(file.resolved_content().unwrap(), "one\n\ni1\nmid\n\nlast\n");
}

#[test]
fn crlf_text_is_rebuilt_with_line_feeds() {
    let mut file = parsed("a\r\n<<<<<<< H\r\nX\r\n=======\r\nY\r\n>>>>>>> B\r\nb\r\n");
    file.set_resolution(0, Resolution::Current);
    assert_eq!(file.resolved_content().unwrap(), "a\nX\nb\n");
}

#[test]
fn unresolved_file_reports_counts() {
    let mut file = parsed("<<<<<<< H\nX\n=======\nY\n>>>>>>> B\n<<<<<<< H\nP\n=======\nQ\n>>>>>>> B\n");
    file.set_resolution(1, Resolution::Both);
    match file.resolved_content() {
        Err(ApplyError::NotFullyResolved { resolved, total }) => {
            assert_eq!(resolved, 1);
            assert_eq!(total, 2);
        }
        other => panic!("unexpected result: {:?}", other),
    }
}

#[test]
fn blank_tail_of_chosen_side_does_not_add_a_final_line_feed() {
    let mut file = parsed("<<<<<<< H\nX\n\n\n=======\nY\n>>>>>>> B");
    file.set_resolution(0, Resolution::Current);
    assert_eq!(file.conflicts[0].current, "X\n\n");
    assert_eq!(file.resolved_content().unwrap(), "X");
    let mut blank = parsed("a\n<<<<<<< H\n \n=======\n\n>>>>>>> B");
    blank.set_resolution(0, Resolution::Both);
    assert_eq!(blank.resolved_content().unwrap(), "a");
    let hunk = ConflictHunk::new(String::new(), String::new(), 1, 1);
    let mut built = ConflictedFile::new("f".to_string(), vec![hunk], "a\nb".to_string());
    built.set_resolution(0, Resolution::Both);
    assert_eq!(built.resolved_content().unwrap(), "a");
}

#[test]
fn blank_tail_is_kept_when_the_file_ends_with_a_line_feed() {
    let mut file = parsed("<<<<<<< H\nX\n\n\n=======\nY\n>>>>>>> B\n");
    file.set_resolution(0, Resolution::Current);
    assert_eq!(file.resolved_content().unwrap(), "X\n\n");
}

#[test]
fn resolved_file_drops_every_marker_line() {
    let text = "x\n<<<<<<< H\n=======\n>>>>>>> B\ny\n";
    let mut file = parsed(text);
    file.set_resolution(0, Resolution::Both);
    assert_eq!(file.resolved_content().unwrap(), "x\n\ny\n");
}
