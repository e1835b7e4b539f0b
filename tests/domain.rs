use enkai::{ConflictHunk, ConflictedFile, GitOperation, Resolution};

fn hunk(current: &str, incoming: &str) -> ConflictHunk {
    ConflictHunk::new(current.to_string(), incoming.to_string(), 0, 4)
}

#[test]
fn resolve_picks_each_side() {
    let h = hunk("  left \n", "\tright");
    assert_eq!(h.resolve(Resolution::Current), "  left \n");
    assert_eq!(h.resolve(Resolution::Incoming), "\tright");
}

#[test]
fn resolve_both_trims_each_side() {
    let h = hunk("\n  left side \n\n", " \t right\n");
    assert_eq!(h.resolve(Resolution::Both), "left side\nright");
    let plain = hunk("left side", "right");
    assert_eq!(plain.resolve(Resolution::Both), "left side\nright");
    let blank = hunk("   ", "\n");
    assert_eq!(blank.resolve(Resolution::Both), "\n");
}

#[test]
fn resolve_both_keeps_inner_whitespace() {
    let h = hunk(" a\n\n b ", "\u{3000}c  d\u{2028}");
    assert_eq!(h.resolve(Resolution::Both), "a\n\n b\nc  d");
}

#[test]
fn resolve_both_agrees_with_std_trim() {
    let samples = ["", " ", "x", " x ", "\u{85}x\u{a0}", "\u{200b}x", "a b\r\n", "\u{1680}\u{205f}y"];
    for cur in samples.iter() {
        for inc in samples.iter() {
            let h = hunk(cur, inc);
            let expected = format!("{}\n{}", cur.trim(), inc.trim());
            assert_eq!(h.resolve(Resolution::Both), expected);
        }
    }
}

fn file_with(n: usize) -> ConflictedFile {
    let hunks = (0..n)
        .map(|i| ConflictHunk::new("c".to_string(), "i".to_string(), 5 * i, 5 * i + 4))
        .collect();
    ConflictedFile::new("src/lib.rs".to_string(), hunks, String::new())
}

#[test]
fn set_resolution_until_fully_resolved() {
    let mut f = file_with(3);
    assert!(!f.is_fully_resolved());
    assert_eq!(f.resolved_count(), 0);
    assert_eq!(f.total_conflicts(), 3);
    f.set_resolution(0, Resolution::Current);
    assert!(!f.is_fully_resolved());
    f.set_resolution(2, Resolution::Both);
    assert!(!f.is_fully_resolved());
    assert_eq!(f.resolved_count(), 2);
    f.set_resolution(1, Resolution::Incoming);
    assert!(f.is_fully_resolved());
    assert_eq!(f.resolved_count(), 3);
}

#[test]
fn clear_resolution_reverts_one_slot() {
    let mut f = file_with(3);
    f.set_resolution(0, Resolution::Current);
    f.set_resolution(1, Resolution::Incoming);
    f.set_resolution(2, Resolution::Both);
    f.clear_resolution(1);
    assert_eq!(
        f.resolutions,
        vec![Some(Resolution::Current), None, Some(Resolution::Both)]
    );
    assert!(!f.is_fully_resolved());
}

#[test]
fn out_of_range_slots_are_ignored() {
    let mut f = file_with(2);
    f.set_resolution(2, Resolution::Current);
    f.set_resolution(usize::MAX, Resolution::Both);
    f.clear_resolution(7);
    assert_eq!(f.resolutions, vec![None, None]);
}

#[test]
fn empty_file_is_fully_resolved() {
    let f = file_with(0);
    assert!(f.is_fully_resolved());
    assert_eq!(f.resolved_count(), 0);
}

#[test]
fn file_name_is_last_component() {
    assert_eq!(file_with(1).file_name(), "lib.rs");
    let f = ConflictedFile::new("/tmp/work/notes.md".to_string(), vec![], String::new());
    assert_eq!(f.file_name(), "notes.md");
    assert_eq!(f.path_string(), "/tmp/work/notes.md");
    let root = ConflictedFile::new("/".to_string(), vec![], String::new());
    assert_eq!(root.file_name(), "Unknown");
    let up = ConflictedFile::new("a/..".to_string(), vec![], String::new());
    assert_eq!(up.file_name(), "Unknown");
}

#[test]
fn labels() {
    assert_eq!(Resolution::Current.as_str(), "Current (HEAD)");
    assert_eq!(Resolution::Incoming.as_str(), "Incoming");
    assert_eq!(Resolution::Both.as_str(), "Both");
    assert_eq!(GitOperation::Merge.as_str(), "Merge");
    assert_eq!(GitOperation::Rebase.as_str(), "Rebase");
    assert_eq!(GitOperation::RebaseInteractive.as_str(), "Interactive Rebase");
}

#[test]
fn operation_kinds() {
    assert!(!GitOperation::Merge.is_rebase());
    assert!(GitOperation::Rebase.is_rebase());
    assert!(GitOperation::RebaseInteractive.is_rebase());
    assert!(!GitOperation::Rebase.is_interactive_rebase());
    assert!(GitOperation::RebaseInteractive.is_interactive_rebase());
}

#[test]
fn well_formedness_check() {
    let text = "a\nb\nc\nd\ne\n";
    let ok = ConflictedFile::new(
        "f".to_string(),
        vec![ConflictHunk::new(String::new(), String::new(), 1, 4)],
        text.to_string(),
    );
    assert!(ok.is_well_formed());
    let past_end = ConflictedFile::new(
        "f".to_string(),
        vec![ConflictHunk::new(String::new(), String::new(), 1, 5)],
        text.to_string(),
    );
    assert!(!past_end.is_well_formed());
    let overlapping = ConflictedFile::new(
        "f".to_string(),
        vec![
            ConflictHunk::new(String::new(), String::new(), 0, 2),
            ConflictHunk::new(String::new(), String::new(), 2, 3),
        ],
        text.to_string(),
    );
    assert!(!overlapping.is_well_formed());
}
