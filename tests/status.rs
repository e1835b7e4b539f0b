use enkai::{detect_git_operation, temp_file_name, FileStatus, FileStatusType, GitOperation, StatusChange, StatusFlags};

fn flags() -> StatusFlags {
    StatusFlags {
        conflicted: false,
        index_new: false,
        index_modified: false,
        index_deleted: false,
        index_renamed: false,
        wt_new: false,
        wt_modified: false,
        wt_deleted: false,
        wt_renamed: false,
    }
}

#[test]
fn index_and_workdir_changes() {
    let f = StatusFlags { conflicted: true, index_new: true, wt_modified: true, ..flags() };
    assert_eq!(StatusChange::of_index(f), Some(StatusChange::Conflicted));
    assert_eq!(StatusChange::of_workdir(f), Some(StatusChange::Modified));
    let g = StatusFlags { index_deleted: true, index_modified: true, wt_new: true, wt_deleted: true, ..flags() };
    assert_eq!(StatusChange::of_index(g), Some(StatusChange::Deleted));
    assert_eq!(StatusChange::of_workdir(g), Some(StatusChange::Untracked));
    assert_eq!(StatusChange::of_index(flags()), None);
}

#[test]
fn file_status_from_flags() {
    assert!(FileStatus::from_flags("a".to_string(), flags()).is_none());
    let s = FileStatus::from_flags("a".to_string(), StatusFlags { index_renamed: true, ..flags() }).unwrap();
    assert_eq!(s.path, "a");
    assert_eq!(s.display_status(), "R ");
    assert!(s.is_staged());
    assert!(!s.is_modified_in_workdir());
    assert!(!s.is_conflicted());
    let c = FileStatus::from_flags("b".to_string(), StatusFlags { conflicted: true, wt_deleted: true, ..flags() }).unwrap();
    assert_eq!(c.display_status(), "CD");
    assert!(c.is_conflicted());
    let w = FileStatus { path: "c".to_string(), index_status: None, workdir_status: Some(StatusChange::Untracked) };
    assert_eq!(w.display_status(), " ?");
}

#[test]
fn icons_and_colors() {
    assert_eq!(StatusChange::Added.icon(), "A");
    assert_eq!(StatusChange::Untracked.icon(), "?");
    assert_eq!(FileStatusType::Renamed.icon(), "R");
    assert_eq!(FileStatusType::Conflicted.color(), "\x1b[35m");
    assert_eq!(FileStatusType::Modified.color(), "\x1b[33m");
}

#[test]
fn operation_detection() {
    assert_eq!(detect_git_operation(true, false, true, true), Some(GitOperation::RebaseInteractive));
    assert_eq!(detect_git_operation(false, true, false, true), Some(GitOperation::Rebase));
    assert_eq!(detect_git_operation(false, false, false, true), Some(GitOperation::Merge));
    assert_eq!(detect_git_operation(false, false, true, false), None);
}

#[test]
fn temp_file_name_pattern() {
    assert_eq!(temp_file_name("main.rs"), ".main.rs.enkai.tmp");
}
