use enkai::status_view::{RightPanelView, StatusCommand, StatusKey, StatusView};
use enkai::{FileStatus, StatusChange};

fn files(n: usize) -> Vec<FileStatus> {
    (0..n)
        .map(|i| FileStatus {
            path: format!("f{}.txt", i),
            index_status: None,
            workdir_status: Some(StatusChange::Modified),
        })
        .collect()
}

fn ch(c: char) -> StatusKey {
    StatusKey::Char { c, ctrl: false }
}

#[test]
fn navigation_wraps_and_asks_for_the_diff() {
    let mut v = StatusView::new(files(3));
    assert_eq!(v.handle_key(StatusKey::Up), StatusCommand::LoadDiff);
    assert_eq!(v.selected_file_index, 2);
    assert_eq!(v.handle_key(ch('j')), StatusCommand::LoadDiff);
    assert_eq!(v.selected_file_index, 0);
    v.handle_key(StatusKey::Down);
    assert_eq!(v.selected_file_index, 1);
    v.set_diff("diff".to_string());
    v.handle_key(StatusKey::PageDown);
    assert_eq!(v.diff_scroll, 20);
    v.handle_key(ch('k'));
    assert_eq!(v.selected_file_index, 0);
    assert_eq!(v.diff_scroll, 0);
    assert_eq!(v.file_diff, None);
}

#[test]
fn empty_list_ignores_navigation() {
    let mut v = StatusView::new(vec![]);
    assert_eq!(v.handle_key(StatusKey::Down), StatusCommand::Nothing);
    assert_eq!(v.handle_key(ch('a')), StatusCommand::Nothing);
    assert_eq!(v.handle_key(StatusKey::Enter), StatusCommand::Nothing);
    assert_eq!(v.current_view, RightPanelView::Banner);
    assert_eq!(v.handle_key(ch('A')), StatusCommand::StageAll);
}

#[test]
fn diff_scrolling_saturates() {
    let mut v = StatusView::new(files(1));
    v.handle_key(StatusKey::Char { c: 'u', ctrl: true });
    assert_eq!(v.diff_scroll, 0);
    v.handle_key(StatusKey::Char { c: 'd', ctrl: true });
    assert_eq!(v.diff_scroll, 10);
    v.handle_key(StatusKey::Char { c: 'd', ctrl: false });
    assert_eq!(v.diff_scroll, 10);
    v.diff_scroll = usize::MAX - 5;
    v.handle_key(StatusKey::PageDown);
    assert_eq!(v.diff_scroll, usize::MAX);
    v.handle_key(StatusKey::PageUp);
    assert_eq!(v.diff_scroll, usize::MAX - 20);
}

#[test]
fn commit_dialog_edits_and_submits() {
    let mut v = StatusView::new(files(2));
    assert_eq!(v.handle_key(ch('c')), StatusCommand::Nothing);
    assert_eq!(v.current_view, RightPanelView::CommitModal);
    assert_eq!(v.handle_key(StatusKey::Enter), StatusCommand::Nothing);
    v.handle_key(ch('f'));
    v.handle_key(ch('i'));
    v.handle_key(ch('x'));
    v.handle_key(StatusKey::Backspace);
    v.handle_key(ch('q'));
    assert_eq!(v.commit_message, "fiq");
    assert_eq!(v.handle_key(StatusKey::Enter), StatusCommand::Commit);
    v.commit_failed("Commit failed: nothing staged".to_string());
    assert_eq!(v.current_view, RightPanelView::CommitModal);
    assert!(v.commit_error.is_some());
    v.commit_succeeded();
    assert_eq!(v.current_view, RightPanelView::Banner);
    assert_eq!(v.commit_message, "");
    assert_eq!(v.commit_error, None);
}

#[test]
fn escape_closes_dialog_and_content() {
    let mut v = StatusView::new(files(2));
    v.handle_key(ch('c'));
    v.handle_key(ch('z'));
    v.handle_key(StatusKey::Esc);
    assert_eq!(v.current_view, RightPanelView::Banner);
    assert_eq!(v.commit_message, "");
    assert_eq!(v.handle_key(StatusKey::Enter), StatusCommand::LoadContent);
    v.set_file_content("body".to_string());
    assert_eq!(v.current_view, RightPanelView::FileContent);
    v.handle_key(StatusKey::Esc);
    assert_eq!(v.file_content, None);
    assert_eq!(v.handle_key(ch('q')), StatusCommand::Quit);
}

#[test]
fn index_commands_and_refresh() {
    let mut v = StatusView::new(files(3));
    assert_eq!(v.handle_key(ch('a')), StatusCommand::Stage);
    assert_eq!(v.handle_key(ch('s')), StatusCommand::Unstage);
    assert_eq!(v.handle_key(ch('r')), StatusCommand::Restore);
    assert_eq!(v.handle_key(ch('S')), StatusCommand::UnstageAll);
    assert_eq!(v.handle_key(ch('R')), StatusCommand::RestoreAll);
    v.handle_key(StatusKey::Up);
    assert_eq!(v.selected_file().unwrap().path, "f2.txt");
    v.replace_files(files(1));
    assert_eq!(v.selected_file_index, 0);
    v.replace_files(vec![]);
    assert!(v.selected_file().is_none());
}
