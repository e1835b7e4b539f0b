use enkai::{
    action_for, parse_conflicts, Action, AppState, Command, ConflictedFile, GitOperation, Key,
    PaneFocus, Resolution, ViewMode,
};

fn file(name: &str, conflicts: usize) -> ConflictedFile {
    let mut text = String::new();
    for i in 0..conflicts {
        text.push_str(&format!("<<<<<<< H\nc{}\n=======\ni{}\n>>>>>>> B\n", i, i));
    }
    parse_conflicts(name.to_string(), text).unwrap()
}

fn state(op: GitOperation) -> AppState {
    AppState::new(vec![file("a.txt", 2), file("b.txt", 3), file("c.txt", 1)], op)
}

#[test]
fn initial_state() {
    let s = state(GitOperation::Merge);
    assert_eq!(s.view_mode, ViewMode::SplitPane { conflict_index: 0 });
    assert_eq!(s.focus, PaneFocus::FileList);
    assert_eq!(s.selected_file, 0);
    assert_eq!(s.scroll_offset, 0);
    assert!(!s.should_quit);
    assert_eq!(s.current_conflict_index(), Some(0));
    assert_eq!(s.current_file().unwrap().path, "a.txt");
}

#[test]
fn selection_clamps_at_both_ends() {
    let mut s = state(GitOperation::Merge);
    s.move_selection_up();
    assert_eq!(s.selected_file, 0);
    s.move_selection_down();
    s.move_selection_down();
    assert_eq!(s.selected_file, 2);
    s.move_selection_down();
    assert_eq!(s.selected_file, 2);
    s.move_selection_up();
    assert_eq!(s.selected_file, 1);
}

#[test]
fn selection_on_empty_list_stays_put() {
    let mut s = AppState::new(vec![], GitOperation::Merge);
    s.move_selection_down();
    s.move_selection_up();
    assert_eq!(s.selected_file, 0);
    assert!(s.current_file().is_none());
}

#[test]
fn changing_file_resets_conflict_and_scroll() {
    let mut s = state(GitOperation::Merge);
    s.move_selection_down();
    s.toggle_focus();
    s.next_conflict();
    s.next_conflict();
    s.scroll_down(15);
    assert_eq!(s.current_conflict_index(), Some(2));
    assert_eq!(s.scroll_offset, 15);
    s.toggle_focus();
    s.move_selection_down();
    assert_eq!(s.selected_file, 2);
    assert_eq!(s.view_mode, ViewMode::SplitPane { conflict_index: 0 });
    assert_eq!(s.scroll_offset, 0);
}

#[test]
fn selection_keys_ignored_in_code_view() {
    let mut s = state(GitOperation::Merge);
    s.toggle_focus();
    s.move_selection_down();
    assert_eq!(s.selected_file, 0);
}

#[test]
fn conflict_navigation_clamps() {
    let mut s = state(GitOperation::Merge);
    s.next_conflict();
    assert_eq!(s.current_conflict_index(), Some(0));
    s.toggle_focus();
    s.previous_conflict();
    assert_eq!(s.current_conflict_index(), Some(0));
    s.next_conflict();
    s.next_conflict();
    assert_eq!(s.current_conflict_index(), Some(1));
    s.previous_conflict();
    assert_eq!(s.current_conflict_index(), Some(0));
}

#[test]
fn scrolling_saturates() {
    let mut s = state(GitOperation::Merge);
    s.scroll_up(3);
    assert_eq!(s.scroll_offset, 0);
    s.scroll_down(u16::MAX - 1);
    s.scroll_down(20);
    assert_eq!(s.scroll_offset, u16::MAX);
    s.scroll_up(10);
    assert_eq!(s.scroll_offset, u16::MAX - 10);
    s.reset_scroll();
    assert_eq!(s.scroll_offset, 0);
}

#[test]
fn resolutions_need_code_view() {
    let mut s = state(GitOperation::Merge);
    s.set_current_resolution(Resolution::Current);
    assert_eq!(s.files[0].resolved_count(), 0);
    s.open_selected_file();
    assert_eq!(s.focus, PaneFocus::CodeView);
    s.set_current_resolution(Resolution::Current);
    s.next_conflict();
    s.set_current_resolution(Resolution::Both);
    assert!(s.files[0].is_fully_resolved());
    s.clear_current_resolution();
    assert_eq!(s.files[0].resolutions, vec![Some(Resolution::Current), None]);
    assert_eq!(s.files[1].resolved_count(), 0);
}

#[test]
fn rebase_actions_only_when_rebase_fully_resolved() {
    let mut s = AppState::new(vec![file("a.txt", 1)], GitOperation::Rebase);
    s.go_to_rebase_actions();
    assert_eq!(s.view_mode, ViewMode::SplitPane { conflict_index: 0 });
    s.toggle_focus();
    s.set_current_resolution(Resolution::Incoming);
    assert!(s.all_files_resolved());
    s.go_to_rebase_actions();
    assert_eq!(s.view_mode, ViewMode::RebaseActions);
    assert!(s.current_file().is_none());
    assert_eq!(s.current_conflict_index(), None);
    s.back_to_file_list();
    assert_eq!(s.view_mode, ViewMode::SplitPane { conflict_index: 0 });
    assert_eq!(s.focus, PaneFocus::FileList);

    let mut m = AppState::new(vec![file("a.txt", 1)], GitOperation::Merge);
    m.toggle_focus();
    m.set_current_resolution(Resolution::Incoming);
    m.go_to_rebase_actions();
    assert_eq!(m.view_mode, ViewMode::SplitPane { conflict_index: 0 });
}

#[test]
fn keymap_per_mode() {
    let split = ViewMode::SplitPane { conflict_index: 0 };
    assert_eq!(action_for(split, PaneFocus::FileList, Key::Char('j')), Action::SelectNext);
    assert_eq!(action_for(split, PaneFocus::FileList, Key::Esc), Action::Quit);
    assert_eq!(action_for(split, PaneFocus::FileList, Key::Char('c')), Action::Ignore);
    assert_eq!(action_for(split, PaneFocus::CodeView, Key::Char('j')), Action::NextConflict);
    assert_eq!(action_for(split, PaneFocus::CodeView, Key::Esc), Action::BackToFiles);
    assert_eq!(
        action_for(split, PaneFocus::CodeView, Key::Char('b')),
        Action::Resolve(Resolution::Both)
    );
    assert_eq!(action_for(split, PaneFocus::CodeView, Key::HalfPageDown), Action::ScrollDown(10));
    assert_eq!(action_for(split, PaneFocus::CodeView, Key::PageUp), Action::ScrollUp(20));
    let rebase = ViewMode::RebaseActions;
    assert_eq!(action_for(rebase, PaneFocus::CodeView, Key::Char('c')), Action::ContinueRebase);
    assert_eq!(action_for(rebase, PaneFocus::FileList, Key::Char('a')), Action::AbortRebase);
    assert_eq!(action_for(rebase, PaneFocus::FileList, Key::Char('s')), Action::SkipRebase);
    assert_eq!(action_for(rebase, PaneFocus::FileList, Key::Char('j')), Action::Ignore);
}

#[test]
fn save_is_asked_only_when_file_resolved() {
    let mut s = AppState::new(vec![file("a.txt", 2)], GitOperation::RebaseInteractive);
    assert_eq!(s.handle_key(Key::Tab), Command::Nothing);
    assert_eq!(s.handle_key(Key::Char('c')), Command::Nothing);
    assert_eq!(s.handle_key(Key::Char('s')), Command::Nothing);
    s.handle_key(Key::Down);
    s.handle_key(Key::Char('i'));
    assert_eq!(s.handle_key(Key::Char('s')), Command::SaveCurrentFile);
    s.go_to_rebase_actions();
    assert_eq!(s.view_mode, ViewMode::RebaseActions);
    assert_eq!(s.handle_key(Key::Char('c')), Command::ContinueRebase);
    assert_eq!(s.handle_key(Key::Char('q')), Command::Nothing);
    assert!(s.should_quit);
}

#[test]
fn undo_key_clears_current_slot() {
    let mut s = AppState::new(vec![file("a.txt", 1)], GitOperation::Merge);
    s.handle_key(Key::Enter);
    s.handle_key(Key::Char('b'));
    assert!(s.files[0].is_fully_resolved());
    s.handle_key(Key::Char('u'));
    assert_eq!(s.files[0].resolutions, vec![None]);
}

#[test]
fn rebase_commands_need_rebase_view() {
    let mut s = state(GitOperation::Rebase);
    assert_eq!(s.perform(Action::ContinueRebase), Command::Nothing);
    assert_eq!(s.perform(Action::AbortRebase), Command::Nothing);
    assert_eq!(s.perform(Action::SkipRebase), Command::Nothing);
}

#[test]
fn current_file_mut_edits_selected_file() {
    let mut s = state(GitOperation::Merge);
    s.move_selection_down();
    if let Some(f) = s.current_file_mut() {
        f.set_resolution(1, Resolution::Current);
    }
    assert_eq!(s.files[1].resolved_count(), 1);
    assert_eq!(s.files[0].resolved_count(), 0);
}
