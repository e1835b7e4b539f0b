//! The navigation state machine: which file is selected, which pane has
//! focus, which conflict is shown, and the transitions between them.
//!
//! Every transition is total: where its precondition does not hold it
//! changes nothing. Keys are first mapped to an `Action` by `action_for`,
//! then `perform` applies the action and names the outside work, if any,
//! that the caller has to carry out (`Command`).

use vstd::prelude::*;
use crate::domain::{all_set, ConflictedFile, GitOperation, Resolution};

verus! {

/// What the interface shows.
#[derive(Clone, Copy, Debug, PartialEq, Eq, Structural)]
pub enum ViewMode {
    /// The file list beside the conflicts of the selected file.
    SplitPane { conflict_index: usize },
    /// The continue / abort / skip screen, once a rebase is fully resolved.
    RebaseActions,
}

/// Which pane the navigation keys act on.
#[derive(Clone, Copy, Debug, PartialEq, Eq, Structural)]
pub enum PaneFocus {
    FileList,
    CodeView,
}

/// Lines moved by a half-page scroll.
pub const HALF_PAGE: u16 = 10;

/// Lines moved by a full-page scroll.
pub const FULL_PAGE: u16 = 20;

/// A key press, as the state machine sees it.
#[derive(Clone, Copy, Debug, PartialEq, Eq, Structural)]
pub enum Key {
    Char(char),
    Up,
    Down,
    Enter,
    Esc,
    Tab,
    HalfPageUp,
    HalfPageDown,
    PageUp,
    PageDown,
    Other,
}

/// A user action.
#[derive(Clone, Copy, Debug, PartialEq, Eq, Structural)]
pub enum Action {
    Quit,
    SelectPrevious,
    SelectNext,
    OpenFile,
    ToggleFocus,
    BackToFiles,
    NextConflict,
    PreviousConflict,
    Resolve(Resolution),
    Undo,
    ScrollUp(u16),
    ScrollDown(u16),
    Save,
    ContinueRebase,
    AbortRebase,
    SkipRebase,
    Ignore,
}

/// Outside work that an action asks of the caller.
#[derive(Clone, Copy, Debug, PartialEq, Eq, Structural)]
pub enum Command {
    Nothing,
    /// Write the resolved text of the current file; on success call
    /// `go_to_rebase_actions`.
    SaveCurrentFile,
    /// Run the rebase operation; on success call `quit`.
    ContinueRebase,
    AbortRebase,
    SkipRebase,
}

/// The action that `key` stands for in the given mode and focus.
pub open spec fn keymap(mode: ViewMode, focus: PaneFocus, key: Key) -> Action {
    match mode {
        ViewMode::RebaseActions => match key {
            Key::Char('q') | Key::Esc => Action::Quit,
            Key::Char('c') => Action::ContinueRebase,
            Key::Char('a') => Action::AbortRebase,
            Key::Char('s') => Action::SkipRebase,
            _ => Action::Ignore,
        },
        ViewMode::SplitPane { .. } => match focus {
            PaneFocus::FileList => match key {
                Key::Char('q') | Key::Esc => Action::Quit,
                Key::Char('j') | Key::Down => Action::SelectNext,
                Key::Char('k') | Key::Up => Action::SelectPrevious,
                Key::Enter => Action::OpenFile,
                Key::Tab => Action::ToggleFocus,
                _ => Action::Ignore,
            },
            PaneFocus::CodeView => match key {
                Key::Char('q') => Action::Quit,
                Key::Esc => Action::BackToFiles,
                Key::Tab => Action::ToggleFocus,
                Key::Char('j') | Key::Down => Action::NextConflict,
                Key::Char('k') | Key::Up => Action::PreviousConflict,
                Key::Char('c') => Action::Resolve(Resolution::Current),
                Key::Char('i') => Action::Resolve(Resolution::Incoming),
                Key::Char('b') => Action::Resolve(Resolution::Both),
                Key::Char('u') => Action::Undo,
                Key::Char('s') => Action::Save,
                Key::HalfPageUp => Action::ScrollUp(HALF_PAGE),
                Key::HalfPageDown => Action::ScrollDown(HALF_PAGE),
                Key::PageUp => Action::ScrollUp(FULL_PAGE),
                Key::PageDown => Action::ScrollDown(FULL_PAGE),
                _ => Action::Ignore,
            },
        },
    }
}

/// The action that `key` stands for in the given mode and focus.
pub fn action_for(mode: ViewMode, focus: PaneFocus, key: Key) -> (r: Action)
    ensures
        r == keymap(mode, focus, key),
{
    match mode {
        ViewMode::RebaseActions => match key {
            Key::Char('q') | Key::Esc => Action::Quit,
            Key::Char('c') => Action::ContinueRebase,
            Key::Char('a') => Action::AbortRebase,
            Key::Char('s') => Action::SkipRebase,
            _ => Action::Ignore,
        },
        ViewMode::SplitPane { .. } => match focus {
            PaneFocus::FileList => match key {
                Key::Char('q') | Key::Esc => Action::Quit,
                Key::Char('j') | Key::Down => Action::SelectNext,
                Key::Char('k') | Key::Up => Action::SelectPrevious,
                Key::Enter => Action::OpenFile,
                Key::Tab => Action::ToggleFocus,
                _ => Action::Ignore,
            },
            PaneFocus::CodeView => match key {
                Key::Char('q') => Action::Quit,
                Key::Esc => Action::BackToFiles,
                Key::Tab => Action::ToggleFocus,
                Key::Char('j') | Key::Down => Action::NextConflict,
                Key::Char('k') | Key::Up => Action::PreviousConflict,
                Key::Char('c') => Action::Resolve(Resolution::Current),
                Key::Char('i') => Action::Resolve(Resolution::Incoming),
                Key::Char('b') => Action::Resolve(Resolution::Both),
                Key::Char('u') => Action::Undo,
                Key::Char('s') => Action::Save,
                Key::HalfPageUp => Action::ScrollUp(HALF_PAGE),
                Key::HalfPageDown => Action::ScrollDown(HALF_PAGE),
                Key::PageUp => Action::ScrollUp(FULL_PAGE),
                Key::PageDown => Action::ScrollDown(FULL_PAGE),
                _ => Action::Ignore,
            },
        },
    }
}

/// Is every file fully resolved?
pub open spec fn files_resolved(files: Seq<ConflictedFile>) -> bool {
    forall|i: int| 0 <= i < files.len() ==> all_set((#[trigger] files[i]).resolutions@)
}

/// `post` is `pre` with slot `i` set to `slot` when `i` is in range, and
/// unchanged otherwise.
pub open spec fn slot_written(
    pre: ConflictedFile,
    post: ConflictedFile,
    i: usize,
    slot: Option<Resolution>,
) -> bool {
    &&& post.path == pre.path
    &&& post.conflicts == pre.conflicts
    &&& post.original_content == pre.original_content
    &&& post.resolutions@ == if i < pre.resolutions@.len() {
        pre.resolutions@.update(i as int, slot)
    } else {
        pre.resolutions@
    }
}

/// Moving the selection clamps at both ends of the file list and never
/// wraps; a move that changes the selected file shows its first conflict
/// from the top.
pub proof fn law_selection_clamped(s: AppState)
    requires
        s.files@.len() <= usize::MAX,
    ensures
        s.has_selection() ==> s.after_select_next().has_selection(),
        s.has_selection() ==> s.after_select_previous().has_selection(),
        s.after_select_next().selected_file >= s.selected_file,
        s.after_select_previous().selected_file <= s.selected_file,
        s.selected_file + 1 >= s.files@.len() ==> s.after_select_next() == s,
        s.selected_file == 0 ==> s.after_select_previous() == s,
        s.after_select_next().selected_file != s.selected_file ==> {
            &&& s.after_select_next().view_mode == (ViewMode::SplitPane { conflict_index: 0 })
            &&& s.after_select_next().scroll_offset == 0
        },
        s.after_select_previous().selected_file != s.selected_file ==> {
            &&& s.after_select_previous().view_mode == (ViewMode::SplitPane { conflict_index: 0 })
            &&& s.after_select_previous().scroll_offset == 0
        },
{
}

/// No action shows the rebase actions before every file is resolved in a
/// rebase, and none leaves them shown once that stops holding.
pub proof fn law_rebase_view_guarded(pre: AppState, post: AppState, action: Action)
    requires
        pre.view_guarded(),
        AppState::performed(pre, post, action),
    ensures
        post.view_guarded(),
{
}

/// Going to the rebase actions shows them only when every file is resolved
/// in a rebase.
pub proof fn law_rebase_actions_entry(s: AppState)
    requires
        s.view_guarded(),
    ensures
        s.after_rebase_actions().view_guarded(),
        s.after_rebase_actions().view_mode is RebaseActions <==> (s.view_mode is RebaseActions
            || s.rebase_done()),
{
}

/// Every file is well formed.
pub open spec fn files_wf(files: Seq<ConflictedFile>) -> bool {
    forall|i: int| 0 <= i < files.len() ==> (#[trigger] files[i]).wf()
}

/// No action breaks the well-formedness of a file: actions only write
/// resolution slots.
pub proof fn law_actions_keep_files_wf(pre: AppState, post: AppState, action: Action)
    requires
        files_wf(pre.files@),
        AppState::performed(pre, post, action),
    ensures
        files_wf(post.files@),
{
    if let ViewMode::SplitPane { .. } = pre.view_mode {
        if pre.on_code_view() && pre.has_selection() {
            assert forall|i: int| 0 <= i < post.files@.len() implies (#[trigger] post.files@[i]).wf() by {
                if i != pre.selected_file {
                    assert(post.files@[i] == pre.files@[i]);
                } else {
                    assert(pre.files@[i].wf());
                }
            }
        }
    }
}

/// The state of the interface.
pub struct AppState {
    /// The conflicted files of the session.
    pub files: Vec<ConflictedFile>,
    pub view_mode: ViewMode,
    pub focus: PaneFocus,
    /// Index of the selected file.
    pub selected_file: usize,
    /// First line shown in the code view.
    pub scroll_offset: u16,
    pub git_operation: GitOperation,
    pub should_quit: bool,
}

impl AppState {
    /// Are the file-list keys live?
    pub open spec fn on_file_list(self) -> bool {
        self.focus is FileList && self.view_mode is SplitPane
    }

    /// Are the code-view keys live?
    pub open spec fn on_code_view(self) -> bool {
        self.focus is CodeView && self.view_mode is SplitPane
    }

    /// Does the selection name one of the files?
    pub open spec fn has_selection(self) -> bool {
        self.selected_file < self.files@.len()
    }

    /// The state with file `i` selected: first conflict, top of the view.
    pub open spec fn selecting(self, i: usize) -> Self {
        AppState {
            selected_file: i,
            view_mode: ViewMode::SplitPane { conflict_index: 0 },
            scroll_offset: 0,
            ..self
        }
    }

    /// The state after `move_selection_up`.
    pub open spec fn after_select_previous(self) -> Self {
        if self.on_file_list() && self.selected_file > 0 {
            self.selecting((self.selected_file - 1) as usize)
        } else {
            self
        }
    }

    /// The state after `move_selection_down`.
    pub open spec fn after_select_next(self) -> Self {
        if self.on_file_list() && self.selected_file + 1 < self.files@.len() {
            self.selecting((self.selected_file + 1) as usize)
        } else {
            self
        }
    }

    /// The state after `open_selected_file`.
    pub open spec fn after_open(self) -> Self {
        if self.on_file_list() && self.has_selection() {
            AppState { focus: PaneFocus::CodeView, ..self.selecting(self.selected_file) }
        } else {
            self
        }
    }

    /// The state after `toggle_focus`.
    pub open spec fn after_toggle(self) -> Self {
        AppState {
            focus: match self.focus {
                PaneFocus::FileList => PaneFocus::CodeView,
                PaneFocus::CodeView => PaneFocus::FileList,
            },
            ..self
        }
    }

    /// The state after `back_to_file_list`.
    pub open spec fn after_back(self) -> Self {
        AppState {
            focus: PaneFocus::FileList,
            view_mode: match self.view_mode {
                ViewMode::RebaseActions => ViewMode::SplitPane { conflict_index: 0 },
                mode => mode,
            },
            ..self
        }
    }

    /// The state after `next_conflict`.
    pub open spec fn after_next_conflict(self) -> Self {
        match self.view_mode {
            ViewMode::SplitPane { conflict_index } => if self.on_code_view()
                && self.has_selection() && conflict_index + 1
                < self.files@[self.selected_file as int].conflicts@.len() {
                AppState {
                    view_mode: ViewMode::SplitPane {
                        conflict_index: (conflict_index + 1) as usize,
                    },
                    ..self
                }
            } else {
                self
            },
            ViewMode::RebaseActions => self,
        }
    }

    /// The state after `previous_conflict`.
    pub open spec fn after_previous_conflict(self) -> Self {
        match self.view_mode {
            ViewMode::SplitPane { conflict_index } => if self.on_code_view() && conflict_index
                > 0 {
                AppState {
                    view_mode: ViewMode::SplitPane {
                        conflict_index: (conflict_index - 1) as usize,
                    },
                    ..self
                }
            } else {
                self
            },
            ViewMode::RebaseActions => self,
        }
    }

    /// The state after `scroll_up(lines)`.
    pub open spec fn after_scroll_up(self, lines: u16) -> Self {
        AppState {
            scroll_offset: if self.scroll_offset >= lines {
                (self.scroll_offset - lines) as u16
            } else {
                0
            },
            ..self
        }
    }

    /// The state after `scroll_down(lines)`.
    pub open spec fn after_scroll_down(self, lines: u16) -> Self {
        AppState {
            scroll_offset: if self.scroll_offset + lines <= u16::MAX {
                (self.scroll_offset + lines) as u16
            } else {
                u16::MAX
            },
            ..self
        }
    }

    /// May the rebase actions be shown?
    pub open spec fn rebase_done(self) -> bool {
        files_resolved(self.files@) && self.git_operation.spec_is_rebase()
    }

    /// The rebase actions are shown only once every file is resolved and
    /// the operation is a rebase.
    pub open spec fn view_guarded(self) -> bool {
        self.view_mode is RebaseActions ==> self.rebase_done()
    }

    /// The state after `go_to_rebase_actions`.
    pub open spec fn after_rebase_actions(self) -> Self {
        if self.rebase_done() {
            AppState { view_mode: ViewMode::RebaseActions, ..self }
        } else {
            self
        }
    }

    /// `post` is `pre` with slot `slot` written into the current conflict of
    /// the selected file, when the code view is live and a file is selected.
    pub open spec fn current_slot_written(pre: Self, post: Self, slot: Option<Resolution>) -> bool {
        &&& post.view_mode == pre.view_mode
        &&& post.focus == pre.focus
        &&& post.selected_file == pre.selected_file
        &&& post.scroll_offset == pre.scroll_offset
        &&& post.git_operation == pre.git_operation
        &&& post.should_quit == pre.should_quit
        &&& match pre.view_mode {
            ViewMode::SplitPane { conflict_index } => if pre.on_code_view()
                && pre.has_selection() {
                &&& post.files@.len() == pre.files@.len()
                &&& forall|j: int|
                    0 <= j < pre.files@.len() && j != pre.selected_file ==> #[trigger] post.files@[j]
                        == pre.files@[j]
                &&& slot_written(
                    pre.files@[pre.selected_file as int],
                    post.files@[pre.selected_file as int],
                    conflict_index,
                    slot,
                )
            } else {
                post.files == pre.files
            },
            ViewMode::RebaseActions => post.files == pre.files,
        }
    }

    /// The state at startup: split pane on the first conflict of the first
    /// file, focus on the file list.
    pub fn new(files: Vec<ConflictedFile>, git_operation: GitOperation) -> (r: Self)
        ensures
            r.files == files,
            r.view_mode == (ViewMode::SplitPane { conflict_index: 0 }),
            r.focus == PaneFocus::FileList,
            r.selected_file == 0,
            r.scroll_offset == 0,
            r.git_operation == git_operation,
            !r.should_quit,
    {
        AppState {
            files,
            view_mode: ViewMode::SplitPane { conflict_index: 0 },
            focus: PaneFocus::FileList,
            selected_file: 0,
            scroll_offset: 0,
            git_operation,
            should_quit: false,
        }
    }

    /// Selects the previous file, stopping at the first one.
    pub fn move_selection_up(&mut self)
        ensures
            *final(self) == old(self).after_select_previous(),
    {
        if self.focus == PaneFocus::FileList && self.view_mode != ViewMode::RebaseActions
            && self.selected_file > 0 {
            self.selected_file = self.selected_file - 1;
            self.view_mode = ViewMode::SplitPane { conflict_index: 0 };
            self.scroll_offset = 0;
        }
    }

    /// Selects the next file, stopping at the last one.
    pub fn move_selection_down(&mut self)
        ensures
            *final(self) == old(self).after_select_next(),
    {
        if self.focus == PaneFocus::FileList && self.view_mode != ViewMode::RebaseActions
            && self.selected_file < self.files.len() && self.selected_file + 1 < self.files.len() {
            self.selected_file = self.selected_file + 1;
            self.view_mode = ViewMode::SplitPane { conflict_index: 0 };
            self.scroll_offset = 0;
        }
    }

    /// Moves focus to the code view of the selected file, on its first
    /// conflict.
    pub fn open_selected_file(&mut self)
        ensures
            *final(self) == old(self).after_open(),
    {
        if self.focus == PaneFocus::FileList && self.view_mode != ViewMode::RebaseActions
            && self.selected_file < self.files.len() {
            self.focus = PaneFocus::CodeView;
            self.view_mode = ViewMode::SplitPane { conflict_index: 0 };
            self.scroll_offset = 0;
        }
    }

    /// Flips focus between the file list and the code view.
    pub fn toggle_focus(&mut self)
        ensures
            *final(self) == old(self).after_toggle(),
    {
        self.focus = match self.focus {
            PaneFocus::FileList => PaneFocus::CodeView,
            PaneFocus::CodeView => PaneFocus::FileList,
        };
    }

    /// Moves to the next conflict of the selected file, stopping at the last.
    pub fn next_conflict(&mut self)
        ensures
            *final(self) == old(self).after_next_conflict(),
    {
        if let ViewMode::SplitPane { conflict_index } = self.view_mode {
            if self.focus == PaneFocus::CodeView && self.selected_file < self.files.len() {
                let count = self.files[self.selected_file].conflicts.len();
                if conflict_index < count && conflict_index + 1 < count {
                    self.view_mode = ViewMode::SplitPane { conflict_index: conflict_index + 1 };
                }
            }
        }
    }

    /// Moves to the previous conflict, stopping at the first.
    pub fn previous_conflict(&mut self)
        ensures
            *final(self) == old(self).after_previous_conflict(),
    {
        if let ViewMode::SplitPane { conflict_index } = self.view_mode {
            if self.focus == PaneFocus::CodeView && conflict_index > 0 {
                self.view_mode = ViewMode::SplitPane { conflict_index: conflict_index - 1 };
            }
        }
    }

    /// Chooses `resolution` for the current conflict of the selected file.
    pub fn set_current_resolution(&mut self, resolution: Resolution)
        ensures
            Self::current_slot_written(*old(self), *final(self), Some(resolution)),
    {
        if let ViewMode::SplitPane { conflict_index } = self.view_mode {
            if self.focus == PaneFocus::CodeView && self.selected_file < self.files.len() {
                let i = self.selected_file;
                self.files[i].set_resolution(conflict_index, resolution);
            }
        }
    }

    /// Withdraws the resolution of the current conflict of the selected file.
    pub fn clear_current_resolution(&mut self)
        ensures
            Self::current_slot_written(*old(self), *final(self), None),
    {
        if let ViewMode::SplitPane { conflict_index } = self.view_mode {
            if self.focus == PaneFocus::CodeView && self.selected_file < self.files.len() {
                let i = self.selected_file;
                self.files[i].clear_resolution(conflict_index);
            }
        }
    }

    /// Scrolls the code view up by `lines`, stopping at the top.
    pub fn scroll_up(&mut self, lines: u16)
        ensures
            *final(self) == old(self).after_scroll_up(lines),
    {
        self.scroll_offset = self.scroll_offset.saturating_sub(lines);
    }

    /// Scrolls the code view down by `lines`, stopping at the largest offset.
    pub fn scroll_down(&mut self, lines: u16)
        ensures
            *final(self) == old(self).after_scroll_down(lines),
    {
        self.scroll_offset = self.scroll_offset.saturating_add(lines);
    }

    /// Scrolls the code view back to the top.
    pub fn reset_scroll(&mut self)
        ensures
            *final(self) == (AppState { scroll_offset: 0, ..*old(self) }),
    {
        self.scroll_offset = 0;
    }

    /// Gives focus back to the file list, leaving the rebase actions if they
    /// are shown.
    pub fn back_to_file_list(&mut self)
        ensures
            *final(self) == old(self).after_back(),
    {
        self.focus = PaneFocus::FileList;
        if self.view_mode == ViewMode::RebaseActions {
            self.view_mode = ViewMode::SplitPane { conflict_index: 0 };
        }
    }

    /// Shows the rebase actions, when every file is resolved and the
    /// operation is a rebase.
    pub fn go_to_rebase_actions(&mut self)
        ensures
            *final(self) == old(self).after_rebase_actions(),
    {
        if self.all_files_resolved() && self.git_operation.is_rebase() {
            self.view_mode = ViewMode::RebaseActions;
        }
    }

    /// Is every file fully resolved?
    pub fn all_files_resolved(&self) -> (r: bool)
        ensures
            r == files_resolved(self.files@),
    {
        let mut i: usize = 0;
        while i < self.files.len()
            invariant
                i <= self.files@.len(),
                forall|j: int| 0 <= j < i ==> all_set((#[trigger] self.files@[j]).resolutions@),
            decreases self.files.len() - i,
        {
            if !self.files[i].is_fully_resolved() {
                return false;
            }
            i = i + 1;
        }
        true
    }

    /// The selected file, while the split pane is shown.
    pub fn current_file(&self) -> (r: Option<&ConflictedFile>)
        ensures
            match r {
                Some(file) => self.view_mode is SplitPane && self.has_selection() && *file
                    == self.files@[self.selected_file as int],
                None => !(self.view_mode is SplitPane && self.has_selection()),
            },
    {
        match self.view_mode {
            ViewMode::SplitPane { .. } => if self.selected_file < self.files.len() {
                Some(&self.files[self.selected_file])
            } else {
                None
            },
            ViewMode::RebaseActions => None,
        }
    }

    /// The selected file, for changing, while the split pane is shown.
    pub fn current_file_mut(&mut self) -> (r: Option<&mut ConflictedFile>)
        ensures
            match r {
                Some(file) => {
                    &&& old(self).view_mode is SplitPane
                    &&& old(self).has_selection()
                    &&& *file == old(self).files@[old(self).selected_file as int]
                    &&& final(self).files@ == old(self).files@.update(
                        old(self).selected_file as int,
                        *final(file),
                    )
                    &&& final(self).view_mode == old(self).view_mode
                    &&& final(self).focus == old(self).focus
                    &&& final(self).selected_file == old(self).selected_file
                    &&& final(self).scroll_offset == old(self).scroll_offset
                    &&& final(self).git_operation == old(self).git_operation
                    &&& final(self).should_quit == old(self).should_quit
                },
                None => {
                    &&& !(old(self).view_mode is SplitPane && old(self).has_selection())
                    &&& *final(self) == *old(self)
                },
            },
    {
        match self.view_mode {
            ViewMode::SplitPane { .. } => if self.selected_file < self.files.len() {
                let i = self.selected_file;
                Some(&mut self.files[i])
            } else {
                None
            },
            ViewMode::RebaseActions => None,
        }
    }

    /// The current conflict's index, while the split pane is shown.
    pub fn current_conflict_index(&self) -> (r: Option<usize>)
        ensures
            r == match self.view_mode {
                ViewMode::SplitPane { conflict_index } => Some(conflict_index),
                ViewMode::RebaseActions => None,
            },
    {
        match self.view_mode {
            ViewMode::SplitPane { conflict_index } => Some(conflict_index),
            ViewMode::RebaseActions => None,
        }
    }

    /// Can the selected file be saved: code view live, a file selected, and
    /// every conflict of it resolved?
    pub open spec fn save_ready(self) -> bool {
        self.on_code_view() && self.has_selection() && all_set(
            self.files@[self.selected_file as int].resolutions@,
        )
    }

    /// The command that `action` asks of the caller in this state.
    pub open spec fn command_for(self, action: Action) -> Command {
        match action {
            Action::Save => if self.save_ready() {
                Command::SaveCurrentFile
            } else {
                Command::Nothing
            },
            Action::ContinueRebase => if self.view_mode is RebaseActions {
                Command::ContinueRebase
            } else {
                Command::Nothing
            },
            Action::AbortRebase => if self.view_mode is RebaseActions {
                Command::AbortRebase
            } else {
                Command::Nothing
            },
            Action::SkipRebase => if self.view_mode is RebaseActions {
                Command::SkipRebase
            } else {
                Command::Nothing
            },
            _ => Command::Nothing,
        }
    }

    /// How `action` changes the state: `post` is the state after it.
    pub open spec fn performed(pre: Self, post: Self, action: Action) -> bool {
        match action {
            Action::Quit => post == (AppState { should_quit: true, ..pre }),
            Action::SelectPrevious => post == pre.after_select_previous(),
            Action::SelectNext => post == pre.after_select_next(),
            Action::OpenFile => post == pre.after_open(),
            Action::ToggleFocus => post == pre.after_toggle(),
            Action::BackToFiles => post == pre.after_back(),
            Action::NextConflict => post == pre.after_next_conflict(),
            Action::PreviousConflict => post == pre.after_previous_conflict(),
            Action::Resolve(resolution) => Self::current_slot_written(pre, post, Some(resolution)),
            Action::Undo => Self::current_slot_written(pre, post, None),
            Action::ScrollUp(lines) => post == pre.after_scroll_up(lines),
            Action::ScrollDown(lines) => post == pre.after_scroll_down(lines),
            _ => post == pre,
        }
    }

    /// Applies `action` and returns the outside work it asks for.
    pub fn perform(&mut self, action: Action) -> (c: Command)
        ensures
            Self::performed(*old(self), *final(self), action),
            c == old(self).command_for(action),
    {
        match action {
            Action::Quit => {
                self.quit();
                Command::Nothing
            },
            Action::SelectPrevious => {
                self.move_selection_up();
                Command::Nothing
            },
            Action::SelectNext => {
                self.move_selection_down();
                Command::Nothing
            },
            Action::OpenFile => {
                self.open_selected_file();
                Command::Nothing
            },
            Action::ToggleFocus => {
                self.toggle_focus();
                Command::Nothing
            },
            Action::BackToFiles => {
                self.back_to_file_list();
                Command::Nothing
            },
            Action::NextConflict => {
                self.next_conflict();
                Command::Nothing
            },
            Action::PreviousConflict => {
                self.previous_conflict();
                Command::Nothing
            },
            Action::Resolve(resolution) => {
                self.set_current_resolution(resolution);
                Command::Nothing
            },
            Action::Undo => {
                self.clear_current_resolution();
                Command::Nothing
            },
            Action::ScrollUp(lines) => {
                self.scroll_up(lines);
                Command::Nothing
            },
            Action::ScrollDown(lines) => {
                self.scroll_down(lines);
                Command::Nothing
            },
            Action::Save => {
                if self.focus == PaneFocus::CodeView {
                    if let Some(file) = self.current_file() {
                        if file.is_fully_resolved() {
                            return Command::SaveCurrentFile;
                        }
                    }
                }
                Command::Nothing
            },
            Action::ContinueRebase => if self.view_mode == ViewMode::RebaseActions {
                Command::ContinueRebase
            } else {
                Command::Nothing
            },
            Action::AbortRebase => if self.view_mode == ViewMode::RebaseActions {
                Command::AbortRebase
            } else {
                Command::Nothing
            },
            Action::SkipRebase => if self.view_mode == ViewMode::RebaseActions {
                Command::SkipRebase
            } else {
                Command::Nothing
            },
            Action::Ignore => Command::Nothing,
        }
    }

    /// Handles one key press: maps it to its action in the current mode and
    /// focus, applies it, and returns the outside work it asks for.
    pub fn handle_key(&mut self, key: Key) -> (c: Command)
        ensures
            Self::performed(*old(self), *final(self), keymap(old(self).view_mode, old(self).focus, key)),
            c == old(self).command_for(keymap(old(self).view_mode, old(self).focus, key)),
    {
        let action = action_for(self.view_mode, self.focus, key);
        self.perform(action)
    }

    /// Asks the control loop to stop.
    pub fn quit(&mut self)
        ensures
            *final(self) == (AppState { should_quit: true, ..*old(self) }),
    {
        self.should_quit = true;
    }
}

} // verus!
