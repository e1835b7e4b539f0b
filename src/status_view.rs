//! The decisions of the working-tree status screen: a file list with the
//! selected file's diff or content beside it, and a commit dialog.
//!
//! Keys change the view's state and name the outside work (reading a diff
//! or a file, staging, committing) that the caller then carries out and
//! reports back.

use vstd::prelude::*;
use vstd::arithmetic::div_mod::{lemma_add_mod_noop, lemma_mod_add_multiples_vanish, lemma_mod_self_0, lemma_small_mod};
use crate::status::FileStatus;
use crate::text::push_char;

verus! {

/// What the right panel shows.
#[derive(Clone, Copy, Debug, PartialEq, Eq, Structural)]
pub enum RightPanelView {
    Banner,
    FileContent,
    CommitModal,
}

/// A key press on the status screen.
#[derive(Clone, Copy, Debug, PartialEq, Eq, Structural)]
pub enum StatusKey {
    Char { c: char, ctrl: bool },
    Up,
    Down,
    Enter,
    Esc,
    Backspace,
    PageUp,
    PageDown,
    Other,
}

/// Outside work that a key asks of the caller.
#[derive(Clone, Copy, Debug, PartialEq, Eq, Structural)]
pub enum StatusCommand {
    Nothing,
    Quit,
    /// Load the diff of the selected file and hand it to `set_diff`.
    LoadDiff,
    /// Read the selected file and hand it to `set_file_content`.
    LoadContent,
    /// Commit with `commit_message`; report with `commit_succeeded` or
    /// `commit_failed`.
    Commit,
    /// Stage the selected file, then refresh the list.
    Stage,
    /// Unstage the selected file, then refresh the list.
    Unstage,
    /// Restore the selected file, then refresh the list.
    Restore,
    StageAll,
    UnstageAll,
    RestoreAll,
}

/// Lines moved by a half-page scroll of the diff.
pub const DIFF_HALF_PAGE: usize = 10;

/// Lines moved by a full-page scroll of the diff.
pub const DIFF_FULL_PAGE: usize = 20;

/// Relies on `String::pop`: the last character is removed, if there is one.
#[verifier::external_body]
fn pop_char(s: &mut String)
    ensures
        final(s)@ == if old(s)@.len() > 0 {
            old(s)@.drop_last()
        } else {
            old(s)@
        },
{
    s.pop();
}

/// `a + b`, or the largest `usize` where that overflows.
pub open spec fn sat_add(a: usize, b: usize) -> usize {
    if a + b <= usize::MAX {
        (a + b) as usize
    } else {
        usize::MAX
    }
}

/// `a - b`, or 0 where that is negative.
pub open spec fn sat_sub(a: usize, b: usize) -> usize {
    if a >= b {
        (a - b) as usize
    } else {
        0
    }
}

/// The state of the status screen.
pub struct StatusView {
    pub files: Vec<FileStatus>,
    pub selected_file_index: usize,
    pub current_view: RightPanelView,
    pub file_content: Option<String>,
    pub file_diff: Option<String>,
    pub diff_scroll: usize,
    pub commit_message: String,
    pub commit_error: Option<String>,
}

impl StatusView {
    /// The view after moving to file `index`: its diff still to load, from
    /// the top.
    pub open spec fn selecting(self, index: usize) -> Self {
        StatusView { selected_file_index: index, file_diff: None, diff_scroll: 0, ..self }
    }

    /// The view with the commit dialog closed and emptied.
    pub open spec fn dialog_closed(pre: Self, post: Self) -> bool {
        &&& post.commit_message@.len() == 0
        &&& post.commit_error is None
        &&& post.current_view == RightPanelView::Banner
        &&& post.files == pre.files
        &&& post.selected_file_index == pre.selected_file_index
        &&& post.file_content == pre.file_content
        &&& post.file_diff == pre.file_diff
        &&& post.diff_scroll == pre.diff_scroll
    }

    /// `post` is `pre` with another commit message and nothing else changed.
    pub open spec fn message_edited(pre: Self, post: Self, message: Seq<char>) -> bool {
        &&& post.commit_message@ == message
        &&& post.commit_error == pre.commit_error
        &&& post.current_view == pre.current_view
        &&& post.files == pre.files
        &&& post.selected_file_index == pre.selected_file_index
        &&& post.file_content == pre.file_content
        &&& post.file_diff == pre.file_diff
        &&& post.diff_scroll == pre.diff_scroll
    }

    /// How `key` changes the view and what it asks of the caller.
    pub open spec fn key_step(pre: Self, post: Self, key: StatusKey, c: StatusCommand) -> bool {
        let n = pre.files@.len();
        let i = pre.selected_file_index;
        if pre.current_view is CommitModal {
            match key {
                StatusKey::Enter => post == pre && c == if pre.commit_message@.len() > 0 {
                    StatusCommand::Commit
                } else {
                    StatusCommand::Nothing
                },
                StatusKey::Esc => Self::dialog_closed(pre, post) && c == StatusCommand::Nothing,
                StatusKey::Backspace => Self::message_edited(
                    pre,
                    post,
                    if pre.commit_message@.len() > 0 {
                        pre.commit_message@.drop_last()
                    } else {
                        pre.commit_message@
                    },
                ) && c == StatusCommand::Nothing,
                StatusKey::Char { c: ch, .. } => Self::message_edited(
                    pre,
                    post,
                    pre.commit_message@.push(ch),
                ) && c == StatusCommand::Nothing,
                _ => post == pre && c == StatusCommand::Nothing,
            }
        } else {
            match key {
                StatusKey::Char { c: 'q', .. } => post == pre && c == StatusCommand::Quit,
                StatusKey::Char { c: 'j', .. } | StatusKey::Down => if n > 0 {
                    post == pre.selecting(((i + 1) % (n as int)) as usize) && c
                        == StatusCommand::LoadDiff
                } else {
                    post == pre && c == StatusCommand::Nothing
                },
                StatusKey::Char { c: 'k', .. } | StatusKey::Up => if n > 0 {
                    post == pre.selecting(((i + n - 1) % (n as int)) as usize) && c
                        == StatusCommand::LoadDiff
                } else {
                    post == pre && c == StatusCommand::Nothing
                },
                StatusKey::Char { c: 'd', ctrl: true } => post == (StatusView {
                    diff_scroll: sat_add(pre.diff_scroll, DIFF_HALF_PAGE),
                    ..pre
                }) && c == StatusCommand::Nothing,
                StatusKey::Char { c: 'u', ctrl: true } => post == (StatusView {
                    diff_scroll: sat_sub(pre.diff_scroll, DIFF_HALF_PAGE),
                    ..pre
                }) && c == StatusCommand::Nothing,
                StatusKey::PageDown => post == (StatusView {
                    diff_scroll: sat_add(pre.diff_scroll, DIFF_FULL_PAGE),
                    ..pre
                }) && c == StatusCommand::Nothing,
                StatusKey::PageUp => post == (StatusView {
                    diff_scroll: sat_sub(pre.diff_scroll, DIFF_FULL_PAGE),
                    ..pre
                }) && c == StatusCommand::Nothing,
                StatusKey::Enter => if n > 0 {
                    post == (StatusView { current_view: RightPanelView::FileContent, ..pre }) && c
                        == StatusCommand::LoadContent
                } else {
                    post == pre && c == StatusCommand::Nothing
                },
                StatusKey::Esc => post == (StatusView {
                    current_view: RightPanelView::Banner,
                    file_content: None,
                    ..pre
                }) && c == StatusCommand::Nothing,
                StatusKey::Char { c: 'c', .. } => {
                    &&& post.commit_message@.len() == 0
                    &&& post.commit_error is None
                    &&& post.current_view == RightPanelView::CommitModal
                    &&& post.files == pre.files
                    &&& post.selected_file_index == pre.selected_file_index
                    &&& post.file_content == pre.file_content
                    &&& post.file_diff == pre.file_diff
                    &&& post.diff_scroll == pre.diff_scroll
                    &&& c == StatusCommand::Nothing
                },
                StatusKey::Char { c: 'a', .. } => post == pre && c == if n > 0 {
                    StatusCommand::Stage
                } else {
                    StatusCommand::Nothing
                },
                StatusKey::Char { c: 's', .. } => post == pre && c == if n > 0 {
                    StatusCommand::Unstage
                } else {
                    StatusCommand::Nothing
                },
                StatusKey::Char { c: 'r', .. } => post == pre && c == if n > 0 {
                    StatusCommand::Restore
                } else {
                    StatusCommand::Nothing
                },
                StatusKey::Char { c: 'A', .. } => post == pre && c
                    == StatusCommand::StageAll,
                StatusKey::Char { c: 'S', .. } => post == pre && c
                    == StatusCommand::UnstageAll,
                StatusKey::Char { c: 'R', .. } => post == pre && c
                    == StatusCommand::RestoreAll,
                _ => post == pre && c == StatusCommand::Nothing,
            }
        }
    }

    /// A fresh view of `files`: first file selected, banner shown, nothing
    /// loaded yet.
    pub fn new(files: Vec<FileStatus>) -> (r: Self)
        ensures
            r.files == files,
            r.selected_file_index == 0,
            r.current_view == RightPanelView::Banner,
            r.file_content is None,
            r.file_diff is None,
            r.diff_scroll == 0,
            r.commit_message@.len() == 0,
            r.commit_error is None,
    {
        StatusView {
            files,
            selected_file_index: 0,
            current_view: RightPanelView::Banner,
            file_content: None,
            file_diff: None,
            diff_scroll: 0,
            commit_message: String::new(),
            commit_error: None,
        }
    }

    /// The selected file, if the list is not empty.
    pub fn selected_file(&self) -> (r: Option<&FileStatus>)
        ensures
            match r {
                Some(f) => self.selected_file_index < self.files@.len() && *f
                    == self.files@[self.selected_file_index as int],
                None => self.selected_file_index >= self.files@.len(),
            },
    {
        if self.selected_file_index < self.files.len() {
            Some(&self.files[self.selected_file_index])
        } else {
            None
        }
    }

    /// Index of the file after `index`, wrapping to the first.
    fn following(index: usize, n: usize) -> (r: usize)
        requires
            n > 0,
        ensures
            r == (index + 1) % (n as int),
    {
        let i = index % n;
        proof {
            lemma_add_mod_noop(index as int, 1, n as int);
            if n == 1 {
                lemma_mod_self_0(1);
            } else {
                lemma_small_mod(1, n as nat);
                if i + 1 < n {
                    lemma_small_mod((i + 1) as nat, n as nat);
                } else {
                    lemma_mod_self_0(n as int);
                }
            }
        }
        if i + 1 == n {
            0
        } else {
            i + 1
        }
    }

    /// Index of the file before `index`, wrapping to the last.
    fn preceding(index: usize, n: usize) -> (r: usize)
        requires
            n > 0,
        ensures
            r == (index + n - 1) % (n as int),
    {
        let i = index % n;
        proof {
            lemma_add_mod_noop(index as int, n - 1, n as int);
            lemma_small_mod((n - 1) as nat, n as nat);
            if i == 0 {
                lemma_small_mod((n - 1) as nat, n as nat);
            } else {
                lemma_mod_add_multiples_vanish(i - 1, n as int);
                lemma_small_mod((i - 1) as nat, n as nat);
                assert(i + (n - 1) == n + (i - 1));
            }
        }
        if i == 0 {
            n - 1
        } else {
            i - 1
        }
    }

    /// Handles one key press and returns the outside work it asks for.
    pub fn handle_key(&mut self, key: StatusKey) -> (c: StatusCommand)
        ensures
            Self::key_step(*old(self), *final(self), key, c),
    {
        let n = self.files.len();
        if self.current_view == RightPanelView::CommitModal {
            match key {
                StatusKey::Enter => {
                    if self.commit_message.as_str().is_empty() {
                        return StatusCommand::Nothing;
                    }
                    return StatusCommand::Commit;
                },
                StatusKey::Esc => {
                    self.commit_message = String::new();
                    self.commit_error = None;
                    self.current_view = RightPanelView::Banner;
                },
                StatusKey::Backspace => {
                    pop_char(&mut self.commit_message);
                },
                StatusKey::Char { c: ch, .. } => {
                    push_char(&mut self.commit_message, ch);
                },
                _ => {},
            }
            return StatusCommand::Nothing;
        }
        match key {
            StatusKey::Char { c: 'q', .. } => StatusCommand::Quit,
            StatusKey::Char { c: 'j', .. } | StatusKey::Down => {
                if n == 0 {
                    return StatusCommand::Nothing;
                }
                self.selected_file_index = Self::following(self.selected_file_index, n);
                self.file_diff = None;
                self.diff_scroll = 0;
                StatusCommand::LoadDiff
            },
            StatusKey::Char { c: 'k', .. } | StatusKey::Up => {
                if n == 0 {
                    return StatusCommand::Nothing;
                }
                self.selected_file_index = Self::preceding(self.selected_file_index, n);
                self.file_diff = None;
                self.diff_scroll = 0;
                StatusCommand::LoadDiff
            },
            StatusKey::Char { c: 'd', ctrl: true } => {
                self.diff_scroll = self.diff_scroll.saturating_add(DIFF_HALF_PAGE);
                StatusCommand::Nothing
            },
            StatusKey::Char { c: 'u', ctrl: true } => {
                self.diff_scroll = self.diff_scroll.saturating_sub(DIFF_HALF_PAGE);
                StatusCommand::Nothing
            },
            StatusKey::PageDown => {
                self.diff_scroll = self.diff_scroll.saturating_add(DIFF_FULL_PAGE);
                StatusCommand::Nothing
            },
            StatusKey::PageUp => {
                self.diff_scroll = self.diff_scroll.saturating_sub(DIFF_FULL_PAGE);
                StatusCommand::Nothing
            },
            StatusKey::Enter => {
                if n == 0 {
                    return StatusCommand::Nothing;
                }
                self.current_view = RightPanelView::FileContent;
                StatusCommand::LoadContent
            },
            StatusKey::Esc => {
                self.current_view = RightPanelView::Banner;
                self.file_content = None;
                StatusCommand::Nothing
            },
            StatusKey::Char { c: 'c', .. } => {
                self.commit_message = String::new();
                self.commit_error = None;
                self.current_view = RightPanelView::CommitModal;
                StatusCommand::Nothing
            },
            StatusKey::Char { c: 'a', .. } => if n > 0 {
                StatusCommand::Stage
            } else {
                StatusCommand::Nothing
            },
            StatusKey::Char { c: 's', .. } => if n > 0 {
                StatusCommand::Unstage
            } else {
                StatusCommand::Nothing
            },
            StatusKey::Char { c: 'r', .. } => if n > 0 {
                StatusCommand::Restore
            } else {
                StatusCommand::Nothing
            },
            StatusKey::Char { c: 'A', .. } => StatusCommand::StageAll,
            StatusKey::Char { c: 'S', .. } => StatusCommand::UnstageAll,
            StatusKey::Char { c: 'R', .. } => StatusCommand::RestoreAll,
            _ => StatusCommand::Nothing,
        }
    }

    /// Records the loaded diff of the selected file, shown from the top.
    pub fn set_diff(&mut self, diff: String)
        ensures
            *final(self) == (StatusView { file_diff: Some(diff), diff_scroll: 0, ..*old(self) }),
    {
        self.file_diff = Some(diff);
        self.diff_scroll = 0;
    }

    /// Records the loaded content of the selected file.
    pub fn set_file_content(&mut self, content: String)
        ensures
            *final(self) == (StatusView { file_content: Some(content), ..*old(self) }),
    {
        self.file_content = Some(content);
    }

    /// Closes the commit dialog after a successful commit.
    pub fn commit_succeeded(&mut self)
        ensures
            Self::dialog_closed(*old(self), *final(self)),
    {
        self.commit_message = String::new();
        self.commit_error = None;
        self.current_view = RightPanelView::Banner;
    }

    /// Keeps the commit dialog open with the failure shown.
    pub fn commit_failed(&mut self, error: String)
        ensures
            *final(self) == (StatusView { commit_error: Some(error), ..*old(self) }),
    {
        self.commit_error = Some(error);
    }

    /// Replaces the list after a refresh, keeping the selection inside it.
    pub fn replace_files(&mut self, files: Vec<FileStatus>)
        ensures
            final(self).files == files,
            final(self).selected_file_index == if old(self).selected_file_index >= files@.len()
                && files@.len() > 0 {
                (files@.len() - 1) as usize
            } else {
                old(self).selected_file_index
            },
            final(self).current_view == old(self).current_view,
            final(self).file_content == old(self).file_content,
            final(self).file_diff == old(self).file_diff,
            final(self).diff_scroll == old(self).diff_scroll,
            final(self).commit_message == old(self).commit_message,
            final(self).commit_error == old(self).commit_error,
    {
        self.files = files;
        let n = self.files.len();
        if self.selected_file_index >= n && n > 0 {
            self.selected_file_index = n - 1;
        }
    }
}

} // verus!
