//! Interactive resolution of textual merge and rebase conflicts: conflict
//! marker parsing, the per-file resolution model, reconstruction of the
//! resolved text and the navigation state machine of the interface, with
//! the pieces of the code view (shown lines, token kinds) and the
//! classification of working-tree status.

pub mod applier;
pub mod display;
pub mod domain;
pub mod highlight;
pub mod parser;
pub mod state;
pub mod status;
pub mod status_view;
pub mod text;

pub use applier::{temp_file_name, ApplyError};
pub use domain::{detect_git_operation, ConflictHunk, ConflictedFile, GitOperation, Resolution};
pub use parser::{parse_conflicts, MalformedKind, ParseError};
pub use state::{action_for, Action, AppState, Command, Key, PaneFocus, ViewMode};
pub use status::{FileStatus, FileStatusType, StatusChange, StatusFlags};
