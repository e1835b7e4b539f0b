//! Working-tree status of files: the change recorded in the index and in
//! the working directory, and how each is shown.

use vstd::prelude::*;

verus! {

/// A kind of change to a file.
#[derive(Clone, Copy, Debug, PartialEq, Eq, Structural)]
pub enum StatusChange {
    Modified,
    Added,
    Deleted,
    Renamed,
    Untracked,
    Conflicted,
}

/// A kind of change to a file, as shown with a color.
#[derive(Clone, Copy, Debug, PartialEq, Eq, Structural)]
pub enum FileStatusType {
    Modified,
    Added,
    Deleted,
    Renamed,
    Untracked,
    Conflicted,
}

/// The status bits that the version-control tool reports for one file.
#[derive(Clone, Copy, Debug, PartialEq, Eq, Structural)]
pub struct StatusFlags {
    pub conflicted: bool,
    pub index_new: bool,
    pub index_modified: bool,
    pub index_deleted: bool,
    pub index_renamed: bool,
    pub wt_new: bool,
    pub wt_modified: bool,
    pub wt_deleted: bool,
    pub wt_renamed: bool,
}

/// The change recorded in the index: a conflict first, then an addition,
/// a deletion, a rename and a modification.
pub open spec fn index_change(flags: StatusFlags) -> Option<StatusChange> {
    if flags.conflicted {
        Some(StatusChange::Conflicted)
    } else if flags.index_new {
        Some(StatusChange::Added)
    } else if flags.index_deleted {
        Some(StatusChange::Deleted)
    } else if flags.index_renamed {
        Some(StatusChange::Renamed)
    } else if flags.index_modified {
        Some(StatusChange::Modified)
    } else {
        None
    }
}

/// The change in the working directory: a new file first, then a
/// deletion, a rename and a modification.
pub open spec fn workdir_change(flags: StatusFlags) -> Option<StatusChange> {
    if flags.wt_new {
        Some(StatusChange::Untracked)
    } else if flags.wt_deleted {
        Some(StatusChange::Deleted)
    } else if flags.wt_renamed {
        Some(StatusChange::Renamed)
    } else if flags.wt_modified {
        Some(StatusChange::Modified)
    } else {
        None
    }
}

/// The one-letter icon of a change.
pub open spec fn change_icon(c: StatusChange) -> Seq<char> {
    match c {
        StatusChange::Modified => "M"@,
        StatusChange::Added => "A"@,
        StatusChange::Deleted => "D"@,
        StatusChange::Renamed => "R"@,
        StatusChange::Untracked => "?"@,
        StatusChange::Conflicted => "C"@,
    }
}

impl StatusChange {
    /// The one-letter icon of the change.
    pub fn icon(&self) -> (r: &'static str)
        ensures
            r@ == change_icon(*self),
    {
        match self {
            StatusChange::Modified => "M",
            StatusChange::Added => "A",
            StatusChange::Deleted => "D",
            StatusChange::Renamed => "R",
            StatusChange::Untracked => "?",
            StatusChange::Conflicted => "C",
        }
    }

    /// The change recorded in the index: a conflict first, then an addition,
    /// a deletion, a rename and a modification.
    pub fn of_index(flags: StatusFlags) -> (r: Option<StatusChange>)
        ensures
            r == index_change(flags),
    {
        if flags.conflicted {
            Some(StatusChange::Conflicted)
        } else if flags.index_new {
            Some(StatusChange::Added)
        } else if flags.index_deleted {
            Some(StatusChange::Deleted)
        } else if flags.index_renamed {
            Some(StatusChange::Renamed)
        } else if flags.index_modified {
            Some(StatusChange::Modified)
        } else {
            None
        }
    }

    /// The change in the working directory: a new file first, then a
    /// deletion, a rename and a modification.
    pub fn of_workdir(flags: StatusFlags) -> (r: Option<StatusChange>)
        ensures
            r == workdir_change(flags),
    {
        if flags.wt_new {
            Some(StatusChange::Untracked)
        } else if flags.wt_deleted {
            Some(StatusChange::Deleted)
        } else if flags.wt_renamed {
            Some(StatusChange::Renamed)
        } else if flags.wt_modified {
            Some(StatusChange::Modified)
        } else {
            None
        }
    }
}

/// The status of one changed file.
#[derive(Clone, Debug)]
pub struct FileStatus {
    pub path: String,
    pub index_status: Option<StatusChange>,
    pub workdir_status: Option<StatusChange>,
}

/// The icon of an optional change: a space where there is none.
pub open spec fn slot_icon(c: Option<StatusChange>) -> Seq<char> {
    match c {
        Some(change) => change_icon(change),
        None => " "@,
    }
}

impl FileStatus {
    /// The status of the file at `path` with the given flags, or `None` when
    /// neither the index nor the working directory records a change.
    pub fn from_flags(path: String, flags: StatusFlags) -> (r: Option<FileStatus>)
        ensures
            match r {
                Some(status) => {
                    &&& status.path == path
                    &&& status.index_status == index_change(flags)
                    &&& status.workdir_status == workdir_change(flags)
                    &&& (status.index_status is Some || status.workdir_status is Some)
                },
                None => index_change(flags) is None && workdir_change(flags) is None,
            },
    {
        let index_status = StatusChange::of_index(flags);
        let workdir_status = StatusChange::of_workdir(flags);
        if index_status.is_some() || workdir_status.is_some() {
            Some(FileStatus { path, index_status, workdir_status })
        } else {
            None
        }
    }

    /// The two-letter status column: index icon, then working-directory icon.
    pub fn display_status(&self) -> (r: String)
        ensures
            r@ == slot_icon(self.index_status) + slot_icon(self.workdir_status),
    {
        let index_icon = match &self.index_status {
            Some(change) => change.icon(),
            None => " ",
        };
        let workdir_icon = match &self.workdir_status {
            Some(change) => change.icon(),
            None => " ",
        };
        let mut out = String::from_str(index_icon);
        out.append(workdir_icon);
        out
    }

    /// Is a change staged in the index?
    pub fn is_staged(&self) -> (r: bool)
        ensures
            r == self.index_status is Some,
    {
        self.index_status.is_some()
    }

    /// Is a change left in the working directory?
    pub fn is_modified_in_workdir(&self) -> (r: bool)
        ensures
            r == self.workdir_status is Some,
    {
        self.workdir_status.is_some()
    }

    /// Is the file in conflict?
    pub fn is_conflicted(&self) -> (r: bool)
        ensures
            r == (self.index_status == Some(StatusChange::Conflicted) || self.workdir_status
                == Some(StatusChange::Conflicted)),
    {
        let in_index = match self.index_status {
            Some(StatusChange::Conflicted) => true,
            _ => false,
        };
        let in_workdir = match self.workdir_status {
            Some(StatusChange::Conflicted) => true,
            _ => false,
        };
        in_index || in_workdir
    }
}

impl FileStatusType {
    /// The one-letter icon of the change.
    pub fn icon(&self) -> (r: &'static str)
        ensures
            r@ == match *self {
                FileStatusType::Modified => "M"@,
                FileStatusType::Added => "A"@,
                FileStatusType::Deleted => "D"@,
                FileStatusType::Renamed => "R"@,
                FileStatusType::Untracked => "?"@,
                FileStatusType::Conflicted => "C"@,
            },
    {
        match self {
            FileStatusType::Modified => "M",
            FileStatusType::Added => "A",
            FileStatusType::Deleted => "D",
            FileStatusType::Renamed => "R",
            FileStatusType::Untracked => "?",
            FileStatusType::Conflicted => "C",
        }
    }

    /// The terminal color escape of the change.
    pub fn color(&self) -> (r: &'static str)
        ensures
            r@ == match *self {
                FileStatusType::Modified => "\x1b[33m"@,
                FileStatusType::Added => "\x1b[32m"@,
                FileStatusType::Deleted => "\x1b[31m"@,
                FileStatusType::Renamed => "\x1b[36m"@,
                FileStatusType::Untracked => "\x1b[37m"@,
                FileStatusType::Conflicted => "\x1b[35m"@,
            },
    {
        match self {
            FileStatusType::Modified => "\x1b[33m",
            FileStatusType::Added => "\x1b[32m",
            FileStatusType::Deleted => "\x1b[31m",
            FileStatusType::Renamed => "\x1b[36m",
            FileStatusType::Untracked => "\x1b[37m",
            FileStatusType::Conflicted => "\x1b[35m",
        }
    }
}

} // verus!
