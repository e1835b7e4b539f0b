//! The domain model: resolutions, conflict hunks and conflicted files.

use vstd::prelude::*;
use crate::text::{all_ws, chars_of, lemma_trim_padded, lines_of, push_char, split_lines, trim, trimmed};

verus! {

/// Which side, or both, of a hunk becomes the final text.
#[derive(Clone, Copy, Debug, PartialEq, Eq, Structural)]
pub enum Resolution {
    /// The text of the current side (HEAD).
    Current,
    /// The text of the incoming side.
    Incoming,
    /// Both sides, each trimmed, joined by one line feed.
    Both,
}

impl Resolution {
    /// A display label for the resolution.
    pub fn as_str(&self) -> (r: &'static str)
        ensures
            r@ == match *self {
                Resolution::Current => "Current (HEAD)"@,
                Resolution::Incoming => "Incoming"@,
                Resolution::Both => "Both"@,
            },
    {
        match self {
            Resolution::Current => "Current (HEAD)",
            Resolution::Incoming => "Incoming",
            Resolution::Both => "Both",
        }
    }
}

/// The kind of version-control operation in progress.
#[derive(Clone, Copy, Debug, PartialEq, Eq, Structural)]
pub enum GitOperation {
    Merge,
    Rebase,
    RebaseInteractive,
}

impl GitOperation {
    /// Is this a rebase of either kind?
    pub open spec fn spec_is_rebase(&self) -> bool {
        *self is Rebase || *self is RebaseInteractive
    }

    /// Is this a rebase of either kind?
    #[verifier::when_used_as_spec(spec_is_rebase)]
    pub fn is_rebase(&self) -> (r: bool)
        ensures
            r == self.spec_is_rebase(),
    {
        match self {
            GitOperation::Merge => false,
            _ => true,
        }
    }

    /// Is this an interactive rebase?
    pub fn is_interactive_rebase(&self) -> (r: bool)
        ensures
            r == (*self is RebaseInteractive),
    {
        match self {
            GitOperation::RebaseInteractive => true,
            _ => false,
        }
    }

    /// A display label for the operation.
    pub fn as_str(&self) -> (r: &'static str)
        ensures
            r@ == match *self {
                GitOperation::Merge => "Merge"@,
                GitOperation::Rebase => "Rebase"@,
                GitOperation::RebaseInteractive => "Interactive Rebase"@,
            },
    {
        match self {
            GitOperation::Merge => "Merge",
            GitOperation::Rebase => "Rebase",
            GitOperation::RebaseInteractive => "Interactive Rebase",
        }
    }
}

/// The operation in progress, from which of the tool's state entries exist:
/// a rebase directory (`rebase-merge` or `rebase-apply`) means a rebase,
/// interactive when the `interactive` marker exists; otherwise `MERGE_HEAD`
/// means a merge; otherwise nothing is in progress.
pub fn detect_git_operation(
    rebase_merge: bool,
    rebase_apply: bool,
    interactive: bool,
    merge_head: bool,
) -> (r: Option<GitOperation>)
    ensures
        r == if rebase_merge || rebase_apply {
            if interactive {
                Some(GitOperation::RebaseInteractive)
            } else {
                Some(GitOperation::Rebase)
            }
        } else if merge_head {
            Some(GitOperation::Merge)
        } else {
            None
        },
{
    if rebase_merge || rebase_apply {
        if interactive {
            return Some(GitOperation::RebaseInteractive);
        }
        return Some(GitOperation::Rebase);
    }
    if merge_head {
        return Some(GitOperation::Merge);
    }
    None
}

/// One conflict region of a file.
#[derive(Clone, Debug)]
pub struct ConflictHunk {
    /// The lines between the start marker and the separator, joined.
    pub current: String,
    /// The lines between the separator and the end marker, joined.
    pub incoming: String,
    /// Index of the start marker line in the original file.
    pub start_line: usize,
    /// Index of the end marker line in the original file.
    pub end_line: usize,
}

impl ConflictHunk {
    /// The text that `resolution` makes of this hunk.
    pub open spec fn resolved(self, resolution: Resolution) -> Seq<char> {
        match resolution {
            Resolution::Current => self.current@,
            Resolution::Incoming => self.incoming@,
            Resolution::Both => trim(self.current@) + seq!['\n'] + trim(self.incoming@),
        }
    }

    /// A hunk with the given sides and marker lines.
    pub fn new(current: String, incoming: String, start_line: usize, end_line: usize) -> (r: Self)
        ensures
            r.current == current,
            r.incoming == incoming,
            r.start_line == start_line,
            r.end_line == end_line,
    {
        ConflictHunk { current, incoming, start_line, end_line }
    }

    /// The text that `resolution` makes of this hunk.
    pub fn resolve(&self, resolution: Resolution) -> (r: String)
        ensures
            r@ == self.resolved(resolution),
    {
        match resolution {
            Resolution::Current => self.current.clone(),
            Resolution::Incoming => self.incoming.clone(),
            Resolution::Both => {
                let mut out = trimmed(self.current.as_str());
                push_char(&mut out, '\n');
                let tail = trimmed(self.incoming.as_str());
                out.append(tail.as_str());
                out
            },
        }
    }
}

/// Resolving as `Both` ignores whitespace padding around either side: a
/// hunk whose sides are those of another with whitespace added before and
/// after resolves to the same text.
pub proof fn law_both_ignores_padding(
    padded: ConflictHunk,
    plain: ConflictHunk,
    pads: (Seq<char>, Seq<char>, Seq<char>, Seq<char>),
)
    requires
        all_ws(pads.0),
        all_ws(pads.1),
        all_ws(pads.2),
        all_ws(pads.3),
        padded.current@ == pads.0 + plain.current@ + pads.1,
        padded.incoming@ == pads.2 + plain.incoming@ + pads.3,
    ensures
        padded.resolved(Resolution::Both) == plain.resolved(Resolution::Both),
{
    lemma_trim_padded(pads.0, plain.current@, pads.1);
    lemma_trim_padded(pads.2, plain.incoming@, pads.3);
}

/// Setting slot `i` completes the file exactly when every other slot is
/// already set.
pub proof fn law_set_completes(slots: Seq<Option<Resolution>>, i: int, resolution: Resolution)
    requires
        0 <= i < slots.len(),
    ensures
        all_set(slots.update(i, Some(resolution))) <==> forall|j: int|
            0 <= j < slots.len() && j != i ==> (#[trigger] slots[j]) is Some,
{
    let next = slots.update(i, Some(resolution));
    if forall|j: int| 0 <= j < slots.len() && j != i ==> (#[trigger] slots[j]) is Some {
        assert forall|j: int| 0 <= j < next.len() implies (#[trigger] next[j]) is Some by {
            if j != i {
                assert(slots[j] is Some);
            }
        }
    }
    if all_set(next) {
        assert forall|j: int| 0 <= j < slots.len() && j != i implies (#[trigger] slots[j]) is Some by {
            assert(next[j] is Some);
        }
    }
}

/// The slots after `set_resolution` is called with each index and
/// resolution of `calls`, in order.
pub open spec fn slots_after_sets(
    slots: Seq<Option<Resolution>>,
    calls: Seq<(usize, Resolution)>,
) -> Seq<Option<Resolution>>
    decreases calls.len(),
{
    if calls.len() == 0 {
        slots
    } else {
        let prev = slots_after_sets(slots, calls.drop_last());
        let (i, resolution) = calls.last();
        if i < prev.len() {
            prev.update(i as int, Some(resolution))
        } else {
            prev
        }
    }
}

/// Does some call of `calls` name index `j`?
pub open spec fn named_by(calls: Seq<(usize, Resolution)>, j: int) -> bool {
    exists|k: int| 0 <= k < calls.len() && (#[trigger] calls[k]).0 == j
}

proof fn lemma_slots_after_sets(slots: Seq<Option<Resolution>>, calls: Seq<(usize, Resolution)>)
    ensures
        slots_after_sets(slots, calls).len() == slots.len(),
        forall|j: int|
            0 <= j < slots.len() ==> ((#[trigger] slots_after_sets(slots, calls)[j]) is Some
                <==> (slots[j] is Some || named_by(calls, j))),
    decreases calls.len(),
{
    if calls.len() > 0 {
        let earlier = calls.drop_last();
        lemma_slots_after_sets(slots, earlier);
        let prev = slots_after_sets(slots, earlier);
        let (i, resolution) = calls.last();
        assert forall|j: int| 0 <= j < slots.len() implies ((#[trigger] slots_after_sets(
            slots,
            calls,
        )[j]) is Some <==> (slots[j] is Some || named_by(calls, j))) by {
            assert(prev[j] is Some <==> (slots[j] is Some || named_by(earlier, j)));
            if named_by(earlier, j) {
                let k = choose|k: int| 0 <= k < earlier.len() && (#[trigger] earlier[k]).0 == j;
                assert(calls[k] == earlier[k]);
            }
            if named_by(calls, j) {
                let k = choose|k: int| 0 <= k < calls.len() && (#[trigger] calls[k]).0 == j;
                if k < earlier.len() {
                    assert(earlier[k] == calls[k]);
                } else {
                    assert(calls[k] == calls.last());
                }
            }
            if i == j {
                assert(calls[calls.len() - 1].0 == j);
            }
        }
    }
}

/// Starting from a file with no slot set, after any sequence of
/// `set_resolution` calls the file is fully resolved exactly when every
/// index was named by some call.
pub proof fn law_fully_resolved_after_sets(n: nat, calls: Seq<(usize, Resolution)>)
    ensures
        all_set(slots_after_sets(Seq::new(n, |i: int| None::<Resolution>), calls)) <==> forall|
            j: int,
        |
            0 <= j < n ==> named_by(calls, j),
{
    let start = Seq::new(n, |i: int| None::<Resolution>);
    let last = slots_after_sets(start, calls);
    lemma_slots_after_sets(start, calls);
    if all_set(last) {
        assert forall|j: int| 0 <= j < n implies named_by(calls, j) by {
            assert(last[j] is Some);
        }
    }
    if forall|j: int| 0 <= j < n ==> named_by(calls, j) {
        assert forall|j: int| 0 <= j < last.len() implies (#[trigger] last[j]) is Some by {
            assert(named_by(calls, j));
        }
    }
}

/// Clearing slot `i` leaves the file unresolved and every other slot as it
/// was.
pub proof fn law_clear_reverts_one(slots: Seq<Option<Resolution>>, i: int)
    requires
        0 <= i < slots.len(),
    ensures
        !all_set(slots.update(i, None)),
        forall|j: int| 0 <= j < slots.len() && j != i ==> #[trigger] slots.update(i, None)[j] == slots[j],
{
    assert(slots.update(i, None)[i] is None);
}

/// Is every slot set?
pub open spec fn all_set(slots: Seq<Option<Resolution>>) -> bool {
    forall|i: int| 0 <= i < slots.len() ==> (#[trigger] slots[i]) is Some
}

/// The number of set slots.
pub open spec fn count_set(slots: Seq<Option<Resolution>>) -> nat
    decreases slots.len(),
{
    if slots.len() == 0 {
        0
    } else {
        count_set(slots.drop_last()) + if slots.last() is Some {
            1nat
        } else {
            0nat
        }
    }
}

/// Hunks that lie inside a text of `n` lines, each starting no later than it
/// ends, in file order and without overlap.
pub open spec fn hunks_laid_out(hunks: Seq<ConflictHunk>, n: int) -> bool {
    &&& forall|i: int|
        0 <= i < hunks.len() ==> (#[trigger] hunks[i]).start_line <= hunks[i].end_line < n
    &&& forall|i: int|
        0 <= i < hunks.len() - 1 ==> (#[trigger] hunks[i]).end_line < hunks[i + 1].start_line
}

/// Relies on `std::path::Path::file_name`: the final component of a path, if
/// it is a normal one.
pub uninterp spec fn final_component(path: Seq<char>) -> Option<Seq<char>>;

/// Relies on `std::path::Path::file_name` for the final component of `path`.
#[verifier::external_body]
fn path_file_name(path: &str) -> (r: Option<String>)
    ensures
        match r {
            Some(name) => final_component(path@) == Some(name@),
            None => final_component(path@) is None,
        },
{
    std::path::Path::new(path).file_name().map(|n| n.to_string_lossy().into_owned())
}

/// A file with conflicts and the resolution chosen for each of them.
#[derive(Clone, Debug)]
pub struct ConflictedFile {
    /// Where the file lives.
    pub path: String,
    /// The conflicts, in file order.
    pub conflicts: Vec<ConflictHunk>,
    /// Slot `i` holds the resolution of `conflicts[i]`, if one was chosen.
    pub resolutions: Vec<Option<Resolution>>,
    /// The full text of the file as it was read.
    pub original_content: String,
}

impl ConflictedFile {
    /// One resolution slot per conflict.
    pub open spec fn slots_match(self) -> bool {
        self.resolutions@.len() == self.conflicts@.len()
    }

    /// One slot per conflict, and the conflicts laid out in order inside the
    /// lines of the original text.
    pub open spec fn wf(self) -> bool {
        &&& self.slots_match()
        &&& hunks_laid_out(self.conflicts@, lines_of(self.original_content@).len() as int)
    }

    /// A file with the given conflicts, none of them resolved yet.
    pub fn new(path: String, conflicts: Vec<ConflictHunk>, original_content: String) -> (r: Self)
        ensures
            r.path == path,
            r.conflicts == conflicts,
            r.original_content == original_content,
            r.resolutions@ == Seq::new(conflicts@.len(), |i: int| None::<Resolution>),
            r.slots_match(),
    {
        let mut resolutions: Vec<Option<Resolution>> = Vec::new();
        let n = conflicts.len();
        while resolutions.len() < n
            invariant
                resolutions@.len() <= n,
                forall|i: int| 0 <= i < resolutions@.len() ==> (#[trigger] resolutions@[i]) is None,
            decreases n - resolutions@.len(),
        {
            resolutions.push(None);
        }
        assert(resolutions@ =~= Seq::new(conflicts@.len(), |i: int| None::<Resolution>));
        ConflictedFile { path, conflicts, resolutions, original_content }
    }

    /// Is every conflict resolved?
    pub fn is_fully_resolved(&self) -> (r: bool)
        ensures
            r == all_set(self.resolutions@),
    {
        let mut i: usize = 0;
        while i < self.resolutions.len()
            invariant
                i <= self.resolutions@.len(),
                forall|j: int| 0 <= j < i ==> (#[trigger] self.resolutions@[j]) is Some,
            decreases self.resolutions.len() - i,
        {
            if self.resolutions[i].is_none() {
                return false;
            }
            i = i + 1;
        }
        true
    }

    /// How many conflicts are resolved.
    pub fn resolved_count(&self) -> (r: usize)
        ensures
            r == count_set(self.resolutions@),
    {
        let mut count: usize = 0;
        let mut i: usize = 0;
        while i < self.resolutions.len()
            invariant
                i <= self.resolutions@.len(),
                count == count_set(self.resolutions@.subrange(0, i as int)),
                count <= i,
            decreases self.resolutions.len() - i,
        {
            assert(self.resolutions@.subrange(0, i + 1).drop_last()
                =~= self.resolutions@.subrange(0, i as int));
            if self.resolutions[i].is_some() {
                count = count + 1;
            }
            i = i + 1;
        }
        assert(self.resolutions@.subrange(0, i as int) =~= self.resolutions@);
        count
    }

    /// How many conflicts the file has.
    pub fn total_conflicts(&self) -> (r: usize)
        ensures
            r == self.conflicts@.len(),
    {
        self.conflicts.len()
    }

    /// Chooses `resolution` for conflict `conflict_index`; an index out of
    /// range changes nothing.
    pub fn set_resolution(&mut self, conflict_index: usize, resolution: Resolution)
        ensures
            final(self).path == old(self).path,
            final(self).conflicts == old(self).conflicts,
            final(self).original_content == old(self).original_content,
            final(self).resolutions@ == if conflict_index < old(self).resolutions@.len() {
                old(self).resolutions@.update(conflict_index as int, Some(resolution))
            } else {
                old(self).resolutions@
            },
            final(self).resolutions@ == slots_after_sets(
                old(self).resolutions@,
                seq![(conflict_index, resolution)],
            ),
            old(self).wf() ==> final(self).wf(),
    {
        let ghost one = seq![(conflict_index, resolution)];
        assert(one.drop_last() =~= Seq::<(usize, Resolution)>::empty());
        assert(one.last() == (conflict_index, resolution));
        let ghost before = self.resolutions@;
        assert(slots_after_sets(before, one.drop_last()) == before);
        if conflict_index < self.resolutions.len() {
            self.resolutions.set(conflict_index, Some(resolution));
        }
    }

    /// Withdraws the resolution of conflict `conflict_index`; an index out of
    /// range changes nothing.
    pub fn clear_resolution(&mut self, conflict_index: usize)
        ensures
            final(self).path == old(self).path,
            final(self).conflicts == old(self).conflicts,
            final(self).original_content == old(self).original_content,
            final(self).resolutions@ == if conflict_index < old(self).resolutions@.len() {
                old(self).resolutions@.update(conflict_index as int, None)
            } else {
                old(self).resolutions@
            },
            old(self).wf() ==> final(self).wf(),
    {
        if conflict_index < self.resolutions.len() {
            self.resolutions.set(conflict_index, None);
        }
    }

    /// The last component of the path, or `Unknown` where it has none.
    pub fn file_name(&self) -> (r: String)
        ensures
            r@ == match final_component(self.path@) {
                Some(name) => name,
                None => "Unknown"@,
            },
    {
        match path_file_name(self.path.as_str()) {
            Some(name) => name,
            None => String::from_str("Unknown"),
        }
    }

    /// The path as text.
    pub fn path_string(&self) -> (r: String)
        ensures
            r@ == self.path@,
    {
        self.path.clone()
    }

    /// Whether the conflicts lie in order inside the lines of the original
    /// text, with one resolution slot each.
    pub fn is_well_formed(&self) -> (r: bool)
        ensures
            r == self.wf(),
    {
        if self.resolutions.len() != self.conflicts.len() {
            return false;
        }
        let chars = chars_of(self.original_content.as_str());
        let lines = split_lines(&chars);
        let n = lines.len();
        let ghost hunks = self.conflicts@;
        let mut i: usize = 0;
        while i < self.conflicts.len()
            invariant
                i <= hunks.len(),
                hunks == self.conflicts@,
                n == lines_of(self.original_content@).len(),
                forall|j: int|
                    0 <= j < i ==> (#[trigger] hunks[j]).start_line <= hunks[j].end_line < n,
                forall|j: int|
                    0 <= j < i as int - 1 ==> (#[trigger] hunks[j]).end_line < hunks[j
                        + 1].start_line,
            decreases hunks.len() - i,
        {
            let h = &self.conflicts[i];
            if h.start_line > h.end_line || h.end_line >= n {
                return false;
            }
            if i > 0 && self.conflicts[i - 1].end_line >= h.start_line {
                return false;
            }
            i = i + 1;
        }
        true
    }
}

} // verus!
