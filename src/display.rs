//! The lines that the code view shows for a file: the untouched lines, and
//! for each conflict its markers (while unresolved) and the sides that are
//! still in play, each line tagged with its role.

use vstd::prelude::*;
use crate::applier::resume_line;
use crate::domain::{ConflictHunk, ConflictedFile, Resolution};
use crate::text::{chars_of, lines_of, split_lines, string_of, views};

verus! {

/// What a shown line is.
#[derive(Clone, Copy, Debug, PartialEq, Eq, Structural)]
pub enum LineRole {
    /// A line outside every conflict.
    Plain,
    /// The start marker of an unresolved conflict; `active` for the current
    /// conflict.
    StartMarker { active: bool },
    /// The separator of an unresolved conflict.
    Separator,
    /// The end marker of an unresolved conflict.
    EndMarker { active: bool },
    /// A line of the current side.
    CurrentSide { resolved: bool },
    /// A line of the incoming side.
    IncomingSide { resolved: bool },
}

/// A shown line: its role and its text (empty for markers).
#[derive(Clone, Debug)]
pub struct DisplayLine {
    pub role: LineRole,
    pub text: String,
}

/// The roles and texts of shown lines.
pub open spec fn display_views(lines: Seq<DisplayLine>) -> Seq<(LineRole, Seq<char>)> {
    lines.map_values(|d: DisplayLine| (d.role, d.text@))
}

/// Each line tagged with `role`.
pub open spec fn tagged(lines: Seq<Seq<char>>, role: LineRole) -> Seq<(LineRole, Seq<char>)> {
    lines.map_values(|l: Seq<char>| (role, l))
}

/// A marker line with the given role, if `shown`.
pub open spec fn marker_if(shown: bool, role: LineRole) -> Seq<(LineRole, Seq<char>)> {
    if shown {
        seq![(role, Seq::<char>::empty())]
    } else {
        Seq::empty()
    }
}

/// The lines of one side with the given role, if `shown`.
pub open spec fn side_if(shown: bool, text: Seq<char>, role: LineRole) -> Seq<(LineRole, Seq<char>)> {
    if shown {
        tagged(lines_of(text), role)
    } else {
        Seq::empty()
    }
}

/// The lines shown for one conflict: markers while it is unresolved, the
/// current side unless `Incoming` was chosen, the incoming side unless
/// `Current` was chosen.
pub open spec fn conflict_block(h: ConflictHunk, slot: Option<Resolution>, active: bool) -> Seq<
    (LineRole, Seq<char>),
> {
    let open = slot is None;
    let resolved = slot is Some;
    marker_if(open, LineRole::StartMarker { active }) + side_if(
        slot != Some(Resolution::Incoming),
        h.current@,
        LineRole::CurrentSide { resolved },
    ) + marker_if(open, LineRole::Separator) + side_if(
        slot != Some(Resolution::Current),
        h.incoming@,
        LineRole::IncomingSide { resolved },
    ) + marker_if(open, LineRole::EndMarker { active })
}

/// The lines shown for the first `k` conflicts, with conflict `current`
/// marked active.
pub open spec fn shown_upto(
    lines: Seq<Seq<char>>,
    hunks: Seq<ConflictHunk>,
    slots: Seq<Option<Resolution>>,
    current: int,
    k: nat,
) -> Seq<(LineRole, Seq<char>)>
    decreases k,
{
    if k == 0 {
        Seq::empty()
    } else {
        let i = k - 1;
        shown_upto(lines, hunks, slots, current, i as nat) + tagged(
            lines.subrange(resume_line(hunks, i), hunks[i].start_line as int),
            LineRole::Plain,
        ) + conflict_block(hunks[i], slots[i], i == current)
    }
}

/// The lines the code view shows for `file`, conflict `current` active.
pub open spec fn shown_lines(file: ConflictedFile, current: int) -> Seq<(LineRole, Seq<char>)> {
    let lines = lines_of(file.original_content@);
    let n = file.conflicts@.len();
    shown_upto(lines, file.conflicts@, file.resolutions@, current, n) + tagged(
        lines.subrange(resume_line(file.conflicts@, n as int), lines.len() as int),
        LineRole::Plain,
    )
}

/// Appends `lines[from..to]`, each with `role`.
fn push_tagged(
    out: &mut Vec<DisplayLine>,
    lines: &Vec<Vec<char>>,
    from: usize,
    to: usize,
    role: LineRole,
)
    requires
        from <= to <= lines@.len(),
    ensures
        display_views(final(out)@) == display_views(old(out)@) + tagged(
            views(lines@).subrange(from as int, to as int),
            role,
        ),
{
    let mut i: usize = from;
    while i < to
        invariant
            from <= i <= to <= lines@.len(),
            display_views(out@) == display_views(old(out)@) + tagged(
                views(lines@).subrange(from as int, i as int),
                role,
            ),
        decreases to - i,
    {
        let line = &lines[i];
        let text = string_of(line, 0, line.len());
        assert(text@ =~= lines@[i as int]@);
        let ghost before = out@;
        out.push(DisplayLine { role, text });
        assert(display_views(out@) =~= display_views(before).push((role, lines@[i as int]@)));
        i = i + 1;
        assert(display_views(out@) =~= display_views(old(out)@) + tagged(
            views(lines@).subrange(from as int, i as int),
            role,
        ));
    }
}

/// Appends a marker line with `role`, if `shown`.
fn push_marker(out: &mut Vec<DisplayLine>, shown: bool, role: LineRole)
    ensures
        display_views(final(out)@) == display_views(old(out)@) + marker_if(shown, role),
{
    if shown {
        let ghost before = out@;
        out.push(DisplayLine { role, text: String::new() });
        assert(display_views(out@) =~= display_views(before) + marker_if(shown, role));
    } else {
        assert(display_views(out@) =~= display_views(old(out)@) + marker_if(shown, role));
    }
}

/// Appends the lines of `text` with `role`, if `shown`.
fn push_side(out: &mut Vec<DisplayLine>, shown: bool, text: &String, role: LineRole)
    ensures
        display_views(final(out)@) == display_views(old(out)@) + side_if(shown, text@, role),
{
    if shown {
        let chars = chars_of(text.as_str());
        let lines = split_lines(&chars);
        push_tagged(out, &lines, 0, lines.len(), role);
        assert(views(lines@).subrange(0, lines@.len() as int) =~= views(lines@));
    } else {
        assert(display_views(out@) =~= display_views(old(out)@) + side_if(shown, text@, role));
    }
}

impl ConflictedFile {
    /// The lines the code view shows, with conflict `current` active.
    pub fn display_lines(&self, current: usize) -> (r: Vec<DisplayLine>)
        requires
            self.wf(),
        ensures
            display_views(r@) == shown_lines(*self, current as int),
    {
        let chars = chars_of(self.original_content.as_str());
        let lines = split_lines(&chars);
        let ghost all = lines_of(self.original_content@);
        let ghost hunks = self.conflicts@;
        let ghost slots = self.resolutions@;
        let n = self.conflicts.len();
        let nlines = lines.len();
        assert(all.len() == nlines);
        let mut out: Vec<DisplayLine> = Vec::new();
        let mut cursor: usize = 0;
        let mut k: usize = 0;
        assert(display_views(out@) =~= Seq::<(LineRole, Seq<char>)>::empty());
        while k < n
            invariant
                k <= n == hunks.len() == slots.len(),
                self.wf(),
                hunks == self.conflicts@,
                slots == self.resolutions@,
                all == views(lines@),
                all.len() == nlines,
                all == lines_of(self.original_content@),
                cursor == resume_line(hunks, k as int),
                cursor <= all.len(),
                k < n ==> cursor <= hunks[k as int].start_line,
                display_views(out@) == shown_upto(all, hunks, slots, current as int, k as nat),
            decreases n - k,
        {
            let h = &self.conflicts[k];
            assert(hunks[k as int].start_line <= hunks[k as int].end_line < all.len());
            assert(k + 1 < n ==> hunks[k as int].end_line < hunks[k + 1].start_line);
            push_tagged(&mut out, &lines, cursor, h.start_line, LineRole::Plain);
            let slot = self.resolutions[k];
            let open = slot.is_none();
            let resolved = slot.is_some();
            let active = k == current;
            let show_current = match slot {
                Some(Resolution::Incoming) => false,
                _ => true,
            };
            let show_incoming = match slot {
                Some(Resolution::Current) => false,
                _ => true,
            };
            push_marker(&mut out, open, LineRole::StartMarker { active });
            push_side(&mut out, show_current, &h.current, LineRole::CurrentSide { resolved });
            push_marker(&mut out, open, LineRole::Separator);
            push_side(&mut out, show_incoming, &h.incoming, LineRole::IncomingSide { resolved });
            push_marker(&mut out, open, LineRole::EndMarker { active });
            cursor = h.end_line + 1;
            k = k + 1;
            assert(display_views(out@) =~= shown_upto(all, hunks, slots, current as int, k as nat));
        }
        push_tagged(&mut out, &lines, cursor, lines.len(), LineRole::Plain);
        assert(display_views(out@) =~= shown_lines(*self, current as int));
        out
    }
}

} // verus!
