//! Rebuilding a file's text from its chosen resolutions.
//!
//! The lines before each conflict are kept, the conflict's marker lines and
//! both sides are replaced by the lines of the chosen resolution, and the
//! lines after the last conflict are kept. The result ends with a line feed
//! exactly when the original text did. Writing the result to disk is left to
//! the caller, which only gets text to write once every conflict is resolved.

use vstd::prelude::*;
use crate::domain::{all_set, count_set, ConflictHunk, ConflictedFile, Resolution};
use crate::text::{
    chars_of, ends_with_newline, join_lines, lemma_join_ends, lemma_lines_no_newline, lines_of,
    no_newline, push_char, push_joined, split_lines, views,
};

verus! {

/// Why resolved text could not be produced or written.
#[derive(Clone, Debug)]
pub enum ApplyError {
    /// Some conflict has no resolution yet.
    NotFullyResolved { resolved: usize, total: usize },
    /// Writing the file failed.
    Io { path: String, cause: String },
}

/// The first original line after conflict `k - 1`, or 0 when `k` is 0.
pub open spec fn resume_line(hunks: Seq<ConflictHunk>, k: int) -> int {
    if k <= 0 {
        0
    } else {
        hunks[k - 1].end_line + 1
    }
}

/// The lines emitted for the first `k` conflicts: for each, the untouched
/// lines before it, then the lines of its resolved text.
pub open spec fn emitted(
    lines: Seq<Seq<char>>,
    hunks: Seq<ConflictHunk>,
    slots: Seq<Option<Resolution>>,
    k: nat,
) -> Seq<Seq<char>>
    decreases k,
{
    if k == 0 {
        Seq::empty()
    } else {
        let i = k - 1;
        emitted(lines, hunks, slots, i as nat) + lines.subrange(
            resume_line(hunks, i),
            hunks[i].start_line as int,
        ) + lines_of(hunks[i].resolved(slots[i]->Some_0))
    }
}

/// The lines of the resolved file.
pub open spec fn output_lines(file: ConflictedFile) -> Seq<Seq<char>> {
    let lines = lines_of(file.original_content@);
    let n = file.conflicts@.len();
    emitted(lines, file.conflicts@, file.resolutions@, n) + lines.subrange(
        resume_line(file.conflicts@, n as int),
        lines.len() as int,
    )
}

/// The lines without the empty lines at their end.
pub open spec fn drop_trailing_empty(lines: Seq<Seq<char>>) -> Seq<Seq<char>>
    decreases lines.len(),
{
    if lines.len() > 0 && lines.last().len() == 0 {
        drop_trailing_empty(lines.drop_last())
    } else {
        lines
    }
}

/// The text of the resolved file. Where the original text ends with a line
/// feed, its lines joined and a final line feed; where it does not, its lines
/// without the empty lines at their end, joined, so that no final line feed
/// appears.
pub open spec fn resolved_text(file: ConflictedFile) -> Seq<char> {
    if ends_with_newline(file.original_content@) {
        join_lines(output_lines(file)) + seq!['\n']
    } else {
        join_lines(drop_trailing_empty(output_lines(file)))
    }
}

proof fn lemma_emitted_no_newline(
    lines: Seq<Seq<char>>,
    hunks: Seq<ConflictHunk>,
    slots: Seq<Option<Resolution>>,
    k: nat,
)
    requires
        forall|i: int| 0 <= i < lines.len() ==> no_newline(#[trigger] lines[i]),
        k <= hunks.len(),
        forall|i: int|
            0 <= i < k ==> resume_line(hunks, i) <= (#[trigger] hunks[i]).start_line <= lines.len(),
    ensures
        forall|i: int|
            0 <= i < emitted(lines, hunks, slots, k).len() ==> no_newline(
                #[trigger] emitted(lines, hunks, slots, k)[i],
            ),
    decreases k,
{
    if k > 0 {
        let j = k - 1;
        lemma_emitted_no_newline(lines, hunks, slots, j as nat);
        let prev = emitted(lines, hunks, slots, j as nat);
        let kept = lines.subrange(resume_line(hunks, j), hunks[j].start_line as int);
        let added = lines_of(hunks[j].resolved(slots[j]->Some_0));
        lemma_lines_no_newline(hunks[j].resolved(slots[j]->Some_0));
        let all = emitted(lines, hunks, slots, k);
        assert(all == prev + kept + added);
        assert forall|i: int| 0 <= i < all.len() implies no_newline(#[trigger] all[i]) by {
            if i < prev.len() {
                assert(all[i] == prev[i]);
            } else if i < prev.len() + kept.len() {
                assert(all[i] == kept[i - prev.len()]);
            } else {
                assert(all[i] == added[i - prev.len() - kept.len()]);
            }
        }
    }
}

proof fn lemma_drop_trailing_empty(lines: Seq<Seq<char>>)
    requires
        forall|i: int| 0 <= i < lines.len() ==> no_newline(#[trigger] lines[i]),
    ensures
        forall|i: int|
            0 <= i < drop_trailing_empty(lines).len() ==> no_newline(
                #[trigger] drop_trailing_empty(lines)[i],
            ),
        drop_trailing_empty(lines).len() == 0 || drop_trailing_empty(lines).last().len() > 0,
    decreases lines.len(),
{
    if lines.len() > 0 && lines.last().len() == 0 {
        let shorter = lines.drop_last();
        assert forall|i: int| 0 <= i < shorter.len() implies no_newline(#[trigger] shorter[i]) by {
            assert(shorter[i] == lines[i]);
        }
        lemma_drop_trailing_empty(shorter);
    }
}

/// The resolved text ends with a line feed exactly when the original text
/// does.
pub proof fn law_trailing_newline_kept(file: ConflictedFile)
    requires
        file.wf(),
        all_set(file.resolutions@),
    ensures
        ends_with_newline(resolved_text(file)) <==> ends_with_newline(file.original_content@),
{
    let lines = lines_of(file.original_content@);
    let hunks = file.conflicts@;
    let n = hunks.len();
    lemma_lines_no_newline(file.original_content@);
    assert forall|i: int| 0 <= i < n implies resume_line(hunks, i) <= (#[trigger] hunks[i]).start_line
        <= lines.len() by {
        assert(hunks[i].start_line <= hunks[i].end_line < lines.len());
        if i > 0 {
            assert(hunks[i - 1].end_line < hunks[i].start_line);
        }
    }
    lemma_emitted_no_newline(lines, hunks, file.resolutions@, n);
    let prefix = emitted(lines, hunks, file.resolutions@, n);
    let rest = lines.subrange(resume_line(hunks, n as int), lines.len() as int);
    if n > 0 {
        assert(hunks[n - 1].start_line <= hunks[n - 1].end_line < lines.len());
    }
    let out = output_lines(file);
    assert(out == prefix + rest);
    assert forall|i: int| 0 <= i < out.len() implies no_newline(#[trigger] out[i]) by {
        if i < prefix.len() {
            assert(out[i] == prefix[i]);
        } else {
            assert(out[i] == rest[i - prefix.len()]);
        }
    }
    if !ends_with_newline(file.original_content@) {
        lemma_drop_trailing_empty(out);
        lemma_join_ends(drop_trailing_empty(out));
    } else {
        let t = join_lines(out) + seq!['\n'];
        assert(t.last() == '\n');
    }
}

/// The name of the temporary file that the resolved text of the file named
/// `file_name` is written to before it replaces the file:
/// `.<file_name>.enkai.tmp`, in the same directory.
pub fn temp_file_name(file_name: &str) -> (r: String)
    ensures
        r@ == seq!['.'] + file_name@ + ".enkai.tmp"@,
{
    let mut out = String::from_str(".");
    proof {
        reveal_strlit(".");
    }
    out.append(file_name);
    out.append(".enkai.tmp");
    assert(out@ =~= seq!['.'] + file_name@ + ".enkai.tmp"@);
    out
}

/// Removes the empty lines at the end of `out`.
fn drop_empty_tail(out: &mut Vec<Vec<char>>)
    ensures
        views(final(out)@) == drop_trailing_empty(views(old(out)@)),
{
    while out.len() > 0 && out[out.len() - 1].len() == 0
        invariant
            drop_trailing_empty(views(out@)) == drop_trailing_empty(views(old(out)@)),
        decreases out@.len(),
    {
        let ghost before = out@;
        out.pop();
        assert(views(out@) =~= views(before).drop_last());
    }
}

/// Appends copies of `lines[from..to]` to `out`.
fn append_lines(out: &mut Vec<Vec<char>>, lines: &Vec<Vec<char>>, from: usize, to: usize)
    requires
        from <= to <= lines@.len(),
    ensures
        views(final(out)@) == views(old(out)@) + views(lines@).subrange(from as int, to as int),
{
    let mut i: usize = from;
    while i < to
        invariant
            from <= i <= to <= lines@.len(),
            views(out@) == views(old(out)@) + views(lines@).subrange(from as int, i as int),
        decreases to - i,
    {
        let copy = lines[i].clone();
        assert(copy@ =~= lines@[i as int]@);
        let ghost before = out@;
        out.push(copy);
        assert(views(out@) =~= views(before).push(copy@));
        i = i + 1;
        assert(views(out@) =~= views(old(out)@) + views(lines@).subrange(from as int, i as int));
    }
}

impl ConflictedFile {
    /// The text of the file with every conflict replaced by its chosen
    /// resolution, or `NotFullyResolved` with the counts when some conflict
    /// has none.
    pub fn resolved_content(&self) -> (r: Result<String, ApplyError>)
        requires
            self.wf(),
        ensures
            r is Ok <==> all_set(self.resolutions@),
            r matches Ok(text) ==> text@ == resolved_text(*self),
            r matches Ok(text) ==> (ends_with_newline(text@) <==> ends_with_newline(
                self.original_content@,
            )),
            r matches Err(e) ==> e == (ApplyError::NotFullyResolved {
                resolved: count_set(self.resolutions@) as usize,
                total: self.conflicts@.len() as usize,
            }),
    {
        if !self.is_fully_resolved() {
            return Err(
                ApplyError::NotFullyResolved {
                    resolved: self.resolved_count(),
                    total: self.total_conflicts(),
                },
            );
        }
        let chars = chars_of(self.original_content.as_str());
        let lines = split_lines(&chars);
        let ghost all = lines_of(self.original_content@);
        let ghost hunks = self.conflicts@;
        let ghost slots = self.resolutions@;
        let n = self.conflicts.len();
        let nlines = lines.len();
        assert(all.len() == nlines);
        let mut out: Vec<Vec<char>> = Vec::new();
        let mut cursor: usize = 0;
        let mut k: usize = 0;
        assert(views(out@) =~= Seq::<Seq<char>>::empty());
        while k < n
            invariant
                k <= n == hunks.len() == slots.len(),
                self.wf(),
                all_set(slots),
                hunks == self.conflicts@,
                slots == self.resolutions@,
                all == views(lines@),
                all.len() == nlines,
                all == lines_of(self.original_content@),
                cursor == resume_line(hunks, k as int),
                cursor <= all.len(),
                k < n ==> cursor <= hunks[k as int].start_line,
                views(out@) == emitted(all, hunks, slots, k as nat),
            decreases n - k,
        {
            let h = &self.conflicts[k];
            assert(hunks[k as int].start_line <= hunks[k as int].end_line < all.len());
            assert(k + 1 < n ==> hunks[k as int].end_line < hunks[k + 1].start_line);
            append_lines(&mut out, &lines, cursor, h.start_line);
            assert(slots[k as int] is Some);
            let choice = self.resolutions[k].unwrap();
            let text = h.resolve(choice);
            let text_chars = chars_of(text.as_str());
            let text_lines = split_lines(&text_chars);
            append_lines(&mut out, &text_lines, 0, text_lines.len());
            assert(views(text_lines@).subrange(0, text_lines@.len() as int) =~= views(
                text_lines@,
            ));
            cursor = h.end_line + 1;
            k = k + 1;
            assert(views(out@) =~= emitted(all, hunks, slots, k as nat));
        }
        append_lines(&mut out, &lines, cursor, lines.len());
        assert(views(out@) =~= output_lines(*self));
        let len = chars.len();
        let keeps_newline = len > 0 && chars[len - 1] == '\n';
        if !keeps_newline {
            drop_empty_tail(&mut out);
        }
        let mut text = String::new();
        push_joined(&mut text, &out, 0, out.len());
        assert(views(out@).subrange(0, out@.len() as int) =~= views(out@));
        if keeps_newline {
            push_char(&mut text, '\n');
        }
        assert(text@ =~= resolved_text(*self));
        proof {
            law_trailing_newline_kept(*self);
        }
        Ok(text)
    }
}

} // verus!
