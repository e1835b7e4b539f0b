//! Locating and parsing conflict-marker regions in a file's text.
//!
//! A region is a line starting with `<<<<<<<`, then the first later line
//! starting with `=======`, then the first line after that starting with
//! `>>>>>>>`. Scanning resumes after the end marker, so regions never
//! overlap. The lines are read by a small automaton, `scan`, whose phase says
//! whether the reader is outside a region, on the current side or on the
//! incoming side.

use vstd::prelude::*;
use crate::domain::{ConflictHunk, ConflictedFile};
use crate::text::{chars_of, has_prefix, join_lines, lines_of, push_joined, split_lines, starts_with, views};

verus! {

/// Which marker a malformed region lacks.
#[derive(Clone, Copy, Debug, PartialEq, Eq, Structural)]
pub enum MalformedKind {
    MissingSeparator,
    MissingEndMarker,
}

/// Why a text could not be parsed.
#[derive(Clone, Copy, Debug, PartialEq, Eq, Structural)]
pub enum ParseError {
    /// A region lacks a marker; `line` is the 1-based line of the start
    /// marker (missing separator) or of the separator (missing end marker).
    MalformedConflict { kind: MalformedKind, line: usize },
    /// The text holds no conflict region.
    NoConflictsFound,
}

/// A marker: seven copies of `c`.
pub open spec fn marker(c: char) -> Seq<char> {
    Seq::new(7, |_i: int| c)
}

/// The line indices of one region's start marker, separator and end marker.
pub struct Region {
    pub start: nat,
    pub sep: nat,
    pub end: nat,
}

/// Where the scan stands after some lines.
pub enum ScanPhase {
    Outside,
    InCurrent { start: nat },
    InIncoming { start: nat, sep: nat },
}

/// One step of the scan: line `k` read in the state `acc`.
pub open spec fn scan_step(acc: (Seq<Region>, ScanPhase), k: nat, line: Seq<char>) -> (
    Seq<Region>,
    ScanPhase,
) {
    match acc.1 {
        ScanPhase::Outside => if starts_with(line, marker('<')) {
            (acc.0, ScanPhase::InCurrent { start: k })
        } else {
            acc
        },
        ScanPhase::InCurrent { start } => if starts_with(line, marker('=')) {
            (acc.0, ScanPhase::InIncoming { start, sep: k })
        } else {
            acc
        },
        ScanPhase::InIncoming { start, sep } => if starts_with(line, marker('>')) {
            (acc.0.push(Region { start, sep, end: k }), ScanPhase::Outside)
        } else {
            acc
        },
    }
}

/// The regions completed, and the phase, after reading the first `n` lines.
pub open spec fn scan(lines: Seq<Seq<char>>, n: nat) -> (Seq<Region>, ScanPhase)
    decreases n,
{
    if n == 0 || n > lines.len() {
        (Seq::empty(), ScanPhase::Outside)
    } else {
        scan_step(scan(lines, (n - 1) as nat), (n - 1) as nat, lines[n - 1])
    }
}

/// What parsing `text` yields: its regions, or the error.
pub open spec fn parse_result(text: Seq<char>) -> Result<Seq<Region>, ParseError> {
    let lines = lines_of(text);
    let (regions, phase) = scan(lines, lines.len());
    match phase {
        ScanPhase::Outside => if regions.len() == 0 {
            Err(ParseError::NoConflictsFound)
        } else {
            Ok(regions)
        },
        ScanPhase::InCurrent { start } => Err(
            ParseError::MalformedConflict {
                kind: MalformedKind::MissingSeparator,
                line: (start + 1) as usize,
            },
        ),
        ScanPhase::InIncoming { start, sep } => Err(
            ParseError::MalformedConflict {
                kind: MalformedKind::MissingEndMarker,
                line: (sep + 1) as usize,
            },
        ),
    }
}

/// The hunk holds the region's marker lines and the two sides between them.
pub open spec fn hunk_of_region(h: ConflictHunk, lines: Seq<Seq<char>>, reg: Region) -> bool {
    &&& h.start_line == reg.start
    &&& h.end_line == reg.end
    &&& h.current@ == join_lines(lines.subrange(reg.start as int + 1, reg.sep as int))
    &&& h.incoming@ == join_lines(lines.subrange(reg.sep as int + 1, reg.end as int))
}

/// Regions inside `n` lines, each with its markers in order, the regions in
/// file order without overlap.
pub open spec fn regions_ordered(regions: Seq<Region>, n: int) -> bool {
    &&& forall|i: int|
        0 <= i < regions.len() ==> (#[trigger] regions[i]).start < regions[i].sep < regions[i].end
            < n
    &&& forall|i: int|
        0 <= i < regions.len() - 1 ==> (#[trigger] regions[i]).end < regions[i + 1].start
}

/// The scan keeps its regions ordered, and an open region starts after the
/// last completed one.
pub proof fn lemma_scan_ordered(lines: Seq<Seq<char>>, n: nat)
    requires
        n <= lines.len(),
    ensures
        regions_ordered(scan(lines, n).0, n as int),
        match scan(lines, n).1 {
            ScanPhase::Outside => true,
            ScanPhase::InCurrent { start } => start < n && (scan(lines, n).0.len() > 0
                ==> scan(lines, n).0.last().end < start),
            ScanPhase::InIncoming { start, sep } => start < sep < n && (scan(lines, n).0.len()
                > 0 ==> scan(lines, n).0.last().end < start),
        },
    decreases n,
{
    if n > 0 {
        lemma_scan_ordered(lines, (n - 1) as nat);
    }
}

/// Which marker a line starts with: 1 for a start marker, 2 for a
/// separator, 3 for an end marker, 0 for none.
pub open spec fn marker_tag(line: Seq<char>) -> int {
    if starts_with(line, marker('<')) {
        1
    } else if starts_with(line, marker('=')) {
        2
    } else if starts_with(line, marker('>')) {
        3
    } else {
        0
    }
}

/// How many of the first `n` lines start with a marker.
pub open spec fn marker_count(lines: Seq<Seq<char>>, n: nat) -> nat
    decreases n,
{
    if n == 0 || n > lines.len() {
        0
    } else {
        marker_count(lines, (n - 1) as nat) + if marker_tag(lines[n - 1]) != 0 {
            1nat
        } else {
            0nat
        }
    }
}

/// The marker lines among the first `n` come in the order start,
/// separator, end, start, separator, end, and so on.
pub open spec fn markers_cycle(lines: Seq<Seq<char>>, n: nat) -> bool {
    forall|k: nat|
        k < n && #[trigger] marker_tag(lines[k as int]) != 0 ==> marker_tag(lines[k as int])
            == marker_count(lines, k) % 3 + 1
}

/// The lines hold exactly `count` complete conflict regions and no stray
/// marker line.
pub open spec fn well_formed_regions(lines: Seq<Seq<char>>, count: nat) -> bool {
    markers_cycle(lines, lines.len()) && marker_count(lines, lines.len()) == 3 * count
}

proof fn lemma_scan_follows_markers(lines: Seq<Seq<char>>, n: nat)
    requires
        n <= lines.len(),
        markers_cycle(lines, n),
    ensures
        scan(lines, n).0.len() == marker_count(lines, n) / 3,
        marker_count(lines, n) % 3 == 0 ==> scan(lines, n).1 is Outside,
        marker_count(lines, n) % 3 == 1 ==> scan(lines, n).1 is InCurrent,
        marker_count(lines, n) % 3 == 2 ==> scan(lines, n).1 is InIncoming,
    decreases n,
{
    if n > 0 {
        let k = (n - 1) as nat;
        assert forall|j: nat| j < k && #[trigger] marker_tag(lines[j as int]) != 0 implies marker_tag(
            lines[j as int],
        ) == marker_count(lines, j) % 3 + 1 by {
            assert(j < n);
        }
        lemma_scan_follows_markers(lines, k);
        if marker_tag(lines[k as int]) != 0 {
            assert(marker_tag(lines[k as int]) == marker_count(lines, k) % 3 + 1);
        }
    }
}

/// A text holding exactly `count` well-formed conflict regions, `count` at
/// least one, parses into `count` regions, in file order, each with its
/// markers in order.
pub proof fn law_parse_counts_regions(text: Seq<char>, count: nat)
    requires
        count >= 1,
        well_formed_regions(lines_of(text), count),
    ensures
        parse_result(text) matches Ok(regions) && regions.len() == count && regions_ordered(
            regions,
            lines_of(text).len() as int,
        ),
{
    let lines = lines_of(text);
    let total = marker_count(lines, lines.len());
    lemma_scan_follows_markers(lines, lines.len());
    lemma_scan_ordered(lines, lines.len());
    assert(total / 3 == count && total % 3 == 0) by (nonlinear_arith)
        requires
            total == 3 * count,
    ;
    let (regions, phase) = scan(lines, lines.len());
    assert(phase is Outside);
    assert(regions.len() == count);
}

proof fn lemma_scan_without(lines: Seq<Seq<char>>, n: nat, c: char)
    requires
        n <= lines.len(),
        c == '=' || c == '>',
        forall|j: int| 0 <= j < lines.len() ==> !starts_with(#[trigger] lines[j], marker(c)),
    ensures
        scan(lines, n).0.len() == 0,
        c == '=' ==> !(scan(lines, n).1 is InIncoming),
        c == '=' ==> (exists|j: int| 0 <= j < n && starts_with(lines[j], marker('<')))
            ==> scan(lines, n).1 is InCurrent,
    decreases n,
{
    if n > 0 {
        lemma_scan_without(lines, (n - 1) as nat, c);
        if c == '=' && exists|j: int| 0 <= j < n && starts_with(lines[j], marker('<')) {
            let j = choose|j: int| 0 <= j < n && starts_with(lines[j], marker('<'));
            if j < n - 1 {
                assert(exists|j: int| 0 <= j < n - 1 && starts_with(lines[j], marker('<')));
            }
        }
    }
}

/// A text with a start marker and no separator fails with a missing
/// separator.
pub proof fn law_missing_separator(text: Seq<char>, k: int)
    requires
        0 <= k < lines_of(text).len(),
        starts_with(lines_of(text)[k], marker('<')),
        forall|j: int|
            0 <= j < lines_of(text).len() ==> !starts_with(#[trigger] lines_of(text)[j], marker('=')),
    ensures
        parse_result(text) matches Err(ParseError::MalformedConflict { kind, .. }) && kind
            == MalformedKind::MissingSeparator,
{
    let lines = lines_of(text);
    lemma_scan_without(lines, lines.len(), '=');
    assert(0 <= k < lines.len() && starts_with(lines[k], marker('<')));
}

proof fn lemma_scan_without_end(lines: Seq<Seq<char>>, n: nat, k: int, m: int)
    requires
        n <= lines.len(),
        0 <= k < m < lines.len(),
        starts_with(lines[k], marker('<')),
        starts_with(lines[m], marker('=')),
        forall|j: int| 0 <= j < lines.len() ==> !starts_with(#[trigger] lines[j], marker('>')),
    ensures
        scan(lines, n).0.len() == 0,
        n > k ==> !(scan(lines, n).1 is Outside),
        n > m ==> scan(lines, n).1 is InIncoming,
    decreases n,
{
    lemma_scan_without(lines, n, '>');
    if n > 0 {
        lemma_scan_without_end(lines, (n - 1) as nat, k, m);
    }
}

/// A text with a start marker, a separator after it and no end marker fails
/// with a missing end marker.
pub proof fn law_missing_end_marker(text: Seq<char>, k: int, m: int)
    requires
        0 <= k < m < lines_of(text).len(),
        starts_with(lines_of(text)[k], marker('<')),
        starts_with(lines_of(text)[m], marker('=')),
        forall|j: int|
            0 <= j < lines_of(text).len() ==> !starts_with(#[trigger] lines_of(text)[j], marker('>')),
    ensures
        parse_result(text) matches Err(ParseError::MalformedConflict { kind, .. }) && kind
            == MalformedKind::MissingEndMarker,
{
    lemma_scan_without_end(lines_of(text), lines_of(text).len(), k, m);
}

proof fn lemma_scan_no_start(lines: Seq<Seq<char>>, n: nat)
    requires
        n <= lines.len(),
        forall|j: int| 0 <= j < lines.len() ==> !starts_with(#[trigger] lines[j], marker('<')),
    ensures
        scan(lines, n).0.len() == 0,
        scan(lines, n).1 is Outside,
    decreases n,
{
    if n > 0 {
        lemma_scan_no_start(lines, (n - 1) as nat);
    }
}

/// A text without any start marker has no conflicts.
pub proof fn law_no_conflicts(text: Seq<char>)
    requires
        forall|j: int|
            0 <= j < lines_of(text).len() ==> !starts_with(#[trigger] lines_of(text)[j], marker('<')),
    ensures
        parse_result(text) == Err::<Seq<Region>, ParseError>(ParseError::NoConflictsFound),
{
    lemma_scan_no_start(lines_of(text), lines_of(text).len());
}

/// Seven copies of `c`.
fn marker_chars(c: char) -> (r: Vec<char>)
    ensures
        r@ == marker(c),
{
    let mut out: Vec<char> = Vec::new();
    while out.len() < 7
        invariant
            out@.len() <= 7,
            forall|i: int| 0 <= i < out@.len() ==> out@[i] == c,
        decreases 7 - out@.len(),
    {
        out.push(c);
    }
    assert(out@ =~= marker(c));
    out
}

/// The joined text of `lines[from..to]`.
fn joined(lines: &Vec<Vec<char>>, from: usize, to: usize) -> (r: String)
    requires
        from <= to <= lines@.len(),
    ensures
        r@ == join_lines(views(lines@).subrange(from as int, to as int)),
{
    let mut out = String::new();
    push_joined(&mut out, lines, from, to);
    assert(out@ =~= join_lines(views(lines@).subrange(from as int, to as int)));
    out
}

/// Parses the conflict regions of `content`, the text of the file at `path`.
/// On success the file has one hunk per region, in file order, none of them
/// resolved.
pub fn parse_conflicts(path: String, content: String) -> (r: Result<ConflictedFile, ParseError>)
    ensures
        match parse_result(content@) {
            Ok(regions) => r matches Ok(file) && {
                &&& file.path == path
                &&& file.original_content == content
                &&& file.conflicts@.len() == regions.len()
                &&& forall|i: int|
                    0 <= i < regions.len() ==> hunk_of_region(
                        #[trigger] file.conflicts@[i],
                        lines_of(content@),
                        regions[i],
                    )
                &&& forall|i: int|
                    0 <= i < file.resolutions@.len() ==> (#[trigger] file.resolutions@[i]) is None
                &&& file.wf()
            },
            Err(e) => r == Err::<ConflictedFile, ParseError>(e),
        },
{
    let chars = chars_of(content.as_str());
    let lines = split_lines(&chars);
    let ghost all = lines_of(content@);
    let open_marker = marker_chars('<');
    let sep_marker = marker_chars('=');
    let close_marker = marker_chars('>');
    let mut conflicts: Vec<ConflictHunk> = Vec::new();
    // 0: outside a region; 1: on the current side; 2: on the incoming side.
    let mut phase: u8 = 0;
    let mut start: usize = 0;
    let mut sep: usize = 0;
    let mut k: usize = 0;
    while k < lines.len()
        invariant
            k <= lines@.len(),
            all == views(lines@),
            open_marker@ == marker('<'),
            sep_marker@ == marker('='),
            close_marker@ == marker('>'),
            conflicts@.len() == scan(all, k as nat).0.len(),
            forall|i: int|
                0 <= i < conflicts@.len() ==> hunk_of_region(
                    #[trigger] conflicts@[i],
                    all,
                    scan(all, k as nat).0[i],
                ),
            match scan(all, k as nat).1 {
                ScanPhase::Outside => phase == 0,
                ScanPhase::InCurrent { start: s } => phase == 1 && start == s,
                ScanPhase::InIncoming { start: s, sep: p } => phase == 2 && start == s && sep
                    == p,
            },
        decreases lines.len() - k,
    {
        proof {
            lemma_scan_ordered(all, k as nat);
        }
        let line = &lines[k];
        assert(all[k as int] == line@);
        if phase == 0 {
            if has_prefix(line, &open_marker) {
                phase = 1;
                start = k;
            }
        } else if phase == 1 {
            if has_prefix(line, &sep_marker) {
                phase = 2;
                sep = k;
            }
        } else {
            if has_prefix(line, &close_marker) {
                let current = joined(&lines, start + 1, sep);
                let incoming = joined(&lines, sep + 1, k);
                let hunk = ConflictHunk::new(current, incoming, start, k);
                conflicts.push(hunk);
                phase = 0;
            }
        }
        k = k + 1;
    }
    proof {
        lemma_scan_ordered(all, k as nat);
    }
    if phase == 1 {
        return Err(
            ParseError::MalformedConflict { kind: MalformedKind::MissingSeparator, line: start + 1 },
        );
    }
    if phase == 2 {
        return Err(
            ParseError::MalformedConflict { kind: MalformedKind::MissingEndMarker, line: sep + 1 },
        );
    }
    if conflicts.len() == 0 {
        return Err(ParseError::NoConflictsFound);
    }
    let file = ConflictedFile::new(path, conflicts, content);
    let ghost regions = scan(all, k as nat).0;
    assert forall|i: int| 0 <= i < file.conflicts@.len() implies (#[trigger] file.conflicts@[i]).start_line
        <= file.conflicts@[i].end_line < all.len() by {
        assert(hunk_of_region(file.conflicts@[i], all, regions[i]));
    }
    assert forall|i: int| 0 <= i < file.conflicts@.len() - 1 implies (#[trigger] file.conflicts@[i]).end_line
        < file.conflicts@[i + 1].start_line by {
        assert(hunk_of_region(file.conflicts@[i], all, regions[i]));
        assert(hunk_of_region(file.conflicts@[i + 1], all, regions[i + 1]));
    }
    Ok(file)
}

} // verus!
