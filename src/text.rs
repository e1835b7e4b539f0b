//! Character-level text helpers: line splitting, joining, whitespace
//! trimming and string building, each stated over `Seq<char>`.

use vstd::prelude::*;
use vstd::std_specs::iter::IteratorSpec;

verus! {

/// The views of a sequence of character vectors.
pub open spec fn views(v: Seq<Vec<char>>) -> Seq<Seq<char>> {
    v.map_values(|x: Vec<char>| x@)
}

/// Does `s` begin with `prefix`?
pub open spec fn starts_with(s: Seq<char>, prefix: Seq<char>) -> bool {
    prefix.len() <= s.len() && s.subrange(0, prefix.len() as int) == prefix
}

/// Does `s` end with a line feed?
pub open spec fn ends_with_newline(s: Seq<char>) -> bool {
    s.len() > 0 && s.last() == '\n'
}

/// A line with one trailing carriage return removed, if it has one.
pub open spec fn strip_cr(line: Seq<char>) -> Seq<char> {
    if line.len() > 0 && line.last() == '\r' {
        line.drop_last()
    } else {
        line
    }
}

/// Splitting `s` into lines, read left to right: the lines closed so far by
/// a line feed, and the pending characters after the last line feed.
pub open spec fn line_split(s: Seq<char>) -> (Seq<Seq<char>>, Seq<char>)
    decreases s.len(),
{
    if s.len() == 0 {
        (Seq::empty(), Seq::empty())
    } else {
        let (done, pending) = line_split(s.drop_last());
        if s.last() == '\n' {
            (done.push(strip_cr(pending)), Seq::empty())
        } else {
            (done, pending.push(s.last()))
        }
    }
}

/// The lines of `s`: split at each line feed, a carriage return before the
/// line feed dropped, and no empty last line after a final line feed.
pub open spec fn lines_of(s: Seq<char>) -> Seq<Seq<char>> {
    let (done, pending) = line_split(s);
    if pending.len() > 0 {
        done.push(pending)
    } else {
        done
    }
}

/// The lines joined with a single line feed between neighbours.
pub open spec fn join_lines(lines: Seq<Seq<char>>) -> Seq<char>
    decreases lines.len(),
{
    if lines.len() == 0 {
        Seq::empty()
    } else if lines.len() == 1 {
        lines[0]
    } else {
        join_lines(lines.drop_last()) + seq!['\n'] + lines.last()
    }
}

/// The characters with the Unicode `White_Space` property.
pub open spec fn is_ws(c: char) -> bool {
    let u = c as u32;
    (0x09 <= u && u <= 0x0d) || u == 0x20 || u == 0x85 || u == 0xa0 || u == 0x1680 || (0x2000
        <= u && u <= 0x200a) || u == 0x2028 || u == 0x2029 || u == 0x202f || u == 0x205f || u
        == 0x3000
}

/// `s` without its leading whitespace.
pub open spec fn trim_start(s: Seq<char>) -> Seq<char>
    decreases s.len(),
{
    if s.len() > 0 && is_ws(s[0]) {
        trim_start(s.drop_first())
    } else {
        s
    }
}

/// `s` without its trailing whitespace.
pub open spec fn trim_end(s: Seq<char>) -> Seq<char>
    decreases s.len(),
{
    if s.len() > 0 && is_ws(s.last()) {
        trim_end(s.drop_last())
    } else {
        s
    }
}

/// `s` without leading and trailing whitespace.
pub open spec fn trim(s: Seq<char>) -> Seq<char> {
    trim_end(trim_start(s))
}

/// Is every character of `s` whitespace?
pub open spec fn all_ws(s: Seq<char>) -> bool {
    forall|i: int| 0 <= i < s.len() ==> is_ws(#[trigger] s[i])
}

/// Does `s` hold no line feed?
pub open spec fn no_newline(s: Seq<char>) -> bool {
    forall|i: int| 0 <= i < s.len() ==> #[trigger] s[i] != '\n'
}

/// Leading whitespace padding does not change `trim_start`.
pub proof fn lemma_trim_start_pad(pad: Seq<char>, s: Seq<char>)
    requires
        all_ws(pad),
    ensures
        trim_start(pad + s) == trim_start(s),
    decreases pad.len(),
{
    if pad.len() == 0 {
        assert(pad + s =~= s);
    } else {
        assert((pad + s)[0] == pad[0]);
        assert((pad + s).drop_first() =~= pad.drop_first() + s);
        lemma_trim_start_pad(pad.drop_first(), s);
    }
}

/// Trailing whitespace padding does not change `trim_end`.
pub proof fn lemma_trim_end_pad(s: Seq<char>, pad: Seq<char>)
    requires
        all_ws(pad),
    ensures
        trim_end(s + pad) == trim_end(s),
    decreases pad.len(),
{
    if pad.len() == 0 {
        assert(s + pad =~= s);
    } else {
        assert((s + pad).last() == pad.last());
        assert((s + pad).drop_last() =~= s + pad.drop_last());
        lemma_trim_end_pad(s, pad.drop_last());
    }
}

proof fn lemma_trim_padded_end(s: Seq<char>, pad: Seq<char>)
    requires
        all_ws(pad),
    ensures
        trim_end(trim_start(s + pad)) == trim_end(trim_start(s)),
    decreases s.len(),
{
    if s.len() == 0 {
        assert(s + pad =~= Seq::<char>::empty() + pad);
        lemma_trim_start_pad(pad, Seq::<char>::empty());
        assert(pad + Seq::<char>::empty() =~= pad);
    } else if is_ws(s[0]) {
        assert((s + pad)[0] == s[0]);
        assert((s + pad).drop_first() =~= s.drop_first() + pad);
        lemma_trim_padded_end(s.drop_first(), pad);
    } else {
        assert((s + pad)[0] == s[0]);
        lemma_trim_end_pad(s, pad);
    }
}

/// Whitespace padding on either side does not change `trim`.
pub proof fn lemma_trim_padded(before: Seq<char>, s: Seq<char>, after: Seq<char>)
    requires
        all_ws(before),
        all_ws(after),
    ensures
        trim(before + s + after) == trim(s),
{
    assert(before + s + after =~= before + (s + after));
    lemma_trim_start_pad(before, s + after);
    lemma_trim_padded_end(s, after);
}

proof fn lemma_line_split_no_newline(s: Seq<char>)
    ensures
        forall|i: int| 0 <= i < line_split(s).0.len() ==> no_newline(#[trigger] line_split(s).0[i]),
        no_newline(line_split(s).1),
    decreases s.len(),
{
    if s.len() > 0 {
        lemma_line_split_no_newline(s.drop_last());
        let (done, pending) = line_split(s.drop_last());
        if s.last() == '\n' {
            assert(no_newline(strip_cr(pending)));
            assert forall|i: int| 0 <= i < line_split(s).0.len() implies no_newline(
                #[trigger] line_split(s).0[i],
            ) by {
                if i < done.len() {
                    assert(line_split(s).0[i] == done[i]);
                }
            }
        } else {
            assert(no_newline(pending.push(s.last())));
        }
    }
}

/// No line of a text holds a line feed.
pub proof fn lemma_lines_no_newline(s: Seq<char>)
    ensures
        forall|i: int| 0 <= i < lines_of(s).len() ==> no_newline(#[trigger] lines_of(s)[i]),
{
    lemma_line_split_no_newline(s);
    let (done, pending) = line_split(s);
    assert forall|i: int| 0 <= i < lines_of(s).len() implies no_newline(#[trigger] lines_of(s)[i]) by {
        if i < done.len() {
            assert(lines_of(s)[i] == done[i]);
        }
    }
}

/// Joined lines without line feeds end with one only when the last line is
/// empty and follows another.
pub proof fn lemma_join_ends(lines: Seq<Seq<char>>)
    requires
        forall|i: int| 0 <= i < lines.len() ==> no_newline(#[trigger] lines[i]),
        lines.len() < 2 || lines.last().len() > 0,
    ensures
        !ends_with_newline(join_lines(lines)),
{
    if lines.len() == 1 {
        assert(no_newline(lines[0]));
        if lines[0].len() > 0 {
            assert(lines[0][lines[0].len() - 1] != '\n');
        }
    } else if lines.len() >= 2 {
        let j = join_lines(lines);
        assert(no_newline(lines.last()));
        assert(j.last() == lines.last().last());
    }
}

/// Whether `c` is a whitespace character.
pub fn is_whitespace(c: char) -> (r: bool)
    ensures
        r == is_ws(c),
{
    let u = c as u32;
    (0x09 <= u && u <= 0x0d) || u == 0x20 || u == 0x85 || u == 0xa0 || u == 0x1680 || (0x2000
        <= u && u <= 0x200a) || u == 0x2028 || u == 0x2029 || u == 0x202f || u == 0x205f || u
        == 0x3000
}

/// The characters of `s`, in order.
pub fn chars_of(s: &str) -> (r: Vec<char>)
    ensures
        r@ == s@,
{
    let mut out: Vec<char> = Vec::new();
    let mut it = s.chars();
    loop
        invariant
            it.obeys_prophetic_iter_laws(),
            it.decrease() is Some,
            s@ == out@ + it.remaining(),
        decreases it.decrease()->0,
    {
        match it.next() {
            Some(c) => {
                out.push(c);
                assert(s@ == out@ + it.remaining());
            },
            None => {
                return out;
            },
        }
    }
}

/// Relies on `String::push`: the character is appended at the end.
#[verifier::external_body]
pub(crate) fn push_char(s: &mut String, c: char)
    ensures
        final(s)@ == old(s)@.push(c),
{
    s.push(c);
}

/// Appends `chars[from..to]` to `out`.
pub fn push_chars(out: &mut String, chars: &Vec<char>, from: usize, to: usize)
    requires
        from <= to <= chars@.len(),
    ensures
        final(out)@ == old(out)@ + chars@.subrange(from as int, to as int),
{
    let mut i: usize = from;
    while i < to
        invariant
            from <= i <= to <= chars@.len(),
            out@ == old(out)@ + chars@.subrange(from as int, i as int),
        decreases to - i,
    {
        push_char(out, chars[i]);
        i = i + 1;
        assert(out@ =~= old(out)@ + chars@.subrange(from as int, i as int));
    }
}

/// A string holding `chars[from..to]`.
pub fn string_of(chars: &Vec<char>, from: usize, to: usize) -> (r: String)
    requires
        from <= to <= chars@.len(),
    ensures
        r@ == chars@.subrange(from as int, to as int),
{
    let mut out = String::new();
    push_chars(&mut out, chars, from, to);
    assert(out@ =~= chars@.subrange(from as int, to as int));
    out
}

/// Does the character vector begin with `prefix`?
pub fn has_prefix(s: &Vec<char>, prefix: &Vec<char>) -> (r: bool)
    ensures
        r == starts_with(s@, prefix@),
{
    if prefix.len() > s.len() {
        return false;
    }
    let mut i: usize = 0;
    while i < prefix.len()
        invariant
            prefix@.len() <= s@.len(),
            i <= prefix@.len(),
            s@.subrange(0, i as int) == prefix@.subrange(0, i as int),
        decreases prefix.len() - i,
    {
        if s[i] != prefix[i] {
            assert(s@.subrange(0, prefix@.len() as int)[i as int] != prefix@[i as int]);
            return false;
        }
        i = i + 1;
        assert(s@.subrange(0, i as int) =~= prefix@.subrange(0, i as int));
    }
    assert(prefix@.subrange(0, i as int) =~= prefix@);
    true
}

/// Appends the lines `lines[from..to]`, joined by line feeds, to `out`.
pub fn push_joined(out: &mut String, lines: &Vec<Vec<char>>, from: usize, to: usize)
    requires
        from <= to <= lines@.len(),
    ensures
        final(out)@ == old(out)@ + join_lines(views(lines@).subrange(from as int, to as int)),
{
    let ghost all = views(lines@);
    assert(all.subrange(from as int, from as int) =~= Seq::<Seq<char>>::empty());
    assert(out@ =~= old(out)@ + join_lines(all.subrange(from as int, from as int)));
    let mut k: usize = from;
    while k < to
        invariant
            from <= k <= to <= lines@.len(),
            all == views(lines@),
            out@ == old(out)@ + join_lines(all.subrange(from as int, k as int)),
        decreases to - k,
    {
        let ghost before = out@;
        assert(all.subrange(from as int, k + 1).drop_last() =~= all.subrange(from as int, k as int));
        assert(all.subrange(from as int, k + 1).last() == lines@[k as int]@);
        if k > from {
            push_char(out, '\n');
        }
        let line = &lines[k];
        push_chars(out, line, 0, line.len());
        assert(line@.subrange(0, line@.len() as int) =~= line@);
        k = k + 1;
        if k - 1 > from {
            assert(out@ =~= old(out)@ + join_lines(all.subrange(from as int, k as int)));
        } else {
            assert(all.subrange(from as int, k as int) =~= seq![lines@[from as int]@]);
            assert(out@ =~= old(out)@ + join_lines(all.subrange(from as int, k as int)));
        }
    }
}

/// The bounds of `s` with leading and trailing whitespace left out.
pub fn trim_bounds(s: &Vec<char>) -> (r: (usize, usize))
    ensures
        r.0 <= r.1 <= s@.len(),
        s@.subrange(r.0 as int, r.1 as int) == trim(s@),
{
    let n = s.len();
    let mut lo: usize = 0;
    assert(s@.subrange(0, n as int) =~= s@);
    while lo < n && is_whitespace(s[lo])
        invariant
            lo <= n == s@.len(),
            trim_start(s@) == trim_start(s@.subrange(lo as int, n as int)),
        decreases n - lo,
    {
        assert(s@.subrange(lo as int, n as int).drop_first() =~= s@.subrange(lo + 1, n as int));
        lo = lo + 1;
    }
    let mut hi: usize = n;
    while hi > lo && is_whitespace(s[hi - 1])
        invariant
            lo <= hi <= n == s@.len(),
            trim_start(s@) == s@.subrange(lo as int, n as int),
            trim(s@) == trim_end(s@.subrange(lo as int, hi as int)),
        decreases hi - lo,
    {
        assert(s@.subrange(lo as int, hi as int).drop_last() =~= s@.subrange(lo as int, hi - 1));
        hi = hi - 1;
    }
    (lo, hi)
}

/// `s` with leading and trailing whitespace removed.
pub fn trimmed(s: &str) -> (r: String)
    ensures
        r@ == trim(s@),
{
    let chars = chars_of(s);
    let (lo, hi) = trim_bounds(&chars);
    string_of(&chars, lo, hi)
}

proof fn lemma_views_push(v: Seq<Vec<char>>, x: Vec<char>)
    ensures
        views(v.push(x)) == views(v).push(x@),
{
    assert(views(v.push(x)) =~= views(v).push(x@));
}

/// Splits the characters into lines.
pub fn split_lines(s: &Vec<char>) -> (r: Vec<Vec<char>>)
    ensures
        views(r@) == lines_of(s@),
{
    let mut lines: Vec<Vec<char>> = Vec::new();
    let mut pending: Vec<char> = Vec::new();
    let mut i: usize = 0;
    assert(views(lines@) =~= Seq::<Seq<char>>::empty());
    assert(s@.subrange(0, 0) =~= Seq::<char>::empty());
    while i < s.len()
        invariant
            i <= s@.len(),
            line_split(s@.subrange(0, i as int)) == (views(lines@), pending@),
        decreases s.len() - i,
    {
        let c = s[i];
        let ghost prev = s@.subrange(0, i as int);
        assert(s@.subrange(0, i + 1).drop_last() =~= prev);
        if c == '\n' {
            let n = pending.len();
            if n > 0 && pending[n - 1] == '\r' {
                pending.pop();
            }
            proof {
                lemma_views_push(lines@, pending);
            }
            lines.push(pending);
            pending = Vec::new();
            assert(pending@ =~= Seq::<char>::empty());
        } else {
            pending.push(c);
        }
        i = i + 1;
    }
    assert(s@.subrange(0, i as int) =~= s@);
    if pending.len() > 0 {
        proof {
            lemma_views_push(lines@, pending);
        }
        lines.push(pending);
    }
    lines
}

} // verus!
