//! Splitting a document into lines with universal line endings: a line ends
//! at a line feed or at a carriage return followed by a line feed, and a
//! final line without a terminator still counts as a line.

use vstd::prelude::*;
use vstd::string::StrSliceExecFns;

verus! {

/// A segment closed by a line feed loses one trailing carriage return, so
/// "\r\n" terminates a line just as "\n" does.
pub open spec fn strip_cr(l: Seq<char>) -> Seq<char> {
    if l.len() > 0 && l[l.len() - 1] == '\r' {
        l.drop_last()
    } else {
        l
    }
}

/// The segments of `t` between its line feeds, the line feeds themselves
/// dropped; always one more segment than there are line feeds.
pub open spec fn split_nl(t: Seq<char>) -> Seq<Seq<char>>
    decreases t.len(),
{
    if t.len() == 0 {
        seq![Seq::<char>::empty()]
    } else if t[0] == '\n' {
        seq![Seq::<char>::empty()] + split_nl(t.subrange(1, t.len() as int))
    } else {
        let rest = split_nl(t.subrange(1, t.len() as int));
        seq![seq![t[0]] + rest[0]] + rest.subrange(1, rest.len() as int)
    }
}

proof fn lemma_split_nl_len(t: Seq<char>)
    ensures
        split_nl(t).len() >= 1,
    decreases t.len(),
{
    if t.len() > 0 {
        lemma_split_nl_len(t.subrange(1, t.len() as int));
    }
}

/// Every closed segment with its carriage return stripped.
pub open spec fn strip_all(segs: Seq<Seq<char>>) -> Seq<Seq<char>> {
    segs.map_values(|l: Seq<char>| strip_cr(l))
}

/// The lines of a document: the segments between line feeds, each closed
/// segment stripped of a trailing carriage return; a trailing line feed
/// does not open a spurious final empty line.
pub open spec fn spec_lines(t: Seq<char>) -> Seq<Seq<char>> {
    let parts = split_nl(t);
    let closed = strip_all(parts.subrange(0, parts.len() - 1));
    if parts.last().len() == 0 {
        closed
    } else {
        closed.push(parts.last())
    }
}

/// The partial line at the scan position, put back in front of the split
/// of what is still unread.
spec fn prepend_first(cur: Seq<char>, parts: Seq<Seq<char>>) -> Seq<Seq<char>>
    recommends
        parts.len() >= 1,
{
    seq![cur + parts[0]] + parts.subrange(1, parts.len() as int)
}

proof fn lemma_split_nl_step_newline(t: Seq<char>, i: int)
    requires
        0 <= i < t.len(),
        t[i] == '\n',
    ensures
        split_nl(t.subrange(i, t.len() as int)) == seq![Seq::<char>::empty()] + split_nl(
            t.subrange(i + 1, t.len() as int),
        ),
{
    let s = t.subrange(i, t.len() as int);
    assert(s.len() > 0 && s[0] == '\n');
    assert(s.subrange(1, s.len() as int) =~= t.subrange(i + 1, t.len() as int));
}

proof fn lemma_split_nl_step_char(t: Seq<char>, i: int)
    requires
        0 <= i < t.len(),
        t[i] != '\n',
    ensures
        split_nl(t.subrange(i + 1, t.len() as int)).len() >= 1,
        split_nl(t.subrange(i, t.len() as int)) == seq![
            seq![t[i]] + split_nl(t.subrange(i + 1, t.len() as int))[0],
        ] + split_nl(t.subrange(i + 1, t.len() as int)).subrange(
            1,
            split_nl(t.subrange(i + 1, t.len() as int)).len() as int,
        ),
{
    let s = t.subrange(i, t.len() as int);
    assert(s.len() > 0 && s[0] == t[i]);
    assert(s.subrange(1, s.len() as int) =~= t.subrange(i + 1, t.len() as int));
    lemma_split_nl_len(t.subrange(i + 1, t.len() as int));
}

proof fn lemma_step_char(raw: Seq<Seq<char>>, cur: Seq<char>, c: char, rest: Seq<Seq<char>>)
    requires
        rest.len() >= 1,
    ensures
        raw + prepend_first(cur, seq![seq![c] + rest[0]] + rest.subrange(1, rest.len() as int))
            == raw + prepend_first(cur.push(c), rest),
{
    let parts = seq![seq![c] + rest[0]] + rest.subrange(1, rest.len() as int);
    assert(parts[0] == seq![c] + rest[0]);
    assert(cur + (seq![c] + rest[0]) =~= cur.push(c) + rest[0]);
    assert(parts.subrange(1, parts.len() as int) =~= rest.subrange(1, rest.len() as int));
    assert(prepend_first(cur, parts) =~= prepend_first(cur.push(c), rest));
}

proof fn lemma_step_newline(raw: Seq<Seq<char>>, cur: Seq<char>, rest: Seq<Seq<char>>)
    requires
        rest.len() >= 1,
    ensures
        raw + prepend_first(cur, seq![Seq::<char>::empty()] + rest) == raw.push(cur)
            + prepend_first(Seq::<char>::empty(), rest),
{
    let parts = seq![Seq::<char>::empty()] + rest;
    assert(cur + parts[0] =~= cur);
    assert(parts.subrange(1, parts.len() as int) =~= rest);
    assert(prepend_first(cur, parts) =~= seq![cur] + rest);
    assert(Seq::<char>::empty() + rest[0] =~= rest[0]);
    assert(prepend_first(Seq::<char>::empty(), rest) =~= rest);
    assert(raw + (seq![cur] + rest) =~= raw.push(cur) + rest);
}

/// Cuts `contents` into its lines; each returned slice points back into
/// `contents` unchanged, exactly as the document holds it.
pub fn split_lines<'a>(contents: &'a str) -> (r: Vec<&'a str>)
    ensures
        r.deep_view() == spec_lines(contents@),
{
    let ghost t = contents@;
    let n: usize = contents.unicode_len();
    let mut r: Vec<&'a str> = Vec::new();
    let mut start: usize = 0;
    let mut i: usize = 0;
    let ghost mut raw: Seq<Seq<char>> = Seq::empty();
    proof {
        lemma_split_nl_len(t);
        assert(t.subrange(0, n as int) =~= t);
        assert(t.subrange(0, 0) + split_nl(t)[0] =~= split_nl(t)[0]);
        assert(prepend_first(t.subrange(0, 0), split_nl(t)) =~= split_nl(t));
        assert(raw + split_nl(t) =~= split_nl(t));
        assert(r.deep_view() =~= strip_all(raw));
    }
    while i < n
        invariant
            n == t.len(),
            t == contents@,
            start <= i <= n,
            split_nl(t) == raw + prepend_first(
                t.subrange(start as int, i as int),
                split_nl(t.subrange(i as int, n as int)),
            ),
            r.deep_view() == strip_all(raw),
        decreases n - i,
    {
        let c = contents.get_char(i);
        if c == '\n' {
            let end: usize = if i > start && contents.get_char(i - 1) == '\r' {
                i - 1
            } else {
                i
            };
            let line: &'a str = contents.substring_char(start, end);
            let ghost prev = r.deep_view();
            r.push(line);
            proof {
                let seg = t.subrange(start as int, i as int);
                if end < i {
                    assert(seg.len() > 0 && seg[seg.len() - 1] == '\r');
                    assert(seg.drop_last() =~= t.subrange(start as int, i - 1));
                    assert(line@ == strip_cr(seg));
                } else {
                    if i > start {
                        assert(seg[seg.len() - 1] == t[i - 1]);
                    }
                    assert(line@ == strip_cr(seg));
                }
                lemma_split_nl_step_newline(t, i as int);
                lemma_split_nl_len(t.subrange(i + 1, n as int));
                lemma_step_newline(raw, seg, split_nl(t.subrange(i + 1, n as int)));
                assert(t.subrange(i + 1, i + 1) =~= Seq::<char>::empty());
                assert(r.deep_view() =~= prev.push(line@));
                assert(strip_all(raw.push(seg)) =~= strip_all(raw).push(strip_cr(seg)));
                raw = raw.push(seg);
            }
            start = i + 1;
            i = i + 1;
        } else {
            proof {
                lemma_split_nl_step_char(t, i as int);
                lemma_step_char(
                    raw,
                    t.subrange(start as int, i as int),
                    t[i as int],
                    split_nl(t.subrange(i + 1, n as int)),
                );
                assert(t.subrange(start as int, i as int).push(t[i as int]) =~= t.subrange(
                    start as int,
                    i + 1,
                ));
            }
            i = i + 1;
        }
    }
    proof {
        let cur = t.subrange(start as int, n as int);
        assert(t.subrange(n as int, n as int) =~= Seq::<char>::empty());
        assert(cur + split_nl(Seq::<char>::empty())[0] =~= cur);
        assert(prepend_first(cur, split_nl(Seq::<char>::empty())) =~= seq![cur]);
        assert(split_nl(t) == raw + seq![cur]);
        assert(split_nl(t).subrange(0, split_nl(t).len() - 1) =~= raw);
        assert(split_nl(t).last() == cur);
    }
    if start < n {
        let line: &'a str = contents.substring_char(start, n);
        let ghost prev = r.deep_view();
        r.push(line);
        proof {
            assert(r.deep_view() =~= prev.push(line@));
            assert(r.deep_view() == spec_lines(t));
        }
    } else {
        proof {
            assert(t.subrange(start as int, n as int).len() == 0);
            assert(r.deep_view() == spec_lines(t));
        }
    }
    r
}

} // verus!
