//! Turning the text of a migration file into the SQL statements it holds.
//!
//! The splitter is line oriented: a line that is blank or starts with `--`
//! (after trimming) is dropped, the other lines are trimmed and joined with a
//! single space, and a line ending in `;` closes the statement being built.
//! Text left unterminated at the end of the input forms one last statement.
use vstd::prelude::*;
use crate::text::{chars_of, string_of, trim, trimmed_bounds};

verus! {

/// The lines of `s`: the pieces between `'\n'` characters. There is always
/// at least one, possibly empty, piece.
pub open spec fn lines(s: Seq<char>) -> Seq<Seq<char>>
    decreases s.len(),
{
    if s.len() == 0 {
        seq![Seq::empty()]
    } else {
        let p = lines(s.drop_last());
        if s.last() == '\n' {
            p.push(Seq::empty())
        } else {
            p.update(p.len() - 1, p.last().push(s.last()))
        }
    }
}

/// Whether a trimmed line is a line comment.
pub open spec fn is_comment(t: Seq<char>) -> bool {
    t.len() >= 2 && t[0] == '-' && t[1] == '-'
}

/// `s` without the run of `;` at its end.
pub open spec fn strip_terminators(s: Seq<char>) -> Seq<char>
    decreases s.len(),
{
    if s.len() > 0 && s.last() == ';' {
        strip_terminators(s.drop_last())
    } else {
        s
    }
}

/// The statement that a terminated buffer yields.
pub open spec fn close(buf: Seq<char>) -> Seq<char> {
    trim(strip_terminators(trim(buf)))
}

/// Statements closed so far, and the text of the one being built.
pub struct ScanState {
    pub done: Seq<Seq<char>>,
    pub buf: Seq<char>,
}

/// The effect of one input line on the scan.
pub open spec fn feed_line(st: ScanState, line: Seq<char>) -> ScanState {
    let t = trim(line);
    if t.len() == 0 || is_comment(t) {
        st
    } else {
        let b = st.buf + t.push(' ');
        if t.last() == ';' {
            let stmt = close(b);
            ScanState {
                done: if stmt.len() > 0 { st.done.push(stmt) } else { st.done },
                buf: Seq::empty(),
            }
        } else {
            ScanState { done: st.done, buf: b }
        }
    }
}

/// The scan after the given lines, from an empty state.
pub open spec fn feed_lines(ls: Seq<Seq<char>>) -> ScanState
    decreases ls.len(),
{
    if ls.len() == 0 {
        ScanState { done: Seq::empty(), buf: Seq::empty() }
    } else {
        feed_line(feed_lines(ls.drop_last()), ls.last())
    }
}

/// The statements of a migration file's text, in the order they complete.
pub open spec fn statements(text: Seq<char>) -> Seq<Seq<char>> {
    let st = feed_lines(lines(text));
    let rest = trim(st.buf);
    if rest.len() > 0 {
        st.done.push(rest)
    } else {
        st.done
    }
}

/// The character sequences of a list of strings.
pub open spec fn views(v: Seq<String>) -> Seq<Seq<char>> {
    v.map_values(|s: String| s@)
}

proof fn lemma_views_push(v: Seq<String>, s: String)
    ensures
        views(v.push(s)) == views(v).push(s@),
{
    assert(views(v.push(s)) =~= views(v).push(s@));
}

/// The statement that the terminated buffer `buf` yields.
fn close_statement(buf: &Vec<char>) -> (r: String)
    ensures
        r@ == close(buf@),
{
    let (a, b0) = trimmed_bounds(buf, 0, buf.len());
    assert(buf@.subrange(0, buf@.len() as int) == buf@);
    let mut b: usize = b0;
    while b > a && buf[b - 1] == ';'
        invariant
            a <= b <= b0 <= buf@.len(),
            strip_terminators(buf@.subrange(a as int, b0 as int)) == strip_terminators(
                buf@.subrange(a as int, b as int),
            ),
        decreases b,
    {
        assert(buf@.subrange(a as int, b as int).drop_last() == buf@.subrange(a as int, b - 1));
        b = b - 1;
    }
    let (c, d) = trimmed_bounds(buf, a, b);
    string_of(buf, c, d)
}

/// Feeds the line `v[lo..hi]` to the scan held in `buf` and `out`.
fn feed_line_exec(v: &Vec<char>, lo: usize, hi: usize, buf: &mut Vec<char>, out: &mut Vec<String>)
    requires
        lo <= hi <= v@.len(),
    ensures
        feed_line(ScanState { done: views(old(out)@), buf: old(buf)@ }, v@.subrange(lo as int, hi as int))
            == (ScanState { done: views(final(out)@), buf: final(buf)@ }),
{
    let (a, b) = trimmed_bounds(v, lo, hi);
    if a == b {
        return ;
    }
    if b - a >= 2 && v[a] == '-' && v[a + 1] == '-' {
        return ;
    }
    let ghost t = v@.subrange(a as int, b as int);
    let ghost b0 = buf@;
    let mut i: usize = a;
    while i < b
        invariant
            a <= i <= b <= v@.len(),
            buf@ == b0 + v@.subrange(a as int, i as int),
        decreases b - i,
    {
        buf.push(v[i]);
        assert(v@.subrange(a as int, i + 1) == v@.subrange(a as int, i as int).push(v@[i as int]));
        i = i + 1;
    }
    buf.push(' ');
    assert(buf@ == b0 + t.push(' '));
    if v[b - 1] == ';' {
        let stmt = close_statement(buf);
        if stmt.unicode_len() > 0 {
            proof {
                lemma_views_push(out@, stmt);
            }
            out.push(stmt);
        }
        buf.clear();
        assert(buf@ == Seq::<char>::empty());
    }
}

/// Splits the text of a migration file into its SQL statements.
///
/// Blank lines and lines starting with `--` are dropped; the remaining lines
/// are trimmed and joined by single spaces; a line ending in `;` closes a
/// statement, whose trailing `;` are removed; an unterminated rest forms a
/// final statement. No statement is empty.
pub fn split_statements(content: &str) -> (r: Vec<String>)
    ensures
        views(r@) == statements(content@),
{
    let v = chars_of(content);
    let n = v.len();
    let mut out: Vec<String> = Vec::new();
    let mut buf: Vec<char> = Vec::new();
    let mut start: usize = 0;
    let mut i: usize = 0;
    assert(views(out@) =~= Seq::<Seq<char>>::empty());
    while i < n
        invariant
            n == v@.len(),
            start <= i <= n,
            lines(v@.subrange(0, i as int)).len() >= 1,
            lines(v@.subrange(0, i as int)).last() == v@.subrange(start as int, i as int),
            feed_lines(lines(v@.subrange(0, i as int)).drop_last()) == (ScanState {
                done: views(out@),
                buf: buf@,
            }),
        decreases n - i,
    {
        let ghost p = v@.subrange(0, i as int);
        let ghost q = v@.subrange(0, i + 1);
        assert(q.drop_last() == p);
        assert(q.last() == v@[i as int]);
        if v[i] == '\n' {
            feed_line_exec(&v, start, i, &mut buf, &mut out);
            assert(lines(p) == lines(p).drop_last().push(lines(p).last()));
            assert(lines(q).drop_last() == lines(p));
            start = i + 1;
        } else {
            assert(lines(q).drop_last() == lines(p).drop_last());
            assert(v@.subrange(start as int, i + 1) == v@.subrange(start as int, i as int).push(
                v@[i as int],
            ));
        }
        i = i + 1;
    }
    assert(v@.subrange(0, n as int) == v@);
    feed_line_exec(&v, start, n, &mut buf, &mut out);
    proof {
        let ls = lines(v@);
        assert(ls == ls.drop_last().push(ls.last()));
    }
    let (a, b) = trimmed_bounds(&buf, 0, buf.len());
    assert(buf@.subrange(0, buf@.len() as int) == buf@);
    if a < b {
        let rest = string_of(&buf, a, b);
        proof {
            lemma_views_push(out@, rest);
        }
        out.push(rest);
    }
    out
}

} // verus!
