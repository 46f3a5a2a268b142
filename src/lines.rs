//! The line scanner: lines of a text with their byte offsets, where a line
//! ends at `\n`, at `\r\n` or at a lone `\r`.

use vstd::prelude::*;
use vstd::string::StringSliceAdditionalSpecFns;
use vstd::utf8::{
    encode_utf8_valid_utf8, is_char_boundary, is_char_boundary_iff_not_is_continuation_byte,
    is_char_boundary_start_end_of_seq, length_of_first_scalar, pop_first_scalar, valid_utf8,
    valid_utf8_split,
};

verus! {

/// Line feed.
pub const LF: u8 = 0x0a;

/// Carriage return.
pub const CR: u8 = 0x0d;

/// A byte that ends the text of a line.
pub open spec fn is_line_break(c: u8) -> bool {
    c == LF || c == CR
}

/// The offset where the text of the line starting at `i` ends: the first line
/// break at or after `i`, or the end of `b`.
pub open spec fn line_end(b: Seq<u8>, i: int) -> int
    decreases b.len() - i,
{
    if i < b.len() && !is_line_break(b[i]) {
        line_end(b, i + 1)
    } else {
        i
    }
}

/// The offset just after the terminator of the line starting at `i`: `\r\n`
/// counts as one terminator, a lone `\r` or `\n` as another, and a last line
/// without one runs to the end of `b`.
pub open spec fn next_line_start(b: Seq<u8>, i: int) -> int {
    let e = line_end(b, i);
    if e + 1 < b.len() && b[e] == CR && b[e + 1] == LF {
        e + 2
    } else if e < b.len() {
        e + 1
    } else {
        e
    }
}

/// The text of the line starting at `i`, without its terminator.
pub open spec fn line_text(b: Seq<u8>, i: int) -> Seq<u8> {
    b.subrange(i, line_end(b, i))
}

/// The start of the first line, among the line starting at `i` and those
/// after it, whose text is `d`; `None` where no such line comes before the end.
pub open spec fn find_line(b: Seq<u8>, i: int, d: Seq<u8>) -> Option<int>
    decreases b.len() - i,
{
    if 0 <= i < b.len() {
        if line_text(b, i) == d {
            Some(i)
        } else {
            proof {
                lemma_line_bounds(b, i);
            }
            find_line(b, next_line_start(b, i), d)
        }
    } else {
        None
    }
}

/// The text of a line never reaches past the end of `b`, and a line that
/// starts before the end moves the cursor forward.
pub proof fn lemma_line_bounds(b: Seq<u8>, i: int)
    requires
        0 <= i <= b.len(),
    ensures
        i <= line_end(b, i) <= b.len(),
        line_end(b, i) <= next_line_start(b, i) <= b.len(),
        line_end(b, i) < b.len() ==> is_line_break(b[line_end(b, i)]),
        forall|k: int| i <= k < line_end(b, i) ==> !is_line_break(#[trigger] b[k]),
        i < b.len() ==> i < next_line_start(b, i),
        next_line_start(b, i) == b.len() || is_line_break(b[next_line_start(b, i) - 1]),
    decreases b.len() - i,
{
    if i < b.len() && !is_line_break(b[i]) {
        lemma_line_bounds(b, i + 1);
    }
}

/// A run of bytes without line breaks that is followed by one forms the text
/// of a line.
pub proof fn lemma_line_end_at(b: Seq<u8>, i: int, e: int)
    requires
        0 <= i <= e < b.len(),
        forall|k: int| i <= k < e ==> !is_line_break(#[trigger] b[k]),
        is_line_break(b[e]),
    ensures
        line_end(b, i) == e,
    decreases e - i,
{
    if i < e {
        lemma_line_end_at(b, i + 1, e);
    }
}

/// Where `p`, which ends with a line feed, lies in `b` from `off` on, the lines
/// that start inside `p` are the same in `b` as in `p`, shifted by `off`.
pub proof fn lemma_line_shift(b: Seq<u8>, p: Seq<u8>, off: int, i: int)
    requires
        0 <= off,
        off + p.len() <= b.len(),
        b.subrange(off, off + p.len()) == p,
        p.len() > 0,
        p.last() == LF,
        0 <= i < p.len(),
    ensures
        line_end(p, i) < p.len(),
        line_end(b, off + i) == off + line_end(p, i),
        next_line_start(b, off + i) == off + next_line_start(p, i),
        line_text(b, off + i) == line_text(p, i),
    decreases p.len() - i,
{
    assert(b[off + i] == p[i]);
    if !is_line_break(p[i]) {
        lemma_line_shift(b, p, off, i + 1);
    }
    lemma_line_bounds(p, i);
    let e = line_end(p, i);
    assert(0 <= e < p.len());
    assert(b[off + e] == p[e]);
    if e + 1 < p.len() {
        assert(b[off + e + 1] == p[e + 1]);
    }
    assert(line_text(b, off + i) =~= line_text(p, i));
}

/// Where no line of `p` from the one at `i` on reads `d`, the search for `d`
/// in `b` passes over the copy of `p` at `off`.
pub proof fn lemma_find_line_skips(b: Seq<u8>, p: Seq<u8>, off: int, i: int, d: Seq<u8>)
    requires
        0 <= off,
        off + p.len() <= b.len(),
        b.subrange(off, off + p.len()) == p,
        p.len() == 0 || p.last() == LF,
        0 <= i <= p.len(),
        find_line(p, i, d) is None,
    ensures
        find_line(b, off + i, d) == find_line(b, off + p.len(), d),
    decreases p.len() - i,
{
    if i < p.len() {
        lemma_line_shift(b, p, off, i);
        lemma_line_bounds(p, i);
        lemma_find_line_skips(b, p, off, next_line_start(p, i), d);
    }
}

/// In valid UTF-8, the offset just after an ASCII byte begins a character.
pub proof fn lemma_boundary_after_ascii(b: Seq<u8>, i: int)
    requires
        valid_utf8(b),
        0 < i <= b.len(),
        b[i - 1] < 0x80,
    ensures
        is_char_boundary(b, i),
    decreases b.len(),
{
    let n = length_of_first_scalar(b);
    if i <= n {
        reveal_with_fuel(is_char_boundary, 2);
    } else {
        let rest = pop_first_scalar(b);
        assert(rest[i - n - 1] == b[i - 1]);
        lemma_boundary_after_ascii(rest, i - n);
    }
}

/// Offset `k` of `b` is an end of `b` or lies next to an ASCII byte, so that
/// in valid UTF-8 a character begins there.
pub open spec fn borders_ascii(b: Seq<u8>, k: int) -> bool {
    ||| k == 0
    ||| k == b.len()
    ||| (0 < k <= b.len() && b[k - 1] < 0x80)
    ||| (0 <= k < b.len() && b[k] < 0x80)
}

/// The part of `s` between two byte offsets that each border on an ASCII byte
/// (or on an end of `s`).
pub(crate) fn ascii_bounded_slice(s: &str, from: usize, to: usize) -> (r: &str)
    requires
        from <= to <= s.spec_bytes().len(),
        borders_ascii(s.spec_bytes(), from as int),
        borders_ascii(s.spec_bytes(), to as int),
    ensures
        r.spec_bytes() == s.spec_bytes().subrange(from as int, to as int),
{
    let ghost b = s.spec_bytes();
    proof {
        encode_utf8_valid_utf8(s@);
        is_char_boundary_start_end_of_seq(b);
        if 0 < to && b[to - 1] < 0x80 {
            lemma_boundary_after_ascii(b, to as int);
        } else if to < b.len() {
            is_char_boundary_iff_not_is_continuation_byte(b, to as int);
        }
    }
    let (head, _) = s.split_at(to);
    proof {
        valid_utf8_split(b, to as int);
        is_char_boundary_start_end_of_seq(head.spec_bytes());
        let h = head.spec_bytes();
        if 0 < from && b[from - 1] < 0x80 {
            assert(h[from - 1] == b[from - 1]);
            lemma_boundary_after_ascii(h, from as int);
        } else if from < to {
            assert(h[from as int] == b[from as int]);
            is_char_boundary_iff_not_is_continuation_byte(h, from as int);
        }
    }
    let (_, r) = head.split_at(from);
    assert(r.spec_bytes() =~= b.subrange(from as int, to as int));
    r
}

/// One line of a text.
pub struct LineSpan<'a> {
    /// Offset of the line's first byte.
    pub start: usize,
    /// Offset just after the line's terminator, or the length of the text.
    pub next_start: usize,
    /// The line, without its terminator.
    pub line: &'a str,
}

/// The lines of a text, handed out one at a time from the first.
pub struct LineSpans<'a> {
    text: &'a str,
    pos: usize,
}

impl<'a> LineSpans<'a> {
    /// The bytes of the text being scanned.
    pub closed spec fn source(&self) -> Seq<u8> {
        self.text.spec_bytes()
    }

    /// Offset of the next line to hand out.
    pub closed spec fn cursor(&self) -> int {
        self.pos as int
    }

    /// The cursor is within the text, at its start, at its end, or just after
    /// a line terminator.
    pub closed spec fn wf(&self) -> bool {
        let b = self.text.spec_bytes();
        &&& self.pos <= b.len()
        &&& (self.pos == 0 || self.pos == b.len() || is_line_break(b[self.pos - 1]))
    }

    /// Hands out the line at the cursor and moves past it; `None` once the
    /// cursor has reached the end of the text.
    pub fn next(&mut self) -> (r: Option<LineSpan<'a>>)
        requires
            old(self).wf(),
        ensures
            final(self).wf(),
            final(self).source() == old(self).source(),
            old(self).cursor() >= old(self).source().len() ==> r is None && final(self).cursor()
                == old(self).cursor(),
            old(self).cursor() < old(self).source().len() ==> {
                let b = old(self).source();
                let i = old(self).cursor();
                &&& r is Some
                &&& r->Some_0.start == i
                &&& r->Some_0.next_start == next_line_start(b, i)
                &&& r->Some_0.line.spec_bytes() == line_text(b, i)
                &&& final(self).cursor() == next_line_start(b, i)
            },
    {
        let bytes = self.text.as_bytes();
        let ghost b = bytes@;
        if self.pos >= bytes.len() {
            return None;
        }
        let start = self.pos;
        let mut i = start;
        while i < bytes.len() && bytes[i] != LF && bytes[i] != CR
            invariant
                b == bytes@,
                start <= i <= b.len(),
                line_end(b, start as int) == line_end(b, i as int),
            decreases b.len() - i,
        {
            i = i + 1;
        }
        let end = i;
        if i < bytes.len() && bytes[i] == CR {
            i = i + 1;
            if i < bytes.len() && bytes[i] == LF {
                i = i + 1;
            }
        } else if i < bytes.len() && bytes[i] == LF {
            i = i + 1;
        }
        proof {
            lemma_line_bounds(b, start as int);
        }
        let line = ascii_bounded_slice(self.text, start, end);
        self.pos = i;
        Some(LineSpan { start, next_start: i, line })
    }
}

impl<'a> LineSpan<'a> {
    /// The lines of `s`, from the first.
    pub fn new(s: &'a str) -> (r: LineSpans<'a>)
        ensures
            r.wf(),
            r.source() == s.spec_bytes(),
            r.cursor() == 0,
    {
        LineSpans { text: s, pos: 0 }
    }
}

} // verus!
