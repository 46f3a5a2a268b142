//! The splitter: finds the frontmatter block that opens a document and cuts
//! the document into block and body.

use vstd::prelude::*;
use vstd::string::StringSliceAdditionalSpecFns;
use vstd::utf8::{decode_utf8, encode_utf8, encode_utf8_decode_utf8};

use crate::error::FrontmatterError;
use crate::format::{bytes_equal, FrontmatterFormat};
use crate::lines::{
    ascii_bounded_slice, borders_ascii, find_line, lemma_find_line_skips, lemma_line_bounds,
    is_line_break, lemma_line_end_at, line_text, next_line_start, LineSpan, LF,
};

verus! {

/// What splitting a text comes to, over its bytes: the notation and the bytes
/// of the block when there is one, and the bytes of the body; or the notation
/// whose block is never closed.
pub type SplitOutcome = Result<(Option<(FrontmatterFormat, Seq<u8>)>, Seq<u8>), FrontmatterFormat>;

/// The notation that the first line of `t` opens, if any.
pub open spec fn opening_format(t: Seq<u8>) -> Option<FrontmatterFormat> {
    FrontmatterFormat::opened_by(line_text(t, 0))
}

/// Where the closing line of a block of notation `f` that opens `t` starts.
pub open spec fn closing_line(t: Seq<u8>, f: FrontmatterFormat) -> Option<int> {
    find_line(t, next_line_start(t, 0), f.closing())
}

/// Splitting text `t` whose leading whitespace is already gone. A JSON block
/// runs from the opening brace through the terminator of the closing line; a
/// TOML or YAML block lies strictly between its two delimiter lines. The body
/// starts after the terminator of the closing line.
pub open spec fn split_spec(t: Seq<u8>) -> SplitOutcome {
    match opening_format(t) {
        None => Ok((None, t)),
        Some(f) => match closing_line(t, f) {
            None => Err(f),
            Some(c) => {
                let after = next_line_start(t, c);
                let matter = if f == FrontmatterFormat::Json {
                    t.subrange(0, after)
                } else {
                    t.subrange(next_line_start(t, 0), c)
                };
                Ok((Some((f, matter)), t.subrange(after, t.len() as int)))
            },
        },
    }
}

/// A frontmatter block: its notation and its text.
#[derive(Debug, Clone, Copy)]
pub struct SplitFrontmatter<'a>(pub FrontmatterFormat, pub &'a str);

/// `r` is what `m` describes, with `AbsentClosingDelimiter` for an unclosed
/// block.
pub open spec fn split_result_is<'a>(
    r: Result<(Option<SplitFrontmatter<'a>>, &'a str), FrontmatterError>,
    m: SplitOutcome,
) -> bool {
    match m {
        Ok((None, body)) => {
            &&& r is Ok
            &&& r->Ok_0.0 is None
            &&& r->Ok_0.1.spec_bytes() == body
        },
        Ok((Some((f, matter)), body)) => {
            &&& r is Ok
            &&& r->Ok_0.0 is Some
            &&& r->Ok_0.0->Some_0.0 == f
            &&& r->Ok_0.0->Some_0.1.spec_bytes() == matter
            &&& r->Ok_0.1.spec_bytes() == body
        },
        Err(f) => r == Err::<(Option<SplitFrontmatter<'a>>, &'a str), FrontmatterError>(
            FrontmatterError::AbsentClosingDelimiter(f.label()),
        ),
    }
}

/// What `str::trim_start` leaves of a text: it drops the leading characters
/// that Unicode classes as white space.
pub uninterp spec fn trim_start_of(s: Seq<char>) -> Seq<char>;

/// Relies on `str::trim_start`, which removes leading Unicode white space. A
/// visible ASCII character is not white space, so a text that starts with one
/// comes back whole; an empty text stays empty.
#[verifier::external_body]
fn trim_start(s: &str) -> (r: &str)
    ensures
        r@ == trim_start_of(s@),
        s@.len() == 0 ==> r@.len() == 0,
        s@.len() > 0 && '!' <= s@[0] <= '~' ==> r@ == s@,
{
    s.trim_start()
}

/// The bytes that remain of a document once its leading white space is gone.
pub open spec fn trimmed_bytes(content: Seq<char>) -> Seq<u8> {
    encode_utf8(trim_start_of(content))
}

/// Splits text whose leading whitespace is already gone into frontmatter and
/// body.
pub fn split_trimmed(content: &str) -> (r: Result<(Option<SplitFrontmatter<'_>>, &str), FrontmatterError>)
    ensures
        split_result_is(r, split_spec(content.spec_bytes())),
{
    let ghost t = content.spec_bytes();
    let mut lines = LineSpan::new(content);
    let first = match lines.next() {
        Some(span) => span,
        None => {
            assert(line_text(t, 0) =~= Seq::<u8>::empty());
            return Ok((None, content));
        },
    };
    let format = match FrontmatterFormat::detect(first.line) {
        Some(f) => f,
        None => return Ok((None, content)),
    };
    proof {
        lemma_line_bounds(t, 0);
    }
    let matter_start = match format {
        FrontmatterFormat::Json => first.start,
        FrontmatterFormat::Toml | FrontmatterFormat::Yaml => first.next_start,
    };
    let closing_delimiter = format.delimiter().1;
    loop
        invariant
            t == content.spec_bytes(),
            lines.wf(),
            lines.source() == t,
            0 < next_line_start(t, 0) <= lines.cursor() <= t.len(),
            lines.cursor() == t.len() || is_line_break(t[lines.cursor() - 1]),
            closing_line(t, format) == find_line(t, lines.cursor(), format.closing()),
            closing_delimiter.spec_bytes() == format.closing(),
            matter_start as int == if format == FrontmatterFormat::Json {
                0
            } else {
                next_line_start(t, 0)
            },
            opening_format(t) == Some(format),
            borders_ascii(t, matter_start as int),
        decreases t.len() - lines.cursor(),
    {
        let ghost i = lines.cursor();
        let span = match lines.next() {
            Some(span) => span,
            None => {
                let label = <&'static str>::from(format);
                return Err(FrontmatterError::AbsentClosingDelimiter(label));
            },
        };
        proof {
            lemma_line_bounds(t, i);
        }
        if bytes_equal(span.line.as_bytes(), closing_delimiter.as_bytes()) {
            let matter = match format {
                FrontmatterFormat::Json => ascii_bounded_slice(content, matter_start, span.next_start),
                FrontmatterFormat::Toml | FrontmatterFormat::Yaml => ascii_bounded_slice(
                    content,
                    matter_start,
                    span.start,
                ),
            };
            let body = ascii_bounded_slice(content, span.next_start, content.as_bytes().len());
            return Ok((Some(SplitFrontmatter(format, matter)), body));
        }
    }
}

/// Splits a document into frontmatter and body. Leading white space is
/// dropped first; the returned slices lie in what remains.
pub fn split(content: &str) -> (r: Result<(Option<SplitFrontmatter<'_>>, &str), FrontmatterError>)
    ensures
        split_result_is(r, split_spec(trimmed_bytes(content@))),
        opening_format(trimmed_bytes(content@)) is None ==> {
            &&& r is Ok
            &&& r->Ok_0.0 is None
            &&& r->Ok_0.1@ == trim_start_of(content@)
        },
{
    let trimmed = trim_start(content);
    let r = split_trimmed(trimmed);
    proof {
        if opening_format(trimmed_bytes(content@)) is None {
            let body = r->Ok_0.1;
            encode_utf8_decode_utf8(body@);
            encode_utf8_decode_utf8(trimmed@);
        }
    }
    r
}

/// A document made of an opening delimiter line, a payload, a closing
/// delimiter line and a body, each delimiter line ended by a line feed.
pub open spec fn framed(f: FrontmatterFormat, payload: Seq<u8>, body: Seq<u8>) -> Seq<u8> {
    f.opening() + seq![LF] + payload + f.closing() + seq![LF] + body
}

/// Round trip: a payload that is empty or ends with a line feed, and none of
/// whose lines reads as the closing delimiter, framed by the delimiter lines
/// of its notation and followed by any body, splits back into that body
/// exactly; the block is the payload itself for TOML and YAML, and the payload
/// with both brace lines for JSON.
pub proof fn lemma_round_trip(f: FrontmatterFormat, payload: Seq<u8>, body: Seq<u8>)
    requires
        payload.len() == 0 || payload.last() == LF,
        find_line(payload, 0, f.closing()) is None,
    ensures
        split_spec(framed(f, payload, body)) == Ok::<_, FrontmatterFormat>(
            (
                Some(
                    (
                        f,
                        if f == FrontmatterFormat::Json {
                            f.opening() + seq![LF] + payload + f.closing() + seq![LF]
                        } else {
                            payload
                        },
                    ),
                ),
                body,
            ),
        ),
{
    let d = framed(f, payload, body);
    let open = f.opening();
    let close = f.closing();
    let o = open.len() as int;
    let k = o + 1;
    let c = k + payload.len();
    let after = c + close.len() + 1;
    assert(d.len() == after + body.len());
    assert(d[o] == LF);
    assert forall|j: int| 0 <= j < o implies !is_line_break(#[trigger] d[j]) by {
        assert(d[j] == open[j]);
    }
    lemma_line_end_at(d, 0, o);
    assert(line_text(d, 0) =~= open);
    assert(opening_format(d) == Some(f));
    assert(next_line_start(d, 0) == k);
    assert(d.subrange(k, k + payload.len()) =~= payload);
    lemma_find_line_skips(d, payload, k, 0, close);
    assert(d[c + close.len()] == LF);
    assert forall|j: int| c <= j < c + close.len() implies !is_line_break(
        #[trigger] d[j],
    ) by {
        assert(d[j] == close[j - c]);
    }
    lemma_line_end_at(d, c, c + close.len());
    assert(line_text(d, c) =~= close);
    assert(closing_line(d, f) == Some(c));
    assert(next_line_start(d, c) == after);
    assert(d.subrange(after, d.len() as int) =~= body);
    if f == FrontmatterFormat::Json {
        assert(d.subrange(0, after) =~= open + seq![LF] + payload + close + seq![LF]);
    } else {
        assert(d.subrange(k, c) =~= payload);
    }
}

/// Splitting a body again: once its own leading white space is gone, a body
/// whose first line is not an opening delimiter splits into no frontmatter and
/// that whole text. (One whose first line is an opening delimiter is split like
/// any other document.)
pub proof fn lemma_split_body_again(content: Seq<char>)
    requires
        split_spec(trimmed_bytes(content)) is Ok,
        opening_format(
            trimmed_bytes(decode_utf8(split_spec(trimmed_bytes(content))->Ok_0.1)),
        ) is None,
    ensures
        ({
            let again = trimmed_bytes(decode_utf8(split_spec(trimmed_bytes(content))->Ok_0.1));
            split_spec(again) == Ok::<_, FrontmatterFormat>((None::<(FrontmatterFormat, Seq<u8>)>, again))
        }),
{
}

} // verus!
