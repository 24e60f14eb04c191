//! Line and server-sent-event framing for streamed provider responses.
//!
//! Anthropic and the OpenAI dialect stream SSE, Ollama streams newline-delimited
//! JSON. Both are line-oriented, so one framing layer serves all three.
//!
//! Buffering happens on raw bytes rather than on decoded text: a chunk boundary
//! can fall inside a multi-byte character, and decoding per chunk would corrupt
//! it. A newline never appears inside a UTF-8 sequence, so splitting first and
//! decoding per line is safe.

use std::collections::VecDeque;

use vstd::prelude::*;

use crate::platform::{decode_lossy, lossy_decode};
use crate::text::{chars_of, starts_with, str_starts_with, string_from, trim, trim_chars, vec_slice};
use crate::vote::rtrim_where;

verus! {

/// The complete lines of a byte run, without their newline, and the bytes
/// after the last newline.
pub open spec fn byte_lines(bytes: Seq<u8>) -> (Seq<Seq<u8>>, Seq<u8>)
    decreases bytes.len(),
{
    if bytes.len() == 0 {
        (seq![], seq![])
    } else {
        let (done, cur) = byte_lines(bytes.drop_last());
        if bytes.last() == 10u8 {
            (done.push(cur), seq![])
        } else {
            (done, cur.push(bytes.last()))
        }
    }
}

/// A carriage return.
pub open spec fn is_cr(c: char) -> bool {
    c == '\r'
}

/// The text of one line: decoded leniently, trailing carriage returns removed.
pub open spec fn line_text(bytes: Seq<u8>) -> Seq<char> {
    rtrim_where(lossy_decode(bytes), |c: char| is_cr(c))
}

/// The text of every line, in order.
pub open spec fn line_texts(lines: Seq<Seq<u8>>) -> Seq<Seq<char>> {
    lines.map_values(|l: Seq<u8>| line_text(l))
}

/// Removes the carriage returns that end a decoded line.
pub fn strip_carriage_returns(decoded: &str) -> (s: String)
    ensures
        s@ == rtrim_where(decoded@, |c: char| is_cr(c)),
{
    let v = chars_of(decoded);
    let mut j: usize = v.len();
    assert(v@.subrange(0, v@.len() as int) =~= v@);
    while j > 0 && v[j - 1] == '\r'
        invariant
            j <= v@.len(),
            rtrim_where(v@, |c: char| is_cr(c)) == rtrim_where(
                v@.subrange(0, j as int),
                |c: char| is_cr(c),
            ),
        decreases j,
    {
        assert(v@.subrange(0, j as int).drop_last() =~= v@.subrange(0, j - 1));
        j = j - 1;
    }
    let kept = vec_slice(v.as_slice(), 0, j);
    string_from(kept.as_slice())
}

/// Decodes one line of bytes.
pub fn decode_line(bytes: &[u8]) -> (s: String)
    ensures
        s@ == line_text(bytes@),
{
    let decoded = decode_lossy(bytes);
    strip_carriage_returns(decoded.as_str())
}

/// Moves every complete line out of the buffer, decoded, onto `ready`; what
/// follows the last newline stays buffered.
pub fn drain_lines(buffer: &mut Vec<u8>, ready: &mut VecDeque<String>)
    ensures
        final(buffer)@ == byte_lines(old(buffer)@).1,
        final(ready)@.map_values(|s: String| s@) == old(ready)@.map_values(|s: String| s@)
            + line_texts(byte_lines(old(buffer)@).0),
{
    let ghost start = ready@.map_values(|s: String| s@);
    let ghost bytes = buffer@;
    let mut cur: Vec<u8> = Vec::new();
    let mut i: usize = 0;
    while i < buffer.len()
        invariant
            i <= buffer@.len(),
            buffer@ == bytes,
            cur@ == byte_lines(bytes.take(i as int)).1,
            ready@.map_values(|s: String| s@) == start + line_texts(
                byte_lines(bytes.take(i as int)).0,
            ),
        decreases buffer@.len() - i,
    {
        assert(bytes.take(i + 1).drop_last() =~= bytes.take(i as int));
        let b = buffer[i];
        if b == 10u8 {
            let line = decode_line(cur.as_slice());
            let ghost before = ready@;
            ready.push_back(line);
            assert(ready@.map_values(|s: String| s@) =~= before.map_values(|s: String| s@).push(
                line@,
            ));
            assert(line_texts(byte_lines(bytes.take(i as int)).0.push(cur@)) =~= line_texts(
                byte_lines(bytes.take(i as int)).0,
            ).push(line_text(cur@)));
            cur = Vec::new();
        } else {
            cur.push(b);
        }
        i = i + 1;
    }
    assert(bytes.take(bytes.len() as int) =~= bytes);
    *buffer = cur;
}

/// At the end of the stream, turns a last unterminated line into a line.
pub fn flush_remainder(buffer: &mut Vec<u8>, ready: &mut VecDeque<String>)
    ensures
        final(buffer)@.len() == 0,
        final(ready)@.map_values(|s: String| s@) == if old(buffer)@.len() == 0 {
            old(ready)@.map_values(|s: String| s@)
        } else {
            old(ready)@.map_values(|s: String| s@).push(line_text(old(buffer)@))
        },
{
    if buffer.len() == 0 {
        return;
    }
    let line = decode_line(buffer.as_slice());
    let ghost before = ready@;
    ready.push_back(line);
    assert(ready@.map_values(|s: String| s@) =~= before.map_values(|s: String| s@).push(line@));
    buffer.clear();
}

/// How chunks arrive makes no difference: splitting `a` and then the rest
/// of it followed by `b` gives the lines of `a + b`.
pub proof fn lemma_chunking_is_invisible(a: Seq<u8>, b: Seq<u8>)
    ensures
        byte_lines(a + b) == ({
            let (first, rest) = byte_lines(a);
            let (more, tail) = byte_lines(rest + b);
            (first + more, tail)
        }),
    decreases b.len(),
{
    let (first, rest) = byte_lines(a);
    if b.len() == 0 {
        assert(a + b =~= a);
        assert(rest + b =~= rest);
        lemma_rest_has_no_newline(a);
        lemma_no_newline_is_rest(rest);
        assert(first + Seq::<Seq<u8>>::empty() =~= first);
    } else {
        lemma_chunking_is_invisible(a, b.drop_last());
        assert((a + b).drop_last() =~= a + b.drop_last());
        assert((rest + b).drop_last() =~= rest + b.drop_last());
        let (more, tail) = byte_lines(rest + b.drop_last());
        assert((first + more).push(tail) =~= first + more.push(tail));
    }
}

/// The bytes after the last newline hold no newline.
proof fn lemma_rest_has_no_newline(a: Seq<u8>)
    ensures
        forall|i: int| 0 <= i < byte_lines(a).1.len() ==> byte_lines(a).1[i] != 10u8,
    decreases a.len(),
{
    if a.len() > 0 {
        lemma_rest_has_no_newline(a.drop_last());
        let cur = byte_lines(a.drop_last()).1;
        if a.last() != 10u8 {
            assert forall|i: int| 0 <= i < byte_lines(a).1.len() implies byte_lines(a).1[i]
                != 10u8 by {
                if i < cur.len() {
                    assert(byte_lines(a).1[i] == cur[i]);
                }
            }
        }
    }
}

/// A run without a newline is all remainder.
proof fn lemma_no_newline_is_rest(r: Seq<u8>)
    requires
        forall|i: int| 0 <= i < r.len() ==> r[i] != 10u8,
    ensures
        byte_lines(r) == (Seq::<Seq<u8>>::empty(), r),
    decreases r.len(),
{
    if r.len() > 0 {
        lemma_no_newline_is_rest(r.drop_last());
        assert(r.drop_last().push(r.last()) =~= r);
    } else {
        assert(r =~= Seq::<u8>::empty());
    }
}

/// The payload of an SSE `data:` line, trimmed.
pub open spec fn payload_of(line: Seq<char>) -> Option<Seq<char>> {
    if starts_with(line, "data:"@) {
        let payload = trim(line.skip(5));
        if payload.len() == 0 || payload == "[DONE]"@ {
            None
        } else {
            Some(payload)
        }
    } else {
        None
    }
}

/// Extracts the payload of an SSE `data:` line.
///
/// Returns `None` for keep-alive comments, event-name lines, blank separators
/// and the `[DONE]` sentinel, so callers only ever see parseable payloads.
pub fn sse_payload(line: &str) -> (r: Option<String>)
    ensures
        match payload_of(line@) {
            Some(p) => r matches Some(s) && s@ == p,
            None => r is None,
        },
{
    proof {
        reveal_strlit("data:");
        reveal_strlit("[DONE]");
    }
    if !str_starts_with(line, "data:") {
        return None;
    }
    let chars = chars_of(line);
    let rest = vec_slice(chars.as_slice(), 5, chars.len());
    assert(rest@ =~= line@.skip(5));
    let payload = trim_chars(rest.as_slice());
    if payload.len() == 0 {
        return None;
    }
    let text = string_from(payload.as_slice());
    let done: Vec<char> = vec!['[', 'D', 'O', 'N', 'E', ']'];
    if crate::text::chars_equal(payload.as_slice(), done.as_slice()) {
        assert(done@ =~= "[DONE]"@);
        return None;
    }
    assert(done@ =~= "[DONE]"@);
    Some(text)
}

} // verus!
