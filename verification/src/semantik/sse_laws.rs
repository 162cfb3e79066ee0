//! What the event-stream scanner promises of whole streams.

use crate::semantik::limits::MAX_SSE_FRAME_BYTES;
use crate::semantik::sse;
use crate::semantik::sse::{Feeding, FrameView, Progress, ScannerView, COLON, CR, LF, SPACE};
use crate::text;
use vstd::prelude::*;

verus! {

// ---------------------------------------------------------------------
// Chunks
// ---------------------------------------------------------------------

/// More bytes do not change a line that was already complete.
proof fn lemma_first_line_extends(a: Seq<u8>, b: Seq<u8>)
    requires
        sse::first_line(a) is Some,
    ensures
        sse::first_line(a + b) == sse::first_line(a),
{
    sse::lemma_line_end(a);
    sse::lemma_line_end(a + b);
    let i = sse::line_end(a);
    let k = sse::line_end(a + b);
    assert((a + b)[i] == a[i]);
    if k < i {
        assert((a + b)[k] == a[k]);
        assert(sse::is_break(a[k]));
    }
    assert(k == i);
    assert((a + b).take(i) =~= a.take(i));
    if i + 1 < a.len() {
        assert((a + b)[i + 1] == a[i + 1]);
    }
}

/// Where a line in progress ends once more bytes have come in: at its
/// final `\r`, or else at the first break among them.
proof fn lemma_line_in_progress(a: Seq<u8>, b: Seq<u8>)
    requires
        sse::first_line(a) is None,
    ensures
        ({
            let line = sse::without_trailing_cr(a);
            &&& forall|j: int| 0 <= j < line.len() ==> !sse::is_break(#[trigger] a[j])
            &&& line.len() < a.len() ==> a.len() == line.len() + 1 && a[line.len() as int] == CR
                && sse::line_end(a + b) == line.len()
            &&& line.len() == a.len() ==> sse::line_end(a + b) == a.len() + sse::line_end(b)
        }),
{
    sse::lemma_line_end(a);
    sse::lemma_line_end(b);
    sse::lemma_line_end(a + b);
    let line = sse::without_trailing_cr(a);
    let n = line.len() as int;
    let k = sse::line_end(a + b);
    if n < a.len() {
        assert((a + b)[n] == CR);
        assert(sse::line_end(a) == n);
        if k < n {
            assert((a + b)[k] == a[k]);
        }
    } else {
        let i = sse::line_end(b);
        assert(sse::line_end(a) == a.len());
        if k < a.len() {
            assert((a + b)[k] == a[k]);
        }
        if i < b.len() {
            assert((a + b)[a.len() + i] == b[i]);
        }
        if k < a.len() + i && k < (a + b).len() {
            assert((a + b)[k] == b[k - a.len()]);
        }
    }
}

/// A line in progress over the cap stays over it, however it goes on.
proof fn lemma_overlong_stays(p: Progress, a: Seq<u8>, b: Seq<u8>)
    requires
        sse::first_line(a) is None,
        sse::is_overlong(p, a),
    ensures
        sse::drain(p, a + b).too_large,
        sse::drain(p, a + b).progress == sse::drain(p, a).progress,
        sse::drain(p, a + b).frames == Seq::<FrameView>::empty(),
{
    lemma_line_in_progress(a, b);
    sse::lemma_line_end(b);
    let s = a + b;
    let line = sse::without_trailing_cr(a);
    assert(s[0] == a[0]);
    match sse::first_line(s) {
        None => {
            let whole = sse::without_trailing_cr(s);
            assert(whole.len() >= line.len());
            assert(whole[0] == a[0]);
        },
        Some((whole, advance)) => {
            assert(whole.len() >= line.len());
            assert(whole[0] == a[0]);
        },
    }
}

/// Two texts that are the same from the end of their first line on break
/// it alike.
proof fn lemma_same_after_first_line(s: Seq<u8>, t: Seq<u8>, shift: int)
    requires
        0 <= shift,
        s.len() == t.len() + shift,
        1 <= sse::line_end(t) <= t.len(),
        sse::line_end(s) == sse::line_end(t) + shift,
        forall|j: int| sse::line_end(t) <= j < t.len() ==> #[trigger] t[j] == s[j + shift],
    ensures
        sse::first_line(t) is None <==> sse::first_line(s) is None,
        sse::first_line(t) matches Some((short, advance)) ==> {
            &&& sse::first_line(s) matches Some((long, n)) && n == advance + shift
                && long.len() > 0 && long[0] == s[0]
            &&& short.len() > 0 && short[0] == t[0]
            &&& s.skip(advance + shift) == t.skip(advance)
        },
{
    let i = sse::line_end(t);
    if i < t.len() {
        assert(t[i] == s[i + shift]);
        if i + 1 < t.len() {
            assert(t[i + 1] == s[i + 1 + shift]);
        }
    }
    if let Some((short, advance)) = sse::first_line(t) {
        assert(s.skip(advance + shift) =~= t.skip(advance)) by {
            assert forall|j: int| 0 <= j < t.len() - advance implies #[trigger] t.skip(advance)[j]
                == s.skip(advance + shift)[j] by {
                assert(t[j + advance] == s[j + advance + shift]);
            }
        }
    }
}

/// A comment in progress reads the same once it is abridged.
proof fn lemma_comment_abridged(p: Progress, a: Seq<u8>, b: Seq<u8>)
    requires
        sse::first_line(a) is None,
        a.len() > 0,
        a[0] == COLON,
    ensures
        sse::drain(p, a + b) == sse::drain(p, sse::abridged(a) + b),
{
    let c = sse::abridged(a);
    let line = sse::without_trailing_cr(a);
    let s = a + b;
    let t = c + b;
    let shift = a.len() - c.len();
    lemma_line_in_progress(a, b);
    if line.len() < a.len() {
        assert(c =~= seq![COLON, CR]);
    } else {
        assert(c =~= seq![COLON]);
    }
    assert(sse::first_line(c) is None) by {
        sse::lemma_line_end(c);
    }
    assert(sse::without_trailing_cr(c) =~= seq![COLON]);
    lemma_line_in_progress(c, b);
    sse::lemma_line_end(b);
    sse::lemma_line_end(t);
    assert(s[0] == COLON && t[0] == COLON);
    assert forall|j: int| sse::line_end(t) <= j < t.len() implies #[trigger] t[j] == s[j + shift] by {
        if j < c.len() {
            assert(t[j] == c[j] && s[j + shift] == a[j + shift]);
        } else {
            assert(t[j] == b[j - c.len()] && s[j + shift] == b[j - c.len()]);
        }
    }
    lemma_same_after_first_line(s, t, shift);
    if sse::first_line(t) is None {
        if b.len() > 0 {
            assert(t.last() == b.last() && s.last() == b.last());
        } else {
            assert(t =~= c && s =~= a);
        }
        assert(sse::abridged(s) =~= sse::abridged(t));
    }
}

/// Reading `a` and then `b` is reading `a + b`: the same frames come out
/// and the same state remains. Where `a` alone holds a frame over the
/// cap, so does `a + b`, and the same frames stand before it.
pub proof fn law_reading_is_incremental(p: Progress, a: Seq<u8>, b: Seq<u8>)
    ensures
        ({
            let first = sse::drain(p, a);
            let both = sse::drain(p, a + b);
            let then = sse::drain(first.progress, first.rest + b);
            &&& first.too_large ==> both.too_large && both.progress == first.progress
                && both.frames == first.frames
            &&& !first.too_large ==> {
                &&& both.progress == then.progress
                &&& both.rest == then.rest
                &&& both.too_large == then.too_large
                &&& both.frames == first.frames + then.frames
            }
        }),
    decreases a.len(),
{
    let first = sse::drain(p, a);
    match sse::first_line(a) {
        None => {
            let then = sse::drain(first.progress, first.rest + b);
            if first.too_large {
                lemma_overlong_stays(p, a, b);
            } else {
                if a.len() > 0 && a[0] == COLON {
                    lemma_comment_abridged(p, a, b);
                }
                assert(Seq::<FrameView>::empty() + then.frames =~= then.frames);
            }
        },
        Some((line, advance)) => {
            lemma_first_line_extends(a, b);
            sse::lemma_line_end(a);
            let step = sse::line_step(p, line);
            let rest = a.skip(advance);
            assert((a + b).skip(advance) =~= rest + b);
            if !step.too_large {
                law_reading_is_incremental(step.progress, rest, b);
                let more = sse::drain(step.progress, rest);
                let then = sse::drain(more.progress, more.rest + b);
                assert(sse::option_seq(step.frame) + (more.frames + then.frames) =~= (sse::option_seq(
                    step.frame,
                ) + more.frames) + then.frames);
            }
        },
    }
}

/// The bytes of all chunks, in order.
pub open spec fn concat(chunks: Seq<Seq<u8>>) -> Seq<u8>
    decreases chunks.len(),
{
    if chunks.len() == 0 {
        Seq::empty()
    } else {
        chunks.first() + concat(chunks.drop_first())
    }
}

/// What feeding chunks one after the other does, until one of them fails:
/// the frames handed out, and the state after it.
pub open spec fn fed(s: ScannerView, chunks: Seq<Seq<u8>>) -> Feeding
    decreases chunks.len(),
{
    if chunks.len() == 0 {
        Feeding { scanner: s, frames: Seq::empty(), too_large: false }
    } else {
        let f = sse::feeding(s, chunks.first());
        if f.too_large {
            f
        } else {
            let more = fed(f.scanner, chunks.drop_first());
            Feeding { frames: f.frames + more.frames, ..more }
        }
    }
}

/// However a stream is cut into chunks, feeding them hands out the same
/// frames: those of its bytes, up to the first frame over the cap. The
/// same streams fail, by the next call at the latest, and those that do
/// not leave the same state.
pub proof fn law_chunking_does_not_matter(s: ScannerView, chunks: Seq<Seq<u8>>)
    requires
        sse::is_settled(s.progress, s.tail),
        !s.failed,
    ensures
        ({
            let by_chunk = fed(s, chunks);
            let at_once = sse::drain(s.progress, s.tail + concat(chunks));
            &&& by_chunk.frames == at_once.frames
            &&& at_once.too_large <==> by_chunk.too_large || by_chunk.scanner.failed
            &&& !at_once.too_large ==> by_chunk.scanner == (ScannerView {
                progress: at_once.progress,
                tail: at_once.rest,
                ..s
            })
        }),
    decreases chunks.len(),
{
    let p = s.progress;
    let tail = s.tail;
    if chunks.len() == 0 {
        assert(tail + concat(chunks) =~= tail);
    } else {
        let head = tail + chunks.first();
        let others = concat(chunks.drop_first());
        law_reading_is_incremental(p, head, others);
        assert(tail + concat(chunks) =~= head + others);
        let d = sse::drain(p, head);
        let f = sse::feeding(s, chunks.first());
        if !d.too_large {
            sse::lemma_settled(p, head);
            law_chunking_does_not_matter(f.scanner, chunks.drop_first());
        } else if !f.too_large {
            let more = fed(f.scanner, chunks.drop_first());
            assert(more.frames =~= Seq::<FrameView>::empty());
            assert(f.frames + more.frames =~= d.frames);
        }
    }
}

/// However many bytes were fed, and however they were cut into chunks,
/// what is kept of them for the line in progress is no longer than the cap
/// and a final `\r`, as long as no frame over the cap was met.
pub proof fn law_memory_is_bounded(s: ScannerView, chunks: Seq<Seq<u8>>)
    requires
        sse::is_settled(s.progress, s.tail),
        !s.failed,
        !fed(s, chunks).too_large,
        !fed(s, chunks).scanner.failed,
    ensures
        fed(s, chunks).scanner.tail.len() <= MAX_SSE_FRAME_BYTES + 1,
{
    law_chunking_does_not_matter(s, chunks);
    sse::lemma_settled(s.progress, s.tail + concat(chunks));
}

// ---------------------------------------------------------------------
// Line endings
// ---------------------------------------------------------------------

/// The three ways to end a line.
pub enum LineEnding {
    Lf,
    CrLf,
    Cr,
}

/// The bytes of a line ending.
pub open spec fn ending_bytes(e: LineEnding) -> Seq<u8> {
    match e {
        LineEnding::Lf => seq![LF],
        LineEnding::CrLf => seq![CR, LF],
        LineEnding::Cr => seq![CR],
    }
}

/// `lines` written out, each with its ending.
pub open spec fn written(lines: Seq<Seq<u8>>, endings: Seq<LineEnding>) -> Seq<u8>
    decreases lines.len(),
{
    if lines.len() == 0 {
        Seq::empty()
    } else {
        lines.first() + ending_bytes(endings.first()) + written(
            lines.drop_first(),
            endings.drop_first(),
        )
    }
}

/// No line holds a break.
pub open spec fn are_lines(lines: Seq<Seq<u8>>) -> bool {
    forall|i: int, j: int|
        0 <= i < lines.len() && 0 <= j < lines[i].len() ==> !sse::is_break(#[trigger] lines[i][j])
}

/// No bare `\r` is followed by an empty line that ends in `\n`, which
/// would read as one `\r\n`.
pub open spec fn endings_apart(lines: Seq<Seq<u8>>, endings: Seq<LineEnding>) -> bool {
    forall|i: int|
        0 <= i < lines.len() - 1 && endings[i] is Cr && (#[trigger] lines[i + 1]).len() == 0
            ==> !(endings[i + 1] is Lf)
}

/// The frame that the end of the stream yields.
pub open spec fn last_frame(p: Progress) -> Option<FrameView> {
    if sse::is_blank(p) {
        None
    } else {
        Some(FrameView { event: p.event, data: p.data })
    }
}

/// The frames of a whole stream of lines; `None` where one is over the
/// cap.
pub open spec fn frames_of_lines(p: Progress, lines: Seq<Seq<u8>>) -> Option<Seq<FrameView>>
    decreases lines.len(),
{
    if lines.len() == 0 {
        Some(sse::option_seq(last_frame(p)))
    } else {
        let step = sse::line_step(p, lines.first());
        if step.too_large {
            None
        } else {
            match frames_of_lines(step.progress, lines.drop_first()) {
                Some(more) => Some(sse::option_seq(step.frame) + more),
                None => None,
            }
        }
    }
}

/// The frames of a whole stream of bytes, fed and then closed; `None`
/// where one is over the cap.
pub open spec fn frames_of_stream(p: Progress, bytes: Seq<u8>) -> Option<Seq<FrameView>> {
    let d = sse::drain(p, bytes);
    let c = sse::closing(ScannerView { progress: d.progress, tail: d.rest, closed: false, failed: false });
    if d.too_large || c.too_large {
        None
    } else {
        Some(d.frames + sse::option_seq(c.frame))
    }
}

/// A line at the head of a stream is read first.
proof fn lemma_stream_step(p: Progress, bytes: Seq<u8>)
    requires
        sse::first_line(bytes) is Some,
    ensures
        ({
            let (line, advance) = sse::first_line(bytes)->0;
            let step = sse::line_step(p, line);
            frames_of_stream(p, bytes) == if step.too_large {
                None
            } else {
                match frames_of_stream(step.progress, bytes.skip(advance)) {
                    Some(more) => Some(sse::option_seq(step.frame) + more),
                    None => None,
                }
            }
        }),
{
    sse::lemma_line_end(bytes);
    let (line, advance) = sse::first_line(bytes)->0;
    let step = sse::line_step(p, line);
    if !step.too_large {
        let more = sse::drain(step.progress, bytes.skip(advance));
        let c = sse::closing(ScannerView { progress: more.progress, tail: more.rest, closed: false, failed: false });
        assert(sse::option_seq(step.frame) + (more.frames + sse::option_seq(c.frame)) =~= sse::option_seq(
            step.frame,
        ) + more.frames + sse::option_seq(c.frame));
    }
}

/// The first line of `line + ending + rest` is `line`.
proof fn lemma_first_line_of(line: Seq<u8>, e: LineEnding, rest: Seq<u8>)
    requires
        forall|j: int| 0 <= j < line.len() ==> !sse::is_break(#[trigger] line[j]),
        e is Cr ==> rest.len() > 0 && rest[0] != LF,
    ensures
        sse::first_line(line + ending_bytes(e) + rest) == Some(
            (line, (line.len() + ending_bytes(e).len()) as int),
        ),
        (line + ending_bytes(e) + rest).skip((line.len() + ending_bytes(e).len()) as int) == rest,
{
    let s = line + ending_bytes(e) + rest;
    let n = line.len() as int;
    sse::lemma_line_end(s);
    assert(s[n] == ending_bytes(e)[0]);
    if sse::line_end(s) < n {
        assert(s[sse::line_end(s)] == line[sse::line_end(s)]);
    }
    assert(sse::line_end(s) == n);
    assert(s.take(n) =~= line);
    if e is CrLf {
        assert(s[n + 1] == LF);
    }
    if e is Cr {
        assert(s[n + 1] == rest[0]);
    }
    assert(s.skip((line.len() + ending_bytes(e).len()) as int) =~= rest);
}

/// One line whose bare `\r` is the end of the stream.
proof fn lemma_line_with_last_cr(p: Progress, line: Seq<u8>)
    requires
        forall|j: int| 0 <= j < line.len() ==> !sse::is_break(#[trigger] line[j]),
    ensures
        frames_of_stream(p, line.push(CR)) == frames_of_lines(p, seq![line]),
{
    let w = line.push(CR);
    sse::lemma_line_end(w);
    if sse::line_end(w) < line.len() {
        assert(w[sse::line_end(w)] == line[sse::line_end(w)]);
    }
    assert(w[line.len() as int] == CR);
    assert(sse::first_line(w) is None);
    assert(sse::without_trailing_cr(w) =~= line);
    let step = sse::line_step(p, line);
    assert(seq![line].drop_first() =~= Seq::<Seq<u8>>::empty());
    assert(frames_of_lines(step.progress, seq![line].drop_first()) == Some(
        sse::option_seq(last_frame(step.progress)),
    ));
    if line.len() > 0 && line[0] == COLON {
        assert(sse::without_trailing_cr(sse::abridged(w)) =~= seq![COLON]);
    }
    assert(Seq::<FrameView>::empty() + sse::option_seq(step.frame) =~= sse::option_seq(step.frame)
        + Seq::<FrameView>::empty());
    let end = sse::option_seq(last_frame(step.progress));
    assert(Seq::<FrameView>::empty() + end =~= end);
}

/// `\n`, `\r\n` and bare `\r` end lines alike: whatever endings a stream
/// of lines is written with, reading it and closing the scanner yields
/// the frames of those lines.
pub proof fn law_line_endings_do_not_matter(
    p: Progress,
    lines: Seq<Seq<u8>>,
    endings: Seq<LineEnding>,
)
    requires
        are_lines(lines),
        endings.len() == lines.len(),
        endings_apart(lines, endings),
    ensures
        frames_of_stream(p, written(lines, endings)) == frames_of_lines(p, lines),
    decreases lines.len(),
{
    let w = written(lines, endings);
    if lines.len() == 0 {
        assert(sse::first_line(w) is None);
        assert(Seq::<FrameView>::empty() + sse::option_seq(last_frame(p)) =~= sse::option_seq(last_frame(p)));
    } else {
        let line = lines.first();
        let e = endings.first();
        let lines2 = lines.drop_first();
        let endings2 = endings.drop_first();
        let rest = written(lines2, endings2);
        lemma_fewer_lines(lines, endings);
        if e is Cr && lines2.len() == 0 {
            assert(w =~= line.push(CR));
            assert(lines =~= seq![line]);
            lemma_line_with_last_cr(p, line);
        } else {
            if e is Cr {
                let next = lines2.first();
                assert(next == lines[0int + 1]);
                let ending = ending_bytes(endings2.first());
                assert(rest == next + ending + written(lines2.drop_first(), endings2.drop_first()));
                if next.len() > 0 {
                    assert(rest[0] == next[0]);
                    assert(!sse::is_break(lines[1][0]));
                } else {
                    assert(rest[0] == ending[0]);
                }
            }
            lemma_first_line_of(line, e, rest);
            lemma_stream_step(p, w);
            let step = sse::line_step(p, line);
            law_line_endings_do_not_matter(step.progress, lines2, endings2);
        }
    }
}

// ---------------------------------------------------------------------
// Comments and fields
// ---------------------------------------------------------------------

/// A comment line changes nothing.
pub proof fn law_comments_are_ignored(p: Progress, comment: Seq<u8>, bytes: Seq<u8>)
    requires
        comment.len() > 0,
        comment[0] == COLON,
        forall|j: int| 0 <= j < comment.len() ==> !sse::is_break(#[trigger] comment[j]),
    ensures
        frames_of_stream(p, comment + ending_bytes(LineEnding::Lf) + bytes) == frames_of_stream(
            p,
            bytes,
        ),
{
    lemma_first_line_of(comment, LineEnding::Lf, bytes);
    lemma_stream_step(p, comment + ending_bytes(LineEnding::Lf) + bytes);
    if let Some(more) = frames_of_stream(p, bytes) {
        assert(Seq::<FrameView>::empty() + more =~= more);
    }
}

/// A field that is neither `event` nor `data` changes neither, and yields
/// nothing.
pub proof fn law_unknown_fields_are_ignored(p: Progress, line: Seq<u8>)
    requires
        line.len() > 0,
        sse::field_name(line) != sse::event_field(),
        sse::field_name(line) != sse::data_field(),
    ensures
        sse::line_step(p, line).frame is None,
        sse::line_step(p, line).progress.event == p.event,
        sse::line_step(p, line).progress.data == p.data,
        sse::line_step(p, line).progress.has_data == p.has_data,
{
}

/// The size of a frame does not carry over: whatever came before an empty
/// line, what comes after it is read as from the start.
pub proof fn law_frames_are_counted_apart(p: Progress, lines: Seq<Seq<u8>>)
    requires
        lines.len() > 0,
        lines.first().len() == 0,
    ensures
        frames_of_lines(p, lines) == match frames_of_lines(sse::no_progress(), lines.drop_first()) {
            Some(more) => Some(sse::option_seq(last_frame(p)) + more),
            None => None,
        },
{
}

/// The values of a frame's `data` lines joined by `\n`.
pub open spec fn join_lines(values: Seq<Seq<char>>) -> Seq<char>
    decreases values.len(),
{
    if values.len() == 0 {
        Seq::empty()
    } else if values.len() == 1 {
        values.first()
    } else {
        values.first().push('\n') + join_lines(values.drop_first())
    }
}

/// What stands between the colon of a field line and its value: one space
/// or nothing.
pub open spec fn gap(spaced: bool) -> Seq<u8> {
    if spaced {
        seq![32u8]
    } else {
        Seq::empty()
    }
}

/// `name: value`, or `name:value`.
pub open spec fn field_line(name: Seq<u8>, value: Seq<u8>, spaced: bool) -> Seq<u8> {
    name + seq![58u8] + gap(spaced) + value
}

/// May `value` stand behind such a gap? Directly behind the colon, a space
/// of its own would be taken for the gap.
pub open spec fn fits_gap(value: Seq<u8>, spaced: bool) -> bool {
    spaced || value.len() == 0 || value[0] != 32
}

/// The bytes of `event`.
pub open spec fn event_bytes() -> Seq<u8> {
    seq![101u8, 118, 101, 110, 116]
}

/// The bytes of `data`.
pub open spec fn data_bytes() -> Seq<u8> {
    seq![100u8, 97, 116, 97]
}

/// Bytes as text: decoded where they are UTF-8, else repaired.
pub open spec fn read_text(bytes: Seq<u8>) -> Seq<char> {
    if vstd::utf8::valid_utf8(bytes) {
        vstd::utf8::decode_utf8(bytes)
    } else {
        text::utf8_repaired(bytes)
    }
}

/// A `data` line for each value, then the empty line that ends the frame.
pub open spec fn data_lines(values: Seq<Seq<u8>>, gaps: Seq<bool>) -> Seq<Seq<u8>> {
    Seq::new(values.len(), |i: int| field_line(data_bytes(), values[i], gaps[i])).push(Seq::empty())
}

/// Bytes that the `data` lines of `values` count for.
pub open spec fn data_size(values: Seq<Seq<u8>>, gaps: Seq<bool>) -> nat
    decreases values.len(),
{
    if values.len() == 0 {
        0
    } else {
        5 + gap(gaps.first()).len() + values.first().len() + data_size(
            values.drop_first(),
            gaps.drop_first(),
        )
    }
}

/// The values as text.
pub open spec fn texts(values: Seq<Seq<u8>>) -> Seq<Seq<char>> {
    values.map_values(|v: Seq<u8>| read_text(v))
}

proof fn lemma_field_line(name: Seq<u8>, value: Seq<u8>, spaced: bool)
    requires
        name.len() > 0,
        forall|j: int| 0 <= j < name.len() ==> #[trigger] name[j] != 58,
        fits_gap(value, spaced),
    ensures
        sse::field_name(field_line(name, value, spaced)) == name,
        sse::field_value(field_line(name, value, spaced)) == value,
        field_line(name, value, spaced)[0] != COLON,
        field_line(name, value, spaced).len() == name.len() + 1 + gap(spaced).len() + value.len(),
{
    let line = field_line(name, value, spaced);
    sse::lemma_colon_at(line);
    let n = name.len() as int;
    assert(line[n] == COLON);
    assert(line[0] == name[0]);
    if sse::colon_at(line) < n {
        assert(line[sse::colon_at(line)] == name[sse::colon_at(line)]);
    }
    assert(sse::colon_at(line) == n);
    assert(line.take(n) =~= name);
    if spaced {
        assert(line[n + 1] == SPACE);
        assert(line.skip(n + 2) =~= value);
    } else {
        if value.len() > 0 {
            assert(line[n + 1] == value[0]);
        }
        assert(line.skip(n + 1) =~= value);
    }
}

/// What a field line does to the frame in progress, whether or not a space
/// follows its colon, and whatever stands in its value. `event` sets the
/// event name; `data` adds its value to the data, behind a line feed where
/// there was a `data` line before; no other field changes either. Each
/// counts with all its bytes, and one that takes the frame over 65536 bytes
/// is refused. None of them yields a frame.
pub proof fn law_fields_take_effect(p: Progress, name: Seq<u8>, value: Seq<u8>, spaced: bool)
    requires
        name.len() > 0,
        forall|j: int| 0 <= j < name.len() ==> #[trigger] name[j] != 58,
        fits_gap(value, spaced),
    ensures
        ({
            let line = field_line(name, value, spaced);
            let step = sse::line_step(p, line);
            let q = step.progress;
            &&& step.frame is None
            &&& step.too_large <==> p.size + line.len() > 65536
            &&& !step.too_large ==> {
                &&& q.size == p.size + line.len()
                &&& name == event_bytes() ==> q.event == read_text(value)
                &&& name != event_bytes() ==> q.event == p.event
                &&& name == data_bytes() && p.has_data ==> q.data == p.data + seq!['\n']
                    + read_text(value)
                &&& name == data_bytes() && !p.has_data ==> q.data == read_text(value)
                &&& name != data_bytes() ==> q.data == p.data
                &&& q.has_data == (p.has_data || name == data_bytes())
            }
        }),
{
    lemma_field_line(name, value, spaced);
    assert(event_bytes().len() == 5 && data_bytes().len() == 4);
    assert(p.data.push('\n') =~= p.data + seq!['\n']);
}

/// The space after the colon is optional: a line with it and the same line
/// without it have the same effect, but for the one byte of size.
pub proof fn law_the_space_is_optional(p: Progress, name: Seq<u8>, value: Seq<u8>)
    requires
        name.len() > 0,
        forall|j: int| 0 <= j < name.len() ==> #[trigger] name[j] != 58,
        value.len() == 0 || value[0] != 32,
        p.size + name.len() + value.len() + 2 <= 65536,
    ensures
        ({
            let loose = sse::line_step(p, name + seq![58u8, 32u8] + value);
            let tight = sse::line_step(p, name + seq![58u8] + value);
            &&& !loose.too_large && !tight.too_large
            &&& loose.frame == tight.frame
            &&& loose.progress.event == tight.progress.event
            &&& loose.progress.data == tight.progress.data
            &&& loose.progress.has_data == tight.progress.has_data
            &&& loose.progress.size == tight.progress.size + 1
        }),
{
    law_fields_take_effect(p, name, value, true);
    law_fields_take_effect(p, name, value, false);
    assert(field_line(name, value, true) =~= name + seq![58u8, 32u8] + value);
    assert(field_line(name, value, false) =~= name + seq![58u8] + value);
}

/// A name without a colon is a field with an empty value.
pub proof fn law_a_bare_name_has_no_value(p: Progress, name: Seq<u8>)
    requires
        name.len() > 0,
        forall|j: int| 0 <= j < name.len() ==> #[trigger] name[j] != 58,
        p.size + name.len() + 1 <= 65536,
    ensures
        ({
            let bare = sse::line_step(p, name);
            let empty = sse::line_step(p, name + seq![58u8]);
            &&& !bare.too_large && !empty.too_large
            &&& bare.frame == empty.frame
            &&& bare.progress.event == empty.progress.event
            &&& bare.progress.data == empty.progress.data
            &&& bare.progress.has_data == empty.progress.has_data
            &&& bare.progress.size == p.size + name.len()
        }),
{
    sse::lemma_colon_at(name);
    if sse::colon_at(name) < name.len() {
        assert(name[sse::colon_at(name)] == COLON);
    }
    assert(name.take(name.len() as int) =~= name);
    lemma_field_line(name, Seq::empty(), false);
    assert(field_line(name, Seq::empty(), false) =~= name + seq![58u8]);
}

/// An empty line yields the event name and data that have come in, unless
/// there are neither, and starts over.
pub proof fn law_an_empty_line_ends_the_frame(p: Progress)
    ensures
        ({
            let step = sse::line_step(p, Seq::empty());
            &&& !step.too_large
            &&& step.frame is Some <==> p.event.len() > 0 || p.data.len() > 0
            &&& step.frame matches Some(f) ==> f.event == p.event && f.data == p.data
            &&& step.progress.event.len() == 0 && step.progress.data.len() == 0
            &&& !step.progress.has_data && step.progress.size == 0
        }),
{
}

/// A line that starts with a colon has no effect at all, however long it
/// is.
pub proof fn law_a_comment_line_has_no_effect(p: Progress, comment: Seq<u8>)
    ensures
        ({
            let step = sse::line_step(p, seq![58u8] + comment);
            step.progress == p && step.frame is None && !step.too_large
        }),
{
}

/// A scanner starts with nothing in progress and nothing to report.
pub proof fn law_a_fresh_scanner_holds_nothing()
    ensures
        ({
            let s = sse::fresh();
            &&& s.progress.event.len() == 0 && s.progress.data.len() == 0
            &&& !s.progress.has_data && s.progress.size == 0
            &&& s.tail.len() == 0 && !s.closed && !s.failed
            &&& sse::is_settled(s.progress, s.tail)
        }),
{
    sse::lemma_line_end(sse::fresh().tail);
}

proof fn lemma_data_lines(p: Progress, values: Seq<Seq<u8>>, gaps: Seq<bool>)
    requires
        gaps.len() == values.len(),
        forall|i: int| 0 <= i < values.len() ==> fits_gap(#[trigger] values[i], gaps[i]),
        p.size + data_size(values, gaps) <= 65536,
        p.has_data || p.data.len() == 0,
    ensures
        ({
            let data = if values.len() == 0 {
                p.data
            } else if p.has_data {
                p.data.push('\n') + join_lines(texts(values))
            } else {
                join_lines(texts(values))
            };
            frames_of_lines(p, data_lines(values, gaps)) == Some(
                sse::option_seq(
                    last_frame(Progress { data, ..p }),
                ),
            )
        }),
    decreases values.len(),
{
    let lines = data_lines(values, gaps);
    if values.len() == 0 {
        assert(lines.first() =~= Seq::<u8>::empty());
        assert(lines.drop_first() =~= Seq::<Seq<u8>>::empty());
        assert(sse::option_seq(last_frame(p)) + Seq::<FrameView>::empty() =~= sse::option_seq(last_frame(p)));
        assert(frames_of_lines(sse::no_progress(), lines.drop_first()) == Some(
            Seq::<FrameView>::empty(),
        ));
    } else {
        let v = values.first();
        let others = values.drop_first();
        let rest = gaps.drop_first();
        assert(fits_gap(values[0], gaps[0]));
        assert forall|i: int| 0 <= i < others.len() implies fits_gap(
            #[trigger] others[i],
            rest[i],
        ) by {
            assert(fits_gap(values[i + 1], gaps[i + 1]));
        }
        lemma_field_line(data_bytes(), v, gaps.first());
        law_fields_take_effect(p, data_bytes(), v, gaps.first());
        assert(lines.first() == field_line(data_bytes(), v, gaps.first()));
        assert(lines.drop_first() =~= data_lines(others, rest));
        let q = sse::line_step(p, lines.first()).progress;
        assert(event_bytes().len() == 5 && data_bytes().len() == 4);
        lemma_data_lines(q, others, rest);
        assert(texts(values).first() == read_text(v));
        assert(texts(values).drop_first() =~= texts(others));
        if others.len() > 0 {
            assert(q.data.push('\n') + join_lines(texts(others)) =~= (if p.has_data {
                p.data.push('\n') + join_lines(texts(values))
            } else {
                join_lines(texts(values))
            }));
        } else {
            assert(texts(values).len() == 1);
            assert(p.data + seq!['\n'] + read_text(v) =~= p.data.push('\n') + read_text(v));
        }
        let end = frames_of_lines(q, data_lines(others, rest))->0;
        assert(Seq::<FrameView>::empty() + end =~= end);
    }
}

/// A frame written as an `event` line and `data` lines, each with or
/// without a space after its colon, is read back: its event, and its data
/// values joined by `\n`. A frame that says nothing is left out.
pub proof fn law_frames_are_read_back(
    event: Seq<u8>,
    event_gap: bool,
    values: Seq<Seq<u8>>,
    gaps: Seq<bool>,
)
    requires
        gaps.len() == values.len(),
        fits_gap(event, event_gap),
        forall|i: int| 0 <= i < values.len() ==> fits_gap(#[trigger] values[i], gaps[i]),
        6 + gap(event_gap).len() + event.len() + data_size(values, gaps) <= 65536,
    ensures
        ({
            let frame = FrameView { event: read_text(event), data: join_lines(texts(values)) };
            frames_of_lines(
                sse::no_progress(),
                seq![field_line(event_bytes(), event, event_gap)] + data_lines(values, gaps),
            ) == Some(
                if frame.event.len() == 0 && frame.data.len() == 0 {
                    Seq::<FrameView>::empty()
                } else {
                    seq![frame]
                },
            )
        }),
{
    let lines = seq![field_line(event_bytes(), event, event_gap)] + data_lines(values, gaps);
    lemma_field_line(event_bytes(), event, event_gap);
    law_fields_take_effect(sse::no_progress(), event_bytes(), event, event_gap);
    assert(event_bytes().len() == 5 && data_bytes().len() == 4);
    assert(lines.first() == field_line(event_bytes(), event, event_gap));
    assert(lines.drop_first() =~= data_lines(values, gaps));
    let q = sse::line_step(sse::no_progress(), lines.first()).progress;
    lemma_data_lines(q, values, gaps);
    let end = frames_of_lines(q, data_lines(values, gaps))->0;
    assert(Seq::<FrameView>::empty() + end =~= end);
}

/// The lines after the first are written apart as all of them are.
proof fn lemma_fewer_lines(lines: Seq<Seq<u8>>, endings: Seq<LineEnding>)
    requires
        lines.len() > 0,
        are_lines(lines),
        endings.len() == lines.len(),
        endings_apart(lines, endings),
    ensures
        are_lines(lines.drop_first()),
        endings_apart(lines.drop_first(), endings.drop_first()),
        forall|j: int|
            0 <= j < lines.first().len() ==> !sse::is_break(#[trigger] lines.first()[j]),
{
    let lines2 = lines.drop_first();
    let endings2 = endings.drop_first();
    assert forall|j: int| 0 <= j < lines.first().len() implies !sse::is_break(
        #[trigger] lines.first()[j],
    ) by {
        assert(!sse::is_break(lines[0][j]));
    }
    assert forall|i: int, j: int|
        0 <= i < lines2.len() && 0 <= j < lines2[i].len() implies !sse::is_break(
        #[trigger] lines2[i][j],
    ) by {
        assert(lines2[i] == lines[i + 1]);
        assert(!sse::is_break(lines[i + 1][j]));
    }
    assert forall|i: int|
        0 <= i < lines2.len() - 1 && endings2[i] is Cr && (#[trigger] lines2[i + 1]).len()
            == 0 implies !(endings2[i + 1] is Lf) by {
        assert(lines[i + 1 + 1].len() == 0);
    }
}

/// What follows a first line that ends in a bare `\r` does not start with
/// `\n`.
proof fn lemma_no_line_feed_next(
    lines: Seq<Seq<u8>>,
    endings: Seq<LineEnding>,
    last: Seq<u8>,
)
    requires
        lines.len() > 0,
        are_lines(lines),
        endings.len() == lines.len(),
        endings_apart(lines, endings),
        endings.first() is Cr,
        last.len() > 0,
        !sse::is_break(last[0]),
    ensures
        ({
            let rest = written(lines.drop_first(), endings.drop_first()) + last;
            rest.len() > 0 && rest[0] != LF
        }),
{
    let lines2 = lines.drop_first();
    let endings2 = endings.drop_first();
    let rest = written(lines2, endings2) + last;
    if lines2.len() == 0 {
        assert(rest =~= last);
    } else {
        let next = lines2.first();
        assert(next == lines[0int + 1]);
        let ending = ending_bytes(endings2.first());
        let w = written(lines2, endings2);
        assert(w.len() >= next.len() + ending.len());
        assert(rest[0] == w[0]);
        if next.len() > 0 {
            assert(w[0] == next[0]);
            assert(!sse::is_break(lines[1][0]));
        } else {
            assert(w[0] == ending[0]);
        }
    }
}

/// One line that has not ended, and then the end of the stream.
proof fn lemma_unterminated_line(p: Progress, last: Seq<u8>)
    requires
        last.len() > 0,
        forall|j: int| 0 <= j < last.len() ==> !sse::is_break(#[trigger] last[j]),
    ensures
        frames_of_stream(p, last) == frames_of_lines(p, seq![last]),
{
    sse::lemma_line_end(last);
    assert(sse::first_line(last) is None);
    assert(sse::without_trailing_cr(last) =~= last) by {
        assert(!sse::is_break(last[last.len() - 1]));
    }
    let step = sse::line_step(p, last);
    assert(seq![last].drop_first() =~= Seq::<Seq<u8>>::empty());
    assert(frames_of_lines(step.progress, seq![last].drop_first()) == Some(
        sse::option_seq(last_frame(step.progress)),
    ));
    let end = sse::option_seq(last_frame(step.progress));
    assert(Seq::<FrameView>::empty() + end =~= end);
    if last[0] == COLON {
        assert(sse::without_trailing_cr(sse::abridged(last)) =~= seq![COLON]);
    }
}

/// A last line that has not ended counts as the others do, and so does a
/// last frame without an empty line behind it: closing the scanner yields
/// them.
pub proof fn law_an_unterminated_line_counts(
    p: Progress,
    lines: Seq<Seq<u8>>,
    endings: Seq<LineEnding>,
    last: Seq<u8>,
)
    requires
        are_lines(lines),
        endings.len() == lines.len(),
        endings_apart(lines, endings),
        last.len() > 0,
        forall|j: int| 0 <= j < last.len() ==> !sse::is_break(#[trigger] last[j]),
    ensures
        frames_of_stream(p, written(lines, endings) + last) == frames_of_lines(
            p,
            lines.push(last),
        ),
    decreases lines.len(),
{
    let w = written(lines, endings) + last;
    if lines.len() == 0 {
        assert(w =~= last);
        assert(lines.push(last) =~= seq![last]);
        lemma_unterminated_line(p, last);
    } else {
        let line = lines.first();
        let e = endings.first();
        let lines2 = lines.drop_first();
        let endings2 = endings.drop_first();
        let rest = written(lines2, endings2) + last;
        assert(w =~= line + ending_bytes(e) + rest);
        assert(lines.push(last).drop_first() =~= lines2.push(last));
        assert(lines.push(last).first() == line);
        lemma_fewer_lines(lines, endings);
        if e is Cr {
            lemma_no_line_feed_next(lines, endings, last);
        }
        lemma_first_line_of(line, e, rest);
        lemma_stream_step(p, w);
        let step = sse::line_step(p, line);
        law_an_unterminated_line_counts(step.progress, lines2, endings2, last);
    }
}

/// A line in progress is over the cap as soon as its bytes are, unless it
/// is a comment, and not before.
pub proof fn law_a_line_counts_before_it_ends(p: Progress, line: Seq<u8>)
    requires
        forall|j: int| 0 <= j < line.len() ==> (#[trigger] line[j]) != 10 && line[j] != 13,
    ensures
        ({
            let d = sse::drain(p, line);
            &&& d.frames.len() == 0
            &&& d.too_large <==> line.len() > 0 && line[0] != 58 && p.size + line.len() > 65536
            &&& !d.too_large ==> d.progress == p
            &&& !d.too_large && (line.len() == 0 || line[0] != 58) ==> d.rest == line
        }),
{
    sse::lemma_line_end(line);
    assert(sse::first_line(line) is None);
    if line.len() > 0 {
        assert(line[line.len() - 1] != 13);
    }
    assert(sse::without_trailing_cr(line) =~= line);
}

/// A failure that is still to be reported is reported by the next call,
/// whichever it is, once and without frames.
pub proof fn law_failures_are_reported(s: ScannerView, chunk: Seq<u8>)
    requires
        s.failed,
    ensures
        sse::feeding(s, chunk).too_large,
        sse::feeding(s, chunk).frames.len() == 0,
        !sse::feeding(s, chunk).scanner.failed,
        !s.closed ==> sse::closing(s).too_large,
        sse::closing(s).frame is None,
{
}

/// A scanner closes once: the first time its state is given up, and after
/// that there is nothing more.
pub proof fn law_a_scanner_closes_once(s: ScannerView)
    ensures
        sse::closing(s).scanner.closed,
        ({
            let again = sse::closing(sse::closing(s).scanner);
            again.frame is None && !again.too_large
        }),
        s.closed ==> sse::closing(s).frame is None && !sse::closing(s).too_large,
{
}

} // verus!
