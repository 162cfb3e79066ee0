//! Incremental parser for the Semantik subscribe stream.
//!
//! The scanner is fed arbitrary byte chunks from the HTTP body and
//! yields complete [`Frame`] values as they become available. It
//! tolerates `\n`, `\r\n`, and bare `\r` line endings, ignores comment
//! lines (leading `:`), strips a single space after `:`, and silently
//! ignores unknown directives.
//!
//! The accumulated size of one frame, which is that of its field lines, is
//! capped at [`MAX_SSE_FRAME_BYTES`]; larger frames produce
//! [`ScanError::FrameTooLarge`]. A line counts as it comes in, whether or
//! not it has ended, and of a comment in progress only its start is kept.
//! This bounds the memory exposure of a misbehaving server.

use crate::semantik::limits::MAX_SSE_FRAME_BYTES;
use crate::text;
use crate::text::{push_decimal, push_text, string_from_utf8_lossy};
use vstd::prelude::*;
use vstd::slice::{slice_subrange, slice_to_vec};

verus! {

/// One complete event.
#[derive(Debug, PartialEq, Eq, Clone)]
pub struct Frame {
    /// Value following `event:` (e.g. `"subscribed"`, `"match"`).
    pub event: String,
    /// The `data:` values of the frame joined by `\n`.
    pub data: String,
}

/// What a [`Frame`] says.
#[verifier::ext_equal]
pub struct FrameView {
    pub event: Seq<char>,
    pub data: Seq<char>,
}

impl View for Frame {
    type V = FrameView;

    open spec fn view(&self) -> FrameView {
        FrameView { event: self.event@, data: self.data@ }
    }
}

/// What a run of frames says.
pub open spec fn frame_views(frames: Seq<Frame>) -> Seq<FrameView> {
    frames.map_values(|f: Frame| f@)
}

#[derive(Debug)]
pub enum ScanError {
    /// A frame is larger than the given number of bytes.
    FrameTooLarge(usize),
}

impl ScanError {
    /// Human-readable description.
    pub fn text(&self) -> (res: String)
        ensures
            res@ == (match self {
                ScanError::FrameTooLarge(n) => "sse: frame exceeds maximum size "@ + text::decimal(
                    *n as nat,
                ) + " bytes"@,
            }),
    {
        match self {
            ScanError::FrameTooLarge(n) => {
                let mut out = String::new();
                push_text(&mut out, "sse: frame exceeds maximum size ");
                push_decimal(&mut out, *n as u64);
                push_text(&mut out, " bytes");
                out
            },
        }
    }
}

// ---------------------------------------------------------------------
// Lines
// ---------------------------------------------------------------------

/// Carriage return.
pub const CR: u8 = 13;

/// Line feed.
pub const LF: u8 = 10;

/// Does `b` end a line?
pub open spec fn is_break(b: u8) -> bool {
    b == CR || b == LF
}

/// Where the first line of `s` ends: the index of its first line break,
/// or the length of `s` where there is none.
pub open spec fn line_end(s: Seq<u8>) -> int
    decreases s.len(),
{
    if s.len() == 0 || is_break(s.first()) {
        0
    } else {
        1 + line_end(s.drop_first())
    }
}

/// The first line of `s` and how many bytes it takes up with its break,
/// or `None` where more bytes are needed. A `\r` that ends `s` could be
/// the first half of `\r\n`, so it does not end a line yet.
pub open spec fn first_line(s: Seq<u8>) -> Option<(Seq<u8>, int)> {
    let i = line_end(s);
    if i >= s.len() {
        None
    } else if s[i] == LF {
        Some((s.take(i), i + 1))
    } else if i + 1 >= s.len() {
        None
    } else if s[i + 1] == LF {
        Some((s.take(i), i + 2))
    } else {
        Some((s.take(i), i + 1))
    }
}

pub proof fn lemma_line_end(s: Seq<u8>)
    ensures
        0 <= line_end(s) <= s.len(),
        forall|j: int| 0 <= j < line_end(s) ==> !is_break(#[trigger] s[j]),
        line_end(s) < s.len() ==> is_break(s[line_end(s)]),
    decreases s.len(),
{
    if s.len() > 0 && !is_break(s.first()) {
        let rest = s.drop_first();
        lemma_line_end(rest);
        assert forall|j: int| 0 <= j < line_end(s) implies !is_break(#[trigger] s[j]) by {
            if j > 0 {
                assert(rest[j - 1] == s[j]);
            }
        }
    }
}

/// `line_end` is the only index with no break before it and one at it.
proof fn lemma_line_end_is(s: Seq<u8>, i: int)
    requires
        0 <= i <= s.len(),
        forall|j: int| 0 <= j < i ==> !is_break(#[trigger] s[j]),
        i < s.len() ==> is_break(s[i]),
    ensures
        line_end(s) == i,
{
    lemma_line_end(s);
    if line_end(s) < i {
        assert(is_break(s[line_end(s)]));
    }
}

/// Extract the next line from `data`. Returns the line and how many
/// bytes to advance, or `None` if more bytes are needed. `prior_cr` says
/// that the previous bytes ended on a bare `\r` whose line was already
/// taken: a leading `\n` is then the tail of that `\r\n` and comes out
/// as an empty advance. `at_eof` says that no more bytes will come.
pub fn next_line(data: &[u8], prior_cr: bool, at_eof: bool) -> (res: Option<(Vec<u8>, usize)>)
    ensures
        ({
            let expect: Option<(Seq<u8>, int)> = if prior_cr && data@.len() > 0 && data@[0] == LF {
                Some((Seq::<u8>::empty(), 1int))
            } else if first_line(data@) is Some || !at_eof {
                first_line(data@)
            } else if line_end(data@) < data@.len() {
                Some((data@.take(line_end(data@)), line_end(data@) + 1))
            } else {
                Some((data@, data@.len() as int))
            };
            &&& res is Some <==> expect is Some
            &&& res matches Some((line, advance)) ==> expect matches Some((l, n)) && line@ == l
                && advance == n
        }),
{
    if prior_cr && data.len() > 0 && data[0] == LF {
        return Some((Vec::new(), 1));
    }
    let mut i: usize = 0;
    while i < data.len()
        invariant
            i <= data@.len(),
            !(prior_cr && data@.len() > 0 && data@[0] == LF),
            forall|j: int| 0 <= j < i ==> !is_break(#[trigger] data@[j]),
        decreases data@.len() - i,
    {
        let b = data[i];
        if b == LF {
            proof {
                lemma_line_end_is(data@, i as int);
            }
            return Some((slice_to_vec(slice_subrange(data, 0, i)), i + 1));
        }
        if b == CR {
            proof {
                lemma_line_end_is(data@, i as int);
            }
            if i + 1 < data.len() {
                if data[i + 1] == LF {
                    return Some((slice_to_vec(slice_subrange(data, 0, i)), i + 2));
                }
                return Some((slice_to_vec(slice_subrange(data, 0, i)), i + 1));
            }
            if at_eof {
                return Some((slice_to_vec(slice_subrange(data, 0, i)), i + 1));
            }
            return None;
        }
        i = i + 1;
    }
    proof {
        lemma_line_end_is(data@, i as int);
    }
    if at_eof {
        return Some((slice_to_vec(data), data.len()));
    }
    None
}

/// `line` without one trailing `\r`.
pub open spec fn without_trailing_cr(line: Seq<u8>) -> Seq<u8> {
    if line.len() > 0 && line.last() == CR {
        line.drop_last()
    } else {
        line
    }
}

/// Strip a single trailing `\r` from `line`. Returns the trimmed slice
/// and whether one was stripped. Used on the final unterminated line at
/// close-time.
pub fn strip_trailing_cr(line: &[u8]) -> (res: (&[u8], bool))
    ensures
        res.0@ == without_trailing_cr(line@),
        res.1 == (line@.len() > 0 && line@.last() == CR),
{
    let n = line.len();
    if n > 0 && line[n - 1] == CR {
        (slice_subrange(line, 0, n - 1), true)
    } else {
        (line, false)
    }
}

/// Keep the first byte of a line in progress, and a final `\r`.
fn abridge(tail: &[u8]) -> (res: Vec<u8>)
    ensures
        res@ == abridged(tail@),
{
    let line = strip_trailing_cr(tail).0;
    let m = line.len();
    if m == 0 {
        return slice_to_vec(tail);
    }
    let mut out: Vec<u8> = Vec::new();
    out.push(line[0]);
    if m < tail.len() {
        out.push(CR);
    }
    assert(out@ =~= abridged(tail@));
    out
}

// ---------------------------------------------------------------------
// Fields
// ---------------------------------------------------------------------

/// `:`
pub const COLON: u8 = 58;

/// A space.
pub const SPACE: u8 = 32;

/// Index of the first `:` of `line`, or its length where there is none.
pub open spec fn colon_at(line: Seq<u8>) -> int
    decreases line.len(),
{
    if line.len() == 0 || line.first() == COLON {
        0
    } else {
        1 + colon_at(line.drop_first())
    }
}

pub proof fn lemma_colon_at(line: Seq<u8>)
    ensures
        0 <= colon_at(line) <= line.len(),
        forall|j: int| 0 <= j < colon_at(line) ==> #[trigger] line[j] != COLON,
        colon_at(line) < line.len() ==> line[colon_at(line)] == COLON,
    decreases line.len(),
{
    if line.len() > 0 && line.first() != COLON {
        let rest = line.drop_first();
        lemma_colon_at(rest);
        assert forall|j: int| 0 <= j < colon_at(line) implies #[trigger] line[j] != COLON by {
            if j > 0 {
                assert(rest[j - 1] == line[j]);
            }
        }
    }
}

proof fn lemma_colon_at_is(line: Seq<u8>, i: int)
    requires
        0 <= i <= line.len(),
        forall|j: int| 0 <= j < i ==> #[trigger] line[j] != COLON,
        i < line.len() ==> line[i] == COLON,
    ensures
        colon_at(line) == i,
{
    lemma_colon_at(line);
    if colon_at(line) < i {
        assert(line[colon_at(line)] == COLON);
    }
}

/// The name of a field line: what stands before its first `:`.
pub open spec fn field_name(line: Seq<u8>) -> Seq<u8> {
    line.take(colon_at(line))
}

/// The value of a field line: what stands behind its first `:`, without
/// one leading space; empty where there is no `:`.
pub open spec fn field_value(line: Seq<u8>) -> Seq<u8> {
    let i = colon_at(line);
    if i >= line.len() {
        Seq::empty()
    } else if i + 1 < line.len() && line[i + 1] == SPACE {
        line.skip(i + 2)
    } else {
        line.skip(i + 1)
    }
}

/// Separate a `field: value` line. A single space after `:` is stripped
/// but additional spaces are preserved. A line without `:` is a field
/// name with an empty value.
pub fn split_field(line: &[u8]) -> (res: (&[u8], &[u8]))
    ensures
        res.0@ == field_name(line@),
        res.1@ == field_value(line@),
{
    let n = line.len();
    let mut i: usize = 0;
    while i < n && line[i] != COLON
        invariant
            i <= n == line@.len(),
            forall|j: int| 0 <= j < i ==> #[trigger] line@[j] != COLON,
        decreases n - i,
    {
        i = i + 1;
    }
    proof {
        lemma_colon_at_is(line@, i as int);
    }
    let field = slice_subrange(line, 0, i);
    if i == n {
        return (field, slice_subrange(line, n, n));
    }
    if i + 1 < n && line[i + 1] == SPACE {
        (field, slice_subrange(line, i + 2, n))
    } else {
        (field, slice_subrange(line, i + 1, n))
    }
}

/// The bytes of `event`.
pub open spec fn event_field() -> Seq<u8> {
    seq![101u8, 118, 101, 110, 116]
}

/// The bytes of `data`.
pub open spec fn data_field() -> Seq<u8> {
    seq![100u8, 97, 116, 97]
}

fn is_event_field(name: &[u8]) -> (res: bool)
    ensures
        res == (name@ == event_field()),
{
    let res = name.len() == 5 && name[0] == 101 && name[1] == 118 && name[2] == 101 && name[3]
        == 110 && name[4] == 116;
    assert(res ==> name@ =~= event_field());
    res
}

fn is_data_field(name: &[u8]) -> (res: bool)
    ensures
        res == (name@ == data_field()),
{
    let res = name.len() == 4 && name[0] == 100 && name[1] == 97 && name[2] == 116 && name[3] == 97;
    assert(res ==> name@ =~= data_field());
    res
}

// ---------------------------------------------------------------------
// Frames
// ---------------------------------------------------------------------

/// The frame in progress: its event name, its data so far, whether a
/// `data:` line was seen, and the bytes of its field lines. Beyond the
/// cap the count stays at one above it.
#[verifier::ext_equal]
pub struct Progress {
    pub event: Seq<char>,
    pub data: Seq<char>,
    pub has_data: bool,
    pub size: nat,
}

/// No frame in progress.
pub open spec fn no_progress() -> Progress {
    Progress { event: Seq::empty(), data: Seq::empty(), has_data: false, size: 0 }
}

/// What one line does: the frame in progress after it, the frame that it
/// completes, and whether it takes the frame over the cap.
#[verifier::ext_equal]
pub struct LineStep {
    pub progress: Progress,
    pub frame: Option<FrameView>,
    pub too_large: bool,
}

/// Is there anything to yield?
pub open spec fn is_blank(p: Progress) -> bool {
    p.event.len() == 0 && p.data.len() == 0
}

/// The size of a frame after `n` more bytes.
pub open spec fn grown(size: nat, n: nat) -> nat {
    if size + n > MAX_SSE_FRAME_BYTES {
        (MAX_SSE_FRAME_BYTES + 1) as nat
    } else {
        size + n
    }
}

/// A `data:` value joined to the data before it.
pub open spec fn joined(p: Progress, value: Seq<char>) -> Seq<char> {
    if p.has_data {
        p.data.push('\n') + value
    } else {
        value
    }
}

/// The effect of a field on the frame in progress. `event` replaces the
/// event name, `data` adds a line of data, any other field is ignored.
pub open spec fn with_field(p: Progress, name: Seq<u8>, value: Seq<u8>) -> Progress {
    if name == event_field() {
        Progress { event: text::utf8_lossy(value), ..p }
    } else if name == data_field() {
        Progress { data: joined(p, text::utf8_lossy(value)), has_data: true, ..p }
    } else {
        p
    }
}

/// The effect of a line on the frame in progress. An empty line ends the
/// frame, which is yielded unless it is blank; a line with a leading `:`
/// is a comment; any other line is a field.
pub open spec fn line_step(p: Progress, line: Seq<u8>) -> LineStep {
    if line.len() == 0 {
        LineStep {
            progress: no_progress(),
            frame: if is_blank(p) {
                None
            } else {
                Some(FrameView { event: p.event, data: p.data })
            },
            too_large: false,
        }
    } else if line[0] == COLON {
        LineStep { progress: p, frame: None, too_large: false }
    } else {
        let q = Progress { size: grown(p.size, line.len()), ..p };
        if q.size > MAX_SSE_FRAME_BYTES {
            LineStep { progress: q, frame: None, too_large: true }
        } else {
            LineStep {
                progress: with_field(q, field_name(line), field_value(line)),
                frame: None,
                too_large: false,
            }
        }
    }
}

/// The frames of zero or one.
pub open spec fn option_seq(frame: Option<FrameView>) -> Seq<FrameView> {
    match frame {
        Some(f) => seq![f],
        None => Seq::empty(),
    }
}

/// What reading all complete lines of some bytes does: the frame in
/// progress at the end, the bytes left over, and the frames completed.
/// Reading stops at a line that takes a frame over the cap.
#[verifier::ext_equal]
pub struct Drained {
    pub progress: Progress,
    pub rest: Seq<u8>,
    pub frames: Seq<FrameView>,
    pub too_large: bool,
}

/// Does the line in progress take the frame in progress over the cap? It
/// counts without a final `\r`, which may end it; a comment does not count.
pub open spec fn is_overlong(p: Progress, tail: Seq<u8>) -> bool {
    let line = without_trailing_cr(tail);
    line.len() > 0 && line[0] != COLON && p.size + line.len() > MAX_SSE_FRAME_BYTES
}

/// What is kept of a line in progress that will not be looked into: its
/// first byte, and a final `\r`, which may end it.
pub open spec fn abridged(tail: Seq<u8>) -> Seq<u8> {
    let line = without_trailing_cr(tail);
    if line.len() > 0 {
        line.take(1) + tail.skip(line.len() as int)
    } else {
        tail
    }
}

/// Read what is left after the last complete line. A line in progress
/// that is over the cap fails without waiting for its end; a comment in
/// progress is abridged.
pub open spec fn unfinished(p: Progress, tail: Seq<u8>) -> Drained {
    if is_overlong(p, tail) {
        Drained {
            progress: Progress { size: (MAX_SSE_FRAME_BYTES + 1) as nat, ..p },
            rest: abridged(tail),
            frames: Seq::empty(),
            too_large: true,
        }
    } else {
        Drained {
            progress: p,
            rest: if tail.len() > 0 && tail[0] == COLON {
                abridged(tail)
            } else {
                tail
            },
            frames: Seq::empty(),
            too_large: false,
        }
    }
}

/// Is `tail` what a successful read leaves over with `p` in progress?
pub open spec fn is_settled(p: Progress, tail: Seq<u8>) -> bool {
    first_line(tail) is None && unfinished(p, tail) == (Drained {
        progress: p,
        rest: tail,
        frames: Seq::empty(),
        too_large: false,
    })
}

/// Read all complete lines of `buf`, with `p` in progress.
pub open spec fn drain(p: Progress, buf: Seq<u8>) -> Drained
    decreases buf.len(),
{
    match first_line(buf) {
        None => unfinished(p, buf),
        Some((line, advance)) => {
            let step = line_step(p, line);
            let rest = buf.skip(advance);
            if step.too_large {
                Drained { progress: step.progress, rest, frames: Seq::empty(), too_large: true }
            } else {
                proof {
                    lemma_line_end(buf);
                }
                let more = drain(step.progress, rest);
                Drained { frames: option_seq(step.frame) + more.frames, ..more }
            }
        },
    }
}

/// What a successful read leaves over is settled: no complete line, and
/// no more bytes than the cap and a final `\r`.
pub proof fn lemma_settled(p: Progress, buf: Seq<u8>)
    ensures
        !drain(p, buf).too_large ==> {
            &&& is_settled(drain(p, buf).progress, drain(p, buf).rest)
            &&& drain(p, buf).rest.len() <= MAX_SSE_FRAME_BYTES + 1
        },
    decreases buf.len(),
{
    lemma_line_end(buf);
    match first_line(buf) {
        None => {
            if !is_overlong(p, buf) && buf.len() > 0 && buf[0] == COLON {
                let kept = abridged(buf);
                lemma_line_end(kept);
                assert(kept[0] == COLON);
                assert(kept.len() == 2 ==> kept[1] == CR);
                assert(without_trailing_cr(kept) =~= seq![COLON]);
                assert(abridged(kept) =~= kept);
            }
        },
        Some((line, advance)) => {
            let step = line_step(p, line);
            if !step.too_large {
                lemma_settled(step.progress, buf.skip(advance));
            }
        },
    }
}

/// Scanner state: the frame in progress, the bytes of the line in
/// progress, whether the stream was closed, and whether a frame over the
/// cap is still to be reported.
#[verifier::ext_equal]
pub struct ScannerView {
    pub progress: Progress,
    pub tail: Seq<u8>,
    pub closed: bool,
    pub failed: bool,
}

/// A scanner at the start of a stream.
pub open spec fn fresh() -> ScannerView {
    ScannerView { progress: no_progress(), tail: Seq::empty(), closed: false, failed: false }
}

/// What feeding a chunk does: the state after it, the frames that became
/// complete, and whether it fails.
#[verifier::ext_equal]
pub struct Feeding {
    pub scanner: ScannerView,
    pub frames: Seq<FrameView>,
    pub too_large: bool,
}

/// Feed a scanner. Frames that became complete are handed out even where a
/// frame over the cap follows them; it is then reported by the next call,
/// which reads nothing. Where there are none, it is reported at once.
pub open spec fn feeding(s: ScannerView, chunk: Seq<u8>) -> Feeding {
    if s.failed {
        Feeding {
            scanner: ScannerView { tail: s.tail + chunk, failed: false, ..s },
            frames: Seq::empty(),
            too_large: true,
        }
    } else {
        let d = drain(s.progress, s.tail + chunk);
        Feeding {
            scanner: ScannerView {
                progress: d.progress,
                tail: d.rest,
                closed: s.closed,
                failed: d.too_large && d.frames.len() > 0,
            },
            frames: d.frames,
            too_large: d.too_large && d.frames.len() == 0,
        }
    }
}

/// What closing a scanner does: the state after it, the last frame, and
/// whether the last line takes it over the cap.
#[verifier::ext_equal]
pub struct Closing {
    pub scanner: ScannerView,
    pub frame: Option<FrameView>,
    pub too_large: bool,
}

/// Close a scanner. A frame over the cap that is still to be reported is
/// reported. Else the bytes of the line in progress count as a last line,
/// and whatever is then in progress is the last frame.
pub open spec fn closing(s: ScannerView) -> Closing {
    if s.closed {
        Closing { scanner: s, frame: None, too_large: false }
    } else if s.failed {
        Closing {
            scanner: ScannerView { tail: Seq::empty(), closed: true, failed: false, ..s },
            frame: None,
            too_large: true,
        }
    } else {
        let step = if s.tail.len() > 0 {
            line_step(s.progress, without_trailing_cr(s.tail))
        } else {
            LineStep { progress: s.progress, frame: None, too_large: false }
        };
        let ended = ScannerView {
            progress: step.progress,
            tail: Seq::empty(),
            closed: true,
            failed: false,
        };
        if step.too_large || step.frame is Some {
            Closing { scanner: ended, frame: step.frame, too_large: step.too_large }
        } else if is_blank(step.progress) {
            Closing { scanner: ended, frame: None, too_large: false }
        } else {
            Closing {
                scanner: ScannerView { progress: no_progress(), ..ended },
                frame: Some(
                    FrameView { event: step.progress.event, data: step.progress.data },
                ),
                too_large: false,
            }
        }
    }
}

/// Incremental scanner. Holds an unparsed byte tail and the fields of
/// the frame in progress.
#[derive(Debug)]
pub struct Scanner {
    buf: Vec<u8>,
    cur_event: String,
    cur_data: String,
    has_data: bool,
    cur_size: usize,
    pending_cr: bool,
    closed: bool,
    failed: bool,
}

impl View for Scanner {
    type V = ScannerView;

    closed spec fn view(&self) -> ScannerView {
        ScannerView {
            progress: Progress {
                event: self.cur_event@,
                data: self.cur_data@,
                has_data: self.has_data,
                size: self.cur_size as nat,
            },
            tail: self.buf@,
            closed: self.closed,
            failed: self.failed,
        }
    }
}

/// The text of a frame in progress is covered by the bytes counted for
/// it, and never exceeds the cap.
pub open spec fn within_cap(p: Progress) -> bool {
    &&& p.size <= MAX_SSE_FRAME_BYTES + 1
    &&& p.event.len() + p.data.len() <= MAX_SSE_FRAME_BYTES
    &&& p.event.len() + p.data.len() <= p.size
    &&& !p.has_data ==> p.data.len() == 0
}

/// The text of a frame does not exceed the cap.
pub open spec fn frame_within_cap(f: FrameView) -> bool {
    f.event.len() + f.data.len() <= MAX_SSE_FRAME_BYTES
}

impl Scanner {
    /// What every scanner keeps: the frame in progress is within the
    /// cap, and a tail known to end in `\r` does not start with `\n`.
    pub closed spec fn wf(&self) -> bool {
        &&& within_cap(self@.progress)
        &&& self.pending_cr ==> self.buf@.len() > 0 && self.buf@[0] != LF
    }

    /// A scanner at the start of a stream.
    pub fn new() -> (res: Self)
        ensures
            res.wf(),
            res@ == fresh(),
    {
        Scanner {
            buf: Vec::new(),
            cur_event: String::new(),
            cur_data: String::new(),
            has_data: false,
            cur_size: 0,
            pending_cr: false,
            closed: false,
            failed: false,
        }
    }

    /// Is a frame over the cap still to be reported?
    pub fn has_failed(&self) -> (res: bool)
        ensures
            res == self@.failed,
    {
        self.failed
    }

    /// Take the frame in progress, leaving none.
    fn take_frame(&mut self) -> (res: Frame)
        requires
            old(self).wf(),
        ensures
            final(self).wf(),
            final(self)@ == (ScannerView { progress: no_progress(), ..old(self)@ }),
            res@ == (FrameView {
                event: old(self)@.progress.event,
                data: old(self)@.progress.data,
            }),
            frame_within_cap(res@),
            final(self).pending_cr == old(self).pending_cr,
    {
        let mut event = String::new();
        let mut data = String::new();
        std::mem::swap(&mut event, &mut self.cur_event);
        std::mem::swap(&mut data, &mut self.cur_data);
        self.has_data = false;
        self.cur_size = 0;
        Frame { event, data }
    }

    /// Process one line.
    fn consume_line(&mut self, line: &[u8]) -> (res: Result<Option<Frame>, ScanError>)
        requires
            old(self).wf(),
        ensures
            final(self).wf(),
            ({
                let step = line_step(old(self)@.progress, line@);
                &&& final(self)@ == (ScannerView { progress: step.progress, ..old(self)@ })
                &&& res is Err <==> step.too_large
                &&& res matches Err(ScanError::FrameTooLarge(n)) ==> n == MAX_SSE_FRAME_BYTES
                &&& res matches Ok(frame) ==> {
                    &&& frame is Some <==> step.frame is Some
                    &&& frame matches Some(f) ==> f@ == step.frame->0 && frame_within_cap(f@)
                }
            }),
            final(self).pending_cr == old(self).pending_cr,
    {
        let n = line.len();
        if n == 0 {
            let blank = self.cur_event.as_str().is_empty() && self.cur_data.as_str().is_empty();
            let frame = self.take_frame();
            if blank {
                return Ok(None);
            }
            return Ok(Some(frame));
        }
        if line[0] == COLON {
            return Ok(None);
        }
        if n > MAX_SSE_FRAME_BYTES || self.cur_size > MAX_SSE_FRAME_BYTES - n {
            self.cur_size = MAX_SSE_FRAME_BYTES + 1;
            return Err(ScanError::FrameTooLarge(MAX_SSE_FRAME_BYTES));
        }
        self.cur_size = self.cur_size + n;
        let parts = split_field(line);
        proof {
            lemma_colon_at(line@);
        }
        if is_event_field(parts.0) {
            self.cur_event = string_from_utf8_lossy(parts.1);
        } else if is_data_field(parts.0) {
            if self.has_data {
                self.cur_data.push('\n');
            }
            let value = string_from_utf8_lossy(parts.1);
            push_text(&mut self.cur_data, value.as_str());
            self.has_data = true;
        }
        Ok(None)
    }

    /// Feed a byte chunk and yield all frames that became complete, in
    /// order. A frame over the cap is an error, also where its last line
    /// has not ended yet. Where the same chunk completed frames before it,
    /// they are yielded, and the next call of `feed` or `close` fails.
    pub fn feed(&mut self, chunk: &[u8]) -> (res: Result<Vec<Frame>, ScanError>)
        requires
            old(self).wf(),
        ensures
            final(self).wf(),
            within_cap(final(self)@.progress),
            ({
                let f = feeding(old(self)@, chunk@);
                &&& final(self)@ == f.scanner
                &&& res is Err <==> f.too_large
                &&& res matches Err(ScanError::FrameTooLarge(n)) ==> n == MAX_SSE_FRAME_BYTES
                &&& res matches Ok(frames) ==> {
                    &&& frame_views(frames@) == f.frames
                    &&& forall|i: int|
                        0 <= i < frames@.len() ==> frame_within_cap(#[trigger] frames@[i]@)
                    &&& !f.scanner.failed ==> is_settled(f.scanner.progress, f.scanner.tail)
                    &&& !f.scanner.failed ==> f.scanner.tail.len() <= MAX_SSE_FRAME_BYTES + 1
                }
            }),
    {
        if self.failed {
            self.failed = false;
            self.pending_cr = false;
            self.buf.extend_from_slice(chunk);
            assert(self.buf@ =~= old(self)@.tail + chunk@);
            return Err(ScanError::FrameTooLarge(MAX_SSE_FRAME_BYTES));
        }
        let mut buf: Vec<u8> = Vec::new();
        std::mem::swap(&mut buf, &mut self.buf);
        let ghost before = buf@;
        buf.extend_from_slice(chunk);
        assert(buf@ =~= before + chunk@);
        let ghost whole = drain(old(self)@.progress, buf@);
        let n = buf.len();
        let mut prior_cr = self.pending_cr;
        self.pending_cr = false;
        let mut out: Vec<Frame> = Vec::new();
        let mut pos: usize = 0;
        assert(buf@.skip(0) =~= buf@);
        assert(frame_views(out@) =~= Seq::<FrameView>::empty());
        assert(whole.frames =~= frame_views(out@) + whole.frames);
        loop
            invariant_except_break
                ({
                    let more = drain(self@.progress, buf@.skip(pos as int));
                    &&& whole.progress == more.progress
                    &&& whole.rest == more.rest
                    &&& whole.too_large == more.too_large
                    &&& whole.frames == frame_views(out@) + more.frames
                }),
            invariant
                n == buf@.len(),
                pos <= n,
                whole == drain(old(self)@.progress, old(self)@.tail + chunk@),
                self.wf(),
                !self.pending_cr,
                self@.closed == old(self)@.closed,
                !self@.failed,
                !old(self)@.failed,
                prior_cr ==> pos == 0 && buf@.len() > 0 && buf@[0] != LF,
                forall|i: int| 0 <= i < out@.len() ==> frame_within_cap(#[trigger] out@[i]@),
            ensures
                ({
                    let left = unfinished(self@.progress, buf@.skip(pos as int));
                    &&& whole.progress == left.progress
                    &&& whole.rest == left.rest
                    &&& whole.too_large == left.too_large
                    &&& whole.frames == frame_views(out@)
                }),
                first_line(buf@.skip(pos as int)) is None,
            decreases n - pos,
        {
            let ghost rest = buf@.skip(pos as int);
            assert(buf@.subrange(pos as int, n as int) =~= rest);
            match next_line(slice_subrange(buf.as_slice(), pos, n), prior_cr, false) {
                None => {
                    assert(frame_views(out@) + Seq::<FrameView>::empty() =~= frame_views(out@));
                    break ;
                },
                Some((line, advance)) => {
                    proof {
                        lemma_line_end(rest);
                    }
                    prior_cr = false;
                    let ghost step = line_step(self@.progress, line@);
                    let ghost more = drain(step.progress, rest.skip(advance as int));
                    assert(rest.skip(advance as int) =~= buf@.skip(pos + advance));
                    pos = pos + advance;
                    match self.consume_line(line.as_slice()) {
                        Err(e) => {
                            self.buf = slice_to_vec(slice_subrange(buf.as_slice(), pos, n));
                            assert(self.buf@ =~= whole.rest);
                            assert(frame_views(out@) + Seq::<FrameView>::empty() =~= frame_views(
                                out@,
                            ));
                            if out.len() == 0 {
                                return Err(e);
                            }
                            self.failed = true;
                            return Ok(out);
                        },
                        Ok(Some(frame)) => {
                            let ghost sofar = frame_views(out@);
                            out.push(frame);
                            assert(frame_views(out@) =~= sofar.push(frame@));
                            assert(sofar + (seq![frame@] + more.frames) =~= sofar.push(frame@)
                                + more.frames);
                        },
                        Ok(None) => {
                            assert(frame_views(out@) + (Seq::<FrameView>::empty() + more.frames)
                                =~= frame_views(out@) + more.frames);
                        },
                    }
                },
            }
        }
        let tail = slice_subrange(buf.as_slice(), pos, n);
        assert(tail@ =~= buf@.skip(pos as int));
        proof {
            lemma_settled(old(self)@.progress, old(self)@.tail + chunk@);
            lemma_line_end(tail@);
        }
        let line = strip_trailing_cr(tail).0;
        let m = line.len();
        if m > 0 && line[0] == COLON {
            self.buf = abridge(tail);
        } else if m > MAX_SSE_FRAME_BYTES || (m > 0 && self.cur_size > MAX_SSE_FRAME_BYTES - m) {
            self.cur_size = MAX_SSE_FRAME_BYTES + 1;
            self.buf = abridge(tail);
            if out.len() == 0 {
                return Err(ScanError::FrameTooLarge(MAX_SSE_FRAME_BYTES));
            }
            self.failed = true;
            return Ok(out);
        } else {
            self.buf = slice_to_vec(tail);
        }
        assert(self.buf@ =~= whole.rest);
        let k = self.buf.len();
        self.pending_cr = k > 0 && self.buf[k - 1] == CR;
        Ok(out)
    }

    /// Signal end-of-stream. Returns the final frame if any partial
    /// state was accumulated. A second call returns nothing.
    pub fn close(&mut self) -> (res: Result<Option<Frame>, ScanError>)
        requires
            old(self).wf(),
        ensures
            final(self).wf(),
            ({
                let c = closing(old(self)@);
                &&& final(self)@ == c.scanner
                &&& res is Err <==> c.too_large
                &&& res matches Err(ScanError::FrameTooLarge(n)) ==> n == MAX_SSE_FRAME_BYTES
                &&& res matches Ok(frame) ==> {
                    &&& frame is Some <==> c.frame is Some
                    &&& frame matches Some(f) ==> f@ == c.frame->0 && frame_within_cap(f@)
                }
            }),
    {
        if self.closed {
            return Ok(None);
        }
        self.closed = true;
        if self.failed {
            self.failed = false;
            self.pending_cr = false;
            self.buf = Vec::new();
            return Err(ScanError::FrameTooLarge(MAX_SSE_FRAME_BYTES));
        }
        if self.buf.len() > 0 {
            let mut line: Vec<u8> = Vec::new();
            self.pending_cr = false;
            std::mem::swap(&mut line, &mut self.buf);
            let stripped = strip_trailing_cr(line.as_slice());
            match self.consume_line(stripped.0) {
                Err(e) => {
                    return Err(e);
                },
                Ok(Some(frame)) => {
                    return Ok(Some(frame));
                },
                Ok(None) => {},
            }
        }
        if !self.cur_event.as_str().is_empty() || !self.cur_data.as_str().is_empty() {
            Ok(Some(self.take_frame()))
        } else {
            Ok(None)
        }
    }
}

} // verus!
