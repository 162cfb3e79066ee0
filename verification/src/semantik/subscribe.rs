//! Subscriptions: the handshake, and the stream of matches after it.
//!
//! A subscription opens with a `POST` whose reply is an event stream. The
//! first frame of the stream must be `subscribed`; it is consumed by the
//! handshake. Every later `match` frame is an event for the caller; frames
//! with other event names are skipped.

use crate::semantik::error;
use crate::semantik::error::{Error, ErrorView};
use crate::semantik::float::Float32;
use crate::semantik::headers;
use crate::semantik::headers::{get_text, request_id_from_headers};
use crate::semantik::limits::MAX_SSE_FRAME_BYTES;
use crate::semantik::sse;
use crate::semantik::sse::{Frame, FrameView, ScanError, Scanner, ScannerView};
use crate::semantik::transport;
use crate::semantik::transport::{is_success, MIME_SSE};
use crate::semantik::validate;
use crate::semantik::validate::{reject, validate_target};
use crate::text;
use crate::text::{chars_of, debug_str, push_decimal, push_text, text_eq, trim_bounds};
use reqwest::Error as HttpError;
use std::collections::VecDeque;
use vstd::prelude::*;
use vstd::slice::slice_subrange;

verus! {

// ---------------------------------------------------------------------
// Requests and events
// ---------------------------------------------------------------------

/// Body of `POST /v1/subscribe`.
///
/// `query`, `namespace`, `model`, and `dimensions` must all be set: an
/// unset targeting field fails preflight rather than silently routing the
/// subscription at a shared namespace.
#[derive(Debug, Clone)]
pub struct SubscribeRequest {
    pub query: String,
    pub namespace: String,
    pub model: String,
    pub dimensions: u16,
}

impl Default for SubscribeRequest {
    fn default() -> (res: Self)
        ensures
            res.query@.len() == 0,
            res.namespace@.len() == 0,
            res.model@.len() == 0,
            res.dimensions == 0,
    {
        SubscribeRequest {
            query: String::new(),
            namespace: String::new(),
            model: String::new(),
            dimensions: 0,
        }
    }
}

/// What is wrong with a subscribe request.
pub open spec fn subscribe_problem(r: SubscribeRequest) -> Option<Seq<char>> {
    if r.query@.len() == 0 {
        Some("subscribe query must not be empty"@)
    } else {
        validate::target_problem(r.namespace@, r.model@, r.dimensions as nat)
    }
}

/// A subscribe request passes where its query is not empty and its target is
/// complete. Nothing is defaulted.
pub proof fn law_subscribe_requires_a_query_and_a_target(r: SubscribeRequest)
    ensures
        subscribe_problem(r) is None <==> {
            &&& r.query@.len() > 0
            &&& r.namespace@.len() > 0
            &&& r.model@.len() > 0
            &&& 1 <= r.dimensions <= 4096
        },
{
}

impl SubscribeRequest {
    /// Reject an empty query or an incomplete target.
    pub fn validate(&self) -> (res: Result<(), Error>)
        ensures
            validate::verdict(res, subscribe_problem(*self)),
    {
        if self.query.as_str().is_empty() {
            return reject("subscribe query must not be empty");
        }
        validate_target(self.namespace.as_str(), self.model.as_str(), self.dimensions)
    }
}

/// Payload of each `match` frame.
#[derive(Debug, Clone)]
pub struct MatchEvent {
    pub message_id: String,
    pub score: Float32,
}

impl Default for MatchEvent {
    fn default() -> (res: Self)
        ensures
            res.message_id@.len() == 0,
            res.score.bits == 0,
    {
        MatchEvent { message_id: String::new(), score: Float32::from_bits(0) }
    }
}

// ---------------------------------------------------------------------
// Errors
// ---------------------------------------------------------------------

/// An error of the handshake, wrapped.
pub open spec fn in_setup(e: ErrorView) -> ErrorView {
    ErrorView::SubscribeSetup { source: Box::new(e) }
}

/// An error of the stream, wrapped.
pub open spec fn in_stream(e: ErrorView) -> ErrorView {
    ErrorView::SubscribeStream { source: Box::new(e) }
}

/// Wrap a handshake error in [`Error::SubscribeSetup`], after the retry
/// policy has given up on it.
pub fn wrap_setup(source: Error) -> (res: Error)
    ensures
        res@ == in_setup(source@),
{
    Error::SubscribeSetup { source: Box::new(source) }
}

/// Wrap a mid-stream error in [`Error::SubscribeStream`]. Accessors on
/// [`Error`] recurse into the inner error.
pub fn wrap_stream(source: Error) -> (res: Error)
    ensures
        res@ == in_stream(source@),
{
    Error::SubscribeStream { source: Box::new(source) }
}

/// What is said of a frame over the cap.
pub open spec fn oversized(what: Seq<char>, n: nat) -> ErrorView {
    ErrorView::MalformedSse(what + " exceeds "@ + text::decimal(n) + " bytes"@)
}

fn oversized_frame(what: &str, e: ScanError) -> (res: Error)
    ensures
        e matches ScanError::FrameTooLarge(n) ==> res@ == oversized(what@, n as nat),
{
    match e {
        ScanError::FrameTooLarge(n) => {
            let mut out = what.to_owned();
            push_text(&mut out, " exceeds ");
            push_decimal(&mut out, n as u64);
            push_text(&mut out, " bytes");
            Error::MalformedSse(out)
        },
    }
}

fn stream_oversized(e: ScanError) -> (res: Error)
    ensures
        e matches ScanError::FrameTooLarge(n) ==> res@ == in_stream(oversized("frame"@, n as nat)),
{
    wrap_stream(oversized_frame("frame", e))
}

// ---------------------------------------------------------------------
// Content type
// ---------------------------------------------------------------------

/// `s` up to its first `c`, or all of it where there is none.
pub open spec fn before(s: Seq<char>, c: char) -> Seq<char>
    decreases s.len(),
{
    if s.len() == 0 || s.first() == c {
        Seq::empty()
    } else {
        seq![s.first()] + before(s.drop_first(), c)
    }
}

/// An ASCII letter in lower case; any other character as it is.
pub open spec fn ascii_lower(c: char) -> char {
    if 'A' <= c && c <= 'Z' {
        (c as u32 + 32) as char
    } else {
        c
    }
}

/// Are two texts the same but for the case of ASCII letters?
pub open spec fn same_but_for_case(a: Seq<char>, b: Seq<char>) -> bool {
    a.map_values(|c: char| ascii_lower(c)) == b.map_values(|c: char| ascii_lower(c))
}

/// Does a content type say `text/event-stream`? Parameters, white space
/// around the type, and the case of its letters do not count.
pub open spec fn is_event_stream(ct: Seq<char>) -> bool {
    same_but_for_case(text::trimmed(before(ct, ';')), MIME_SSE@)
}

fn lower(c: char) -> (res: char)
    ensures
        res == ascii_lower(c),
{
    if 'A' <= c && c <= 'Z' {
        let b: u8 = c as u8;
        (b + 32) as char
    } else {
        c
    }
}

proof fn lemma_before(s: Seq<char>, c: char, n: int)
    requires
        0 <= n <= s.len(),
        forall|i: int| 0 <= i < n ==> s[i] != c,
        n < s.len() ==> s[n] == c,
    ensures
        before(s, c) == s.take(n),
    decreases s.len(),
{
    if n > 0 {
        lemma_before(s.drop_first(), c, n - 1);
        assert(seq![s.first()] + s.drop_first().take(n - 1) =~= s.take(n));
    } else {
        assert(s.take(0) =~= Seq::<char>::empty());
    }
}

/// Case-insensitive, parameter-tolerant comparison against
/// `text/event-stream`.
pub fn is_event_stream_content_type(ct: &str) -> (res: bool)
    ensures
        res == is_event_stream(ct@),
{
    let chars = chars_of(ct);
    let mut n: usize = 0;
    while n < chars.len() && chars[n] != ';'
        invariant
            n <= chars@.len(),
            chars@ == ct@,
            forall|i: int| 0 <= i < n ==> ct@[i] != ';',
        decreases chars@.len() - n,
    {
        n = n + 1;
    }
    proof {
        lemma_before(ct@, ';', n as int);
    }
    let head = slice_subrange(chars.as_slice(), 0, n);
    assert(head@ =~= before(ct@, ';'));
    let bounds = trim_bounds(head);
    let want = chars_of(MIME_SSE);
    let ghost have = text::trimmed(before(ct@, ';'));
    let ghost low = |c: char| ascii_lower(c);
    assert(have.map_values(low).len() == have.len());
    if bounds.1 - bounds.0 != want.len() {
        assert(MIME_SSE@.map_values(low).len() != have.map_values(low).len());
        return false;
    }
    let mut i: usize = 0;
    while i < want.len()
        invariant
            i <= want@.len(),
            want@ == MIME_SSE@,
            bounds.0 <= bounds.1 <= head@.len(),
            bounds.1 - bounds.0 == want@.len(),
            have == head@.subrange(bounds.0 as int, bounds.1 as int),
            low == (|c: char| ascii_lower(c)),
            have == text::trimmed(before(ct@, ';')),
            forall|j: int| 0 <= j < i ==> ascii_lower(#[trigger] have[j]) == ascii_lower(want@[j]),
        decreases want@.len() - i,
    {
        if lower(head[bounds.0 + i]) != lower(want[i]) {
            assert(have.map_values(low)[i as int] != want@.map_values(low)[i as int]);
            return false;
        }
        assert(have[i as int] == head@[bounds.0 + i]);
        i = i + 1;
    }
    assert(have.map_values(low) =~= want@.map_values(low));
    true
}

// ---------------------------------------------------------------------
// Handshake
// ---------------------------------------------------------------------

/// A handshake that waits for the first frame.
#[derive(Debug)]
pub struct Handshake {
    request_id: Option<String>,
    scanner: Scanner,
}

/// A handshake whose `subscribed` frame has come in: its data, which is
/// still to be decoded, and the frames after it.
#[derive(Debug)]
pub struct Subscribed {
    data: String,
    request_id: Option<String>,
    scanner: Scanner,
    pending: VecDeque<Frame>,
}

/// What a [`Handshake`] has read.
#[verifier::ext_equal]
pub struct HandshakeView {
    pub request_id: Option<Seq<char>>,
    pub scanner: ScannerView,
}

/// What a [`Subscribed`] handshake holds.
#[verifier::ext_equal]
pub struct SubscribedView {
    pub data: Seq<char>,
    pub request_id: Option<Seq<char>>,
    pub scanner: ScannerView,
    pub pending: Seq<FrameView>,
}

impl View for Handshake {
    type V = HandshakeView;

    closed spec fn view(&self) -> HandshakeView {
        HandshakeView { request_id: error::opt_text(self.request_id), scanner: self.scanner@ }
    }
}

impl View for Subscribed {
    type V = SubscribedView;

    closed spec fn view(&self) -> SubscribedView {
        SubscribedView {
            data: self.data@,
            request_id: error::opt_text(self.request_id),
            scanner: self.scanner@,
            pending: sse::frame_views(self.pending@),
        }
    }
}

/// What to do with the reply to a subscribe request.
#[derive(Debug)]
pub enum Opening {
    /// The reply is an error: read its body and decode it as an error
    /// envelope.
    DecodeError,
    /// The reply is refused.
    Refuse(Error),
    /// The reply is an event stream: read its body.
    Listen(Handshake),
}

/// The next step of a handshake.
#[derive(Debug)]
pub enum HandshakeStep {
    /// The first frame is not complete yet.
    ReadMore(Handshake),
    /// Decode the data of the `subscribed` frame.
    Decode(Subscribed),
    /// The handshake has failed.
    Fail(Error),
}

/// What a [`HandshakeStep`] says.
#[verifier::ext_equal]
pub enum StepView {
    ReadMore(HandshakeView),
    Decode(SubscribedView),
    Fail(ErrorView),
}

impl View for HandshakeStep {
    type V = StepView;

    open spec fn view(&self) -> StepView {
        match self {
            HandshakeStep::ReadMore(h) => StepView::ReadMore(h@),
            HandshakeStep::Decode(s) => StepView::Decode(s@),
            HandshakeStep::Fail(e) => StepView::Fail(e@),
        }
    }
}

impl HandshakeStep {
    pub open spec fn wf(&self) -> bool {
        match self {
            HandshakeStep::ReadMore(h) => h.wf(),
            HandshakeStep::Decode(s) => s.wf(),
            HandshakeStep::Fail(_) => true,
        }
    }
}

/// The content type that headers give; empty where they give none.
pub open spec fn content_type_of(
    headers: reqwest::header::HeaderMap<reqwest::header::HeaderValue>,
) -> Seq<char> {
    match headers::header_text(headers, "content-type"@) {
        Some(ct) => ct,
        None => Seq::empty(),
    }
}

/// The first frames of a stream: the first must be `subscribed`, the
/// others stay pending.
pub open spec fn first_frames(
    request_id: Option<Seq<char>>,
    scanner: ScannerView,
    frames: Seq<FrameView>,
) -> StepView {
    if frames.len() == 0 {
        StepView::ReadMore(HandshakeView { request_id, scanner })
    } else if frames[0].event == "subscribed"@ {
        StepView::Decode(
            SubscribedView {
                data: frames[0].data,
                request_id,
                scanner,
                pending: frames.drop_first(),
            },
        )
    } else {
        StepView::Fail(
            ErrorView::MalformedSse(
                "expected 'subscribed' event, got "@ + text::debug_quoted(frames[0].event),
            ),
        )
    }
}

/// A chunk of the body during the handshake. The first frame decides it; a
/// frame over the cap that comes after it is left to the stream.
pub open spec fn handshake_chunk(h: HandshakeView, chunk: Seq<u8>) -> StepView {
    let f = sse::feeding(h.scanner, chunk);
    if f.too_large {
        StepView::Fail(oversized("subscribed frame"@, MAX_SSE_FRAME_BYTES as nat))
    } else {
        first_frames(h.request_id, f.scanner, f.frames)
    }
}

/// The end of the body during the handshake.
pub open spec fn handshake_end(h: HandshakeView) -> StepView {
    let c = sse::closing(h.scanner);
    if c.too_large {
        StepView::Fail(oversized("subscribed frame"@, MAX_SSE_FRAME_BYTES as nat))
    } else if c.frame is None {
        StepView::Fail(ErrorView::MalformedSse("stream closed before subscribed frame"@))
    } else {
        first_frames(h.request_id, c.scanner, sse::option_seq(c.frame))
    }
}

/// Judge the reply to a subscribe request by its status and content type.
pub fn open_stream(status: u16, headers: &reqwest::header::HeaderMap) -> (res: Opening)
    ensures
        !transport::succeeded(status) <==> res is DecodeError,
        transport::succeeded(status) && is_event_stream(content_type_of(*headers)) <==> res
            is Listen,
        res matches Opening::Refuse(e) ==> e@ == ErrorView::MalformedSse(
            "expected "@ + MIME_SSE@ + ", got "@ + text::debug_quoted(content_type_of(*headers)),
        ),
        res matches Opening::Listen(h) ==> h.wf() && h@ == (HandshakeView {
            request_id: transport::response_id(*headers),
            scanner: sse::fresh(),
        }),
{
    if !is_success(status) {
        return Opening::DecodeError;
    }
    let content_type = match get_text(headers, "content-type") {
        Some(ct) => ct,
        None => String::new(),
    };
    assert(content_type@ =~= content_type_of(*headers));
    if !is_event_stream_content_type(content_type.as_str()) {
        let mut out = "expected ".to_owned();
        push_text(&mut out, MIME_SSE);
        push_text(&mut out, ", got ");
        let quoted = debug_str(content_type.as_str());
        push_text(&mut out, quoted.as_str());
        return Opening::Refuse(Error::MalformedSse(out));
    }
    Opening::Listen(
        Handshake { request_id: request_id_from_headers(headers), scanner: Scanner::new() },
    )
}

/// Frames in a queue, first come first out.
fn queue(frames: Vec<Frame>) -> (res: VecDeque<Frame>)
    ensures
        res@ == frames@,
{
    let ghost all = frames@;
    let mut frames = frames;
    let mut out: VecDeque<Frame> = VecDeque::new();
    assert(frames@ + out@ =~= all);
    loop
        invariant
            frames@ + out@ == all,
        ensures
            out@ == all,
        decreases frames@.len(),
    {
        let ghost before = frames@;
        match frames.pop() {
            None => {
                assert(out@ =~= all);
                break ;
            },
            Some(f) => {
                let ghost sofar = out@;
                out.push_front(f);
                assert(before =~= frames@.push(f));
                assert(frames@ + (seq![f] + sofar) =~= before + sofar);
            },
        }
    }
    out
}

impl Subscribed {
    pub closed spec fn wf(&self) -> bool {
        self.scanner.wf()
    }

    /// The data of the `subscribed` frame.
    pub fn data(&self) -> (res: &str)
        ensures
            res@ == self@.data,
    {
        self.data.as_str()
    }

    /// Finish the handshake. `decoded` is the `subscription_id` that JSON
    /// parsing found in the data, empty where there is none, or what it
    /// had to say against the data.
    pub fn finish(self, decoded: Result<String, String>) -> (res: Result<Subscription, Error>)
        requires
            self.wf(),
        ensures
            res is Ok <==> (decoded matches Ok(id) && id@.len() > 0),
            res matches Ok(s) ==> s.wf() && s@ == opened(self@, decoded->Ok_0@),
            res matches Err(e) ==> e@ == ErrorView::MalformedSse(
                match decoded {
                    Ok(_) => "subscribed frame missing subscription_id"@,
                    Err(what) => "decode subscribed frame: "@ + what@,
                },
            ),
    {
        match decoded {
            Err(what) => {
                let mut out = "decode subscribed frame: ".to_owned();
                push_text(&mut out, what.as_str());
                Err(Error::MalformedSse(out))
            },
            Ok(id) => if id.as_str().is_empty() {
                Err(Error::MalformedSse("subscribed frame missing subscription_id".to_owned()))
            } else {
                let failed = self.scanner.has_failed();
                let failure = if failed {
                    Some(stream_oversized(ScanError::FrameTooLarge(MAX_SSE_FRAME_BYTES)))
                } else {
                    None
                };
                Ok(
                    Subscription {
                        id,
                        request_id: self.request_id,
                        scanner: self.scanner,
                        pending: self.pending,
                        finished: failed,
                        closed_with_error: failed,
                        failure,
                    },
                )
            },
        }
    }
}

impl Handshake {
    pub closed spec fn wf(&self) -> bool {
        self.scanner.wf()
    }

    /// Take the first of the frames that have come in.
    fn on_frames(self, frames: Vec<Frame>) -> (res: HandshakeStep)
        requires
            self.wf(),
        ensures
            res.wf(),
            res@ == first_frames(
                self@.request_id,
                self@.scanner,
                sse::frame_views(frames@),
            ),
    {
        let mut pending = queue(frames);
        match pending.pop_front() {
            None => HandshakeStep::ReadMore(self),
            Some(first) => {
                assert(sse::frame_views(frames@)[0] == first@);
                assert(sse::frame_views(pending@) =~= sse::frame_views(frames@).drop_first());
                if !text_eq(first.event.as_str(), "subscribed") {
                    let mut out = "expected 'subscribed' event, got ".to_owned();
                    let quoted = debug_str(first.event.as_str());
                    push_text(&mut out, quoted.as_str());
                    return HandshakeStep::Fail(Error::MalformedSse(out));
                }
                HandshakeStep::Decode(
                    Subscribed {
                        data: first.data,
                        request_id: self.request_id,
                        scanner: self.scanner,
                        pending,
                    },
                )
            },
        }
    }

    /// A chunk of the body came in.
    pub fn on_chunk(self, chunk: &[u8]) -> (res: HandshakeStep)
        requires
            self.wf(),
        ensures
            res.wf(),
            res@ == handshake_chunk(self@, chunk@),
    {
        let mut h = self;
        match h.scanner.feed(chunk) {
            Err(e) => HandshakeStep::Fail(oversized_frame("subscribed frame", e)),
            Ok(frames) => h.on_frames(frames),
        }
    }

    /// The body has ended.
    pub fn on_end(self) -> (res: HandshakeStep)
        requires
            self.wf(),
        ensures
            res.wf(),
            !(res is ReadMore),
            res@ == handshake_end(self@),
    {
        let mut h = self;
        match h.scanner.close() {
            Err(e) => HandshakeStep::Fail(oversized_frame("subscribed frame", e)),
            Ok(None) => HandshakeStep::Fail(
                Error::MalformedSse("stream closed before subscribed frame".to_owned()),
            ),
            Ok(Some(frame)) => {
                let mut frames: Vec<Frame> = Vec::new();
                frames.push(frame);
                assert(sse::frame_views(frames@) =~= seq![frame@]);
                h.on_frames(frames)
            },
        }
    }

    /// The body has failed.
    pub fn on_error(self, e: HttpError) -> (res: Error)
        ensures
            res@ == ErrorView::Transport(e),
    {
        Error::Transport(e)
    }
}

// ---------------------------------------------------------------------
// Stream
// ---------------------------------------------------------------------

/// Live match stream.
///
/// Frames with unknown `event` values are silently skipped. Only `match`
/// frames yield events.
///
/// The server best-effort orders and delivers matches at least once.
/// Dedupe on [`MatchEvent::message_id`] in the caller.
///
/// A stream is never reconnected: each handshake issues a fresh
/// `subscription_id`, and a transparent reconnect would silently drop the
/// matches that arrived during the gap.
#[derive(Debug)]
pub struct Subscription {
    id: String,
    request_id: Option<String>,
    scanner: Scanner,
    pending: VecDeque<Frame>,
    finished: bool,
    closed_with_error: bool,
    /// To be yielded once the queued matches are handed out.
    failure: Option<Error>,
}

/// What a [`Subscription`] holds.
#[verifier::ext_equal]
pub struct SubscriptionView {
    pub id: Seq<char>,
    pub request_id: Option<Seq<char>>,
    pub scanner: ScannerView,
    pub pending: Seq<FrameView>,
    pub finished: bool,
    pub closed_with_error: bool,
    pub failure: Option<ErrorView>,
}

/// What an optional error says.
pub open spec fn opt_error(e: Option<Error>) -> Option<ErrorView> {
    match e {
        Some(e) => Some(e@),
        None => None,
    }
}

impl View for Subscription {
    type V = SubscriptionView;

    closed spec fn view(&self) -> SubscriptionView {
        SubscriptionView {
            id: self.id@,
            request_id: error::opt_text(self.request_id),
            scanner: self.scanner@,
            pending: sse::frame_views(self.pending@),
            finished: self.finished,
            closed_with_error: self.closed_with_error,
            failure: opt_error(self.failure),
        }
    }
}

/// The next step of a stream.
#[derive(Debug)]
pub enum NextStep {
    /// Decode the data of a `match` frame and yield the outcome.
    Decode(String),
    /// Yield the error.
    Fail(Error),
    /// The stream has ended.
    Done,
    /// Read more of the body.
    Read,
}

/// What a [`NextStep`] says.
#[verifier::ext_equal]
pub enum NextView {
    Decode(Seq<char>),
    Fail(ErrorView),
    Done,
    Read,
}

impl View for NextStep {
    type V = NextView;

    open spec fn view(&self) -> NextView {
        match self {
            NextStep::Decode(data) => NextView::Decode(data@),
            NextStep::Fail(e) => NextView::Fail(e@),
            NextStep::Done => NextView::Done,
            NextStep::Read => NextView::Read,
        }
    }
}

/// Is the frame a match?
pub open spec fn is_match(f: FrameView) -> bool {
    f.event == "match"@
}

/// The data of the match frames among `frames`, in order.
pub open spec fn matches_of(frames: Seq<FrameView>) -> Seq<Seq<char>>
    decreases frames.len(),
{
    if frames.len() == 0 {
        Seq::empty()
    } else if is_match(frames.first()) {
        seq![frames.first().data] + matches_of(frames.drop_first())
    } else {
        matches_of(frames.drop_first())
    }
}

/// What follows the first match frame among `frames`; nothing where there
/// is none.
pub open spec fn after_match(frames: Seq<FrameView>) -> Seq<FrameView>
    decreases frames.len(),
{
    if frames.len() == 0 {
        frames
    } else if is_match(frames.first()) {
        frames.drop_first()
    } else {
        after_match(frames.drop_first())
    }
}

/// A frame over the cap, as a mid-stream error.
pub open spec fn frame_oversized() -> ErrorView {
    in_stream(oversized("frame"@, MAX_SSE_FRAME_BYTES as nat))
}

/// A stream at its start. A frame over the cap that came in with the
/// handshake ends it.
pub open spec fn opened(s: SubscribedView, id: Seq<char>) -> SubscriptionView {
    SubscriptionView {
        id,
        request_id: s.request_id,
        scanner: s.scanner,
        pending: s.pending,
        finished: s.scanner.failed,
        closed_with_error: s.scanner.failed,
        failure: if s.scanner.failed {
            Some(frame_oversized())
        } else {
            None
        },
    }
}

/// A stream that has ended in an error.
pub open spec fn broken(s: SubscriptionView, e: ErrorView) -> SubscriptionView {
    SubscriptionView { finished: true, closed_with_error: true, failure: Some(e), ..s }
}

/// A chunk of the body on a stream: the stream after it. The frames that it
/// completes are queued, also where a frame over the cap follows them.
/// Where the stream has finished, nothing happens.
pub open spec fn stream_chunk(s: SubscriptionView, chunk: Seq<u8>) -> SubscriptionView {
    if s.finished {
        s
    } else {
        let f = sse::feeding(s.scanner, chunk);
        let read = SubscriptionView { scanner: f.scanner, pending: s.pending + f.frames, ..s };
        if f.too_large || f.scanner.failed {
            broken(read, frame_oversized())
        } else {
            read
        }
    }
}

/// The end of the body on a stream: the stream after it. A partial frame
/// is queued. Where the stream has finished, nothing happens.
pub open spec fn stream_end(s: SubscriptionView) -> SubscriptionView {
    if s.finished {
        s
    } else {
        let c = sse::closing(s.scanner);
        let read = SubscriptionView {
            scanner: c.scanner,
            pending: s.pending + sse::option_seq(c.frame),
            finished: true,
            ..s
        };
        if c.too_large {
            broken(read, frame_oversized())
        } else {
            read
        }
    }
}

/// The next step of a stream, and the stream after it. Queued matches come
/// first, then the error that has ended the stream, if any. The body is
/// read only where there is neither and the stream has not finished.
pub open spec fn next_of(s: SubscriptionView) -> (NextView, SubscriptionView) {
    let taken = SubscriptionView { pending: after_match(s.pending), ..s };
    if matches_of(s.pending).len() > 0 {
        (NextView::Decode(matches_of(s.pending)[0]), taken)
    } else if s.failure is Some {
        (NextView::Fail(s.failure->0), SubscriptionView { failure: None, ..taken })
    } else if s.finished {
        (NextView::Done, taken)
    } else {
        (NextView::Read, taken)
    }
}

/// What a stream shows of itself for debugging.
pub open spec fn subscription_debug(s: SubscriptionView) -> Seq<char> {
    "Subscription { id: "@ + text::debug_quoted(s.id) + ", request_id: "@ + (match s.request_id {
        Some(id) => "Some("@ + text::debug_quoted(id) + ")"@,
        None => "None"@,
    }) + ", finished: "@ + bool_text(s.finished) + ", closed_with_error: "@ + bool_text(
        s.closed_with_error,
    ) + ", pending_frames: "@ + text::decimal(s.pending.len()) + " }"@
}

/// `b` in words.
pub open spec fn bool_text(b: bool) -> Seq<char> {
    if b {
        "true"@
    } else {
        "false"@
    }
}

fn bool_str(b: bool) -> (res: &'static str)
    ensures
        res@ == bool_text(b),
{
    if b {
        "true"
    } else {
        "false"
    }
}

/// The outcome of decoding the data of a match frame. `parsed` is what
/// JSON parsing made of the data, or what it had to say against it.
pub fn decode_match(data: &str, parsed: Result<MatchEvent, String>) -> (res: Result<
    MatchEvent,
    Error,
>)
    ensures
        parsed matches Ok(m) ==> res == Ok::<MatchEvent, Error>(m),
        parsed matches Err(what) ==> res matches Err(e) && e@ == ErrorView::MalformedSse(
            "decode match frame: "@ + what@ + "; payload="@ + data@,
        ),
{
    match parsed {
        Ok(m) => Ok(m),
        Err(what) => {
            let mut out = "decode match frame: ".to_owned();
            push_text(&mut out, what.as_str());
            push_text(&mut out, "; payload=");
            push_text(&mut out, data);
            Err(Error::MalformedSse(out))
        },
    }
}

/// What a stream yields of a match frame. A frame that does not decode is
/// a mid-stream error.
pub fn match_item(data: &str, parsed: Result<MatchEvent, String>) -> (res: Result<
    MatchEvent,
    Error,
>)
    ensures
        parsed matches Ok(m) ==> res == Ok::<MatchEvent, Error>(m),
        parsed matches Err(what) ==> res matches Err(e) && e@ == in_stream(
            ErrorView::MalformedSse("decode match frame: "@ + what@ + "; payload="@ + data@),
        ),
{
    match decode_match(data, parsed) {
        Ok(m) => Ok(m),
        Err(e) => Err(wrap_stream(e)),
    }
}

impl Subscription {
    /// What every stream keeps: its scanner is valid, and an error to be
    /// yielded has ended it.
    pub closed spec fn wf(&self) -> bool {
        self.scanner.wf() && (self.failure is Some ==> self.finished)
    }

    /// Server-assigned subscription identifier.
    pub fn id(&self) -> (res: &str)
        ensures
            res@ == self@.id,
    {
        self.id.as_str()
    }

    /// Server-assigned correlation token from the handshake response's
    /// `X-Request-Id` header. `None` when the header was absent or
    /// unreadable.
    pub fn request_id(&self) -> (res: Option<&str>)
        ensures
            res is Some <==> self@.request_id is Some,
            res matches Some(id) ==> id@ == self@.request_id->0,
    {
        match &self.request_id {
            Some(id) => Some(id.as_str()),
            None => None,
        }
    }

    /// Description for debugging.
    pub fn debug_text(&self) -> (res: String)
        ensures
            res@ == subscription_debug(self@),
    {
        let mut out = "Subscription { id: ".to_owned();
        let id = debug_str(self.id.as_str());
        push_text(&mut out, id.as_str());
        push_text(&mut out, ", request_id: ");
        let mut request_id = String::new();
        match &self.request_id {
            Some(r) => {
                request_id = "Some(".to_owned();
                let quoted = debug_str(r.as_str());
                push_text(&mut request_id, quoted.as_str());
                push_text(&mut request_id, ")");
            },
            None => {
                request_id = "None".to_owned();
            },
        }
        push_text(&mut out, request_id.as_str());
        push_text(&mut out, ", finished: ");
        push_text(&mut out, bool_str(self.finished));
        push_text(&mut out, ", closed_with_error: ");
        push_text(&mut out, bool_str(self.closed_with_error));
        push_text(&mut out, ", pending_frames: ");
        push_decimal(&mut out, self.pending.len() as u64);
        push_text(&mut out, " }");
        out
    }

    /// Take the data of the next queued match frame. Frames with other
    /// event types are skipped.
    pub fn try_take_match(&mut self) -> (res: Option<String>)
        requires
            old(self).wf(),
        ensures
            final(self).wf(),
            final(self)@ == (SubscriptionView {
                pending: after_match(old(self)@.pending),
                ..old(self)@
            }),
            res is Some <==> matches_of(old(self)@.pending).len() > 0,
            res matches Some(data) ==> data@ == matches_of(old(self)@.pending)[0],
    {
        loop
            invariant
                self.wf(),
                self@ == (SubscriptionView { pending: self@.pending, ..old(self)@ }),
                after_match(self@.pending) == after_match(old(self)@.pending),
                matches_of(self@.pending) == matches_of(old(self)@.pending),
            decreases self@.pending.len(),
        {
            let ghost before = self@.pending;
            match self.pending.pop_front() {
                None => {
                    return None;
                },
                Some(frame) => {
                    assert(before[0] == frame@);
                    assert(self@.pending =~= before.drop_first());
                    if text_eq(frame.event.as_str(), "match") {
                        return Some(frame.data);
                    }
                },
            }
        }
    }

    /// What to do next: hand out what is queued, then the error that has
    /// ended the stream, if any, and read the body only where there is
    /// neither and the stream has not finished.
    pub fn next_step(&mut self) -> (res: NextStep)
        requires
            old(self).wf(),
        ensures
            final(self).wf(),
            res@ == next_of(old(self)@).0,
            final(self)@ == next_of(old(self)@).1,
    {
        match self.try_take_match() {
            Some(data) => NextStep::Decode(data),
            None => match self.failure.take() {
                Some(e) => NextStep::Fail(e),
                None => if self.finished {
                    NextStep::Done
                } else {
                    NextStep::Read
                },
            },
        }
    }

    /// A chunk of the body came in.
    pub fn on_chunk(&mut self, chunk: &[u8])
        requires
            old(self).wf(),
        ensures
            final(self).wf(),
            final(self)@ == stream_chunk(old(self)@, chunk@),
    {
        if self.finished {
            return ;
        }
        let ghost sofar = self.pending@;
        match self.scanner.feed(chunk) {
            Ok(frames) => {
                let mut more = queue(frames);
                self.pending.append(&mut more);
                assert(sse::frame_views(self.pending@) =~= sse::frame_views(sofar)
                    + sse::frame_views(frames@));
                if self.scanner.has_failed() {
                    self.fail(
                        stream_oversized(ScanError::FrameTooLarge(MAX_SSE_FRAME_BYTES)),
                    );
                }
            },
            Err(e) => {
                assert(sse::frame_views(self.pending@) + Seq::<FrameView>::empty()
                    =~= sse::frame_views(self.pending@));
                self.fail(stream_oversized(e));
            },
        }
    }

    /// End the stream with an error, to be yielded after what is queued.
    fn fail(&mut self, e: Error)
        requires
            old(self).wf(),
        ensures
            final(self).wf(),
            final(self)@ == broken(old(self)@, e@),
    {
        self.finished = true;
        self.closed_with_error = true;
        self.failure = Some(e);
    }

    /// The body has failed.
    pub fn on_body_error(&mut self, e: HttpError)
        requires
            old(self).wf(),
        ensures
            final(self).wf(),
            final(self)@ == (if old(self)@.finished {
                old(self)@
            } else {
                broken(old(self)@, in_stream(ErrorView::Transport(e)))
            }),
    {
        if !self.finished {
            self.fail(wrap_stream(Error::Transport(e)));
        }
    }

    /// The body has ended. A partial frame is flushed.
    pub fn on_end(&mut self)
        requires
            old(self).wf(),
        ensures
            final(self).wf(),
            final(self)@ == stream_end(old(self)@),
    {
        if self.finished {
            return ;
        }
        self.finished = true;
        let ghost sofar = self.pending@;
        match self.scanner.close() {
            Ok(Some(frame)) => {
                self.pending.push_back(frame);
                assert(sse::frame_views(self.pending@) =~= sse::frame_views(sofar) + seq![
                    frame@,
                ]);
            },
            Ok(None) => {
                assert(sse::frame_views(self.pending@) =~= sse::frame_views(sofar) + Seq::<
                    FrameView,
                >::empty());
            },
            Err(e) => {
                assert(sse::frame_views(self.pending@) =~= sse::frame_views(sofar) + Seq::<
                    FrameView,
                >::empty());
                self.fail(stream_oversized(e));
            },
        }
    }
}

/// The parameters of a content type do not count.
pub proof fn law_parameters_do_not_count(ct: Seq<char>, parameters: Seq<char>)
    requires
        forall|i: int| 0 <= i < ct.len() ==> ct[i] != ';',
    ensures
        is_event_stream(ct + seq![';'] + parameters) == is_event_stream(ct),
{
    let whole = ct + seq![';'] + parameters;
    assert(whole[ct.len() as int] == ';');
    lemma_before(whole, ';', ct.len() as int);
    lemma_before(ct, ';', ct.len() as int);
    assert(whole.take(ct.len() as int) =~= ct);
    assert(ct.take(ct.len() as int) =~= ct);
}

/// White space around a content type does not count.
pub proof fn law_white_space_around_types_does_not_count(
    left: Seq<char>,
    ct: Seq<char>,
    right: Seq<char>,
)
    requires
        forall|i: int| 0 <= i < left.len() ==> text::is_white_space(#[trigger] left[i]),
        forall|i: int| 0 <= i < right.len() ==> text::is_white_space(#[trigger] right[i]),
        forall|i: int| 0 <= i < ct.len() ==> ct[i] != ';',
    ensures
        is_event_stream(left + ct + right) == is_event_stream(ct),
{
    let whole = left + ct + right;
    assert(!text::is_white_space(';'));
    assert forall|i: int| 0 <= i < whole.len() implies whole[i] != ';' by {
        if i < left.len() {
            assert(text::is_white_space(left[i]));
        } else if i >= left.len() + ct.len() {
            assert(text::is_white_space(right[i - left.len() - ct.len()]));
        }
    }
    lemma_before(whole, ';', whole.len() as int);
    lemma_before(ct, ';', ct.len() as int);
    assert(whole.take(whole.len() as int) =~= whole);
    assert(ct.take(ct.len() as int) =~= ct);
    text::law_trimming_drops_white_space(left, ct, right);
}

/// A bare content type is one of an event stream exactly where it is
/// `text/event-stream`, letter by letter, each of them in either case.
pub proof fn law_event_streams_by_letter(ct: Seq<char>)
    requires
        ct.len() > 0,
        !text::is_white_space(ct.first()),
        !text::is_white_space(ct.last()),
        forall|i: int| 0 <= i < ct.len() ==> ct[i] != ';',
    ensures
        is_event_stream(ct) <==> ct.len() == "text/event-stream"@.len() && forall|i: int|
            0 <= i < ct.len() ==> {
                let want = "text/event-stream"@[i];
                ||| #[trigger] ct[i] == want
                ||| 65 <= ct[i] as u32 <= 90 && ct[i] as u32 + 32 == want as u32
            },
{
    reveal_strlit("text/event-stream");
    let want = "text/event-stream"@;
    let low = |c: char| ascii_lower(c);
    lemma_before(ct, ';', ct.len() as int);
    assert(ct.take(ct.len() as int) =~= ct);
    text::lemma_nothing_to_trim(ct);
    assert forall|i: int| 0 <= i < want.len() implies #[trigger] ascii_lower(want[i]) == want[i] by {}
    if is_event_stream(ct) {
        assert(ct.map_values(low).len() == want.map_values(low).len());
        assert forall|i: int| 0 <= i < ct.len() implies {
            ||| #[trigger] ct[i] == want[i]
            ||| 65 <= ct[i] as u32 <= 90 && ct[i] as u32 + 32 == want[i] as u32
        } by {
            assert(ct.map_values(low)[i] == want.map_values(low)[i]);
        }
    }
    if ct.len() == want.len() && forall|i: int|
        0 <= i < ct.len() ==> {
            ||| #[trigger] ct[i] == want[i]
            ||| 65 <= ct[i] as u32 <= 90 && ct[i] as u32 + 32 == want[i] as u32
        } {
        assert(ct.map_values(low) =~= want.map_values(low));
    }
}

/// The content type of a reply is the text of that header; a header that is
/// missing or does not read as text counts as empty, and an empty one is
/// none of an event stream.
pub proof fn law_content_types_come_from_the_header(
    headers: reqwest::header::HeaderMap<reqwest::header::HeaderValue>,
)
    ensures
        headers::header_text(headers, "content-type"@) matches Some(ct) ==> content_type_of(headers)
            == ct,
        headers::header_text(headers, "content-type"@) is None ==> content_type_of(headers).len()
            == 0,
        !is_event_stream(Seq::empty()),
{
    reveal_strlit("text/event-stream");
    let low = |c: char| ascii_lower(c);
    let none = text::trimmed(before(Seq::<char>::empty(), ';'));
    assert(none =~= Seq::<char>::empty());
    assert(none.map_values(low).len() == 0);
    assert(MIME_SSE@.map_values(low).len() == MIME_SSE@.len());
}

/// What a rejected subscribe request is told.
pub proof fn law_subscribe_rejections_name_the_fault(r: SubscribeRequest)
    ensures
        r.query@.len() == 0 ==> subscribe_problem(r) == Some("subscribe query must not be empty"@),
        r.query@.len() > 0 ==> subscribe_problem(r) == validate::target_problem(
            r.namespace@,
            r.model@,
            r.dimensions as nat,
        ),
{
}

/// What is said of a frame over the cap names what it is and the cap.
pub proof fn law_oversized_names_the_cap(what: Seq<char>, n: nat)
    ensures
        oversized(what, n) == ErrorView::MalformedSse(
            what + " exceeds "@ + text::decimal(n) + " bytes"@,
        ),
{
}

/// What a stream shows of itself for debugging: its identifiers, whether it
/// has finished and failed, and how many frames are queued.
pub proof fn law_debug_shows_the_state(s: SubscriptionView)
    ensures
        ({
            let token = if s.request_id is Some {
                "Some("@ + text::debug_quoted(s.request_id->0) + ")"@
            } else {
                "None"@
            };
            let finished = if s.finished {
                "true"@
            } else {
                "false"@
            };
            let failed = if s.closed_with_error {
                "true"@
            } else {
                "false"@
            };
            subscription_debug(s) == "Subscription { id: "@ + text::debug_quoted(s.id)
                + ", request_id: "@ + token + ", finished: "@ + finished
                + ", closed_with_error: "@ + failed + ", pending_frames: "@ + text::decimal(
                s.pending.len(),
            ) + " }"@
        }),
{
}

} // verus!
