//! What a subscription promises of whole streams.

use crate::semantik::error::ErrorView;
use crate::semantik::limits::MAX_SSE_FRAME_BYTES;
use crate::semantik::sse;
use crate::semantik::sse::{FrameView, ScannerView};
use crate::semantik::sse_laws;
use crate::semantik::subscribe;
use crate::semantik::subscribe::{HandshakeView, NextView, StepView, SubscriptionView};
use crate::text;
use vstd::prelude::*;

verus! {

proof fn lemma_matches_of_both(a: Seq<FrameView>, b: Seq<FrameView>)
    ensures
        subscribe::matches_of(a + b) == subscribe::matches_of(a) + subscribe::matches_of(b),
    decreases a.len(),
{
    if a.len() == 0 {
        assert(a + b =~= b);
        assert(subscribe::matches_of(a) + subscribe::matches_of(b) =~= subscribe::matches_of(b));
    } else {
        lemma_matches_of_both(a.drop_first(), b);
        assert((a + b).drop_first() =~= a.drop_first() + b);
        let rest = subscribe::matches_of(a.drop_first());
        let more = subscribe::matches_of(b);
        assert(seq![a.first().data] + (rest + more) =~= (seq![a.first().data] + rest) + more);
    }
}

/// Queued matches are handed out one by one, in order: taking one leaves
/// the others, and where there is none nothing is left.
pub proof fn law_matches_are_handed_out_in_order(frames: Seq<FrameView>)
    ensures
        subscribe::matches_of(subscribe::after_match(frames)) == if subscribe::matches_of(
            frames,
        ).len() > 0 {
            subscribe::matches_of(frames).drop_first()
        } else {
            Seq::empty()
        },
    decreases frames.len(),
{
    if frames.len() > 0 {
        let rest = frames.drop_first();
        if subscribe::is_match(frames.first()) {
            assert((seq![frames.first().data] + subscribe::matches_of(rest)).drop_first()
                =~= subscribe::matches_of(rest));
        } else {
            law_matches_are_handed_out_in_order(rest);
        }
    }
}

/// A frame with an event name other than `match`, wherever it stands in
/// the stream, does not change which matches the caller sees.
pub proof fn law_other_events_are_skipped(
    before: Seq<FrameView>,
    other: FrameView,
    after: Seq<FrameView>,
)
    requires
        other.event != "match"@,
    ensures
        subscribe::matches_of(before + seq![other] + after) == subscribe::matches_of(
            before + after,
        ),
{
    lemma_matches_of_both(before + seq![other], after);
    lemma_matches_of_both(before, seq![other]);
    lemma_matches_of_both(before, after);
    assert(seq![other].drop_first() =~= Seq::<FrameView>::empty());
    assert(subscribe::matches_of(seq![other].drop_first()) =~= Seq::<Seq<char>>::empty());
    assert(subscribe::matches_of(before) + Seq::<Seq<char>>::empty() =~= subscribe::matches_of(
        before,
    ));
}

/// It does not matter whether a queued match is taken before or after
/// more frames come in.
pub proof fn law_taking_and_reading_commute(frames: Seq<FrameView>, more: Seq<FrameView>)
    requires
        subscribe::matches_of(frames).len() > 0,
    ensures
        subscribe::after_match(frames + more) == subscribe::after_match(frames) + more,
        subscribe::matches_of(frames + more)[0] == subscribe::matches_of(frames)[0],
    decreases frames.len(),
{
    lemma_matches_of_both(frames, more);
    let rest = frames.drop_first();
    assert((frames + more).drop_first() =~= rest + more);
    if !subscribe::is_match(frames.first()) {
        law_taking_and_reading_commute(rest, more);
    }
}

// ---------------------------------------------------------------------
// The handshake
// ---------------------------------------------------------------------

/// How a handshake is cut into chunks does not matter while it waits for
/// its first frame: two chunks, of which the first does not complete it,
/// are one. Either way the same frame decides it, and where it succeeds the
/// same frames are left to the stream.
pub proof fn law_handshake_chunks_add_up(h: HandshakeView, a: Seq<u8>, b: Seq<u8>)
    requires
        subscribe::handshake_chunk(h, a) is ReadMore,
    ensures
        ({
            let at_once = subscribe::handshake_chunk(h, a + b);
            let in_two = subscribe::handshake_chunk(
                subscribe::handshake_chunk(h, a)->ReadMore_0,
                b,
            );
            at_once == in_two
        }),
{
    let p = h.scanner.progress;
    let head = h.scanner.tail + a;
    sse_laws::law_reading_is_incremental(p, head, b);
    assert(h.scanner.tail + (a + b) =~= head + b);
    let d = sse::drain(p, head);
    let then = sse::drain(d.progress, d.rest + b);
    assert(d.frames + then.frames =~= then.frames);
}

/// Where one chunk completes the handshake, more bytes in the same chunk
/// change neither whether it succeeds nor what is decoded: they only add
/// to what is left to the stream, and that is so also where they hold a
/// frame over the cap.
pub proof fn law_later_bytes_do_not_undo_the_handshake(
    h: HandshakeView,
    a: Seq<u8>,
    b: Seq<u8>,
)
    requires
        subscribe::handshake_chunk(h, a) is Decode,
    ensures
        ({
            let short = subscribe::handshake_chunk(h, a)->Decode_0;
            &&& subscribe::handshake_chunk(h, a + b) matches StepView::Decode(long)
                && long.data == short.data && long.request_id == short.request_id
                && short.pending.is_prefix_of(long.pending)
        }),
{
    let p = h.scanner.progress;
    let head = h.scanner.tail + a;
    sse_laws::law_reading_is_incremental(p, head, b);
    assert(h.scanner.tail + (a + b) =~= head + b);
}

/// A handshake over a whole body, chunk by chunk and then its end.
pub open spec fn handshaken(h: HandshakeView, chunks: Seq<Seq<u8>>) -> StepView
    decreases chunks.len(),
{
    if chunks.len() == 0 {
        subscribe::handshake_end(h)
    } else {
        match subscribe::handshake_chunk(h, chunks.first()) {
            StepView::ReadMore(next) => handshaken(next, chunks.drop_first()),
            settled => settled,
        }
    }
}

/// The frames of a body from a state on, up to the first over the cap; the
/// last one may be unterminated.
pub open spec fn frames_of_body(s: ScannerView, bytes: Seq<u8>) -> Seq<FrameView> {
    let d = sse::drain(s.progress, s.tail + bytes);
    if d.too_large {
        d.frames
    } else {
        d.frames + sse::option_seq(
            sse::closing(ScannerView { progress: d.progress, tail: d.rest, ..s }).frame,
        )
    }
}

/// Does a body, from a state on, hold a frame over the cap?
pub open spec fn is_oversized(s: ScannerView, bytes: Seq<u8>) -> bool {
    sse::drain(s.progress, s.tail + bytes).too_large
}

/// The first frame of the body decides the handshake, however the body is
/// cut into chunks and whatever comes after that frame: it is decoded if
/// and only if it is `subscribed`.
pub proof fn law_the_first_frame_decides_the_handshake(h: HandshakeView, chunks: Seq<Seq<u8>>)
    requires
        sse::is_settled(h.scanner.progress, h.scanner.tail),
        !h.scanner.failed,
    ensures
        ({
            let frames = frames_of_body(h.scanner, sse_laws::concat(chunks));
            let outcome = handshaken(h, chunks);
            &&& frames.len() > 0 ==> {
                &&& outcome is Decode <==> frames[0].event == "subscribed"@
                &&& outcome matches StepView::Decode(s) ==> s.data == frames[0].data
                    && s.request_id == h.request_id
                &&& outcome matches StepView::Fail(e) ==> e == ErrorView::MalformedSse(
                    "expected 'subscribed' event, got "@ + text::debug_quoted(frames[0].event),
                )
            }
            &&& frames.len() == 0 ==> outcome == StepView::Fail(
                if is_oversized(h.scanner, sse_laws::concat(chunks)) {
                    subscribe::oversized("subscribed frame"@, MAX_SSE_FRAME_BYTES as nat)
                } else {
                    ErrorView::MalformedSse("stream closed before subscribed frame"@)
                },
            )
            &&& !(outcome is ReadMore)
        }),
    decreases chunks.len(),
{
    let s = h.scanner;
    if chunks.len() == 0 {
        assert(s.tail + sse_laws::concat(chunks) =~= s.tail);
        lemma_settled_closes(s);
        let last = sse::option_seq(sse::closing(s).frame);
        assert(Seq::<FrameView>::empty() + last =~= last);
        assert(s == ScannerView { progress: s.progress, tail: s.tail, ..s });
    } else {
        let head = s.tail + chunks.first();
        let others = sse_laws::concat(chunks.drop_first());
        assert(s.tail + sse_laws::concat(chunks) =~= head + others);
        sse_laws::law_reading_is_incremental(s.progress, head, others);
        sse::lemma_settled(s.progress, head);
        let d = sse::drain(s.progress, head);
        match subscribe::handshake_chunk(h, chunks.first()) {
            StepView::ReadMore(next) => {
                law_the_first_frame_decides_the_handshake(next, chunks.drop_first());
                let then = sse::drain(d.progress, d.rest + others);
                assert(d.frames + then.frames =~= then.frames);
            },
            _ => {},
        }
    }
}

/// Ending the body ends the handshake: it succeeds or fails.
pub proof fn law_the_end_settles_the_handshake(h: HandshakeView)
    ensures
        !(subscribe::handshake_end(h) is ReadMore),
{
}

/// Closing a settled scanner does not fail.
proof fn lemma_settled_closes(s: ScannerView)
    requires
        sse::is_settled(s.progress, s.tail),
        !s.failed,
    ensures
        !sse::closing(s).too_large,
{
}

// ---------------------------------------------------------------------
// The stream
// ---------------------------------------------------------------------

/// A stream after its body came in in chunks.
pub open spec fn streamed(s: SubscriptionView, chunks: Seq<Seq<u8>>) -> SubscriptionView
    decreases chunks.len(),
{
    if chunks.len() == 0 {
        s
    } else {
        streamed(subscribe::stream_chunk(s, chunks.first()), chunks.drop_first())
    }
}

proof fn lemma_finished_streams_ignore_chunks(s: SubscriptionView, chunks: Seq<Seq<u8>>)
    requires
        s.finished,
    ensures
        streamed(s, chunks) == s,
    decreases chunks.len(),
{
    if chunks.len() > 0 {
        lemma_finished_streams_ignore_chunks(s, chunks.drop_first());
    }
}

/// However the body is cut into chunks, the frames of its bytes are queued,
/// all of them and in order, up to the first frame over the cap. Where
/// there is one, the stream has ended with it; else it stays open.
pub proof fn law_every_frame_is_queued(s: SubscriptionView, chunks: Seq<Seq<u8>>)
    requires
        sse::is_settled(s.scanner.progress, s.scanner.tail),
        !s.scanner.failed,
        !s.finished,
    ensures
        ({
            let d = sse::drain(s.scanner.progress, s.scanner.tail + sse_laws::concat(chunks));
            let after = streamed(s, chunks);
            &&& after.pending == s.pending + d.frames
            &&& d.too_large ==> after == subscribe::broken(after, subscribe::frame_oversized())
            &&& !d.too_large ==> after == (SubscriptionView {
                scanner: ScannerView { progress: d.progress, tail: d.rest, ..s.scanner },
                pending: s.pending + d.frames,
                ..s
            })
        }),
    decreases chunks.len(),
{
    let p = s.scanner.progress;
    let tail = s.scanner.tail;
    if chunks.len() == 0 {
        assert(tail + sse_laws::concat(chunks) =~= tail);
        assert(s.pending + Seq::<FrameView>::empty() =~= s.pending);
    } else {
        let head = tail + chunks.first();
        let others = sse_laws::concat(chunks.drop_first());
        assert(tail + sse_laws::concat(chunks) =~= head + others);
        sse_laws::law_reading_is_incremental(p, head, others);
        let d = sse::drain(p, head);
        let next = subscribe::stream_chunk(s, chunks.first());
        if d.too_large {
            lemma_finished_streams_ignore_chunks(next, chunks.drop_first());
        } else {
            sse::lemma_settled(p, head);
            law_every_frame_is_queued(next, chunks.drop_first());
            let then = sse::drain(d.progress, d.rest + others);
            assert(s.pending + d.frames + then.frames =~= s.pending + (d.frames + then.frames));
        }
    }
}

/// Nothing is lost between the handshake and the stream: where `chunk`
/// completes the handshake, the first frame of the whole body is the one
/// that the handshake consumed, and the stream queues all the others up to
/// the first over the cap, however the rest of the body is cut into chunks.
pub proof fn law_nothing_is_lost_after_the_handshake(
    h: HandshakeView,
    chunk: Seq<u8>,
    id: Seq<char>,
    chunks: Seq<Seq<u8>>,
)
    requires
        subscribe::handshake_chunk(h, chunk) is Decode,
    ensures
        ({
            let subscribed = subscribe::handshake_chunk(h, chunk)->Decode_0;
            let all = sse::drain(
                h.scanner.progress,
                h.scanner.tail + chunk + sse_laws::concat(chunks),
            );
            let stream = streamed(subscribe::opened(subscribed, id), chunks);
            &&& all.frames.len() > 0
            &&& all.frames[0] == (FrameView { event: "subscribed"@, data: subscribed.data })
            &&& stream.pending == all.frames.drop_first()
            &&& stream.finished == all.too_large
            &&& stream.failure == if all.too_large {
                Some(subscribe::frame_oversized())
            } else {
                None
            }
        }),
{
    let p = h.scanner.progress;
    let head = h.scanner.tail + chunk;
    let others = sse_laws::concat(chunks);
    let subscribed = subscribe::handshake_chunk(h, chunk)->Decode_0;
    let stream = subscribe::opened(subscribed, id);
    sse_laws::law_reading_is_incremental(p, head, others);
    sse::lemma_settled(p, head);
    let d = sse::drain(p, head);
    if d.too_large {
        lemma_finished_streams_ignore_chunks(stream, chunks);
    } else {
        law_every_frame_is_queued(stream, chunks);
        let then = sse::drain(d.progress, d.rest + others);
        assert((d.frames + then.frames).drop_first() =~= d.frames.drop_first() + then.frames);
    }
}

/// A stream that has finished takes nothing in any more.
pub proof fn law_finished_streams_stay_finished(s: SubscriptionView, chunk: Seq<u8>)
    requires
        s.finished,
    ensures
        subscribe::stream_chunk(s, chunk) == s,
        subscribe::stream_end(s) == s,
        subscribe::next_of(s).1.finished,
        !(subscribe::next_of(s).0 is Read),
{
}

// ---------------------------------------------------------------------
// Whole runs
// ---------------------------------------------------------------------

/// What a caller sees of a stream.
pub enum Item {
    /// The data of a match frame.
    Match(Seq<char>),
    Failure(ErrorView),
}

/// Match data as a caller sees it.
pub open spec fn match_items(data: Seq<Seq<char>>) -> Seq<Item> {
    data.map_values(|d: Seq<char>| Item::Match(d))
}

/// All that a caller sees of a stream that is polled until it is done,
/// while its body comes in in chunks and then ends.
pub open spec fn polled(s: SubscriptionView, chunks: Seq<Seq<u8>>) -> Seq<Item>
    decreases
            chunks.len(),
            (if s.finished {
                0nat
            } else {
                1nat
            }),
            s.pending.len(),
            (if s.failure is Some {
                1nat
            } else {
                0nat
            }),
{
    proof {
        lemma_after_match_shrinks(s.pending);
    }
    let (step, next) = subscribe::next_of(s);
    match step {
        NextView::Decode(data) => seq![Item::Match(data)] + polled(next, chunks),
        NextView::Fail(e) => seq![Item::Failure(e)] + polled(next, chunks),
        NextView::Done => Seq::empty(),
        NextView::Read => if chunks.len() == 0 {
            polled(subscribe::stream_end(next), chunks)
        } else {
            polled(subscribe::stream_chunk(next, chunks.first()), chunks.drop_first())
        },
    }
}

pub proof fn lemma_after_match_shrinks(frames: Seq<FrameView>)
    ensures
        subscribe::after_match(frames).len() <= frames.len(),
        subscribe::matches_of(frames).len() > 0 ==> subscribe::after_match(frames).len()
            < frames.len(),
        subscribe::matches_of(frames).len() == 0 ==> subscribe::after_match(frames).len() == 0,
    decreases frames.len(),
{
    if frames.len() > 0 && !subscribe::is_match(frames.first()) {
        lemma_after_match_shrinks(frames.drop_first());
    }
}

/// Polling hands out what is queued, and then goes on with an empty queue.
proof fn lemma_queue_first(s: SubscriptionView, chunks: Seq<Seq<u8>>)
    ensures
        polled(s, chunks) == match_items(subscribe::matches_of(s.pending)) + polled(
            SubscriptionView { pending: Seq::empty(), ..s },
            chunks,
        ),
    decreases s.pending.len(),
{
    let empty = SubscriptionView { pending: Seq::empty(), ..s };
    let waiting = subscribe::matches_of(s.pending);
    lemma_after_match_shrinks(s.pending);
    if waiting.len() > 0 {
        let next = subscribe::next_of(s).1;
        lemma_queue_first(next, chunks);
        law_matches_are_handed_out_in_order(s.pending);
        assert(SubscriptionView { pending: Seq::empty(), ..next } == empty);
        assert(match_items(waiting) =~= seq![Item::Match(waiting[0])] + match_items(
            waiting.drop_first(),
        ));
        let rest = polled(empty, chunks);
        assert(seq![Item::Match(waiting[0])] + (match_items(waiting.drop_first()) + rest)
            =~= match_items(waiting) + rest);
    } else {
        assert(subscribe::after_match(s.pending) =~= Seq::<FrameView>::empty());
        assert(subscribe::after_match(empty.pending) =~= Seq::<FrameView>::empty());
        assert(match_items(waiting) + polled(empty, chunks) =~= polled(empty, chunks));
        assert(subscribe::next_of(s) == subscribe::next_of(empty));
    }
}

/// Polled until it is done, a stream hands out the data of every match
/// frame that is queued or still to come, in order, the last unterminated
/// frame included, however the body is cut into chunks. Where the body
/// holds a frame over the cap, the matches before it are followed by one
/// error; else there is none.
pub proof fn law_a_run_hands_out_every_match(s: SubscriptionView, chunks: Seq<Seq<u8>>)
    requires
        sse::is_settled(s.scanner.progress, s.scanner.tail),
        !s.scanner.failed,
        !s.finished,
        s.failure is None,
    ensures
        ({
            let bytes = sse_laws::concat(chunks);
            let frames = s.pending + frames_of_body(s.scanner, bytes);
            polled(s, chunks) == match_items(subscribe::matches_of(frames)) + if is_oversized(
                s.scanner,
                bytes,
            ) {
                seq![Item::Failure(subscribe::frame_oversized())]
            } else {
                Seq::empty()
            }
        }),
    decreases chunks.len(),
{
    let scanner = s.scanner;
    let empty = SubscriptionView { pending: Seq::empty(), ..s };
    let queued = subscribe::matches_of(s.pending);
    let bytes = sse_laws::concat(chunks);
    let later = frames_of_body(scanner, bytes);
    let end = if is_oversized(scanner, bytes) {
        seq![Item::Failure(subscribe::frame_oversized())]
    } else {
        Seq::<Item>::empty()
    };
    lemma_queue_first(s, chunks);
    lemma_matches_of_both(s.pending, later);
    assert(subscribe::after_match(empty.pending) =~= Seq::<FrameView>::empty());
    if chunks.len() == 0 {
        assert(scanner.tail + bytes =~= scanner.tail);
        lemma_settled_closes(scanner);
        assert(ScannerView { progress: scanner.progress, tail: scanner.tail, ..scanner }
            == scanner);
        let ended = subscribe::stream_end(empty);
        let last = sse::option_seq(sse::closing(scanner).frame);
        assert(ended.pending =~= last);
        assert(later =~= last);
        lemma_queue_first(ended, chunks);
        let done = SubscriptionView { pending: Seq::empty(), ..ended };
        assert(polled(done, chunks) =~= Seq::<Item>::empty());
    } else {
        let head = scanner.tail + chunks.first();
        let others = sse_laws::concat(chunks.drop_first());
        assert(scanner.tail + bytes =~= head + others);
        sse_laws::law_reading_is_incremental(scanner.progress, head, others);
        let d = sse::drain(scanner.progress, head);
        let next = subscribe::stream_chunk(empty, chunks.first());
        assert(next.pending =~= d.frames);
        if d.too_large {
            lemma_queue_first(next, chunks.drop_first());
            let broken = SubscriptionView { pending: Seq::empty(), ..next };
            let after = SubscriptionView { failure: None, ..broken };
            assert(subscribe::after_match(broken.pending) =~= Seq::<FrameView>::empty());
            assert(subscribe::next_of(broken) == (
                NextView::Fail(subscribe::frame_oversized()),
                after,
            ));
            assert(polled(after, chunks.drop_first()) =~= Seq::<Item>::empty());
            assert(polled(broken, chunks.drop_first()) =~= end);
            assert(later =~= d.frames);
        } else {
            sse::lemma_settled(scanner.progress, head);
            law_a_run_hands_out_every_match(next, chunks.drop_first());
            let then = frames_of_body(next.scanner, others);
            assert(later =~= d.frames + then);
        }
    }
    assert(match_items(queued + subscribe::matches_of(later)) =~= match_items(queued)
        + match_items(subscribe::matches_of(later)));
    assert(match_items(queued) + (match_items(subscribe::matches_of(later)) + end)
        =~= match_items(queued) + match_items(subscribe::matches_of(later)) + end);
}

/// From the handshake on: once `chunk` has completed it, polling the
/// stream until it is done hands out the data of every match frame of the
/// body, in order, the last unterminated frame included. Where the body
/// holds a frame over the cap, the matches before it are followed by one
/// error.
pub proof fn law_a_subscription_hands_out_every_match(
    h: HandshakeView,
    chunk: Seq<u8>,
    id: Seq<char>,
    chunks: Seq<Seq<u8>>,
)
    requires
        subscribe::handshake_chunk(h, chunk) is Decode,
    ensures
        ({
            let subscribed = subscribe::handshake_chunk(h, chunk)->Decode_0;
            let bytes = chunk + sse_laws::concat(chunks);
            let frames = frames_of_body(h.scanner, bytes);
            &&& frames.len() > 0
            &&& polled(subscribe::opened(subscribed, id), chunks) == match_items(
                subscribe::matches_of(frames.drop_first()),
            ) + if is_oversized(h.scanner, bytes) {
                seq![Item::Failure(subscribe::frame_oversized())]
            } else {
                Seq::empty()
            }
        }),
{
    let p = h.scanner.progress;
    let head = h.scanner.tail + chunk;
    let others = sse_laws::concat(chunks);
    let subscribed = subscribe::handshake_chunk(h, chunk)->Decode_0;
    let stream = subscribe::opened(subscribed, id);
    assert(h.scanner.tail + (chunk + others) =~= head + others);
    sse_laws::law_reading_is_incremental(p, head, others);
    let d = sse::drain(p, head);
    let frames = frames_of_body(h.scanner, chunk + others);
    if d.too_large {
        lemma_queue_first(stream, chunks);
        let broken = SubscriptionView { pending: Seq::empty(), ..stream };
        let after = SubscriptionView { failure: None, ..broken };
        assert(subscribe::after_match(broken.pending) =~= Seq::<FrameView>::empty());
        assert(subscribe::next_of(broken) == (NextView::Fail(subscribe::frame_oversized()), after));
        assert(polled(after, chunks) =~= Seq::<Item>::empty());
        assert(polled(broken, chunks) =~= seq![Item::Failure(subscribe::frame_oversized())]);
    } else {
        sse::lemma_settled(p, head);
        law_a_run_hands_out_every_match(stream, chunks);
        let then = frames_of_body(stream.scanner, others);
        assert(frames =~= d.frames + then);
        assert(frames.drop_first() =~= stream.pending + then);
    }
}

/// A match frame is handed out with its data, wherever it stands in the
/// stream.
pub proof fn law_match_frames_are_handed_out(
    before: Seq<FrameView>,
    data: Seq<char>,
    after: Seq<FrameView>,
)
    ensures
        subscribe::matches_of(
            before + seq![FrameView { event: "match"@, data }] + after,
        ) == subscribe::matches_of(before) + seq![data] + subscribe::matches_of(after),
        subscribe::matches_of(Seq::empty()).len() == 0,
{
    let one = seq![FrameView { event: "match"@, data }];
    lemma_matches_of_both(before + one, after);
    lemma_matches_of_both(before, one);
    assert(one.drop_first() =~= Seq::<FrameView>::empty());
    assert(subscribe::matches_of(one.drop_first()) =~= Seq::<Seq<char>>::empty());
    assert(subscribe::matches_of(one) =~= seq![data]);
}

/// A stream starts with the identifier and the correlation token of its
/// handshake.
pub proof fn law_streams_keep_their_identifiers(
    s: subscribe::SubscribedView,
    id: Seq<char>,
    chunk: Seq<u8>,
)
    ensures
        ({
            let stream = subscribe::opened(s, id);
            &&& stream.id == id && stream.request_id == s.request_id
            &&& stream.pending == s.pending && stream.scanner == s.scanner
            &&& subscribe::stream_chunk(stream, chunk).id == id
            &&& subscribe::stream_chunk(stream, chunk).request_id == s.request_id
            &&& subscribe::stream_end(stream).id == id
            &&& subscribe::stream_end(stream).request_id == s.request_id
            &&& subscribe::next_of(stream).1.id == id
            &&& subscribe::next_of(stream).1.request_id == s.request_id
        }),
{
}

/// What is said of a frame over the cap, and how errors are wrapped.
pub proof fn law_wraps_say_where_it_failed(e: ErrorView)
    ensures
        subscribe::in_setup(e) == (ErrorView::SubscribeSetup { source: Box::new(e) }),
        subscribe::in_stream(e) == (ErrorView::SubscribeStream { source: Box::new(e) }),
        subscribe::frame_oversized() == (ErrorView::SubscribeStream {
            source: Box::new(
                ErrorView::MalformedSse("frame"@ + " exceeds "@ + text::decimal(65536) + " bytes"@),
            ),
        }),
{
}

/// An error of the body ends the stream with that error, after what is
/// queued.
pub proof fn law_a_broken_stream_fails_once(s: SubscriptionView, e: ErrorView)
    requires
        subscribe::matches_of(s.pending).len() == 0,
    ensures
        ({
            let broken = subscribe::broken(s, e);
            let (step, next) = subscribe::next_of(broken);
            &&& step == NextView::Fail(e)
            &&& subscribe::next_of(next).0 is Done
            &&& broken.pending == s.pending && broken.id == s.id && broken.closed_with_error
        }),
{
    lemma_after_match_shrinks(s.pending);
    assert(subscribe::after_match(s.pending) =~= Seq::<FrameView>::empty());
}

} // verus!
