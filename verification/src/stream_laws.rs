//! What holds of every request, proved from the definition of `step`.

use crate::frame_cache::after_lookup;
use crate::frame_cache::biggest_id;
use crate::frame_cache::gap;
use crate::frame_cache::has_frozen;
use crate::frame_cache::is_biggest_at;
use crate::frame_cache::is_frozen_at;
use crate::frame_cache::is_match_at;
use crate::frame_cache::is_valid;
use crate::frame_cache::matching_index;
use crate::frame_cache::lemma_biggest_unique;
use crate::frame_cache::lemma_lookup_keeps_valid;
use crate::frame_cache::lemma_match_is_lookup;
use crate::frame_cache::lemma_with_item_keeps_valid;
use crate::frame_cache::lookup_id;
use crate::frame_cache::FrameCacheView;
use crate::opened_stream::cache_after;
use crate::opened_stream::conclude;
use crate::opened_stream::must_stop;
use crate::opened_stream::next_read;
use crate::opened_stream::on_drained_dry;
use crate::opened_stream::is_end_of_stream;
use crate::opened_stream::just_before;
use crate::opened_stream::is_not_ready;
use crate::opened_stream::picture;
use crate::opened_stream::seek_target;
use crate::opened_stream::spent;
use crate::opened_stream::DecodedFrame;
use crate::opened_stream::Transition;
use crate::opened_stream::step;
use crate::opened_stream::DecodeAction;
use crate::opened_stream::DecodeEvent;
use crate::opened_stream::FrameRequest;
use crate::opened_stream::OpenedStream;
use crate::opened_stream::PacketInfo;
use crate::opened_stream::Phase;
use crate::opened_stream::ReceiveOutcome;
use crate::opened_stream::StreamError;
use vstd::prelude::*;

verus! {

/// One step as it is taken: the request and the cache as they stand at
/// that moment, what happened outside, and the clock.
pub struct Moment {
    pub request: FrameRequest,
    pub cache: FrameCacheView,
    pub event: DecodeEvent,
    pub now: u128,
}

/// The session after the step taken at `moment`.
#[verifier::opaque]
pub open spec fn session_after_moment(session: OpenedStream, moment: Moment) -> OpenedStream {
    step(session, moment.request, moment.cache, moment.event, moment.now).session
}

/// The session after the steps of `moments`, taken in order.
///
/// The requests and the cache are free at every step: the steps may belong
/// to any number of requests, and other sessions may have used the cache in
/// between.
pub open spec fn session_after_moments(session: OpenedStream, moments: Seq<Moment>) -> OpenedStream
    decreases moments.len(),
{
    if moments.len() == 0 {
        session
    } else {
        session_after_moment(
            session_after_moments(session, moments.drop_last()),
            moments.last(),
        )
    }
}

/// The frame that `event` carries is not earlier than `position`; an event
/// without a frame, or with a frame without timestamp, is in order.
pub open spec fn not_before(event: DecodeEvent, position: i64) -> bool {
    match event {
        DecodeEvent::Received(ReceiveOutcome::Frame(frame)) => match frame.pts {
            Some(pts) => position <= pts,
            None => true,
        },
        _ => true,
    }
}

/// The decoder hands out its frames in the order of their timestamps, as
/// it does while nothing seeks: every frame of `moments` is timed no
/// earlier than the session stands when it arrives.
pub open spec fn frames_in_order(session: OpenedStream, moments: Seq<Moment>) -> bool {
    forall|k: int|
        0 <= k < moments.len() ==> not_before(
            (#[trigger] moments[k]).event,
            session_after_moments(session, moments.take(k)).last_position,
        )
}

/// A step moves the session's position only to the timestamp of a frame it
/// was handed, so a frame in order never moves it back.
pub proof fn lemma_step_keeps_position(
    session: OpenedStream,
    request: FrameRequest,
    cache: FrameCacheView,
    event: DecodeEvent,
    now: u128,
)
    requires
        not_before(event, session.last_position),
    ensures
        session.last_position <= step(session, request, cache, event, now).session.last_position,
{
}

/// While the decoder hands out its frames in order, the session stands
/// after all of `moments` no earlier than after the first `k` of them.
pub proof fn lemma_last_position_grows_from(session: OpenedStream, moments: Seq<Moment>, k: int)
    requires
        frames_in_order(session, moments),
        0 <= k <= moments.len(),
    ensures
        session_after_moments(session, moments.take(k)).last_position <= session_after_moments(
            session,
            moments,
        ).last_position,
    decreases moments.len() - k,
{
    if k == moments.len() {
        assert(moments.take(k) =~= moments);
    } else {
        let m = moments[k];
        let before = session_after_moments(session, moments.take(k));
        assert(moments.take(k + 1).drop_last() =~= moments.take(k));
        assert(moments.take(k + 1).last() == m);
        assert(before.last_position <= session_after_moment(before, m).last_position) by {
            reveal(session_after_moment);
            lemma_step_keeps_position(before, m.request, m.cache, m.event, m.now);
        }
        lemma_last_position_grows_from(session, moments, k + 1);
    }
}

/// While the decoder hands out its frames in order, the position of the
/// session never decreases, whatever is requested and however the requests
/// and the use of the cache by others interleave.
pub proof fn lemma_last_position_never_decreases(session: OpenedStream, moments: Seq<Moment>)
    requires
        frames_in_order(session, moments),
    ensures
        session.last_position <= session_after_moments(session, moments).last_position,
        forall|j: int, k: int|
            0 <= j <= k <= moments.len() ==> session_after_moments(
                session,
                #[trigger] moments.take(j),
            ).last_position <= session_after_moments(
                session,
                #[trigger] moments.take(k),
            ).last_position,
{
    lemma_last_position_grows_from(session, moments, 0);
    assert(moments.take(0) =~= Seq::<Moment>::empty());
    assert forall|j: int, k: int| 0 <= j <= k <= moments.len() implies session_after_moments(
        session,
        #[trigger] moments.take(j),
    ).last_position <= session_after_moments(session, #[trigger] moments.take(k)).last_position by {
        let upto = moments.take(k);
        assert(upto.take(j) =~= moments.take(j));
        assert forall|i: int| 0 <= i < upto.len() implies not_before(
            (#[trigger] upto[i]).event,
            session_after_moments(session, upto.take(i)).last_position,
        ) by {
            assert(upto.take(i) =~= moments.take(i));
            assert(upto[i] == moments[i]);
        }
        lemma_last_position_grows_from(session, upto, j);
    }
}

/// A cache that holds an entry holds one with the latest timestamp.
pub proof fn lemma_biggest_exists(v: FrameCacheView) -> (b: int)
    requires
        v.items.len() > 0,
    ensures
        is_biggest_at(v, b),
        biggest_id(v) == Some(v.items[b].id),
    decreases v.items.len(),
{
    let b = if v.items.len() == 1 {
        0int
    } else {
        let front = FrameCacheView { items: v.items.drop_last(), ..v };
        let a = lemma_biggest_exists(front);
        assert(forall|j: int| 0 <= j < front.items.len() ==> front.items[j] == v.items[j]);
        if v.items.last().resolved_pts > v.items[a].resolved_pts {
            v.items.len() - 1
        } else {
            a
        }
    };
    assert(is_biggest_at(v, b));
    lemma_biggest_unique(v, b, choose|i: int| is_biggest_at(v, i));
    b
}

/// The decoder reports the end of the stream, in a message that says so or
/// by having nothing left once the session has seen the end.
pub open spec fn reports_end(session: OpenedStream, message: Seq<char>) -> bool {
    is_end_of_stream(message) || (is_not_ready(message) && session.reached_eof)
}

/// The frame that is frozen when the decoder runs dry: the one drained
/// last, or else the entry with the latest timestamp.
pub open spec fn frozen_choice(request: FrameRequest, cache: FrameCacheView) -> Option<usize> {
    match request.latest_flushed {
        Some(id) => Some(id),
        None => biggest_id(cache),
    }
}

/// A request for a position past everything the stream holds is served
/// with the frozen last frame, and does not fail: when the decoder runs dry
/// and every cached frame is timed before the position, the request ends
/// with the frame frozen at that moment.
pub proof fn lemma_past_the_end_serves_frozen(
    session: OpenedStream,
    request: FrameRequest,
    cache: FrameCacheView,
    message: String,
    now: u128,
)
    requires
        is_valid(cache),
        request.phase == Phase::Draining,
        reports_end(session, message@),
        cache.items.len() > 0,
        forall|i: int|
            0 <= i < cache.items.len() ==> (#[trigger] cache.items[i]).resolved_pts
                < request.position,
        request.latest_flushed matches Some(id) ==> exists|i: int|
            0 <= i < cache.items.len() && (#[trigger] cache.items[i]).id == id,
    ensures
        frozen_choice(request, cache) is Some,
        step(
            session,
            request,
            cache,
            DecodeEvent::Received(ReceiveOutcome::Failed(message)),
            now,
        ).action == DecodeAction::Finish(Ok(frozen_choice(request, cache).unwrap())),
        step(
            session,
            request,
            cache,
            DecodeEvent::Received(ReceiveOutcome::Failed(message)),
            now,
        ).cache.last_frame == frozen_choice(request, cache),
{
    let at: int = match request.latest_flushed {
        Some(id) => choose|i: int|
            0 <= i < cache.items.len() && (#[trigger] cache.items[i]).id == id,
        None => lemma_biggest_exists(cache),
    };
    let frozen = FrameCacheView { last_frame: Some(cache.items[at].id), ..cache };
    assert(frozen.items[at] == cache.items[at]);
    assert(is_frozen_at(frozen, request.position, at));
    assert(is_match_at(frozen, request.position, request.threshold, at));
    lemma_match_is_lookup(frozen, request.position, request.threshold, at);
}

/// Decoding never starts between two keyframes: after a seek, a video
/// packet that is no keyframe is not handed to the decoder, and the request
/// goes on looking for a keyframe.
pub proof fn lemma_decoding_starts_on_keyframe(
    session: OpenedStream,
    request: FrameRequest,
    cache: FrameCacheView,
    pts: Option<i64>,
    now: u128,
)
    requires
        request.phase == Phase::Reading,
        request.freshly_seeked,
    ensures
        ({
            let packet = PacketInfo { is_video: true, is_key: false, pts };
            let next = step(session, request, cache, DecodeEvent::Packet(packet), now);
            &&& !(next.action is Decode)
            &&& next.request.freshly_seeked
            &&& pts matches Some(at) ==> next.action == (DecodeAction::Seek {
                stream_index: session.stream_index,
                min_ts: 0,
                max_ts: at,
                ts: just_before(at),
            })
        }),
{
}

/// Once a frame for the position is there, the packets still read are
/// counted down, and the request reads no further than the last of them:
/// that packet is fed, its frames are taken, and when the decoder has no
/// frame left for it the request ends.
pub proof fn lemma_lookahead_runs_out(
    session: OpenedStream,
    request: FrameRequest,
    cache: FrameCacheView,
    packet: PacketInfo,
    now: u128,
)
    requires
        request.phase == Phase::Reading,
        packet.is_video,
        request.found_but_forward_seek matches Some(left) && left <= 1,
        !request.freshly_seeked || packet.is_key,
    ensures
        ({
            let fed = step(session, request, cache, DecodeEvent::Packet(packet), now);
            &&& fed.action is Decode
            &&& fed.request.found_but_forward_seek == Some(0u8)
            &&& forall|frame: DecodedFrame, then: u128, held: FrameCacheView|
                ({
                    let taken = #[trigger] step(
                        fed.session,
                        fed.request,
                        held,
                        DecodeEvent::Received(ReceiveOutcome::Frame(frame)),
                        then,
                    );
                    &&& taken.action is Receive || taken.action is Finish
                    &&& taken.request.found_but_forward_seek == Some(0u8)
                    &&& taken.action is Receive ==> taken.request.phase == Phase::Decoding
                })
            &&& forall|
                stood: OpenedStream,
                taken: FrameRequest,
                message: String,
                then: u128,
                held: FrameCacheView,
            |
                taken.phase == Phase::Decoding && taken.found_but_forward_seek == Some(0u8)
                    ==> (#[trigger] step(
                    stood,
                    taken,
                    held,
                    DecodeEvent::Received(ReceiveOutcome::Failed(message)),
                    then,
                )).action is Finish
        }),
{
}

/// A frame that the decoder hands over is stored as it is: the step adds
/// one entry, under the next identifier, with the frame's timestamp, the
/// position of the request and the picture as decoded, and leaves the
/// pictures of the other entries alone.
pub proof fn lemma_decoded_frame_is_stored(
    session: OpenedStream,
    request: FrameRequest,
    cache: FrameCacheView,
    frame: DecodedFrame,
    now: u128,
)
    requires
        request.phase == Phase::Decoding || request.phase == Phase::Draining,
        frame.pts is Some,
        cache.next_id < usize::MAX,
    ensures
        ({
            let next = step(
                session,
                request,
                cache,
                DecodeEvent::Received(ReceiveOutcome::Frame(frame)),
                now,
            );
            &&& next.cache.items.len() == cache.items.len() + 1
            &&& next.cache.next_id == cache.next_id + 1
            &&& next.cache.items.last().id == cache.next_id
            &&& next.cache.items.last().resolved_pts == frame.pts.unwrap()
            &&& next.cache.items.last().asked_time == request.position
            &&& next.cache.items.last().frame == picture(session, frame)
            &&& forall|i: int|
                0 <= i < cache.items.len() ==> (#[trigger] next.cache.items[i]).frame
                    == cache.items[i].frame && next.cache.items[i].id == cache.items[i].id
                    && next.cache.items[i].resolved_pts == cache.items[i].resolved_pts
        }),
{
    let grown = cache_after(session, request, cache, frame, now);
    assert(grown.items.len() == cache.items.len() + 1);
    match matching_index(grown, request.position, request.threshold) {
        Some(i) => {
            assert(0 <= i < grown.items.len());
        },
        None => {},
    }
}

/// Two sessions show a picture the same way: they were opened for the same
/// stream with the same options.
pub open spec fn same_geometry(a: OpenedStream, b: OpenedStream) -> bool {
    &&& a.format == b.format
    &&& a.original_width == b.original_width
    &&& a.original_height == b.original_height
    &&& a.scaled_width == b.scaled_width
    &&& a.scaled_height == b.scaled_height
    &&& a.rotation == b.rotation
    &&& a.transparent == b.transparent
}

/// Two frames hold the same pixels.
pub open spec fn same_pixels(f: DecodedFrame, g: DecodedFrame) -> bool {
    f.planes.deep_view() == g.planes.deep_view() && f.linesizes@ == g.linesizes@
}

/// Whoever decodes a position, and whenever: where the decoder hands two
/// requests the same pixels, the entries stored for them hold the same
/// picture, under whatever identifiers.
pub proof fn lemma_same_pixels_same_picture(
    first: OpenedStream,
    first_request: FrameRequest,
    first_cache: FrameCacheView,
    first_frame: DecodedFrame,
    first_now: u128,
    second: OpenedStream,
    second_request: FrameRequest,
    second_cache: FrameCacheView,
    second_frame: DecodedFrame,
    second_now: u128,
)
    requires
        same_geometry(first, second),
        same_pixels(first_frame, second_frame),
        first_request.phase == Phase::Decoding || first_request.phase == Phase::Draining,
        second_request.phase == Phase::Decoding || second_request.phase == Phase::Draining,
        first_frame.pts is Some,
        second_frame.pts is Some,
        first_cache.next_id < usize::MAX,
        second_cache.next_id < usize::MAX,
    ensures
        step(
            first,
            first_request,
            first_cache,
            DecodeEvent::Received(ReceiveOutcome::Frame(first_frame)),
            first_now,
        ).cache.items.last().frame == step(
            second,
            second_request,
            second_cache,
            DecodeEvent::Received(ReceiveOutcome::Frame(second_frame)),
            second_now,
        ).cache.items.last().frame,
{
    lemma_decoded_frame_is_stored(first, first_request, first_cache, first_frame, first_now);
    lemma_decoded_frame_is_stored(second, second_request, second_cache, second_frame, second_now);
}

/// The cache that a step holds before its one lookup: the cache it was
/// given, with the frame added that the step was handed or with the frozen
/// frame marked where the step does either.
pub open spec fn is_held_by(
    held: FrameCacheView,
    session: OpenedStream,
    request: FrameRequest,
    cache: FrameCacheView,
    event: DecodeEvent,
    now: u128,
) -> bool {
    let next = step(session, request, cache, event, now).cache;
    &&& is_valid(held)
    &&& cache.next_id <= held.next_id
    &&& (next == held || next == after_lookup(held, request.position, request.threshold, now))
}

/// A step keeps the cache in order: identifiers stay distinct, and the
/// counter they come from never goes back, so that none is given twice.
pub proof fn lemma_step_keeps_cache_valid(
    session: OpenedStream,
    request: FrameRequest,
    cache: FrameCacheView,
    event: DecodeEvent,
    now: u128,
)
    requires
        is_valid(cache),
    ensures
        is_valid(step(session, request, cache, event, now).cache),
        cache.next_id <= step(session, request, cache, event, now).cache.next_id,
{
    let held = lemma_result_is_what_the_cache_serves(session, request, cache, event, now);
    lemma_lookup_keeps_valid(held, request.position, request.threshold, now);
}

/// A step looks the position up at most once, in the cache it holds by
/// then. A request ends with a frame only if that cache serves its position
/// with that frame, and it ends for want of a frame only if that cache
/// serves the position with none.
pub proof fn lemma_result_is_what_the_cache_serves(
    session: OpenedStream,
    request: FrameRequest,
    cache: FrameCacheView,
    event: DecodeEvent,
    now: u128,
) -> (held: FrameCacheView)
    requires
        is_valid(cache),
    ensures
        is_held_by(held, session, request, cache, event, now),
        step(session, request, cache, event, now).action matches DecodeAction::Finish(Ok(id))
            ==> lookup_id(held, request.position, request.threshold) == Some(id),
        step(session, request, cache, event, now).action matches DecodeAction::Finish(
            Err(StreamError::NoFrameFound { position, src, original_src }),
        ) ==> lookup_id(held, request.position, request.threshold).is_none() && position
            == request.position && src == session.src && original_src == session.original_src,
{
    let marked = FrameCacheView { last_frame: biggest_id(cache), ..cache };
    let frozen = FrameCacheView { last_frame: request.latest_flushed, ..cache };
    assert(is_valid(marked) && is_valid(frozen));
    match event {
        DecodeEvent::Received(ReceiveOutcome::Frame(frame)) => {
            let grown = cache_after(session, request, cache, frame, now);
            if frame.pts is Some && cache.next_id < usize::MAX {
                lemma_with_item_keeps_valid(
                    cache,
                    frame.pts.unwrap(),
                    request.position,
                    picture(session, frame),
                    now,
                );
            }
            if (request.phase == Phase::Decoding || request.phase == Phase::Draining)
                && frame.pts is Some && cache.next_id < usize::MAX {
                grown
            } else {
                cache
            }
        },
        DecodeEvent::Received(ReceiveOutcome::Failed(message)) => {
            if request.phase == Phase::Draining && reports_end(session, message@) {
                if request.latest_flushed is Some {
                    frozen
                } else {
                    marked
                }
            } else {
                cache
            }
        },
        _ => cache,
    }
}

/// A frame as it arrives, with the time at which it does.
pub struct Arrival {
    pub frame: DecodedFrame,
    pub now: u128,
}

/// Where a request stands once the decoder has handed over `arrivals`, one
/// after the other, from where `start` left it.
pub open spec fn after_arrivals(start: Transition, arrivals: Seq<Arrival>) -> Transition
    decreases arrivals.len(),
{
    if arrivals.len() == 0 {
        start
    } else {
        let before = after_arrivals(start, arrivals.drop_last());
        step(
            before.session,
            before.request,
            before.cache,
            DecodeEvent::Received(ReceiveOutcome::Frame(arrivals.last().frame)),
            arrivals.last().now,
        )
    }
}

/// Every frame that a packet gives is stored, in the order the frames
/// come: after `k` frames the cache has `k` more entries, each under the
/// next identifier, with its frame's timestamp and picture and with the
/// position of the request; the entries that were there are untouched; the
/// session stands at the timestamp of the last frame; and the decoder is
/// asked again.
pub proof fn lemma_frames_of_a_packet_are_stored(start: Transition, arrivals: Seq<Arrival>)
    requires
        start.request.phase == Phase::Decoding,
        start.cache.next_id + arrivals.len() < usize::MAX,
        forall|j: int| 0 <= j < arrivals.len() ==> (#[trigger] arrivals[j]).frame.pts is Some,
    ensures
        ({
            let end = after_arrivals(start, arrivals);
            let k = arrivals.len() as int;
            let n = start.cache.items.len() as int;
            &&& end.request.phase == Phase::Decoding
            &&& end.cache.items.len() == n + k
            &&& end.cache.next_id == start.cache.next_id + k
            &&& end.cache.last_frame == start.cache.last_frame
            &&& forall|i: int| 0 <= i < n ==> #[trigger] end.cache.items[i] == start.cache.items[i]
            &&& forall|j: int|
                0 <= j < k ==> {
                    let entry = #[trigger] end.cache.items[n + j];
                    &&& entry.id == start.cache.next_id + j
                    &&& entry.resolved_pts == arrivals[j].frame.pts.unwrap()
                    &&& entry.asked_time == start.request.position
                    &&& entry.frame == picture(start.session, arrivals[j].frame)
                    &&& entry.last_used == arrivals[j].now
                }
            &&& k > 0 ==> {
                &&& end.action is Receive
                &&& end.session.last_position == arrivals[k - 1].frame.pts.unwrap()
                &&& end.request.last_frame_received == Some((start.cache.next_id + k - 1) as usize)
            }
            &&& same_geometry(end.session, start.session)
            &&& end.session.reached_eof == start.session.reached_eof
            &&& end.request.position == start.request.position
        }),
    decreases arrivals.len(),
{
    if arrivals.len() > 0 {
        let front = arrivals.drop_last();
        assert forall|j: int| 0 <= j < front.len() implies (
        #[trigger] front[j]).frame.pts is Some by {
            assert(front[j] == arrivals[j]);
        }
        lemma_frames_of_a_packet_are_stored(start, front);
        let before = after_arrivals(start, front);
        let end = after_arrivals(start, arrivals);
        let n = start.cache.items.len() as int;
        let k = arrivals.len() as int;
        assert(end.cache == cache_after(
            before.session,
            before.request,
            before.cache,
            arrivals.last().frame,
            arrivals.last().now,
        ));
        assert forall|j: int| 0 <= j < k implies {
            let entry = #[trigger] end.cache.items[n + j];
            &&& entry.id == start.cache.next_id + j
            &&& entry.resolved_pts == arrivals[j].frame.pts.unwrap()
            &&& entry.asked_time == start.request.position
            &&& entry.frame == picture(start.session, arrivals[j].frame)
            &&& entry.last_used == arrivals[j].now
        } by {
            if j < k - 1 {
                assert(end.cache.items[n + j] == before.cache.items[n + j]);
                assert(front[j] == arrivals[j]);
            }
        }
    }
}

/// Every entry is timed before `position` by more than `threshold`: the
/// position lies past all that was decoded, out of reach of any frame.
pub open spec fn is_past_all(cache: FrameCacheView, position: i64, threshold: i64) -> bool {
    forall|i: int|
        0 <= i < cache.items.len() ==> (#[trigger] cache.items[i]).resolved_pts < position && gap(
            cache.items[i].resolved_pts,
            position,
        ) > threshold
}

/// `event` is what a caller reports when the action asked for in `phase`
/// went well, and a frame it carries is timed before `position` by more
/// than `threshold`.
pub open spec fn is_quiet(phase: Phase, event: DecodeEvent, position: i64, threshold: i64) -> bool {
    match phase {
        Phase::Idle => event is Start,
        Phase::Seeking | Phase::SeekingBack => event is Sought,
        Phase::Reading => event is Packet || event is EndOfInput,
        Phase::Flushing => event is EofSent,
        Phase::Decoding | Phase::Draining => match event {
            DecodeEvent::Received(ReceiveOutcome::Frame(frame)) => frame.pts matches Some(pts)
                && pts < position && gap(pts, position) > threshold,
            DecodeEvent::Received(ReceiveOutcome::Failed(message)) => is_not_ready(message@)
                || is_end_of_stream(message@),
            _ => false,
        },
        Phase::Finished => false,
    }
}

/// What holds all through a request for a position past the end of the
/// stream, in a cache that nobody else changes meanwhile.
pub open spec fn is_past_the_end(t: Transition, position: i64, threshold: i64) -> bool {
    &&& is_valid(t.cache)
    &&& is_past_all(t.cache, position, threshold)
    &&& t.request.position == position
    &&& t.request.threshold == threshold
    &&& t.request.latest_flushed matches Some(id) ==> exists|i: int|
        0 <= i < t.cache.items.len() && (#[trigger] t.cache.items[i]).id == id
    &&& t.request.break_on_next_keyframe || t.request.found_but_forward_seek is Some
        ==> has_frozen(t.cache, position)
    &&& t.cache.last_frame is Some ==> t.session.reached_eof
}

/// A request that has ended has ended with the frozen last frame, which is
/// in the cache and timed before the position, and the session has seen the
/// end of the stream; unless the cache holds no frame at all.
pub open spec fn has_ended_well(t: Transition, position: i64) -> bool {
    t.action matches DecodeAction::Finish(result) ==> t.cache.items.len() > 0 ==> {
        &&& result matches Ok(id)
        &&& t.cache.last_frame == Some(id)
        &&& t.session.reached_eof
        &&& exists|i: int|
            0 <= i < t.cache.items.len() && (#[trigger] t.cache.items[i]).id == id
                && t.cache.items[i].resolved_pts < position
    }
}

/// Past everything that was decoded, a lookup serves the frozen frame or
/// nothing, and leaves the cache as far past as it was.
proof fn lemma_lookup_past_all(cache: FrameCacheView, position: i64, threshold: i64, now: u128)
    requires
        is_valid(cache),
        is_past_all(cache, position, threshold),
    ensures
        has_frozen(cache, position) ==> lookup_id(cache, position, threshold) == cache.last_frame
            && cache.last_frame is Some,
        !has_frozen(cache, position) ==> lookup_id(cache, position, threshold).is_none(),
        is_past_all(after_lookup(cache, position, threshold, now), position, threshold),
        has_frozen(after_lookup(cache, position, threshold, now), position) == has_frozen(
            cache,
            position,
        ),
        forall|i: int|
            0 <= i < cache.items.len() ==> (#[trigger] after_lookup(
                cache,
                position,
                threshold,
                now,
            ).items[i]).id == cache.items[i].id,
{
    let after = after_lookup(cache, position, threshold, now);
    lemma_lookup_keeps_valid(cache, position, threshold, now);
    assert forall|i: int| 0 <= i < cache.items.len() implies (#[trigger] after.items[i]).id
        == cache.items[i].id && after.items[i].resolved_pts == cache.items[i].resolved_pts by {}
    if has_frozen(cache, position) {
        let f = choose|i: int| is_frozen_at(cache, position, i);
        assert(is_match_at(cache, position, threshold, f));
        lemma_match_is_lookup(cache, position, threshold, f);
        assert(after.items[f].id == cache.items[f].id);
        assert(is_frozen_at(after, position, f));
    } else {
        assert forall|i: int| !is_frozen_at(after, position, i) by {
            if is_frozen_at(after, position, i) {
                assert(after.items[i].id == cache.items[i].id);
                assert(is_frozen_at(cache, position, i));
            }
        }
        assert forall|i: int| !is_match_at(cache, position, threshold, i) by {
            if is_match_at(cache, position, threshold, i) {
                assert(gap(cache.items[i].resolved_pts, position) > threshold);
            }
        }
    }
}

/// Ending a request past the end with what the cache holds: the frozen
/// frame is served if there is one.
proof fn lemma_conclude_past_the_end(
    session: OpenedStream,
    request: FrameRequest,
    cache: FrameCacheView,
    now: u128,
    position: i64,
    threshold: i64,
)
    requires
        is_past_the_end(
            Transition { session, request, cache, action: DecodeAction::Receive },
            position,
            threshold,
        ),
        cache.items.len() > 0 ==> has_frozen(cache, position),
    ensures
        is_past_the_end(conclude(session, request, cache, now), position, threshold),
        has_ended_well(conclude(session, request, cache, now), position),
{
    let end = conclude(session, request, cache, now);
    lemma_lookup_past_all(cache, position, threshold, now);
    lemma_lookup_keeps_valid(cache, position, threshold, now);
    if request.latest_flushed is Some {
        let i = choose|i: int|
            0 <= i < cache.items.len() && (#[trigger] cache.items[i]).id
                == request.latest_flushed.unwrap();
        assert(end.cache.items[i].id == cache.items[i].id);
    }
    if cache.items.len() > 0 {
        let f = choose|i: int| is_frozen_at(end.cache, position, i);
        assert(end.cache.items[f].resolved_pts < position);
    }
}

/// The head of the packet loop, past the end.
proof fn lemma_next_read_past_the_end(
    session: OpenedStream,
    request: FrameRequest,
    cache: FrameCacheView,
    now: u128,
    position: i64,
    threshold: i64,
)
    requires
        is_past_the_end(
            Transition { session, request, cache, action: DecodeAction::Receive },
            position,
            threshold,
        ),
    ensures
        is_past_the_end(next_read(session, request, cache, now), position, threshold),
        has_ended_well(next_read(session, request, cache, now), position),
        next_read(session, request, cache, now).cache.next_id == cache.next_id,
{
    let next = next_read(session, request, cache, now);
    lemma_lookup_past_all(cache, position, threshold, now);
    lemma_lookup_keeps_valid(cache, position, threshold, now);
    if must_stop(request) {
        lemma_conclude_past_the_end(session, request, cache, now, position, threshold);
    } else if request.latest_flushed is Some {
        let i = choose|i: int|
            0 <= i < cache.items.len() && (#[trigger] cache.items[i]).id
                == request.latest_flushed.unwrap();
        assert(next.cache.items.len() == cache.items.len());
        if request.last_frame_received.is_some() {
            assert(next.cache.items[i].id == cache.items[i].id);
        }
    }
}

/// Storing a frame that is timed before the position, past the end.
proof fn lemma_store_past_the_end(
    session: OpenedStream,
    request: FrameRequest,
    cache: FrameCacheView,
    frame: DecodedFrame,
    now: u128,
    position: i64,
    threshold: i64,
)
    requires
        is_past_the_end(
            Transition { session, request, cache, action: DecodeAction::Receive },
            position,
            threshold,
        ),
        cache.next_id < usize::MAX,
        frame.pts matches Some(pts) && pts < position && gap(pts, position) > threshold,
    ensures
        ({
            let grown = cache_after(session, request, cache, frame, now);
            &&& is_valid(grown)
            &&& is_past_all(grown, position, threshold)
            &&& grown.items.len() == cache.items.len() + 1
            &&& grown.items[cache.items.len() as int].id == cache.next_id
            &&& grown.last_frame == cache.last_frame
            &&& has_frozen(cache, position) ==> has_frozen(grown, position)
            &&& forall|i: int|
                0 <= i < cache.items.len() ==> #[trigger] grown.items[i] == cache.items[i]
        }),
{
    let grown = cache_after(session, request, cache, frame, now);
    lemma_with_item_keeps_valid(
        cache,
        frame.pts.unwrap(),
        request.position,
        picture(session, frame),
        now,
    );
    assert forall|i: int| 0 <= i < grown.items.len() implies (
    #[trigger] grown.items[i]).resolved_pts
        < position && gap(grown.items[i].resolved_pts, position) > threshold by {
        if i < cache.items.len() {
            assert(grown.items[i] == cache.items[i]);
        }
    }
    if has_frozen(cache, position) {
        let f = choose|i: int| is_frozen_at(cache, position, i);
        assert(grown.items[f] == cache.items[f]);
        assert(is_frozen_at(grown, position, f));
    }
}

/// One step of a request for a position past the end of the stream, while
/// nothing fails: what holds of such a request goes on holding, and if the
/// step ends the request, it ends it with the frozen last frame.
pub proof fn lemma_quiet_step_past_the_end(
    before: Transition,
    event: DecodeEvent,
    now: u128,
    position: i64,
    threshold: i64,
)
    requires
        is_past_the_end(before, position, threshold),
        is_quiet(before.request.phase, event, position, threshold),
        before.cache.next_id < usize::MAX,
    ensures
        ({
            let next = step(before.session, before.request, before.cache, event, now);
            &&& is_past_the_end(next, position, threshold)
            &&& has_ended_well(next, position)
            &&& next.cache.next_id <= before.cache.next_id + 1
        }),
{
    let session = before.session;
    let request = before.request;
    let cache = before.cache;
    let next = step(session, request, cache, event, now);
    match request.phase {
        Phase::Idle => {
            let aimed = FrameRequest {
                last_seek_position: seek_target(session, request.position),
                ..request
            };
            lemma_next_read_past_the_end(session, aimed, cache, now, position, threshold);
        },
        Phase::Seeking => {
            let sought = FrameRequest { freshly_seeked: true, ..request };
            lemma_next_read_past_the_end(session, sought, cache, now, position, threshold);
        },
        Phase::SeekingBack => {
            lemma_next_read_past_the_end(session, request, cache, now, position, threshold);
        },
        Phase::Reading => {
            match event {
                DecodeEvent::Packet(info) => {
                    let counted = FrameRequest {
                        found_but_forward_seek: spent(
                            request.found_but_forward_seek,
                        ),
                        last_was_keyframe: info.is_key,
                        ..request
                    };
                    lemma_next_read_past_the_end(session, request, cache, now, position, threshold);
                    lemma_next_read_past_the_end(session, counted, cache, now, position, threshold);
                },
                _ => {},
            }
        },
        Phase::Flushing => {},
        Phase::Decoding => {
            match event {
                DecodeEvent::Received(ReceiveOutcome::Frame(frame)) => {
                    lemma_store_past_the_end(
                        session,
                        request,
                        cache,
                        frame,
                        now,
                        position,
                        threshold,
                    );
                    if request.latest_flushed is Some {
                        let i = choose|i: int|
                            0 <= i < cache.items.len() && (#[trigger] cache.items[i]).id
                                == request.latest_flushed.unwrap();
                        assert(next.cache.items[i] == cache.items[i]);
                    }
                },
                _ => {
                    let ended = OpenedStream { reached_eof: true, ..session };
                    lemma_next_read_past_the_end(session, request, cache, now, position, threshold);
                    lemma_next_read_past_the_end(ended, request, cache, now, position, threshold);
                },
            }
        },
        Phase::Draining => {
            match event {
                DecodeEvent::Received(ReceiveOutcome::Frame(frame)) => {
                    lemma_store_past_the_end(
                        session,
                        request,
                        cache,
                        frame,
                        now,
                        position,
                        threshold,
                    );
                    assert(next.cache.items[cache.items.len() as int].id == cache.next_id);
                },
                _ => {
                    let ended = OpenedStream { reached_eof: true, ..session };
                    if session.reached_eof {
                        lemma_dry_past_the_end(session, request, cache, now, position, threshold);
                    }
                    lemma_dry_past_the_end(ended, request, cache, now, position, threshold);
                },
            }
        },
        Phase::Finished => {},
    }
}

/// The decoder has run dry, past the end: a frame is frozen if the cache
/// holds any, and the request ends with it.
proof fn lemma_dry_past_the_end(
    session: OpenedStream,
    request: FrameRequest,
    cache: FrameCacheView,
    now: u128,
    position: i64,
    threshold: i64,
)
    requires
        is_past_the_end(
            Transition { session, request, cache, action: DecodeAction::Receive },
            position,
            threshold,
        ),
        session.reached_eof,
    ensures
        is_past_the_end(on_drained_dry(session, request, cache, now), position, threshold),
        has_ended_well(on_drained_dry(session, request, cache, now), position),
        on_drained_dry(session, request, cache, now).cache.next_id == cache.next_id,
{
    match request.latest_flushed {
        Some(id) => {
            let i = choose|i: int|
                0 <= i < cache.items.len() && (#[trigger] cache.items[i]).id == id;
            let marked = FrameCacheView { last_frame: Some(id), ..cache };
            let noted = FrameRequest { last_frame_received: Some(id), ..request };
            assert(marked.items[i] == cache.items[i]);
            assert(is_frozen_at(marked, position, i));
            lemma_conclude_past_the_end(session, noted, marked, now, position, threshold);
        },
        None => {
            let marked = FrameCacheView { last_frame: biggest_id(cache), ..cache };
            if cache.items.len() > 0 {
                let b = lemma_biggest_exists(cache);
                assert(marked.items[b] == cache.items[b]);
                assert(is_frozen_at(marked, position, b));
            } else {
                assert(biggest_id(cache).is_none()) by {
                    assert forall|i: int| !is_biggest_at(cache, i) by {}
                }
            }
            if request.break_on_next_keyframe || request.found_but_forward_seek is Some {
                let f = choose|i: int| is_frozen_at(cache, position, i);
                assert(cache.items.len() > 0);
            }
            lemma_conclude_past_the_end(session, request, marked, now, position, threshold);
        },
    }
}

/// An event as it arrives, with the time at which it does.
pub struct Answer {
    pub event: DecodeEvent,
    pub now: u128,
}

/// Where a request stands after one more answer.
#[verifier::opaque]
pub open spec fn after_answer(before: Transition, answer: Answer) -> Transition {
    step(before.session, before.request, before.cache, answer.event, answer.now)
}

/// Where a request stands after the answers given, from where `start` left
/// it, in a cache that nobody else changes meanwhile.
pub open spec fn after_answers(start: Transition, answers: Seq<Answer>) -> Transition
    decreases answers.len(),
{
    if answers.len() == 0 {
        start
    } else {
        after_answer(after_answers(start, answers.drop_last()), answers.last())
    }
}

/// Every answer is a quiet one for the phase the request is in when it
/// arrives.
pub open spec fn all_quiet(
    start: Transition,
    answers: Seq<Answer>,
    position: i64,
    threshold: i64,
) -> bool {
    forall|k: int|
        0 <= k < answers.len() ==> is_quiet(
            after_answers(start, answers.take(k)).request.phase,
            (#[trigger] answers[k]).event,
            position,
            threshold,
        )
}

/// A request for a position past the end of the stream does not fail.
///
/// Take a request whose position lies past every frame in the cache and
/// past every frame the decoder goes on to hand over, by more than the
/// threshold, and let every action go well. Then, however many steps the
/// request takes and whatever packets and frames arrive: if it ends while
/// the cache holds any frame, it ends with the frozen last frame, an entry
/// of the cache timed before the position, and the session has seen the
/// end of the stream.
pub proof fn lemma_request_past_the_end_is_served(
    start: Transition,
    answers: Seq<Answer>,
    position: i64,
    threshold: i64,
)
    requires
        is_past_the_end(start, position, threshold),
        all_quiet(start, answers, position, threshold),
        start.cache.next_id + answers.len() < usize::MAX,
    ensures
        is_past_the_end(after_answers(start, answers), position, threshold),
        answers.len() > 0 ==> has_ended_well(after_answers(start, answers), position),
        after_answers(start, answers).cache.next_id <= start.cache.next_id + answers.len(),
    decreases answers.len(),
{
    if answers.len() > 0 {
        let front = answers.drop_last();
        assert forall|k: int| 0 <= k < front.len() implies is_quiet(
            after_answers(start, front.take(k)).request.phase,
            (#[trigger] front[k]).event,
            position,
            threshold,
        ) by {
            assert(front.take(k) =~= answers.take(k));
            assert(front[k] == answers[k]);
        }
        lemma_request_past_the_end_is_served(start, front, position, threshold);
        let before = after_answers(start, front);
        let last = answers.last();
        assert(answers.take(answers.len() - 1) =~= front);
        assert(is_quiet(
            before.request.phase,
            answers[answers.len() - 1].event,
            position,
            threshold,
        ));
        reveal(after_answer);
        lemma_quiet_step_past_the_end(before, last.event, last.now, position, threshold);
    }
}

/// The same for a request that has not begun: it is enough that the cache
/// is in order, that the position lies past all its frames, and that a
/// frame was frozen only after the session saw the end of the stream.
pub proof fn lemma_new_request_past_the_end_is_served(
    session: OpenedStream,
    cache: FrameCacheView,
    position: i64,
    seek_floor: i64,
    threshold: i64,
    is_variable_fps: bool,
    answers: Seq<Answer>,
)
    requires
        is_valid(cache),
        is_past_all(cache, position, threshold),
        cache.last_frame is Some ==> session.reached_eof,
        all_quiet(
            new_request(session, cache, position, seek_floor, threshold, is_variable_fps),
            answers,
            position,
            threshold,
        ),
        cache.next_id + answers.len() < usize::MAX,
    ensures
        answers.len() > 0 ==> has_ended_well(
            after_answers(
                new_request(session, cache, position, seek_floor, threshold, is_variable_fps),
                answers,
            ),
            position,
        ),
{
    lemma_request_past_the_end_is_served(
        new_request(session, cache, position, seek_floor, threshold, is_variable_fps),
        answers,
        position,
        threshold,
    );
}

/// Where a request stands before it begins.
pub open spec fn new_request(
    session: OpenedStream,
    cache: FrameCacheView,
    position: i64,
    seek_floor: i64,
    threshold: i64,
    is_variable_fps: bool,
) -> Transition {
    Transition {
        session,
        request: FrameRequest {
            position,
            threshold,
            seek_floor,
            is_variable_fps,
            phase: Phase::Idle,
            freshly_seeked: false,
            last_seek_position: position,
            last_frame_received: None,
            break_on_next_keyframe: false,
            last_was_keyframe: false,
            found_but_forward_seek: None,
            latest_flushed: None,
        },
        cache,
        action: DecodeAction::ReadPacket,
    }
}

/// The entry that a request ends with lies within the threshold of the
/// position, or it is the frozen last frame and lies before the position.
pub proof fn lemma_served_entry_is_near_or_frozen(
    session: OpenedStream,
    request: FrameRequest,
    cache: FrameCacheView,
    event: DecodeEvent,
    now: u128,
) -> (found: (FrameCacheView, int))
    requires
        is_valid(cache),
        step(session, request, cache, event, now).action matches DecodeAction::Finish(Ok(_)),
    ensures
        is_held_by(found.0, session, request, cache, event, now),
        0 <= found.1 < found.0.items.len(),
        step(session, request, cache, event, now).action == DecodeAction::Finish(
            Ok(found.0.items[found.1].id),
        ),
        gap(found.0.items[found.1].resolved_pts, request.position) <= request.threshold || (
        found.0.last_frame == Some(found.0.items[found.1].id)
            && found.0.items[found.1].resolved_pts < request.position),
{
    let held = lemma_result_is_what_the_cache_serves(session, request, cache, event, now);
    let i = matching_index(held, request.position, request.threshold).unwrap();
    assert(is_match_at(held, request.position, request.threshold, i));
    (held, i)
}

/// A request for a position behind the one the session stands at begins
/// with a seek to it, held at the length of the stream, and looks for a
/// keyframe from there.
pub proof fn lemma_going_back_seeks(
    session: OpenedStream,
    request: FrameRequest,
    cache: FrameCacheView,
    now: u128,
    then: u128,
)
    requires
        request.phase == Phase::Idle,
        request.position < session.last_position,
    ensures
        ({
            let begun = step(session, request, cache, DecodeEvent::Start, now);
            let sought = step(begun.session, begun.request, begun.cache, DecodeEvent::Sought, then);
            &&& begun.action == (DecodeAction::Seek {
                stream_index: session.stream_index,
                min_ts: 0,
                max_ts: request.position,
                ts: seek_target(session, request.position),
            })
            &&& begun.session == session
            &&& begun.cache == cache
            &&& sought.request.freshly_seeked
        }),
{
}

} // verus!
