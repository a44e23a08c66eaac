//! One open source and the way a request for a position is served from it.
//!
//! Reading packets, seeking and decoding happen outside. A request moves
//! in steps: the session names an action, the caller performs it and hands
//! back what happened, and the session names the next one, until it names
//! the result. `step` defines every move; `OpenedStream::get_frame_at` makes
//! it.

use crate::clock::get_time;
use crate::clock::ClockError;
use crate::frame_cache::after_lookup;
use crate::frame_cache::biggest_id;
use crate::frame_cache::lookup_id;
use crate::frame_cache::with_item;
use crate::frame_cache::FrameCache;
use crate::frame_cache::FrameCacheView;
use crate::scalable_frame::NotRgbFrame;
use crate::scalable_frame::NotRgbFrameView;
use crate::scalable_frame::Rotate;
use crate::scalable_frame::ScalableFrame;
use crate::scalable_frame::ScalableFrameView;
use crate::text::contains;
use crate::text::contains_text;
use crate::text::decimal;
use crate::text::decimal_text;
use vstd::prelude::*;
use vstd::string::*;

verus! {

/// What the library keeps of an open source. The demuxer and the decoder
/// that belong to it are held by the caller.
#[derive(Debug, PartialEq, Eq)]
pub struct OpenedStream {
    pub stream_index: usize,
    pub original_width: u32,
    pub original_height: u32,
    pub scaled_width: u32,
    pub scaled_height: u32,
    /// Pixel format, as the decoder numbers it.
    pub format: i32,
    pub src: String,
    pub original_src: String,
    /// Timestamp of the frame decoded last, in stream time units.
    pub last_position: i64,
    /// Length of the stream in stream time units, 0 where it is unknown.
    pub duration_or_zero: i64,
    pub reached_eof: bool,
    pub transparent: bool,
    pub rotation: Rotate,
}

/// What is read of a compressed packet.
#[derive(Clone, Copy, Debug, PartialEq, Eq)]
pub struct PacketInfo {
    /// The packet belongs to a video stream.
    pub is_video: bool,
    pub is_key: bool,
    pub pts: Option<i64>,
}

/// A picture as it is copied out of the decoder.
#[derive(Debug, PartialEq, Eq)]
pub struct DecodedFrame {
    pub pts: Option<i64>,
    pub planes: Vec<Vec<u8>>,
    pub linesizes: [i32; 8],
}

/// What asking the decoder for a frame gave.
#[derive(Debug, PartialEq, Eq)]
pub enum ReceiveOutcome {
    Frame(DecodedFrame),
    /// The decoder's error, in its own words.
    Failed(String),
}

/// What happened outside since the last step.
#[derive(Debug, PartialEq, Eq)]
pub enum DecodeEvent {
    /// Nothing yet: the request begins.
    Start,
    /// The seek that was asked for is done.
    Sought,
    /// The next packet of the source.
    Packet(PacketInfo),
    /// The source has no more packets.
    EndOfInput,
    /// The decoder was asked for a frame.
    Received(ReceiveOutcome),
    /// The decoder was told that no more packets will come.
    EofSent,
    /// The action failed, for the reason given.
    Failed(String),
}

/// Why a request ends without a frame.
#[derive(Debug, PartialEq, Eq)]
pub enum StreamError {
    /// The demuxer or the decoder failed, in its own words.
    Decoder(String),
    /// Decoding is done and the cache holds no frame for the position.
    NoFrameFound { position: i64, src: String, original_src: String },
    /// The decoder handed out a frame without a timestamp.
    MissingTimestamp,
    /// The cache has no identifier left to give.
    CacheFull,
    /// An event reached a request that had asked for something else.
    UnexpectedEvent,
    /// The system clock stands before the Unix epoch, so that an entry
    /// cannot be stamped.
    ClockBeforeEpoch,
}

/// What the caller is to do next.
#[derive(Debug, PartialEq, Eq)]
pub enum DecodeAction {
    /// Seek stream `stream_index` to the keyframe nearest to `ts` among
    /// those between `min_ts` and `max_ts`, then report `Sought`.
    Seek { stream_index: usize, min_ts: i64, max_ts: i64, ts: i64 },
    /// Read the next packet and report it, or `EndOfInput`.
    ReadPacket,
    /// Feed the packet read last to the decoder, ask it for a frame once
    /// and report `Received`.
    Decode,
    /// Tell the decoder that no more packets will come, then report
    /// `EofSent`.
    SendEof,
    /// Ask the decoder for one more frame, without feeding it, and report
    /// `Received`.
    Receive,
    /// The request is over, with the identifier of the cache entry that
    /// serves it or the reason why there is none.
    Finish(Result<usize, StreamError>),
}

/// What a request waits for.
#[derive(Clone, Copy, Debug, PartialEq, Eq, Structural)]
pub enum Phase {
    /// To be started.
    Idle,
    /// For the seek towards the requested position.
    Seeking,
    /// For the seek back to the keyframe before a packet.
    SeekingBack,
    /// For the next packet.
    Reading,
    /// For the decoder's answer to a packet.
    Decoding,
    /// For the decoder to take the end of the stream.
    Flushing,
    /// For one more of the frames the decoder still holds.
    Draining,
    /// For nothing: the result was given.
    Finished,
}

/// A request for the frame at one position, and how far it has come.
#[derive(Clone, Copy, Debug, PartialEq, Eq)]
pub struct FrameRequest {
    /// The position asked for, in stream time units.
    pub position: i64,
    /// How far from `position` a frame's timestamp may lie.
    pub threshold: i64,
    /// The position three seconds before the requested time, in stream
    /// time units: a session that stands before it seeks.
    pub seek_floor: i64,
    pub is_variable_fps: bool,
    pub phase: Phase,
    /// A seek was made and no keyframe was read since.
    pub freshly_seeked: bool,
    pub last_seek_position: i64,
    /// Identifier of the frame this request stored last.
    pub last_frame_received: Option<usize>,
    /// A frame for the position is there: stop after the next keyframe.
    pub break_on_next_keyframe: bool,
    pub last_was_keyframe: bool,
    /// Video packets still to be read once a frame for the position is
    /// there.
    pub found_but_forward_seek: Option<u8>,
    /// Identifier of the frame drained last at the end of the stream.
    pub latest_flushed: Option<usize>,
}

/// Where one step leads.
pub struct Transition {
    pub session: OpenedStream,
    pub request: FrameRequest,
    pub cache: FrameCacheView,
    pub action: DecodeAction,
}

/// Video packets read after a frame for the position is there, so that
/// frames the decoder hands out late are not missed.
pub open spec fn lookahead(is_variable_fps: bool) -> u8 {
    if is_variable_fps {
        30
    } else {
        4
    }
}

/// The decoder has no frame yet and wants more input.
pub open spec fn is_not_ready(message: Seq<char>) -> bool {
    contains_text(message, "Resource temporarily unavailable"@)
}

/// The decoder has handed out its last frame.
pub open spec fn is_end_of_stream(message: Seq<char>) -> bool {
    !is_not_ready(message) && contains_text(message, "End of file"@)
}

/// The position a request first seeks to: the one asked for, held at the
/// stream's length where that is known.
pub open spec fn seek_target(session: OpenedStream, position: i64) -> i64 {
    if session.duration_or_zero == 0 || position <= session.duration_or_zero {
        position
    } else {
        session.duration_or_zero
    }
}

/// The session cannot reach the position by decoding on: the position lies
/// behind it, or more than three seconds ahead.
pub open spec fn needs_seek(session: OpenedStream, request: FrameRequest) -> bool {
    request.position < session.last_position || session.last_position < request.seek_floor
}

/// The position just before `pts`.
pub open spec fn just_before(pts: i64) -> i64 {
    if pts > i64::MIN {
        (pts - 1) as i64
    } else {
        pts
    }
}

/// The packet loop is over: a frame for the position is there and either a
/// keyframe was just read, in a stream of constant frame rate, or the
/// packets read in addition are used up.
pub open spec fn must_stop(request: FrameRequest) -> bool {
    ||| request.break_on_next_keyframe && request.last_was_keyframe && !request.is_variable_fps
    ||| request.found_but_forward_seek == Some(0u8)
}

/// A decoded picture as the cache stores it for this session.
pub open spec fn picture(session: OpenedStream, frame: DecodedFrame) -> ScalableFrameView {
    ScalableFrameView {
        native_frame: NotRgbFrameView {
            planes: frame.planes.deep_view(),
            linesizes: frame.linesizes@,
            format: session.format,
            original_width: session.original_width,
            original_height: session.original_height,
            scaled_width: session.scaled_width,
            scaled_height: session.scaled_height,
            rotate: session.rotation,
        },
        transparent: session.transparent,
    }
}

/// The request ends with `result`.
pub open spec fn finish(
    session: OpenedStream,
    request: FrameRequest,
    cache: FrameCacheView,
    result: Result<usize, StreamError>,
) -> Transition {
    Transition {
        session,
        request: FrameRequest { phase: Phase::Finished, ..request },
        cache,
        action: DecodeAction::Finish(result),
    }
}

/// The request ends with what the cache holds for its position.
pub open spec fn conclude(
    session: OpenedStream,
    request: FrameRequest,
    cache: FrameCacheView,
    now: u128,
) -> Transition {
    let result = match lookup_id(cache, request.position, request.threshold) {
        Some(id) => Ok(id),
        None => Err(
            StreamError::NoFrameFound {
                position: request.position,
                src: session.src,
                original_src: session.original_src,
            },
        ),
    };
    finish(
        session,
        request,
        after_lookup(cache, request.position, request.threshold, now),
        result,
    )
}

/// The request with a frame for its position noted as present.
pub open spec fn with_match_noted(request: FrameRequest) -> FrameRequest {
    FrameRequest {
        break_on_next_keyframe: true,
        found_but_forward_seek: if request.found_but_forward_seek.is_none() {
            Some(lookahead(request.is_variable_fps))
        } else {
            request.found_but_forward_seek
        },
        ..request
    }
}

/// The head of the packet loop: stop, or note whether a frame for the
/// position is there by now and read on.
pub open spec fn next_read(
    session: OpenedStream,
    request: FrameRequest,
    cache: FrameCacheView,
    now: u128,
) -> Transition {
    if must_stop(request) {
        conclude(session, request, cache, now)
    } else if request.last_frame_received.is_some() {
        let noted = if lookup_id(cache, request.position, request.threshold).is_some() {
            with_match_noted(request)
        } else {
            request
        };
        Transition {
            session,
            request: FrameRequest { phase: Phase::Reading, ..noted },
            cache: after_lookup(cache, request.position, request.threshold, now),
            action: DecodeAction::ReadPacket,
        }
    } else {
        Transition {
            session,
            request: FrameRequest { phase: Phase::Reading, ..request },
            cache,
            action: DecodeAction::ReadPacket,
        }
    }
}

/// The request begins: seek where the session cannot decode on, else read.
pub open spec fn on_start(
    session: OpenedStream,
    request: FrameRequest,
    cache: FrameCacheView,
    now: u128,
) -> Transition {
    let target = seek_target(session, request.position);
    let aimed = FrameRequest { last_seek_position: target, ..request };
    if needs_seek(session, request) {
        Transition {
            session,
            request: FrameRequest { phase: Phase::Seeking, ..aimed },
            cache,
            action: DecodeAction::Seek {
                stream_index: session.stream_index,
                min_ts: 0,
                max_ts: request.position,
                ts: target,
            },
        }
    } else {
        next_read(session, aimed, cache, now)
    }
}

/// The packets that may still be read, one fewer.
pub open spec fn spent(budget: Option<u8>) -> Option<u8> {
    match budget {
        Some(left) => Some(
            if left > 0 {
                (left - 1) as u8
            } else {
                0u8
            },
        ),
        None => None,
    }
}

/// A packet was read. One of another stream is passed over. After a seek,
/// a packet that is no keyframe sends the demuxer back to before it, so
/// that decoding starts on a keyframe. Any other packet goes to the
/// decoder.
pub open spec fn on_packet(
    session: OpenedStream,
    request: FrameRequest,
    cache: FrameCacheView,
    info: PacketInfo,
    now: u128,
) -> Transition {
    if !info.is_video {
        next_read(session, request, cache, now)
    } else {
        let counted = FrameRequest {
            found_but_forward_seek: spent(request.found_but_forward_seek),
            last_was_keyframe: info.is_key,
            ..request
        };
        if request.freshly_seeked && !info.is_key {
            match info.pts {
                Some(pts) => Transition {
                    session,
                    request: FrameRequest {
                        last_seek_position: just_before(pts),
                        phase: Phase::SeekingBack,
                        ..counted
                    },
                    cache,
                    action: DecodeAction::Seek {
                        stream_index: session.stream_index,
                        min_ts: 0,
                        max_ts: pts,
                        ts: just_before(pts),
                    },
                },
                None => next_read(session, counted, cache, now),
            }
        } else {
            Transition {
                session,
                request: FrameRequest {
                    freshly_seeked: false,
                    phase: Phase::Decoding,
                    ..counted
                },
                cache,
                action: DecodeAction::Decode,
            }
        }
    }
}

/// Why a frame cannot be stored, if it cannot.
pub open spec fn storing_fails(cache: FrameCacheView, frame: DecodedFrame) -> Option<StreamError> {
    if frame.pts.is_none() {
        Some(StreamError::MissingTimestamp)
    } else if cache.next_id == usize::MAX {
        Some(StreamError::CacheFull)
    } else {
        None
    }
}

/// The session once it has decoded `frame`.
pub open spec fn session_after(session: OpenedStream, frame: DecodedFrame) -> OpenedStream {
    OpenedStream { last_position: frame.pts.unwrap(), ..session }
}

/// The cache once it has taken `frame` for `request`.
pub open spec fn cache_after(
    session: OpenedStream,
    request: FrameRequest,
    cache: FrameCacheView,
    frame: DecodedFrame,
    now: u128,
) -> FrameCacheView {
    with_item(cache, frame.pts.unwrap(), request.position, picture(session, frame), now)
}

/// The decoder answered a packet. A frame is stored, the session moves to
/// its timestamp, and the decoder is asked again: a packet may give any
/// number of frames, and all of them are taken. Once the decoder has no
/// frame left the loop reads on. An error ends the request.
pub open spec fn on_decoded(
    session: OpenedStream,
    request: FrameRequest,
    cache: FrameCacheView,
    outcome: ReceiveOutcome,
    now: u128,
) -> Transition {
    match outcome {
        ReceiveOutcome::Frame(frame) => match storing_fails(cache, frame) {
            Some(error) => finish(session, request, cache, Err(error)),
            None => Transition {
                session: session_after(session, frame),
                request: FrameRequest { last_frame_received: Some(cache.next_id), ..request },
                cache: cache_after(session, request, cache, frame, now),
                action: DecodeAction::Receive,
            },
        },
        ReceiveOutcome::Failed(message) => if is_not_ready(message@) {
            next_read(session, request, cache, now)
        } else if is_end_of_stream(message@) {
            next_read(OpenedStream { reached_eof: true, ..session }, request, cache, now)
        } else {
            finish(session, request, cache, Err(StreamError::Decoder(message)))
        },
    }
}

/// The decoder has no more frames: the last one drained, or else the entry
/// with the latest timestamp, becomes the frame to serve past the end, and
/// the request ends with what the cache holds for its position.
pub open spec fn on_drained_dry(
    session: OpenedStream,
    request: FrameRequest,
    cache: FrameCacheView,
    now: u128,
) -> Transition {
    match request.latest_flushed {
        Some(id) => conclude(
            session,
            FrameRequest { last_frame_received: Some(id), ..request },
            FrameCacheView { last_frame: Some(id), ..cache },
            now,
        ),
        None => conclude(
            session,
            request,
            FrameCacheView { last_frame: biggest_id(cache), ..cache },
            now,
        ),
    }
}

/// The decoder was asked for one of the frames it still holds at the end of
/// the stream: a frame is stored like any other and the next one asked for;
/// once the decoder reports the end, the request is concluded.
pub open spec fn on_drained(
    session: OpenedStream,
    request: FrameRequest,
    cache: FrameCacheView,
    outcome: ReceiveOutcome,
    now: u128,
) -> Transition {
    match outcome {
        ReceiveOutcome::Frame(frame) => match storing_fails(cache, frame) {
            Some(error) => finish(session, request, cache, Err(error)),
            None => Transition {
                session: session_after(session, frame),
                request: FrameRequest { latest_flushed: Some(cache.next_id), ..request },
                cache: cache_after(session, request, cache, frame, now),
                action: DecodeAction::Receive,
            },
        },
        ReceiveOutcome::Failed(message) => if is_not_ready(message@) {
            if session.reached_eof {
                on_drained_dry(session, request, cache, now)
            } else {
                Transition { session, request, cache, action: DecodeAction::Receive }
            }
        } else if is_end_of_stream(message@) {
            on_drained_dry(OpenedStream { reached_eof: true, ..session }, request, cache, now)
        } else {
            finish(session, request, cache, Err(StreamError::Decoder(message)))
        },
    }
}

/// One step of a request: where `event` leads from the state given, with
/// the clock at `now`.
pub open spec fn step(
    session: OpenedStream,
    request: FrameRequest,
    cache: FrameCacheView,
    event: DecodeEvent,
    now: u128,
) -> Transition {
    match request.phase {
        Phase::Idle => match event {
            DecodeEvent::Start => on_start(session, request, cache, now),
            _ => finish(session, request, cache, Err(StreamError::UnexpectedEvent)),
        },
        Phase::Seeking => match event {
            DecodeEvent::Sought => next_read(
                session,
                FrameRequest { freshly_seeked: true, ..request },
                cache,
                now,
            ),
            DecodeEvent::Failed(message) => finish(
                session,
                request,
                cache,
                Err(StreamError::Decoder(message)),
            ),
            _ => finish(session, request, cache, Err(StreamError::UnexpectedEvent)),
        },
        Phase::SeekingBack => match event {
            DecodeEvent::Sought => next_read(session, request, cache, now),
            DecodeEvent::Failed(message) => finish(
                session,
                request,
                cache,
                Err(StreamError::Decoder(message)),
            ),
            _ => finish(session, request, cache, Err(StreamError::UnexpectedEvent)),
        },
        Phase::Reading => match event {
            DecodeEvent::Packet(info) => on_packet(session, request, cache, info, now),
            DecodeEvent::EndOfInput => Transition {
                session,
                request: FrameRequest { phase: Phase::Flushing, latest_flushed: None, ..request },
                cache,
                action: DecodeAction::SendEof,
            },
            DecodeEvent::Failed(message) => finish(
                session,
                request,
                cache,
                Err(StreamError::Decoder(message)),
            ),
            _ => finish(session, request, cache, Err(StreamError::UnexpectedEvent)),
        },
        Phase::Decoding => match event {
            DecodeEvent::Received(outcome) => on_decoded(session, request, cache, outcome, now),
            DecodeEvent::Failed(message) => finish(
                session,
                request,
                cache,
                Err(StreamError::Decoder(message)),
            ),
            _ => finish(session, request, cache, Err(StreamError::UnexpectedEvent)),
        },
        Phase::Flushing => match event {
            DecodeEvent::EofSent => Transition {
                session,
                request: FrameRequest { phase: Phase::Draining, ..request },
                cache,
                action: DecodeAction::Receive,
            },
            DecodeEvent::Failed(message) => finish(
                session,
                request,
                cache,
                Err(StreamError::Decoder(message)),
            ),
            _ => finish(session, request, cache, Err(StreamError::UnexpectedEvent)),
        },
        Phase::Draining => match event {
            DecodeEvent::Received(outcome) => on_drained(session, request, cache, outcome, now),
            DecodeEvent::Failed(message) => finish(
                session,
                request,
                cache,
                Err(StreamError::Decoder(message)),
            ),
            _ => finish(session, request, cache, Err(StreamError::UnexpectedEvent)),
        },
        Phase::Finished => finish(session, request, cache, Err(StreamError::UnexpectedEvent)),
    }
}

/// One step of a request by the clock's reading: the step at the time the
/// clock reads, and the end of the request where it has no reading.
pub open spec fn step_on(
    session: OpenedStream,
    request: FrameRequest,
    cache: FrameCacheView,
    event: DecodeEvent,
    time: Result<u128, ClockError>,
) -> Transition {
    match time {
        Ok(now) => step(session, request, cache, event, now),
        Err(_) => finish(session, request, cache, Err(StreamError::ClockBeforeEpoch)),
    }
}

/// The state and the action given are the ones `t` names.
pub open spec fn reaches(
    t: Transition,
    session: OpenedStream,
    request: FrameRequest,
    cache: FrameCacheView,
    action: DecodeAction,
) -> bool {
    &&& t.session == session
    &&& t.request == request
    &&& t.cache == cache
    &&& t.action == action
}

/// What the decoder's answer means for the session and for the request:
/// a frame, no frame for now, or the error that ends the request. The end
/// of the stream is no error; the session remembers it.
pub open spec fn received(session: OpenedStream, outcome: ReceiveOutcome) -> (
    OpenedStream,
    Result<Option<DecodedFrame>, StreamError>,
) {
    match outcome {
        ReceiveOutcome::Frame(frame) => (session, Ok(Some(frame))),
        ReceiveOutcome::Failed(message) => if is_not_ready(message@) {
            (session, Ok(None))
        } else if is_end_of_stream(message@) {
            (OpenedStream { reached_eof: true, ..session }, Ok(None))
        } else {
            (session, Err(StreamError::Decoder(message)))
        },
    }
}

/// What an error says, in words.
pub open spec fn message_of(error: StreamError) -> Seq<char> {
    match error {
        StreamError::Decoder(message) => message@,
        StreamError::NoFrameFound { position, src, original_src } =>
            "No frame found at position "@ + decimal(position as int) + " for source "@ + src@
            + " (original source = "@ + original_src@ + ")"@,
        StreamError::MissingTimestamp => "The decoder gave a frame without a timestamp"@,
        StreamError::CacheFull => "The frame cache has no identifier left"@,
        StreamError::UnexpectedEvent => "An event reached a request that was not waiting for it"@,
        StreamError::ClockBeforeEpoch => "time went backwards"@,
    }
}

impl StreamError {
    /// The error in words: what the demuxer or the decoder said, or the
    /// position and the source for which no frame was found.
    pub fn message(&self) -> (text: String)
        ensures
            text@ == message_of(*self),
    {
        match self {
            StreamError::Decoder(message) => message.clone(),
            StreamError::NoFrameFound { position, src, original_src } => {
                let mut text = "No frame found at position ".to_owned();
                text.append(decimal_text(*position).as_str());
                text.append(" for source ");
                text.append(src.as_str());
                text.append(" (original source = ");
                text.append(original_src.as_str());
                text.append(")");
                text
            },
            StreamError::MissingTimestamp => {
                "The decoder gave a frame without a timestamp".to_owned()
            },
            StreamError::CacheFull => "The frame cache has no identifier left".to_owned(),
            StreamError::UnexpectedEvent => {
                "An event reached a request that was not waiting for it".to_owned()
            },
            StreamError::ClockBeforeEpoch => "time went backwards".to_owned(),
        }
    }
}

impl FrameRequest {
    /// A request for the frame at `position` that accepts any frame within
    /// `threshold` of it. `seek_floor` is the position three seconds before
    /// the requested time.
    pub fn new(position: i64, seek_floor: i64, threshold: i64, is_variable_fps: bool) -> (request:
        FrameRequest)
        ensures
            request == (FrameRequest {
                position,
                threshold,
                seek_floor,
                is_variable_fps,
                phase: Phase::Idle,
                freshly_seeked: false,
                last_seek_position: position,
                last_frame_received: None,
                break_on_next_keyframe: false,
                last_was_keyframe: false,
                found_but_forward_seek: None,
                latest_flushed: None,
            }),
    {
        FrameRequest {
            position,
            threshold,
            seek_floor,
            is_variable_fps,
            phase: Phase::Idle,
            freshly_seeked: false,
            last_seek_position: position,
            last_frame_received: None,
            break_on_next_keyframe: false,
            last_was_keyframe: false,
            found_but_forward_seek: None,
            latest_flushed: None,
        }
    }

    /// Whether the request has given its result.
    pub fn is_finished(&self) -> (done: bool)
        ensures
            done == (self.phase == Phase::Finished),
    {
        match self.phase {
            Phase::Finished => true,
            _ => false,
        }
    }
}

impl OpenedStream {
    /// Reads the decoder's answer: see `received`.
    pub fn receive_frame(&mut self, outcome: ReceiveOutcome) -> (frame: Result<
        Option<DecodedFrame>,
        StreamError,
    >)
        ensures
            (*final(self), frame) == received(*old(self), outcome),
    {
        match outcome {
            ReceiveOutcome::Frame(frame) => Ok(Some(frame)),
            ReceiveOutcome::Failed(message) => {
                if contains(message.as_str(), "Resource temporarily unavailable") {
                    Ok(None)
                } else if contains(message.as_str(), "End of file") {
                    self.reached_eof = true;
                    Ok(None)
                } else {
                    Err(StreamError::Decoder(message))
                }
            },
        }
    }

    /// Stores a decoded frame for `request` and moves the session to the
    /// frame's timestamp. Returns the identifier the frame got.
    fn store_frame(
        &mut self,
        request: &FrameRequest,
        cache: &mut FrameCache,
        frame: DecodedFrame,
        now: u128,
    ) -> (stored: Result<usize, StreamError>)
        requires
            old(cache).wf(),
        ensures
            final(cache).wf(),
            match storing_fails(old(cache)@, frame) {
                Some(error) => stored == Err::<usize, StreamError>(error) && *final(self) == *old(
                    self,
                ) && final(cache)@ == old(cache)@,
                None => stored == Ok::<usize, StreamError>(old(cache)@.next_id) && *final(self)
                    == session_after(*old(self), frame) && final(cache)@ == cache_after(
                    *old(self),
                    *request,
                    old(cache)@,
                    frame,
                    now,
                ),
            },
    {
        let pts = match frame.pts {
            Some(pts) => pts,
            None => {
                return Err(StreamError::MissingTimestamp);
            },
        };
        let ghost shown = picture(*self, frame);
        let native = NotRgbFrame {
            planes: frame.planes,
            linesizes: frame.linesizes,
            format: self.format,
            original_width: self.original_width,
            original_height: self.original_height,
            scaled_width: self.scaled_width,
            scaled_height: self.scaled_height,
            rotate: self.rotation,
        };
        let kept = ScalableFrame::new(native, self.transparent);
        assert(kept@ == shown);
        match cache.add_item(pts, request.position, kept, now) {
            Some(id) => {
                self.last_position = pts;
                Ok(id)
            },
            None => Err(StreamError::CacheFull),
        }
    }

    /// Ends the request with what the cache holds for its position.
    fn finish_with_lookup(
        &self,
        request: &mut FrameRequest,
        cache: &mut FrameCache,
        now: u128,
    ) -> (action: DecodeAction)
        requires
            old(cache).wf(),
        ensures
            final(cache).wf(),
            reaches(
                conclude(*self, *old(request), old(cache)@, now),
                *self,
                *final(request),
                final(cache)@,
                action,
            ),
    {
        let found = cache.get_item_id_at(request.position, request.threshold, now);
        request.phase = Phase::Finished;
        match found {
            Some(id) => DecodeAction::Finish(Ok(id)),
            None => DecodeAction::Finish(
                Err(
                    StreamError::NoFrameFound {
                        position: request.position,
                        src: self.src.clone(),
                        original_src: self.original_src.clone(),
                    },
                ),
            ),
        }
    }

    /// The head of the packet loop: see `next_read`.
    fn read_on(&self, request: &mut FrameRequest, cache: &mut FrameCache, now: u128) -> (action:
        DecodeAction)
        requires
            old(cache).wf(),
        ensures
            final(cache).wf(),
            reaches(
                next_read(*self, *old(request), old(cache)@, now),
                *self,
                *final(request),
                final(cache)@,
                action,
            ),
    {
        if request.break_on_next_keyframe && request.last_was_keyframe && !request.is_variable_fps {
            return self.finish_with_lookup(request, cache, now);
        }
        match request.found_but_forward_seek {
            Some(left) => {
                if left == 0 {
                    return self.finish_with_lookup(request, cache, now);
                }
            },
            None => {},
        }
        if request.last_frame_received.is_some() {
            let matching = cache.get_item_id_at(request.position, request.threshold, now);
            if matching.is_some() {
                request.break_on_next_keyframe = true;
                if request.found_but_forward_seek.is_none() {
                    request.found_but_forward_seek = Some(
                        if request.is_variable_fps {
                            30
                        } else {
                            4
                        },
                    );
                }
            }
        }
        request.phase = Phase::Reading;
        DecodeAction::ReadPacket
    }

    /// Ends the request with `error`.
    fn fail(&self, request: &mut FrameRequest, cache: &FrameCache, error: StreamError) -> (action:
        DecodeAction)
        ensures
            reaches(
                finish(*self, *old(request), cache@, Err(error)),
                *self,
                *final(request),
                cache@,
                action,
            ),
    {
        request.phase = Phase::Finished;
        DecodeAction::Finish(Err(error))
    }

    /// The request begins: see `on_start`.
    fn begin(&self, request: &mut FrameRequest, cache: &mut FrameCache, now: u128) -> (action:
        DecodeAction)
        requires
            old(cache).wf(),
        ensures
            final(cache).wf(),
            reaches(
                on_start(*self, *old(request), old(cache)@, now),
                *self,
                *final(request),
                final(cache)@,
                action,
            ),
    {
        let target = if self.duration_or_zero == 0 || request.position <= self.duration_or_zero {
            request.position
        } else {
            self.duration_or_zero
        };
        let seek = request.position < self.last_position || self.last_position
            < request.seek_floor;
        request.last_seek_position = target;
        if seek {
            request.phase = Phase::Seeking;
            DecodeAction::Seek {
                stream_index: self.stream_index,
                min_ts: 0,
                max_ts: request.position,
                ts: target,
            }
        } else {
            self.read_on(request, cache, now)
        }
    }

    /// A packet was read: see `on_packet`.
    fn take_packet(
        &self,
        request: &mut FrameRequest,
        cache: &mut FrameCache,
        info: PacketInfo,
        now: u128,
    ) -> (action: DecodeAction)
        requires
            old(cache).wf(),
        ensures
            final(cache).wf(),
            reaches(
                on_packet(*self, *old(request), old(cache)@, info, now),
                *self,
                *final(request),
                final(cache)@,
                action,
            ),
    {
        if !info.is_video {
            return self.read_on(request, cache, now);
        }
        match request.found_but_forward_seek {
            Some(left) => {
                request.found_but_forward_seek = Some(
                    if left > 0 {
                        left - 1
                    } else {
                        0
                    },
                );
            },
            None => {},
        }
        request.last_was_keyframe = info.is_key;
        if request.freshly_seeked && !info.is_key {
            match info.pts {
                Some(pts) => {
                    let before = if pts > i64::MIN {
                        pts - 1
                    } else {
                        pts
                    };
                    request.last_seek_position = before;
                    request.phase = Phase::SeekingBack;
                    DecodeAction::Seek {
                        stream_index: self.stream_index,
                        min_ts: 0,
                        max_ts: pts,
                        ts: before,
                    }
                },
                None => self.read_on(request, cache, now),
            }
        } else {
            request.freshly_seeked = false;
            request.phase = Phase::Decoding;
            DecodeAction::Decode
        }
    }

    /// The decoder answered a packet: see `on_decoded`.
    fn take_decoded(
        &mut self,
        request: &mut FrameRequest,
        cache: &mut FrameCache,
        outcome: ReceiveOutcome,
        now: u128,
    ) -> (action: DecodeAction)
        requires
            old(cache).wf(),
        ensures
            final(cache).wf(),
            reaches(
                on_decoded(*old(self), *old(request), old(cache)@, outcome, now),
                *final(self),
                *final(request),
                final(cache)@,
                action,
            ),
    {
        match self.receive_frame(outcome) {
            Err(error) => self.fail(request, cache, error),
            Ok(None) => self.read_on(request, cache, now),
            Ok(Some(frame)) => match self.store_frame(request, cache, frame, now) {
                Err(error) => self.fail(request, cache, error),
                Ok(id) => {
                    request.last_frame_received = Some(id);
                    DecodeAction::Receive
                },
            },
        }
    }

    /// The decoder has no more frames: see `on_drained_dry`.
    fn settle_last_frame(
        &self,
        request: &mut FrameRequest,
        cache: &mut FrameCache,
        now: u128,
    ) -> (action: DecodeAction)
        requires
            old(cache).wf(),
        ensures
            final(cache).wf(),
            reaches(
                on_drained_dry(*self, *old(request), old(cache)@, now),
                *self,
                *final(request),
                final(cache)@,
                action,
            ),
    {
        match request.latest_flushed {
            Some(id) => {
                request.last_frame_received = Some(id);
                cache.set_last_frame(id);
            },
            None => {
                cache.set_biggest_frame_as_last_frame();
            },
        }
        self.finish_with_lookup(request, cache, now)
    }

    /// One step of draining the decoder at the end of the stream, with the
    /// clock at `now`: see `on_drained`.
    pub fn handle_eof(
        &mut self,
        request: &mut FrameRequest,
        cache: &mut FrameCache,
        outcome: ReceiveOutcome,
        now: u128,
    ) -> (action: DecodeAction)
        requires
            old(cache).wf(),
        ensures
            final(cache).wf(),
            reaches(
                on_drained(*old(self), *old(request), old(cache)@, outcome, now),
                *final(self),
                *final(request),
                final(cache)@,
                action,
            ),
    {
        match self.receive_frame(outcome) {
            Err(error) => self.fail(request, cache, error),
            Ok(None) => {
                if self.reached_eof {
                    self.settle_last_frame(request, cache, now)
                } else {
                    DecodeAction::Receive
                }
            },
            Ok(Some(frame)) => match self.store_frame(request, cache, frame, now) {
                Err(error) => self.fail(request, cache, error),
                Ok(id) => {
                    request.latest_flushed = Some(id);
                    DecodeAction::Receive
                },
            },
        }
    }

    /// One step of a request, with the clock at `now`: takes what happened
    /// outside, brings the session, the request and the cache to where
    /// `step` says, and returns the action `step` names.
    pub fn get_frame_at(
        &mut self,
        request: &mut FrameRequest,
        cache: &mut FrameCache,
        event: DecodeEvent,
        now: u128,
    ) -> (action: DecodeAction)
        requires
            old(cache).wf(),
        ensures
            final(cache).wf(),
            reaches(
                step(*old(self), *old(request), old(cache)@, event, now),
                *final(self),
                *final(request),
                final(cache)@,
                action,
            ),
    {
        match request.phase {
            Phase::Idle => match event {
                DecodeEvent::Start => self.begin(request, cache, now),
                _ => self.fail(request, cache, StreamError::UnexpectedEvent),
            },
            Phase::Seeking => match event {
                DecodeEvent::Sought => {
                    request.freshly_seeked = true;
                    self.read_on(request, cache, now)
                },
                DecodeEvent::Failed(message) => self.fail(
                    request,
                    cache,
                    StreamError::Decoder(message),
                ),
                _ => self.fail(request, cache, StreamError::UnexpectedEvent),
            },
            Phase::SeekingBack => match event {
                DecodeEvent::Sought => self.read_on(request, cache, now),
                DecodeEvent::Failed(message) => self.fail(
                    request,
                    cache,
                    StreamError::Decoder(message),
                ),
                _ => self.fail(request, cache, StreamError::UnexpectedEvent),
            },
            Phase::Reading => match event {
                DecodeEvent::Packet(info) => self.take_packet(request, cache, info, now),
                DecodeEvent::EndOfInput => {
                    request.phase = Phase::Flushing;
                    request.latest_flushed = None;
                    DecodeAction::SendEof
                },
                DecodeEvent::Failed(message) => self.fail(
                    request,
                    cache,
                    StreamError::Decoder(message),
                ),
                _ => self.fail(request, cache, StreamError::UnexpectedEvent),
            },
            Phase::Decoding => match event {
                DecodeEvent::Received(outcome) => self.take_decoded(request, cache, outcome, now),
                DecodeEvent::Failed(message) => self.fail(
                    request,
                    cache,
                    StreamError::Decoder(message),
                ),
                _ => self.fail(request, cache, StreamError::UnexpectedEvent),
            },
            Phase::Flushing => match event {
                DecodeEvent::EofSent => {
                    request.phase = Phase::Draining;
                    DecodeAction::Receive
                },
                DecodeEvent::Failed(message) => self.fail(
                    request,
                    cache,
                    StreamError::Decoder(message),
                ),
                _ => self.fail(request, cache, StreamError::UnexpectedEvent),
            },
            Phase::Draining => match event {
                DecodeEvent::Received(outcome) => self.handle_eof(request, cache, outcome, now),
                DecodeEvent::Failed(message) => self.fail(
                    request,
                    cache,
                    StreamError::Decoder(message),
                ),
                _ => self.fail(request, cache, StreamError::UnexpectedEvent),
            },
            Phase::Finished => self.fail(request, cache, StreamError::UnexpectedEvent),
        }
    }

    /// One step of a request by a reading of the clock: the step of
    /// `get_frame_at` at the time read, and the end of the request, with
    /// everything else as it is, where the clock has no reading.
    pub fn get_frame_on(
        &mut self,
        request: &mut FrameRequest,
        cache: &mut FrameCache,
        event: DecodeEvent,
        time: Result<u128, ClockError>,
    ) -> (action: DecodeAction)
        requires
            old(cache).wf(),
        ensures
            final(cache).wf(),
            reaches(
                step_on(*old(self), *old(request), old(cache)@, event, time),
                *final(self),
                *final(request),
                final(cache)@,
                action,
            ),
    {
        match time {
            Ok(now) => self.get_frame_at(request, cache, event, now),
            Err(_) => self.fail(request, cache, StreamError::ClockBeforeEpoch),
        }
    }

    /// One step of a request by the system clock: see `get_frame_on`.
    pub fn get_frame(
        &mut self,
        request: &mut FrameRequest,
        cache: &mut FrameCache,
        event: DecodeEvent,
    ) -> (action: DecodeAction)
        requires
            old(cache).wf(),
        ensures
            final(cache).wf(),
            exists|time: Result<u128, ClockError>|
                reaches(
                    #[trigger] step_on(*old(self), *old(request), old(cache)@, event, time),
                    *final(self),
                    *final(request),
                    final(cache)@,
                    action,
                ),
    {
        let time = get_time();
        self.get_frame_on(request, cache, event, time)
    }
}

} // verus!
