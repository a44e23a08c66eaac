use frame_engine::clock::ClockError;
use frame_engine::dispatcher::complete_request;
use frame_engine::frame_cache::FrameCache;
use frame_engine::opened_stream::DecodeAction;
use frame_engine::opened_stream::DecodeEvent;
use frame_engine::opened_stream::DecodedFrame;
use frame_engine::opened_stream::FrameRequest;
use frame_engine::opened_stream::OpenedStream;
use frame_engine::opened_stream::PacketInfo;
use frame_engine::opened_stream::Phase;
use frame_engine::opened_stream::ReceiveOutcome;
use frame_engine::opened_stream::StreamError;
use frame_engine::opening::open_stream;
use frame_engine::opening::DecoderChoice;
use frame_engine::opening::DecoderInfo;
use frame_engine::opening::StreamPlan;
use frame_engine::scalable_frame::Rotate;

const NOT_READY: &str = "Resource temporarily unavailable";
const END: &str = "End of file";

/// A source of `frames` frames at one time unit each, with a keyframe
/// every `gop` frames, and a decoder that holds back `delay` frames and
/// hands out `batch` frames at a time. A seek lands on the keyframe at or
/// before its target.
struct Source {
    frames: i64,
    gop: i64,
    delay: usize,
    batch: usize,
    releasing: bool,
    cursor: i64,
    packet: Option<i64>,
    held: Vec<i64>,
    flushing: bool,
    seeks: Vec<(i64, i64, i64)>,
    decoded: Vec<i64>,
}

impl Source {
    fn new(frames: i64, gop: i64, delay: usize) -> Source {
        Source {
            frames,
            gop,
            delay,
            batch: 1,
            releasing: false,
            cursor: 0,
            packet: None,
            held: Vec::new(),
            flushing: false,
            seeks: Vec::new(),
            decoded: Vec::new(),
        }
    }

    fn frame(pts: i64) -> DecodedFrame {
        let shade = (pts % 251) as u8;
        DecodedFrame {
            pts: Some(pts),
            planes: vec![vec![shade; 4], vec![shade.wrapping_add(1)], vec![shade.wrapping_add(2)]],
            linesizes: [2, 1, 1, 0, 0, 0, 0, 0],
        }
    }

    fn seek(&mut self, min_ts: i64, max_ts: i64, ts: i64) {
        self.seeks.push((min_ts, max_ts, ts));
        let aim = ts.max(0).min(self.frames - 1);
        self.cursor = aim - aim % self.gop;
        self.held.clear();
        self.releasing = false;
        self.flushing = false;
    }

    fn read(&mut self) -> DecodeEvent {
        if self.cursor >= self.frames {
            return DecodeEvent::EndOfInput;
        }
        let pts = self.cursor;
        self.cursor += 1;
        self.packet = Some(pts);
        DecodeEvent::Packet(PacketInfo { is_video: true, is_key: pts % self.gop == 0, pts: Some(pts) })
    }

    fn receive(&mut self) -> ReceiveOutcome {
        if !self.flushing {
            if self.held.len() >= self.delay + self.batch {
                self.releasing = true;
            } else if self.held.len() <= self.delay {
                self.releasing = false;
            }
        }
        let ready = if self.flushing { !self.held.is_empty() } else { self.releasing };
        if ready {
            let pts = self.held.remove(0);
            self.decoded.push(pts);
            ReceiveOutcome::Frame(Source::frame(pts))
        } else if self.flushing {
            ReceiveOutcome::Failed(END.to_string())
        } else {
            ReceiveOutcome::Failed(NOT_READY.to_string())
        }
    }

    fn perform(&mut self, action: &DecodeAction) -> DecodeEvent {
        match action {
            DecodeAction::Seek { min_ts, max_ts, ts, .. } => {
                self.seek(*min_ts, *max_ts, *ts);
                DecodeEvent::Sought
            }
            DecodeAction::ReadPacket => self.read(),
            DecodeAction::Decode => {
                let pts = self.packet.take().expect("a packet was read");
                self.held.push(pts);
                DecodeEvent::Received(self.receive())
            }
            DecodeAction::SendEof => {
                self.flushing = true;
                DecodeEvent::EofSent
            }
            DecodeAction::Receive => DecodeEvent::Received(self.receive()),
            DecodeAction::Finish(_) => unreachable!(),
        }
    }
}

fn session(duration: i64) -> OpenedStream {
    open_stream(
        "/tmp/clip.mp4",
        "clip.mp4",
        false,
        &StreamPlan {
            stream_index: 0,
            duration_or_zero: duration,
            rotation: Rotate::Rotate0,
            decoder: DecoderChoice::Default,
        },
        &DecoderInfo { format: 0, width: 2, height: 2, aspect_x: 1, aspect_y: 1 },
    )
}

/// Serves a request for the frame at `seconds` from a stream of 30 time
/// units to the second, accepting a frame within half a frame's time.
fn request(
    stream: &mut OpenedStream,
    cache: &mut FrameCache,
    source: &mut Source,
    seconds: f64,
    is_variable_fps: bool,
) -> Result<usize, StreamError> {
    let position = (seconds * 30.0) as i64;
    let seek_floor = ((seconds - 3.0) * 30.0) as i64;
    let mut state = FrameRequest::new(position, seek_floor, 0, is_variable_fps);
    let mut event = DecodeEvent::Start;
    let mut steps = 0;
    loop {
        steps += 1;
        assert!(steps < 10_000, "the request does not end");
        match stream.get_frame(&mut state, cache, event) {
            DecodeAction::Finish(result) => {
                assert!(state.is_finished());
                return result;
            }
            action => event = source.perform(&action),
        }
    }
}

#[test]
fn a_request_at_the_start_is_served_with_the_first_frame() {
    let mut stream = session(300);
    let mut cache = FrameCache::new();
    let mut source = Source::new(300, 30, 0);
    let id = request(&mut stream, &mut cache, &mut source, 0.0, false).unwrap();
    assert_eq!(cache.get_item(id).unwrap().resolved_pts, 0);
    assert_eq!(cache.get_item(id).unwrap().asked_time, 0);
    assert!(source.seeks.is_empty());
    // Four more packets are decoded once the frame is there.
    assert_eq!(source.decoded, vec![0, 1, 2, 3, 4]);
    assert_eq!(stream.last_position, 4);
    assert_eq!(cache.len(), 5);
}

#[test]
fn a_stream_of_variable_frame_rate_reads_thirty_packets_more() {
    let mut stream = session(300);
    let mut cache = FrameCache::new();
    let mut source = Source::new(300, 10, 0);
    let id = request(&mut stream, &mut cache, &mut source, 0.0, true).unwrap();
    assert_eq!(cache.get_item(id).unwrap().resolved_pts, 0);
    assert_eq!(source.decoded.len(), 31);
    assert_eq!(stream.last_position, 30);
}

#[test]
fn a_stream_of_constant_frame_rate_stops_at_a_keyframe() {
    let mut stream = session(300);
    let mut cache = FrameCache::new();
    let mut source = Source::new(300, 3, 0);
    // The frame at 1 is there after packet 1; packet 3 is a keyframe and
    // is the last one decoded.
    let id = request(&mut stream, &mut cache, &mut source, 1.0 / 30.0, false).unwrap();
    assert_eq!(cache.get_item(id).unwrap().resolved_pts, 1);
    assert_eq!(source.decoded, vec![0, 1, 2, 3]);
}

#[test]
fn ten_seconds_at_thirty_frames() {
    let mut stream = session(300);
    let mut cache = FrameCache::new();
    let mut source = Source::new(300, 30, 0);

    let first = request(&mut stream, &mut cache, &mut source, 0.0, false).unwrap();
    assert_eq!(cache.get_item(first).unwrap().resolved_pts, 0);
    assert!(source.seeks.is_empty());

    // Past the end: the last frame of the stream is frozen and served.
    let frozen = request(&mut stream, &mut cache, &mut source, 20.0, false).unwrap();
    assert_eq!(source.seeks, vec![(0, 600, 300)]);
    assert_eq!(cache.last_frame(), Some(frozen));
    assert_eq!(cache.get_item(frozen).unwrap().resolved_pts, 299);
    assert!(stream.reached_eof);
    assert_eq!(stream.last_position, 299);

    // Back to one second: the session seeks and decodes a new frame.
    let entries = cache.len();
    let third = request(&mut stream, &mut cache, &mut source, 1.0, false).unwrap();
    assert_eq!(source.seeks.len(), 2);
    assert_eq!(source.seeks[1], (0, 30, 30));
    assert_eq!(cache.get_item(third).unwrap().resolved_pts, 30);
    assert_eq!(cache.get_item(third).unwrap().asked_time, 30);
    assert!(third != frozen);
    assert!(third >= entries);
    assert_eq!(cache.last_frame(), Some(frozen));
}

#[test]
fn a_position_past_the_end_is_served_again_without_an_error() {
    let mut stream = session(300);
    let mut cache = FrameCache::new();
    let mut source = Source::new(300, 30, 0);
    let frozen = request(&mut stream, &mut cache, &mut source, 20.0, false).unwrap();
    let again = request(&mut stream, &mut cache, &mut source, 25.0, false).unwrap();
    assert_eq!(again, frozen);
    assert_eq!(cache.get_item(frozen).unwrap().resolved_pts, 299);
}

#[test]
fn frames_drained_at_the_end_are_stored_and_the_last_is_frozen() {
    let mut stream = session(300);
    let mut cache = FrameCache::new();
    let mut source = Source::new(300, 30, 2);
    let frozen = request(&mut stream, &mut cache, &mut source, 20.0, false).unwrap();
    assert_eq!(cache.get_item(frozen).unwrap().resolved_pts, 299);
    assert_eq!(cache.last_frame(), Some(frozen));
    assert_eq!(source.decoded.last(), Some(&299));
    assert_eq!(source.decoded.len(), 30);
    assert_eq!(stream.last_position, 299);
    assert!(stream.reached_eof);
}

#[test]
fn a_decoder_that_holds_frames_back_is_fed_until_the_frame_comes() {
    let mut stream = session(300);
    let mut cache = FrameCache::new();
    let mut source = Source::new(300, 30, 3);
    let id = request(&mut stream, &mut cache, &mut source, 5.0 / 30.0, false).unwrap();
    assert_eq!(cache.get_item(id).unwrap().resolved_pts, 5);
    assert_eq!(source.decoded, vec![0, 1, 2, 3, 4, 5, 6, 7, 8, 9]);
}

#[test]
fn increasing_positions_never_move_the_session_back() {
    let mut stream = session(300);
    let mut cache = FrameCache::new();
    let mut source = Source::new(300, 30, 1);
    let mut last = stream.last_position;
    for k in 0..40 {
        let seconds = k as f64 * 0.2;
        let id = request(&mut stream, &mut cache, &mut source, seconds, false).unwrap();
        assert_eq!(cache.get_item(id).unwrap().resolved_pts, (seconds * 30.0) as i64);
        assert!(stream.last_position >= last);
        last = stream.last_position;
    }
    assert!(source.seeks.is_empty());
}

#[test]
fn the_stored_frame_is_the_decoded_one() {
    let mut stream = session(300);
    stream.transparent = true;
    stream.rotation = Rotate::Rotate90;
    stream.format = 33;
    stream.scaled_width = 3;
    let mut cache = FrameCache::new();
    let mut source = Source::new(300, 30, 0);
    let id = request(&mut stream, &mut cache, &mut source, 0.1, false).unwrap();
    let item = cache.get_item(id).unwrap();
    let decoded = Source::frame(3);
    assert_eq!(item.resolved_pts, 3);
    assert_eq!(item.frame.native_frame.planes, decoded.planes);
    assert_eq!(item.frame.native_frame.linesizes, decoded.linesizes);
    assert_eq!(item.frame.native_frame.format, 33);
    assert_eq!(item.frame.native_frame.original_width, 2);
    assert_eq!(item.frame.native_frame.scaled_width, 3);
    assert_eq!(item.frame.native_frame.rotate, Rotate::Rotate90);
    assert!(item.frame.transparent);
    assert!(item.last_used > 1_577_836_800_000);
}

#[test]
fn two_requests_for_one_position_give_the_same_picture() {
    let mut cache = FrameCache::new();
    let mut one = session(300);
    let mut other = session(300);
    let mut first_source = Source::new(300, 30, 0);
    let mut second_source = Source::new(300, 30, 0);
    let first = request(&mut one, &mut cache, &mut first_source, 1.0, false).unwrap();
    let first_planes = cache.get_item(first).unwrap().frame.native_frame.planes.clone();
    complete_request("a".to_string(), Ok(Vec::new()), &mut cache, 0);
    assert!(cache.get_item(first).is_none());
    let second = request(&mut other, &mut cache, &mut second_source, 1.0, false).unwrap();
    assert!(second != first);
    assert_eq!(cache.get_item(second).unwrap().frame.native_frame.planes, first_planes);
    assert_eq!(cache.get_item(second).unwrap().resolved_pts, 30);
}

#[test]
fn a_seek_that_lands_between_keyframes_goes_back() {
    let mut stream = session(0);
    let mut cache = FrameCache::new();
    let mut state = FrameRequest::new(200, 110, 0, false);
    let action = stream.get_frame_at(&mut state, &mut cache, DecodeEvent::Start, 1);
    // The length is unknown, so the target is the position itself.
    assert_eq!(action, DecodeAction::Seek { stream_index: 0, min_ts: 0, max_ts: 200, ts: 200 });
    assert_eq!(state.phase, Phase::Seeking);
    let action = stream.get_frame_at(&mut state, &mut cache, DecodeEvent::Sought, 2);
    assert_eq!(action, DecodeAction::ReadPacket);
    assert!(state.freshly_seeked);
    let packet = PacketInfo { is_video: true, is_key: false, pts: Some(187) };
    let action = stream.get_frame_at(&mut state, &mut cache, DecodeEvent::Packet(packet), 3);
    assert_eq!(action, DecodeAction::Seek { stream_index: 0, min_ts: 0, max_ts: 187, ts: 186 });
    assert_eq!(state.last_seek_position, 186);
    assert!(state.freshly_seeked);
    let action = stream.get_frame_at(&mut state, &mut cache, DecodeEvent::Sought, 4);
    assert_eq!(action, DecodeAction::ReadPacket);
    let packet = PacketInfo { is_video: true, is_key: true, pts: Some(180) };
    let action = stream.get_frame_at(&mut state, &mut cache, DecodeEvent::Packet(packet), 5);
    assert_eq!(action, DecodeAction::Decode);
    assert!(!state.freshly_seeked);
}

#[test]
fn a_packet_without_timestamp_after_a_seek_is_passed_over() {
    let mut stream = session(0);
    stream.last_position = 500;
    let mut cache = FrameCache::new();
    let mut state = FrameRequest::new(200, 110, 0, false);
    stream.get_frame_at(&mut state, &mut cache, DecodeEvent::Start, 1);
    stream.get_frame_at(&mut state, &mut cache, DecodeEvent::Sought, 2);
    let packet = PacketInfo { is_video: true, is_key: false, pts: None };
    let action = stream.get_frame_at(&mut state, &mut cache, DecodeEvent::Packet(packet), 3);
    assert_eq!(action, DecodeAction::ReadPacket);
    assert!(state.freshly_seeked);
    let packet = PacketInfo { is_video: true, is_key: false, pts: Some(i64::MIN) };
    let action = stream.get_frame_at(&mut state, &mut cache, DecodeEvent::Packet(packet), 3);
    assert_eq!(
        action,
        DecodeAction::Seek { stream_index: 0, min_ts: 0, max_ts: i64::MIN, ts: i64::MIN }
    );
}

#[test]
fn the_first_seek_is_held_at_the_length_of_the_stream() {
    let mut cache = FrameCache::new();
    let mut stream = session(300);
    let mut state = FrameRequest::new(600, 510, 0, false);
    let action = stream.get_frame_at(&mut state, &mut cache, DecodeEvent::Start, 1);
    assert_eq!(action, DecodeAction::Seek { stream_index: 0, min_ts: 0, max_ts: 600, ts: 300 });
    let mut stream = session(300);
    let mut state = FrameRequest::new(200, 110, 0, false);
    let action = stream.get_frame_at(&mut state, &mut cache, DecodeEvent::Start, 1);
    assert_eq!(action, DecodeAction::Seek { stream_index: 0, min_ts: 0, max_ts: 200, ts: 200 });
}

#[test]
fn a_session_within_three_seconds_decodes_on() {
    let mut cache = FrameCache::new();
    let mut stream = session(300);
    stream.last_position = 110;
    let mut state = FrameRequest::new(200, 110, 0, false);
    let action = stream.get_frame_at(&mut state, &mut cache, DecodeEvent::Start, 1);
    assert_eq!(action, DecodeAction::ReadPacket);
    stream.last_position = 109;
    let mut state = FrameRequest::new(200, 110, 0, false);
    let action = stream.get_frame_at(&mut state, &mut cache, DecodeEvent::Start, 1);
    assert_eq!(action, DecodeAction::Seek { stream_index: 0, min_ts: 0, max_ts: 200, ts: 200 });
    stream.last_position = 201;
    let mut state = FrameRequest::new(200, 110, 0, false);
    let action = stream.get_frame_at(&mut state, &mut cache, DecodeEvent::Start, 1);
    assert_eq!(action, DecodeAction::Seek { stream_index: 0, min_ts: 0, max_ts: 200, ts: 200 });
    stream.last_position = 200;
    let mut state = FrameRequest::new(200, 110, 0, false);
    let action = stream.get_frame_at(&mut state, &mut cache, DecodeEvent::Start, 1);
    assert_eq!(action, DecodeAction::ReadPacket);
}

#[test]
fn packets_of_other_streams_are_passed_over() {
    let mut cache = FrameCache::new();
    let mut stream = session(300);
    let mut state = FrameRequest::new(0, -90, 0, false);
    stream.get_frame_at(&mut state, &mut cache, DecodeEvent::Start, 1);
    let packet = PacketInfo { is_video: false, is_key: true, pts: Some(0) };
    let action = stream.get_frame_at(&mut state, &mut cache, DecodeEvent::Packet(packet), 2);
    assert_eq!(action, DecodeAction::ReadPacket);
    assert!(!state.last_was_keyframe);
}

#[test]
fn no_frame_for_the_position_is_an_error_that_names_it() {
    let mut stream = session(300);
    let mut cache = FrameCache::new();
    let mut source = Source::new(0, 30, 0);
    let result = request(&mut stream, &mut cache, &mut source, 1.0, false);
    assert_eq!(
        result,
        Err(StreamError::NoFrameFound {
            position: 30,
            src: "/tmp/clip.mp4".to_string(),
            original_src: "clip.mp4".to_string(),
        })
    );
    assert_eq!(cache.last_frame(), None);
}

#[test]
fn a_failure_outside_ends_the_request() {
    let mut cache = FrameCache::new();
    let mut stream = session(300);
    let mut state = FrameRequest::new(600, 510, 0, false);
    stream.get_frame_at(&mut state, &mut cache, DecodeEvent::Start, 1);
    let action =
        stream.get_frame_at(&mut state, &mut cache, DecodeEvent::Failed("seek failed".to_string()), 2);
    assert_eq!(action, DecodeAction::Finish(Err(StreamError::Decoder("seek failed".to_string()))));
    assert!(state.is_finished());

    let mut state = FrameRequest::new(0, -90, 0, false);
    stream.get_frame_at(&mut state, &mut cache, DecodeEvent::Start, 1);
    let action =
        stream.get_frame_at(&mut state, &mut cache, DecodeEvent::Failed("read failed".to_string()), 2);
    assert_eq!(action, DecodeAction::Finish(Err(StreamError::Decoder("read failed".to_string()))));
}

#[test]
fn a_decoder_error_ends_the_request() {
    let mut cache = FrameCache::new();
    let mut stream = session(300);
    let mut state = FrameRequest::new(0, -90, 0, false);
    stream.get_frame_at(&mut state, &mut cache, DecodeEvent::Start, 1);
    let packet = PacketInfo { is_video: true, is_key: true, pts: Some(0) };
    stream.get_frame_at(&mut state, &mut cache, DecodeEvent::Packet(packet), 2);
    let broken = ReceiveOutcome::Failed("Invalid data found when processing input".to_string());
    let action = stream.get_frame_at(&mut state, &mut cache, DecodeEvent::Received(broken), 3);
    assert_eq!(
        action,
        DecodeAction::Finish(Err(StreamError::Decoder(
            "Invalid data found when processing input".to_string()
        )))
    );
    assert!(!stream.reached_eof);
}

#[test]
fn a_frame_without_timestamp_ends_the_request() {
    let mut cache = FrameCache::new();
    let mut stream = session(300);
    let mut state = FrameRequest::new(0, -90, 0, false);
    stream.get_frame_at(&mut state, &mut cache, DecodeEvent::Start, 1);
    let packet = PacketInfo { is_video: true, is_key: true, pts: Some(0) };
    stream.get_frame_at(&mut state, &mut cache, DecodeEvent::Packet(packet), 2);
    let frame = DecodedFrame { pts: None, planes: Vec::new(), linesizes: [0; 8] };
    let action = stream.get_frame_at(
        &mut state,
        &mut cache,
        DecodeEvent::Received(ReceiveOutcome::Frame(frame)),
        3,
    );
    assert_eq!(action, DecodeAction::Finish(Err(StreamError::MissingTimestamp)));
    assert_eq!(cache.len(), 0);
    assert_eq!(stream.last_position, 0);
}

#[test]
fn an_event_out_of_turn_ends_the_request() {
    let mut cache = FrameCache::new();
    let mut stream = session(300);
    let mut state = FrameRequest::new(0, -90, 0, false);
    let action = stream.get_frame_at(&mut state, &mut cache, DecodeEvent::Sought, 1);
    assert_eq!(action, DecodeAction::Finish(Err(StreamError::UnexpectedEvent)));
    let action = stream.get_frame_at(&mut state, &mut cache, DecodeEvent::Start, 2);
    assert_eq!(action, DecodeAction::Finish(Err(StreamError::UnexpectedEvent)));

    let mut state = FrameRequest::new(0, -90, 0, false);
    stream.get_frame_at(&mut state, &mut cache, DecodeEvent::Start, 1);
    let action = stream.get_frame_at(&mut state, &mut cache, DecodeEvent::EofSent, 2);
    assert_eq!(action, DecodeAction::Finish(Err(StreamError::UnexpectedEvent)));
}

#[test]
fn receive_frame_tells_waiting_from_the_end_and_from_errors() {
    let mut stream = session(300);
    assert_eq!(stream.receive_frame(ReceiveOutcome::Failed(NOT_READY.to_string())), Ok(None));
    assert!(!stream.reached_eof);
    assert_eq!(
        stream.receive_frame(ReceiveOutcome::Failed("boom".to_string())),
        Err(StreamError::Decoder("boom".to_string()))
    );
    assert!(!stream.reached_eof);
    assert_eq!(
        stream.receive_frame(ReceiveOutcome::Frame(Source::frame(7))),
        Ok(Some(Source::frame(7)))
    );
    assert!(!stream.reached_eof);
    assert_eq!(stream.receive_frame(ReceiveOutcome::Failed(END.to_string())), Ok(None));
    assert!(stream.reached_eof);
    let mut stream = session(300);
    let both = format!("{}; {}", END, NOT_READY);
    assert_eq!(stream.receive_frame(ReceiveOutcome::Failed(both)), Ok(None));
    assert!(!stream.reached_eof);
}

#[test]
fn handle_eof_asks_on_until_the_decoder_is_dry() {
    let mut stream = session(300);
    let mut cache = FrameCache::new();
    let mut state = FrameRequest::new(50, -40, 0, false);
    state.phase = Phase::Draining;
    let waiting = ReceiveOutcome::Failed(NOT_READY.to_string());
    assert_eq!(stream.handle_eof(&mut state, &mut cache, waiting, 1), DecodeAction::Receive);
    let frame = ReceiveOutcome::Frame(Source::frame(40));
    assert_eq!(stream.handle_eof(&mut state, &mut cache, frame, 2), DecodeAction::Receive);
    let frame = ReceiveOutcome::Frame(Source::frame(41));
    assert_eq!(stream.handle_eof(&mut state, &mut cache, frame, 3), DecodeAction::Receive);
    assert_eq!(state.latest_flushed, Some(1));
    assert_eq!(stream.last_position, 41);
    let end = ReceiveOutcome::Failed(END.to_string());
    assert_eq!(stream.handle_eof(&mut state, &mut cache, end, 4), DecodeAction::Finish(Ok(1)));
    assert_eq!(cache.last_frame(), Some(1));
    assert_eq!(state.last_frame_received, Some(1));
    assert_eq!(cache.get_item(1).unwrap().last_used, 4);
    assert_eq!(cache.get_item(0).unwrap().last_used, 2);

    // A session that has seen the end takes "nothing yet" for the end.
    let mut state = FrameRequest::new(50, -40, 0, false);
    state.phase = Phase::Draining;
    let waiting = ReceiveOutcome::Failed(NOT_READY.to_string());
    assert_eq!(stream.handle_eof(&mut state, &mut cache, waiting, 5), DecodeAction::Finish(Ok(1)));
}

#[test]
fn a_cache_without_identifiers_ends_the_request() {
    let mut cache = FrameCache::starting_at(usize::MAX);
    let mut stream = session(300);
    let mut state = FrameRequest::new(0, -90, 0, false);
    stream.get_frame_at(&mut state, &mut cache, DecodeEvent::Start, 1);
    let packet = PacketInfo { is_video: true, is_key: true, pts: Some(0) };
    stream.get_frame_at(&mut state, &mut cache, DecodeEvent::Packet(packet), 2);
    let action = stream.get_frame_at(
        &mut state,
        &mut cache,
        DecodeEvent::Received(ReceiveOutcome::Frame(Source::frame(0))),
        3,
    );
    assert_eq!(action, DecodeAction::Finish(Err(StreamError::CacheFull)));
    assert_eq!(cache.len(), 0);
    assert_eq!(stream.last_position, 0);
}

#[test]
fn errors_say_what_went_wrong() {
    let missing = StreamError::NoFrameFound {
        position: -30,
        src: "/tmp/clip.mp4".to_string(),
        original_src: "clip.mp4".to_string(),
    };
    assert_eq!(
        missing.message(),
        "No frame found at position -30 for source /tmp/clip.mp4 (original source = clip.mp4)"
    );
    assert_eq!(StreamError::Decoder("Invalid data".to_string()).message(), "Invalid data");
    assert_eq!(
        StreamError::MissingTimestamp.message(),
        "The decoder gave a frame without a timestamp"
    );
    assert_eq!(StreamError::CacheFull.message(), "The frame cache has no identifier left");
    assert_eq!(
        StreamError::UnexpectedEvent.message(),
        "An event reached a request that was not waiting for it"
    );
}

#[test]
fn every_frame_of_a_packet_is_stored() {
    let mut stream = session(300);
    let mut cache = FrameCache::new();
    let mut source = Source::new(300, 30, 0);
    source.batch = 2;
    let id = request(&mut stream, &mut cache, &mut source, 0.0, false).unwrap();
    assert_eq!(cache.get_item(id).unwrap().resolved_pts, 0);
    // Frames come in pairs, on every second packet, and none is left in
    // the decoder when the request ends.
    assert_eq!(source.decoded, vec![0, 1, 2, 3, 4, 5]);
    assert!(source.held.is_empty());
    assert_eq!(cache.len(), 6);
    for k in 0..6 {
        let item = cache.get_item(k).unwrap();
        assert_eq!(item.resolved_pts, k as i64);
        assert_eq!(item.asked_time, 0);
        assert_eq!(item.frame.native_frame.planes, Source::frame(k as i64).planes);
    }
    assert_eq!(stream.last_position, 5);
}

#[test]
fn the_decoder_is_asked_until_it_has_no_frame_left() {
    let mut cache = FrameCache::new();
    let mut stream = session(300);
    let mut state = FrameRequest::new(10, -80, 0, false);
    stream.get_frame_at(&mut state, &mut cache, DecodeEvent::Start, 1);
    let packet = PacketInfo { is_video: true, is_key: true, pts: Some(0) };
    let action = stream.get_frame_at(&mut state, &mut cache, DecodeEvent::Packet(packet), 2);
    assert_eq!(action, DecodeAction::Decode);
    for pts in [7, 8, 9] {
        let frame = DecodeEvent::Received(ReceiveOutcome::Frame(Source::frame(pts)));
        let action = stream.get_frame_at(&mut state, &mut cache, frame, 3);
        assert_eq!(action, DecodeAction::Receive);
        assert_eq!(state.phase, Phase::Decoding);
        assert_eq!(stream.last_position, pts);
        assert_eq!(state.last_frame_received, Some((pts - 7) as usize));
    }
    assert_eq!(cache.len(), 3);
    let waiting = DecodeEvent::Received(ReceiveOutcome::Failed(NOT_READY.to_string()));
    let action = stream.get_frame_at(&mut state, &mut cache, waiting, 4);
    assert_eq!(action, DecodeAction::ReadPacket);
    assert_eq!(state.phase, Phase::Reading);
    assert_eq!(cache.len(), 3);
    assert_eq!(stream.last_position, 9);
}

#[test]
fn a_clock_without_reading_ends_the_request() {
    let mut cache = FrameCache::new();
    let mut stream = session(300);
    let mut state = FrameRequest::new(0, -90, 0, false);
    let action = stream.get_frame_on(&mut state, &mut cache, DecodeEvent::Start, Ok(5));
    assert_eq!(action, DecodeAction::ReadPacket);
    let packet = PacketInfo { is_video: true, is_key: true, pts: Some(0) };
    let action = stream.get_frame_on(
        &mut state,
        &mut cache,
        DecodeEvent::Packet(packet),
        Err(ClockError::BeforeEpoch),
    );
    assert_eq!(action, DecodeAction::Finish(Err(StreamError::ClockBeforeEpoch)));
    assert!(state.is_finished());
    assert_eq!(cache.len(), 0);
    assert_eq!(stream.last_position, 0);
    assert_eq!(StreamError::ClockBeforeEpoch.message(), "time went backwards");
}
