use frame_engine::dispatcher::complete_request;
use frame_engine::dispatcher::dispatch;
use frame_engine::dispatcher::first_argument;
use frame_engine::dispatcher::respond;
use frame_engine::dispatcher::Channel;
use frame_engine::dispatcher::DispatcherAction;
use frame_engine::dispatcher::DispatcherState;
use frame_engine::dispatcher::InputEvent;
use frame_engine::dispatcher::Response;
use frame_engine::frame_cache::FrameCache;
use frame_engine::scalable_frame::NotRgbFrame;
use frame_engine::scalable_frame::Rotate;
use frame_engine::scalable_frame::ScalableFrame;

fn line(text: &str) -> InputEvent {
    InputEvent::Line(text.to_string())
}

fn picture() -> ScalableFrame {
    ScalableFrame::new(
        NotRgbFrame {
            planes: Vec::new(),
            linesizes: [0; 8],
            format: 0,
            original_width: 0,
            original_height: 0,
            scaled_width: 0,
            scaled_height: 0,
            rotate: Rotate::Rotate0,
        },
        false,
    )
}

#[test]
fn a_line_is_submitted_without_the_white_space_around_it() {
    assert_eq!(
        dispatch(DispatcherState::Reading, line("  {\"nonce\": \"a\"}\r\n")),
        (DispatcherState::Dispatching, DispatcherAction::Submit("{\"nonce\": \"a\"}".to_string()))
    );
    // An empty line is submitted as well: it is for the parser to reject.
    assert_eq!(
        dispatch(DispatcherState::Reading, line("\n")),
        (DispatcherState::Dispatching, DispatcherAction::Submit(String::new()))
    );
}

#[test]
fn the_line_eof_stops_the_reader() {
    for text in ["EOF", "EOF\n", "  EOF \r\n", "\tEOF"] {
        assert_eq!(
            dispatch(DispatcherState::Reading, line(text)),
            (DispatcherState::Stopped, DispatcherAction::Stop),
            "{:?}",
            text
        );
    }
    for text in ["eof", "EOF.", "E OF", "\"EOF\""] {
        assert_eq!(
            dispatch(DispatcherState::Reading, line(text)),
            (DispatcherState::Dispatching, DispatcherAction::Submit(text.to_string())),
            "{:?}",
            text
        );
    }
}

#[test]
fn a_failure_to_read_stops_the_reader() {
    assert_eq!(
        dispatch(DispatcherState::Reading, InputEvent::ReadFailed),
        (DispatcherState::Stopped, DispatcherAction::Stop)
    );
}

#[test]
fn the_reader_does_not_wait_for_a_request_to_end() {
    assert_eq!(
        dispatch(DispatcherState::Dispatching, InputEvent::Submitted),
        (DispatcherState::Reading, DispatcherAction::ReadLine)
    );
}

#[test]
fn a_line_that_is_no_request_ends_everything() {
    assert_eq!(
        dispatch(DispatcherState::Dispatching, InputEvent::Malformed),
        (DispatcherState::Failed, DispatcherAction::Abort)
    );
    assert_eq!(
        dispatch(DispatcherState::Failed, line("{}")),
        (DispatcherState::Failed, DispatcherAction::Abort)
    );
    assert_eq!(
        dispatch(DispatcherState::Failed, InputEvent::Submitted),
        (DispatcherState::Failed, DispatcherAction::Abort)
    );
}

#[test]
fn events_out_of_turn_end_everything() {
    assert_eq!(
        dispatch(DispatcherState::Reading, InputEvent::Submitted),
        (DispatcherState::Failed, DispatcherAction::Abort)
    );
    assert_eq!(
        dispatch(DispatcherState::Reading, InputEvent::Malformed),
        (DispatcherState::Failed, DispatcherAction::Abort)
    );
    assert_eq!(
        dispatch(DispatcherState::Dispatching, line("{}")),
        (DispatcherState::Failed, DispatcherAction::Abort)
    );
    assert_eq!(
        dispatch(DispatcherState::Dispatching, InputEvent::ReadFailed),
        (DispatcherState::Failed, DispatcherAction::Abort)
    );
}

#[test]
fn a_reader_that_stopped_stays_stopped() {
    for event in [line("{}"), InputEvent::ReadFailed, InputEvent::Submitted, InputEvent::Malformed] {
        assert_eq!(
            dispatch(DispatcherState::Stopped, event),
            (DispatcherState::Stopped, DispatcherAction::Stop)
        );
    }
}

#[test]
fn a_stream_of_lines_is_read_to_its_last_line() {
    let lines = ["{\"a\":1}\n", "{\"b\":2}\n", "EOF\n", "{\"c\":3}\n"];
    let mut state = DispatcherState::Reading;
    let mut submitted = Vec::new();
    for text in lines {
        let (next, action) = dispatch(state, line(text));
        state = next;
        match action {
            DispatcherAction::Submit(request) => {
                submitted.push(request);
                let (next, action) = dispatch(state, InputEvent::Submitted);
                assert_eq!(action, DispatcherAction::ReadLine);
                state = next;
            }
            DispatcherAction::Stop => break,
            other => panic!("{:?}", other),
        }
    }
    assert_eq!(state, DispatcherState::Stopped);
    assert_eq!(submitted, vec!["{\"a\":1}".to_string(), "{\"b\":2}".to_string()]);
}

#[test]
fn a_result_goes_out_on_the_success_channel_under_its_token() {
    let response = respond("token-1".to_string(), Ok(vec![1, 2, 3]));
    assert_eq!(
        response,
        Response { channel: Channel::Success, nonce: "token-1".to_string(), payload: vec![1, 2, 3] }
    );
    assert_eq!(response.channel.status(), 0);
}

#[test]
fn a_failure_goes_out_on_the_failure_channel_under_its_token() {
    let response = respond("token-2".to_string(), Err(b"{\"error\":\"x\"}".to_vec()));
    assert_eq!(
        response,
        Response {
            channel: Channel::Failure,
            nonce: "token-2".to_string(),
            payload: b"{\"error\":\"x\"}".to_vec(),
        }
    );
    assert_eq!(response.channel.status(), 1);
}

#[test]
fn two_requests_are_answered_under_their_own_tokens() {
    let first = respond("first".to_string(), Ok(vec![1]));
    let second = respond("second".to_string(), Err(vec![2]));
    assert_eq!(first.nonce, "first");
    assert_eq!(second.nonce, "second");
    assert_eq!(first.payload, vec![1]);
    assert_eq!(second.payload, vec![2]);
    // The other way round nothing changes.
    let second = respond("second".to_string(), Err(vec![2]));
    let first = respond("first".to_string(), Ok(vec![1]));
    assert_eq!(first.nonce, "first");
    assert_eq!(second.nonce, "second");
}

#[test]
fn ending_a_request_evicts_down_to_the_capacity() {
    let mut cache = FrameCache::new();
    for k in 0..5 {
        cache.add_item(k, k, picture(), (10 - k) as u128);
    }
    let response = complete_request("n".to_string(), Err(vec![7]), &mut cache, 2);
    assert_eq!(response, Response { channel: Channel::Failure, nonce: "n".to_string(), payload: vec![7] });
    assert_eq!(cache.len(), 2);
    assert!(cache.get_item(0).is_some());
    assert!(cache.get_item(1).is_some());
    assert!(cache.get_item(2).is_none());
    let response = complete_request("m".to_string(), Ok(vec![8]), &mut cache, 2);
    assert_eq!(response.channel, Channel::Success);
    assert_eq!(cache.len(), 2);
}

#[test]
fn the_first_argument_is_the_one_after_the_program() {
    let args = vec!["compositor".to_string(), "{\"nonce\":\"1\"}".to_string(), "more".to_string()];
    assert_eq!(first_argument(&args), Some(&"{\"nonce\":\"1\"}".to_string()));
    assert_eq!(first_argument(&vec!["compositor".to_string()]), None);
    assert_eq!(first_argument(&Vec::new()), None);
}
