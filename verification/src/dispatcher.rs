//! Requests in, responses out: what the reader of the request stream does
//! with a line, and how the answer to a request is tagged.
//!
//! Lines are read, requests run on worker threads and responses are written
//! outside. What is decided here holds for each line and each response on
//! its own, whatever else is in flight.

use crate::eviction::latest;
use crate::frame_cache::FrameCache;
use crate::text::same_text;
use crate::text::trim;
use crate::text::trimmed;
use vstd::prelude::*;

verus! {

/// Which of the two outputs a response goes to.
#[derive(Clone, Copy, Debug, PartialEq, Eq, Structural)]
pub enum Channel {
    /// The request gave a result.
    Success,
    /// The request failed.
    Failure,
}

/// The answer to one request.
#[derive(Debug, PartialEq, Eq)]
pub struct Response {
    pub channel: Channel,
    /// The token of the request that is answered.
    pub nonce: String,
    /// The result, or the error in serialised form.
    pub payload: Vec<u8>,
}

/// The bytes a request ended with, whichever way it ended.
pub open spec fn payload_of(outcome: Result<Vec<u8>, Vec<u8>>) -> Seq<u8> {
    match outcome {
        Ok(data) => data@,
        Err(error) => error@,
    }
}

/// The output that the answer to a request goes to.
pub open spec fn channel_of(outcome: Result<Vec<u8>, Vec<u8>>) -> Channel {
    match outcome {
        Ok(_) => Channel::Success,
        Err(_) => Channel::Failure,
    }
}

/// `response` answers the request with token `nonce` that ended in
/// `outcome`.
pub open spec fn answers(response: Response, nonce: Seq<char>, outcome: Result<
    Vec<u8>,
    Vec<u8>,
>) -> bool {
    &&& response.nonce@ == nonce
    &&& response.channel == channel_of(outcome)
    &&& response.payload@ == payload_of(outcome)
}

/// Each of two requests with different tokens is answered under its own
/// token and not under the other's, whatever the requests end in.
pub proof fn lemma_responses_keep_their_tokens(
    first: Response,
    first_nonce: Seq<char>,
    first_outcome: Result<Vec<u8>, Vec<u8>>,
    second: Response,
    second_nonce: Seq<char>,
    second_outcome: Result<Vec<u8>, Vec<u8>>,
)
    requires
        first_nonce != second_nonce,
        answers(first, first_nonce, first_outcome),
        answers(second, second_nonce, second_outcome),
    ensures
        first.nonce@ == first_nonce,
        second.nonce@ == second_nonce,
        first.nonce@ != second_nonce,
        second.nonce@ != first_nonce,
        first.nonce@ != second.nonce@,
{
}

impl Channel {
    /// The number the channel is written as: 0 for a result, 1 for a
    /// failure.
    pub fn status(&self) -> (code: u8)
        ensures
            code == match *self {
                Channel::Success => 0u8,
                Channel::Failure => 1u8,
            },
    {
        match self {
            Channel::Success => 0,
            Channel::Failure => 1,
        }
    }
}

/// The answer to the request with token `nonce`: its result on the success
/// channel, or its serialised error on the failure channel, under the
/// request's own token either way.
pub fn respond(nonce: String, outcome: Result<Vec<u8>, Vec<u8>>) -> (response: Response)
    ensures
        answers(response, nonce@, outcome),
{
    match outcome {
        Ok(data) => Response { channel: Channel::Success, nonce, payload: data },
        Err(error) => Response { channel: Channel::Failure, nonce, payload: error },
    }
}

/// Ends a request: builds its answer as `respond` does and then runs the
/// eviction pass, which leaves the cache with the `frames_to_keep` entries
/// that were used last.
pub fn complete_request(
    nonce: String,
    outcome: Result<Vec<u8>, Vec<u8>>,
    cache: &mut FrameCache,
    frames_to_keep: usize,
) -> (response: Response)
    requires
        old(cache).wf(),
    ensures
        final(cache).wf(),
        answers(response, nonce@, outcome),
        final(cache)@.items == latest(old(cache)@.items, frames_to_keep as nat),
        final(cache)@.items.len() <= frames_to_keep,
        final(cache)@.last_frame == old(cache)@.last_frame,
        final(cache)@.next_id == old(cache)@.next_id,
{
    let response = respond(nonce, outcome);
    cache.keep_only_latest_frames(frames_to_keep);
    response
}

/// Where the reader of the request stream stands.
#[derive(Clone, Copy, Debug, PartialEq, Eq, Structural)]
pub enum DispatcherState {
    /// Waiting for the next line.
    Reading,
    /// A line is being handed to the workers.
    Dispatching,
    /// The stream ended, by its last line or by a failure to read.
    Stopped,
    /// A line was no request: the stream cannot be trusted any more.
    Failed,
}

/// What happened to the reader.
#[derive(Debug, PartialEq, Eq)]
pub enum InputEvent {
    /// A line was read.
    Line(String),
    /// Reading failed.
    ReadFailed,
    /// The line was a request and the workers have it.
    Submitted,
    /// The line was no request.
    Malformed,
}

/// What the reader does next.
#[derive(Debug, PartialEq, Eq)]
pub enum DispatcherAction {
    /// Read the next line.
    ReadLine,
    /// Parse this text as a request and hand it to the workers, without
    /// waiting for its answer.
    Submit(String),
    /// Stop reading; the process ends in good order.
    Stop,
    /// Stop reading; the process ends with a protocol error.
    Abort,
}

/// The line that ends the request stream.
pub open spec fn is_last_line(line: Seq<char>) -> bool {
    trimmed(line) == "EOF"@
}

/// What `dispatch` does, as a relation between the state and the event it
/// is given and the state and the action it returns.
///
/// A line is taken without the white space around it. The line `EOF` and a
/// failure to read stop the reader; any other line is submitted, and the
/// reader goes back to reading once the workers have it. A line that is no
/// request ends everything, and so does an event out of turn. A reader that
/// has stopped or failed stays so.
pub open spec fn is_dispatch(
    state: DispatcherState,
    event: InputEvent,
    next: DispatcherState,
    action: DispatcherAction,
) -> bool {
    match state {
        DispatcherState::Reading => match event {
            InputEvent::Line(line) => if is_last_line(line@) {
                next == DispatcherState::Stopped && action is Stop
            } else {
                &&& next == DispatcherState::Dispatching
                &&& action matches DispatcherAction::Submit(text)
                &&& text@ == trimmed(line@)
            },
            InputEvent::ReadFailed => next == DispatcherState::Stopped && action is Stop,
            _ => next == DispatcherState::Failed && action is Abort,
        },
        DispatcherState::Dispatching => match event {
            InputEvent::Submitted => next == DispatcherState::Reading && action is ReadLine,
            _ => next == DispatcherState::Failed && action is Abort,
        },
        DispatcherState::Stopped => next == DispatcherState::Stopped && action is Stop,
        DispatcherState::Failed => next == DispatcherState::Failed && action is Abort,
    }
}

/// One step of the reader: see `is_dispatch`.
pub fn dispatch(state: DispatcherState, event: InputEvent) -> (next: (
    DispatcherState,
    DispatcherAction,
))
    ensures
        is_dispatch(state, event, next.0, next.1),
{
    match state {
        DispatcherState::Reading => match event {
            InputEvent::Line(line) => {
                let text = trim(line.as_str());
                if same_text(text.as_str(), "EOF") {
                    (DispatcherState::Stopped, DispatcherAction::Stop)
                } else {
                    (DispatcherState::Dispatching, DispatcherAction::Submit(text))
                }
            },
            InputEvent::ReadFailed => (DispatcherState::Stopped, DispatcherAction::Stop),
            _ => (DispatcherState::Failed, DispatcherAction::Abort),
        },
        DispatcherState::Dispatching => match event {
            InputEvent::Submitted => (DispatcherState::Reading, DispatcherAction::ReadLine),
            _ => (DispatcherState::Failed, DispatcherAction::Abort),
        },
        DispatcherState::Stopped => (DispatcherState::Stopped, DispatcherAction::Stop),
        DispatcherState::Failed => (DispatcherState::Failed, DispatcherAction::Abort),
    }
}

/// The request that a process is started with: its first argument after
/// the program's name, if it has one.
pub fn first_argument(args: &Vec<String>) -> (input: Option<&String>)
    ensures
        match input {
            Some(text) => args@.len() >= 2 && *text == args@[1],
            None => args@.len() < 2,
        },
{
    if args.len() >= 2 {
        Some(&args[1])
    } else {
        None
    }
}

} // verus!
