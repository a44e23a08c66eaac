//! The sessions that are open, one for each source.
//!
//! A source is known by its path and by whether its alpha channel is kept.
//! Requests for the same source share one session, so that a source is
//! opened and decoded once.

use crate::clock::get_time;
use crate::clock::ClockError;
use crate::frame_cache::FrameCache;
use crate::opened_stream::reaches;
use crate::opened_stream::step;
use crate::opened_stream::step_on;
use crate::opened_stream::DecodeAction;
use crate::opened_stream::DecodeEvent;
use crate::opened_stream::FrameRequest;
use crate::opened_stream::OpenedStream;
use crate::text::same_text;
use vstd::prelude::*;

verus! {

/// The sessions that are open.
pub struct OpenedVideoManager {
    videos: Vec<OpenedStream>,
}

impl View for OpenedVideoManager {
    type V = Seq<OpenedStream>;

    closed spec fn view(&self) -> Seq<OpenedStream> {
        self.videos@
    }
}

/// `stream` is the session for the source `src`, opened with or without
/// transparency as `transparent` says.
pub open spec fn serves(stream: OpenedStream, src: Seq<char>, transparent: bool) -> bool {
    stream.src@ == src && stream.transparent == transparent
}

/// No two sessions are for the same source.
pub open spec fn one_session_each(videos: Seq<OpenedStream>) -> bool {
    forall|i: int, j: int|
        #![trigger videos[i], videos[j]]
        0 <= i < j < videos.len() ==> !serves(videos[i], videos[j].src@, videos[j].transparent)
}

/// No session is for the source.
pub open spec fn is_unknown(videos: Seq<OpenedStream>, src: Seq<char>, transparent: bool) -> bool {
    forall|i: int| 0 <= i < videos.len() ==> !serves(#[trigger] videos[i], src, transparent)
}

/// A step leaves a session with the source it was opened for.
pub proof fn lemma_step_keeps_source(
    session: OpenedStream,
    request: FrameRequest,
    cache: crate::frame_cache::FrameCacheView,
    event: DecodeEvent,
    now: u128,
)
    ensures
        step(session, request, cache, event, now).session.src == session.src,
        step(session, request, cache, event, now).session.original_src == session.original_src,
        step(session, request, cache, event, now).session.transparent == session.transparent,
{
}

impl OpenedVideoManager {
    /// The invariant of the registry.
    pub open spec fn wf(&self) -> bool {
        one_session_each(self@)
    }

    /// A registry without sessions.
    pub fn new() -> (manager: OpenedVideoManager)
        ensures
            manager.wf(),
            manager@.len() == 0,
    {
        OpenedVideoManager { videos: Vec::new() }
    }

    /// Number of sessions.
    pub fn len(&self) -> (count: usize)
        ensures
            count == self@.len(),
    {
        self.videos.len()
    }

    /// Index of the session for a source, if the source is open.
    pub fn find(&self, src: &str, transparent: bool) -> (found: Option<usize>)
        ensures
            match found {
                Some(index) => index < self@.len() && serves(
                    self@[index as int],
                    src@,
                    transparent,
                ),
                None => is_unknown(self@, src@, transparent),
            },
    {
        let mut i: usize = 0;
        while i < self.videos.len()
            invariant
                i <= self.videos.len(),
                forall|k: int| 0 <= k < i ==> !serves(#[trigger] self@[k], src@, transparent),
            decreases self.videos.len() - i,
        {
            let video = &self.videos[i];
            if video.transparent == transparent && same_text(video.src.as_str(), src) {
                return Some(i);
            }
            i += 1;
        }
        None
    }

    /// Registers the session of a source that was just opened and returns
    /// its index. Where the source has a session already, that session
    /// stays, its index is returned and `stream` is dropped: however many
    /// callers open a source at once, they end up with one session.
    pub fn register(&mut self, stream: OpenedStream) -> (index: usize)
        requires
            old(self).wf(),
        ensures
            final(self).wf(),
            index < final(self)@.len(),
            serves(final(self)@[index as int], stream.src@, stream.transparent),
            is_unknown(old(self)@, stream.src@, stream.transparent) ==> index == old(self)@.len()
                && final(self)@ == old(self)@.push(stream),
            !is_unknown(old(self)@, stream.src@, stream.transparent) ==> final(self)@ == old(
                self,
            )@,
    {
        match self.find(stream.src.as_str(), stream.transparent) {
            Some(index) => index,
            None => {
                let index = self.videos.len();
                self.videos.push(stream);
                index
            },
        }
    }

    /// The session at `index`.
    pub fn session(&self, index: usize) -> (stream: &OpenedStream)
        requires
            index < self@.len(),
        ensures
            *stream == self@[index as int],
    {
        &self.videos[index]
    }

    /// One step of a request on the session at `index`, with the clock at
    /// `now`: see `OpenedStream::get_frame_at`. The other sessions stay as
    /// they are.
    pub fn get_frame_at(
        &mut self,
        index: usize,
        request: &mut FrameRequest,
        cache: &mut FrameCache,
        event: DecodeEvent,
        now: u128,
    ) -> (action: DecodeAction)
        requires
            old(self).wf(),
            index < old(self)@.len(),
            old(cache).wf(),
        ensures
            final(self).wf(),
            final(cache).wf(),
            final(self)@.len() == old(self)@.len(),
            forall|j: int|
                0 <= j < old(self)@.len() && j != index ==> #[trigger] final(self)@[j] == old(
                    self,
                )@[j],
            reaches(
                step(old(self)@[index as int], *old(request), old(cache)@, event, now),
                final(self)@[index as int],
                *final(request),
                final(cache)@,
                action,
            ),
    {
        proof {
            lemma_step_keeps_source(self@[index as int], *request, cache@, event, now);
        }
        let ghost before = self@;
        let action = self.videos[index].get_frame_at(request, cache, event, now);
        proof {
            let after = self@;
            assert forall|i: int, j: int| 0 <= i < j < after.len() implies !serves(
                #[trigger] after[i],
                (#[trigger] after[j]).src@,
                after[j].transparent,
            ) by {
                assert(after[i].src == before[i].src && after[i].transparent
                    == before[i].transparent);
                assert(after[j].src == before[j].src && after[j].transparent
                    == before[j].transparent);
                assert(!serves(before[i], before[j].src@, before[j].transparent));
            }
        }
        action
    }

    /// One step of a request on the session at `index`, by the system
    /// clock: see `OpenedStream::get_frame`. The other sessions stay as they
    /// are.
    pub fn get_frame(
        &mut self,
        index: usize,
        request: &mut FrameRequest,
        cache: &mut FrameCache,
        event: DecodeEvent,
    ) -> (action: DecodeAction)
        requires
            old(self).wf(),
            index < old(self)@.len(),
            old(cache).wf(),
        ensures
            final(self).wf(),
            final(cache).wf(),
            final(self)@.len() == old(self)@.len(),
            forall|j: int|
                0 <= j < old(self)@.len() && j != index ==> #[trigger] final(self)@[j] == old(
                    self,
                )@[j],
            exists|time: Result<u128, ClockError>|
                reaches(
                    #[trigger] step_on(
                        old(self)@[index as int],
                        *old(request),
                        old(cache)@,
                        event,
                        time,
                    ),
                    final(self)@[index as int],
                    *final(request),
                    final(cache)@,
                    action,
                ),
    {
        let ghost before = self@;
        let ghost asked = *request;
        let ghost held = cache@;
        let time = get_time();
        let action = match time {
            Ok(now) => self.get_frame_at(index, request, cache, event, now),
            Err(error) => {
                let action = self.videos[index].get_frame_on(request, cache, event, Err(error));
                assert(self@ =~= before);
                action
            },
        };
        assert(reaches(
            step_on(before[index as int], asked, held, event, time),
            self@[index as int],
            *request,
            cache@,
            action,
        ));
        action
    }
}

} // verus!
