//! The store of decoded frames that every session and every request shares.
//!
//! Entries stand in the order they were added. Identifiers come from a
//! counter that only grows, so an identifier names one entry for good.

use crate::clock::get_time;
use crate::clock::ClockError;
use crate::eviction::is_oldest_at;
use crate::eviction::latest;
use crate::eviction::lemma_all_survive;
use crate::eviction::lemma_drop_oldest;
use crate::eviction::newer;
use crate::scalable_frame::ScalableFrame;
use crate::scalable_frame::ScalableFrameView;
use vstd::prelude::*;

verus! {

/// One decoded frame in the cache.
#[derive(Debug, PartialEq, Eq)]
pub struct FrameCacheItem {
    /// Timestamp the decoder reported for the frame, in stream time units.
    pub resolved_pts: i64,
    pub frame: ScalableFrame,
    pub id: usize,
    /// Position the request asked for when this frame was decoded.
    pub asked_time: i64,
    /// When the entry was last added or served, in milliseconds.
    pub last_used: u128,
}

/// What a `FrameCacheItem` holds, as values.
pub struct FrameCacheItemView {
    pub resolved_pts: i64,
    pub frame: ScalableFrameView,
    pub id: usize,
    pub asked_time: i64,
    pub last_used: u128,
}

impl View for FrameCacheItem {
    type V = FrameCacheItemView;

    open spec fn view(&self) -> FrameCacheItemView {
        FrameCacheItemView {
            resolved_pts: self.resolved_pts,
            frame: self.frame@,
            id: self.id,
            asked_time: self.asked_time,
            last_used: self.last_used,
        }
    }
}

/// The frame cache.
pub struct FrameCache {
    items: Vec<FrameCacheItem>,
    last_frame: Option<usize>,
    next_id: usize,
}

/// What a `FrameCache` holds, as values.
pub struct FrameCacheView {
    /// The entries, oldest insertion first.
    pub items: Seq<FrameCacheItemView>,
    /// Identifier of the frame to serve past the end of the stream.
    pub last_frame: Option<usize>,
    /// The identifier the next entry will get.
    pub next_id: usize,
}

impl View for FrameCache {
    type V = FrameCacheView;

    closed spec fn view(&self) -> FrameCacheView {
        FrameCacheView {
            items: self.items@.map_values(|item: FrameCacheItem| item@),
            last_frame: self.last_frame,
            next_id: self.next_id,
        }
    }
}

/// Identifiers rise with insertion order and lie below the counter: no two
/// entries share one, and none that was given will be given again.
pub open spec fn is_valid(v: FrameCacheView) -> bool {
    &&& forall|i: int| 0 <= i < v.items.len() ==> (#[trigger] v.items[i]).id < v.next_id
    &&& forall|i: int, j: int|
        #![trigger v.items[i], v.items[j]]
        0 <= i < j < v.items.len() ==> v.items[i].id < v.items[j].id
}

/// Distance between a frame's timestamp and a requested position.
pub open spec fn gap(pts: i64, position: i64) -> nat {
    if pts >= position {
        (pts - position) as nat
    } else {
        (position - pts) as nat
    }
}

/// Entry `i` is the frozen last frame and `position` lies past it.
pub open spec fn is_frozen_at(v: FrameCacheView, position: i64, i: int) -> bool {
    &&& 0 <= i < v.items.len()
    &&& v.last_frame == Some(v.items[i].id)
    &&& v.items[i].resolved_pts < position
}

/// The cache holds its frozen last frame, and `position` lies past it.
pub open spec fn has_frozen(v: FrameCacheView, position: i64) -> bool {
    exists|i: int| is_frozen_at(v, position, i)
}

/// No entry is nearer to `position` than entry `i`, and none added after it
/// is as near.
pub open spec fn is_closest_at(v: FrameCacheView, position: i64, i: int) -> bool {
    &&& 0 <= i < v.items.len()
    &&& forall|j: int|
        0 <= j < v.items.len() ==> gap(v.items[i].resolved_pts, position) <= gap(
            (#[trigger] v.items[j]).resolved_pts,
            position,
        )
    &&& forall|j: int|
        i < j < v.items.len() ==> gap(v.items[i].resolved_pts, position) < gap(
            (#[trigger] v.items[j]).resolved_pts,
            position,
        )
}

/// Entry `i` is the one a request for `position` is served with: the frozen
/// last frame where the position lies past it, and otherwise the nearest
/// entry, the later of two equally near, if it is within `threshold`.
pub open spec fn is_match_at(v: FrameCacheView, position: i64, threshold: i64, i: int) -> bool {
    ||| is_frozen_at(v, position, i)
    ||| {
        &&& !has_frozen(v, position)
        &&& is_closest_at(v, position, i)
        &&& gap(v.items[i].resolved_pts, position) <= threshold
    }
}

/// Index of the entry that serves `position`, if one does.
pub open spec fn matching_index(v: FrameCacheView, position: i64, threshold: i64) -> Option<int> {
    if exists|i: int| is_match_at(v, position, threshold, i) {
        Some(choose|i: int| is_match_at(v, position, threshold, i))
    } else {
        None
    }
}

/// Identifier of the entry that serves `position`, if one does.
pub open spec fn lookup_id(v: FrameCacheView, position: i64, threshold: i64) -> Option<usize> {
    match matching_index(v, position, threshold) {
        Some(i) => Some(v.items[i].id),
        None => None,
    }
}

/// The cache with entry `i` marked as used at `now`.
pub open spec fn touched(v: FrameCacheView, i: int, now: u128) -> FrameCacheView {
    FrameCacheView {
        items: v.items.update(i, FrameCacheItemView { last_used: now, ..v.items[i] }),
        ..v
    }
}

/// The cache after a lookup at `now`: the entry that was served is marked
/// as used, and nothing else changes.
pub open spec fn after_lookup(
    v: FrameCacheView,
    position: i64,
    threshold: i64,
    now: u128,
) -> FrameCacheView {
    match matching_index(v, position, threshold) {
        Some(i) => touched(v, i, now),
        None => v,
    }
}

/// The cache with one more entry, which takes the next identifier.
pub open spec fn with_item(
    v: FrameCacheView,
    resolved_pts: i64,
    asked_time: i64,
    frame: ScalableFrameView,
    now: u128,
) -> FrameCacheView {
    FrameCacheView {
        items: v.items.push(
            FrameCacheItemView {
                resolved_pts,
                frame,
                id: v.next_id,
                asked_time,
                last_used: now,
            },
        ),
        last_frame: v.last_frame,
        next_id: (v.next_id + 1) as usize,
    }
}

/// No entry has a later timestamp than entry `i`, and none added before it
/// has the same.
pub open spec fn is_biggest_at(v: FrameCacheView, i: int) -> bool {
    &&& 0 <= i < v.items.len()
    &&& forall|j: int|
        0 <= j < v.items.len() ==> (#[trigger] v.items[j]).resolved_pts <= v.items[i].resolved_pts
    &&& forall|j: int| 0 <= j < i ==> (#[trigger] v.items[j]).resolved_pts < v.items[i].resolved_pts
}

/// Identifier of the entry with the latest timestamp, the first added of
/// several; none in an empty cache.
pub open spec fn biggest_id(v: FrameCacheView) -> Option<usize> {
    if exists|i: int| is_biggest_at(v, i) {
        Some(v.items[choose|i: int| is_biggest_at(v, i)].id)
    } else {
        None
    }
}

/// One entry at most serves a position.
pub proof fn lemma_match_unique(v: FrameCacheView, position: i64, threshold: i64, i: int, j: int)
    requires
        is_valid(v),
        is_match_at(v, position, threshold, i),
        is_match_at(v, position, threshold, j),
    ensures
        i == j,
{
    if is_frozen_at(v, position, i) && is_frozen_at(v, position, j) {
        if i < j {
            assert(v.items[i].id < v.items[j].id);
        } else if j < i {
            assert(v.items[j].id < v.items[i].id);
        }
    } else if !is_frozen_at(v, position, i) && !is_frozen_at(v, position, j) {
        if i < j {
            assert(gap(v.items[j].resolved_pts, position) <= gap(
                v.items[i].resolved_pts,
                position,
            ));
        } else if j < i {
            assert(gap(v.items[i].resolved_pts, position) <= gap(
                v.items[j].resolved_pts,
                position,
            ));
        }
    }
}

/// The entry found at index `i` is the one the lookup names.
pub proof fn lemma_match_is_lookup(v: FrameCacheView, position: i64, threshold: i64, i: int)
    requires
        is_valid(v),
        is_match_at(v, position, threshold, i),
    ensures
        matching_index(v, position, threshold) == Some(i),
        lookup_id(v, position, threshold) == Some(v.items[i].id),
{
    let chosen = choose|k: int| is_match_at(v, position, threshold, k);
    lemma_match_unique(v, position, threshold, i, chosen);
}

/// One entry at most has the latest timestamp in the sense of
/// `is_biggest_at`.
pub proof fn lemma_biggest_unique(v: FrameCacheView, i: int, j: int)
    requires
        is_biggest_at(v, i),
        is_biggest_at(v, j),
    ensures
        i == j,
{
    if i < j {
        assert(v.items[i].resolved_pts < v.items[j].resolved_pts);
    } else if j < i {
        assert(v.items[j].resolved_pts < v.items[i].resolved_pts);
    }
}

/// A lookup keeps the cache in order.
pub proof fn lemma_lookup_keeps_valid(v: FrameCacheView, position: i64, threshold: i64, now: u128)
    requires
        is_valid(v),
    ensures
        is_valid(after_lookup(v, position, threshold, now)),
        after_lookup(v, position, threshold, now).items.len() == v.items.len(),
        after_lookup(v, position, threshold, now).next_id == v.next_id,
        after_lookup(v, position, threshold, now).last_frame == v.last_frame,
{
    match matching_index(v, position, threshold) {
        Some(i) => {
            let after = touched(v, i, now);
            assert(0 <= i < v.items.len());
            assert forall|k: int| 0 <= k < after.items.len() implies (#[trigger] after.items[k]).id
                == v.items[k].id by {}
        },
        None => {},
    }
}

/// Adding an entry keeps the cache in order while identifiers are left.
pub proof fn lemma_with_item_keeps_valid(
    v: FrameCacheView,
    resolved_pts: i64,
    asked_time: i64,
    frame: ScalableFrameView,
    now: u128,
)
    requires
        is_valid(v),
        v.next_id < usize::MAX,
    ensures
        is_valid(with_item(v, resolved_pts, asked_time, frame, now)),
{
    let after = with_item(v, resolved_pts, asked_time, frame, now);
    assert forall|i: int, j: int| 0 <= i < j < after.items.len() implies (
    #[trigger] after.items[i]).id < (#[trigger] after.items[j]).id by {
        assert(after.items[i] == v.items[i]);
        if j < v.items.len() {
            assert(after.items[j] == v.items[j]);
        }
    }
    assert forall|i: int| 0 <= i < after.items.len() implies (#[trigger] after.items[i]).id
        < after.next_id by {
        if i < v.items.len() {
            assert(after.items[i] == v.items[i]);
        }
    }
}

fn gap_of(pts: i64, position: i64) -> (distance: u128)
    ensures
        distance == gap(pts, position),
{
    if pts >= position {
        (pts as i128 - position as i128) as u128
    } else {
        (position as i128 - pts as i128) as u128
    }
}

fn within(distance: u128, threshold: i64) -> (near: bool)
    ensures
        near == (distance <= threshold),
{
    if threshold < 0 {
        false
    } else {
        distance <= threshold as u128
    }
}

impl FrameCache {
    /// The invariant of the cache.
    pub open spec fn wf(&self) -> bool {
        is_valid(self@)
    }

    /// An empty cache whose first entry will get identifier 0.
    pub fn new() -> (cache: FrameCache)
        ensures
            cache.wf(),
            cache@.items.len() == 0,
            cache@.last_frame.is_none(),
            cache@.next_id == 0,
    {
        FrameCache { items: Vec::new(), last_frame: None, next_id: 0 }
    }

    /// An empty cache whose first entry will get identifier `first_id`: for
    /// a process that goes on counting where another one stopped.
    pub fn starting_at(first_id: usize) -> (cache: FrameCache)
        ensures
            cache.wf(),
            cache@.items.len() == 0,
            cache@.last_frame.is_none(),
            cache@.next_id == first_id,
    {
        FrameCache { items: Vec::new(), last_frame: None, next_id: first_id }
    }

    /// Number of entries.
    pub fn len(&self) -> (count: usize)
        ensures
            count == self@.items.len(),
    {
        self.items.len()
    }

    /// The frame to serve past the end of the stream, if one was marked.
    pub fn last_frame(&self) -> (id: Option<usize>)
        ensures
            id == self@.last_frame,
    {
        self.last_frame
    }

    /// Appends a frame under the next free identifier and returns that
    /// identifier; leaves the cache as it is, and returns `None`, once the
    /// identifiers are used up.
    pub fn add_item(
        &mut self,
        resolved_pts: i64,
        asked_time: i64,
        frame: ScalableFrame,
        now: u128,
    ) -> (id: Option<usize>)
        requires
            old(self).wf(),
        ensures
            final(self).wf(),
            old(self)@.next_id < usize::MAX ==> id == Some(old(self)@.next_id) && final(self)@
                == with_item(old(self)@, resolved_pts, asked_time, frame@, now),
            old(self)@.next_id == usize::MAX ==> id.is_none() && final(self)@ == old(self)@,
    {
        if self.next_id == usize::MAX {
            return None;
        }
        let id = self.next_id;
        let ghost before = self@;
        let item = FrameCacheItem { resolved_pts, frame, id, asked_time, last_used: now };
        self.items.push(item);
        self.next_id = id + 1;
        assert(self@.items =~= with_item(before, resolved_pts, asked_time, frame@, now).items);
        Some(id)
    }

    /// The entry with identifier `id`, if the cache holds it.
    pub fn get_item(&self, id: usize) -> (found: Option<&FrameCacheItem>)
        ensures
            match found {
                Some(item) => exists|i: int|
                    0 <= i < self@.items.len() && #[trigger] self@.items[i] == item@ && item.id
                        == id,
                None => forall|i: int|
                    0 <= i < self@.items.len() ==> (#[trigger] self@.items[i]).id != id,
            },
    {
        let mut i: usize = 0;
        while i < self.items.len()
            invariant
                i <= self.items.len(),
                forall|k: int| 0 <= k < i ==> (#[trigger] self@.items[k]).id != id,
            decreases self.items.len() - i,
        {
            if self.items[i].id == id {
                assert(self@.items[i as int] == self.items[i as int]@);
                return Some(&self.items[i]);
            }
            i += 1;
        }
        None
    }

    /// Marks entry `id` as the frame to serve for every position past it.
    pub fn set_last_frame(&mut self, id: usize)
        ensures
            final(self)@ == (FrameCacheView { last_frame: Some(id), ..old(self)@ }),
    {
        self.last_frame = Some(id);
    }

    /// Marks the entry with the latest timestamp as the frame to serve for
    /// every position past it; with no entry, no frame is marked.
    pub fn set_biggest_frame_as_last_frame(&mut self)
        ensures
            final(self)@ == (FrameCacheView { last_frame: biggest_id(old(self)@), ..old(self)@ }),
    {
        let n = self.items.len();
        if n == 0 {
            self.last_frame = None;
            return ;
        }
        let mut biggest: usize = 0;
        let mut i: usize = 1;
        while i < n
            invariant
                n == self.items.len(),
                1 <= i <= n,
                biggest < i,
                *self == *old(self),
                forall|j: int|
                    0 <= j < i ==> (#[trigger] self@.items[j]).resolved_pts
                        <= self@.items[biggest as int].resolved_pts,
                forall|j: int|
                    0 <= j < biggest ==> (#[trigger] self@.items[j]).resolved_pts
                        < self@.items[biggest as int].resolved_pts,
            decreases n - i,
        {
            if self.items[i].resolved_pts > self.items[biggest].resolved_pts {
                biggest = i;
            }
            i += 1;
        }
        proof {
            let v = self@;
            assert(is_biggest_at(v, biggest as int));
            let chosen = choose|k: int| is_biggest_at(v, k);
            lemma_biggest_unique(v, biggest as int, chosen);
        }
        self.last_frame = Some(self.items[biggest].id);
    }

    /// Serves `position` as of `now`: the frozen last frame where the
    /// position lies past it, and otherwise the entry nearest to `position`
    /// if it lies within `threshold`, the later added of two equally near.
    /// The entry served is marked as used at `now`.
    pub fn get_item_id_at(&mut self, position: i64, threshold: i64, now: u128) -> (found: Option<
        usize,
    >)
        requires
            old(self).wf(),
        ensures
            final(self).wf(),
            found == lookup_id(old(self)@, position, threshold),
            final(self)@ == after_lookup(old(self)@, position, threshold, now),
    {
        let n = self.items.len();
        let ghost v = self@;
        let mut frozen: Option<usize> = None;
        let mut best: usize = 0;
        let mut best_gap: u128 = 0;
        let mut i: usize = 0;
        while i < n
            invariant
                n == self.items.len(),
                i <= n,
                *self == *old(self),
                v == self@,
                match frozen {
                    Some(f) => is_frozen_at(v, position, f as int),
                    None => forall|j: int| 0 <= j < i ==> !is_frozen_at(v, position, j),
                },
                i > 0 ==> best < i && best_gap == gap(v.items[best as int].resolved_pts, position),
                forall|j: int|
                    0 <= j < i ==> best_gap <= gap((#[trigger] v.items[j]).resolved_pts, position),
                forall|j: int|
                    best < j < i ==> best_gap < gap((#[trigger] v.items[j]).resolved_pts, position),
            decreases n - i,
        {
            let item = &self.items[i];
            if frozen.is_none() && item.resolved_pts < position {
                match self.last_frame {
                    Some(last) => {
                        if last == item.id {
                            frozen = Some(i);
                        }
                    },
                    None => {},
                }
            }
            let distance = gap_of(item.resolved_pts, position);
            if i == 0 || distance <= best_gap {
                best = i;
                best_gap = distance;
            }
            i += 1;
        }
        let chosen: Option<usize> = match frozen {
            Some(f) => Some(f),
            None => {
                if n > 0 && within(best_gap, threshold) {
                    Some(best)
                } else {
                    None
                }
            },
        };
        match chosen {
            Some(k) => {
                proof {
                    assert(is_match_at(v, position, threshold, k as int));
                    lemma_match_is_lookup(v, position, threshold, k as int);
                }
                let id = self.items[k].id;
                self.items[k].last_used = now;
                assert(self@.items =~= touched(v, k as int, now).items);
                Some(id)
            },
            None => {
                proof {
                    assert forall|k: int| !is_match_at(v, position, threshold, k) by {
                        if is_match_at(v, position, threshold, k) {
                            assert(best_gap <= gap(v.items[k].resolved_pts, position));
                        }
                    }
                }
                None
            },
        }
    }

    /// Keeps the `n` entries that were used last, in the order they stand,
    /// and drops the others. Of entries used at the same moment the one
    /// with the higher identifier counts as used later.
    pub fn keep_only_latest_frames(&mut self, n: usize)
        requires
            old(self).wf(),
        ensures
            final(self).wf(),
            final(self)@.items == latest(old(self)@.items, n as nat),
            final(self)@.items.len() == if old(self)@.items.len() <= n {
                old(self)@.items.len()
            } else {
                n as nat
            },
            final(self)@.last_frame == old(self)@.last_frame,
            final(self)@.next_id == old(self)@.next_id,
    {
        while self.items.len() > n
            invariant
                self.wf(),
                latest(self@.items, n as nat) == latest(old(self)@.items, n as nat),
                self@.last_frame == old(self)@.last_frame,
                self@.next_id == old(self)@.next_id,
                self@.items.len() <= old(self)@.items.len(),
                old(self)@.items.len() <= n ==> self@.items.len() == old(self)@.items.len(),
                old(self)@.items.len() > n ==> self@.items.len() >= n,
            decreases self.items.len(),
        {
            let oldest = self.oldest_index();
            let ghost before = self@;
            proof {
                lemma_drop_oldest(before.items, n as nat, oldest as int);
            }
            let _ = self.items.remove(oldest);
            assert(self@.items =~= before.items.remove(oldest as int));
        }
        proof {
            lemma_all_survive(self@.items, n as nat);
        }
    }

    /// Index of the entry that every other one outranks.
    fn oldest_index(&self) -> (oldest: usize)
        requires
            self.wf(),
            self@.items.len() > 0,
        ensures
            is_oldest_at(self@.items, oldest as int),
    {
        let n = self.items.len();
        let mut oldest: usize = 0;
        let mut i: usize = 1;
        while i < n
            invariant
                self.wf(),
                n == self.items.len(),
                1 <= i <= n,
                oldest < i,
                forall|j: int|
                    0 <= j < i && j != oldest ==> newer(
                        #[trigger] self@.items[j],
                        self@.items[oldest as int],
                    ),
            decreases n - i,
        {
            let candidate = &self.items[i];
            let held = &self.items[oldest];
            assert(self@.items[i as int] == candidate@);
            assert(self@.items[oldest as int] == held@);
            assert(candidate.id != held.id);
            if candidate.last_used < held.last_used || (candidate.last_used == held.last_used
                && candidate.id < held.id) {
                oldest = i;
            }
            i += 1;
        }
        oldest
    }

    /// Serves `position` as of the system clock's reading: see
    /// `get_item_id_at`. Where the clock has no reading, the cache stays as
    /// it is and the clock's error is returned.
    pub fn get_item_id(&mut self, position: i64, threshold: i64) -> (found: Result<
        Option<usize>,
        ClockError,
    >)
        requires
            old(self).wf(),
        ensures
            final(self).wf(),
            match found {
                Ok(id) => id == lookup_id(old(self)@, position, threshold) && exists|now: u128|
                    final(self)@ == after_lookup(old(self)@, position, threshold, now),
                Err(_) => final(self)@ == old(self)@,
            },
    {
        match get_time() {
            Ok(now) => Ok(self.get_item_id_at(position, threshold, now)),
            Err(error) => Err(error),
        }
    }
}

} // verus!
