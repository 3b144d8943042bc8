//! The per-video frame cache state machine and the registry of caches.
//!
//! A [`CachedDecoder`] is the state of one video at one output size: the
//! handles of buffered frames, what has happened to each frame index, the
//! indices claimed by window decodes, and the number of decodes in flight.
//! Each method is one short critical section of a frame request, of a window
//! decode or of the sweeper; the caller holds the lock around it and does the
//! waiting and the decoding in between.
use crate::accounting::{saturating_add, saturating_sub, CacheAccounting};
use crate::frame::{frame_fits, frame_len, generate_empty_frame, stall_frame};
use crate::future::SharedManualFuture;
use manual_future::{ManualFuture, ManualFutureCompleter};
use std::collections::{HashMap, HashSet};
use std::sync::Arc;
use vstd::prelude::*;

verus! {

broadcast use vstd::std_specs::hash::group_hash_axioms;

/// Number of consecutive frames one window decode covers at most.
pub const DECODE_CHUNK: u32 = 120;

/// What has happened to a frame index so far.
#[derive(Debug, Clone, Copy, PartialEq, Eq, Structural)]
pub enum FrameState {
    /// Never requested and never evicted.
    Unseen,
    /// Requested at least once.
    Waited,
    /// Evicted by the sweeper after it was decoded.
    Dropped,
}

/// How a request for a frame goes on after its first step.
pub enum FrameWait {
    /// The frame was requested or evicted before, so its handle may be gone
    /// for good: decode the frame again, on its own, outside the cache.
    Redecode,
    /// Wait for the frame's handle with this future.
    Await(ManualFuture<Arc<Vec<u8>>>),
}

/// Identifies one cached decoder: a video file at one output size.
#[derive(Debug, Clone, Hash)]
pub struct DecoderKey {
    pub path: String,
    pub width: u32,
    pub height: u32,
}

impl PartialEq for DecoderKey {
    fn eq(&self, other: &DecoderKey) -> (r: bool) {
        self.width == other.width && self.height == other.height && self.path == other.path
    }
}

impl Eq for DecoderKey {
}

impl vstd::std_specs::cmp::PartialEqSpecImpl for DecoderKey {
    open spec fn obeys_eq_spec() -> bool {
        true
    }

    open spec fn eq_spec(&self, other: &DecoderKey) -> bool {
        self.path@ == other.path@ && self.width == other.width && self.height == other.height
    }
}

/// The window that a request for `first` claims, given the indices already
/// claimed: `first..=last` holds no claimed index, is at most
/// [`DECODE_CHUNK`] long, and ends just before a claimed index, at the chunk
/// length, or at the largest index.
pub open spec fn claims_window(claimed: Set<u32>, first: u32, last: u32) -> bool {
    &&& first <= last
    &&& last < first + DECODE_CHUNK
    &&& forall|j: u32| first <= j <= last ==> !claimed.contains(j)
    &&& (last + 1 == first + DECODE_CHUNK || last == u32::MAX || claimed.contains(
        (last + 1) as u32,
    ))
}

/// The indices `first..=last`.
pub open spec fn index_range(first: u32, last: u32) -> Set<u32> {
    Set::new(|j: u32| first <= j <= last)
}

/// The cache state of one video at one output size.
pub struct CachedDecoder {
    path: String,
    width: u32,
    height: u32,
    frames: HashMap<u32, SharedManualFuture<Vec<u8>>>,
    frame_states: HashMap<u32, FrameState>,
    decoding_frames: HashSet<u32>,
    running_decode_tasks: usize,
    /// One more than the largest index that ever had a handle.
    top: u64,
}

impl CachedDecoder {
    /// The video file.
    pub closed spec fn path(&self) -> Seq<char> {
        self.path@
    }

    /// Output width in pixels.
    pub closed spec fn frame_width(&self) -> u32 {
        self.width
    }

    /// Output height in pixels.
    pub closed spec fn frame_height(&self) -> u32 {
        self.height
    }

    /// The handles of buffered frames, by index.
    pub closed spec fn frames(&self) -> Map<u32, SharedManualFuture<Vec<u8>>> {
        self.frames@
    }

    /// The recorded frame states; an index without one is [`FrameState::Unseen`].
    pub closed spec fn states(&self) -> Map<u32, FrameState> {
        self.frame_states@
    }

    /// Every index that a window decode has claimed so far.
    pub closed spec fn claimed(&self) -> Set<u32> {
        self.decoding_frames@
    }

    /// Number of window decodes in flight.
    pub closed spec fn running(&self) -> nat {
        self.running_decode_tasks as nat
    }

    /// The state of frame `i`.
    pub open spec fn state_of(&self, i: u32) -> FrameState {
        if self.states().contains_key(i) {
            self.states()[i]
        } else {
            FrameState::Unseen
        }
    }

    /// Whether frame `i` has a resolved handle.
    pub open spec fn has_resolved(&self, i: u32) -> bool {
        self.frames().contains_key(i) && self.frames()[i].resolved() is Some
    }

    /// The payload of frame `i`'s resolved handle.
    pub open spec fn payload(&self, i: u32) -> Vec<u8> {
        self.frames()[i].resolved()->Some_0
    }

    /// Whether the sweeper may evict frame `i`: it is decoded and nobody has
    /// asked for it yet.
    pub open spec fn evictable(&self, i: u32) -> bool {
        self.has_resolved(i) && self.state_of(i) == FrameState::Unseen
    }

    /// The state invariant: handles are well formed, decoded frames have the
    /// size of a frame, and a frame of that size fits in memory.
    pub closed spec fn wf(&self) -> bool {
        &&& frame_fits(self.width, self.height)
        &&& forall|i: u32| #[trigger]
            self.frames@.contains_key(i) ==> self.frames@[i].wf() && i < self.top
        &&& forall|i: u32|
            #[trigger] self.frames@.contains_key(i) && self.frames@[i].resolved() is Some
                ==> self.frames@[i].resolved()->Some_0@.len() == frame_len(
                self.width,
                self.height,
            )
        &&& self.top <= u32::MAX + 1
    }

    /// A cache for `key` with nothing buffered, requested or claimed.
    pub fn new(key: DecoderKey) -> (r: Self)
        requires
            frame_fits(key.width, key.height),
        ensures
            r.wf(),
            r.path() == key.path@,
            r.frame_width() == key.width,
            r.frame_height() == key.height,
            r.frames() == Map::<u32, SharedManualFuture<Vec<u8>>>::empty(),
            r.states() == Map::<u32, FrameState>::empty(),
            r.claimed() == Set::<u32>::empty(),
            r.running() == 0,
    {
        CachedDecoder {
            path: key.path,
            width: key.width,
            height: key.height,
            frames: HashMap::new(),
            frame_states: HashMap::new(),
            decoding_frames: HashSet::new(),
            running_decode_tasks: 0,
            top: 0,
        }
    }

    /// Output width in pixels.
    pub fn width(&self) -> (r: u32)
        ensures
            r == self.frame_width(),
    {
        self.width
    }

    /// Output height in pixels.
    pub fn height(&self) -> (r: u32)
        ensures
            r == self.frame_height(),
    {
        self.height
    }

    /// Number of window decodes in flight.
    pub fn running_decode_tasks(&self) -> (r: usize)
        ensures
            r == self.running(),
    {
        self.running_decode_tasks
    }

    /// The state of frame `frame_index`.
    pub fn frame_state(&self, frame_index: u32) -> (r: FrameState)
        ensures
            r == self.state_of(frame_index),
    {
        match self.frame_states.get(&frame_index) {
            Some(state) => *state,
            None => FrameState::Unseen,
        }
    }

    /// Whether frame `frame_index` has a handle, resolved or not.
    pub fn has_handle(&self, frame_index: u32) -> (r: bool)
        ensures
            r == self.frames().contains_key(frame_index),
    {
        self.frames.contains_key(&frame_index)
    }

    /// Claims the window of frames that a request for `frame_index` starts.
    ///
    /// Where the index is already claimed nothing changes and `None` comes
    /// back. Otherwise the window `frame_index..=last` of [`claims_window`] is
    /// claimed, one more decode counts as running, and `Some((frame_index,
    /// last))` tells the caller which frames to decode.
    pub fn claim_window(&mut self, frame_index: u32) -> (r: Option<(u32, u32)>)
        requires
            old(self).wf(),
            old(self).running() < usize::MAX,
        ensures
            final(self).wf(),
            final(self).frames() == old(self).frames(),
            final(self).states() == old(self).states(),
            final(self).path() == old(self).path(),
            final(self).frame_width() == old(self).frame_width(),
            final(self).frame_height() == old(self).frame_height(),
            old(self).claimed().contains(frame_index) ==> r is None && final(self).claimed()
                == old(self).claimed() && final(self).running() == old(self).running(),
            !old(self).claimed().contains(frame_index) ==> match r {
                Some((first, last)) => {
                    &&& first == frame_index
                    &&& claims_window(old(self).claimed(), first, last)
                    &&& final(self).claimed() == old(self).claimed().union(index_range(first, last))
                    &&& final(self).running() == old(self).running() + 1
                },
                None => false,
            },
    {
        if self.decoding_frames.contains(&frame_index) {
            return None;
        }
        let mut last: u32 = frame_index;
        while last - frame_index < DECODE_CHUNK - 1 && last < u32::MAX
            && !self.decoding_frames.contains(&(last + 1))
            invariant
                frame_index <= last,
                last < frame_index + DECODE_CHUNK,
                forall|j: u32| frame_index <= j <= last ==> !self.decoding_frames@.contains(j),
            decreases u32::MAX - last,
        {
            last = last + 1;
        }
        let ghost before = self.decoding_frames@;
        let mut f: u32 = frame_index;
        loop
            invariant_except_break
                frame_index <= f <= last,
                self.decoding_frames@ == before.union(Set::new(|j: u32| frame_index <= j < f)),
            invariant
                self.frames@ == old(self).frames@,
                self.frame_states@ == old(self).frame_states@,
                self.path@ == old(self).path@,
                self.width == old(self).width,
                self.height == old(self).height,
                self.top == old(self).top,
                self.running_decode_tasks == old(self).running_decode_tasks,
            ensures
                self.decoding_frames@ == before.union(index_range(frame_index, last)),
            decreases last - f,
        {
            self.decoding_frames.insert(f);
            if f == last {
                assert(self.decoding_frames@ =~= before.union(index_range(frame_index, last)));
                break;
            }
            assert(self.decoding_frames@ =~= before.union(
                Set::new(|j: u32| frame_index <= j < f + 1),
            ));
            f = f + 1;
        }
        self.running_decode_tasks = self.running_decode_tasks + 1;
        Some((frame_index, last))
    }

    /// Records a request for `frame_index` and returns the state it had
    /// before; the frame counts as [`FrameState::Waited`] from now on.
    pub fn begin_request(&mut self, frame_index: u32) -> (prior: FrameState)
        requires
            old(self).wf(),
        ensures
            final(self).wf(),
            prior == old(self).state_of(frame_index),
            final(self).states() == old(self).states().insert(frame_index, FrameState::Waited),
            final(self).frames() == old(self).frames(),
            final(self).claimed() == old(self).claimed(),
            final(self).running() == old(self).running(),
            final(self).path() == old(self).path(),
            final(self).frame_width() == old(self).frame_width(),
            final(self).frame_height() == old(self).frame_height(),
    {
        let prior = match self.frame_states.get(&frame_index) {
            Some(state) => *state,
            None => FrameState::Unseen,
        };
        self.frame_states.insert(frame_index, FrameState::Waited);
        prior
    }

    /// A future for frame `frame_index`, from its handle; a pending handle is
    /// created first where the frame has none yet.
    pub fn subscribe(&mut self, frame_index: u32) -> (r: ManualFuture<Arc<Vec<u8>>>)
        requires
            old(self).wf(),
        ensures
            final(self).wf(),
            final(self).frames().dom() == old(self).frames().dom().insert(frame_index),
            forall|i: u32|
                i != frame_index && #[trigger] old(self).frames().contains_key(i) ==> final(self).frames()[i] == old(self).frames()[i],
            old(self).frames().contains_key(frame_index) ==> final(self).frames()[frame_index].resolved()
                == old(self).frames()[frame_index].resolved(),
            !old(self).frames().contains_key(frame_index) ==> final(self).frames()[frame_index].resolved() is None
                && final(self).frames()[frame_index].pending() == 1,
            final(self).states() == old(self).states(),
            final(self).claimed() == old(self).claimed(),
            final(self).running() == old(self).running(),
            final(self).path() == old(self).path(),
            final(self).frame_width() == old(self).frame_width(),
            final(self).frame_height() == old(self).frame_height(),
    {
        let mut handle = match self.frames.remove(&frame_index) {
            Some(handle) => handle,
            None => SharedManualFuture::new(),
        };
        let future = handle.get();
        self.frames.insert(frame_index, handle);
        if self.top <= frame_index as u64 {
            self.top = frame_index as u64 + 1;
        }
        assert(self.frames@.dom() =~= old(self).frames@.dom().insert(frame_index));
        future
    }

    /// The frame to show for `frame_index` when its own frame never came:
    /// the payload of the nearest earlier index with a resolved handle, or
    /// the stall placeholder where there is none.
    pub fn recover_stall(&self, frame_index: u32) -> (r: Arc<Vec<u8>>)
        requires
            self.wf(),
        ensures
            (exists|j: u32| j < frame_index && self.has_resolved(j)) ==> exists|j: u32|
                {
                    &&& j < frame_index
                    &&& self.has_resolved(j)
                    &&& self.payload(j) == *r
                    &&& forall|k: u32| j < k < frame_index ==> !self.has_resolved(k)
                },
            !(exists|j: u32| j < frame_index && self.has_resolved(j)) ==> r@ == stall_frame(
                self.frame_width(),
                self.frame_height(),
            ),
            r@.len() == frame_len(self.frame_width(), self.frame_height()),
    {
        let mut j: u32 = frame_index;
        while j > 0
            invariant
                j <= frame_index,
                self.wf(),
                forall|k: u32| j <= k < frame_index ==> !self.has_resolved(k),
            decreases j,
        {
            j = j - 1;
            match self.frames.get(&j) {
                Some(handle) => match handle.get_now() {
                    Some(frame) => {
                        assert(j < frame_index && self.has_resolved(j));
                        assert(self.payload(j) == *frame);
                        return frame;
                    },
                    None => {},
                },
                None => {},
            }
        }
        Arc::new(generate_empty_frame(self.width, self.height))
    }

    /// What a waiter on `frame_index` does when its wait timed out: wait on
    /// (`None`) while any window decode is running, else give up on the frame
    /// and take the one [`Self::recover_stall`] picks.
    pub fn on_wait_timeout(&self, frame_index: u32) -> (r: Option<Arc<Vec<u8>>>)
        requires
            self.wf(),
        ensures
            self.running() > 0 ==> r is None,
            self.running() == 0 ==> match r {
                Some(frame) => {
                    &&& frame@.len() == frame_len(self.frame_width(), self.frame_height())
                    &&& (exists|j: u32| j < frame_index && self.has_resolved(j)) ==> exists|j: u32|
                        j < frame_index && self.has_resolved(j) && self.payload(j) == *frame && forall|
                            k: u32,
                        | j < k < frame_index ==> !self.has_resolved(k)
                    &&& !(exists|j: u32| j < frame_index && self.has_resolved(j)) ==> frame@
                        == stall_frame(self.frame_width(), self.frame_height())
                },
                None => false,
            },
    {
        if self.running_decode_tasks > 0 {
            None
        } else {
            Some(self.recover_stall(frame_index))
        }
    }

    /// Hands a frame over to its requester: every index but 0 gives up its
    /// handle and its bytes leave the budget. Index 0 keeps its handle,
    /// because the first frame is asked for again and again while a viewer
    /// starts up.
    pub fn deliver(&mut self, frame_index: u32, frame: &Arc<Vec<u8>>, accounting: &mut CacheAccounting)
        requires
            old(self).wf(),
        ensures
            final(self).wf(),
            frame_index == 0 ==> final(self).frames() == old(self).frames() && final(accounting).current()
                == old(accounting).current(),
            frame_index != 0 ==> final(self).frames() == old(self).frames().remove(frame_index)
                && final(accounting).current() == saturating_sub(
                old(accounting).current() as int,
                frame@.len() as int,
            ),
            final(accounting).max() == old(accounting).max(),
            old(accounting).wf() ==> final(accounting).wf(),
            final(self).states() == old(self).states(),
            final(self).claimed() == old(self).claimed(),
            final(self).running() == old(self).running(),
            final(self).path() == old(self).path(),
            final(self).frame_width() == old(self).frame_width(),
            final(self).frame_height() == old(self).frame_height(),
    {
        if frame_index != 0 {
            accounting.release(frame.len());
            self.frames.remove(&frame_index);
        }
    }

    /// Publishes one decoded frame of a window: its handle, created where
    /// missing, is resolved with `bytes`, and the completers of the waiters
    /// to notify come back with the shared buffer. An index beyond the `u32`
    /// range names no frame and is dropped. A handle that is resolved
    /// already keeps its value, and the budget counts only bytes that are
    /// kept.
    pub fn publish_frame(&mut self, index: usize, bytes: Vec<u8>, accounting: &mut CacheAccounting) -> (r: (
        Vec<ManualFutureCompleter<Arc<Vec<u8>>>>,
        Arc<Vec<u8>>,
    ))
        requires
            old(self).wf(),
            bytes@.len() == frame_len(old(self).frame_width(), old(self).frame_height()),
        ensures
            final(self).wf(),
            *r.1 == bytes,
            index > u32::MAX ==> final(self).frames() == old(self).frames() && r.0@.len() == 0
                && final(accounting).current() == old(accounting).current(),
            index <= u32::MAX ==> {
                let i = index as u32;
                let fresh = !old(self).has_resolved(i);
                &&& final(self).frames().dom() == old(self).frames().dom().insert(i)
                &&& forall|k: u32|
                    k != i && #[trigger] old(self).frames().contains_key(k) ==> final(self).frames()[k] == old(self).frames()[k]
                &&& final(self).frames()[i].pending() == 0
                &&& fresh ==> final(self).frames()[i].resolved() == Some(bytes)
                &&& !fresh ==> final(self).frames()[i].resolved() == old(self).frames()[i].resolved()
                &&& fresh && old(self).frames().contains_key(i) ==> r.0@.len() == old(self).frames()[i].pending()
                &&& !(fresh && old(self).frames().contains_key(i)) ==> r.0@.len() == 0
                &&& fresh ==> final(accounting).current() == saturating_add(
                old(accounting).current() as int,
                    bytes@.len() as int,
                )
                &&& !fresh ==> final(accounting).current() == old(accounting).current()
            },
            final(accounting).max() == old(accounting).max(),
            old(accounting).wf() ==> final(accounting).wf(),
            final(self).states() == old(self).states(),
            final(self).claimed() == old(self).claimed(),
            final(self).running() == old(self).running(),
            final(self).path() == old(self).path(),
            final(self).frame_width() == old(self).frame_width(),
            final(self).frame_height() == old(self).frame_height(),
    {
        let len = bytes.len();
        let value = Arc::new(bytes);
        if index > u32::MAX as usize {
            return (Vec::new(), value);
        }
        let i = index as u32;
        let mut handle = match self.frames.remove(&i) {
            Some(handle) => handle,
            None => SharedManualFuture::new(),
        };
        let fresh = !handle.is_completed();
        let completers = handle.complete(crate::future::share(&value));
        if fresh {
            accounting.add(len);
        }
        self.frames.insert(i, handle);
        if self.top <= i as u64 {
            self.top = i as u64 + 1;
        }
        assert(self.frames@.dom() =~= old(self).frames@.dom().insert(i));
        (completers, value)
    }

    /// Records that a window decode ended, whether it published frames or failed.
    pub fn finish_window(&mut self)
        requires
            old(self).wf(),
            old(self).running() > 0,
        ensures
            final(self).wf(),
            final(self).running() == old(self).running() - 1,
            final(self).frames() == old(self).frames(),
            final(self).states() == old(self).states(),
            final(self).claimed() == old(self).claimed(),
            final(self).path() == old(self).path(),
            final(self).frame_width() == old(self).frame_width(),
            final(self).frame_height() == old(self).frame_height(),
    {
        self.running_decode_tasks = self.running_decode_tasks - 1;
    }

    /// The frames a sweep that has gone down to index `t` has evicted: the
    /// evictable ones from `t` up.
    pub open spec fn evicted_from(&self, t: int) -> Set<u32> {
        Set::new(|k: u32| k >= t && self.evictable(k))
    }

    /// `new` is `self` after evicting the evictable frames from `t` up: their
    /// handles are gone and their state is [`FrameState::Dropped`].
    pub open spec fn swept_to(&self, new: &Self, t: int) -> bool {
        &&& new.frames() == self.frames().remove_keys(self.evicted_from(t))
        &&& new.states() == self.states().union_prefer_right(
            Map::new(|k: u32| self.evicted_from(t).contains(k), |k: u32| FrameState::Dropped),
        )
    }

    /// The first step of a request for `frame_index`, in one critical
    /// section: claim the window it starts where the index is not claimed
    /// yet (the window comes back for the caller to decode), record the
    /// request, and either send the caller to a fresh decode of the frame,
    /// where it was requested or evicted before, or hand it a future on the
    /// frame's handle.
    pub fn begin_get_frame(&mut self, frame_index: u32) -> (r: (Option<(u32, u32)>, FrameWait))
        requires
            old(self).wf(),
            old(self).running() < usize::MAX,
        ensures
            final(self).wf(),
            old(self).claimed().contains(frame_index) ==> r.0 is None && final(self).claimed()
                == old(self).claimed() && final(self).running() == old(self).running(),
            !old(self).claimed().contains(frame_index) ==> match r.0 {
                Some((first, last)) => {
                    &&& first == frame_index
                    &&& claims_window(old(self).claimed(), first, last)
                    &&& final(self).claimed() == old(self).claimed().union(index_range(first, last))
                    &&& final(self).running() == old(self).running() + 1
                },
                None => false,
            },
            final(self).states() == old(self).states().insert(frame_index, FrameState::Waited),
            old(self).state_of(frame_index) != FrameState::Unseen ==> r.1 is Redecode && final(
                self).frames() == old(self).frames(),
            old(self).state_of(frame_index) == FrameState::Unseen ==> {
                &&& r.1 is Await
                &&& final(self).frames().dom() == old(self).frames().dom().insert(frame_index)
                &&& forall|i: u32|
                    i != frame_index && #[trigger] old(self).frames().contains_key(i) ==> final(
                        self).frames()[i] == old(self).frames()[i]
                &&& old(self).frames().contains_key(frame_index) ==> final(self).frames()[frame_index].resolved()
                    == old(self).frames()[frame_index].resolved()
                &&& !old(self).frames().contains_key(frame_index) ==> final(self).frames()[frame_index].resolved() is None
            },
            final(self).path() == old(self).path(),
            final(self).frame_width() == old(self).frame_width(),
            final(self).frame_height() == old(self).frame_height(),
    {
        let window = self.claim_window(frame_index);
        let prior = self.begin_request(frame_index);
        if prior != FrameState::Unseen {
            return (window, FrameWait::Redecode);
        }
        let future = self.subscribe(frame_index);
        (window, FrameWait::Await(future))
    }

    /// One pass of the sweeper. While the cache is over budget it evicts
    /// decoded frames that nobody has asked for, from the highest index
    /// down, and stops as soon as the cache is back under budget. Each
    /// eviction releases the frame's bytes and marks it
    /// [`FrameState::Dropped`]. A cache under budget is left as it is.
    pub fn collect_garbage(&mut self, accounting: &mut CacheAccounting)
        requires
            old(self).wf(),
        ensures
            final(self).wf(),
            !(old(accounting).current() >= old(accounting).max()) ==> *final(self) == *old(self)
                && *final(accounting) == *old(accounting),
            old(accounting).current() >= old(accounting).max() ==> exists|t: int|
                #![trigger old(self).evicted_from(t)]
                {
                    let evicted = old(self).evicted_from(t);
                    let size = frame_len(old(self).frame_width(), old(self).frame_height());
                    &&& old(self).swept_to(&*final(self), t)
                    &&& evicted.finite()
                    &&& final(accounting).current() == saturating_sub(
                        old(accounting).current() as int,
                        evicted.len() * size,
                    )
                    &&& evicted.len() > 0 ==> saturating_sub(
                        old(accounting).current() as int,
                        (evicted.len() - 1) * size,
                    ) >= old(accounting).max()
                    &&& (final(accounting).current() < final(accounting).max() || forall|k: u32|
                        #[trigger] old(self).evictable(k) ==> k >= t)
                },
            final(accounting).current() <= old(accounting).current(),
            final(accounting).max() == old(accounting).max(),
            old(accounting).wf() ==> final(accounting).wf(),
            final(self).claimed() == old(self).claimed(),
            final(self).running() == old(self).running(),
            final(self).path() == old(self).path(),
            final(self).frame_width() == old(self).frame_width(),
            final(self).frame_height() == old(self).frame_height(),
    {
        if !accounting.over_budget() {
            return;
        }
        let ghost start = *self;
        let ghost size = frame_len(self.width, self.height);
        let ghost mut n: nat = 0;
        let mut j: u64 = self.top;
        assert(start.evicted_from(j as int) =~= Set::<u32>::empty());
        assert(old(accounting).current() as int == saturating_sub(old(accounting).current() as int, 0 * size));
        assert(start.swept_to(self, j as int)) by {
            assert(self.frames@ =~= start.frames@.remove_keys(Set::<u32>::empty()));
            assert(self.frame_states@ =~= start.frame_states@.union_prefer_right(
                Map::new(|k: u32| start.evicted_from(j as int).contains(k), |k: u32| FrameState::Dropped),
            ));
        }
        while j > 0
            invariant_except_break
                accounting.current() >= accounting.max(),
            invariant
                j <= self.top,
                self.top == start.top,
                start.wf(),
                self.wf(),
                start.swept_to(self, j as int),
                self.decoding_frames@ == start.decoding_frames@,
                self.running_decode_tasks == start.running_decode_tasks,
                self.path@ == start.path@,
                self.width == start.width,
                self.height == start.height,
                accounting.current() <= old(accounting).current(),
                accounting.max() == old(accounting).max(),
                old(accounting).wf() ==> accounting.wf(),
                forall|k: u32| #[trigger] start.frames@.contains_key(k) ==> k < start.top,
                size == frame_len(start.width, start.height),
                size >= 0,
                start.evicted_from(j as int).finite(),
                start.evicted_from(j as int).len() == n,
                accounting.current() == saturating_sub(old(accounting).current() as int, n * size),
                n > 0 ==> saturating_sub(old(accounting).current() as int, (n - 1) * size)
                    >= old(accounting).max(),
            ensures
                exists|t: int|
                    #![trigger start.evicted_from(t)]
                    {
                        let evicted = start.evicted_from(t);
                        &&& start.swept_to(self, t)
                        &&& evicted.finite()
                        &&& accounting.current() == saturating_sub(
                            old(accounting).current() as int,
                            evicted.len() * size,
                        )
                        &&& evicted.len() > 0 ==> saturating_sub(
                            old(accounting).current() as int,
                            (evicted.len() - 1) * size,
                        ) >= old(accounting).max()
                        &&& (accounting.current() < accounting.max() || forall|k: u32|
                            #[trigger] start.evictable(k) ==> k >= t)
                    },
            decreases j,
        {
            j = j - 1;
            let i = j as u32;
            let mut evict_len: Option<usize> = None;
            match self.frames.get(&i) {
                Some(handle) => match handle.get_now() {
                    Some(frame) => {
                        let state = match self.frame_states.get(&i) {
                            Some(state) => *state,
                            None => FrameState::Unseen,
                        };
                        if state == FrameState::Unseen {
                            evict_len = Some(frame.len());
                        }
                    },
                    None => {},
                },
                None => {},
            }
            assert(evict_len is Some <==> start.evictable(i)) by {
                assert(start.frames@.contains_key(i) ==> (self.frames@.contains_key(i)
                    && self.frames@[i] == start.frames@[i]));
            }
            match evict_len {
                Some(len) => {
                    assert(len == size);
                    self.frames.remove(&i);
                    self.frame_states.insert(i, FrameState::Dropped);
                    accounting.release(len);
                    proof {
                        lemma_release_twice(old(accounting).current() as int, n * size, size);
                        assert(n * size + size == (n + 1) * size) by (nonlinear_arith);
                        assert(((n + 1) - 1) * size == n * size);
                        n = n + 1;
                    }
                    assert(start.evicted_from(j as int) =~= start.evicted_from(j as int + 1).insert(i));
                    assert(self.frames@ =~= start.frames@.remove_keys(start.evicted_from(j as int)));
                    assert(self.frame_states@ =~= start.frame_states@.union_prefer_right(
                        Map::new(
                            |k: u32| start.evicted_from(j as int).contains(k),
                            |k: u32| FrameState::Dropped,
                        ),
                    ));
                    if !accounting.over_budget() {
                        assert(start.swept_to(self, j as int));
                        break;
                    }
                },
                None => {
                    assert(start.evicted_from(j as int) =~= start.evicted_from(j as int + 1));
                },
            }
        }
        proof {
            if j == 0 {
                assert forall|k: u32| #[trigger] start.evictable(k) implies k >= j as int by {}
            }
        }
    }
}


proof fn lemma_release_twice(held: int, a: int, b: int)
    requires
        held >= 0,
        a >= 0,
        b >= 0,
    ensures
        saturating_sub(saturating_sub(held, a), b) == saturating_sub(held, a + b),
{
}

/// Single flight: a window claimed after another one, from the claims that
/// the first left behind, shares no index with it. As claims are never
/// given back, no index is ever in two window decodes.
pub proof fn claimed_windows_are_disjoint(
    claimed: Set<u32>,
    first_a: u32,
    last_a: u32,
    first_b: u32,
    last_b: u32,
)
    requires
        claims_window(claimed, first_a, last_a),
        claims_window(claimed.union(index_range(first_a, last_a)), first_b, last_b),
    ensures
        index_range(first_a, last_a).disjoint(index_range(first_b, last_b)),
        index_range(first_b, last_b).disjoint(claimed),
{
    assert forall|j: u32| #[trigger] index_range(first_b, last_b).contains(j) implies !index_range(
        first_a,
        last_a,
    ).contains(j) && !claimed.contains(j) by {
        assert(!claimed.union(index_range(first_a, last_a)).contains(j));
    }
}

/// The sweep converges: a sweep that ends over budget has evicted every
/// frame it could, so the cache it leaves holds no evictable frame and a
/// further sweep cannot lower the bytes held. The budget is then reached
/// as soon as the frames that are waited on or pending fit in it.
pub proof fn sweep_leaves_nothing_evictable(before: CachedDecoder, after: CachedDecoder, t: int)
    requires
        before.swept_to(&after, t),
        forall|k: u32| #[trigger] before.evictable(k) ==> k >= t,
    ensures
        forall|k: u32| !after.evictable(k),
{
    assert forall|k: u32| !after.evictable(k) by {
        if after.evictable(k) {
            assert(after.frames().contains_key(k));
            assert(!before.evicted_from(t).contains(k));
            assert(after.frames()[k] == before.frames()[k]);
            assert(after.states().contains_key(k) == before.states().contains_key(k));
            if before.states().contains_key(k) {
                assert(after.states()[k] == before.states()[k]);
            }
            assert(before.evictable(k));
        }
    }
}

/// Every decoded frame that a well-formed cache holds has the size of one
/// RGBA frame of its output size, so every frame handed out from a handle
/// does.
pub proof fn held_frames_have_frame_size(d: CachedDecoder, i: u32)
    requires
        d.wf(),
        d.has_resolved(i),
    ensures
        d.payload(i)@.len() == frame_len(d.frame_width(), d.frame_height()),
{
}

/// Delivering frame 0 leaves its handle, and so its decoded bytes, in the
/// cache: a later subscription to frame 0 is served those same bytes.
pub proof fn frame_zero_is_retained(before: CachedDecoder, after: CachedDecoder)
    requires
        after.frames() == before.frames(),
        before.has_resolved(0),
    ensures
        after.has_resolved(0),
        after.payload(0) == before.payload(0),
{
}

/// Whether every window decode of the cleared decoders has ended, given
/// their numbers of running decodes.
pub fn drain_finished(running: &Vec<usize>) -> (r: bool)
    ensures
        r == forall|i: int| 0 <= i < running@.len() ==> running@[i] == 0,
{
    let mut i: usize = 0;
    while i < running.len()
        invariant
            i <= running@.len(),
            forall|j: int| 0 <= j < i ==> running@[j] == 0,
        decreases running@.len() - i,
    {
        if running[i] > 0 {
            return false;
        }
        i = i + 1;
    }
    true
}

/// The value of a key that identity goes by: path, width and height.
pub open spec fn key_view(key: DecoderKey) -> (Seq<char>, u32, u32) {
    (key.path@, key.width, key.height)
}

fn same_key(a: &DecoderKey, b: &DecoderKey) -> (r: bool)
    ensures
        r == (key_view(*a) == key_view(*b)),
{
    a.width == b.width && a.height == b.height && a.path == b.path
}

/// The registry of cached decoders: at most one entry per key. `V` is
/// whatever the caller keeps for a cached decoder, typically a shared
/// handle on its locked state.
pub struct Decoder<V> {
    entries: Vec<(DecoderKey, V)>,
}

impl<V> View for Decoder<V> {
    type V = Map<(Seq<char>, u32, u32), V>;

    closed spec fn view(&self) -> Map<(Seq<char>, u32, u32), V> {
        Map::new(
            |k: (Seq<char>, u32, u32)|
                exists|i: int| 0 <= i < self.entries@.len() && key_view(self.entries@[i].0) == k,
            |k: (Seq<char>, u32, u32)|
                self.entries@[choose|i: int|
                    0 <= i < self.entries@.len() && key_view(self.entries@[i].0) == k].1,
        )
    }
}

impl<V> Decoder<V> {
    /// The entries' values, in the order the entries were made.
    pub closed spec fn values(&self) -> Seq<V> {
        self.entries@.map_values(|e: (DecoderKey, V)| e.1)
    }

    /// No key has two entries.
    pub closed spec fn wf(&self) -> bool {
        forall|i: int, j: int|
            0 <= i < j < self.entries@.len() ==> key_view(#[trigger] self.entries@[i].0) != key_view(
                #[trigger] self.entries@[j].0,
            )
    }

    /// An empty registry.
    pub fn new() -> (r: Self)
        ensures
            r.wf(),
            r@ == Map::<(Seq<char>, u32, u32), V>::empty(),
            r.values() == Seq::<V>::empty(),
    {
        let r = Decoder { entries: Vec::new() };
        assert(r@ =~= Map::<(Seq<char>, u32, u32), V>::empty());
        assert(r.values() =~= Seq::<V>::empty());
        r
    }

    fn find(&self, key: &DecoderKey) -> (r: Option<usize>)
        requires
            self.wf(),
        ensures
            match r {
                Some(i) => i < self.entries@.len() && key_view(self.entries@[i as int].0) == key_view(
                    *key,
                ),
                None => forall|i: int|
                    0 <= i < self.entries@.len() ==> key_view(#[trigger] self.entries@[i].0)
                        != key_view(*key),
            },
    {
        let mut i: usize = 0;
        while i < self.entries.len()
            invariant
                i <= self.entries@.len(),
                forall|j: int| 0 <= j < i ==> key_view(#[trigger] self.entries@[j].0) != key_view(*key),
            decreases self.entries@.len() - i,
        {
            if same_key(&self.entries[i].0, key) {
                return Some(i);
            }
            i = i + 1;
        }
        None
    }

    /// The entry for `key`, if there is one.
    pub fn get(&self, key: &DecoderKey) -> (r: Option<&V>)
        requires
            self.wf(),
        ensures
            match r {
                Some(v) => self@.contains_key(key_view(*key)) && self@[key_view(*key)] == *v,
                None => !self@.contains_key(key_view(*key)),
            },
    {
        match self.find(key) {
            Some(i) => {
                proof {
                    let k = key_view(*key);
                    assert(self@.contains_key(k));
                    let c = choose|j: int|
                        0 <= j < self.entries@.len() && key_view(self.entries@[j].0) == k;
                    assert(c == i as int);
                }
                Some(&self.entries[i].1)
            },
            None => None,
        }
    }

    /// Makes sure `key` has an entry: where it has none, `fresh` becomes its
    /// entry and `true` comes back, so that exactly one caller per key
    /// starts the work that goes with a new cached decoder. Where it has one,
    /// nothing changes, `fresh` is dropped and `false` comes back.
    pub fn cached_decoder(&mut self, key: DecoderKey, fresh: V) -> (created: bool)
        requires
            old(self).wf(),
        ensures
            final(self).wf(),
            created == !old(self)@.contains_key(key_view(key)),
            created ==> final(self)@ == old(self)@.insert(key_view(key), fresh)
                && final(self).values() == old(self).values().push(fresh),
            !created ==> final(self)@ == old(self)@ && final(self).values() == old(self).values(),
    {
        match self.find(&key) {
            Some(_) => false,
            None => {
                let ghost k = key_view(key);
                self.entries.push((key, fresh));
                proof {
                    let n = old(self).entries@.len() as int;
                    assert(self.entries@[n].0 == key);
                    assert forall|kk: (Seq<char>, u32, u32)| #[trigger]
                        self@.contains_key(kk) == old(self)@.insert(k, fresh).contains_key(kk) by {
                        if old(self)@.contains_key(kk) {
                            let c = choose|j: int|
                                0 <= j < old(self).entries@.len() && key_view(old(self).entries@[j].0) == kk;
                            assert(self.entries@[c] == old(self).entries@[c]);
                        }
                        if self@.contains_key(kk) && kk != k {
                            let c = choose|j: int|
                                0 <= j < self.entries@.len() && key_view(self.entries@[j].0) == kk;
                            assert(c != n);
                            assert(old(self).entries@[c] == self.entries@[c]);
                        }
                    }
                    assert forall|kk: (Seq<char>, u32, u32)| #[trigger]
                        self@.contains_key(kk) implies self@[kk] == old(self)@.insert(k, fresh)[kk] by {
                        let c = choose|j: int|
                            0 <= j < self.entries@.len() && key_view(self.entries@[j].0) == kk;
                        if kk == k {
                            assert(c == n);
                        } else {
                            let d = choose|j: int|
                                0 <= j < old(self).entries@.len() && key_view(old(self).entries@[j].0) == kk;
                            assert(self.entries@[d] == old(self).entries@[d]);
                            assert(c == d);
                        }
                    }
                    assert(self@ =~= old(self)@.insert(k, fresh));
                    assert(self.values() =~= old(self).values().push(fresh));
                }
                true
            },
        }
    }

    /// Empties the registry and hands back every entry's value, so that the
    /// caller can wait for their in-flight work to drain.
    pub fn clear(&mut self) -> (r: Vec<V>)
        requires
            old(self).wf(),
        ensures
            final(self).wf(),
            final(self)@ == Map::<(Seq<char>, u32, u32), V>::empty(),
            r@ == old(self).values(),
    {
        let mut taken: Vec<(DecoderKey, V)> = Vec::new();
        std::mem::swap(&mut taken, &mut self.entries);
        let mut values: Vec<V> = Vec::new();
        let ghost all = taken@;
        let ghost vals = old(self).values();
        assert(vals.len() == all.len());
        while taken.len() > 0
            invariant
                all.len() == vals.len(),
                vals == all.map_values(|e: (DecoderKey, V)| e.1),
                taken@.len() + values@.len() == all.len(),
                forall|j: int| 0 <= j < values@.len() ==> values@[j] == vals[j],
                forall|j: int|
                    0 <= j < taken@.len() ==> taken@[j] == #[trigger] all[all.len() - taken@.len() + j],
            decreases taken@.len(),
        {
            let ghost before = taken@;
            assert(before[0] == all[all.len() - before.len() + 0]);
            let (_, v) = taken.remove(0);
            assert(v == vals[values@.len() as int]);
            values.push(v);
            assert forall|j: int|
                0 <= j < taken@.len() implies taken@[j] == #[trigger] all[all.len() - taken@.len() + j] by {
                assert(taken@[j] == before[j + 1]);
                assert(before[j + 1] == all[all.len() - before.len() + (j + 1)]);
            }
        }
        assert(values@ =~= vals);
        assert(self@ =~= Map::<(Seq<char>, u32, u32), V>::empty());
        values
    }
}

} // verus!
