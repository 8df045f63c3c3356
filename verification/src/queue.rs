use vstd::prelude::*;
use crate::player::{without, other_than};

verus! {

/// The queue logic of the desktop player's decoder: the ids of the tracks to
/// play next, and whether playback is paused.
pub struct DecoderQueue {
    pub next_ids: Vec<u128>,
    pub pause: bool,
}

impl DecoderQueue {
    /// An empty, playing queue.
    pub fn new() -> (res: Self)
        ensures
            res.next_ids@ == Seq::<u128>::empty(),
            !res.pause,
    {
        DecoderQueue { next_ids: Vec::new(), pause: false }
    }

    /// Queues a track after all others.
    pub fn queue(&mut self, id: u128)
        ensures
            final(self).next_ids@ == old(self).next_ids@.push(id),
            final(self).pause == old(self).pause,
    {
        self.next_ids.push(id)
    }

    /// Removes every queued copy of a track.
    pub fn dequeue(&mut self, id: u128)
        ensures
            final(self).next_ids@ == without(old(self).next_ids@, id),
            final(self).pause == old(self).pause,
    {
        let mut kept: Vec<u128> = Vec::new();
        let mut i: usize = 0;
        while i < self.next_ids.len()
            invariant
                i <= self.next_ids@.len(),
                self.next_ids@ == old(self).next_ids@,
                self.pause == old(self).pause,
                kept@ == self.next_ids@.subrange(0, i as int).filter(other_than(id)),
            decreases self.next_ids@.len() - i,
        {
            proof {
                assert(self.next_ids@.subrange(0, i + 1).drop_last() == self.next_ids@.subrange(
                    0,
                    i as int,
                ));
                reveal_with_fuel(Seq::filter, 1);
            }
            if self.next_ids[i] != id {
                kept.push(self.next_ids[i]);
            }
            i = i + 1;
        }
        assert(self.next_ids@.subrange(0, self.next_ids@.len() as int) == self.next_ids@);
        self.next_ids = kept;
    }

    /// Empties the queue; the current track is dropped by the caller.
    pub fn clear_self(&mut self)
        ensures
            final(self).next_ids@ == Seq::<u128>::empty(),
            final(self).pause == old(self).pause,
    {
        self.next_ids = Vec::new();
    }

    /// The queued ids, in order.
    pub fn copy_queue(&self) -> (res: Vec<u128>)
        ensures
            res@ == self.next_ids@,
    {
        let mut res: Vec<u128> = Vec::new();
        let mut i: usize = 0;
        while i < self.next_ids.len()
            invariant
                i <= self.next_ids@.len(),
                res@ == self.next_ids@.subrange(0, i as int),
            decreases self.next_ids@.len() - i,
        {
            res.push(self.next_ids[i]);
            i = i + 1;
            assert(res@ == self.next_ids@.subrange(0, i as int));
        }
        assert(self.next_ids@.subrange(0, self.next_ids@.len() as int) == self.next_ids@);
        res
    }

    /// Pauses playback.
    pub fn pause(&mut self)
        ensures
            final(self).pause,
            final(self).next_ids@ == old(self).next_ids@,
    {
        self.pause = true;
    }

    /// Flips between playing and paused.
    pub fn toggle(&mut self)
        ensures
            final(self).pause == !old(self).pause,
            final(self).next_ids@ == old(self).next_ids@,
    {
        self.pause = !self.pause;
    }

    /// Starts playing; when a track is named, the queue is emptied first and
    /// the caller loads that track.
    pub fn play(&mut self, id: Option<u128>)
        ensures
            !final(self).pause,
            id is Some ==> final(self).next_ids@ == Seq::<u128>::empty(),
            id is None ==> final(self).next_ids@ == old(self).next_ids@,
    {
        if id.is_some() {
            self.clear_self();
        }
        self.pause = false;
    }

    /// The next track to try when skipping forward, taken off the front of the
    /// queue. The caller tries the ids one after the other until one opens.
    pub fn forward(&mut self) -> (res: Option<u128>)
        ensures
            old(self).next_ids@.len() == 0 ==> res is None && final(self).next_ids@ == old(self).next_ids@,
            old(self).next_ids@.len() > 0 ==> res == Some(old(self).next_ids@[0])
                && final(self).next_ids@ == old(self).next_ids@.drop_first(),
            final(self).pause == old(self).pause,
    {
        if self.next_ids.len() == 0 {
            None
        } else {
            Some(self.next_ids.remove(0))
        }
    }

    /// The next track to try when the current one has ended; when none is left
    /// the player pauses.
    pub fn next_after_end(&mut self) -> (res: Option<u128>)
        ensures
            old(self).next_ids@.len() == 0 ==> res is None && final(self).pause
                && final(self).next_ids@ == old(self).next_ids@,
            old(self).next_ids@.len() > 0 ==> res == Some(old(self).next_ids@[0])
                && final(self).next_ids@ == old(self).next_ids@.drop_first()
                && final(self).pause == old(self).pause,
    {
        let next = self.forward();
        if next.is_none() {
            self.pause = true;
        }
        next
    }
}

/// Error of a queue that has no room left.
#[derive(Clone, Copy, PartialEq, Eq, Structural, Debug)]
pub enum QueueError {
    NoSpaceLeftInQueue,
}

impl QueueError {
    /// The human readable description of the error.
    pub fn message(&self) -> (s: String)
        ensures
            s@ == "queue is full"@,
    {
        String::from_str("queue is full")
    }
}

/// The play order of the desktop audio player, bounded by `limit`.
pub struct AudioQueue {
    pub order: Vec<u128>,
    pub now_playing: usize,
    pub limit: usize,
}

impl AudioQueue {
    /// An empty play order with room for `limit` tracks.
    pub fn new(limit: usize) -> (res: Self)
        ensures
            res.order@ == Seq::<u128>::empty(),
            res.now_playing == 0,
            res.limit == limit,
    {
        AudioQueue { order: Vec::new(), now_playing: 0, limit }
    }

    /// Makes room before a track is queued. While the order is within its
    /// limit, the oldest track is dropped, which needs a track already played;
    /// without one the queue is full. Returns the dropped track.
    pub fn make_room(&mut self) -> (res: Result<Option<u128>, QueueError>)
        ensures
            final(self).limit == old(self).limit,
            old(self).limit < old(self).order@.len() ==> res == Ok::<Option<u128>, QueueError>(None)
                && final(self).order@ == old(self).order@ && final(self).now_playing == old(self).now_playing,
            old(self).limit >= old(self).order@.len() && old(self).now_playing == 0 ==> res == Err::<
                Option<u128>,
                QueueError,
            >(QueueError::NoSpaceLeftInQueue) && final(self).order@ == old(self).order@
                && final(self).now_playing == old(self).now_playing,
            old(self).limit >= old(self).order@.len() && old(self).now_playing > 0 ==> {
                &&& final(self).now_playing == old(self).now_playing - 1
                &&& old(self).order@.len() == 0 ==> res == Ok::<Option<u128>, QueueError>(None)
                    && final(self).order@ == old(self).order@
                &&& old(self).order@.len() > 0 ==> res == Ok::<Option<u128>, QueueError>(
                    Some(old(self).order@[0]),
                ) && final(self).order@ == old(self).order@.drop_first()
            },
    {
        if self.limit >= self.order.len() {
            if self.now_playing == 0 {
                return Err(QueueError::NoSpaceLeftInQueue);
            }
            self.now_playing = self.now_playing - 1;
            if self.order.len() == 0 {
                Ok(None)
            } else {
                Ok(Some(self.order.remove(0)))
            }
        } else {
            Ok(None)
        }
    }

    /// Forgets the play order.
    pub fn reset(&mut self)
        ensures
            final(self).order@ == Seq::<u128>::empty(),
            final(self).now_playing == 0,
            final(self).limit == old(self).limit,
    {
        self.order = Vec::new();
        self.now_playing = 0;
    }
}

} // verus!
