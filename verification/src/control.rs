use vstd::prelude::*;
use crate::decoding::{CurrentlyDecoding, TrackDecoderMetaData};
use crate::player::{other_than, without};

verus! {

/// The messages the desktop player sends its decoder. Times are in nanoseconds.
#[derive(Clone, Copy, PartialEq, Eq, Structural, Debug)]
pub enum DecoderMsg {
    SeekAbs(u128),
    Enqueue(u128),
    Play,
    Reset,
    Pause,
    Stop,
    Next,
    Previous,
}

/// What the decoder must do to the decoding thread of a track after a message.
#[derive(Clone, Copy, PartialEq, Eq, Structural, Debug)]
pub enum DecoderEffect {
    Nothing,
    /// Tell the thread of the track to seek to the time.
    Seek(u128, u128),
    /// Send the thread of the track back to the start and drop its buffered samples.
    ResetTrack(u128),
}

/// What polling the frontend's channel found.
#[derive(Clone, Copy, PartialEq, Eq, Structural, Debug)]
pub enum Polled {
    /// A message arrived.
    Message(DecoderMsg),
    /// Nothing arrived.
    Nothing,
    /// The frontend hung up.
    Disconnected,
}

/// One step of cleaning up the front of the play order.
#[derive(Clone, Copy, PartialEq, Eq, Structural, Debug)]
pub enum CleanupStep {
    /// Nothing (more) to clean up.
    Done,
    /// The dead track at the front was dropped from the order and its thread forgotten.
    Dropped(u128),
    /// The front track is old enough but still alive; the same test comes up
    /// again unchanged.
    Stuck,
}

/// What the decoder does for one request for a sample, after polling the
/// frontend: end the audio stream, play silence, or take a sample from the
/// decoding thread of the given track; each with the effect of the polled
/// message on a decoding thread.
#[derive(Clone, Copy, PartialEq, Eq, Structural, Debug)]
pub enum Tick {
    End,
    Silence(DecoderEffect),
    Receive(DecoderEffect, u128),
}

/// The effect a tick carries.
pub open spec fn tick_effect(t: Tick) -> DecoderEffect {
    match t {
        Tick::End => DecoderEffect::Nothing,
        Tick::Silence(e) => e,
        Tick::Receive(e, _) => e,
    }
}

/// The tick for a state: silence while stopped or without a current track,
/// else a sample from the current track's thread.
pub open spec fn tick_for(d: DecoderControl, eff: DecoderEffect) -> Tick {
    if !d.active {
        Tick::Silence(eff)
    } else {
        match current_track(d.order@, d.pos, d.loaded@) {
            Some(c) => Tick::Receive(eff, c),
            None => Tick::Silence(eff),
        }
    }
}

/// The entries of a report's track list for a play order.
pub open spec fn report_tracks(order: Seq<u128>) -> Seq<TrackDecoderMetaData> {
    Seq::new(order.len(), |i: int| TrackDecoderMetaData { id: order[i] })
}

/// The bookkeeping of the desktop decoder: the play order, the position in it,
/// how often a dead track was skipped over, whether it plays, and the tracks
/// that have a decoding thread.
pub struct DecoderControl {
    pub order: Vec<u128>,
    pub pos: usize,
    pub age: u64,
    pub active: bool,
    pub loaded: Vec<u128>,
}

/// The id looked up for the current track: the one at `pos`, or the nil id
/// when `pos` is past the end of the order.
pub open spec fn current_key(order: Seq<u128>, pos: usize) -> u128 {
    if pos < order.len() { order[pos as int] } else { 0 }
}

/// The current track, if it has a decoding thread.
pub open spec fn current_track(order: Seq<u128>, pos: usize, loaded: Seq<u128>) -> Option<u128> {
    if loaded.contains(current_key(order, pos)) {
        Some(current_key(order, pos))
    } else {
        None
    }
}

/// What handling `msg` does: `o` is the state before, `n` the state after,
/// and `eff` what must happen to a decoding thread.
pub open spec fn handled(o: DecoderControl, msg: DecoderMsg, n: DecoderControl, eff: DecoderEffect) -> bool {
    match msg {
        DecoderMsg::SeekAbs(t) => {
            &&& n.order@ == o.order@
            &&& n.pos == o.pos
            &&& n.age == o.age
            &&& n.active == o.active
            &&& n.loaded@ == o.loaded@
            &&& eff == match current_track(o.order@, o.pos, o.loaded@) {
                Some(c) => DecoderEffect::Seek(c, t),
                None => DecoderEffect::Nothing,
            }
        },
        DecoderMsg::Enqueue(id) => {
            &&& n.order@ == seq![id] + o.order@
            &&& n.pos == o.pos
            &&& n.age == o.age
            &&& n.active == o.active
            &&& n.loaded@ == o.loaded@
            &&& eff == DecoderEffect::Nothing
        },
        DecoderMsg::Play | DecoderMsg::Pause => {
            &&& n.order@ == o.order@
            &&& n.pos == o.pos
            &&& n.age == o.age
            &&& n.active == (msg == DecoderMsg::Play)
            &&& n.loaded@ == o.loaded@
            &&& eff == DecoderEffect::Nothing
        },
        DecoderMsg::Stop => {
            &&& n.order@ == o.order@
            &&& n.pos == o.pos
            &&& n.age == o.age
            &&& !n.active
            &&& n.loaded@ == o.loaded@
            &&& eff == match current_track(o.order@, o.pos, o.loaded@) {
                Some(c) => DecoderEffect::ResetTrack(c),
                None => DecoderEffect::Nothing,
            }
        },
        DecoderMsg::Next | DecoderMsg::Previous => {
            &&& n.order@ == o.order@
            &&& n.age == o.age
            &&& n.active == o.active
            &&& n.loaded@ == o.loaded@
            &&& match current_track(o.order@, o.pos, o.loaded@) {
                Some(c) => {
                    &&& eff == DecoderEffect::ResetTrack(c)
                    &&& n.pos == if msg == DecoderMsg::Next {
                        if o.pos == usize::MAX { o.pos } else { (o.pos + 1) as usize }
                    } else {
                        if o.pos == 0 { 0 } else { (o.pos - 1) as usize }
                    }
                },
                None => eff == DecoderEffect::Nothing && n.pos == o.pos,
            }
        },
        DecoderMsg::Reset => {
            &&& n.order@ == Seq::<u128>::empty()
            &&& n.pos == 0
            &&& n.age == 0
            &&& !n.active
            &&& n.loaded@ == Seq::<u128>::empty()
            &&& eff == DecoderEffect::Nothing
        },
    }
}

impl DecoderControl {
    /// A stopped decoder with nothing queued.
    pub fn new() -> (res: Self)
        ensures
            res.order@ == Seq::<u128>::empty(),
            res.pos == 0,
            res.age == 0,
            !res.active,
            res.loaded@ == Seq::<u128>::empty(),
    {
        DecoderControl { order: Vec::new(), pos: 0, age: 0, active: false, loaded: Vec::new() }
    }

    /// The current track, if it has a decoding thread.
    pub fn get_curr(&self) -> (res: Option<u128>)
        ensures
            res == current_track(self.order@, self.pos, self.loaded@),
    {
        let key = if self.pos < self.order.len() { self.order[self.pos] } else { 0 };
        let mut i: usize = 0;
        while i < self.loaded.len()
            invariant
                i <= self.loaded@.len(),
                key == current_key(self.order@, self.pos),
                forall|k: int| 0 <= k < i ==> self.loaded@[k] != key,
            decreases self.loaded@.len() - i,
        {
            if self.loaded[i] == key {
                return Some(key);
            }
            i = i + 1;
        }
        None
    }

    /// Handles one message and returns what must happen to a decoding thread.
    pub fn handle(&mut self, msg: DecoderMsg) -> (eff: DecoderEffect)
        ensures
            handled(*old(self), msg, *final(self), eff),
    {
        match msg {
            DecoderMsg::SeekAbs(t) => match self.get_curr() {
                Some(c) => DecoderEffect::Seek(c, t),
                None => DecoderEffect::Nothing,
            },
            DecoderMsg::Enqueue(id) => {
                self.order.insert(0, id);
                assert(self.order@ =~= seq![id] + old(self).order@);
                DecoderEffect::Nothing
            },
            DecoderMsg::Play => {
                self.active = true;
                DecoderEffect::Nothing
            },
            DecoderMsg::Pause => {
                self.active = false;
                DecoderEffect::Nothing
            },
            DecoderMsg::Stop => {
                let eff = match self.get_curr() {
                    Some(c) => DecoderEffect::ResetTrack(c),
                    None => DecoderEffect::Nothing,
                };
                self.active = false;
                eff
            },
            DecoderMsg::Next | DecoderMsg::Previous => match self.get_curr() {
                Some(c) => {
                    if msg == DecoderMsg::Next {
                        if self.pos < usize::MAX {
                            self.pos = self.pos + 1;
                        }
                    } else {
                        if self.pos > 0 {
                            self.pos = self.pos - 1;
                        }
                    }
                    DecoderEffect::ResetTrack(c)
                },
                None => DecoderEffect::Nothing,
            },
            DecoderMsg::Reset => {
                self.order = Vec::new();
                self.loaded = Vec::new();
                self.pos = 0;
                self.age = 0;
                self.active = false;
                assert(self.order@ =~= Seq::<u128>::empty());
                assert(self.loaded@ =~= Seq::<u128>::empty());
                DecoderEffect::Nothing
            },
        }
    }

    /// Counts a skip over a current track whose decoding thread has died.
    pub fn note_dead_current(&mut self)
        requires
            old(self).age < u64::MAX,
        ensures
            final(self).age == old(self).age + 1,
            final(self).order@ == old(self).order@,
            final(self).pos == old(self).pos,
            final(self).active == old(self).active,
            final(self).loaded@ == old(self).loaded@,
    {
        self.age = self.age + 1;
    }

    /// Where the next sample comes from: silence while stopped or without a
    /// current track, else the decoding thread of the current track.
    pub fn sample_source(&self) -> (res: Option<u128>)
        ensures
            !self.active ==> res is None,
            self.active ==> res == current_track(self.order@, self.pos, self.loaded@),
    {
        if !self.active {
            None
        } else {
            self.get_curr()
        }
    }

    /// After asking the current track's thread for a sample: when none came and
    /// the thread has died, moves on to the next track and returns `true`, so
    /// that the caller asks again; otherwise leaves everything as it is.
    pub fn after_receive(&mut self, got_sample: bool, current_dead: bool) -> (retry: bool)
        requires
            !got_sample && current_dead ==> old(self).pos < usize::MAX,
        ensures
            retry == (!got_sample && current_dead),
            retry ==> final(self).pos == old(self).pos + 1,
            !retry ==> final(self).pos == old(self).pos,
            final(self).order@ == old(self).order@,
            final(self).age == old(self).age,
            final(self).active == old(self).active,
            final(self).loaded@ == old(self).loaded@,
    {
        if !got_sample && current_dead {
            self.pos = self.pos + 1;
            true
        } else {
            false
        }
    }
    /// The channel count and sample rate the decoder reports: those of the
    /// current track once its thread has read them (`meta`), else one channel
    /// at 96 kHz.
    pub fn output_format(&self, meta: Option<(u16, u32)>) -> (res: (u16, u32))
        ensures
            current_track(self.order@, self.pos, self.loaded@) is Some && meta is Some ==> res
                == meta.unwrap(),
            current_track(self.order@, self.pos, self.loaded@) is None || meta is None ==> res == (
                1u16,
                96000u32,
            ),
    {
        match self.get_curr() {
            Some(_) => match meta {
                Some(m) => m,
                None => (1, 96000),
            },
            None => (1, 96000),
        }
    }
    /// Handles what polling the frontend found: `None` when the frontend hung
    /// up, which ends the audio stream; otherwise the effect of the message,
    /// if any.
    pub fn poll(&mut self, polled: Polled) -> (res: Option<DecoderEffect>)
        ensures
            polled is Disconnected ==> res is None && *final(self) == *old(self),
            polled is Nothing ==> res == Some(DecoderEffect::Nothing) && *final(self) == *old(self),
            polled matches Polled::Message(m) ==> (res matches Some(eff) && handled(
                *old(self),
                m,
                *final(self),
                eff,
            )),
    {
        match polled {
            Polled::Disconnected => None,
            Polled::Nothing => Some(DecoderEffect::Nothing),
            Polled::Message(m) => Some(self.handle(m)),
        }
    }

    /// The report sent to the frontend: for a current track whose thread has
    /// read its metadata (`meta`: its length and how far playback is, in
    /// nanoseconds), the track, those times and the whole play order; else the
    /// empty report. (Should sending it fail, the audio stream ends.)
    pub fn status_report(&self, meta: Option<(u128, u128)>) -> (res: CurrentlyDecoding)
        requires
            current_track(self.order@, self.pos, self.loaded@) is Some && meta is Some ==> self.pos
                < self.order@.len(),
        ensures
            current_track(self.order@, self.pos, self.loaded@) is Some && meta is Some ==> {
                &&& res.curr == self.order@[self.pos as int]
                &&& res.len == meta.unwrap().0
                &&& res.at == meta.unwrap().1
                &&& res.tracks@ == report_tracks(self.order@)
            },
            current_track(self.order@, self.pos, self.loaded@) is None || meta is None ==> {
                &&& res.curr == 0
                &&& res.len == 0
                &&& res.at == 0
                &&& res.tracks@.len() == 0
            },
    {
        match (self.get_curr(), meta) {
            (Some(_), Some((len, at))) => {
                let mut tracks: Vec<TrackDecoderMetaData> = Vec::new();
                let mut i: usize = 0;
                while i < self.order.len()
                    invariant
                        i <= self.order@.len(),
                        tracks@ == report_tracks(self.order@.subrange(0, i as int)),
                    decreases self.order@.len() - i,
                {
                    tracks.push(TrackDecoderMetaData { id: self.order[i] });
                    i = i + 1;
                    assert(tracks@ =~= report_tracks(self.order@.subrange(0, i as int)));
                }
                assert(self.order@.subrange(0, self.order@.len() as int) == self.order@);
                CurrentlyDecoding { curr: self.order[self.pos], at, len, tracks }
            },
            _ => CurrentlyDecoding { curr: 0, at: 0, len: 0, tracks: Vec::new() },
        }
    }

    /// One step of cleaning up old dead tracks at the front of the play order.
    /// `curr_age` and `front_age` are the ages at which the current track's and
    /// the front track's threads were made, and `front_dead` whether the front
    /// thread has died. Nothing is done without a front or a current track, or
    /// when the front is less than 25 skips older than the current track; a
    /// dead front is dropped; a live one stays.
    pub fn cleanup_step(&mut self, curr_age: u64, front_age: u64, front_dead: bool) -> (res: CleanupStep)
        requires
            old(self).order@.len() > 0 && current_track(old(self).order@, old(self).pos, old(self).loaded@)
                is Some ==> curr_age >= front_age && old(self).loaded@.contains(old(self).order@[0]),
        ensures
            final(self).pos == old(self).pos,
            final(self).age == old(self).age,
            final(self).active == old(self).active,
            ({
                let busy = old(self).order@.len() > 0 && current_track(
                    old(self).order@,
                    old(self).pos,
                    old(self).loaded@,
                ) is Some && curr_age - front_age >= 25;
                &&& !busy ==> res == CleanupStep::Done && final(self).order@ == old(self).order@
                    && final(self).loaded@ == old(self).loaded@
                &&& busy && front_dead ==> res == CleanupStep::Dropped(old(self).order@[0])
                    && final(self).order@ == old(self).order@.drop_first() && final(self).loaded@
                    == without(old(self).loaded@, old(self).order@[0])
                &&& busy && !front_dead ==> res == CleanupStep::Stuck && final(self).order@
                    == old(self).order@ && final(self).loaded@ == old(self).loaded@
            }),
    {
        if self.order.len() == 0 {
            return CleanupStep::Done;
        }
        if self.get_curr().is_none() {
            return CleanupStep::Done;
        }
        if curr_age - front_age < 25 {
            return CleanupStep::Done;
        }
        if !front_dead {
            return CleanupStep::Stuck;
        }
        let x = self.order.remove(0);
        let mut kept: Vec<u128> = Vec::new();
        let mut i: usize = 0;
        while i < self.loaded.len()
            invariant
                i <= self.loaded@.len(),
                self.loaded@ == old(self).loaded@,
                kept@ == self.loaded@.subrange(0, i as int).filter(other_than(x)),
            decreases self.loaded@.len() - i,
        {
            proof {
                assert(self.loaded@.subrange(0, i + 1).drop_last() == self.loaded@.subrange(
                    0,
                    i as int,
                ));
                reveal_with_fuel(Seq::filter, 1);
            }
            if self.loaded[i] != x {
                kept.push(self.loaded[i]);
            }
            i = i + 1;
        }
        assert(self.loaded@.subrange(0, self.loaded@.len() as int) == self.loaded@);
        self.loaded = kept;
        CleanupStep::Dropped(x)
    }
    /// One step of the decoder for a sample request: handles what polling the
    /// frontend found and says where the sample comes from. A hang-up ends the
    /// stream; a message is handled as `handle` does. After a `Receive` that got
    /// nothing, `after_receive` tells whether to step again.
    pub fn tick(&mut self, polled: Polled) -> (res: Tick)
        ensures
            polled is Disconnected ==> res is End && *final(self) == *old(self),
            polled is Nothing ==> *final(self) == *old(self) && res == tick_for(
                *final(self),
                DecoderEffect::Nothing,
            ),
            polled matches Polled::Message(m) ==> handled(*old(self), m, *final(self), tick_effect(res))
                && res == tick_for(*final(self), tick_effect(res)),
    {
        let eff = match self.poll(polled) {
            None => {
                return Tick::End;
            },
            Some(e) => e,
        };
        match self.sample_source() {
            None => Tick::Silence(eff),
            Some(c) => Tick::Receive(eff, c),
        }
    }
}

} // verus!
