use vstd::prelude::*;
use crate::ids::{uuid_string, uuid_text};

verus! {

/// The messages of the web player that act on its queue. (Playback messages
/// that only drive the audio element do not touch the queue.)
#[derive(Clone, Copy, PartialEq, Eq, Structural, Debug)]
pub enum QueueMsg {
    /// Push one track to the end of the queue.
    Push(u128),
    /// Remove a track; without an id, the track at the front of the queue.
    Rem(Option<u128>),
    /// Push a track and start playing it at once.
    ForcePlay(u128),
    /// Skip forward in the queue.
    Skip,
    /// Skip backwards in the queue.
    SkipBack,
    /// The audio element reached the end of the song.
    Ended,
}

/// What the player must do after a message: nothing, or load the given track
/// (`None` stops playback).
#[derive(Clone, Copy, PartialEq, Eq, Structural, Debug)]
pub enum QueueAction {
    Keep,
    SetPlayer(Option<u128>),
}

/// The queue of the web player and the position of the track being played.
pub struct PlayerQueue {
    pub queue: Vec<u128>,
    pub position: usize,
}

/// The track at `i`, if the queue has one there.
pub open spec fn track_at(q: Seq<u128>, i: int) -> Option<u128> {
    if 0 <= i < q.len() { Some(q[i]) } else { None }
}

/// The first position of `id` in `q`, if any.
pub open spec fn first_index(q: Seq<u128>, id: u128) -> Option<int> {
    if exists|i: int| 0 <= i < q.len() && q[i] == id {
        Some(choose|i: int| 0 <= i < q.len() && q[i] == id && forall|j: int| 0 <= j < i ==> q[j] != id)
    } else {
        None
    }
}

/// `q` with every copy of `id` removed.
pub open spec fn without(q: Seq<u128>, id: u128) -> Seq<u128> {
    q.filter(other_than(id))
}

/// The test that keeps every id but `id`.
pub open spec fn other_than(id: u128) -> spec_fn(u128) -> bool {
    |x: u128| x != id
}

/// `n + 1`, saturating at `usize::MAX`.
pub open spec fn sat_inc(n: usize) -> usize {
    if n == usize::MAX { n } else { (n + 1) as usize }
}

/// `n - 1`, saturating at zero.
pub open spec fn sat_dec(n: usize) -> usize {
    if n == 0 { 0 } else { (n - 1) as usize }
}

/// Whether the player can handle `msg` in this state: removing the front track
/// computes `queue.len() - 1`, which overflows on an empty queue.
pub open spec fn can_handle(q: Seq<u128>, msg: QueueMsg) -> bool {
    msg matches QueueMsg::Rem(None) ==> q.len() > 0
}

/// The queue, position and action after the player handles `msg`.
pub open spec fn queue_step(q: Seq<u128>, pos: usize, msg: QueueMsg) -> (Seq<u128>, usize, QueueAction) {
    match msg {
        QueueMsg::Push(id) => (q.push(id), pos, QueueAction::Keep),
        QueueMsg::Rem(Some(id)) => match first_index(q, id) {
            None => (q, pos, QueueAction::Keep),
            Some(at) => if at > pos {
                (without(q, id), sat_dec(pos), QueueAction::SetPlayer(track_at(q, sat_dec(pos) as int)))
            } else if at == pos {
                (without(q, id), pos, QueueAction::SetPlayer(track_at(q, sat_inc(pos) as int)))
            } else {
                (without(q, id), pos, QueueAction::Keep)
            },
        },
        QueueMsg::Rem(None) => (
            q.drop_first(),
            pos,
            if q.len() - 1 == pos { QueueAction::SetPlayer(None) } else { QueueAction::Keep },
        ),
        QueueMsg::ForcePlay(id) => (
            q.push(id),
            q.len() as usize,
            QueueAction::SetPlayer(Some(id)),
        ),
        QueueMsg::Skip => (q, sat_inc(pos), QueueAction::SetPlayer(track_at(q, sat_inc(pos) as int))),
        QueueMsg::Ended => (q, sat_inc(pos), QueueAction::SetPlayer(track_at(q, sat_inc(pos) as int))),
        QueueMsg::SkipBack => (q, sat_dec(pos), QueueAction::SetPlayer(track_at(q, sat_dec(pos) as int))),
    }
}

fn get_track(q: &Vec<u128>, i: usize) -> (res: Option<u128>)
    ensures
        res == track_at(q@, i as int),
{
    if i < q.len() { Some(q[i]) } else { None }
}

fn find_first(q: &Vec<u128>, id: u128) -> (res: Option<usize>)
    ensures
        res matches Some(i) ==> first_index(q@, id) == Some(i as int),
        res is None ==> first_index(q@, id) is None,
{
    let mut i: usize = 0;
    while i < q.len()
        invariant
            i <= q@.len(),
            forall|j: int| 0 <= j < i ==> q@[j] != id,
        decreases q@.len() - i,
    {
        if q[i] == id {
            assert(exists|k: int| 0 <= k < q@.len() && q@[k] == id);
            let ghost c = choose|k: int|
                0 <= k < q@.len() && q@[k] == id && forall|j: int| 0 <= j < k ==> q@[j] != id;
            assert(0 <= i < q@.len() && q@[i as int] == id && forall|j: int| 0 <= j < i ==> q@[j] != id);
            assert(c == i as int) by {
                if c < i {
                    assert(q@[c] != id);
                }
                if c > i {
                    assert(q@[i as int] != id);
                }
            }
            return Some(i);
        }
        i = i + 1;
    }
    None
}

fn remove_all(q: &Vec<u128>, id: u128) -> (res: Vec<u128>)
    ensures
        res@ == without(q@, id),
{
    let mut res: Vec<u128> = Vec::new();
    let mut i: usize = 0;
    while i < q.len()
        invariant
            i <= q@.len(),
            res@ == q@.subrange(0, i as int).filter(other_than(id)),
        decreases q@.len() - i,
    {
        proof {
            let s = q@.subrange(0, i + 1);
            assert(s.drop_last() == q@.subrange(0, i as int));
            reveal_with_fuel(Seq::filter, 1);
        }
        if q[i] != id {
            res.push(q[i]);
        }
        i = i + 1;
    }
    assert(q@.subrange(0, q@.len() as int) == q@);
    res
}

impl PlayerQueue {
    /// An empty queue, positioned at its start.
    pub fn new() -> (res: Self)
        ensures
            res.queue@ == Seq::<u128>::empty(),
            res.position == 0,
    {
        PlayerQueue { queue: Vec::new(), position: 0 }
    }

    /// Handles one queue message and returns what the player must load.
    pub fn handle(&mut self, msg: QueueMsg) -> (act: QueueAction)
        requires
            can_handle(old(self).queue@, msg),
        ensures
            (final(self).queue@, final(self).position, act) == queue_step(
                old(self).queue@,
                old(self).position,
                msg,
            ),
    {
        match msg {
            QueueMsg::Push(id) => {
                self.queue.push(id);
                QueueAction::Keep
            },
            QueueMsg::Rem(Some(id)) => {
                let found = find_first(&self.queue, id);
                let act = match found {
                    None => QueueAction::Keep,
                    Some(at) => {
                        if at > self.position {
                            let p = if self.position == 0 { 0 } else { self.position - 1 };
                            self.position = p;
                            QueueAction::SetPlayer(get_track(&self.queue, p))
                        } else if at == self.position {
                            let p = if self.position == usize::MAX {
                                self.position
                            } else {
                                self.position + 1
                            };
                            QueueAction::SetPlayer(get_track(&self.queue, p))
                        } else {
                            QueueAction::Keep
                        }
                    },
                };
                if found.is_some() {
                    self.queue = remove_all(&self.queue, id);
                }
                act
            },
            QueueMsg::Rem(None) => {
                let act = if self.queue.len() - 1 == self.position {
                    QueueAction::SetPlayer(None)
                } else {
                    QueueAction::Keep
                };
                self.queue.remove(0);
                act
            },
            QueueMsg::ForcePlay(id) => {
                self.queue.push(id);
                self.position = self.queue.len() - 1;
                QueueAction::SetPlayer(Some(id))
            },
            QueueMsg::Skip | QueueMsg::Ended => {
                if self.position < usize::MAX {
                    self.position = self.position + 1;
                }
                QueueAction::SetPlayer(get_track(&self.queue, self.position))
            },
            QueueMsg::SkipBack => {
                if self.position > 0 {
                    self.position = self.position - 1;
                }
                QueueAction::SetPlayer(get_track(&self.queue, self.position))
            },
        }
    }
}

/// The address of a query about one id: the server's base address, the
/// endpoint, and the id as the query string `id=` followed by its hyphenated text.
pub open spec fn id_query_text(base: Seq<char>, endpoint: Seq<char>, id: u128) -> Seq<char> {
    base + endpoint + "?id="@ + uuid_text(id)
}

/// The address of a query about `id` at `endpoint` of the server at `base`.
pub fn id_query_url(base: &str, endpoint: &str, id: u128) -> (res: String)
    ensures
        res@ == id_query_text(base@, endpoint@, id),
{
    let mut s = String::from_str(base);
    s.append(endpoint);
    s.append("?id=");
    let t = uuid_string(id);
    s.append(t.as_str());
    s
}

/// The source the web player's audio element is given: the stream of the
/// track, or nothing when playback stops.
pub fn player_source(base: &str, track: Option<u128>) -> (res: String)
    ensures
        track matches Some(t) ==> res@ == id_query_text(base@, "/api/track/stream"@, t),
        track is None ==> res@ == Seq::<char>::empty(),
{
    match track {
        Some(t) => id_query_url(base, "/api/track/stream", t),
        None => String::new(),
    }
}

/// The cover art an album shows: that of its first track that has one.
pub fn first_cover_art(covers: &Vec<Option<u128>>) -> (res: Option<u128>)
    ensures
        res matches Some(c) ==> exists|i: int|
            0 <= i < covers@.len() && covers@[i] == Some(c) && forall|j: int|
                0 <= j < i ==> covers@[j] is None,
        res is None ==> forall|j: int| 0 <= j < covers@.len() ==> covers@[j] is None,
{
    let mut i: usize = 0;
    while i < covers.len()
        invariant
            i <= covers@.len(),
            forall|j: int| 0 <= j < i ==> covers@[j] is None,
        decreases covers@.len() - i,
    {
        if let Some(c) = covers[i] {
            return Some(c);
        }
        i = i + 1;
    }
    None
}

/// The line the player shows for the current track: its title and its
/// artist's name, or `?` when the artist is unknown.
pub fn now_playing_line(title: &str, artist: &Option<String>) -> (res: String)
    ensures
        artist matches Some(a) ==> res@ == title@ + " - "@ + a@,
        artist is None ==> res@ == title@ + " - ?"@,
{
    let mut s = String::from_str(title);
    match artist {
        Some(a) => {
            s.append(" - ");
            s.append(a.as_str());
        },
        None => {
            s.append(" - ?");
        },
    }
    s
}

} // verus!
