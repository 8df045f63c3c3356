use vstd::prelude::*;

verus! {

/// What the player knows of one queued track.
#[derive(Clone, Copy, PartialEq, Eq, Structural, Debug)]
pub struct TrackDecoderMetaData {
    pub id: u128,
}

/// The state the decoder reports: the current track, how far into it playback
/// is and how long it is (both in nanoseconds), and the queued tracks.
pub struct CurrentlyDecoding {
    pub curr: u128,
    pub at: u128,
    pub len: u128,
    pub tracks: Vec<TrackDecoderMetaData>,
}

/// Whether two reports are equal, field by field.
pub open spec fn same_decoding(a: CurrentlyDecoding, b: CurrentlyDecoding) -> bool {
    a.curr == b.curr && a.at == b.at && a.len == b.len && a.tracks@ == b.tracks@
}

impl CurrentlyDecoding {
    /// An equal copy of the report.
    pub fn duplicate(&self) -> (res: CurrentlyDecoding)
        ensures
            same_decoding(res, *self),
    {
        let mut tracks: Vec<TrackDecoderMetaData> = Vec::new();
        let mut i: usize = 0;
        while i < self.tracks.len()
            invariant
                i <= self.tracks@.len(),
                tracks@ == self.tracks@.subrange(0, i as int),
            decreases self.tracks@.len() - i,
        {
            tracks.push(self.tracks[i]);
            i = i + 1;
            assert(tracks@ == self.tracks@.subrange(0, i as int));
        }
        assert(self.tracks@.subrange(0, self.tracks@.len() as int) == self.tracks@);
        CurrentlyDecoding { curr: self.curr, at: self.at, len: self.len, tracks }
    }

    /// Whether `self` and `other` are equal, field by field.
    pub fn same_as(&self, other: &CurrentlyDecoding) -> (res: bool)
        ensures
            res == same_decoding(*self, *other),
    {
        if self.curr != other.curr || self.at != other.at || self.len != other.len {
            return false;
        }
        if self.tracks.len() != other.tracks.len() {
            return false;
        }
        let mut i: usize = 0;
        while i < self.tracks.len()
            invariant
                self.tracks@.len() == other.tracks@.len(),
                i <= self.tracks@.len(),
                forall|k: int| 0 <= k < i ==> self.tracks@[k] == other.tracks@[k],
            decreases self.tracks@.len() - i,
        {
            if self.tracks[i] != other.tracks[i] {
                return false;
            }
            i = i + 1;
        }
        assert(self.tracks@ == other.tracks@);
        true
    }
}

/// What a poll of a one-shot channel found.
pub enum Received<T> {
    /// The value the sender sent.
    Value(T),
    /// Nothing yet; the sender is still working.
    Empty,
    /// The sender went away without sending.
    Closed,
}

/// Whether a poll settles a metadata field: it does unless nothing arrived yet.
pub open spec fn settled<T>(r: Received<T>) -> bool {
    !(r is Empty)
}

/// What the player's poll task remembers: the last report it saw, and the
/// metadata of the current track fetched so far.
pub struct PollTaskState {
    pub prev_state: Option<CurrentlyDecoding>,
    pub title: Option<String>,
    pub album: Option<String>,
    pub artist: Option<String>,
    pub cover_art: Option<Vec<u8>>,
}

impl PollTaskState {
    /// A state that has seen no report and fetched no metadata.
    pub fn new() -> (res: Self)
        ensures
            res.prev_state is None,
            res.title is None,
            res.album is None,
            res.artist is None,
            res.cover_art is None,
    {
        PollTaskState { prev_state: None, title: None, album: None, artist: None, cover_art: None }
    }

    /// Records a new report and tells whether it differs from the last one, and
    /// whether it is about a different track.
    pub fn set_new_decoding(&mut self, new_state: &CurrentlyDecoding) -> (res: (bool, bool))
        ensures
            res.0 == !(old(self).prev_state matches Some(p) && same_decoding(p, *new_state)),
            res.1 == !(old(self).prev_state matches Some(p) && p.curr == new_state.curr),
            final(self).prev_state matches Some(p) && same_decoding(p, *new_state),
            final(self).title == old(self).title,
            final(self).album == old(self).album,
            final(self).artist == old(self).artist,
            final(self).cover_art == old(self).cover_art,
    {
        let (is_new, diff_track) = match &self.prev_state {
            Some(p) => (!p.same_as(new_state), p.curr != new_state.curr),
            None => (true, true),
        };
        self.prev_state = Some(new_state.duplicate());
        (is_new, diff_track)
    }

    /// Takes the result of polling for the title; returns whether the title is settled.
    pub fn take_title(&mut self, r: Received<String>) -> (ready: bool)
        ensures
            ready == settled(r),
            r matches Received::Value(t) ==> final(self).title == Some(t),
            !(r is Value) ==> final(self).title == old(self).title,
            final(self).prev_state == old(self).prev_state,
            final(self).album == old(self).album,
            final(self).artist == old(self).artist,
            final(self).cover_art == old(self).cover_art,
    {
        match r {
            Received::Value(t) => {
                self.title = Some(t);
                true
            },
            Received::Empty => false,
            Received::Closed => true,
        }
    }

    /// Takes the result of polling for the album name; returns whether it is settled.
    pub fn take_album(&mut self, r: Received<Option<String>>) -> (ready: bool)
        ensures
            ready == settled(r),
            r matches Received::Value(a) ==> final(self).album == a,
            !(r is Value) ==> final(self).album == old(self).album,
            final(self).prev_state == old(self).prev_state,
            final(self).title == old(self).title,
            final(self).artist == old(self).artist,
            final(self).cover_art == old(self).cover_art,
    {
        match r {
            Received::Value(a) => {
                self.album = a;
                true
            },
            Received::Empty => false,
            Received::Closed => true,
        }
    }

    /// Takes the result of polling for the artist name; returns whether it is settled.
    pub fn take_artist(&mut self, r: Received<Option<String>>) -> (ready: bool)
        ensures
            ready == settled(r),
            r matches Received::Value(a) ==> final(self).artist == a,
            !(r is Value) ==> final(self).artist == old(self).artist,
            final(self).prev_state == old(self).prev_state,
            final(self).title == old(self).title,
            final(self).album == old(self).album,
            final(self).cover_art == old(self).cover_art,
    {
        match r {
            Received::Value(a) => {
                self.artist = a;
                true
            },
            Received::Empty => false,
            Received::Closed => true,
        }
    }

    /// Takes the result of polling for the cover art; returns whether it is settled.
    pub fn take_cover_art(&mut self, r: Received<Option<Vec<u8>>>) -> (ready: bool)
        ensures
            ready == settled(r),
            r matches Received::Value(c) ==> final(self).cover_art == c,
            !(r is Value) ==> final(self).cover_art == old(self).cover_art,
            final(self).prev_state == old(self).prev_state,
            final(self).title == old(self).title,
            final(self).album == old(self).album,
            final(self).artist == old(self).artist,
    {
        match r {
            Received::Value(c) => {
                self.cover_art = c;
                true
            },
            Received::Empty => false,
            Received::Closed => true,
        }
    }

    /// Forgets the metadata of the previous track, before a new fetch begins.
    pub fn clear_metadata(&mut self)
        ensures
            final(self).prev_state == old(self).prev_state,
            final(self).title is None,
            final(self).album is None,
            final(self).artist is None,
            final(self).cover_art is None,
    {
        self.title = None;
        self.album = None;
        self.artist = None;
        self.cover_art = None;
    }
    /// The texts the player shows once the metadata is in: the title, and the
    /// album and artist names, with `?` for one that is unknown.
    pub fn shown_metadata(&self) -> (res: (String, String, String))
        requires
            self.title is Some,
        ensures
            res.0@ == self.title.unwrap()@,
            res.1@ == (match self.album {
                Some(a) => a@,
                None => "?"@,
            }),
            res.2@ == (match self.artist {
                Some(a) => a@,
                None => "?"@,
            }),
    {
        let title = match &self.title {
            Some(t) => t.clone(),
            None => String::new(),
        };
        let album = match &self.album {
            Some(a) => a.clone(),
            None => String::from_str("?"),
        };
        let artist = match &self.artist {
            Some(a) => a.clone(),
            None => String::from_str("?"),
        };
        (title, album, artist)
    }
}

} // verus!
