use vstd::prelude::*;
use sha2::{Digest, Sha256};

verus! {

/// The SHA-256 digest of `data`.
pub uninterp spec fn sha256_of(data: Seq<u8>) -> Seq<u8>;

/// `sha2::Sha256::digest`: the SHA-256 digest of `data`, which is 32 bytes long.
#[verifier::external_body]
fn sha256_digest(data: &[u8]) -> (res: Vec<u8>)
    ensures
        res@ == sha256_of(data@),
        res@.len() == 32,
{
    Sha256::digest(data).to_vec()
}

/// The SHA-256 digest of `data`, as a plain array.
pub fn hash(data: &[u8]) -> (res: [u8; 32])
    ensures
        res@ == sha256_of(data@),
{
    let sha = sha256_digest(data);
    let mut actual_hash: [u8; 32] = [0u8; 32];
    let mut i: usize = 0;
    while i < 32
        invariant
            i <= 32,
            sha@.len() == 32,
            forall|k: int| 0 <= k < i ==> actual_hash@[k] == sha@[k],
        decreases 32 - i,
    {
        actual_hash[i] = sha[i];
        i = i + 1;
    }
    assert(actual_hash@ == sha@);
    actual_hash
}

/// What one tag of an audio file says about the track; the fields the file does
/// not set are `None`. `picture` is the first picture of the tag.
pub struct TagInfo {
    pub title: Option<String>,
    pub artist: Option<String>,
    pub artist_sort: Option<String>,
    pub album: Option<String>,
    pub album_sort: Option<String>,
    pub disk: Option<u32>,
    pub track: Option<u32>,
    pub picture: Option<Vec<u8>>,
}

/// The metadata of an uploaded track, merged from all its tags. `img` is the
/// cover picture with its SHA-256 digest.
pub struct Metadata {
    pub title: String,
    pub artist: Option<String>,
    pub artist_sort: Option<String>,
    pub album: Option<String>,
    pub album_sort: Option<String>,
    pub img: Option<(Vec<u8>, [u8; 32])>,
    pub disk_track: (Option<u32>, Option<u32>),
}

/// The metadata as sequences, for contracts.
pub struct MetaModel {
    pub title: Seq<char>,
    pub artist: Option<Seq<char>>,
    pub artist_sort: Option<Seq<char>>,
    pub album: Option<Seq<char>>,
    pub album_sort: Option<Seq<char>>,
    pub img: Option<(Seq<u8>, Seq<u8>)>,
    pub disk: Option<u32>,
    pub track: Option<u32>,
}

/// The view of an optional string.
pub open spec fn opt_view(o: Option<String>) -> Option<Seq<char>> {
    match o {
        Some(s) => Some(s@),
        None => None,
    }
}

/// The first of `a` and `b` that is set.
pub open spec fn first_of<T>(a: Option<T>, b: Option<T>) -> Option<T> {
    if a is Some { a } else { b }
}

/// The metadata after one more tag is merged in: a field already set stays;
/// an unset field takes the tag's value; the title, which starts as the
/// original file name, takes the tag's title while it is still that name.
pub open spec fn merge_tag(orig: Seq<char>, m: MetaModel, tag: TagInfo) -> MetaModel {
    MetaModel {
        title: if orig == m.title {
            match tag.title {
                Some(t) => t@,
                None => m.title,
            }
        } else {
            m.title
        },
        artist: first_of(m.artist, opt_view(tag.artist)),
        artist_sort: first_of(m.artist_sort, opt_view(tag.artist_sort)),
        album: first_of(m.album, opt_view(tag.album)),
        album_sort: first_of(m.album_sort, opt_view(tag.album_sort)),
        img: if m.img is Some {
            m.img
        } else {
            match tag.picture {
                Some(p) => Some((p@, sha256_of(p@))),
                None => None,
            }
        },
        disk: first_of(m.disk, tag.disk),
        track: first_of(m.track, tag.track),
    }
}

/// The metadata merged from `tags`, in order, starting from the original file name.
pub open spec fn merge_tags(orig: Seq<char>, tags: Seq<TagInfo>) -> MetaModel
    decreases tags.len(),
{
    if tags.len() == 0 {
        MetaModel {
            title: orig,
            artist: None,
            artist_sort: None,
            album: None,
            album_sort: None,
            img: None,
            disk: None,
            track: None,
        }
    } else {
        merge_tag(orig, merge_tags(orig, tags.drop_last()), tags.last())
    }
}

impl Metadata {
    /// The metadata as sequences.
    pub open spec fn model(self) -> MetaModel {
        MetaModel {
            title: self.title@,
            artist: opt_view(self.artist),
            artist_sort: opt_view(self.artist_sort),
            album: opt_view(self.album),
            album_sort: opt_view(self.album_sort),
            img: match self.img {
                Some((p, h)) => Some((p@, h@)),
                None => None,
            },
            disk: self.disk_track.0,
            track: self.disk_track.1,
        }
    }
}

fn clone_opt(o: &Option<String>) -> (res: Option<String>)
    ensures
        opt_view(res) == opt_view(*o),
{
    match o {
        Some(s) => Some(s.clone()),
        None => None,
    }
}

fn clone_bytes(v: &Vec<u8>) -> (res: Vec<u8>)
    ensures
        res@ == v@,
{
    let mut res: Vec<u8> = Vec::new();
    let mut i: usize = 0;
    while i < v.len()
        invariant
            i <= v@.len(),
            res@ == v@.subrange(0, i as int),
        decreases v@.len() - i,
    {
        res.push(v[i]);
        i = i + 1;
        assert(res@ == v@.subrange(0, i as int));
    }
    assert(v@.subrange(0, v@.len() as int) == v@);
    res
}

/// Merges the tags of an uploaded file into its metadata. The title starts as
/// the original file name; every other field takes the first value a tag sets.
pub fn get_metadata(orig_fname: &String, tags: &Vec<TagInfo>) -> (res: Metadata)
    ensures
        res.model() == merge_tags(orig_fname@, tags@),
{
    let mut m = Metadata {
        title: orig_fname.clone(),
        artist: None,
        artist_sort: None,
        album: None,
        album_sort: None,
        img: None,
        disk_track: (None, None),
    };
    let mut i: usize = 0;
    while i < tags.len()
        invariant
            i <= tags@.len(),
            m.model() == merge_tags(orig_fname@, tags@.subrange(0, i as int)),
        decreases tags@.len() - i,
    {
        let tag = &tags[i];
        assert(tags@.subrange(0, i + 1).drop_last() == tags@.subrange(0, i as int));
        if *orig_fname == m.title {
            if let Some(t) = &tag.title {
                m.title = t.clone();
            }
        }
        if m.artist.is_none() {
            m.artist = clone_opt(&tag.artist);
        }
        if m.artist_sort.is_none() {
            m.artist_sort = clone_opt(&tag.artist_sort);
        }
        if m.album.is_none() {
            m.album = clone_opt(&tag.album);
        }
        if m.album_sort.is_none() {
            m.album_sort = clone_opt(&tag.album_sort);
        }
        if m.disk_track.0.is_none() {
            m.disk_track.0 = tag.disk;
        }
        if m.disk_track.1.is_none() {
            m.disk_track.1 = tag.track;
        }
        if m.img.is_none() {
            if let Some(p) = &tag.picture {
                let h = hash(p.as_slice());
                m.img = Some((clone_bytes(p), h));
            }
        }
        i = i + 1;
    }
    assert(tags@.subrange(0, tags@.len() as int) == tags@);
    m
}

/// The samples of a track, padded with silence to at least five seconds.
pub fn pad_samples(orig: &Vec<i16>, sample_rate: u32) -> (res: Vec<i16>)
    requires
        sample_rate as int * 5 <= usize::MAX,
    ensures
        orig@.len() >= sample_rate * 5 ==> res@ == orig@,
        orig@.len() < sample_rate * 5 ==> {
            &&& res@.len() == sample_rate * 5
            &&& res@.subrange(0, orig@.len() as int) == orig@
            &&& forall|i: int| orig@.len() <= i < res@.len() ==> res@[i] == 0
        },
{
    let full_len: usize = sample_rate as usize * 5;
    let mut new: Vec<i16> = Vec::new();
    let mut i: usize = 0;
    while i < orig.len()
        invariant
            i <= orig@.len(),
            new@ == orig@.subrange(0, i as int),
        decreases orig@.len() - i,
    {
        new.push(orig[i]);
        i = i + 1;
        assert(new@ == orig@.subrange(0, i as int));
    }
    assert(orig@.subrange(0, orig@.len() as int) == orig@);
    while new.len() < full_len
        invariant
            new@.len() >= orig@.len(),
            new@.subrange(0, orig@.len() as int) == orig@,
            forall|k: int| orig@.len() <= k < new@.len() ==> new@[k] == 0,
            orig@.len() >= full_len ==> new@ == orig@,
            new@.len() <= if orig@.len() >= full_len { orig@.len() as int } else { full_len as int },
        decreases full_len - new@.len(),
    {
        new.push(0);
    }
    new
}

/// The window of mono samples at 22050 Hz that goes into the spectrogram:
/// five seconds from a third of the way in when the track is longer than eight
/// seconds, else the first five seconds.
pub fn spectrogram_window(len: usize) -> (res: (usize, usize))
    ensures
        len > 22050 * 8 ==> res == (len / 3, (len / 3 + 22050 * 5) as usize),
        len <= 22050 * 8 ==> res == (0usize, (22050 * 5) as usize),
{
    if len > 22050 * 8 {
        (len / 3, len / 3 + 22050 * 5)
    } else {
        (0, 22050 * 5)
    }
}

/// What storing a track does about one of the catalog entries it points to
/// (its cover art, artist or album).
#[derive(Clone, Copy, PartialEq, Eq, Structural, Debug)]
pub enum CatalogStep {
    /// The metadata names no such entry; the track points to none.
    Absent,
    /// An entry with the same key exists; the track points to it.
    Reuse(u128),
    /// No entry has the key; a new one is stored under this id.
    Insert(u128),
}

/// The catalog step for one entry: `named` tells whether the metadata names it,
/// `found` is the entry the lookup by its key (the picture's digest, the
/// artist's name, the album's title) found, and `fresh` a new id.
pub fn catalog_step(named: bool, found: Option<u128>, fresh: u128) -> (res: CatalogStep)
    ensures
        !named ==> res == CatalogStep::Absent,
        named ==> (found matches Some(id) ==> res == CatalogStep::Reuse(id)),
        named && found is None ==> res == CatalogStep::Insert(fresh),
{
    if !named {
        CatalogStep::Absent
    } else {
        match found {
            Some(id) => CatalogStep::Reuse(id),
            None => CatalogStep::Insert(fresh),
        }
    }
}

/// The id a track row records for a catalog step.
pub fn step_target(step: CatalogStep) -> (res: Option<u128>)
    ensures
        step is Absent ==> res is None,
        step matches CatalogStep::Reuse(id) ==> res == Some(id),
        step matches CatalogStep::Insert(id) ==> res == Some(id),
{
    match step {
        CatalogStep::Absent => None,
        CatalogStep::Reuse(id) => Some(id),
        CatalogStep::Insert(id) => Some(id),
    }
}

/// The catalog step a spec gives for one entry.
pub open spec fn catalog_step_of(named: bool, found: Option<u128>, fresh: u128) -> CatalogStep {
    if !named {
        CatalogStep::Absent
    } else {
        match found {
            Some(id) => CatalogStep::Reuse(id),
            None => CatalogStep::Insert(fresh),
        }
    }
}

/// The catalog steps for the entries a stored track points to, in order (its
/// cover art, artist and album): for each, whether the metadata names it, what
/// the lookup by its key found, and a new id.
pub fn catalog_steps(named: &Vec<bool>, found: &Vec<Option<u128>>, fresh: &Vec<u128>) -> (res: Vec<CatalogStep>)
    requires
        found@.len() == named@.len(),
        fresh@.len() == named@.len(),
    ensures
        res@.len() == named@.len(),
        forall|i: int|
            0 <= i < named@.len() ==> #[trigger] res@[i] == catalog_step_of(named@[i], found@[i], fresh@[i]),
{
    let mut res: Vec<CatalogStep> = Vec::new();
    let mut i: usize = 0;
    while i < named.len()
        invariant
            i <= named@.len(),
            found@.len() == named@.len(),
            fresh@.len() == named@.len(),
            res@.len() == i,
            forall|k: int|
                0 <= k < i ==> #[trigger] res@[k] == catalog_step_of(named@[k], found@[k], fresh@[k]),
        decreases named@.len() - i,
    {
        res.push(catalog_step(named[i], found[i], fresh[i]));
        i = i + 1;
    }
    res
}

/// The row a stored track gets: its id, metadata, file name and folder, owner,
/// and the catalog entries it points to.
pub struct TrackRow {
    pub id: u128,
    pub title: String,
    pub disk: Option<u32>,
    pub track: Option<u32>,
    pub orig_fname: String,
    pub album: Option<u128>,
    pub artist: Option<u128>,
    pub cover_art: Option<u128>,
    pub owner: u128,
    pub path: String,
}

/// The row of a stored track, from its metadata and the steps taken for its
/// cover art, artist and album.
pub fn track_row(
    id: u128,
    owner: u128,
    dir: String,
    meta: &Metadata,
    orig_fname: String,
    cover: CatalogStep,
    artist: CatalogStep,
    album: CatalogStep,
) -> (res: TrackRow)
    ensures
        res.id == id,
        res.owner == owner,
        res.path@ == dir@,
        res.title@ == meta.title@,
        res.disk == meta.disk_track.0,
        res.track == meta.disk_track.1,
        res.orig_fname@ == orig_fname@,
        res.cover_art == step_id(cover),
        res.artist == step_id(artist),
        res.album == step_id(album),
{
    TrackRow {
        id,
        title: meta.title.clone(),
        disk: meta.disk_track.0,
        track: meta.disk_track.1,
        orig_fname,
        album: step_target(album),
        artist: step_target(artist),
        cover_art: step_target(cover),
        owner,
        path: dir,
    }
}

/// The id a catalog step points to.
pub open spec fn step_id(step: CatalogStep) -> Option<u128> {
    match step {
        CatalogStep::Absent => None,
        CatalogStep::Reuse(id) => Some(id),
        CatalogStep::Insert(id) => Some(id),
    }
}

} // verus!
