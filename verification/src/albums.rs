use vstd::prelude::*;
use crate::text::chars_of;

verus! {

/// An album as the client lists it: its id, its title and its tracks.
pub struct AlbumEntry {
    pub id: u128,
    pub title: String,
    pub tracks: Vec<u128>,
}

/// Whether `a` comes no later than `b` in the order of strings: lexicographic
/// by character, which for UTF-8 text is the byte order that `String` uses.
pub open spec fn title_le(a: Seq<char>, b: Seq<char>) -> bool
    decreases a.len(),
{
    if a.len() == 0 {
        true
    } else if b.len() == 0 {
        false
    } else if (a[0] as u32) < (b[0] as u32) {
        true
    } else if (a[0] as u32) > (b[0] as u32) {
        false
    } else {
        title_le(a.drop_first(), b.drop_first())
    }
}

/// Whether the albums are in the order of their titles.
pub open spec fn sorted_by_title(s: Seq<AlbumEntry>) -> bool {
    forall|i: int, j: int| 0 <= i < j < s.len() ==> title_le(#[trigger] s[i].title@, #[trigger] s[j].title@)
}

/// Any two titles are ordered one way or the other.
pub proof fn lemma_title_total(a: Seq<char>, b: Seq<char>)
    ensures
        title_le(a, b) || title_le(b, a),
    decreases a.len(),
{
    if a.len() > 0 && b.len() > 0 && a[0] == b[0] {
        lemma_title_total(a.drop_first(), b.drop_first());
    } else if a.len() > 0 && b.len() > 0 {
        if (a[0] as u32) == (b[0] as u32) {
            vstd::utf8::char_u32_cast(a[0], a[0] as u32);
            vstd::utf8::char_u32_cast(b[0], b[0] as u32);
        }
    }
}

/// The order of titles is transitive.
pub proof fn lemma_title_trans(a: Seq<char>, b: Seq<char>, c: Seq<char>)
    requires
        title_le(a, b),
        title_le(b, c),
    ensures
        title_le(a, c),
    decreases a.len(),
{
    if a.len() > 0 && b.len() > 0 && c.len() > 0 {
        if (a[0] as u32) == (b[0] as u32) {
            vstd::utf8::char_u32_cast(a[0], a[0] as u32);
            vstd::utf8::char_u32_cast(b[0], b[0] as u32);
        }
        if (b[0] as u32) == (c[0] as u32) {
            vstd::utf8::char_u32_cast(b[0], b[0] as u32);
            vstd::utf8::char_u32_cast(c[0], c[0] as u32);
        }
        if a[0] == b[0] && b[0] == c[0] {
            lemma_title_trans(a.drop_first(), b.drop_first(), c.drop_first());
        }
    }
}

/// Whether title `a` comes no later than title `b`.
pub fn title_le_exec(a: &str, b: &str) -> (res: bool)
    ensures
        res == title_le(a@, b@),
{
    let x = chars_of(a);
    let y = chars_of(b);
    let mut i: usize = 0;
    assert(x@.subrange(0, x@.len() as int) == x@);
    assert(y@.subrange(0, y@.len() as int) == y@);
    while i < x.len()
        invariant
            x@ == a@,
            y@ == b@,
            i <= x@.len(),
            i <= y@.len(),
            title_le(x@, y@) == title_le(x@.subrange(i as int, x@.len() as int), y@.subrange(
                i as int,
                y@.len() as int,
            )),
        decreases x@.len() - i,
    {
        let ghost xs = x@.subrange(i as int, x@.len() as int);
        let ghost ys = y@.subrange(i as int, y@.len() as int);
        if i >= y.len() {
            assert(title_le(xs, ys) == false);
            return false;
        }
        assert(xs[0] == x@[i as int] && ys[0] == y@[i as int]);
        let cx = x[i] as u32;
        let cy = y[i] as u32;
        if cx < cy {
            return true;
        }
        if cx > cy {
            assert(!title_le(xs, ys));
            return false;
        }
        proof {
            vstd::utf8::char_u32_cast(x@[i as int], cx);
            vstd::utf8::char_u32_cast(y@[i as int], cy);
        }
        assert(xs.drop_first() == x@.subrange(i + 1, x@.len() as int));
        assert(ys.drop_first() == y@.subrange(i + 1, y@.len() as int));
        i = i + 1;
    }
    assert(x@.subrange(i as int, x@.len() as int).len() == 0);
    true
}

/// The albums in the order of their titles; the order among albums with the
/// same title is unspecified, as with `sort_unstable_by`.
pub fn sort_albums(albums: Vec<AlbumEntry>) -> (res: Vec<AlbumEntry>)
    ensures
        res@.to_multiset() == albums@.to_multiset(),
        sorted_by_title(res@),
{
    broadcast use vstd::seq_lib::group_to_multiset_ensures;

    let mut rest = albums;
    let mut res: Vec<AlbumEntry> = Vec::new();
    while rest.len() > 0
        invariant
            res@.to_multiset().add(rest@.to_multiset()) == albums@.to_multiset(),
            sorted_by_title(res@),
        decreases rest@.len(),
    {
        let ghost before = rest@;
        let x = rest.pop().unwrap();
        proof {
            assert(before == rest@.push(x));
            vstd::seq_lib::to_multiset_build(rest@, x);
        }
        let mut k: usize = 0;
        while k < res.len() && title_le_exec(res[k].title.as_str(), x.title.as_str())
            invariant
                k <= res@.len(),
                forall|i: int| 0 <= i < k ==> title_le(#[trigger] res@[i].title@, x.title@),
            decreases res@.len() - k,
        {
            k = k + 1;
        }
        let ghost old_res = res@;
        proof {
            if k < res@.len() {
                assert(!title_le(res@[k as int].title@, x.title@));
                lemma_title_total(res@[k as int].title@, x.title@);
                assert forall|j: int| k <= j < res@.len() implies title_le(x.title@, #[trigger] res@[j].title@) by {
                    if j > k {
                        lemma_title_trans(x.title@, res@[k as int].title@, res@[j].title@);
                    }
                }
            }
        }
        res.insert(k, x);
        proof {
            vstd::seq_lib::to_multiset_insert(old_res, k as int, x);
            assert forall|i: int, j: int| 0 <= i < j < res@.len() implies title_le(#[trigger] res@[i].title@, #[trigger] res@[j].title@) by {
                if j < k {
                    assert(res@[i] == old_res[i] && res@[j] == old_res[j]);
                } else if j == k {
                    assert(res@[i] == old_res[i]);
                } else if i == k {
                    assert(res@[j] == old_res[j - 1]);
                } else if i < k {
                    assert(res@[i] == old_res[i] && res@[j] == old_res[j - 1]);
                } else {
                    assert(res@[i] == old_res[i - 1] && res@[j] == old_res[j - 1]);
                }
            }
        }
    }
    res
}

/// Where the album `id` stands in `albums`, as the id-to-row map built from the
/// list finds it: that map keeps the later row of an id that occurs twice.
pub fn album_position(albums: &Vec<AlbumEntry>, id: u128) -> (res: Option<usize>)
    ensures
        res matches Some(i) ==> i < albums@.len() && albums@[i as int].id == id && forall|j: int|
            i < j < albums@.len() ==> albums@[j].id != id,
        res is None ==> forall|j: int| 0 <= j < albums@.len() ==> albums@[j].id != id,
{
    let mut i: usize = albums.len();
    while i > 0
        invariant
            i <= albums@.len(),
            forall|j: int| i <= j < albums@.len() ==> albums@[j].id != id,
        decreases i,
    {
        if albums[i - 1].id == id {
            return Some(i - 1);
        }
        i = i - 1;
    }
    None
}

/// The cover-art fetches an album listing starts: for each album that has a
/// track, in order, the album's id and the id of its first track.
pub open spec fn cover_art_plan(albums: Seq<AlbumEntry>) -> Seq<(u128, u128)>
    decreases albums.len(),
{
    if albums.len() == 0 {
        Seq::empty()
    } else {
        let rest = cover_art_plan(albums.drop_last());
        let a = albums.last();
        if a.tracks@.len() > 0 {
            rest.push((a.id, a.tracks@[0]))
        } else {
            rest
        }
    }
}

/// The album and track ids whose cover art is fetched, as `cover_art_plan` says.
pub fn cover_art_requests(albums: &Vec<AlbumEntry>) -> (res: Vec<(u128, u128)>)
    ensures
        res@ == cover_art_plan(albums@),
{
    let mut res: Vec<(u128, u128)> = Vec::new();
    let mut i: usize = 0;
    while i < albums.len()
        invariant
            i <= albums@.len(),
            res@ == cover_art_plan(albums@.subrange(0, i as int)),
        decreases albums@.len() - i,
    {
        assert(albums@.subrange(0, i + 1).drop_last() == albums@.subrange(0, i as int));
        let a = &albums[i];
        if a.tracks.len() > 0 {
            res.push((a.id, a.tracks[0]));
        }
        i = i + 1;
    }
    assert(albums@.subrange(0, albums@.len() as int) == albums@);
    res
}

} // verus!
