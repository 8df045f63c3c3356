use vstd::prelude::*;
use crate::text::str_eq;

verus! {

/// The offsets of the pages that together cover a playlist of `total` tracks:
/// every multiple of the page size up to and including the last partial page.
pub fn page_offsets(total: u32) -> (res: Vec<u32>)
    requires
        total - total % 50 + 50 <= u32::MAX,
    ensures
        res@.len() == total / 50 + 1,
        forall|k: int| 0 <= k < res@.len() ==> res@[k] == 50 * k,
{
    let end: u32 = total - total % 50 + 50;
    let mut res: Vec<u32> = Vec::new();
    let mut off: u32 = 0;
    while off < end
        invariant
            end == total - total % 50 + 50,
            off % 50 == 0,
            off <= end,
            res@.len() == off / 50,
            forall|k: int| 0 <= k < res@.len() ==> res@[k] == 50 * k,
        decreases end - off,
    {
        res.push(off);
        off = off + 50;
    }
    res
}

/// One playlist of a search page: its id and the display name of its owner.
pub struct PlaylistRef {
    pub id: String,
    pub owner: Option<String>,
}

/// Whether a playlist is one the scraper skips: those made by Spotify itself.
pub open spec fn made_by_spotify(p: PlaylistRef) -> bool {
    p.owner matches Some(o) && o@ == "Spotify"@
}

/// The ids of a page that are new: not made by Spotify, not seen before
/// (earlier on the page included), in page order.
pub open spec fn new_ids(seen: Seq<Seq<char>>, page: Seq<PlaylistRef>) -> Seq<Seq<char>>
    decreases page.len(),
{
    if page.len() == 0 {
        Seq::empty()
    } else {
        let before = new_ids(seen, page.drop_last());
        let p = page.last();
        if made_by_spotify(p) || seen.contains(p.id@) || before.contains(p.id@) {
            before
        } else {
            before.push(p.id@)
        }
    }
}

fn contains_str(v: &Vec<String>, s: &str) -> (res: bool)
    ensures
        res == v.deep_view().contains(s@),
{
    let mut i: usize = 0;
    while i < v.len()
        invariant
            i <= v@.len(),
            forall|k: int| 0 <= k < i ==> v.deep_view()[k] != s@,
        decreases v@.len() - i,
    {
        if str_eq(v[i].as_str(), s) {
            assert(v.deep_view()[i as int] == s@);
            return true;
        }
        i = i + 1;
    }
    false
}

/// Filters a search page: returns the ids of the playlists to scrape, and adds
/// them to the set of ids seen so far.
pub fn playlist_filter(seen: &mut Vec<String>, page: &Vec<PlaylistRef>) -> (res: Vec<String>)
    ensures
        res.deep_view() == new_ids(old(seen).deep_view(), page@),
        final(seen).deep_view() == old(seen).deep_view() + res.deep_view(),
{
    let ghost seen0 = seen.deep_view();
    let mut res: Vec<String> = Vec::new();
    let mut i: usize = 0;
    while i < page.len()
        invariant
            i <= page@.len(),
            res.deep_view() == new_ids(seen0, page@.subrange(0, i as int)),
            seen.deep_view() == seen0 + res.deep_view(),
        decreases page@.len() - i,
    {
        assert(page@.subrange(0, i + 1).drop_last() == page@.subrange(0, i as int));
        let p = &page[i];
        let spotify = match &p.owner {
            Some(o) => str_eq(o.as_str(), "Spotify"),
            None => false,
        };
        assert(page@.subrange(0, i + 1).last() == page@[i as int]);
        assert(spotify == made_by_spotify(page@[i as int]));
        if !spotify && !contains_str(seen, p.id.as_str()) {
            proof {
                assert forall|x: Seq<char>| (seen0.contains(x) || res.deep_view().contains(x))
                    == seen.deep_view().contains(x) by {
                    if seen0.contains(x) {
                        let k = choose|k: int| 0 <= k < seen0.len() && seen0[k] == x;
                        assert(seen.deep_view()[k] == x);
                    }
                    if res.deep_view().contains(x) {
                        let k = choose|k: int| 0 <= k < res.deep_view().len() && res.deep_view()[k] == x;
                        assert(seen.deep_view()[seen0.len() + k] == x);
                    }
                    if seen.deep_view().contains(x) {
                        let k = choose|k: int| 0 <= k < seen.deep_view().len() && seen.deep_view()[k] == x;
                        if k < seen0.len() {
                            assert(seen0[k] == x);
                        } else {
                            assert(res.deep_view()[k - seen0.len()] == x);
                        }
                    }
                }
            }
            let ghost r0 = res.deep_view();
            let ghost s0 = seen.deep_view();
            assert(!seen0.contains(p.id@) && !r0.contains(p.id@));
            assert(new_ids(seen0, page@.subrange(0, i + 1)) == r0.push(p.id@));
            res.push(p.id.clone());
            seen.push(p.id.clone());
            assert(res.deep_view() == r0.push(p.id@));
            assert(seen.deep_view() == s0.push(p.id@));
            assert(seen.deep_view() == seen0 + res.deep_view());
        } else {
            proof {
                if !spotify {
                    let k = choose|k: int| 0 <= k < seen.deep_view().len() && seen.deep_view()[k] == p.id@;
                    if k < seen0.len() {
                        assert(seen0[k] == p.id@);
                    } else {
                        assert(res.deep_view()[k - seen0.len()] == p.id@);
                    }
                }
                assert(new_ids(seen0, page@.subrange(0, i + 1)) == res.deep_view());
            }
        }
        i = i + 1;
    }
    assert(page@.subrange(0, page@.len() as int) == page@);
    res
}

/// The line the scraper writes for a playlist with more than eight tracks:
/// its id, then the track ids, separated by commas. Shorter playlists get none.
pub open spec fn csv_text(plid: Seq<char>, tracks: Seq<Seq<char>>) -> Seq<char>
    decreases tracks.len(),
{
    if tracks.len() == 0 {
        plid + ","@
    } else if tracks.len() == 1 {
        plid + ","@ + tracks[0]
    } else {
        csv_text(plid, tracks.drop_last()) + ","@ + tracks.last()
    }
}

/// The CSV line for a playlist, ended by a newline, or nothing when it has at
/// most eight tracks.
pub fn csv_line(plid: &str, tracks: &Vec<String>) -> (res: Option<String>)
    ensures
        tracks@.len() <= 8 ==> res is None,
        tracks@.len() > 8 ==> (res matches Some(l) && l@ == csv_text(plid@, tracks.deep_view())
            + "\n"@),
{
    if tracks.len() <= 8 {
        return None;
    }
    let mut line = String::from_str(plid);
    line.append(",");
    line.append(tracks[0].as_str());
    let mut i: usize = 1;
    assert(tracks.deep_view().subrange(0, 1).len() == 1);
    assert(csv_text(plid@, tracks.deep_view().subrange(0, 1)) == plid@ + ","@ + tracks.deep_view()[0]);
    while i < tracks.len()
        invariant
            1 <= i <= tracks@.len(),
            line@ == csv_text(plid@, tracks.deep_view().subrange(0, i as int)),
        decreases tracks@.len() - i,
    {
        assert(tracks.deep_view().subrange(0, i + 1).drop_last() == tracks.deep_view().subrange(
            0,
            i as int,
        ));
        line.append(",");
        line.append(tracks[i].as_str());
        i = i + 1;
    }
    assert(tracks.deep_view().subrange(0, tracks@.len() as int) == tracks.deep_view());
    line.append("\n");
    Some(line)
}

/// One entry of a playlist page: whether it is a track (and not an episode),
/// the track's id, and whether it has a preview.
pub struct PlaylistItem {
    pub is_track: bool,
    pub id: Option<String>,
    pub has_preview: bool,
}

/// A page of a playlist's tracks: the offset it was asked for, and its entries,
/// or nothing when the request failed.
pub struct TrackPage {
    pub offset: u32,
    pub items: Option<Vec<PlaylistItem>>,
}

/// The ids of the entries the scraper keeps: tracks that have an id and a preview.
pub open spec fn kept_ids(items: Seq<PlaylistItem>) -> Seq<Seq<char>>
    decreases items.len(),
{
    if items.len() == 0 {
        Seq::empty()
    } else {
        let rest = kept_ids(items.drop_last());
        let it = items.last();
        if it.is_track && it.has_preview && it.id is Some {
            rest.push(it.id.unwrap()@)
        } else {
            rest
        }
    }
}

/// The tracks of a playlist gathered from its pages, in page order; nothing
/// when any page failed, as the scraper then skips the playlist.
pub open spec fn page_tracks(pages: Seq<TrackPage>) -> Option<Seq<Seq<char>>>
    decreases pages.len(),
{
    if pages.len() == 0 {
        Some(Seq::empty())
    } else {
        match (page_tracks(pages.drop_last()), pages.last().items) {
            (Some(before), Some(items)) => Some(before + kept_ids(items@)),
            _ => None,
        }
    }
}

/// Whether the pages stand in the order of their offsets.
pub open spec fn sorted_by_offset(pages: Seq<TrackPage>) -> bool {
    forall|i: int, j: int| 0 <= i < j < pages.len() ==> (#[trigger] pages[i]).offset <= (#[trigger] pages[j]).offset
}

/// The pages in the order of their offsets; they arrive in the order the
/// requests finished.
pub fn sort_pages(pages: Vec<TrackPage>) -> (res: Vec<TrackPage>)
    ensures
        res@.to_multiset() == pages@.to_multiset(),
        sorted_by_offset(res@),
{
    broadcast use vstd::seq_lib::group_to_multiset_ensures;

    let mut rest = pages;
    let mut res: Vec<TrackPage> = Vec::new();
    while rest.len() > 0
        invariant
            res@.to_multiset().add(rest@.to_multiset()) == pages@.to_multiset(),
            sorted_by_offset(res@),
        decreases rest@.len(),
    {
        let ghost before = rest@;
        let x = rest.pop().unwrap();
        proof {
            assert(before == rest@.push(x));
            vstd::seq_lib::to_multiset_build(rest@, x);
        }
        let mut k: usize = 0;
        while k < res.len() && res[k].offset <= x.offset
            invariant
                k <= res@.len(),
                forall|i: int| 0 <= i < k ==> (#[trigger] res@[i]).offset <= x.offset,
            decreases res@.len() - k,
        {
            k = k + 1;
        }
        let ghost old_res = res@;
        res.insert(k, x);
        proof {
            vstd::seq_lib::to_multiset_insert(old_res, k as int, x);
            assert forall|i: int, j: int| 0 <= i < j < res@.len() implies (#[trigger] res@[i]).offset
                <= (#[trigger] res@[j]).offset by {
                if j < k {
                    assert(res@[i] == old_res[i] && res@[j] == old_res[j]);
                } else if j == k {
                    assert(res@[i] == old_res[i]);
                } else if i == k {
                    assert(res@[j] == old_res[j - 1]);
                    assert(old_res[k as int].offset > x.offset);
                } else if i < k {
                    assert(res@[i] == old_res[i] && res@[j] == old_res[j - 1]);
                } else {
                    assert(res@[i] == old_res[i - 1] && res@[j] == old_res[j - 1]);
                }
            }
        }
    }
    res
}

/// The ids of the tracks kept from one page's entries.
fn page_kept(items: &Vec<PlaylistItem>, out: &mut Vec<String>)
    ensures
        final(out).deep_view() == old(out).deep_view() + kept_ids(items@),
{
    let ghost out0 = out.deep_view();
    let mut i: usize = 0;
    while i < items.len()
        invariant
            i <= items@.len(),
            out.deep_view() == out0 + kept_ids(items@.subrange(0, i as int)),
        decreases items@.len() - i,
    {
        assert(items@.subrange(0, i + 1).drop_last() == items@.subrange(0, i as int));
        let it = &items[i];
        if it.is_track && it.has_preview {
            match &it.id {
                Some(id) => {
                    let ghost o = out.deep_view();
                    out.push(id.clone());
                    assert(out.deep_view() == o.push(id@));
                },
                None => {},
            }
        }
        i = i + 1;
    }
    assert(items@.subrange(0, items@.len() as int) == items@);
}

/// The tracks of a playlist from its pages, taken in the order given: the kept
/// ids of every page, or nothing when a page failed.
pub fn playlist_tracks(pages: &Vec<TrackPage>) -> (res: Option<Vec<String>>)
    ensures
        page_tracks(pages@) is None ==> res is None,
        page_tracks(pages@) matches Some(t) ==> (res matches Some(v) && v.deep_view() == t),
{
    let mut out: Vec<String> = Vec::new();
    let mut i: usize = 0;
    while i < pages.len()
        invariant
            i <= pages@.len(),
            page_tracks(pages@.subrange(0, i as int)) == Some(out.deep_view()),
        decreases pages@.len() - i,
    {
        assert(pages@.subrange(0, i + 1).drop_last() == pages@.subrange(0, i as int));
        match &pages[i].items {
            None => {
                proof {
                    lemma_failed_page_stays_failed(pages@, i as int + 1);
                }
                return None;
            },
            Some(items) => {
                page_kept(items, &mut out);
            },
        }
        i = i + 1;
    }
    assert(pages@.subrange(0, pages@.len() as int) == pages@);
    Some(out)
}

/// A prefix of the pages that fails makes the whole fail.
proof fn lemma_failed_page_stays_failed(pages: Seq<TrackPage>, n: int)
    requires
        0 < n <= pages.len(),
        page_tracks(pages.subrange(0, n)) is None,
    ensures
        page_tracks(pages) is None,
    decreases pages.len() - n,
{
    if n < pages.len() {
        assert(pages.subrange(0, n + 1).drop_last() == pages.subrange(0, n));
        lemma_failed_page_stays_failed(pages, n + 1);
    } else {
        assert(pages.subrange(0, n) == pages);
    }
}

/// What the playlist search does after a failed page request.
#[derive(Clone, Copy, PartialEq, Eq, Structural, Debug)]
pub enum SearchStep {
    /// Go on with the next page of the same term.
    NextPage,
    /// Leave this term and go on with the next.
    NextTerm,
    /// Stop searching.
    Stop,
}

/// The search's answer to a failed request for the page at `offset`: an HTTP
/// error past the first pages ends the term, an HTTP error before that ends
/// the search, and any other error is passed over.
pub fn search_step_after_error(is_http: bool, offset: u32) -> (res: SearchStep)
    ensures
        is_http && offset > 300 ==> res == SearchStep::NextTerm,
        is_http && offset <= 300 ==> res == SearchStep::Stop,
        !is_http ==> res == SearchStep::NextPage,
{
    if is_http {
        if offset > 300 {
            SearchStep::NextTerm
        } else {
            SearchStep::Stop
        }
    } else {
        SearchStep::NextPage
    }
}

} // verus!
