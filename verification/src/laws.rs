use vstd::prelude::*;
use crate::control::{current_track, handled, DecoderControl, DecoderEffect, DecoderMsg};
use crate::decoding::{same_decoding, CurrentlyDecoding};
use crate::albums::{cover_art_plan, title_le, AlbumEntry};
use crate::auth::payload_section;
use crate::paths::{lemma_split_append, lemma_split_nonempty, split_on};
use crate::env::{decimal_number, digit_value, port_number};
use crate::text::{decimal_text, digit_char, hex_char};
use crate::error::{spec_log_level, spec_msg, spec_status, LogLevel, MioInnerError};
use crate::metadata::{merge_tags, opt_view, sha256_of, TagInfo};
use crate::ids::{hex_value, is_hex_digit, lemma_uuid_text_parses, parsed_uuid, uuid_text};
use crate::listing::{entry_error, listed, EntryKind, FolderQueryItemType, ListedEntry};
use crate::player::{queue_step, sat_dec, sat_inc, track_at, without, QueueAction, QueueMsg};
use crate::pushbuf::read_at;
use crate::reseeker::{min_int, replay, seek_target, SeekFrom};
use crate::scrape::{made_by_spotify, new_ids, page_tracks, PlaylistRef, TrackPage};

verus! {

/// A value pushed onto a buffer is read back at the position it was pushed
/// to, and every value pushed before it reads back unchanged.
pub proof fn law_read_after_push<T>(items: Seq<T>, v: T)
    ensures
        read_at(items.push(v), items.len() as int) == Some(v),
        forall|p: int| 0 <= p < items.len() ==> read_at(items.push(v), p) == read_at(items, p),
        read_at(items.push(v), items.len() + 1int) is None,
{
}

/// Seeking to a position already kept lands exactly there, from any position.
pub proof fn law_seek_start_lands(pos: int, len: int, to: u64)
    requires
        0 <= pos <= len,
        to <= len,
        to <= usize::MAX,
    ensures
        seek_target(pos, len, SeekFrom::Start(to)) == to,
{
}

/// Every seek stays within the bytes kept so far.
pub proof fn law_seek_in_bounds(pos: int, len: int, from: SeekFrom)
    requires
        0 <= pos <= len,
    ensures
        0 <= seek_target(pos, len, from) <= len,
{
}

/// Seeking by nothing from the current position stays put, and seeking to the
/// end from the end by nothing lands at the end.
pub proof fn law_seek_zero(pos: int, len: int)
    requires
        0 <= pos <= len,
    ensures
        seek_target(pos, len, SeekFrom::Current(0)) == pos,
        seek_target(pos, len, SeekFrom::End(0)) == len,
{
}

/// Errors that could leak server details show a fixed text that does not
/// depend on what they hold, and answer with status 500.
pub proof fn law_internal_errors_hidden(a: String, b: String)
    ensures
        spec_msg(MioInnerError::IntIoError(a)) == spec_msg(MioInnerError::IntIoError(b)),
        spec_msg(MioInnerError::DbError(a)) == spec_msg(MioInnerError::DbError(b)),
        spec_msg(MioInnerError::Panicked(a)) == spec_msg(MioInnerError::Panicked(b)),
        spec_status(MioInnerError::IntIoError(a)) == 500,
        spec_status(MioInnerError::DbError(a)) == 500,
        spec_status(MioInnerError::Panicked(a)) == 500,
{
}

/// Forcing a track to play pushes it and makes it the current track.
pub proof fn law_force_play(q: Seq<u128>, pos: usize, id: u128)
    requires
        q.len() < usize::MAX,
    ensures
        ({
            let (q2, p2, act) = queue_step(q, pos, QueueMsg::ForcePlay(id));
            &&& act == QueueAction::SetPlayer(Some(id))
            &&& track_at(q2, p2 as int) == Some(id)
        }),
{
}

/// Skipping forward and then back returns to the same position and plays the
/// track there again, unless the position is at its upper limit.
pub proof fn law_skip_then_back(q: Seq<u128>, pos: usize)
    requires
        pos < usize::MAX,
    ensures
        ({
            let (q1, p1, _) = queue_step(q, pos, QueueMsg::Skip);
            let (q2, p2, act) = queue_step(q1, p1, QueueMsg::SkipBack);
            &&& q2 == q
            &&& p2 == pos
            &&& act == QueueAction::SetPlayer(track_at(q, pos as int))
        }),
{
}

/// Pushing a track leaves the current track alone.
pub proof fn law_push_keeps_current(q: Seq<u128>, pos: usize, id: u128)
    ensures
        ({
            let (q2, p2, act) = queue_step(q, pos, QueueMsg::Push(id));
            &&& act == QueueAction::Keep
            &&& p2 == pos
            &&& 0 <= pos < q.len() ==> track_at(q2, p2 as int) == track_at(q, pos as int)
        }),
{
}

/// Once the player has recorded a report (kept as an equal copy), a report
/// equal to it is neither new nor about a different track.
pub proof fn law_same_report_not_new(kept: CurrentlyDecoding, seen: CurrentlyDecoding, next: CurrentlyDecoding)
    requires
        same_decoding(kept, seen),
        same_decoding(seen, next),
    ensures
        same_decoding(kept, next),
        kept.curr == next.curr,
{
}

/// The playlists a page yields are new: none was seen before, none is made by
/// Spotify, and none comes twice.
pub proof fn law_filter_yields_new(seen: Seq<Seq<char>>, page: Seq<PlaylistRef>)
    ensures
        forall|i: int| 0 <= i < new_ids(seen, page).len() ==> !seen.contains(#[trigger] new_ids(seen, page)[i]),
        forall|i: int, j: int|
            0 <= i < j < new_ids(seen, page).len() ==> #[trigger] new_ids(seen, page)[i] != #[trigger] new_ids(seen, page)[j],
        forall|i: int|
            0 <= i < new_ids(seen, page).len() ==> exists|k: int|
                0 <= k < page.len() && page[k].id@ == #[trigger] new_ids(seen, page)[i]
                    && !made_by_spotify(page[k]),
    decreases page.len(),
{
    if page.len() > 0 {
        law_filter_yields_new(seen, page.drop_last());
        let before = new_ids(seen, page.drop_last());
        let p = page.last();
        if !(made_by_spotify(p) || seen.contains(p.id@) || before.contains(p.id@)) {
            let after = before.push(p.id@);
            assert(new_ids(seen, page) == after);
            assert forall|i: int, j: int| 0 <= i < j < after.len() implies #[trigger] after[i] != #[trigger] after[j] by {
                if j == after.len() - 1 {
                    if after[i] == after[j] {
                        assert(before[i] == p.id@);
                        assert(before.contains(p.id@));
                    }
                }
            }
            assert forall|i: int| 0 <= i < after.len() implies exists|k: int|
                0 <= k < page.len() && page[k].id@ == #[trigger] after[i] && !made_by_spotify(page[k]) by {
                if i == after.len() - 1 {
                    assert(page[page.len() - 1] == p);
                } else {
                    let k = choose|k: int|
                        0 <= k < page.drop_last().len() && page.drop_last()[k].id@ == before[i]
                            && !made_by_spotify(page.drop_last()[k]);
                    assert(page[k] == page.drop_last()[k]);
                }
            }
        } else {
            assert forall|i: int| 0 <= i < before.len() implies exists|k: int|
                0 <= k < page.len() && page[k].id@ == #[trigger] before[i] && !made_by_spotify(page[k]) by {
                let k = choose|k: int|
                    0 <= k < page.drop_last().len() && page.drop_last()[k].id@ == before[i]
                        && !made_by_spotify(page.drop_last()[k]);
                assert(page[k] == page.drop_last()[k]);
            }
        }
    }
}

/// The pages of a playlist cover every one of its tracks: the track at index
/// `t` lies on the page at offset `50 * (t / 50)`, which is among the offsets
/// `page_offsets` yields (`50 * k` for `k` up to `total / 50`).
pub proof fn law_pages_cover(total: u32, t: int)
    requires
        0 <= t < total,
    ensures
        0 <= t / 50 <= total / 50,
        50 * (t / 50) <= t < 50 * (t / 50) + 50,
{
}

/// The file an upload stores a track in is named by the track's id, and a
/// folder listing accepts that name and reads it back as the same id.
pub proof fn law_uploaded_tracks_list(id: u128, e: ListedEntry)
    requires
        e.kind == EntryKind::File,
        e.name matches Ok(n) && n@ == uuid_text(id),
    ensures
        parsed_uuid(uuid_text(id)) == Some(id as nat),
        entry_error(e) is None,
{
    lemma_uuid_text_parses(id);
}

/// A folder listing that succeeds shows as tracks only files whose names are
/// UUIDs.
pub proof fn law_listed_tracks_are_ids(es: Seq<ListedEntry>)
    requires
        forall|k: int| 0 <= k < es.len() ==> entry_error(#[trigger] es[k]) is None,
    ensures
        forall|i: int|
            0 <= i < listed(es).len() && (#[trigger] listed(es)[i]).1 == FolderQueryItemType::Audio
                ==> parsed_uuid(listed(es)[i].0) is Some,
    decreases es.len(),
{
    if es.len() > 0 {
        let init = es.drop_last();
        assert forall|k: int| 0 <= k < init.len() implies entry_error(#[trigger] init[k]) is None by {
            assert(init[k] == es[k]);
        }
        law_listed_tracks_are_ids(init);
        assert(entry_error(es[es.len() - 1]) is None);
    }
}

/// Queueing a track that is not queued and then unqueueing it leaves the queue
/// as it was.
pub proof fn law_queue_then_dequeue(q: Seq<u128>, id: u128)
    requires
        !q.contains(id),
    ensures
        without(q.push(id), id) == q,
{
    reveal_with_fuel(Seq::filter, 1);
    assert(q.push(id).drop_last() == q);
    lemma_without_absent(q, id);
}

/// Removing an id that does not occur changes nothing.
proof fn lemma_without_absent(q: Seq<u128>, id: u128)
    requires
        !q.contains(id),
    ensures
        without(q, id) == q,
    decreases q.len(),
{
    reveal_with_fuel(Seq::filter, 1);
    if q.len() > 0 {
        let init = q.drop_last();
        assert(!init.contains(id)) by {
            if init.contains(id) {
                let k = choose|k: int| 0 <= k < init.len() && init[k] == id;
                assert(q[k] == id);
            }
        }
        lemma_without_absent(init, id);
        assert(q[q.len() - 1] != id);
        assert(init.push(q.last()) == q);
    }
}

/// Reading after a seek replays what was read before. A read keeps only the
/// `got` bytes the stream returned (`before` being the bytes kept earlier);
/// after a seek to `p`, a read into `n` bytes gives back the kept bytes from
/// `p` on, so each byte that read returned comes back at its place, and
/// nothing past the kept bytes comes back.
pub proof fn law_replay_after_seek(before: Seq<u8>, fresh: Seq<u8>, got: nat, pos: int, p: u64, n: int)
    requires
        got <= fresh.len(),
        0 <= pos <= before.len() + got,
        p <= before.len() + got,
        p <= usize::MAX,
        0 <= n,
    ensures
        ({
            let kept = before + fresh.subrange(0, got as int);
            &&& seek_target(pos, kept.len() as int, SeekFrom::Start(p)) == p
            &&& replay(kept, p as int, n).len() == min_int(n, kept.len() - p)
            &&& p + replay(kept, p as int, n).len() <= kept.len()
            &&& forall|i: int|
                0 <= i < got && p <= before.len() + i < p + n ==> #[trigger] replay(kept, p as int, n)[before.len() + i - p]
                    == fresh[i]
            &&& forall|i: int|
                0 <= i < before.len() && p <= i < p + n ==> #[trigger] replay(kept, p as int, n)[i - p] == before[i]
        }),
{
}

/// Every error that carries a status code is answered with that code; the
/// others have fixed codes: not found 404, conflict 409.
pub proof fn law_carried_status(m: String, c: u16)
    ensures
        spec_status(MioInnerError::UserChallengedFail(m, c)) == c,
        spec_status(MioInnerError::UserCreationFail(m, c)) == c,
        spec_status(MioInnerError::TrackProcessingError(m, c)) == c,
        spec_status(MioInnerError::ExtIoError(m, c)) == c,
        spec_status(MioInnerError::NotFound(m)) == 404,
        spec_status(MioInnerError::Conflict(m)) == 409,
        spec_msg(MioInnerError::UserChallengedFail(m, c)) == m@,
        spec_msg(MioInnerError::UserCreationFail(m, c)) == m@,
        spec_msg(MioInnerError::TrackProcessingError(m, c)) == m@,
        spec_msg(MioInnerError::ExtIoError(m, c)) == m@,
        spec_msg(MioInnerError::NotFound(m)) == m@,
        spec_msg(MioInnerError::Conflict(m)) == m@,
{
}

/// How loudly each error is logged: what the client got wrong (not found,
/// conflict, a bad external request) at debug level, a failed login at info,
/// a track that could not be processed as a warning, and failures of the
/// server itself (database, filesystem, a failed task, creating a user) as
/// errors.
pub proof fn law_log_levels(m: String, c: u16)
    ensures
        spec_log_level(MioInnerError::NotFound(m)) == LogLevel::Debug,
        spec_log_level(MioInnerError::Conflict(m)) == LogLevel::Debug,
        spec_log_level(MioInnerError::ExtIoError(m, c)) == LogLevel::Debug,
        spec_log_level(MioInnerError::UserChallengedFail(m, c)) == LogLevel::Info,
        spec_log_level(MioInnerError::TrackProcessingError(m, c)) == LogLevel::Warn,
        spec_log_level(MioInnerError::DbError(m)) == LogLevel::Error,
        spec_log_level(MioInnerError::UserCreationFail(m, c)) == LogLevel::Error,
        spec_log_level(MioInnerError::IntIoError(m)) == LogLevel::Error,
        spec_log_level(MioInnerError::Panicked(m)) == LogLevel::Error,
{
}

/// A field that no tag sets stays unset in the merged metadata.
pub proof fn law_unset_tag_fields(orig: Seq<char>, tags: Seq<TagInfo>)
    ensures
        (forall|j: int| 0 <= j < tags.len() ==> (#[trigger] tags[j]).title is None || tags[j].title.unwrap()@ == orig)
            ==> merge_tags(orig, tags).title == orig,
        (forall|j: int| 0 <= j < tags.len() ==> (#[trigger] tags[j]).artist is None)
            ==> merge_tags(orig, tags).artist is None,
        (forall|j: int| 0 <= j < tags.len() ==> (#[trigger] tags[j]).artist_sort is None)
            ==> merge_tags(orig, tags).artist_sort is None,
        (forall|j: int| 0 <= j < tags.len() ==> (#[trigger] tags[j]).album is None)
            ==> merge_tags(orig, tags).album is None,
        (forall|j: int| 0 <= j < tags.len() ==> (#[trigger] tags[j]).album_sort is None)
            ==> merge_tags(orig, tags).album_sort is None,
        (forall|j: int| 0 <= j < tags.len() ==> (#[trigger] tags[j]).disk is None)
            ==> merge_tags(orig, tags).disk is None,
        (forall|j: int| 0 <= j < tags.len() ==> (#[trigger] tags[j]).track is None)
            ==> merge_tags(orig, tags).track is None,
        (forall|j: int| 0 <= j < tags.len() ==> (#[trigger] tags[j]).picture is None)
            ==> merge_tags(orig, tags).img is None,
    decreases tags.len(),
{
    if tags.len() > 0 {
        let init = tags.drop_last();
        assert forall|j: int| 0 <= j < init.len() implies #[trigger] init[j] == tags[j] by {}
        law_unset_tag_fields(orig, init);
    }
}

/// Each merged field comes from the first tag that sets it, and from that
/// tag's own field: if tag `i` is the first to set a field, the merged field
/// is tag `i`'s value (the picture with its SHA-256 digest).
pub proof fn law_first_tag_sets_field(orig: Seq<char>, tags: Seq<TagInfo>, i: int)
    requires
        0 <= i < tags.len(),
    ensures
        tags[i].title is Some && tags[i].title.unwrap()@ != orig && (forall|j: int|
            0 <= j < i ==> (#[trigger] tags[j]).title is None || tags[j].title.unwrap()@ == orig)
            ==> merge_tags(orig, tags).title == tags[i].title.unwrap()@,
        tags[i].artist is Some && (forall|j: int| 0 <= j < i ==> (#[trigger] tags[j]).artist is None)
            ==> merge_tags(orig, tags).artist == opt_view(tags[i].artist),
        tags[i].artist_sort is Some && (forall|j: int| 0 <= j < i ==> (#[trigger] tags[j]).artist_sort is None)
            ==> merge_tags(orig, tags).artist_sort == opt_view(tags[i].artist_sort),
        tags[i].album is Some && (forall|j: int| 0 <= j < i ==> (#[trigger] tags[j]).album is None)
            ==> merge_tags(orig, tags).album == opt_view(tags[i].album),
        tags[i].album_sort is Some && (forall|j: int| 0 <= j < i ==> (#[trigger] tags[j]).album_sort is None)
            ==> merge_tags(orig, tags).album_sort == opt_view(tags[i].album_sort),
        tags[i].disk is Some && (forall|j: int| 0 <= j < i ==> (#[trigger] tags[j]).disk is None)
            ==> merge_tags(orig, tags).disk == tags[i].disk,
        tags[i].track is Some && (forall|j: int| 0 <= j < i ==> (#[trigger] tags[j]).track is None)
            ==> merge_tags(orig, tags).track == tags[i].track,
        tags[i].picture is Some && (forall|j: int| 0 <= j < i ==> (#[trigger] tags[j]).picture is None)
            ==> merge_tags(orig, tags).img == Some((tags[i].picture.unwrap()@, sha256_of(tags[i].picture.unwrap()@))),
    decreases tags.len(),
{
    let init = tags.drop_last();
    assert forall|j: int| 0 <= j < init.len() implies #[trigger] init[j] == tags[j] by {}
    if i < tags.len() - 1 {
        law_first_tag_sets_field(orig, init, i);
    } else {
        law_unset_tag_fields(orig, init);
    }
}

/// Titles are ordered by their first differing character: where `a` and `b`
/// agree on the first `k` characters and `a`'s next character has the smaller
/// code, `a` comes first and `b` does not.
pub proof fn law_title_first_difference(a: Seq<char>, b: Seq<char>, k: int)
    requires
        0 <= k < a.len(),
        k < b.len(),
        a.subrange(0, k) == b.subrange(0, k),
        (a[k] as u32) < (b[k] as u32),
    ensures
        title_le(a, b),
        !title_le(b, a),
    decreases k,
{
    if k > 0 {
        assert(a[0] == a.subrange(0, k)[0]);
        assert(b[0] == b.subrange(0, k)[0]);
        assert(a.drop_first().subrange(0, k - 1) == a.subrange(0, k).drop_first());
        assert(b.drop_first().subrange(0, k - 1) == b.subrange(0, k).drop_first());
        law_title_first_difference(a.drop_first(), b.drop_first(), k - 1);
    }
}

/// A title comes no later than any title it begins, itself included, and a
/// longer title comes after the titles it begins with.
pub proof fn law_title_prefix_first(a: Seq<char>, b: Seq<char>)
    requires
        a.len() <= b.len(),
        b.subrange(0, a.len() as int) == a,
    ensures
        title_le(a, b),
        a.len() < b.len() ==> !title_le(b, a),
    decreases a.len(),
{
    if a.len() > 0 {
        assert(a[0] == b[0]);
        assert(b.drop_first().subrange(0, a.len() - 1) == a.drop_first());
        law_title_prefix_first(a.drop_first(), b.drop_first());
    }
}

/// Two reports count as the same only when every field agrees, the queued
/// tracks included; a change in any field, such as a track queued while
/// paused, makes a new report.
pub proof fn law_same_report_all_fields(a: CurrentlyDecoding, b: CurrentlyDecoding)
    ensures
        same_decoding(a, b) ==> a.curr == b.curr && a.at == b.at && a.len == b.len
            && a.tracks@.len() == b.tracks@.len()
            && forall|i: int| 0 <= i < a.tracks@.len() ==> #[trigger] a.tracks@[i] == b.tracks@[i],
        a.curr == b.curr && a.at == b.at && a.len == b.len && a.tracks@ == b.tracks@ ==> same_decoding(a, b),
        a.tracks@ != b.tracks@ ==> !same_decoding(a, b),
{
}

/// A decimal digit is worth its distance from `'0'`; no other character is a digit.
pub proof fn law_digit_face_value(c: char)
    ensures
        48 <= (c as u32) <= 57 ==> digit_value(c) == Some(((c as u32) - 48) as nat),
        !(48 <= (c as u32) <= 57) ==> digit_value(c) is None,
{
    let u = c as u32;
    vstd::utf8::char_u32_cast(c, u);
    if 48 <= u <= 57 {
        if u == 48 { vstd::utf8::char_u32_cast('0', 48); }
        if u == 49 { vstd::utf8::char_u32_cast('1', 49); }
        if u == 50 { vstd::utf8::char_u32_cast('2', 50); }
        if u == 51 { vstd::utf8::char_u32_cast('3', 51); }
        if u == 52 { vstd::utf8::char_u32_cast('4', 52); }
        if u == 53 { vstd::utf8::char_u32_cast('5', 53); }
        if u == 54 { vstd::utf8::char_u32_cast('6', 54); }
        if u == 55 { vstd::utf8::char_u32_cast('7', 55); }
        if u == 56 { vstd::utf8::char_u32_cast('8', 56); }
        if u == 57 { vstd::utf8::char_u32_cast('9', 57); }
    }
}

/// A port of one digit is that digit's face value.
pub proof fn law_port_one_digit(c: char)
    requires
        48 <= (c as u32) <= 57,
    ensures
        port_number(seq![c]) == Some(((c as u32) - 48) as u16),
{
    law_digit_face_value(c);
    let d = seq![c];
    assert(c != '+') by {
        if c == '+' {
            assert(('+' as u32) == 43);
        }
    }
    assert(d[0] == c);
    assert(crate::env::unsigned_digits(d) == d);
    assert(d.drop_last() == Seq::<char>::empty());
    assert(d.last() == c);
    assert(crate::env::decimal_number(Seq::<char>::empty()) == 0);
    assert(crate::env::decimal_number(d) == ((c as u32) - 48));
    assert(forall|i: int| 0 <= i < d.len() ==> (#[trigger] digit_value(d[i])) is Some);
}

/// Writing one more digit after a port's digits multiplies the port by ten
/// and adds the digit's face value, while the result fits in a port; past
/// that, nothing is read.
pub proof fn law_port_next_digit(d: Seq<char>, c: char, p: u16)
    requires
        d.len() > 0,
        d[0] != '+',
        port_number(d) == Some(p),
        48 <= (c as u32) <= 57,
    ensures
        10 * p + ((c as u32) - 48) <= 65535 ==> port_number(d.push(c)) == Some((10 * p + ((c as u32) - 48)) as u16),
        10 * p + ((c as u32) - 48) > 65535 ==> port_number(d.push(c)) is None,
{
    law_digit_face_value(c);
    let e = d.push(c);
    assert(e.drop_last() == d);
    assert(e[0] == d[0]);
    assert forall|i: int| 0 <= i < e.len() implies (#[trigger] digit_value(e[i])) is Some by {
        if i < d.len() {
            assert(e[i] == d[i]);
            assert(digit_value(d[i]) is Some);
        }
    }
}

/// A leading `+` is read past, and an empty setting is no port.
pub proof fn law_port_sign(d: Seq<char>)
    requires
        d.len() == 0 || d[0] != '+',
    ensures
        port_number(seq!['+'] + d) == port_number(d),
        port_number(Seq::<char>::empty()) is None,
        port_number(seq!['+']) is None,
{
    assert((seq!['+'] + d).drop_first() == d);
    assert((seq!['+'] + d)[0] == '+');
    assert(crate::env::unsigned_digits(seq!['+']) == Seq::<char>::empty()) by {
        assert(seq!['+'].drop_first() == Seq::<char>::empty());
    }
}

/// Cover art is fetched once for each album that has tracks, in the order of
/// the albums, using the album's first track; albums without tracks fetch
/// nothing.
pub proof fn law_cover_art_per_album(albums: Seq<AlbumEntry>)
    ensures
        (forall|k: int| 0 <= k < albums.len() ==> (#[trigger] albums[k]).tracks@.len() > 0) ==> {
            &&& cover_art_plan(albums).len() == albums.len()
            &&& forall|k: int|
                0 <= k < albums.len() ==> #[trigger] cover_art_plan(albums)[k] == (
                    albums[k].id,
                    albums[k].tracks@[0],
                )
        },
        (forall|k: int| 0 <= k < albums.len() ==> (#[trigger] albums[k]).tracks@.len() == 0)
            ==> cover_art_plan(albums).len() == 0,
    decreases albums.len(),
{
    if albums.len() > 0 {
        let init = albums.drop_last();
        assert forall|k: int| 0 <= k < init.len() implies #[trigger] init[k] == albums[k] by {}
        law_cover_art_per_album(init);
    }
}

/// The tracks of a playlist read in two runs of pages are the tracks of the
/// first run followed by those of the second; a failed page anywhere loses
/// the whole playlist.
pub proof fn law_page_tracks_concat(a: Seq<TrackPage>, b: Seq<TrackPage>)
    ensures
        page_tracks(a) is Some && page_tracks(b) is Some ==> page_tracks(a + b) == Some(
            page_tracks(a).unwrap() + page_tracks(b).unwrap(),
        ),
        page_tracks(a) is None || page_tracks(b) is None ==> page_tracks(a + b) is None,
    decreases b.len(),
{
    if b.len() == 0 {
        assert(a + b == a);
        assert(page_tracks(b) == Some(Seq::<Seq<char>>::empty()));
        if page_tracks(a) is Some {
            assert(page_tracks(a).unwrap() + Seq::<Seq<char>>::empty() == page_tracks(a).unwrap());
        }
    } else {
        law_page_tracks_concat(a, b.drop_last());
        assert((a + b).drop_last() == a + b.drop_last());
        assert((a + b).last() == b.last());
        if page_tracks(a) is Some && page_tracks(b) is Some {
            let x = page_tracks(a).unwrap();
            let y0 = page_tracks(b.drop_last()).unwrap();
            let items = b.last().items.unwrap();
            assert(x + y0 + crate::scrape::kept_ids(items@) == x + (y0 + crate::scrape::kept_ids(items@)));
        }
    }
}

/// A failed page loses the playlist.
pub proof fn law_failed_page_loses_playlist(pages: Seq<TrackPage>, k: int)
    requires
        0 <= k < pages.len(),
        pages[k].items is None,
    ensures
        page_tracks(pages) is None,
{
    let a = pages.subrange(0, k);
    let b = pages.subrange(k, pages.len() as int);
    assert(pages == a + b);
    let c = b.subrange(0, 1);
    let d = b.subrange(1, b.len() as int);
    assert(b == c + d);
    assert(c.drop_last() == Seq::<TrackPage>::empty());
    assert(c.last() == pages[k]);
    assert(page_tracks(c) is None);
    law_page_tracks_concat(c, d);
    law_page_tracks_concat(a, b);
}

/// The pieces of a text stay as they are when more text follows, except the
/// last, which the following text may extend.
proof fn lemma_split_keeps_pieces(x: Seq<char>, t: Seq<char>, sep: char)
    ensures
        split_on(x + t, sep).len() >= split_on(x, sep).len(),
        forall|i: int| 0 <= i < split_on(x, sep).len() - 1 ==> #[trigger] split_on(x + t, sep)[i] == split_on(x, sep)[i],
    decreases t.len(),
{
    lemma_split_nonempty(x, sep);
    if t.len() == 0 {
        assert(x + t == x);
    } else {
        let t0 = t.drop_last();
        lemma_split_keeps_pieces(x, t0, sep);
        assert((x + t).drop_last() == x + t0);
        lemma_split_nonempty(x + t0, sep);
    }
}

/// The payload of a token `header.payload.rest` is `payload`, whatever
/// follows the second dot, when neither header nor payload holds a dot.
pub proof fn law_payload_is_second_piece(h: Seq<char>, p: Seq<char>, rest: Seq<char>)
    requires
        !h.contains('.'),
        !p.contains('.'),
    ensures
        payload_section(h + seq!['.'] + p + seq!['.'] + rest) == Some(p),
{
    let e = Seq::<char>::empty();
    lemma_split_append(e, h, '.');
    assert(e + h == h);
    assert(split_on(e, '.') == seq![e]);
    assert(split_on(h, '.') == seq![h]) by {
        assert(seq![e].update(0, e + h) == seq![h]);
        assert(e + h == h);
    }
    let x1 = h + seq!['.'];
    assert(x1.drop_last() == h);
    assert(split_on(x1, '.') == seq![h, e]);
    lemma_split_append(x1, p, '.');
    let x2 = x1 + p;
    assert(split_on(x2, '.') == seq![h, p]) by {
        assert(seq![h, e].update(1, e + p) == seq![h, p]);
        assert(e + p == p);
    }
    let x3 = x2 + seq!['.'];
    assert(x3.drop_last() == x2);
    assert(split_on(x3, '.') == seq![h, p, e]);
    lemma_split_keeps_pieces(x3, rest, '.');
    assert(h + seq!['.'] + p + seq!['.'] + rest == x3 + rest);
    assert(split_on(x3 + rest, '.')[1] == p);
}

/// Digits are written with their standard characters: `0`-`9` for values
/// below ten, then `a`-`f`; reading a written digit gives its value back, both
/// as a decimal digit and as a hexadecimal one.
pub proof fn law_digit_chars(d: nat)
    ensures
        d < 10 ==> digit_char(d) as u32 == 48 + d && hex_char(d) as u32 == 48 + d,
        d < 10 ==> digit_value(digit_char(d)) == Some(d),
        10 <= d < 16 ==> hex_char(d) as u32 == 87 + d,
        d < 16 ==> is_hex_digit(hex_char(d)) && hex_value(hex_char(d)) == d,
{
    if d < 10 {
        law_digit_face_value(digit_char(d));
    }
}

/// The decimal text of a number consists of digits and reads back as that number.
pub proof fn law_decimal_text_reads_back(n: nat)
    ensures
        decimal_text(n).len() > 0,
        forall|i: int| 0 <= i < decimal_text(n).len() ==> (#[trigger] digit_value(decimal_text(n)[i])) is Some,
        decimal_number(decimal_text(n)) == n,
    decreases n,
{
    if n < 10 {
        law_digit_chars(n);
        let t = decimal_text(n);
        assert(t.drop_last() == Seq::<char>::empty());
        assert(decimal_number(Seq::<char>::empty()) == 0);
    } else {
        law_decimal_text_reads_back(n / 10);
        law_digit_chars(n % 10);
        let t0 = decimal_text(n / 10);
        let t = decimal_text(n);
        assert(t == t0.push(digit_char(n % 10)));
        assert(t.drop_last() == t0);
        assert forall|i: int| 0 <= i < t.len() implies (#[trigger] digit_value(t[i])) is Some by {
            if i < t0.len() {
                assert(t[i] == t0[i]);
            }
        }
        assert(n == (n / 10) * 10 + n % 10);
    }
}

/// Pausing after playing puts a paused decoder back as it was, touching no
/// decoding thread; playing after pausing does the same for a playing one.
pub proof fn law_play_then_pause(
    o: DecoderControl,
    m: DecoderControl,
    n: DecoderControl,
    e1: DecoderEffect,
    e2: DecoderEffect,
)
    requires
        handled(o, DecoderMsg::Play, m, e1),
        handled(m, DecoderMsg::Pause, n, e2),
    ensures
        m.active,
        !n.active,
        !o.active ==> n.order@ == o.order@ && n.pos == o.pos && n.age == o.age && n.active == o.active
            && n.loaded@ == o.loaded@,
        e1 == DecoderEffect::Nothing && e2 == DecoderEffect::Nothing,
{
}

/// Skipping to the next track and back returns to the same place: when the
/// current track and the next one both have decoding threads, `Next` resets
/// the current track and moves on, and `Previous` resets the next track and
/// moves back.
pub proof fn law_next_then_previous(
    o: DecoderControl,
    m: DecoderControl,
    n: DecoderControl,
    e1: DecoderEffect,
    e2: DecoderEffect,
)
    requires
        handled(o, DecoderMsg::Next, m, e1),
        handled(m, DecoderMsg::Previous, n, e2),
        current_track(o.order@, o.pos, o.loaded@) is Some,
        o.pos < usize::MAX,
        current_track(o.order@, (o.pos + 1) as usize, o.loaded@) is Some,
    ensures
        m.pos == o.pos + 1,
        n.pos == o.pos,
        n.order@ == o.order@,
        e1 == DecoderEffect::ResetTrack(current_track(o.order@, o.pos, o.loaded@).unwrap()),
        e2 == DecoderEffect::ResetTrack(current_track(o.order@, (o.pos + 1) as usize, o.loaded@).unwrap()),
{
}

/// A reset forgets everything, from any state: the result is the state of a
/// new decoder.
pub proof fn law_reset_forgets(o: DecoderControl, n: DecoderControl, e: DecoderEffect)
    requires
        handled(o, DecoderMsg::Reset, n, e),
    ensures
        n.order@.len() == 0,
        n.loaded@.len() == 0,
        n.pos == 0,
        n.age == 0,
        !n.active,
        e == DecoderEffect::Nothing,
{
}

/// A seek goes to the current track's decoding thread and changes nothing
/// else; with no current thread it does nothing.
pub proof fn law_seek_goes_to_current(o: DecoderControl, n: DecoderControl, e: DecoderEffect, t: u128)
    requires
        handled(o, DecoderMsg::SeekAbs(t), n, e),
    ensures
        n.order@ == o.order@ && n.pos == o.pos && n.active == o.active && n.loaded@ == o.loaded@,
        current_track(o.order@, o.pos, o.loaded@) matches Some(c) ==> e == DecoderEffect::Seek(c, t),
        current_track(o.order@, o.pos, o.loaded@) is None ==> e == DecoderEffect::Nothing,
        o.pos < o.order@.len() && o.loaded@.contains(o.order@[o.pos as int]) ==> e == DecoderEffect::Seek(
            o.order@[o.pos as int],
            t,
        ),
{
}

} // verus!
