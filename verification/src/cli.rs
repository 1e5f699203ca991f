//! The texts the command-line tools print, and the small decisions they
//! make about what to show.

use vstd::prelude::*;
use vstd::string::*;
use crate::text::{decimal, u64_to_decimal};
use crate::types::{opt_view, Album, AlbumView, albums_view, MediaItem, MediaItemView, items_view};
use crate::text::{occurs_in, contains_text};
use crate::cache::{CacheManager, CacheError, wf, select, filter_query, faces_of};
use crate::sync::{SyncProgress, SyncState};
use crate::datetime::{
    rfc3339_min_ts, rfc3339_max_ts, rfc3339_render, render_rfc3339, rfc3339_parse, parses_to,
    parse_rfc3339_seconds,
};

verus! {

fn concat(a: &str, b: &str) -> (r: String)
    ensures
        r@ == a@ + b@,
{
    let mut s = String::from_str(a);
    s.append(b);
    s
}

/// The line the sync tool prints for a progress update.
pub open spec fn progress_text(p: SyncProgress) -> Seq<char> {
    match p {
        SyncProgress::Started => "Sync started"@,
        SyncProgress::Retrying(w) => "Retrying in "@ + decimal(w as nat) + "s"@,
        SyncProgress::ItemSynced(n) => "Synced "@ + decimal(n as nat) + " items..."@,
        SyncProgress::Finished(n) => "Finished sync: "@ + decimal(n as nat) + " items"@,
    }
}

/// The line the sync tool prints for a progress update.
pub fn progress_line(p: SyncProgress) -> (r: String)
    ensures
        r@ == progress_text(p),
{
    match p {
        SyncProgress::Started => String::from_str("Sync started"),
        SyncProgress::Retrying(w) => {
            let d = u64_to_decimal(w);
            let s = concat("Retrying in ", d.as_str());
            concat(s.as_str(), "s")
        },
        SyncProgress::ItemSynced(n) => {
            let d = u64_to_decimal(n);
            let s = concat("Synced ", d.as_str());
            concat(s.as_str(), " items...")
        },
        SyncProgress::Finished(n) => {
            let d = u64_to_decimal(n);
            let s = concat("Finished sync: ", d.as_str());
            concat(s.as_str(), " items")
        },
    }
}

/// The line listing an album: its title (`Untitled` where it has none) and
/// its id.
pub open spec fn album_text(title: Option<Seq<char>>, id: Seq<char>) -> Seq<char> {
    let shown = match title {
        Some(t) => t,
        None => "Untitled"@,
    };
    shown + " (id: "@ + id + ")"@
}

/// The line listing an album (see `album_text`).
pub fn album_line(album: &Album) -> (r: String)
    ensures
        r@ == album_text(opt_view(album.title), album.id@),
{
    let title = match &album.title {
        Some(t) => t.clone(),
        None => String::from_str("Untitled"),
    };
    let s = concat(title.as_str(), " (id: ");
    let s = concat(s.as_str(), album.id.as_str());
    concat(s.as_str(), ")")
}

/// The line reporting a created album: the returned title, else the
/// requested one, and the id.
pub fn album_created_line(album: &Album, requested_title: &str) -> (r: String)
    ensures
        r@ == "Album created: "@ + (match opt_view(album.title) {
            Some(t) => t,
            None => requested_title@,
        }) + " (id: "@ + album.id@ + ")"@,
{
    let title = match &album.title {
        Some(t) => t.clone(),
        None => String::from_str(requested_title),
    };
    let s = concat("Album created: ", title.as_str());
    let s = concat(s.as_str(), " (id: ");
    let s = concat(s.as_str(), album.id.as_str());
    concat(s.as_str(), ")")
}

/// The line listing a media item: its id and its file name.
pub fn item_line(item: &MediaItem) -> (r: String)
    ensures
        r@ == item@.id + " - "@ + item@.filename,
{
    let s = concat(item.id.as_str(), " - ");
    concat(s.as_str(), item.filename.as_str())
}

/// How many items a listing shows: the given limit, ten by default.
pub open spec fn listing_limit(limit: Option<usize>) -> nat {
    match limit {
        Some(n) => n as nat,
        None => 10,
    }
}

/// The lines listing the first items (at most the limit).
pub fn item_listing(items: &Vec<MediaItem>, limit: Option<usize>) -> (r: Vec<String>)
    ensures
        r@.len() == if items@.len() < listing_limit(limit) {
            items@.len()
        } else {
            listing_limit(limit)
        },
        forall|i: int|
            0 <= i < r@.len() ==> (#[trigger] r@[i])@ == items@[i]@.id + " - "@ + items@[i]@.filename,
{
    let max = match limit {
        Some(n) => n,
        None => 10,
    };
    let mut r: Vec<String> = Vec::new();
    let mut i: usize = 0;
    while i < items.len() && i < max
        invariant
            i <= items@.len(),
            i <= max,
            max == listing_limit(limit),
            r@.len() == i,
            forall|k: int|
                0 <= k < i ==> (#[trigger] r@[k])@ == items@[k]@.id + " - "@ + items@[k]@.filename,
        decreases items.len() - i,
    {
        r.push(item_line(&items[i]));
        i = i + 1;
    }
    r
}

/// The two lines of the cache statistics: the number of albums and of
/// media items.
pub fn stats_lines(albums: usize, items: usize) -> (r: (String, String))
    ensures
        r.0@ == "Albums: "@ + decimal(albums as nat),
        r.1@ == "Media items: "@ + decimal(items as nat),
{
    let a = u64_to_decimal(albums as u64);
    let m = u64_to_decimal(items as u64);
    (concat("Albums: ", a.as_str()), concat("Media items: ", m.as_str()))
}

/// The two lines of the status: the time of the last sync and the number
/// of cached items.
pub fn status_lines(last_sync: i64, cached: usize) -> (r: (String, String))
    requires
        rfc3339_min_ts() <= last_sync <= rfc3339_max_ts(),
    ensures
        r.0@ == "Last sync: "@ + rfc3339_render(last_sync),
        r.1@ == "Cached items: "@ + decimal(cached as nat),
{
    let t = render_rfc3339(last_sync);
    let c = u64_to_decimal(cached as u64);
    (concat("Last sync: ", t.as_str()), concat("Cached items: ", c.as_str()))
}

/// The warning at start-up about a sync that was cut short: where the
/// record still holds a page token, the items synced and the last success
/// (`unknown` where there was none).
pub open spec fn interrupted_text(state_token: bool, total: u64, last: Option<i64>) -> Option<Seq<char>> {
    if state_token {
        Some(
            "Previous sync interrupted after "@ + decimal(total as nat) + " items. Last success at "@
                + (match last {
                Some(t) => rfc3339_render(t),
                None => "unknown"@,
            }),
        )
    } else {
        None
    }
}

/// The warning about an interrupted sync, if the record shows one (see
/// `interrupted_text`).
pub fn interrupted_sync_notice(state: &SyncState) -> (r: Option<String>)
    requires
        state.last_success matches Some(t) ==> rfc3339_min_ts() <= t <= rfc3339_max_ts(),
    ensures
        opt_view(r) == interrupted_text(
            state.page_token is Some,
            state.total_synced,
            state.last_success,
        ),
{
    if state.page_token.is_none() {
        return None;
    }
    let last = match state.last_success {
        Some(t) => render_rfc3339(t),
        None => String::from_str("unknown"),
    };
    let d = u64_to_decimal(state.total_synced);
    let s = concat("Previous sync interrupted after ", d.as_str());
    let s = concat(s.as_str(), " items. Last success at ");
    Some(concat(s.as_str(), last.as_str()))
}

/// The periodic sync's interval in seconds.
pub fn sync_interval_secs(minutes: u64) -> (r: u64)
    requires
        minutes * 60 <= u64::MAX,
    ensures
        r == minutes * 60,
{
    minutes * 60
}

/// The first second of a `YYYY-MM-DD` day in UTC, as a search bound.
pub fn day_start(date: &str) -> (r: Result<i64, String>)
    ensures
        match r {
            Ok(t) => parses_to(date@ + "T00:00:00Z"@, t),
            Err(m) => rfc3339_parse(date@ + "T00:00:00Z"@) == Err::<i64, Seq<char>>(m@),
        },
{
    let text = concat(date, "T00:00:00Z");
    parse_rfc3339_seconds(text.as_str())
}

/// The last second of a `YYYY-MM-DD` day in UTC, as a search bound.
pub fn day_end(date: &str) -> (r: Result<i64, String>)
    ensures
        match r {
            Ok(t) => parses_to(date@ + "T23:59:59Z"@, t),
            Err(m) => rfc3339_parse(date@ + "T23:59:59Z"@) == Err::<i64, Seq<char>>(m@),
        },
{
    let text = concat(date, "T23:59:59Z");
    parse_rfc3339_seconds(text.as_str())
}

/// The items that the search command shows: those whose file name or
/// description contains the query, created within the bounds, favourites
/// only when asked, and only those with recorded faces when asked.
pub fn search_items(
    cache: &CacheManager,
    query: &str,
    start: Option<i64>,
    end: Option<i64>,
    favorites_only: bool,
    faces_only: bool,
) -> (r: Result<Vec<MediaItem>, CacheError>)
    requires
        wf(cache@),
    ensures
        r is Ok,
        ({
            let found = select(
                cache@,
                filter_query(
                    None,
                    None,
                    start,
                    end,
                    if favorites_only {
                        Some(true)
                    } else {
                        None
                    },
                    None,
                    Some(query@),
                ),
            );
            items_view(r->Ok_0@) == if faces_only {
                found.filter(|m: MediaItemView| faces_of(cache@, m.id) is Some)
            } else {
                found
            }
        }),
{
    let fav = if favorites_only {
        Some(true)
    } else {
        None
    };
    let found = match cache.query_media_items(None, None, start, end, fav, None, Some(query)) {
        Ok(v) => v,
        Err(e) => {
            return Err(e);
        },
    };
    if !faces_only {
        return Ok(found);
    }
    let ghost fv = items_view(found@);
    let ghost keep = |m: MediaItemView| faces_of(cache@, m.id) is Some;
    let mut kept: Vec<MediaItem> = Vec::new();
    let mut i: usize = 0;
    assert(fv.take(0) =~= Seq::<MediaItemView>::empty());
    while i < found.len()
        invariant
            i <= found@.len(),
            fv == items_view(found@),
            wf(cache@),
            keep == (|m: MediaItemView| faces_of(cache@, m.id) is Some),
            items_view(kept@) == fv.take(i as int).filter(keep),
        decreases found.len() - i,
    {
        let ghost before = items_view(kept@);
        proof {
            assert(fv.take(i + 1) =~= fv.take(i as int).push(fv[i as int]));
            fv.take(i as int).lemma_filter_push(fv[i as int], keep);
        }
        match cache.get_faces(found[i].id.as_str()) {
            Ok(Some(_)) => {
                kept.push(found[i].clone());
                assert(items_view(kept@) =~= before.push(fv[i as int]));
            },
            _ => {},
        }
        i = i + 1;
    }
    assert(fv.take(i as int) =~= fv);
    Ok(kept)
}

/// The albums whose title contains the query.
pub fn matching_albums(albums: &Vec<Album>, query: &str) -> (r: Vec<Album>)
    ensures
        albums_view(r@) == albums_view(albums@).filter(
            |a: AlbumView| a.title matches Some(t) && occurs_in(t, query@),
        ),
{
    let ghost av = albums_view(albums@);
    let ghost keep = |a: AlbumView| a.title matches Some(t) && occurs_in(t, query@);
    let mut r: Vec<Album> = Vec::new();
    let mut i: usize = 0;
    assert(av.take(0) =~= Seq::<AlbumView>::empty());
    while i < albums.len()
        invariant
            i <= albums@.len(),
            av == albums_view(albums@),
            keep == (|a: AlbumView| a.title matches Some(t) && occurs_in(t, query@)),
            albums_view(r@) == av.take(i as int).filter(keep),
        decreases albums.len() - i,
    {
        let ghost before = albums_view(r@);
        proof {
            assert(av.take(i + 1) =~= av.take(i as int).push(av[i as int]));
            av.take(i as int).lemma_filter_push(av[i as int], keep);
        }
        let hit = match &albums[i].title {
            Some(t) => contains_text(t.as_str(), query),
            None => false,
        };
        if hit {
            r.push(albums[i].clone());
            assert(albums_view(r@) =~= before.push(av[i as int]));
        }
        i = i + 1;
    }
    assert(av.take(i as int) =~= av);
    r
}

/// The line reporting a renamed album.
pub fn album_renamed_line(id: &str, title: &str) -> (r: String)
    ensures
        r@ == "Album renamed: "@ + title@ + " (id: "@ + id@ + ")"@,
{
    let s = concat("Album renamed: ", title);
    let s = concat(s.as_str(), " (id: ");
    let s = concat(s.as_str(), id);
    concat(s.as_str(), ")")
}

/// The line reporting an item added to an album.
pub fn added_to_album_line(item_id: &str, album_id: &str) -> (r: String)
    ensures
        r@ == "Added "@ + item_id@ + " to album "@ + album_id@,
{
    let s = concat("Added ", item_id);
    let s = concat(s.as_str(), " to album ");
    concat(s.as_str(), album_id)
}

/// The line reporting a changed favourite flag.
pub fn favorite_set_line(item_id: &str, favorite: bool) -> (r: String)
    ensures
        r@ == "Favorite for "@ + item_id@ + " set to "@ + if favorite {
            "true"@
        } else {
            "false"@
        },
{
    let s = concat("Favorite for ", item_id);
    let s = concat(s.as_str(), " set to ");
    concat(
        s.as_str(),
        if favorite {
            "true"
        } else {
            "false"
        },
    )
}

} // verus!
