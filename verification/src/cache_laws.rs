//! Properties of the cache that relate several of its operations.

use vstd::prelude::*;
use crate::types::MediaItemView;
use crate::text::{spec_parse_i64, signed_decimal, lemma_parse_i64_decimal, IntErrorKind};
use crate::datetime::{rfc3339_render, parses_to};
use crate::cache::{
    CacheErrorView, item_import,
    CacheView, MediaRowView, wf, has_item, has_album, lookup, select, no_filter, filter_query,
    filter_favorite, filter_album, without_item, without_album, after_insert, after_batch,
    parse_item, item_row, row_item, with_row, other_row, selected_by, row_item_fn,
    link_not_to_item, link_not_in_album, set_fav_fn, lemma_filter_members, retitle_fn,
};
use crate::types::AlbumView;

verus! {

/// A media item read back right after it was inserted is the inserted
/// item as the cache stores it: same id, description, URLs, MIME type,
/// filename and camera data, with the creation time rendered from the
/// parsed seconds and the dimensions in decimal.
pub proof fn law_get_after_insert(v: CacheView, item: MediaItemView)
    requires
        wf(v),
        parse_item(item) is Ok,
    ensures
        after_insert(v, item) matches Ok(u) && lookup(u, item.id) == Some(
            row_item(item_row(item, parse_item(item)->Ok_0.0, parse_item(item)->Ok_0.1, parse_item(item)->Ok_0.2)),
        ),
{
    let (ts, w, h) = parse_item(item)->Ok_0;
    let row = item_row(item, ts, w, h);
    let u = with_row(v, row);
    let f = v.items.filter(other_row(item.id));
    lemma_filter_members(v.items, other_row(item.id));
    let n = u.items.len() - 1;
    assert(u.items[n] == row);
    assert(has_item(u, item.id));
    let k = choose|k: int| 0 <= k < u.items.len() && u.items[k].id == item.id;
    if k < n {
        assert(u.items[k] == f[k]);
        assert(other_row(item.id)(f[k]));
    }
    assert(k == n);
}

/// A deleted media item is gone: it cannot be read, and no album entry,
/// face record or album cover refers to it any more.
pub proof fn law_delete_removes_item(v: CacheView, id: Seq<char>)
    requires
        wf(v),
    ensures
        lookup(without_item(v, id), id) is None,
        forall|i: int|
            0 <= i < without_item(v, id).links.len() ==> (#[trigger] without_item(v, id).links[i]).1
                != id,
        forall|i: int|
            0 <= i < without_item(v, id).faces.len() ==> (#[trigger] without_item(v, id).faces[i]).0
                != id,
        forall|i: int|
            0 <= i < without_item(v, id).albums.len() ==> (#[trigger] without_item(
                v,
                id,
            ).albums[i]).cover_photo_media_item_id != Some(id),
{
    let w = without_item(v, id);
    lemma_filter_members(v.items, other_row(id));
    lemma_filter_members(v.links, link_not_to_item(id));
    lemma_filter_members(v.faces, crate::cache::faces_not_of(id));
    assert(!has_item(w, id)) by {
        if has_item(w, id) {
            let i = choose|i: int| 0 <= i < w.items.len() && (#[trigger] w.items[i]).id == id;
            assert(other_row(id)(w.items[i]));
        }
    }
    assert forall|i: int| 0 <= i < w.links.len() implies (#[trigger] w.links[i]).1 != id by {
        assert(link_not_to_item(id)(w.links[i]));
    }
    assert forall|i: int| 0 <= i < w.faces.len() implies (#[trigger] w.faces[i]).0 != id by {
        assert(crate::cache::faces_not_of(id)(w.faces[i]));
    }
}

/// After an album is deleted, no media item is listed in it.
pub proof fn law_deleted_album_is_empty(v: CacheView, album_id: Seq<char>)
    requires
        wf(v),
    ensures
        select(without_album(v, album_id), filter_album(album_id)).len() == 0,
{
    let w = without_album(v, album_id);
    let p = selected_by(filter_album(album_id), w.links);
    lemma_filter_members(v.links, link_not_in_album(album_id));
    lemma_filter_members(w.items, p);
    if w.items.filter(p).len() > 0 {
        let r = w.items.filter(p)[0];
        assert(p(r));
        assert(w.links.contains((album_id, r.id)));
        let i = choose|i: int| 0 <= i < w.links.len() && w.links[i] == (album_id, r.id);
        assert(link_not_in_album(album_id)(w.links[i]));
    }
}

/// A query that sets no condition lists every cached media item.
pub proof fn law_unfiltered_query_is_everything(v: CacheView)
    ensures
        select(v, filter_query(None, None, None, None, None, None, None)) == select(v, no_filter()),
{
    assert(filter_query(None, None, None, None, None, None, None) == no_filter());
}

/// A batch of one media item is the same as inserting it.
pub proof fn law_batch_of_one(v: CacheView, item: MediaItemView)
    ensures
        after_batch(v, seq![item]) == after_insert(v, item),
{
    assert(seq![item].drop_last() =~= Seq::<MediaItemView>::empty());
    assert(after_batch(v, Seq::<MediaItemView>::empty()) == Ok::<CacheView, crate::cache::CacheErrorView>(v));
}

/// Marking a cached media item as a favourite puts it among the
/// favourites.
pub proof fn law_favorite_is_listed(v: CacheView, id: Seq<char>)
    requires
        wf(v),
        has_item(v, id),
    ensures
        exists|k: int|
            0 <= k < select(
                CacheView { items: v.items.map_values(set_fav_fn(id, true)), ..v },
                filter_favorite(true),
            ).len() && (#[trigger] select(
                CacheView { items: v.items.map_values(set_fav_fn(id, true)), ..v },
                filter_favorite(true),
            )[k]).id == id,
{
    let u = CacheView { items: v.items.map_values(set_fav_fn(id, true)), ..v };
    let p = selected_by(filter_favorite(true), u.links);
    let i = choose|i: int| 0 <= i < v.items.len() && (#[trigger] v.items[i]).id == id;
    assert(u.items[i].is_favorite);
    assert(p(u.items[i]));
    assert(u.items.contains(u.items[i]));
    lemma_filter_members(u.items, p);
    assert(u.items.filter(p).contains(u.items[i]));
    let k = choose|k: int| 0 <= k < u.items.filter(p).len() && u.items.filter(p)[k] == u.items[i];
    assert(select(u, filter_favorite(true))[k] == row_item_fn()(u.items.filter(p)[k]));
}

/// A cached media item read back and inserted again is stored as it was
/// (apart from the favourite flag), provided its rendered creation time
/// parses back to the stored seconds, as chrono guarantees for years 0000
/// to 9999.
pub proof fn law_read_item_reinserts_as_stored(r: MediaRowView)
    requires
        parses_to(rfc3339_render(r.creation_time), r.creation_time),
    ensures
        parse_item(row_item(r)) == Ok::<(i64, i64, i64), crate::cache::CacheErrorView>(
            (r.creation_time, r.width, r.height),
        ),
        item_row(row_item(r), r.creation_time, r.width, r.height) == (MediaRowView {
            is_favorite: false,
            ..r
        }),
{
    lemma_parse_i64_decimal(r.width);
    lemma_parse_i64_decimal(r.height);
}

/// A row as an import stores it again: the same, but not a favourite.
pub open spec fn unfavorited(r: MediaRowView) -> MediaRowView {
    MediaRowView { is_favorite: false, ..r }
}

proof fn lemma_filter_keeps_all<A>(s: Seq<A>, p: spec_fn(A) -> bool)
    requires
        forall|i: int| 0 <= i < s.len() ==> p(#[trigger] s[i]),
    ensures
        s.filter(p) == s,
    decreases s.len(),
{
    if s.len() > 0 {
        let t = s.drop_last();
        lemma_filter_keeps_all(t, p);
        assert(t.push(s.last()) =~= s);
        t.lemma_filter_push(s.last(), p);
    } else {
        assert(s.filter(p) =~= s);
    }
}

/// Exporting the media items of a cache and importing them into an empty
/// cache stores every item again, in the same order, as it was (apart from
/// the favourite flag), provided each rendered creation time parses back to
/// its seconds, as chrono guarantees for years 0000 to 9999.
pub proof fn law_export_import_roundtrip(v: CacheView, empty: CacheView)
    requires
        wf(v),
        empty.items.len() == 0,
        empty.albums.len() == 0,
        empty.links.len() == 0,
        empty.faces.len() == 0,
        forall|i: int|
            0 <= i < v.items.len() ==> parses_to(
                rfc3339_render((#[trigger] v.items[i]).creation_time),
                v.items[i].creation_time,
            ),
    ensures
        item_import(empty, select(v, no_filter())) == (
            CacheView { items: v.items.map_values(|r: MediaRowView| unfavorited(r)), ..empty },
            None::<CacheErrorView>,
        ),
{
    let p = selected_by(no_filter(), v.links);
    lemma_filter_keeps_all(v.items, p);
    let e = select(v, no_filter());
    assert(e =~= v.items.map_values(row_item_fn()));
    lemma_import_prefix(v, empty, v.items.len() as int);
    assert(e.take(v.items.len() as int) =~= e);
    assert(v.items.take(v.items.len() as int) =~= v.items);
}

proof fn lemma_import_prefix(v: CacheView, empty: CacheView, k: int)
    requires
        wf(v),
        0 <= k <= v.items.len(),
        empty.items.len() == 0,
        empty.albums.len() == 0,
        empty.links.len() == 0,
        empty.faces.len() == 0,
        forall|i: int|
            0 <= i < v.items.len() ==> parses_to(
                rfc3339_render((#[trigger] v.items[i]).creation_time),
                v.items[i].creation_time,
            ),
    ensures
        item_import(empty, v.items.map_values(row_item_fn()).take(k)) == (
            CacheView {
                items: v.items.take(k).map_values(|r: MediaRowView| unfavorited(r)),
                ..empty
            },
            None::<CacheErrorView>,
        ),
    decreases k,
{
    let e = v.items.map_values(row_item_fn());
    if k == 0 {
        assert(e.take(0) =~= Seq::<MediaItemView>::empty());
        assert(v.items.take(0).map_values(|r: MediaRowView| unfavorited(r)) =~= Seq::<
            MediaRowView,
        >::empty());
        assert(empty.items =~= Seq::<MediaRowView>::empty());
    } else {
        lemma_import_prefix(v, empty, k - 1);
        let r = v.items[k - 1];
        assert(e.take(k).drop_last() =~= e.take(k - 1));
        assert(e.take(k).last() == row_item(r));
        law_read_item_reinserts_as_stored(r);
        let before = v.items.take(k - 1).map_values(|x: MediaRowView| unfavorited(x));
        let w = CacheView { items: before, ..empty };
        assert forall|i: int| 0 <= i < before.len() implies (#[trigger] other_row(r.id)(before[i])) by {
            assert(before[i].id == v.items[i].id);
            assert(v.items[i].id != v.items[k - 1].id);
        }
        lemma_filter_keeps_all(before, other_row(r.id));
        assert(without_item(w, r.id).albums =~= empty.albums);
        assert(without_item(w, r.id).links =~= empty.links);
        assert(without_item(w, r.id).faces =~= empty.faces);
        assert(without_item(w, r.id) == w);
        assert(before.push(unfavorited(r)) =~= v.items.take(k).map_values(
            |x: MediaRowView| unfavorited(x),
        ));
    }
}

proof fn lemma_filter_drops_one(s: Seq<MediaRowView>, id: Seq<char>, k: int)
    requires
        0 <= k < s.len(),
        s[k].id == id,
        forall|i: int| 0 <= i < s.len() && i != k ==> (#[trigger] s[i]).id != id,
    ensures
        s.filter(other_row(id)).len() == s.len() - 1,
{
    let p = other_row(id);
    assert forall|i: int| 0 <= i <= s.len() implies #[trigger] s.take(i).filter(p).len() == i - (
    if k < i {
        1int
    } else {
        0int
    }) by {
        lemma_filter_len_prefix(s, id, k, i);
    }
    assert(s.take(s.len() as int) =~= s);
}

proof fn lemma_filter_len_prefix(s: Seq<MediaRowView>, id: Seq<char>, k: int, i: int)
    requires
        0 <= k < s.len(),
        s[k].id == id,
        forall|j: int| 0 <= j < s.len() && j != k ==> (#[trigger] s[j]).id != id,
        0 <= i <= s.len(),
    ensures
        s.take(i).filter(other_row(id)).len() == i - (if k < i {
            1int
        } else {
            0int
        }),
    decreases i,
{
    if i == 0 {
        assert(s.take(0) =~= Seq::<MediaRowView>::empty());
        assert(Seq::<MediaRowView>::empty().filter(other_row(id)) =~= Seq::<MediaRowView>::empty());
    } else {
        lemma_filter_len_prefix(s, id, k, i - 1);
        crate::cache::lemma_filter_take_step(s, i - 1, other_row(id));
    }
}

/// Inserting a media item whose id is already cached replaces that item:
/// the number of cached items stays the same, exactly one cached item has
/// that id, and it reads back as the new item is stored.
pub proof fn law_reinsert_keeps_count(v: CacheView, item: MediaItemView)
    requires
        wf(v),
        has_item(v, item.id),
        parse_item(item) is Ok,
    ensures
        after_insert(v, item) matches Ok(u) && {
            &&& u.items.len() == v.items.len()
            &&& has_item(u, item.id)
            &&& forall|i: int, j: int|
                0 <= i < u.items.len() && 0 <= j < u.items.len() && (#[trigger] u.items[i]).id
                    == item.id && (#[trigger] u.items[j]).id == item.id ==> i == j
            &&& lookup(u, item.id) == Some(
                row_item(
                    item_row(
                        item,
                        parse_item(item)->Ok_0.0,
                        parse_item(item)->Ok_0.1,
                        parse_item(item)->Ok_0.2,
                    ),
                ),
            )
        },
{
    law_get_after_insert(v, item);
    let (ts, w, h) = parse_item(item)->Ok_0;
    let row = item_row(item, ts, w, h);
    let u = with_row(v, row);
    let f = v.items.filter(other_row(item.id));
    let k = choose|k: int| 0 <= k < v.items.len() && (#[trigger] v.items[k]).id == item.id;
    lemma_filter_drops_one(v.items, item.id, k);
    lemma_filter_members(v.items, other_row(item.id));
    let n = u.items.len() - 1;
    assert(u.items[n] == row);
    assert forall|i: int| 0 <= i < u.items.len() && (#[trigger] u.items[i]).id == item.id implies i
        == n by {
        if i < n {
            assert(u.items[i] == f[i]);
            assert(other_row(item.id)(f[i]));
        }
    }
}

/// Setting the favourite flag of a media item gives that item exactly the
/// requested flag, for both values (so un-favouriting clears it), and
/// leaves every other field of it, every other item, and the rest of the
/// cache as they were.
pub proof fn law_set_favorite_sets_exactly(v: CacheView, id: Seq<char>, fav: bool, u: CacheView)
    requires
        u == (CacheView { items: v.items.map_values(set_fav_fn(id, fav)), ..v }),
    ensures
        u.items.len() == v.items.len(),
        forall|i: int|
            0 <= i < v.items.len() && (#[trigger] v.items[i]).id == id ==> u.items[i].is_favorite
                == fav && (MediaRowView { is_favorite: v.items[i].is_favorite, ..u.items[i] })
                == v.items[i],
        forall|i: int| 0 <= i < v.items.len() && (#[trigger] v.items[i]).id != id ==> u.items[i] == v.items[i],
        u.albums == v.albums && u.links == v.links && u.faces == v.faces && u.last_sync
            == v.last_sync,
{
}

/// After un-favouriting a media item it is not among the favourites.
pub proof fn law_unfavorited_not_listed(v: CacheView, id: Seq<char>)
    requires
        wf(v),
    ensures
        forall|k: int|
            0 <= k < select(
                CacheView { items: v.items.map_values(set_fav_fn(id, false)), ..v },
                filter_favorite(true),
            ).len() ==> (#[trigger] select(
                CacheView { items: v.items.map_values(set_fav_fn(id, false)), ..v },
                filter_favorite(true),
            )[k]).id != id,
{
    let u = CacheView { items: v.items.map_values(set_fav_fn(id, false)), ..v };
    let p = selected_by(filter_favorite(true), u.links);
    lemma_filter_members(u.items, p);
    assert forall|k: int| 0 <= k < select(u, filter_favorite(true)).len() implies (#[trigger] select(
        u,
        filter_favorite(true),
    )[k]).id != id by {
        let row = u.items.filter(p)[k];
        assert(select(u, filter_favorite(true))[k] == row_item_fn()(row));
        assert(p(row));
        assert(u.items.contains(row));
        let i = choose|i: int| 0 <= i < u.items.len() && u.items[i] == row;
        assert(u.items[i] == set_fav_fn(id, false)(v.items[i]));
    }
}

/// Renaming an album gives exactly that album the new title and leaves
/// its other fields, every other album (with its title), and the rest of
/// the cache as they were.
pub proof fn law_rename_album_renames_only_it(v: CacheView, id: Seq<char>, title: Seq<char>, u: CacheView)
    requires
        u == (CacheView { albums: v.albums.map_values(retitle_fn(id, title)), ..v }),
    ensures
        u.albums.len() == v.albums.len(),
        forall|i: int|
            0 <= i < v.albums.len() && (#[trigger] v.albums[i]).id == id ==> u.albums[i].title
                == Some(title) && (AlbumView { title: v.albums[i].title, ..u.albums[i] })
                == v.albums[i],
        forall|i: int| 0 <= i < v.albums.len() && (#[trigger] v.albums[i]).id != id ==> u.albums[i] == v.albums[i],
        u.items == v.items && u.links == v.links && u.faces == v.faces && u.last_sync
            == v.last_sync,
{
}

} // verus!
