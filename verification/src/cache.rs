//! The local media cache: media items with their metadata, albums, the
//! items each album holds, detected faces and the time of the last
//! synchronisation. It keeps the rules of the cache's relational schema:
//! one row per id, replacing a row first deletes the old one, and
//! references between tables are enforced, cascaded or cleared.

use vstd::prelude::*;
use vstd::string::*;
use crate::types::{
    opt_view, opt_from_str, clone_opt, clone_faces, MediaItem, MediaItemView, MediaMetadata,
    MediaMetadataView, VideoMetadata, VideoMetadataView, Album, AlbumView, albums_view,
    FaceData, FaceDataView, faces_view, FaceExport, items_view,
};
use crate::text::{
    spec_parse_i64, parse_i64, signed_decimal, i64_to_decimal, int_error_text,
    int_error_message, IntErrorKind,
};
use crate::datetime::{
    rfc3339_parse, rfc3339_render, parse_rfc3339_seconds, render_rfc3339, rfc3339_min_ts,
    rfc3339_max_ts, four_digit_year_ts, parses_to,
};
use crate::pattern::{like_match, contains_pattern, like_contains};

verus! {

/// Errors of the cache.
#[derive(Debug, Clone, PartialEq, Eq)]
pub enum CacheError {
    DatabaseError(String),
    SerializationError(String),
    DeserializationError(String),
    Other(String),
}

pub enum CacheErrorView {
    DatabaseError(Seq<char>),
    SerializationError(Seq<char>),
    DeserializationError(Seq<char>),
    Other(Seq<char>),
}

impl View for CacheError {
    type V = CacheErrorView;

    open spec fn view(&self) -> CacheErrorView {
        match self {
            CacheError::DatabaseError(m) => CacheErrorView::DatabaseError(m@),
            CacheError::SerializationError(m) => CacheErrorView::SerializationError(m@),
            CacheError::DeserializationError(m) => CacheErrorView::DeserializationError(m@),
            CacheError::Other(m) => CacheErrorView::Other(m@),
        }
    }
}

/// The text of a cache error, as its `Display` shows it.
pub open spec fn cache_error_text(e: CacheErrorView) -> Seq<char> {
    match e {
        CacheErrorView::DatabaseError(m) => "Database Error: "@ + m,
        CacheErrorView::SerializationError(m) => "Serialization Error: "@ + m,
        CacheErrorView::DeserializationError(m) => "Deserialization Error: "@ + m,
        CacheErrorView::Other(m) => "Other Error: "@ + m,
    }
}

impl CacheError {
    /// The text of the error, as its `Display` shows it.
    pub fn message(&self) -> (r: String)
        ensures
            r@ == cache_error_text(self@),
    {
        let (mut head, m) = match self {
            CacheError::DatabaseError(m) => (String::from_str("Database Error: "), m),
            CacheError::SerializationError(m) => (String::from_str("Serialization Error: "), m),
            CacheError::DeserializationError(m) => (
                String::from_str("Deserialization Error: "),
                m,
            ),
            CacheError::Other(m) => (String::from_str("Other Error: "), m),
        };
        head.append(m.as_str());
        head
    }
}

/// One cached media item: the service's fields, the favourite flag and the
/// parsed metadata (creation time in Unix seconds, dimensions in pixels).
#[derive(Debug)]
pub struct MediaRow {
    pub id: String,
    pub description: Option<String>,
    pub product_url: String,
    pub base_url: String,
    pub mime_type: String,
    pub is_favorite: bool,
    pub filename: String,
    pub creation_time: i64,
    pub width: i64,
    pub height: i64,
    pub camera_make: Option<String>,
    pub camera_model: Option<String>,
    pub fps_bits: Option<u32>,
    pub status: Option<String>,
}

pub struct MediaRowView {
    pub id: Seq<char>,
    pub description: Option<Seq<char>>,
    pub product_url: Seq<char>,
    pub base_url: Seq<char>,
    pub mime_type: Seq<char>,
    pub is_favorite: bool,
    pub filename: Seq<char>,
    pub creation_time: i64,
    pub width: i64,
    pub height: i64,
    pub camera_make: Option<Seq<char>>,
    pub camera_model: Option<Seq<char>>,
    pub fps_bits: Option<u32>,
    pub status: Option<Seq<char>>,
}

impl View for MediaRow {
    type V = MediaRowView;

    open spec fn view(&self) -> MediaRowView {
        MediaRowView {
            id: self.id@,
            description: opt_view(self.description),
            product_url: self.product_url@,
            base_url: self.base_url@,
            mime_type: self.mime_type@,
            is_favorite: self.is_favorite,
            filename: self.filename@,
            creation_time: self.creation_time,
            width: self.width,
            height: self.height,
            camera_make: opt_view(self.camera_make),
            camera_model: opt_view(self.camera_model),
            fps_bits: self.fps_bits,
            status: opt_view(self.status),
        }
    }
}

impl Clone for MediaRow {
    fn clone(&self) -> (r: Self)
        ensures
            r@ == self@,
    {
        MediaRow {
            id: self.id.clone(),
            description: clone_opt(&self.description),
            product_url: self.product_url.clone(),
            base_url: self.base_url.clone(),
            mime_type: self.mime_type.clone(),
            is_favorite: self.is_favorite,
            filename: self.filename.clone(),
            creation_time: self.creation_time,
            width: self.width,
            height: self.height,
            camera_make: clone_opt(&self.camera_make),
            camera_model: clone_opt(&self.camera_model),
            fps_bits: self.fps_bits,
            status: clone_opt(&self.status),
        }
    }
}

/// That an album holds a media item.
#[derive(Debug)]
pub struct AlbumLink {
    pub album_id: String,
    pub media_item_id: String,
}

impl View for AlbumLink {
    type V = (Seq<char>, Seq<char>);

    open spec fn view(&self) -> (Seq<char>, Seq<char>) {
        (self.album_id@, self.media_item_id@)
    }
}

impl Clone for AlbumLink {
    fn clone(&self) -> (r: Self)
        ensures
            r@ == self@,
    {
        AlbumLink { album_id: self.album_id.clone(), media_item_id: self.media_item_id.clone() }
    }
}

/// The local media cache.
#[derive(Debug)]
pub struct CacheManager {
    items: Vec<MediaRow>,
    albums: Vec<Album>,
    links: Vec<AlbumLink>,
    faces: Vec<FaceExport>,
    last_sync: String,
}

/// The contents of the cache: its rows in the order in which they were
/// (last) inserted, and the stored time of the last synchronisation.
pub struct CacheView {
    pub items: Seq<MediaRowView>,
    pub albums: Seq<AlbumView>,
    pub links: Seq<(Seq<char>, Seq<char>)>,
    pub faces: Seq<(Seq<char>, Seq<FaceDataView>)>,
    pub last_sync: Seq<char>,
}

pub open spec fn rows_view(v: Seq<MediaRow>) -> Seq<MediaRowView> {
    v.map_values(|r: MediaRow| r@)
}

pub open spec fn links_view(v: Seq<AlbumLink>) -> Seq<(Seq<char>, Seq<char>)> {
    v.map_values(|l: AlbumLink| l@)
}

pub open spec fn face_rows_view(v: Seq<FaceExport>) -> Seq<(Seq<char>, Seq<FaceDataView>)> {
    v.map_values(|f: FaceExport| f@)
}

impl View for CacheManager {
    type V = CacheView;

    closed spec fn view(&self) -> CacheView {
        CacheView {
            items: rows_view(self.items@),
            albums: albums_view(self.albums@),
            links: links_view(self.links@),
            faces: face_rows_view(self.faces@),
            last_sync: self.last_sync@,
        }
    }
}

/// The stored time of the last synchronisation in an empty cache.
pub open spec fn epoch_text() -> Seq<char> {
    "1970-01-01T00:00:00Z"@
}

/// Whether the cache holds a media item with this id.
pub open spec fn has_item(v: CacheView, id: Seq<char>) -> bool {
    exists|i: int| 0 <= i < v.items.len() && (#[trigger] v.items[i]).id == id
}

/// Whether the cache holds an album with this id.
pub open spec fn has_album(v: CacheView, id: Seq<char>) -> bool {
    exists|i: int| 0 <= i < v.albums.len() && (#[trigger] v.albums[i]).id == id
}

/// The rules that the cache's schema enforces: ids are unique in each
/// table, every reference names an existing row, creation times are those
/// that RFC 3339 text can denote.
pub open spec fn wf(v: CacheView) -> bool {
    &&& forall|i: int, j: int|
        0 <= i < j < v.items.len() ==> (#[trigger] v.items[i]).id != (#[trigger] v.items[j]).id
    &&& forall|i: int|
        0 <= i < v.items.len() ==> rfc3339_min_ts() <= (#[trigger] v.items[i]).creation_time
            <= rfc3339_max_ts()
    &&& forall|i: int, j: int|
        0 <= i < j < v.albums.len() ==> (#[trigger] v.albums[i]).id != (#[trigger] v.albums[j]).id
    &&& forall|i: int, j: int| 0 <= i < j < v.links.len() ==> v.links[i] != v.links[j]
    &&& forall|i: int|
        0 <= i < v.links.len() ==> has_album(v, (#[trigger] v.links[i]).0) && has_item(
            v,
            v.links[i].1,
        )
    &&& forall|i: int, j: int|
        0 <= i < j < v.faces.len() ==> (#[trigger] v.faces[i]).0 != (#[trigger] v.faces[j]).0
    &&& forall|i: int| 0 <= i < v.faces.len() ==> has_item(v, (#[trigger] v.faces[i]).0)
    &&& forall|i: int|
        0 <= i < v.albums.len() ==> match (#[trigger] v.albums[i]).cover_photo_media_item_id {
            Some(c) => has_item(v, c),
            None => true,
        }
}

/// An album whose cover was the media item `id` loses its cover.
pub open spec fn uncover(a: AlbumView, id: Seq<char>) -> AlbumView {
    if a.cover_photo_media_item_id == Some(id) {
        AlbumView { cover_photo_media_item_id: None, ..a }
    } else {
        a
    }
}

/// Deleting the media item `id`: its row goes, and with it the album
/// entries and faces that refer to it; album covers that named it are
/// cleared.
pub open spec fn without_item(v: CacheView, id: Seq<char>) -> CacheView {
    CacheView {
        items: v.items.filter(other_row(id)),
        albums: v.albums.map_values(uncover_fn(id)),
        links: v.links.filter(link_not_to_item(id)),
        faces: v.faces.filter(faces_not_of(id)),
        last_sync: v.last_sync,
    }
}

/// Deleting the album `id`: its row goes, and with it its entries.
pub open spec fn without_album(v: CacheView, id: Seq<char>) -> CacheView {
    CacheView {
        albums: v.albums.filter(other_album(id)),
        links: v.links.filter(link_not_in_album(id)),
        ..v
    }
}

pub open spec fn other_row(id: Seq<char>) -> spec_fn(MediaRowView) -> bool {
    |r: MediaRowView| r.id != id
}

pub open spec fn other_album(id: Seq<char>) -> spec_fn(AlbumView) -> bool {
    |a: AlbumView| a.id != id
}

pub open spec fn uncover_fn(id: Seq<char>) -> spec_fn(AlbumView) -> AlbumView {
    |a: AlbumView| uncover(a, id)
}

pub open spec fn link_not_to_item(id: Seq<char>) -> spec_fn((Seq<char>, Seq<char>)) -> bool {
    |l: (Seq<char>, Seq<char>)| l.1 != id
}

pub open spec fn link_not_in_album(id: Seq<char>) -> spec_fn((Seq<char>, Seq<char>)) -> bool {
    |l: (Seq<char>, Seq<char>)| l.0 != id
}

pub open spec fn faces_not_of(id: Seq<char>) -> spec_fn((Seq<char>, Seq<FaceDataView>)) -> bool {
    |f: (Seq<char>, Seq<FaceDataView>)| f.0 != id
}

/// Stepping a filter over one more element.
pub proof fn lemma_filter_take_step<A>(s: Seq<A>, i: int, p: spec_fn(A) -> bool)
    requires
        0 <= i < s.len(),
    ensures
        s.take(i + 1).filter(p) == (if p(s[i]) {
            s.take(i).filter(p).push(s[i])
        } else {
            s.take(i).filter(p)
        }),
{
    assert(s.take(i + 1) =~= s.take(i).push(s[i]));
    s.take(i).lemma_filter_push(s[i], p);
}

/// Elements of a filtered sequence come from it and satisfy the filter;
/// an element of the sequence that satisfies it is kept.
pub proof fn lemma_filter_members<A>(s: Seq<A>, p: spec_fn(A) -> bool)
    ensures
        forall|k: int|
            0 <= k < s.filter(p).len() ==> p(#[trigger] s.filter(p)[k]) && s.contains(
                s.filter(p)[k],
            ),
        forall|x: A| s.contains(x) && p(x) ==> #[trigger] s.filter(p).contains(x),
{
    assert forall|k: int| 0 <= k < s.filter(p).len() implies p(#[trigger] s.filter(p)[k])
        && s.contains(s.filter(p)[k]) by {
        s.lemma_filter_pred(p, k);
        assert(s.filter(p).contains(s.filter(p)[k]));
        s.lemma_filter_contains_rev(p, s.filter(p)[k]);
    }
    assert forall|x: A| s.contains(x) && p(x) implies #[trigger] s.filter(p).contains(x) by {
        let i = choose|i: int| 0 <= i < s.len() && s[i] == x;
        s.lemma_filter_contains(p, i);
    }
}

impl CacheManager {
    /// An empty cache.
    pub fn new() -> (r: CacheManager)
        ensures
            r@.items.len() == 0,
            r@.albums.len() == 0,
            r@.links.len() == 0,
            r@.faces.len() == 0,
            r@.last_sync == epoch_text(),
            wf(r@),
    {
        let r = CacheManager {
            items: Vec::new(),
            albums: Vec::new(),
            links: Vec::new(),
            faces: Vec::new(),
            last_sync: String::from_str("1970-01-01T00:00:00Z"),
        };
        assert(r@.items =~= Seq::<MediaRowView>::empty());
        assert(r@.albums =~= Seq::<AlbumView>::empty());
        assert(r@.links =~= Seq::<(Seq<char>, Seq<char>)>::empty());
        assert(r@.faces =~= Seq::<(Seq<char>, Seq<FaceDataView>)>::empty());
        r
    }

    /// Deletes the media item `id` with everything that refers to it.
    fn remove_item(&mut self, id: &String)
        requires
            wf(old(self)@),
        ensures
            final(self)@ == without_item(old(self)@, id@),
            wf(final(self)@),
    {
        let ghost old_v = self@;
        let ghost pi = other_row(id@);
        let ghost pl = link_not_to_item(id@);
        let ghost pf = faces_not_of(id@);
        let ghost ua = uncover_fn(id@);

        let mut items: Vec<MediaRow> = Vec::new();
        let mut i: usize = 0;
        while i < self.items.len()
            invariant
                i <= self.items.len(),
                self@ == old_v,
                pi == other_row(id@),
                rows_view(items@) == rows_view(self.items@).take(i as int).filter(pi),
            decreases self.items.len() - i,
        {
            proof {
                lemma_filter_take_step(rows_view(self.items@), i as int, pi);
                assert(rows_view(self.items@)[i as int] == self.items@[i as int]@);
            }
            let ghost before = items@;
            if !self.items[i].id.eq(id) {
                assert(pi(self.items@[i as int]@));
                items.push(self.items[i].clone());
                assert(rows_view(items@) =~= rows_view(before).push(self.items@[i as int]@));
                assert(rows_view(items@) =~= rows_view(self.items@).take(i + 1).filter(pi));
            } else {
                assert(!pi(self.items@[i as int]@));
                assert(rows_view(items@) =~= rows_view(self.items@).take(i + 1).filter(pi));
            }
            i = i + 1;
        }
        assert(rows_view(self.items@).take(self.items.len() as int) =~= rows_view(self.items@));

        let mut albums: Vec<Album> = Vec::new();
        let mut j: usize = 0;
        while j < self.albums.len()
            invariant
                j <= self.albums.len(),
                self@ == old_v,
                albums@.len() == j,
                forall|k: int| 0 <= k < j ==> (#[trigger] albums@[k])@ == uncover(self.albums@[k]@, id@),
            decreases self.albums.len() - j,
        {
            let mut a = self.albums[j].clone();
            let clear = match &a.cover_photo_media_item_id {
                Some(c) => c.eq(id),
                None => false,
            };
            if clear {
                a.cover_photo_media_item_id = None;
            }
            albums.push(a);
            j = j + 1;
        }
        assert(albums_view(albums@) =~= old_v.albums.map_values(ua));

        let mut links: Vec<AlbumLink> = Vec::new();
        let mut k: usize = 0;
        while k < self.links.len()
            invariant
                k <= self.links.len(),
                self@ == old_v,
                pl == link_not_to_item(id@),
                links_view(links@) == links_view(self.links@).take(k as int).filter(pl),
            decreases self.links.len() - k,
        {
            proof {
                lemma_filter_take_step(links_view(self.links@), k as int, pl);
                assert(links_view(self.links@)[k as int] == self.links@[k as int]@);
            }
            if !self.links[k].media_item_id.eq(id) {
                links.push(self.links[k].clone());
                assert(links_view(links@) =~= links_view(self.links@).take(k as int).filter(pl).push(
                    self.links@[k as int]@));
            }
            k = k + 1;
        }
        assert(links_view(self.links@).take(self.links.len() as int) =~= links_view(self.links@));

        let mut faces: Vec<FaceExport> = Vec::new();
        let mut f: usize = 0;
        while f < self.faces.len()
            invariant
                f <= self.faces.len(),
                self@ == old_v,
                pf == faces_not_of(id@),
                face_rows_view(faces@) == face_rows_view(self.faces@).take(f as int).filter(pf),
            decreases self.faces.len() - f,
        {
            proof {
                lemma_filter_take_step(face_rows_view(self.faces@), f as int, pf);
                assert(face_rows_view(self.faces@)[f as int] == self.faces@[f as int]@);
            }
            if !self.faces[f].media_item_id.eq(id) {
                faces.push(self.faces[f].clone());
                assert(face_rows_view(faces@) =~= face_rows_view(self.faces@).take(f as int).filter(
                    pf).push(self.faces@[f as int]@));
            }
            f = f + 1;
        }
        assert(face_rows_view(self.faces@).take(self.faces.len() as int) =~= face_rows_view(self.faces@));

        self.items = items;
        self.albums = albums;
        self.links = links;
        self.faces = faces;
        proof { lemma_without_item_wf(old_v, id@); }
    }
}

/// What a media item's text fields parse to on insertion: the creation
/// time in Unix seconds and the width and height, or the error for the
/// first field that does not parse.
pub open spec fn parse_item(item: MediaItemView) -> Result<(i64, i64, i64), CacheErrorView> {
    match rfc3339_parse(item.media_metadata.creation_time) {
        Err(m) => Err(CacheErrorView::SerializationError(m)),
        Ok(ts) => match spec_parse_i64(item.media_metadata.width) {
            Err(k) => Err(CacheErrorView::SerializationError(int_error_text(k))),
            Ok(w) => match spec_parse_i64(item.media_metadata.height) {
                Err(k) => Err(CacheErrorView::SerializationError(int_error_text(k))),
                Ok(h) => Ok((ts, w, h)),
            },
        },
    }
}

/// The row that a media item becomes, given its parsed creation time and
/// dimensions. A newly inserted row is not a favourite.
pub open spec fn item_row(item: MediaItemView, ts: i64, w: i64, h: i64) -> MediaRowView {
    MediaRowView {
        id: item.id,
        description: item.description,
        product_url: item.product_url,
        base_url: item.base_url,
        mime_type: item.mime_type,
        is_favorite: false,
        filename: item.filename,
        creation_time: ts,
        width: w,
        height: h,
        camera_make: match item.media_metadata.video {
            Some(v) => v.camera_make,
            None => None,
        },
        camera_model: match item.media_metadata.video {
            Some(v) => v.camera_model,
            None => None,
        },
        fps_bits: match item.media_metadata.video {
            Some(v) => v.fps_bits,
            None => None,
        },
        status: match item.media_metadata.video {
            Some(v) => v.status,
            None => None,
        },
    }
}

/// Inserting a row replaces any row with its id: the old row is deleted
/// (with what refers to it) and the new one goes last.
pub open spec fn with_row(v: CacheView, row: MediaRowView) -> CacheView {
    let w = without_item(v, row.id);
    CacheView { items: w.items.push(row), ..w }
}

/// The cache after inserting a media item, or the error that refuses it.
pub open spec fn after_insert(v: CacheView, item: MediaItemView) -> Result<CacheView, CacheErrorView> {
    match parse_item(item) {
        Ok((ts, w, h)) => Ok(with_row(v, item_row(item, ts, w, h))),
        Err(e) => Err(e),
    }
}

/// The media item that a cached row reads back as: the creation time is
/// rendered as RFC 3339 text in UTC, the dimensions in decimal, and the
/// video metadata is always present.
pub open spec fn row_item(r: MediaRowView) -> MediaItemView {
    MediaItemView {
        id: r.id,
        description: r.description,
        product_url: r.product_url,
        base_url: r.base_url,
        mime_type: r.mime_type,
        media_metadata: MediaMetadataView {
            creation_time: rfc3339_render(r.creation_time),
            width: signed_decimal(r.width as int),
            height: signed_decimal(r.height as int),
            video: Some(
                VideoMetadataView {
                    camera_make: r.camera_make,
                    camera_model: r.camera_model,
                    fps_bits: r.fps_bits,
                    status: r.status,
                },
            ),
        },
        filename: r.filename,
    }
}

pub open spec fn row_item_fn() -> spec_fn(MediaRowView) -> MediaItemView {
    |r: MediaRowView| row_item(r)
}

/// The media items at the given positions of the rows, in the order given;
/// positions outside the rows are skipped.
pub open spec fn rows_at(items: Seq<MediaRowView>, positions: Seq<i64>) -> Seq<MediaItemView>
    decreases positions.len(),
{
    if positions.len() == 0 {
        Seq::empty()
    } else {
        let before = rows_at(items, positions.drop_last());
        let k = positions.last();
        if 0 <= k < items.len() {
            before.push(row_item(items[k as int]))
        } else {
            before
        }
    }
}

/// The entries of the cache's full-text index, in cache order: each media
/// item's id, filename and description (empty where missing).
pub open spec fn text_index(v: CacheView) -> Seq<(Seq<char>, Seq<char>, Seq<char>)> {
    v.items.map_values(|r: MediaRowView| (r.id, r.filename, description_text(r.description)))
}

pub open spec fn text_rows_view(v: Seq<(String, String, String)>) -> Seq<(Seq<char>, Seq<char>, Seq<char>)> {
    v.map_values(|e: (String, String, String)| (e.0@, e.1@, e.2@))
}

/// What SQLite's FTS5 gives for a `MATCH` query over a full-text table with
/// the columns `media_item_id UNINDEXED, filename, description`, holding
/// the entries with their positions as rowids: the matching rowids, or
/// `None` where SQLite refuses the query.
pub uninterp spec fn fts5_match(query: Seq<char>, rows: Seq<(Seq<char>, Seq<char>, Seq<char>)>) -> Option<Seq<i64>>;

/// Runs an FTS5 `MATCH` query with rusqlite over an in-memory full-text
/// table with the columns of the cache's index, one row per entry with its
/// position as rowid, and returns the matching rowids in ascending order.
/// Claims: the call succeeds exactly where the named result is a list of
/// rowids, and then returns that list; where SQLite refuses the query the
/// call fails. The text of the error is SQLite's and is not stated. Like
/// the rest of the library, the claim takes memory allocation to succeed:
/// SQLite running out of memory is not accounted for.
#[verifier::external_body]
fn fts5_search(query: &str, rows: &Vec<(String, String, String)>) -> (r: Result<Vec<i64>, String>)
    ensures
        r matches Ok(v) ==> fts5_match(query@, text_rows_view(rows@)) == Some(v@),
        fts5_match(query@, text_rows_view(rows@)) is Some ==> r is Ok,
        fts5_match(query@, text_rows_view(rows@)) is None ==> r is Err,
{
    let run = || {
        let db = rusqlite::Connection::open_in_memory()?;
        db.execute_batch("CREATE VIRTUAL TABLE f USING fts5(media_item_id UNINDEXED, filename, description)")?;
        for (i, (id, name, desc)) in rows.iter().enumerate() {
            db.execute("INSERT INTO f (rowid, media_item_id, filename, description) VALUES (?1, ?2, ?3, ?4)", (i as i64, id, name, desc))?;
        }
        let mut stmt = db.prepare("SELECT rowid FROM f WHERE f MATCH ?1 ORDER BY rowid")?;
        let found = stmt.query_map([query], |row| row.get::<usize, i64>(0))?.collect::<rusqlite::Result<Vec<i64>>>();
        found
    };
    run().map_err(|e: rusqlite::Error| e.to_string())
}

/// A selection of cached media items: each present condition must hold.
pub struct MediaFilter {
    pub camera_model: Option<Seq<char>>,
    pub camera_make: Option<Seq<char>>,
    pub start: Option<i64>,
    pub end: Option<i64>,
    pub favorite: Option<bool>,
    pub mime_type: Option<Seq<char>>,
    pub text: Option<Seq<char>>,
    pub filename_like: Option<Seq<char>>,
    pub description_like: Option<Seq<char>>,
    pub album_id: Option<Seq<char>>,
}

/// The filter that selects every item.
pub open spec fn no_filter() -> MediaFilter {
    MediaFilter {
        camera_model: None,
        camera_make: None,
        start: None,
        end: None,
        favorite: None,
        mime_type: None,
        text: None,
        filename_like: None,
        description_like: None,
        album_id: None,
    }
}

/// The description as the full-text index holds it: missing is empty.
pub open spec fn description_text(d: Option<Seq<char>>) -> Seq<char> {
    match d {
        Some(t) => t,
        None => Seq::<char>::empty(),
    }
}

/// Whether a row meets every condition of the filter. A missing camera,
/// description or album entry never matches a condition on it.
pub open spec fn row_selected(f: MediaFilter, r: MediaRowView, links: Seq<(Seq<char>, Seq<char>)>) -> bool {
    &&& (f.camera_model matches Some(m) ==> r.camera_model == Some(m))
    &&& (f.camera_make matches Some(m) ==> r.camera_make == Some(m))
    &&& (f.start matches Some(s) ==> s <= r.creation_time)
    &&& (f.end matches Some(e) ==> r.creation_time <= e)
    &&& (f.favorite matches Some(b) ==> r.is_favorite == b)
    &&& (f.mime_type matches Some(m) ==> r.mime_type == m)
    &&& (f.text matches Some(t) ==> like_match(contains_pattern(t), r.filename) || (
    r.description matches Some(d) && like_match(contains_pattern(t), d)))
    &&& (f.filename_like matches Some(t) ==> like_match(contains_pattern(t), r.filename))
    &&& (f.description_like matches Some(t) ==> (r.description matches Some(d) && like_match(
        contains_pattern(t),
        d,
    )))
    &&& (f.album_id matches Some(a) ==> links.contains((a, r.id)))
}

pub open spec fn selected_by(f: MediaFilter, links: Seq<(Seq<char>, Seq<char>)>) -> spec_fn(
    MediaRowView,
) -> bool {
    |r: MediaRowView| row_selected(f, r, links)
}

/// The media items, in cache order, whose rows the filter selects.
pub open spec fn select(v: CacheView, f: MediaFilter) -> Seq<MediaItemView> {
    v.items.filter(selected_by(f, v.links)).map_values(row_item_fn())
}

/// The media item with this id, if cached.
pub open spec fn lookup(v: CacheView, id: Seq<char>) -> Option<MediaItemView> {
    if has_item(v, id) {
        Some(row_item(v.items[choose|i: int| 0 <= i < v.items.len() && v.items[i].id == id]))
    } else {
        None
    }
}

/// The exec form of a `MediaFilter`.
struct ItemFilter {
    camera_model: Option<String>,
    camera_make: Option<String>,
    start: Option<i64>,
    end: Option<i64>,
    favorite: Option<bool>,
    mime_type: Option<String>,
    text: Option<String>,
    filename_like: Option<String>,
    description_like: Option<String>,
    album_id: Option<String>,
}

impl View for ItemFilter {
    type V = MediaFilter;

    closed spec fn view(&self) -> MediaFilter {
        MediaFilter {
            camera_model: opt_view(self.camera_model),
            camera_make: opt_view(self.camera_make),
            start: self.start,
            end: self.end,
            favorite: self.favorite,
            mime_type: opt_view(self.mime_type),
            text: opt_view(self.text),
            filename_like: opt_view(self.filename_like),
            description_like: opt_view(self.description_like),
            album_id: opt_view(self.album_id),
        }
    }
}

impl ItemFilter {
    fn all() -> (r: ItemFilter)
        ensures
            r@ == no_filter(),
    {
        ItemFilter {
            camera_model: None,
            camera_make: None,
            start: None,
            end: None,
            favorite: None,
            mime_type: None,
            text: None,
            filename_like: None,
            description_like: None,
                album_id: None,
        }
    }
}

/// Whether an optional cached value equals a required one.
fn opt_is(o: &Option<String>, want: &String) -> (r: bool)
    ensures
        r == (opt_view(*o) == Some(want@)),
{
    match o {
        Some(x) => x.eq(want),
        None => false,
    }
}

/// Reads a cached row back as a media item.
fn row_to_item(r: &MediaRow) -> (m: MediaItem)
    requires
        rfc3339_min_ts() <= r.creation_time <= rfc3339_max_ts(),
    ensures
        m@ == row_item(r@),
{
    MediaItem {
        id: r.id.clone(),
        description: clone_opt(&r.description),
        product_url: r.product_url.clone(),
        base_url: r.base_url.clone(),
        mime_type: r.mime_type.clone(),
        media_metadata: MediaMetadata {
            creation_time: render_rfc3339(r.creation_time),
            width: i64_to_decimal(r.width),
            height: i64_to_decimal(r.height),
            video: Some(
                VideoMetadata {
                    camera_make: clone_opt(&r.camera_make),
                    camera_model: clone_opt(&r.camera_model),
                    fps_bits: r.fps_bits,
                    status: clone_opt(&r.status),
                },
            ),
        },
        filename: r.filename.clone(),
    }
}

/// Inserting a row keeps the schema's rules when its creation time is one
/// that RFC 3339 text can denote.
pub proof fn lemma_with_row_wf(v: CacheView, row: MediaRowView)
    requires
        wf(v),
        rfc3339_min_ts() <= row.creation_time <= rfc3339_max_ts(),
    ensures
        wf(with_row(v, row)),
        has_item(with_row(v, row), row.id),
{
    lemma_without_item_wf(v, row.id);
    let w = without_item(v, row.id);
    let u = with_row(v, row);
    lemma_filter_members(v.items, other_row(row.id));
    assert forall|x: Seq<char>| has_item(w, x) implies has_item(u, x) by {
        let i = choose|i: int| 0 <= i < w.items.len() && (#[trigger] w.items[i]).id == x;
        assert(u.items[i] == w.items[i]);
    }
    assert(u.items[u.items.len() - 1] == row);
    assert forall|i: int, j: int| 0 <= i < j < u.items.len() implies (#[trigger] u.items[i]).id
        != (#[trigger] u.items[j]).id by {
        if j == u.items.len() - 1 {
            assert(u.items[i] == w.items[i]);
            assert(other_row(row.id)(w.items[i]));
        } else {
            assert(u.items[i] == w.items[i] && u.items[j] == w.items[j]);
        }
    }
    assert forall|i: int| 0 <= i < u.items.len() implies rfc3339_min_ts() <= (
    #[trigger] u.items[i]).creation_time <= rfc3339_max_ts() by {
        if i < u.items.len() - 1 {
            assert(u.items[i] == w.items[i]);
        }
    }
    assert forall|x: Seq<char>| has_album(w, x) implies has_album(u, x) by {}
}

impl CacheManager {
    /// The position of the media item `id`, if cached.
    fn find_item(&self, id: &String) -> (r: Option<usize>)
        ensures
            match r {
                Some(i) => i < self@.items.len() && self@.items[i as int].id == id@,
                None => !has_item(self@, id@),
            },
    {
        let mut i: usize = 0;
        while i < self.items.len()
            invariant
                i <= self.items.len(),
                forall|k: int| 0 <= k < i ==> self@.items[k].id != id@,
            decreases self.items.len() - i,
        {
            assert(self@.items[i as int] == self.items@[i as int]@);
            if self.items[i].id.eq(id) {
                return Some(i);
            }
            i = i + 1;
        }
        None
    }

    /// Whether the album `album_id` holds the media item `item_id`.
    fn has_link(&self, album_id: &String, item_id: &String) -> (r: bool)
        ensures
            r == self@.links.contains((album_id@, item_id@)),
    {
        let mut i: usize = 0;
        while i < self.links.len()
            invariant
                i <= self.links.len(),
                forall|k: int| 0 <= k < i ==> self@.links[k] != (album_id@, item_id@),
            decreases self.links.len() - i,
        {
            assert(self@.links[i as int] == self.links@[i as int]@);
            if self.links[i].album_id.eq(album_id) && self.links[i].media_item_id.eq(item_id) {
                return true;
            }
            i = i + 1;
        }
        false
    }

    /// Whether a cached row meets the filter.
    fn row_matches(&self, f: &ItemFilter, r: &MediaRow) -> (b: bool)
        ensures
            b == row_selected(f@, r@, self@.links),
    {
        if let Some(m) = &f.camera_model {
            if !opt_is(&r.camera_model, m) {
                return false;
            }
        }
        if let Some(m) = &f.camera_make {
            if !opt_is(&r.camera_make, m) {
                return false;
            }
        }
        if let Some(s) = f.start {
            if r.creation_time < s {
                return false;
            }
        }
        if let Some(e) = f.end {
            if r.creation_time > e {
                return false;
            }
        }
        if let Some(b) = f.favorite {
            if r.is_favorite != b {
                return false;
            }
        }
        if let Some(m) = &f.mime_type {
            if !r.mime_type.eq(m) {
                return false;
            }
        }
        if let Some(t) = &f.text {
            let in_name = like_contains(t.as_str(), r.filename.as_str());
            let in_desc = match &r.description {
                Some(d) => like_contains(t.as_str(), d.as_str()),
                None => false,
            };
            if !(in_name || in_desc) {
                return false;
            }
        }
        if let Some(t) = &f.filename_like {
            if !like_contains(t.as_str(), r.filename.as_str()) {
                return false;
            }
        }
        if let Some(t) = &f.description_like {
            let ok = match &r.description {
                Some(d) => like_contains(t.as_str(), d.as_str()),
                None => false,
            };
            if !ok {
                return false;
            }
        }
        if let Some(a) = &f.album_id {
            if !self.has_link(a, &r.id) {
                return false;
            }
        }
        true
    }

    /// The media items that the filter selects, in cache order.
    fn select_items(&self, f: &ItemFilter) -> (res: Vec<MediaItem>)
        requires
            wf(self@),
        ensures
            items_view(res@) == select(self@, f@),
    {
        let ghost p = selected_by(f@, self@.links);
        let ghost g = row_item_fn();
        let mut res: Vec<MediaItem> = Vec::new();
        let mut i: usize = 0;
        while i < self.items.len()
            invariant
                i <= self.items.len(),
                wf(self@),
                p == selected_by(f@, self@.links),
                g == row_item_fn(),
                items_view(res@) == self@.items.take(i as int).filter(p).map_values(g),
            decreases self.items.len() - i,
        {
            proof {
                lemma_filter_take_step(self@.items, i as int, p);
                assert(self@.items[i as int] == self.items@[i as int]@);
            }
            let ghost before = res@;
            if self.row_matches(f, &self.items[i]) {
                let item = row_to_item(&self.items[i]);
                res.push(item);
                assert(items_view(res@) =~= items_view(before).push(item@));
                assert(self@.items.take(i + 1).filter(p).map_values(g) =~= self@.items.take(
                    i as int,
                ).filter(p).map_values(g).push(g(self@.items[i as int])));
            }
            i = i + 1;
        }
        assert(self@.items.take(self.items.len() as int) =~= self@.items);
        res
    }
}

pub open spec fn filter_mime_type(m: Seq<char>) -> MediaFilter {
    MediaFilter { mime_type: Some(m), ..no_filter() }
}

pub open spec fn filter_camera_model(m: Seq<char>) -> MediaFilter {
    MediaFilter { camera_model: Some(m), ..no_filter() }
}

pub open spec fn filter_camera_make(m: Seq<char>) -> MediaFilter {
    MediaFilter { camera_make: Some(m), ..no_filter() }
}

pub open spec fn filter_filename(p: Seq<char>) -> MediaFilter {
    MediaFilter { filename_like: Some(p), ..no_filter() }
}

pub open spec fn filter_description(p: Seq<char>) -> MediaFilter {
    MediaFilter { description_like: Some(p), ..no_filter() }
}

pub open spec fn filter_favorite(b: bool) -> MediaFilter {
    MediaFilter { favorite: Some(b), ..no_filter() }
}

pub open spec fn filter_album(a: Seq<char>) -> MediaFilter {
    MediaFilter { album_id: Some(a), ..no_filter() }
}

pub open spec fn filter_date_range(start: i64, end: i64) -> MediaFilter {
    MediaFilter { start: Some(start), end: Some(end), ..no_filter() }
}

pub open spec fn opt_str_view(o: Option<&str>) -> Option<Seq<char>> {
    match o {
        Some(s) => Some(s@),
        None => None,
    }
}

/// The filter of the general query.
pub open spec fn filter_query(
    camera_model: Option<Seq<char>>,
    camera_make: Option<Seq<char>>,
    start: Option<i64>,
    end: Option<i64>,
    favorite: Option<bool>,
    mime_type: Option<Seq<char>>,
    text: Option<Seq<char>>,
) -> MediaFilter {
    MediaFilter { camera_model, camera_make, start, end, favorite, mime_type, text, ..no_filter() }
}

/// The cache after inserting the items one after the other, or the error
/// of the first item that is refused.
pub open spec fn after_batch(v: CacheView, items: Seq<MediaItemView>) -> Result<CacheView, CacheErrorView>
    decreases items.len(),
{
    if items.len() == 0 {
        Ok(v)
    } else {
        match after_batch(v, items.drop_last()) {
            Err(e) => Err(e),
            Ok(w) => after_insert(w, items.last()),
        }
    }
}

/// Inserting an album replaces any album with its id (whose entries are
/// deleted with it); the new album goes last.
pub open spec fn with_album(v: CacheView, a: AlbumView) -> CacheView {
    let w = without_album(v, a.id);
    CacheView { albums: w.albums.push(a), ..w }
}

/// Whether an album's cover names a cached media item or none.
pub open spec fn cover_ok(v: CacheView, a: AlbumView) -> bool {
    match a.cover_photo_media_item_id {
        Some(c) => has_item(v, c),
        None => true,
    }
}

pub open spec fn retitle(a: AlbumView, id: Seq<char>, title: Seq<char>) -> AlbumView {
    if a.id == id {
        AlbumView { title: Some(title), ..a }
    } else {
        a
    }
}

pub open spec fn retitle_fn(id: Seq<char>, title: Seq<char>) -> spec_fn(AlbumView) -> AlbumView {
    |a: AlbumView| retitle(a, id, title)
}

pub open spec fn link_other_than(l: (Seq<char>, Seq<char>)) -> spec_fn((Seq<char>, Seq<char>)) -> bool {
    |x: (Seq<char>, Seq<char>)| x != l
}

pub open spec fn set_fav(r: MediaRowView, id: Seq<char>, fav: bool) -> MediaRowView {
    if r.id == id {
        MediaRowView { is_favorite: fav, ..r }
    } else {
        r
    }
}

pub open spec fn set_fav_fn(id: Seq<char>, fav: bool) -> spec_fn(MediaRowView) -> MediaRowView {
    |r: MediaRowView| set_fav(r, id, fav)
}

/// The faces recorded for a media item, if any.
pub open spec fn faces_of(v: CacheView, id: Seq<char>) -> Option<Seq<FaceDataView>> {
    if exists|i: int| 0 <= i < v.faces.len() && (#[trigger] v.faces[i]).0 == id {
        Some(v.faces[choose|i: int| 0 <= i < v.faces.len() && (#[trigger] v.faces[i]).0 == id].1)
    } else {
        None
    }
}

/// Recording faces replaces those recorded for the item before.
pub open spec fn with_faces(v: CacheView, id: Seq<char>, faces: Seq<FaceDataView>) -> CacheView {
    CacheView { faces: v.faces.filter(faces_not_of(id)).push((id, faces)), ..v }
}

/// The error text of a write that a reference to a missing row refuses.
pub open spec fn fk_failure(what: Seq<char>) -> Seq<char> {
    what + ": FOREIGN KEY constraint failed"@
}

/// The cache after importing the entries one after the other, and the
/// error of the first refused entry if any: the import stops there and
/// keeps the entries before it.
pub open spec fn face_import(v: CacheView, entries: Seq<(Seq<char>, Seq<FaceDataView>)>) -> (
    CacheView,
    Option<CacheErrorView>,
)
    decreases entries.len(),
{
    if entries.len() == 0 {
        (v, None)
    } else {
        let (w, e) = face_import(v, entries.drop_last());
        if e is Some {
            (w, e)
        } else if has_item(w, entries.last().0) {
            (with_faces(w, entries.last().0, entries.last().1), None)
        } else {
            (w, Some(CacheErrorView::DatabaseError(fk_failure("Failed to insert faces"@))))
        }
    }
}

/// The cache after importing media items one after the other, and the
/// error of the first refused item if any: the import stops there and
/// keeps the items before it.
pub open spec fn item_import(v: CacheView, items: Seq<MediaItemView>) -> (CacheView, Option<CacheErrorView>)
    decreases items.len(),
{
    if items.len() == 0 {
        (v, None)
    } else {
        let (w, e) = item_import(v, items.drop_last());
        if e is Some {
            (w, e)
        } else {
            match after_insert(w, items.last()) {
                Ok(x) => (x, None),
                Err(err) => (w, Some(err)),
            }
        }
    }
}

/// Deleting a media item keeps the schema's rules.
pub proof fn lemma_without_item_wf(v: CacheView, id: Seq<char>)
    requires
        wf(v),
    ensures
        wf(without_item(v, id)),
{
    let w = without_item(v, id);
    let pi = other_row(id);
    let pl = link_not_to_item(id);
    let pf = faces_not_of(id);
    lemma_filter_members(v.items, pi);
    lemma_filter_members(v.links, pl);
    lemma_filter_members(v.faces, pf);
    assert forall|x: Seq<char>| has_item(v, x) && x != id implies has_item(w, x) by {
        let i = choose|i: int| 0 <= i < v.items.len() && (#[trigger] v.items[i]).id == x;
        assert(v.items.contains(v.items[i]));
        assert(w.items.contains(v.items[i]));
    }
    assert forall|x: Seq<char>| has_album(v, x) implies has_album(w, x) by {
        let i = choose|i: int| 0 <= i < v.albums.len() && (#[trigger] v.albums[i]).id == x;
        assert(w.albums[i].id == x);
    }
    lemma_filter_unique_items(v.items, pi);
    lemma_filter_unique_links(v.links, pl);
    lemma_filter_unique_faces(v.faces, pf);
    assert forall|i: int| 0 <= i < w.links.len() implies has_album(w, (#[trigger] w.links[i]).0)
        && has_item(w, w.links[i].1) by {
        let k = choose|k: int| 0 <= k < v.links.len() && v.links[k] == w.links[i];
    }
    assert forall|i: int| 0 <= i < w.faces.len() implies has_item(w, (#[trigger] w.faces[i]).0) by {
        let k = choose|k: int| 0 <= k < v.faces.len() && v.faces[k] == w.faces[i];
    }
    assert forall|i: int| 0 <= i < w.items.len() implies rfc3339_min_ts() <= (
    #[trigger] w.items[i]).creation_time <= rfc3339_max_ts() by {
        let k = choose|k: int| 0 <= k < v.items.len() && v.items[k] == w.items[i];
    }
    assert forall|i: int|
        0 <= i < w.albums.len() implies match (#[trigger] w.albums[i]).cover_photo_media_item_id {
        Some(c) => has_item(w, c),
        None => true,
    } by {
        match v.albums[i].cover_photo_media_item_id {
            Some(c) => {},
            None => {},
        }
    }
}

/// Filtering keeps ids unique.
pub proof fn lemma_filter_unique_items(s: Seq<MediaRowView>, p: spec_fn(MediaRowView) -> bool)
    requires
        forall|i: int, j: int| 0 <= i < j < s.len() ==> (#[trigger] s[i]).id != (#[trigger] s[j]).id,
    ensures
        forall|i: int, j: int|
            0 <= i < j < s.filter(p).len() ==> (#[trigger] s.filter(p)[i]).id != (
            #[trigger] s.filter(p)[j]).id,
    decreases s.len(),
{
    reveal(Seq::filter);
    if s.len() > 0 {
        let t = s.drop_last();
        assert forall|i: int, j: int| 0 <= i < j < t.len() implies (#[trigger] t[i]).id != (
        #[trigger] t[j]).id by {
            assert(t[i] == s[i] && t[j] == s[j]);
        }
        lemma_filter_unique_items(t, p);
        lemma_filter_members(t, p);
        if p(s.last()) {
            let f = s.filter(p);
            assert forall|i: int, j: int| 0 <= i < j < f.len() implies (#[trigger] f[i]).id != (
            #[trigger] f[j]).id by {
                if j == f.len() - 1 {
                    assert(t.contains(t.filter(p)[i]));
                    let k = choose|k: int| 0 <= k < t.len() && t[k] == t.filter(p)[i];
                    assert(s[k] == t[k]);
                }
            }
        }
    }
}

/// Filtering keeps entries unique.
pub proof fn lemma_filter_unique_links(
    s: Seq<(Seq<char>, Seq<char>)>,
    p: spec_fn((Seq<char>, Seq<char>)) -> bool,
)
    requires
        forall|i: int, j: int| 0 <= i < j < s.len() ==> s[i] != s[j],
    ensures
        forall|i: int, j: int| 0 <= i < j < s.filter(p).len() ==> s.filter(p)[i] != s.filter(p)[j],
    decreases s.len(),
{
    reveal(Seq::filter);
    if s.len() > 0 {
        let t = s.drop_last();
        assert forall|i: int, j: int| 0 <= i < j < t.len() implies t[i] != t[j] by {
            assert(t[i] == s[i] && t[j] == s[j]);
        }
        lemma_filter_unique_links(t, p);
        lemma_filter_members(t, p);
        if p(s.last()) {
            let f = s.filter(p);
            assert forall|i: int, j: int| 0 <= i < j < f.len() implies f[i] != f[j] by {
                if j == f.len() - 1 {
                    assert(t.contains(t.filter(p)[i]));
                    let k = choose|k: int| 0 <= k < t.len() && t[k] == t.filter(p)[i];
                    assert(s[k] == t[k]);
                }
            }
        }
    }
}

/// Filtering keeps face entries unique per media item.
pub proof fn lemma_filter_unique_faces(
    s: Seq<(Seq<char>, Seq<FaceDataView>)>,
    p: spec_fn((Seq<char>, Seq<FaceDataView>)) -> bool,
)
    requires
        forall|i: int, j: int| 0 <= i < j < s.len() ==> (#[trigger] s[i]).0 != (#[trigger] s[j]).0,
    ensures
        forall|i: int, j: int|
            0 <= i < j < s.filter(p).len() ==> (#[trigger] s.filter(p)[i]).0 != (
            #[trigger] s.filter(p)[j]).0,
    decreases s.len(),
{
    reveal(Seq::filter);
    if s.len() > 0 {
        let t = s.drop_last();
        assert forall|i: int, j: int| 0 <= i < j < t.len() implies (#[trigger] t[i]).0 != (
        #[trigger] t[j]).0 by {
            assert(t[i] == s[i] && t[j] == s[j]);
        }
        lemma_filter_unique_faces(t, p);
        lemma_filter_members(t, p);
        if p(s.last()) {
            let f = s.filter(p);
            assert forall|i: int, j: int| 0 <= i < j < f.len() implies (#[trigger] f[i]).0 != (
            #[trigger] f[j]).0 by {
                if j == f.len() - 1 {
                    assert(t.contains(t.filter(p)[i]));
                    let k = choose|k: int| 0 <= k < t.len() && t[k] == t.filter(p)[i];
                    assert(s[k] == t[k]);
                }
            }
        }
    }
}

impl CacheManager {
    /// Inserts a media item, replacing any cached item with its id. The
    /// creation time must be RFC 3339 text and the width and height
    /// decimal integers; otherwise the cache is unchanged and the error
    /// says which field failed to parse.
    pub fn insert_media_item(&mut self, item: &MediaItem) -> (r: Result<(), CacheError>)
        requires
            wf(old(self)@),
        ensures
            wf(final(self)@),
            match r {
                Ok(()) => after_insert(old(self)@, item@) == Ok::<CacheView, CacheErrorView>(
                    final(self)@,
                ),
                Err(e) => after_insert(old(self)@, item@) == Err::<CacheView, CacheErrorView>(
                    e@,
                ) && final(self)@ == old(self)@,
            },
    {
        let ts = match parse_rfc3339_seconds(item.media_metadata.creation_time.as_str()) {
            Ok(t) => t,
            Err(m) => {
                return Err(CacheError::SerializationError(m));
            },
        };
        let w = match parse_i64(item.media_metadata.width.as_str()) {
            Ok(v) => v,
            Err(k) => {
                return Err(CacheError::SerializationError(int_error_message(k)));
            },
        };
        let h = match parse_i64(item.media_metadata.height.as_str()) {
            Ok(v) => v,
            Err(k) => {
                return Err(CacheError::SerializationError(int_error_message(k)));
            },
        };
        let (camera_make, camera_model, fps_bits, status) = match &item.media_metadata.video {
            Some(v) => (clone_opt(&v.camera_make), clone_opt(&v.camera_model), v.fps_bits, clone_opt(&v.status)),
            None => (None, None, None, None),
        };
        let row = MediaRow {
            id: item.id.clone(),
            description: clone_opt(&item.description),
            product_url: item.product_url.clone(),
            base_url: item.base_url.clone(),
            mime_type: item.mime_type.clone(),
            is_favorite: false,
            filename: item.filename.clone(),
            creation_time: ts,
            width: w,
            height: h,
            camera_make,
            camera_model,
            fps_bits,
            status,
        };
        assert(row@ == item_row(item@, ts, w, h));
        let ghost old_v = self@;
        self.remove_item(&item.id);
        let ghost mid = self@;
        self.items.push(row);
        proof {
            assert(rows_view(self.items@) =~= mid.items.push(row@));
            assert(self@ == with_row(old_v, row@));
            lemma_with_row_wf(old_v, row@);
        }
        Ok(())
    }

    /// Takes a copy of the whole cache.
    fn snapshot(&self) -> (r: CacheManager)
        ensures
            r@ == self@,
    {
        let mut items: Vec<MediaRow> = Vec::new();
        let mut i: usize = 0;
        while i < self.items.len()
            invariant
                i <= self.items.len(),
                items@.len() == i,
                forall|k: int| 0 <= k < i ==> (#[trigger] items@[k])@ == self.items@[k]@,
            decreases self.items.len() - i,
        {
            items.push(self.items[i].clone());
            i = i + 1;
        }
        let mut albums: Vec<Album> = Vec::new();
        let mut j: usize = 0;
        while j < self.albums.len()
            invariant
                j <= self.albums.len(),
                albums@.len() == j,
                forall|k: int| 0 <= k < j ==> (#[trigger] albums@[k])@ == self.albums@[k]@,
            decreases self.albums.len() - j,
        {
            albums.push(self.albums[j].clone());
            j = j + 1;
        }
        let mut links: Vec<AlbumLink> = Vec::new();
        let mut k: usize = 0;
        while k < self.links.len()
            invariant
                k <= self.links.len(),
                links@.len() == k,
                forall|x: int| 0 <= x < k ==> (#[trigger] links@[x])@ == self.links@[x]@,
            decreases self.links.len() - k,
        {
            links.push(self.links[k].clone());
            k = k + 1;
        }
        let mut faces: Vec<FaceExport> = Vec::new();
        let mut f: usize = 0;
        while f < self.faces.len()
            invariant
                f <= self.faces.len(),
                faces@.len() == f,
                forall|x: int| 0 <= x < f ==> (#[trigger] faces@[x])@ == self.faces@[x]@,
            decreases self.faces.len() - f,
        {
            faces.push(self.faces[f].clone());
            f = f + 1;
        }
        let r = CacheManager { items, albums, links, faces, last_sync: self.last_sync.clone() };
        assert(r@.items =~= self@.items);
        assert(r@.albums =~= self@.albums);
        assert(r@.links =~= self@.links);
        assert(r@.faces =~= self@.faces);
        r
    }

    /// Inserts media items as one transaction: either all of them, one
    /// after the other, or, when one is refused, none.
    pub fn insert_media_items_batch(&mut self, items: &[MediaItem]) -> (r: Result<(), CacheError>)
        requires
            wf(old(self)@),
        ensures
            wf(final(self)@),
            match r {
                Ok(()) => after_batch(old(self)@, items_view(items@)) == Ok::<
                    CacheView,
                    CacheErrorView,
                >(final(self)@),
                Err(e) => after_batch(old(self)@, items_view(items@)) == Err::<
                    CacheView,
                    CacheErrorView,
                >(e@) && final(self)@ == old(self)@,
            },
    {
        let ghost old_v = self@;
        let backup = self.snapshot();
        let mut i: usize = 0;
        while i < items.len()
            invariant
                i <= items@.len(),
                wf(self@),
                backup@ == old_v,
                old_v == old(self)@,
                wf(old_v),
                after_batch(old_v, items_view(items@).take(i as int)) == Ok::<
                    CacheView,
                    CacheErrorView,
                >(self@),
            decreases items.len() - i,
        {
            proof {
                let t = items_view(items@).take(i + 1);
                assert(t.drop_last() =~= items_view(items@).take(i as int));
                assert(t.last() == items@[i as int]@);
            }
            let step = self.insert_media_item(&items[i]);
            match step {
                Ok(()) => {},
                Err(e) => {
                    *self = backup;
                    proof {
                        let t = items_view(items@).take(i + 1);
                        assert(after_batch(old_v, t) == Err::<CacheView, CacheErrorView>(e@));
                        lemma_batch_stops(old_v, items_view(items@), i + 1);
                        assert(after_batch(old_v, items_view(items@)) == Err::<CacheView, CacheErrorView>(e@));
                        assert(self@ == old_v);
                    }
                    return Err(e);
                },
            }
            i = i + 1;
        }
        assert(items_view(items@).take(items@.len() as int) =~= items_view(items@));
        Ok(())
    }

    /// Inserts media items one after the other, as an import does: the
    /// first refused item stops the import and those before it stay.
    pub fn import_media_items(&mut self, items: &Vec<MediaItem>) -> (r: Result<(), CacheError>)
        requires
            wf(old(self)@),
        ensures
            wf(final(self)@),
            final(self)@ == item_import(old(self)@, items_view(items@)).0,
            match r {
                Ok(()) => item_import(old(self)@, items_view(items@)).1 is None,
                Err(e) => item_import(old(self)@, items_view(items@)).1 == Some(e@),
            },
    {
        let ghost old_v = self@;
        let mut i: usize = 0;
        while i < items.len()
            invariant
                i <= items@.len(),
                wf(self@),
                old_v == old(self)@,
                item_import(old_v, items_view(items@).take(i as int)) == (self@, None::<CacheErrorView>),
            decreases items.len() - i,
        {
            proof {
                let t = items_view(items@).take(i + 1);
                assert(t.drop_last() =~= items_view(items@).take(i as int));
                assert(t.last() == items@[i as int]@);
            }
            let step = self.insert_media_item(&items[i]);
            match step {
                Ok(()) => {},
                Err(e) => {
                    proof {
                        let t = items_view(items@).take(i + 1);
                        assert(item_import(old_v, t.drop_last()) == (self@, None::<CacheErrorView>));
                        assert(after_insert(self@, t.last()) == Err::<CacheView, CacheErrorView>(e@));
                        assert(item_import(old_v, t) == (self@, Some(e@)));
                        let n = items@.len() as int;
                        lemma_item_import_stops(old_v, items_view(items@), i + 1);
                        assert(items_view(items@).take(n) =~= items_view(items@));
                    }
                    return Err(e);
                },
            }
            i = i + 1;
        }
        assert(items_view(items@).take(items@.len() as int) =~= items_view(items@));
        Ok(())
    }

    /// The cached media item with this id, if any.
    pub fn get_media_item(&self, id: &str) -> (r: Result<Option<MediaItem>, CacheError>)
        requires
            wf(self@),
        ensures
            r matches Ok(o) && match o {
                Some(m) => lookup(self@, id@) == Some(m@),
                None => lookup(self@, id@) is None,
            },
    {
        let key = String::from_str(id);
        match self.find_item(&key) {
            Some(i) => {
                let m = row_to_item(&self.items[i]);
                proof {
                    assert(self@.items[i as int] == self.items@[i as int]@);
                    let k = choose|k: int| 0 <= k < self@.items.len() && self@.items[k].id == id@;
                    assert(k == i);
                }
                Ok(Some(m))
            },
            None => Ok(None),
        }
    }

    /// Every cached media item, in cache order.
    pub fn get_all_media_items(&self) -> (r: Result<Vec<MediaItem>, CacheError>)
        requires
            wf(self@),
        ensures
            r matches Ok(v) && items_view(v@) == select(self@, no_filter()),
    {
        Ok(self.select_items(&ItemFilter::all()))
    }

    /// The cached media items of this MIME type.
    pub fn get_media_items_by_mime_type(&self, mime: &str) -> (r: Result<Vec<MediaItem>, CacheError>)
        requires
            wf(self@),
        ensures
            r matches Ok(v) && items_view(v@) == select(self@, filter_mime_type(mime@)),
    {
        let f = ItemFilter { mime_type: Some(String::from_str(mime)), ..ItemFilter::all() };
        Ok(self.select_items(&f))
    }

    /// The cached media items that meet every condition given: camera
    /// model and make, creation time from `start` to `end` (Unix seconds,
    /// both included), favourite flag, MIME type, and `text` in the
    /// filename or the description (as `LIKE '%text%'`).
    pub fn query_media_items(
        &self,
        camera_model: Option<&str>,
        camera_make: Option<&str>,
        start: Option<i64>,
        end: Option<i64>,
        favorite: Option<bool>,
        mime_type: Option<&str>,
        text: Option<&str>,
    ) -> (r: Result<Vec<MediaItem>, CacheError>)
        requires
            wf(self@),
        ensures
            r matches Ok(v) && items_view(v@) == select(
                self@,
                filter_query(
                    opt_str_view(camera_model),
                    opt_str_view(camera_make),
                    start,
                    end,
                    favorite,
                    opt_str_view(mime_type),
                    opt_str_view(text),
                ),
            ),
    {
        let f = ItemFilter {
            camera_model: opt_from_str(camera_model),
            camera_make: opt_from_str(camera_make),
            start,
            end,
            favorite,
            mime_type: opt_from_str(mime_type),
            text: opt_from_str(text),
            ..ItemFilter::all()
        };
        Ok(self.select_items(&f))
    }

    /// The cached media items taken with this camera model.
    pub fn get_media_items_by_camera_model(&self, model: &str) -> (r: Result<Vec<MediaItem>, CacheError>)
        requires
            wf(self@),
        ensures
            r matches Ok(v) && items_view(v@) == select(self@, filter_camera_model(model@)),
    {
        let f = ItemFilter { camera_model: Some(String::from_str(model)), ..ItemFilter::all() };
        Ok(self.select_items(&f))
    }

    /// The cached media items taken with a camera of this make.
    pub fn get_media_items_by_camera_make(&self, make: &str) -> (r: Result<Vec<MediaItem>, CacheError>)
        requires
            wf(self@),
        ensures
            r matches Ok(v) && items_view(v@) == select(self@, filter_camera_make(make@)),
    {
        let f = ItemFilter { camera_make: Some(String::from_str(make)), ..ItemFilter::all() };
        Ok(self.select_items(&f))
    }

    /// The cached media items whose filename is `LIKE '%pattern%'`.
    pub fn get_media_items_by_filename(&self, pattern: &str) -> (r: Result<Vec<MediaItem>, CacheError>)
        requires
            wf(self@),
        ensures
            r matches Ok(v) && items_view(v@) == select(self@, filter_filename(pattern@)),
    {
        let f = ItemFilter { filename_like: Some(String::from_str(pattern)), ..ItemFilter::all() };
        Ok(self.select_items(&f))
    }

    /// The cached media items whose description is `LIKE '%pattern%'`.
    pub fn get_media_items_by_description(&self, pattern: &str) -> (r: Result<Vec<MediaItem>, CacheError>)
        requires
            wf(self@),
        ensures
            r matches Ok(v) && items_view(v@) == select(self@, filter_description(pattern@)),
    {
        let f = ItemFilter { description_like: Some(String::from_str(pattern)), ..ItemFilter::all() };
        Ok(self.select_items(&f))
    }

    /// The cached media items at the given positions of the cache order,
    /// in the order given; positions outside the cache are skipped.
    pub fn items_at(&self, positions: &Vec<i64>) -> (r: Vec<MediaItem>)
        requires
            wf(self@),
        ensures
            items_view(r@) == rows_at(self@.items, positions@),
    {
        let mut res: Vec<MediaItem> = Vec::new();
        let mut i: usize = 0;
        while i < positions.len()
            invariant
                i <= positions.len(),
                wf(self@),
                items_view(res@) == rows_at(self@.items, positions@.take(i as int)),
            decreases positions.len() - i,
        {
            let k = positions[i];
            proof {
                assert(positions@.take(i + 1).drop_last() =~= positions@.take(i as int));
                assert(positions@.take(i + 1).last() == k);
            }
            let ghost before = res@;
            if 0 <= k && (k as u64) < (self.items.len() as u64) {
                let ku = k as usize;
                proof {
                    assert(self@.items[ku as int] == self.items@[ku as int]@);
                }
                let item = row_to_item(&self.items[ku]);
                res.push(item);
                proof {
                    assert(self@.items[k as int] == self.items@[ku as int]@);
                    assert(items_view(res@) =~= items_view(before).push(item@));
                }
            }
            i = i + 1;
        }
        assert(positions@.take(positions.len() as int) =~= positions@);
        res
    }

    /// The (id, filename, description) entries of the full-text index, in
    /// cache order.
    fn text_rows(&self) -> (r: Vec<(String, String, String)>)
        ensures
            text_rows_view(r@) == text_index(self@),
    {
        let mut rows: Vec<(String, String, String)> = Vec::new();
        let mut i: usize = 0;
        while i < self.items.len()
            invariant
                i <= self.items.len(),
                text_rows_view(rows@) =~= text_index(self@).take(i as int),
            decreases self.items.len() - i,
        {
            let r = &self.items[i];
            let d = match &r.description {
                Some(t) => t.clone(),
                None => String::new(),
            };
            let entry = (r.id.clone(), r.filename.clone(), d);
            let ghost before = rows@;
            rows.push(entry);
            proof {
                assert(self@.items[i as int] == r@);
                assert(text_rows_view(rows@) =~= text_rows_view(before).push(
                    (entry.0@, entry.1@, entry.2@),
                ));
            }
            i = i + 1;
        }
        rows
    }

    /// The cached media items that the full-text search finds: SQLite's
    /// FTS5 `MATCH` of the query over the index of filenames and
    /// descriptions, in cache order. A query that SQLite accepts succeeds;
    /// one that it refuses fails with a database error.
    pub fn get_media_items_by_text(&self, pattern: &str) -> (r: Result<Vec<MediaItem>, CacheError>)
        requires
            wf(self@),
        ensures
            match r {
                Ok(v) => fts5_match(pattern@, text_index(self@)) matches Some(found) && items_view(v@)
                    == rows_at(self@.items, found),
                Err(e) => exists|m: Seq<char>|
                    e@ == CacheErrorView::DatabaseError(
                        "Failed to retrieve media item from iterator: "@ + m,
                    ),
            },
            fts5_match(pattern@, text_index(self@)) matches Some(found) ==> (r matches Ok(v)
                && items_view(v@) == rows_at(self@.items, found)),
            fts5_match(pattern@, text_index(self@)) is None ==> r is Err,
    {
        let rows = self.text_rows();
        match fts5_search(pattern, &rows) {
            Ok(found) => Ok(self.items_at(&found)),
            Err(m) => {
                let mut msg = String::from_str("Failed to retrieve media item from iterator: ");
                msg.append(m.as_str());
                Err(CacheError::DatabaseError(msg))
            },
        }
    }

    /// The cached favourites.
    pub fn get_favorite_media_items(&self) -> (r: Result<Vec<MediaItem>, CacheError>)
        requires
            wf(self@),
        ensures
            r matches Ok(v) && items_view(v@) == select(self@, filter_favorite(true)),
    {
        let f = ItemFilter { favorite: Some(true), ..ItemFilter::all() };
        Ok(self.select_items(&f))
    }

    /// The cached media items whose favourite flag is `fav`.
    pub fn get_media_items_by_favorite(&self, fav: bool) -> (r: Result<Vec<MediaItem>, CacheError>)
        requires
            wf(self@),
        ensures
            r matches Ok(v) && items_view(v@) == select(self@, filter_favorite(fav)),
    {
        let f = ItemFilter { favorite: Some(fav), ..ItemFilter::all() };
        Ok(self.select_items(&f))
    }

    /// The cached media items of an album.
    pub fn get_media_items_by_album(&self, album_id: &str) -> (r: Result<Vec<MediaItem>, CacheError>)
        requires
            wf(self@),
        ensures
            r matches Ok(v) && items_view(v@) == select(self@, filter_album(album_id@)),
    {
        let f = ItemFilter { album_id: Some(String::from_str(album_id)), ..ItemFilter::all() };
        Ok(self.select_items(&f))
    }

    /// The cached media items created from `start` to `end` (Unix seconds,
    /// both included).
    pub fn get_media_items_by_date_range(&self, start: i64, end: i64) -> (r: Result<
        Vec<MediaItem>,
        CacheError,
    >)
        requires
            wf(self@),
        ensures
            r matches Ok(v) && items_view(v@) == select(self@, filter_date_range(start, end)),
    {
        let f = ItemFilter { start: Some(start), end: Some(end), ..ItemFilter::all() };
        Ok(self.select_items(&f))
    }

    /// Deletes a media item with everything that refers to it.
    pub fn delete_media_item(&mut self, id: &str) -> (r: Result<(), CacheError>)
        requires
            wf(old(self)@),
        ensures
            r is Ok,
            wf(final(self)@),
            final(self)@ == without_item(old(self)@, id@),
    {
        let key = String::from_str(id);
        self.remove_item(&key);
        Ok(())
    }
}

impl CacheManager {
    /// The position of the album `id`, if cached.
    fn find_album(&self, id: &String) -> (r: Option<usize>)
        ensures
            match r {
                Some(i) => i < self@.albums.len() && self@.albums[i as int].id == id@,
                None => !has_album(self@, id@),
            },
    {
        let mut i: usize = 0;
        while i < self.albums.len()
            invariant
                i <= self.albums.len(),
                forall|k: int| 0 <= k < i ==> self@.albums[k].id != id@,
            decreases self.albums.len() - i,
        {
            assert(self@.albums[i as int] == self.albums@[i as int]@);
            if self.albums[i].id.eq(id) {
                return Some(i);
            }
            i = i + 1;
        }
        None
    }

    /// Deletes the album `id` and its entries.
    fn remove_album(&mut self, id: &String)
        requires
            wf(old(self)@),
        ensures
            final(self)@ == without_album(old(self)@, id@),
            wf(final(self)@),
    {
        let ghost old_v = self@;
        let ghost pa = other_album(id@);
        let ghost pl = link_not_in_album(id@);
        let mut albums: Vec<Album> = Vec::new();
        let mut j: usize = 0;
        while j < self.albums.len()
            invariant
                j <= self.albums.len(),
                self@ == old_v,
                pa == other_album(id@),
                albums_view(albums@) == albums_view(self.albums@).take(j as int).filter(pa),
            decreases self.albums.len() - j,
        {
            proof {
                lemma_filter_take_step(albums_view(self.albums@), j as int, pa);
                assert(albums_view(self.albums@)[j as int] == self.albums@[j as int]@);
            }
            let ghost before = albums@;
            if !self.albums[j].id.eq(id) {
                albums.push(self.albums[j].clone());
                assert(albums_view(albums@) =~= albums_view(before).push(self.albums@[j as int]@));
            }
            j = j + 1;
        }
        assert(albums_view(self.albums@).take(self.albums.len() as int) =~= albums_view(self.albums@));
        let mut links: Vec<AlbumLink> = Vec::new();
        let mut k: usize = 0;
        while k < self.links.len()
            invariant
                k <= self.links.len(),
                self@ == old_v,
                pl == link_not_in_album(id@),
                links_view(links@) == links_view(self.links@).take(k as int).filter(pl),
            decreases self.links.len() - k,
        {
            proof {
                lemma_filter_take_step(links_view(self.links@), k as int, pl);
                assert(links_view(self.links@)[k as int] == self.links@[k as int]@);
            }
            let ghost before = links@;
            if !self.links[k].album_id.eq(id) {
                links.push(self.links[k].clone());
                assert(links_view(links@) =~= links_view(before).push(self.links@[k as int]@));
            }
            k = k + 1;
        }
        assert(links_view(self.links@).take(self.links.len() as int) =~= links_view(self.links@));
        self.albums = albums;
        self.links = links;
        proof { lemma_without_album_wf(old_v, id@); }
    }

    /// Inserts an album, replacing any album with its id (whose entries
    /// go with it). A cover that names no cached media item is refused.
    pub fn insert_album(&mut self, album: &Album) -> (r: Result<(), CacheError>)
        requires
            wf(old(self)@),
        ensures
            wf(final(self)@),
            match r {
                Ok(()) => cover_ok(old(self)@, album@) && final(self)@ == with_album(
                    old(self)@,
                    album@,
                ),
                Err(e) => !cover_ok(old(self)@, album@) && e@ == CacheErrorView::DatabaseError(
                    fk_failure("Failed to insert album"@),
                ) && final(self)@ == old(self)@,
            },
    {
        if let Some(c) = &album.cover_photo_media_item_id {
            if self.find_item(c).is_none() {
                let mut m = String::from_str("Failed to insert album");
                m.append(": FOREIGN KEY constraint failed");
                return Err(CacheError::DatabaseError(m));
            }
        }
        let ghost old_v = self@;
        self.remove_album(&album.id);
        let ghost mid = self@;
        self.albums.push(album.clone());
        proof {
            assert(albums_view(self.albums@) =~= mid.albums.push(album@));
            assert(self@ == with_album(old_v, album@));
            lemma_with_album_wf(old_v, album@);
        }
        Ok(())
    }

    /// Deletes an album and its entries.
    pub fn delete_album(&mut self, album_id: &str) -> (r: Result<(), CacheError>)
        requires
            wf(old(self)@),
        ensures
            r is Ok,
            wf(final(self)@),
            final(self)@ == without_album(old(self)@, album_id@),
    {
        let key = String::from_str(album_id);
        self.remove_album(&key);
        Ok(())
    }

    /// Gives the album `album_id` a new title.
    pub fn rename_album(&mut self, album_id: &str, new_title: &str) -> (r: Result<(), CacheError>)
        requires
            wf(old(self)@),
        ensures
            r is Ok,
            wf(final(self)@),
            final(self)@ == (CacheView {
                albums: old(self)@.albums.map_values(retitle_fn(album_id@, new_title@)),
                ..old(self)@
            }),
    {
        let ghost old_v = self@;
        let key = String::from_str(album_id);
        let mut albums: Vec<Album> = Vec::new();
        let mut j: usize = 0;
        while j < self.albums.len()
            invariant
                j <= self.albums.len(),
                self@ == old_v,
                key@ == album_id@,
                albums@.len() == j,
                forall|k: int|
                    0 <= k < j ==> (#[trigger] albums@[k])@ == retitle(
                        self.albums@[k]@,
                        album_id@,
                        new_title@,
                    ),
            decreases self.albums.len() - j,
        {
            let mut a = self.albums[j].clone();
            if a.id.eq(&key) {
                a.title = Some(String::from_str(new_title));
            }
            albums.push(a);
            j = j + 1;
        }
        self.albums = albums;
        proof {
            assert(self@.albums =~= old_v.albums.map_values(retitle_fn(album_id@, new_title@)));
            let v = self@;
            assert forall|x: Seq<char>| has_album(old_v, x) implies has_album(v, x) by {
                let i = choose|i: int| 0 <= i < old_v.albums.len() && (#[trigger] old_v.albums[i]).id == x;
                assert(v.albums[i].id == x);
            }
            assert forall|i: int, j: int| 0 <= i < j < v.albums.len() implies (
            #[trigger] v.albums[i]).id != (#[trigger] v.albums[j]).id by {
                assert(v.albums[i].id == old_v.albums[i].id);
                assert(v.albums[j].id == old_v.albums[j].id);
            }
            assert forall|i: int| 0 <= i < v.albums.len() implies match (
            #[trigger] v.albums[i]).cover_photo_media_item_id {
                Some(c) => has_item(v, c),
                None => true,
            } by {
                assert(v.albums[i].cover_photo_media_item_id == old_v.albums[i].cover_photo_media_item_id);
            }
            assert forall|i: int| 0 <= i < v.links.len() implies has_album(v, (#[trigger] v.links[i]).0)
                && has_item(v, v.links[i].1) by {
                assert(has_album(old_v, old_v.links[i].0));
            }
        }
        Ok(())
    }

    /// Every cached album, in cache order.
    pub fn get_all_albums(&self) -> (r: Result<Vec<Album>, CacheError>)
        ensures
            r matches Ok(v) && albums_view(v@) == self@.albums,
    {
        let mut res: Vec<Album> = Vec::new();
        let mut i: usize = 0;
        while i < self.albums.len()
            invariant
                i <= self.albums.len(),
                res@.len() == i,
                forall|k: int| 0 <= k < i ==> (#[trigger] res@[k])@ == self.albums@[k]@,
            decreases self.albums.len() - i,
        {
            res.push(self.albums[i].clone());
            i = i + 1;
        }
        assert(albums_view(res@) =~= self@.albums);
        Ok(res)
    }

    /// Records that an album holds a media item. Both must be cached.
    pub fn associate_media_item_with_album(&mut self, media_item_id: &str, album_id: &str) -> (r:
        Result<(), CacheError>)
        requires
            wf(old(self)@),
        ensures
            wf(final(self)@),
            match r {
                Ok(()) => has_album(old(self)@, album_id@) && has_item(old(self)@, media_item_id@)
                    && final(self)@ == (CacheView {
                    links: old(self)@.links.filter(link_other_than((album_id@, media_item_id@))).push(
                        (album_id@, media_item_id@),
                    ),
                    ..old(self)@
                }),
                Err(e) => !(has_album(old(self)@, album_id@) && has_item(old(self)@, media_item_id@))
                    && e@ == CacheErrorView::DatabaseError(
                    fk_failure("Failed to associate media item with album"@),
                ) && final(self)@ == old(self)@,
            },
    {
        let a = String::from_str(album_id);
        let m = String::from_str(media_item_id);
        if self.find_album(&a).is_none() || self.find_item(&m).is_none() {
            let mut msg = String::from_str("Failed to associate media item with album");
            msg.append(": FOREIGN KEY constraint failed");
            return Err(CacheError::DatabaseError(msg));
        }
        let ghost old_v = self@;
        self.remove_link(&a, &m);
        let ghost mid = self@;
        self.links.push(AlbumLink { album_id: a, media_item_id: m });
        proof {
            assert(links_view(self.links@) =~= mid.links.push((album_id@, media_item_id@)));
            lemma_add_link_wf(old_v, (album_id@, media_item_id@));
        }
        Ok(())
    }

    /// Deletes the entry that the album holds the item, if any.
    fn remove_link(&mut self, album_id: &String, media_item_id: &String)
        requires
            wf(old(self)@),
        ensures
            final(self)@ == (CacheView {
                links: old(self)@.links.filter(link_other_than((album_id@, media_item_id@))),
                ..old(self)@
            }),
            wf(final(self)@),
    {
        let ghost old_v = self@;
        let ghost pl = link_other_than((album_id@, media_item_id@));
        let mut links: Vec<AlbumLink> = Vec::new();
        let mut k: usize = 0;
        while k < self.links.len()
            invariant
                k <= self.links.len(),
                self@ == old_v,
                pl == link_other_than((album_id@, media_item_id@)),
                links_view(links@) == links_view(self.links@).take(k as int).filter(pl),
            decreases self.links.len() - k,
        {
            proof {
                lemma_filter_take_step(links_view(self.links@), k as int, pl);
                assert(links_view(self.links@)[k as int] == self.links@[k as int]@);
            }
            let ghost before = links@;
            if !(self.links[k].album_id.eq(album_id) && self.links[k].media_item_id.eq(media_item_id)) {
                links.push(self.links[k].clone());
                assert(links_view(links@) =~= links_view(before).push(self.links@[k as int]@));
            }
            k = k + 1;
        }
        assert(links_view(self.links@).take(self.links.len() as int) =~= links_view(self.links@));
        self.links = links;
        proof {
            let v = self@;
            lemma_filter_members(old_v.links, pl);
            lemma_filter_unique_links(old_v.links, pl);
            assert forall|i: int| 0 <= i < v.links.len() implies has_album(v, (#[trigger] v.links[i]).0)
                && has_item(v, v.links[i].1) by {
                let j = choose|j: int| 0 <= j < old_v.links.len() && old_v.links[j] == v.links[i];
            }
        }
    }

    /// Deletes the entry that an album holds a media item.
    pub fn remove_media_item_from_album(&mut self, media_item_id: &str, album_id: &str) -> (r: Result<
        (),
        CacheError,
    >)
        requires
            wf(old(self)@),
        ensures
            r is Ok,
            wf(final(self)@),
            final(self)@ == (CacheView {
                links: old(self)@.links.filter(link_other_than((album_id@, media_item_id@))),
                ..old(self)@
            }),
    {
        let a = String::from_str(album_id);
        let m = String::from_str(media_item_id);
        self.remove_link(&a, &m);
        Ok(())
    }

    /// Marks a media item as a favourite or not.
    pub fn set_favorite(&mut self, id: &str, fav: bool) -> (r: Result<(), CacheError>)
        requires
            wf(old(self)@),
        ensures
            r is Ok,
            wf(final(self)@),
            final(self)@ == (CacheView {
                items: old(self)@.items.map_values(set_fav_fn(id@, fav)),
                ..old(self)@
            }),
    {
        let ghost old_v = self@;
        let key = String::from_str(id);
        let mut items: Vec<MediaRow> = Vec::new();
        let mut j: usize = 0;
        while j < self.items.len()
            invariant
                j <= self.items.len(),
                self@ == old_v,
                key@ == id@,
                items@.len() == j,
                forall|k: int|
                    0 <= k < j ==> (#[trigger] items@[k])@ == set_fav(self.items@[k]@, id@, fav),
            decreases self.items.len() - j,
        {
            let mut r = self.items[j].clone();
            if r.id.eq(&key) {
                r.is_favorite = fav;
            }
            items.push(r);
            j = j + 1;
        }
        self.items = items;
        proof {
            assert(self@.items =~= old_v.items.map_values(set_fav_fn(id@, fav)));
            let v = self@;
            assert forall|x: Seq<char>| has_item(old_v, x) implies has_item(v, x) by {
                let i = choose|i: int| 0 <= i < old_v.items.len() && (#[trigger] old_v.items[i]).id == x;
                assert(v.items[i].id == x);
            }
            assert forall|i: int, j: int| 0 <= i < j < v.items.len() implies (
            #[trigger] v.items[i]).id != (#[trigger] v.items[j]).id by {
                assert(v.items[i].id == old_v.items[i].id);
                assert(v.items[j].id == old_v.items[j].id);
            }
            assert forall|i: int| 0 <= i < v.items.len() implies rfc3339_min_ts() <= (
            #[trigger] v.items[i]).creation_time <= rfc3339_max_ts() by {
                assert(v.items[i].creation_time == old_v.items[i].creation_time);
            }
            assert forall|i: int| 0 <= i < v.albums.len() implies match (
            #[trigger] v.albums[i]).cover_photo_media_item_id {
                Some(c) => has_item(v, c),
                None => true,
            } by {
                match old_v.albums[i].cover_photo_media_item_id {
                    Some(c) => {},
                    None => {},
                }
            }
            assert forall|i: int| 0 <= i < v.links.len() implies has_album(v, (#[trigger] v.links[i]).0)
                && has_item(v, v.links[i].1) by {
                assert(has_item(old_v, old_v.links[i].1));
            }
            assert forall|i: int| 0 <= i < v.faces.len() implies has_item(v, (#[trigger] v.faces[i]).0) by {
                assert(has_item(old_v, old_v.faces[i].0));
            }
        }
        Ok(())
    }

    /// Empties the cache: every media item, album, album entry and face
    /// goes, and the time of the last synchronisation goes back to the
    /// epoch.
    pub fn clear_cache(&mut self) -> (r: Result<(), CacheError>)
        ensures
            r is Ok,
            wf(final(self)@),
            final(self)@.items.len() == 0,
            final(self)@.albums.len() == 0,
            final(self)@.links.len() == 0,
            final(self)@.faces.len() == 0,
            final(self)@.last_sync == epoch_text(),
    {
        self.links = Vec::new();
        self.albums = Vec::new();
        self.items = Vec::new();
        self.faces = Vec::new();
        self.last_sync = String::from_str("1970-01-01T00:00:00Z");
        assert(self@.items =~= Seq::<MediaRowView>::empty());
        assert(self@.albums =~= Seq::<AlbumView>::empty());
        assert(self@.links =~= Seq::<(Seq<char>, Seq<char>)>::empty());
        assert(self@.faces =~= Seq::<(Seq<char>, Seq<FaceDataView>)>::empty());
        Ok(())
    }

    /// The time of the last synchronisation, in Unix seconds.
    pub fn get_last_sync(&self) -> (r: Result<i64, CacheError>)
        ensures
            match r {
                Ok(t) => parses_to(self@.last_sync, t) && rfc3339_min_ts() <= t <= rfc3339_max_ts(),
                Err(e) => rfc3339_parse(self@.last_sync) is Err && e@
                    == CacheErrorView::DeserializationError(rfc3339_parse(self@.last_sync)->Err_0),
            },
    {
        match parse_rfc3339_seconds(self.last_sync.as_str()) {
            Ok(t) => Ok(t),
            Err(m) => Err(CacheError::DeserializationError(m)),
        }
    }

    /// Records the time of the last synchronisation. For a time in the years
    /// 0000 to 9999 the stored text parses back to exactly that time, so
    /// `get_last_sync` then returns it.
    pub fn update_last_sync(&mut self, ts: i64) -> (r: Result<(), CacheError>)
        requires
            wf(old(self)@),
            rfc3339_min_ts() <= ts <= rfc3339_max_ts(),
        ensures
            r is Ok,
            wf(final(self)@),
            final(self)@ == (CacheView { last_sync: rfc3339_render(ts), ..old(self)@ }),
            four_digit_year_ts(ts as int) ==> parses_to(final(self)@.last_sync, ts),
    {
        self.last_sync = render_rfc3339(ts);
        Ok(())
    }
}

impl CacheManager {
    /// The position of the faces recorded for `id`, if any.
    fn find_faces(&self, id: &String) -> (r: Option<usize>)
        ensures
            match r {
                Some(i) => i < self@.faces.len() && self@.faces[i as int].0 == id@,
                None => forall|k: int| 0 <= k < self@.faces.len() ==> (#[trigger] self@.faces[k]).0 != id@,
            },
    {
        let mut i: usize = 0;
        while i < self.faces.len()
            invariant
                i <= self.faces.len(),
                forall|k: int| 0 <= k < i ==> (#[trigger] self@.faces[k]).0 != id@,
            decreases self.faces.len() - i,
        {
            assert(self@.faces[i as int] == self.faces@[i as int]@);
            if self.faces[i].media_item_id.eq(id) {
                return Some(i);
            }
            i = i + 1;
        }
        None
    }

    /// Records the faces detected in a media item, replacing those
    /// recorded before. The media item must be cached.
    pub fn insert_faces(&mut self, media_item_id: &str, faces: &Vec<FaceData>) -> (r: Result<
        (),
        CacheError,
    >)
        requires
            wf(old(self)@),
        ensures
            wf(final(self)@),
            match r {
                Ok(()) => has_item(old(self)@, media_item_id@) && final(self)@ == with_faces(
                    old(self)@,
                    media_item_id@,
                    faces_view(faces@),
                ),
                Err(e) => !has_item(old(self)@, media_item_id@) && e@
                    == CacheErrorView::DatabaseError(fk_failure("Failed to insert faces"@))
                    && final(self)@ == old(self)@,
            },
    {
        let key = String::from_str(media_item_id);
        if self.find_item(&key).is_none() {
            let mut msg = String::from_str("Failed to insert faces");
            msg.append(": FOREIGN KEY constraint failed");
            return Err(CacheError::DatabaseError(msg));
        }
        let ghost old_v = self@;
        let ghost pf = faces_not_of(media_item_id@);
        let mut kept: Vec<FaceExport> = Vec::new();
        let mut f: usize = 0;
        while f < self.faces.len()
            invariant
                f <= self.faces.len(),
                self@ == old_v,
                key@ == media_item_id@,
                pf == faces_not_of(media_item_id@),
                face_rows_view(kept@) == face_rows_view(self.faces@).take(f as int).filter(pf),
            decreases self.faces.len() - f,
        {
            proof {
                lemma_filter_take_step(face_rows_view(self.faces@), f as int, pf);
                assert(face_rows_view(self.faces@)[f as int] == self.faces@[f as int]@);
            }
            let ghost before = kept@;
            if !self.faces[f].media_item_id.eq(&key) {
                kept.push(self.faces[f].clone());
                assert(face_rows_view(kept@) =~= face_rows_view(before).push(self.faces@[f as int]@));
            }
            f = f + 1;
        }
        assert(face_rows_view(self.faces@).take(self.faces.len() as int) =~= face_rows_view(self.faces@));
        let ghost mid = face_rows_view(kept@);
        kept.push(FaceExport { media_item_id: key, faces: clone_faces(faces) });
        self.faces = kept;
        proof {
            assert(face_rows_view(self.faces@) =~= mid.push((media_item_id@, faces_view(faces@))));
            lemma_with_faces_wf(old_v, media_item_id@, faces_view(faces@));
        }
        Ok(())
    }

    /// The faces recorded for a media item, if any.
    pub fn get_faces(&self, media_item_id: &str) -> (r: Result<Option<Vec<FaceData>>, CacheError>)
        requires
            wf(self@),
        ensures
            r matches Ok(o) && match o {
                Some(v) => faces_of(self@, media_item_id@) == Some(faces_view(v@)),
                None => faces_of(self@, media_item_id@) is None,
            },
    {
        let key = String::from_str(media_item_id);
        match self.find_faces(&key) {
            Some(i) => {
                proof {
                    assert(self@.faces[i as int] == self.faces@[i as int]@);
                    let k = choose|k: int| 0 <= k < self@.faces.len() && (#[trigger] self@.faces[k]).0 == media_item_id@;
                    assert(k == i);
                }
                Ok(Some(clone_faces(&self.faces[i].faces)))
            },
            None => Ok(None),
        }
    }

    /// Every face record, in cache order, as an export writes them.
    pub fn export_faces(&self) -> (r: Result<Vec<FaceExport>, CacheError>)
        ensures
            r matches Ok(v) && face_rows_view(v@) == self@.faces,
    {
        let mut res: Vec<FaceExport> = Vec::new();
        let mut i: usize = 0;
        while i < self.faces.len()
            invariant
                i <= self.faces.len(),
                res@.len() == i,
                forall|k: int| 0 <= k < i ==> (#[trigger] res@[k])@ == self.faces@[k]@,
            decreases self.faces.len() - i,
        {
            res.push(self.faces[i].clone());
            i = i + 1;
        }
        assert(face_rows_view(res@) =~= self@.faces);
        Ok(res)
    }

    /// Every cached media item, as an export writes them.
    pub fn export_media_items(&self) -> (r: Result<Vec<MediaItem>, CacheError>)
        requires
            wf(self@),
        ensures
            r matches Ok(v) && items_view(v@) == select(self@, no_filter()),
    {
        self.get_all_media_items()
    }

    /// Every cached album, as an export writes them.
    pub fn export_albums(&self) -> (r: Result<Vec<Album>, CacheError>)
        ensures
            r matches Ok(v) && albums_view(v@) == self@.albums,
    {
        self.get_all_albums()
    }

    /// Records imported faces one entry after the other; the first entry
    /// whose media item is not cached stops the import, and the entries
    /// before it stay.
    pub fn import_faces(&mut self, entries: &Vec<FaceExport>) -> (r: Result<(), CacheError>)
        requires
            wf(old(self)@),
        ensures
            wf(final(self)@),
            final(self)@ == face_import(old(self)@, face_rows_view(entries@)).0,
            match r {
                Ok(()) => face_import(old(self)@, face_rows_view(entries@)).1 is None,
                Err(e) => face_import(old(self)@, face_rows_view(entries@)).1 == Some(e@),
            },
    {
        let ghost old_v = self@;
        let mut i: usize = 0;
        while i < entries.len()
            invariant
                i <= entries@.len(),
                wf(self@),
                old_v == old(self)@,
                face_import(old_v, face_rows_view(entries@).take(i as int)) == (
                    self@,
                    None::<CacheErrorView>,
                ),
            decreases entries.len() - i,
        {
            proof {
                let t = face_rows_view(entries@).take(i + 1);
                assert(t.drop_last() =~= face_rows_view(entries@).take(i as int));
                assert(t.last() == entries@[i as int]@);
            }
            let step = self.insert_faces(entries[i].media_item_id.as_str(), &entries[i].faces);
            match step {
                Ok(()) => {},
                Err(e) => {
                    proof {
                        let t = face_rows_view(entries@).take(i + 1);
                        assert(face_import(old_v, t) == (self@, Some(e@)));
                        lemma_face_import_stops(old_v, face_rows_view(entries@), i + 1);
                        assert(face_rows_view(entries@).take(entries@.len() as int) =~= face_rows_view(entries@));
                    }
                    return Err(e);
                },
            }
            i = i + 1;
        }
        assert(face_rows_view(entries@).take(entries@.len() as int) =~= face_rows_view(entries@));
        Ok(())
    }

    /// Names the face at position `idx` of a media item's faces; an index
    /// past the recorded faces (or no faces at all) changes nothing.
    pub fn update_face_name(&mut self, id: &str, idx: usize, name: &str) -> (r: Result<(), CacheError>)
        requires
            wf(old(self)@),
        ensures
            r is Ok,
            wf(final(self)@),
            match faces_of(old(self)@, id@) {
                Some(fs) => if idx < fs.len() {
                    final(self)@ == with_faces(
                        old(self)@,
                        id@,
                        fs.update(idx as int, FaceDataView { name: Some(name@), ..fs[idx as int] }),
                    )
                } else {
                    final(self)@ == old(self)@
                },
                None => final(self)@ == old(self)@,
            },
    {
        let key = String::from_str(id);
        match self.find_faces(&key) {
            None => {
                proof {
                    assert(!(exists|i: int| 0 <= i < self@.faces.len() && (#[trigger] self@.faces[i]).0 == id@));
                }
                Ok(())
            },
            Some(i) => {
                proof {
                    assert(self@.faces[i as int] == self.faces@[i as int]@);
                    let k = choose|k: int| 0 <= k < self@.faces.len() && (#[trigger] self@.faces[k]).0 == id@;
                    assert(k == i);
                }
                let mut fs = clone_faces(&self.faces[i].faces);
                if idx < fs.len() {
                    let ghost before = fs@;
                    let old_face = fs[idx].clone();
                    fs.set(idx, FaceData { bbox: old_face.bbox, name: Some(String::from_str(name)) });
                    assert(faces_view(fs@) =~= faces_view(before).update(
                        idx as int,
                        FaceDataView { name: Some(name@), ..faces_view(before)[idx as int] },
                    ));
                    proof {
                        assert(has_item(self@, id@));
                    }
                    let res = self.insert_faces(id, &fs);
                    match res {
                        Ok(()) => Ok(()),
                        Err(_) => {
                            assert(false);
                            Ok(())
                        },
                    }
                } else {
                    Ok(())
                }
            },
        }
    }
}

/// Recording faces for a cached media item keeps the schema's rules.
pub proof fn lemma_with_faces_wf(v: CacheView, id: Seq<char>, fs: Seq<FaceDataView>)
    requires
        wf(v),
        has_item(v, id),
    ensures
        wf(with_faces(v, id, fs)),
{
    let p = faces_not_of(id);
    let f = v.faces.filter(p);
    let u = with_faces(v, id, fs);
    lemma_filter_members(v.faces, p);
    lemma_filter_unique_faces(v.faces, p);
    assert forall|i: int, j: int| 0 <= i < j < u.faces.len() implies (#[trigger] u.faces[i]).0
        != (#[trigger] u.faces[j]).0 by {
        if j == u.faces.len() - 1 {
            assert(u.faces[i] == f[i]);
            assert(p(f[i]));
        } else {
            assert(u.faces[i] == f[i] && u.faces[j] == f[j]);
        }
    }
    assert forall|i: int| 0 <= i < u.faces.len() implies has_item(u, (#[trigger] u.faces[i]).0) by {
        if i < u.faces.len() - 1 {
            assert(u.faces[i] == f[i]);
            let k = choose|k: int| 0 <= k < v.faces.len() && v.faces[k] == f[i];
        }
    }
}

/// Once a face import has stopped, later entries change nothing.
pub proof fn lemma_face_import_stops(
    v: CacheView,
    entries: Seq<(Seq<char>, Seq<FaceDataView>)>,
    k: int,
)
    requires
        0 <= k <= entries.len(),
        face_import(v, entries.take(k)).1 is Some,
    ensures
        face_import(v, entries) == face_import(v, entries.take(k)),
    decreases entries.len() - k,
{
    if k < entries.len() {
        let t = entries.take(k + 1);
        assert(t.drop_last() =~= entries.take(k));
        lemma_face_import_stops(v, entries, k + 1);
    } else {
        assert(entries.take(k) =~= entries);
    }
}

/// Deleting an album keeps the schema's rules.
pub proof fn lemma_without_album_wf(v: CacheView, id: Seq<char>)
    requires
        wf(v),
    ensures
        wf(without_album(v, id)),
{
    let w = without_album(v, id);
    let pa = other_album(id);
    let pl = link_not_in_album(id);
    lemma_filter_members(v.albums, pa);
    lemma_filter_members(v.links, pl);
    lemma_filter_unique_links(v.links, pl);
    lemma_filter_unique_albums(v.albums, pa);
    assert forall|x: Seq<char>| has_album(v, x) && x != id implies has_album(w, x) by {
        let i = choose|i: int| 0 <= i < v.albums.len() && (#[trigger] v.albums[i]).id == x;
        assert(v.albums.contains(v.albums[i]));
        assert(w.albums.contains(v.albums[i]));
    }
    assert forall|i: int| 0 <= i < w.links.len() implies has_album(w, (#[trigger] w.links[i]).0)
        && has_item(w, w.links[i].1) by {
        let k = choose|k: int| 0 <= k < v.links.len() && v.links[k] == w.links[i];
    }
    assert forall|i: int|
        0 <= i < w.albums.len() implies match (#[trigger] w.albums[i]).cover_photo_media_item_id {
        Some(c) => has_item(w, c),
        None => true,
    } by {
        let k = choose|k: int| 0 <= k < v.albums.len() && v.albums[k] == w.albums[i];
        match v.albums[k].cover_photo_media_item_id {
            Some(c) => {},
            None => {},
        }
    }
}

/// Inserting an album whose cover is cached keeps the schema's rules.
pub proof fn lemma_with_album_wf(v: CacheView, a: AlbumView)
    requires
        wf(v),
        cover_ok(v, a),
    ensures
        wf(with_album(v, a)),
{
    lemma_without_album_wf(v, a.id);
    let w = without_album(v, a.id);
    let u = with_album(v, a);
    lemma_filter_members(v.albums, other_album(a.id));
    assert forall|x: Seq<char>| has_album(w, x) implies has_album(u, x) by {
        let i = choose|i: int| 0 <= i < w.albums.len() && (#[trigger] w.albums[i]).id == x;
        assert(u.albums[i] == w.albums[i]);
    }
    assert forall|i: int, j: int| 0 <= i < j < u.albums.len() implies (#[trigger] u.albums[i]).id
        != (#[trigger] u.albums[j]).id by {
        if j == u.albums.len() - 1 {
            assert(u.albums[i] == w.albums[i]);
            assert(other_album(a.id)(w.albums[i]));
        } else {
            assert(u.albums[i] == w.albums[i] && u.albums[j] == w.albums[j]);
        }
    }
    assert forall|i: int|
        0 <= i < u.albums.len() implies match (#[trigger] u.albums[i]).cover_photo_media_item_id {
        Some(c) => has_item(u, c),
        None => true,
    } by {
        if i < u.albums.len() - 1 {
            assert(u.albums[i] == w.albums[i]);
        }
    }
}

/// Adding an entry between a cached album and a cached item keeps the
/// schema's rules.
pub proof fn lemma_add_link_wf(v: CacheView, l: (Seq<char>, Seq<char>))
    requires
        wf(v),
        has_album(v, l.0),
        has_item(v, l.1),
    ensures
        wf(CacheView { links: v.links.filter(link_other_than(l)).push(l), ..v }),
{
    let p = link_other_than(l);
    let f = v.links.filter(p);
    let u = CacheView { links: f.push(l), ..v };
    lemma_filter_members(v.links, p);
    lemma_filter_unique_links(v.links, p);
    assert forall|i: int, j: int| 0 <= i < j < u.links.len() implies u.links[i] != u.links[j] by {
        if j == u.links.len() - 1 {
            assert(u.links[i] == f[i]);
            assert(p(f[i]));
        } else {
            assert(u.links[i] == f[i] && u.links[j] == f[j]);
        }
    }
    assert forall|i: int| 0 <= i < u.links.len() implies has_album(u, (#[trigger] u.links[i]).0)
        && has_item(u, u.links[i].1) by {
        if i < u.links.len() - 1 {
            assert(u.links[i] == f[i]);
            let k = choose|k: int| 0 <= k < v.links.len() && v.links[k] == f[i];
        }
    }
}

/// Filtering keeps album ids unique.
pub proof fn lemma_filter_unique_albums(s: Seq<AlbumView>, p: spec_fn(AlbumView) -> bool)
    requires
        forall|i: int, j: int| 0 <= i < j < s.len() ==> (#[trigger] s[i]).id != (#[trigger] s[j]).id,
    ensures
        forall|i: int, j: int|
            0 <= i < j < s.filter(p).len() ==> (#[trigger] s.filter(p)[i]).id != (
            #[trigger] s.filter(p)[j]).id,
    decreases s.len(),
{
    reveal(Seq::filter);
    if s.len() > 0 {
        let t = s.drop_last();
        assert forall|i: int, j: int| 0 <= i < j < t.len() implies (#[trigger] t[i]).id != (
        #[trigger] t[j]).id by {
            assert(t[i] == s[i] && t[j] == s[j]);
        }
        lemma_filter_unique_albums(t, p);
        lemma_filter_members(t, p);
        if p(s.last()) {
            let f = s.filter(p);
            assert forall|i: int, j: int| 0 <= i < j < f.len() implies (#[trigger] f[i]).id != (
            #[trigger] f[j]).id by {
                if j == f.len() - 1 {
                    assert(t.contains(t.filter(p)[i]));
                    let k = choose|k: int| 0 <= k < t.len() && t[k] == t.filter(p)[i];
                    assert(s[k] == t[k]);
                }
            }
        }
    }
}

/// Once a batch has failed, later items change nothing.
pub proof fn lemma_batch_stops(v: CacheView, items: Seq<MediaItemView>, k: int)
    requires
        0 <= k <= items.len(),
        after_batch(v, items.take(k)) is Err,
    ensures
        after_batch(v, items) == after_batch(v, items.take(k)),
    decreases items.len() - k,
{
    if k < items.len() {
        let t = items.take(k + 1);
        assert(t.drop_last() =~= items.take(k));
        lemma_batch_stops(v, items, k + 1);
    } else {
        assert(items.take(k) =~= items);
    }
}

/// Once an import has stopped, later items change nothing.
pub proof fn lemma_item_import_stops(v: CacheView, items: Seq<MediaItemView>, k: int)
    requires
        0 <= k <= items.len(),
        item_import(v, items.take(k)).1 is Some,
    ensures
        item_import(v, items) == item_import(v, items.take(k)),
    decreases items.len() - k,
{
    if k < items.len() {
        let t = items.take(k + 1);
        assert(t.drop_last() =~= items.take(k));
        lemma_item_import_stops(v, items, k + 1);
    } else {
        assert(items.take(k) =~= items);
    }
}

} // verus!
