//! Plain data records shared by the cache, the synchroniser and the
//! Google Photos client: media items, albums and face annotations.

use vstd::prelude::*;

verus! {

/// The characters of an optional string.
pub open spec fn opt_view(o: Option<String>) -> Option<Seq<char>> {
    match o {
        Some(s) => Some(s@),
        None => None,
    }
}

/// Copies an optional string.
pub fn clone_opt(o: &Option<String>) -> (r: Option<String>)
    ensures
        opt_view(r) == opt_view(*o),
{
    match o {
        Some(s) => Some(s.clone()),
        None => None,
    }
}

/// An optional string taken from an optional borrowed string.
pub fn opt_from_str(o: Option<&str>) -> (r: Option<String>)
    ensures
        opt_view(r) == match o {
            Some(s) => Some(s@),
            None => None::<Seq<char>>,
        },
{
    match o {
        Some(s) => Some(s.to_owned()),
        None => None,
    }
}

/// Whether two optional strings hold the same characters.
pub fn opt_eq(a: &Option<String>, b: &Option<String>) -> (r: bool)
    ensures
        r == (opt_view(*a) == opt_view(*b)),
{
    match (a, b) {
        (Some(x), Some(y)) => x.eq(y),
        (None, None) => true,
        _ => false,
    }
}

/// Video-specific metadata of a media item. The frame rate is kept as the
/// bit pattern of the `f32` that the service reports.
#[derive(Debug, PartialEq, Eq)]
pub struct VideoMetadata {
    pub camera_make: Option<String>,
    pub camera_model: Option<String>,
    pub fps_bits: Option<u32>,
    pub status: Option<String>,
}

pub struct VideoMetadataView {
    pub camera_make: Option<Seq<char>>,
    pub camera_model: Option<Seq<char>>,
    pub fps_bits: Option<u32>,
    pub status: Option<Seq<char>>,
}

impl View for VideoMetadata {
    type V = VideoMetadataView;

    open spec fn view(&self) -> VideoMetadataView {
        VideoMetadataView {
            camera_make: opt_view(self.camera_make),
            camera_model: opt_view(self.camera_model),
            fps_bits: self.fps_bits,
            status: opt_view(self.status),
        }
    }
}

impl Clone for VideoMetadata {
    fn clone(&self) -> (r: Self)
        ensures
            r@ == self@,
    {
        VideoMetadata {
            camera_make: clone_opt(&self.camera_make),
            camera_model: clone_opt(&self.camera_model),
            fps_bits: self.fps_bits,
            status: clone_opt(&self.status),
        }
    }
}

pub open spec fn opt_video_view(v: Option<VideoMetadata>) -> Option<VideoMetadataView> {
    match v {
        Some(m) => Some(m@),
        None => None,
    }
}

/// Creation time and dimensions of a media item, as the service sends them.
#[derive(Debug, PartialEq, Eq)]
pub struct MediaMetadata {
    pub creation_time: String,
    pub width: String,
    pub height: String,
    pub video: Option<VideoMetadata>,
}

pub struct MediaMetadataView {
    pub creation_time: Seq<char>,
    pub width: Seq<char>,
    pub height: Seq<char>,
    pub video: Option<VideoMetadataView>,
}

impl View for MediaMetadata {
    type V = MediaMetadataView;

    open spec fn view(&self) -> MediaMetadataView {
        MediaMetadataView {
            creation_time: self.creation_time@,
            width: self.width@,
            height: self.height@,
            video: opt_video_view(self.video),
        }
    }
}

impl Clone for MediaMetadata {
    fn clone(&self) -> (r: Self)
        ensures
            r@ == self@,
    {
        MediaMetadata {
            creation_time: self.creation_time.clone(),
            width: self.width.clone(),
            height: self.height.clone(),
            video: match &self.video {
                Some(v) => Some(v.clone()),
                None => None,
            },
        }
    }
}

/// A photo or video of the library.
#[derive(Debug, PartialEq, Eq)]
pub struct MediaItem {
    pub id: String,
    pub description: Option<String>,
    pub product_url: String,
    pub base_url: String,
    pub mime_type: String,
    pub media_metadata: MediaMetadata,
    pub filename: String,
}

pub struct MediaItemView {
    pub id: Seq<char>,
    pub description: Option<Seq<char>>,
    pub product_url: Seq<char>,
    pub base_url: Seq<char>,
    pub mime_type: Seq<char>,
    pub media_metadata: MediaMetadataView,
    pub filename: Seq<char>,
}

impl View for MediaItem {
    type V = MediaItemView;

    open spec fn view(&self) -> MediaItemView {
        MediaItemView {
            id: self.id@,
            description: opt_view(self.description),
            product_url: self.product_url@,
            base_url: self.base_url@,
            mime_type: self.mime_type@,
            media_metadata: self.media_metadata@,
            filename: self.filename@,
        }
    }
}

impl Clone for MediaItem {
    fn clone(&self) -> (r: Self)
        ensures
            r@ == self@,
    {
        MediaItem {
            id: self.id.clone(),
            description: clone_opt(&self.description),
            product_url: self.product_url.clone(),
            base_url: self.base_url.clone(),
            mime_type: self.mime_type.clone(),
            media_metadata: self.media_metadata.clone(),
            filename: self.filename.clone(),
        }
    }
}

/// The views of a sequence of media items.
pub open spec fn items_view(v: Seq<MediaItem>) -> Seq<MediaItemView> {
    v.map_values(|m: MediaItem| m@)
}

/// An album of the library.
#[derive(Debug, PartialEq, Eq)]
pub struct Album {
    pub id: String,
    pub title: Option<String>,
    pub product_url: Option<String>,
    pub is_writeable: Option<bool>,
    pub media_items_count: Option<String>,
    pub cover_photo_base_url: Option<String>,
    pub cover_photo_media_item_id: Option<String>,
}

pub struct AlbumView {
    pub id: Seq<char>,
    pub title: Option<Seq<char>>,
    pub product_url: Option<Seq<char>>,
    pub is_writeable: Option<bool>,
    pub media_items_count: Option<Seq<char>>,
    pub cover_photo_base_url: Option<Seq<char>>,
    pub cover_photo_media_item_id: Option<Seq<char>>,
}

impl View for Album {
    type V = AlbumView;

    open spec fn view(&self) -> AlbumView {
        AlbumView {
            id: self.id@,
            title: opt_view(self.title),
            product_url: opt_view(self.product_url),
            is_writeable: self.is_writeable,
            media_items_count: opt_view(self.media_items_count),
            cover_photo_base_url: opt_view(self.cover_photo_base_url),
            cover_photo_media_item_id: opt_view(self.cover_photo_media_item_id),
        }
    }
}

impl Clone for Album {
    fn clone(&self) -> (r: Self)
        ensures
            r@ == self@,
    {
        Album {
            id: self.id.clone(),
            title: clone_opt(&self.title),
            product_url: clone_opt(&self.product_url),
            is_writeable: self.is_writeable,
            media_items_count: clone_opt(&self.media_items_count),
            cover_photo_base_url: clone_opt(&self.cover_photo_base_url),
            cover_photo_media_item_id: clone_opt(&self.cover_photo_media_item_id),
        }
    }
}

/// The views of a sequence of albums.
pub open spec fn albums_view(v: Seq<Album>) -> Seq<AlbumView> {
    v.map_values(|a: Album| a@)
}

/// A detected face: bounding box `[x, y, width, height]` and an optional name.
#[derive(Debug, PartialEq, Eq)]
pub struct FaceData {
    pub bbox: [i32; 4],
    pub name: Option<String>,
}

pub struct FaceDataView {
    pub bbox: Seq<i32>,
    pub name: Option<Seq<char>>,
}

impl View for FaceData {
    type V = FaceDataView;

    open spec fn view(&self) -> FaceDataView {
        FaceDataView { bbox: self.bbox@, name: opt_view(self.name) }
    }
}

impl Clone for FaceData {
    fn clone(&self) -> (r: Self)
        ensures
            r@ == self@,
    {
        FaceData { bbox: self.bbox, name: clone_opt(&self.name) }
    }
}

/// The views of a sequence of faces.
pub open spec fn faces_view(v: Seq<FaceData>) -> Seq<FaceDataView> {
    v.map_values(|f: FaceData| f@)
}

/// Copies a list of faces.
pub fn clone_faces(v: &Vec<FaceData>) -> (r: Vec<FaceData>)
    ensures
        faces_view(r@) == faces_view(v@),
{
    let mut r: Vec<FaceData> = Vec::new();
    let mut i: usize = 0;
    while i < v.len()
        invariant
            i <= v.len(),
            r@.len() == i,
            forall|j: int| 0 <= j < i ==> (#[trigger] r@[j])@ == v@[j]@,
        decreases v.len() - i,
    {
        r.push(v[i].clone());
        i = i + 1;
    }
    assert(faces_view(r@) =~= faces_view(v@));
    r
}

/// The faces recorded for one media item, as exported and imported.
#[derive(Debug, PartialEq, Eq)]
pub struct FaceExport {
    pub media_item_id: String,
    pub faces: Vec<FaceData>,
}

impl View for FaceExport {
    type V = (Seq<char>, Seq<FaceDataView>);

    open spec fn view(&self) -> (Seq<char>, Seq<FaceDataView>) {
        (self.media_item_id@, faces_view(self.faces@))
    }
}

impl Clone for FaceExport {
    fn clone(&self) -> (r: Self)
        ensures
            r@ == self@,
    {
        FaceExport { media_item_id: self.media_item_id.clone(), faces: clone_faces(&self.faces) }
    }
}

} // verus!
