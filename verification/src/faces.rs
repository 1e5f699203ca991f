//! Faces found in photos: turning detected rectangles into faces, where the
//! image is read from, storing faces in the cache and preparing them for
//! display. The detection itself is done by the caller.

use vstd::prelude::*;
use vstd::string::*;
use crate::types::{opt_view, clone_opt, MediaItem, FaceData, FaceDataView, faces_view};
use crate::cache::{CacheManager, CacheView, CacheError, CacheErrorView, cache_error_text, wf, has_item, with_faces, fk_failure, faces_of};
use crate::text::push_char;

verus! {

/// A detected face: its bounding box `[x, y, width, height]`, an optional
/// name, and the box as unsigned coordinates.
#[derive(Debug, PartialEq, Eq)]
pub struct Face {
    pub bbox: [i32; 4],
    pub name: Option<String>,
    pub rect: (u32, u32, u32, u32),
}

pub struct FaceView {
    pub bbox: Seq<i32>,
    pub name: Option<Seq<char>>,
    pub rect: (u32, u32, u32, u32),
}

impl View for Face {
    type V = FaceView;

    open spec fn view(&self) -> FaceView {
        FaceView { bbox: self.bbox@, name: opt_view(self.name), rect: self.rect }
    }
}

impl Clone for Face {
    fn clone(&self) -> (r: Self)
        ensures
            r@ == self@,
    {
        Face { bbox: self.bbox, name: clone_opt(&self.name), rect: self.rect }
    }
}

/// The views of a list of faces.
pub open spec fn face_list_view(v: Seq<Face>) -> Seq<FaceView> {
    v.map_values(|f: Face| f@)
}

/// Why detecting or storing faces failed.
#[derive(Debug, Clone, PartialEq, Eq)]
pub enum FaceRecognitionError {
    CacheError(String),
    Other(String),
}

pub enum FaceRecognitionErrorView {
    CacheError(Seq<char>),
    Other(Seq<char>),
}

impl View for FaceRecognitionError {
    type V = FaceRecognitionErrorView;

    open spec fn view(&self) -> FaceRecognitionErrorView {
        match self {
            FaceRecognitionError::CacheError(m) => FaceRecognitionErrorView::CacheError(m@),
            FaceRecognitionError::Other(m) => FaceRecognitionErrorView::Other(m@),
        }
    }
}

impl FaceRecognitionError {
    /// The text of the error, as its `Display` shows it.
    pub fn message(&self) -> (r: String)
        ensures
            r@ == match self@ {
                FaceRecognitionErrorView::CacheError(m) => "Cache Error: "@ + m,
                FaceRecognitionErrorView::Other(m) => "Other Error: "@ + m,
            },
    {
        let (mut head, m) = match self {
            FaceRecognitionError::CacheError(m) => (String::from_str("Cache Error: "), m),
            FaceRecognitionError::Other(m) => (String::from_str("Other Error: "), m),
        };
        head.append(m.as_str());
        head
    }
}

/// A face as the interface shows it: the box and the name.
#[derive(Debug, Clone, PartialEq, Eq)]
pub struct UiFace {
    pub bbox: [i32; 4],
    pub name: Option<String>,
}

/// The unsigned value of a coordinate, zero where it is negative.
pub open spec fn clamp_zero(v: i32) -> u32 {
    if v < 0 {
        0
    } else {
        v as u32
    }
}

/// The face a detected rectangle gives: no name, and as unsigned box the
/// position clamped at zero and the size as `as` converts it.
pub open spec fn face_of_rect(x: i32, y: i32, w: i32, h: i32) -> FaceView {
    FaceView {
        bbox: seq![x, y, w, h],
        name: None,
        rect: (clamp_zero(x), clamp_zero(y), w as u32, h as u32),
    }
}

#[verifier::truncate]
fn as_unsigned(v: i32) -> (r: u32)
    ensures
        r == v as u32,
{
    v as u32
}

/// Where the image of a media item is read from.
#[derive(Debug, Clone, PartialEq, Eq)]
pub enum ImageSource {
    /// A local file, at this path.
    File(String),
    /// A download from this address.
    Download(String),
}

pub enum ImageSourceView {
    File(Seq<char>),
    Download(Seq<char>),
}

impl View for ImageSource {
    type V = ImageSourceView;

    open spec fn view(&self) -> ImageSourceView {
        match self {
            ImageSource::File(p) => ImageSourceView::File(p@),
            ImageSource::Download(u) => ImageSourceView::Download(u@),
        }
    }
}

/// Whether `s` starts with `p`.
pub open spec fn starts_with(s: Seq<char>, p: Seq<char>) -> bool {
    p.len() <= s.len() && s.take(p.len() as int) == p
}

/// `s` with every leading repetition of `p` removed (`trim_start_matches`).
pub open spec fn strip_prefixes(s: Seq<char>, p: Seq<char>) -> Seq<char>
    decreases s.len(),
{
    if p.len() > 0 && starts_with(s, p) {
        strip_prefixes(s.skip(p.len() as int), p)
    } else {
        s
    }
}

/// Where the image of an item with this base address is read from: a
/// `file://` address is a local file, with every leading `file://` removed;
/// anything else is downloaded in full size (`=d` appended).
pub open spec fn image_source_of(base_url: Seq<char>) -> ImageSourceView {
    if starts_with(base_url, "file://"@) {
        ImageSourceView::File(strip_prefixes(base_url, "file://"@))
    } else {
        ImageSourceView::Download(base_url + "=d"@)
    }
}

fn has_file_prefix(s: &str, from: usize) -> (r: bool)
    requires
        from <= s@.len(),
    ensures
        r == starts_with(s@.skip(from as int), "file://"@),
{
    proof {
        reveal_strlit("file://");
    }
    let n = s.unicode_len();
    if n - from < 7 {
        return false;
    }
    let p = "file://";
    let mut j: usize = 0;
    while j < 7
        invariant
            n == s@.len(),
            from + 7 <= n,
            p@ == "file://"@,
            p@.len() == 7,
            j <= 7,
            forall|q: int| 0 <= q < j ==> s@[from + q] == p@[q],
        decreases 7 - j,
    {
        if s.get_char(from + j) != p.get_char(j) {
            proof {
                if starts_with(s@.skip(from as int), "file://"@) {
                    assert(s@.skip(from as int).take(7)[j as int] == s@[from + j]);
                }
            }
            return false;
        }
        j = j + 1;
    }
    assert(s@.skip(from as int).take(7) =~= "file://"@);
    true
}

impl FaceRecognizer {
    /// A recognizer.
    pub fn new() -> (r: FaceRecognizer) {
        FaceRecognizer
    }

    /// The face a detected rectangle gives (see `face_of_rect`).
    pub fn face_from_rect(&self, x: i32, y: i32, w: i32, h: i32) -> (r: Face)
        ensures
            r@ == face_of_rect(x, y, w, h),
    {
        let f = Face {
            bbox: [x, y, w, h],
            name: None,
            rect: (
                if x < 0 { 0 } else { x as u32 },
                if y < 0 { 0 } else { y as u32 },
                as_unsigned(w),
                as_unsigned(h),
            ),
        };
        assert(f@.bbox =~= seq![x, y, w, h]);
        f
    }

    /// The faces that detected rectangles `(x, y, width, height)` give, in
    /// order.
    pub fn faces_from_rects(&self, rects: &Vec<(i32, i32, i32, i32)>) -> (r: Vec<Face>)
        ensures
            face_list_view(r@) == rects@.map_values(
                |q: (i32, i32, i32, i32)| face_of_rect(q.0, q.1, q.2, q.3),
            ),
    {
        let mut r: Vec<Face> = Vec::new();
        let mut i: usize = 0;
        while i < rects.len()
            invariant
                i <= rects@.len(),
                face_list_view(r@) == rects@.take(i as int).map_values(
                    |q: (i32, i32, i32, i32)| face_of_rect(q.0, q.1, q.2, q.3),
                ),
            decreases rects.len() - i,
        {
            let (x, y, w, h) = rects[i];
            let ghost before = face_list_view(r@);
            let f = self.face_from_rect(x, y, w, h);
            r.push(f);
            proof {
                assert(face_list_view(r@) =~= before.push(face_of_rect(x, y, w, h)));
                assert(rects@.take(i + 1).drop_last() =~= rects@.take(i as int));
                assert(face_list_view(r@) =~= rects@.take(i + 1).map_values(
                    |q: (i32, i32, i32, i32)| face_of_rect(q.0, q.1, q.2, q.3),
                ));
            }
            i = i + 1;
        }
        assert(rects@.take(i as int) =~= rects@);
        r
    }

    /// Where the image of a media item is read from (see
    /// `image_source_of`).
    pub fn image_source(&self, item: &MediaItem) -> (r: ImageSource)
        ensures
            r@ == image_source_of(item.base_url@),
    {
        let s = item.base_url.as_str();
        let n = s.unicode_len();
        proof {
            reveal_strlit("file://");
            assert(s@.skip(0) =~= s@);
        }
        if !has_file_prefix(s, 0) {
            let mut u = String::from_str(s);
            u.append("=d");
            return ImageSource::Download(u);
        }
        let mut from: usize = 0;
        while has_file_prefix(s, from)
            invariant
                from <= n,
                n == s@.len(),
                strip_prefixes(s@, "file://"@) == strip_prefixes(s@.skip(from as int), "file://"@),
            decreases n - from,
        {
            proof {
                reveal_strlit("file://");
                assert(s@.skip(from as int).skip(7) =~= s@.skip(from + 7));
            }
            from = from + 7;
        }
        proof {
            reveal_strlit("file://");
        }
        let mut out = String::new();
        let mut i = from;
        while i < n
            invariant
                from <= i <= n,
                n == s@.len(),
                out@ == s@.subrange(from as int, i as int),
            decreases n - i,
        {
            push_char(&mut out, s.get_char(i));
            assert(out@ =~= s@.subrange(from as int, i + 1));
            i = i + 1;
        }
        assert(out@ =~= s@.skip(from as int));
        ImageSource::File(out)
    }

    /// Stores the faces of a media item in the cache (box and name of each,
    /// replacing what was recorded); a media item the cache does not hold
    /// is a cache error.
    pub fn assign_to_cache(&self, cache: &mut CacheManager, item: &MediaItem, faces: &Vec<Face>) -> (r:
        Result<(), FaceRecognitionError>)
        requires
            wf(old(cache)@),
        ensures
            wf(final(cache)@),
            has_item(old(cache)@, item.id@) ==> r is Ok && final(cache)@ == with_faces(
                old(cache)@,
                item.id@,
                stored_faces(face_list_view(faces@)),
            ),
            !has_item(old(cache)@, item.id@) ==> r is Err && r->Err_0@
                == FaceRecognitionErrorView::CacheError(
                cache_error_text(CacheErrorView::DatabaseError(fk_failure("Failed to insert faces"@))),
            ) && final(cache)@ == old(cache)@,
    {
        let mut data: Vec<FaceData> = Vec::new();
        let mut i: usize = 0;
        while i < faces.len()
            invariant
                i <= faces@.len(),
                faces_view(data@) == stored_faces(face_list_view(faces@).take(i as int)),
            decreases faces.len() - i,
        {
            let ghost before = faces_view(data@);
            data.push(FaceData { bbox: faces[i].bbox, name: clone_opt(&faces[i].name) });
            proof {
                let t = face_list_view(faces@).take(i + 1);
                assert(t.drop_last() =~= face_list_view(faces@).take(i as int));
                assert(faces_view(data@) =~= before.push(
                    FaceDataView { bbox: faces@[i as int].bbox@, name: opt_view(faces@[i as int].name) },
                ));
                assert(faces_view(data@) =~= stored_faces(t));
            }
            i = i + 1;
        }
        assert(face_list_view(faces@).take(i as int) =~= face_list_view(faces@));
        match cache.insert_faces(item.id.as_str(), &data) {
            Ok(()) => Ok(()),
            Err(e) => Err(FaceRecognitionError::CacheError(e.message())),
        }
    }

    /// The faces as the interface shows them: box and name of each.
    pub fn prepare_ui(&self, faces: &Vec<Face>) -> (r: Vec<UiFace>)
        ensures
            r@.len() == faces@.len(),
            forall|i: int|
                0 <= i < faces@.len() ==> (#[trigger] r@[i]).bbox == faces@[i].bbox && opt_view(
                    r@[i].name,
                ) == opt_view(faces@[i].name),
    {
        let mut r: Vec<UiFace> = Vec::new();
        let mut i: usize = 0;
        while i < faces.len()
            invariant
                i <= faces@.len(),
                r@.len() == i,
                forall|k: int|
                    0 <= k < i ==> (#[trigger] r@[k]).bbox == faces@[k].bbox && opt_view(r@[k].name)
                        == opt_view(faces@[k].name),
            decreases faces.len() - i,
        {
            r.push(UiFace { bbox: faces[i].bbox, name: clone_opt(&faces[i].name) });
            i = i + 1;
        }
        r
    }
}

/// The face detection service.
#[derive(Debug, Clone, Copy, PartialEq, Eq, Default)]
pub struct FaceRecognizer;

/// The stored form of faces: box and name of each.
pub open spec fn stored_faces(faces: Seq<FaceView>) -> Seq<FaceDataView> {
    faces.map_values(|f: FaceView| FaceDataView { bbox: f.bbox, name: f.name })
}

/// The face a stored box and name give, with the box's coordinates as
/// unsigned values (`as` converts them).
pub open spec fn face_of_stored(f: FaceDataView) -> FaceView {
    FaceView {
        bbox: f.bbox,
        name: f.name,
        rect: (f.bbox[0] as u32, f.bbox[1] as u32, f.bbox[2] as u32, f.bbox[3] as u32),
    }
}

/// The faces recorded for a media item, as faces with unsigned boxes; none
/// where nothing is recorded.
pub fn get_faces_for_media_item(cache: &CacheManager, id: &str) -> (r: Result<Vec<Face>, CacheError>)
    requires
        wf(cache@),
    ensures
        r is Ok,
        face_list_view(r->Ok_0@) == match faces_of(cache@, id@) {
            Some(fs) => fs.map_values(|f: FaceDataView| face_of_stored(f)),
            None => Seq::empty(),
        },
{
    let stored = match cache.get_faces(id) {
        Ok(Some(v)) => v,
        Ok(None) => {
            let r: Vec<Face> = Vec::new();
            assert(face_list_view(r@) =~= Seq::<FaceView>::empty());
            return Ok(r);
        },
        Err(e) => {
            return Err(e);
        },
    };
    let ghost sv = faces_view(stored@);
    let mut r: Vec<Face> = Vec::new();
    let mut i: usize = 0;
    while i < stored.len()
        invariant
            i <= stored@.len(),
            sv == faces_view(stored@),
            face_list_view(r@) == sv.take(i as int).map_values(|f: FaceDataView| face_of_stored(f)),
        decreases stored.len() - i,
    {
        let b = stored[i].bbox;
        let ghost before = face_list_view(r@);
        let f = Face {
            bbox: b,
            name: clone_opt(&stored[i].name),
            rect: (as_unsigned(b[0]), as_unsigned(b[1]), as_unsigned(b[2]), as_unsigned(b[3])),
        };
        proof {
            assert(b@ == sv[i as int].bbox);
            assert(f@ == face_of_stored(sv[i as int]));
        }
        let ghost fv = f@;
        r.push(f);
        proof {
            assert(face_list_view(r@) =~= before.push(fv));
            let t = sv.take(i + 1);
            assert(t.drop_last() =~= sv.take(i as int));
            assert(face_list_view(r@) =~= t.map_values(|f: FaceDataView| face_of_stored(f)));
        }
        i = i + 1;
    }
    assert(sv.take(i as int) =~= sv);
    Ok(r)
}

} // verus!
