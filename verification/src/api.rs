//! The Google Photos client's own logic: request addresses, the bearer
//! credential, the canned answers of the offline mode, and the reading of
//! answers. The caller sends the requests.

use vstd::prelude::*;
use vstd::string::*;
use crate::types::{
    opt_view, MediaItem, MediaItemView, MediaMetadata, MediaMetadataView, Album, AlbumView,
};
use crate::text::{signed_decimal, i64_to_decimal};

verus! {

/// Why a call to the service failed.
#[derive(Debug, Clone, PartialEq, Eq)]
pub enum ApiClientError {
    RequestError(String),
    GoogleApiError(String),
    Other(String),
}

pub enum ApiClientErrorView {
    RequestError(Seq<char>),
    GoogleApiError(Seq<char>),
    Other(Seq<char>),
}

impl View for ApiClientError {
    type V = ApiClientErrorView;

    open spec fn view(&self) -> ApiClientErrorView {
        match self {
            ApiClientError::RequestError(m) => ApiClientErrorView::RequestError(m@),
            ApiClientError::GoogleApiError(m) => ApiClientErrorView::GoogleApiError(m@),
            ApiClientError::Other(m) => ApiClientErrorView::Other(m@),
        }
    }
}

/// The text of an API error, as its `Display` shows it.
pub open spec fn api_error_text(e: ApiClientErrorView) -> Seq<char> {
    match e {
        ApiClientErrorView::RequestError(m) => "Request Error: "@ + m,
        ApiClientErrorView::GoogleApiError(m) => "Google API Error: "@ + m,
        ApiClientErrorView::Other(m) => "Other Error: "@ + m,
    }
}

impl ApiClientError {
    /// The text of the error, as its `Display` shows it.
    pub fn message(&self) -> (r: String)
        ensures
            r@ == api_error_text(self@),
    {
        let (mut head, m) = match self {
            ApiClientError::RequestError(m) => (String::from_str("Request Error: "), m),
            ApiClientError::GoogleApiError(m) => (String::from_str("Google API Error: "), m),
            ApiClientError::Other(m) => (String::from_str("Other Error: "), m),
        };
        head.append(m.as_str());
        head
    }
}

fn concat(a: &str, b: &str) -> (r: String)
    ensures
        r@ == a@ + b@,
{
    let mut s = String::from_str(a);
    s.append(b);
    s
}

/// The service's base address.
pub open spec fn api_base() -> Seq<char> {
    "https://photoslibrary.googleapis.com/v1/"@
}

/// The client of the photo service: the access token it sends.
pub struct ApiClient {
    access_token: String,
}

impl View for ApiClient {
    type V = Seq<char>;

    closed spec fn view(&self) -> Seq<char> {
        self.access_token@
    }
}

impl ApiClient {
    /// A client that sends the given access token.
    pub fn new(access_token: String) -> (r: ApiClient)
        ensures
            r@ == access_token@,
    {
        ApiClient { access_token }
    }

    /// Replaces the access token that is sent.
    pub fn set_access_token(&mut self, token: String)
        ensures
            final(self)@ == token@,
    {
        self.access_token = token;
    }

    /// The value of the `Authorization` header: `Bearer` and the token.
    pub fn authorization(&self) -> (r: String)
        ensures
            r@ == "Bearer "@ + self@,
    {
        concat("Bearer ", self.access_token.as_str())
    }

    /// The media item that the offline mode answers with for an id: a JPEG
    /// image of one by one pixels created at the start of 2023, with the id
    /// as file name stem.
    pub fn mock_media_item(id: &str) -> (r: MediaItem)
        ensures
            r@ == mock_item_view(id@),
    {
        MediaItem {
            id: String::from_str(id),
            description: None,
            product_url: String::from_str("http://example.com"),
            base_url: String::from_str("http://example.com/base"),
            mime_type: String::from_str("image/jpeg"),
            media_metadata: MediaMetadata {
                creation_time: String::from_str("2023-01-01T00:00:00Z"),
                width: String::from_str("1"),
                height: String::from_str("1"),
                video: None,
            },
            filename: concat(id, ".jpg"),
        }
    }
}

/// The media item that the offline mode answers with for an id.
pub open spec fn mock_item_view(id: Seq<char>) -> MediaItemView {
    MediaItemView {
        id,
        description: None,
        product_url: "http://example.com"@,
        base_url: "http://example.com/base"@,
        mime_type: "image/jpeg"@,
        media_metadata: MediaMetadataView {
            creation_time: "2023-01-01T00:00:00Z"@,
            width: "1"@,
            height: "1"@,
            video: None,
        },
        filename: id + ".jpg"@,
    }
}

/// The album that the offline mode answers with: only an id and a title.
pub open spec fn mock_album_view(id: Seq<char>, title: Seq<char>) -> AlbumView {
    AlbumView {
        id,
        title: Some(title),
        product_url: None,
        is_writeable: None,
        media_items_count: None,
        cover_photo_base_url: None,
        cover_photo_media_item_id: None,
    }
}

/// The album that the offline mode answers with for a created or renamed
/// album (see `mock_album_view`).
pub fn mock_album(id: &str, title: &str) -> (r: Album)
    ensures
        r@ == mock_album_view(id@, title@),
{
    Album {
        id: String::from_str(id),
        title: Some(String::from_str(title)),
        product_url: None,
        is_writeable: None,
        media_items_count: None,
        cover_photo_base_url: None,
        cover_photo_media_item_id: None,
    }
}

/// The offline mode's listing of media items: items `1` and `2`, no
/// further page.
pub fn mock_media_items_page() -> (r: (Vec<MediaItem>, Option<String>))
    ensures
        r.0@.len() == 2,
        r.0@[0]@ == mock_item_view("1"@),
        r.0@[1]@ == mock_item_view("2"@),
        r.1 is None,
{
    let mut v: Vec<MediaItem> = Vec::new();
    v.push(ApiClient::mock_media_item("1"));
    v.push(ApiClient::mock_media_item("2"));
    (v, None)
}

/// The offline mode's search result: item `3`, no further page.
pub fn mock_search_page() -> (r: (Vec<MediaItem>, Option<String>))
    ensures
        r.0@.len() == 1,
        r.0@[0]@ == mock_item_view("3"@),
        r.1 is None,
{
    let mut v: Vec<MediaItem> = Vec::new();
    v.push(ApiClient::mock_media_item("3"));
    (v, None)
}

/// The offline mode's album listing: album `1` titled `Test Album`, no
/// further page.
pub fn mock_albums_page() -> (r: (Vec<Album>, Option<String>))
    ensures
        r.0@.len() == 1,
        r.0@[0]@ == mock_album_view("1"@, "Test Album"@),
        r.1 is None,
{
    let mut v: Vec<Album> = Vec::new();
    v.push(mock_album("1", "Test Album"));
    (v, None)
}

/// The offline mode's answer to a description update: the canned item with
/// the new description.
pub fn mock_described_item(id: &str, description: &str) -> (r: MediaItem)
    ensures
        r@ == (MediaItemView { description: Some(description@), ..mock_item_view(id@) }),
{
    let mut item = ApiClient::mock_media_item(id);
    item.description = Some(String::from_str(description));
    item
}

/// The offline mode's answer to an upload: the canned item `uploaded`.
pub fn mock_uploaded_item() -> (r: MediaItem)
    ensures
        r@ == mock_item_view("uploaded"@),
{
    ApiClient::mock_media_item("uploaded")
}

/// The offline mode's last modification time of an album.
pub fn mock_album_modified_time() -> (r: Option<String>)
    ensures
        opt_view(r) == Some("2023-01-02T00:00:00Z"@),
{
    Some(String::from_str("2023-01-02T00:00:00Z"))
}

/// The address that lists media items, with the page size and, where given,
/// the page token.
pub open spec fn listing_url(what: Seq<char>, page_size: i32, page_token: Option<Seq<char>>) -> Seq<
    char,
> {
    api_base() + what + "?pageSize="@ + signed_decimal(page_size as int) + match page_token {
        Some(t) => "&pageToken="@ + t,
        None => Seq::empty(),
    }
}

fn listing(what: &str, page_size: i32, page_token: &Option<String>) -> (r: String)
    ensures
        r@ == listing_url(what@, page_size, opt_view(*page_token)),
{
    let s = concat("https://photoslibrary.googleapis.com/v1/", what);
    let s = concat(s.as_str(), "?pageSize=");
    let d = i64_to_decimal(page_size as i64);
    let s = concat(s.as_str(), d.as_str());
    proof {
        reveal_strlit("https://photoslibrary.googleapis.com/v1/");
    }
    match page_token {
        Some(t) => {
            let tail = concat("&pageToken=", t.as_str());
            let r = concat(s.as_str(), tail.as_str());
            assert(r@ =~= listing_url(what@, page_size, opt_view(*page_token)));
            r
        },
        None => {
            assert(s@ =~= listing_url(what@, page_size, opt_view(*page_token)));
            s
        },
    }
}

/// The address that lists media items.
pub fn media_items_url(page_size: i32, page_token: &Option<String>) -> (r: String)
    ensures
        r@ == listing_url("mediaItems"@, page_size, opt_view(*page_token)),
{
    listing("mediaItems", page_size, page_token)
}

/// The address that lists albums.
pub fn albums_url(page_size: i32, page_token: &Option<String>) -> (r: String)
    ensures
        r@ == listing_url("albums"@, page_size, opt_view(*page_token)),
{
    listing("albums", page_size, page_token)
}

/// The address of an album.
pub fn album_url(album_id: &str) -> (r: String)
    ensures
        r@ == api_base() + "albums/"@ + album_id@,
{
    proof {
        reveal_strlit("https://photoslibrary.googleapis.com/v1/albums/");
        reveal_strlit("https://photoslibrary.googleapis.com/v1/");
        reveal_strlit("albums/");
    }
    let r = concat("https://photoslibrary.googleapis.com/v1/albums/", album_id);
    assert(r@ =~= api_base() + "albums/"@ + album_id@);
    r
}

/// The address that renames an album.
pub fn rename_album_url(album_id: &str) -> (r: String)
    ensures
        r@ == api_base() + "albums/"@ + album_id@ + "?updateMask=title"@,
{
    let a = album_url(album_id);
    concat(a.as_str(), "?updateMask=title")
}

/// The address that removes media items from an album.
pub fn remove_from_album_url(album_id: &str) -> (r: String)
    ensures
        r@ == api_base() + "albums/"@ + album_id@ + ":batchRemoveMediaItems"@,
{
    let a = album_url(album_id);
    concat(a.as_str(), ":batchRemoveMediaItems")
}

/// The address that updates the description of a media item.
pub fn update_description_url(media_item_id: &str) -> (r: String)
    ensures
        r@ == api_base() + "mediaItems/"@ + media_item_id@ + "?updateMask=description"@,
{
    proof {
        reveal_strlit("https://photoslibrary.googleapis.com/v1/mediaItems/");
        reveal_strlit("https://photoslibrary.googleapis.com/v1/");
        reveal_strlit("mediaItems/");
    }
    let a = concat("https://photoslibrary.googleapis.com/v1/mediaItems/", media_item_id);
    let r = concat(a.as_str(), "?updateMask=description");
    assert(r@ =~= api_base() + "mediaItems/"@ + media_item_id@ + "?updateMask=description"@);
    r
}

/// The error for an answer that was not a success: its body, or `Unknown
/// error` where the body could not be read.
pub fn status_error(body: Option<String>) -> (r: ApiClientError)
    ensures
        r@ == ApiClientErrorView::GoogleApiError(
            match body {
                Some(b) => b@,
                None => "Unknown error"@,
            },
        ),
{
    match body {
        Some(b) => ApiClientError::GoogleApiError(b),
        None => ApiClientError::GoogleApiError(String::from_str("Unknown error")),
    }
}

/// A page of a listing: its items (none where the answer has no list) and
/// the token of the next page.
pub fn page_of<T>(items: Option<Vec<T>>, next_page_token: Option<String>) -> (r: (Vec<T>, Option<String>))
    ensures
        r.0@ == match items {
            Some(v) => v@,
            None => Seq::<T>::empty(),
        },
        opt_view(r.1) == opt_view(next_page_token),
{
    let v = match items {
        Some(v) => v,
        None => Vec::new(),
    };
    (v, next_page_token)
}

/// The media item that a batch creation answer gives: that of its first
/// result, or an error where there is no result or the first has no item.
pub fn first_created_item(results: Vec<Option<MediaItem>>) -> (r: Result<MediaItem, ApiClientError>)
    ensures
        match r {
            Ok(item) => results@.len() > 0 && results@[0] == Some(item),
            Err(e) => (results@.len() == 0 || results@[0] is None) && e@ == ApiClientErrorView::Other(
                "No media item returned"@,
            ),
        },
{
    let mut results = results;
    if results.len() == 0 {
        return Err(ApiClientError::Other(String::from_str("No media item returned")));
    }
    let first = results.remove(0);
    match first {
        Some(item) => Ok(item),
        None => Err(ApiClientError::Other(String::from_str("No media item returned"))),
    }
}

} // verus!
