use googlepicz::api::{
    album_url, albums_url, first_created_item, media_items_url, mock_album, mock_album_modified_time,
    mock_albums_page, mock_described_item, mock_media_items_page, mock_search_page,
    mock_uploaded_item, page_of, remove_from_album_url, rename_album_url, status_error,
    update_description_url, ApiClient, ApiClientError,
};
use googlepicz::cache::CacheManager;
use googlepicz::config::{default_config_path, AppConfig, AppConfigOverrides, ConfigValues};
use googlepicz::faces::{get_faces_for_media_item, FaceRecognitionError, FaceRecognizer, ImageSource};
use googlepicz::types::{MediaItem, MediaMetadata};

fn no_values() -> ConfigValues {
    ConfigValues {
        log_level: None,
        oauth_redirect_port: None,
        thumbnails_preload: None,
        preload_threads: None,
        sync_interval_minutes: None,
        debug_console: None,
        trace_spans: None,
        detect_faces: None,
        cache_path: None,
    }
}

fn no_overrides() -> AppConfigOverrides {
    AppConfigOverrides {
        log_level: None,
        oauth_redirect_port: None,
        thumbnails_preload: None,
        preload_threads: None,
        sync_interval_minutes: None,
        debug_console: false,
        trace_spans: false,
        detect_faces: false,
    }
}

#[test]
fn config_defaults() {
    let cfg = AppConfig::from_values(&no_values(), "/home/u");
    assert_eq!(cfg.log_level, "info");
    assert_eq!(cfg.oauth_redirect_port, 8080);
    assert_eq!(cfg.thumbnails_preload, 20);
    assert_eq!(cfg.preload_threads, 4);
    assert_eq!(cfg.sync_interval_minutes, 5);
    assert!(!cfg.debug_console && !cfg.trace_spans && !cfg.detect_faces);
    assert_eq!(cfg.cache_path, "/home/u/.googlepicz");
    assert_eq!(default_config_path("/home/u"), "/home/u/.googlepicz/config");
}

#[test]
fn config_values_and_narrowing() {
    let mut v = no_values();
    v.log_level = Some("debug".into());
    v.oauth_redirect_port = Some(65536 + 9000);
    v.sync_interval_minutes = Some(15);
    v.detect_faces = Some(true);
    v.cache_path = Some("/data".into());
    let cfg = AppConfig::from_values(&v, "/home/u");
    assert_eq!(cfg.log_level, "debug");
    assert_eq!(cfg.oauth_redirect_port, 9000);
    assert_eq!(cfg.sync_interval_minutes, 15);
    assert!(cfg.detect_faces);
    assert_eq!(cfg.cache_path, "/data");
}

#[test]
fn config_overrides() {
    let cfg = AppConfig::from_values(&no_values(), "/h");
    let same = cfg.clone().apply_overrides(&no_overrides());
    assert_eq!(same, cfg);
    let mut ov = no_overrides();
    ov.log_level = Some("trace".into());
    ov.preload_threads = Some(8);
    ov.trace_spans = true;
    let changed = cfg.clone().apply_overrides(&ov);
    assert_eq!(changed.log_level, "trace");
    assert_eq!(changed.preload_threads, 8);
    assert!(changed.trace_spans);
    assert_eq!(changed.thumbnails_preload, 20);
    let twice = changed.clone().apply_overrides(&ov);
    assert_eq!(twice, changed);
}

#[test]
fn api_addresses() {
    assert_eq!(
        media_items_url(100, &None),
        "https://photoslibrary.googleapis.com/v1/mediaItems?pageSize=100"
    );
    assert_eq!(
        albums_url(50, &Some("tok".into())),
        "https://photoslibrary.googleapis.com/v1/albums?pageSize=50&pageToken=tok"
    );
    assert_eq!(album_url("a1"), "https://photoslibrary.googleapis.com/v1/albums/a1");
    assert_eq!(
        rename_album_url("a1"),
        "https://photoslibrary.googleapis.com/v1/albums/a1?updateMask=title"
    );
    assert_eq!(
        remove_from_album_url("a1"),
        "https://photoslibrary.googleapis.com/v1/albums/a1:batchRemoveMediaItems"
    );
    assert_eq!(
        update_description_url("m1"),
        "https://photoslibrary.googleapis.com/v1/mediaItems/m1?updateMask=description"
    );
}

#[test]
fn api_client_credentials() {
    let mut c = ApiClient::new("token".into());
    assert_eq!(c.authorization(), "Bearer token");
    c.set_access_token("t2".into());
    assert_eq!(c.authorization(), "Bearer t2");
}

#[test]
fn api_mock_answers() {
    let (items, next) = mock_media_items_page();
    assert_eq!(items.len(), 2);
    assert_eq!(items[0].id, "1");
    assert_eq!(items[1].filename, "2.jpg");
    assert!(next.is_none());
    let (found, _) = mock_search_page();
    assert_eq!(found[0].id, "3");
    let (albums, _) = mock_albums_page();
    assert_eq!(albums[0].title.as_deref(), Some("Test Album"));
    assert_eq!(mock_album("1", "My Album").title.as_deref(), Some("My Album"));
    assert_eq!(mock_described_item("img", "My photo").description.as_deref(), Some("My photo"));
    assert_eq!(mock_uploaded_item().id, "uploaded");
    assert_eq!(mock_album_modified_time().as_deref(), Some("2023-01-02T00:00:00Z"));
    let item = ApiClient::mock_media_item("9");
    assert_eq!(item.media_metadata.creation_time, "2023-01-01T00:00:00Z");
    assert_eq!(item.mime_type, "image/jpeg");
}

#[test]
fn api_answers() {
    assert_eq!(status_error(None), ApiClientError::GoogleApiError("Unknown error".into()));
    assert_eq!(status_error(Some("quota".into())).message(), "Google API Error: quota");
    let (v, next): (Vec<u8>, Option<String>) = page_of(None, Some("n".into()));
    assert!(v.is_empty());
    assert_eq!(next.as_deref(), Some("n"));
    let created = first_created_item(vec![Some(ApiClient::mock_media_item("x")), None]).unwrap();
    assert_eq!(created.id, "x");
    assert_eq!(
        first_created_item(vec![None]).unwrap_err(),
        ApiClientError::Other("No media item returned".into())
    );
    assert!(first_created_item(vec![]).is_err());
}

fn photo(id: &str, base_url: &str) -> MediaItem {
    MediaItem {
        id: id.into(),
        description: None,
        product_url: "p".into(),
        base_url: base_url.into(),
        mime_type: "image/jpeg".into(),
        media_metadata: MediaMetadata {
            creation_time: "2024-01-01T00:00:00Z".into(),
            width: "200".into(),
            height: "200".into(),
            video: None,
        },
        filename: "sample.jpg".into(),
    }
}

#[test]
fn faces_from_rectangles() {
    let rec = FaceRecognizer::new();
    let f = rec.face_from_rect(-5, 10, 30, 40);
    assert_eq!(f.bbox, [-5, 10, 30, 40]);
    assert_eq!(f.rect, (0, 10, 30, 40));
    assert!(f.name.is_none());
    let all = rec.faces_from_rects(&vec![(1, 2, 3, 4), (5, 6, 7, 8)]);
    assert_eq!(all.len(), 2);
    assert_eq!(all[1].bbox, [5, 6, 7, 8]);
    let ui = rec.prepare_ui(&all);
    assert_eq!(ui[0].bbox, [1, 2, 3, 4]);
}

#[test]
fn faces_image_source() {
    let rec = FaceRecognizer::new();
    assert_eq!(
        rec.image_source(&photo("1", "file:///tmp/sample.jpg")),
        ImageSource::File("/tmp/sample.jpg".into())
    );
    assert_eq!(
        rec.image_source(&photo("1", "file://file:///x")),
        ImageSource::File("/x".into())
    );
    assert_eq!(
        rec.image_source(&photo("1", "https://lh3/abc")),
        ImageSource::Download("https://lh3/abc=d".into())
    );
}

#[test]
fn test_detect_and_cache_roundtrip() {
    let rec = FaceRecognizer::new();
    let mut cache = CacheManager::new();
    let item = photo("1", "file:///tmp/sample.jpg");
    cache.insert_media_item(&item).expect("insert item");
    let faces = rec.faces_from_rects(&vec![(10, 20, 30, 40)]);
    rec.assign_to_cache(&mut cache, &item, &faces).expect("assign");
    let back = get_faces_for_media_item(&cache, "1").expect("get");
    assert_eq!(back.len(), 1);
    assert_eq!(back[0].bbox, [10, 20, 30, 40]);
    assert_eq!(back[0].rect, (10, 20, 30, 40));
    assert!(get_faces_for_media_item(&cache, "2").unwrap().is_empty());
    let err = rec.assign_to_cache(&mut cache, &photo("2", "x"), &faces).unwrap_err();
    assert_eq!(
        err,
        FaceRecognitionError::CacheError(
            "Database Error: Failed to insert faces: FOREIGN KEY constraint failed".into()
        )
    );
}
