use googlepicz::api::{mock_album, ApiClient};
use googlepicz::cache::CacheManager;
use googlepicz::cli::{
    added_to_album_line, album_created_line, album_line, album_renamed_line, day_end, day_start,
    favorite_set_line, interrupted_sync_notice, item_line, item_listing, matching_albums,
    progress_line, search_items, stats_lines, status_lines, sync_interval_secs,
};
use googlepicz::types::FaceData;
use googlepicz::sync::{SyncProgress, SyncState};
use googlepicz::types::Album;

#[test]
fn progress_lines() {
    assert_eq!(progress_line(SyncProgress::Started), "Sync started");
    assert_eq!(progress_line(SyncProgress::Retrying(4)), "Retrying in 4s");
    assert_eq!(progress_line(SyncProgress::ItemSynced(12)), "Synced 12 items...");
    assert_eq!(progress_line(SyncProgress::Finished(1)), "Finished sync: 1 items");
}

#[test]
fn album_lines() {
    assert_eq!(album_line(&mock_album("1", "My Album")), "My Album (id: 1)");
    let untitled = Album {
        id: "7".into(),
        title: None,
        product_url: None,
        is_writeable: None,
        media_items_count: None,
        cover_photo_base_url: None,
        cover_photo_media_item_id: None,
    };
    assert_eq!(album_line(&untitled), "Untitled (id: 7)");
    assert_eq!(album_created_line(&untitled, "Trip"), "Album created: Trip (id: 7)");
    assert_eq!(album_created_line(&mock_album("1", "Test"), "x"), "Album created: Test (id: 1)");
}

#[test]
fn item_lines_and_limit() {
    let items: Vec<_> = (1..=12).map(|i| ApiClient::mock_media_item(&i.to_string())).collect();
    assert_eq!(item_line(&items[0]), "1 - 1.jpg");
    assert_eq!(item_listing(&items, None).len(), 10);
    assert_eq!(item_listing(&items, Some(3)), vec!["1 - 1.jpg", "2 - 2.jpg", "3 - 3.jpg"]);
    assert_eq!(item_listing(&items[..2].to_vec(), Some(5)).len(), 2);
}

#[test]
fn stats_and_status() {
    assert_eq!(stats_lines(1, 0), ("Albums: 1".to_string(), "Media items: 0".to_string()));
    assert_eq!(
        status_lines(0, 0),
        ("Last sync: 1970-01-01T00:00:00+00:00".to_string(), "Cached items: 0".to_string())
    );
    assert_eq!(sync_interval_secs(5), 300);
}

#[test]
fn interrupted_notice() {
    let done = SyncState { page_token: None, total_synced: 3, last_success: Some(0) };
    assert_eq!(interrupted_sync_notice(&done), None);
    let cut = SyncState { page_token: Some("p".into()), total_synced: 40, last_success: None };
    assert_eq!(
        interrupted_sync_notice(&cut).as_deref(),
        Some("Previous sync interrupted after 40 items. Last success at unknown")
    );
}

#[test]
fn search_day_bounds() {
    assert_eq!(day_start("2023-01-01").unwrap(), 1672531200);
    assert_eq!(day_end("2023-01-31").unwrap(), 1675209599);
    assert!(day_start("January").is_err());
}

#[test]
fn search_items_with_options() {
    let mut cache = CacheManager::new();
    let mut item1 = ApiClient::mock_media_item("1");
    item1.description = Some("holiday".into());
    item1.media_metadata.creation_time = "2023-01-02T00:00:00Z".into();
    cache.insert_media_item(&item1).unwrap();
    cache.set_favorite("1", true).unwrap();
    let mut item2 = ApiClient::mock_media_item("2");
    item2.description = Some("holiday".into());
    item2.media_metadata.creation_time = "2023-02-01T00:00:00Z".into();
    cache.insert_media_item(&item2).unwrap();
    let start = Some(day_start("2023-01-01").unwrap());
    let end = Some(day_end("2023-01-31").unwrap());
    let found = search_items(&cache, "holiday", start, end, true, false).unwrap();
    let lines = item_listing(&found, Some(found.len()));
    assert_eq!(lines, vec!["1 - 1.jpg"]);
    assert_eq!(search_items(&cache, "holiday", None, None, false, false).unwrap().len(), 2);
    assert!(search_items(&cache, "holiday", None, None, false, true).unwrap().is_empty());
    cache.insert_faces("2", &vec![FaceData { bbox: [0, 0, 1, 1], name: None }]).unwrap();
    let with_faces = search_items(&cache, "holiday", None, None, false, true).unwrap();
    assert_eq!(with_faces.len(), 1);
    assert_eq!(with_faces[0].id, "2");
}

#[test]
fn album_search_and_messages() {
    let albums = vec![mock_album("1", "Album"), mock_album("2", "Trip")];
    let found = matching_albums(&albums, "Album");
    assert_eq!(found.len(), 1);
    assert_eq!(album_line(&found[0]), "Album (id: 1)");
    assert_eq!(added_to_album_line("1", "1"), "Added 1 to album 1");
    assert_eq!(favorite_set_line("1", true), "Favorite for 1 set to true");
    assert_eq!(album_renamed_line("1", "Renamed"), "Album renamed: Renamed (id: 1)");
}
