use googlepicz::cache::{CacheError, CacheManager};
use googlepicz::types::{Album, FaceData, MediaItem, MediaMetadata, VideoMetadata};

fn sample_item(id: &str) -> MediaItem {
    MediaItem {
        id: id.to_string(),
        description: Some("desc".into()),
        product_url: "http://example.com".into(),
        base_url: "http://example.com/base".into(),
        mime_type: "image/jpeg".into(),
        media_metadata: MediaMetadata {
            creation_time: "2023-01-01T00:00:00Z".into(),
            width: "1".into(),
            height: "1".into(),
            video: None,
        },
        filename: format!("{}.jpg", id),
    }
}

fn sample_album(id: &str) -> Album {
    Album {
        id: id.to_string(),
        title: Some("Album".into()),
        product_url: None,
        is_writeable: None,
        media_items_count: None,
        cover_photo_base_url: None,
        cover_photo_media_item_id: None,
    }
}

fn camera(make: &str, model: &str) -> Option<VideoMetadata> {
    Some(VideoMetadata {
        camera_make: Some(make.into()),
        camera_model: Some(model.into()),
        fps_bits: None,
        status: None,
    })
}

// 2023-01-01T00:00:00Z .. 2023-01-31T23:59:59Z in Unix seconds.
const JAN_START: i64 = 1672531200;
const JAN_END: i64 = 1675209599;

#[test]
fn test_clear_cache_empties_all_tables() {
    let mut cache = CacheManager::new();
    let item = sample_item("1");
    cache.insert_media_item(&item).expect("insert media");
    let album = sample_album("a1");
    cache.insert_album(&album).expect("insert album");
    cache
        .associate_media_item_with_album(&item.id, &album.id)
        .expect("associate");
    cache.update_last_sync(1700000000).expect("update last sync");

    assert_eq!(cache.get_all_media_items().unwrap().len(), 1);
    assert_eq!(cache.get_all_albums().unwrap().len(), 1);
    assert_eq!(cache.get_media_items_by_album(&album.id).unwrap().len(), 1);

    cache.clear_cache().expect("clear cache");

    assert_eq!(cache.get_all_media_items().unwrap().len(), 0);
    assert_eq!(cache.export_media_items().unwrap().len(), 0);
    assert_eq!(cache.get_all_albums().unwrap().len(), 0);
    assert_eq!(cache.get_media_items_by_album(&album.id).unwrap().len(), 0);
    assert_eq!(cache.get_last_sync().unwrap(), 0);
}

#[test]
fn test_insert_media_item_invalid_metadata() {
    let mut cache = CacheManager::new();
    let mut item = sample_item("1");
    item.media_metadata.width = "not_a_number".into();
    let result = cache.insert_media_item(&item);
    assert!(matches!(result, Err(CacheError::SerializationError(_))));
}

#[test]
fn test_get_favorite_media_items() {
    let mut cache = CacheManager::new();
    let fav = sample_item("fav");
    cache.insert_media_item(&fav).expect("insert fav");
    cache.set_favorite(&fav.id, true).unwrap();
    let not_fav = sample_item("n1");
    cache.insert_media_item(&not_fav).expect("insert");

    let items = cache.get_favorite_media_items().expect("query");
    assert_eq!(items.len(), 1);
    assert_eq!(items[0].id, fav.id);
}

#[test]
fn test_get_media_items_by_favorite() {
    let mut cache = CacheManager::new();
    let fav = sample_item("fav");
    cache.insert_media_item(&fav).expect("insert fav");
    cache.set_favorite(&fav.id, true).unwrap();
    let not_fav = sample_item("n1");
    cache.insert_media_item(&not_fav).expect("insert");

    let fav_items = cache.get_media_items_by_favorite(true).expect("query");
    assert_eq!(fav_items.len(), 1);
    assert_eq!(fav_items[0].id, fav.id);

    let not_items = cache.get_media_items_by_favorite(false).expect("query");
    assert_eq!(not_items.len(), 1);
    assert_eq!(not_items[0].id, not_fav.id);
}

fn combined_fixture() -> (CacheManager, MediaItem) {
    let mut cache = CacheManager::new();
    let mut item1 = sample_item("1");
    item1.media_metadata.creation_time = "2023-01-02T00:00:00Z".into();
    item1.media_metadata.video = camera("Canon", "EOS");
    cache.insert_media_item(&item1).expect("insert1");
    cache.set_favorite(&item1.id, true).unwrap();
    let mut item2 = sample_item("2");
    item2.media_metadata.creation_time = "2023-02-01T00:00:00Z".into();
    item2.media_metadata.video = camera("Nikon", "D5");
    cache.insert_media_item(&item2).expect("insert2");
    (cache, item1)
}

#[test]
fn lib_test_query_media_items_combined() {
    let (cache, item1) = combined_fixture();
    let items = cache
        .query_media_items(Some("EOS"), None, Some(JAN_START), Some(JAN_END), Some(true), None, None)
        .expect("query");
    assert_eq!(items.len(), 1);
    assert_eq!(items[0].id, item1.id);
}

#[test]
fn cache_manager_test_query_media_items_combined() {
    let (cache, item1) = combined_fixture();
    let results = cache
        .query_media_items(Some("EOS"), None, Some(JAN_START), Some(JAN_END), Some(true), None, None)
        .unwrap();
    assert_eq!(results.len(), 1);
    assert_eq!(results[0].id, item1.id);
}

#[test]
fn export_and_import_roundtrip() {
    let mut cache = CacheManager::new();
    let item = sample_item("1");
    cache.insert_media_item(&item).unwrap();

    let exported = cache.export_media_items().unwrap();
    cache.clear_cache().unwrap();
    cache.import_media_items(&exported).unwrap();

    let items = cache.get_all_media_items().unwrap();
    assert_eq!(items.len(), 1);
    assert_eq!(items[0].id, item.id);
}

#[test]
fn test_insert_and_query_media_item() {
    let mut cm = CacheManager::new();
    let item = sample_item("1");
    cm.insert_media_item(&item).unwrap();
    let retrieved = cm.get_media_item("1").unwrap().unwrap();
    assert_eq!(retrieved.id, item.id);
    assert_eq!(retrieved.filename, item.filename);
}

#[test]
fn test_clear_cache() {
    let mut cm = CacheManager::new();
    let item = sample_item("1");
    cm.insert_media_item(&item).unwrap();
    let album = sample_album("a1");
    cm.insert_album(&album).unwrap();
    cm.associate_media_item_with_album(&item.id, &album.id).unwrap();
    cm.update_last_sync(1700000000).unwrap();

    assert_eq!(cm.get_all_media_items().unwrap().len(), 1);
    assert_eq!(cm.get_all_albums().unwrap().len(), 1);
    assert_eq!(cm.get_media_items_by_album(&album.id).unwrap().len(), 1);

    cm.clear_cache().unwrap();

    assert_eq!(cm.get_all_media_items().unwrap().len(), 0);
    assert_eq!(cm.get_all_albums().unwrap().len(), 0);
    assert_eq!(cm.get_media_items_by_album(&album.id).unwrap().len(), 0);
    assert_eq!(cm.get_last_sync().unwrap(), 0);
}

#[test]
fn test_update_last_sync() {
    let mut cm = CacheManager::new();
    let now: i64 = 1717171717;
    cm.update_last_sync(now).unwrap();
    let stored = cm.get_last_sync().unwrap();
    assert!(stored - now <= 1);
    assert_eq!(stored, now);
}

#[test]
fn test_cover_photo_fk_sets_null() {
    let mut cm = CacheManager::new();
    let item = sample_item("1");
    cm.insert_media_item(&item).unwrap();
    let mut album = sample_album("a1");
    album.media_items_count = Some("1".into());
    album.cover_photo_media_item_id = Some(item.id.clone());
    cm.insert_album(&album).unwrap();
    cm.delete_media_item(&item.id).unwrap();
    let albums = cm.get_all_albums().unwrap();
    assert_eq!(albums.len(), 1);
    assert!(albums[0].cover_photo_media_item_id.is_none());
}

#[test]
fn test_get_media_items_by_description() {
    let mut cm = CacheManager::new();
    let mut item1 = sample_item("1");
    item1.description = Some("cat picture".into());
    cm.insert_media_item(&item1).unwrap();
    let mut item2 = sample_item("2");
    item2.description = Some("dog photo".into());
    cm.insert_media_item(&item2).unwrap();

    let results = cm.get_media_items_by_description("cat").unwrap();
    assert_eq!(results.len(), 1);
    assert_eq!(results[0].id, item1.id);
}

#[test]
fn test_get_media_items_by_text() {
    let mut cm = CacheManager::new();
    let mut item1 = sample_item("1");
    item1.description = Some("foo".into());
    item1.filename = "bar.jpg".into();
    cm.insert_media_item(&item1).unwrap();
    let mut item2 = sample_item("2");
    item2.description = Some("bar".into());
    item2.filename = "foo.png".into();
    cm.insert_media_item(&item2).unwrap();

    let results = cm.get_media_items_by_text("foo").unwrap();
    assert_eq!(results.len(), 2);
    let ids: Vec<&str> = results.iter().map(|i| i.id.as_str()).collect();
    assert!(ids.contains(&"1") && ids.contains(&"2"));
}

#[test]
fn cache_reinsert_replaces_and_clears_favorite() {
    let mut cm = CacheManager::new();
    let item = sample_item("1");
    cm.insert_media_item(&item).unwrap();
    cm.set_favorite("1", true).unwrap();
    let mut changed = sample_item("1");
    changed.filename = "renamed.jpg".into();
    cm.insert_media_item(&changed).unwrap();
    let all = cm.get_all_media_items().unwrap();
    assert_eq!(all.len(), 1);
    assert_eq!(all[0].filename, "renamed.jpg");
    assert_eq!(cm.get_favorite_media_items().unwrap().len(), 0);
}

#[test]
fn cache_item_read_back_as_stored() {
    let mut cm = CacheManager::new();
    let mut item = sample_item("7");
    item.media_metadata.creation_time = "2023-01-01T02:00:00+02:00".into();
    item.media_metadata.width = "+640".into();
    cm.insert_media_item(&item).unwrap();
    let back = cm.get_media_item("7").unwrap().unwrap();
    assert_eq!(back.media_metadata.creation_time, "2023-01-01T00:00:00+00:00");
    assert_eq!(back.media_metadata.width, "640");
    assert_eq!(back.media_metadata.height, "1");
}

#[test]
fn cache_invalid_creation_time_is_serialization_error() {
    let mut cm = CacheManager::new();
    let mut item = sample_item("1");
    item.media_metadata.creation_time = "yesterday".into();
    assert!(matches!(cm.insert_media_item(&item), Err(CacheError::SerializationError(_))));
    assert_eq!(cm.get_all_media_items().unwrap().len(), 0);
}

#[test]
fn cache_batch_is_all_or_nothing() {
    let mut cm = CacheManager::new();
    let good = sample_item("1");
    let mut bad = sample_item("2");
    bad.media_metadata.height = "tall".into();
    let result = cm.insert_media_items_batch(&[good.clone(), bad]);
    assert!(matches!(result, Err(CacheError::SerializationError(_))));
    assert_eq!(cm.get_all_media_items().unwrap().len(), 0);
    cm.insert_media_items_batch(&[good]).unwrap();
    assert_eq!(cm.get_all_media_items().unwrap().len(), 1);
}

#[test]
fn cache_album_requires_existing_cover_and_item() {
    let mut cm = CacheManager::new();
    let mut album = sample_album("a1");
    album.cover_photo_media_item_id = Some("missing".into());
    let err = cm.insert_album(&album).unwrap_err();
    assert!(matches!(err, CacheError::DatabaseError(_)));
    let plain = sample_album("a2");
    cm.insert_album(&plain).unwrap();
    let err = cm.associate_media_item_with_album("nope", "a2").unwrap_err();
    assert_eq!(
        err.message(),
        "Database Error: Failed to associate media item with album: FOREIGN KEY constraint failed"
    );
}

#[test]
fn cache_rename_and_delete_album() {
    let mut cm = CacheManager::new();
    cm.insert_album(&sample_album("a1")).unwrap();
    cm.rename_album("a1", "Holidays").unwrap();
    let albums = cm.get_all_albums().unwrap();
    assert_eq!(albums[0].title.as_deref(), Some("Holidays"));
    cm.delete_album("a1").unwrap();
    assert_eq!(cm.get_all_albums().unwrap().len(), 0);
}

#[test]
fn cache_album_membership() {
    let mut cm = CacheManager::new();
    cm.insert_media_item(&sample_item("1")).unwrap();
    cm.insert_media_item(&sample_item("2")).unwrap();
    cm.insert_album(&sample_album("a1")).unwrap();
    cm.associate_media_item_with_album("1", "a1").unwrap();
    cm.associate_media_item_with_album("2", "a1").unwrap();
    assert_eq!(cm.get_media_items_by_album("a1").unwrap().len(), 2);
    cm.remove_media_item_from_album("1", "a1").unwrap();
    let left = cm.get_media_items_by_album("a1").unwrap();
    assert_eq!(left.len(), 1);
    assert_eq!(left[0].id, "2");
}

#[test]
fn cache_date_range_and_mime_queries() {
    let (cache, item1) = combined_fixture();
    let jan = cache.get_media_items_by_date_range(JAN_START, JAN_END).unwrap();
    assert_eq!(jan.len(), 1);
    assert_eq!(jan[0].id, item1.id);
    assert_eq!(cache.get_media_items_by_mime_type("image/jpeg").unwrap().len(), 2);
    assert_eq!(cache.get_media_items_by_mime_type("video/mp4").unwrap().len(), 0);
    assert_eq!(cache.get_media_items_by_camera_make("Nikon").unwrap().len(), 1);
    assert_eq!(cache.get_media_items_by_camera_model("EOS").unwrap().len(), 1);
}

#[test]
fn cache_filename_pattern_is_case_insensitive() {
    let mut cm = CacheManager::new();
    let mut item = sample_item("1");
    item.filename = "Holiday_Beach.JPG".into();
    cm.insert_media_item(&item).unwrap();
    assert_eq!(cm.get_media_items_by_filename("beach").unwrap().len(), 1);
    assert_eq!(cm.get_media_items_by_filename("mountain").unwrap().len(), 0);
}

#[test]
fn cache_faces_roundtrip_and_rename() {
    let mut cm = CacheManager::new();
    cm.insert_media_item(&sample_item("1")).unwrap();
    let faces = vec![FaceData { bbox: [1, 2, 3, 4], name: None }];
    cm.insert_faces("1", &faces).unwrap();
    cm.update_face_name("1", 0, "Alice").unwrap();
    let stored = cm.get_faces("1").unwrap().unwrap();
    assert_eq!(stored.len(), 1);
    assert_eq!(stored[0].bbox, [1, 2, 3, 4]);
    assert_eq!(stored[0].name.as_deref(), Some("Alice"));
    assert!(cm.get_faces("2").unwrap().is_none());
    let err = cm.insert_faces("2", &faces).unwrap_err();
    assert_eq!(
        err.message(),
        "Database Error: Failed to insert faces: FOREIGN KEY constraint failed"
    );
    let exported = cm.export_faces().unwrap();
    let mut other = CacheManager::new();
    other.insert_media_item(&sample_item("1")).unwrap();
    other.import_faces(&exported).unwrap();
    assert_eq!(other.get_faces("1").unwrap().unwrap()[0].name.as_deref(), Some("Alice"));
}

#[test]
fn cache_delete_item_removes_faces_and_links() {
    let mut cm = CacheManager::new();
    cm.insert_media_item(&sample_item("1")).unwrap();
    cm.insert_album(&sample_album("a1")).unwrap();
    cm.associate_media_item_with_album("1", "a1").unwrap();
    cm.insert_faces("1", &vec![FaceData { bbox: [0, 0, 1, 1], name: None }]).unwrap();
    cm.delete_media_item("1").unwrap();
    assert!(cm.get_media_item("1").unwrap().is_none());
    assert!(cm.get_faces("1").unwrap().is_none());
    assert_eq!(cm.get_media_items_by_album("a1").unwrap().len(), 0);
}

#[test]
fn cache_export_albums_lists_all() {
    let mut cm = CacheManager::new();
    cm.insert_album(&sample_album("a1")).unwrap();
    cm.insert_album(&sample_album("a2")).unwrap();
    let albums = cm.export_albums().unwrap();
    assert_eq!(albums.len(), 2);
    assert_eq!(albums[0].id, "a1");
    assert_eq!(albums[1].id, "a2");
}

#[test]
fn cache_unfiltered_query_lists_everything() {
    let (cache, _) = combined_fixture();
    let all = cache.get_all_media_items().unwrap();
    let queried = cache.query_media_items(None, None, None, None, None, None, None).unwrap();
    assert_eq!(queried, all);
    assert_eq!(queried.len(), 2);
}

#[test]
fn cache_deleted_album_lists_no_items() {
    let mut cm = CacheManager::new();
    cm.insert_media_item(&sample_item("1")).unwrap();
    cm.insert_album(&sample_album("a1")).unwrap();
    cm.associate_media_item_with_album("1", "a1").unwrap();
    cm.delete_album("a1").unwrap();
    assert!(cm.get_media_items_by_album("a1").unwrap().is_empty());
    assert_eq!(cm.get_all_media_items().unwrap().len(), 1);
}

#[test]
fn reinserting_an_item_keeps_the_count() {
    let mut cm = CacheManager::new();
    cm.insert_media_item(&sample_item("1")).unwrap();
    cm.insert_media_item(&sample_item("2")).unwrap();
    let mut again = sample_item("1");
    again.filename = "renamed.jpg".into();
    again.description = Some("second".into());
    cm.insert_media_item(&again).unwrap();
    let all = cm.get_all_media_items().unwrap();
    assert_eq!(all.len(), 2);
    assert_eq!(all.iter().filter(|i| i.id == "1").count(), 1);
    let got = cm.get_media_item("1").unwrap().unwrap();
    assert_eq!(got.filename, "renamed.jpg");
    assert_eq!(got.description, Some("second".to_string()));
}

#[test]
fn last_sync_reads_back_exactly() {
    let mut cm = CacheManager::new();
    assert_eq!(cm.get_last_sync().unwrap(), 0);
    cm.update_last_sync(253402300799).unwrap();
    assert_eq!(cm.get_last_sync().unwrap(), 253402300799);
    cm.update_last_sync(-62167219200).unwrap();
    assert_eq!(cm.get_last_sync().unwrap(), -62167219200);
}

#[test]
fn text_search_matches_whole_words() {
    let mut cm = CacheManager::new();
    let mut a = sample_item("a");
    a.filename = "beach_party.jpg".into();
    a.description = Some("Summer at the SEA".into());
    cm.insert_media_item(&a).unwrap();
    let mut b = sample_item("b");
    b.filename = "beaches.jpg".into();
    b.description = None;
    cm.insert_media_item(&b).unwrap();
    let ids = |q: &str| -> Vec<String> {
        cm.get_media_items_by_text(q).unwrap().into_iter().map(|i| i.id).collect()
    };
    assert_eq!(ids("beach"), vec!["a".to_string()]);
    assert_eq!(ids("sea summer"), vec!["a".to_string()]);
    assert_eq!(ids("beaches"), vec!["b".to_string()]);
    assert_eq!(ids("beach winter"), Vec::<String>::new());
}

#[test]
fn text_search_follows_fts5_syntax() {
    let mut cm = CacheManager::new();
    let mut a = sample_item("a");
    a.filename = "beach.jpg".into();
    a.description = None;
    cm.insert_media_item(&a).unwrap();
    let mut b = sample_item("b");
    b.filename = "mountain.jpg".into();
    b.description = Some("snow".into());
    cm.insert_media_item(&b).unwrap();
    let ids = |q: &str| -> Vec<String> {
        cm.get_media_items_by_text(q).unwrap().into_iter().map(|i| i.id).collect()
    };
    assert_eq!(ids("beach OR snow"), vec!["a".to_string(), "b".to_string()]);
    assert_eq!(ids("bea*"), vec!["a".to_string()]);
    assert_eq!(ids("description:snow"), vec!["b".to_string()]);
    assert_eq!(ids("jpg NOT snow"), vec!["a".to_string()]);
    match cm.get_media_items_by_text("\"unclosed") {
        Err(CacheError::DatabaseError(m)) => {
            assert!(m.starts_with("Failed to retrieve media item from iterator: "))
        }
        other => panic!("expected a database error, got {:?}", other),
    }
}
