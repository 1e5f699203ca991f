use googlepicz::datetime::utc_calendar_date;
use googlepicz::auth::AuthError;
use googlepicz::cache::CacheManager;
use googlepicz::sync::{
    error_code, failure, PageOutcome, PeriodicSync, SyncError, SyncErrorCode, SyncProgress, SyncRun,
    SyncStage, SyncState, SyncTaskError, Syncer, TokenRefreshLoop,
};
use googlepicz::types::{MediaItem, MediaMetadata};

const NOW: i64 = 1700000000;

fn item(id: &str) -> MediaItem {
    MediaItem {
        id: id.to_string(),
        description: None,
        product_url: "http://example.com".into(),
        base_url: "http://example.com/base".into(),
        mime_type: "image/jpeg".into(),
        media_metadata: MediaMetadata {
            creation_time: "2023-01-01T00:00:00Z".into(),
            width: "1".into(),
            height: "1".into(),
            video: None,
        },
        filename: format!("{}.jpg", id),
    }
}

fn status_message(e: &SyncTaskError) -> Option<&str> {
    match e {
        SyncTaskError::Status { message, .. } => Some(message.as_str()),
        _ => None,
    }
}

#[test]
fn sync_run_reports_start_and_completion() {
    let mut cache = CacheManager::new();
    let (run, notes) = SyncRun::begin(&cache, Ok(SyncState::new()), NOW);
    let mut run = run.unwrap();
    assert_eq!(notes.progress, vec![SyncProgress::Started]);
    assert_eq!(notes.errors.len(), 1);
    assert_eq!(status_message(&notes.errors[0]), Some("Sync started"));
    assert_eq!(run.date_filter(), (1970, 1, 1));

    let (outcome, notes) = run.record_page(&mut cache, &vec![item("3")], None, NOW);
    assert_eq!(outcome.unwrap(), PageOutcome::Last);
    assert_eq!(notes.progress, vec![SyncProgress::ItemSynced(1)]);
    assert!(notes.errors.is_empty());
    assert_eq!(run.state().total_synced, 1);

    let notes = run.finish(&mut cache, NOW + 5);
    assert_eq!(notes.progress, vec![SyncProgress::Finished(1)]);
    assert_eq!(status_message(&notes.errors[0]), Some("Sync completed: 1 items"));
    assert_eq!(run.state().last_success, Some(NOW + 5));
    assert_eq!(run.state().page_token, None);
    assert_eq!(cache.get_last_sync().unwrap(), NOW + 5);
    assert_eq!(cache.get_all_media_items().unwrap().len(), 1);
}

#[test]
fn sync_run_filters_from_last_sync_date() {
    let mut cache = CacheManager::new();
    cache.update_last_sync(1675209600).unwrap(); // 2023-02-01T00:00:00Z
    let (run, _) = SyncRun::begin(&cache, Ok(SyncState::new()), NOW);
    assert_eq!(run.unwrap().date_filter(), (2023, 2, 1));
}

#[test]
fn sync_run_load_failure() {
    let cache = CacheManager::new();
    let (run, notes) = SyncRun::begin(&cache, Err(SyncError::Other("Failed to parse state file: x".into())), NOW);
    let err = run.err().unwrap();
    assert_eq!(
        err,
        SyncError::Other("Failed to load state: Other Error: Failed to parse state file: x".into())
    );
    assert_eq!(notes.errors.len(), 2);
    assert_eq!(
        notes.errors[1],
        SyncTaskError::Other {
            code: SyncErrorCode::Other,
            message: "Failed to load state: Other Error: Failed to parse state file: x".into(),
        }
    );
}

#[test]
fn sync_run_resumes_from_saved_state() {
    let mut cache = CacheManager::new();
    let saved = SyncState { page_token: Some("p2".into()), total_synced: 49, last_success: None };
    let (run, _) = SyncRun::begin(&cache, Ok(saved), NOW);
    let mut run = run.unwrap();
    assert_eq!(run.page_token(), Some("p2".to_string()));
    let (outcome, notes) = run.record_page(&mut cache, &vec![item("a"), item("b")], Some("p3".into()), NOW);
    assert_eq!(outcome.unwrap(), PageOutcome::More);
    assert_eq!(notes.progress, vec![SyncProgress::ItemSynced(50), SyncProgress::ItemSynced(51)]);
    assert_eq!(notes.errors.len(), 1);
    assert_eq!(status_message(&notes.errors[0]), Some("Synced 50 items"));
    assert_eq!(run.state().total_synced, 51);
    assert_eq!(run.page_token(), Some("p3".to_string()));
}

#[test]
fn sync_run_empty_page_ends_listing() {
    let mut cache = CacheManager::new();
    let (run, _) = SyncRun::begin(&cache, Ok(SyncState::new()), NOW);
    let mut run = run.unwrap();
    let (outcome, notes) = run.record_page(&mut cache, &vec![], Some("ignored".into()), NOW);
    assert_eq!(outcome.unwrap(), PageOutcome::Exhausted);
    assert!(notes.progress.is_empty() && notes.errors.is_empty());
    assert_eq!(run.page_token(), None);
}

#[test]
fn sync_run_bad_item_stops_page() {
    let mut cache = CacheManager::new();
    let (run, _) = SyncRun::begin(&cache, Ok(SyncState::new()), NOW);
    let mut run = run.unwrap();
    let mut bad = item("2");
    bad.media_metadata.width = "wide".into();
    let (outcome, notes) = run.record_page(&mut cache, &vec![item("1"), bad, item("3")], None, NOW);
    let err = outcome.unwrap_err();
    assert_eq!(
        err,
        SyncError::CacheError(
            "Failed to insert media item into cache: Serialization Error: invalid digit found in string".into()
        )
    );
    assert_eq!(notes.progress, vec![SyncProgress::ItemSynced(1)]);
    assert_eq!(
        notes.errors,
        vec![SyncTaskError::Other {
            code: SyncErrorCode::Cache,
            message: "Failed to insert media item into cache: Serialization Error: invalid digit found in string".into(),
        }]
    );
    assert_eq!(run.state().total_synced, 0);
    assert_eq!(cache.get_all_media_items().unwrap().len(), 1);
}

#[test]
fn sync_failure_stages() {
    let (err, report) = failure(SyncStage::RefreshToken, "Other error: No refresh token found");
    assert_eq!(
        err,
        SyncError::AuthenticationError("Failed to refresh token: Other error: No refresh token found".into())
    );
    assert_eq!(
        report,
        SyncTaskError::Other {
            code: SyncErrorCode::Auth,
            message: "Failed to refresh token: Other error: No refresh token found".into(),
        }
    );
    let (err, _) = failure(SyncStage::ListPage, "Request Error: timeout");
    assert_eq!(err.message(), "API Client Error: Failed to list media items from API: Request Error: timeout");
    let (err, report) = failure(SyncStage::SaveState, "Other Error: disk full");
    assert_eq!(err, SyncError::Other("Other Error: disk full".into()));
    assert_eq!(report, SyncTaskError::Other { code: SyncErrorCode::Other, message: "Other Error: disk full".into() });
}

#[test]
fn sync_error_codes() {
    assert_eq!(error_code(&SyncError::AuthenticationError("a".into())), SyncErrorCode::Auth);
    assert_eq!(error_code(&SyncError::ApiClientError("a".into())), SyncErrorCode::Network);
    assert_eq!(error_code(&SyncError::CacheError("a".into())), SyncErrorCode::Cache);
    assert_eq!(error_code(&SyncError::Other("a".into())), SyncErrorCode::Other);
}

#[test]
fn sync_task_error_messages() {
    let e = SyncTaskError::PeriodicSyncFailed { code: SyncErrorCode::Network, message: "boom".into() };
    assert_eq!(e.message(), "Periodic sync failed [Network]: boom");
    assert_eq!(SyncTaskError::RestartAttempt(3).message(), "Restart attempt 3");
    assert_eq!(SyncTaskError::Aborted("x".into()).message(), "Task aborted: x");
    let s = SyncTaskError::Status { last_synced: 0, message: "ok".into() };
    assert_eq!(s.message(), "Status update (1970-01-01 00:00:00 UTC): ok");
    let o = SyncTaskError::Other { code: SyncErrorCode::Cache, message: "m".into() };
    assert_eq!(o.message(), "Cache: m");
}

#[test]
fn periodic_sync_backs_off_and_aborts_at_fifth_failure() {
    let cache = CacheManager::new();
    let mut p = PeriodicSync::new(None, &cache);
    assert_eq!(p.last_success(), 0);
    let err: Result<(), SyncError> = Err(SyncError::ApiClientError("down".into()));
    let mut waits = Vec::new();
    for attempt in 1..=4u32 {
        let (notes, next) = p.on_sync_result(&err, NOW, 60);
        let wait = next.unwrap();
        waits.push(wait);
        assert_eq!(notes.status, vec![SyncTaskError::RestartAttempt(attempt)]);
        assert_eq!(notes.errors.len(), 3);
        assert_eq!(notes.errors[1], SyncTaskError::RestartAttempt(attempt));
        assert_eq!(notes.progress, vec![SyncProgress::Retrying(wait)]);
    }
    assert_eq!(waits, vec![1, 2, 4, 8]);
    let (notes, next) = p.on_sync_result(&err, NOW, 60);
    let abort = SyncTaskError::Aborted("periodic sync aborted after 5 failures".into());
    assert_eq!(next, Err(abort.clone()));
    assert_eq!(notes.progress, vec![SyncProgress::Retrying(16)]);
    assert_eq!(notes.status, vec![SyncTaskError::RestartAttempt(5), abort.clone()]);
    assert_eq!(notes.errors.len(), 4);
    assert_eq!(notes.errors[3], abort);
    match &notes.errors[0] {
        SyncTaskError::PeriodicSyncFailed { code, message } => {
            assert_eq!(*code, SyncErrorCode::Network);
            assert_eq!(
                message,
                "API Client Error: down | code: Network | last_success: 1970-01-01T00:00:00+00:00"
            );
        }
        other => panic!("unexpected report {:?}", other),
    }
    assert_eq!(
        notes.errors[2],
        SyncTaskError::Status {
            last_synced: 0,
            message: "API Client Error: down | code: Network | last_success: 1970-01-01T00:00:00+00:00"
                .into(),
        }
    );
}

#[test]
fn test_periodic_sync_abort_and_restart() {
    let cache = CacheManager::new();
    let mut p = PeriodicSync::new(None, &cache);
    let err: Result<(), SyncError> = Err(SyncError::ApiClientError("network down".into()));
    let mut stop = None;
    for _ in 0..5 {
        let (_, next) = p.on_sync_result(&err, NOW, 1);
        if let Err(e) = next {
            stop = Some(e);
            break;
        }
    }
    assert!(matches!(stop, Some(SyncTaskError::Aborted(_))));
    // a fresh task over the same cache starts a run again
    let p2 = PeriodicSync::new(None, &cache);
    assert_eq!(p2.last_success(), 0);
    let (run, notes) = SyncRun::begin(&cache, Ok(SyncState::new()), NOW);
    assert!(run.is_ok());
    assert_eq!(notes.progress_only().progress, vec![SyncProgress::Started]);
}

#[test]
fn test_periodic_sync_reports_error() {
    let cache = CacheManager::new();
    let mut p = PeriodicSync::new(None, &cache);
    let (_, started) = SyncRun::begin(&cache, Ok(SyncState::new()), NOW);
    let started = started.progress_only();
    assert_eq!(started.progress, vec![SyncProgress::Started]);
    assert!(started.errors.is_empty());
    let err: Result<(), SyncError> = Err(SyncError::ApiClientError("network down".into()));
    let (notes, _) = p.on_sync_result(&err, NOW, 1);
    assert!(matches!(notes.progress[0], SyncProgress::Retrying(_)));
    let detail = notes.errors[..2]
        .iter()
        .find_map(|e| match e {
            SyncTaskError::PeriodicSyncFailed { message, .. } => Some(message.clone()),
            _ => None,
        })
        .expect("no periodic sync failure");
    assert!(detail.contains("last_success"));
    assert!(detail.contains("code:"));
}

#[test]
fn test_periodic_sync_repeated_failures_reported() {
    let cache = CacheManager::new();
    let mut p = PeriodicSync::new(None, &cache);
    let err: Result<(), SyncError> = Err(SyncError::ApiClientError("network down".into()));
    let (first, _) = p.on_sync_result(&err, NOW, 1);
    let (second, _) = p.on_sync_result(&err, NOW, 1);
    assert_eq!(first.status[0], SyncTaskError::RestartAttempt(1));
    assert!(matches!(second.status[0], SyncTaskError::RestartAttempt(n) if n >= 2));
    let pair = &first.errors[..2];
    assert!(pair.iter().any(|e| matches!(e, SyncTaskError::PeriodicSyncFailed { .. })));
    assert!(pair.iter().any(|e| matches!(e, SyncTaskError::RestartAttempt(_))));
}

#[test]
fn periodic_sync_success_resets() {
    let cache = CacheManager::new();
    let mut p = PeriodicSync::new(Some(NOW), &cache);
    let err: Result<(), SyncError> = Err(SyncError::CacheError("x".into()));
    p.on_sync_result(&err, NOW, 60);
    p.on_sync_result(&err, NOW, 60);
    let (notes, next) = p.on_sync_result(&Ok(()), NOW + 100, 60);
    assert_eq!(next, Ok(60));
    assert_eq!(notes.status, vec![SyncTaskError::Status { last_synced: NOW + 100, message: "Sync completed".into() }]);
    assert_eq!(notes.errors, notes.status);
    assert_eq!(p.last_success(), NOW + 100);
    let (notes, next) = p.on_sync_result(&err, NOW, 60);
    assert_eq!(next, Ok(1));
    assert_eq!(notes.status, vec![SyncTaskError::RestartAttempt(1)]);
    // four more failures after a success reach the abort again
    for _ in 0..3 {
        assert!(p.on_sync_result(&err, NOW, 60).1.is_ok());
    }
    assert!(p.on_sync_result(&err, NOW, 60).1.is_err());
}

#[test]
fn token_refresh_aborts_after_five_failures() {
    let mut t = TokenRefreshLoop::new(1, 0);
    let err: Result<(), AuthError> = Err(AuthError::Other("No refresh token found".into()));
    for attempt in 1..=4u32 {
        let (notes, extra) = t.on_refresh_result(&err, NOW);
        assert_eq!(extra, 0);
        assert_eq!(notes.errors[2], SyncTaskError::RestartAttempt(attempt));
        assert_eq!(
            notes.errors[0],
            SyncTaskError::TokenRefreshFailed {
                code: SyncErrorCode::Auth,
                message: "Other error: No refresh token found | last_success: 1970-01-01T00:00:00+00:00".into(),
            }
        );
    }
    let (notes, extra) = t.on_refresh_result(&err, NOW);
    assert_eq!(notes.errors.len(), 4);
    assert_eq!(notes.errors[3], SyncTaskError::Aborted("token refresh aborted after 5 failures".into()));
    assert_eq!(extra, 2);
    assert_eq!(t.interval_secs(), 2);
    let (notes, _) = t.on_refresh_result(&Ok(()), NOW);
    assert_eq!(notes.errors, vec![SyncTaskError::Status { last_synced: NOW, message: "Token refreshed".into() }]);
}

#[test]
fn syncer_keeps_settings() {
    let mut s = Syncer::new("tok".into(), CacheManager::new(), "/tmp/cache.state.json".into());
    assert!(!s.face_detection());
    s.set_face_detection(true);
    assert!(s.face_detection());
    assert_eq!(s.api_client().authorization(), "Bearer tok");
    s.set_access_token("fresh".into());
    assert_eq!(s.api_client().authorization(), "Bearer fresh");
    assert_eq!(s.state_path(), "/tmp/cache.state.json");
    let (run, _) = s.begin_sync(Ok(SyncState::new()), NOW);
    let mut run = run.unwrap();
    let (outcome, _) = s.record_page(&mut run, &vec![item("1")], None, NOW);
    assert_eq!(outcome.unwrap(), PageOutcome::Last);
    let notes = s.finish_sync(&mut run, NOW);
    assert_eq!(notes.progress, vec![SyncProgress::Finished(1)]);
    assert_eq!(s.cache().get_all_media_items().unwrap().len(), 1);
}

#[test]
fn next_run_lists_from_completion_date() {
    let mut cache = CacheManager::new();
    let (run, _) = SyncRun::begin(&cache, Ok(SyncState::new()), NOW);
    let mut run = run.unwrap();
    run.finish(&mut cache, 1675296000); // 2023-02-02T00:00:00Z
    let (next, notes) = SyncRun::begin(&cache, Ok(run.state().clone()), NOW);
    assert_eq!(next.unwrap().date_filter(), (2023, 2, 2));
    assert_eq!(notes.errors.len(), 1);
}

#[test]
fn utc_calendar_dates() {
    assert_eq!(utc_calendar_date(0), (1970, 1, 1));
    assert_eq!(utc_calendar_date(-1), (1969, 12, 31));
    assert_eq!(utc_calendar_date(951782400), (2000, 2, 29));
    assert_eq!(utc_calendar_date(1700000000), (2023, 11, 14));
    assert_eq!(utc_calendar_date(-62167219200), (0, 1, 1));
    assert_eq!(utc_calendar_date(253402300799), (9999, 12, 31));
}
