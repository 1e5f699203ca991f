use googlepicz::auth::{
    authorization_code, cancel_scheduled_refresh, check_access_token, code_from_query,
    complete_scheduled_refresh,
    expiry_after_refresh, get_access_token, get_access_token_expiry, get_refresh_token,
    record_tokens, redirect_uri, request_target, schedule_token_refresh, AuthError, RefreshTimer,
    TokenCheck, TokenStore, REFRESH_MARGIN_SECS,
};

const NOW: u64 = 1_700_000_000;

#[test]
fn store_reads_back_what_was_written() {
    let mut store = TokenStore::new();
    assert_eq!(store.get_value("access_token"), None);
    store.store_value("access_token", "one");
    store.store_value("refresh_token", "r");
    store.store_value("access_token", "two");
    assert_eq!(store.get_value("access_token"), Some("two".to_string()));
    assert_eq!(store.get_value("refresh_token"), Some("r".to_string()));
    let entries = store.entries();
    assert_eq!(entries.len(), 2);
    let again = TokenStore::from_entries(entries);
    assert_eq!(again.get_value("access_token"), Some("two".to_string()));
}

#[test]
fn from_entries_later_pair_wins() {
    let store = TokenStore::from_entries(vec![
        ("k".to_string(), "old".to_string()),
        ("k".to_string(), "new".to_string()),
    ]);
    assert_eq!(store.get_value("k"), Some("new".to_string()));
}

#[test]
fn test_get_access_token_missing() {
    let store = TokenStore::new();
    let result = get_access_token(&store);
    assert!(result.is_err());
    assert_eq!(result.unwrap_err(), AuthError::Other("No access token".into()));
}

#[test]
fn access_and_refresh_tokens() {
    let mut store = TokenStore::new();
    assert_eq!(get_refresh_token(&store).unwrap(), None);
    let expiry = record_tokens(&mut store, "token1", Some("refresh1".into()), None, NOW);
    assert_eq!(expiry, NOW + 3600);
    assert_eq!(get_access_token(&store).unwrap(), "token1");
    assert_eq!(get_refresh_token(&store).unwrap(), Some("refresh1".to_string()));
    assert_eq!(get_access_token_expiry(&store).unwrap(), Some(NOW + 3600));
    record_tokens(&mut store, "token2", None, Some(120), NOW);
    assert_eq!(get_access_token(&store).unwrap(), "token2");
    assert_eq!(get_refresh_token(&store).unwrap(), Some("refresh1".to_string()));
    assert_eq!(get_access_token_expiry(&store).unwrap(), Some(NOW + 120));
}

#[test]
fn unreadable_expiry_counts_as_zero() {
    let mut store = TokenStore::new();
    store.store_value("access_token_expiry", "soon");
    assert_eq!(get_access_token_expiry(&store).unwrap(), Some(0));
    assert_eq!(check_access_token(&store, NOW).unwrap(), TokenCheck::Refresh { expiry: 0 });
}

#[test]
fn token_check_no_refresh_needed() {
    let mut store = TokenStore::new();
    record_tokens(&mut store, "valid_token", None, Some(3600), NOW);
    assert_eq!(check_access_token(&store, NOW).unwrap(), TokenCheck::Valid { expiry: NOW + 3600 });
    assert_eq!(get_access_token(&store).unwrap(), "valid_token");
}

#[test]
fn token_check_expired_or_expiring_soon() {
    let mut store = TokenStore::new();
    store.store_value("access_token_expiry", &(NOW - 10).to_string());
    assert_eq!(check_access_token(&store, NOW).unwrap(), TokenCheck::Refresh { expiry: NOW - 10 });
    store.store_value("access_token_expiry", &(NOW + 10).to_string());
    assert!(matches!(check_access_token(&store, NOW).unwrap(), TokenCheck::Refresh { .. }));
    store.store_value("access_token_expiry", &(NOW + REFRESH_MARGIN_SECS).to_string());
    assert!(matches!(check_access_token(&store, NOW).unwrap(), TokenCheck::Refresh { .. }));
    store.store_value("access_token_expiry", &(NOW + REFRESH_MARGIN_SECS + 1).to_string());
    assert!(matches!(check_access_token(&store, NOW).unwrap(), TokenCheck::Valid { .. }));
    let empty = TokenStore::new();
    assert_eq!(check_access_token(&empty, NOW).unwrap(), TokenCheck::Refresh { expiry: 0 });
}

#[test]
fn expiry_after_refresh_prefers_stored() {
    let mut store = TokenStore::new();
    assert_eq!(expiry_after_refresh(&store, 42).unwrap(), 42);
    store.store_value("access_token_expiry", "99");
    assert_eq!(expiry_after_refresh(&store, 42).unwrap(), 99);
}

#[test]
fn scheduled_refresh_runs_margin_before_expiry() {
    let mut timer = RefreshTimer::new();
    let (previous, delay) = schedule_token_refresh(&mut timer, NOW + REFRESH_MARGIN_SECS + 1, NOW);
    assert_eq!(previous, None);
    assert_eq!(delay, 1);
    let (previous, delay) = schedule_token_refresh(&mut timer, NOW + 10, NOW);
    assert_eq!(previous, Some(NOW + 1));
    assert_eq!(delay, 0);
    let (previous, delay) = schedule_token_refresh(&mut timer, 100, NOW);
    assert_eq!(previous, Some(NOW + 10 - REFRESH_MARGIN_SECS));
    assert_eq!(delay, 0);
    assert_eq!(cancel_scheduled_refresh(&mut timer), Some(0));
    assert_eq!(cancel_scheduled_refresh(&mut timer), None);
}

#[test]
fn redirect_and_request_line() {
    assert_eq!(redirect_uri(8080), "http://127.0.0.1:8080");
    assert_eq!(request_target("GET /?code=abc HTTP/1.1\r\n"), Some("/?code=abc".to_string()));
    assert_eq!(request_target("  GET\t/x  "), Some("/x".to_string()));
    assert_eq!(request_target("GET"), None);
    assert_eq!(request_target(""), None);
}

#[test]
fn authorization_code_from_redirect() {
    let uri = redirect_uri(8080);
    let code = authorization_code("GET /?state=s&code=4%2F0Ab HTTP/1.1", &uri).unwrap();
    assert_eq!(code, "4/0Ab");
    let missing = authorization_code("GET /?state=s HTTP/1.1", &uri).unwrap_err();
    assert_eq!(missing, AuthError::Other("No authorization code found in redirect URL".into()));
    let none = authorization_code("GET", &uri).unwrap_err();
    assert_eq!(none, AuthError::Other("No redirect URL found".into()));
}

#[test]
fn code_from_query_picks_first_code() {
    let pairs = vec![
        ("a".to_string(), "1".to_string()),
        ("code".to_string(), "first".to_string()),
        ("code".to_string(), "second".to_string()),
    ];
    assert_eq!(code_from_query(Ok(pairs)).unwrap(), "first");
    assert_eq!(code_from_query(Err("bad url".into())).unwrap_err(), AuthError::Other("bad url".into()));
}

#[test]
fn auth_error_messages() {
    assert_eq!(AuthError::Keyring("k".into()).message(), "Keyring error: k");
    assert_eq!(AuthError::OAuth("o".into()).message(), "OAuth error: o");
    assert_eq!(AuthError::Other("x".into()).message(), "Other error: x");
}

#[test]
fn test_scheduled_refresh_happens() {
    let mut store = TokenStore::new();
    let mut timer = RefreshTimer::new();
    store.store_value("access_token", "sched_old");
    let expiry = NOW + REFRESH_MARGIN_SECS + 1;
    store.store_value("access_token_expiry", &expiry.to_string());
    assert_eq!(check_access_token(&store, NOW).unwrap(), TokenCheck::Valid { expiry });
    assert_eq!(get_access_token(&store).unwrap(), "sched_old");
    let (_, delay) = schedule_token_refresh(&mut timer, expiry, NOW);
    assert_eq!(delay, 1);
    // the refresh falls due a second later and records into the same store
    let new_expiry = complete_scheduled_refresh(&mut store, &mut timer, "sched_new", None, None, NOW + 1);
    assert_eq!(new_expiry, NOW + 1 + 3600);
    assert_eq!(get_access_token(&store).unwrap(), "sched_new");
    assert_eq!(get_access_token_expiry(&store).unwrap(), Some(NOW + 1 + 3600));
    assert_eq!(cancel_scheduled_refresh(&mut timer), None);
}
