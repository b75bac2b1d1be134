use memora::sync::auth::{
    clear_session, expires_at_or_default, now_timestamp, timestamp_of_reading, parse_expires_at, save_session, session_expired,
    session_expired_at, session_from_auth_response, session_from_auth_response_at, AuthResponse,
    AuthSession, SettingsRequest, AUTH_SESSION_KEY, USER_EMAIL_KEY,
};
use memora::sync::config::SyncConfig;
use std::collections::HashMap;

fn session(expires_at: i64) -> AuthSession {
    AuthSession {
        access_token: "a".to_string(),
        refresh_token: "r".to_string(),
        user_id: "u".to_string(),
        expires_at,
    }
}

fn full_reply(expires_in: Option<i64>) -> AuthResponse {
    AuthResponse {
        access_token: Some("acc".to_string()),
        refresh_token: Some("ref".to_string()),
        user_id: Some("user-1".to_string()),
        expires_in,
    }
}

fn now_secs() -> i64 {
    std::time::SystemTime::now().duration_since(std::time::UNIX_EPOCH).unwrap().as_secs() as i64
}

#[test]
fn expired_within_a_minute_of_expiry() {
    assert!(session_expired_at(&session(1000), 940));
    assert!(session_expired_at(&session(1000), 1000));
    assert!(!session_expired_at(&session(1000), 939));
}

#[test]
fn expired_at_extreme_times_does_not_overflow() {
    assert!(session_expired_at(&session(i64::MAX), i64::MAX));
    assert!(!session_expired_at(&session(i64::MAX), i64::MAX - 61));
    assert!(session_expired_at(&session(i64::MIN), i64::MIN));
}

#[test]
fn expiry_is_monotone_in_time() {
    let s = session(5000);
    let mut was = false;
    for t in 4900..5100 {
        let now = session_expired_at(&s, t);
        assert!(!was || now);
        was = now;
    }
}

#[test]
fn session_expired_uses_the_clock() {
    let now = now_secs();
    assert!(session_expired(&session(now - 10)));
    assert!(!session_expired(&session(now + 3600)));
}

#[test]
fn session_from_reply_at_fixed_time() {
    let s = session_from_auth_response_at(&full_reply(Some(120)), 1000).unwrap();
    assert_eq!(s.access_token, "acc");
    assert_eq!(s.refresh_token, "ref");
    assert_eq!(s.user_id, "user-1");
    assert_eq!(s.expires_at, 1120);
}

#[test]
fn session_from_reply_defaults_to_an_hour() {
    let s = session_from_auth_response_at(&full_reply(None), 1000).unwrap();
    assert_eq!(s.expires_at, 4600);
}

#[test]
fn session_from_reply_missing_fields() {
    let mut r = full_reply(None);
    r.access_token = None;
    r.user_id = None;
    assert_eq!(session_from_auth_response_at(&r, 0).unwrap_err(), "missing access_token");
    let mut r = full_reply(None);
    r.refresh_token = None;
    r.user_id = None;
    assert_eq!(session_from_auth_response_at(&r, 0).unwrap_err(), "missing refresh_token");
    let mut r = full_reply(None);
    r.user_id = None;
    assert_eq!(session_from_auth_response(&r).unwrap_err(), "missing user id");
}

#[test]
fn session_from_reply_uses_the_clock() {
    let before = now_secs();
    let s = session_from_auth_response(&full_reply(Some(60))).unwrap();
    let after = now_secs();
    assert!(before + 60 <= s.expires_at && s.expires_at <= after + 60);
    assert_eq!(s.user_id, "user-1");
}

#[test]
fn fresh_session_expiry_law_on_values() {
    let s = session_from_auth_response_at(&full_reply(Some(61)), 500).unwrap();
    assert!(!session_expired_at(&s, 500));
    let s = session_from_auth_response_at(&full_reply(Some(60)), 500).unwrap();
    assert!(session_expired_at(&s, 500));
}

#[test]
fn parse_expires_at_reads_rfc3339() {
    assert_eq!(parse_expires_at("2024-01-01T00:00:00Z"), Some(1704067200));
    assert_eq!(parse_expires_at("1996-12-19T16:39:57-08:00"), Some(851042397));
}

#[test]
fn parse_expires_at_falls_back_to_an_hour_from_now() {
    let before = now_secs();
    let t = parse_expires_at("not a date").unwrap();
    let after = now_secs();
    assert!(before + 3600 <= t && t <= after + 3600);
}

#[test]
fn expires_at_or_default_values() {
    assert_eq!(expires_at_or_default(Some(42), 7), 42);
    assert_eq!(expires_at_or_default(None, 7), 3607);
}

fn apply(table: &mut HashMap<String, String>, reqs: Vec<SettingsRequest>) {
    for r in reqs {
        match r {
            SettingsRequest::Write { key, value } => {
                table.insert(key, value);
            }
            SettingsRequest::Delete { key } => {
                table.remove(&key);
            }
        }
    }
}

#[test]
fn save_session_writes_json_then_email() {
    let reqs = save_session("{\"a\":1}", "me@x.org");
    assert_eq!(reqs.len(), 2);
    match &reqs[0] {
        SettingsRequest::Write { key, value } => {
            assert_eq!(key, "auth_session");
            assert_eq!(value, "{\"a\":1}");
        }
        other => panic!("unexpected {:?}", other),
    }
    match &reqs[1] {
        SettingsRequest::Write { key, value } => {
            assert_eq!(key, "user_email");
            assert_eq!(value, "me@x.org");
        }
        other => panic!("unexpected {:?}", other),
    }
}

#[test]
fn clear_session_deletes_both_settings() {
    let reqs = clear_session();
    assert_eq!(reqs.len(), 2);
    assert!(matches!(&reqs[0], SettingsRequest::Delete { key } if key == AUTH_SESSION_KEY));
    assert!(matches!(&reqs[1], SettingsRequest::Delete { key } if key == USER_EMAIL_KEY));
}

#[test]
fn save_then_load_then_clear_on_a_table() {
    let mut table = HashMap::new();
    table.insert("theme".to_string(), "dark".to_string());
    apply(&mut table, save_session("{}", "e@x"));
    assert_eq!(table.get(AUTH_SESSION_KEY).map(|s| s.as_str()), Some("{}"));
    assert_eq!(table.get(USER_EMAIL_KEY).map(|s| s.as_str()), Some("e@x"));
    apply(&mut table, clear_session());
    assert_eq!(table.get(AUTH_SESSION_KEY), None);
    assert_eq!(table.get(USER_EMAIL_KEY), None);
    assert_eq!(table.get("theme").map(|s| s.as_str()), Some("dark"));
}

fn config(url: &str) -> SyncConfig {
    SyncConfig { url: url.to_string(), anon_key: "key".to_string() }
}

#[test]
fn sync_config_from_values() {
    let c = SyncConfig::from_values(Some("https://p.supabase.co".to_string()), Some("k".to_string()))
        .unwrap();
    assert_eq!(c.url, "https://p.supabase.co");
    assert_eq!(c.anon_key, "k");
    assert!(SyncConfig::from_values(None, Some("k".to_string())).is_none());
    assert!(SyncConfig::from_values(Some("u".to_string()), None).is_none());
    assert!(SyncConfig::from_values(Some(String::new()), Some("k".to_string())).is_none());
    assert!(SyncConfig::from_values(Some("u".to_string()), Some(String::new())).is_none());
}

#[test]
fn sync_config_endpoints() {
    let c = config("https://p.supabase.co");
    assert_eq!(c.rest_url(), "https://p.supabase.co/rest/v1");
    assert_eq!(c.auth_url(), "https://p.supabase.co/auth/v1");
    assert_eq!(c.realtime_url(), "wss://p.supabase.co/realtime/v1/websocket");
}

#[test]
fn sync_config_trailing_slashes_ignored() {
    for u in ["https://p.supabase.co/", "https://p.supabase.co///"] {
        let c = config(u);
        assert_eq!(c.rest_url(), "https://p.supabase.co/rest/v1");
        assert_eq!(c.auth_url(), "https://p.supabase.co/auth/v1");
        assert_eq!(c.realtime_url(), "wss://p.supabase.co/realtime/v1/websocket");
    }
}

#[test]
fn sync_config_realtime_replaces_every_https() {
    assert_eq!(config("http://localhost:54321").realtime_url(), "http://localhost:54321/realtime/v1/websocket");
    assert_eq!(
        config("https://a/?next=https://b").realtime_url(),
        "wss://a/?next=wss://b/realtime/v1/websocket"
    );
    assert_eq!(config("").rest_url(), "/rest/v1");
    assert_eq!(config("/").auth_url(), "/auth/v1");
}

#[test]
fn now_timestamp_reads_the_clock() {
    let before = now_secs();
    let t = now_timestamp().unwrap();
    assert!(before <= t && t <= now_secs());
}

#[test]
fn session_from_reply_lifetime_out_of_range() {
    let r = session_from_auth_response(&full_reply(Some(i64::MAX)));
    assert_eq!(r.unwrap_err(), "expires_in out of range");
    let s = session_from_auth_response(&full_reply(Some(i64::MIN))).unwrap();
    assert!(s.expires_at < 0);
}

#[test]
fn chrono_range_matches_clock_bounds() {
    assert!(chrono::DateTime::from_timestamp_secs(8_210_266_876_799).is_some());
    assert!(chrono::DateTime::from_timestamp_secs(8_210_266_876_800).is_none());
    assert!(chrono::DateTime::from_timestamp_secs(-8_334_601_228_800).is_some());
    assert!(chrono::DateTime::from_timestamp_secs(-8_334_601_228_801).is_none());
}

#[test]
fn session_from_reply_at_overflow_is_an_error() {
    let r = session_from_auth_response_at(&full_reply(Some(1)), i64::MAX);
    assert_eq!(r.unwrap_err(), "expires_in out of range");
    let r = session_from_auth_response_at(&full_reply(Some(-1)), i64::MIN);
    assert_eq!(r.unwrap_err(), "expires_in out of range");
    let s = session_from_auth_response_at(&full_reply(Some(0)), i64::MAX).unwrap();
    assert_eq!(s.expires_at, i64::MAX);
    let mut r = full_reply(Some(1));
    r.access_token = None;
    assert_eq!(session_from_auth_response_at(&r, i64::MAX).unwrap_err(), "missing access_token");
}

#[test]
fn session_from_reply_large_lifetime_fits_at_todays_clock() {
    let s = session_from_auth_response(&full_reply(Some(i64::MAX - 10_000_000_000))).unwrap();
    assert!(s.expires_at > i64::MAX - 10_000_000_000);
}

#[test]
fn timestamp_of_reading_values() {
    assert_eq!(timestamp_of_reading(None), None);
    assert_eq!(timestamp_of_reading(Some(0)), Some(0));
    assert_eq!(timestamp_of_reading(Some(1_700_000_000)), Some(1_700_000_000));
    assert_eq!(timestamp_of_reading(Some(8_210_266_876_799)), Some(8_210_266_876_799));
    assert_eq!(timestamp_of_reading(Some(8_210_266_876_800)), None);
    assert_eq!(timestamp_of_reading(Some(u64::MAX)), None);
}
