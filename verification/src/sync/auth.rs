//! Sessions with the sync backend: building them from an auth reply, their
//! expiry, and the settings that store them.

use vstd::prelude::*;

verus! {

broadcast use vstd::string::group_string_axioms;

/// A signed-in session with the sync backend.
#[derive(Debug, Clone)]
pub struct AuthSession {
    pub access_token: String,
    pub refresh_token: String,
    pub user_id: String,
    pub expires_at: i64,
}

/// What an auth reply holds: each field is present when the reply has a
/// string (for `expires_in`, an integer that fits in `i64`) at that place.
/// `user_id` is the string at `id` inside the `user` object.
#[derive(Debug, Clone)]
pub struct AuthResponse {
    pub access_token: Option<String>,
    pub refresh_token: Option<String>,
    pub user_id: Option<String>,
    pub expires_in: Option<i64>,
}

/// The earliest UNIX timestamp of chrono's `DateTime<Utc>` (`DateTime::<Utc>::MIN_UTC`, in year -262143).
pub open spec fn min_clock() -> int {
    -8_334_601_228_800
}

/// The latest UNIX timestamp of chrono's `DateTime<Utc>` (`DateTime::<Utc>::MAX_UTC`, year 262142, December 31, 23:59:59).
pub open spec fn max_clock() -> int {
    8_210_266_876_799
}

/// Trusted: `std::time::SystemTime::elapsed` on `UNIX_EPOCH`, in whole
/// seconds. The result is the current time, so nothing is promised of it;
/// it is absent when the system clock reads before 1970.
#[verifier::external_body]
fn seconds_since_epoch() -> (r: Option<u64>) {
    match std::time::UNIX_EPOCH.elapsed() {
        Ok(d) => Some(d.as_secs()),
        Err(_) => None,
    }
}

/// Trusted: `chrono::DateTime::<Utc>::from_timestamp_secs`, then
/// `DateTime::timestamp` on what it made. chrono documents that the first
/// returns none exactly on seconds outside the range of `DateTime<Utc>` and
/// that the pair round-trips.
#[verifier::external_body]
fn utc_timestamp(secs: i64) -> (r: Option<i64>)
    ensures
        r is Some <==> min_clock() <= secs <= max_clock(),
        r matches Some(t) ==> t == secs,
{
    match chrono::DateTime::from_timestamp_secs(secs) {
        Some(d) => Some(d.timestamp()),
        None => None,
    }
}

/// The UNIX timestamp of a clock reading in whole seconds since 1970, as
/// chrono's `Utc` holds it: the reading itself when it lies within chrono's
/// range, none when it is beyond that range or there is no reading.
pub open spec fn reading_timestamp(secs: Option<u64>) -> Option<i64> {
    match secs {
        Some(s) => if s <= max_clock() {
            Some(s as i64)
        } else {
            None::<i64>
        },
        None => None::<i64>,
    }
}

/// The UNIX timestamp of a clock reading (see `reading_timestamp`).
pub fn timestamp_of_reading(secs: Option<u64>) -> (r: Option<i64>)
    ensures
        r == reading_timestamp(secs),
{
    match secs {
        Some(s) => if s <= i64::MAX as u64 {
            utc_timestamp(s as i64)
        } else {
            None
        },
        None => None,
    }
}

/// The current UNIX timestamp by the system clock, as chrono's `Utc` gives
/// it; absent when the clock reads before 1970 or beyond chrono's range.
pub fn now_timestamp() -> (r: Option<i64>)
    ensures
        r matches Some(t) ==> 0 <= t <= max_clock(),
{
    timestamp_of_reading(seconds_since_epoch())
}

/// Whether a session that expires at `expires_at` counts as expired at `now`:
/// it does from sixty seconds before its expiry on.
pub open spec fn expired_at(expires_at: i64, now: i64) -> bool {
    expires_at <= now + 60
}

/// Once expired, a session stays expired as time goes on.
pub proof fn lemma_expiry_monotone(expires_at: i64, earlier: i64, later: i64)
    requires
        earlier <= later,
        expired_at(expires_at, earlier),
    ensures
        expired_at(expires_at, later),
{
}

/// Whether `session` counts as expired at the time `now`.
pub fn session_expired_at(session: &AuthSession, now: i64) -> (r: bool)
    ensures
        r == expired_at(session.expires_at, now),
{
    (session.expires_at as i128) <= (now as i128) + 60
}

/// Whether a session that expires at `expires_at` counts as expired by the
/// clock reading `secs`: as at its timestamp, and expired when the reading
/// gives none.
pub open spec fn expired_by_reading(expires_at: i64, secs: Option<u64>) -> bool {
    match reading_timestamp(secs) {
        Some(now) => expired_at(expires_at, now),
        None => true,
    }
}

/// By a clock reading, a session counts as expired exactly when it expires
/// at most sixty seconds after the time read, and always when the reading
/// gives no time.
pub proof fn lemma_expired_by_reading(expires_at: i64, s: u64)
    ensures
        s <= max_clock() ==> (expired_by_reading(expires_at, Some(s)) <==> expires_at <= s + 60),
        s > max_clock() ==> expired_by_reading(expires_at, Some(s)),
        expired_by_reading(expires_at, None),
{
}

/// Whether `session` counts as expired by the clock reading `secs`.
pub fn session_expired_by_reading(session: &AuthSession, secs: Option<u64>) -> (r: bool)
    ensures
        r == expired_by_reading(session.expires_at, secs),
{
    match timestamp_of_reading(secs) {
        Some(now) => session_expired_at(session, now),
        None => true,
    }
}

/// Whether `session` counts as expired now, by the system clock. A session
/// counts as expired when the clock cannot be read.
pub fn session_expired(session: &AuthSession) -> (r: bool)
    ensures
        !r ==> exists|now: i64| 0 <= now <= max_clock() && !expired_at(session.expires_at, now),
        exists|secs: Option<u64>| r == expired_by_reading(session.expires_at, secs),
{
    session_expired_by_reading(session, seconds_since_epoch())
}

/// The lifetime that a reply grants, in seconds: its `expires_in`, or an hour.
pub open spec fn granted_lifetime(resp: AuthResponse) -> int {
    match resp.expires_in {
        Some(e) => e as int,
        None => 3600,
    }
}

/// Whether `resp` has everything a session needs.
pub open spec fn complete_reply(resp: AuthResponse) -> bool {
    resp.access_token is Some && resp.refresh_token is Some && resp.user_id is Some
}

/// The error for a reply that lacks something: the first missing field, in
/// the order access token, refresh token, user id.
pub open spec fn reply_error(resp: AuthResponse) -> Seq<char> {
    if resp.access_token is None {
        "missing access_token"@
    } else if resp.refresh_token is None {
        "missing refresh_token"@
    } else {
        "missing user id"@
    }
}

/// Whether `s` is the session that the complete reply `resp` gives at `now`.
pub open spec fn session_of_reply(resp: AuthResponse, now: i64, s: AuthSession) -> bool {
    &&& s.access_token == resp.access_token->0
    &&& s.refresh_token == resp.refresh_token->0
    &&& s.user_id == resp.user_id->0
    &&& s.expires_at == now + granted_lifetime(resp)
}

/// A session fresh from a reply counts as expired at the moment it is granted
/// exactly when the reply grants it a minute or less.
pub proof fn lemma_fresh_session_expiry(resp: AuthResponse, now: i64, s: AuthSession)
    requires
        session_of_reply(resp, now, s),
    ensures
        expired_at(s.expires_at, now) <==> granted_lifetime(resp) <= 60,
{
}

/// The message for a reply that lacks something.
fn missing_field(resp: &AuthResponse) -> (r: String)
    requires
        !complete_reply(*resp),
    ensures
        r@ == reply_error(*resp),
{
    if resp.access_token.is_none() {
        "missing access_token".to_string()
    } else if resp.refresh_token.is_none() {
        "missing refresh_token".to_string()
    } else {
        "missing user id".to_string()
    }
}

/// The message when the system clock cannot be read.
pub open spec fn clock_error() -> Seq<char> {
    "system clock unavailable"@
}

/// The message when a reply's lifetime does not fit after the current time.
pub open spec fn lifetime_error() -> Seq<char> {
    "expires_in out of range"@
}

/// Whether a reply's lifetime, added to `now`, fits in `i64`.
pub open spec fn lifetime_fits(resp: AuthResponse, now: i64) -> bool {
    i64::MIN <= now + granted_lifetime(resp) <= i64::MAX
}

/// Whether `r` is what an auth reply gives at the time `now`: the session of
/// a complete reply whose lifetime fits; else the error for the first
/// missing field, or the lifetime error.
pub open spec fn reply_outcome(resp: AuthResponse, now: i64, r: Result<AuthSession, String>) -> bool {
    &&& r is Ok <==> complete_reply(resp) && lifetime_fits(resp, now)
    &&& r matches Ok(s) ==> session_of_reply(resp, now, s)
    &&& r matches Err(e) ==> e@ == if complete_reply(resp) {
        lifetime_error()
    } else {
        reply_error(resp)
    }
}

/// The session that an auth reply grants at the time `now`.
pub fn session_from_auth_response_at(resp: &AuthResponse, now: i64) -> (r: Result<AuthSession, String>)
    ensures
        reply_outcome(*resp, now, r),
{
    let (access_token, refresh_token, user_id) = match (
        &resp.access_token,
        &resp.refresh_token,
        &resp.user_id,
    ) {
        (Some(a), Some(f), Some(u)) => (a.clone(), f.clone(), u.clone()),
        _ => return Err(missing_field(resp)),
    };
    let expires_in = match resp.expires_in {
        Some(e) => e,
        None => 3600,
    };
    match now.checked_add(expires_in) {
        Some(expires_at) => Ok(AuthSession { access_token, refresh_token, user_id, expires_at }),
        None => Err("expires_in out of range".to_string()),
    }
}

/// What an auth reply gives by the clock reading `secs`: the error for the
/// first missing field; for a complete reply, the clock error when the reading
/// gives no time, else what the reply gives at the time read.
pub open spec fn reading_outcome(resp: AuthResponse, secs: Option<u64>, r: Result<AuthSession, String>) -> bool {
    if !complete_reply(resp) {
        r matches Err(e) && e@ == reply_error(resp)
    } else {
        match reading_timestamp(secs) {
            Some(now) => reply_outcome(resp, now, r),
            None => r matches Err(e) && e@ == clock_error(),
        }
    }
}

/// A complete reply read at clock reading `s` (within chrono's range) gives a
/// session with its tokens and user that expires at `s` plus the reply's
/// `expires_in`, or an hour after `s` when it has none; it fails only when
/// that sum overflows.
pub proof fn lemma_session_by_reading(resp: AuthResponse, s: u64, r: Result<AuthSession, String>)
    requires
        complete_reply(resp),
        s <= max_clock(),
        reading_outcome(resp, Some(s), r),
    ensures
        r matches Ok(t) ==> t.access_token == resp.access_token->0 && t.refresh_token
            == resp.refresh_token->0 && t.user_id == resp.user_id->0,
        resp.expires_in is None ==> (r matches Ok(t) && t.expires_at == s + 3600),
        resp.expires_in is Some ==> (r is Ok <==> s + resp.expires_in->0 <= i64::MAX),
        resp.expires_in is Some && r is Ok ==> (r matches Ok(t) && t.expires_at == s
            + resp.expires_in->0),
{
}

/// The session that an auth reply grants by the clock reading `secs`.
pub fn session_from_auth_response_by_reading(resp: &AuthResponse, secs: Option<u64>) -> (r: Result<
    AuthSession,
    String,
>)
    ensures
        reading_outcome(*resp, secs, r),
{
    if resp.access_token.is_none() || resp.refresh_token.is_none() || resp.user_id.is_none() {
        return Err(missing_field(resp));
    }
    match timestamp_of_reading(secs) {
        Some(now) => session_from_auth_response_at(resp, now),
        None => Err("system clock unavailable".to_string()),
    }
}

/// The session that an auth reply grants now, by the system clock. A reply
/// that lacks something gives the error for the first missing field without
/// reading the clock; a complete one gives the clock error when the clock
/// cannot be read, and otherwise what the reply gives at the time read.
pub fn session_from_auth_response(resp: &AuthResponse) -> (r: Result<AuthSession, String>)
    ensures
        !complete_reply(*resp) ==> (r matches Err(e) && e@ == reply_error(*resp)),
        complete_reply(*resp) ==> (r matches Err(e) && e@ == clock_error()) || (exists|now: i64|
            0 <= now <= max_clock() && reply_outcome(*resp, now, r)),
        exists|secs: Option<u64>| reading_outcome(*resp, secs, r),
{
    if resp.access_token.is_none() || resp.refresh_token.is_none() || resp.user_id.is_none() {
        let r = Err(missing_field(resp));
        assert(reading_outcome(*resp, None::<u64>, r));
        return r;
    }
    session_from_auth_response_by_reading(resp, seconds_since_epoch())
}

/// The UNIX timestamp that chrono reads from an RFC 3339 date-time, or none
/// when chrono rejects the text.
pub uninterp spec fn rfc3339_timestamp(iso: Seq<char>) -> Option<i64>;

/// Trusted: `chrono::DateTime::parse_from_rfc3339`, then `DateTime::timestamp`
/// on what it parsed. The claim is only that the outcome is a function of the
/// text, named `rfc3339_timestamp`; the RFC 3339 grammar is left to chrono.
#[verifier::external_body]
fn parse_rfc3339(iso: &str) -> (r: Option<i64>)
    ensures
        r == rfc3339_timestamp(iso@),
{
    match chrono::DateTime::parse_from_rfc3339(iso) {
        Ok(d) => Some(d.timestamp()),
        Err(_) => None,
    }
}

/// The expiry time for a parsed date-time: the parsed timestamp, or an hour
/// after `now` when there is none.
pub fn expires_at_or_default(parsed: Option<i64>, now: i64) -> (r: i64)
    requires
        parsed is None ==> now + 3600 <= i64::MAX,
    ensures
        r == match parsed {
            Some(t) => t as int,
            None => now + 3600,
        },
{
    match parsed {
        Some(t) => t,
        None => now + 3600,
    }
}

/// The expiry time written in `iso`, or an hour from now by the system clock
/// when it is no RFC 3339 date-time; absent only when that fallback needs
/// the clock and the clock cannot be read.
pub fn parse_expires_at(iso: &str) -> (r: Option<i64>)
    ensures
        rfc3339_timestamp(iso@) matches Some(t) ==> r == Some(t),
        rfc3339_timestamp(iso@) is None ==> (r matches Some(x) ==> 3600 <= x <= max_clock()
            + 3600),
{
    let parsed = parse_rfc3339(iso);
    if parsed.is_some() {
        return Some(expires_at_or_default(parsed, 0));
    }
    match now_timestamp() {
        Some(now) => Some(expires_at_or_default(parsed, now)),
        None => None,
    }
}

/// The setting under which the session is stored, as JSON.
pub const AUTH_SESSION_KEY: &'static str = "auth_session";

/// The setting under which the signed-in user's email is stored.
pub const USER_EMAIL_KEY: &'static str = "user_email";

/// One write to the settings table.
#[derive(Debug, Clone)]
pub enum SettingsRequest {
    Write { key: String, value: String },
    Delete { key: String },
}

/// The mathematical value of a [`SettingsRequest`].
pub enum SettingsWrite {
    Put(Seq<char>, Seq<char>),
    Remove(Seq<char>),
}

impl View for SettingsRequest {
    type V = SettingsWrite;

    open spec fn view(&self) -> SettingsWrite {
        match self {
            SettingsRequest::Write { key, value } => SettingsWrite::Put(key@, value@),
            SettingsRequest::Delete { key } => SettingsWrite::Remove(key@),
        }
    }
}

/// The values of a sequence of requests.
pub open spec fn writes_of(reqs: Seq<SettingsRequest>) -> Seq<SettingsWrite> {
    reqs.map_values(|q: SettingsRequest| q@)
}

/// The writes that store a session: its JSON, then the user's email.
pub open spec fn save_writes(session_json: Seq<char>, email: Seq<char>) -> Seq<SettingsWrite> {
    seq![
        SettingsWrite::Put(AUTH_SESSION_KEY@, session_json),
        SettingsWrite::Put(USER_EMAIL_KEY@, email),
    ]
}

/// The writes that forget a session: its JSON, then the user's email.
pub open spec fn clear_writes() -> Seq<SettingsWrite> {
    seq![SettingsWrite::Remove(AUTH_SESSION_KEY@), SettingsWrite::Remove(USER_EMAIL_KEY@)]
}

/// The settings writes that store a session, given as its JSON, and the
/// user's email. The caller performs them in order and stops at the first
/// that fails.
pub fn save_session(session_json: &str, email: &str) -> (r: Vec<SettingsRequest>)
    ensures
        writes_of(r@) == save_writes(session_json@, email@),
{
    let mut r: Vec<SettingsRequest> = Vec::new();
    r.push(
        SettingsRequest::Write {
            key: AUTH_SESSION_KEY.to_string(),
            value: session_json.to_string(),
        },
    );
    r.push(SettingsRequest::Write { key: USER_EMAIL_KEY.to_string(), value: email.to_string() });
    assert(writes_of(r@) =~= save_writes(session_json@, email@));
    r
}

/// The settings writes that forget the stored session. The caller performs
/// them in order and stops at the first that fails.
pub fn clear_session() -> (r: Vec<SettingsRequest>)
    ensures
        writes_of(r@) == clear_writes(),
{
    let mut r: Vec<SettingsRequest> = Vec::new();
    r.push(SettingsRequest::Delete { key: AUTH_SESSION_KEY.to_string() });
    r.push(SettingsRequest::Delete { key: USER_EMAIL_KEY.to_string() });
    assert(writes_of(r@) =~= clear_writes());
    r
}

/// The settings table after one write.
pub open spec fn apply_write(table: Map<Seq<char>, Seq<char>>, w: SettingsWrite) -> Map<
    Seq<char>,
    Seq<char>,
> {
    match w {
        SettingsWrite::Put(k, v) => table.insert(k, v),
        SettingsWrite::Remove(k) => table.remove(k),
    }
}

/// The settings table after a sequence of writes, performed in order.
pub open spec fn apply_writes(table: Map<Seq<char>, Seq<char>>, ws: Seq<SettingsWrite>) -> Map<
    Seq<char>,
    Seq<char>,
>
    decreases ws.len(),
{
    if ws.len() == 0 {
        table
    } else {
        apply_write(apply_writes(table, ws.drop_last()), ws.last())
    }
}

proof fn lemma_keys_differ()
    ensures
        AUTH_SESSION_KEY@ != USER_EMAIL_KEY@,
{
    reveal_strlit("auth_session");
    reveal_strlit("user_email");
    assert(AUTH_SESSION_KEY@.len() != USER_EMAIL_KEY@.len());
}

/// After the writes of `save_session`, the session setting holds the
/// session's JSON and the email setting the email; no other setting changes.
pub proof fn lemma_save_then_load(
    table: Map<Seq<char>, Seq<char>>,
    session_json: Seq<char>,
    email: Seq<char>,
)
    ensures
        apply_writes(table, save_writes(session_json, email)).contains_key(AUTH_SESSION_KEY@),
        apply_writes(table, save_writes(session_json, email))[AUTH_SESSION_KEY@] == session_json,
        apply_writes(table, save_writes(session_json, email)).contains_key(USER_EMAIL_KEY@),
        apply_writes(table, save_writes(session_json, email))[USER_EMAIL_KEY@] == email,
        forall|k: Seq<char>|
            k != AUTH_SESSION_KEY@ && k != USER_EMAIL_KEY@ ==> (#[trigger] apply_writes(
                table,
                save_writes(session_json, email),
            ).contains_key(k) <==> table.contains_key(k)) && (table.contains_key(k) ==> apply_writes(
                table,
                save_writes(session_json, email),
            )[k] == table[k]),
{
    lemma_keys_differ();
    let ws = save_writes(session_json, email);
    assert(ws.drop_last().drop_last() == Seq::<SettingsWrite>::empty());
    assert(apply_writes(table, ws.drop_last().drop_last()) == table);
    assert(apply_writes(table, ws.drop_last()) == table.insert(AUTH_SESSION_KEY@, session_json));
    assert(apply_writes(table, ws) == table.insert(AUTH_SESSION_KEY@, session_json).insert(
        USER_EMAIL_KEY@,
        email,
    ));
}

/// After the writes of `clear_session`, neither the session nor the email
/// setting is present; no other setting changes.
pub proof fn lemma_clear_forgets(table: Map<Seq<char>, Seq<char>>)
    ensures
        !apply_writes(table, clear_writes()).contains_key(AUTH_SESSION_KEY@),
        !apply_writes(table, clear_writes()).contains_key(USER_EMAIL_KEY@),
        forall|k: Seq<char>|
            k != AUTH_SESSION_KEY@ && k != USER_EMAIL_KEY@ ==> (#[trigger] apply_writes(
                table,
                clear_writes(),
            ).contains_key(k) <==> table.contains_key(k)) && (table.contains_key(k)
                ==> apply_writes(table, clear_writes())[k] == table[k]),
{
    let ws = clear_writes();
    assert(ws.drop_last().drop_last() == Seq::<SettingsWrite>::empty());
    assert(apply_writes(table, ws.drop_last().drop_last()) == table);
    assert(apply_writes(table, ws.drop_last()) == table.remove(AUTH_SESSION_KEY@));
    assert(apply_writes(table, ws) == table.remove(AUTH_SESSION_KEY@).remove(USER_EMAIL_KEY@));
}

} // verus!
