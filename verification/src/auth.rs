//! Credential bookkeeping: the token store, expiry checks, refresh
//! scheduling and the parts of the OAuth redirect that the client reads.

use vstd::prelude::*;
use vstd::string::*;
use crate::types::opt_view;
use crate::text::{
    decimal, spec_parse_u64, parse_u64, u64_to_decimal, push_char, skip_spaces, skip_word,
    lemma_skip_bounds, skip_run,
};

verus! {

/// Why an authentication step failed.
#[derive(Debug, Clone, PartialEq, Eq)]
pub enum AuthError {
    Keyring(String),
    OAuth(String),
    Other(String),
}

pub enum AuthErrorView {
    Keyring(Seq<char>),
    OAuth(Seq<char>),
    Other(Seq<char>),
}

impl View for AuthError {
    type V = AuthErrorView;

    open spec fn view(&self) -> AuthErrorView {
        match self {
            AuthError::Keyring(m) => AuthErrorView::Keyring(m@),
            AuthError::OAuth(m) => AuthErrorView::OAuth(m@),
            AuthError::Other(m) => AuthErrorView::Other(m@),
        }
    }
}

/// The text of an authentication error, as its `Display` shows it.
pub open spec fn auth_error_text(e: AuthErrorView) -> Seq<char> {
    match e {
        AuthErrorView::Keyring(m) => "Keyring error: "@ + m,
        AuthErrorView::OAuth(m) => "OAuth error: "@ + m,
        AuthErrorView::Other(m) => "Other error: "@ + m,
    }
}

impl AuthError {
    /// The text of the error, as its `Display` shows it.
    pub fn message(&self) -> (r: String)
        ensures
            r@ == auth_error_text(self@),
    {
        let (mut head, m) = match self {
            AuthError::Keyring(m) => (String::from_str("Keyring error: "), m),
            AuthError::OAuth(m) => (String::from_str("OAuth error: "), m),
            AuthError::Other(m) => (String::from_str("Other error: "), m),
        };
        head.append(m.as_str());
        head
    }
}

/// Seconds before expiry at which an access token is refreshed.
pub const REFRESH_MARGIN_SECS: u64 = 300;

/// The environment variable that selects the token file over the keyring.
pub const USE_FILE_STORE_ENV: &'static str = "USE_FILE_STORE";

/// The lifetime of an access token whose response gives none, in seconds.
pub const DEFAULT_TOKEN_LIFETIME_SECS: u64 = 3600;

/// The value stored last under key `k` among `entries`, if any.
pub open spec fn lookup(entries: Seq<(Seq<char>, Seq<char>)>, k: Seq<char>) -> Option<Seq<char>>
    decreases entries.len(),
{
    if entries.len() == 0 {
        None
    } else if entries.last().0 == k {
        Some(entries.last().1)
    } else {
        lookup(entries.drop_last(), k)
    }
}

/// The views of a list of key and value pairs.
pub open spec fn pairs_view(v: Seq<(String, String)>) -> Seq<(Seq<char>, Seq<char>)> {
    v.map_values(|p: (String, String)| (p.0@, p.1@))
}

/// The key and value store that credentials are kept in (the keyring or
/// the token file, as the caller loads and saves it): a map from keys to
/// values.
pub struct TokenStore {
    entries: Vec<(String, String)>,
}

impl View for TokenStore {
    type V = Map<Seq<char>, Seq<char>>;

    closed spec fn view(&self) -> Map<Seq<char>, Seq<char>> {
        Map::new(
            |k: Seq<char>| lookup(pairs_view(self.entries@), k) is Some,
            |k: Seq<char>| lookup(pairs_view(self.entries@), k)->Some_0,
        )
    }
}

/// The value under `k` in the map, if any.
pub open spec fn map_get(m: Map<Seq<char>, Seq<char>>, k: Seq<char>) -> Option<Seq<char>> {
    if m.dom().contains(k) {
        Some(m[k])
    } else {
        None
    }
}

/// The map that a list of pairs gives when each pair is inserted in turn.
pub open spec fn pairs_map(v: Seq<(Seq<char>, Seq<char>)>) -> Map<Seq<char>, Seq<char>>
    decreases v.len(),
{
    if v.len() == 0 {
        Map::empty()
    } else {
        pairs_map(v.drop_last()).insert(v.last().0, v.last().1)
    }
}

proof fn lemma_pairs_map_lookup(v: Seq<(Seq<char>, Seq<char>)>, k: Seq<char>)
    ensures
        map_get(pairs_map(v), k) == lookup(v, k),
    decreases v.len(),
{
    if v.len() > 0 {
        lemma_pairs_map_lookup(v.drop_last(), k);
    }
}

proof fn lemma_map_eq_by_get(a: Map<Seq<char>, Seq<char>>, b: Map<Seq<char>, Seq<char>>)
    requires
        forall|k: Seq<char>| #[trigger] map_get(a, k) == map_get(b, k),
    ensures
        a == b,
{
    assert forall|k: Seq<char>| a.dom().contains(k) <==> b.dom().contains(k) by {
        assert(map_get(a, k) == map_get(b, k));
    }
    assert forall|k: Seq<char>| a.dom().contains(k) implies a[k] == b[k] by {
        assert(map_get(a, k) == map_get(b, k));
    }
    assert(a =~= b);
}

fn clone_pair(p: &(String, String)) -> (r: (String, String))
    ensures
        r.0@ == p.0@,
        r.1@ == p.1@,
{
    (p.0.clone(), p.1.clone())
}

impl TokenStore {
    /// An empty store.
    pub fn new() -> (r: TokenStore)
        ensures
            r@ == Map::<Seq<char>, Seq<char>>::empty(),
    {
        let r = TokenStore { entries: Vec::new() };
        assert(r@ =~= Map::<Seq<char>, Seq<char>>::empty());
        r
    }

    /// A store holding the given pairs, each inserted in turn (so a later
    /// pair wins over an earlier one with the same key).
    pub fn from_entries(entries: Vec<(String, String)>) -> (r: TokenStore)
        ensures
            r@ == pairs_map(pairs_view(entries@)),
    {
        let r = TokenStore { entries };
        proof {
            let m = pairs_map(pairs_view(r.entries@));
            assert forall|k: Seq<char>| #[trigger] map_get(r@, k) == map_get(m, k) by {
                lemma_pairs_map_lookup(pairs_view(r.entries@), k);
            }
            lemma_map_eq_by_get(r@, m);
        }
        r
    }

    /// The stored pairs, one per key.
    pub fn entries(&self) -> (r: Vec<(String, String)>)
        ensures
            pairs_map(pairs_view(r@)) == self@,
    {
        let mut r: Vec<(String, String)> = Vec::new();
        let mut i: usize = 0;
        while i < self.entries.len()
            invariant
                i <= self.entries@.len(),
                pairs_view(r@) == pairs_view(self.entries@).take(i as int),
            decreases self.entries.len() - i,
        {
            let ghost before = pairs_view(r@);
            let p = clone_pair(&self.entries[i]);
            r.push(p);
            proof {
                let e = self.entries@[i as int];
                assert(pairs_view(self.entries@)[i as int] == (e.0@, e.1@));
                assert(pairs_view(r@) =~= before.push((e.0@, e.1@)));
                assert(pairs_view(r@) =~= pairs_view(self.entries@).take(i + 1));
            }
            i = i + 1;
        }
        proof {
            assert(pairs_view(self.entries@).take(i as int) =~= pairs_view(self.entries@));
            let m = pairs_map(pairs_view(r@));
            assert forall|k: Seq<char>| #[trigger] map_get(m, k) == map_get(self@, k) by {
                lemma_pairs_map_lookup(pairs_view(r@), k);
            }
            lemma_map_eq_by_get(m, self@);
        }
        r
    }

    /// The value stored under `key`, if any.
    pub fn get_value(&self, key: &str) -> (r: Option<String>)
        ensures
            opt_view(r) == map_get(self@, key@),
    {
        let k = String::from_str(key);
        let ghost pv = pairs_view(self.entries@);
        let mut i: usize = self.entries.len();
        proof {
            assert(pv.take(i as int) =~= pv);
        }
        while i > 0
            invariant
                i <= self.entries@.len(),
                pv == pairs_view(self.entries@),
                k@ == key@,
                lookup(pv, key@) == lookup(pv.take(i as int), key@),
            decreases i,
        {
            proof {
                let t = pv.take(i as int);
                assert(t.drop_last() =~= pv.take(i - 1));
                assert(t.last() == (self.entries@[i - 1].0@, self.entries@[i - 1].1@));
            }
            if self.entries[i - 1].0.eq(&k) {
                return Some(self.entries[i - 1].1.clone());
            }
            i = i - 1;
        }
        None
    }

    /// Stores `value` under `key`, replacing what was there.
    pub fn store_value(&mut self, key: &str, value: &str)
        ensures
            final(self)@ == old(self)@.insert(key@, value@),
    {
        let k = String::from_str(key);
        let ghost pv = pairs_view(self.entries@);
        let mut kept: Vec<(String, String)> = Vec::new();
        let mut i: usize = 0;
        while i < self.entries.len()
            invariant
                i <= self.entries@.len(),
                pv == pairs_view(self.entries@),
                k@ == key@,
                lookup(pairs_view(kept@), key@) is None,
                forall|q: Seq<char>|
                    q != key@ ==> #[trigger] lookup(pairs_view(kept@), q) == lookup(
                        pv.take(i as int),
                        q,
                    ),
            decreases self.entries.len() - i,
        {
            let ghost before = pairs_view(kept@);
            proof {
                let t = pv.take(i + 1);
                assert(t.drop_last() =~= pv.take(i as int));
                assert(t.last() == (self.entries@[i as int].0@, self.entries@[i as int].1@));
            }
            let ghost e = (self.entries@[i as int].0@, self.entries@[i as int].1@);
            if !self.entries[i].0.eq(&k) {
                let p = clone_pair(&self.entries[i]);
                kept.push(p);
                proof {
                    let nv = pairs_view(kept@);
                    assert(nv.drop_last() =~= before);
                    assert(nv.last() == e);
                    assert forall|q: Seq<char>| q != key@ implies #[trigger] lookup(nv, q) == lookup(
                        pv.take(i + 1),
                        q,
                    ) by {
                        assert(pv.take(i + 1).drop_last() =~= pv.take(i as int));
                        assert(pv.take(i + 1).last() == e);
                        assert(lookup(before, q) == lookup(pv.take(i as int), q));
                    }
                }
            } else {
                proof {
                    assert forall|q: Seq<char>| q != key@ implies #[trigger] lookup(before, q) == lookup(
                        pv.take(i + 1),
                        q,
                    ) by {
                        assert(pv.take(i + 1).drop_last() =~= pv.take(i as int));
                        assert(pv.take(i + 1).last() == e);
                    }
                }
            }
            i = i + 1;
        }
        proof {
            assert(pv.take(i as int) =~= pv);
        }
        let ghost before = pairs_view(kept@);
        kept.push((k, String::from_str(value)));
        self.entries = kept;
        proof {
            let nv = pairs_view(self.entries@);
            assert(nv.drop_last() =~= before);
            assert(nv.last() == (key@, value@));
            let m = old(self)@.insert(key@, value@);
            assert forall|q: Seq<char>| #[trigger] map_get(self@, q) == map_get(m, q) by {
                if q != key@ {
                    assert(lookup(nv, q) == lookup(before, q));
                }
            }
            lemma_map_eq_by_get(self@, m);
        }
    }
}

/// The access token in the store, or the error that there is none.
pub fn get_access_token(store: &TokenStore) -> (r: Result<String, AuthError>)
    ensures
        match map_get(store@, "access_token"@) {
            Some(t) => r is Ok && r->Ok_0@ == t,
            None => r is Err && r->Err_0@ == AuthErrorView::Other("No access token"@),
        },
{
    match store.get_value("access_token") {
        Some(v) => Ok(v),
        None => Err(AuthError::Other(String::from_str("No access token"))),
    }
}

/// The refresh token in the store, if any.
pub fn get_refresh_token(store: &TokenStore) -> (r: Result<Option<String>, AuthError>)
    ensures
        r is Ok,
        opt_view(r->Ok_0) == map_get(store@, "refresh_token"@),
{
    Ok(store.get_value("refresh_token"))
}

/// The expiry a stored text stands for: its value as a `u64`, or zero
/// where it is not one.
pub open spec fn expiry_of(text: Seq<char>) -> u64 {
    match spec_parse_u64(text) {
        Ok(v) => v,
        Err(_) => 0,
    }
}

/// The expiry of the access token in the store (Unix seconds), if one is
/// stored; a stored text that is not a number counts as zero.
pub fn get_access_token_expiry(store: &TokenStore) -> (r: Result<Option<u64>, AuthError>)
    ensures
        r is Ok,
        r->Ok_0 == match map_get(store@, "access_token_expiry"@) {
            Some(t) => Some(expiry_of(t)),
            None => None::<u64>,
        },
{
    match store.get_value("access_token_expiry") {
        Some(v) => {
            let e = match parse_u64(v.as_str()) {
                Ok(n) => n,
                Err(_) => 0,
            };
            Ok(Some(e))
        },
        None => Ok(None),
    }
}

/// The scheduled refresh of the access token, if one is pending: the Unix
/// second at which it runs.
pub struct RefreshTimer {
    due: Option<u64>,
}

impl View for RefreshTimer {
    type V = Option<u64>;

    closed spec fn view(&self) -> Option<u64> {
        self.due
    }
}

impl RefreshTimer {
    /// No refresh pending.
    pub fn new() -> (r: RefreshTimer)
        ensures
            r@ is None,
    {
        RefreshTimer { due: None }
    }
}

/// Cancels the pending refresh, if any, and returns when it was due (the
/// caller stops the task that runs it).
pub fn cancel_scheduled_refresh(timer: &mut RefreshTimer) -> (r: Option<u64>)
    ensures
        r == old(timer)@,
        final(timer)@ is None,
{
    let r = timer.due;
    timer.due = None;
    r
}

/// `a - b`, or zero where `b` is larger.
pub open spec fn sat_sub(a: u64, b: u64) -> u64 {
    if a >= b {
        (a - b) as u64
    } else {
        0
    }
}

/// Replaces the pending refresh by one due `REFRESH_MARGIN_SECS` before
/// `expiry`. Returns when the replaced one was due, if any, and the seconds
/// to wait from `now` (zero where that time has passed).
pub fn schedule_token_refresh(timer: &mut RefreshTimer, expiry: u64, now: u64) -> (r: (
    Option<u64>,
    u64,
))
    ensures
        r.0 == old(timer)@,
        final(timer)@ == Some(sat_sub(expiry, REFRESH_MARGIN_SECS)),
        r.1 == sat_sub(sat_sub(expiry, REFRESH_MARGIN_SECS), now),
{
    let cancelled = cancel_scheduled_refresh(timer);
    let when = expiry.saturating_sub(REFRESH_MARGIN_SECS);
    timer.due = Some(when);
    (cancelled, when.saturating_sub(now))
}

/// Whether a token expiring at `expiry` must be refreshed at `now`: it has
/// expired or expires within the margin.
pub open spec fn needs_refresh(expiry: u64, now: u64) -> bool {
    expiry <= now + REFRESH_MARGIN_SECS
}

/// What the validity check of the stored access token decided.
#[derive(Debug, Clone, Copy, PartialEq, Eq, Structural)]
pub enum TokenCheck {
    /// Refresh the token now; `expiry` is the stored one (zero if none).
    Refresh { expiry: u64 },
    /// The stored token is still valid until `expiry`.
    Valid { expiry: u64 },
}

/// Checks the stored access token at `now`: it must be refreshed when its
/// stored expiry (zero if none) has passed or falls within the margin.
pub fn check_access_token(store: &TokenStore, now: u64) -> (r: Result<TokenCheck, AuthError>)
    requires
        now + REFRESH_MARGIN_SECS <= u64::MAX,
    ensures
        r is Ok,
        ({
            let expiry = match map_get(store@, "access_token_expiry"@) {
                Some(t) => expiry_of(t),
                None => 0,
            };
            r->Ok_0 == if needs_refresh(expiry, now) {
                TokenCheck::Refresh { expiry }
            } else {
                TokenCheck::Valid { expiry }
            }
        }),
{
    let expiry = match get_access_token_expiry(store) {
        Ok(Some(e)) => e,
        Ok(None) => 0,
        Err(e) => {
            return Err(e);
        },
    };
    if expiry <= now + REFRESH_MARGIN_SECS {
        Ok(TokenCheck::Refresh { expiry })
    } else {
        Ok(TokenCheck::Valid { expiry })
    }
}

/// The expiry to schedule after a refresh: the newly stored one, or
/// `previous` where none is stored.
pub fn expiry_after_refresh(store: &TokenStore, previous: u64) -> (r: Result<u64, AuthError>)
    ensures
        r is Ok,
        r->Ok_0 == match map_get(store@, "access_token_expiry"@) {
            Some(t) => expiry_of(t),
            None => previous,
        },
{
    match get_access_token_expiry(store) {
        Ok(Some(e)) => Ok(e),
        Ok(None) => Ok(previous),
        Err(e) => Err(e),
    }
}

/// The store after recording a token response at `now`: the access token,
/// its expiry (`now` plus its lifetime, an hour where none is given) as
/// decimal text, and the refresh token where one came.
pub open spec fn with_tokens(
    m: Map<Seq<char>, Seq<char>>,
    access: Seq<char>,
    refresh: Option<Seq<char>>,
    expiry: u64,
) -> Map<Seq<char>, Seq<char>> {
    let base = m.insert("access_token"@, access).insert(
        "access_token_expiry"@,
        decimal(expiry as nat),
    );
    match refresh {
        Some(r) => base.insert("refresh_token"@, r),
        None => base,
    }
}

/// The expiry of a token received at `now` with the given lifetime.
pub open spec fn expiry_from(now: u64, expires_in: Option<u64>) -> int {
    now + match expires_in {
        Some(s) => s,
        None => DEFAULT_TOKEN_LIFETIME_SECS,
    }
}

/// Records a token response received at `now` and returns the expiry it
/// gives: the access token, its expiry, and the refresh token if any.
pub fn record_tokens(
    store: &mut TokenStore,
    access_token: &str,
    refresh_token: Option<String>,
    expires_in: Option<u64>,
    now: u64,
) -> (r: u64)
    requires
        expiry_from(now, expires_in) <= u64::MAX,
    ensures
        r == expiry_from(now, expires_in),
        final(store)@ == with_tokens(old(store)@, access_token@, opt_view(refresh_token), r),
{
    let lifetime = match expires_in {
        Some(s) => s,
        None => DEFAULT_TOKEN_LIFETIME_SECS,
    };
    let expiry = now + lifetime;
    store.store_value("access_token", access_token);
    let text = u64_to_decimal(expiry);
    store.store_value("access_token_expiry", text.as_str());
    match refresh_token {
        Some(t) => store.store_value("refresh_token", t.as_str()),
        None => {},
    }
    expiry
}

/// Completes a scheduled refresh that has run: records the token response
/// received at `now` into the store the refresh was scheduled for, clears
/// the pending refresh, and returns the new expiry.
pub fn complete_scheduled_refresh(
    store: &mut TokenStore,
    timer: &mut RefreshTimer,
    access_token: &str,
    refresh_token: Option<String>,
    expires_in: Option<u64>,
    now: u64,
) -> (r: u64)
    requires
        expiry_from(now, expires_in) <= u64::MAX,
    ensures
        r == expiry_from(now, expires_in),
        final(store)@ == with_tokens(old(store)@, access_token@, opt_view(refresh_token), r),
        final(timer)@ is None,
{
    let _ = cancel_scheduled_refresh(timer);
    record_tokens(store, access_token, refresh_token, expires_in, now)
}

/// The address the OAuth flow redirects the browser to.
pub fn redirect_uri(port: u16) -> (r: String)
    ensures
        r@ == "http://127.0.0.1:"@ + decimal(port as nat),
{
    let mut s = String::from_str("http://127.0.0.1:");
    let d = u64_to_decimal(port as u64);
    s.append(d.as_str());
    s
}

/// The second of the white-space separated fields of `s`, if there is one
/// (`split_whitespace().nth(1)`).
pub open spec fn second_field(s: Seq<char>) -> Option<Seq<char>> {
    let a = skip_spaces(s, 0);
    let b = skip_word(s, a);
    let c = skip_spaces(s, b);
    if c >= s.len() {
        None
    } else {
        Some(s.subrange(c, skip_word(s, c)))
    }
}

/// The second white-space separated field of a request line: the target
/// that the browser asked for.
pub fn request_target(line: &str) -> (r: Option<String>)
    ensures
        opt_view(r) == second_field(line@),
{
    let len = line.unicode_len();
    proof {
        lemma_skip_bounds(line@, 0);
        lemma_skip_bounds(line@, skip_spaces(line@, 0));
        lemma_skip_bounds(line@, skip_word(line@, skip_spaces(line@, 0)));
    }
    let a = skip_run(line, len, 0, true);
    let b = skip_run(line, len, a, false);
    let c = skip_run(line, len, b, true);
    if c >= len {
        return None;
    }
    proof {
        lemma_skip_bounds(line@, c as int);
    }
    let d = skip_run(line, len, c, false);
    let mut out = String::new();
    let mut i = c;
    while i < d
        invariant
            c <= i <= d <= len,
            len == line@.len(),
            out@ == line@.subrange(c as int, i as int),
        decreases d - i,
    {
        let ch = line.get_char(i);
        push_char(&mut out, ch);
        proof {
            assert(out@ =~= line@.subrange(c as int, i + 1));
        }
        i = i + 1;
    }
    Some(out)
}

/// What `Url::parse` followed by `query_pairs()` gives for a text: the
/// decoded query pairs in order, or the text of the parse error.
pub uninterp spec fn url_query_pairs(text: Seq<char>) -> Result<Seq<(Seq<char>, Seq<char>)>, Seq<char>>;

/// Parses a URL and decodes its query (`Url::parse`, `query_pairs`).
/// Claims only that the result is the named one.
#[verifier::external_body]
fn parse_query_pairs(text: &str) -> (r: Result<Vec<(String, String)>, String>)
    ensures
        match r {
            Ok(v) => url_query_pairs(text@) is Ok && url_query_pairs(text@)->Ok_0 == pairs_view(v@),
            Err(m) => url_query_pairs(text@) is Err && url_query_pairs(text@)->Err_0 == m@,
        },
{
    match url::Url::parse(text) {
        Ok(u) => Ok(u.query_pairs().map(|(k, v)| (k.into_owned(), v.into_owned())).collect()),
        Err(e) => Err(e.to_string()),
    }
}

/// The value of the first pair with key `k`, if any.
pub open spec fn first_value(pairs: Seq<(Seq<char>, Seq<char>)>, k: Seq<char>) -> Option<Seq<char>>
    decreases pairs.len(),
{
    if pairs.len() == 0 {
        None
    } else if pairs[0].0 == k {
        Some(pairs[0].1)
    } else {
        first_value(pairs.drop_first(), k)
    }
}

/// The authorization code that a decoded redirect query gives: the value of
/// its first `code` pair; an unparsable URL or a missing code is an error.
pub open spec fn code_outcome(parsed: Result<Seq<(Seq<char>, Seq<char>)>, Seq<char>>) -> Result<
    Seq<char>,
    AuthErrorView,
> {
    match parsed {
        Err(m) => Err(AuthErrorView::Other(m)),
        Ok(pairs) => match first_value(pairs, "code"@) {
            Some(c) => Ok(c),
            None => Err(AuthErrorView::Other("No authorization code found in redirect URL"@)),
        },
    }
}

/// The view of a result with a string or an authentication error.
pub open spec fn code_result_view(r: Result<String, AuthError>) -> Result<Seq<char>, AuthErrorView> {
    match r {
        Ok(c) => Ok(c@),
        Err(e) => Err(e@),
    }
}

/// The view of a parsed query.
pub open spec fn parsed_view(p: Result<Vec<(String, String)>, String>) -> Result<
    Seq<(Seq<char>, Seq<char>)>,
    Seq<char>,
> {
    match p {
        Ok(v) => Ok(pairs_view(v@)),
        Err(m) => Err(m@),
    }
}

/// Picks the authorization code out of a parsed redirect URL.
pub fn code_from_query(parsed: Result<Vec<(String, String)>, String>) -> (r: Result<String, AuthError>)
    ensures
        code_result_view(r) == code_outcome(parsed_view(parsed)),
{
    match parsed {
        Err(m) => Err(AuthError::Other(m)),
        Ok(pairs) => {
            let ghost pv = pairs_view(pairs@);
            let mut i: usize = 0;
            assert(pv.skip(0) =~= pv);
            while i < pairs.len()
                invariant
                    i <= pairs@.len(),
                    pv == pairs_view(pairs@),
                    parsed_view(parsed) is Ok && parsed_view(parsed)->Ok_0 == pv,
                    first_value(pv, "code"@) == first_value(pv.skip(i as int), "code"@),
                decreases pairs.len() - i,
            {
                proof {
                    assert(pv.skip(i as int).drop_first() =~= pv.skip(i + 1));
                    assert(pv.skip(i as int)[0] == (pairs@[i as int].0@, pairs@[i as int].1@));
                }
                let key = String::from_str("code");
                if pairs[i].0.eq(&key) {
                    let v = pairs[i].1.clone();
                    assert(first_value(pv, "code"@) == Some(v@));
                    return Ok(v);
                }
                i = i + 1;
            }
            Err(AuthError::Other(String::from_str("No authorization code found in redirect URL")))
        },
    }
}

/// The authorization code of the redirect that the browser's request line
/// carries: the request target appended to the redirect address, parsed as
/// a URL, and its first `code` query value.
pub fn authorization_code(request_line: &str, redirect: &str) -> (r: Result<String, AuthError>)
    ensures
        code_result_view(r) == match second_field(request_line@) {
            None => Err(AuthErrorView::Other("No redirect URL found"@)),
            Some(t) => code_outcome(url_query_pairs(redirect@ + t)),
        },
{
    let target = match request_target(request_line) {
        Some(t) => t,
        None => {
            return Err(AuthError::Other(String::from_str("No redirect URL found")));
        },
    };
    let mut url = String::from_str(redirect);
    url.append(target.as_str());
    let parsed = parse_query_pairs(url.as_str());
    proof {
        assert(parsed_view(parsed) == url_query_pairs(url@));
    }
    code_from_query(parsed)
}

} // verus!
