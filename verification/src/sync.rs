//! Synchronisation decisions: what a sync run records and reports page by
//! page, and the retry policies of the periodic sync and of the token
//! refresh task. The caller performs the network calls, the waits and the
//! sending of reports; these functions say what to do with each outcome.

use vstd::prelude::*;
use vstd::string::*;
use crate::auth::{AuthError, AuthErrorView, auth_error_text};
use crate::text::{decimal, u64_to_decimal};
use crate::types::{opt_view, clone_opt, MediaItem, MediaItemView, items_view};
use crate::api::ApiClient;
use crate::cache::{CacheManager, CacheView, CacheErrorView, cache_error_text, wf, after_insert};
use crate::datetime::{
    rfc3339_min_ts, rfc3339_max_ts, rfc3339_parse, rfc3339_render, render_rfc3339, utc_display,
    display_utc, utc_date, utc_calendar_date, four_digit_year_ts, parses_to,
};

verus! {

/// Why a synchronisation run failed.
#[derive(Debug, Clone, PartialEq, Eq)]
pub enum SyncError {
    AuthenticationError(String),
    ApiClientError(String),
    CacheError(String),
    Other(String),
}

pub enum SyncErrorView {
    AuthenticationError(Seq<char>),
    ApiClientError(Seq<char>),
    CacheError(Seq<char>),
    Other(Seq<char>),
}

impl View for SyncError {
    type V = SyncErrorView;

    open spec fn view(&self) -> SyncErrorView {
        match self {
            SyncError::AuthenticationError(m) => SyncErrorView::AuthenticationError(m@),
            SyncError::ApiClientError(m) => SyncErrorView::ApiClientError(m@),
            SyncError::CacheError(m) => SyncErrorView::CacheError(m@),
            SyncError::Other(m) => SyncErrorView::Other(m@),
        }
    }
}

/// The text of a sync error, as its `Display` shows it.
pub open spec fn sync_error_text(e: SyncErrorView) -> Seq<char> {
    match e {
        SyncErrorView::AuthenticationError(m) => "Authentication Error: "@ + m,
        SyncErrorView::ApiClientError(m) => "API Client Error: "@ + m,
        SyncErrorView::CacheError(m) => "Cache Error: "@ + m,
        SyncErrorView::Other(m) => "Other Error: "@ + m,
    }
}

impl SyncError {
    /// The text of the error, as its `Display` shows it.
    pub fn message(&self) -> (r: String)
        ensures
            r@ == sync_error_text(self@),
    {
        let (mut head, m) = match self {
            SyncError::AuthenticationError(m) => (String::from_str("Authentication Error: "), m),
            SyncError::ApiClientError(m) => (String::from_str("API Client Error: "), m),
            SyncError::CacheError(m) => (String::from_str("Cache Error: "), m),
            SyncError::Other(m) => (String::from_str("Other Error: "), m),
        };
        head.append(m.as_str());
        head
    }
}

/// The kind of failure a report is about.
#[derive(Debug, Clone, Copy, PartialEq, Eq, Structural)]
pub enum SyncErrorCode {
    Auth,
    Network,
    Cache,
    Other,
}

/// The name of a code, as its `Debug` shows it.
pub open spec fn code_text(c: SyncErrorCode) -> Seq<char> {
    match c {
        SyncErrorCode::Auth => "Auth"@,
        SyncErrorCode::Network => "Network"@,
        SyncErrorCode::Cache => "Cache"@,
        SyncErrorCode::Other => "Other"@,
    }
}

fn code_name(c: SyncErrorCode) -> (r: String)
    ensures
        r@ == code_text(c),
{
    match c {
        SyncErrorCode::Auth => String::from_str("Auth"),
        SyncErrorCode::Network => String::from_str("Network"),
        SyncErrorCode::Cache => String::from_str("Cache"),
        SyncErrorCode::Other => String::from_str("Other"),
    }
}

/// The code under which a failed periodic sync is reported.
pub open spec fn code_of(e: SyncErrorView) -> SyncErrorCode {
    match e {
        SyncErrorView::AuthenticationError(_) => SyncErrorCode::Auth,
        SyncErrorView::ApiClientError(_) => SyncErrorCode::Network,
        SyncErrorView::CacheError(_) => SyncErrorCode::Cache,
        SyncErrorView::Other(_) => SyncErrorCode::Other,
    }
}

/// The code under which a failed periodic sync is reported: authentication
/// failures as `Auth`, API failures as `Network`, cache failures as
/// `Cache`, the rest as `Other`.
pub fn error_code(e: &SyncError) -> (c: SyncErrorCode)
    ensures
        c == code_of(e@),
{
    match e {
        SyncError::AuthenticationError(_) => SyncErrorCode::Auth,
        SyncError::ApiClientError(_) => SyncErrorCode::Network,
        SyncError::CacheError(_) => SyncErrorCode::Cache,
        SyncError::Other(_) => SyncErrorCode::Other,
    }
}

/// Progress of a synchronisation, as reported to listeners.
#[derive(Debug, Clone, Copy, PartialEq, Eq, Structural)]
pub enum SyncProgress {
    Started,
    ItemSynced(u64),
    Retrying(u64),
    Finished(u64),
}

/// A report of the background tasks: failures, restarts and status
/// updates. Times are Unix seconds.
#[derive(Debug, Clone, PartialEq, Eq)]
pub enum SyncTaskError {
    PeriodicSyncFailed { code: SyncErrorCode, message: String },
    TokenRefreshFailed { code: SyncErrorCode, message: String },
    Aborted(String),
    RestartAttempt(u32),
    Other { code: SyncErrorCode, message: String },
    Status { last_synced: i64, message: String },
}

pub enum SyncTaskErrorView {
    PeriodicSyncFailed { code: SyncErrorCode, message: Seq<char> },
    TokenRefreshFailed { code: SyncErrorCode, message: Seq<char> },
    Aborted(Seq<char>),
    RestartAttempt(u32),
    Other { code: SyncErrorCode, message: Seq<char> },
    Status { last_synced: i64, message: Seq<char> },
}

impl View for SyncTaskError {
    type V = SyncTaskErrorView;

    open spec fn view(&self) -> SyncTaskErrorView {
        match self {
            SyncTaskError::PeriodicSyncFailed { code, message } => SyncTaskErrorView::PeriodicSyncFailed {
                code: *code,
                message: message@,
            },
            SyncTaskError::TokenRefreshFailed { code, message } => SyncTaskErrorView::TokenRefreshFailed {
                code: *code,
                message: message@,
            },
            SyncTaskError::Aborted(m) => SyncTaskErrorView::Aborted(m@),
            SyncTaskError::RestartAttempt(n) => SyncTaskErrorView::RestartAttempt(*n),
            SyncTaskError::Other { code, message } => SyncTaskErrorView::Other {
                code: *code,
                message: message@,
            },
            SyncTaskError::Status { last_synced, message } => SyncTaskErrorView::Status {
                last_synced: *last_synced,
                message: message@,
            },
        }
    }
}

/// Whether the times in a report are ones that can be shown as dates.
pub open spec fn report_times_ok(e: SyncTaskErrorView) -> bool {
    match e {
        SyncTaskErrorView::Status { last_synced, .. } => rfc3339_min_ts() <= last_synced
            <= rfc3339_max_ts(),
        _ => true,
    }
}

/// The text of a report, as its `Display` shows it.
pub open spec fn task_error_text(e: SyncTaskErrorView) -> Seq<char> {
    match e {
        SyncTaskErrorView::PeriodicSyncFailed { code, message } => "Periodic sync failed ["@
            + code_text(code) + "]: "@ + message,
        SyncTaskErrorView::TokenRefreshFailed { code, message } => "Token refresh failed ["@
            + code_text(code) + "]: "@ + message,
        SyncTaskErrorView::Aborted(m) => "Task aborted: "@ + m,
        SyncTaskErrorView::RestartAttempt(n) => "Restart attempt "@ + decimal(n as nat),
        SyncTaskErrorView::Other { code, message } => code_text(code) + ": "@ + message,
        SyncTaskErrorView::Status { last_synced, message } => "Status update ("@ + utc_display(
            last_synced,
        ) + "): "@ + message,
    }
}

impl SyncTaskError {
    /// The text of the report, as its `Display` shows it.
    pub fn message(&self) -> (r: String)
        requires
            report_times_ok(self@),
        ensures
            r@ == task_error_text(self@),
    {
        match self {
            SyncTaskError::PeriodicSyncFailed { code, message } => {
                let mut s = String::from_str("Periodic sync failed [");
                let c = code_name(*code);
                s.append(c.as_str());
                s.append("]: ");
                s.append(message.as_str());
                s
            },
            SyncTaskError::TokenRefreshFailed { code, message } => {
                let mut s = String::from_str("Token refresh failed [");
                let c = code_name(*code);
                s.append(c.as_str());
                s.append("]: ");
                s.append(message.as_str());
                s
            },
            SyncTaskError::Aborted(m) => {
                let mut s = String::from_str("Task aborted: ");
                s.append(m.as_str());
                s
            },
            SyncTaskError::RestartAttempt(n) => {
                let mut s = String::from_str("Restart attempt ");
                let d = u64_to_decimal(*n as u64);
                s.append(d.as_str());
                s
            },
            SyncTaskError::Other { code, message } => {
                let mut s = code_name(*code);
                s.append(": ");
                s.append(message.as_str());
                s
            },
            SyncTaskError::Status { last_synced, message } => {
                let mut s = String::from_str("Status update (");
                let t = display_utc(*last_synced);
                s.append(t.as_str());
                s.append("): ");
                s.append(message.as_str());
                s
            },
        }
    }
}

/// The record a sync run keeps between runs: where the listing stopped,
/// how many items were synced, and when a run last completed.
#[derive(Debug, Clone, PartialEq, Eq)]
pub struct SyncState {
    pub page_token: Option<String>,
    pub total_synced: u64,
    pub last_success: Option<i64>,
}

pub struct SyncStateView {
    pub page_token: Option<Seq<char>>,
    pub total_synced: u64,
    pub last_success: Option<i64>,
}

impl View for SyncState {
    type V = SyncStateView;

    open spec fn view(&self) -> SyncStateView {
        SyncStateView {
            page_token: opt_view(self.page_token),
            total_synced: self.total_synced,
            last_success: self.last_success,
        }
    }
}

impl SyncState {
    /// The record of a client that never synced.
    pub fn new() -> (r: SyncState)
        ensures
            r@ == (SyncStateView { page_token: None, total_synced: 0, last_success: None }),
    {
        SyncState { page_token: None, total_synced: 0, last_success: None }
    }
}

/// The reports one decision produces, by channel: progress updates, task
/// reports for the error listeners, and reports for the status listener.
/// Each list is in the order in which it is sent.
#[derive(Debug)]
pub struct Notices {
    pub progress: Vec<SyncProgress>,
    pub errors: Vec<SyncTaskError>,
    pub status: Vec<SyncTaskError>,
}

pub struct NoticesView {
    pub progress: Seq<SyncProgress>,
    pub errors: Seq<SyncTaskErrorView>,
    pub status: Seq<SyncTaskErrorView>,
}

/// The views of a list of reports.
pub open spec fn reports_view(v: Seq<SyncTaskError>) -> Seq<SyncTaskErrorView> {
    v.map_values(|e: SyncTaskError| e@)
}

impl View for Notices {
    type V = NoticesView;

    open spec fn view(&self) -> NoticesView {
        NoticesView {
            progress: self.progress@,
            errors: reports_view(self.errors@),
            status: reports_view(self.status@),
        }
    }
}

fn push_report(v: &mut Vec<SyncTaskError>, e: SyncTaskError)
    ensures
        reports_view(final(v)@) == reports_view(old(v)@).push(e@),
{
    let ghost x = e@;
    v.push(e);
    assert(reports_view(v@) =~= reports_view(old(v)@).push(x));
}

fn no_notices() -> (n: Notices)
    ensures
        n@.progress.len() == 0,
        n@.errors.len() == 0,
        n@.status.len() == 0,
{
    let n = Notices { progress: Vec::new(), errors: Vec::new(), status: Vec::new() };
    assert(n@.errors =~= Seq::<SyncTaskErrorView>::empty());
    assert(n@.status =~= Seq::<SyncTaskErrorView>::empty());
    n
}

impl Notices {
    /// The reports of a sync run made by the periodic sync: its progress
    /// updates only, since the periodic sync reports the run's outcome
    /// itself.
    pub fn progress_only(self) -> (r: Notices)
        ensures
            r@.progress == self@.progress,
            r@.errors.len() == 0,
            r@.status.len() == 0,
    {
        let mut r = no_notices();
        r.progress = self.progress;
        r
    }
}

/// A step of a sync run that can fail.
#[derive(Debug, Clone, Copy, PartialEq, Eq, Structural)]
pub enum SyncStage {
    LoadState,
    ReadLastSync,
    RefreshToken,
    ListPage,
    StoreItem,
    SaveState,
    RecordLastSync,
}

/// What a failure of a stage is prefixed with in its report.
pub open spec fn stage_prefix(s: SyncStage) -> Seq<char> {
    match s {
        SyncStage::LoadState => "Failed to load state: "@,
        SyncStage::ReadLastSync => "Failed to get last sync time: "@,
        SyncStage::RefreshToken => "Failed to refresh token: "@,
        SyncStage::ListPage => "Failed to list media items from API: "@,
        SyncStage::StoreItem => "Failed to insert media item into cache: "@,
        SyncStage::SaveState => ""@,
        SyncStage::RecordLastSync => "Failed to update last sync: "@,
    }
}

/// The code under which a failure of a stage is reported.
pub open spec fn stage_code(s: SyncStage) -> SyncErrorCode {
    match s {
        SyncStage::LoadState => SyncErrorCode::Other,
        SyncStage::ReadLastSync => SyncErrorCode::Cache,
        SyncStage::RefreshToken => SyncErrorCode::Auth,
        SyncStage::ListPage => SyncErrorCode::Network,
        SyncStage::StoreItem => SyncErrorCode::Cache,
        SyncStage::SaveState => SyncErrorCode::Other,
        SyncStage::RecordLastSync => SyncErrorCode::Cache,
    }
}

/// The error a run ends with when a stage fails with the given detail.
pub open spec fn stage_error(s: SyncStage, detail: Seq<char>) -> SyncErrorView {
    let m = stage_prefix(s) + detail;
    match s {
        SyncStage::LoadState => SyncErrorView::Other(m),
        SyncStage::ReadLastSync => SyncErrorView::CacheError(m),
        SyncStage::RefreshToken => SyncErrorView::AuthenticationError(m),
        SyncStage::ListPage => SyncErrorView::ApiClientError(m),
        SyncStage::StoreItem => SyncErrorView::CacheError(m),
        SyncStage::SaveState => SyncErrorView::Other(m),
        SyncStage::RecordLastSync => SyncErrorView::CacheError(m),
    }
}

/// The report sent when a stage fails with the given detail.
pub open spec fn stage_report(s: SyncStage, detail: Seq<char>) -> SyncTaskErrorView {
    SyncTaskErrorView::Other { code: stage_code(s), message: stage_prefix(s) + detail }
}

/// The error and the report for a failed stage; `detail` is the text of
/// the underlying error.
pub fn failure(stage: SyncStage, detail: &str) -> (r: (SyncError, SyncTaskError))
    ensures
        r.0@ == stage_error(stage, detail@),
        r.1@ == stage_report(stage, detail@),
{
    let mut m = match stage {
        SyncStage::LoadState => String::from_str("Failed to load state: "),
        SyncStage::ReadLastSync => String::from_str("Failed to get last sync time: "),
        SyncStage::RefreshToken => String::from_str("Failed to refresh token: "),
        SyncStage::ListPage => String::from_str("Failed to list media items from API: "),
        SyncStage::StoreItem => String::from_str("Failed to insert media item into cache: "),
        SyncStage::SaveState => String::new(),
        SyncStage::RecordLastSync => String::from_str("Failed to update last sync: "),
    };
    proof {
        if stage == SyncStage::SaveState {
            assert(""@ =~= Seq::<char>::empty()) by {
                reveal_strlit("");
            }
        }
    }
    m.append(detail);
    let code = match stage {
        SyncStage::LoadState => SyncErrorCode::Other,
        SyncStage::ReadLastSync => SyncErrorCode::Cache,
        SyncStage::RefreshToken => SyncErrorCode::Auth,
        SyncStage::ListPage => SyncErrorCode::Network,
        SyncStage::StoreItem => SyncErrorCode::Cache,
        SyncStage::SaveState => SyncErrorCode::Other,
        SyncStage::RecordLastSync => SyncErrorCode::Cache,
    };
    let report = SyncTaskError::Other { code, message: m.clone() };
    let err = match stage {
        SyncStage::LoadState => SyncError::Other(m),
        SyncStage::ReadLastSync => SyncError::CacheError(m),
        SyncStage::RefreshToken => SyncError::AuthenticationError(m),
        SyncStage::ListPage => SyncError::ApiClientError(m),
        SyncStage::StoreItem => SyncError::CacheError(m),
        SyncStage::SaveState => SyncError::Other(m),
        SyncStage::RecordLastSync => SyncError::CacheError(m),
    };
    (err, report)
}

/// The number of media items a listing page asks for.
pub const SYNC_PAGE_SIZE: i32 = 100;

/// The pause between two listing pages, in milliseconds.
pub const PAGE_PAUSE_MILLIS: u64 = 500;

/// How a sync run goes on after a page was recorded.
#[derive(Debug, Clone, Copy, PartialEq, Eq, Structural)]
pub enum PageOutcome {
    /// The page was empty: the listing is over and nothing was recorded.
    Exhausted,
    /// The page was recorded and another one follows: save the state, pause
    /// and fetch the next page.
    More,
    /// The page was recorded and was the last one: save the state and
    /// finish.
    Last,
}

/// A synchronisation run in progress: the record it keeps and the date
/// from which media items are listed.
pub struct SyncRun {
    state: SyncState,
    date_filter: (i32, u32, u32),
}

pub struct SyncRunView {
    pub state: SyncStateView,
    pub date_filter: (i32, u32, u32),
}

impl View for SyncRun {
    type V = SyncRunView;

    closed spec fn view(&self) -> SyncRunView {
        SyncRunView { state: self.state@, date_filter: self.date_filter }
    }
}

/// The status report that opens a run.
pub open spec fn started_report(now: i64) -> SyncTaskErrorView {
    SyncTaskErrorView::Status { last_synced: now, message: "Sync started"@ }
}

/// The time of the last completed sync that the cache records, or the
/// epoch where its record cannot be read.
pub open spec fn last_sync_or_epoch(v: CacheView) -> i64 {
    match rfc3339_parse(v.last_sync) {
        Ok(t) => t,
        Err(_) => 0,
    }
}

/// The reports about reading the time of the last sync: none, or the
/// failure to read it.
pub open spec fn last_sync_reports(v: CacheView) -> Seq<SyncTaskErrorView> {
    match rfc3339_parse(v.last_sync) {
        Ok(_) => Seq::empty(),
        Err(m) => seq![
            stage_report(
                SyncStage::ReadLastSync,
                cache_error_text(CacheErrorView::DeserializationError(m)),
            ),
        ],
    }
}

/// The cache after storing the items of a page one after the other, how
/// many were stored, and the error of the first refused item if any: the
/// run stops there and keeps the items before it.
pub open spec fn page_store(v: CacheView, items: Seq<MediaItemView>) -> (CacheView, nat, Option<
    CacheErrorView,
>)
    decreases items.len(),
{
    if items.len() == 0 {
        (v, 0, None)
    } else {
        let (w, k, e) = page_store(v, items.drop_last());
        if e is Some {
            (w, k, e)
        } else {
            match after_insert(w, items.last()) {
                Ok(x) => (x, k + 1, None),
                Err(err) => (w, k, Some(err)),
            }
        }
    }
}

/// The progress reports for `k` items synced after `t0` earlier ones.
pub open spec fn synced_reports(t0: nat, k: nat) -> Seq<SyncProgress> {
    Seq::new(k, |i: int| SyncProgress::ItemSynced((t0 + i + 1) as u64))
}

/// The status report sent when the running total reaches `t`.
pub open spec fn milestone_report(t: nat, now: i64) -> SyncTaskErrorView {
    SyncTaskErrorView::Status {
        last_synced: now,
        message: "Synced "@ + decimal(t) + " items"@,
    }
}

/// The status reports for `k` items synced after `t0` earlier ones: one
/// each time the running total reaches a multiple of fifty.
pub open spec fn milestone_reports(t0: nat, k: nat, now: i64) -> Seq<SyncTaskErrorView>
    decreases k,
{
    if k == 0 {
        Seq::empty()
    } else {
        let before = milestone_reports(t0, (k - 1) as nat, now);
        if (t0 + k) % 50 == 0 {
            before.push(milestone_report(t0 + k, now))
        } else {
            before
        }
    }
}

/// The record of a run after a page of `k` items was stored, the page
/// being followed by the token `next`.
pub open spec fn page_record(s: SyncStateView, k: nat, next: Option<Seq<char>>) -> SyncStateView {
    SyncStateView {
        page_token: next,
        total_synced: (s.total_synced + k) as u64,
        last_success: s.last_success,
    }
}

/// The record of a run that completed at `now`.
pub open spec fn finish_record(s: SyncStateView, now: i64) -> SyncStateView {
    SyncStateView { page_token: None, total_synced: s.total_synced, last_success: Some(now) }
}

/// The report that closes a completed run.
pub open spec fn completed_report(total: u64, now: i64) -> SyncTaskErrorView {
    SyncTaskErrorView::Status {
        last_synced: now,
        message: "Sync completed: "@ + decimal(total as nat) + " items"@,
    }
}

proof fn lemma_page_store_stops(v: CacheView, items: Seq<MediaItemView>, k: int)
    requires
        0 <= k <= items.len(),
        page_store(v, items.take(k)).2 is Some,
    ensures
        page_store(v, items) == page_store(v, items.take(k)),
    decreases items.len() - k,
{
    if k < items.len() {
        let t = items.take(k + 1);
        assert(t.drop_last() =~= items.take(k));
        lemma_page_store_stops(v, items, k + 1);
    } else {
        assert(items.take(k) =~= items);
    }
}

impl SyncRun {
    /// The record the run keeps.
    pub fn state(&self) -> (r: &SyncState)
        ensures
            r@ == self@.state,
    {
        &self.state
    }

    /// The page token of the next listing request, if any.
    pub fn page_token(&self) -> (r: Option<String>)
        ensures
            opt_view(r) == self@.state.page_token,
    {
        clone_opt(&self.state.page_token)
    }

    /// The UTC date `(year, month, day)` from which media items are listed.
    pub fn date_filter(&self) -> (r: (i32, u32, u32))
        ensures
            r == self@.date_filter,
    {
        self.date_filter
    }

    /// Opens a run from the record loaded from disk (or the error loading
    /// it): reports the start, then either fails with the load error or
    /// lists from the UTC date of the last completed sync that the cache
    /// records (the epoch where that record cannot be read, which is
    /// reported).
    pub fn begin(cache: &CacheManager, loaded: Result<SyncState, SyncError>, now: i64) -> (r: (
        Result<SyncRun, SyncError>,
        Notices,
    ))
        ensures
            r.1@.progress == seq![SyncProgress::Started],
            r.1@.status.len() == 0,
            match loaded {
                Err(e) => {
                    &&& r.0 is Err
                    &&& r.0->Err_0@ == stage_error(SyncStage::LoadState, sync_error_text(e@))
                    &&& r.1@.errors == seq![
                        started_report(now),
                        stage_report(SyncStage::LoadState, sync_error_text(e@)),
                    ]
                },
                Ok(s) => {
                    &&& r.0 is Ok
                    &&& r.0->Ok_0@ == (SyncRunView {
                        state: s@,
                        date_filter: utc_date(last_sync_or_epoch(cache@)),
                    })
                    &&& r.1@.errors == seq![started_report(now)] + last_sync_reports(cache@)
                },
            },
    {
        let mut notes = no_notices();
        notes.progress.push(SyncProgress::Started);
        push_report(
            &mut notes.errors,
            SyncTaskError::Status { last_synced: now, message: String::from_str("Sync started") },
        );
        proof {
            assert(notes@.progress =~= seq![SyncProgress::Started]);
            assert(notes@.errors =~= seq![started_report(now)]);
        }
        let state = match loaded {
            Err(e) => {
                let m = e.message();
                let (err, report) = failure(SyncStage::LoadState, m.as_str());
                push_report(&mut notes.errors, report);
                proof {
                    assert(notes@.errors =~= seq![
                        started_report(now),
                        stage_report(SyncStage::LoadState, sync_error_text(e@)),
                    ]);
                }
                return (Err(err), notes);
            },
            Ok(s) => s,
        };
        let ts = match cache.get_last_sync() {
            Ok(t) => t,
            Err(e) => {
                let m = e.message();
                let (_err, report) = failure(SyncStage::ReadLastSync, m.as_str());
                push_report(&mut notes.errors, report);
                0
            },
        };
        proof {
            assert(notes@.errors =~= seq![started_report(now)] + last_sync_reports(cache@));
        }
        let date_filter = utc_calendar_date(ts);
        (Ok(SyncRun { state, date_filter }), notes)
    }

    /// Records one listing page: stores its items in the cache one after
    /// the other, reports each synced item and every fiftieth one, then
    /// keeps the page's next token and the new total. An empty page ends
    /// the listing and changes nothing. A refused item ends the run with a
    /// cache error; the items stored before it stay, the record does not
    /// change.
    pub fn record_page(
        &mut self,
        cache: &mut CacheManager,
        items: &Vec<MediaItem>,
        next_page_token: Option<String>,
        now: i64,
    ) -> (r: (Result<PageOutcome, SyncError>, Notices))
        requires
            wf(old(cache)@),
            old(self)@.state.total_synced + items@.len() <= u64::MAX,
        ensures
            wf(final(cache)@),
            r.1@.status.len() == 0,
            items@.len() == 0 ==> {
                &&& r.0 == Ok::<PageOutcome, SyncError>(PageOutcome::Exhausted)
                &&& final(cache)@ == old(cache)@
                &&& final(self)@ == old(self)@
                &&& r.1@.progress.len() == 0
                &&& r.1@.errors.len() == 0
            },
            items@.len() > 0 ==> {
                let t0 = old(self)@.state.total_synced as nat;
                let (c, k, e) = page_store(old(cache)@, items_view(items@));
                &&& final(cache)@ == c
                &&& r.1@.progress == synced_reports(t0, k)
                &&& match e {
                    None => {
                        &&& k == items@.len()
                        &&& r.0 == Ok::<PageOutcome, SyncError>(
                            if next_page_token is None {
                                PageOutcome::Last
                            } else {
                                PageOutcome::More
                            },
                        )
                        &&& r.1@.errors == milestone_reports(t0, k, now)
                        &&& final(self)@ == (SyncRunView {
                            state: page_record(old(self)@.state, k, opt_view(next_page_token)),
                            date_filter: old(self)@.date_filter,
                        })
                    },
                    Some(err) => {
                        &&& r.0 is Err
                        &&& r.0->Err_0@ == stage_error(SyncStage::StoreItem, cache_error_text(err))
                        &&& r.1@.errors == milestone_reports(t0, k, now).push(
                            stage_report(SyncStage::StoreItem, cache_error_text(err)),
                        )
                        &&& final(self)@ == old(self)@
                    },
                }
            },
    {
        let mut notes = no_notices();
        if items.len() == 0 {
            return (Ok(PageOutcome::Exhausted), notes);
        }
        let ghost c0 = cache@;
        let ghost iv = items_view(items@);
        let ghost t0 = self.state.total_synced as nat;
        let mut total = self.state.total_synced;
        let mut i: usize = 0;
        proof {
            assert(iv.take(0) =~= Seq::<MediaItemView>::empty());
            assert(notes@.progress =~= synced_reports(t0, 0));
        }
        while i < items.len()
            invariant
                i <= items@.len(),
                iv == items_view(items@),
                c0 == old(cache)@,
                t0 == old(self)@.state.total_synced,
                t0 + items@.len() <= u64::MAX,
                total == t0 + i,
                wf(cache@),
                page_store(c0, iv.take(i as int)) == (cache@, i as nat, None::<CacheErrorView>),
                notes@.progress == synced_reports(t0, i as nat),
                notes@.errors == milestone_reports(t0, i as nat, now),
                notes@.status.len() == 0,
            decreases items.len() - i,
        {
            proof {
                let t = iv.take(i + 1);
                assert(t.drop_last() =~= iv.take(i as int));
                assert(t.last() == items@[i as int]@);
            }
            match cache.insert_media_item(&items[i]) {
                Ok(()) => {},
                Err(e) => {
                    let m = e.message();
                    let (err, report) = failure(SyncStage::StoreItem, m.as_str());
                    push_report(&mut notes.errors, report);
                    proof {
                        let n = items@.len() as int;
                        assert(page_store(c0, iv.take(i + 1)) == (cache@, i as nat, Some(e@)));
                        lemma_page_store_stops(c0, iv, i + 1);
                    }
                    return (Err(err), notes);
                },
            }
            total = total + 1;
            notes.progress.push(SyncProgress::ItemSynced(total));
            proof {
                assert(notes@.progress =~= synced_reports(t0, (i + 1) as nat));
            }
            if total % 50 == 0 {
                let mut msg = String::from_str("Synced ");
                let d = u64_to_decimal(total);
                msg.append(d.as_str());
                msg.append(" items");
                push_report(&mut notes.errors, SyncTaskError::Status { last_synced: now, message: msg });
            }
            i = i + 1;
        }
        proof {
            assert(iv.take(items@.len() as int) =~= iv);
        }
        self.state.page_token = clone_opt(&next_page_token);
        self.state.total_synced = total;
        let outcome = if next_page_token.is_none() {
            PageOutcome::Last
        } else {
            PageOutcome::More
        };
        (Ok(outcome), notes)
    }

    /// Closes a completed run: reports the final total, clears the page
    /// token, records the completion time in the record and in the cache,
    /// and reports the completion.
    pub fn finish(&mut self, cache: &mut CacheManager, now: i64) -> (r: Notices)
        requires
            wf(old(cache)@),
            rfc3339_min_ts() <= now <= rfc3339_max_ts(),
        ensures
            wf(final(cache)@),
            final(cache)@ == (CacheView { last_sync: rfc3339_render(now), ..old(cache)@ }),
            four_digit_year_ts(now as int) ==> parses_to(final(cache)@.last_sync, now),
            final(self)@ == (SyncRunView {
                state: finish_record(old(self)@.state, now),
                date_filter: old(self)@.date_filter,
            }),
            r@.progress == seq![SyncProgress::Finished(old(self)@.state.total_synced)],
            r@.errors == seq![completed_report(old(self)@.state.total_synced, now)],
            r@.status.len() == 0,
    {
        let mut notes = no_notices();
        let total = self.state.total_synced;
        notes.progress.push(SyncProgress::Finished(total));
        self.state.page_token = None;
        self.state.last_success = Some(now);
        let _ = cache.update_last_sync(now);
        let mut msg = String::from_str("Sync completed: ");
        let d = u64_to_decimal(total);
        msg.append(d.as_str());
        msg.append(" items");
        push_report(&mut notes.errors, SyncTaskError::Status { last_synced: now, message: msg });
        proof {
            assert(notes@.progress =~= seq![SyncProgress::Finished(total)]);
            assert(notes@.errors =~= seq![completed_report(total, now)]);
        }
        notes
    }
}

/// Consecutive failures after which a background task reports an abort:
/// the periodic sync then stops, the token refresh counts again.
pub const MAX_FAILURES: u32 = 5;

/// The longest wait between two attempts, in seconds.
pub const MAX_BACKOFF_SECS: u64 = 300;

/// The smaller of `a` and `b`.
pub open spec fn min_int(a: int, b: int) -> int {
    if a < b {
        a
    } else {
        b
    }
}

/// The text that a failed attempt is reported with: the error and the time
/// of the last success.
pub open spec fn failure_text(error_text: Seq<char>, last_success: i64) -> Seq<char> {
    error_text + " | last_success: "@ + rfc3339_render(last_success)
}

/// The text of the abort report of a task after `n` failures.
pub open spec fn abort_text(task: Seq<char>, n: u32) -> Seq<char> {
    task + " aborted after "@ + decimal(n as nat) + " failures"@
}

fn failure_message(error_text: String, last_success: i64) -> (r: String)
    requires
        rfc3339_min_ts() <= last_success <= rfc3339_max_ts(),
    ensures
        r@ == failure_text(error_text@, last_success),
{
    let mut m = error_text;
    m.append(" | last_success: ");
    let t = render_rfc3339(last_success);
    m.append(t.as_str());
    m
}

/// The text that a failed periodic sync is reported with: the error, its
/// code and the time of the last success.
pub open spec fn periodic_failure_text(error_text: Seq<char>, code: SyncErrorCode, last_success: i64) -> Seq<char> {
    error_text + " | code: "@ + code_text(code) + " | last_success: "@ + rfc3339_render(last_success)
}

fn periodic_failure_message(error_text: String, code: SyncErrorCode, last_success: i64) -> (r: String)
    requires
        rfc3339_min_ts() <= last_success <= rfc3339_max_ts(),
    ensures
        r@ == periodic_failure_text(error_text@, code, last_success),
{
    let mut m = error_text;
    m.append(" | code: ");
    let c = code_name(code);
    m.append(c.as_str());
    m.append(" | last_success: ");
    let t = render_rfc3339(last_success);
    m.append(t.as_str());
    m
}

fn abort_message(task: &str, n: u32) -> (r: String)
    ensures
        r@ == abort_text(task@, n),
{
    let mut m = String::from_str(task);
    m.append(" aborted after ");
    let d = u64_to_decimal(n as u64);
    m.append(d.as_str());
    m.append(" failures");
    m
}

/// The retry state of the periodic sync: the wait before the next retry,
/// the consecutive failures so far, and the time of the last success.
pub struct PeriodicSync {
    backoff: u64,
    failures: u32,
    last_success: i64,
}

pub struct PeriodicView {
    pub backoff: u64,
    pub failures: u32,
    pub last_success: i64,
}

impl View for PeriodicSync {
    type V = PeriodicView;

    closed spec fn view(&self) -> PeriodicView {
        PeriodicView {
            backoff: self.backoff,
            failures: self.failures,
            last_success: self.last_success,
        }
    }
}

/// The periodic sync's invariant: the wait lies between one second and
/// five minutes, fewer than five failures are pending, and the last
/// success is a time that can be shown as a date.
pub open spec fn periodic_wf(p: PeriodicView) -> bool {
    &&& 1 <= p.backoff <= MAX_BACKOFF_SECS
    &&& p.failures < MAX_FAILURES
    &&& rfc3339_min_ts() <= p.last_success <= rfc3339_max_ts()
}

/// Whether the next failure is the fifth in a row, the one at which the
/// task reports an abort and stops.
pub open spec fn periodic_aborts(p: PeriodicView) -> bool {
    p.failures + 1 >= MAX_FAILURES
}

/// The retry state after one sync attempt: a failure counts and doubles
/// the wait (up to five minutes), and the fifth failure in a row clears the
/// count as the task stops; a success resets the wait and the count and
/// records the time.
pub open spec fn periodic_after(p: PeriodicView, failed: bool, now: i64) -> PeriodicView {
    if failed {
        let b1 = min_int(2 * p.backoff, MAX_BACKOFF_SECS as int) as u64;
        if periodic_aborts(p) {
            PeriodicView { backoff: b1, failures: 0, last_success: p.last_success }
        } else {
            PeriodicView { backoff: b1, failures: (p.failures + 1) as u32, ..p }
        }
    } else {
        PeriodicView { backoff: 1, failures: 0, last_success: now }
    }
}

/// The report the periodic sync stops with after `n` failures in a row.
pub open spec fn periodic_abort_report(n: u32) -> SyncTaskErrorView {
    SyncTaskErrorView::Aborted(abort_text("periodic sync"@, n))
}

/// The task reports of a failed periodic sync attempt, in order: the
/// failure with its code, the restart attempt, the status with the last
/// success, and at the fifth failure in a row the abort.
pub open spec fn periodic_failure_reports(
    p: PeriodicView,
    code: SyncErrorCode,
    error_text: Seq<char>,
) -> Seq<SyncTaskErrorView> {
    let msg = periodic_failure_text(error_text, code, p.last_success);
    let n = (p.failures + 1) as u32;
    seq![
        SyncTaskErrorView::PeriodicSyncFailed { code, message: msg },
        SyncTaskErrorView::RestartAttempt(n),
        SyncTaskErrorView::Status { last_synced: p.last_success, message: msg },
    ] + (if periodic_aborts(p) {
        seq![periodic_abort_report(n)]
    } else {
        Seq::empty()
    })
}

/// The status reports of a failed periodic sync attempt: the restart
/// attempt and, at the fifth failure in a row, the abort.
pub open spec fn periodic_failure_status(p: PeriodicView) -> Seq<SyncTaskErrorView> {
    let n = (p.failures + 1) as u32;
    seq![SyncTaskErrorView::RestartAttempt(n)] + (if periodic_aborts(p) {
        seq![periodic_abort_report(n)]
    } else {
        Seq::empty()
    })
}

fn doubled_backoff(b: u64) -> (r: u64)
    ensures
        r == min_int(2 * b, MAX_BACKOFF_SECS as int),
{
    if b >= 150 {
        MAX_BACKOFF_SECS
    } else {
        b * 2
    }
}

impl PeriodicSync {
    /// The retry state of a fresh periodic sync: a one-second wait, no
    /// failures, and as last success the one the sync record holds, else
    /// the last sync the cache records, else the epoch.
    pub fn new(recorded_success: Option<i64>, cache: &CacheManager) -> (r: PeriodicSync)
        requires
            recorded_success matches Some(t) ==> rfc3339_min_ts() <= t <= rfc3339_max_ts(),
        ensures
            periodic_wf(r@),
            r@ == (PeriodicView {
                backoff: 1,
                failures: 0,
                last_success: match recorded_success {
                    Some(t) => t,
                    None => last_sync_or_epoch(cache@),
                },
            }),
    {
        let last_success = match recorded_success {
            Some(t) => t,
            None => match cache.get_last_sync() {
                Ok(t) => t,
                Err(_) => 0,
            },
        };
        PeriodicSync { backoff: 1, failures: 0, last_success }
    }

    /// The time of the last successful sync.
    pub fn last_success(&self) -> (r: i64)
        ensures
            r == self@.last_success,
    {
        self.last_success
    }

    /// Decides what follows one periodic sync attempt and returns the
    /// reports to send and either the seconds to wait before the next
    /// attempt or the report the task stops with. A failure is reported
    /// with its code and the time of the last success, counted as a restart
    /// attempt, and retried after the current wait; the fifth failure in a
    /// row is reported as an abort and stops the task with it. A success is
    /// reported as completed and waits `interval_secs`.
    pub fn on_sync_result(&mut self, result: &Result<(), SyncError>, now: i64, interval_secs: u64) -> (r: (
        Notices,
        Result<u64, SyncTaskError>,
    ))
        requires
            periodic_wf(old(self)@),
            rfc3339_min_ts() <= now <= rfc3339_max_ts(),
        ensures
            periodic_wf(final(self)@),
            final(self)@ == periodic_after(old(self)@, result is Err, now),
            match result {
                Err(e) => {
                    &&& r.0@.progress == seq![SyncProgress::Retrying(old(self)@.backoff)]
                    &&& r.0@.errors == periodic_failure_reports(
                        old(self)@,
                        code_of(e@),
                        sync_error_text(e@),
                    )
                    &&& r.0@.status == periodic_failure_status(old(self)@)
                    &&& match r.1 {
                        Ok(w) => !periodic_aborts(old(self)@) && w == old(self)@.backoff,
                        Err(stop) => periodic_aborts(old(self)@) && stop@ == periodic_abort_report(
                            (old(self)@.failures + 1) as u32,
                        ),
                    }
                },
                Ok(()) => {
                    let done = SyncTaskErrorView::Status {
                        last_synced: now,
                        message: "Sync completed"@,
                    };
                    &&& r.0@.progress.len() == 0
                    &&& r.0@.errors == seq![done]
                    &&& r.0@.status == seq![done]
                    &&& r.1 == Ok::<u64, SyncTaskError>(interval_secs)
                },
            },
    {
        let mut notes = no_notices();
        match result {
            Err(e) => {
                let code = error_code(e);
                let msg = periodic_failure_message(e.message(), code, self.last_success);
                let n = self.failures + 1;
                push_report(
                    &mut notes.errors,
                    SyncTaskError::PeriodicSyncFailed { code, message: msg.clone() },
                );
                push_report(&mut notes.errors, SyncTaskError::RestartAttempt(n));
                push_report(
                    &mut notes.errors,
                    SyncTaskError::Status { last_synced: self.last_success, message: msg },
                );
                push_report(&mut notes.status, SyncTaskError::RestartAttempt(n));
                let wait = self.backoff;
                notes.progress.push(SyncProgress::Retrying(wait));
                self.backoff = doubled_backoff(self.backoff);
                let ghost e0 = notes@.errors;
                let ghost s0 = notes@.status;
                let next = if n >= MAX_FAILURES {
                    let m = abort_message("periodic sync", n);
                    push_report(&mut notes.errors, SyncTaskError::Aborted(m.clone()));
                    push_report(&mut notes.status, SyncTaskError::Aborted(m.clone()));
                    self.failures = 0;
                    Err(SyncTaskError::Aborted(m))
                } else {
                    self.failures = n;
                    Ok(wait)
                };
                proof {
                    assert(notes@.progress =~= seq![SyncProgress::Retrying(old(self)@.backoff)]);
                    if n >= MAX_FAILURES {
                        assert(notes@.errors =~= e0 + seq![periodic_abort_report(n)]);
                        assert(notes@.status =~= s0 + seq![periodic_abort_report(n)]);
                    } else {
                        assert(notes@.errors =~= e0 + Seq::<SyncTaskErrorView>::empty());
                        assert(notes@.status =~= s0 + Seq::<SyncTaskErrorView>::empty());
                    }
                }
                (notes, next)
            },
            Ok(()) => {
                self.last_success = now;
                self.backoff = 1;
                self.failures = 0;
                push_report(
                    &mut notes.errors,
                    SyncTaskError::Status { last_synced: now, message: String::from_str("Sync completed") },
                );
                push_report(
                    &mut notes.status,
                    SyncTaskError::Status { last_synced: now, message: String::from_str("Sync completed") },
                );
                proof {
                    let done = SyncTaskErrorView::Status { last_synced: now, message: "Sync completed"@ };
                    assert(notes@.errors =~= seq![done]);
                    assert(notes@.status =~= seq![done]);
                }
                (notes, Ok(interval_secs))
            },
        }
    }
}

/// The retry state of the token refresh task: the wait before each
/// refresh, the consecutive failures so far, and the time of the last
/// success.
pub struct TokenRefreshLoop {
    interval_secs: u64,
    failures: u32,
    last_success: i64,
}

pub struct TokenRefreshView {
    pub interval_secs: u64,
    pub failures: u32,
    pub last_success: i64,
}

impl View for TokenRefreshLoop {
    type V = TokenRefreshView;

    closed spec fn view(&self) -> TokenRefreshView {
        TokenRefreshView {
            interval_secs: self.interval_secs,
            failures: self.failures,
            last_success: self.last_success,
        }
    }
}

/// The token refresh task's invariant: fewer than five failures are
/// pending and the last success is a time that can be shown as a date.
pub open spec fn refresh_wf(t: TokenRefreshView) -> bool {
    &&& t.failures < MAX_FAILURES
    &&& rfc3339_min_ts() <= t.last_success <= rfc3339_max_ts()
}

/// The task state after one refresh attempt: a failure counts and, at the
/// fifth, resets the count and doubles the interval (up to five minutes); a
/// success resets the count and records the time.
pub open spec fn refresh_after(t: TokenRefreshView, failed: bool, now: i64) -> TokenRefreshView {
    if failed {
        if t.failures + 1 >= MAX_FAILURES {
            TokenRefreshView {
                interval_secs: min_int(2 * t.interval_secs, MAX_BACKOFF_SECS as int) as u64,
                failures: 0,
                ..t
            }
        } else {
            TokenRefreshView { failures: (t.failures + 1) as u32, ..t }
        }
    } else {
        TokenRefreshView { failures: 0, last_success: now, ..t }
    }
}

impl TokenRefreshLoop {
    /// A fresh task that refreshes every `interval_secs` seconds, counting
    /// `now` as its last success.
    pub fn new(interval_secs: u64, now: i64) -> (r: TokenRefreshLoop)
        requires
            rfc3339_min_ts() <= now <= rfc3339_max_ts(),
        ensures
            refresh_wf(r@),
            r@ == (TokenRefreshView { interval_secs, failures: 0, last_success: now }),
    {
        TokenRefreshLoop { interval_secs, failures: 0, last_success: now }
    }

    /// The wait before the next refresh, in seconds.
    pub fn interval_secs(&self) -> (r: u64)
        ensures
            r == self@.interval_secs,
    {
        self.interval_secs
    }

    /// Decides what follows one refresh attempt and returns the reports to
    /// send and the extra seconds to wait before the next regular wait. A
    /// failure is reported with the time of the last success and counted as
    /// a restart attempt; the fifth in a row is reported as an abort, the
    /// interval doubles and the task waits it once more. A success is
    /// reported as a refreshed token.
    pub fn on_refresh_result(&mut self, result: &Result<(), AuthError>, now: i64) -> (r: (Notices, u64))
        requires
            refresh_wf(old(self)@),
            rfc3339_min_ts() <= now <= rfc3339_max_ts(),
        ensures
            refresh_wf(final(self)@),
            final(self)@ == refresh_after(old(self)@, result is Err, now),
            r.0@.progress.len() == 0,
            r.0@.status.len() == 0,
            match result {
                Err(e) => {
                    let msg = failure_text(auth_error_text(e@), old(self)@.last_success);
                    let n = (old(self)@.failures + 1) as u32;
                    let aborts = n >= MAX_FAILURES;
                    &&& r.0@.errors == seq![
                        SyncTaskErrorView::TokenRefreshFailed {
                            code: SyncErrorCode::Auth,
                            message: msg,
                        },
                        SyncTaskErrorView::Status {
                            last_synced: old(self)@.last_success,
                            message: msg,
                        },
                        SyncTaskErrorView::RestartAttempt(n),
                    ] + (if aborts {
                        seq![SyncTaskErrorView::Aborted(abort_text("token refresh"@, n))]
                    } else {
                        Seq::empty()
                    })
                    &&& r.1 == if aborts {
                        final(self)@.interval_secs
                    } else {
                        0
                    }
                },
                Ok(()) => {
                    &&& r.0@.errors == seq![
                        SyncTaskErrorView::Status { last_synced: now, message: "Token refreshed"@ },
                    ]
                    &&& r.1 == 0
                },
            },
    {
        let mut notes = no_notices();
        match result {
            Err(e) => {
                let msg = failure_message(e.message(), self.last_success);
                push_report(
                    &mut notes.errors,
                    SyncTaskError::TokenRefreshFailed { code: SyncErrorCode::Auth, message: msg.clone() },
                );
                push_report(
                    &mut notes.errors,
                    SyncTaskError::Status { last_synced: self.last_success, message: msg },
                );
                let n = self.failures + 1;
                push_report(&mut notes.errors, SyncTaskError::RestartAttempt(n));
                let ghost e0 = notes@.errors;
                let extra = if n >= MAX_FAILURES {
                    let m = abort_message("token refresh", n);
                    push_report(&mut notes.errors, SyncTaskError::Aborted(m));
                    self.failures = 0;
                    self.interval_secs = doubled_backoff(self.interval_secs);
                    self.interval_secs
                } else {
                    self.failures = n;
                    0
                };
                proof {
                    if n >= MAX_FAILURES {
                        assert(notes@.errors =~= e0 + seq![
                            SyncTaskErrorView::Aborted(abort_text("token refresh"@, n)),
                        ]);
                    } else {
                        assert(notes@.errors =~= e0 + Seq::<SyncTaskErrorView>::empty());
                    }
                }
                (notes, extra)
            },
            Ok(()) => {
                self.last_success = now;
                self.failures = 0;
                push_report(
                    &mut notes.errors,
                    SyncTaskError::Status { last_synced: now, message: String::from_str("Token refreshed") },
                );
                proof {
                    assert(notes@.errors =~= seq![
                        SyncTaskErrorView::Status { last_synced: now, message: "Token refreshed"@ },
                    ]);
                }
                (notes, 0)
            },
        }
    }
}

/// The synchroniser: the service client, the local cache, where its record
/// is kept, and the face-detection setting. The setting is only kept here:
/// no function of this library detects faces.
pub struct Syncer {
    api_client: ApiClient,
    cache_manager: CacheManager,
    state_path: String,
    detect_faces: bool,
}

impl Syncer {
    /// A synchroniser that sends `access_token`, fills `cache_manager` and
    /// keeps its record at `state_path`; face detection is off.
    pub fn new(access_token: String, cache_manager: CacheManager, state_path: String) -> (r: Syncer)
        ensures
            r.access_token() == access_token@,
            r.cache_view() == cache_manager@,
            r.state_path_view() == state_path@,
            !r.detects_faces(),
    {
        Syncer { api_client: ApiClient::new(access_token), cache_manager, state_path, detect_faces: false }
    }

    /// The access token the client sends.
    pub closed spec fn access_token(&self) -> Seq<char> {
        self.api_client@
    }

    /// The face-detection setting.
    pub closed spec fn detects_faces(&self) -> bool {
        self.detect_faces
    }

    /// Sets the face-detection setting.
    pub fn set_face_detection(&mut self, enable: bool)
        ensures
            final(self).detects_faces() == enable,
            final(self).access_token() == old(self).access_token(),
            final(self).cache_view() == old(self).cache_view(),
            final(self).state_path_view() == old(self).state_path_view(),
    {
        self.detect_faces = enable;
    }

    /// The face-detection setting.
    pub fn face_detection(&self) -> (r: bool)
        ensures
            r == self.detects_faces(),
    {
        self.detect_faces
    }

    /// Replaces the access token the client sends.
    pub fn set_access_token(&mut self, token: String)
        ensures
            final(self).access_token() == token@,
            final(self).detects_faces() == old(self).detects_faces(),
            final(self).cache_view() == old(self).cache_view(),
            final(self).state_path_view() == old(self).state_path_view(),
    {
        self.api_client.set_access_token(token);
    }

    /// The service client.
    pub fn api_client(&self) -> (r: &ApiClient)
        ensures
            r@ == self.access_token(),
    {
        &self.api_client
    }

    /// The local cache.
    pub fn cache(&self) -> (r: &CacheManager)
        ensures
            r@ == self.cache_view(),
    {
        &self.cache_manager
    }

    /// The contents of the local cache.
    pub closed spec fn cache_view(&self) -> CacheView {
        self.cache_manager@
    }

    /// Where the sync record is kept.
    pub fn state_path(&self) -> (r: &String)
        ensures
            r@ == self.state_path_view(),
    {
        &self.state_path
    }

    /// Where the sync record is kept.
    pub closed spec fn state_path_view(&self) -> Seq<char> {
        self.state_path@
    }

    /// Opens a sync run on the cache (see `SyncRun::begin`).
    pub fn begin_sync(&self, loaded: Result<SyncState, SyncError>, now: i64) -> (r: (
        Result<SyncRun, SyncError>,
        Notices,
    ))
        ensures
            r.1@.progress == seq![SyncProgress::Started],
            r.1@.status.len() == 0,
            match loaded {
                Err(e) => {
                    &&& r.0 is Err
                    &&& r.0->Err_0@ == stage_error(SyncStage::LoadState, sync_error_text(e@))
                    &&& r.1@.errors == seq![
                        started_report(now),
                        stage_report(SyncStage::LoadState, sync_error_text(e@)),
                    ]
                },
                Ok(s) => {
                    &&& r.0 is Ok
                    &&& r.0->Ok_0@ == (SyncRunView {
                        state: s@,
                        date_filter: utc_date(last_sync_or_epoch(self.cache_view())),
                    })
                    &&& r.1@.errors == seq![started_report(now)] + last_sync_reports(
                        self.cache_view(),
                    )
                },
            },
    {
        SyncRun::begin(&self.cache_manager, loaded, now)
    }

    /// Records one listing page of a run into the cache (see
    /// `SyncRun::record_page`).
    pub fn record_page(
        &mut self,
        run: &mut SyncRun,
        items: &Vec<MediaItem>,
        next_page_token: Option<String>,
        now: i64,
    ) -> (r: (Result<PageOutcome, SyncError>, Notices))
        requires
            wf(old(self).cache_view()),
            old(run)@.state.total_synced + items@.len() <= u64::MAX,
        ensures
            wf(final(self).cache_view()),
            final(self).access_token() == old(self).access_token(),
            final(self).detects_faces() == old(self).detects_faces(),
            final(self).state_path_view() == old(self).state_path_view(),
            r.1@.status.len() == 0,
            items@.len() == 0 ==> {
                &&& r.0 == Ok::<PageOutcome, SyncError>(PageOutcome::Exhausted)
                &&& final(self).cache_view() == old(self).cache_view()
                &&& final(run)@ == old(run)@
                &&& r.1@.progress.len() == 0
                &&& r.1@.errors.len() == 0
            },
            items@.len() > 0 ==> {
                let t0 = old(run)@.state.total_synced as nat;
                let (c, k, e) = page_store(old(self).cache_view(), items_view(items@));
                &&& final(self).cache_view() == c
                &&& r.1@.progress == synced_reports(t0, k)
                &&& match e {
                    None => {
                        &&& k == items@.len()
                        &&& r.0 == Ok::<PageOutcome, SyncError>(
                            if next_page_token is None {
                                PageOutcome::Last
                            } else {
                                PageOutcome::More
                            },
                        )
                        &&& r.1@.errors == milestone_reports(t0, k, now)
                        &&& final(run)@ == (SyncRunView {
                            state: SyncStateView {
                                page_token: opt_view(next_page_token),
                                total_synced: (t0 + k) as u64,
                                last_success: old(run)@.state.last_success,
                            },
                            date_filter: old(run)@.date_filter,
                        })
                    },
                    Some(err) => {
                        &&& r.0 is Err
                        &&& r.0->Err_0@ == stage_error(SyncStage::StoreItem, cache_error_text(err))
                        &&& r.1@.errors == milestone_reports(t0, k, now).push(
                            stage_report(SyncStage::StoreItem, cache_error_text(err)),
                        )
                        &&& final(run)@ == old(run)@
                    },
                }
            },
    {
        run.record_page(&mut self.cache_manager, items, next_page_token, now)
    }

    /// Closes a completed run and records its time in the cache (see
    /// `SyncRun::finish`).
    pub fn finish_sync(&mut self, run: &mut SyncRun, now: i64) -> (r: Notices)
        requires
            wf(old(self).cache_view()),
            rfc3339_min_ts() <= now <= rfc3339_max_ts(),
        ensures
            wf(final(self).cache_view()),
            final(self).cache_view() == (CacheView {
                last_sync: rfc3339_render(now),
                ..old(self).cache_view()
            }),
            four_digit_year_ts(now as int) ==> parses_to(final(self).cache_view().last_sync, now),
            final(self).access_token() == old(self).access_token(),
            final(self).detects_faces() == old(self).detects_faces(),
            final(self).state_path_view() == old(self).state_path_view(),
            final(run)@ == (SyncRunView {
                state: SyncStateView {
                    page_token: None,
                    total_synced: old(run)@.state.total_synced,
                    last_success: Some(now),
                },
                date_filter: old(run)@.date_filter,
            }),
            r@.progress == seq![SyncProgress::Finished(old(run)@.state.total_synced)],
            r@.errors == seq![completed_report(old(run)@.state.total_synced, now)],
            r@.status.len() == 0,
    {
        run.finish(&mut self.cache_manager, now)
    }
}

} // verus!
