//! Properties of the retry policies over several attempts.

use vstd::prelude::*;
use crate::cache::{
    CacheView, MediaRowView, has_item, with_row, after_insert, other_row,
    lemma_filter_members,
};
use crate::types::MediaItemView;
use crate::datetime::{parses_to, rfc3339_render};
use crate::sync::{
    last_sync_or_epoch, last_sync_reports, page_store, synced_reports, SyncProgress,
    SyncStateView, page_record, finish_record,
    PeriodicView, TokenRefreshView, periodic_after, periodic_aborts, periodic_wf, refresh_after,
    refresh_wf, MAX_FAILURES, MAX_BACKOFF_SECS,
};

verus! {

/// The periodic sync's retry state after `n` failed attempts in a row.
pub open spec fn periodic_after_failures(p: PeriodicView, n: nat) -> PeriodicView
    decreases n,
{
    if n == 0 {
        p
    } else {
        periodic_after(periodic_after_failures(p, (n - 1) as nat), true, 0)
    }
}

/// The token refresh task's state after `n` failed attempts in a row.
pub open spec fn refresh_after_failures(t: TokenRefreshView, n: nat) -> TokenRefreshView
    decreases n,
{
    if n == 0 {
        t
    } else {
        refresh_after(refresh_after_failures(t, (n - 1) as nat), true, 0)
    }
}

/// Failed periodic syncs keep the retry state's invariant: the wait stays
/// between one second and five minutes and fewer than five failures stay
/// pending.
pub proof fn law_periodic_failures_keep_bounds(p: PeriodicView, n: nat)
    requires
        periodic_wf(p),
    ensures
        periodic_wf(periodic_after_failures(p, n)),
        1 <= periodic_after_failures(p, n).backoff <= MAX_BACKOFF_SECS,
    decreases n,
{
    if n > 0 {
        law_periodic_failures_keep_bounds(p, (n - 1) as nat);
    }
}

/// Starting with no pending failure, the periodic sync counts its first
/// four failures in a row and goes on; the fifth in a row is the one at
/// which it reports an abort and stops, with its count cleared.
pub proof fn law_periodic_aborts_at_fifth_failure(p: PeriodicView, n: nat)
    requires
        periodic_wf(p),
        p.failures == 0,
        1 <= n <= MAX_FAILURES,
    ensures
        periodic_aborts(periodic_after_failures(p, (n - 1) as nat)) <==> n == MAX_FAILURES,
        periodic_after_failures(p, n).failures == n % (MAX_FAILURES as nat),
        periodic_after_failures(p, n).last_success == p.last_success,
    decreases n,
{
    reveal_with_fuel(periodic_after_failures, 2);
    if n > 1 {
        law_periodic_aborts_at_fifth_failure(p, (n - 1) as nat);
    }
}

/// While failures are pending, each failed periodic sync doubles the wait,
/// up to five minutes.
pub proof fn law_periodic_backoff_doubles(p: PeriodicView)
    requires
        periodic_wf(p),
        !periodic_aborts(p),
    ensures
        periodic_after(p, true, 0).backoff == if 2 * p.backoff < MAX_BACKOFF_SECS {
            2 * p.backoff
        } else {
            MAX_BACKOFF_SECS as int
        },
{
}

/// A successful periodic sync clears the retry state, whatever came
/// before: a one-second wait, no pending failure, and the success time.
pub proof fn law_periodic_success_resets(p: PeriodicView, now: i64)
    ensures
        periodic_after(p, false, now) == (PeriodicView { backoff: 1, failures: 0, last_success: now }),
{
}

/// Starting with no pending failure, the token refresh task counts its
/// first four failures in a row, aborts at the fifth and starts counting
/// again; the interval only changes at the abort.
pub proof fn law_refresh_aborts_at_fifth_failure(t: TokenRefreshView, n: nat)
    requires
        refresh_wf(t),
        t.failures == 0,
        1 <= n <= MAX_FAILURES,
    ensures
        refresh_wf(refresh_after_failures(t, n)),
        refresh_after_failures(t, n).failures == n % (MAX_FAILURES as nat),
        n < MAX_FAILURES ==> refresh_after_failures(t, n).interval_secs == t.interval_secs,
        n == MAX_FAILURES ==> refresh_after_failures(t, n).interval_secs == if 2 * t.interval_secs
            < MAX_BACKOFF_SECS {
            2 * t.interval_secs
        } else {
            MAX_BACKOFF_SECS as int
        },
    decreases n,
{
    reveal_with_fuel(refresh_after_failures, 2);
    if n > 1 {
        law_refresh_aborts_at_fifth_failure(t, (n - 1) as nat);
    }
}

/// Once a completed run has recorded its time in the cache (a time whose
/// rendering parses back, as for years 0000 to 9999), the next run lists
/// from that time, and reading it raises no report.
pub proof fn law_next_run_lists_from_completion(v: CacheView, now: i64)
    requires
        parses_to(v.last_sync, now),
    ensures
        last_sync_or_epoch(v) == now,
        last_sync_reports(v).len() == 0,
{
}

/// How many items the pages hold together.
pub open spec fn item_count(pages: Seq<Seq<MediaItemView>>) -> nat
    decreases pages.len(),
{
    if pages.len() == 0 {
        0
    } else {
        item_count(pages.drop_last()) + pages.last().len()
    }
}

/// The cache after a run records its listing pages one after the other,
/// how many items it stored, and whether every item was stored (the run
/// stops at the first refused one).
pub open spec fn pages_store(v: CacheView, pages: Seq<Seq<MediaItemView>>) -> (CacheView, nat, bool)
    decreases pages.len(),
{
    if pages.len() == 0 {
        (v, 0, true)
    } else {
        let (w, n, ok) = pages_store(v, pages.drop_last());
        if !ok {
            (w, n, false)
        } else {
            let (x, k, e) = page_store(w, pages.last());
            (x, n + k, e is None)
        }
    }
}

/// The progress reports of a run whose pages were all stored: the start,
/// then those of each page in turn (each counting on from the items before
/// it), then the finish with the final total.
pub open spec fn run_progress(t0: nat, pages: Seq<Seq<MediaItemView>>) -> Seq<SyncProgress> {
    seq![SyncProgress::Started] + pages_progress(t0, pages) + seq![
        SyncProgress::Finished((t0 + item_count(pages)) as u64),
    ]
}

/// The progress reports of the pages of a run whose pages were all stored,
/// page after page.
pub open spec fn pages_progress(t0: nat, pages: Seq<Seq<MediaItemView>>) -> Seq<SyncProgress>
    decreases pages.len(),
{
    if pages.len() == 0 {
        Seq::empty()
    } else {
        pages_progress(t0, pages.drop_last()) + synced_reports(
            t0 + item_count(pages.drop_last()),
            pages.last().len(),
        )
    }
}

/// The record of a run after its pages were all stored, the page at
/// position `j` being followed by the token `tokens[j]`.
pub open spec fn pages_record(
    s: SyncStateView,
    pages: Seq<Seq<MediaItemView>>,
    tokens: Seq<Option<Seq<char>>>,
) -> SyncStateView
    decreases pages.len(),
{
    if pages.len() == 0 {
        s
    } else {
        page_record(
            pages_record(s, pages.drop_last(), tokens.take(pages.len() - 1)),
            pages.last().len(),
            tokens[pages.len() - 1],
        )
    }
}

proof fn lemma_with_row_keeps(v: CacheView, row: MediaRowView)
    ensures
        has_item(with_row(v, row), row.id),
        forall|x: Seq<char>| has_item(v, x) ==> has_item(with_row(v, row), x),
{
    let u = with_row(v, row);
    let f = v.items.filter(other_row(row.id));
    lemma_filter_members(v.items, other_row(row.id));
    assert(u.items[u.items.len() - 1] == row);
    assert forall|x: Seq<char>| has_item(v, x) implies has_item(u, x) by {
        if x != row.id {
            let i = choose|i: int| 0 <= i < v.items.len() && (#[trigger] v.items[i]).id == x;
            assert(v.items.contains(v.items[i]));
            assert(f.contains(v.items[i]));
            let k = choose|k: int| 0 <= k < f.len() && f[k] == v.items[i];
            assert(u.items[k] == f[k]);
        }
    }
}

proof fn lemma_page_store_keeps(v: CacheView, items: Seq<MediaItemView>)
    requires
        page_store(v, items).2 is None,
    ensures
        page_store(v, items).1 == items.len(),
        forall|i: int| 0 <= i < items.len() ==> has_item(page_store(v, items).0, (#[trigger] items[i]).id),
        forall|x: Seq<char>| has_item(v, x) ==> has_item(page_store(v, items).0, x),
    decreases items.len(),
{
    if items.len() > 0 {
        let init = items.drop_last();
        lemma_page_store_keeps(v, init);
        let w = page_store(v, init).0;
        let u = page_store(v, items).0;
        let it = items.last();
        assert(after_insert(w, it) is Ok);
        let row = choose|row: MediaRowView| with_row(w, row) == u && row.id == it.id;
        lemma_with_row_keeps(w, row);
        assert forall|i: int| 0 <= i < items.len() implies has_item(u, (#[trigger] items[i]).id) by {
            if i < items.len() - 1 {
                assert(items[i] == init[i]);
            }
        }
    }
}

/// A whole sync run, composed of its steps: `SyncRun::begin` (progress
/// "started"), then `record_page` for each listing page in turn (each page
/// non-empty and followed by a next token, the last one by none, every item
/// stored: the cache becomes `page_store` of the page, the progress is
/// `synced_reports` counted on from the total so far, the record becomes
/// `page_record`), then `finish` (progress "finished" with the total, the
/// record becomes `finish_record`, the cache records the finish time).
/// Such a run reports exactly "started", one synced report for each item
/// with the running total counted on from the earlier total, and
/// "finished" with the final total; every item of every page is in the
/// cache at the end; and the record has no page token, the earlier total
/// plus the items, and the finish time as its last success.
pub proof fn law_whole_run_over_pages(
    v: CacheView,
    s: SyncStateView,
    pages: Seq<Seq<MediaItemView>>,
    tokens: Seq<Option<Seq<char>>>,
    now: i64,
)
    requires
        pages_store(v, pages).2,
        pages.len() > 0,
        forall|j: int| 0 <= j < pages.len() ==> (#[trigger] pages[j]).len() > 0,
        tokens.len() == pages.len(),
        forall|j: int| 0 <= j < pages.len() - 1 ==> (#[trigger] tokens[j]) is Some,
        tokens[pages.len() - 1] is None,
        s.total_synced + item_count(pages) <= u64::MAX,
    ensures
        pages_store(v, pages).1 == item_count(pages),
        run_progress(s.total_synced as nat, pages) == seq![SyncProgress::Started] + synced_reports(
            s.total_synced as nat,
            item_count(pages),
        ) + seq![SyncProgress::Finished((s.total_synced + item_count(pages)) as u64)],
        forall|j: int, i: int|
            0 <= j < pages.len() && 0 <= i < pages[j].len() ==> has_item(
                CacheView { last_sync: rfc3339_render(now), ..pages_store(v, pages).0 },
                (#[trigger] pages[j][i]).id,
            ),
        finish_record(pages_record(s, pages, tokens), now) == (SyncStateView {
            page_token: None,
            total_synced: (s.total_synced + item_count(pages)) as u64,
            last_success: Some(now),
        }),
{
    lemma_pages_store_keeps(v, pages);
    lemma_pages_progress(s.total_synced as nat, pages);
    lemma_pages_record(s, pages, tokens);
}

proof fn lemma_pages_store_keeps(v: CacheView, pages: Seq<Seq<MediaItemView>>)
    requires
        pages_store(v, pages).2,
    ensures
        pages_store(v, pages).1 == item_count(pages),
        forall|j: int, i: int|
            0 <= j < pages.len() && 0 <= i < pages[j].len() ==> has_item(
                pages_store(v, pages).0,
                (#[trigger] pages[j][i]).id,
            ),
        forall|x: Seq<char>| has_item(v, x) ==> has_item(pages_store(v, pages).0, x),
    decreases pages.len(),
{
    if pages.len() > 0 {
        let init = pages.drop_last();
        lemma_pages_store_keeps(v, init);
        let w = pages_store(v, init).0;
        lemma_page_store_keeps(w, pages.last());
        assert forall|j: int, i: int|
            0 <= j < pages.len() && 0 <= i < pages[j].len() implies has_item(
            pages_store(v, pages).0,
            (#[trigger] pages[j][i]).id,
        ) by {
            if j < pages.len() - 1 {
                assert(pages[j] == init[j]);
                assert(has_item(w, init[j][i].id));
            } else {
                assert(pages[j] == pages.last());
            }
        }
    }
}

proof fn lemma_synced_reports_split(t0: nat, a: nat, b: nat)
    ensures
        synced_reports(t0, a) + synced_reports(t0 + a, b) == synced_reports(t0, a + b),
{
    assert(synced_reports(t0, a) + synced_reports(t0 + a, b) =~= synced_reports(t0, a + b));
}

proof fn lemma_pages_progress(t0: nat, pages: Seq<Seq<MediaItemView>>)
    ensures
        pages_progress(t0, pages) == synced_reports(t0, item_count(pages)),
    decreases pages.len(),
{
    if pages.len() == 0 {
        assert(synced_reports(t0, 0) =~= Seq::<SyncProgress>::empty());
    } else {
        lemma_pages_progress(t0, pages.drop_last());
        lemma_synced_reports_split(t0, item_count(pages.drop_last()), pages.last().len());
    }
}

proof fn lemma_pages_record(s: SyncStateView, pages: Seq<Seq<MediaItemView>>, tokens: Seq<Option<Seq<char>>>)
    requires
        tokens.len() == pages.len(),
        s.total_synced + item_count(pages) <= u64::MAX,
    ensures
        pages_record(s, pages, tokens).total_synced == s.total_synced + item_count(pages),
        pages_record(s, pages, tokens).last_success == s.last_success,
        pages.len() > 0 ==> pages_record(s, pages, tokens).page_token == tokens[pages.len() - 1],
    decreases pages.len(),
{
    if pages.len() > 0 {
        lemma_pages_record(s, pages.drop_last(), tokens.take(pages.len() - 1));
    }
}

/// A successful token refresh clears the pending failures, whatever came
/// before: after any run of failures and then a success, the task has no
/// pending failure and records the success time, keeps its interval, and the
/// next failure counts as the first one (no abort, interval unchanged).
pub proof fn law_refresh_success_resets(t: TokenRefreshView, n: nat, now: i64, later: i64)
    requires
        refresh_wf(t),
    ensures
        refresh_after(refresh_after_failures(t, n), false, now).failures == 0,
        refresh_after(refresh_after_failures(t, n), false, now).last_success == now,
        refresh_after(refresh_after_failures(t, n), false, now).interval_secs
            == refresh_after_failures(t, n).interval_secs,
        refresh_after(refresh_after(refresh_after_failures(t, n), false, now), true, later).failures
            == 1,
        refresh_after(refresh_after(refresh_after_failures(t, n), false, now), true, later).interval_secs
            == refresh_after_failures(t, n).interval_secs,
{
}

} // verus!
