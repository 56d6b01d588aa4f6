//! The coordinator: the single task that owns the two in-flight counters,
//! the per-URL retry budget, the throttle backoff and the termination
//! decision. The driver's loop drains its channels and feeds every message
//! into the handlers here; the handlers decide everything and the driver
//! only performs the returned actions.

use crate::data_structures::{ContentToRetrieve, RunState, RunStatistics, StatusMessage};
use crate::retry_budget::{entry_wf, lemma_entry_of_wf, RetryBudget, RetryDecision};
use vstd::prelude::*;

verus! {

/// What the driver must do with a failed page fetch.
pub enum PageRetry {
    /// Put the page back on the page queue.
    Requeue(String, String),
    /// The page's retry budget is exhausted: it was dropped.
    GiveUp,
}

/// What the driver must do with a failed blob fetch.
pub enum BlobRetry {
    /// Put the blob back on the blob queue.
    Requeue(ContentToRetrieve),
    /// The blob's retry budget is exhausted: it was dropped.
    GiveUp,
}

/// The state the coordinator steers the run by.
pub struct Coordinator {
    /// In-flight counters, user-facing statistics and the throttle flag.
    pub state: RunState,
    /// Attempts granted to each URL (first try included).
    pub retries: usize,
    /// Remaining attempts per failed URL.
    pub budget: RetryBudget,
    /// When the active throttle backoff started, if one is active.
    pub backoff_started: Option<i64>,
    /// Pages dropped after their budget ran out.
    pub page_give_ups: usize,
    /// Blobs dropped after their budget ran out.
    pub blob_give_ups: usize,
    /// Blob failures reported by the fetch stage itself.
    pub blob_status_errors: usize,
    /// Set when a blob counter would have gone below zero: the saturating
    /// subtraction kept the counter at zero, and the balance law no longer
    /// applies to this run.
    pub counter_underflow: bool,
}

impl Coordinator {
    /// A throttle backoff is currently active.
    pub open spec fn backoff_active(self) -> bool {
        self.backoff_started is Some
    }

    /// The coordinator's invariants. The balance clause is the counter
    /// accounting the termination decision rests on: every found blob is
    /// still in flight or was retrieved, errored or given up.
    pub open spec fn wf(self) -> bool {
        &&& self.retries >= 1
        &&& self.budget.wf(self.retries as int)
        &&& self.state.rate_limited == (self.backoff_started is Some)
        &&& self.state.stats.blobs_error == self.blob_status_errors + self.page_give_ups
            + self.blob_give_ups
        &&& self.state.awaiting_content_blobs <= self.state.stats.blobs_found
        &&& !self.counter_underflow ==> self.state.stats.blobs_found
            == self.state.stats.blobs_successful + self.blob_status_errors + self.blob_give_ups
            + self.state.awaiting_content_blobs
    }

    /// The termination predicate: no feed page and no blob is in flight.
    pub open spec fn done(self) -> bool {
        self.state.awaiting_content_types == 0 && self.state.awaiting_content_blobs == 0
    }

    /// A fresh coordinator for a run with `seed_count` seed pages.
    pub fn new(seed_count: usize, retries: usize) -> (r: Coordinator)
        requires
            retries >= 1,
        ensures
            r.wf(),
            r.state.awaiting_content_types == seed_count,
            r.state.awaiting_content_blobs == 0,
            r.state.stats == (RunStatistics {
                blobs_found: 0,
                blobs_successful: 0,
                blobs_error: 0,
                blobs_retried: 0,
            }),
            !r.state.rate_limited,
            r.retries == retries,
            r.backoff_started is None,
            r.page_give_ups == 0,
            r.blob_give_ups == 0,
            r.blob_status_errors == 0,
            !r.counter_underflow,
            forall|u: Seq<char>| r.budget.entry_of(u) is None,
    {
        Coordinator {
            state: RunState {
                awaiting_content_types: seed_count,
                awaiting_content_blobs: 0,
                stats: RunStatistics::new(),
                rate_limited: false,
            },
            retries,
            budget: RetryBudget::new(),
            backoff_started: None,
            page_give_ups: 0,
            blob_give_ups: 0,
            blob_status_errors: 0,
            counter_underflow: false,
        }
    }

    /// Clears the throttle backoff once 30 seconds have passed.
    pub fn release_backoff(&mut self, now: i64)
        requires
            old(self).wf(),
        ensures
            final(self).wf(),
            final(self).backoff_started == (if old(self).backoff_started matches Some(t) && now - t
                >= 30 {
                Option::<i64>::None
            } else {
                old(self).backoff_started
            }),
            final(self).state.awaiting_content_types == old(self).state.awaiting_content_types,
            final(self).state.awaiting_content_blobs == old(self).state.awaiting_content_blobs,
            final(self).state.stats == old(self).state.stats,
            final(self).retries == old(self).retries,
            final(self).budget == old(self).budget,
            final(self).page_give_ups == old(self).page_give_ups,
            final(self).blob_give_ups == old(self).blob_give_ups,
            final(self).blob_status_errors == old(self).blob_status_errors,
            final(self).counter_underflow == old(self).counter_underflow,
    {
        match self.backoff_started {
            Some(t) => {
                if (now as i128) - (t as i128) >= 30 {
                    self.backoff_started = None;
                    self.state.rate_limited = false;
                }
            },
            None => {},
        }
    }

    /// Applies one status message: adjusts the in-flight counters and the
    /// statistics per variant, starts a throttle backoff on `BeingThrottled`
    /// if none is active, and reports whether the message resolved the last
    /// in-flight work unit, upon which the loop must stop.
    pub fn handle_status(&mut self, msg: &StatusMessage, now: i64) -> (stop: bool)
        requires
            old(self).wf(),
            match msg {
                StatusMessage::FoundNewContentBlob => old(self).state.stats.blobs_found
                    < usize::MAX,
                StatusMessage::RetrievedContentBlob => old(self).state.stats.blobs_successful
                    < usize::MAX,
                StatusMessage::ErrorContentBlob => old(self).blob_status_errors < usize::MAX
                    && old(self).state.stats.blobs_error < usize::MAX,
                _ => true,
            },
        ensures
            final(self).wf(),
            final(self).retries == old(self).retries,
            final(self).budget == old(self).budget,
            final(self).page_give_ups == old(self).page_give_ups,
            final(self).blob_give_ups == old(self).blob_give_ups,
            final(self).state.stats.blobs_retried == old(self).state.stats.blobs_retried,
            stop == (match msg {
                StatusMessage::FinishedContentBlobs => final(self).done(),
                StatusMessage::RetrievedContentBlob => final(self).done(),
                StatusMessage::ErrorContentBlob => final(self).done(),
                _ => false,
            }),
            match msg {
                StatusMessage::FoundNewContentBlob => {
                    &&& final(self).state.stats.blobs_found == old(self).state.stats.blobs_found
                        + 1
                    &&& final(self).state.awaiting_content_blobs == old(
                        self,
                    ).state.awaiting_content_blobs + 1
                    &&& final(self).state.awaiting_content_types == old(
                        self,
                    ).state.awaiting_content_types
                    &&& final(self).state.stats.blobs_successful == old(
                        self,
                    ).state.stats.blobs_successful
                    &&& final(self).state.stats.blobs_error == old(self).state.stats.blobs_error
                    &&& final(self).blob_status_errors == old(self).blob_status_errors
                    &&& final(self).backoff_started == old(self).backoff_started
                    &&& final(self).counter_underflow == old(self).counter_underflow
                },
                StatusMessage::FinishedContentBlobs => {
                    &&& final(self).state.awaiting_content_types == (
                    if old(self).state.awaiting_content_types > 0 {
                        old(self).state.awaiting_content_types - 1
                    } else {
                        0int
                    })
                    &&& final(self).state.awaiting_content_blobs == old(
                        self,
                    ).state.awaiting_content_blobs
                    &&& final(self).state.stats == old(self).state.stats
                    &&& final(self).blob_status_errors == old(self).blob_status_errors
                    &&& final(self).backoff_started == old(self).backoff_started
                    &&& final(self).counter_underflow == old(self).counter_underflow
                },
                StatusMessage::RetrievedContentBlob => {
                    &&& final(self).state.stats.blobs_successful == old(
                        self,
                    ).state.stats.blobs_successful + 1
                    &&& final(self).state.awaiting_content_blobs == (
                    if old(self).state.awaiting_content_blobs > 0 {
                        old(self).state.awaiting_content_blobs - 1
                    } else {
                        0int
                    })
                    &&& final(self).counter_underflow == (old(self).counter_underflow || old(
                        self,
                    ).state.awaiting_content_blobs == 0)
                    &&& final(self).state.awaiting_content_types == old(
                        self,
                    ).state.awaiting_content_types
                    &&& final(self).state.stats.blobs_found == old(self).state.stats.blobs_found
                    &&& final(self).state.stats.blobs_error == old(self).state.stats.blobs_error
                    &&& final(self).blob_status_errors == old(self).blob_status_errors
                    &&& final(self).backoff_started == old(self).backoff_started
                },
                StatusMessage::ErrorContentBlob => {
                    &&& final(self).state.stats.blobs_error == old(self).state.stats.blobs_error
                        + 1
                    &&& final(self).blob_status_errors == old(self).blob_status_errors + 1
                    &&& final(self).state.awaiting_content_blobs == (
                    if old(self).state.awaiting_content_blobs > 0 {
                        old(self).state.awaiting_content_blobs - 1
                    } else {
                        0int
                    })
                    &&& final(self).counter_underflow == (old(self).counter_underflow || old(
                        self,
                    ).state.awaiting_content_blobs == 0)
                    &&& final(self).state.awaiting_content_types == old(
                        self,
                    ).state.awaiting_content_types
                    &&& final(self).state.stats.blobs_found == old(self).state.stats.blobs_found
                    &&& final(self).state.stats.blobs_successful == old(
                        self,
                    ).state.stats.blobs_successful
                    &&& final(self).backoff_started == old(self).backoff_started
                },
                StatusMessage::BeingThrottled => {
                    &&& final(self).backoff_started == (if old(self).backoff_started is None {
                        Some(now)
                    } else {
                        old(self).backoff_started
                    })
                    &&& final(self).state.awaiting_content_types == old(
                        self,
                    ).state.awaiting_content_types
                    &&& final(self).state.awaiting_content_blobs == old(
                        self,
                    ).state.awaiting_content_blobs
                    &&& final(self).state.stats == old(self).state.stats
                    &&& final(self).blob_status_errors == old(self).blob_status_errors
                    &&& final(self).counter_underflow == old(self).counter_underflow
                },
            },
    {
        match msg {
            StatusMessage::FoundNewContentBlob => {
                self.state.awaiting_content_blobs = self.state.awaiting_content_blobs + 1;
                self.state.stats.blobs_found = self.state.stats.blobs_found + 1;
                false
            },
            StatusMessage::FinishedContentBlobs => {
                if self.state.awaiting_content_types > 0 {
                    self.state.awaiting_content_types = self.state.awaiting_content_types - 1;
                }
                self.check_done()
            },
            StatusMessage::RetrievedContentBlob => {
                if self.state.awaiting_content_blobs > 0 {
                    self.state.awaiting_content_blobs = self.state.awaiting_content_blobs - 1;
                } else {
                    self.counter_underflow = true;
                }
                self.state.stats.blobs_successful = self.state.stats.blobs_successful + 1;
                self.check_done()
            },
            StatusMessage::ErrorContentBlob => {
                if self.state.awaiting_content_blobs > 0 {
                    self.state.awaiting_content_blobs = self.state.awaiting_content_blobs - 1;
                } else {
                    self.counter_underflow = true;
                }
                self.state.stats.blobs_error = self.state.stats.blobs_error + 1;
                self.blob_status_errors = self.blob_status_errors + 1;
                self.check_done()
            },
            StatusMessage::BeingThrottled => {
                if self.backoff_started.is_none() {
                    self.backoff_started = Some(now);
                    self.state.rate_limited = true;
                }
                false
            },
        }
    }

    /// Applies one failed page fetch: re-enqueues the page while its budget
    /// lasts (without consuming budget while a backoff is active), and
    /// otherwise drops it, releasing its feed slot. While a backoff is
    /// active, the attempts left of every URL already in the budget stay
    /// unchanged.
    pub fn handle_page_error(&mut self, content_type: String, url: String) -> (r: PageRetry)
        requires
            old(self).wf(),
            old(self).state.stats.blobs_retried < usize::MAX,
            old(self).state.stats.blobs_error < usize::MAX,
            old(self).page_give_ups < usize::MAX,
        ensures
            final(self).wf(),
            final(self).retries == old(self).retries,
            final(self).backoff_started == old(self).backoff_started,
            final(self).counter_underflow == old(self).counter_underflow,
            final(self).blob_give_ups == old(self).blob_give_ups,
            final(self).blob_status_errors == old(self).blob_status_errors,
            final(self).state.awaiting_content_blobs == old(self).state.awaiting_content_blobs,
            final(self).state.stats.blobs_found == old(self).state.stats.blobs_found,
            final(self).state.stats.blobs_successful == old(self).state.stats.blobs_successful,
            // the decision and its bookkeeping
            (r is GiveUp) == (old(self).budget.entry_of(url@) matches Some(o) && o.remaining
                == 0),
            r matches PageRetry::Requeue(ct, u) ==> ct@ == content_type@ && u@ == url@,
            r is GiveUp ==> {
                &&& final(self).state.stats.blobs_error == old(self).state.stats.blobs_error + 1
                &&& final(self).page_give_ups == old(self).page_give_ups + 1
                &&& final(self).state.awaiting_content_types == (
                if old(self).state.awaiting_content_types > 0 {
                    old(self).state.awaiting_content_types - 1
                } else {
                    0int
                })
                &&& final(self).state.stats.blobs_retried == old(self).state.stats.blobs_retried
            },
            r is Requeue ==> {
                &&& final(self).state.stats.blobs_retried == old(self).state.stats.blobs_retried
                    + 1
                &&& final(self).state.stats.blobs_error == old(self).state.stats.blobs_error
                &&& final(self).page_give_ups == old(self).page_give_ups
                &&& final(self).state.awaiting_content_types == old(
                    self,
                ).state.awaiting_content_types
            },
            // the budget steps as the retry protocol says
            match old(self).budget.entry_of(url@) {
                None => final(self).budget.entry_of(url@) matches Some(e) && e.remaining == old(
                    self,
                ).retries - 1 && e.requeues@ == 1 && e.throttled_requeues@ == 0 && e.give_ups@
                    == 0,
                Some(o) => {
                    if o.remaining == 0 {
                        final(self).budget.entry_of(url@) matches Some(e) && e.remaining == 0
                            && e.requeues@ == o.requeues@ && e.give_ups@ == o.give_ups@ + 1
                    } else {
                        final(self).budget.entry_of(url@) matches Some(e) && e.remaining == (
                        if old(self).backoff_active() {
                            o.remaining as int
                        } else {
                            o.remaining - 1
                        }) && e.requeues@ == o.requeues@ + 1
                    }
                },
            },
            forall|u: Seq<char>| u != url@ ==> final(self).budget.entry_of(u) == old(
                self,
            ).budget.entry_of(u),
            // throttle safety
            old(self).backoff_active() ==> forall|u: Seq<char>|
                #![trigger old(self).budget.entry_of(u)]
                match (old(self).budget.entry_of(u), final(self).budget.entry_of(u)) {
                    (Some(o), Some(e)) => e.remaining == o.remaining,
                    (Some(o), None) => false,
                    (None, _) => true,
                },
    {
        let throttled = self.backoff_started.is_some();
        let retries = self.retries;
        match self.budget.decide(&url, retries, throttled) {
            RetryDecision::GiveUp => {
                if self.state.awaiting_content_types > 0 {
                    self.state.awaiting_content_types = self.state.awaiting_content_types - 1;
                }
                self.state.stats.blobs_error = self.state.stats.blobs_error + 1;
                self.page_give_ups = self.page_give_ups + 1;
                PageRetry::GiveUp
            },
            RetryDecision::Requeue => {
                self.state.stats.blobs_retried = self.state.stats.blobs_retried + 1;
                PageRetry::Requeue(content_type, url)
            },
        }
    }

    /// Applies one failed blob fetch: re-enqueues the blob while its budget
    /// lasts (without consuming budget while a backoff is active), and
    /// otherwise drops it, releasing its in-flight slot. While a backoff is
    /// active, the attempts left of every URL already in the budget stay
    /// unchanged.
    pub fn handle_blob_error(&mut self, content: ContentToRetrieve) -> (r: BlobRetry)
        requires
            old(self).wf(),
            old(self).state.stats.blobs_retried < usize::MAX,
            old(self).state.stats.blobs_error < usize::MAX,
            old(self).blob_give_ups < usize::MAX,
        ensures
            final(self).wf(),
            final(self).retries == old(self).retries,
            final(self).backoff_started == old(self).backoff_started,
            final(self).page_give_ups == old(self).page_give_ups,
            final(self).blob_status_errors == old(self).blob_status_errors,
            final(self).state.awaiting_content_types == old(self).state.awaiting_content_types,
            final(self).state.stats.blobs_found == old(self).state.stats.blobs_found,
            final(self).state.stats.blobs_successful == old(self).state.stats.blobs_successful,
            (r is GiveUp) == (old(self).budget.entry_of(content.url@) matches Some(o)
                && o.remaining == 0),
            r matches BlobRetry::Requeue(c) ==> c.content_type@ == content.content_type@
                && c.content_id@ == content.content_id@ && c.expiration@ == content.expiration@
                && c.url@ == content.url@,
            r is GiveUp ==> {
                &&& final(self).state.stats.blobs_error == old(self).state.stats.blobs_error + 1
                &&& final(self).blob_give_ups == old(self).blob_give_ups + 1
                &&& final(self).state.awaiting_content_blobs == (
                if old(self).state.awaiting_content_blobs > 0 {
                    old(self).state.awaiting_content_blobs - 1
                } else {
                    0int
                })
                &&& final(self).counter_underflow == (old(self).counter_underflow || old(
                    self,
                ).state.awaiting_content_blobs == 0)
                &&& final(self).state.stats.blobs_retried == old(self).state.stats.blobs_retried
            },
            r is Requeue ==> {
                &&& final(self).state.stats.blobs_retried == old(self).state.stats.blobs_retried
                    + 1
                &&& final(self).state.stats.blobs_error == old(self).state.stats.blobs_error
                &&& final(self).blob_give_ups == old(self).blob_give_ups
                &&& final(self).state.awaiting_content_blobs == old(
                    self,
                ).state.awaiting_content_blobs
                &&& final(self).counter_underflow == old(self).counter_underflow
            },
            match old(self).budget.entry_of(content.url@) {
                None => final(self).budget.entry_of(content.url@) matches Some(e) && e.remaining
                    == old(self).retries - 1 && e.requeues@ == 1 && e.throttled_requeues@ == 0
                    && e.give_ups@ == 0,
                Some(o) => {
                    if o.remaining == 0 {
                        final(self).budget.entry_of(content.url@) matches Some(e) && e.remaining
                            == 0 && e.requeues@ == o.requeues@ && e.give_ups@ == o.give_ups@ + 1
                    } else {
                        final(self).budget.entry_of(content.url@) matches Some(e) && e.remaining
                            == (if old(self).backoff_active() {
                            o.remaining as int
                        } else {
                            o.remaining - 1
                        }) && e.requeues@ == o.requeues@ + 1
                    }
                },
            },
            forall|u: Seq<char>| u != content.url@ ==> final(self).budget.entry_of(u) == old(
                self,
            ).budget.entry_of(u),
            old(self).backoff_active() ==> forall|u: Seq<char>|
                #![trigger old(self).budget.entry_of(u)]
                match (old(self).budget.entry_of(u), final(self).budget.entry_of(u)) {
                    (Some(o), Some(e)) => e.remaining == o.remaining,
                    (Some(o), None) => false,
                    (None, _) => true,
                },
    {
        let throttled = self.backoff_started.is_some();
        let retries = self.retries;
        match self.budget.decide(&content.url, retries, throttled) {
            RetryDecision::GiveUp => {
                if self.state.awaiting_content_blobs > 0 {
                    self.state.awaiting_content_blobs = self.state.awaiting_content_blobs - 1;
                } else {
                    self.counter_underflow = true;
                }
                self.state.stats.blobs_error = self.state.stats.blobs_error + 1;
                self.blob_give_ups = self.blob_give_ups + 1;
                BlobRetry::GiveUp
            },
            RetryDecision::Requeue => {
                self.state.stats.blobs_retried = self.state.stats.blobs_retried + 1;
                BlobRetry::Requeue(content)
            },
        }
    }

    /// The termination predicate over the two in-flight counters.
    pub fn check_done(&self) -> (r: bool)
        ensures
            r == self.done(),
    {
        self.state.awaiting_content_types == 0 && self.state.awaiting_content_blobs == 0
    }

    /// Termination: the loop stops exactly when a kill signal arrived or
    /// both in-flight counters are zero.
    pub fn should_stop(&self, kill: bool) -> (r: bool)
        ensures
            r == (kill || self.done()),
    {
        kill || self.check_done()
    }

    /// The final statistics message, in the order the driver reports them:
    /// found, successful, retried, error.
    pub fn final_stats(&self) -> (r: (usize, usize, usize, usize))
        ensures
            r.0 == self.state.stats.blobs_found,
            r.1 == self.state.stats.blobs_successful,
            r.2 == self.state.stats.blobs_retried,
            r.3 == self.state.stats.blobs_error,
    {
        (
            self.state.stats.blobs_found,
            self.state.stats.blobs_successful,
            self.state.stats.blobs_retried,
            self.state.stats.blobs_error,
        )
    }
}

/// Counter balance: when the coordinator terminates without ever saturating
/// a counter, the number of found blobs equals the number of retrieved blobs
/// plus the number of errored blobs plus the number of blob give-ups.
pub proof fn lemma_counter_balance(c: Coordinator)
    requires
        c.wf(),
        !c.counter_underflow,
        c.done(),
    ensures
        c.state.stats.blobs_found == c.state.stats.blobs_successful + c.blob_status_errors
            + c.blob_give_ups,
{
}

/// Retry budget: for any URL the budget knows, the re-enqueues that consumed
/// budget never exceed `retries`; every re-enqueue beyond that happened
/// while a throttle backoff was active. A URL whose failures all happened
/// outside a backoff, and which failed at most `retries + 1` times, is given
/// up at most once.
pub proof fn lemma_retry_budget(c: Coordinator, url: Seq<char>)
    requires
        c.wf(),
    ensures
        c.budget.entry_of(url) matches Some(e) ==> {
            &&& e.requeues@ <= c.retries + e.throttled_requeues@
            &&& e.throttled_requeues@ == 0 ==> e.requeues@ <= c.retries
            &&& (e.throttled_requeues@ == 0 && e.requeues@ + e.give_ups@ <= c.retries + 1)
                ==> e.give_ups@ <= 1
        },
{
    lemma_entry_of_wf(c.budget, url, c.retries as int);
    match c.budget.entry_of(url) {
        Some(e) => {
            assert(entry_wf(e, c.retries as int));
        },
        None => {},
    }
}

} // verus!
