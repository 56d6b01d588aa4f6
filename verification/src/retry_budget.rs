//! The per-URL retry budget of the coordinator. A URL enters the budget on
//! its first failure with `retries - 1` attempts left; later failures
//! consume one attempt each — except while a throttle backoff is active —
//! and a failure with no attempts left gives the URL up. Ghost counters on
//! each entry carry the re-enqueue accounting that the retry-budget law is
//! stated over.

use crate::text::str_eq;
use vstd::prelude::*;

verus! {

/// The bookkeeping for one URL that has failed at least once.
pub struct BudgetEntry {
    /// Attempts left before the URL is given up.
    pub remaining: usize,
    /// How many times the coordinator has re-enqueued this URL.
    pub requeues: Ghost<int>,
    /// How many of those re-enqueues happened while a throttle backoff was
    /// active (they leave `remaining` untouched).
    pub throttled_requeues: Ghost<int>,
    /// How many times the coordinator has given this URL up.
    pub give_ups: Ghost<int>,
}

/// What the coordinator does with a failed work unit.
pub enum RetryDecision {
    /// Put the unit back on its queue.
    Requeue,
    /// Drop the unit and release its in-flight slot.
    GiveUp,
}

/// The budget entry, if any, for a URL; the first entry with that URL wins.
pub open spec fn find_entry(es: Seq<(String, BudgetEntry)>, url: Seq<char>) -> Option<BudgetEntry>
    decreases es.len(),
{
    if es.len() == 0 {
        None
    } else if es[0].0@ == url {
        Some(es[0].1)
    } else {
        find_entry(es.skip(1), url)
    }
}

/// The invariants of one entry, against the configured number of retries:
/// the attempts left never exceed `retries - 1`; every re-enqueue either
/// consumed an attempt or was throttled; a URL is only given up with no
/// attempts left.
pub open spec fn entry_wf(e: BudgetEntry, retries: int) -> bool {
    &&& e.remaining <= retries - 1
    &&& e.throttled_requeues@ >= 0
    &&& e.give_ups@ >= 0
    &&& e.requeues@ == retries - e.remaining + e.throttled_requeues@
    &&& e.give_ups@ >= 1 ==> e.remaining == 0
}

/// Mapping {URL -> remaining attempts}, held as an association list; a URL
/// appears here only after it has failed at least once.
pub struct RetryBudget {
    pub entries: Vec<(String, BudgetEntry)>,
}

impl RetryBudget {
    /// Every entry obeys `entry_wf`.
    pub open spec fn wf(self, retries: int) -> bool {
        forall|i: int| 0 <= i < self.entries@.len() ==> entry_wf(#[trigger] self.entries@[i].1, retries)
    }

    /// The budget entry for a URL, if the URL has failed before.
    pub open spec fn entry_of(self, url: Seq<char>) -> Option<BudgetEntry> {
        find_entry(self.entries@, url)
    }

    /// An empty budget.
    pub fn new() -> (r: RetryBudget)
        ensures
            r.entries@.len() == 0,
            forall|u: Seq<char>| r.entry_of(u) is None,
    {
        let r = RetryBudget { entries: Vec::new() };
        assert(forall|u: Seq<char>| r.entry_of(u) is None);
        r
    }

    /// Registers one failure of `url` and decides its fate, as the
    /// coordinator's drain loop does: a first failure enters the budget with
    /// `retries - 1` attempts and is re-enqueued; a later failure with
    /// attempts left is re-enqueued, consuming one attempt unless `throttled`
    /// holds; a failure with no attempts left is given up. While throttled,
    /// the attempts left of every known URL stay unchanged.
    pub fn decide(&mut self, url: &String, retries: usize, throttled: bool) -> (d: RetryDecision)
        requires
            retries >= 1,
            old(self).wf(retries as int),
        ensures
            final(self).wf(retries as int),
            // the URL's own entry steps as the protocol says
            match old(self).entry_of(url@) {
                None => {
                    &&& d is Requeue
                    &&& final(self).entry_of(url@) matches Some(e) && e.remaining == retries - 1
                        && e.requeues@ == 1 && e.throttled_requeues@ == 0 && e.give_ups@ == 0
                },
                Some(o) => {
                    if o.remaining == 0 {
                        &&& d is GiveUp
                        &&& final(self).entry_of(url@) matches Some(e) && e.remaining == 0
                            && e.requeues@ == o.requeues@
                            && e.throttled_requeues@ == o.throttled_requeues@
                            && e.give_ups@ == o.give_ups@ + 1
                    } else {
                        &&& d is Requeue
                        &&& final(self).entry_of(url@) matches Some(e)
                            && e.remaining == (if throttled { o.remaining as int } else { o.remaining - 1 })
                            && e.requeues@ == o.requeues@ + 1
                            && e.throttled_requeues@ == o.throttled_requeues@
                                + (if throttled { 1int } else { 0int })
                            && e.give_ups@ == o.give_ups@
                    }
                },
            },
            // no other URL's entry moves
            forall|u: Seq<char>| u != url@ ==> final(self).entry_of(u) == old(self).entry_of(u),
            // throttle safety: while a backoff is active the attempts left of
            // every URL already in the budget are unchanged
            throttled ==> forall|u: Seq<char>|
                #![trigger old(self).entry_of(u)]
                match (old(self).entry_of(u), final(self).entry_of(u)) {
                    (Some(o), Some(e)) => e.remaining == o.remaining,
                    (Some(o), None) => false,
                    (None, _) => true,
                },
    {
        let n = self.entries.len();
        let mut i: usize = 0;
        assert(old(self).entries@.skip(0) =~= old(self).entries@);
        while i < n
            invariant
                *self == *old(self),
                retries >= 1,
                old(self).wf(retries as int),
                n == self.entries@.len(),
                i <= n,
                forall|j: int| 0 <= j < i ==> self.entries@[j].0@ != url@,
                forall|u: Seq<char>| find_entry(self.entries@, u) == find_entry(
                    self.entries@.skip(i as int),
                    u,
                ) || exists|j: int|
                    0 <= j < i && self.entries@[j].0@ == u,
            decreases n - i,
        {
            if str_eq(self.entries[i].0.as_str(), url.as_str()) {
                proof {
                    lemma_find_entry_first(self.entries@, i as int, url@);
                }
                let e_remaining = self.entries[i].1.remaining;
                let ghost o = self.entries@[i as int].1;
                if e_remaining == 0 {
                    let key = self.entries[i].0.clone();
                    let new_entry = BudgetEntry {
                        remaining: 0,
                        requeues: Ghost(o.requeues@),
                        throttled_requeues: Ghost(o.throttled_requeues@),
                        give_ups: Ghost(o.give_ups@ + 1),
                    };
                    self.entries[i] = (key, new_entry);
                    proof {
                        lemma_find_entry_update(old(self).entries@, i as int, url@, new_entry, self.entries@);
                        assert(entry_wf(old(self).entries@[i as int].1, retries as int));
                        assert forall|j: int| 0 <= j < self.entries@.len() implies entry_wf(
                            #[trigger] self.entries@[j].1,
                            retries as int,
                        ) by {
                            if j != i as int {
                                assert(self.entries@[j] == old(self).entries@[j]);
                                assert(entry_wf(old(self).entries@[j].1, retries as int));
                            }
                        }
                    }
                    return RetryDecision::GiveUp;
                } else {
                    let new_remaining = if throttled {
                        e_remaining
                    } else {
                        e_remaining - 1
                    };
                    let key = self.entries[i].0.clone();
                    let new_entry = BudgetEntry {
                        remaining: new_remaining,
                        requeues: Ghost(o.requeues@ + 1),
                        throttled_requeues: Ghost(
                            o.throttled_requeues@ + if throttled {
                                1int
                            } else {
                                0int
                            },
                        ),
                        give_ups: Ghost(o.give_ups@),
                    };
                    self.entries[i] = (key, new_entry);
                    proof {
                        lemma_find_entry_update(old(self).entries@, i as int, url@, new_entry, self.entries@);
                        assert(entry_wf(old(self).entries@[i as int].1, retries as int));
                        assert forall|j: int| 0 <= j < self.entries@.len() implies entry_wf(
                            #[trigger] self.entries@[j].1,
                            retries as int,
                        ) by {
                            if j != i as int {
                                assert(self.entries@[j] == old(self).entries@[j]);
                                assert(entry_wf(old(self).entries@[j].1, retries as int));
                            }
                        }
                    }
                    return RetryDecision::Requeue;
                }
            }
            proof {
                assert(self.entries@.skip(i as int)[0] == self.entries@[i as int]);
                assert(self.entries@.skip(i as int).skip(1) =~= self.entries@.skip(i as int + 1));
            }
            i = i + 1;
        }
        assert(self.entries@.skip(n as int) =~= Seq::<(String, BudgetEntry)>::empty());
        assert(old(self).entry_of(url@) is None);
        let new_entry = BudgetEntry {
            remaining: retries - 1,
            requeues: Ghost(1),
            throttled_requeues: Ghost(0),
            give_ups: Ghost(0),
        };
        self.entries.push((url.clone(), new_entry));
        proof {
            lemma_find_entry_push(old(self).entries@, url@, new_entry, self.entries@);
            assert forall|j: int| 0 <= j < self.entries@.len() implies entry_wf(
                #[trigger] self.entries@[j].1,
                retries as int,
            ) by {
                if j < old(self).entries@.len() {
                    assert(self.entries@[j] == old(self).entries@[j]);
                    assert(entry_wf(old(self).entries@[j].1, retries as int));
                } else {
                    assert(self.entries@[j].1 == new_entry);
                }
            }
        }
        RetryDecision::Requeue
    }
}

proof fn lemma_find_entry_first(es: Seq<(String, BudgetEntry)>, i: int, url: Seq<char>)
    requires
        0 <= i < es.len(),
        es[i].0@ == url,
        forall|j: int| 0 <= j < i ==> es[j].0@ != url,
    ensures
        find_entry(es, url) == Some(es[i].1),
    decreases i,
{
    if i == 0 {
    } else {
        lemma_find_entry_first(es.skip(1), i - 1, url);
        assert(es.skip(1)[i - 1] == es[i]);
    }
}

proof fn lemma_find_entry_update(
    es: Seq<(String, BudgetEntry)>,
    i: int,
    url: Seq<char>,
    ne: BudgetEntry,
    new_es: Seq<(String, BudgetEntry)>,
)
    requires
        0 <= i < es.len(),
        es[i].0@ == url,
        forall|j: int| 0 <= j < i ==> es[j].0@ != url,
        new_es.len() == es.len(),
        new_es[i].0@ == url,
        new_es[i].1 == ne,
        forall|j: int| 0 <= j < es.len() && j != i ==> new_es[j] == es[j],
    ensures
        find_entry(new_es, url) == Some(ne),
        forall|u: Seq<char>| u != url ==> find_entry(new_es, u) == find_entry(es, u),
    decreases i,
{
    if i == 0 {
        assert forall|u: Seq<char>| u != url implies find_entry(new_es, u) == find_entry(
            es,
            u,
        ) by {
            assert(new_es.skip(1) =~= es.skip(1));
        }
    } else {
        assert(es.skip(1)[i - 1] == es[i]);
        assert(new_es.skip(1)[i - 1] == new_es[i]);
        assert forall|j: int| 0 <= j < es.skip(1).len() && j != i - 1 implies new_es.skip(1)[j]
            == es.skip(1)[j] by {
            assert(new_es.skip(1)[j] == new_es[j + 1]);
            assert(es.skip(1)[j] == es[j + 1]);
        }
        assert forall|j: int| 0 <= j < i - 1 implies es.skip(1)[j].0@ != url by {
            assert(es.skip(1)[j] == es[j + 1]);
        }
        lemma_find_entry_update(es.skip(1), i - 1, url, ne, new_es.skip(1));
        assert(new_es[0] == es[0]);
        assert(es[0].0@ != url);
        assert forall|u: Seq<char>| u != url implies find_entry(new_es, u) == find_entry(
            es,
            u,
        ) by {
            if new_es[0].0@ != u {
                assert(find_entry(new_es.skip(1), u) == find_entry(es.skip(1), u));
            }
        }
    }
}

proof fn lemma_find_entry_push(
    es: Seq<(String, BudgetEntry)>,
    url: Seq<char>,
    ne: BudgetEntry,
    new_es: Seq<(String, BudgetEntry)>,
)
    requires
        find_entry(es, url) is None,
        new_es.len() == es.len() + 1,
        new_es[es.len() as int].0@ == url,
        new_es[es.len() as int].1 == ne,
        forall|j: int| 0 <= j < es.len() ==> new_es[j] == es[j],
    ensures
        find_entry(new_es, url) == Some(ne),
        forall|u: Seq<char>| u != url ==> find_entry(new_es, u) == find_entry(es, u),
    decreases es.len(),
{
    if es.len() == 0 {
        assert forall|u: Seq<char>| u != url implies find_entry(new_es, u) == find_entry(
            es,
            u,
        ) by {
            assert(new_es.skip(1) =~= es);
        }
    } else {
        assert forall|j: int| 0 <= j < es.skip(1).len() implies new_es.skip(1)[j] == es.skip(
            1,
        )[j] by {
            assert(new_es.skip(1)[j] == new_es[j + 1]);
            assert(es.skip(1)[j] == es[j + 1]);
        }
        assert(new_es.skip(1)[es.skip(1).len() as int] == new_es[es.len() as int]);
        lemma_find_entry_push(es.skip(1), url, ne, new_es.skip(1));
        assert(new_es[0] == es[0]);
        assert(es[0].0@ != url);
        assert forall|u: Seq<char>| u != url implies find_entry(new_es, u) == find_entry(
            es,
            u,
        ) by {
            if new_es[0].0@ != u {
                assert(find_entry(new_es.skip(1), u) == find_entry(es.skip(1), u));
            }
        }
    }
}

proof fn lemma_find_entry_is_entry(es: Seq<(String, BudgetEntry)>, url: Seq<char>)
    ensures
        find_entry(es, url) matches Some(e) ==> exists|i: int|
            0 <= i < es.len() && #[trigger] es[i].1 == e,
    decreases es.len(),
{
    if es.len() > 0 {
        lemma_find_entry_is_entry(es.skip(1), url);
        if es[0].0@ == url {
            assert(es[0].1 == es[0].1);
        } else {
            match find_entry(es, url) {
                Some(e) => {
                    let j = choose|j: int| 0 <= j < es.skip(1).len() && es.skip(1)[j].1 == e;
                    assert(es[j + 1].1 == e);
                },
                None => {},
            }
        }
    }
}

/// Every entry the budget hands out obeys the entry invariants.
pub proof fn lemma_entry_of_wf(b: RetryBudget, url: Seq<char>, retries: int)
    requires
        b.wf(retries),
    ensures
        b.entry_of(url) matches Some(e) ==> entry_wf(e, retries),
{
    lemma_find_entry_is_entry(b.entries@, url);
    match b.entry_of(url) {
        Some(e) => {
            let i = choose|i: int| 0 <= i < b.entries@.len() && b.entries@[i].1 == e;
            assert(entry_wf(b.entries@[i].1, retries));
        },
        None => {},
    }
}

} // verus!
