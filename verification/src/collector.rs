//! The result processor: takes each retrieved blob body, records the blob in
//! the known-blob store, splits the body into records, applies the
//! per-content-type filter, tags each surviving record with its origin feed,
//! and batches records per content type. A batch set is handed back to the
//! driver for sink fan-out whenever it reaches its capacity, and once more
//! at the end of the run.

use crate::data_structures::{bucket_index, Caches, ContentToRetrieve};
use crate::known_blobs::KnownBlobs;
use crate::records::{
    passes_filter, quote_string, quoted, rec_insert, record_passes_filter, records_of, Record,
    RecordView,
};
use crate::text::dec_chars;
use vstd::prelude::*;
use vstd::string::StringExecFns;

verus! {

/// The filter of one content type, if one is configured; first entry wins.
pub open spec fn filters_get(
    fv: Seq<(Seq<char>, RecordView)>,
    ct: Seq<char>,
) -> Option<RecordView>
    decreases fv.len(),
{
    if fv.len() == 0 {
        None
    } else if fv[0].0 == ct {
        Some(fv[0].1)
    } else {
        filters_get(fv.skip(1), ct)
    }
}

/// The filter applied to records of a content type: the configured one, or
/// the empty filter, which every record passes.
pub open spec fn effective_filter(fv: Seq<(Seq<char>, RecordView)>, ct: Seq<char>) -> RecordView {
    match filters_get(fv, ct) {
        Some(f) => f,
        None => Seq::empty(),
    }
}

/// The configured record filters, one per content type that has one.
pub struct Filters {
    pub entries: Vec<(String, Record)>,
}

impl DeepView for Filters {
    type V = Seq<(Seq<char>, RecordView)>;

    open spec fn deep_view(&self) -> Seq<(Seq<char>, RecordView)> {
        self.entries.deep_view()
    }
}

impl Filters {
    /// No filters: every record of every content type is kept.
    pub fn new() -> (r: Filters)
        ensures
            r.deep_view() =~= Seq::<(Seq<char>, RecordView)>::empty(),
    {
        Filters { entries: Vec::new() }
    }

    /// Adds the filter of one content type.
    pub fn push(&mut self, content_type: String, filter: Record)
        ensures
            final(self).deep_view() =~= old(self).deep_view().push((content_type@, filter@)),
    {
        self.entries.push((content_type, filter));
        assert forall|j: int| 0 <= j < self.deep_view().len() implies self.deep_view()[j] == old(
            self,
        ).deep_view().push((content_type@, filter@))[j] by {
            if j < old(self).entries@.len() {
                assert(self.entries@[j] == old(self).entries@[j]);
            } else {
                assert(self.entries@[j] == (content_type, filter));
            }
        }
    }

    /// The filter configured for a content type.
    pub fn get<'a>(&'a self, ct: &str) -> (r: Option<&'a Record>)
        ensures
            match r {
                Some(f) => filters_get(self.deep_view(), ct@) == Some(f@),
                None => filters_get(self.deep_view(), ct@) is None,
            },
    {
        let ghost fv = self.deep_view();
        let n = self.entries.len();
        let mut i: usize = 0;
        assert(fv.skip(0) =~= fv);
        while i < n
            invariant
                fv == self.deep_view(),
                n == self.entries@.len(),
                n == fv.len(),
                i <= n,
                filters_get(fv, ct@) == filters_get(fv.skip(i as int), ct@),
            decreases n - i,
        {
            assert(fv[i as int] == (self.entries@[i as int].0@, self.entries@[i as int].1@));
            assert(fv.skip(i as int)[0] == fv[i as int]);
            assert(fv.skip(i as int).skip(1) =~= fv.skip(i as int + 1));
            if crate::text::str_eq(self.entries[i].0.as_str(), ct) {
                return Some(&self.entries[i].1);
            }
            i = i + 1;
        }
        assert(fv.skip(n as int) =~= Seq::<(Seq<char>, RecordView)>::empty());
        None
    }
}

/// A record as it is delivered to the sinks: tagged with its origin feed.
pub open spec fn tagged_log(log: RecordView, ct: Seq<char>) -> RecordView {
    rec_insert(log, "OriginFeed"@, quoted(ct))
}

/// The records of one bucket, as record views.
pub open spec fn bucket_views(c: Caches, b: int) -> Seq<RecordView> {
    c.bucket(b).map_values(|r: Record| r@)
}

/// How many of the records pass the filter.
pub open spec fn count_passing(recs: Seq<RecordView>, filter: RecordView) -> int
    decreases recs.len(),
{
    if recs.len() == 0 {
        0
    } else {
        (if passes_filter(recs[0], filter) {
            1int
        } else {
            0int
        }) + count_passing(recs.skip(1), filter)
    }
}

/// The records that pass the filter, in order, tagged with their origin
/// feed.
pub open spec fn passing_tagged(
    recs: Seq<RecordView>,
    filter: RecordView,
    ct: Seq<char>,
) -> Seq<RecordView>
    decreases recs.len(),
{
    if recs.len() == 0 {
        Seq::empty()
    } else {
        (if passes_filter(recs[0], filter) {
            seq![tagged_log(recs[0], ct)]
        } else {
            Seq::<RecordView>::empty()
        }) + passing_tagged(recs.skip(1), filter, ct)
    }
}

/// The records of one bucket over a whole sequence of delivered batch sets.
pub open spec fn flushed_views(batches: Seq<Caches>, b: int) -> Seq<RecordView>
    decreases batches.len(),
{
    if batches.len() == 0 {
        Seq::empty()
    } else {
        bucket_views(batches[0], b) + flushed_views(batches.skip(1), b)
    }
}

/// Addition capped at the largest counter value.
pub open spec fn sat_add(a: int, n: int) -> int {
    if a + n <= usize::MAX {
        a + n
    } else {
        usize::MAX as int
    }
}

proof fn lemma_count_passing_snoc(recs: Seq<RecordView>, r: RecordView, filter: RecordView)
    ensures
        count_passing(recs.push(r), filter) == count_passing(recs, filter) + (if passes_filter(
            r,
            filter,
        ) {
            1int
        } else {
            0int
        }),
    decreases recs.len(),
{
    if recs.len() == 0 {
        assert(recs.push(r)[0] == r);
        assert(recs.push(r).skip(1) =~= recs);
    } else {
        lemma_count_passing_snoc(recs.skip(1), r, filter);
        assert(recs.push(r)[0] == recs[0]);
        assert(recs.push(r).skip(1) =~= recs.skip(1).push(r));
    }
}

proof fn lemma_passing_tagged_snoc(
    recs: Seq<RecordView>,
    r: RecordView,
    filter: RecordView,
    ct: Seq<char>,
)
    ensures
        passing_tagged(recs.push(r), filter, ct) == passing_tagged(recs, filter, ct) + (
        if passes_filter(r, filter) {
            seq![tagged_log(r, ct)]
        } else {
            Seq::<RecordView>::empty()
        }),
    decreases recs.len(),
{
    if recs.len() == 0 {
        assert(recs.push(r)[0] == r);
        assert(recs.push(r).skip(1) =~= recs);
        assert(passing_tagged(recs.push(r), filter, ct) =~= passing_tagged(recs, filter, ct) + (
        if passes_filter(r, filter) {
            seq![tagged_log(r, ct)]
        } else {
            Seq::<RecordView>::empty()
        }));
    } else {
        lemma_passing_tagged_snoc(recs.skip(1), r, filter, ct);
        assert(recs.push(r)[0] == recs[0]);
        assert(recs.push(r).skip(1) =~= recs.skip(1).push(r));
        assert(passing_tagged(recs.push(r), filter, ct) =~= passing_tagged(recs, filter, ct) + (
        if passes_filter(r, filter) {
            seq![tagged_log(r, ct)]
        } else {
            Seq::<RecordView>::empty()
        }));
    }
}

proof fn lemma_flushed_views_snoc(batches: Seq<Caches>, c: Caches, b: int)
    ensures
        flushed_views(batches.push(c), b) == flushed_views(batches, b) + bucket_views(c, b),
    decreases batches.len(),
{
    if batches.len() == 0 {
        assert(batches.push(c)[0] == c);
        assert(batches.push(c).skip(1) =~= batches);
        assert(flushed_views(batches.push(c), b) =~= flushed_views(batches, b) + bucket_views(
            c,
            b,
        ));
    } else {
        lemma_flushed_views_snoc(batches.skip(1), c, b);
        assert(batches.push(c)[0] == batches[0]);
        assert(batches.push(c).skip(1) =~= batches.skip(1).push(c));
        assert(flushed_views(batches.push(c), b) =~= flushed_views(batches, b) + bucket_views(
            c,
            b,
        ));
    }
}

/// The result processor: the known-blob store, the configured filters, the
/// current batch set, and the count of records saved so far.
pub struct ResultProcessor {
    pub known_blobs: KnownBlobs,
    pub filters: Filters,
    pub cache: Caches,
    pub saved: usize,
}

impl ResultProcessor {
    /// The processor's invariant: a real capacity, and the current batch set
    /// strictly below it (a full set is handed off at once).
    pub open spec fn wf(self) -> bool {
        &&& self.cache.size >= 1
        &&& self.cache.total() < self.cache.size
    }

    /// A fresh processor over a loaded known-blob store and the configured
    /// filters.
    pub fn new(cache_size: usize, known_blobs: KnownBlobs, filters: Filters) -> (r:
        ResultProcessor)
        requires
            cache_size >= 1,
        ensures
            r.wf(),
            r.known_blobs == known_blobs,
            r.filters == filters,
            r.cache.size == cache_size,
            r.cache.total() == 0,
            forall|b: int| 0 <= b < 5 ==> #[trigger] bucket_views(r.cache, b) == Seq::<
                RecordView,
            >::empty(),
            r.saved == 0,
    {
        let cache = Caches::new(cache_size);
        assert(forall|b: int| 0 <= b < 5 ==> #[trigger] bucket_views(cache, b) =~= Seq::<
            RecordView,
        >::empty());
        ResultProcessor { known_blobs, filters, cache, saved: 0 }
    }

    /// Handles one record of one blob: drops it if the content type's filter
    /// rejects it; otherwise tags it with `OriginFeed`, appends it to its
    /// bucket and — when the batch set reaches its capacity — swaps in a
    /// fresh batch set and hands the full one back. A handed-back batch set
    /// never holds more than the configured capacity.
    pub fn handle_log(&mut self, log: Record, content_type: &String) -> (flushed: Option<Caches>)
        requires
            old(self).wf(),
        ensures
            final(self).wf(),
            final(self).known_blobs == old(self).known_blobs,
            final(self).filters == old(self).filters,
            final(self).cache.size == old(self).cache.size,
            !passes_filter(
                log@,
                effective_filter(old(self).filters.deep_view(), content_type@),
            ) ==> {
                &&& final(self).cache == old(self).cache
                &&& final(self).saved == old(self).saved
                &&& flushed is None
            },
            passes_filter(
                log@,
                effective_filter(old(self).filters.deep_view(), content_type@),
            ) ==> {
                &&& final(self).saved == sat_add(old(self).saved as int, 1)
                &&& (flushed is Some) == (bucket_index(content_type@) >= 0 && old(
                    self,
                ).cache.total() + 1 >= old(self).cache.size)
                &&& match flushed {
                    Some(batch) => {
                        &&& batch.size == old(self).cache.size
                        &&& batch.total() <= old(self).cache.size
                        &&& forall|b: int| 0 <= b < 5 ==> #[trigger] bucket_views(batch, b) == (
                        if b == bucket_index(content_type@) {
                            bucket_views(old(self).cache, b).push(
                                tagged_log(log@, content_type@),
                            )
                        } else {
                            bucket_views(old(self).cache, b)
                        })
                        &&& final(self).cache.total() == 0
                        &&& forall|b: int| 0 <= b < 5 ==> #[trigger] bucket_views(
                            final(self).cache,
                            b,
                        ) == Seq::<RecordView>::empty()
                    },
                    None => {
                        forall|b: int| 0 <= b < 5 ==> #[trigger] bucket_views(
                            final(self).cache,
                            b,
                        ) == (if b == bucket_index(content_type@) {
                            bucket_views(old(self).cache, b).push(
                                tagged_log(log@, content_type@),
                            )
                        } else {
                            bucket_views(old(self).cache, b)
                        })
                    },
                }
            },
    {
        let pass = match self.filters.get(content_type.as_str()) {
            Some(f) => record_passes_filter(&log, f),
            None => true,
        };
        if !pass {
            return None;
        }
        let mut tagged = log;
        tagged.insert("OriginFeed".to_owned(), quote_string(content_type.as_str()));
        let ghost cache0 = self.cache;
        self.cache.insert(tagged, content_type);
        proof {
            assert forall|b: int| 0 <= b < 5 implies #[trigger] bucket_views(self.cache, b) == (
            if b == bucket_index(content_type@) {
                bucket_views(cache0, b).push(tagged_log(log@, content_type@))
            } else {
                bucket_views(cache0, b)
            }) by {
                if b == bucket_index(content_type@) {
                    assert(self.cache.bucket(b) == cache0.bucket(b).push(tagged));
                    assert(bucket_views(self.cache, b) =~= bucket_views(cache0, b).push(
                        tagged_log(log@, content_type@),
                    ));
                } else {
                    assert(self.cache.bucket(b) == cache0.bucket(b));
                }
            }
        }
        if self.saved < usize::MAX {
            self.saved = self.saved + 1;
        }
        if self.cache.full() {
            let size = self.cache.size;
            let mut fresh = Caches::new(size);
            core::mem::swap(&mut self.cache, &mut fresh);
            proof {
                assert(forall|b: int| 0 <= b < 5 ==> #[trigger] bucket_views(self.cache, b) =~=
                    Seq::<RecordView>::empty());
            }
            Some(fresh)
        } else {
            None
        }
    }

    /// Handles one retrieved blob: records the blob id in the known-blob
    /// store (whatever the filters later decide), parses the body as a JSON
    /// list of records and feeds each through `handle_log`, collecting every
    /// batch set that filled up on the way. Returns the number of records
    /// the body held and those full batch sets; a body that does not parse
    /// contributes nothing further.
    pub fn handle_content(&mut self, msg: &String, content: &ContentToRetrieve) -> (r: (
        usize,
        Vec<Caches>,
    ))
        requires
            old(self).wf(),
        ensures
            final(self).wf(),
            final(self).filters == old(self).filters,
            final(self).cache.size == old(self).cache.size,
            final(self).known_blobs@ == rec_insert(
                old(self).known_blobs@,
                content.content_id@,
                content.expiration@,
            ),
            match records_of(msg@) {
                None => {
                    &&& r.0 == 0
                    &&& r.1@.len() == 0
                    &&& final(self).cache == old(self).cache
                    &&& final(self).saved == old(self).saved
                },
                Some(recs) => {
                    &&& r.0 == recs.len()
                    &&& final(self).saved == sat_add(
                        old(self).saved as int,
                        count_passing(
                            recs,
                            effective_filter(
                                old(self).filters.deep_view(),
                                content.content_type@,
                            ),
                        ),
                    )
                    &&& forall|k: int| 0 <= k < r.1@.len() ==> (#[trigger] r.1@[k]).total()
                        <= old(self).cache.size && r.1@[k].size == old(self).cache.size
                    &&& forall|b: int| 0 <= b < 5 ==> #[trigger] flushed_views(r.1@, b)
                        + bucket_views(final(self).cache, b) == bucket_views(old(self).cache, b)
                        + (if b == bucket_index(content.content_type@) {
                        passing_tagged(
                            recs,
                            effective_filter(
                                old(self).filters.deep_view(),
                                content.content_type@,
                            ),
                            content.content_type@,
                        )
                    } else {
                        Seq::<RecordView>::empty()
                    })
                },
            },
    {
        self.known_blobs.insert(content.content_id.clone(), content.expiration.clone());
        let records = match crate::records::parse_records(msg.as_str()) {
            Some(records) => records,
            None => {
                return (0, Vec::new());
            },
        };
        let ghost recs = records.deep_view();
        let ghost filter = effective_filter(old(self).filters.deep_view(), content.content_type@);
        let ghost bi = bucket_index(content.content_type@);
        let mut batches: Vec<Caches> = Vec::new();
        let n = records.len();
        let mut i: usize = 0;
        assert(recs.take(0) =~= Seq::<RecordView>::empty());
        assert(forall|b: int| 0 <= b < 5 ==> #[trigger] flushed_views(batches@, b) =~= Seq::<
            RecordView,
        >::empty());
        while i < n
            invariant
                self.wf(),
                recs == records.deep_view(),
                filter == effective_filter(
                    old(self).filters.deep_view(),
                    content.content_type@,
                ),
                bi == bucket_index(content.content_type@),
                n == records@.len(),
                n == recs.len(),
                i <= n,
                self.filters == old(self).filters,
                self.cache.size == old(self).cache.size,
                self.known_blobs@ == rec_insert(
                    old(self).known_blobs@,
                    content.content_id@,
                    content.expiration@,
                ),
                self.saved == sat_add(
                    old(self).saved as int,
                    count_passing(recs.take(i as int), filter),
                ),
                forall|k: int| 0 <= k < batches@.len() ==> (#[trigger] batches@[k]).total()
                    <= old(self).cache.size && batches@[k].size == old(self).cache.size,
                forall|b: int| 0 <= b < 5 ==> #[trigger] flushed_views(batches@, b)
                    + bucket_views(self.cache, b) == bucket_views(old(self).cache, b) + (if b
                    == bi {
                    passing_tagged(recs.take(i as int), filter, content.content_type@)
                } else {
                    Seq::<RecordView>::empty()
                }),
            decreases n - i,
        {
            proof {
                assert(recs[i as int] == records@[i as int]@);
                assert(recs.take(i as int + 1) =~= recs.take(i as int).push(recs[i as int]));
                lemma_count_passing_snoc(recs.take(i as int), recs[i as int], filter);
                lemma_passing_tagged_snoc(
                    recs.take(i as int),
                    recs[i as int],
                    filter,
                    content.content_type@,
                );
            }
            let rec = records[i].duplicate();
            let ghost cache_before = self.cache;
            let ghost saved_before = self.saved as int;
            let flushed = self.handle_log(rec, &content.content_type);
            match flushed {
                Some(batch) => {
                    let ghost batches_before = batches@;
                    proof {
                        lemma_flushed_views_snoc(batches@, batch, 0);
                    }
                    batches.push(batch);
                    proof {
                        assert forall|b: int| 0 <= b < 5 implies #[trigger] flushed_views(
                            batches@,
                            b,
                        ) + bucket_views(self.cache, b) == bucket_views(old(self).cache, b) + (
                        if b == bi {
                            passing_tagged(recs.take(i as int + 1), filter, content.content_type@)
                        } else {
                            Seq::<RecordView>::empty()
                        }) by {
                            assert(batches@ == batches_before.push(batch));
                            lemma_flushed_views_snoc(batches_before, batch, b);
                            assert(bucket_views(self.cache, b) =~= Seq::<RecordView>::empty());
                            if b == bi {
                                assert(bucket_views(batch, b) == bucket_views(
                                    cache_before,
                                    b,
                                ).push(tagged_log(recs[i as int], content.content_type@)));
                                assert(flushed_views(batches_before, b) + (bucket_views(
                                    cache_before,
                                    b,
                                ).push(tagged_log(recs[i as int], content.content_type@)))
                                    =~= (flushed_views(batches_before, b) + bucket_views(
                                    cache_before,
                                    b,
                                )).push(tagged_log(recs[i as int], content.content_type@)));
                                assert((bucket_views(old(self).cache, b) + passing_tagged(
                                    recs.take(i as int),
                                    filter,
                                    content.content_type@,
                                )).push(tagged_log(recs[i as int], content.content_type@)) =~=
                                    bucket_views(old(self).cache, b) + passing_tagged(
                                    recs.take(i as int + 1),
                                    filter,
                                    content.content_type@,
                                ));
                                assert(flushed_views(batches@, b) + bucket_views(self.cache, b)
                                    =~= flushed_views(batches_before, b) + bucket_views(
                                    batch,
                                    b,
                                ));
                            } else {
                                assert(bucket_views(batch, b) == bucket_views(cache_before, b));
                                assert(flushed_views(batches@, b) + bucket_views(self.cache, b)
                                    =~= flushed_views(batches_before, b) + bucket_views(
                                    cache_before,
                                    b,
                                ));
                            }
                        }
                    }
                },
                None => {
                    proof {
                        assert forall|b: int| 0 <= b < 5 implies #[trigger] flushed_views(
                            batches@,
                            b,
                        ) + bucket_views(self.cache, b) == bucket_views(old(self).cache, b) + (
                        if b == bi {
                            passing_tagged(recs.take(i as int + 1), filter, content.content_type@)
                        } else {
                            Seq::<RecordView>::empty()
                        }) by {
                            if passes_filter(recs[i as int], filter) {
                                if b == bi {
                                    assert(bucket_views(self.cache, b) == bucket_views(
                                        cache_before,
                                        b,
                                    ).push(tagged_log(recs[i as int], content.content_type@)));
                                    assert(flushed_views(batches@, b) + (bucket_views(
                                        cache_before,
                                        b,
                                    ).push(tagged_log(recs[i as int], content.content_type@)))
                                        =~= (flushed_views(batches@, b) + bucket_views(
                                        cache_before,
                                        b,
                                    )).push(tagged_log(recs[i as int], content.content_type@)));
                                    assert((bucket_views(old(self).cache, b) + passing_tagged(
                                        recs.take(i as int),
                                        filter,
                                        content.content_type@,
                                    )).push(tagged_log(recs[i as int], content.content_type@))
                                        =~= bucket_views(old(self).cache, b) + passing_tagged(
                                        recs.take(i as int + 1),
                                        filter,
                                        content.content_type@,
                                    ));
                                } else {
                                    assert(bucket_views(self.cache, b) == bucket_views(
                                        cache_before,
                                        b,
                                    ));
                                }
                            } else {
                                assert(self.cache == cache_before);
                            }
                        }
                    }
                },
            }
            i = i + 1;
        }
        assert(recs.take(n as int) =~= recs);
        (n, batches)
    }

    /// Hands back whatever the current batch set holds — the final flush at
    /// the end of a run — leaving an empty batch set of the same capacity.
    pub fn flush(&mut self) -> (batch: Caches)
        requires
            old(self).wf(),
        ensures
            final(self).wf(),
            final(self).known_blobs == old(self).known_blobs,
            final(self).filters == old(self).filters,
            final(self).saved == old(self).saved,
            final(self).cache.size == old(self).cache.size,
            final(self).cache.total() == 0,
            forall|b: int| 0 <= b < 5 ==> #[trigger] bucket_views(final(self).cache, b) == Seq::<
                RecordView,
            >::empty(),
            batch == old(self).cache,
            batch.total() <= batch.size,
    {
        let size = self.cache.size;
        let mut fresh = Caches::new(size);
        core::mem::swap(&mut self.cache, &mut fresh);
        proof {
            assert(forall|b: int| 0 <= b < 5 ==> #[trigger] bucket_views(self.cache, b) =~= Seq::<
                RecordView,
            >::empty());
        }
        fresh
    }
}

/// The run summary printed at the end of a run.
pub open spec fn output_chars(
    found: int,
    successful: int,
    failed: int,
    retried: int,
    saved: int,
) -> Seq<char> {
    "Done!||\nBlobs found: "@ + dec_chars(found) + "||\nBlobs successful: "@ + dec_chars(
        successful,
    ) + "||\nBlobs failed: "@ + dec_chars(failed) + "||\nBlobs retried: "@ + dec_chars(retried)
        + "||\nLogs saved: "@ + dec_chars(saved)
}

/// Renders the run summary shown to the user.
pub fn get_output_string(
    found: usize,
    successful: usize,
    failed: usize,
    retried: usize,
    saved: usize,
) -> (r: String)
    ensures
        r@ == output_chars(found as int, successful as int, failed as int, retried as int,
            saved as int),
{
    let mut s = String::new();
    s.append("Done!||\nBlobs found: ");
    s.append(crate::text::usize_to_string(found).as_str());
    s.append("||\nBlobs successful: ");
    s.append(crate::text::usize_to_string(successful).as_str());
    s.append("||\nBlobs failed: ");
    s.append(crate::text::usize_to_string(failed).as_str());
    s.append("||\nBlobs retried: ");
    s.append(crate::text::usize_to_string(retried).as_str());
    s.append("||\nLogs saved: ");
    s.append(crate::text::usize_to_string(saved).as_str());
    assert(s@ =~= output_chars(found as int, successful as int, failed as int, retried as int,
        saved as int));
    s
}

} // verus!
