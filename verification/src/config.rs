//! The collector's configuration model with its defaults, and the run
//! planner: splitting the requested collection window into sub-windows of at
//! most 24 hours, as the upstream API demands. The driver parses the
//! configuration file and hands the values in here.

use crate::collector::Filters;
use crate::records::{Record, RecordView};
use crate::time::{format_utc_time, utc_chars_of};
use vstd::prelude::*;

verus! {

/// Logging options.
#[derive(Clone, Debug)]
pub struct LogSubConfig {
    pub path: String,
    pub debug: bool,
}

/// Which of the five audit feeds are enabled.
#[derive(Copy, Clone, Debug)]
pub struct ContentTypesSubConfig {
    pub general: Option<bool>,
    pub azure_active_directory: Option<bool>,
    pub exchange: Option<bool>,
    pub share_point: Option<bool>,
    pub dlp: Option<bool>,
}

impl ContentTypesSubConfig {
    /// The labels of the enabled feeds, in their fixed order.
    pub open spec fn enabled_labels(self) -> Seq<Seq<char>> {
        (if self.general == Some(true) {
            seq!["Audit.General"@]
        } else {
            Seq::<Seq<char>>::empty()
        }) + (if self.azure_active_directory == Some(true) {
            seq!["Audit.AzureActiveDirectory"@]
        } else {
            Seq::<Seq<char>>::empty()
        }) + (if self.exchange == Some(true) {
            seq!["Audit.Exchange"@]
        } else {
            Seq::<Seq<char>>::empty()
        }) + (if self.share_point == Some(true) {
            seq!["Audit.SharePoint"@]
        } else {
            Seq::<Seq<char>>::empty()
        }) + (if self.dlp == Some(true) {
            seq!["DLP.All"@]
        } else {
            Seq::<Seq<char>>::empty()
        })
    }

    /// The labels of the enabled feeds, in their fixed order.
    pub fn get_content_type_strings(&self) -> (r: Vec<String>)
        ensures
            r.deep_view() == self.enabled_labels(),
    {
        let mut results: Vec<String> = Vec::new();
        if matches!(self.general, Some(true)) {
            results.push("Audit.General".to_owned());
        }
        if matches!(self.azure_active_directory, Some(true)) {
            results.push("Audit.AzureActiveDirectory".to_owned());
        }
        if matches!(self.exchange, Some(true)) {
            results.push("Audit.Exchange".to_owned());
        }
        if matches!(self.share_point, Some(true)) {
            results.push("Audit.SharePoint".to_owned());
        }
        if matches!(self.dlp, Some(true)) {
            results.push("DLP.All".to_owned());
        }
        assert(results.deep_view() =~= self.enabled_labels());
        results
    }
}

/// The optional per-content-type record filters.
#[derive(Clone, Debug)]
pub struct FilterSubConfig {
    pub general: Option<Record>,
    pub azure_active_directory: Option<Record>,
    pub exchange: Option<Record>,
    pub share_point: Option<Record>,
    pub dlp: Option<Record>,
}

impl FilterSubConfig {
    /// The configured filters, keyed by feed label.
    pub open spec fn spec_filters(self) -> Seq<(Seq<char>, RecordView)> {
        (match self.general {
            Some(f) => seq![("Audit.General"@, f@)],
            None => Seq::<(Seq<char>, RecordView)>::empty(),
        }) + (match self.azure_active_directory {
            Some(f) => seq![("Audit.AzureActiveDirectory"@, f@)],
            None => Seq::<(Seq<char>, RecordView)>::empty(),
        }) + (match self.exchange {
            Some(f) => seq![("Audit.Exchange"@, f@)],
            None => Seq::<(Seq<char>, RecordView)>::empty(),
        }) + (match self.share_point {
            Some(f) => seq![("Audit.SharePoint"@, f@)],
            None => Seq::<(Seq<char>, RecordView)>::empty(),
        }) + (match self.dlp {
            Some(f) => seq![("DLP.All"@, f@)],
            None => Seq::<(Seq<char>, RecordView)>::empty(),
        })
    }

    /// The configured filters, keyed by feed label.
    pub fn get_filters(&self) -> (r: Filters)
        ensures
            r.deep_view() == self.spec_filters(),
    {
        let mut results = Filters::new();
        if let Some(f) = &self.general {
            results.push("Audit.General".to_owned(), f.duplicate());
        }
        if let Some(f) = &self.azure_active_directory {
            results.push("Audit.AzureActiveDirectory".to_owned(), f.duplicate());
        }
        if let Some(f) = &self.exchange {
            results.push("Audit.Exchange".to_owned(), f.duplicate());
        }
        if let Some(f) = &self.share_point {
            results.push("Audit.SharePoint".to_owned(), f.duplicate());
        }
        if let Some(f) = &self.dlp {
            results.push("DLP.All".to_owned(), f.duplicate());
        }
        assert(results.deep_view() =~= self.spec_filters());
        results
    }
}

/// Collection options.
#[derive(Clone, Debug)]
pub struct CollectSubConfig {
    pub working_dir: Option<String>,
    pub cache_size: Option<usize>,
    pub content_types: ContentTypesSubConfig,
    pub max_threads: Option<usize>,
    pub global_timeout: Option<usize>,
    pub retries: Option<usize>,
    pub hours_to_collect: Option<u64>,
    pub duplicate: Option<usize>,
    pub skip_known_logs: Option<bool>,
    pub filter: Option<FilterSubConfig>,
}

/// Output sink activation: a present sub-config activates its sink.
#[derive(Clone, Debug)]
pub struct OutputSubConfig {
    pub file: Option<FileOutputSubConfig>,
    pub graylog: Option<GraylogOutputSubConfig>,
    pub fluentd: Option<FluentdOutputSubConfig>,
    pub oms: Option<OmsOutputSubConfig>,
}

/// The delimited-file sink's options.
#[derive(Clone, Debug)]
pub struct FileOutputSubConfig {
    pub path: String,
    pub separate_by_content_type: Option<bool>,
    pub separator: Option<String>,
}

/// The line-delimited-JSON-over-TCP sink's options.
#[derive(Clone, Debug)]
pub struct GraylogOutputSubConfig {
    pub address: String,
    pub port: u16,
}

/// The forward-protocol sink's options.
#[derive(Clone, Debug)]
pub struct FluentdOutputSubConfig {
    pub tenant_name: String,
    pub address: String,
    pub port: u16,
}

/// The shared-key-signed HTTP sink's options.
#[derive(Clone, Debug)]
pub struct OmsOutputSubConfig {
    pub workspace_id: String,
}

/// The whole configuration.
#[derive(Clone, Debug)]
pub struct Config {
    pub log: Option<LogSubConfig>,
    pub collect: CollectSubConfig,
    pub output: OutputSubConfig,
}

impl Config {
    /// The batch capacity, defaulting to 500000.
    pub fn cache_size(&self) -> (r: usize)
        ensures
            r == (match self.collect.cache_size {
                Some(v) => v,
                None => 500000usize,
            }),
    {
        match self.collect.cache_size {
            Some(v) => v,
            None => 500000,
        }
    }

    /// The per-stage concurrency, defaulting to 50.
    pub fn max_threads(&self) -> (r: usize)
        ensures
            r == (match self.collect.max_threads {
                Some(v) => v,
                None => 50usize,
            }),
    {
        match self.collect.max_threads {
            Some(v) => v,
            None => 50,
        }
    }

    /// The attempts granted to each URL, defaulting to 3.
    pub fn retries(&self) -> (r: usize)
        ensures
            r == (match self.collect.retries {
                Some(v) => v,
                None => 3usize,
            }),
    {
        match self.collect.retries {
            Some(v) => v,
            None => 3,
        }
    }

    /// The requested collection window in hours, defaulting to 24.
    pub fn hours_to_collect(&self) -> (r: u64)
        ensures
            r == (match self.collect.hours_to_collect {
                Some(v) => v,
                None => 24u64,
            }),
    {
        match self.collect.hours_to_collect {
            Some(v) => v,
            None => 24,
        }
    }

    /// The load-test duplication factor, defaulting to 1.
    pub fn duplicate(&self) -> (r: usize)
        ensures
            r == (match self.collect.duplicate {
                Some(v) => v,
                None => 1usize,
            }),
    {
        match self.collect.duplicate {
            Some(v) => v,
            None => 1,
        }
    }

    /// The working directory, defaulting to the current one.
    pub fn working_dir(&self) -> (r: String)
        ensures
            r@ == (match self.collect.working_dir {
                Some(v) => v@,
                None => "./"@,
            }),
    {
        match &self.collect.working_dir {
            Some(v) => v.clone(),
            None => "./".to_owned(),
        }
    }

    /// The run plan: for every enabled content type, the sub-windows of the
    /// requested collection window, each formatted as its pair of UTC
    /// timestamp strings. The plan exists exactly when the configured window
    /// lies within 1..=168 hours and `now` is a realistic clock reading: at
    /// least one week past the epoch and before the year 10000.
    pub fn get_needed_runs(&self, now: i64) -> (r: Option<
        Vec<(String, Vec<(String, String)>)>,
    >)
        ensures
            !(1 <= (match self.collect.hours_to_collect {
                Some(v) => v,
                None => 24u64,
            }) <= 168) ==> r is None,
            (1 <= (match self.collect.hours_to_collect {
                Some(v) => v,
                None => 24u64,
            }) <= 168 && 604800 <= now <= 253402300799) ==> r is Some,
            r matches Some(runs) ==> {
                &&& 1 <= (match self.collect.hours_to_collect {
                    Some(v) => v,
                    None => 24u64,
                }) <= 168
                &&& runs.deep_view().len() == self.collect.content_types.enabled_labels().len()
                &&& forall|k: int| 0 <= k < runs.deep_view().len() ==> (
                #[trigger] runs.deep_view()[k]) == (
                self.collect.content_types.enabled_labels()[k], window_strings(
                    window_bounds(
                        now as int,
                        (match self.collect.hours_to_collect {
                            Some(v) => v,
                            None => 24u64,
                        }) as int,
                    ),
                ))
            },
    {
        let hours = self.hours_to_collect();
        if hours < 1 || hours > 168 {
            return None;
        }
        if now < 604800 {
            return None;
        }
        assert(hours * 3600 <= 604800) by (nonlinear_arith)
            requires
                1 <= hours <= 168,
        ;
        let windows = collection_windows(now, hours);
        let ghost wb = window_bounds(now as int, hours as int);
        let mut formatted: Vec<(String, String)> = Vec::new();
        let m = windows.len();
        let mut j: usize = 0;
        assert(window_strings(wb).take(0) =~= Seq::<(Seq<char>, Seq<char>)>::empty());
        assert(formatted.deep_view() =~= Seq::<(Seq<char>, Seq<char>)>::empty());
        proof {
            lemma_window_bounds(now as int, hours as int);
        }
        while j < m
            invariant
                m == windows@.len(),
                m == wb.len(),
                j <= m,
                1 <= hours <= 168,
                hours * 3600 <= 604800,
                hours == (match self.collect.hours_to_collect {
                    Some(v) => v,
                    None => 24u64,
                }),
                wb == window_bounds(now as int, hours as int),
                forall|i: int| 0 <= i < m ==> (#[trigger] windows@[i]).0 == wb[i].0
                    && windows@[i].1 == wb[i].1,
                forall|i: int| 0 <= i < m ==> now - hours * 3600 <= (#[trigger] wb[i]).0
                    && wb[i].0 <= wb[i].1 && wb[i].1 <= now,
                formatted.deep_view() == window_strings(wb).take(j as int),
            decreases m - j,
        {
            let start = match format_utc_time(windows[j].0) {
                Some(s) => s,
                None => {
                    return None;
                },
            };
            let end = match format_utc_time(windows[j].1) {
                Some(s) => s,
                None => {
                    return None;
                },
            };
            let ghost prev = formatted.deep_view();
            let ghost prev_raw = formatted@;
            formatted.push((start, end));
            proof {
                assert forall|t: int| 0 <= t < formatted.deep_view().len() implies formatted.deep_view()[t]
                    == prev.push(
                    (utc_chars_of(wb[j as int].0), utc_chars_of(wb[j as int].1)),
                )[t] by {
                    if t < prev_raw.len() {
                        assert(formatted@[t] == prev_raw[t]);
                    } else {
                        assert(formatted@[t] == (start, end));
                    }
                }
                assert(formatted.deep_view() =~= prev.push(
                    (utc_chars_of(wb[j as int].0), utc_chars_of(wb[j as int].1)),
                ));
                assert(window_strings(wb)[j as int] == (
                    utc_chars_of(wb[j as int].0),
                    utc_chars_of(wb[j as int].1),
                ));
                assert(window_strings(wb).take(j as int + 1) =~= window_strings(wb).take(
                    j as int,
                ).push(window_strings(wb)[j as int]));
            }
            j = j + 1;
        }
        assert(window_strings(wb).take(m as int) =~= window_strings(wb));
        let labels = self.collect.content_types.get_content_type_strings();
        let ghost lv = labels.deep_view();
        let mut runs: Vec<(String, Vec<(String, String)>)> = Vec::new();
        let n = labels.len();
        let mut k: usize = 0;
        while k < n
            invariant
                lv == labels.deep_view(),
                n == labels@.len(),
                n == lv.len(),
                k <= n,
                formatted.deep_view() == window_strings(wb),
                runs.deep_view().len() == k,
                forall|i: int| 0 <= i < k ==> (#[trigger] runs.deep_view()[i]) == (
                lv[i],
                window_strings(wb),
                ),
            decreases n - k,
        {
            let copy = duplicate_string_pairs(&formatted);
            let key = labels[k].clone();
            let ghost prev_raw = runs@;
            let ghost prev_dv = runs.deep_view();
            runs.push((key, copy));
            proof {
                assert forall|i: int| 0 <= i < k + 1 implies (#[trigger] runs.deep_view()[i])
                    == (lv[i], window_strings(wb)) by {
                    assert(runs.deep_view()[i] == (runs@[i].0@, runs@[i].1.deep_view()));
                    if i < k as int {
                        assert(runs@[i] == prev_raw[i]);
                        assert(prev_dv[i] == (prev_raw[i].0@, prev_raw[i].1.deep_view()));
                        assert(prev_dv[i] == (lv[i], window_strings(wb)));
                    } else {
                        assert(runs@[i].0@ == lv[i]);
                        assert(runs@[i].1.deep_view() == window_strings(wb));
                    }
                }
            }
            k = k + 1;
        }
        Some(runs)
    }
}

fn duplicate_string_pairs(v: &Vec<(String, String)>) -> (r: Vec<(String, String)>)
    ensures
        r.deep_view() == v.deep_view(),
{
    let mut out: Vec<(String, String)> = Vec::new();
    let n = v.len();
    let mut i: usize = 0;
    while i < n
        invariant
            n == v@.len(),
            i <= n,
            out@.len() == i,
            forall|j: int| 0 <= j < i ==> #[trigger] out@[j] == v@[j],
        decreases n - i,
    {
        out.push((v[i].0.clone(), v[i].1.clone()));
        assert(out@[i as int] == v@[i as int]);
        i = i + 1;
    }
    assert forall|j: int| 0 <= j < out.deep_view().len() implies out.deep_view()[j]
        == v.deep_view()[j] by {
        assert(out@[j] == v@[j]);
    }
    assert(out.deep_view() =~= v.deep_view());
    out
}

/// The sub-windows of the last `hours` hours before `now`, oldest first:
/// full 24-hour windows ending at `now`, preceded by the remainder.
pub open spec fn window_bounds(now: int, hours: int) -> Seq<(int, int)>
    decreases hours,
{
    if hours <= 0 {
        Seq::empty()
    } else if hours <= 24 {
        seq![(now - hours * 3600, now)]
    } else {
        window_bounds(now - 24 * 3600, hours - 24).push((now - 24 * 3600, now))
    }
}

/// The windows rendered as UTC timestamp strings.
pub open spec fn window_strings(ws: Seq<(int, int)>) -> Seq<(Seq<char>, Seq<char>)> {
    ws.map_values(|w: (int, int)| (utc_chars_of(w.0), utc_chars_of(w.1)))
}

/// The run-plan invariants: the windows are non-empty, cover exactly the
/// requested span ending at `now`, lie within it, are contiguous, oldest
/// first, and none is longer than 24 hours.
pub proof fn lemma_window_bounds(now: int, hours: int)
    requires
        hours >= 1,
    ensures
        window_bounds(now, hours).len() >= 1,
        window_bounds(now, hours)[0].0 == now - hours * 3600,
        window_bounds(now, hours).last().1 == now,
        forall|i: int| 0 <= i < window_bounds(now, hours).len() ==> 0 < (
        #[trigger] window_bounds(now, hours)[i]).1 - window_bounds(now, hours)[i].0 <= 24 * 3600,
        forall|i: int| 0 <= i < window_bounds(now, hours).len() - 1 ==> (
        #[trigger] window_bounds(now, hours)[i]).1 == window_bounds(now, hours)[i + 1].0,
        forall|i: int| 0 <= i < window_bounds(now, hours).len() ==> now - hours * 3600 <= (
        #[trigger] window_bounds(now, hours)[i]).0 && window_bounds(now, hours)[i].1 <= now,
    decreases hours,
{
    if hours > 24 {
        lemma_window_bounds(now - 24 * 3600, hours - 24);
        let prev = window_bounds(now - 24 * 3600, hours - 24);
        let whole = window_bounds(now, hours);
        assert(whole == prev.push((now - 24 * 3600, now)));
        assert(whole[0] == prev[0]);
        assert(whole[0].0 == (now - 24 * 3600) - (hours - 24) * 3600);
        assert((now - 24 * 3600) - (hours - 24) * 3600 == now - hours * 3600) by (nonlinear_arith);
        assert forall|i: int| 0 <= i < whole.len() implies 0 < (#[trigger] whole[i]).1
            - whole[i].0 <= 24 * 3600 by {
            if i < prev.len() {
                assert(whole[i] == prev[i]);
            }
        }
        assert forall|i: int| 0 <= i < whole.len() - 1 implies (#[trigger] whole[i]).1
            == whole[i + 1].0 by {
            if i < prev.len() - 1 {
                assert(whole[i] == prev[i]);
                assert(whole[i + 1] == prev[i + 1]);
            } else {
                assert(whole[i] == prev.last());
            }
        }
        assert forall|i: int| 0 <= i < whole.len() implies now - hours * 3600 <= (
        #[trigger] whole[i]).0 && whole[i].1 <= now by {
            if i < prev.len() {
                assert(whole[i] == prev[i]);
                assert((now - 24 * 3600) - (hours - 24) * 3600 <= prev[i].0) ;
                assert(prev[i].1 <= now - 24 * 3600);
            }
        }
    }
}

/// Computes the sub-windows of the collection span, oldest first, as unix
/// timestamps.
pub fn collection_windows(now: i64, hours: u64) -> (r: Vec<(i64, i64)>)
    requires
        1 <= hours <= 168,
        hours * 3600 <= now,
    ensures
        r@.len() == window_bounds(now as int, hours as int).len(),
        forall|i: int| 0 <= i < r@.len() ==> (#[trigger] r@[i]).0 == window_bounds(
            now as int,
            hours as int,
        )[i].0 && r@[i].1 == window_bounds(now as int, hours as int)[i].1,
    decreases hours,
{
    assert(hours * 3600 <= 168 * 3600) by (nonlinear_arith)
        requires
            hours <= 168,
    ;
    if hours <= 24 {
        let mut v: Vec<(i64, i64)> = Vec::new();
        v.push((now - (hours as i64) * 3600, now));
        v
    } else {
        assert((hours - 24) * 3600 == hours * 3600 - 24 * 3600) by (nonlinear_arith);
        let mut v = collection_windows(now - 86400, hours - 24);
        v.push((now - 86400, now));
        proof {
            let wb = window_bounds(now as int, hours as int);
            let prev = window_bounds(now as int - 86400, hours as int - 24);
            assert(wb == prev.push((now as int - 86400, now as int)));
            assert forall|i: int| 0 <= i < v@.len() implies (#[trigger] v@[i]).0 == wb[i].0
                && v@[i].1 == wb[i].1 by {
                if i < prev.len() {
                    assert(wb[i] == prev[i]);
                }
            }
        }
        v
    }
}

} // verus!
