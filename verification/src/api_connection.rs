//! The Office Management API surface the collector talks to: URL
//! construction for the authentication and feed endpoints, the subscription
//! plan that brings every enabled feed into the `enabled` state, and the
//! decision logic of the two fetch stages (page discovery and blob
//! retrieval). All HTTP lives in the driver; the functions here compute what
//! to request and what each response means.

use crate::data_structures::{ContentToRetrieve, ContentView, StatusMessage};
use crate::known_blobs::KnownBlobs;
use crate::records::{
    quoted, rec_get, rec_has_key, records_of, unquote, Record, RecordView,
};
use crate::text::{seq_contains_ci, seq_eq_ci, str_contains_ci, str_eq_ci};
use vstd::prelude::*;
use vstd::string::StringExecFns;

verus! {

/// The feed root for a tenant.
pub open spec fn base_url_chars(tenant: Seq<char>) -> Seq<char> {
    "https://manage.office.com/api/v1.0/"@ + tenant + "/activity/feed"@
}

/// The OAuth2 token endpoint for a tenant.
pub open spec fn login_url_chars(tenant: Seq<char>) -> Seq<char> {
    "https://login.microsoftonline.com/"@ + tenant + "/oauth2/token"@
}

/// The first-page URL of one collection window of one feed.
pub open spec fn content_url_chars(
    tenant: Seq<char>,
    ct: Seq<char>,
    start: Seq<char>,
    end: Seq<char>,
    publisher: Seq<char>,
) -> Seq<char> {
    base_url_chars(tenant) + "/subscriptions/content?contentType="@ + ct + "&startTime="@ + start
        + "&endTime="@ + end + "&PublisherIdentifier="@ + publisher
}

/// The feed root for a tenant.
pub fn get_base_url(tenant_id: &str) -> (r: String)
    ensures
        r@ == base_url_chars(tenant_id@),
{
    let mut s = String::new();
    s.append("https://manage.office.com/api/v1.0/");
    s.append(tenant_id);
    s.append("/activity/feed");
    assert(s@ =~= base_url_chars(tenant_id@));
    s
}

/// The OAuth2 token endpoint for a tenant.
pub fn get_login_url(tenant_id: &str) -> (r: String)
    ensures
        r@ == login_url_chars(tenant_id@),
{
    let mut s = String::new();
    s.append("https://login.microsoftonline.com/");
    s.append(tenant_id);
    s.append("/oauth2/token");
    assert(s@ =~= login_url_chars(tenant_id@));
    s
}

/// The authorization header value for a bearer token.
pub fn bearer_header_value(access_token: &str) -> (r: String)
    ensures
        r@ == "bearer "@ + access_token@,
{
    let mut s = String::new();
    s.append("bearer ");
    s.append(access_token);
    assert(s@ =~= "bearer "@ + access_token@);
    s
}

/// The subscription listing endpoint for a tenant.
pub fn subscription_list_url(tenant_id: &str) -> (r: String)
    ensures
        r@ == base_url_chars(tenant_id@) + "/subscriptions/list"@,
{
    let mut s = get_base_url(tenant_id);
    s.append("/subscriptions/list");
    s
}

/// The start-subscription endpoint of one feed for a tenant.
pub fn subscription_start_url(tenant_id: &str, content_type: &str) -> (r: String)
    ensures
        r@ == base_url_chars(tenant_id@) + "/subscriptions/start?contentType="@
            + content_type@,
{
    let mut s = get_base_url(tenant_id);
    s.append("/subscriptions/start?contentType=");
    s.append(content_type);
    assert(s@ =~= base_url_chars(tenant_id@) + "/subscriptions/start?contentType="@
        + content_type@);
    s
}

/// The first-page URL of one collection window of one feed.
pub fn content_url(
    tenant_id: &str,
    content_type: &str,
    start_time: &str,
    end_time: &str,
    publisher_id: &str,
) -> (r: String)
    ensures
        r@ == content_url_chars(tenant_id@, content_type@, start_time@, end_time@, publisher_id@),
{
    let mut s = get_base_url(tenant_id);
    s.append("/subscriptions/content?contentType=");
    s.append(content_type);
    s.append("&startTime=");
    s.append(start_time);
    s.append("&endTime=");
    s.append(end_time);
    s.append("&PublisherIdentifier=");
    s.append(publisher_id);
    assert(s@ =~= content_url_chars(
        tenant_id@,
        content_type@,
        start_time@,
        end_time@,
        publisher_id@,
    ));
    s
}

/// The view of a run plan: content-type label to its (start, end) windows.
pub type RunsView = Seq<(Seq<char>, Seq<(Seq<char>, Seq<char>)>)>;

/// Whether the plan has windows for a content type.
pub open spec fn runs_has(rs: RunsView, ct: Seq<char>) -> bool
    decreases rs.len(),
{
    rs.len() > 0 && (rs[0].0 == ct || runs_has(rs.skip(1), ct))
}

/// The windows of a content type, first entry wins.
pub open spec fn runs_get(rs: RunsView, ct: Seq<char>) -> Seq<(Seq<char>, Seq<char>)>
    decreases rs.len(),
{
    if rs.len() == 0 {
        Seq::empty()
    } else if rs[0].0 == ct {
        rs[0].1
    } else {
        runs_get(rs.skip(1), ct)
    }
}

/// The seed pages of one content type: one first-page URL per window.
pub open spec fn urls_for(
    tenant: Seq<char>,
    publisher: Seq<char>,
    ct: Seq<char>,
    windows: Seq<(Seq<char>, Seq<char>)>,
) -> Seq<(Seq<char>, Seq<char>)> {
    Seq::new(
        windows.len(),
        |i: int| (ct, content_url_chars(tenant, ct, windows[i].0, windows[i].1, publisher)),
    )
}

/// The seed pages of a whole run plan, in content-type order.
pub open spec fn all_seed_urls(
    tenant: Seq<char>,
    publisher: Seq<char>,
    cts: Seq<Seq<char>>,
    runs: RunsView,
) -> Seq<(Seq<char>, Seq<char>)>
    decreases cts.len(),
{
    if cts.len() == 0 {
        Seq::empty()
    } else {
        urls_for(tenant, publisher, cts[0], runs_get(runs, cts[0])) + all_seed_urls(
            tenant,
            publisher,
            cts.skip(1),
            runs,
        )
    }
}

fn runs_lookup<'a>(
    runs: &'a Vec<(String, Vec<(String, String)>)>,
    ct: &str,
) -> (r: Option<&'a Vec<(String, String)>>)
    ensures
        match r {
            Some(v) => runs_has(runs.deep_view(), ct@) && v.deep_view() == runs_get(
                runs.deep_view(),
                ct@,
            ),
            None => !runs_has(runs.deep_view(), ct@),
        },
{
    let ghost rv = runs.deep_view();
    let n = runs.len();
    let mut i: usize = 0;
    assert(rv.skip(0) =~= rv);
    while i < n
        invariant
            rv == runs.deep_view(),
            n == runs@.len(),
            n == rv.len(),
            i <= n,
            runs_has(rv, ct@) == runs_has(rv.skip(i as int), ct@),
            runs_has(rv, ct@) ==> runs_get(rv, ct@) == runs_get(rv.skip(i as int), ct@),
        decreases n - i,
    {
        assert(rv[i as int] == (runs@[i as int].0@, runs@[i as int].1.deep_view()));
        assert(rv.skip(i as int)[0] == rv[i as int]);
        assert(rv.skip(i as int).skip(1) =~= rv.skip(i as int + 1));
        if crate::text::str_eq(runs[i].0.as_str(), ct) {
            return Some(&runs[i].1);
        }
        i = i + 1;
    }
    assert(rv.skip(n as int) =~= Seq::<(Seq<char>, Seq<(Seq<char>, Seq<char>)>)>::empty());
    None
}

proof fn lemma_all_seed_urls_snoc(
    tenant: Seq<char>,
    publisher: Seq<char>,
    cts: Seq<Seq<char>>,
    ct: Seq<char>,
    runs: RunsView,
)
    ensures
        all_seed_urls(tenant, publisher, cts.push(ct), runs) == all_seed_urls(
            tenant,
            publisher,
            cts,
            runs,
        ) + urls_for(tenant, publisher, ct, runs_get(runs, ct)),
    decreases cts.len(),
{
    if cts.len() == 0 {
        assert(cts.push(ct)[0] == ct);
        assert(cts.push(ct).skip(1) =~= cts);
        assert(all_seed_urls(tenant, publisher, cts.push(ct), runs) =~= all_seed_urls(
            tenant,
            publisher,
            cts,
            runs,
        ) + urls_for(tenant, publisher, ct, runs_get(runs, ct)));
    } else {
        lemma_all_seed_urls_snoc(tenant, publisher, cts.skip(1), ct, runs);
        assert(cts.push(ct)[0] == cts[0]);
        assert(cts.push(ct).skip(1) =~= cts.skip(1).push(ct));
        assert(all_seed_urls(tenant, publisher, cts.push(ct), runs) =~= all_seed_urls(
            tenant,
            publisher,
            cts,
            runs,
        ) + urls_for(tenant, publisher, ct, runs_get(runs, ct)));
    }
}

/// Builds the first-page URL of every collection window of every enabled
/// content type, in content-type order: the seed pages of the run.
pub fn create_base_urls(
    content_types: Vec<String>,
    tenant_id: String,
    publisher_id: String,
    runs: Vec<(String, Vec<(String, String)>)>,
) -> (r: Vec<(String, String)>)
    requires
        forall|i: int| 0 <= i < content_types.deep_view().len() ==> runs_has(
            runs.deep_view(),
            content_types.deep_view()[i],
        ),
    ensures
        r.deep_view() == all_seed_urls(
            tenant_id@,
            publisher_id@,
            content_types.deep_view(),
            runs.deep_view(),
        ),
{
    let ghost ctv = content_types.deep_view();
    let ghost rv = runs.deep_view();
    let mut out: Vec<(String, String)> = Vec::new();
    let n = content_types.len();
    let mut i: usize = 0;
    assert(ctv.take(0) =~= Seq::<Seq<char>>::empty());
    while i < n
        invariant
            ctv == content_types.deep_view(),
            rv == runs.deep_view(),
            n == content_types@.len(),
            n == ctv.len(),
            i <= n,
            forall|k: int| 0 <= k < ctv.len() ==> runs_has(rv, ctv[k]),
            out.deep_view() == all_seed_urls(tenant_id@, publisher_id@, ctv.take(i as int), rv),
        decreases n - i,
    {
        assert(ctv[i as int] == content_types@[i as int]@);
        let ct = &content_types[i];
        let windows_opt = runs_lookup(&runs, ct.as_str());
        let windows = match windows_opt {
            Some(w) => w,
            None => {
                proof {
                    assert(runs_has(rv, ctv[i as int]));
                }
                unreached()
            },
        };
        let ghost wv = runs_get(rv, ctv[i as int]);
        let m = windows.len();
        let mut j: usize = 0;
        while j < m
            invariant
                ctv == content_types.deep_view(),
                rv == runs.deep_view(),
                i < ctv.len(),
                ctv[i as int] == content_types@[i as int]@,
                m == windows@.len(),
                m == wv.len(),
                j <= m,
                windows.deep_view() == wv,
                wv == runs_get(rv, ctv[i as int]),
                out.deep_view() == all_seed_urls(tenant_id@, publisher_id@, ctv.take(i as int), rv)
                    + urls_for(tenant_id@, publisher_id@, ctv[i as int], wv).take(j as int),
            decreases m - j,
        {
            assert(wv[j as int] == (windows@[j as int].0@, windows@[j as int].1@));
            let url = content_url(
                tenant_id.as_str(),
                content_types[i].as_str(),
                windows[j].0.as_str(),
                windows[j].1.as_str(),
                publisher_id.as_str(),
            );
            let ghost prev = out.deep_view();
            out.push((content_types[i].clone(), url));
            proof {
                let full = urls_for(tenant_id@, publisher_id@, ctv[i as int], wv);
                assert(out.deep_view() =~= prev.push(full[j as int]));
                assert(full.take(j as int + 1) =~= full.take(j as int).push(full[j as int]));
                assert(out.deep_view() =~= all_seed_urls(
                    tenant_id@,
                    publisher_id@,
                    ctv.take(i as int),
                    rv,
                ) + full.take(j as int + 1));
            }
            j = j + 1;
        }
        proof {
            let full = urls_for(tenant_id@, publisher_id@, ctv[i as int], wv);
            assert(full.take(m as int) =~= full);
            lemma_all_seed_urls_snoc(tenant_id@, publisher_id@, ctv.take(i as int), ctv[i as int], rv);
            assert(ctv.take(i as int).push(ctv[i as int]) =~= ctv.take(i as int + 1));
        }
        i = i + 1;
    }
    assert(ctv.take(n as int) =~= ctv);
    out
}

// ---------------------------------------------------------------------------
// Subscription management
// ---------------------------------------------------------------------------

/// A subscription record reports state `enabled` (compared without regard to
/// ASCII case, as the upstream varies the casing).
pub open spec fn sub_enabled(rec: RecordView) -> bool {
    &&& rec_has_key(rec, "status"@)
    &&& match unquote(rec_get(rec, "status"@)) {
        Some(s) => seq_eq_ci(s, "enabled"@),
        None => false,
    }
}

/// The subscription record is the enabled subscription of feed `ct`.
pub open spec fn sub_matches(rec: RecordView, ct: Seq<char>) -> bool {
    &&& sub_enabled(rec)
    &&& rec_has_key(rec, "contentType"@)
    &&& match unquote(rec_get(rec, "contentType"@)) {
        Some(s) => seq_eq_ci(s, ct),
        None => false,
    }
}

/// Some listed subscription is the enabled subscription of feed `ct`.
pub open spec fn covered(subs: Seq<RecordView>, ct: Seq<char>) -> bool {
    exists|i: int| 0 <= i < subs.len() && sub_matches(#[trigger] subs[i], ct)
}

/// The feeds that still need a start-subscription call: the wanted feeds, in
/// order, without those already enabled.
pub open spec fn spec_plan(subs: Seq<RecordView>, wanted: Seq<Seq<char>>) -> Seq<Seq<char>>
    decreases wanted.len(),
{
    if wanted.len() == 0 {
        Seq::empty()
    } else if covered(subs, wanted[0]) {
        spec_plan(subs, wanted.skip(1))
    } else {
        seq![wanted[0]] + spec_plan(subs, wanted.skip(1))
    }
}

/// A subscription record reports state `enabled` exactly and names its
/// feed.
pub open spec fn sub_enabled_exact(rec: RecordView) -> bool {
    &&& rec_has_key(rec, "status"@)
    &&& unquote(rec_get(rec, "status"@)) == Some("enabled"@)
    &&& rec_has_key(rec, "contentType"@)
    &&& unquote(rec_get(rec, "contentType"@)) is Some
}

/// The feed labels of the subscriptions that report state `enabled`, in
/// listing order.
pub open spec fn feeds_of(subs: Seq<RecordView>) -> Seq<Seq<char>>
    decreases subs.len(),
{
    if subs.len() == 0 {
        Seq::empty()
    } else {
        (if sub_enabled_exact(subs[0]) {
            seq![unquote(rec_get(subs[0], "contentType"@))->Some_0]
        } else {
            Seq::<Seq<char>>::empty()
        }) + feeds_of(subs.skip(1))
    }
}

/// The feeds whose subscription the listing reports as `enabled`. The
/// driver fetches the listing; records without an exact `enabled` status or
/// without a feed label contribute nothing.
pub fn get_feeds(current: &Vec<Record>) -> (r: Vec<String>)
    ensures
        r.deep_view() == feeds_of(current.deep_view()),
{
    let ghost subs = current.deep_view();
    let mut out: Vec<String> = Vec::new();
    let n = current.len();
    let mut i: usize = 0;
    assert(subs.skip(0) =~= subs);
    while i < n
        invariant
            subs == current.deep_view(),
            n == current@.len(),
            n == subs.len(),
            i <= n,
            out.deep_view() + feeds_of(subs.skip(i as int)) == feeds_of(subs),
        decreases n - i,
    {
        let ghost prev = out.deep_view();
        proof {
            assert(subs.skip(i as int)[0] == subs[i as int]);
            assert(subs.skip(i as int).skip(1) =~= subs.skip(i as int + 1));
            assert(subs[i as int] == current@[i as int]@);
        }
        let rec = &current[i];
        let enabled = match rec.get("status") {
            Some(v) => match crate::records::strip_quotes(v.as_str()) {
                Some(sv) => crate::text::str_eq(sv.as_str(), "enabled"),
                None => false,
            },
            None => false,
        };
        if enabled {
            match rec.get("contentType") {
                Some(v) => {
                    match crate::records::strip_quotes(v.as_str()) {
                        Some(label) => {
                            assert(sub_enabled_exact(subs[i as int]));
                            out.push(label);
                            proof {
                                assert(out.deep_view() =~= prev.push(
                                    unquote(rec_get(subs[i as int], "contentType"@))->Some_0,
                                ));
                                assert(prev + (seq![
                                    unquote(rec_get(subs[i as int], "contentType"@))->Some_0,
                                ] + feeds_of(subs.skip(i as int + 1))) =~= out.deep_view()
                                    + feeds_of(subs.skip(i as int + 1)));
                            }
                        },
                        None => {
                            assert(!sub_enabled_exact(subs[i as int]));
                        },
                    }
                },
                None => {
                    assert(!sub_enabled_exact(subs[i as int]));
                },
            }
        } else {
            assert(!sub_enabled_exact(subs[i as int]));
        }
        i = i + 1;
    }
    assert(subs.skip(n as int) =~= Seq::<RecordView>::empty());
    out
}

/// Parses the subscription listing's body: a JSON list of subscription
/// objects, or nothing when the body is not such a list.
pub fn parse_subscription_list(text: &str) -> (r: Option<Vec<Record>>)
    ensures
        match r {
            Some(recs) => records_of(text@) == Some(recs.deep_view()),
            None => records_of(text@) is None,
        },
{
    crate::records::parse_records(text)
}

fn subscription_matches(rec: &Record, ct: &str) -> (r: bool)
    ensures
        r == sub_matches(rec@, ct@),
{
    let status_ok = match rec.get("status") {
        Some(v) => match crate::records::strip_quotes(v.as_str()) {
            Some(sv) => str_eq_ci(sv.as_str(), "enabled"),
            None => false,
        },
        None => false,
    };
    if !status_ok {
        return false;
    }
    match rec.get("contentType") {
        Some(v) => match crate::records::strip_quotes(v.as_str()) {
            Some(cv) => str_eq_ci(cv.as_str(), ct),
            None => false,
        },
        None => false,
    }
}

fn feed_is_covered(current: &Vec<Record>, ct: &str) -> (r: bool)
    ensures
        r == covered(current.deep_view(), ct@),
{
    let n = current.len();
    let mut i: usize = 0;
    while i < n
        invariant
            n == current@.len(),
            i <= n,
            forall|j: int| 0 <= j < i ==> !sub_matches(#[trigger] current.deep_view()[j], ct@),
        decreases n - i,
    {
        assert(current.deep_view()[i as int] == current@[i as int]@);
        if subscription_matches(&current[i], ct) {
            assert(sub_matches(current.deep_view()[i as int], ct@));
            return true;
        }
        i = i + 1;
    }
    false
}

/// The feeds among `wanted` with no enabled subscription in `current`: the
/// start-subscription calls the run must make before collection starts.
pub fn plan_subscriptions(current: &Vec<Record>, wanted: &Vec<String>) -> (r: Vec<String>)
    ensures
        r.deep_view() == spec_plan(current.deep_view(), wanted.deep_view()),
{
    let ghost subs = current.deep_view();
    let ghost wv = wanted.deep_view();
    let mut out: Vec<String> = Vec::new();
    let n = wanted.len();
    let mut i: usize = 0;
    assert(wv.skip(0) =~= wv);
    while i < n
        invariant
            subs == current.deep_view(),
            wv == wanted.deep_view(),
            n == wanted@.len(),
            n == wv.len(),
            i <= n,
            out.deep_view() + spec_plan(subs, wv.skip(i as int)) == spec_plan(subs, wv),
        decreases n - i,
    {
        let ghost prev = out.deep_view();
        proof {
            assert(wv.skip(i as int)[0] == wv[i as int]);
            assert(wv.skip(i as int).skip(1) =~= wv.skip(i as int + 1));
            assert(wv[i as int] == wanted@[i as int]@);
        }
        if !feed_is_covered(current, wanted[i].as_str()) {
            out.push(wanted[i].clone());
            proof {
                assert(out.deep_view() =~= prev.push(wv[i as int]));
                assert(prev + (seq![wv[i as int]] + spec_plan(subs, wv.skip(i as int + 1)))
                    =~= prev.push(wv[i as int]) + spec_plan(subs, wv.skip(i as int + 1)));
            }
        }
        i = i + 1;
    }
    assert(wv.skip(n as int) =~= Seq::<Seq<char>>::empty());
    out
}

/// The subscription record that a successful start-subscription call for
/// feed `ct` leaves upstream.
pub open spec fn started_record(ct: Seq<char>) -> RecordView {
    seq![("status"@, quoted("enabled"@)), ("contentType"@, quoted(ct))]
}

/// The upstream subscription list after the start calls were made.
pub open spec fn apply_starts(subs: Seq<RecordView>, starts: Seq<Seq<char>>) -> Seq<RecordView> {
    subs + Seq::new(starts.len(), |i: int| started_record(starts[i]))
}

proof fn lemma_unquote_quoted(s: Seq<char>)
    ensures
        unquote(quoted(s)) == Some(s),
{
    let q = quoted(s);
    assert(q[0] == '"');
    assert(q[q.len() - 1] == '"');
    assert(q.subrange(1, q.len() - 1) =~= s);
}

proof fn lemma_started_record_matches(ct: Seq<char>)
    ensures
        sub_matches(started_record(ct), ct),
{
    reveal_strlit("status");
    reveal_strlit("contentType");
    let rec = started_record(ct);
    assert(rec[0].0 == "status"@);
    assert("status"@.len() != "contentType"@.len());
    assert(rec[0].0 != "contentType"@);
    assert(rec_get(rec, "status"@) == quoted("enabled"@));
    assert(rec_has_key(rec, "status"@));
    assert(rec.skip(1)[0] == rec[1]);
    assert(rec_has_key(rec.skip(1), "contentType"@));
    assert(rec_get(rec.skip(1), "contentType"@) == rec[1].1);
    assert(rec_has_key(rec, "contentType"@));
    assert(rec_get(rec, "contentType"@) == quoted(ct));
    lemma_unquote_quoted("enabled"@);
    lemma_unquote_quoted(ct);
    assert(seq_eq_ci("enabled"@, "enabled"@));
    assert(seq_eq_ci(ct, ct));
}

proof fn lemma_plan_membership(subs: Seq<RecordView>, wanted: Seq<Seq<char>>, k: int)
    requires
        0 <= k < wanted.len(),
    ensures
        covered(subs, wanted[k]) || spec_plan(subs, wanted).contains(wanted[k]),
    decreases wanted.len(),
{
    if k == 0 {
        if !covered(subs, wanted[0]) {
            assert(spec_plan(subs, wanted)[0] == wanted[0]);
        }
    } else {
        lemma_plan_membership(subs, wanted.skip(1), k - 1);
        assert(wanted.skip(1)[k - 1] == wanted[k]);
        if !covered(subs, wanted[k]) {
            let rest = spec_plan(subs, wanted.skip(1));
            let j = choose|j: int| 0 <= j < rest.len() && rest[j] == wanted[k];
            if covered(subs, wanted[0]) {
                assert(spec_plan(subs, wanted)[j] == wanted[k]);
            } else {
                assert(spec_plan(subs, wanted)[j + 1] == wanted[k]);
            }
        }
    }
}

proof fn lemma_plan_all_covered(subs: Seq<RecordView>, wanted: Seq<Seq<char>>)
    requires
        forall|k: int| 0 <= k < wanted.len() ==> covered(subs, #[trigger] wanted[k]),
    ensures
        spec_plan(subs, wanted) == Seq::<Seq<char>>::empty(),
    decreases wanted.len(),
{
    if wanted.len() > 0 {
        assert forall|k: int| 0 <= k < wanted.skip(1).len() implies covered(
            subs,
            #[trigger] wanted.skip(1)[k],
        ) by {
            assert(wanted.skip(1)[k] == wanted[k + 1]);
        }
        lemma_plan_all_covered(subs, wanted.skip(1));
    }
}

/// Idempotent subscription: once the start calls of one planning round have
/// succeeded, planning again against the resulting subscription list yields
/// no start call at all.
pub proof fn lemma_subscription_idempotent(subs: Seq<RecordView>, wanted: Seq<Seq<char>>)
    ensures
        spec_plan(apply_starts(subs, spec_plan(subs, wanted)), wanted) == Seq::<Seq<char>>::empty(),
{
    let starts = spec_plan(subs, wanted);
    let subs2 = apply_starts(subs, starts);
    assert forall|k: int| 0 <= k < wanted.len() implies covered(subs2, #[trigger] wanted[k]) by {
        lemma_plan_membership(subs, wanted, k);
        if covered(subs, wanted[k]) {
            let i = choose|i: int| 0 <= i < subs.len() && sub_matches(#[trigger] subs[i], wanted[k]);
            assert(subs2[i] == subs[i]);
            assert(sub_matches(subs2[i], wanted[k]));
        } else {
            let j = choose|j: int| 0 <= j < starts.len() && starts[j] == wanted[k];
            assert(subs2[subs.len() + j] == started_record(starts[j]));
            lemma_started_record_matches(wanted[k]);
            assert(sub_matches(subs2[subs.len() + j], wanted[k]));
        }
    }
    lemma_plan_all_covered(subs2, wanted);
}

// ---------------------------------------------------------------------------
// Page discovery and blob retrieval
// ---------------------------------------------------------------------------

/// A page element carries a complete blob reference: the three fields are
/// present and each holds a JSON string.
pub open spec fn blob_wf(rec: RecordView) -> bool {
    &&& rec_has_key(rec, "contentUri"@) && unquote(rec_get(rec, "contentUri"@)) is Some
    &&& rec_has_key(rec, "contentId"@) && unquote(rec_get(rec, "contentId"@)) is Some
    &&& rec_has_key(rec, "contentExpiration"@) && unquote(
        rec_get(rec, "contentExpiration"@),
    ) is Some
}

/// The blob id a page element names.
pub open spec fn blob_id_of(rec: RecordView) -> Seq<char> {
    unquote(rec_get(rec, "contentId"@))->Some_0
}

/// The blob reference a page element of feed `ct` describes.
pub open spec fn blob_ref_of(ct: Seq<char>, rec: RecordView) -> ContentView {
    ContentView {
        content_type: ct,
        content_id: blob_id_of(rec),
        expiration: unquote(rec_get(rec, "contentExpiration"@))->Some_0,
        url: unquote(rec_get(rec, "contentUri"@))->Some_0,
    }
}

/// How often one blob reference is enqueued: the load-test multiplier, at
/// least once.
pub open spec fn effective_duplicate(duplicate: int) -> int {
    if duplicate < 1 {
        1
    } else {
        duplicate
    }
}

/// `n` copies of one blob reference.
pub open spec fn repeat_ref(v: ContentView, n: int) -> Seq<ContentView>
    decreases n,
{
    if n <= 0 {
        Seq::empty()
    } else {
        seq![v] + repeat_ref(v, n - 1)
    }
}

/// Every blob reference a page's elements yield: malformed elements and
/// blobs already in the known-blob store contribute nothing, every other
/// element contributes its reference `effective_duplicate` times.
pub open spec fn extracted(
    ct: Seq<char>,
    recs: Seq<RecordView>,
    known: RecordView,
    duplicate: int,
) -> Seq<ContentView>
    decreases recs.len(),
{
    if recs.len() == 0 {
        Seq::empty()
    } else {
        (if blob_wf(recs[0]) && !rec_has_key(known, blob_id_of(recs[0])) {
            repeat_ref(blob_ref_of(ct, recs[0]), effective_duplicate(duplicate))
        } else {
            Seq::empty()
        }) + extracted(ct, recs.skip(1), known, duplicate)
    }
}

proof fn lemma_repeat_ref_snoc(v: ContentView, n: int)
    requires
        n >= 1,
    ensures
        repeat_ref(v, n) == repeat_ref(v, n - 1).push(v),
    decreases n,
{
    if n == 1 {
        assert(repeat_ref(v, 1) =~= repeat_ref(v, 0).push(v));
    } else {
        lemma_repeat_ref_snoc(v, n - 1);
        assert(repeat_ref(v, n) =~= repeat_ref(v, n - 1).push(v));
    }
}

proof fn lemma_repeat_ref_index(v: ContentView, n: int, i: int)
    requires
        0 <= i < n,
    ensures
        repeat_ref(v, n).len() == n,
        repeat_ref(v, n)[i] == v,
    decreases n,
{
    if n > 0 {
        if i > 0 {
            lemma_repeat_ref_index(v, n - 1, i - 1);
        } else {
            lemma_repeat_ref_len(v, n - 1);
        }
    }
}

proof fn lemma_repeat_ref_len(v: ContentView, n: int)
    ensures
        repeat_ref(v, n).len() == (if n <= 0 { 0int } else { n }),
    decreases n,
{
    if n > 0 {
        lemma_repeat_ref_len(v, n - 1);
    }
}

/// Every reference the extraction yields names a blob that is not in the
/// known-blob store.
pub proof fn lemma_extracted_not_known(
    ct: Seq<char>,
    recs: Seq<RecordView>,
    known: RecordView,
    duplicate: int,
)
    ensures
        forall|i: int| 0 <= i < extracted(ct, recs, known, duplicate).len() ==> !rec_has_key(
            known,
            #[trigger] extracted(ct, recs, known, duplicate)[i].content_id,
        ),
    decreases recs.len(),
{
    if recs.len() > 0 {
        lemma_extracted_not_known(ct, recs.skip(1), known, duplicate);
        let head: Seq<ContentView> = if blob_wf(recs[0]) && !rec_has_key(
            known,
            blob_id_of(recs[0]),
        ) {
            repeat_ref(blob_ref_of(ct, recs[0]), effective_duplicate(duplicate))
        } else {
            Seq::empty()
        };
        let whole = extracted(ct, recs, known, duplicate);
        assert forall|i: int| 0 <= i < whole.len() implies !rec_has_key(
            known,
            #[trigger] whole[i].content_id,
        ) by {
            if i < head.len() {
                lemma_repeat_ref_len(blob_ref_of(ct, recs[0]), effective_duplicate(duplicate));
                lemma_repeat_ref_index(
                    blob_ref_of(ct, recs[0]),
                    effective_duplicate(duplicate),
                    i,
                );
            } else {
                assert(whole[i] == extracted(ct, recs.skip(1), known, duplicate)[i - head.len()]);
            }
        }
    }
}

/// Reads the blob references out of a page's parsed elements, dropping
/// malformed elements and every blob the known-blob store already names,
/// and repeating each surviving reference `duplicate` times (at least once).
pub fn extract_new_content(
    content_type: &String,
    records: &Vec<Record>,
    known: &KnownBlobs,
    duplicate: usize,
) -> (out: Vec<ContentToRetrieve>)
    ensures
        out.deep_view() == extracted(content_type@, records.deep_view(), known@, duplicate as int),
        forall|i: int| 0 <= i < out.deep_view().len() ==> !rec_has_key(
            known@,
            #[trigger] out.deep_view()[i].content_id,
        ),
{
    let ghost rv = records.deep_view();
    let ghost ctv = content_type@;
    let mut out: Vec<ContentToRetrieve> = Vec::new();
    let n = records.len();
    let mut i: usize = 0;
    assert(rv.skip(0) =~= rv);
    while i < n
        invariant
            rv == records.deep_view(),
            ctv == content_type@,
            n == records@.len(),
            n == rv.len(),
            i <= n,
            out.deep_view() + extracted(ctv, rv.skip(i as int), known@, duplicate as int)
                == extracted(ctv, rv, known@, duplicate as int),
        decreases n - i,
    {
        let ghost prev = out.deep_view();
        proof {
            assert(rv.skip(i as int)[0] == rv[i as int]);
            assert(rv.skip(i as int).skip(1) =~= rv.skip(i as int + 1));
            assert(rv[i as int] == records@[i as int]@);
        }
        let rec = &records[i];
        let mut contributed = false;
        if let Some(uri_raw) = rec.get("contentUri") {
            if let Some(url) = crate::records::strip_quotes(uri_raw.as_str()) {
                if let Some(id_raw) = rec.get("contentId") {
                    if let Some(content_id) = crate::records::strip_quotes(id_raw.as_str()) {
                        if let Some(exp_raw) = rec.get("contentExpiration") {
                            if let Some(expiration) = crate::records::strip_quotes(
                                exp_raw.as_str(),
                            ) {
                                contributed = true;
                                assert(blob_wf(rv[i as int]));
                                if !known.contains(content_id.as_str()) {
                                    let ghost v = blob_ref_of(ctv, rv[i as int]);
                                    let ghost reps = effective_duplicate(duplicate as int);
                                    let copies = if duplicate < 1 {
                                        1
                                    } else {
                                        duplicate
                                    };
                                    let mut j: usize = 0;
                                    proof {
                                        lemma_repeat_ref_len(v, reps);
                                    }
                                    while j < copies
                                        invariant
                                            copies == reps,
                                            j <= copies,
                                            ctv == content_type@,
                                            v == (ContentView {
                                                content_type: ctv,
                                                content_id: content_id@,
                                                expiration: expiration@,
                                                url: url@,
                                            }),
                                            out.deep_view() == prev + repeat_ref(v, j as int),
                                        decreases copies - j,
                                    {
                                        let ghost mid = out.deep_view();
                                        out.push(
                                            ContentToRetrieve {
                                                content_type: content_type.clone(),
                                                content_id: content_id.clone(),
                                                expiration: expiration.clone(),
                                                url: url.clone(),
                                            },
                                        );
                                        proof {
                                            assert(out.deep_view() =~= mid.push(v));
                                            lemma_repeat_ref_snoc(v, j as int + 1);
                                            assert(out.deep_view() =~= prev + repeat_ref(
                                                v,
                                                j as int + 1,
                                            ));
                                        }
                                        j = j + 1;
                                    }
                                    proof {
                                        assert(out.deep_view() =~= prev + repeat_ref(v, reps));
                                        assert(prev + repeat_ref(v, reps) + extracted(
                                            ctv,
                                            rv.skip(i as int + 1),
                                            known@,
                                            duplicate as int,
                                        ) =~= prev + (repeat_ref(v, reps) + extracted(
                                            ctv,
                                            rv.skip(i as int + 1),
                                            known@,
                                            duplicate as int,
                                        )));
                                    }
                                } else {
                                    proof {
                                        assert(rec_has_key(known@, blob_id_of(rv[i as int])));
                                        assert(Seq::<ContentView>::empty() + extracted(
                                            ctv,
                                            rv.skip(i as int + 1),
                                            known@,
                                            duplicate as int,
                                        ) =~= extracted(
                                            ctv,
                                            rv.skip(i as int + 1),
                                            known@,
                                            duplicate as int,
                                        ));
                                    }
                                }
                            }
                        }
                    }
                }
            }
        }
        if !contributed {
            proof {
                assert(!blob_wf(rv[i as int]));
                assert(Seq::<ContentView>::empty() + extracted(
                    ctv,
                    rv.skip(i as int + 1),
                    known@,
                    duplicate as int,
                ) =~= extracted(ctv, rv.skip(i as int + 1), known@, duplicate as int));
            }
        }
        i = i + 1;
    }
    assert(rv.skip(n as int) =~= Seq::<RecordView>::empty());
    proof {
        lemma_extracted_not_known(ctv, rv, known@, duplicate as int);
    }
    out
}

/// `FoundNewContentBlob` repeated once per enqueued blob reference.
pub open spec fn found_statuses(n: int) -> Seq<StatusMessage> {
    Seq::new(if n < 0 { 0 } else { n as nat }, |i: int| StatusMessage::FoundNewContentBlob)
}

/// What the page-discovery stage does with one fetched page.
pub struct PageActions {
    /// The continuation page to put back on the page queue, if any.
    pub next_pages: Vec<(String, String)>,
    /// Status messages for the coordinator, in emission order.
    pub statuses: Vec<StatusMessage>,
    /// The new blob references for the blob queue.
    pub content: Vec<ContentToRetrieve>,
    /// The page to route to the page-error channel, if the fetch failed.
    pub page_errors: Vec<(String, String)>,
}

/// Decides everything about one page fetch outcome, as the page-discovery
/// stage must act on it: on success the body's elements become blob
/// references (one `FoundNewContentBlob` each, all before the paging
/// decision), the `NextPageUri` continuation goes back onto the page queue
/// or - if there is none - a `FinishedContentBlobs` status resolves the
/// feed, and an undecodable body routes the page to the error channel; a
/// failed fetch routes the page to the error channel, preceded by
/// `BeingThrottled` when the response text signals rate limiting.
pub fn handle_page_fetch(
    content_type: &String,
    url: &String,
    success: bool,
    body: Option<&String>,
    next_page: Option<String>,
    known: &KnownBlobs,
    duplicate: usize,
) -> (r: PageActions)
    ensures
        success && body is Some ==> {
            &&& r.next_pages.deep_view() == (match next_page {
                Some(np) => seq![(content_type@, np@)],
                None => Seq::<(Seq<char>, Seq<char>)>::empty(),
            })
            &&& match records_of(body->Some_0@) {
                Some(recs) => {
                    &&& r.content.deep_view() == extracted(
                        content_type@,
                        recs,
                        known@,
                        duplicate as int,
                    )
                    &&& r.page_errors@.len() == 0
                    &&& r.statuses@ == found_statuses(r.content@.len() as int) + (
                    if next_page is None {
                        seq![StatusMessage::FinishedContentBlobs]
                    } else {
                        Seq::<StatusMessage>::empty()
                    })
                },
                None => {
                    &&& r.content@.len() == 0
                    &&& r.page_errors.deep_view() == seq![(content_type@, url@)]
                    &&& r.statuses@ == (if next_page is None {
                        seq![StatusMessage::FinishedContentBlobs]
                    } else {
                        Seq::<StatusMessage>::empty()
                    })
                },
            }
        },
        success && body is None ==> {
            &&& r.next_pages@.len() == 0
            &&& r.content@.len() == 0
            &&& r.statuses@.len() == 0
            &&& r.page_errors.deep_view() == seq![(content_type@, url@)]
        },
        !success ==> {
            &&& r.next_pages@.len() == 0
            &&& r.content@.len() == 0
            &&& r.page_errors.deep_view() == seq![(content_type@, url@)]
            &&& r.statuses@ == (match body {
                Some(b) => if seq_contains_ci(b@, "too many request"@) {
                    seq![StatusMessage::BeingThrottled]
                } else {
                    Seq::<StatusMessage>::empty()
                },
                None => Seq::<StatusMessage>::empty(),
            })
        },
{
    let mut r = PageActions {
        next_pages: Vec::new(),
        statuses: Vec::new(),
        content: Vec::new(),
        page_errors: Vec::new(),
    };
    if !success {
        match body {
            Some(b) => {
                if str_contains_ci(b.as_str(), "too many request") {
                    r.statuses.push(StatusMessage::BeingThrottled);
                    assert(r.statuses@ =~= seq![StatusMessage::BeingThrottled]);
                }
            },
            None => {},
        }
        r.page_errors.push((content_type.clone(), url.clone()));
        assert(r.page_errors.deep_view() =~= seq![(content_type@, url@)]);
        return r;
    }
    let b = match body {
        Some(b) => b,
        None => {
            r.page_errors.push((content_type.clone(), url.clone()));
            assert(r.page_errors.deep_view() =~= seq![(content_type@, url@)]);
            return r;
        },
    };
    match crate::records::parse_records(b.as_str()) {
        Some(records) => {
            r.content = extract_new_content(content_type, &records, known, duplicate);
            let found = r.content.len();
            let mut j: usize = 0;
            assert(r.statuses@ =~= found_statuses(0));
            while j < found
                invariant
                    j <= found,
                    records_of(b@) is Some,
                    r.content.deep_view() == extracted(
                        content_type@,
                        records_of(b@)->Some_0,
                        known@,
                        duplicate as int,
                    ),
                    found == r.content@.len(),
                    r.next_pages@.len() == 0,
                    r.page_errors@.len() == 0,
                    r.statuses@ == found_statuses(j as int),
                decreases found - j,
            {
                r.statuses.push(StatusMessage::FoundNewContentBlob);
                assert(r.statuses@ =~= found_statuses(j as int + 1));
                j = j + 1;
            }
        },
        None => {
            r.page_errors.push((content_type.clone(), url.clone()));
            assert(r.page_errors.deep_view() =~= seq![(content_type@, url@)]);
        },
    }
    let ghost statuses_so_far = r.statuses@;
    match next_page {
        Some(np) => {
            r.next_pages.push((content_type.clone(), np));
            assert(r.next_pages.deep_view() =~= seq![(content_type@, np@)]);
            assert(r.statuses@ =~= statuses_so_far + Seq::<StatusMessage>::empty());
        },
        None => {
            r.statuses.push(StatusMessage::FinishedContentBlobs);
            assert(r.statuses@ =~= statuses_so_far + seq![StatusMessage::FinishedContentBlobs]);
        },
    }
    r
}

/// What the blob-fetch stage does with one fetched blob.
pub struct ContentActions {
    /// The decoded body with its reference, for the result channel.
    pub result: Option<(String, ContentToRetrieve)>,
    /// Status messages for the coordinator.
    pub statuses: Vec<StatusMessage>,
    /// The reference to route to the blob-error channel, if the fetch
    /// failed.
    pub content_errors: Vec<ContentToRetrieve>,
}

/// Decides everything about one blob fetch outcome: a successful fetch
/// hands the body with its reference to the result channel and resolves the
/// blob with `RetrievedContentBlob`; a failed fetch (or an unreadable body)
/// routes the reference to the blob-error channel, preceded by
/// `BeingThrottled` when the response text signals rate limiting.
pub fn handle_content_fetch(
    content: ContentToRetrieve,
    success: bool,
    body: Option<String>,
) -> (r: ContentActions)
    ensures
        success && body is Some ==> {
            &&& r.result matches Some(p) && p.0@ == body->Some_0@ && p.1@ == content@
            &&& r.statuses@ == seq![StatusMessage::RetrievedContentBlob]
            &&& r.content_errors@.len() == 0
        },
        success && body is None ==> {
            &&& r.result is None
            &&& r.statuses@.len() == 0
            &&& r.content_errors.deep_view() == seq![content@]
        },
        !success ==> {
            &&& r.result is None
            &&& r.statuses@ == (match body {
                Some(b) => if seq_contains_ci(b@, "too many request"@) {
                    seq![StatusMessage::BeingThrottled]
                } else {
                    Seq::<StatusMessage>::empty()
                },
                None => Seq::<StatusMessage>::empty(),
            })
            &&& r.content_errors.deep_view() == seq![content@]
        },
{
    let mut r = ContentActions { result: None, statuses: Vec::new(), content_errors: Vec::new() };
    if !success {
        match &body {
            Some(b) => {
                if str_contains_ci(b.as_str(), "too many request") {
                    r.statuses.push(StatusMessage::BeingThrottled);
                    assert(r.statuses@ =~= seq![StatusMessage::BeingThrottled]);
                }
            },
            None => {},
        }
        r.content_errors.push(content);
        assert(r.content_errors.deep_view() =~= seq![r.content_errors@[0]@]);
        return r;
    }
    match body {
        Some(b) => {
            r.statuses.push(StatusMessage::RetrievedContentBlob);
            assert(r.statuses@ =~= seq![StatusMessage::RetrievedContentBlob]);
            r.result = Some((b, content));
        },
        None => {
            r.content_errors.push(content);
            assert(r.content_errors.deep_view() =~= seq![r.content_errors@[0]@]);
        },
    }
    r
}

} // verus!
