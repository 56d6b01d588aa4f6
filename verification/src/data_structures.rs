//! Shared data types of the pipeline: status messages, blob references, run
//! statistics, run state, the command-line surface, and the per-content-type
//! output batches.

use crate::records::Record;
use vstd::prelude::*;

verus! {

/// Counters reported to the end user after a run.
#[derive(Default, Copy, Clone, Debug)]
pub struct RunStatistics {
    pub blobs_found: usize,
    pub blobs_successful: usize,
    pub blobs_error: usize,
    pub blobs_retried: usize,
}

impl RunStatistics {
    pub fn new() -> (r: RunStatistics)
        ensures
            r.blobs_found == 0,
            r.blobs_successful == 0,
            r.blobs_error == 0,
            r.blobs_retried == 0,
    {
        RunStatistics { blobs_found: 0, blobs_successful: 0, blobs_error: 0, blobs_retried: 0 }
    }
}

/// The bearer-token response of the identity provider's client-credentials
/// exchange.
#[derive(Clone, Debug)]
pub struct AuthResult {
    pub access_token: String,
}

/// One content blob reference found on a feed page: what must be fetched,
/// under which feed it was found, and when the upstream forgets it.
#[derive(Clone, Debug)]
pub struct ContentToRetrieve {
    pub content_type: String,
    pub content_id: String,
    pub expiration: String,
    pub url: String,
}

/// The mathematical shape of a blob reference.
pub struct ContentView {
    pub content_type: Seq<char>,
    pub content_id: Seq<char>,
    pub expiration: Seq<char>,
    pub url: Seq<char>,
}

impl View for ContentToRetrieve {
    type V = ContentView;

    open spec fn view(&self) -> ContentView {
        ContentView {
            content_type: self.content_type@,
            content_id: self.content_id@,
            expiration: self.expiration@,
            url: self.url@,
        }
    }
}

impl DeepView for ContentToRetrieve {
    type V = ContentView;

    open spec fn deep_view(&self) -> ContentView {
        self.view()
    }
}

/// Progress messages from the two fetch stages to the coordinator, which
/// counts them to decide termination.
#[derive(Copy, Clone, Debug, PartialEq, Eq, Structural)]
pub enum StatusMessage {
    /// A feed has no further page: one in-flight feed resolves.
    FinishedContentBlobs,
    /// A new blob reference was queued for retrieval.
    FoundNewContentBlob,
    /// A queued blob was fetched: one in-flight blob resolves.
    RetrievedContentBlob,
    /// A queued blob could not be fetched: one in-flight blob resolves.
    ErrorContentBlob,
    /// The upstream signalled rate limiting.
    BeingThrottled,
}

/// The counters the coordinator steers by, with the statistics shown to the
/// user and the throttle flag.
#[derive(Default, Copy, Clone, Debug)]
pub struct RunState {
    pub awaiting_content_types: usize,
    pub awaiting_content_blobs: usize,
    pub stats: RunStatistics,
    pub rate_limited: bool,
}

/// The command-line surface of the collector.
#[derive(Clone, Debug)]
pub struct CliArgs {
    pub tenant_id: String,
    pub client_id: String,
    pub secret_key: String,
    pub publisher_id: String,
    pub config: String,
    pub oms_key: String,
    pub interactive: bool,
}

/// The label of each of the five audit feeds, by bucket position.
pub open spec fn content_type_label_spec(i: int) -> Seq<char> {
    if i == 0 {
        "Audit.General"@
    } else if i == 1 {
        "Audit.AzureActiveDirectory"@
    } else if i == 2 {
        "Audit.Exchange"@
    } else if i == 3 {
        "Audit.SharePoint"@
    } else {
        "DLP.All"@
    }
}

/// The bucket position of a content-type label, or -1 for an unknown label.
pub open spec fn bucket_index(ct: Seq<char>) -> int {
    if ct == "Audit.General"@ {
        0
    } else if ct == "Audit.AzureActiveDirectory"@ {
        1
    } else if ct == "Audit.Exchange"@ {
        2
    } else if ct == "Audit.SharePoint"@ {
        3
    } else if ct == "DLP.All"@ {
        4
    } else {
        -1
    }
}

/// The label of each of the five audit feeds, by bucket position.
pub fn content_type_label(i: usize) -> (r: String)
    requires
        i < 5,
    ensures
        r@ == content_type_label_spec(i as int),
{
    if i == 0 {
        "Audit.General".to_owned()
    } else if i == 1 {
        "Audit.AzureActiveDirectory".to_owned()
    } else if i == 2 {
        "Audit.Exchange".to_owned()
    } else if i == 3 {
        "Audit.SharePoint".to_owned()
    } else {
        "DLP.All".to_owned()
    }
}

/// One batch per content type, bounded by `size`: the result processor
/// appends each surviving record to its feed's bucket and hands the whole
/// set of buckets to the sinks once the record count reaches `size`.
#[derive(Clone, Debug)]
pub struct Caches {
    pub general: Vec<Record>,
    pub aad: Vec<Record>,
    pub exchange: Vec<Record>,
    pub sharepoint: Vec<Record>,
    pub dlp: Vec<Record>,
    pub size: usize,
}

impl Caches {
    /// The total number of records over all five buckets.
    pub open spec fn total(self) -> int {
        self.general@.len() as int + self.aad@.len() + self.exchange@.len()
            + self.sharepoint@.len() + self.dlp@.len()
    }

    /// The records of one bucket.
    pub open spec fn bucket(self, i: int) -> Seq<Record> {
        if i == 0 {
            self.general@
        } else if i == 1 {
            self.aad@
        } else if i == 2 {
            self.exchange@
        } else if i == 3 {
            self.sharepoint@
        } else {
            self.dlp@
        }
    }

    /// An empty batch set with the given capacity.
    pub fn new(size: usize) -> (r: Caches)
        ensures
            r.size == size,
            r.total() == 0,
            forall|b: int| 0 <= b < 5 ==> #[trigger] r.bucket(b) =~= Seq::<Record>::empty(),
    {
        Caches {
            general: Vec::new(),
            aad: Vec::new(),
            exchange: Vec::new(),
            sharepoint: Vec::new(),
            dlp: Vec::new(),
            size,
        }
    }

    /// Whether the batch has reached its capacity.
    pub fn full(&self) -> (r: bool)
        ensures
            r == (self.total() >= self.size),
    {
        let total: u128 = self.general.len() as u128 + self.aad.len() as u128
            + self.exchange.len() as u128 + self.sharepoint.len() as u128 + self.dlp.len() as u128;
        total >= self.size as u128
    }

    /// Appends the record to the bucket of its content type; a record of an
    /// unknown content type is dropped.
    pub fn insert(&mut self, log: Record, content_type: &String)
        ensures
            final(self).size == old(self).size,
            forall|b: int| 0 <= b < 5 ==> #[trigger] final(self).bucket(b) == (if b
                == bucket_index(content_type@) {
                old(self).bucket(b).push(log)
            } else {
                old(self).bucket(b)
            }),
            final(self).total() == old(self).total() + (if bucket_index(content_type@) >= 0 {
                1int
            } else {
                0int
            }),
    {
        let ct = content_type.as_str();
        if crate::text::str_eq(ct, "Audit.General") {
            self.general.push(log);
        } else if crate::text::str_eq(ct, "Audit.AzureActiveDirectory") {
            self.aad.push(log);
        } else if crate::text::str_eq(ct, "Audit.Exchange") {
            self.exchange.push(log);
        } else if crate::text::str_eq(ct, "Audit.SharePoint") {
            self.sharepoint.push(log);
        } else if crate::text::str_eq(ct, "DLP.All") {
            self.dlp.push(log);
        }
    }

    /// The bucket at one of the five positions.
    pub fn bucket_at<'a>(&'a self, i: usize) -> (r: &'a Vec<Record>)
        requires
            i < 5,
        ensures
            r@ == self.bucket(i as int),
    {
        if i == 0 {
            &self.general
        } else if i == 1 {
            &self.aad
        } else if i == 2 {
            &self.exchange
        } else if i == 3 {
            &self.sharepoint
        } else {
            &self.dlp
        }
    }
}

} // verus!
