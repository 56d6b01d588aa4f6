//! The library's model of one audit log record: an ordered list of
//! (key, value) pairs, where the value holds the JSON text of the field.
//! Pages and blob bodies arrive as JSON lists of such objects; parsing is
//! delegated to serde_json behind a trusted wrapper, everything read out of a
//! record afterwards is verified here.

use vstd::prelude::*;
use vstd::string::StringExecFns;

verus! {

/// The mathematical shape of a record: keys and values as character
/// sequences, first occurrence of a key wins.
pub type RecordView = Seq<(Seq<char>, Seq<char>)>;

/// One log record (or one page element): field name to JSON text of the
/// field's value.
#[derive(Clone, Debug)]
pub struct Record {
    pub fields: Vec<(String, String)>,
}

impl DeepView for Record {
    type V = RecordView;

    open spec fn deep_view(&self) -> RecordView {
        self.fields.deep_view()
    }
}

impl View for Record {
    type V = RecordView;

    open spec fn view(&self) -> RecordView {
        self.fields.deep_view()
    }
}

/// The record has a field named `k`.
pub open spec fn rec_has_key(r: RecordView, k: Seq<char>) -> bool
    decreases r.len(),
{
    r.len() > 0 && (r[0].0 == k || rec_has_key(r.skip(1), k))
}

/// The value of the first field named `k`.
pub open spec fn rec_get(r: RecordView, k: Seq<char>) -> Seq<char>
    decreases r.len(),
{
    if r.len() == 0 {
        Seq::empty()
    } else if r[0].0 == k {
        r[0].1
    } else {
        rec_get(r.skip(1), k)
    }
}

/// The record with the first field named `k` replaced by (`k`, `v`), or with
/// (`k`, `v`) appended if no field is named `k`.
pub open spec fn rec_insert(r: RecordView, k: Seq<char>, v: Seq<char>) -> RecordView
    decreases r.len(),
{
    if r.len() == 0 {
        seq![(k, v)]
    } else if r[0].0 == k {
        seq![(k, v)] + r.skip(1)
    } else {
        seq![r[0]] + rec_insert(r.skip(1), k, v)
    }
}

pub(crate) proof fn lemma_rec_skip_index(r: RecordView, i: int, k: Seq<char>)
    requires
        0 <= i < r.len(),
        r[i].0 == k,
    ensures
        rec_has_key(r.skip(i), k),
    decreases i,
{
    if i == 0 {
        assert(r.skip(0) =~= r);
    } else {
        lemma_rec_skip_index(r.skip(1), i - 1, k);
        assert(r.skip(1).skip(i - 1) =~= r.skip(i));
    }
}

pub(crate) proof fn lemma_rec_key_step(r: RecordView, i: int, k: Seq<char>)
    requires
        0 <= i < r.len(),
        r[i].0 != k,
    ensures
        rec_has_key(r.skip(i), k) == rec_has_key(r.skip(i + 1), k),
        rec_has_key(r.skip(i), k) ==> rec_get(r.skip(i), k) == rec_get(r.skip(i + 1), k),
{
    assert(r.skip(i)[0] == r[i]);
    assert(r.skip(i).skip(1) =~= r.skip(i + 1));
}

impl Record {
    /// An empty record.
    pub fn new() -> (r: Record)
        ensures
            r@ =~= Seq::<(Seq<char>, Seq<char>)>::empty(),
    {
        Record { fields: Vec::new() }
    }

    /// Looks a field up by name; the first field with that name wins.
    pub fn get<'a>(&'a self, key: &str) -> (r: Option<&'a String>)
        ensures
            match r {
                Some(v) => rec_has_key(self@, key@) && v@ == rec_get(self@, key@),
                None => !rec_has_key(self@, key@),
            },
    {
        let n = self.fields.len();
        let mut i: usize = 0;
        assert(self@.skip(0) =~= self@);
        while i < n
            invariant
                n == self.fields.len(),
                n == self@.len(),
                i <= n,
                rec_has_key(self@, key@) == rec_has_key(self@.skip(i as int), key@),
                rec_has_key(self@, key@) ==> rec_get(self@, key@) == rec_get(
                    self@.skip(i as int),
                    key@,
                ),
            decreases n - i,
        {
            assert(self@[i as int].0 == self.fields@[i as int].0@);
            if crate::text::str_eq(self.fields[i].0.as_str(), key) {
                proof {
                    lemma_rec_skip_index(self@, i as int, key@);
                    assert(self@.skip(i as int)[0] == self@[i as int]);
                }
                return Some(&self.fields[i].1);
            }
            proof {
                lemma_rec_key_step(self@, i as int, key@);
            }
            i = i + 1;
        }
        assert(self@.skip(n as int) =~= Seq::<(Seq<char>, Seq<char>)>::empty());
        None
    }

    /// Whether a field with this name exists.
    pub fn contains_key(&self, key: &str) -> (r: bool)
        ensures
            r == rec_has_key(self@, key@),
    {
        match self.get(key) {
            Some(_) => true,
            None => false,
        }
    }

    /// An exact copy of the record.
    pub fn duplicate(&self) -> (r: Record)
        ensures
            r@ == self@,
    {
        let mut fields: Vec<(String, String)> = Vec::new();
        let n = self.fields.len();
        let mut i: usize = 0;
        while i < n
            invariant
                n == self.fields@.len(),
                i <= n,
                fields@.len() == i,
                forall|j: int| 0 <= j < i ==> fields@[j] == self.fields@[j],
            decreases n - i,
        {
            fields.push((self.fields[i].0.clone(), self.fields[i].1.clone()));
            i = i + 1;
        }
        let r = Record { fields };
        assert forall|j: int| 0 <= j < r@.len() implies r@[j] == self@[j] by {
            assert(r.fields@[j] == self.fields@[j]);
        }
        assert(r@ =~= self@);
        r
    }

    /// Sets the field named `key` to `value`, appending it if absent.
    pub fn insert(&mut self, key: String, value: String)
        ensures
            final(self)@ == rec_insert(old(self)@, key@, value@),
    {
        let n = self.fields.len();
        let mut i: usize = 0;
        while i < n
            invariant
                *self == *old(self),
                n == self.fields.len(),
                n == self@.len(),
                i <= n,
                forall|j: int| 0 <= j < i ==> self@[j].0 != key@,
            decreases n - i,
        {
            assert(self@[i as int].0 == self.fields@[i as int].0@);
            if crate::text::str_eq(self.fields[i].0.as_str(), key.as_str()) {
                self.fields[i] = (key, value);
                proof {
                    assert forall|j: int| 0 <= j < self@.len() implies self@[j] == old(
                        self,
                    )@.update(i as int, (key@, value@))[j] by {
                        assert(self.fields@[j] == if j == i as int {
                            (key, value)
                        } else {
                            old(self).fields@[j]
                        });
                    }
                    assert(self@ =~= old(self)@.update(i as int, (key@, value@)));
                    lemma_rec_insert_at(old(self)@, i as int, key@, value@);
                }
                return;
            }
            i = i + 1;
        }
        self.fields.push((key, value));
        proof {
            lemma_rec_insert_append(old(self)@, key@, value@);
            assert forall|j: int| 0 <= j < self@.len() implies self@[j] == (old(self)@
                + seq![(key@, value@)])[j] by {
                assert(self.fields@[j] == if j < old(self).fields@.len() {
                    old(self).fields@[j]
                } else {
                    (key, value)
                });
            }
            assert(self@ =~= old(self)@ + seq![(key@, value@)]);
        }
    }
}

proof fn lemma_rec_insert_at(r: RecordView, i: int, k: Seq<char>, v: Seq<char>)
    requires
        0 <= i < r.len(),
        r[i].0 == k,
        forall|j: int| 0 <= j < i ==> r[j].0 != k,
    ensures
        rec_insert(r, k, v) =~= r.update(i, (k, v)),
    decreases i,
{
    if i == 0 {
        assert(rec_insert(r, k, v) =~= seq![(k, v)] + r.skip(1));
    } else {
        lemma_rec_insert_at(r.skip(1), i - 1, k, v);
        assert(rec_insert(r, k, v) =~= seq![r[0]] + rec_insert(r.skip(1), k, v));
        assert(r.skip(1).update(i - 1, (k, v)) =~= r.update(i, (k, v)).skip(1));
    }
}

pub(crate) proof fn lemma_rec_insert_append(r: RecordView, k: Seq<char>, v: Seq<char>)
    requires
        forall|j: int| 0 <= j < r.len() ==> r[j].0 != k,
    ensures
        rec_insert(r, k, v) =~= r + seq![(k, v)],
    decreases r.len(),
{
    if r.len() > 0 {
        lemma_rec_insert_append(r.skip(1), k, v);
        assert(rec_insert(r, k, v) =~= seq![r[0]] + rec_insert(r.skip(1), k, v));
    }
}

/// The characters of a JSON string literal holding `s` (no escaping; the
/// labels this is used for contain no quote or backslash characters).
pub open spec fn quoted(s: Seq<char>) -> Seq<char> {
    seq!['"'] + s + seq!['"']
}

/// Wraps a string in JSON string quotes.
pub fn quote_string(s: &str) -> (r: String)
    ensures
        r@ == quoted(s@),
{
    let mut out = String::new();
    crate::text::push_char(&mut out, '"');
    out.append(s);
    crate::text::push_char(&mut out, '"');
    assert(out@ =~= quoted(s@));
    out
}

/// The character sequence without its surrounding JSON string quotes, where
/// it has them.
pub open spec fn unquote(s: Seq<char>) -> Option<Seq<char>> {
    if s.len() >= 2 && s[0] == '"' && s[s.len() - 1] == '"' {
        Some(s.subrange(1, s.len() - 1))
    } else {
        None
    }
}

/// Strips the surrounding quote characters that JSON stringification puts
/// around a string value; `None` if the text is not quoted.
pub fn strip_quotes(s: &str) -> (r: Option<String>)
    ensures
        match r {
            Some(v) => unquote(s@) == Some(v@),
            None => unquote(s@) is None,
        },
{
    let n = s.unicode_len();
    if n < 2 {
        return None;
    }
    let first = s.get_char(0);
    let last = s.get_char(n - 1);
    if first == '"' && last == '"' {
        let inner = s.substring_char(1, n - 1);
        Some(inner.to_owned())
    } else {
        None
    }
}

/// What serde_json parses the text into, when the text is a JSON list of
/// objects: for each object, its fields in serde_json's (sorted) key order,
/// each value rendered back to JSON text.
pub uninterp spec fn records_of(s: Seq<char>) -> Option<Seq<RecordView>>;

/// Relies on serde_json's `from_str` and on `Value`'s `Display`: the text
/// either parses as a JSON list of objects or does not, and the parse is a
/// function of the text alone (serde_json's map keeps its keys sorted, and
/// rendering a value back to JSON text is deterministic).
#[verifier::external_body]
pub(crate) fn parse_records(text: &str) -> (r: Option<Vec<Record>>)
    ensures
        match r {
            Some(recs) => records_of(text@) == Some(recs.deep_view()),
            None => records_of(text@) is None,
        },
{
    match serde_json::from_str::<Vec<serde_json::Map<String, serde_json::Value>>>(text) {
        Ok(objects) => Some(
            objects
                .into_iter()
                .map(|object| Record {
                    fields: object.into_iter().map(|(k, v)| (k, v.to_string())).collect(),
                })
                .collect(),
        ),
        Err(_) => None,
    }
}

/// The record survives the filter: every filter pair whose key the record
/// carries must match the record's value exactly.
pub open spec fn passes_filter(rec: RecordView, filter: RecordView) -> bool {
    forall|i: int| 0 <= i < filter.len() ==> (rec_has_key(rec, filter[i].0) ==> rec_get(
        rec,
        filter[i].0,
    ) == filter[i].1)
}

/// Evaluates the filter predicate of one content type against a record.
pub fn record_passes_filter(rec: &Record, filter: &Record) -> (r: bool)
    ensures
        r == passes_filter(rec@, filter@),
{
    let n = filter.fields.len();
    let mut i: usize = 0;
    while i < n
        invariant
            n == filter.fields.len(),
            n == filter@.len(),
            i <= n,
            forall|j: int| 0 <= j < i ==> (rec_has_key(rec@, filter@[j].0) ==> rec_get(
                rec@,
                filter@[j].0,
            ) == filter@[j].1),
        decreases n - i,
    {
        assert(filter@[i as int].0 == filter.fields@[i as int].0@);
        assert(filter@[i as int].1 == filter.fields@[i as int].1@);
        if let Some(value) = rec.get(filter.fields[i].0.as_str()) {
            if !crate::text::str_eq(value.as_str(), filter.fields[i].1.as_str()) {
                return false;
            }
        }
        i = i + 1;
    }
    true
}

} // verus!
