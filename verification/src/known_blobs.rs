//! The persistent known-blob store: a mapping from blob id to expiration
//! timestamp string. The driver reads and writes the backing file; this
//! module owns the format (one `id,expiration` line per entry), the purge of
//! expired entries on load, and the round-trip law between loading and
//! saving.

use crate::records::{
    lemma_rec_insert_append, rec_get, rec_has_key, rec_insert, Record, RecordView,
};
use crate::text::push_char;
use crate::time::{expiration_ts_of, parse_expiration};
use vstd::prelude::*;
use vstd::string::StringExecFns;

verus! {

/// The single authority for "have I already fetched this blob": blob id to
/// expiration string, first occurrence of an id wins.
pub struct KnownBlobs {
    pub map: Record,
}

impl View for KnownBlobs {
    type V = RecordView;

    open spec fn view(&self) -> RecordView {
        self.map@
    }
}

impl KnownBlobs {
    /// An empty store.
    pub fn new() -> (r: KnownBlobs)
        ensures
            r@ =~= Seq::<(Seq<char>, Seq<char>)>::empty(),
    {
        KnownBlobs { map: Record::new() }
    }

    /// The number of entries.
    pub fn len(&self) -> (r: usize)
        ensures
            r == self@.len(),
    {
        self.map.fields.len()
    }

    /// Whether the blob id is already known.
    pub fn contains(&self, id: &str) -> (r: bool)
        ensures
            r == rec_has_key(self@, id@),
    {
        self.map.contains_key(id)
    }

    /// The stored expiration for a blob id.
    pub fn get<'a>(&'a self, id: &str) -> (r: Option<&'a String>)
        ensures
            match r {
                Some(v) => rec_has_key(self@, id@) && v@ == rec_get(self@, id@),
                None => !rec_has_key(self@, id@),
            },
    {
        self.map.get(id)
    }

    /// Records a blob id with its expiration; an existing entry for the id is
    /// overwritten in place.
    pub fn insert(&mut self, id: String, expiration: String)
        ensures
            final(self)@ == rec_insert(old(self)@, id@, expiration@),
    {
        self.map.insert(id, expiration);
    }
}

/// One line of the store file.
pub open spec fn line_chars(id: Seq<char>, exp: Seq<char>) -> Seq<char> {
    id + seq![','] + exp + seq!['\n']
}

/// The file text of a sequence of entries, one line per entry.
pub open spec fn store_text(es: Seq<(Seq<char>, Seq<char>)>) -> Seq<char>
    decreases es.len(),
{
    if es.len() == 0 {
        Seq::empty()
    } else {
        line_chars(es[0].0, es[0].1) + store_text(es.skip(1))
    }
}

/// The characters that count as whitespace when a store line is read:
/// Unicode's White_Space set, as std's `trim` removes.
pub open spec fn is_ws(c: char) -> bool {
    let u = c as int;
    (0x09 <= u && u <= 0x0D) || u == 0x20 || u == 0x85 || u == 0xA0 || u == 0x1680 || (0x2000
        <= u && u <= 0x200A) || u == 0x2028 || u == 0x2029 || u == 0x202F || u == 0x205F || u
        == 0x3000
}

fn is_whitespace_char(c: char) -> (r: bool)
    ensures
        r == is_ws(c),
{
    let u = c as u32;
    (0x09 <= u && u <= 0x0D) || u == 0x20 || u == 0x85 || u == 0xA0 || u == 0x1680 || (0x2000
        <= u && u <= 0x200A) || u == 0x2028 || u == 0x2029 || u == 0x202F || u == 0x205F || u
        == 0x3000
}

/// The sequence without its leading whitespace.
pub open spec fn trim_front(s: Seq<char>) -> Seq<char>
    decreases s.len(),
{
    if s.len() > 0 && is_ws(s[0]) {
        trim_front(s.skip(1))
    } else {
        s
    }
}

/// The sequence without its trailing whitespace.
pub open spec fn trim_back(s: Seq<char>) -> Seq<char>
    decreases s.len(),
{
    if s.len() > 0 && is_ws(s[s.len() - 1]) {
        trim_back(s.take(s.len() - 1))
    } else {
        s
    }
}

/// The sequence without its surrounding whitespace.
pub open spec fn trimmed(s: Seq<char>) -> Seq<char> {
    trim_back(trim_front(s))
}

fn trim_str(s: &str) -> (r: String)
    ensures
        r@ == trimmed(s@),
{
    let n = s.unicode_len();
    let mut i: usize = 0;
    assert(s@.skip(0) =~= s@);
    while i < n && is_whitespace_char(s.get_char(i))
        invariant
            n == s@.len(),
            i <= n,
            trim_front(s@) == trim_front(s@.skip(i as int)),
        decreases n - i,
    {
        proof {
            assert(s@.skip(i as int)[0] == s@[i as int]);
            assert(s@.skip(i as int).skip(1) =~= s@.skip(i as int + 1));
        }
        i = i + 1;
    }
    if i == n {
        assert(s@.skip(n as int) =~= Seq::<char>::empty());
        assert(trimmed(s@) =~= Seq::<char>::empty());
        return String::new();
    }
    assert(trim_front(s@) == s@.skip(i as int)) by {
        assert(s@.skip(i as int)[0] == s@[i as int]);
    }
    let mut j: usize = n;
    assert(s@.subrange(i as int, n as int) =~= s@.skip(i as int));
    while j > i && is_whitespace_char(s.get_char(j - 1))
        invariant
            n == s@.len(),
            i < n,
            i <= j <= n,
            !is_ws(s@[i as int]),
            trim_back(s@.subrange(i as int, n as int)) == trim_back(
                s@.subrange(i as int, j as int),
            ),
        decreases j,
    {
        proof {
            let sub = s@.subrange(i as int, j as int);
            assert(sub[sub.len() - 1] == s@[j as int - 1]);
            assert(sub.take(sub.len() - 1) =~= s@.subrange(i as int, j as int - 1));
        }
        j = j - 1;
    }
    proof {
        let sub = s@.subrange(i as int, j as int);
        if j > i {
            assert(sub[sub.len() - 1] == s@[j as int - 1]);
            assert(trim_back(sub) == sub);
        } else {
            assert(sub =~= Seq::<char>::empty());
        }
    }
    let r = s.substring_char(i, j).to_owned();
    assert(r@ == trimmed(s@));
    r
}

/// Splitting a line at its first comma.
pub open spec fn split_comma(line: Seq<char>) -> Option<(Seq<char>, Seq<char>)>
    decreases line.len(),
{
    if line.len() == 0 {
        None
    } else if line[0] == ',' {
        Some((Seq::empty(), line.skip(1)))
    } else {
        match split_comma(line.skip(1)) {
            None => None,
            Some(p) => Some((seq![line[0]] + p.0, p.1)),
        }
    }
}

/// The entries one line contributes: none for an empty or comma-less line,
/// else the pair around the first comma, each side without its surrounding
/// whitespace (this also swallows the carriage return of a CRLF file).
pub open spec fn finish_line(line: Seq<char>) -> Seq<(Seq<char>, Seq<char>)> {
    if line.len() == 0 {
        seq![]
    } else {
        match split_comma(line) {
            None => seq![],
            Some(p) => seq![(trimmed(p.0), trimmed(p.1))],
        }
    }
}

/// The entries of the file text, scanned character by character with `cur`
/// holding the partially read line.
pub open spec fn parse_lines(cur: Seq<char>, s: Seq<char>) -> Seq<(Seq<char>, Seq<char>)>
    decreases s.len(),
{
    if s.len() == 0 {
        finish_line(cur)
    } else if s[0] == '\n' {
        finish_line(cur) + parse_lines(Seq::empty(), s.skip(1))
    } else {
        parse_lines(cur.push(s[0]), s.skip(1))
    }
}

/// All entries of the file text, in file order, expired or not.
pub open spec fn parse_store_text(s: Seq<char>) -> Seq<(Seq<char>, Seq<char>)> {
    parse_lines(Seq::empty(), s)
}

/// An entry survives the purge when its expiration parses and lies in the
/// future.
pub open spec fn keep_entry(exp: Seq<char>, now: int) -> bool {
    match expiration_ts_of(exp) {
        Some(t) => t > now,
        None => false,
    }
}

/// The entries that survive the purge at time `now`.
pub open spec fn filter_unexpired(es: Seq<(Seq<char>, Seq<char>)>, now: int) -> Seq<
    (Seq<char>, Seq<char>),
>
    decreases es.len(),
{
    if es.len() == 0 {
        seq![]
    } else if keep_entry(es[0].1, now) {
        seq![es[0]] + filter_unexpired(es.skip(1), now)
    } else {
        filter_unexpired(es.skip(1), now)
    }
}

/// The store that results from inserting a sequence of entries in order into
/// an empty store.
pub open spec fn store_of(es: Seq<(Seq<char>, Seq<char>)>) -> RecordView
    decreases es.len(),
{
    if es.len() == 0 {
        seq![]
    } else {
        rec_insert(store_of(es.drop_last()), es.last().0, es.last().1)
    }
}

/// An entry that the line format can carry faithfully: no comma or newline
/// in the id, no newline in the expiration, and no surrounding whitespace
/// on either (the load would strip it away).
pub open spec fn entry_text_well_formed(id: Seq<char>, exp: Seq<char>) -> bool {
    &&& forall|k: int| 0 <= k < id.len() ==> id[k] != ',' && id[k] != '\n'
    &&& forall|k: int| 0 <= k < exp.len() ==> exp[k] != '\n'
    &&& id.len() > 0 ==> !is_ws(id[0]) && !is_ws(id[id.len() - 1])
    &&& exp.len() > 0 ==> !is_ws(exp[0]) && !is_ws(exp[exp.len() - 1])
}

proof fn lemma_trimmed_stable(s: Seq<char>)
    requires
        s.len() > 0 ==> !is_ws(s[0]) && !is_ws(s[s.len() - 1]),
    ensures
        trimmed(s) == s,
{
    assert(trim_front(s) == s);
    assert(trim_back(s) == s);
}

/// Renders the store as its file text, one `id,expiration` line per entry,
/// in store order.
pub fn serialize_known(kb: &KnownBlobs) -> (r: String)
    ensures
        r@ == store_text(kb@),
{
    let mut out = String::new();
    let n = kb.map.fields.len();
    let mut i: usize = 0;
    assert(kb@.take(0) =~= Seq::<(Seq<char>, Seq<char>)>::empty());
    while i < n
        invariant
            n == kb.map.fields.len(),
            n == kb@.len(),
            i <= n,
            out@ == store_text(kb@.take(i as int)),
        decreases n - i,
    {
        assert(kb@[i as int].0 == kb.map.fields@[i as int].0@);
        assert(kb@[i as int].1 == kb.map.fields@[i as int].1@);
        out.append(kb.map.fields[i].0.as_str());
        push_char(&mut out, ',');
        out.append(kb.map.fields[i].1.as_str());
        push_char(&mut out, '\n');
        proof {
            let es = kb@;
            let iint = i as int;
            lemma_store_text_concat(es.take(iint), seq![es[iint]]);
            assert(es.take(iint + 1) =~= es.take(iint) + seq![es[iint]]);
            assert(seq![es[iint]].skip(1) =~= Seq::<(Seq<char>, Seq<char>)>::empty());
            assert(store_text(seq![es[iint]]) == line_chars(es[iint].0, es[iint].1) + store_text(
                Seq::empty(),
            ));
            assert(out@ =~= store_text(es.take(iint + 1)));
        }
        i = i + 1;
    }
    assert(kb@.take(n as int) =~= kb@);
    out
}

proof fn lemma_store_text_concat(a: Seq<(Seq<char>, Seq<char>)>, b: Seq<(Seq<char>, Seq<char>)>)
    ensures
        store_text(a + b) == store_text(a) + store_text(b),
    decreases a.len(),
{
    if a.len() == 0 {
        assert(a + b =~= b);
        assert(store_text(a) + store_text(b) =~= store_text(b));
    } else {
        lemma_store_text_concat(a.skip(1), b);
        assert((a + b).skip(1) =~= a.skip(1) + b);
        assert((a + b)[0] == a[0]);
        assert(store_text(a + b) =~= store_text(a) + store_text(b));
    }
}

fn finish_line_exec(line: &str) -> (r: Option<(String, String)>)
    ensures
        match r {
            Some(p) => finish_line(line@) == seq![(p.0@, p.1@)],
            None => finish_line(line@) == Seq::<(Seq<char>, Seq<char>)>::empty(),
        },
{
    let n = line.unicode_len();
    if n == 0 {
        return None;
    }
    let mut k: usize = 0;
    while k < n
        invariant
            n == line@.len(),
            k <= n,
            forall|j: int| 0 <= j < k ==> line@[j] != ',',
        decreases n - k,
    {
        if line.get_char(k) == ',' {
            proof {
                lemma_split_comma_at(line@, k as int);
            }
            let id = trim_str(line.substring_char(0, k));
            let exp = trim_str(line.substring_char(k + 1, n));
            assert(line@.subrange(0, k as int) =~= line@.take(k as int));
            assert(line@.subrange(k as int + 1, n as int) =~= line@.skip(k as int + 1));
            return Some((id, exp));
        }
        k = k + 1;
    }
    proof {
        lemma_split_comma_none(line@);
    }
    None
}

proof fn lemma_split_comma_none(line: Seq<char>)
    requires
        forall|j: int| 0 <= j < line.len() ==> line[j] != ',',
    ensures
        split_comma(line) is None,
    decreases line.len(),
{
    if line.len() > 0 {
        lemma_split_comma_none(line.skip(1));
    }
}

proof fn lemma_split_comma_at(line: Seq<char>, k: int)
    requires
        0 <= k < line.len(),
        line[k] == ',',
        forall|j: int| 0 <= j < k ==> line[j] != ',',
    ensures
        split_comma(line) == Some((line.take(k), line.skip(k + 1))),
    decreases k,
{
    if k == 0 {
        assert(line.take(0) =~= Seq::<char>::empty());
    } else {
        lemma_split_comma_at(line.skip(1), k - 1);
        assert(line.skip(1)[k - 1] == line[k]);
        match split_comma(line) {
            Some(p) => {
                assert(p.0 =~= line.take(k)) by {
                    assert(p.0 == seq![line[0]] + line.skip(1).take(k - 1));
                }
                assert(p.1 =~= line.skip(k + 1)) by {
                    assert(p.1 == line.skip(1).skip(k));
                }
            },
            None => {
                assert(false);
            },
        }
    }
}

/// Parses the store file text into its entries, in file order, without
/// purging: one entry per line holding a comma, split at the first comma,
/// both sides stripped of surrounding whitespace.
pub fn parse_store(text: &str) -> (r: Vec<(String, String)>)
    ensures
        r.deep_view() == parse_store_text(text@),
{
    let n = text.unicode_len();
    let mut out: Vec<(String, String)> = Vec::new();
    let mut cur = String::new();
    let mut i: usize = 0;
    assert(text@.skip(0) =~= text@);
    while i < n
        invariant
            n == text@.len(),
            i <= n,
            cur@.len() <= i,
            out.deep_view() + parse_lines(cur@, text@.skip(i as int)) == parse_store_text(
                text@,
            ),
        decreases n - i,
    {
        let ghost prev_out = out.deep_view();
        let ghost prev_cur = cur@;
        proof {
            assert(text@.skip(i as int)[0] == text@[i as int]);
            assert(text@.skip(i as int).skip(1) =~= text@.skip(i as int + 1));
        }
        let c = text.get_char(i);
        if c == '\n' {
            match finish_line_exec(cur.as_str()) {
                Some(p) => {
                    out.push(p);
                },
                None => {},
            }
            cur = String::new();
            proof {
                assert(out.deep_view() =~= prev_out + finish_line(prev_cur));
                assert(prev_out + (finish_line(prev_cur) + parse_lines(
                    Seq::empty(),
                    text@.skip(i as int + 1),
                )) =~= (prev_out + finish_line(prev_cur)) + parse_lines(
                    Seq::empty(),
                    text@.skip(i as int + 1),
                ));
            }
        } else {
            push_char(&mut cur, c);
        }
        i = i + 1;
    }
    assert(text@.skip(n as int) =~= Seq::<char>::empty());
    let ghost prev_out = out.deep_view();
    let ghost prev_cur = cur@;
    match finish_line_exec(cur.as_str()) {
        Some(p) => {
            out.push(p);
        },
        None => {},
    }
    assert(out.deep_view() =~= prev_out + finish_line(prev_cur));
    out
}

/// Loads the store from its file text: parses the lines (splitting each at
/// its first comma and trimming both sides) and drops every entry whose
/// expiration does not parse or is not after `now`.
pub fn load_known_store(text: &str, now: i64) -> (r: KnownBlobs)
    ensures
        r@ == store_of(filter_unexpired(parse_store_text(text@), now as int)),
{
    let entries = parse_store(text);
    let mut kb = KnownBlobs::new();
    let n = entries.len();
    let mut i: usize = 0;
    while i < n
        invariant
            n == entries.len(),
            i <= n,
            kb@ == store_of(filter_unexpired(entries.deep_view().take(i as int), now as int)),
        decreases n - i,
    {
        let ghost es = entries.deep_view();
        let ghost iint = i as int;
        assert(es[iint] == (entries@[iint].0@, entries@[iint].1@));
        let keep = match parse_expiration(entries[i].1.as_str()) {
            Some(t) => t > now,
            None => false,
        };
        proof {
            lemma_filter_unexpired_snoc(es.take(iint), es[iint], now as int);
            assert(es.take(iint + 1) =~= es.take(iint).push(es[iint]));
        }
        if keep {
            let id = entries[i].0.clone();
            let exp = entries[i].1.clone();
            kb.insert(id, exp);
            proof {
                let fs = filter_unexpired(es.take(iint), now as int);
                assert(filter_unexpired(es.take(iint + 1), now as int) =~= fs.push(es[iint]));
                assert(fs.push(es[iint]).drop_last() =~= fs);
                assert(store_of(fs.push(es[iint])) == rec_insert(
                    store_of(fs),
                    es[iint].0,
                    es[iint].1,
                ));
            }
        } else {
            proof {
                assert(filter_unexpired(es.take(iint + 1), now as int) =~= filter_unexpired(
                    es.take(iint),
                    now as int,
                ));
            }
        }
        i = i + 1;
    }
    assert(entries.deep_view().take(n as int) =~= entries.deep_view());
    kb
}

proof fn lemma_filter_unexpired_snoc(
    es: Seq<(Seq<char>, Seq<char>)>,
    e: (Seq<char>, Seq<char>),
    now: int,
)
    ensures
        filter_unexpired(es.push(e), now) == if keep_entry(e.1, now) {
            filter_unexpired(es, now).push(e)
        } else {
            filter_unexpired(es, now)
        },
    decreases es.len(),
{
    if es.len() == 0 {
        assert(es.push(e)[0] == e);
        assert(es.push(e).skip(1) =~= es);
        assert(filter_unexpired(es, now) =~= Seq::<(Seq<char>, Seq<char>)>::empty());
        if keep_entry(e.1, now) {
            assert(filter_unexpired(es.push(e), now) =~= filter_unexpired(es, now).push(e));
        } else {
            assert(filter_unexpired(es.push(e), now) =~= filter_unexpired(es, now));
        }
    } else {
        lemma_filter_unexpired_snoc(es.skip(1), e, now);
        assert(es.push(e).skip(1) =~= es.skip(1).push(e));
        assert(es.push(e)[0] == es[0]);
        if keep_entry(e.1, now) {
            if keep_entry(es[0].1, now) {
                assert(filter_unexpired(es.push(e), now) =~= filter_unexpired(es, now).push(e));
            } else {
                assert(filter_unexpired(es.push(e), now) =~= filter_unexpired(es, now).push(e));
            }
        } else {
            if keep_entry(es[0].1, now) {
                assert(filter_unexpired(es.push(e), now) =~= filter_unexpired(es, now));
            } else {
                assert(filter_unexpired(es.push(e), now) =~= filter_unexpired(es, now));
            }
        }
    }
}

proof fn lemma_split_comma_roundtrip(id: Seq<char>, exp: Seq<char>)
    requires
        forall|k: int| 0 <= k < id.len() ==> id[k] != ',',
    ensures
        split_comma(id + seq![','] + exp) == Some((id, exp)),
    decreases id.len(),
{
    let line = id + seq![','] + exp;
    if id.len() == 0 {
        assert(line[0] == ',');
        assert(line.skip(1) =~= exp);
        assert(Seq::<char>::empty() =~= id);
    } else {
        assert(line[0] == id[0]);
        assert(line.skip(1) =~= id.skip(1) + seq![','] + exp);
        lemma_split_comma_roundtrip(id.skip(1), exp);
        match split_comma(line) {
            Some(p) => {
                assert(p.0 =~= id) by {
                    assert(p.0 == seq![id[0]] + id.skip(1));
                }
            },
            None => {
                assert(false);
            },
        }
    }
}

proof fn lemma_parse_line(cur: Seq<char>, body: Seq<char>, rest: Seq<char>)
    requires
        forall|k: int| 0 <= k < body.len() ==> body[k] != '\n',
    ensures
        parse_lines(cur, body + seq!['\n'] + rest) == finish_line(cur + body) + parse_lines(
            Seq::empty(),
            rest,
        ),
    decreases body.len(),
{
    let s = body + seq!['\n'] + rest;
    if body.len() == 0 {
        assert(s[0] == '\n');
        assert(s.skip(1) =~= rest);
        assert(cur + body =~= cur);
    } else {
        assert(s[0] == body[0]);
        assert(s.skip(1) =~= body.skip(1) + seq!['\n'] + rest);
        lemma_parse_line(cur.push(body[0]), body.skip(1), rest);
        assert(cur.push(body[0]) + body.skip(1) =~= cur + body);
    }
}

proof fn lemma_parse_store_text(entries: Seq<(Seq<char>, Seq<char>)>)
    requires
        forall|i: int| 0 <= i < entries.len() ==> entry_text_well_formed(
            entries[i].0,
            entries[i].1,
        ),
    ensures
        parse_store_text(store_text(entries)) == entries,
    decreases entries.len(),
{
    if entries.len() == 0 {
        assert(parse_lines(Seq::empty(), store_text(entries)) =~= Seq::<
            (Seq<char>, Seq<char>),
        >::empty());
    } else {
        let e = entries[0];
        let rest = entries.skip(1);
        let body = e.0 + seq![','] + e.1;
        assert(entry_text_well_formed(e.0, e.1));
        assert forall|k: int| 0 <= k < body.len() implies body[k] != '\n' by {
            if k < e.0.len() {
                assert(body[k] == e.0[k]);
            } else if k == e.0.len() {
                assert(body[k] == ',');
            } else {
                assert(body[k] == e.1[k - e.0.len() - 1]);
            }
        }
        assert(store_text(entries) =~= body + seq!['\n'] + store_text(rest));
        lemma_parse_line(Seq::empty(), body, store_text(rest));
        assert(Seq::<char>::empty() + body =~= body);
        lemma_split_comma_roundtrip(e.0, e.1);
        assert(body.len() > 0);
        lemma_trimmed_stable(e.0);
        lemma_trimmed_stable(e.1);
        assert(finish_line(body) =~= seq![e]);
        assert forall|i: int| 0 <= i < rest.len() implies entry_text_well_formed(
            rest[i].0,
            rest[i].1,
        ) by {
            assert(rest[i] == entries[i + 1]);
        }
        lemma_parse_store_text(rest);
        assert(parse_store_text(store_text(entries)) =~= entries);
    }
}

proof fn lemma_store_of_unique(es: Seq<(Seq<char>, Seq<char>)>)
    requires
        forall|i: int, j: int| 0 <= i < j < es.len() ==> es[i].0 != es[j].0,
    ensures
        store_of(es) == es,
    decreases es.len(),
{
    if es.len() > 0 {
        let head = es.drop_last();
        assert forall|i: int, j: int| 0 <= i < j < head.len() implies head[i].0 != head[j].0 by {
            assert(head[i] == es[i]);
            assert(head[j] == es[j]);
        }
        lemma_store_of_unique(head);
        assert forall|j: int| 0 <= j < head.len() implies head[j].0 != es.last().0 by {
            assert(head[j] == es[j]);
        }
        lemma_rec_insert_append(head, es.last().0, es.last().1);
        assert(store_of(es) =~= es);
    }
}

proof fn lemma_filter_all_keep(es: Seq<(Seq<char>, Seq<char>)>, now: int)
    requires
        forall|i: int| 0 <= i < es.len() ==> keep_entry(es[i].1, now),
    ensures
        filter_unexpired(es, now) == es,
    decreases es.len(),
{
    if es.len() > 0 {
        assert forall|i: int| 0 <= i < es.skip(1).len() implies keep_entry(
            es.skip(1)[i].1,
            now,
        ) by {
            assert(es.skip(1)[i] == es[i + 1]);
        }
        lemma_filter_all_keep(es.skip(1), now);
        assert(filter_unexpired(es, now) =~= es);
    }
}

/// Round trip of the known-blob store: saving a store whose entries the line
/// format can carry (no comma in an id, no newline or surrounding
/// whitespace anywhere) and whose ids are distinct, then loading the text
/// back at a time `now` at which no entry has expired, yields exactly the
/// same entries in the same order.
pub proof fn lemma_known_store_round_trip(entries: Seq<(Seq<char>, Seq<char>)>, now: int)
    requires
        forall|i: int| 0 <= i < entries.len() ==> entry_text_well_formed(
            entries[i].0,
            entries[i].1,
        ),
        forall|i: int, j: int| 0 <= i < j < entries.len() ==> entries[i].0 != entries[j].0,
    ensures
        (forall|i: int| 0 <= i < entries.len() ==> keep_entry(entries[i].1, now))
            ==> store_of(filter_unexpired(parse_store_text(store_text(entries)), now))
            == entries,
{
    if forall|i: int| 0 <= i < entries.len() ==> keep_entry(entries[i].1, now) {
        lemma_parse_store_text(entries);
        lemma_filter_all_keep(entries, now);
        lemma_store_of_unique(entries);
    }
}

} // verus!
