//! The compute part of the delimited-file sink: deriving the union of
//! columns over a heterogeneous set of records, filling each record's row
//! against those columns, and naming the per-content-type output files.

use crate::records::{rec_get, rec_has_key, Record, RecordView};
use crate::text::push_char;
use vstd::prelude::*;
use vstd::string::StringExecFns;

verus! {

/// The columns after folding one record's keys into an existing column
/// list: each key not yet present is appended, in record order.
pub open spec fn add_columns(cols: Seq<Seq<char>>, rec: RecordView) -> Seq<Seq<char>>
    decreases rec.len(),
{
    if rec.len() == 0 {
        cols
    } else {
        add_columns(
            if cols.contains(rec[0].0) {
                cols
            } else {
                cols.push(rec[0].0)
            },
            rec.skip(1),
        )
    }
}

/// The union of all keys over the records, in order of first appearance.
pub open spec fn columns_of(cols: Seq<Seq<char>>, recs: Seq<RecordView>) -> Seq<Seq<char>>
    decreases recs.len(),
{
    if recs.len() == 0 {
        cols
    } else {
        columns_of(add_columns(cols, recs[0]), recs.skip(1))
    }
}

fn string_vec_contains(v: &Vec<String>, s: &str) -> (r: bool)
    ensures
        r == v.deep_view().contains(s@),
{
    let n = v.len();
    let mut i: usize = 0;
    while i < n
        invariant
            n == v@.len(),
            i <= n,
            forall|j: int| 0 <= j < i ==> v.deep_view()[j] != s@,
        decreases n - i,
    {
        assert(v.deep_view()[i as int] == v@[i as int]@);
        if crate::text::str_eq(v[i].as_str(), s) {
            assert(v.deep_view()[i as int] == s@);
            return true;
        }
        i = i + 1;
    }
    assert forall|j: int| 0 <= j < v.deep_view().len() implies v.deep_view()[j] != s@ by {
    }
    false
}

/// All column names over a heterogeneous collection of records, in order of
/// first appearance.
pub fn get_all_columns(logs: &Vec<Record>) -> (r: Vec<String>)
    ensures
        r.deep_view() == columns_of(Seq::empty(), logs.deep_view()),
{
    let ghost lv = logs.deep_view();
    let mut columns: Vec<String> = Vec::new();
    let n = logs.len();
    let mut i: usize = 0;
    assert(lv.skip(0) =~= lv);
    assert(columns.deep_view() =~= Seq::<Seq<char>>::empty());
    while i < n
        invariant
            lv == logs.deep_view(),
            n == logs@.len(),
            n == lv.len(),
            i <= n,
            columns_of(columns.deep_view(), lv.skip(i as int)) == columns_of(Seq::empty(), lv),
        decreases n - i,
    {
        proof {
            assert(lv.skip(i as int)[0] == lv[i as int]);
            assert(lv.skip(i as int).skip(1) =~= lv.skip(i as int + 1));
            assert(lv[i as int] == logs@[i as int]@);
        }
        let ghost rv = lv[i as int];
        let m = logs[i].fields.len();
        let mut k: usize = 0;
        assert(rv.skip(0) =~= rv);
        while k < m
            invariant
                lv == logs.deep_view(),
                i < n,
                n == logs@.len(),
                n == lv.len(),
                rv == lv[i as int],
                rv == logs@[i as int]@,
                m == logs@[i as int].fields@.len(),
                m == rv.len(),
                k <= m,
                columns_of(
                    add_columns(columns.deep_view(), rv.skip(k as int)),
                    lv.skip(i as int + 1),
                ) == columns_of(Seq::empty(), lv),
            decreases m - k,
        {
            proof {
                assert(rv.skip(k as int)[0] == rv[k as int]);
                assert(rv.skip(k as int).skip(1) =~= rv.skip(k as int + 1));
                assert(rv[k as int].0 == logs@[i as int].fields@[k as int].0@);
            }
            let key = logs[i].fields[k].0.clone();
            if !string_vec_contains(&columns, key.as_str()) {
                let ghost prev = columns.deep_view();
                let ghost prev_raw = columns@;
                columns.push(key);
                proof {
                    assert forall|t: int| 0 <= t < columns.deep_view().len() implies
                        columns.deep_view()[t] == prev.push(rv[k as int].0)[t] by {
                        if t < prev_raw.len() {
                            assert(columns@[t] == prev_raw[t]);
                        } else {
                            assert(columns@[t]@ == rv[k as int].0);
                        }
                    }
                    assert(columns.deep_view() =~= prev.push(rv[k as int].0));
                }
            }
            k = k + 1;
        }
        proof {
            assert(rv.skip(m as int) =~= Seq::<(Seq<char>, Seq<char>)>::empty());
        }
        i = i + 1;
    }
    assert(lv.skip(n as int) =~= Seq::<RecordView>::empty());
    columns
}

/// The row of one record against a fixed column list: the record's value
/// under each column, or the empty string for a column the record lacks.
pub open spec fn filled_row(log: RecordView, cols: Seq<Seq<char>>) -> Seq<Seq<char>> {
    cols.map_values(
        |c: Seq<char>|
            if rec_has_key(log, c) {
                rec_get(log, c)
            } else {
                Seq::<char>::empty()
            },
    )
}

/// Fills one record's row against the column list, with an empty cell for
/// every column the record lacks.
pub fn fill_log(log: &Record, columns: &Vec<String>) -> (r: Vec<String>)
    ensures
        r.deep_view() == filled_row(log@, columns.deep_view()),
{
    let ghost cv = columns.deep_view();
    let mut new_log: Vec<String> = Vec::new();
    let n = columns.len();
    let mut i: usize = 0;
    while i < n
        invariant
            cv == columns.deep_view(),
            n == columns@.len(),
            n == cv.len(),
            i <= n,
            new_log@.len() == i,
            forall|j: int| 0 <= j < i ==> (#[trigger] new_log@[j])@ == filled_row(log@, cv)[j],
        decreases n - i,
    {
        assert(cv[i as int] == columns@[i as int]@);
        match log.get(columns[i].as_str()) {
            Some(v) => {
                new_log.push(v.clone());
            },
            None => {
                new_log.push(String::new());
            },
        }
        assert(new_log@[i as int]@ == filled_row(log@, cv)[i as int]);
        i = i + 1;
    }
    assert forall|j: int| 0 <= j < new_log.deep_view().len() implies new_log.deep_view()[j]
        == filled_row(log@, cv)[j] by {
        assert(new_log@[j]@ == filled_row(log@, cv)[j]);
    }
    assert(new_log.deep_view() =~= filled_row(log@, cv));
    new_log
}

/// The content-type label without its dots, as used in file names.
pub open spec fn sans_dots(s: Seq<char>) -> Seq<char>
    decreases s.len(),
{
    if s.len() == 0 {
        Seq::empty()
    } else {
        (if s[0] == '.' {
            Seq::<char>::empty()
        } else {
            seq![s[0]]
        }) + sans_dots(s.skip(1))
    }
}

fn remove_dots(s: &str) -> (r: String)
    ensures
        r@ == sans_dots(s@),
{
    let n = s.unicode_len();
    let mut out = String::new();
    let mut i: usize = 0;
    assert(s@.skip(0) =~= s@);
    while i < n
        invariant
            n == s@.len(),
            i <= n,
            out@ + sans_dots(s@.skip(i as int)) == sans_dots(s@),
        decreases n - i,
    {
        proof {
            assert(s@.skip(i as int)[0] == s@[i as int]);
            assert(s@.skip(i as int).skip(1) =~= s@.skip(i as int + 1));
        }
        let c = s.get_char(i);
        if c != '.' {
            let ghost prev = out@;
            push_char(&mut out, c);
            assert(prev + (seq![s@[i as int]] + sans_dots(s@.skip(i as int + 1))) =~= out@
                + sans_dots(s@.skip(i as int + 1)));
        }
        i = i + 1;
    }
    assert(s@.skip(n as int) =~= Seq::<char>::empty());
    out
}

/// The file path of one content type's output file.
pub open spec fn path_chars(
    parent: Option<Seq<char>>,
    postfix: Seq<char>,
    stem: Seq<char>,
    ct: Seq<char>,
) -> Seq<char> {
    (match parent {
        Some(p) => p + "/"@,
        None => Seq::<char>::empty(),
    }) + postfix + "_"@ + stem + "_"@ + sans_dots(ct) + ".csv"@
}

/// Derives the output file path of every content type, when the sink writes
/// one file per content type: the timestamp postfix and the configured
/// file's stem, with the content type (dots removed) appended, under the
/// configured file's parent directory if it has one.
pub fn create_content_type_paths(
    parent: Option<&String>,
    postfix: &str,
    stem: &str,
    content_types: &Vec<String>,
) -> (r: Vec<(String, String)>)
    ensures
        r@.len() == content_types@.len(),
        forall|i: int| 0 <= i < r@.len() ==> (#[trigger] r.deep_view()[i]) == (
        content_types.deep_view()[i], path_chars(
            match parent {
                Some(p) => Some(p@),
                None => None,
            },
            postfix@,
            stem@,
            content_types.deep_view()[i],
        )),
{
    let mut out: Vec<(String, String)> = Vec::new();
    let n = content_types.len();
    let mut i: usize = 0;
    while i < n
        invariant
            n == content_types@.len(),
            i <= n,
            out@.len() == i,
            forall|j: int| 0 <= j < i ==> (#[trigger] out@[j]).0@ == content_types@[j]@
                && out@[j].1@ == path_chars(
                match parent {
                    Some(p) => Some(p@),
                    None => None,
                },
                postfix@,
                stem@,
                content_types@[j]@,
            ),
        decreases n - i,
    {
        assert(content_types.deep_view()[i as int] == content_types@[i as int]@);
        let mut file = String::new();
        match parent {
            Some(p) => {
                file.append(p.as_str());
                file.append("/");
            },
            None => {},
        }
        file.append(postfix);
        file.append("_");
        file.append(stem);
        file.append("_");
        file.append(remove_dots(content_types[i].as_str()).as_str());
        file.append(".csv");
        proof {
            assert(file@ =~= path_chars(
                match parent {
                    Some(p) => Some(p@),
                    None => None,
                },
                postfix@,
                stem@,
                content_types.deep_view()[i as int],
            ));
        }
        out.push((content_types[i].clone(), file));
        assert(out@[i as int].0@ == content_types@[i as int]@);
        i = i + 1;
    }
    assert forall|j: int| 0 <= j < out.deep_view().len() implies (#[trigger] out.deep_view()[j])
        == (content_types.deep_view()[j], path_chars(
        match parent {
            Some(p) => Some(p@),
            None => None,
        },
        postfix@,
        stem@,
        content_types.deep_view()[j],
    )) by {
        assert(out.deep_view()[j] == (out@[j].0@, out@[j].1@));
        assert(content_types.deep_view()[j] == content_types@[j]@);
    }
    out
}

} // verus!
