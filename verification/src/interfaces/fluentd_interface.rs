//! The compute part of the forward-protocol sink: the event timestamp of a
//! record, read from its `CreationTime` field. The driver converts the
//! timestamp to the wall-clock type its client library wants and performs
//! the sends.

use crate::records::{rec_get, rec_has_key, unquote, Record};
use crate::time::{creation_ts_of, parse_creation_time};
use vstd::prelude::*;

verus! {

/// The unix timestamp of a record's `CreationTime` field: `None` when the
/// field is missing, not a JSON string, or not a readable timestamp.
pub fn get_timestamp(log: &Record) -> (r: Option<i64>)
    ensures
        match r {
            Some(t) => {
                &&& rec_has_key(log@, "CreationTime"@)
                &&& unquote(rec_get(log@, "CreationTime"@)) is Some
                &&& creation_ts_of(unquote(rec_get(log@, "CreationTime"@))->Some_0) == Some(t)
            },
            None => !(rec_has_key(log@, "CreationTime"@) && unquote(
                rec_get(log@, "CreationTime"@),
            ) is Some && creation_ts_of(
                unquote(rec_get(log@, "CreationTime"@))->Some_0,
            ) is Some),
        },
{
    let raw = match log.get("CreationTime") {
        Some(v) => v,
        None => {
            return None;
        },
    };
    let time_string = match crate::records::strip_quotes(raw.as_str()) {
        Some(s) => s,
        None => {
            return None;
        },
    };
    parse_creation_time(time_string.as_str())
}

} // verus!
