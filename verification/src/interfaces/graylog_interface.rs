//! The compute part of the line-delimited-JSON-over-TCP sink: its endpoint
//! and the derived `timestamp` field added to each record before it is
//! serialized and sent by the driver.

use crate::records::{quoted, rec_get, rec_has_key, rec_insert, unquote, Record};
use crate::time::{creation_ts_of, format_stamp_time, parse_creation_time, stamp_chars_of};
use vstd::prelude::*;
use vstd::string::StringExecFns;

verus! {

/// The endpoint of the line-delimited-JSON-over-TCP sink.
pub struct GraylogInterface {
    pub address: String,
    pub port: u16,
}

impl GraylogInterface {
    pub fn new(address: String, port: u16) -> (r: GraylogInterface)
        ensures
            r.address@ == address@,
            r.port == port,
    {
        GraylogInterface { address, port }
    }
}

/// The derived timestamp value: the record's creation time rendered for the
/// sink, with its zeroed millisecond part.
pub open spec fn derived_stamp(t: i64) -> Seq<char> {
    stamp_chars_of(t) + ".000"@
}

/// Adds the sink's `timestamp` field, derived from the record's
/// `CreationTime`: a record whose creation time reads as a timestamp up to
/// the year 9999 gains the derived field, and a record without a readable
/// creation time is left unchanged and reported as an error.
pub fn add_timestamp_field(log: &mut Record) -> (r: Result<(), String>)
    ensures
        !(rec_has_key(old(log)@, "CreationTime"@) && unquote(
            rec_get(old(log)@, "CreationTime"@),
        ) is Some && creation_ts_of(
            unquote(rec_get(old(log)@, "CreationTime"@))->Some_0,
        ) is Some) ==> r is Err,
        (rec_has_key(old(log)@, "CreationTime"@) && unquote(
            rec_get(old(log)@, "CreationTime"@),
        ) is Some && creation_ts_of(
            unquote(rec_get(old(log)@, "CreationTime"@))->Some_0,
        ) is Some && 0 <= creation_ts_of(
            unquote(rec_get(old(log)@, "CreationTime"@))->Some_0,
        )->Some_0 <= 253402300799) ==> r is Ok,
        r is Ok ==> {
            &&& rec_has_key(old(log)@, "CreationTime"@)
            &&& unquote(rec_get(old(log)@, "CreationTime"@)) is Some
            &&& creation_ts_of(unquote(rec_get(old(log)@, "CreationTime"@))->Some_0) is Some
            &&& final(log)@ == rec_insert(
                old(log)@,
                "timestamp"@,
                quoted(
                    derived_stamp(
                        creation_ts_of(
                            unquote(rec_get(old(log)@, "CreationTime"@))->Some_0,
                        )->Some_0,
                    ),
                ),
            )
        },
        r is Err ==> final(log)@ == old(log)@,
{
    let raw = match log.get("CreationTime") {
        Some(v) => v.clone(),
        None => {
            return Result::Err("Expected CreationTime field".to_owned());
        },
    };
    let time_string = match crate::records::strip_quotes(raw.as_str()) {
        Some(s) => s,
        None => {
            return Result::Err("Could not convert timestamp field to string".to_owned());
        },
    };
    let time = match parse_creation_time(time_string.as_str()) {
        Some(t) => t,
        None => {
            return Result::Err("Could not parse time of log".to_owned());
        },
    };
    let mut stamp = match format_stamp_time(time) {
        Some(s) => s,
        None => {
            return Result::Err("Could not render time of log".to_owned());
        },
    };
    stamp.append(".000");
    let value = crate::records::quote_string(stamp.as_str());
    assert(value@ == quoted(derived_stamp(time)));
    log.insert("timestamp".to_owned(), value);
    Result::Ok(())
}

} // verus!
