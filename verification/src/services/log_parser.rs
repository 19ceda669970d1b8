//! Log entries from VM Service `Stdout`/`Stderr` write events and `Logging` events.

use vstd::prelude::*;
use crate::codec::{base64_decode, base64_standard_decode, from_utf8_lossy, utf8_lossy};
use crate::entities::{LogEntry, LogSource, opt_view};
use crate::json::{JsonValue, spec_get, spec_get_i64, spec_get_str};
use crate::text::{from_chars, to_chars, trim_end_char, trim_end_char_chars};

verus! {

broadcast use vstd::string::group_string_axioms;

/// The decoded text of a write event: its Base64 `bytes`, decoded, without trailing
/// line terminators; `None` when absent, undecodable or empty.
pub open spec fn spec_write_event_message(event: JsonValue) -> Option<Seq<char>> {
    match spec_get_str(event, "bytes"@) {
        Some(encoded) => match base64_standard_decode(encoded) {
            Ok(bytes) => spec_stdout_message(utf8_lossy(bytes)),
            Err(_) => None,
        },
        None => None,
    }
}

/// The message of a decoded write event: its text without trailing line feeds, `None`
/// when nothing is left.
pub open spec fn spec_stdout_message(text: Seq<char>) -> Option<Seq<char>> {
    let m = trim_end_char(text, '\n');
    if m.len() == 0 {
        None
    } else {
        Some(m)
    }
}

/// The `timestamp` (or `time`) field when it is an integer, zero otherwise.
pub open spec fn timestamp_or_zero(t: Option<i64>) -> i64 {
    match t {
        Some(v) => v,
        None => 0,
    }
}

/// The inline string of an `InstanceRef` (`valueAsString`).
pub open spec fn spec_instance_ref_string(v: JsonValue) -> Option<Seq<char>> {
    spec_get_str(v, "valueAsString"@)
}

/// The `InstanceRef` string of field `key` of a record.
pub open spec fn spec_record_string(record: JsonValue, key: Seq<char>) -> Option<Seq<char>> {
    match spec_get(record, key) {
        Some(v) => spec_instance_ref_string(v),
        None => None,
    }
}

/// The logger name of a `Logging` record: its inline string, when not empty.
pub open spec fn spec_logger_name(record: JsonValue) -> Option<Seq<char>> {
    match spec_record_string(record, "loggerName"@) {
        Some(n) => if n.len() > 0 {
            Some(n)
        } else {
            None
        },
        None => None,
    }
}

/// The entry made of a `Logging` record with message `m`.
pub open spec fn is_logging_entry(e: LogEntry, record: JsonValue, m: Seq<char>) -> bool {
    &&& e.message@ == m
    &&& e.timestamp_ms == timestamp_or_zero(spec_get_i64(record, "time"@))
    &&& match e.source {
        LogSource::Logging { level, logger_name } => level == spec_get_i64(record, "level"@)
            && opt_view(logger_name) == spec_logger_name(record),
        _ => false,
    }
}

/// Builds log entries from VM Service events.
pub struct LogParser;

impl LogParser {
    /// Decodes a `WriteEvent` of the `Stdout`/`Stderr` streams.
    pub fn parse_stdout_event(is_stderr: bool, event: &JsonValue) -> (r: Option<LogEntry>)
        ensures
            match r {
                Some(e) => spec_write_event_message(*event) == Some(e.message@)
                    && e.timestamp_ms == timestamp_or_zero(spec_get_i64(*event, "timestamp"@))
                    && e.source == (if is_stderr { LogSource::Stderr } else { LogSource::Stdout }),
                None => spec_write_event_message(*event) is None,
            },
    {
        let encoded = match event.get_str("bytes") {
            Some(e) => e,
            None => return None,
        };
        let bytes = match base64_decode(encoded) {
            Ok(b) => b,
            Err(_) => return None,
        };
        let text = from_utf8_lossy(&bytes);
        let timestamp_ms: i64 = match event.get_i64("timestamp") {
            Some(t) => t,
            None => 0,
        };
        Self::stdout_entry(is_stderr, text.as_str(), timestamp_ms)
    }

    /// The log entry of a decoded `Stdout`/`Stderr` write: its text without trailing line
    /// feeds; `None` when nothing is left.
    pub fn stdout_entry(is_stderr: bool, text: &str, timestamp_ms: i64) -> (r: Option<LogEntry>)
        ensures
            match spec_stdout_message(text@) {
                Some(m) => r matches Some(e) && e.message@ == m && e.timestamp_ms == timestamp_ms
                    && e.source == (if is_stderr { LogSource::Stderr } else { LogSource::Stdout }),
                None => r is None,
            },
    {
        let chars = to_chars(text);
        let trimmed = trim_end_char_chars(&chars, '\n');
        if trimmed.len() == 0 {
            return None;
        }
        let message = from_chars(&trimmed);
        Some(
            LogEntry {
                timestamp_ms,
                source: if is_stderr {
                    LogSource::Stderr
                } else {
                    LogSource::Stdout
                },
                message,
            },
        )
    }

    /// Extracts an entry from a `Logging` stream event (`dart:developer.log()` calls);
    /// `None` without a record or an inline message.
    pub fn parse_logging_event(event: &JsonValue) -> (r: Option<LogEntry>)
        ensures
            match spec_get(*event, "logRecord"@) {
                Some(record) => match spec_record_string(record, "message"@) {
                    Some(m) => match r {
                        Some(e) => is_logging_entry(e, record, m),
                        None => false,
                    },
                    None => r is None,
                },
                None => r is None,
            },
    {
        let record = match event.get("logRecord") {
            Some(r) => r,
            None => return None,
        };
        let message = match record.get("message") {
            Some(m) => match Self::instance_ref_string(m) {
                Some(s) => s,
                None => return None,
            },
            None => return None,
        };
        let level = record.get_i64("level");
        let logger_name = match record.get("loggerName") {
            Some(n) => match Self::instance_ref_string(n) {
                Some(s) => if s.as_str().unicode_len() > 0 {
                    Some(s)
                } else {
                    None
                },
                None => None,
            },
            None => None,
        };
        let timestamp_ms: i64 = match record.get_i64("time") {
            Some(t) => t,
            None => 0,
        };
        Some(LogEntry { timestamp_ms, source: LogSource::Logging { level, logger_name }, message })
    }

    /// The inline value of a string `InstanceRef`; long strings are truncated by the VM
    /// Service and not inlined, which yields `None`.
    fn instance_ref_string(value: &JsonValue) -> (r: Option<String>)
        ensures
            match r {
                Some(s) => spec_instance_ref_string(*value) == Some(s@),
                None => spec_instance_ref_string(*value) is None,
            },
    {
        match value.get_str("valueAsString") {
            Some(s) => Some(String::from_str(s)),
            None => None,
        }
    }
}

} // verus!
