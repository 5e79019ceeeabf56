//! From the members of a JSON object to a log record.
//!
//! The member `_TRANSPORT` says which shape a record has. Each shape asks
//! for its own members; numbers come as decimal text. Where the object does
//! not fit the shape that it names, or names none, what can be saved of it
//! becomes an `Invalid` record that says why. Only an object that does not
//! even hold the two timestamps of an `Invalid` record is given up.
//!
//! A member that a shape can do without has a default: a missing name is
//! `"unknown"`, and where the priority may be missing it is zero, also where
//! its text is no number. What is saved as an `Invalid` record asks for
//! still less: whatever stands under the identifier, if it is no text the
//! identifier is `"unknown"`.

use crate::decimal::{
    parse_i64, parse_u16, parse_u64, parse_u8, parsed_i64, parsed_u16, parsed_u64, parsed_u8,
};
use crate::json::{find, json_object, object_of, read_members, Member, Object};
use crate::model::{Audit, Driver, Invalid, Journal, Kernel, Log, LogView, Stdout, Syslog};
use crate::text::same_text;
use crate::timestamp::{calendar_has, lemma_micros_round_trip, Timestamp};
use vstd::prelude::*;
use vstd::string::StringExecFns;

verus! {

/// The members of a record that this library reads.
#[derive(Debug, Clone, Copy, PartialEq, Eq, Hash, Structural)]
pub enum Key {
    Transport,
    Pid,
    Priority,
    SystemdUnit,
    SyslogIdentifier,
    Message,
    RealtimeTimestamp,
    MonotonicTimestamp,
}

impl Key {
    /// The key of the member in the JSON object.
    pub open spec fn text(self) -> Seq<char> {
        match self {
            Key::Transport => "_TRANSPORT"@,
            Key::Pid => "_PID"@,
            Key::Priority => "PRIORITY"@,
            Key::SystemdUnit => "_SYSTEMD_UNIT"@,
            Key::SyslogIdentifier => "SYSLOG_IDENTIFIER"@,
            Key::Message => "MESSAGE"@,
            Key::RealtimeTimestamp => "__REALTIME_TIMESTAMP"@,
            Key::MonotonicTimestamp => "__MONOTONIC_TIMESTAMP"@,
        }
    }

    /// The key of the member in the JSON object.
    pub fn name(self) -> (r: &'static str)
        ensures
            r@ == self.text(),
    {
        match self {
            Key::Transport => "_TRANSPORT",
            Key::Pid => "_PID",
            Key::Priority => "PRIORITY",
            Key::SystemdUnit => "_SYSTEMD_UNIT",
            Key::SyslogIdentifier => "SYSLOG_IDENTIFIER",
            Key::Message => "MESSAGE",
            Key::RealtimeTimestamp => "__REALTIME_TIMESTAMP",
            Key::MonotonicTimestamp => "__MONOTONIC_TIMESTAMP",
        }
    }
}

/// Why an object does not fit a shape.
#[derive(Debug, Clone, Copy, PartialEq, Eq, Hash, Structural)]
pub enum Reason {
    /// A member that the shape needs is not there.
    Missing(Key),
    /// A member is there, but its value is not a JSON string.
    NotText(Key),
    /// The text of a member is not a number of the kind that the member holds.
    NotANumber(Key),
    /// The transport is none of the six that are known.
    UnknownTransport,
}

impl Reason {
    /// The reason in words.
    pub open spec fn text(self) -> Seq<char> {
        match self {
            Reason::Missing(key) => "missing field "@ + key.text(),
            Reason::NotText(key) => "not a string: field "@ + key.text(),
            Reason::NotANumber(key) => "not a number: field "@ + key.text(),
            Reason::UnknownTransport => "unknown transport"@,
        }
    }

    /// The reason in words.
    pub fn describe(&self) -> (r: String)
        ensures
            r@ == self.text(),
    {
        match self {
            Reason::Missing(key) => String::from_str("missing field ").concat(key.name()),
            Reason::NotText(key) => String::from_str("not a string: field ").concat(key.name()),
            Reason::NotANumber(key) => String::from_str("not a number: field ").concat(key.name()),
            Reason::UnknownTransport => String::from_str("unknown transport"),
        }
    }
}

/// Why a line gives no record at all.
#[derive(Debug, Clone, Copy, PartialEq, Eq, Hash, Structural)]
pub enum Failure {
    /// The line is not a JSON object.
    NotAnObject,
    /// The object fits no known shape, for the reason `primary`, and cannot
    /// be saved as an `Invalid` record either, for the reason `fallback`.
    Unsalvageable { primary: Reason, fallback: Reason },
    /// The wall-clock time of the record is beyond the calendar.
    OffCalendar,
}

/// Why a line gives no record at all, with what the JSON reader said of a
/// line that is no JSON object.
#[derive(Debug, Clone, PartialEq, Eq)]
pub enum ClassifyError {
    /// The line is not a JSON object.
    NotAnObject { detail: String },
    /// The object fits no known shape, for the reason `primary`, and cannot
    /// be saved as an `Invalid` record either, for the reason `fallback`.
    Unsalvageable { primary: Reason, fallback: Reason },
    /// The wall-clock time of the record is beyond the calendar.
    OffCalendar,
}

impl View for ClassifyError {
    type V = Failure;

    open spec fn view(&self) -> Failure {
        match *self {
            ClassifyError::NotAnObject { .. } => Failure::NotAnObject,
            ClassifyError::Unsalvageable { primary, fallback } => Failure::Unsalvageable {
                primary,
                fallback,
            },
            ClassifyError::OffCalendar => Failure::OffCalendar,
        }
    }
}

/// The text of the member `key`, which must be there.
pub open spec fn text_of(o: Object, key: Key) -> Result<Seq<char>, Reason> {
    if !o.contains_key(key.text()) {
        Err(Reason::Missing(key))
    } else {
        match o[key.text()] {
            Some(text) => Ok(text),
            None => Err(Reason::NotText(key)),
        }
    }
}

/// The text of the member `key`, or `"unknown"` where it is not there.
pub open spec fn text_or_unknown(o: Object, key: Key) -> Result<Seq<char>, Reason> {
    if !o.contains_key(key.text()) {
        Ok("unknown"@)
    } else {
        match o[key.text()] {
            Some(text) => Ok(text),
            None => Err(Reason::NotText(key)),
        }
    }
}

/// The `u8` that the member `key` holds.
pub open spec fn u8_of(o: Object, key: Key) -> Result<u8, Reason> {
    match text_of(o, key) {
        Ok(text) => match parsed_u8(text) {
            Some(v) => Ok(v),
            None => Err(Reason::NotANumber(key)),
        },
        Err(e) => Err(e),
    }
}

/// The `u16` that the member `key` holds.
pub open spec fn u16_of(o: Object, key: Key) -> Result<u16, Reason> {
    match text_of(o, key) {
        Ok(text) => match parsed_u16(text) {
            Some(v) => Ok(v),
            None => Err(Reason::NotANumber(key)),
        },
        Err(e) => Err(e),
    }
}

/// The `u64` that the member `key` holds.
pub open spec fn u64_of(o: Object, key: Key) -> Result<u64, Reason> {
    match text_of(o, key) {
        Ok(text) => match parsed_u64(text) {
            Some(v) => Ok(v),
            None => Err(Reason::NotANumber(key)),
        },
        Err(e) => Err(e),
    }
}

/// The instant that a count of microseconds in decimal text denotes.
pub open spec fn instant_of_text(text: Seq<char>) -> Option<Timestamp> {
    match parsed_i64(text) {
        Some(micros) => Some(Timestamp::at_micros(micros)),
        None => None,
    }
}

/// The instant that the member `key` holds.
pub open spec fn instant_of(o: Object, key: Key) -> Result<Timestamp, Reason> {
    match text_of(o, key) {
        Ok(text) => match instant_of_text(text) {
            Some(t) => Ok(t),
            None => Err(Reason::NotANumber(key)),
        },
        Err(e) => Err(e),
    }
}

/// The priority of a shape that does not insist on one: zero where the
/// member is not there or does not hold a `u8`.
pub open spec fn priority_or_zero(o: Object) -> u8 {
    match u8_of(o, Key::Priority) {
        Ok(p) => p,
        Err(_) => 0,
    }
}

/// The identifier of what is saved of an object: `"unknown"` where the
/// member is not there or does not hold text.
pub open spec fn identifier_or_unknown(o: Object) -> Seq<char> {
    match text_of(o, Key::SyslogIdentifier) {
        Ok(text) => text,
        Err(_) => "unknown"@,
    }
}

/// The two timestamps that every shape needs.
pub open spec fn times_of(o: Object) -> Result<(Timestamp, u64), Reason> {
    match instant_of(o, Key::RealtimeTimestamp) {
        Ok(realtime) => match u64_of(o, Key::MonotonicTimestamp) {
            Ok(monotonic) => Ok((realtime, monotonic)),
            Err(e) => Err(e),
        },
        Err(e) => Err(e),
    }
}

/// The message and the two timestamps that every known shape needs.
pub open spec fn body_of(o: Object) -> Result<(Seq<char>, Timestamp, u64), Reason> {
    match text_of(o, Key::Message) {
        Ok(message) => match times_of(o) {
            Ok((realtime, monotonic)) => Ok((message, realtime, monotonic)),
            Err(e) => Err(e),
        },
        Err(e) => Err(e),
    }
}

/// The record of the journal that `o` holds.
pub open spec fn journal_of(o: Object) -> Result<LogView, Reason> {
    match u16_of(o, Key::Pid) {
        Ok(pid) => match text_or_unknown(o, Key::SystemdUnit) {
            Ok(systemd_unit) => match body_of(o) {
                Ok((message, realtime_timestamp, monotonic_timestamp)) => Ok(
                    LogView::Journal {
                        pid,
                        priority: priority_or_zero(o),
                        systemd_unit,
                        message,
                        realtime_timestamp,
                        monotonic_timestamp,
                    },
                ),
                Err(e) => Err(e),
            },
            Err(e) => Err(e),
        },
        Err(e) => Err(e),
    }
}

/// What the shapes of the kernel, of syslog and of a driver hold alike: an
/// identifier, a priority that must be there, a message, two timestamps.
pub open spec fn plain_of(o: Object) -> Result<(Seq<char>, u8, Seq<char>, Timestamp, u64), Reason> {
    match text_or_unknown(o, Key::SyslogIdentifier) {
        Ok(identifier) => match u8_of(o, Key::Priority) {
            Ok(priority) => match body_of(o) {
                Ok((message, realtime, monotonic)) => Ok(
                    (identifier, priority, message, realtime, monotonic),
                ),
                Err(e) => Err(e),
            },
            Err(e) => Err(e),
        },
        Err(e) => Err(e),
    }
}

/// The record of the kernel that `o` holds.
pub open spec fn kernel_of(o: Object) -> Result<LogView, Reason> {
    match plain_of(o) {
        Ok((identifier, priority, message, realtime_timestamp, monotonic_timestamp)) => Ok(
            LogView::Kernel {
                identifier,
                priority,
                message,
                realtime_timestamp,
                monotonic_timestamp,
            },
        ),
        Err(e) => Err(e),
    }
}

/// The record of syslog that `o` holds.
pub open spec fn syslog_of(o: Object) -> Result<LogView, Reason> {
    match plain_of(o) {
        Ok((identifier, priority, message, realtime_timestamp, monotonic_timestamp)) => Ok(
            LogView::Syslog {
                identifier,
                priority,
                message,
                realtime_timestamp,
                monotonic_timestamp,
            },
        ),
        Err(e) => Err(e),
    }
}

/// The record of a driver that `o` holds.
pub open spec fn driver_of(o: Object) -> Result<LogView, Reason> {
    match plain_of(o) {
        Ok((identifier, priority, message, realtime_timestamp, monotonic_timestamp)) => Ok(
            LogView::Driver {
                identifier,
                priority,
                message,
                realtime_timestamp,
                monotonic_timestamp,
            },
        ),
        Err(e) => Err(e),
    }
}

/// The record of standard output that `o` holds.
pub open spec fn stdout_of(o: Object) -> Result<LogView, Reason> {
    match text_or_unknown(o, Key::SyslogIdentifier) {
        Ok(identifier) => match text_or_unknown(o, Key::SystemdUnit) {
            Ok(systemd_unit) => match u8_of(o, Key::Priority) {
                Ok(priority) => match body_of(o) {
                    Ok((message, realtime_timestamp, monotonic_timestamp)) => Ok(
                        LogView::Stdout {
                            identifier,
                            systemd_unit,
                            priority,
                            message,
                            realtime_timestamp,
                            monotonic_timestamp,
                        },
                    ),
                    Err(e) => Err(e),
                },
                Err(e) => Err(e),
            },
            Err(e) => Err(e),
        },
        Err(e) => Err(e),
    }
}

/// The record of the audit subsystem that `o` holds.
pub open spec fn audit_of(o: Object) -> Result<LogView, Reason> {
    match text_or_unknown(o, Key::SyslogIdentifier) {
        Ok(identifier) => match body_of(o) {
            Ok((message, realtime_timestamp, monotonic_timestamp)) => Ok(
                LogView::Audit {
                    identifier,
                    priority: priority_or_zero(o),
                    message,
                    realtime_timestamp,
                    monotonic_timestamp,
                },
            ),
            Err(e) => Err(e),
        },
        Err(e) => Err(e),
    }
}

/// The record of the shape that `o` names as its transport.
pub open spec fn known_of(o: Object) -> Result<LogView, Reason> {
    match text_of(o, Key::Transport) {
        Ok(transport) => if transport == "journal"@ {
            journal_of(o)
        } else if transport == "kernel"@ {
            kernel_of(o)
        } else if transport == "stdout"@ {
            stdout_of(o)
        } else if transport == "audit"@ {
            audit_of(o)
        } else if transport == "syslog"@ {
            syslog_of(o)
        } else if transport == "driver"@ {
            driver_of(o)
        } else {
            Err(Reason::UnknownTransport)
        },
        Err(e) => Err(e),
    }
}

/// The `Invalid` record that is left of `o`, which fits no known shape for
/// the reason `why`. Only the two timestamps must be there: the identifier
/// and the priority are taken as far as they can be read.
pub open spec fn salvaged_of(o: Object, why: Reason) -> Result<LogView, Reason> {
    match times_of(o) {
        Ok((realtime_timestamp, monotonic_timestamp)) => Ok(
            LogView::Invalid {
                identifier: identifier_or_unknown(o),
                priority: priority_or_zero(o),
                error: why.text(),
                realtime_timestamp,
                monotonic_timestamp,
            },
        ),
        Err(e) => Err(e),
    }
}

/// The record that `o` is classified as: the record of the shape that it
/// names, or else what is left of it as an `Invalid` record.
pub open spec fn classified(o: Object) -> Result<LogView, Failure> {
    match known_of(o) {
        Ok(log) => Ok(log),
        Err(primary) => match salvaged_of(o, primary) {
            Ok(log) => Ok(log),
            Err(fallback) => Err(Failure::Unsalvageable { primary, fallback }),
        },
    }
}

/// The record that a line is classified as: that of the JSON object that
/// `serde_json` reads from it, provided that the calendar of `chrono` has
/// the wall-clock time of the record.
pub open spec fn classified_line(line: Seq<char>) -> Result<LogView, Failure> {
    match json_object(line) {
        Some(o) => match classified(o) {
            Ok(log) => if calendar_has(log.realtime().secs, log.realtime().nanos) {
                Ok(log)
            } else {
                Err(Failure::OffCalendar)
            },
            Err(failure) => Err(failure),
        },
        None => Err(Failure::NotAnObject),
    }
}

/// The wall-clock time of a record that is read from an object is a whole
/// number of microseconds.
pub proof fn lemma_classified_wf(o: Object)
    ensures
        classified(o) matches Ok(log) ==> log.wf(),
{
    match instant_of(o, Key::RealtimeTimestamp) {
        Ok(t) => {
            let text = text_of(o, Key::RealtimeTimestamp)->Ok_0;
            lemma_micros_round_trip(parsed_i64(text)->Some_0);
        },
        Err(_) => {},
    }
}

/// The unit of a record that names none.
pub fn default_systemd_unit() -> (r: &'static str)
    ensures
        r@ == "unknown"@,
{
    "unknown"
}

/// The identifier of a record that gives none.
pub fn default_syslog_identity() -> (r: &'static str)
    ensures
        r@ == "unknown"@,
{
    "unknown"
}

/// Reads a count of microseconds since the Unix epoch from decimal text and
/// splits it into seconds and nanoseconds.
pub fn datefmt(text: &str) -> (r: Option<Timestamp>)
    ensures
        r == instant_of_text(text@),
{
    match parse_i64(text) {
        Some(micros) => Some(Timestamp::from_micros(micros)),
        None => None,
    }
}

/// Reads the text of the member `key`, which must be there.
fn text_field<'a>(members: &'a [Member], key: Key) -> (r: Result<
    &'a str,
    Reason,
>)
    ensures
        match r {
            Ok(text) => text_of(object_of(members.deep_view()), key) == Ok::<Seq<char>, Reason>(
                text@,
            ),
            Err(e) => text_of(object_of(members.deep_view()), key) == Err::<Seq<char>, Reason>(e),
        },
{
    match find(members, key.name()) {
        Some(value) => match value {
            Some(text) => Ok(text.as_str()),
            None => Err(Reason::NotText(key)),
        },
        None => Err(Reason::Missing(key)),
    }
}

/// Reads the text of the member `key`, or hands out `default` where the
/// member is not there.
fn text_field_or<'a>(
    members: &'a [Member],
    key: Key,
    default: &'a str,
) -> (r: Result<&'a str, Reason>)
    requires
        default@ == "unknown"@,
    ensures
        match r {
            Ok(text) => text_or_unknown(object_of(members.deep_view()), key) == Ok::<
                Seq<char>,
                Reason,
            >(text@),
            Err(e) => text_or_unknown(object_of(members.deep_view()), key) == Err::<
                Seq<char>,
                Reason,
            >(e),
        },
{
    match find(members, key.name()) {
        Some(value) => match value {
            Some(text) => Ok(text.as_str()),
            None => Err(Reason::NotText(key)),
        },
        None => Ok(default),
    }
}

/// Reads the `u8` that the member `key` holds.
fn u8_field(members: &[Member], key: Key) -> (r: Result<u8, Reason>)
    ensures
        r == u8_of(object_of(members.deep_view()), key),
{
    match text_field(members, key) {
        Ok(text) => match parse_u8(text) {
            Some(v) => Ok(v),
            None => Err(Reason::NotANumber(key)),
        },
        Err(e) => Err(e),
    }
}

/// Reads the `u16` that the member `key` holds.
fn u16_field(members: &[Member], key: Key) -> (r: Result<u16, Reason>)
    ensures
        r == u16_of(object_of(members.deep_view()), key),
{
    match text_field(members, key) {
        Ok(text) => match parse_u16(text) {
            Some(v) => Ok(v),
            None => Err(Reason::NotANumber(key)),
        },
        Err(e) => Err(e),
    }
}

/// Reads the `u64` that the member `key` holds.
fn u64_field(members: &[Member], key: Key) -> (r: Result<u64, Reason>)
    ensures
        r == u64_of(object_of(members.deep_view()), key),
{
    match text_field(members, key) {
        Ok(text) => match parse_u64(text) {
            Some(v) => Ok(v),
            None => Err(Reason::NotANumber(key)),
        },
        Err(e) => Err(e),
    }
}

/// Reads the instant that the member `key` holds.
fn instant_field(members: &[Member], key: Key) -> (r: Result<
    Timestamp,
    Reason,
>)
    ensures
        r == instant_of(object_of(members.deep_view()), key),
{
    match text_field(members, key) {
        Ok(text) => match datefmt(text) {
            Some(t) => Ok(t),
            None => Err(Reason::NotANumber(key)),
        },
        Err(e) => Err(e),
    }
}

/// Reads the priority of a shape that does not insist on one.
fn priority_field(members: &[Member]) -> (r: u8)
    ensures
        r == priority_or_zero(object_of(members.deep_view())),
{
    match u8_field(members, Key::Priority) {
        Ok(p) => p,
        Err(_) => 0,
    }
}

/// Reads the identifier of what is saved of an object.
fn identifier_field(members: &[Member]) -> (r: String)
    ensures
        r@ == identifier_or_unknown(object_of(members.deep_view())),
{
    match text_field(members, Key::SyslogIdentifier) {
        Ok(text) => text.to_owned(),
        Err(_) => default_syslog_identity().to_owned(),
    }
}

/// Reads the two timestamps that every shape needs.
fn times(members: &[Member]) -> (r: Result<(Timestamp, u64), Reason>)
    ensures
        r == times_of(object_of(members.deep_view())),
{
    let realtime = instant_field(members, Key::RealtimeTimestamp)?;
    let monotonic: u64 = u64_field(members, Key::MonotonicTimestamp)?;
    Ok((realtime, monotonic))
}

/// Reads the message and the two timestamps that every known shape needs.
fn body(members: &[Member]) -> (r: Result<(String, Timestamp, u64), Reason>)
    ensures
        match r {
            Ok(b) => body_of(object_of(members.deep_view())) == Ok::<
                (Seq<char>, Timestamp, u64),
                Reason,
            >((b.0@, b.1, b.2)),
            Err(e) => body_of(object_of(members.deep_view())) == Err::<
                (Seq<char>, Timestamp, u64),
                Reason,
            >(e),
        },
{
    let message = text_field(members, Key::Message)?;
    let (realtime, monotonic) = times(members)?;
    Ok((message.to_owned(), realtime, monotonic))
}

/// Reads a record of the journal.
fn journal(members: &[Member]) -> (r: Result<Log, Reason>)
    ensures
        match r {
            Ok(log) => journal_of(object_of(members.deep_view())) == Ok::<LogView, Reason>(log@),
            Err(e) => journal_of(object_of(members.deep_view())) == Err::<LogView, Reason>(e),
        },
{
    let pid: u16 = u16_field(members, Key::Pid)?;
    let systemd_unit = text_field_or(members, Key::SystemdUnit, default_systemd_unit())?;
    let (message, realtime_timestamp, monotonic_timestamp) = body(members)?;
    Ok(
        Log::Journal(
            Journal {
                pid,
                priority: priority_field(members),
                systemd_unit: systemd_unit.to_owned(),
                message,
                realtime_timestamp,
                monotonic_timestamp,
            },
        ),
    )
}

/// Reads what the shapes of the kernel, of syslog and of a driver hold
/// alike.
fn plain(members: &[Member]) -> (r: Result<
    (String, u8, String, Timestamp, u64),
    Reason,
>)
    ensures
        match r {
            Ok(p) => plain_of(object_of(members.deep_view())) == Ok::<
                (Seq<char>, u8, Seq<char>, Timestamp, u64),
                Reason,
            >((p.0@, p.1, p.2@, p.3, p.4)),
            Err(e) => plain_of(object_of(members.deep_view())) == Err::<
                (Seq<char>, u8, Seq<char>, Timestamp, u64),
                Reason,
            >(e),
        },
{
    let identifier = text_field_or(members, Key::SyslogIdentifier, default_syslog_identity())?;
    let priority: u8 = u8_field(members, Key::Priority)?;
    let (message, realtime, monotonic) = body(members)?;
    Ok((identifier.to_owned(), priority, message, realtime, monotonic))
}

/// Reads a record of the kernel.
fn kernel(members: &[Member]) -> (r: Result<Log, Reason>)
    ensures
        match r {
            Ok(log) => kernel_of(object_of(members.deep_view())) == Ok::<LogView, Reason>(log@),
            Err(e) => kernel_of(object_of(members.deep_view())) == Err::<LogView, Reason>(e),
        },
{
    let (identifier, priority, message, realtime_timestamp, monotonic_timestamp) = plain(members)?;
    Ok(
        Log::Kernel(
            Kernel { identifier, priority, message, realtime_timestamp, monotonic_timestamp },
        ),
    )
}

/// Reads a record of syslog.
fn syslog(members: &[Member]) -> (r: Result<Log, Reason>)
    ensures
        match r {
            Ok(log) => syslog_of(object_of(members.deep_view())) == Ok::<LogView, Reason>(log@),
            Err(e) => syslog_of(object_of(members.deep_view())) == Err::<LogView, Reason>(e),
        },
{
    let (identifier, priority, message, realtime_timestamp, monotonic_timestamp) = plain(members)?;
    Ok(
        Log::Syslog(
            Syslog { identifier, priority, message, realtime_timestamp, monotonic_timestamp },
        ),
    )
}

/// Reads a record of a driver.
fn driver(members: &[Member]) -> (r: Result<Log, Reason>)
    ensures
        match r {
            Ok(log) => driver_of(object_of(members.deep_view())) == Ok::<LogView, Reason>(log@),
            Err(e) => driver_of(object_of(members.deep_view())) == Err::<LogView, Reason>(e),
        },
{
    let (identifier, priority, message, realtime_timestamp, monotonic_timestamp) = plain(members)?;
    Ok(
        Log::Driver(
            Driver { identifier, priority, message, realtime_timestamp, monotonic_timestamp },
        ),
    )
}

/// Reads a record of standard output.
fn stdout(members: &[Member]) -> (r: Result<Log, Reason>)
    ensures
        match r {
            Ok(log) => stdout_of(object_of(members.deep_view())) == Ok::<LogView, Reason>(log@),
            Err(e) => stdout_of(object_of(members.deep_view())) == Err::<LogView, Reason>(e),
        },
{
    let identifier = text_field_or(members, Key::SyslogIdentifier, default_syslog_identity())?;
    let systemd_unit = text_field_or(members, Key::SystemdUnit, default_systemd_unit())?;
    let priority: u8 = u8_field(members, Key::Priority)?;
    let (message, realtime_timestamp, monotonic_timestamp) = body(members)?;
    Ok(
        Log::Stdout(
            Stdout {
                identifier: identifier.to_owned(),
                systemd_unit: systemd_unit.to_owned(),
                priority,
                message,
                realtime_timestamp,
                monotonic_timestamp,
            },
        ),
    )
}

/// Reads a record of the audit subsystem.
fn audit(members: &[Member]) -> (r: Result<Log, Reason>)
    ensures
        match r {
            Ok(log) => audit_of(object_of(members.deep_view())) == Ok::<LogView, Reason>(log@),
            Err(e) => audit_of(object_of(members.deep_view())) == Err::<LogView, Reason>(e),
        },
{
    let identifier = text_field_or(members, Key::SyslogIdentifier, default_syslog_identity())?;
    let (message, realtime_timestamp, monotonic_timestamp) = body(members)?;
    Ok(
        Log::Audit(
            Audit {
                identifier: identifier.to_owned(),
                priority: priority_field(members),
                message,
                realtime_timestamp,
                monotonic_timestamp,
            },
        ),
    )
}

/// Reads the record of the shape that the members name as their transport.
fn known(members: &[Member]) -> (r: Result<Log, Reason>)
    ensures
        match r {
            Ok(log) => known_of(object_of(members.deep_view())) == Ok::<LogView, Reason>(log@),
            Err(e) => known_of(object_of(members.deep_view())) == Err::<LogView, Reason>(e),
        },
{
    let transport = text_field(members, Key::Transport)?;
    if same_text(transport, "journal") {
        journal(members)
    } else if same_text(transport, "kernel") {
        kernel(members)
    } else if same_text(transport, "stdout") {
        stdout(members)
    } else if same_text(transport, "audit") {
        audit(members)
    } else if same_text(transport, "syslog") {
        syslog(members)
    } else if same_text(transport, "driver") {
        driver(members)
    } else {
        Err(Reason::UnknownTransport)
    }
}

/// Saves what is left of members that fit no known shape, for the reason
/// `why`, as an `Invalid` record.
fn salvaged(members: &[Member], why: Reason) -> (r: Result<Log, Reason>)
    ensures
        match r {
            Ok(log) => salvaged_of(object_of(members.deep_view()), why) == Ok::<LogView, Reason>(
                log@,
            ),
            Err(e) => salvaged_of(object_of(members.deep_view()), why) == Err::<LogView, Reason>(
                e,
            ),
        },
{
    let (realtime_timestamp, monotonic_timestamp) = times(members)?;
    Ok(
        Log::Invalid(
            Invalid {
                identifier: identifier_field(members),
                priority: priority_field(members),
                error: why.describe(),
                realtime_timestamp,
                monotonic_timestamp,
            },
        ),
    )
}

/// Classifies the members of a JSON object: as the record of the shape that
/// they name, or else as what is left of them as an `Invalid` record.
pub fn classify_members(members: &[Member]) -> (r: Result<
    Log,
    ClassifyError,
>)
    ensures
        match r {
            Ok(log) => classified(object_of(members.deep_view())) == Ok::<LogView, Failure>(log@),
            Err(e) => classified(object_of(members.deep_view())) == Err::<LogView, Failure>(e@),
        },
        r matches Ok(log) ==> log.wf(),
{
    proof {
        lemma_classified_wf(object_of(members.deep_view()));
    }
    match known(members) {
        Ok(log) => Ok(log),
        Err(primary) => match salvaged(members, primary) {
            Ok(log) => Ok(log),
            Err(fallback) => Err(ClassifyError::Unsalvageable { primary, fallback }),
        },
    }
}

/// Classifies a line: reads it as a JSON object, classifies the members,
/// and holds the wall-clock time of the record against the calendar.
pub fn deserialize_fallback(line: &str) -> (r: Result<Log, ClassifyError>)
    ensures
        match r {
            Ok(log) => classified_line(line@) == Ok::<LogView, Failure>(log@),
            Err(e) => classified_line(line@) == Err::<LogView, Failure>(e@),
        },
        r matches Ok(log) ==> log.wf(),
{
    match read_members(line) {
        Ok(members) => {
            let log = classify_members(&members)?;
            if log.realtime().on_calendar() {
                Ok(log)
            } else {
                Err(ClassifyError::OffCalendar)
            }
        },
        Err(no_object) => Err(ClassifyError::NotAnObject { detail: no_object.detail }),
    }
}

} // verus!
