//! The shapes of log records.
//!
//! A record is one of six known shapes, told apart by the transport that
//! brought it, or `Invalid` where it fits none of them.

use crate::text::{byte_len, utf8_len};
use crate::timestamp::Timestamp;
use vstd::prelude::*;

verus! {

/// A record of the journal itself.
#[derive(Debug, Clone, Eq, PartialEq, Hash)]
pub struct Journal {
    pub pid: u16,
    pub priority: u8,
    pub systemd_unit: String,
    pub message: String,
    pub realtime_timestamp: Timestamp,
    pub monotonic_timestamp: u64,
}

/// A record of the kernel.
#[derive(Debug, Clone, Eq, PartialEq, Hash)]
pub struct Kernel {
    pub identifier: String,
    pub priority: u8,
    pub message: String,
    pub realtime_timestamp: Timestamp,
    pub monotonic_timestamp: u64,
}

/// A record taken from the standard output of a service.
#[derive(Debug, Clone, Eq, PartialEq, Hash)]
pub struct Stdout {
    pub identifier: String,
    pub systemd_unit: String,
    pub priority: u8,
    pub message: String,
    pub realtime_timestamp: Timestamp,
    pub monotonic_timestamp: u64,
}

/// A record of the audit subsystem.
#[derive(Debug, Clone, Eq, PartialEq, Hash)]
pub struct Audit {
    pub identifier: String,
    pub priority: u8,
    pub message: String,
    pub realtime_timestamp: Timestamp,
    pub monotonic_timestamp: u64,
}

/// A record that came in by the syslog socket.
#[derive(Debug, Clone, Eq, PartialEq, Hash)]
pub struct Syslog {
    pub identifier: String,
    pub priority: u8,
    pub message: String,
    pub realtime_timestamp: Timestamp,
    pub monotonic_timestamp: u64,
}

/// A record of a driver.
#[derive(Debug, Clone, Eq, PartialEq, Hash)]
pub struct Driver {
    pub identifier: String,
    pub priority: u8,
    pub message: String,
    pub realtime_timestamp: Timestamp,
    pub monotonic_timestamp: u64,
}

/// What is left of a record that fits no known shape. `error` says why it
/// fits none; it is never read from the input.
#[derive(Debug, Clone, Eq, PartialEq, Hash)]
pub struct Invalid {
    pub identifier: String,
    pub priority: u8,
    pub error: String,
    pub realtime_timestamp: Timestamp,
    pub monotonic_timestamp: u64,
}

/// A log record.
#[derive(Debug, Clone, Eq, PartialEq, Hash)]
pub enum Log {
    Journal(Journal),
    Kernel(Kernel),
    Stdout(Stdout),
    Audit(Audit),
    Syslog(Syslog),
    Driver(Driver),
    Invalid(Invalid),
}

/// A log record as a mathematical value: the text of each field is a
/// sequence of characters.
pub enum LogView {
    Journal {
        pid: u16,
        priority: u8,
        systemd_unit: Seq<char>,
        message: Seq<char>,
        realtime_timestamp: Timestamp,
        monotonic_timestamp: u64,
    },
    Kernel {
        identifier: Seq<char>,
        priority: u8,
        message: Seq<char>,
        realtime_timestamp: Timestamp,
        monotonic_timestamp: u64,
    },
    Stdout {
        identifier: Seq<char>,
        systemd_unit: Seq<char>,
        priority: u8,
        message: Seq<char>,
        realtime_timestamp: Timestamp,
        monotonic_timestamp: u64,
    },
    Audit {
        identifier: Seq<char>,
        priority: u8,
        message: Seq<char>,
        realtime_timestamp: Timestamp,
        monotonic_timestamp: u64,
    },
    Syslog {
        identifier: Seq<char>,
        priority: u8,
        message: Seq<char>,
        realtime_timestamp: Timestamp,
        monotonic_timestamp: u64,
    },
    Driver {
        identifier: Seq<char>,
        priority: u8,
        message: Seq<char>,
        realtime_timestamp: Timestamp,
        monotonic_timestamp: u64,
    },
    Invalid {
        identifier: Seq<char>,
        priority: u8,
        error: Seq<char>,
        realtime_timestamp: Timestamp,
        monotonic_timestamp: u64,
    },
}

impl View for Log {
    type V = LogView;

    open spec fn view(&self) -> LogView {
        match *self {
            Log::Journal(r) => LogView::Journal {
                pid: r.pid,
                priority: r.priority,
                systemd_unit: r.systemd_unit@,
                message: r.message@,
                realtime_timestamp: r.realtime_timestamp,
                monotonic_timestamp: r.monotonic_timestamp,
            },
            Log::Kernel(r) => LogView::Kernel {
                identifier: r.identifier@,
                priority: r.priority,
                message: r.message@,
                realtime_timestamp: r.realtime_timestamp,
                monotonic_timestamp: r.monotonic_timestamp,
            },
            Log::Stdout(r) => LogView::Stdout {
                identifier: r.identifier@,
                systemd_unit: r.systemd_unit@,
                priority: r.priority,
                message: r.message@,
                realtime_timestamp: r.realtime_timestamp,
                monotonic_timestamp: r.monotonic_timestamp,
            },
            Log::Audit(r) => LogView::Audit {
                identifier: r.identifier@,
                priority: r.priority,
                message: r.message@,
                realtime_timestamp: r.realtime_timestamp,
                monotonic_timestamp: r.monotonic_timestamp,
            },
            Log::Syslog(r) => LogView::Syslog {
                identifier: r.identifier@,
                priority: r.priority,
                message: r.message@,
                realtime_timestamp: r.realtime_timestamp,
                monotonic_timestamp: r.monotonic_timestamp,
            },
            Log::Driver(r) => LogView::Driver {
                identifier: r.identifier@,
                priority: r.priority,
                message: r.message@,
                realtime_timestamp: r.realtime_timestamp,
                monotonic_timestamp: r.monotonic_timestamp,
            },
            Log::Invalid(r) => LogView::Invalid {
                identifier: r.identifier@,
                priority: r.priority,
                error: r.error@,
                realtime_timestamp: r.realtime_timestamp,
                monotonic_timestamp: r.monotonic_timestamp,
            },
        }
    }
}

impl LogView {
    /// The name under which records of this shape are counted.
    pub open spec fn facility(self) -> Seq<char> {
        match self {
            LogView::Journal { .. } => "journal"@,
            LogView::Kernel { .. } => "kernel"@,
            LogView::Stdout { .. } => "stdout"@,
            LogView::Audit { .. } => "audit"@,
            LogView::Syslog { .. } => "syslog"@,
            LogView::Driver { .. } => "driver"@,
            LogView::Invalid { .. } => "invalid"@,
        }
    }

    /// The message of the record; an `Invalid` record has none.
    pub open spec fn message(self) -> Option<Seq<char>> {
        match self {
            LogView::Journal { message, .. } => Some(message),
            LogView::Kernel { message, .. } => Some(message),
            LogView::Stdout { message, .. } => Some(message),
            LogView::Audit { message, .. } => Some(message),
            LogView::Syslog { message, .. } => Some(message),
            LogView::Driver { message, .. } => Some(message),
            LogView::Invalid { .. } => None,
        }
    }

    /// The bytes that the message takes; none for an `Invalid` record.
    pub open spec fn message_len(self) -> nat {
        match self.message() {
            Some(message) => utf8_len(message),
            None => 0,
        }
    }

    /// The service unit that wrote the record. Only records of the journal
    /// and of standard output name one.
    pub open spec fn unit(self) -> Option<Seq<char>> {
        match self {
            LogView::Journal { systemd_unit, .. } => Some(systemd_unit),
            LogView::Stdout { systemd_unit, .. } => Some(systemd_unit),
            _ => None,
        }
    }

    /// The severity of the record.
    pub open spec fn priority(self) -> u8 {
        match self {
            LogView::Journal { priority, .. } => priority,
            LogView::Kernel { priority, .. } => priority,
            LogView::Stdout { priority, .. } => priority,
            LogView::Audit { priority, .. } => priority,
            LogView::Syslog { priority, .. } => priority,
            LogView::Driver { priority, .. } => priority,
            LogView::Invalid { priority, .. } => priority,
        }
    }

    /// Whether the wall-clock time of the record is a whole number of
    /// microseconds that fits in a 64-bit count, as that of every record
    /// read from a line is.
    pub open spec fn wf(self) -> bool {
        self.realtime().wf()
    }

    /// The record without what an `Invalid` record says of itself: its
    /// `error`, which no object holds. A record of a known shape is left as
    /// it is.
    pub open spec fn sans_error(self) -> LogView {
        match self {
            LogView::Invalid {
                identifier,
                priority,
                error,
                realtime_timestamp,
                monotonic_timestamp,
            } => LogView::Invalid {
                identifier,
                priority,
                error: Seq::empty(),
                realtime_timestamp,
                monotonic_timestamp,
            },
            _ => self,
        }
    }

    /// The wall-clock time of the record.
    pub open spec fn realtime(self) -> Timestamp {
        match self {
            LogView::Journal { realtime_timestamp, .. } => realtime_timestamp,
            LogView::Kernel { realtime_timestamp, .. } => realtime_timestamp,
            LogView::Stdout { realtime_timestamp, .. } => realtime_timestamp,
            LogView::Audit { realtime_timestamp, .. } => realtime_timestamp,
            LogView::Syslog { realtime_timestamp, .. } => realtime_timestamp,
            LogView::Driver { realtime_timestamp, .. } => realtime_timestamp,
            LogView::Invalid { realtime_timestamp, .. } => realtime_timestamp,
        }
    }
}

impl Log {
    /// Whether the wall-clock time of the record is a whole number of
    /// microseconds that fits in a 64-bit count, as that of every record
    /// read from a line is.
    pub open spec fn wf(&self) -> bool {
        self@.wf()
    }

    /// The name under which records of this shape are counted.
    pub fn facility(&self) -> (r: &'static str)
        ensures
            r@ == self@.facility(),
    {
        match self {
            Log::Journal(_) => "journal",
            Log::Kernel(_) => "kernel",
            Log::Stdout(_) => "stdout",
            Log::Audit(_) => "audit",
            Log::Syslog(_) => "syslog",
            Log::Driver(_) => "driver",
            Log::Invalid(_) => "invalid",
        }
    }

    /// The bytes that the message takes; none for an `Invalid` record.
    pub fn message_len(&self) -> (n: usize)
        ensures
            n == self@.message_len(),
    {
        match self {
            Log::Journal(r) => byte_len(r.message.as_str()),
            Log::Kernel(r) => byte_len(r.message.as_str()),
            Log::Stdout(r) => byte_len(r.message.as_str()),
            Log::Audit(r) => byte_len(r.message.as_str()),
            Log::Syslog(r) => byte_len(r.message.as_str()),
            Log::Driver(r) => byte_len(r.message.as_str()),
            Log::Invalid(_) => 0,
        }
    }

    /// The service unit that wrote the record, where its shape names one.
    pub fn unit(&self) -> (r: Option<&str>)
        ensures
            match r {
                Some(unit) => self@.unit() == Some(unit@),
                None => self@.unit() is None,
            },
    {
        match self {
            Log::Journal(r) => Some(r.systemd_unit.as_str()),
            Log::Stdout(r) => Some(r.systemd_unit.as_str()),
            _ => None,
        }
    }

    /// The severity of the record.
    pub fn priority(&self) -> (p: u8)
        ensures
            p == self@.priority(),
    {
        match self {
            Log::Journal(r) => r.priority,
            Log::Kernel(r) => r.priority,
            Log::Stdout(r) => r.priority,
            Log::Audit(r) => r.priority,
            Log::Syslog(r) => r.priority,
            Log::Driver(r) => r.priority,
            Log::Invalid(r) => r.priority,
        }
    }

    /// The wall-clock time of the record.
    pub fn realtime(&self) -> (t: Timestamp)
        ensures
            t == self@.realtime(),
    {
        match self {
            Log::Journal(r) => r.realtime_timestamp,
            Log::Kernel(r) => r.realtime_timestamp,
            Log::Stdout(r) => r.realtime_timestamp,
            Log::Audit(r) => r.realtime_timestamp,
            Log::Syslog(r) => r.realtime_timestamp,
            Log::Driver(r) => r.realtime_timestamp,
            Log::Invalid(r) => r.realtime_timestamp,
        }
    }
}

} // verus!
