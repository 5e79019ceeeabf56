//! From a log record back to the members of a JSON object.
//!
//! A record is written with the members that its shape is read from:
//! numbers in decimal text, the wall-clock time as a count of microseconds.
//! What is written is read back as the same record.

use crate::classify::{
    body_of, classified, identifier_or_unknown, instant_of_text, journal_of, known_of,
    lemma_classified_wf, plain_of, priority_or_zero, text_of, text_or_unknown, times_of, u16_of,
    Failure, Key, Reason,
};
use crate::decimal::{
    decimal_text, lemma_signed_round_trip, lemma_unsigned_round_trip, parsed_u64, parsed_u8,
    render_i64, render_u64, signed_text,
};
use crate::json::{object_of, Member, MemberView, Object};
use crate::model::{Log, LogView};
use crate::timestamp::Timestamp;
use vstd::prelude::*;

verus! {

/// `o` with the text `text` under the key `key`.
pub open spec fn with_member(o: Object, key: Key, text: Seq<char>) -> Object {
    o.insert(key.text(), Some(text))
}

/// `o` with the two timestamps of a record.
pub open spec fn with_times(o: Object, realtime: Timestamp, monotonic: u64) -> Object {
    let o = with_member(o, Key::RealtimeTimestamp, signed_text(realtime.micros()));
    with_member(o, Key::MonotonicTimestamp, decimal_text(monotonic as nat))
}

/// `o` with what the shapes of the kernel, of syslog and of a driver hold
/// alike.
pub open spec fn with_plain(
    o: Object,
    identifier: Seq<char>,
    priority: u8,
    message: Seq<char>,
    realtime: Timestamp,
    monotonic: u64,
) -> Object {
    let o = with_member(o, Key::SyslogIdentifier, identifier);
    let o = with_member(o, Key::Priority, decimal_text(priority as nat));
    let o = with_member(o, Key::Message, message);
    with_times(o, realtime, monotonic)
}

/// An object with nothing but the transport `transport`.
pub open spec fn of_transport(transport: Seq<char>) -> Object {
    with_member(Map::empty(), Key::Transport, transport)
}

/// The object that writes `log`. An `Invalid` record is written without a
/// transport and without its `error`, which is no member of any object.
pub open spec fn encoded(log: LogView) -> Object {
    match log {
        LogView::Journal {
            pid,
            priority,
            systemd_unit,
            message,
            realtime_timestamp,
            monotonic_timestamp,
        } => {
            let o = of_transport("journal"@);
            let o = with_member(o, Key::Pid, decimal_text(pid as nat));
            let o = with_member(o, Key::Priority, decimal_text(priority as nat));
            let o = with_member(o, Key::SystemdUnit, systemd_unit);
            let o = with_member(o, Key::Message, message);
            with_times(o, realtime_timestamp, monotonic_timestamp)
        },
        LogView::Kernel {
            identifier,
            priority,
            message,
            realtime_timestamp,
            monotonic_timestamp,
        } => with_plain(
            of_transport("kernel"@),
            identifier,
            priority,
            message,
            realtime_timestamp,
            monotonic_timestamp,
        ),
        LogView::Stdout {
            identifier,
            systemd_unit,
            priority,
            message,
            realtime_timestamp,
            monotonic_timestamp,
        } => {
            let o = of_transport("stdout"@);
            let o = with_member(o, Key::SystemdUnit, systemd_unit);
            with_plain(o, identifier, priority, message, realtime_timestamp, monotonic_timestamp)
        },
        LogView::Audit {
            identifier,
            priority,
            message,
            realtime_timestamp,
            monotonic_timestamp,
        } => with_plain(
            of_transport("audit"@),
            identifier,
            priority,
            message,
            realtime_timestamp,
            monotonic_timestamp,
        ),
        LogView::Syslog {
            identifier,
            priority,
            message,
            realtime_timestamp,
            monotonic_timestamp,
        } => with_plain(
            of_transport("syslog"@),
            identifier,
            priority,
            message,
            realtime_timestamp,
            monotonic_timestamp,
        ),
        LogView::Driver {
            identifier,
            priority,
            message,
            realtime_timestamp,
            monotonic_timestamp,
        } => with_plain(
            of_transport("driver"@),
            identifier,
            priority,
            message,
            realtime_timestamp,
            monotonic_timestamp,
        ),
        LogView::Invalid {
            identifier,
            priority,
            error,
            realtime_timestamp,
            monotonic_timestamp,
        } => {
            let o = with_member(Map::empty(), Key::SyslogIdentifier, identifier);
            let o = with_member(o, Key::Priority, decimal_text(priority as nat));
            with_times(o, realtime_timestamp, monotonic_timestamp)
        },
    }
}

/// No two members that this library reads have the same key.
pub proof fn lemma_keys_differ(a: Key, b: Key)
    ensures
        a.text() == b.text() <==> a == b,
{
    reveal_strlit("_TRANSPORT");
    reveal_strlit("_PID");
    reveal_strlit("PRIORITY");
    reveal_strlit("_SYSTEMD_UNIT");
    reveal_strlit("SYSLOG_IDENTIFIER");
    reveal_strlit("MESSAGE");
    reveal_strlit("__REALTIME_TIMESTAMP");
    reveal_strlit("__MONOTONIC_TIMESTAMP");
    assert("_TRANSPORT"@.len() == 10);
    assert("_PID"@.len() == 4);
    assert("PRIORITY"@.len() == 8);
    assert("_SYSTEMD_UNIT"@.len() == 13);
    assert("SYSLOG_IDENTIFIER"@.len() == 17);
    assert("MESSAGE"@.len() == 7);
    assert("__REALTIME_TIMESTAMP"@.len() == 20);
    assert("__MONOTONIC_TIMESTAMP"@.len() == 21);
}

/// The six transports have six names.
pub proof fn lemma_transports_differ()
    ensures
        "journal"@ != "kernel"@,
        "journal"@ != "stdout"@,
        "journal"@ != "audit"@,
        "journal"@ != "syslog"@,
        "journal"@ != "driver"@,
        "kernel"@ != "stdout"@,
        "kernel"@ != "audit"@,
        "kernel"@ != "syslog"@,
        "kernel"@ != "driver"@,
        "stdout"@ != "audit"@,
        "stdout"@ != "syslog"@,
        "stdout"@ != "driver"@,
        "audit"@ != "syslog"@,
        "audit"@ != "driver"@,
        "syslog"@ != "driver"@,
{
    reveal_strlit("journal");
    reveal_strlit("kernel");
    reveal_strlit("stdout");
    reveal_strlit("audit");
    reveal_strlit("syslog");
    reveal_strlit("driver");
    assert("journal"@.len() == 7);
    assert("kernel"@.len() == 6);
    assert("stdout"@.len() == 6);
    assert("audit"@.len() == 5);
    assert("syslog"@.len() == 6);
    assert("driver"@.len() == 6);
    assert("kernel"@[0] != "stdout"@[0]);
    assert("kernel"@[0] != "syslog"@[0]);
    assert("kernel"@[0] != "driver"@[0]);
    assert("stdout"@[1] != "syslog"@[1]);
    assert("stdout"@[0] != "driver"@[0]);
    assert("syslog"@[0] != "driver"@[0]);
}

/// A member that was written is read back; a member under another key is
/// read as before.
pub proof fn lemma_with_member(o: Object, key: Key, text: Seq<char>, other: Key)
    ensures
        text_of(with_member(o, key, text), key) == Ok::<Seq<char>, Reason>(text),
        text_or_unknown(with_member(o, key, text), key) == Ok::<Seq<char>, Reason>(text),
        other != key ==> text_of(with_member(o, key, text), other) == text_of(o, other),
        other != key ==> text_or_unknown(with_member(o, key, text), other) == text_or_unknown(
            o,
            other,
        ),
{
    lemma_keys_differ(key, other);
}

/// The members of a record read back one by one.
proof fn lemma_numbers_read_back(priority: u8, monotonic: u64, realtime: Timestamp)
    requires
        realtime.wf(),
    ensures
        parsed_u8(decimal_text(priority as nat)) == Some(priority),
        parsed_u64(decimal_text(monotonic as nat)) == Some(monotonic),
        instant_of_text(signed_text(realtime.micros())) == Some(realtime),
{
    lemma_unsigned_round_trip(priority as nat);
    lemma_unsigned_round_trip(monotonic as nat);
    lemma_signed_round_trip(realtime.micros());
}

/// The two timestamps that were written last are read back.
proof fn lemma_times_read_back(o: Object, realtime: Timestamp, monotonic: u64)
    requires
        realtime.wf(),
    ensures
        times_of(with_times(o, realtime, monotonic)) == Ok::<(Timestamp, u64), Reason>(
            (realtime, monotonic),
        ),
{
    lemma_numbers_read_back(0, monotonic, realtime);
    lemma_keys_differ(Key::RealtimeTimestamp, Key::MonotonicTimestamp);
}

/// Writing the timestamps leaves the other members as they were.
proof fn lemma_times_keep(o: Object, realtime: Timestamp, monotonic: u64, key: Key)
    requires
        key != Key::RealtimeTimestamp,
        key != Key::MonotonicTimestamp,
    ensures
        text_of(with_times(o, realtime, monotonic), key) == text_of(o, key),
        text_or_unknown(with_times(o, realtime, monotonic), key) == text_or_unknown(o, key),
{
    lemma_keys_differ(Key::RealtimeTimestamp, key);
    lemma_keys_differ(Key::MonotonicTimestamp, key);
}

/// What was written by `with_plain` is read back by `plain_of`, whatever
/// else the object held under other keys.
proof fn lemma_plain_read_back(
    o: Object,
    identifier: Seq<char>,
    priority: u8,
    message: Seq<char>,
    realtime: Timestamp,
    monotonic: u64,
)
    requires
        realtime.wf(),
    ensures
        plain_of(with_plain(o, identifier, priority, message, realtime, monotonic)) == Ok::<
            (Seq<char>, u8, Seq<char>, Timestamp, u64),
            Reason,
        >((identifier, priority, message, realtime, monotonic)),
        priority_or_zero(with_plain(o, identifier, priority, message, realtime, monotonic))
            == priority,
        body_of(with_plain(o, identifier, priority, message, realtime, monotonic)) == Ok::<
            (Seq<char>, Timestamp, u64),
            Reason,
        >((message, realtime, monotonic)),
        text_or_unknown(
            with_plain(o, identifier, priority, message, realtime, monotonic),
            Key::SyslogIdentifier,
        ) == Ok::<Seq<char>, Reason>(identifier),
        forall|key: Key|
            key == Key::Transport || key == Key::SystemdUnit || key == Key::Pid
                ==> #[trigger] text_of(
                with_plain(o, identifier, priority, message, realtime, monotonic),
                key,
            ) == text_of(o, key) && text_or_unknown(
                with_plain(o, identifier, priority, message, realtime, monotonic),
                key,
            ) == text_or_unknown(o, key),
{
    let a = with_member(o, Key::SyslogIdentifier, identifier);
    let b = with_member(a, Key::Priority, decimal_text(priority as nat));
    let c = with_member(b, Key::Message, message);
    let d = with_times(c, realtime, monotonic);
    lemma_numbers_read_back(priority, monotonic, realtime);
    lemma_times_read_back(c, realtime, monotonic);
    lemma_times_keep(c, realtime, monotonic, Key::Message);
    lemma_times_keep(c, realtime, monotonic, Key::Priority);
    lemma_times_keep(c, realtime, monotonic, Key::SyslogIdentifier);
    lemma_with_member(b, Key::Message, message, Key::Priority);
    lemma_with_member(b, Key::Message, message, Key::SyslogIdentifier);
    lemma_with_member(a, Key::Priority, decimal_text(priority as nat), Key::SyslogIdentifier);
    lemma_with_member(o, Key::SyslogIdentifier, identifier, Key::SyslogIdentifier);
    assert forall|key: Key|
        key == Key::Transport || key == Key::SystemdUnit || key == Key::Pid implies
        #[trigger] text_of(d, key) == text_of(o, key) && text_or_unknown(d, key)
        == text_or_unknown(o, key) by {
        lemma_times_keep(c, realtime, monotonic, key);
        lemma_with_member(b, Key::Message, message, key);
        lemma_with_member(a, Key::Priority, decimal_text(priority as nat), key);
        lemma_with_member(o, Key::SyslogIdentifier, identifier, key);
    }
}

/// A record that is written and read again is the same record.
///
/// This holds of every record of a known shape whose wall-clock time is a
/// whole number of microseconds, as that of every record read from a line
/// is.
pub proof fn lemma_known_round_trip(log: LogView)
    requires
        log.wf(),
        !(log is Invalid),
    ensures
        known_of(encoded(log)) == Ok::<LogView, Reason>(log),
        classified(encoded(log)) == Ok::<LogView, Failure>(log),
{
    lemma_transports_differ();
    match log {
        LogView::Journal {
            pid,
            priority,
            systemd_unit,
            message,
            realtime_timestamp,
            monotonic_timestamp,
        } => {
            let a = of_transport("journal"@);
            let b = with_member(a, Key::Pid, decimal_text(pid as nat));
            let c = with_member(b, Key::Priority, decimal_text(priority as nat));
            let d = with_member(c, Key::SystemdUnit, systemd_unit);
            let e = with_member(d, Key::Message, message);
            let f = with_times(e, realtime_timestamp, monotonic_timestamp);
            lemma_unsigned_round_trip(pid as nat);
            lemma_numbers_read_back(priority, monotonic_timestamp, realtime_timestamp);
            lemma_times_read_back(e, realtime_timestamp, monotonic_timestamp);
            lemma_times_keep(e, realtime_timestamp, monotonic_timestamp, Key::Message);
            lemma_times_keep(e, realtime_timestamp, monotonic_timestamp, Key::SystemdUnit);
            lemma_times_keep(e, realtime_timestamp, monotonic_timestamp, Key::Priority);
            lemma_times_keep(e, realtime_timestamp, monotonic_timestamp, Key::Pid);
            lemma_times_keep(e, realtime_timestamp, monotonic_timestamp, Key::Transport);
            lemma_with_member(d, Key::Message, message, Key::SystemdUnit);
            lemma_with_member(d, Key::Message, message, Key::Priority);
            lemma_with_member(d, Key::Message, message, Key::Pid);
            lemma_with_member(d, Key::Message, message, Key::Transport);
            lemma_with_member(c, Key::SystemdUnit, systemd_unit, Key::Priority);
            lemma_with_member(c, Key::SystemdUnit, systemd_unit, Key::Pid);
            lemma_with_member(c, Key::SystemdUnit, systemd_unit, Key::Transport);
            lemma_with_member(b, Key::Priority, decimal_text(priority as nat), Key::Pid);
            lemma_with_member(b, Key::Priority, decimal_text(priority as nat), Key::Transport);
            lemma_with_member(a, Key::Pid, decimal_text(pid as nat), Key::Transport);
            lemma_with_member(Map::empty(), Key::Transport, "journal"@, Key::Transport);
            assert(text_of(f, Key::Transport) == Ok::<Seq<char>, Reason>("journal"@));
            assert(u16_of(f, Key::Pid) == Ok::<u16, Reason>(pid));
            assert(priority_or_zero(f) == priority);
            assert(journal_of(f) == Ok::<LogView, Reason>(log));
        },
        LogView::Kernel {
            identifier,
            priority,
            message,
            realtime_timestamp,
            monotonic_timestamp,
        } => {
            let a = of_transport("kernel"@);
            lemma_plain_read_back(
                a,
                identifier,
                priority,
                message,
                realtime_timestamp,
                monotonic_timestamp,
            );
            lemma_with_member(Map::empty(), Key::Transport, "kernel"@, Key::Transport);
            assert(text_of(encoded(log), Key::Transport) == text_of(a, Key::Transport));
        },
        LogView::Stdout {
            identifier,
            systemd_unit,
            priority,
            message,
            realtime_timestamp,
            monotonic_timestamp,
        } => {
            let a = of_transport("stdout"@);
            let b = with_member(a, Key::SystemdUnit, systemd_unit);
            lemma_plain_read_back(
                b,
                identifier,
                priority,
                message,
                realtime_timestamp,
                monotonic_timestamp,
            );
            lemma_with_member(a, Key::SystemdUnit, systemd_unit, Key::Transport);
            lemma_with_member(Map::empty(), Key::Transport, "stdout"@, Key::Transport);
            assert(text_of(encoded(log), Key::Transport) == text_of(b, Key::Transport));
            assert(text_of(encoded(log), Key::SystemdUnit) == text_of(b, Key::SystemdUnit));
        },
        LogView::Audit {
            identifier,
            priority,
            message,
            realtime_timestamp,
            monotonic_timestamp,
        } => {
            let a = of_transport("audit"@);
            lemma_plain_read_back(
                a,
                identifier,
                priority,
                message,
                realtime_timestamp,
                monotonic_timestamp,
            );
            lemma_with_member(Map::empty(), Key::Transport, "audit"@, Key::Transport);
            assert(text_of(encoded(log), Key::Transport) == text_of(a, Key::Transport));
        },
        LogView::Syslog {
            identifier,
            priority,
            message,
            realtime_timestamp,
            monotonic_timestamp,
        } => {
            let a = of_transport("syslog"@);
            lemma_plain_read_back(
                a,
                identifier,
                priority,
                message,
                realtime_timestamp,
                monotonic_timestamp,
            );
            lemma_with_member(Map::empty(), Key::Transport, "syslog"@, Key::Transport);
            assert(text_of(encoded(log), Key::Transport) == text_of(a, Key::Transport));
        },
        LogView::Driver {
            identifier,
            priority,
            message,
            realtime_timestamp,
            monotonic_timestamp,
        } => {
            let a = of_transport("driver"@);
            lemma_plain_read_back(
                a,
                identifier,
                priority,
                message,
                realtime_timestamp,
                monotonic_timestamp,
            );
            lemma_with_member(Map::empty(), Key::Transport, "driver"@, Key::Transport);
            assert(text_of(encoded(log), Key::Transport) == text_of(a, Key::Transport));
        },
        LogView::Invalid { .. } => {},
    }
}

/// An `Invalid` record that is written and read again is an `Invalid`
/// record with the same identifier, priority and timestamps. Its `error`
/// then says that the transport is missing: the reason that it was first
/// given is not written.
pub proof fn lemma_invalid_round_trip(log: LogView)
    requires
        log.wf(),
        log is Invalid,
    ensures
        classified(encoded(log)) matches Ok(again) && again == (LogView::Invalid {
            identifier: log->Invalid_identifier,
            priority: log->Invalid_priority,
            error: Reason::Missing(Key::Transport).text(),
            realtime_timestamp: log->Invalid_realtime_timestamp,
            monotonic_timestamp: log->Invalid_monotonic_timestamp,
        }),
{
    let identifier = log->Invalid_identifier;
    let priority = log->Invalid_priority;
    let realtime = log->Invalid_realtime_timestamp;
    let monotonic = log->Invalid_monotonic_timestamp;
    let a = with_member(Map::empty(), Key::SyslogIdentifier, identifier);
    let b = with_member(a, Key::Priority, decimal_text(priority as nat));
    let c = with_times(b, realtime, monotonic);
    lemma_numbers_read_back(priority, monotonic, realtime);
    lemma_times_read_back(b, realtime, monotonic);
    lemma_times_keep(b, realtime, monotonic, Key::Priority);
    lemma_times_keep(b, realtime, monotonic, Key::SyslogIdentifier);
    lemma_times_keep(b, realtime, monotonic, Key::Transport);
    lemma_with_member(a, Key::Priority, decimal_text(priority as nat), Key::SyslogIdentifier);
    lemma_with_member(a, Key::Priority, decimal_text(priority as nat), Key::Transport);
    lemma_with_member(Map::empty(), Key::SyslogIdentifier, identifier, Key::Transport);
    lemma_with_member(Map::empty(), Key::SyslogIdentifier, identifier, Key::SyslogIdentifier);
    assert(text_of(c, Key::Transport) == Err::<Seq<char>, Reason>(Reason::Missing(Key::Transport)));
    assert(identifier_or_unknown(c) == identifier);
    assert(priority_or_zero(c) == priority);
}

/// A record that was read from an object, written again and read again is
/// a record of the same shape with the same value in every field, but for
/// the `error` of an `Invalid` record, which is not written.
pub proof fn lemma_read_write_read(o: Object)
    ensures
        classified(o) matches Ok(log) ==> (classified(encoded(log)) matches Ok(again)
            && again.sans_error() == log.sans_error() && (log is Invalid || again == log)),
{
    lemma_classified_wf(o);
    match classified(o) {
        Ok(log) => {
            if log is Invalid {
                lemma_invalid_round_trip(log);
            } else {
                lemma_known_round_trip(log);
            }
        },
        Err(_) => {},
    }
}

/// One more member at the end of a list enters the object of the list,
/// unless a member before it has the same key.
pub proof fn lemma_object_push(
    members: Seq<MemberView>,
    member: MemberView,
)
    ensures
        object_of(members.push(member)) == if object_of(members).contains_key(member.0) {
            object_of(members)
        } else {
            object_of(members).insert(member.0, member.1)
        },
    decreases members.len(),
{
    let grown = members.push(member);
    if members.len() == 0 {
        assert(grown.drop_first() =~= members);
    } else {
        let rest = members.drop_first();
        assert(grown.drop_first() =~= rest.push(member));
        lemma_object_push(rest, member);
        let first = members[0];
        assert(grown[0] == first);
        if !object_of(rest).contains_key(member.0) && first.0 != member.0 {
            assert(object_of(rest).insert(member.0, member.1).insert(first.0, first.1)
                =~= object_of(rest).insert(first.0, first.1).insert(member.0, member.1));
        } else if !object_of(rest).contains_key(member.0) {
            assert(object_of(rest).insert(member.0, member.1).insert(first.0, first.1)
                =~= object_of(rest).insert(first.0, first.1));
        }
    }
}

/// `members` with one more member behind them: the text `text` under the
/// key `key`.
pub open spec fn put_member(
    members: Seq<MemberView>,
    key: Key,
    text: Seq<char>,
) -> Seq<MemberView> {
    members.push((key.text(), Some(text)))
}

/// `members` with the two timestamps of a record behind them.
pub open spec fn put_times_members(
    members: Seq<MemberView>,
    realtime: Timestamp,
    monotonic: u64,
) -> Seq<MemberView> {
    let members = put_member(members, Key::RealtimeTimestamp, signed_text(realtime.micros()));
    put_member(members, Key::MonotonicTimestamp, decimal_text(monotonic as nat))
}

/// `members` with what the shapes of the kernel, of syslog and of a driver
/// hold alike behind them.
pub open spec fn put_plain_members(
    members: Seq<MemberView>,
    identifier: Seq<char>,
    priority: u8,
    message: Seq<char>,
    realtime: Timestamp,
    monotonic: u64,
) -> Seq<MemberView> {
    let members = put_member(members, Key::SyslogIdentifier, identifier);
    let members = put_member(members, Key::Priority, decimal_text(priority as nat));
    let members = put_member(members, Key::Message, message);
    put_times_members(members, realtime, monotonic)
}

/// The members that write `log`, in the order in which they are written.
pub open spec fn encoded_members(log: LogView) -> Seq<MemberView> {
    let none = Seq::<MemberView>::empty();
    match log {
        LogView::Journal {
            pid,
            priority,
            systemd_unit,
            message,
            realtime_timestamp,
            monotonic_timestamp,
        } => {
            let members = put_member(none, Key::Transport, "journal"@);
            let members = put_member(members, Key::Pid, decimal_text(pid as nat));
            let members = put_member(members, Key::Priority, decimal_text(priority as nat));
            let members = put_member(members, Key::SystemdUnit, systemd_unit);
            let members = put_member(members, Key::Message, message);
            put_times_members(members, realtime_timestamp, monotonic_timestamp)
        },
        LogView::Kernel {
            identifier,
            priority,
            message,
            realtime_timestamp,
            monotonic_timestamp,
        } => put_plain_members(
            put_member(none, Key::Transport, "kernel"@),
            identifier,
            priority,
            message,
            realtime_timestamp,
            monotonic_timestamp,
        ),
        LogView::Stdout {
            identifier,
            systemd_unit,
            priority,
            message,
            realtime_timestamp,
            monotonic_timestamp,
        } => {
            let members = put_member(none, Key::Transport, "stdout"@);
            let members = put_member(members, Key::SystemdUnit, systemd_unit);
            put_plain_members(
                members,
                identifier,
                priority,
                message,
                realtime_timestamp,
                monotonic_timestamp,
            )
        },
        LogView::Audit {
            identifier,
            priority,
            message,
            realtime_timestamp,
            monotonic_timestamp,
        } => put_plain_members(
            put_member(none, Key::Transport, "audit"@),
            identifier,
            priority,
            message,
            realtime_timestamp,
            monotonic_timestamp,
        ),
        LogView::Syslog {
            identifier,
            priority,
            message,
            realtime_timestamp,
            monotonic_timestamp,
        } => put_plain_members(
            put_member(none, Key::Transport, "syslog"@),
            identifier,
            priority,
            message,
            realtime_timestamp,
            monotonic_timestamp,
        ),
        LogView::Driver {
            identifier,
            priority,
            message,
            realtime_timestamp,
            monotonic_timestamp,
        } => put_plain_members(
            put_member(none, Key::Transport, "driver"@),
            identifier,
            priority,
            message,
            realtime_timestamp,
            monotonic_timestamp,
        ),
        LogView::Invalid {
            identifier,
            priority,
            error,
            realtime_timestamp,
            monotonic_timestamp,
        } => {
            let members = put_member(none, Key::SyslogIdentifier, identifier);
            let members = put_member(members, Key::Priority, decimal_text(priority as nat));
            put_times_members(members, realtime_timestamp, monotonic_timestamp)
        },
    }
}

/// A member under a key that the list does not hold yet enters the object
/// of the list.
proof fn lemma_put_member(members: Seq<MemberView>, key: Key, text: Seq<char>)
    requires
        !object_of(members).contains_key(key.text()),
    ensures
        object_of(put_member(members, key, text)) == with_member(object_of(members), key, text),
{
    lemma_object_push(members, (key.text(), Some(text)));
}

/// The timestamps that are written behind a list enter the object of the
/// list.
proof fn lemma_put_times(
    members: Seq<MemberView>,
    realtime: Timestamp,
    monotonic: u64,
)
    requires
        !object_of(members).contains_key(Key::RealtimeTimestamp.text()),
        !object_of(members).contains_key(Key::MonotonicTimestamp.text()),
    ensures
        object_of(put_times_members(members, realtime, monotonic)) == with_times(
            object_of(members),
            realtime,
            monotonic,
        ),
{
    lemma_keys_differ(Key::RealtimeTimestamp, Key::MonotonicTimestamp);
    let text = signed_text(realtime.micros());
    lemma_put_member(members, Key::RealtimeTimestamp, text);
    lemma_put_member(
        put_member(members, Key::RealtimeTimestamp, text),
        Key::MonotonicTimestamp,
        decimal_text(monotonic as nat),
    );
}

/// What is written behind a list by `put_plain_members` enters the object
/// of the list.
proof fn lemma_put_plain(
    members: Seq<MemberView>,
    identifier: Seq<char>,
    priority: u8,
    message: Seq<char>,
    realtime: Timestamp,
    monotonic: u64,
)
    requires
        forall|key: Key|
            key != Key::Transport && key != Key::SystemdUnit ==> !object_of(members).contains_key(
                #[trigger] key.text(),
            ),
    ensures
        object_of(
            put_plain_members(members, identifier, priority, message, realtime, monotonic),
        ) == with_plain(object_of(members), identifier, priority, message, realtime, monotonic),
{
    assert forall|a: Key, b: Key| a.text() == b.text() <==> a == b by {
        lemma_keys_differ(a, b);
    }
    let a = put_member(members, Key::SyslogIdentifier, identifier);
    let b = put_member(a, Key::Priority, decimal_text(priority as nat));
    let c = put_member(b, Key::Message, message);
    lemma_put_member(members, Key::SyslogIdentifier, identifier);
    lemma_put_member(a, Key::Priority, decimal_text(priority as nat));
    lemma_put_member(b, Key::Message, message);
    lemma_put_times(c, realtime, monotonic);
}

/// The object of the members that write a record is the object that writes
/// the record.
pub proof fn lemma_encoded_members(log: LogView)
    ensures
        object_of(encoded_members(log)) == encoded(log),
{
    assert forall|a: Key, b: Key| a.text() == b.text() <==> a == b by {
        lemma_keys_differ(a, b);
    }
    let none = Seq::<MemberView>::empty();
    match log {
        LogView::Journal {
            pid,
            priority,
            systemd_unit,
            message,
            realtime_timestamp,
            monotonic_timestamp,
        } => {
            let a = put_member(none, Key::Transport, "journal"@);
            let b = put_member(a, Key::Pid, decimal_text(pid as nat));
            let c = put_member(b, Key::Priority, decimal_text(priority as nat));
            let d = put_member(c, Key::SystemdUnit, systemd_unit);
            let e = put_member(d, Key::Message, message);
            lemma_put_member(none, Key::Transport, "journal"@);
            lemma_put_member(a, Key::Pid, decimal_text(pid as nat));
            lemma_put_member(b, Key::Priority, decimal_text(priority as nat));
            lemma_put_member(c, Key::SystemdUnit, systemd_unit);
            lemma_put_member(d, Key::Message, message);
            lemma_put_times(e, realtime_timestamp, monotonic_timestamp);
        },
        LogView::Kernel {
            identifier,
            priority,
            message,
            realtime_timestamp,
            monotonic_timestamp,
        } => {
            lemma_put_member(none, Key::Transport, "kernel"@);
            lemma_put_plain(
                put_member(none, Key::Transport, "kernel"@),
                identifier,
                priority,
                message,
                realtime_timestamp,
                monotonic_timestamp,
            );
        },
        LogView::Stdout {
            identifier,
            systemd_unit,
            priority,
            message,
            realtime_timestamp,
            monotonic_timestamp,
        } => {
            let a = put_member(none, Key::Transport, "stdout"@);
            let b = put_member(a, Key::SystemdUnit, systemd_unit);
            lemma_put_member(none, Key::Transport, "stdout"@);
            lemma_put_member(a, Key::SystemdUnit, systemd_unit);
            lemma_put_plain(
                b,
                identifier,
                priority,
                message,
                realtime_timestamp,
                monotonic_timestamp,
            );
        },
        LogView::Audit {
            identifier,
            priority,
            message,
            realtime_timestamp,
            monotonic_timestamp,
        } => {
            lemma_put_member(none, Key::Transport, "audit"@);
            lemma_put_plain(
                put_member(none, Key::Transport, "audit"@),
                identifier,
                priority,
                message,
                realtime_timestamp,
                monotonic_timestamp,
            );
        },
        LogView::Syslog {
            identifier,
            priority,
            message,
            realtime_timestamp,
            monotonic_timestamp,
        } => {
            lemma_put_member(none, Key::Transport, "syslog"@);
            lemma_put_plain(
                put_member(none, Key::Transport, "syslog"@),
                identifier,
                priority,
                message,
                realtime_timestamp,
                monotonic_timestamp,
            );
        },
        LogView::Driver {
            identifier,
            priority,
            message,
            realtime_timestamp,
            monotonic_timestamp,
        } => {
            lemma_put_member(none, Key::Transport, "driver"@);
            lemma_put_plain(
                put_member(none, Key::Transport, "driver"@),
                identifier,
                priority,
                message,
                realtime_timestamp,
                monotonic_timestamp,
            );
        },
        LogView::Invalid {
            identifier,
            priority,
            error,
            realtime_timestamp,
            monotonic_timestamp,
        } => {
            let a = put_member(none, Key::SyslogIdentifier, identifier);
            let b = put_member(a, Key::Priority, decimal_text(priority as nat));
            lemma_put_member(none, Key::SyslogIdentifier, identifier);
            lemma_put_member(a, Key::Priority, decimal_text(priority as nat));
            lemma_put_times(b, realtime_timestamp, monotonic_timestamp);
        },
    }
}

/// Writes the text `text` under the key `key` behind the members of `out`.
fn put(out: &mut Vec<Member>, key: Key, text: String)
    ensures
        final(out).deep_view() == put_member(old(out).deep_view(), key, text@),
{
    out.push((key.name().to_owned(), Some(text)));
    assert(out.deep_view() =~= put_member(old(out).deep_view(), key, text@));
}

/// Writes the two timestamps of a record.
fn put_times(out: &mut Vec<Member>, realtime: Timestamp, monotonic: u64)
    requires
        realtime.wf(),
    ensures
        final(out).deep_view() == put_times_members(old(out).deep_view(), realtime, monotonic),
{
    put(out, Key::RealtimeTimestamp, render_i64(realtime.to_micros()));
    put(out, Key::MonotonicTimestamp, render_u64(monotonic));
}

/// Writes what the shapes of the kernel, of syslog and of a driver hold
/// alike.
fn put_plain(
    out: &mut Vec<Member>,
    identifier: &String,
    priority: u8,
    message: &String,
    realtime: Timestamp,
    monotonic: u64,
)
    requires
        realtime.wf(),
    ensures
        final(out).deep_view() == put_plain_members(
            old(out).deep_view(),
            identifier@,
            priority,
            message@,
            realtime,
            monotonic,
        ),
{
    put(out, Key::SyslogIdentifier, identifier.clone());
    put(out, Key::Priority, render_u64(priority as u64));
    put(out, Key::Message, message.clone());
    put_times(out, realtime, monotonic);
}

/// A list of members with nothing but the transport `transport`.
fn only_transport(transport: &str) -> (out: Vec<Member>)
    ensures
        out.deep_view() == put_member(Seq::empty(), Key::Transport, transport@),
{
    let mut out: Vec<Member> = Vec::new();
    assert(out.deep_view() =~= Seq::empty());
    put(&mut out, Key::Transport, transport.to_owned());
    out
}

impl Log {
    /// Writes the record as the members of a JSON object, each with its
    /// text. Classifying the members gives the record back, but for the
    /// `error` of an `Invalid` record.
    pub fn to_members(&self) -> (out: Vec<Member>)
        requires
            self.wf(),
        ensures
            out.deep_view() == encoded_members(self@),
            object_of(out.deep_view()) == encoded(self@),
    {
        proof {
            lemma_encoded_members(self@);
        }
        match self {
            Log::Journal(r) => {
                let mut out = only_transport("journal");
                put(&mut out, Key::Pid, render_u64(r.pid as u64));
                put(&mut out, Key::Priority, render_u64(r.priority as u64));
                put(&mut out, Key::SystemdUnit, r.systemd_unit.clone());
                put(&mut out, Key::Message, r.message.clone());
                put_times(&mut out, r.realtime_timestamp, r.monotonic_timestamp);
                out
            },
            Log::Kernel(r) => {
                let mut out = only_transport("kernel");
                put_plain(
                    &mut out,
                    &r.identifier,
                    r.priority,
                    &r.message,
                    r.realtime_timestamp,
                    r.monotonic_timestamp,
                );
                out
            },
            Log::Stdout(r) => {
                let mut out = only_transport("stdout");
                put(&mut out, Key::SystemdUnit, r.systemd_unit.clone());
                put_plain(
                    &mut out,
                    &r.identifier,
                    r.priority,
                    &r.message,
                    r.realtime_timestamp,
                    r.monotonic_timestamp,
                );
                out
            },
            Log::Audit(r) => {
                let mut out = only_transport("audit");
                put_plain(
                    &mut out,
                    &r.identifier,
                    r.priority,
                    &r.message,
                    r.realtime_timestamp,
                    r.monotonic_timestamp,
                );
                out
            },
            Log::Syslog(r) => {
                let mut out = only_transport("syslog");
                put_plain(
                    &mut out,
                    &r.identifier,
                    r.priority,
                    &r.message,
                    r.realtime_timestamp,
                    r.monotonic_timestamp,
                );
                out
            },
            Log::Driver(r) => {
                let mut out = only_transport("driver");
                put_plain(
                    &mut out,
                    &r.identifier,
                    r.priority,
                    &r.message,
                    r.realtime_timestamp,
                    r.monotonic_timestamp,
                );
                out
            },
            Log::Invalid(r) => {
                let mut out: Vec<Member> = Vec::new();
                assert(out.deep_view() =~= Seq::empty());
                put(&mut out, Key::SyslogIdentifier, r.identifier.clone());
                put(&mut out, Key::Priority, render_u64(r.priority as u64));
                put_times(&mut out, r.realtime_timestamp, r.monotonic_timestamp);
                out
            },
        }
    }
}

} // verus!
