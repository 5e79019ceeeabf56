use log_stat::classify::{classify_members, datefmt, default_syslog_identity, default_systemd_unit, Key, Reason};
use log_stat::{count, deserialize_fallback, ClassifyError, Log, Timestamp};

const JOURNAL_LINE: &str = r#"{"_TRANSPORT":"journal","_PID":"1","PRIORITY":"6","_SYSTEMD_UNIT":"docker.service","MESSAGE":"Started","__REALTIME_TIMESTAMP":"1491389822667666","__MONOTONIC_TIMESTAMP":"71669967"}"#;

const UNKNOWN_LINE: &str = r#"{"_TRANSPORT":"unknown_thing","PRIORITY":"3","__REALTIME_TIMESTAMP":"1491389822667666","__MONOTONIC_TIMESTAMP":"71669967"}"#;

fn line_of(members: &[(&str, &str)]) -> String {
    let mut object = serde_json::Map::new();
    for (key, text) in members {
        object.insert(key.to_string(), serde_json::Value::String(text.to_string()));
    }
    serde_json::to_string(&object).unwrap()
}

fn plain_line(transport: &str) -> String {
    line_of(&[
        ("_TRANSPORT", transport),
        ("SYSLOG_IDENTIFIER", "sshd"),
        ("PRIORITY", "4"),
        ("MESSAGE", "hello"),
        ("__REALTIME_TIMESTAMP", "1000001"),
        ("__MONOTONIC_TIMESTAMP", "42"),
    ])
}

fn unsalvageable(line: &str) -> (Reason, Reason) {
    match deserialize_fallback(line) {
        Err(ClassifyError::Unsalvageable { primary, fallback }) => (primary, fallback),
        other => panic!("expected a line that cannot be saved, got {:?}", other),
    }
}

fn invalid_error(line: &str) -> String {
    match deserialize_fallback(line).unwrap() {
        Log::Invalid(r) => r.error,
        other => panic!("expected an Invalid record, got {:?}", other),
    }
}

#[test]
fn it_works() {
    let testdata_log = r#"{
    "__CURSOR" : "s=46ba892f70824638b3d16da7d80834ac;i=a4f10;b=19b1f03dcfef43179df0082144e9f33a;m=44598cf;t=54c69409a0b92;x=cb2f553f676a9051",
    "__REALTIME_TIMESTAMP" : "1491389822667666",
    "__MONOTONIC_TIMESTAMP" : "71669967",
    "_BOOT_ID" : "19b1f03dcfef43179df0082144e9f33a",
    "_TRANSPORT" : "journal",
    "_MACHINE_ID" : "1ddaa2b4178f429b82a894ea90b7e7d0",
    "_HOSTNAME" : "master",
    "PRIORITY" : "6",
    "SYSLOG_FACILITY" : "3",
    "_SELINUX_CONTEXT" : "system_u:system_r:init_t:s0",
    "_UID" : "0",
    "_GID" : "0",
    "_CAP_EFFECTIVE" : "1fffffffff",
    "CODE_FILE" : "src/core/job.c",
    "CODE_LINE" : "776",
    "CODE_FUNCTION" : "job_log_status_message",
    "SYSLOG_IDENTIFIER" : "systemd",
    "MESSAGE_ID" : "39f53479d3a045ac8e11786248231fbf",
    "RESULT" : "done",
    "_PID" : "1",
    "_COMM" : "systemd",
    "_EXE" : "/usr/lib/systemd/systemd",
    "_CMDLINE" : "/usr/lib/systemd/systemd --switched-root --system --deserialize 21",
    "_SYSTEMD_CGROUP" : "/",
    "_SYSTEMD_UNIT" : "docker.service",
    "MESSAGE" : "Started Docker Application Container Engine.",
    "_SOURCE_REALTIME_TIMESTAMP" : "1491389822657954"
}"#;
    let p: Log = deserialize_fallback(testdata_log).unwrap();
    println!("{:?}", p);
    match p {
        Log::Journal(j) => {
            assert_eq!(j.pid, 1);
            assert_eq!(j.priority, 6);
            assert_eq!(j.systemd_unit, "docker.service");
            assert_eq!(j.message, "Started Docker Application Container Engine.");
            assert_eq!(j.realtime_timestamp, Timestamp { secs: 1491389822, nanos: 667666000 });
            assert_eq!(j.monotonic_timestamp, 71669967);
        }
        other => panic!("not a journal record: {:?}", other),
    }
}

#[test]
fn parse_bytearray() {
    let testdata_log = r#"{
      "SYSLOG_IDENTIFIER" : "systemd",
      "__REALTIME_TIMESTAMP" : "1491389822667666",
      "__MONOTONIC_TIMESTAMP" : "71669967",
      "PRIORITY" : "6",
      "MESSAGE" : [27,91,51,54,109,97,112,112,95,49,32,32,124,27,91,48,109,32,50,48,50,48,45,48,49,45,49,53,32,48,51,58,49,54,58,50,51,32,115,112,105,107,101,32,108,111,118,111,116,95,115,108,97,109,46,115,108,97,109,95,115,101,114,118,105,99,101,114,91,54,54,93,32,73,78,70,79,32,103,101,116,32,115,112,111,116,115,58,32,91,39,101,110,116,114,97,110,99,101,39,93]
}"#;

    let p = deserialize_fallback(&testdata_log).unwrap();
    println!("parse_bytearray: {:?}", p);
    match p {
        Log::Invalid(r) => {
            assert_eq!(r.identifier, "systemd");
            assert_eq!(r.priority, 6);
            assert_eq!(r.error, "missing field _TRANSPORT");
            assert_eq!(r.realtime_timestamp, Timestamp { secs: 1491389822, nanos: 667666000 });
            assert_eq!(r.monotonic_timestamp, 71669967);
        }
        other => panic!("not an Invalid record: {:?}", other),
    }
}

#[test]
fn journal_line_classifies_as_journal() {
    match deserialize_fallback(JOURNAL_LINE).unwrap() {
        Log::Journal(j) => {
            assert_eq!(j.pid, 1);
            assert_eq!(j.priority, 6);
            assert_eq!(j.systemd_unit, "docker.service");
            assert_eq!(j.message, "Started");
            assert_eq!(j.realtime_timestamp.secs, 1491389822);
            assert_eq!(j.realtime_timestamp.nanos, 667666000);
            assert_eq!(j.monotonic_timestamp, 71669967);
        }
        other => panic!("not a journal record: {:?}", other),
    }
}

#[test]
fn journal_line_is_counted() {
    let report = count(&[JOURNAL_LINE.to_string()]).unwrap();
    assert_eq!(report.total.line, 1);
    assert_eq!(report.total.facility.get("journal"), Some(&1));
    assert_eq!(report.total.facility.len(), 1);
    assert_eq!(report.total.message_length, 7);
    let docker = report.service.get("docker.service").unwrap();
    assert_eq!(docker.line, 1);
    assert_eq!(docker.message_length, 7);
    assert_eq!(docker.priorities[&6], 1);
    assert_eq!(docker.priorities.len(), 1);
    assert_eq!(docker.keywords.len(), 0);
    assert_eq!(report.service.len(), 1);
}

#[test]
fn unknown_transport_classifies_as_invalid() {
    match deserialize_fallback(UNKNOWN_LINE).unwrap() {
        Log::Invalid(r) => {
            assert_eq!(r.priority, 3);
            assert_eq!(r.identifier, "unknown");
            assert_eq!(r.error, "unknown transport");
            assert_eq!(r.realtime_timestamp, Timestamp { secs: 1491389822, nanos: 667666000 });
            assert_eq!(r.monotonic_timestamp, 71669967);
        }
        other => panic!("not an Invalid record: {:?}", other),
    }
}

#[test]
fn unknown_transport_is_counted_as_invalid() {
    let report = count(&[UNKNOWN_LINE.to_string()]).unwrap();
    assert_eq!(report.total.line, 1);
    assert_eq!(report.total.facility.get("invalid"), Some(&1));
    assert_eq!(report.total.message_length, 0);
    assert_eq!(report.service.len(), 0);
}

#[test]
fn text_that_is_not_json_is_a_hard_failure() {
    let error = count(&[JOURNAL_LINE.to_string(), "not json".to_string()]).unwrap_err();
    assert_eq!(error.index, 1);
    assert!(matches!(error.cause, ClassifyError::NotAnObject { .. }));
    match deserialize_fallback("not json") {
        Err(ClassifyError::NotAnObject { detail }) => assert!(!detail.is_empty()),
        other => panic!("expected a line that is no object, got {:?}", other),
    }
}

#[test]
fn json_that_is_no_object_is_a_hard_failure() {
    for line in ["\"not json\"", "[1, 2]", "17", "null", "", "{", "{\"a\":1} x"] {
        assert!(
            matches!(deserialize_fallback(line), Err(ClassifyError::NotAnObject { .. })),
            "{:?}",
            line
        );
    }
}

#[test]
fn journal_without_unit_falls_under_unknown() {
    let line = line_of(&[
        ("_TRANSPORT", "journal"),
        ("_PID", "77"),
        ("PRIORITY", "5"),
        ("MESSAGE", "no unit"),
        ("__REALTIME_TIMESTAMP", "1491389822667666"),
        ("__MONOTONIC_TIMESTAMP", "71669967"),
    ]);
    match deserialize_fallback(&line).unwrap() {
        Log::Journal(j) => {
            assert_eq!(j.systemd_unit, "unknown");
            assert_eq!(j.pid, 77);
        }
        other => panic!("not a journal record: {:?}", other),
    }
    let report = count(&[line]).unwrap();
    let unknown = report.service.get("unknown").unwrap();
    assert_eq!(unknown.line, 1);
    assert_eq!(unknown.message_length, 7);
    assert_eq!(unknown.priorities[&5], 1);
}

#[test]
fn defaults_are_unknown() {
    assert_eq!(default_systemd_unit(), "unknown");
    assert_eq!(default_syslog_identity(), "unknown");
}

#[test]
fn each_transport_gives_its_shape() {
    match deserialize_fallback(&plain_line("kernel")).unwrap() {
        Log::Kernel(r) => {
            assert_eq!(r.identifier, "sshd");
            assert_eq!(r.priority, 4);
            assert_eq!(r.message, "hello");
            assert_eq!(r.realtime_timestamp, Timestamp { secs: 1, nanos: 1000 });
            assert_eq!(r.monotonic_timestamp, 42);
        }
        other => panic!("{:?}", other),
    }
    match deserialize_fallback(&plain_line("syslog")).unwrap() {
        Log::Syslog(r) => {
            assert_eq!(r.identifier, "sshd");
            assert_eq!(r.priority, 4);
            assert_eq!(r.message, "hello");
        }
        other => panic!("{:?}", other),
    }
    match deserialize_fallback(&plain_line("driver")).unwrap() {
        Log::Driver(r) => {
            assert_eq!(r.identifier, "sshd");
            assert_eq!(r.priority, 4);
            assert_eq!(r.message, "hello");
        }
        other => panic!("{:?}", other),
    }
    match deserialize_fallback(&plain_line("audit")).unwrap() {
        Log::Audit(r) => {
            assert_eq!(r.identifier, "sshd");
            assert_eq!(r.priority, 4);
            assert_eq!(r.message, "hello");
        }
        other => panic!("{:?}", other),
    }
    match deserialize_fallback(&plain_line("stdout")).unwrap() {
        Log::Stdout(r) => {
            assert_eq!(r.identifier, "sshd");
            assert_eq!(r.systemd_unit, "unknown");
            assert_eq!(r.priority, 4);
            assert_eq!(r.message, "hello");
        }
        other => panic!("{:?}", other),
    }
}

#[test]
fn identifier_defaults_to_unknown() {
    let line = line_of(&[
        ("_TRANSPORT", "kernel"),
        ("PRIORITY", "4"),
        ("MESSAGE", "hello"),
        ("__REALTIME_TIMESTAMP", "0"),
        ("__MONOTONIC_TIMESTAMP", "0"),
    ]);
    match deserialize_fallback(&line).unwrap() {
        Log::Kernel(r) => assert_eq!(r.identifier, "unknown"),
        other => panic!("{:?}", other),
    }
}

#[test]
fn priority_defaults_to_zero_where_the_shape_allows() {
    let journal = line_of(&[
        ("_TRANSPORT", "journal"),
        ("_PID", "1"),
        ("PRIORITY", "high"),
        ("MESSAGE", "m"),
        ("__REALTIME_TIMESTAMP", "0"),
        ("__MONOTONIC_TIMESTAMP", "0"),
    ]);
    match deserialize_fallback(&journal).unwrap() {
        Log::Journal(r) => assert_eq!(r.priority, 0),
        other => panic!("{:?}", other),
    }
    let audit = line_of(&[
        ("_TRANSPORT", "audit"),
        ("MESSAGE", "m"),
        ("__REALTIME_TIMESTAMP", "0"),
        ("__MONOTONIC_TIMESTAMP", "0"),
    ]);
    match deserialize_fallback(&audit).unwrap() {
        Log::Audit(r) => assert_eq!(r.priority, 0),
        other => panic!("{:?}", other),
    }
    let number = r#"{"_TRANSPORT":"audit","PRIORITY":6,"MESSAGE":"m","__REALTIME_TIMESTAMP":"0","__MONOTONIC_TIMESTAMP":"0"}"#;
    match deserialize_fallback(number).unwrap() {
        Log::Audit(r) => assert_eq!(r.priority, 0),
        other => panic!("{:?}", other),
    }
    let too_large = line_of(&[
        ("_TRANSPORT", "unheard"),
        ("PRIORITY", "256"),
        ("__REALTIME_TIMESTAMP", "0"),
        ("__MONOTONIC_TIMESTAMP", "0"),
    ]);
    match deserialize_fallback(&too_large).unwrap() {
        Log::Invalid(r) => assert_eq!(r.priority, 0),
        other => panic!("{:?}", other),
    }
}

#[test]
fn kernel_without_priority_becomes_invalid() {
    let missing = line_of(&[
        ("_TRANSPORT", "kernel"),
        ("MESSAGE", "m"),
        ("__REALTIME_TIMESTAMP", "5"),
        ("__MONOTONIC_TIMESTAMP", "6"),
    ]);
    assert_eq!(invalid_error(&missing), "missing field PRIORITY");
    let unreadable = line_of(&[
        ("_TRANSPORT", "kernel"),
        ("PRIORITY", "x"),
        ("MESSAGE", "m"),
        ("__REALTIME_TIMESTAMP", "5"),
        ("__MONOTONIC_TIMESTAMP", "6"),
    ]);
    assert_eq!(invalid_error(&unreadable), "not a number: field PRIORITY");
    match deserialize_fallback(&unreadable).unwrap() {
        Log::Invalid(r) => assert_eq!(r.priority, 0),
        other => panic!("{:?}", other),
    }
}

#[test]
fn journal_without_a_readable_pid_becomes_invalid() {
    let missing = line_of(&[
        ("_TRANSPORT", "journal"),
        ("PRIORITY", "2"),
        ("MESSAGE", "m"),
        ("__REALTIME_TIMESTAMP", "5"),
        ("__MONOTONIC_TIMESTAMP", "6"),
    ]);
    assert_eq!(invalid_error(&missing), "missing field _PID");
    let too_large = line_of(&[
        ("_TRANSPORT", "journal"),
        ("_PID", "65536"),
        ("PRIORITY", "2"),
        ("MESSAGE", "m"),
        ("__REALTIME_TIMESTAMP", "5"),
        ("__MONOTONIC_TIMESTAMP", "6"),
    ]);
    assert_eq!(invalid_error(&too_large), "not a number: field _PID");
    match deserialize_fallback(&too_large).unwrap() {
        Log::Invalid(r) => {
            assert_eq!(r.priority, 2);
            assert_eq!(r.identifier, "unknown");
            assert_eq!(r.realtime_timestamp, Timestamp { secs: 0, nanos: 5000 });
            assert_eq!(r.monotonic_timestamp, 6);
        }
        other => panic!("{:?}", other),
    }
}

#[test]
fn a_message_that_is_no_string_becomes_invalid() {
    let line = r#"{"_TRANSPORT":"syslog","PRIORITY":"2","MESSAGE":[104,105],"__REALTIME_TIMESTAMP":"5","__MONOTONIC_TIMESTAMP":"6"}"#;
    assert_eq!(invalid_error(line), "not a string: field MESSAGE");
    let missing = r#"{"_TRANSPORT":"syslog","PRIORITY":"2","__REALTIME_TIMESTAMP":"5","__MONOTONIC_TIMESTAMP":"6"}"#;
    assert_eq!(invalid_error(missing), "missing field MESSAGE");
}

#[test]
fn a_transport_that_is_no_string_becomes_invalid() {
    let line = r#"{"_TRANSPORT":7,"__REALTIME_TIMESTAMP":"5","__MONOTONIC_TIMESTAMP":"6"}"#;
    assert_eq!(invalid_error(line), "not a string: field _TRANSPORT");
}

#[test]
fn the_name_of_the_invalid_shape_is_no_transport() {
    let line = r#"{"_TRANSPORT":"Invalid","__REALTIME_TIMESTAMP":"5","__MONOTONIC_TIMESTAMP":"6"}"#;
    assert_eq!(invalid_error(line), "unknown transport");
}

#[test]
fn lines_without_timestamps_cannot_be_saved() {
    assert_eq!(
        unsalvageable("{}"),
        (Reason::Missing(Key::Transport), Reason::Missing(Key::RealtimeTimestamp))
    );
    assert_eq!(
        unsalvageable(r#"{"_TRANSPORT":"kernel","PRIORITY":"1","MESSAGE":"m","__REALTIME_TIMESTAMP":"1"}"#),
        (Reason::Missing(Key::MonotonicTimestamp), Reason::Missing(Key::MonotonicTimestamp))
    );
    assert_eq!(
        unsalvageable(r#"{"_TRANSPORT":"nobody","__REALTIME_TIMESTAMP":"yesterday","__MONOTONIC_TIMESTAMP":"1"}"#),
        (Reason::UnknownTransport, Reason::NotANumber(Key::RealtimeTimestamp))
    );
    assert_eq!(
        unsalvageable(r#"{"_TRANSPORT":"nobody","__REALTIME_TIMESTAMP":"1","__MONOTONIC_TIMESTAMP":"-1"}"#),
        (Reason::UnknownTransport, Reason::NotANumber(Key::MonotonicTimestamp))
    );
    assert_eq!(
        unsalvageable(r#"{"_TRANSPORT":"audit","SYSLOG_IDENTIFIER":["a"],"MESSAGE":"m","__MONOTONIC_TIMESTAMP":"1"}"#),
        (Reason::NotText(Key::SyslogIdentifier), Reason::Missing(Key::RealtimeTimestamp))
    );
    assert_eq!(
        unsalvageable(r#"{"__REALTIME_TIMESTAMP":1,"__MONOTONIC_TIMESTAMP":"1"}"#),
        (Reason::Missing(Key::Transport), Reason::NotText(Key::RealtimeTimestamp))
    );
}

#[test]
fn reasons_are_described_in_words() {
    assert_eq!(Reason::Missing(Key::Pid).describe(), "missing field _PID");
    assert_eq!(Reason::NotText(Key::SystemdUnit).describe(), "not a string: field _SYSTEMD_UNIT");
    assert_eq!(
        Reason::NotANumber(Key::MonotonicTimestamp).describe(),
        "not a number: field __MONOTONIC_TIMESTAMP"
    );
    assert_eq!(Reason::UnknownTransport.describe(), "unknown transport");
    assert_eq!(Key::Transport.name(), "_TRANSPORT");
    assert_eq!(Key::Priority.name(), "PRIORITY");
    assert_eq!(Key::SyslogIdentifier.name(), "SYSLOG_IDENTIFIER");
    assert_eq!(Key::Message.name(), "MESSAGE");
    assert_eq!(Key::RealtimeTimestamp.name(), "__REALTIME_TIMESTAMP");
}

#[test]
fn timestamps_are_split_into_seconds_and_nanoseconds() {
    assert_eq!(datefmt("1491389822667666"), Some(Timestamp { secs: 1491389822, nanos: 667666000 }));
    assert_eq!(datefmt("0"), Some(Timestamp { secs: 0, nanos: 0 }));
    assert_eq!(datefmt("999999"), Some(Timestamp { secs: 0, nanos: 999999000 }));
    assert_eq!(datefmt("1000000"), Some(Timestamp { secs: 1, nanos: 0 }));
    assert_eq!(datefmt("4294967296000001"), Some(Timestamp { secs: 4294967296, nanos: 1000 }));
    assert_eq!(datefmt("-1"), Some(Timestamp { secs: -1, nanos: 999999000 }));
    assert_eq!(datefmt("-1000000"), Some(Timestamp { secs: -1, nanos: 0 }));
    assert_eq!(datefmt("-1000001"), Some(Timestamp { secs: -2, nanos: 999999000 }));
    assert_eq!(
        datefmt("9223372036854775807"),
        Some(Timestamp { secs: 9223372036854, nanos: 775807000 })
    );
    assert_eq!(
        datefmt("-9223372036854775808"),
        Some(Timestamp { secs: -9223372036855, nanos: 224192000 })
    );
    assert_eq!(datefmt("9223372036854775808"), None);
    assert_eq!(datefmt("12.5"), None);
    assert_eq!(datefmt(""), None);
    assert_eq!(datefmt("now"), None);
}

#[test]
fn a_time_beyond_the_calendar_is_a_hard_failure() {
    let far = line_of(&[
        ("_TRANSPORT", "kernel"),
        ("PRIORITY", "1"),
        ("MESSAGE", "m"),
        ("__REALTIME_TIMESTAMP", "9223372036854775807"),
        ("__MONOTONIC_TIMESTAMP", "1"),
    ]);
    assert_eq!(deserialize_fallback(&far), Err(ClassifyError::OffCalendar));
    let long_ago = line_of(&[
        ("__REALTIME_TIMESTAMP", "-9223372036854775808"),
        ("__MONOTONIC_TIMESTAMP", "1"),
    ]);
    assert_eq!(deserialize_fallback(&long_ago), Err(ClassifyError::OffCalendar));
    let before_the_epoch = line_of(&[
        ("_TRANSPORT", "kernel"),
        ("PRIORITY", "1"),
        ("MESSAGE", "m"),
        ("__REALTIME_TIMESTAMP", "-2208936075000000"),
        ("__MONOTONIC_TIMESTAMP", "1"),
    ]);
    match deserialize_fallback(&before_the_epoch).unwrap() {
        Log::Kernel(r) => assert_eq!(r.realtime_timestamp, Timestamp { secs: -2208936075, nanos: 0 }),
        other => panic!("{:?}", other),
    }
}

#[test]
fn the_calendar_agrees_with_chrono() {
    let t = Timestamp::from_micros(1491389822667666);
    assert!(t.on_calendar());
    let shown = chrono::DateTime::from_timestamp(t.secs, t.nanos).unwrap();
    assert_eq!(shown.timestamp_micros(), 1491389822667666);
    assert_eq!(shown.to_rfc3339(), "2017-04-05T10:57:02.667666+00:00");
    assert!(!Timestamp { secs: i64::MAX, nanos: 0 }.on_calendar());
    assert!(!Timestamp { secs: 0, nanos: 2_000_000_000 }.on_calendar());
}

#[test]
fn members_are_classified_without_a_line() {
    let members = vec![
        ("MESSAGE".to_string(), Some("hi".to_string())),
        ("_TRANSPORT".to_string(), Some("driver".to_string())),
        ("PRIORITY".to_string(), Some("+7".to_string())),
        ("__MONOTONIC_TIMESTAMP".to_string(), Some("18446744073709551615".to_string())),
        ("__REALTIME_TIMESTAMP".to_string(), Some("2500000".to_string())),
        ("EXTRA".to_string(), None),
    ];
    match classify_members(&members).unwrap() {
        Log::Driver(r) => {
            assert_eq!(r.identifier, "unknown");
            assert_eq!(r.priority, 7);
            assert_eq!(r.message, "hi");
            assert_eq!(r.realtime_timestamp, Timestamp { secs: 2, nanos: 500000000 });
            assert_eq!(r.monotonic_timestamp, u64::MAX);
        }
        other => panic!("{:?}", other),
    }
    let twice = vec![
        ("_TRANSPORT".to_string(), Some("nothing".to_string())),
        ("__MONOTONIC_TIMESTAMP".to_string(), Some("1".to_string())),
        ("__MONOTONIC_TIMESTAMP".to_string(), Some("2".to_string())),
        ("__REALTIME_TIMESTAMP".to_string(), Some("3".to_string())),
    ];
    match classify_members(&twice).unwrap() {
        Log::Invalid(r) => assert_eq!(r.monotonic_timestamp, 1),
        other => panic!("{:?}", other),
    }
    assert_eq!(
        classify_members(&Vec::new()),
        Err(ClassifyError::Unsalvageable {
            primary: Reason::Missing(Key::Transport),
            fallback: Reason::Missing(Key::RealtimeTimestamp),
        })
    );
}

#[test]
fn escapes_in_text_are_read() {
    let line = r#"{"_TRANSPORT":"syslog","PRIORITY":"2","MESSAGE":"a\nb é \"q\"","__REALTIME_TIMESTAMP":"5","__MONOTONIC_TIMESTAMP":"6"}"#;
    match deserialize_fallback(line).unwrap() {
        Log::Syslog(r) => assert_eq!(r.message, "a\nb \u{e9} \"q\""),
        other => panic!("{:?}", other),
    }
    let report = count(&[line.to_string()]).unwrap();
    assert_eq!(report.total.message_length, 10);
}

#[test]
fn an_identifier_that_is_no_string_is_unknown_in_what_is_saved() {
    let line = r#"{"_TRANSPORT":"kernel","SYSLOG_IDENTIFIER":[107],"PRIORITY":"2","MESSAGE":"m","__REALTIME_TIMESTAMP":"1","__MONOTONIC_TIMESTAMP":"2"}"#;
    match deserialize_fallback(line).unwrap() {
        Log::Invalid(r) => {
            assert_eq!(r.identifier, "unknown");
            assert_eq!(r.priority, 2);
            assert_eq!(r.error, "not a string: field SYSLOG_IDENTIFIER");
            assert_eq!(r.realtime_timestamp, Timestamp { secs: 0, nanos: 1000 });
            assert_eq!(r.monotonic_timestamp, 2);
        }
        other => panic!("{:?}", other),
    }
    let kept = r#"{"SYSLOG_IDENTIFIER":"sshd","__REALTIME_TIMESTAMP":"1","__MONOTONIC_TIMESTAMP":"2"}"#;
    match deserialize_fallback(kept).unwrap() {
        Log::Invalid(r) => assert_eq!(r.identifier, "sshd"),
        other => panic!("{:?}", other),
    }
}
