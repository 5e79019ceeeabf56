use log_stat::{Audit, DateTimeRange, Driver, Invalid, Journal, Kernel, Log, Stdout, Syslog, Timestamp};

fn at(micros: i64) -> Timestamp {
    Timestamp::from_micros(micros)
}

fn all_shapes() -> Vec<Log> {
    vec![
        Log::Journal(Journal {
            pid: 1,
            priority: 1,
            systemd_unit: "j.service".to_string(),
            message: "one".to_string(),
            realtime_timestamp: at(1),
            monotonic_timestamp: 1,
        }),
        Log::Kernel(Kernel {
            identifier: "k".to_string(),
            priority: 2,
            message: "to".to_string(),
            realtime_timestamp: at(2),
            monotonic_timestamp: 2,
        }),
        Log::Stdout(Stdout {
            identifier: "s".to_string(),
            systemd_unit: "s.service".to_string(),
            priority: 3,
            message: "three".to_string(),
            realtime_timestamp: at(3),
            monotonic_timestamp: 3,
        }),
        Log::Audit(Audit {
            identifier: "a".to_string(),
            priority: 4,
            message: "".to_string(),
            realtime_timestamp: at(4),
            monotonic_timestamp: 4,
        }),
        Log::Syslog(Syslog {
            identifier: "y".to_string(),
            priority: 5,
            message: "f\u{fc}nf".to_string(),
            realtime_timestamp: at(5),
            monotonic_timestamp: 5,
        }),
        Log::Driver(Driver {
            identifier: "d".to_string(),
            priority: 6,
            message: "\u{1f600}".to_string(),
            realtime_timestamp: at(6),
            monotonic_timestamp: 6,
        }),
        Log::Invalid(Invalid {
            identifier: "i".to_string(),
            priority: 7,
            error: "a reason of some length".to_string(),
            realtime_timestamp: at(7),
            monotonic_timestamp: 7,
        }),
    ]
}

#[test]
fn every_shape_has_its_facility() {
    let names: Vec<&str> = all_shapes().iter().map(|log| log.facility()).collect();
    assert_eq!(names, ["journal", "kernel", "stdout", "audit", "syslog", "driver", "invalid"]);
}

#[test]
fn messages_are_measured_in_bytes() {
    let lengths: Vec<usize> = all_shapes().iter().map(|log| log.message_len()).collect();
    assert_eq!(lengths, [3, 2, 5, 0, 5, 4, 0]);
}

#[test]
fn only_journal_and_stdout_name_a_unit() {
    let shapes = all_shapes();
    let units: Vec<Option<&str>> = shapes.iter().map(|log| log.unit()).collect();
    assert_eq!(
        units,
        [Some("j.service"), None, Some("s.service"), None, None, None, None]
    );
}

#[test]
fn every_shape_has_a_priority_and_a_time() {
    let shapes = all_shapes();
    let priorities: Vec<u8> = shapes.iter().map(|log| log.priority()).collect();
    assert_eq!(priorities, [1, 2, 3, 4, 5, 6, 7]);
    let times: Vec<Timestamp> = shapes.iter().map(|log| log.realtime()).collect();
    assert_eq!(times, [at(1), at(2), at(3), at(4), at(5), at(6), at(7)]);
    assert_eq!(at(7), Timestamp { secs: 0, nanos: 7000 });
}

#[test]
fn a_range_of_time_is_open_at_either_end() {
    let range = DateTimeRange { from: Some(at(0)), untile: None };
    assert_eq!(range.from, Some(Timestamp { secs: 0, nanos: 0 }));
    assert_eq!(range.untile, None);
}
