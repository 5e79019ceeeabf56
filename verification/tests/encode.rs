use log_stat::json::{find, read_members};
use log_stat::{classify::classify_members, deserialize_fallback, Journal, Kernel, Log, Stdout, Timestamp};

fn text_of(members: &[(String, Option<String>)]) -> String {
    let mut object = serde_json::Map::new();
    for (key, text) in members {
        let value = match text {
            Some(text) => serde_json::Value::String(text.clone()),
            None => serde_json::Value::Null,
        };
        object.insert(key.clone(), value);
    }
    serde_json::to_string(&object).unwrap()
}

fn lines() -> Vec<&'static str> {
    vec![
        r#"{"_TRANSPORT":"journal","_PID":"1","PRIORITY":"6","_SYSTEMD_UNIT":"docker.service","MESSAGE":"Started","__REALTIME_TIMESTAMP":"1491389822667666","__MONOTONIC_TIMESTAMP":"71669967"}"#,
        r#"{"_TRANSPORT":"journal","_PID":"+00065535","MESSAGE":"","__REALTIME_TIMESTAMP":"-1","__MONOTONIC_TIMESTAMP":"0"}"#,
        r#"{"_TRANSPORT":"kernel","PRIORITY":"0","MESSAGE":"a \"b\" \\ \n é 😀","__REALTIME_TIMESTAMP":"0","__MONOTONIC_TIMESTAMP":"18446744073709551615"}"#,
        r#"{"_TRANSPORT":"stdout","PRIORITY":"7","SYSLOG_IDENTIFIER":"app","MESSAGE":"out","__REALTIME_TIMESTAMP":"1","__MONOTONIC_TIMESTAMP":"2"}"#,
        r#"{"_TRANSPORT":"audit","PRIORITY":"none","MESSAGE":"audit","__REALTIME_TIMESTAMP":"1000000","__MONOTONIC_TIMESTAMP":"2"}"#,
        r#"{"_TRANSPORT":"syslog","PRIORITY":"255","SYSLOG_IDENTIFIER":"","MESSAGE":"s","__REALTIME_TIMESTAMP":"999999","__MONOTONIC_TIMESTAMP":"2"}"#,
        r#"{"_TRANSPORT":"driver","PRIORITY":"1","_SYSTEMD_UNIT":"ignored","MESSAGE":"d","__REALTIME_TIMESTAMP":"-2208936075000001","__MONOTONIC_TIMESTAMP":"2"}"#,
    ]
}

#[test]
fn a_record_written_and_read_again_is_the_same() {
    for line in lines() {
        let first = deserialize_fallback(line).unwrap();
        assert!(!matches!(first, Log::Invalid(_)), "{:?}", first);
        let written = text_of(&first.to_members());
        let second = deserialize_fallback(&written).unwrap();
        assert_eq!(first, second, "{}", written);
        assert_eq!(classify_members(&first.to_members()).unwrap(), first);
    }
}

#[test]
fn an_invalid_record_keeps_all_but_its_error() {
    let line = r#"{"_TRANSPORT":"journal","_PID":"many","PRIORITY":"4","SYSLOG_IDENTIFIER":"x","__REALTIME_TIMESTAMP":"12","__MONOTONIC_TIMESTAMP":"13"}"#;
    let first = match deserialize_fallback(line).unwrap() {
        Log::Invalid(r) => r,
        other => panic!("{:?}", other),
    };
    assert_eq!(first.error, "not a number: field _PID");
    let written = text_of(&Log::Invalid(first.clone()).to_members());
    let second = match deserialize_fallback(&written).unwrap() {
        Log::Invalid(r) => r,
        other => panic!("{:?}", other),
    };
    assert_eq!(second.error, "missing field _TRANSPORT");
    assert_eq!(second.identifier, first.identifier);
    assert_eq!(second.priority, first.priority);
    assert_eq!(second.realtime_timestamp, first.realtime_timestamp);
    assert_eq!(second.monotonic_timestamp, first.monotonic_timestamp);
}

#[test]
fn records_are_written_member_by_member() {
    let journal = Log::Journal(Journal {
        pid: 4321,
        priority: 5,
        systemd_unit: "a.service".to_string(),
        message: "hello".to_string(),
        realtime_timestamp: Timestamp { secs: -1, nanos: 999_999_000 },
        monotonic_timestamp: 9,
    });
    let members = journal.to_members();
    let text = |key: &str| find(&members, key).cloned().flatten();
    assert_eq!(members.len(), 7);
    let keys: Vec<&str> = members.iter().map(|(key, _)| key.as_str()).collect();
    assert_eq!(
        keys,
        [
            "_TRANSPORT",
            "_PID",
            "PRIORITY",
            "_SYSTEMD_UNIT",
            "MESSAGE",
            "__REALTIME_TIMESTAMP",
            "__MONOTONIC_TIMESTAMP"
        ]
    );
    assert_eq!(text("_TRANSPORT").as_deref(), Some("journal"));
    assert_eq!(text("_PID").as_deref(), Some("4321"));
    assert_eq!(text("PRIORITY").as_deref(), Some("5"));
    assert_eq!(text("_SYSTEMD_UNIT").as_deref(), Some("a.service"));
    assert_eq!(text("MESSAGE").as_deref(), Some("hello"));
    assert_eq!(text("__REALTIME_TIMESTAMP").as_deref(), Some("-1"));
    assert_eq!(text("__MONOTONIC_TIMESTAMP").as_deref(), Some("9"));
    assert_eq!(find(&members, "SYSLOG_IDENTIFIER"), None);

    let kernel = Log::Kernel(Kernel {
        identifier: "kernel".to_string(),
        priority: 0,
        message: "m".to_string(),
        realtime_timestamp: Timestamp::from_micros(1491389822667666),
        monotonic_timestamp: 71669967,
    });
    let members = kernel.to_members();
    let text = |key: &str| find(&members, key).cloned().flatten();
    assert_eq!(members.len(), 6);
    assert_eq!(text("_TRANSPORT").as_deref(), Some("kernel"));
    assert_eq!(text("SYSLOG_IDENTIFIER").as_deref(), Some("kernel"));
    assert_eq!(text("__REALTIME_TIMESTAMP").as_deref(), Some("1491389822667666"));

    let stdout = Log::Stdout(Stdout {
        identifier: "i".to_string(),
        systemd_unit: "u".to_string(),
        priority: 255,
        message: "".to_string(),
        realtime_timestamp: Timestamp::from_micros(0),
        monotonic_timestamp: 0,
    });
    assert_eq!(stdout.to_members().len(), 7);
    assert_eq!(classify_members(&stdout.to_members()).unwrap(), stdout);
}

#[test]
fn members_are_read_from_a_line() {
    let members = read_members(r#"{"b":"2","a":null,"c":{"d":"e"},"e":"","f":[1],"g":true,"h":1.5}"#).unwrap();
    assert_eq!(members.len(), 7);
    assert_eq!(find(&members, "b"), Some(&Some("2".to_string())));
    assert_eq!(find(&members, "a"), Some(&None));
    assert_eq!(find(&members, "c"), Some(&None));
    assert_eq!(find(&members, "e"), Some(&Some(String::new())));
    assert_eq!(find(&members, "f"), Some(&None));
    assert_eq!(find(&members, "g"), Some(&None));
    assert_eq!(find(&members, "h"), Some(&None));
    assert_eq!(find(&members, "d"), None);
    assert_eq!(find(&members, "B"), None);
    assert!(read_members("[]").is_err());
    assert!(!read_members("{\"a\"").unwrap_err().detail.is_empty());
    let twice = read_members(r#"{"k":"first","k":"second"}"#).unwrap();
    assert_eq!(twice.len(), 1);
}

#[test]
fn timestamps_go_back_to_microseconds() {
    for micros in [0i64, 1, -1, 999_999, 1_000_000, -1_000_000, 1491389822667666, i64::MAX, i64::MIN] {
        let t = Timestamp::from_micros(micros);
        assert!(t.nanos < 1_000_000_000);
        assert_eq!(t.nanos % 1000, 0);
        assert_eq!(t.to_micros(), micros);
        assert_eq!(
            t.secs as i128 * 1_000_000_000 + t.nanos as i128,
            micros as i128 * 1000
        );
    }
}
