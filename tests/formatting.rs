use bunyan::extras::{format_extras, value_text, JsonField, JsonKind};
use bunyan::level::{format_level, level_token};
use bunyan::record::{deserialize, DecodeError, LogRecord, MAX_MILLIS, MIN_MILLIS};
use bunyan::text::indent;

const SIMPLE: &str = r#"{"v":0,"level":30,"name":"myservice","hostname":"example.com","pid":123,"time":"2012-02-08T22:56:52.856Z","msg":"My message"}"#;

fn with_extra(extra: &str) -> String {
    format!(
        r#"{{"level":30,"name":"svc","hostname":"h","pid":1,"time":"2012-02-08T22:56:52.856Z","msg":"m",{}}}"#,
        extra
    )
}

fn extras_of(extra: &str) -> String {
    let rec = LogRecord::decode(&with_extra(extra)).unwrap();
    format_extras(&rec.extras, false)
}

fn text(s: &str) -> JsonField {
    JsonField { kind: JsonKind::Text(s.to_string()), pretty: format!("{:?}", s) }
}

#[test]
fn simple_log() {
    let rec = LogRecord::decode(SIMPLE).unwrap();
    assert_eq!(
        rec.format_utc(false),
        "[2012-02-08T22:56:52.856Z]  INFO: myservice/123 on example.com: My message\n"
    );
}

#[test]
fn simple_log_with_color() {
    colored::control::set_override(true);
    let rec = LogRecord::decode(SIMPLE).unwrap();
    assert_eq!(
        rec.format_utc(true),
        "[2012-02-08T22:56:52.856Z] \u{001b}[32m INFO\u{001b}[0m: myservice/123 on example.com: \u{001b}[36mMy message\u{001b}[0m\n"
    );
}

#[test]
fn render_takes_given_time_text() {
    let rec = LogRecord::decode(SIMPLE).unwrap();
    assert_eq!(
        rec.render("T", false),
        "[T]  INFO: myservice/123 on example.com: My message\n"
    );
}

#[test]
fn local_format_keeps_layout() {
    let rec = LogRecord::decode(SIMPLE).unwrap();
    let out = rec.format(false);
    assert!(out.starts_with("[2012-02-0"));
    assert!(out.ends_with("]  INFO: myservice/123 on example.com: My message\n"));
}

#[test]
fn integer_millis_timestamp() {
    let line = r#"{"level":30,"time":1328741812856,"msg":"x"}"#;
    let rec = LogRecord::decode(line).unwrap();
    assert_eq!(rec.time, 1328741812856);
    assert_eq!(rec.format_utc(false), "[2012-02-08T22:56:52.856Z]  INFO: 0: x\n");
}

#[test]
fn millisecond_precision_round_trip() {
    for ms in [0i64, 1, 999, 1_000, 1_328_741_812_856, -1, -1_500] {
        let line = format!(r#"{{"level":30,"time":{},"msg":"x"}}"#, ms);
        let rec = LogRecord::decode(&line).unwrap();
        let out = rec.format_utc(false);
        let stamp = &out[1..out.find(']').unwrap()];
        let back = format!(r#"{{"level":30,"time":"{}","msg":"x"}}"#, stamp);
        assert_eq!(LogRecord::decode(&back).unwrap().time, ms);
    }
}

#[test]
fn offset_timestamp_converted_to_utc() {
    let line = r#"{"level":30,"time":"2012-02-09T00:56:52.856+02:00","msg":"x"}"#;
    let rec = LogRecord::decode(line).unwrap();
    assert_eq!(rec.time, 1328741812856);
}

#[test]
fn format_level_known_labels() {
    assert_eq!(level_token(60, false), "FATAL");
    assert_eq!(level_token(50, false), "ERROR");
    assert_eq!(level_token(40, false), " WARN");
    assert_eq!(level_token(30, false), " INFO");
    assert_eq!(level_token(20, false), "DEBUG");
    assert_eq!(level_token(10, false), "TRACE");
}

#[test]
fn format_level_colored() {
    colored::control::set_override(true);
    assert_eq!(format_level(50), "\u{1b}[31mERROR\u{1b}[0m");
    assert_eq!(format_level(60), "\u{1b}[7mFATAL\u{1b}[0m");
    assert_eq!(format_level(40), "\u{1b}[33m WARN\u{1b}[0m");
    assert_eq!(format_level(30), "\u{1b}[32m INFO\u{1b}[0m");
    assert_eq!(format_level(20), "\u{1b}[34mDEBUG\u{1b}[0m");
    let trace = format_level(10);
    assert!(trace.starts_with("\u{1b}[") && trace.ends_with("mTRACE\u{1b}[0m"));
    assert_eq!(format_level(42), "LVL42");
}

#[test]
fn format_level_unknown() {
    assert_eq!(format_level(0), "LVL0");
    assert_eq!(format_level(42), "LVL42");
    assert_eq!(format_level(255), "LVL255");
}

#[test]
fn indent_lines() {
    assert_eq!(indent("a\nb"), "    a\n    b");
    assert_eq!(indent("a\r\nb\n"), "    a\n    b");
    assert_eq!(indent(""), "    ");
    assert_eq!(indent("x"), "    x");
    assert_eq!(indent("a\n\nb"), "    a\n    \n    b");
}

#[test]
fn inline_extra_count() {
    assert_eq!(extras_of(r#""count":5"#), " (count=5)\n");
}

#[test]
fn record_with_inline_extra() {
    let rec = LogRecord::decode(&with_extra(r#""count":5"#)).unwrap();
    assert_eq!(
        rec.format_utc(false),
        "[2012-02-08T22:56:52.856Z]  INFO: svc/1 on h: m (count=5)\n"
    );
}

#[test]
fn detail_extra_multiline() {
    assert_eq!(
        extras_of(r#""obj":{"a":1}"#),
        "\n    obj: {\n      \"a\": 1\n    }\n"
    );
}

#[test]
fn two_detail_blocks_separated() {
    let long_a = "a".repeat(51);
    let long_b = "b".repeat(51);
    let out = extras_of(&format!(r#""x":"{}","y":"{}""#, long_a, long_b));
    let x = format!("    x: {}", long_a);
    let y = format!("    y: {}", long_b);
    let either = [format!("\n{}\n    --\n{}\n", x, y), format!("\n{}\n    --\n{}\n", y, x)];
    assert!(either.contains(&out));
}

#[test]
fn inline_and_detail_together() {
    let out = extras_of(r#""n":1,"obj":[1,2],"s":"ok""#);
    assert_eq!(out, " (n=1,s=ok)\n    obj: [\n      1,\n      2\n    ]\n");
}

#[test]
fn fifty_characters_inline_fifty_one_detail() {
    let fifty = "a".repeat(50);
    assert_eq!(extras_of(&format!(r#""k":"{}""#, fifty)), format!(" (k={})\n", fifty));
    let fifty_one = "a".repeat(51);
    assert_eq!(extras_of(&format!(r#""k":"{}""#, fifty_one)), format!("\n    k: {}\n", fifty_one));
}

#[test]
fn long_spaced_string_detail_quoted() {
    let long = format!("{} {}", "a".repeat(30), "b".repeat(30));
    assert_eq!(extras_of(&format!(r#""k":"{}""#, long)), format!("\n    k: \"{}\"\n", long));
}

#[test]
fn quoting_of_strings() {
    assert_eq!(value_text(&text("")), "\"\"");
    assert_eq!(value_text(&text("a b")), "\"a b\"");
    assert_eq!(value_text(&text("ab")), "ab");
    assert_eq!(extras_of(r#""k":"""#), " (k=\"\")\n");
    assert_eq!(extras_of(r#""k":"two words""#), " (k=\"two words\")\n");
    assert_eq!(extras_of(r#""k":"word""#), " (k=word)\n");
}

#[test]
fn non_string_values_use_json_text() {
    assert_eq!(extras_of(r#""b":true"#), " (b=true)\n");
    assert_eq!(extras_of(r#""z":null"#), " (z=null)\n");
    assert_eq!(extras_of(r#""f":1.5"#), " (f=1.5)\n");
    assert_eq!(extras_of(r#""e":[]"#), " (e=[])\n");
}

#[test]
fn no_extras_gives_newline() {
    let rec = LogRecord::decode(SIMPLE).unwrap();
    assert!(rec.extras.is_empty());
    assert_eq!(format_extras(&rec.extras, false), "\n");
}

#[test]
fn bold_keys_with_color() {
    colored::control::set_override(true);
    let rec = LogRecord::decode(&with_extra(r#""count":5"#)).unwrap();
    assert_eq!(format_extras(&rec.extras, true), " (\u{1b}[1mcount\u{1b}[0m=5)\n");
}

#[test]
fn formatting_is_repeatable() {
    let rec = LogRecord::decode(&with_extra(r#""count":5,"obj":{"a":[1,2]}"#)).unwrap();
    assert_eq!(rec.format_utc(false), rec.format_utc(false));
    assert_eq!(rec.format(false), rec.format(false));
}

#[test]
fn origin_degrades_without_name_or_host() {
    let no_name = r#"{"level":30,"hostname":"h","pid":7,"time":0,"msg":"m"}"#;
    assert_eq!(
        LogRecord::decode(no_name).unwrap().format_utc(false),
        "[1970-01-01T00:00:00.000Z]  INFO: 7 on h: m\n"
    );
    let no_host = r#"{"level":40,"name":"n","time":0,"msg":"m"}"#;
    assert_eq!(
        LogRecord::decode(no_host).unwrap().format_utc(false),
        "[1970-01-01T00:00:00.000Z]  WARN: n/0: m\n"
    );
}

#[test]
fn unknown_level_renders_number() {
    let line = r#"{"level":35,"time":0,"msg":"m"}"#;
    assert_eq!(
        LogRecord::decode(line).unwrap().format_utc(true),
        "[1970-01-01T00:00:00.000Z] LVL35: 0: m\n"
    );
}

#[test]
fn reserved_keys_not_extras() {
    let rec = LogRecord::decode(SIMPLE).unwrap();
    assert_eq!(rec.v, Some(0));
    assert_eq!(rec.level, 30);
    assert_eq!(rec.name.as_deref(), Some("myservice"));
    assert_eq!(rec.hostname.as_deref(), Some("example.com"));
    assert_eq!(rec.pid, Some(123));
    assert_eq!(rec.message, "My message");
}

#[test]
fn malformed_json_rejected() {
    assert!(matches!(LogRecord::decode("not json"), Err(DecodeError::MalformedJson(_))));
    assert!(matches!(LogRecord::decode("[1,2]"), Err(DecodeError::MalformedJson(_))));
}

#[test]
fn missing_level_rejected() {
    let line = r#"{"time":0,"msg":"m"}"#;
    assert!(matches!(LogRecord::decode(line), Err(DecodeError::MissingOrInvalidLevel)));
    let big = r#"{"level":300,"time":0,"msg":"m"}"#;
    assert!(matches!(LogRecord::decode(big), Err(DecodeError::MissingOrInvalidLevel)));
}

#[test]
fn missing_or_bad_time_rejected() {
    let missing = r#"{"level":30,"msg":"m"}"#;
    assert!(matches!(LogRecord::decode(missing), Err(DecodeError::InvalidTimestamp)));
    let boolean = r#"{"level":30,"time":true,"msg":"m"}"#;
    assert!(matches!(LogRecord::decode(boolean), Err(DecodeError::InvalidTimestamp)));
    let garbled = r#"{"level":30,"time":"yesterday","msg":"m"}"#;
    assert!(matches!(LogRecord::decode(garbled), Err(DecodeError::InvalidTimestamp)));
    let huge = r#"{"level":30,"time":9223372036854775807,"msg":"m"}"#;
    assert!(matches!(LogRecord::decode(huge), Err(DecodeError::InvalidTimestamp)));
}

#[test]
fn missing_message_rejected() {
    let missing = r#"{"level":30,"time":0}"#;
    assert!(matches!(LogRecord::decode(missing), Err(DecodeError::MissingOrInvalidMessage)));
    let number = r#"{"level":30,"time":0,"msg":3}"#;
    assert!(matches!(LogRecord::decode(number), Err(DecodeError::MissingOrInvalidMessage)));
}

#[test]
fn wrong_typed_pid_rejected() {
    let line = r#"{"level":30,"time":0,"msg":"m","pid":"x"}"#;
    assert!(matches!(LogRecord::decode(line), Err(DecodeError::MalformedJson(_))));
}

#[test]
fn deserialize_time_values() {
    assert_eq!(deserialize(&text("1970-01-01T00:00:01.5Z")), Ok(1500));
    let n = JsonField { kind: JsonKind::Integer(42), pretty: "42".to_string() };
    assert_eq!(deserialize(&n), Ok(42));
    let b = JsonField { kind: JsonKind::Bool(true), pretty: "true".to_string() };
    assert_eq!(deserialize(&b), Err(DecodeError::InvalidTimestamp));
}

#[test]
fn representable_range_edges() {
    let at = |ms: i128| {
        let line = format!(r#"{{"level":30,"time":{},"msg":"m"}}"#, ms);
        LogRecord::decode(&line).map(|r| r.time)
    };
    assert_eq!(at(MIN_MILLIS as i128), Ok(MIN_MILLIS));
    assert_eq!(at(MAX_MILLIS as i128), Ok(MAX_MILLIS));
    assert_eq!(at(MIN_MILLIS as i128 - 1), Err(DecodeError::InvalidTimestamp));
    assert_eq!(at(MAX_MILLIS as i128 + 1), Err(DecodeError::InvalidTimestamp));
}

#[test]
fn local_format_at_range_edges() {
    let line = format!(r#"{{"level":30,"time":{},"msg":"m"}}"#, MAX_MILLIS);
    let rec = LogRecord::decode(&line).unwrap();
    assert!(rec.format(false).starts_with("[+262142-12-31T23:59:59.999Z]"));
    let far = format!(r#"{{"level":30,"time":{},"msg":"m"}}"#, 8_000_000_000_000_000i64);
    let out = LogRecord::decode(&far).unwrap().format(false);
    assert!(out.starts_with("[+25"));
}

#[test]
fn duplicate_keys_keep_one_field() {
    let line = r#"{"level":30,"time":0,"msg":"m","k":1,"k":2}"#;
    let rec = LogRecord::decode(line).unwrap();
    assert_eq!(rec.extras.len(), 1);
}
