use aw_client::{
    Event, FilterError, JsonValue, MissingKey, ValuePattern, filter_keyvals, filter_keyvals_regex,
    filter_keyvals_with,
};

/// 2000-01-01T00:00:00Z in nanoseconds since the Unix epoch.
const Y2K_NANOS: i64 = 946_684_800_000_000_000;
const ONE_SECOND: i64 = 1_000_000_000;

fn event(data: Vec<(&str, JsonValue)>) -> Event {
    Event::new(
        Y2K_NANOS,
        ONE_SECOND,
        data.into_iter().map(|(k, v)| (k.to_string(), v)).collect(),
    )
}

fn text(s: &str) -> JsonValue {
    JsonValue::Str(s.to_string())
}

#[test]
fn test_filter_keyvals() {
    let e1 = event(vec![("test", JsonValue::PosInt(1))]);
    let e2 = event(vec![("test", JsonValue::PosInt(1)), ("test2", JsonValue::PosInt(1))]);
    let e3 = event(vec![("test2", JsonValue::PosInt(2))]);
    let events = vec![
        event(vec![("test", JsonValue::PosInt(1))]),
        event(vec![("test", JsonValue::PosInt(1)), ("test2", JsonValue::PosInt(1))]),
        e3,
    ];
    let res = filter_keyvals(events, "test", &vec![JsonValue::PosInt(1)]);
    assert_eq!(vec![e1, e2], res);
}

fn regex_events() -> Vec<Event> {
    vec![
        event(vec![("key1", text("value1"))]),
        event(vec![("key1", text("value2"))]),
        event(vec![("key2", text("value3"))]),
    ]
}

#[test]
fn test_filter_keyvals_regex() {
    let e1 = event(vec![("key1", text("value1"))]);
    let e2 = event(vec![("key1", text("value2"))]);
    let e3 = event(vec![("key2", text("value3"))]);

    let regex_value = ValuePattern::new("value").unwrap();
    let regex_value1 = ValuePattern::new("value1").unwrap();

    let res = filter_keyvals_regex(regex_events(), "key1", &regex_value).unwrap();
    assert_eq!(vec![e1, e2], res);
    let res = filter_keyvals_regex(regex_events(), "key1", &regex_value1).unwrap();
    assert_eq!(vec![event(vec![("key1", text("value1"))])], res);
    let res = filter_keyvals_regex(regex_events(), "key2", &regex_value).unwrap();
    assert_eq!(vec![e3], res);
    let res = filter_keyvals_regex(regex_events(), "key2", &regex_value1).unwrap();
    assert_eq!(0, res.len());
    let res = filter_keyvals_regex(regex_events(), "key3", &regex_value).unwrap();
    assert_eq!(0, res.len());
}

#[test]
fn value_filter_halts_at_first_missing_key() {
    let events = vec![
        event(vec![("k", JsonValue::PosInt(1))]),
        event(vec![("other", JsonValue::PosInt(1))]),
        event(vec![("k", JsonValue::PosInt(1))]),
    ];
    let res = filter_keyvals(events, "k", &[JsonValue::PosInt(1)]);
    assert_eq!(vec![event(vec![("k", JsonValue::PosInt(1))])], res);
}

#[test]
fn value_filter_skip_keeps_later_matches() {
    let events = vec![
        event(vec![("k", JsonValue::PosInt(1))]),
        event(vec![("other", JsonValue::PosInt(1))]),
        event(vec![("k", JsonValue::PosInt(2))]),
        event(vec![("k", JsonValue::PosInt(1)), ("z", JsonValue::Null)]),
    ];
    let res = filter_keyvals_with(events, "k", &[JsonValue::PosInt(1)], MissingKey::Skip);
    assert_eq!(
        vec![
            event(vec![("k", JsonValue::PosInt(1))]),
            event(vec![("k", JsonValue::PosInt(1)), ("z", JsonValue::Null)]),
        ],
        res
    );
}

#[test]
fn value_filter_single_candidate_keeps_equal_values_in_order() {
    let events = vec![
        event(vec![("app", text("a"))]),
        event(vec![("app", text("b"))]),
        event(vec![("app", text("a")), ("title", text("x"))]),
    ];
    let res = filter_keyvals_with(events, "app", &[text("a")], MissingKey::Skip);
    assert_eq!(
        vec![event(vec![("app", text("a"))]), event(vec![("app", text("a")), ("title", text("x"))])],
        res
    );
}

#[test]
fn value_filter_matches_any_candidate() {
    let events = vec![
        event(vec![("n", JsonValue::PosInt(1))]),
        event(vec![("n", JsonValue::NegInt(-2))]),
        event(vec![("n", JsonValue::PosInt(3))]),
    ];
    let res = filter_keyvals(events, "n", &[JsonValue::NegInt(-2), JsonValue::PosInt(3)]);
    assert_eq!(
        vec![event(vec![("n", JsonValue::NegInt(-2))]), event(vec![("n", JsonValue::PosInt(3))])],
        res
    );
}

#[test]
fn value_filter_deep_equality() {
    let nested = || {
        JsonValue::Object(vec![(
            "list".to_string(),
            JsonValue::Array(vec![JsonValue::Bool(true), JsonValue::Float(0)]),
        )])
    };
    let negative_zero = JsonValue::Object(vec![(
        "list".to_string(),
        JsonValue::Array(vec![JsonValue::Bool(true), JsonValue::Float(0x8000_0000_0000_0000)]),
    )]);
    let events = vec![event(vec![("v", nested())]), event(vec![("v", JsonValue::Array(vec![]))])];
    let res = filter_keyvals(events, "v", &[negative_zero]);
    assert_eq!(vec![event(vec![("v", nested())])], res);
}

#[test]
fn value_filter_int_and_float_differ() {
    let one_float = JsonValue::Float(1.0f64.to_bits());
    let events = vec![event(vec![("v", JsonValue::PosInt(1))])];
    let res = filter_keyvals(events, "v", &[one_float]);
    assert!(res.is_empty());
}

#[test]
fn value_filter_empty_inputs() {
    assert!(filter_keyvals(vec![], "k", &[JsonValue::Null]).is_empty());
    let res = filter_keyvals(vec![event(vec![("k", JsonValue::Null)])], "k", &[]);
    assert!(res.is_empty());
}

#[test]
fn regex_filter_skips_missing_key_and_continues() {
    let events = vec![
        event(vec![("other", text("abc"))]),
        event(vec![("k", text("xabcx"))]),
    ];
    let pattern = ValuePattern::new("abc").unwrap();
    let res = filter_keyvals_regex(events, "k", &pattern).unwrap();
    assert_eq!(vec![event(vec![("k", text("xabcx"))])], res);
}

#[test]
fn regex_filter_non_string_value_is_an_error() {
    let events = vec![
        event(vec![("k", text("abc"))]),
        event(vec![("k", JsonValue::PosInt(5))]),
    ];
    let pattern = ValuePattern::new("abc").unwrap();
    assert_eq!(Err(FilterError::NotAString), filter_keyvals_regex(events, "k", &pattern));
}

#[test]
fn regex_filter_uses_regular_expressions() {
    let events = vec![
        event(vec![("title", text("main.rs - editor"))]),
        event(vec![("title", text("inbox"))]),
    ];
    let pattern = ValuePattern::new(r"^\w+\.rs").unwrap();
    let res = filter_keyvals_regex(events, "title", &pattern).unwrap();
    assert_eq!(vec![event(vec![("title", text("main.rs - editor"))])], res);
}

#[test]
fn pattern_compile_errors_and_source() {
    assert!(ValuePattern::new("foo(bar").is_err());
    let p = ValuePattern::new("a+b").unwrap();
    assert_eq!("a+b", p.as_str());
    assert!(p.is_match("xxaaab"));
    assert!(!p.is_match("a+b"));
}

#[test]
fn event_get_finds_first_entry() {
    let e = event(vec![("a", JsonValue::PosInt(1)), ("b", text("x"))]);
    assert_eq!(Some(&text("x")), e.get(&"b".to_string()));
    assert_eq!(None, e.get(&"c".to_string()));
}

#[test]
fn objects_compare_as_maps() {
    let ab = JsonValue::Object(vec![
        ("a".to_string(), JsonValue::PosInt(1)),
        ("b".to_string(), JsonValue::PosInt(2)),
    ]);
    let ba = JsonValue::Object(vec![
        ("b".to_string(), JsonValue::PosInt(2)),
        ("a".to_string(), JsonValue::PosInt(1)),
    ]);
    let a_only = JsonValue::Object(vec![("a".to_string(), JsonValue::PosInt(1))]);
    assert_eq!(ab, ba);
    assert_ne!(ab, a_only);
    assert_ne!(a_only, ab);
    let events = vec![event(vec![("v", ba)]), event(vec![("v", a_only)])];
    let res = filter_keyvals(events, "v", &[ab]);
    assert_eq!(1, res.len());
}

#[test]
fn event_payload_order_does_not_matter() {
    let e1 = event(vec![("x", JsonValue::Null), ("y", JsonValue::Bool(true))]);
    let e2 = event(vec![("y", JsonValue::Bool(true)), ("x", JsonValue::Null)]);
    assert_eq!(e1, e2);
    assert_ne!(e1, event(vec![("x", JsonValue::Null)]));
}
