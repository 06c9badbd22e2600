use serde_json::Value;
use xi_trace::chrome_trace::{
    join_categories, push_decimal, serialize, serialize_to_string, write_event, OutputFormat, Phase,
};
use xi_trace::sample::{Sample, SampleType};
use xi_trace::trace::{Config, Trace};

fn decode(bytes: &[u8]) -> Vec<Value> {
    serde_json::from_slice(bytes).unwrap()
}

fn payload_value(p: &Option<String>) -> Value {
    match p {
        Some(s) => Value::String(s.clone()),
        None => Value::Null,
    }
}

#[test]
fn test_chrome_trace_serialization() {
    let mut trace = Trace::enabled(Config::with_limit_count(10));
    trace.instant("sample1", &["test", "chrome"]);
    trace.instant_payload("sample2", &["test", "chrome"], "payload 2");
    trace.instant_payload("sample3", &["test", "chrome"], "payload 3");
    trace.closure_payload("sample4", &["test", "chrome"], || (), "payload 4");

    let samples = trace.samples_cloned_unsorted();

    let mut serialized = Vec::<u8>::new();
    let result = serialize(&samples, OutputFormat::JsonArray, &mut serialized);
    assert!(result.is_ok());

    let decoded_result: Vec<Value> = decode(&serialized);
    assert_eq!(decoded_result.len(), 5);
    for i in 0..3 {
        assert_eq!(decoded_result[i]["name"].as_str().unwrap(), samples[i].name);
        assert_eq!(decoded_result[i]["cat"].as_str().unwrap(), "test,chrome");
        assert_eq!(decoded_result[i]["ph"].as_str().unwrap(), "i");
        assert_eq!(decoded_result[i]["ts"], samples[i].start_ns / 1000);
        assert_eq!(decoded_result[i]["args"]["payload"], payload_value(&samples[i].payload));
    }
    assert_eq!(decoded_result[3]["ph"], "B");
    assert_eq!(decoded_result[4]["ph"], "E");
}

#[test]
fn instant_exports_one_event_with_truncated_ts() {
    let samples = vec![Sample::new_instant("tick", &["x"], 1_999_999, None)];
    let mut out = Vec::new();
    serialize(&samples, OutputFormat::JsonArray, &mut out).unwrap();
    let events = decode(&out);
    assert_eq!(events.len(), 1);
    assert_eq!(events[0]["ph"], "i");
    assert_eq!(events[0]["ts"], 1999u64);
    assert_eq!(events[0]["name"], "tick");
    assert_eq!(events[0]["cat"], "x");
    assert!(events[0].get("args").is_none());
}

#[test]
fn duration_exports_begin_then_end() {
    let mut s = Sample::new("span", &["a", "b"], SampleType::Duration, 5_000, Some("p"));
    s.set_end_ns(12_345);
    let mut out = Vec::new();
    serialize(&vec![s], OutputFormat::JsonArray, &mut out).unwrap();
    let events = decode(&out);
    assert_eq!(events.len(), 2);
    assert_eq!(events[0]["ph"], "B");
    assert_eq!(events[1]["ph"], "E");
    assert_eq!(events[0]["name"], "span");
    assert_eq!(events[1]["name"], "span");
    assert_eq!(events[0]["cat"], "a,b");
    assert_eq!(events[1]["cat"], "a,b");
    assert_eq!(events[0]["ts"], 5u64);
    assert_eq!(events[1]["ts"], 12u64);
    assert_eq!(events[0]["args"]["payload"], "p");
}

#[test]
fn categories_join_in_order() {
    let cats = vec!["x".to_string(), "y".to_string()];
    assert_eq!(join_categories(&cats), "x,y");
    let rev = vec!["y".to_string(), "x".to_string()];
    assert_eq!(join_categories(&rev), "y,x");
    assert_eq!(join_categories(&vec![]), "");
    let samples = vec![Sample::new_instant("n", &["x", "y"], 0, None)];
    let text = serialize_to_string(&samples, OutputFormat::JsonArray).unwrap();
    assert_eq!(text, "[{\"name\":\"n\",\"cat\":\"x,y\",\"ph\":\"i\",\"ts\":0}]");
}

#[test]
fn store_with_instant_and_duration_exports_three_events() {
    let mut d = Sample::new("d", &["c"], SampleType::Duration, 3_000, None);
    d.set_end_ns(7_000);
    let samples = vec![Sample::new_instant("i", &["c"], 1_000, Some("pl")), d];
    let text = serialize_to_string(&samples, OutputFormat::JsonArray).unwrap();
    assert_eq!(
        text,
        "[{\"name\":\"i\",\"cat\":\"c\",\"ph\":\"i\",\"ts\":1,\"args\":{\"payload\":\"pl\"}},\
         {\"name\":\"d\",\"cat\":\"c\",\"ph\":\"B\",\"ts\":3},\
         {\"name\":\"d\",\"cat\":\"c\",\"ph\":\"E\",\"ts\":7}]"
    );
    let events = decode(text.as_bytes());
    assert_eq!(events.len(), 3);
}

#[test]
fn block_spanning_a_wait_has_positive_length() {
    let mut trace = Trace::enabled(Config::with_limit_count(10));
    let guard = trace.block("work", &["cat"]);
    let started = std::time::Instant::now();
    while started.elapsed().as_micros() < 2_000 {}
    trace.end_block(guard);
    let samples = trace.samples_cloned_unsorted();
    let mut out = Vec::new();
    serialize(&samples, OutputFormat::JsonArray, &mut out).unwrap();
    let events = decode(&out);
    assert_eq!(events.len(), 2);
    assert_eq!(events[0]["name"], "work");
    assert_eq!(events[1]["name"], "work");
    let b = events[0]["ts"].as_u64().unwrap();
    let e = events[1]["ts"].as_u64().unwrap();
    assert!(e - b > 0);
}

#[test]
fn object_envelope_wraps_the_array() {
    let samples = vec![Sample::new_instant("n", &[], 42_000, None)];
    let text = serialize_to_string(&samples, OutputFormat::JsonObject).unwrap();
    assert_eq!(text, "{\"traceEvents\":[{\"name\":\"n\",\"cat\":\"\",\"ph\":\"i\",\"ts\":42}]}");
    let v: Value = serde_json::from_str(&text).unwrap();
    assert_eq!(v["traceEvents"].as_array().unwrap().len(), 1);
}

#[test]
fn empty_export_is_an_empty_array() {
    assert_eq!(serialize_to_string(&vec![], OutputFormat::JsonArray).unwrap(), "[]");
}

#[test]
fn strings_are_escaped() {
    let samples = vec![Sample::new_instant("a\"b\\c", &["t\nu"], 0, Some("q\""))];
    let text = serialize_to_string(&samples, OutputFormat::JsonArray).unwrap();
    assert_eq!(
        text,
        "[{\"name\":\"a\\\"b\\\\c\",\"cat\":\"t\\nu\",\"ph\":\"i\",\"ts\":0,\"args\":{\"payload\":\"q\\\"\"}}]"
    );
    let events = decode(text.as_bytes());
    assert_eq!(events[0]["name"], "a\"b\\c");
    assert_eq!(events[0]["cat"], "t\nu");
}

#[test]
fn serialize_appends_to_output() {
    let mut out = b"xy".to_vec();
    serialize(&vec![], OutputFormat::JsonArray, &mut out).unwrap();
    assert_eq!(out, b"xy[]".to_vec());
}

#[test]
fn decimal_digits() {
    let mut s = String::new();
    push_decimal(&mut s, 0);
    assert_eq!(s, "0");
    let mut s = String::from("ts=");
    push_decimal(&mut s, 1234567890);
    assert_eq!(s, "ts=1234567890");
    let mut s = String::new();
    push_decimal(&mut s, u64::MAX);
    assert_eq!(s, "18446744073709551615");
}

#[test]
fn event_from_quoted_parts() {
    let mut s = String::new();
    write_event(&mut s, "\"n\"", "\"c\"", Phase::End, 10, Some("\"p\""));
    assert_eq!(s, "{\"name\":\"n\",\"cat\":\"c\",\"ph\":\"E\",\"ts\":10,\"args\":{\"payload\":\"p\"}}");
    let mut s = String::new();
    write_event(&mut s, "\"n\"", "\"\"", Phase::Begin, 0, None);
    assert_eq!(s, "{\"name\":\"n\",\"cat\":\"\",\"ph\":\"B\",\"ts\":0}");
}
