use xi_trace::ffi::{
    c_from_categories, c_from_str, xi_trace, xi_trace_block_begin, xi_trace_block_end, xi_trace_disable,
    xi_trace_enable, xi_trace_is_enabled, ConversionError, TraceInputError,
};
use xi_trace::trace::Trace;

#[test]
fn null_name_records_nothing() {
    let mut trace = Trace::disabled();
    xi_trace_enable(&mut trace);
    let cats: [&[u8]; 1] = [b"ffi"];
    let r = xi_trace(&mut trace, None, Some(&cats));
    assert_eq!(r, Err(TraceInputError { name: Some(ConversionError::NullPointer), categories: None }));
    let r = xi_trace_block_begin(&trace, None, Some(&cats));
    assert!(matches!(r, Err(_)));
    assert_eq!(trace.samples_cloned_unsorted().len(), 0);
}

#[test]
fn null_handle_end_is_a_no_op() {
    let mut trace = Trace::disabled();
    xi_trace_enable(&mut trace);
    xi_trace_block_end(&mut trace, None);
    assert_eq!(trace.samples_cloned_unsorted().len(), 0);
}

#[test]
fn invalid_utf8_is_reported() {
    let mut trace = Trace::disabled();
    xi_trace_enable(&mut trace);
    let bad: &[u8] = &[0xff, 0xfe];
    let cats: [&[u8]; 2] = [b"ok", bad];
    let r = xi_trace(&mut trace, Some(bad), Some(&cats));
    assert_eq!(
        r,
        Err(TraceInputError { name: Some(ConversionError::Encoding), categories: Some(ConversionError::Encoding) })
    );
    let r = xi_trace(&mut trace, Some(b"n"), None);
    assert_eq!(r, Err(TraceInputError { name: None, categories: Some(ConversionError::NullPointer) }));
    assert_eq!(trace.samples_cloned_unsorted().len(), 0);
}

#[test]
fn valid_call_records_instant() {
    let mut trace = Trace::disabled();
    xi_trace_enable(&mut trace);
    assert!(xi_trace_is_enabled(&trace));
    let cats: [&[u8]; 2] = [b"ffi", "rpc\u{e9}".as_bytes()];
    assert_eq!(xi_trace(&mut trace, Some(b"something"), Some(&cats)), Ok(()));
    let samples = trace.samples_cloned_unsorted();
    assert_eq!(samples.len(), 1);
    assert_eq!(samples[0].name, "something");
    assert_eq!(samples[0].categories, vec!["ffi".to_string(), "rpc\u{e9}".to_string()]);
}

#[test]
fn block_begin_and_end_commit_duration() {
    let mut trace = Trace::disabled();
    assert!(matches!(xi_trace_block_begin(&trace, Some(b"b"), Some(&[])), Ok(None)));
    xi_trace_enable(&mut trace);
    let g = xi_trace_block_begin(&trace, Some(b"b"), Some(&[])).unwrap();
    assert!(g.is_some());
    xi_trace_block_end(&mut trace, g);
    let samples = trace.samples_cloned_unsorted();
    assert_eq!(samples.len(), 1);
    assert_eq!(samples[0].name, "b");
    assert!(samples[0].end_ns.is_some());
    xi_trace_disable(&mut trace);
    assert!(!xi_trace_is_enabled(&trace));
    assert_eq!(trace.samples_cloned_unsorted().len(), 0);
}

#[test]
fn disabled_adapter_ignores_calls() {
    let mut trace = Trace::disabled();
    assert_eq!(xi_trace(&mut trace, None, None), Ok(()));
    assert_eq!(trace.samples_cloned_unsorted().len(), 0);
}

#[test]
fn buffer_conversions() {
    assert_eq!(c_from_str(None), Err(ConversionError::NullPointer));
    assert_eq!(c_from_str(Some(&[0xc0, 0x80])), Err(ConversionError::Encoding));
    assert_eq!(c_from_str(Some("h\u{e9}".as_bytes())), Ok("h\u{e9}".to_string()));
    assert_eq!(c_from_categories(None), Err(ConversionError::NullPointer));
    let cats: [&[u8]; 2] = [b"a", b"b"];
    assert_eq!(c_from_categories(Some(&cats)), Ok(vec!["a".to_string(), "b".to_string()]));
    let bad: [&[u8]; 1] = [&[0xed, 0xa0, 0x80]];
    assert_eq!(c_from_categories(Some(&bad)), Err(ConversionError::Encoding));
}
