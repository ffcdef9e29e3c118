use lqos_queue_core::discipline::{decode_batch, QueueDiscipline};
use lqos_queue_core::fq_codel::{DecodeError, TcFqCodel, TcFqCodelOptions};
use lqos_queue_core::tc_handle::TcHandle;
use lqos_queue_core::wire::{WireMap, WireScalar, WireValue};

fn text(s: &str) -> WireValue {
    WireValue::Text(s.to_string())
}

fn field(k: &str, v: WireValue) -> (String, WireValue) {
    (k.to_string(), v)
}

fn opt(k: &str, v: WireScalar) -> (String, WireScalar) {
    (k.to_string(), v)
}

fn example_options() -> Vec<(String, WireScalar)> {
    vec![
        opt("limit", WireScalar::Unsigned(10240)),
        opt("flows", WireScalar::Unsigned(1024)),
        opt("quantum", WireScalar::Unsigned(1514)),
        opt("target", WireScalar::Unsigned(4999)),
        opt("interval", WireScalar::Unsigned(99999)),
        opt("memory_limit", WireScalar::Unsigned(33554432)),
        opt("ecn", WireScalar::Bool(true)),
        opt("drop_batch", WireScalar::Unsigned(64)),
    ]
}

fn example_entry() -> WireMap {
    vec![
        field("kind", text("fq_codel")),
        field("handle", text("0:")),
        field("parent", text("7fff:a")),
        field("bytes", WireValue::Unsigned(560)),
        field("packets", WireValue::Unsigned(8)),
        field("drops", WireValue::Unsigned(0)),
        field("overlimits", WireValue::Unsigned(0)),
        field("requeues", WireValue::Unsigned(0)),
        field("backlog", WireValue::Unsigned(0)),
        field("qlen", WireValue::Unsigned(0)),
        field("options", WireValue::Object(example_options())),
    ]
}

fn decode_codel(m: &WireMap) -> TcFqCodel {
    match QueueDiscipline::from_json(m) {
        Ok(QueueDiscipline::FqCodel(q)) => q,
        other => panic!("unexpected result {:?}", other),
    }
}

#[test]
fn handle_parses_pairs_and_none() {
    assert_eq!(TcHandle::from_string("7fff:a"), Some(TcHandle::Class { major: 0x7fff, minor: 0xa }));
    assert_eq!(TcHandle::from_string("0:"), Some(TcHandle::Class { major: 0, minor: 0 }));
    assert_eq!(TcHandle::from_string("FFFF:FFFF"), Some(TcHandle::Class { major: 0xffff, minor: 0xffff }));
    assert_eq!(TcHandle::from_string("none"), Some(TcHandle::Unspecified));
    assert!(TcHandle::from_string("none").unwrap().is_unspecified());
}

#[test]
fn handle_rejects_malformed_strings() {
    assert_eq!(TcHandle::from_string(""), None);
    assert_eq!(TcHandle::from_string("7fff"), None);
    assert_eq!(TcHandle::from_string(":1"), None);
    assert_eq!(TcHandle::from_string("10000:1"), None);
    assert_eq!(TcHandle::from_string("1:2:3"), None);
    assert_eq!(TcHandle::from_string("g:1"), None);
    assert_eq!(TcHandle::from_string("None"), None);
}

#[test]
fn example_entry_decodes() {
    let q = decode_codel(&example_entry());
    assert_eq!(q.handle, TcHandle::Class { major: 0, minor: 0 });
    assert_eq!(q.parent, TcHandle::Class { major: 0x7fff, minor: 0xa });
    assert_eq!(q.bytes, 560);
    assert_eq!(q.packets, 8);
    assert_eq!(q.drops, 0);
    assert_eq!(q.qlen, 0);
    assert_eq!(
        q.options,
        TcFqCodelOptions {
            limit: 10240,
            flows: 1024,
            quantum: 1514,
            target: 4999,
            interval: 99999,
            memory_limit: 33554432,
            ecn: true,
            drop_batch: 64,
        }
    );
}

#[test]
fn wide_counters_keep_their_low_bits() {
    let mut m = example_entry();
    m.push(field("packets", WireValue::Unsigned((1u64 << 32) + 5)));
    m.push(field("maxpacket", WireValue::Unsigned(0x1_0003)));
    m.push(field("bytes", WireValue::Unsigned(u64::MAX)));
    let q = decode_codel(&m);
    assert_eq!(q.packets, 5);
    assert_eq!(q.maxpacket, 3);
    assert_eq!(q.bytes, u64::MAX);
}

#[test]
fn target_and_interval_are_not_rescaled() {
    let mut o = example_options();
    o.push(opt("target", WireScalar::Unsigned(1u64 << 40)));
    let mut m = example_entry();
    m.push(field("options", WireValue::Object(o)));
    let q = decode_codel(&m);
    assert_eq!(q.options.target, 1u64 << 40);
    assert_eq!(q.options.interval, 99999);
}

#[test]
fn unknown_fields_change_nothing() {
    let plain = QueueDiscipline::from_json(&example_entry());
    let mut top = example_entry();
    top.insert(3, field("new_counter", WireValue::Unsigned(77)));
    top.push(field("ecn_mark_v2", WireValue::List));
    assert_eq!(QueueDiscipline::from_json(&top), plain);
    let mut o = example_options();
    o.insert(0, opt("ce_threshold", WireScalar::Text("1ms".to_string())));
    let mut nested = example_entry();
    nested.push(field("options", WireValue::Object(o)));
    assert_eq!(QueueDiscipline::from_json(&nested), plain);
}

#[test]
fn unknown_kind_falls_back_and_batch_continues() {
    let other: WireMap = vec![
        field("kind", text("cake")),
        field("handle", text("1:")),
        field("parent", text("none")),
        field("options", WireValue::Object(vec![opt("rtt", WireScalar::Unsigned(100))])),
    ];
    let broken: WireMap = vec![field("kind", text("fq_codel")), field("handle", text("zz")), field("parent", text("1:1"))];
    let results = decode_batch(&vec![other, example_entry(), broken]);
    assert_eq!(results.len(), 3);
    match &results[0] {
        Ok(QueueDiscipline::Unrecognized(u)) => {
            assert_eq!(u.kind, "cake");
            assert_eq!(u.handle, TcHandle::Class { major: 1, minor: 0 });
            assert_eq!(u.parent, TcHandle::Unspecified);
        }
        other => panic!("unexpected result {:?}", other),
    }
    assert!(matches!(results[1], Ok(QueueDiscipline::FqCodel(_))));
    assert_eq!(results[2], Err(DecodeError::InvalidHandle));
}

#[test]
fn missing_kind_is_unrecognized() {
    let m: WireMap = vec![field("handle", text("1:")), field("parent", text("2:3"))];
    match QueueDiscipline::from_json(&m) {
        Ok(QueueDiscipline::Unrecognized(u)) => assert_eq!(u.kind, ""),
        other => panic!("unexpected result {:?}", other),
    }
}

#[test]
fn missing_or_invalid_handle_is_an_error() {
    let mut m = example_entry();
    m.remove(1);
    assert_eq!(QueueDiscipline::from_json(&m), Err(DecodeError::InvalidHandle));
    let mut m = example_entry();
    m.push(field("parent", WireValue::Unsigned(7)));
    assert_eq!(QueueDiscipline::from_json(&m), Err(DecodeError::InvalidHandle));
}

#[test]
fn options_must_be_an_object() {
    let mut m = example_entry();
    m.push(field("options", WireValue::List));
    assert_eq!(QueueDiscipline::from_json(&m), Err(DecodeError::InvalidOptionsShape));
    let mut m = example_entry();
    m.push(field("options", text("fast")));
    assert_eq!(TcFqCodel::from_json(&m), Err(DecodeError::InvalidOptionsShape));
}

#[test]
fn wrongly_typed_values_are_errors() {
    let mut m = example_entry();
    m.push(field("drops", WireValue::Signed(-1)));
    assert_eq!(QueueDiscipline::from_json(&m), Err(DecodeError::InvalidValue));
    let mut o = example_options();
    o.push(opt("ecn", WireScalar::Unsigned(1)));
    let mut m = example_entry();
    m.push(field("options", WireValue::Object(o)));
    assert_eq!(QueueDiscipline::from_json(&m), Err(DecodeError::InvalidValue));
}

#[test]
fn absent_counters_and_options_are_zero() {
    let m: WireMap = vec![field("kind", text("fq_codel")), field("handle", text("1:")), field("parent", text("none"))];
    let q = decode_codel(&m);
    assert_eq!(q.bytes, 0);
    assert_eq!(q.packets, 0);
    assert_eq!(q.options.limit, 0);
    assert!(!q.options.ecn);
}

#[test]
fn unknown_field_names_are_listed() {
    let mut m = example_entry();
    m.push(field("maxpacket", WireValue::Unsigned(1)));
    m.push(field("brand_new", WireValue::Null));
    m.insert(0, field("other", WireValue::Bool(true)));
    assert_eq!(lqos_queue_core::discipline::unknown_fields(&m, false), vec!["other".to_string(), "brand_new".to_string()]);
    let mut o = example_options();
    o.push(opt("ce_threshold", WireScalar::Unsigned(5)));
    assert_eq!(lqos_queue_core::discipline::unknown_fields(&o, true), vec!["ce_threshold".to_string()]);
    assert!(lqos_queue_core::discipline::unknown_fields(&example_entry(), false).is_empty());
}
