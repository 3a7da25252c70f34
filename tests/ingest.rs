use patina_system_monitor::{
    parse_records, records_from_statements, window_cutoff_nanos, GraphCard, MeasurementValue,
    MetricStore, Numeric, OwnedParsedLine, TimeSeries, WireLine, WINDOW_LENGTH_NANOS,
};

const SEC: u64 = 1_000_000_000;

fn as_f64(n: Numeric) -> f64 {
    match n {
        Numeric::I64(i) => i as f64,
        Numeric::U64(u) => u as f64,
        Numeric::F64Bits(b) => f64::from_bits(b),
    }
}

fn record(measurement: &str, tags: &[(&str, &str)], field: (&str, MeasurementValue), ts: u64) -> OwnedParsedLine {
    OwnedParsedLine {
        measurement: measurement.to_string(),
        tags: tags.iter().map(|(k, v)| (k.to_string(), v.to_string())).collect(),
        fields: vec![(field.0.to_string(), field.1)],
        unix_timestamp_nanos: ts,
    }
}

fn wire(measurement: &str, timestamp: Option<i64>) -> WireLine {
    WireLine {
        measurement: measurement.to_string(),
        tags: vec![],
        fields: vec![("v".to_string(), MeasurementValue::I64(1))],
        timestamp,
    }
}

#[test]
fn numeric_projection_of_each_kind() {
    assert_eq!(as_f64(MeasurementValue::Boolean(true).numeric()), 1.0);
    assert_eq!(as_f64(MeasurementValue::Boolean(false).numeric()), 0.0);
    assert_eq!(as_f64(MeasurementValue::String("abc".to_string()).numeric()), 0.0);
    assert_eq!(as_f64(MeasurementValue::I64(-42).numeric()), -42.0);
    assert_eq!(as_f64(MeasurementValue::U64(42).numeric()), 42.0);
    assert_eq!(as_f64(MeasurementValue::F64Bits(95.2f64.to_bits()).numeric()), 95.2);
}

#[test]
fn field_lookup_uses_default_when_absent() {
    let r = record("cpu", &[], ("usage_idle", MeasurementValue::F64Bits(12.5f64.to_bits())), 5);
    assert_eq!(as_f64(r.get_field_numeric("usage_idle", Numeric::I64(7))), 12.5);
    assert_eq!(r.get_field_numeric("missing", Numeric::I64(7)), Numeric::I64(7));
    assert!(r.get_field("missing").is_none());
    assert_eq!(r.offset_timestamp_nanos(5 + 3 * SEC), -3 * SEC as i128);
}

#[test]
fn missing_timestamp_takes_the_clock() {
    let now = 1_700_000_000 * SEC;
    let r = OwnedParsedLine::from_wire(wire("a", None), now);
    assert_eq!(r.unix_timestamp_nanos, now);
    let r = OwnedParsedLine::from_wire(wire("a", Some(-5)), now);
    assert_eq!(r.unix_timestamp_nanos, now);
    let r = OwnedParsedLine::from_wire(wire("a", Some(1234)), now);
    assert_eq!(r.unix_timestamp_nanos, 1234);
}

#[test]
fn unparsed_statements_are_skipped() {
    let out = records_from_statements(vec![Some(wire("a", Some(1))), None, Some(wire("b", Some(2)))], 9);
    let names: Vec<&str> = out.iter().map(|r| r.measurement.as_str()).collect();
    assert_eq!(names, vec!["a", "b"]);
}

#[test]
fn malformed_line_does_not_stop_the_stream() {
    let now = 77 * SEC;
    assert!(parse_records("this is not line protocol", now).is_empty());
    assert!(parse_records("", now).is_empty());
    let good = parse_records("mem used=5i", now);
    assert_eq!(good.len(), 1);
    assert_eq!(good[0].measurement, "mem");
    assert_eq!(good[0].fields, vec![("used".to_string(), MeasurementValue::I64(5))]);
    assert_eq!(good[0].unix_timestamp_nanos, now);
}

#[test]
fn parser_output_is_converted() {
    let r = parse_records("w,host=h1,dc=x a=1u,b=2.5,c=\"hi\",d=true 42", 0);
    assert_eq!(r.len(), 1);
    assert_eq!(r[0].measurement, "w");
    assert_eq!(
        r[0].tags,
        vec![("host".to_string(), "h1".to_string()), ("dc".to_string(), "x".to_string())]
    );
    assert_eq!(
        r[0].fields,
        vec![
            ("a".to_string(), MeasurementValue::U64(1)),
            ("b".to_string(), MeasurementValue::F64Bits(2.5f64.to_bits())),
            ("c".to_string(), MeasurementValue::String("hi".to_string())),
            ("d".to_string(), MeasurementValue::Boolean(true)),
        ]
    );
    assert_eq!(r[0].unix_timestamp_nanos, 42);
}

#[test]
fn window_trimming_keeps_the_margin() {
    let t = 1_000 * SEC;
    let mut store = MetricStore::new(WINDOW_LENGTH_NANOS);
    let batch: Vec<OwnedParsedLine> = [70, 65, 30, 1]
        .iter()
        .map(|s| record("cpu", &[], ("v", MeasurementValue::I64(*s as i64)), t - s * SEC))
        .collect();
    store.recv_metrics(vec![(0u8, batch)]);
    store.trim_time_series(t);
    assert_eq!(store.len(), 3);
    let kept: Vec<u64> = (0..store.len()).map(|i| store.time_series.get(i).unix_timestamp_nanos).collect();
    assert_eq!(kept, vec![t - 65 * SEC, t - 30 * SEC, t - SEC]);
}

#[test]
fn cutoff_value() {
    assert_eq!(window_cutoff_nanos(1_000 * SEC, 60 * SEC), 934 * SEC);
    assert_eq!(window_cutoff_nanos(10 * SEC, 60 * SEC), 0);
}

#[test]
fn trim_stops_at_first_recent_element() {
    let mut s: TimeSeries<u8> = TimeSeries::new();
    s.push(5, 1);
    s.push(20, 2);
    s.push(3, 3);
    s.trim_older_than(10);
    assert_eq!(s.len(), 2);
    assert_eq!(s.get(0).data, 2);
    assert_eq!(s.get(1).data, 3);
    s.trim_older_than(100);
    assert_eq!(s.len(), 0);
}

#[test]
fn drain_keeps_batch_order() {
    let mut store = MetricStore::new(WINDOW_LENGTH_NANOS);
    let r = |n: &str, ts: u64| record(n, &[], ("v", MeasurementValue::I64(0)), ts);
    store.recv_metrics(vec![("A", vec![r("r1", 30), r("r2", 10)]), ("B", vec![r("r3", 20)])]);
    let names: Vec<String> = (0..store.len()).map(|i| store.time_series.get(i).data.measurement.clone()).collect();
    assert_eq!(names, vec!["r1", "r2", "r3"]);
}

#[test]
fn end_to_end_cpu_usage() {
    let now = 1_700_000_000 * SEC;
    let batch = parse_records("cpu,cpu=cpu-total usage_idle=95.2 1699999999000000000", now);
    let mut store = MetricStore::new(WINDOW_LENGTH_NANOS);
    store.trim_time_series(now);
    store.recv_metrics(vec![((), batch)]);
    let points = store.query_points("cpu", "cpu", "cpu-total", "usage_idle", Numeric::I64(0), now);
    assert_eq!(points.len(), 1);
    assert_eq!(points[0].0, -(SEC as i128));
    assert_eq!(as_f64(points[0].1), 95.2);
    let usage = 100.0 - as_f64(points[0].1);
    assert!((usage - 4.8).abs() < 1e-9);
    assert!(store.query_points("cpu", "cpu", "cpu0", "usage_idle", Numeric::I64(0), now).is_empty());
    assert!(store.query_points("mem", "cpu", "cpu-total", "usage_idle", Numeric::I64(0), now).is_empty());
}

#[test]
fn each_line_read_is_its_own_batch() {
    let input = "a v=1\nb v=2\n";
    let batches: Vec<Vec<OwnedParsedLine>> = input.lines().map(|l| parse_records(l, 0)).collect();
    assert_eq!(batches.len(), 2);
    assert_eq!(batches[0].len(), 1);
    assert_eq!(batches[0][0].measurement, "a");
    assert_eq!(batches[1].len(), 1);
    assert_eq!(batches[1][0].measurement, "b");
}

#[test]
fn graph_card_default_title() {
    assert_eq!(GraphCard::default().title, "New Graph Card");
}
