use tarpaulin::config::Config;
use tarpaulin::reporting::cobertura;
use tarpaulin::reporting::html;
use tarpaulin::traces::{Trace, TraceMap};

fn sample() -> TraceMap {
    let mut map = TraceMap::new();
    map.add_trace(Trace { line: 3, address: Some(0x1000), hits: 0 });
    map.add_trace(Trace { line: 4, address: None, hits: 0 });
    map.add_trace(Trace { line: 7, address: Some(0x2000), hits: 5 });
    map.add_trace(Trace { line: 9, address: Some(0x1000), hits: 2 });
    map
}

#[test]
fn a_new_sink_has_no_records() {
    let map = TraceMap::new();
    assert_eq!(map.len(), 0);
    assert_eq!(map.get(0), None);
    assert_eq!(map.hits(0x1000), 0);
    assert!(map.addresses().is_empty());
}

#[test]
fn records_are_kept_in_the_order_they_were_added() {
    let map = sample();
    assert_eq!(map.len(), 4);
    assert_eq!(map.get(0), Some(Trace { line: 3, address: Some(0x1000), hits: 0 }));
    assert_eq!(map.get(3), Some(Trace { line: 9, address: Some(0x1000), hits: 2 }));
    assert_eq!(map.get(4), None);
}

#[test]
fn addresses_leave_out_the_records_without_one() {
    assert_eq!(sample().addresses(), vec![0x1000, 0x2000, 0x1000]);
}

#[test]
fn a_hit_counts_once_on_every_record_at_the_address() {
    let mut map = sample();
    map.record_hit(0x1000);
    assert_eq!(map.get(0), Some(Trace { line: 3, address: Some(0x1000), hits: 1 }));
    assert_eq!(map.get(1), Some(Trace { line: 4, address: None, hits: 0 }));
    assert_eq!(map.get(2), Some(Trace { line: 7, address: Some(0x2000), hits: 5 }));
    assert_eq!(map.get(3), Some(Trace { line: 9, address: Some(0x1000), hits: 3 }));
    assert_eq!(map.hits(0x1000), 4);
    assert_eq!(map.hits(0x2000), 5);
}

#[test]
fn a_hit_at_an_unknown_address_changes_nothing() {
    let mut map = sample();
    map.record_hit(0x3000);
    assert_eq!(map.hits(0x1000), 2);
    assert_eq!(map.hits(0x2000), 5);
    assert_eq!(map.hits(0x3000), 0);
}

#[test]
fn the_same_location_may_be_hit_many_times() {
    let mut map = sample();
    for _ in 0..10 {
        map.record_hit(0x2000);
    }
    assert_eq!(map.hits(0x2000), 15);
}

#[test]
fn a_full_count_stays_full() {
    let mut map = TraceMap::new();
    map.add_trace(Trace { line: 1, address: Some(0x10), hits: u64::MAX });
    map.add_trace(Trace { line: 2, address: Some(0x10), hits: 1 });
    map.record_hit(0x10);
    assert_eq!(map.get(0), Some(Trace { line: 1, address: Some(0x10), hits: u64::MAX }));
    assert_eq!(map.get(1), Some(Trace { line: 2, address: Some(0x10), hits: 2 }));
    assert_eq!(map.hits(0x10), u64::MAX);
}

#[test]
fn a_new_config_is_silent() {
    assert_eq!(Config::new(5), Config { test_timeout: 5, verbose: false });
}

#[test]
fn report_lines_carry_line_number_and_hits() {
    let trace = Trace { line: 7, address: Some(0x2000), hits: 5 };
    assert_eq!(cobertura::render_line(&trace), cobertura::Line::Plain { number: 7, hits: 5 });
    let lines = cobertura::render_lines(&sample());
    assert_eq!(
        lines,
        vec![
            cobertura::Line::Plain { number: 3, hits: 0 },
            cobertura::Line::Plain { number: 4, hits: 0 },
            cobertura::Line::Plain { number: 7, hits: 5 },
            cobertura::Line::Plain { number: 9, hits: 2 },
        ]
    );
    assert!(cobertura::render_lines(&TraceMap::new()).is_empty());
}

#[test]
fn report_errors_describe_themselves() {
    assert_eq!(cobertura::Error::ExportError.description(), "Export Error");
    assert_eq!(cobertura::Error::Unknown.description(), "Unknown Error");
    assert_eq!(cobertura::Error::ExportError.cause(), None);
    assert_eq!(html::Error::Unknown.description(), "");
    assert_eq!(html::Error::Unknown.cause(), None);
}

#[test]
fn covered_counts_the_records_that_were_reached() {
    let mut map = sample();
    assert_eq!(map.coverable(), 4);
    assert_eq!(map.covered(), 2);
    map.record_hit(0x1000);
    assert_eq!(map.covered(), 3);
    map.record_hit(0x1000);
    assert_eq!(map.covered(), 3);
    assert_eq!(TraceMap::new().covered(), 0);
    assert_eq!(TraceMap::new().coverable(), 0);
}
