use akasha::logger::{enabled, format_record, AkaLogger, Level, LevelFilter, LoggerConfig};
use akasha::logstore::LogStore;

fn s(x: &str) -> String {
    x.to_string()
}

#[test]
fn push_moves_full_buffer_to_archive() {
    let mut store = LogStore::new(2);
    assert!(store.push(s("a")).is_empty());
    assert!(store.push(s("b")).is_empty());
    let flushed = store.push(s("c"));
    assert_eq!(flushed, vec![s("a"), s("b")]);
    assert_eq!(store.get_inner(), vec![s("a"), s("b")]);
    assert_eq!(store.buf_all(), vec![s("c")]);
    assert_eq!(store.all(), vec![s("a"), s("b"), s("c")]);
    assert_eq!(store.all_len(), 3);
}

#[test]
fn push_keeps_every_line_in_order() {
    let mut store = LogStore::new(3);
    let lines: Vec<String> = (0..10).map(|i| format!("line {i}")).collect();
    for l in &lines {
        store.push(l.clone());
        assert!(store.buf_all().len() <= 3);
    }
    assert_eq!(store.all(), lines);
    assert_eq!(store.all_len(), 10);
}

#[test]
fn zero_capacity_flushes_every_line() {
    let mut store = LogStore::new(0);
    assert!(store.push(s("x")).is_empty());
    assert_eq!(store.push(s("y")), vec![s("x")]);
    assert_eq!(store.buf_all(), vec![s("y")]);
}

#[test]
fn buf_tail_is_newest_first() {
    let mut store = LogStore::new(10);
    for l in ["1", "2", "3", "4"] {
        store.push(s(l));
    }
    assert_eq!(store.buf_tail(2), vec![s("4"), s("3")]);
    assert_eq!(store.buf_tail(9), vec![s("4"), s("3"), s("2"), s("1")]);
    assert!(store.buf_tail(0).is_empty());
}

#[test]
fn buf_clear_keeps_archive() {
    let mut store = LogStore::new(1);
    store.push(s("old"));
    store.push(s("new"));
    store.buf_clear();
    assert!(store.buf_all().is_empty());
    assert_eq!(store.all(), vec![s("old")]);
}

#[test]
fn drop_exports_buffer_unless_full() {
    let mut store = LogStore::with_log_path(2, s("debug/info.log"));
    assert_eq!(store.log_path(), Some(s("debug/info.log")));
    store.push(s("a"));
    assert_eq!(store.lines_to_export_on_drop(), vec![s("a")]);
    store.push(s("b"));
    assert!(store.lines_to_export_on_drop().is_empty());
    assert_eq!(LogStore::new(1).log_path(), None);
}

#[test]
fn level_filter_passes_severe_records() {
    assert!(enabled(Level::Error, LevelFilter::Info));
    assert!(enabled(Level::Info, LevelFilter::Info));
    assert!(!enabled(Level::Debug, LevelFilter::Info));
    assert!(!enabled(Level::Error, LevelFilter::Off));
    assert!(enabled(Level::Trace, LevelFilter::Trace));
}

#[test]
fn record_line_format() {
    assert_eq!(format_record(Level::Warn, "akasha::app", "slow"), "[WARN akasha::app] slow");
}

#[test]
fn logger_stores_passing_records() {
    let config = LoggerConfig { buf_capacity: 10, level: LevelFilter::Info, with_stdout: true, log_path: None };
    let mut store = AkaLogger::new_store(&config);
    AkaLogger::log(&mut store, config.level, Level::Debug, "t", "hidden");
    AkaLogger::log(&mut store, config.level, Level::Error, "t", "shown");
    assert_eq!(store.all(), vec![s("[ERROR t] shown")]);
}
