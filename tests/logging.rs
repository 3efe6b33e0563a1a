use fables::logger::{
    current_thread_id, format_line, init, is_enabled, parse_level, Level, LevelFilter, ThreadIds,
    Timestamp,
};
use fables::text::decimal_string;

const LEVELS: [Level; 5] = [Level::Error, Level::Warn, Level::Info, Level::Debug, Level::Trace];

#[test]
fn parse_level_ignores_case() {
    assert_eq!(parse_level("warn"), LevelFilter::Warn);
    assert_eq!(parse_level("WARN"), LevelFilter::Warn);
    assert_eq!(parse_level("Trace"), LevelFilter::Trace);
    assert_eq!(parse_level("error"), LevelFilter::Error);
    assert_eq!(parse_level("info"), LevelFilter::Info);
    assert_eq!(parse_level("dEbUg"), LevelFilter::Debug);
    assert_eq!(parse_level("off"), LevelFilter::Off);
}

#[test]
fn parse_level_unknown_is_off() {
    assert_eq!(parse_level("verbose"), LevelFilter::Off);
    assert_eq!(parse_level(""), LevelFilter::Off);
    assert_eq!(parse_level("warnings"), LevelFilter::Off);
}

#[test]
fn threshold_warn_keeps_error_and_warn() {
    let t = LevelFilter::Warn;
    assert!(is_enabled(t, Level::Error));
    assert!(is_enabled(t, Level::Warn));
    assert!(!is_enabled(t, Level::Info));
    assert!(!is_enabled(t, Level::Debug));
    assert!(!is_enabled(t, Level::Trace));
}

#[test]
fn threshold_off_drops_everything_and_trace_keeps_everything() {
    for l in LEVELS {
        assert!(!is_enabled(LevelFilter::Off, l));
        assert!(is_enabled(LevelFilter::Trace, l));
    }
}

#[test]
fn thresholds_are_monotone() {
    let filters = [
        LevelFilter::Off,
        LevelFilter::Error,
        LevelFilter::Warn,
        LevelFilter::Info,
        LevelFilter::Debug,
        LevelFilter::Trace,
    ];
    for (i, lo) in filters.iter().enumerate() {
        for hi in &filters[i..] {
            for l in LEVELS {
                if is_enabled(*lo, l) {
                    assert!(is_enabled(*hi, l));
                }
            }
        }
    }
}

#[test]
fn line_format() {
    let t = Timestamp { year: 2024, month: 3, day: 5, hour: 7, minute: 8, second: 9, millisecond: 42 };
    assert_eq!(
        format_line(&t, 3, Level::Warn, "fables", "hello"),
        "2024-03-05T07:08:09.042 [3] WARN [fables] - hello"
    );
    let t = Timestamp { year: 987, month: 12, day: 31, hour: 23, minute: 59, second: 60, millisecond: 999 };
    assert_eq!(format_line(&t, 120, Level::Trace, "", ""), "0987-12-31T23:59:60.999 [120] TRACE [] - ");
}

#[test]
fn thread_ids_are_stable_and_distinct() {
    let mut ids = ThreadIds::new();
    assert_eq!(current_thread_id(&mut ids, 77), 0);
    assert_eq!(current_thread_id(&mut ids, 5), 1);
    assert_eq!(current_thread_id(&mut ids, 77), 0);
    assert_eq!(current_thread_id(&mut ids, 5), 1);
    assert_eq!(current_thread_id(&mut ids, 0), 2);
    assert_eq!(ids.count(), 3);
}

#[test]
fn init_reads_settings() {
    let c = init("INFO", &Some("log.txt".to_string()));
    assert_eq!(c.threshold, LevelFilter::Info);
    assert_eq!(c.file_path.as_deref(), Some("log.txt"));
    let c = init("nonsense", &None);
    assert_eq!(c.threshold, LevelFilter::Off);
    assert!(c.file_path.is_none());
}

#[test]
fn decimal_rendering() {
    assert_eq!(decimal_string(0), "0");
    assert_eq!(decimal_string(7), "7");
    assert_eq!(decimal_string(1050), "1050");
    assert_eq!(decimal_string(u64::MAX), "18446744073709551615");
}
