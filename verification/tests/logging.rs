use cowork_rs::log::ilog::{ILog, LogLevel, LogLine};

#[test]
fn debug_line_goes_to_stdout_with_label_and_tag() {
    assert_eq!(
        ILog::d("Backend", "loaded 3 sessions"),
        Some(LogLine {
            to_stderr: false,
            text: String::from("DEBUG::Backend: loaded 3 sessions"),
        })
    );
}

#[test]
fn error_line_goes_to_stderr() {
    assert_eq!(
        ILog::e("Db", "boom"),
        Some(LogLine {
            to_stderr: true,
            text: String::from("ERR::Db: boom"),
        })
    );
}

#[test]
fn info_and_warn_lines_are_emitted() {
    assert_eq!(ILog::i("A", "b").map(|l| l.text), Some(String::from("INFO::A: b")));
    assert_eq!(ILog::w("A", "b").map(|l| l.text), Some(String::from("WARN::A: b")));
}

#[test]
fn verbose_is_silenced_at_the_configured_level() {
    assert_eq!(ILog::log_level(), LogLevel::Debug);
    assert_eq!(ILog::v("Tag", "noise"), None);
}

#[test]
fn levels_have_ordered_values_and_labels() {
    let levels = [
        LogLevel::Error,
        LogLevel::Info,
        LogLevel::Warn,
        LogLevel::Debug,
        LogLevel::Verbose,
    ];
    let values: Vec<u8> = levels.iter().map(|l| l.value()).collect();
    assert_eq!(values, vec![0, 1, 2, 3, 4]);
    let labels: Vec<&str> = levels.iter().map(|l| l.label()).collect();
    assert_eq!(labels, vec!["ERR", "INFO", "WARN", "DEBUG", "VERBOSE"]);
}
