use catalyst::logger::{
    backtrace_is_sliceable, caller_location, compose_caller_message, extract_any_useful_function, extract_from_src_path,
    extract_line_number_from_line, extract_line_number_from_path, extract_simple_function_info, format_log_entry,
    format_time_nanos, format_timestamp, format_with_context, format_with_context_and_trace,
    format_with_context_and_trace_timed, format_with_trace, parse_backtrace_simple, should_skip_function,
    CatalystLogger, LogLevel, TimestampPrecision,
};

#[test]
fn noise_is_skipped() {
    assert!(should_skip_function("std::io::read"));
    assert!(should_skip_function("catalyst::main"));
    assert!(should_skip_function("tokio::runtime::block_on"));
    assert!(should_skip_function("<impl Foo>::bar"));
    assert!(!should_skip_function("auth::login_handler"));
}

#[test]
fn line_numbers_are_read() {
    assert_eq!(extract_line_number_from_line("   at src/services/auth.rs:123:45"), Some(123));
    assert_eq!(extract_line_number_from_line("at src/x.rs:77 "), Some(77));
    assert_eq!(extract_line_number_from_line("no path here"), None);
    assert_eq!(extract_line_number_from_path("src/services/auth.rs:123:45"), Some(123));
    assert_eq!(extract_line_number_from_path("a:b"), None);
}

#[test]
fn src_paths_name_module_and_file() {
    assert_eq!(extract_from_src_path("   at src/services/auth.rs:123:45"), Some("services::auth".to_string()));
    assert_eq!(extract_from_src_path("src/main.rs"), Some("main::main".to_string()));
    assert_eq!(extract_from_src_path("nothing"), None);
}

#[test]
fn useful_functions_are_found() {
    assert_eq!(extract_any_useful_function("   bootstrap::initialize at x"), Some("bootstrap::initialize".to_string()));
    assert_eq!(extract_any_useful_function("no colons"), None);
}

#[test]
fn simple_function_info_reads_catalyst_frames() {
    assert_eq!(
        extract_simple_function_info("catalyst::services::auth::login at src/services/auth.rs:12:5"),
        Some("auth::login:12".to_string())
    );
    assert_eq!(
        extract_simple_function_info("   2: catalyst::routes::home::post_login"),
        Some("catalyst::routes".to_string())
    );
    assert_eq!(extract_simple_function_info("plain text"), None);
}

#[test]
fn backtrace_is_read_caller_first() {
    let bt = "   0: backtrace::capture\n   1: catalyst::services::auth::login\n             at src/services/auth.rs:12:5\n   2: catalyst::routes::home::post_login\n";
    assert_eq!(
        parse_backtrace_simple(bt),
        vec!["catalyst::routes".to_string(), "services::auth".to_string(), "auth::login".to_string()]
    );
}

#[test]
fn traces_are_formatted() {
    let stack = vec!["a".to_string(), "<impl X>".to_string(), "b".to_string()];
    assert_eq!(format_with_trace("msg", &stack), "msg\n  Call trace:\n    1. a\n    2. b");
    assert_eq!(format_with_trace("msg", &vec![]), "msg");
    assert_eq!(format_with_context("m", "ctx", &vec![]), "m [Context: ctx]");
    assert_eq!(format_with_context_and_trace_timed("m", "c", &vec!["x".to_string()], "5ns"), "m → c • 5ns → x");
    assert_eq!(format_with_context_and_trace("m", "c", &vec![]), "m → c • 0ns");
    assert_eq!(format_time_nanos(42), "42ns");
}

#[test]
fn caller_messages_are_composed() {
    assert_eq!(caller_location("src/services/auth.rs", 42), "auth.rs:42::services");
    assert_eq!(caller_location("main.rs", 1), "main.rs:1::unknown");
    assert_eq!(
        compose_caller_message("src/services/auth.rs", 42, "hello", Some("ctx"), Some("d")),
        "[auth.rs:42::services] hello → ctx | data: d"
    );
}

#[test]
fn entries_and_timestamps() {
    assert_eq!(format_log_entry("123", LogLevel::Info, "m"), "123 [INFO] m\n");
    assert_eq!(CatalystLogger::entry(LogLevel::Error, "9", "x"), "9 [ERROR] x\n");
    assert_eq!(format_timestamp(TimestampPrecision::Milli, 17, 5, 5_000_000, "now"), "17.005-now");
    assert_eq!(format_timestamp(TimestampPrecision::Nano, 17, 0, 42, "now"), "17.000000042-now");
    assert_eq!(CatalystLogger::get_timestamp(LogLevel::Info, 17, 5, 42, "now"), "17-now");
    assert_eq!(LogLevel::Warning.file_name(), "warning.log");
    assert_eq!(LogLevel::Trace.timestamp_precision(), TimestampPrecision::Nano);
    assert_eq!(LogLevel::CronjobError.as_str(), "CRONJOB_ERROR");
}

#[test]
fn only_cut_characters_make_a_backtrace_unreadable() {
    assert!(backtrace_is_sliceable("   at src/routes/home.rs:12:5\n  2: main"));
    assert!(backtrace_is_sliceable("   at src/é/home.rs:12\nnaïve line"));
    assert!(backtrace_is_sliceable("   at src/home.rs:12"));
    assert!(!backtrace_is_sliceable("ok\n   at src/home.rsé:12"));
    assert!(backtrace_is_sliceable("   at src/home.rsé"));
}
