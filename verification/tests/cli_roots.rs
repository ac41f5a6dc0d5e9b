use std::time::Duration;

use ctx::cli::roots::{display_duration, extract_browse_url, parse_duration_arg, WaitTime};

fn as_duration(w: WaitTime) -> Duration {
    Duration::from_secs(w.secs) + Duration::from_millis(w.millis as u64)
}

#[test]
fn browse_url_extraction_trims_terminal_punctuation() {
    assert_eq!(
        extract_browse_url("ctx browse: serving . at http://127.0.0.1:54321/."),
        Some("http://127.0.0.1:54321/".to_string())
    );
    assert_eq!(
        extract_browse_url("ready at https://localhost:8443/path,"),
        Some("https://localhost:8443/path".to_string())
    );
    assert_eq!(extract_browse_url("ctx browse: starting"), None);
}

#[test]
fn duration_arg_accepts_common_go_style_units() {
    assert_eq!(parse_duration_arg("100ms").map(as_duration), Some(Duration::from_millis(100)));
    assert_eq!(parse_duration_arg("10s").map(as_duration), Some(Duration::from_secs(10)));
    assert_eq!(parse_duration_arg("2m").map(as_duration), Some(Duration::from_secs(120)));
    assert_eq!(parse_duration_arg("1h").map(as_duration), Some(Duration::from_secs(3600)));
    assert_eq!(parse_duration_arg("10").map(as_duration), Some(Duration::from_secs(10)));
    assert_eq!(parse_duration_arg("bad").map(as_duration), None);
}

#[test]
fn duration_edge_cases() {
    assert_eq!(parse_duration_arg("  5s \n"), Some(WaitTime { secs: 5, millis: 0 }));
    assert_eq!(parse_duration_arg("1500ms"), Some(WaitTime { secs: 1, millis: 500 }));
    assert_eq!(parse_duration_arg(""), None);
    assert_eq!(parse_duration_arg("5d"), None);
    assert_eq!(parse_duration_arg("s"), None);
    assert_eq!(
        parse_duration_arg("18446744073709551615"),
        Some(WaitTime { secs: u64::MAX, millis: 0 })
    );
    assert_eq!(parse_duration_arg("18446744073709551616"), None);
    assert_eq!(parse_duration_arg("307445734561825861m"), None);
    assert_eq!(parse_duration_arg("307445734561825860m"), Some(WaitTime { secs: 18446744073709551600, millis: 0 }));
}

#[test]
fn durations_display_in_seconds_or_milliseconds() {
    assert_eq!(display_duration(WaitTime { secs: 10, millis: 0 }), "10s");
    assert_eq!(display_duration(WaitTime { secs: 1, millis: 500 }), "1500ms");
    assert_eq!(display_duration(WaitTime { secs: 0, millis: 0 }), "0s");
}

#[test]
fn browse_url_prefers_plain_http_and_stops_at_whitespace() {
    assert_eq!(
        extract_browse_url("a https://x/ then http://y:1/; more"),
        Some("http://y:1/".to_string())
    );
    assert_eq!(extract_browse_url("go http://h/p\tnext"), Some("http://h/p".to_string()));
}
