use cheesecake::app_error::{handle_error, AppError};
use cheesecake::trace::{cut_trace, find_bytes, last_byte_before};

const MARKER: &str = "axum::handler::Handler";

#[test]
fn cut_trace_keeps_frames_above_handler() {
    let trace = "0: app::index\n1: app::render\n2: <F as axum::handler::Handler>::call\n3: tokio::run";
    assert_eq!(cut_trace(trace), "0: app::index\n1: app::render");
}

#[test]
fn cut_trace_uses_first_marker_and_last_break_before_it() {
    let trace = format!("a\nb\nc {MARKER} d\ne {MARKER}\nf");
    assert_eq!(cut_trace(&trace), "a\nb");
}

#[test]
fn cut_trace_without_marker_is_unavailable() {
    assert_eq!(cut_trace("0: main\n1: start"), "[backtrace unavailable]");
    assert_eq!(cut_trace(""), "[backtrace unavailable]");
    assert_eq!(cut_trace("disabled backtrace"), "[backtrace unavailable]");
}

#[test]
fn cut_trace_without_line_break_before_marker_is_unavailable() {
    let trace = format!("{MARKER}\nrest");
    assert_eq!(cut_trace(&trace), "[backtrace unavailable]");
    let trace = format!("frame {MARKER}\nrest");
    assert_eq!(cut_trace(&trace), "[backtrace unavailable]");
}

#[test]
fn cut_trace_break_right_before_marker() {
    let trace = format!("top\n{MARKER}");
    assert_eq!(cut_trace(&trace), "top");
    let trace = format!("\n{MARKER}");
    assert_eq!(cut_trace(&trace), "");
}

#[test]
fn cut_trace_handles_multibyte_text() {
    let trace = format!("été → ok\nçà {MARKER}");
    assert_eq!(cut_trace(&trace), "été → ok");
}

#[test]
fn cut_trace_result_is_prefix() {
    let trace = format!("x\ny\nz\n{MARKER}\nw");
    let cut = cut_trace(&trace);
    assert!(trace.starts_with(cut));
    assert_eq!(cut, "x\ny\nz");
}

#[test]
fn cut_trace_agrees_with_std_search() {
    let samples = [
        format!("a\n{MARKER}"),
        format!("a\nb{MARKER}\n{MARKER}"),
        format!("{MARKER}"),
        String::from("no marker\nhere"),
        format!("axum::handler::Handle\n{MARKER}"),
    ];
    for t in samples.iter() {
        let expected = t
            .find(MARKER)
            .and_then(|i| {
                let temp = t.get(0..i)?;
                let idx = temp.rfind('\n')?;
                t.get(0..idx)
            })
            .unwrap_or("[backtrace unavailable]");
        assert_eq!(cut_trace(t), expected);
    }
}

#[test]
fn find_bytes_finds_leftmost() {
    assert_eq!(find_bytes(b"abcabc", b"bc"), Some(1));
    assert_eq!(find_bytes(b"abcabc", b"cb"), None);
    assert_eq!(find_bytes(b"ab", b"abc"), None);
    assert_eq!(find_bytes(b"ab", b""), Some(0));
    assert_eq!(find_bytes(b"aaab", b"aab"), Some(1));
}

#[test]
fn last_byte_before_finds_rightmost() {
    assert_eq!(last_byte_before(b"a\nb\nc\n", b'\n', 4), Some(3));
    assert_eq!(last_byte_before(b"a\nb\nc\n", b'\n', 3), Some(1));
    assert_eq!(last_byte_before(b"a\nb", b'\n', 1), None);
    assert_eq!(last_byte_before(b"", b'\n', 0), None);
}

#[test]
fn app_error_text_joins_message_and_cut_backtrace() {
    let bt = format!("0: handler\n1: {MARKER}");
    let err = AppError::new(String::from("database is gone"), bt);
    assert_eq!(err.to_string(), "database is gone. \n0: handler");
}

#[test]
fn app_error_text_without_backtrace() {
    let err = AppError::new(String::from("boom"), String::from("disabled backtrace"));
    assert_eq!(err.to_string(), "boom. \n[backtrace unavailable]");
}

#[test]
fn app_error_from_anyhow_keeps_message() {
    let err = AppError::from_anyhow(anyhow::Error::msg("template missing"));
    assert_eq!(err.message, "template missing");
    assert!(err.to_string().starts_with("template missing. \n"));
}

#[test]
fn app_error_response_hides_cause() {
    let a = AppError::new(String::from("secret detail"), String::new()).into_response();
    let b = AppError::new(String::from("other"), String::from("x")).into_response();
    assert_eq!(a.status, 500);
    assert_eq!(a.body, "Internal Server Error");
    assert_eq!(b.status, a.status);
    assert_eq!(b.body, a.body);
}

#[test]
fn handle_error_overloaded_is_unavailable() {
    let r = handle_error(true);
    assert_eq!(r.status, 503);
    assert_eq!(r.body, "");
}

#[test]
fn handle_error_other_is_internal() {
    let r = handle_error(false);
    assert_eq!(r.status, 500);
    assert_eq!(r.body, "Internal Server Error");
}
