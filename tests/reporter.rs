use webhook_error_reporter::delivery::{Delivery, Step};
use webhook_error_reporter::error::{ReportableError, ReporterError};
use webhook_error_reporter::report_text::{format_report, render_backtrace, BacktraceState};
use webhook_error_reporter::split::{fragments, split_fragments, FragmentMode, DEFAULT_FRAGMENT_SIZE};
use webhook_error_reporter::transport::{
    classify_response, frame_text_payload, is_success_status, parse_destination, request_body,
};

const HOOK: &str = "https://chat.example.com/hooks/abc";

fn disk_full_delivery(mode: FragmentMode) -> Delivery {
    Delivery::for_error("disk full", &BacktraceState::Unsupported, HOOK, mode)
}

#[test]
fn split_rebuilds_text_and_bounds_fragments() {
    let text = "alpha\nbeta\ngamma\n\ndelta eps\nzeta";
    let max: usize = 12;
    let frags = split_fragments(text, max).unwrap();
    assert_eq!(frags.join("\n"), text);
    for f in &frags {
        assert!(f.chars().count() < max);
    }
    assert_eq!(
        frags,
        vec!["alpha\nbeta".to_string(), "gamma\n".to_string(), "delta eps".to_string(), "zeta".to_string()]
    );
}

#[test]
fn split_greedy_packing_exact() {
    let frags = split_fragments("ab\ncd\nef\ngh", 6).unwrap();
    assert_eq!(frags, vec!["ab\ncd".to_string(), "ef\ngh".to_string()]);
    let frags = split_fragments("ab\ncd\nef", 5).unwrap();
    assert_eq!(frags, vec!["ab".to_string(), "cd".to_string(), "ef".to_string()]);
}

#[test]
fn split_counts_characters_not_bytes() {
    let frags = split_fragments("ééé\nüü", 7).unwrap();
    assert_eq!(frags, vec!["ééé\nüü".to_string()]);
}

#[test]
fn split_keeps_trailing_newline() {
    let frags = split_fragments("one\ntwo\n", DEFAULT_FRAGMENT_SIZE).unwrap();
    assert_eq!(frags, vec!["one\ntwo\n".to_string()]);
}

#[test]
fn split_empty_text_gives_no_fragment() {
    assert_eq!(split_fragments("", 10).unwrap(), Vec::<String>::new());
}

#[test]
fn split_fails_on_oversized_line() {
    let long = "x".repeat(DEFAULT_FRAGMENT_SIZE);
    let text = format!("short\n{}\nshort again", long);
    let r = split_fragments(&text, DEFAULT_FRAGMENT_SIZE);
    assert!(matches!(r, Err(ReporterError::MsgSplitFail)));
    let just_under = "y".repeat(DEFAULT_FRAGMENT_SIZE - 1);
    assert_eq!(split_fragments(&just_under, DEFAULT_FRAGMENT_SIZE).unwrap(), vec![just_under.clone()]);
}

#[test]
fn single_mode_sends_whole_text() {
    let big = "z".repeat(5000);
    assert_eq!(fragments(&big, FragmentMode::Single).unwrap(), vec![big.clone()]);
    assert_eq!(fragments("", FragmentMode::Single).unwrap(), vec![String::new()]);
}

#[test]
fn status_classification() {
    for code in [200u16, 201, 202, 203, 204] {
        assert!(is_success_status(code));
        assert!(classify_response(code, b"ignored".to_vec()).is_ok());
    }
    for code in [199u16, 205, 400, 500] {
        assert!(!is_success_status(code));
        assert!(classify_response(code, Vec::new()).is_err());
    }
}

#[test]
fn failure_with_utf8_body() {
    match classify_response(500, b"rate limited".to_vec()) {
        Err(ReporterError::ServerError(code, msg)) => {
            assert_eq!(code, 500);
            assert_eq!(msg, "rate limited");
        }
        other => panic!("unexpected {:?}", other),
    }
}

#[test]
fn failure_with_non_utf8_body() {
    let r = classify_response(502, vec![0xff, 0xfe, 0x41]);
    assert!(matches!(r, Err(ReporterError::ServerResponseNotUtf8(502))));
    let e = r.unwrap_err();
    assert_eq!(e.message(), "server returned an unokay http code 502, however, message is not utf-8");
}

#[test]
fn destination_must_be_a_uri() {
    assert!(parse_destination(HOOK).is_ok());
    match parse_destination("not a url") {
        Err(ReporterError::InvalidUrl(u)) => assert_eq!(u, "not a url"),
        other => panic!("unexpected {:?}", other),
    }
}

#[test]
fn request_body_is_json_text_object() {
    assert_eq!(request_body("hi \"there\"\nnext").unwrap(), "{\"text\":\"hi \\\"there\\\"\\nnext\"}");
    assert_eq!(frame_text_payload("\"x\""), "{\"text\":\"x\"}");
    assert_eq!(
        request_body("tab\there\\ \u{1}\u{1f} é/").unwrap(),
        "{\"text\":\"tab\\there\\\\ \\u0001\\u001f é/\"}"
    );
}

#[test]
fn backtrace_states_render() {
    assert_eq!(render_backtrace(&BacktraceState::Captured("at main".to_string())), "Backtrace:\nat main");
    assert_eq!(
        render_backtrace(&BacktraceState::Disabled),
        "RUST_BACKTRACE must be set to `1` or `full` for the backtrace to be captured."
    );
    assert_eq!(render_backtrace(&BacktraceState::Unsupported), "(Backtrace is not supported.)");
    assert_eq!(
        render_backtrace(&BacktraceState::NotImplemented),
        "(Backtrace is not implemented by the error type.)"
    );
}

#[test]
fn report_text_layout() {
    assert_eq!(
        format_report("disk full", &BacktraceState::Unsupported),
        "Error caught, message: disk full\n\nBacktrace: (Backtrace is not supported.)\n"
    );
}

#[test]
fn error_messages() {
    assert_eq!(ReporterError::InvalidUrl("x y".to_string()).message(), "invalid url: x y");
    assert_eq!(
        ReporterError::ServerError(404, "gone".to_string()).message(),
        "server returned an unokay http code 404, message: gone"
    );
    assert_eq!(
        ReporterError::ServerError(7, String::new()).message(),
        "server returned an unokay http code 7, message: "
    );
    assert_eq!(
        ReporterError::MsgSplitFail.message(),
        "reporter error: embedded message has a line exceeding 2k characters, splitting failed."
    );
}

#[test]
fn end_to_end_success() {
    let mut d = disk_full_delivery(FragmentMode::Split { max: DEFAULT_FRAGMENT_SIZE });
    let mut posts: Vec<String> = Vec::new();
    while let Step::Post(body) = d.next_step() {
        posts.push(body);
        d.record_response(200, Vec::new());
    }
    assert_eq!(
        posts,
        vec!["{\"text\":\"Error caught, message: disk full\\n\\nBacktrace: (Backtrace is not supported.)\\n\"}".to_string()]
    );
    let reported: ReportableError<&str> = d.finish("disk full");
    assert!(reported.is_reported());
    assert_eq!(*reported.cause(), "disk full");
    assert_eq!(reported.render("disk full"), "successfully reported: disk full");
}

#[test]
fn end_to_end_server_rejection() {
    let mut d = disk_full_delivery(FragmentMode::Single);
    let mut count: usize = 0;
    while let Step::Post(_) = d.next_step() {
        count += 1;
        d.record_response(500, b"rate limited".to_vec());
    }
    assert_eq!(count, 1);
    let reported = d.finish("disk full");
    match &reported.reporter_error {
        Some(ReporterError::ServerError(500, msg)) => assert_eq!(msg, "rate limited"),
        other => panic!("unexpected {:?}", other),
    }
    let shown = reported.render("disk full");
    assert!(shown.contains("failed to report the error: disk full"));
    assert!(shown.contains("server returned an unokay http code 500, message: rate limited"));
    assert_eq!(
        shown,
        "failed to report the error: disk full\nreporter failed to report the error: server returned an unokay http code 500, message: rate limited"
    );
}

#[test]
fn failed_fragment_stops_later_ones() {
    let mut d = Delivery::start(HOOK, "first\nsecond\nthird", FragmentMode::Split { max: 7 });
    let mut posted: Vec<String> = Vec::new();
    let mut answers = vec![(200u16, Vec::new()), (503u16, b"busy".to_vec()), (200u16, Vec::new())].into_iter();
    while let Step::Post(body) = d.next_step() {
        posted.push(body);
        let (code, bytes) = answers.next().unwrap();
        d.record_response(code, bytes);
    }
    assert_eq!(posted, vec!["{\"text\":\"first\"}".to_string(), "{\"text\":\"second\"}".to_string()]);
    assert_eq!(d.sent(), 1);
    assert!(d.is_finished());
    assert!(matches!(d.outcome(), Some(ReporterError::ServerError(503, m)) if m == "busy"));
    d.record_response(200, Vec::new());
    assert_eq!(d.sent(), 1);
    assert!(matches!(d.next_step(), Step::Finished));
}

#[test]
fn invalid_destination_sends_nothing() {
    let mut d = Delivery::start("not a url", "text", FragmentMode::Single);
    assert!(d.destination().is_none());
    assert!(matches!(d.next_step(), Step::Finished));
    let reported = d.finish(());
    assert_eq!(
        reported.render("boom"),
        "failed to report the error: boom\nreporter failed to report the error: invalid url: not a url"
    );
}

#[test]
fn oversized_line_sends_nothing() {
    let long = "w".repeat(30);
    let mut d = Delivery::start(HOOK, &long, FragmentMode::Split { max: 30 });
    assert!(d.destination().is_some());
    assert!(matches!(d.next_step(), Step::Finished));
    assert!(matches!(d.outcome(), Some(ReporterError::MsgSplitFail)));
}

#[test]
fn wrapped_cause_is_kept() {
    let r = ReportableError::new(42u32);
    assert_eq!(*r.cause(), 42);
    assert!(r.is_reported());
    assert_eq!(r.render("42"), "successfully reported: 42");
}

#[test]
fn cause_converts_into_report() {
    let r: ReportableError<u32> = 7u32.into();
    assert_eq!(r.cause, 7);
    assert!(r.reporter_error.is_none());
}

#[test]
fn only_transport_failures_have_a_client_error() {
    assert!(ReporterError::MsgSplitFail.hyper_error().is_none());
    assert!(ReporterError::ServerResponseNotUtf8(500).hyper_error().is_none());
}
