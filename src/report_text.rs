use vstd::prelude::*;

verus! {

/// What became of the stack trace of an error being reported.
#[derive(Debug)]
pub enum BacktraceState {
    /// A trace was captured; its text.
    Captured(String),
    /// Capturing is switched off in this process.
    Disabled,
    /// This platform cannot capture traces.
    Unsupported,
    /// The error type offers no trace.
    NotImplemented,
}

/// The text that stands for a trace state in a report.
pub open spec fn backtrace_text(b: BacktraceState) -> Seq<char> {
    match b {
        BacktraceState::Captured(t) => "Backtrace:\n"@ + t@,
        BacktraceState::Disabled => "RUST_BACKTRACE must be set to `1` or `full` for the backtrace to be captured."@,
        BacktraceState::Unsupported => "(Backtrace is not supported.)"@,
        BacktraceState::NotImplemented => "(Backtrace is not implemented by the error type.)"@,
    }
}

/// The full text of a report on an error with display text `cause` and trace state `b`.
pub open spec fn report_text(cause: Seq<char>, b: BacktraceState) -> Seq<char> {
    "Error caught, message: "@ + cause + "\n\nBacktrace: "@ + backtrace_text(b) + "\n"@
}

/// Renders a trace state as text.
pub fn render_backtrace(b: &BacktraceState) -> (r: String)
    ensures
        r@ == backtrace_text(*b),
{
    match b {
        BacktraceState::Captured(t) => {
            let mut s = String::from_str("Backtrace:\n");
            s.append(t.as_str());
            s
        },
        BacktraceState::Disabled => String::from_str(
            "RUST_BACKTRACE must be set to `1` or `full` for the backtrace to be captured.",
        ),
        BacktraceState::Unsupported => String::from_str("(Backtrace is not supported.)"),
        BacktraceState::NotImplemented => String::from_str(
            "(Backtrace is not implemented by the error type.)",
        ),
    }
}

/// Builds the text of a report from the error's display text and its trace state.
pub fn format_report(cause_display: &str, b: &BacktraceState) -> (r: String)
    ensures
        r@ == report_text(cause_display@, *b),
{
    let mut s = String::from_str("Error caught, message: ");
    s.append(cause_display);
    s.append("\n\nBacktrace: ");
    let t = render_backtrace(b);
    s.append(t.as_str());
    s.append("\n");
    s
}

} // verus!
