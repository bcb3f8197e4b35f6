use vstd::prelude::*;
use crate::text::{decimal, push_decimal};

verus! {

#[verifier::external_type_specification]
#[verifier::external_body]
pub struct ExSerdeJsonError(serde_json::Error);

#[verifier::external_type_specification]
#[verifier::external_body]
pub struct ExHyperError(hyper::Error);

/// Why a report could not be delivered: the first failure met on the way.
#[derive(Debug)]
pub enum ReporterError {
    /// The destination does not parse as a URI; it is kept as given.
    InvalidUrl(String),
    /// The request body could not be encoded as JSON.
    SerializationError(serde_json::Error),
    /// The HTTP client failed: connecting, sending, or reading the response.
    HyperError(hyper::Error),
    /// The server answered with a status outside 200..=204 and this UTF-8 body.
    ServerError(u16, String),
    /// The server answered with a status outside 200..=204 and a body that is not UTF-8.
    ServerResponseNotUtf8(u16),
    /// The report holds a line too long for a single fragment.
    MsgSplitFail,
}

/// Relies on `Display` of `serde_json::Error`: the error's description.
#[verifier::external_body]
fn serde_error_text(e: &serde_json::Error) -> String {
    e.to_string()
}

/// Relies on `Display` of `hyper::Error`: the error's description and cause.
#[verifier::external_body]
fn hyper_error_text(e: &hyper::Error) -> String {
    e.to_string()
}

/// The text of an error whose text is determined by its plain fields;
/// `None` for the two variants that wrap an opaque client or encoder error.
pub open spec fn known_message(e: ReporterError) -> Option<Seq<char>> {
    match e {
        ReporterError::InvalidUrl(url) => Some("invalid url: "@ + url@),
        ReporterError::ServerError(code, msg) => Some(
            "server returned an unokay http code "@ + decimal(code as nat) + ", message: "@ + msg@,
        ),
        ReporterError::ServerResponseNotUtf8(code) => Some(
            "server returned an unokay http code "@ + decimal(code as nat)
                + ", however, message is not utf-8"@,
        ),
        ReporterError::MsgSplitFail => Some(
            "reporter error: embedded message has a line exceeding 2k characters, splitting failed."@,
        ),
        _ => None,
    }
}

/// The fixed start of an error's text.
pub open spec fn message_prefix(e: ReporterError) -> Seq<char> {
    match e {
        ReporterError::SerializationError(_) => "error while serialization: "@,
        ReporterError::HyperError(_) => "hyper error: "@,
        _ => known_message(e)->0,
    }
}

impl ReporterError {
    /// The client error underneath, for a transport-level failure.
    pub fn hyper_error(&self) -> (r: Option<&hyper::Error>)
        ensures
            self matches ReporterError::HyperError(h) ==> r == Some(h),
            !(self is HyperError) ==> r is None,
    {
        match self {
            ReporterError::HyperError(h) => Some(h),
            _ => None,
        }
    }

    /// The human-readable text of this error.
    pub fn message(&self) -> (r: String)
        ensures
            known_message(*self) matches Some(t) ==> r@ == t,
            r@.len() >= message_prefix(*self).len(),
            r@.take(message_prefix(*self).len() as int) == message_prefix(*self),
    {
        let mut s = String::new();
        match self {
            ReporterError::InvalidUrl(url) => {
                s.append("invalid url: ");
                s.append(url.as_str());
            },
            ReporterError::SerializationError(se) => {
                s.append("error while serialization: ");
                let t = serde_error_text(se);
                s.append(t.as_str());
            },
            ReporterError::HyperError(he) => {
                s.append("hyper error: ");
                let t = hyper_error_text(he);
                s.append(t.as_str());
            },
            ReporterError::ServerError(code, msg) => {
                s.append("server returned an unokay http code ");
                push_decimal(&mut s, *code);
                s.append(", message: ");
                s.append(msg.as_str());
            },
            ReporterError::ServerResponseNotUtf8(code) => {
                s.append("server returned an unokay http code ");
                push_decimal(&mut s, *code);
                s.append(", however, message is not utf-8");
            },
            ReporterError::MsgSplitFail => {
                s.append(
                    "reporter error: embedded message has a line exceeding 2k characters, splitting failed.",
                );
            },
        }
        s
    }
}


/// An error that went through reporting: the original cause, and the
/// first failure met while delivering the report, if there was one.
#[derive(Debug)]
pub struct ReportableError<E> {
    pub cause: E,
    pub reporter_error: Option<ReporterError>,
}

/// The text of a reported error whose cause displays as `cause`; `outcome` is
/// the text of the delivery failure, if delivery failed.
pub open spec fn composite_text(cause: Seq<char>, outcome: Option<Seq<char>>) -> Seq<char> {
    match outcome {
        None => "successfully reported: "@ + cause,
        Some(t) => "failed to report the error: "@ + cause + "\n"@
            + "reporter failed to report the error: "@ + t,
    }
}

impl<E> From<E> for ReportableError<E> {
    fn from(cause: E) -> (r: Self) {
        ReportableError { cause, reporter_error: None }
    }
}

impl<E> vstd::std_specs::convert::FromSpecImpl<E> for ReportableError<E> {
    open spec fn obeys_from_spec() -> bool {
        true
    }

    open spec fn from_spec(cause: E) -> Self {
        ReportableError { cause, reporter_error: None }
    }
}

impl<E> ReportableError<E> {
    /// Wraps a cause whose report was delivered.
    pub fn new(cause: E) -> (r: Self)
        ensures
            r.cause == cause,
            r.reporter_error is None,
    {
        ReportableError { cause, reporter_error: None }
    }

    /// Wraps a cause together with the outcome of delivering its report.
    pub fn with_outcome(cause: E, outcome: Option<ReporterError>) -> (r: Self)
        ensures
            r.cause == cause,
            r.reporter_error == outcome,
    {
        ReportableError { cause, reporter_error: outcome }
    }

    /// The original error.
    pub fn cause(&self) -> (r: &E)
        ensures
            *r == self.cause,
    {
        &self.cause
    }

    /// Whether the report was delivered in full.
    pub fn is_reported(&self) -> (r: bool)
        ensures
            r == self.reporter_error is None,
    {
        self.reporter_error.is_none()
    }

    /// The text of this error, given the display text of its cause: one line
    /// on success, and on failure a second line with the delivery failure.
    pub fn render(&self, cause_display: &str) -> (r: String)
        ensures
            self.reporter_error is None ==> r@ == composite_text(cause_display@, None),
            self.reporter_error matches Some(e) ==> (known_message(e) is Some ==> r@
                == composite_text(cause_display@, known_message(e))),
            self.reporter_error matches Some(e) ==> r@.len() >= composite_text(
                cause_display@,
                Some(message_prefix(e)),
            ).len() && r@.take(composite_text(cause_display@, Some(message_prefix(e))).len() as int)
                == composite_text(cause_display@, Some(message_prefix(e))),
    {
        match &self.reporter_error {
            None => {
                let mut s = String::from_str("successfully reported: ");
                s.append(cause_display);
                s
            },
            Some(e) => {
                let mut s = String::from_str("failed to report the error: ");
                s.append(cause_display);
                s.append("\n");
                s.append("reporter failed to report the error: ");
                let t = e.message();
                s.append(t.as_str());
                assert(s@.take(composite_text(cause_display@, Some(message_prefix(*e))).len() as int)
                    =~= composite_text(cause_display@, Some(message_prefix(*e))));
                s
            },
        }
    }
}

} // verus!
