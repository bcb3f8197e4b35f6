use vstd::prelude::*;
use crate::error::{ReportableError, ReporterError};
use crate::report_text::{format_report, report_text, BacktraceState};
use crate::split::{fragments, fragments_spec, views, FragmentMode};
use crate::transport::{
    classify_response, json_string_of, parse_destination, rejection, request_body,
    success_status, text_payload, uri_accepts,
};

verus! {

/// What the caller does next for a delivery in progress.
#[derive(Debug)]
pub enum Step {
    /// POST this JSON body to the destination, then record what came back.
    Post(String),
    /// Nothing more to send.
    Finished,
}

/// The delivery of one report, fragment by fragment, in order, stopping at
/// the first failure. The caller performs each POST and records its result.
pub struct Delivery {
    destination: Option<hyper::Uri>,
    fragments: Vec<String>,
    sent: usize,
    outcome: Option<ReporterError>,
}

/// The state of a delivery: the fragments to send, how many of them the server
/// accepted, and the failure that stopped it, if any.
pub ghost struct DeliveryModel {
    pub has_destination: bool,
    pub fragments: Seq<Seq<char>>,
    pub sent: nat,
    pub outcome: Option<ReporterError>,
}

impl DeliveryModel {
    /// No more fragments will be sent: one failed, or all were accepted.
    pub open spec fn finished(self) -> bool {
        self.outcome is Some || self.sent >= self.fragments.len()
    }

    /// The same state, with one more fragment accepted.
    pub open spec fn accepted(self) -> DeliveryModel {
        DeliveryModel { sent: self.sent + 1, ..self }
    }

    /// The same state, stopped by `e`.
    pub open spec fn failed(self, e: ReporterError) -> DeliveryModel {
        DeliveryModel { outcome: Some(e), ..self }
    }
}

impl View for Delivery {
    type V = DeliveryModel;

    closed spec fn view(&self) -> DeliveryModel {
        DeliveryModel {
            has_destination: self.destination is Some,
            fragments: views(self.fragments@),
            sent: self.sent as nat,
            outcome: self.outcome,
        }
    }
}

/// The state in which a delivery of `text` to `webhook` under `mode` starts.
/// An invalid destination, or a text that cannot be split, stops it before
/// anything is sent.
pub open spec fn start_model(webhook: Seq<char>, text: Seq<char>, mode: FragmentMode, m: DeliveryModel) -> bool {
    &&& m.sent == 0
    &&& m.has_destination == uri_accepts(webhook)
    &&& if !uri_accepts(webhook) {
        &&& m.fragments.len() == 0
        &&& m.outcome matches Some(e) && e matches ReporterError::InvalidUrl(u) && u@ == webhook
    } else if fragments_spec(text, mode) is None {
        &&& m.fragments.len() == 0
        &&& m.outcome == Some(ReporterError::MsgSplitFail)
    } else {
        &&& m.fragments == fragments_spec(text, mode)->0
        &&& m.outcome is None
    }
}

/// A fragment that the server rejects ends the delivery: the rejection is the
/// outcome, the count of accepted fragments stays where it was, and no later
/// fragment is posted, since a finished delivery has no step but `Finished`.
pub proof fn lemma_rejection_ends_delivery(
    m: DeliveryModel,
    code: u16,
    body: Seq<u8>,
    e: ReporterError,
)
    requires
        !m.finished(),
        !success_status(code),
        rejection(code, body, e),
    ensures
        m.failed(e).finished(),
        m.failed(e).outcome == Some(e),
        m.failed(e).sent == m.sent,
        m.failed(e).fragments == m.fragments,
{
}

/// A delivery that meets no failure posts the fragments in order, one per
/// accepted response, and is finished exactly when all are accepted.
pub proof fn lemma_acceptance_advances(m: DeliveryModel)
    requires
        !m.finished(),
    ensures
        m.accepted().sent == m.sent + 1,
        m.accepted().fragments == m.fragments,
        m.accepted().finished() <==> m.sent + 1 == m.fragments.len(),
{
}

impl Delivery {
    pub closed spec fn wf(&self) -> bool {
        &&& self.sent <= self.fragments.len()
        &&& self.destination is None ==> self.fragments.len() == 0
    }

    /// Starts the delivery of `text` to `webhook`, cut into messages under `mode`.
    pub fn start(webhook: &str, text: &str, mode: FragmentMode) -> (r: Delivery)
        ensures
            r.wf(),
            start_model(webhook@, text@, mode, r@),
    {
        match parse_destination(webhook) {
            Err(e) => Delivery { destination: None, fragments: Vec::new(), sent: 0, outcome: Some(e) },
            Ok(uri) => match fragments(text, mode) {
                Err(e) => Delivery {
                    destination: Some(uri),
                    fragments: Vec::new(),
                    sent: 0,
                    outcome: Some(e),
                },
                Ok(v) => Delivery { destination: Some(uri), fragments: v, sent: 0, outcome: None },
            },
        }
    }

    /// Starts the delivery of the report on an error whose display text is
    /// `cause_display` and whose trace state is `backtrace`.
    pub fn for_error(
        cause_display: &str,
        backtrace: &BacktraceState,
        webhook: &str,
        mode: FragmentMode,
    ) -> (r: Delivery)
        ensures
            r.wf(),
            start_model(webhook@, report_text(cause_display@, *backtrace), mode, r@),
    {
        let text = format_report(cause_display, backtrace);
        Delivery::start(webhook, text.as_str(), mode)
    }

    /// The parsed destination; absent when the given one was not a URI.
    pub fn destination(&self) -> (r: Option<&hyper::Uri>)
        ensures
            r is Some == self@.has_destination,
    {
        match &self.destination {
            Some(u) => Some(u),
            None => None,
        }
    }

    /// Whether the delivery is over.
    pub fn is_finished(&self) -> (r: bool)
        requires
            self.wf(),
        ensures
            r == self@.finished(),
    {
        self.outcome.is_some() || self.sent >= self.fragments.len()
    }

    /// How many fragments the server has accepted so far.
    pub fn sent(&self) -> (r: usize)
        ensures
            r == self@.sent,
    {
        self.sent
    }

    /// The failure that stopped the delivery, if one did.
    pub fn outcome(&self) -> (r: Option<&ReporterError>)
        ensures
            r matches Some(e) ==> self@.outcome == Some(*e),
            r is None <==> self@.outcome is None,
    {
        match &self.outcome {
            Some(e) => Some(e),
            None => None,
        }
    }

    /// The next thing to do: POST the body of the first fragment not yet
    /// accepted, or nothing when the delivery is over.
    pub fn next_step(&mut self) -> (r: Step)
        requires
            old(self).wf(),
        ensures
            final(self).wf(),
            old(self)@.finished() ==> r is Finished && final(self)@ == old(self)@,
            !old(self)@.finished() ==> (r matches Step::Post(b) && final(self)@ == old(self)@
                && b@ == text_payload(json_string_of(old(self)@.fragments[old(self)@.sent as int]))),
    {
        if self.is_finished() {
            return Step::Finished;
        }
        match request_body(self.fragments[self.sent].as_str()) {
            Ok(b) => Step::Post(b),
            Err(e) => {
                self.outcome = Some(e);
                Step::Finished
            },
        }
    }

    /// Records the server's answer to the fragment just posted: the fragment
    /// counts as accepted on a status of 200 to 204, and any other status
    /// stops the delivery. Nothing changes once the delivery is over.
    pub fn record_response(&mut self, code: u16, body: Vec<u8>)
        requires
            old(self).wf(),
        ensures
            final(self).wf(),
            old(self)@.finished() ==> final(self)@ == old(self)@,
            !old(self)@.finished() && success_status(code) ==> final(self)@ == old(self)@.accepted(),
            !old(self)@.finished() && !success_status(code) ==> (final(self)@.outcome matches Some(e)
                && rejection(code, body@, e) && final(self)@ == old(self)@.failed(e)),
    {
        if self.is_finished() {
            return;
        }
        match classify_response(code, body) {
            Ok(()) => {
                self.sent = self.sent + 1;
            },
            Err(e) => {
                self.outcome = Some(e);
            },
        }
    }

    /// Records that the HTTP client failed on the fragment just posted; this
    /// stops the delivery. Nothing changes once the delivery is over.
    pub fn record_transport_failure(&mut self, e: hyper::Error)
        requires
            old(self).wf(),
        ensures
            final(self).wf(),
            old(self)@.finished() ==> final(self)@ == old(self)@,
            !old(self)@.finished() ==> final(self)@ == old(self)@.failed(ReporterError::HyperError(e)),
    {
        if self.is_finished() {
            return;
        }
        self.outcome = Some(ReporterError::HyperError(e));
    }

    /// Ends a finished delivery: the cause, together with the failure that stopped it, if any.
    pub fn finish<E>(self, cause: E) -> (r: ReportableError<E>)
        requires
            self@.finished(),
        ensures
            r.cause == cause,
            r.reporter_error == self@.outcome,
    {
        ReportableError::with_outcome(cause, self.outcome)
    }
}

} // verus!
