//! What becomes of a message that goes to one upstream server, given how that took it.

use crate::handler::Relay;
use crate::handler::capture::{note_upstream_error, notes_error};
use crate::info::MCPInfo;
use crate::model::{RequestId, RequestIdView};
use crate::session::in_flight::InFlightRegistry;
use crate::session::single::{CallKind, SingleCall, keeps_record, pending};
use crate::upstream::{HttpResponse, UpstreamError, invalid_request};
use vstd::prelude::*;
use vstd::string::*;

verus! {

/// The outcome of a message to one upstream: an upstream that is not there is an error.
pub open spec fn single_outcome<S>(
    r: Result<S, UpstreamError>,
    targets: Seq<Seq<char>>,
    service_name: Seq<char>,
    taken: Result<S, UpstreamError>,
) -> bool {
    if targets.contains(service_name) {
        r == taken
    } else {
        r matches Err(e) && invalid_request(e, "unknown service "@ + service_name)
    }
}

/// What is recorded of a request to one upstream: a failure of the upstream, where a record is
/// kept. An upstream that is not there is no such failure.
pub open spec fn records_single<S>(
    before: Option<MCPInfo>,
    after: Option<MCPInfo>,
    targets: Seq<Seq<char>>,
    service_name: Seq<char>,
    taken: Result<S, UpstreamError>,
) -> bool {
    match (before, taken) {
        (Some(b), Err(e)) => if targets.contains(service_name) {
            after matches Some(a) && notes_error(b, a, e)
        } else {
            after == before
        },
        _ => after == before,
    }
}

impl Relay {
    /// The outcome of a request to one upstream. Where a record is kept, a failure is noted there.
    pub fn send_single<S>(
        &self,
        service_name: &str,
        taken: Result<S, UpstreamError>,
        mcp_log: &mut Option<MCPInfo>,
    ) -> (r: Result<S, UpstreamError>)
        ensures
            single_outcome(r, self@.targets, service_name@, taken),
            records_single(*old(mcp_log), *final(mcp_log), self@.targets, service_name@, taken),
    {
        match self.find_target(service_name) {
            Err(e) => {
                return Err(e);
            },
            Ok(_) => {},
        }
        match taken {
            Ok(s) => Ok(s),
            Err(e) => {
                if let Some(log) = mcp_log.take() {
                    let mut log = log;
                    note_upstream_error(&mut log, &e);
                    *mcp_log = Some(log);
                }
                Err(e)
            },
        }
    }

    /// The outcome of a request to one upstream whose answer is mapped.
    pub fn send_single_map_response<S>(
        &self,
        service_name: &str,
        taken: Result<S, UpstreamError>,
        mcp_log: &mut Option<MCPInfo>,
    ) -> (r: Result<S, UpstreamError>)
        ensures
            single_outcome(r, self@.targets, service_name@, taken),
            records_single(*old(mcp_log), *final(mcp_log), self@.targets, service_name@, taken),
    {
        self.send_single(service_name, taken, mcp_log)
    }

    /// The outcome of a request to one upstream that the client can cancel while it is answered.
    pub fn send_single_map_response_cancellable<S>(
        &self,
        id: RequestId,
        service_name: &str,
        taken: Result<S, UpstreamError>,
        mcp_log: &mut Option<MCPInfo>,
        in_flight: &mut InFlightRegistry,
    ) -> (r: Result<S, UpstreamError>)
        ensures
            single_outcome(r, self@.targets, service_name@, taken),
            records_single(*old(mcp_log), *final(mcp_log), self@.targets, service_name@, taken),
            final(in_flight)@ == (if r is Ok {
                old(in_flight)@.insert(id@, service_name@)
            } else {
                old(in_flight)@
            }),
    {
        match self.send_single(service_name, taken, mcp_log) {
            Ok(s) => {
                in_flight.register(id, service_name.to_owned());
                Ok(s)
            },
            Err(e) => Err(e),
        }
    }

    /// The outcome of a request that passed its checks. A failure of the upstream is recorded
    /// where a record is kept of such requests, and a tool call that is being answered can be
    /// cancelled.
    pub fn send_call<S>(
        &self,
        call: &SingleCall,
        taken: Result<S, UpstreamError>,
        log: &mut MCPInfo,
        in_flight: &mut InFlightRegistry,
    ) -> (r: Result<S, UpstreamError>)
        requires
            pending(call@) is None,
        ensures
            single_outcome(r, self@.targets, call@.target, taken),
            if keeps_record(call@.kind) {
                records_single(
                    Some(*old(log)),
                    Some(*final(log)),
                    self@.targets,
                    call@.target,
                    taken,
                )
            } else {
                *final(log) == *old(log)
            },
            final(in_flight)@ == (if r is Ok && call@.kind == CallKind::Tool {
                old(in_flight)@.insert(call@.id, call@.target)
            } else {
                old(in_flight)@
            }),
    {
        let target = call.target.as_str();
        if !call.keeps_record() {
            let mut unrecorded: Option<MCPInfo> = None;
            return self.send_single_map_response(target, taken, &mut unrecorded);
        }
        let mut info = MCPInfo::default();
        std::mem::swap(&mut info, log);
        let mut kept = Some(info);
        let r = match call.kind {
            CallKind::Tool => self.send_single_map_response_cancellable(
                call.id.copy(),
                target,
                taken,
                &mut kept,
                in_flight,
            ),
            _ => self.send_single_map_response(target, taken, &mut kept),
        };
        if let Some(info) = kept {
            *log = info;
        }
        r
    }

    /// The outcome of a notification to one upstream.
    pub fn send_notification_single(&self, service_name: &str, taken: Result<(), UpstreamError>) -> (r:
        Result<(), UpstreamError>)
        ensures
            single_outcome(r, self@.targets, service_name@, taken),
    {
        match self.find_target(service_name) {
            Err(e) => Err(e),
            Ok(_) => taken,
        }
    }

    /// The outcome of a response or an error of the client that goes to one upstream.
    pub fn send_message_single(&self, service_name: &str, taken: Result<(), UpstreamError>) -> (r:
        Result<(), UpstreamError>)
        ensures
            single_outcome(r, self@.targets, service_name@, taken),
    {
        self.send_notification_single(service_name, taken)
    }
}

/// The answer to a message that is only taken.
pub fn accepted_response() -> (r: HttpResponse)
    ensures
        r.status == 202,
        r.headers@.len() == 0,
        r.body@.len() == 0,
{
    HttpResponse { status: 202, headers: Vec::new(), body: Vec::new() }
}

/// The head of an answer that is a stream of events.
pub fn sse_stream_response() -> (r: HttpResponse)
    ensures
        r.status == 200,
        crate::model::pairs(r.headers@) == seq![
            ("content-type"@, "text/event-stream"@),
            ("cache-control"@, "no-cache"@),
        ],
        r.body@.len() == 0,
{
    let mut headers: Vec<(String, String)> = Vec::new();
    headers.push(("content-type".to_owned(), "text/event-stream".to_owned()));
    headers.push(("cache-control".to_owned(), "no-cache".to_owned()));
    assert(crate::model::pairs(headers@) =~= seq![
        ("content-type"@, "text/event-stream"@),
        ("cache-control"@, "no-cache"@),
    ]);
    HttpResponse { status: 200, headers, body: Vec::new() }
}

/// A request that was cancelled is forgotten, and its cancellation goes to the upstream that
/// answered it.
pub proof fn law_cancellation_finds_the_upstream(
    relay: crate::handler::RelayView,
    in_flight: Map<RequestIdView, Seq<char>>,
    id: RequestIdView,
    target: Seq<char>,
    rest: crate::json::JsonView,
)
    ensures
        ({
            let n = crate::client::ClientNotificationView::CancelledNotification(id, rest);
            let registered = in_flight.insert(id, target);
            &&& crate::session::dispatch::notification_plan(relay, registered, n)
                == crate::session::dispatch::NotificationPlanView::One(target, n)
            &&& !crate::session::dispatch::after_notification(registered, n).dom().contains(id)
        }),
{
}

} // verus!
