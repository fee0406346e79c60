//! A request that goes to one upstream: what it is about there, what it must pass, and what is
//! sent in the end.

use crate::client::{ClientRequest, ClientRequestView, Reference, ReferenceView, subject_of, with_subject};
use crate::federation_outbound::OutboundMap;
use crate::handler::capture::{note_denial, notes_denial};
use crate::info::{MCPInfo, ResourceId, ResourceType};
use crate::model::{RequestId, RequestIdView};
use crate::text;
use crate::upstream::UpstreamError;
use vstd::prelude::*;
use vstd::string::*;

verus! {

/// The kinds of requests that go to one upstream.
#[derive(Debug, Clone, Copy, PartialEq, Eq, Structural)]
pub enum CallKind {
    Tool,
    Prompt,
    ReadResource,
    Subscription,
    Task,
    CompletePrompt,
    CompleteResource,
}

/// The kind of a request; `None` for those that do not go to one upstream.
pub open spec fn kind_of(request: ClientRequestView) -> Option<CallKind> {
    match request {
        ClientRequestView::CallToolRequest(_, _, _) => Some(CallKind::Tool),
        ClientRequestView::GetPromptRequest(_, _) => Some(CallKind::Prompt),
        ClientRequestView::ReadResourceRequest(_, _) => Some(CallKind::ReadResource),
        ClientRequestView::SubscribeRequest(_, _) => Some(CallKind::Subscription),
        ClientRequestView::UnsubscribeRequest(_, _) => Some(CallKind::Subscription),
        ClientRequestView::GetTaskInfoRequest(_, _) => Some(CallKind::Task),
        ClientRequestView::GetTaskResultRequest(_, _) => Some(CallKind::Task),
        ClientRequestView::CancelTaskRequest(_, _) => Some(CallKind::Task),
        ClientRequestView::CompleteRequest(ReferenceView::Prompt(_, _), _) => Some(
            CallKind::CompletePrompt,
        ),
        ClientRequestView::CompleteRequest(ReferenceView::Resource(_), _) => Some(
            CallKind::CompleteResource,
        ),
        _ => None,
    }
}

/// The kind of the request.
pub fn call_kind(request: &ClientRequest) -> (r: Option<CallKind>)
    ensures
        r == kind_of(request@),
{
    match request {
        ClientRequest::CallToolRequest { name: _, arguments: _, rest: _ } => Some(CallKind::Tool),
        ClientRequest::GetPromptRequest { name: _, rest: _ } => Some(CallKind::Prompt),
        ClientRequest::ReadResourceRequest { uri: _, rest: _ } => Some(CallKind::ReadResource),
        ClientRequest::SubscribeRequest { uri: _, rest: _ } => Some(CallKind::Subscription),
        ClientRequest::UnsubscribeRequest { uri: _, rest: _ } => Some(CallKind::Subscription),
        ClientRequest::GetTaskInfoRequest { task_id: _, rest: _ } => Some(CallKind::Task),
        ClientRequest::GetTaskResultRequest { task_id: _, rest: _ } => Some(CallKind::Task),
        ClientRequest::CancelTaskRequest { task_id: _, rest: _ } => Some(CallKind::Task),
        ClientRequest::CompleteRequest { reference, rest: _ } => match reference {
            Reference::Prompt { name: _, title: _ } => Some(CallKind::CompletePrompt),
            Reference::Resource { uri: _ } => Some(CallKind::CompleteResource),
        },
        _ => None,
    }
}

/// What a request must pass before it is sent.
#[derive(Debug, Clone, Copy, PartialEq, Eq, Structural)]
pub enum Check {
    /// The request-phase guardrails of its method. They may change the request.
    Guardrails,
    /// The authorization policy, on the thing at the upstream.
    Policy,
}

/// What requests of a kind must pass, in order.
///
/// For tools and prompts guardrails come first, since they may add to what the policy reads.
/// Subscriptions, completions and requests about tasks have no guardrails.
pub open spec fn checks(kind: CallKind) -> Seq<Check> {
    match kind {
        CallKind::Tool => seq![Check::Guardrails, Check::Policy],
        CallKind::Prompt => seq![Check::Guardrails, Check::Policy],
        CallKind::ReadResource => seq![Check::Policy, Check::Guardrails],
        _ => seq![Check::Policy],
    }
}

/// What a thing of a kind is called when it is denied.
pub open spec fn kind_label(kind: CallKind) -> Seq<char> {
    match kind {
        CallKind::Tool => "tool"@,
        CallKind::Prompt => "prompt"@,
        CallKind::CompletePrompt => "prompt"@,
        CallKind::Task => "task"@,
        _ => "resource"@,
    }
}

/// How messages that answer requests of a kind become what the client sees.
pub open spec fn kind_map(kind: CallKind) -> OutboundMap {
    match kind {
        CallKind::Tool => OutboundMap::ToolsCall,
        CallKind::ReadResource => OutboundMap::ReadResource,
        CallKind::Subscription => OutboundMap::Mux,
        CallKind::Task => OutboundMap::Mux,
        _ => OutboundMap::Single,
    }
}

/// Whether it is recorded how requests of a kind end: tool calls, requests for a prompt and the
/// reading of resources. Of subscriptions, completions and requests about tasks it is not.
pub open spec fn keeps_record(kind: CallKind) -> bool {
    kind == CallKind::Tool || kind == CallKind::Prompt || kind == CallKind::ReadResource
}

/// A request on its way to one upstream.
#[derive(Debug, PartialEq, Eq)]
pub struct SingleCall {
    pub id: RequestId,
    pub kind: CallKind,
    /// The upstream.
    pub target: String,
    /// What the request is about, as the upstream knows it.
    pub upstream_name: String,
    /// What the request is about, as the client knows it.
    pub client_name: String,
    /// The request as it will be sent.
    pub request: ClientRequest,
    /// How many of the checks are passed.
    pub passed: usize,
}

/// The mathematical request on its way.
pub struct SingleCallView {
    pub id: RequestIdView,
    pub kind: CallKind,
    pub target: Seq<char>,
    pub upstream_name: Seq<char>,
    pub client_name: Seq<char>,
    pub request: ClientRequestView,
    pub passed: int,
}

impl View for SingleCall {
    type V = SingleCallView;

    open spec fn view(&self) -> SingleCallView {
        SingleCallView {
            id: self.id@,
            kind: self.kind,
            target: self.target@,
            upstream_name: self.upstream_name@,
            client_name: self.client_name@,
            request: self.request@,
            passed: self.passed as int,
        }
    }
}

/// The check that comes next; `None` where the request may be sent.
pub open spec fn pending(call: SingleCallView) -> Option<Check> {
    if 0 <= call.passed < checks(call.kind).len() {
        Some(checks(call.kind)[call.passed])
    } else {
        None
    }
}

/// A request that has passed nothing yet.
pub open spec fn fresh_call(
    id: RequestIdView,
    kind: CallKind,
    target: Seq<char>,
    upstream_name: Seq<char>,
    request: ClientRequestView,
) -> SingleCallView {
    SingleCallView {
        id,
        kind,
        target,
        upstream_name,
        client_name: subject_of(request)->0,
        request: with_subject(request, upstream_name),
        passed: 0,
    }
}

/// How a check ends.
pub enum Verdict {
    /// The policy allows the request, or not.
    Policy(bool),
    /// The guardrails let the request pass as it is.
    Pass,
    /// The guardrails let the request pass as this one.
    Mutated(ClientRequestView),
    /// The guardrails reject the request.
    Reject,
}

/// The request after the guardrails changed it. A tool or a prompt stays the one that was
/// resolved.
pub open spec fn after_mutation(call: SingleCallView, request: ClientRequestView) -> ClientRequestView {
    if call.kind == CallKind::Tool || call.kind == CallKind::Prompt {
        with_subject(request, call.upstream_name)
    } else {
        request
    }
}

/// The request after one more check; `None` where it is refused.
pub open spec fn step(call: SingleCallView, verdict: Verdict) -> Option<SingleCallView> {
    match (pending(call), verdict) {
        (Some(Check::Policy), Verdict::Policy(true)) => Some(
            SingleCallView { passed: call.passed + 1, ..call },
        ),
        (Some(Check::Guardrails), Verdict::Pass) => Some(
            SingleCallView { passed: call.passed + 1, ..call },
        ),
        (Some(Check::Guardrails), Verdict::Mutated(request)) => Some(
            SingleCallView {
                passed: call.passed + 1,
                request: after_mutation(call, request),
                ..call
            },
        ),
        _ => None,
    }
}

/// The thing that the policy decides on.
pub open spec fn policed(call: SingleCallView, resource: ResourceType) -> bool {
    match (call.kind, resource) {
        (CallKind::Tool, ResourceType::Tool(id)) => id.target@ == call.target && id.name@
            == call.upstream_name,
        (CallKind::Prompt, ResourceType::Prompt(id)) => id.target@ == call.target && id.name@
            == call.upstream_name,
        (CallKind::CompletePrompt, ResourceType::Prompt(id)) => id.target@ == call.target
            && id.name@ == call.upstream_name,
        (CallKind::Task, ResourceType::Task(id)) => id.target@ == call.target && id.name@
            == call.upstream_name,
        (CallKind::ReadResource, ResourceType::Resource(id)) => id.target@ == call.target
            && id.name@ == call.upstream_name,
        (CallKind::Subscription, ResourceType::Resource(id)) => id.target@ == call.target
            && id.name@ == call.upstream_name,
        (CallKind::CompleteResource, ResourceType::Resource(id)) => id.target@ == call.target
            && id.name@ == call.upstream_name,
        _ => false,
    }
}

impl SingleCall {
    /// The check that comes next; `None` where the request may be sent.
    pub fn pending(&self) -> (r: Option<Check>)
        ensures
            r == pending(self@),
    {
        match self.kind {
            CallKind::Tool | CallKind::Prompt => if self.passed == 0 {
                Some(Check::Guardrails)
            } else if self.passed == 1 {
                Some(Check::Policy)
            } else {
                None
            },
            CallKind::ReadResource => if self.passed == 0 {
                Some(Check::Policy)
            } else if self.passed == 1 {
                Some(Check::Guardrails)
            } else {
                None
            },
            _ => if self.passed == 0 {
                Some(Check::Policy)
            } else {
                None
            },
        }
    }

    /// The thing that the policy decides on.
    pub fn resource(&self) -> (r: ResourceType)
        ensures
            policed(self@, r),
    {
        let id = ResourceId::new(self.target.clone(), self.upstream_name.clone());
        match self.kind {
            CallKind::Tool => ResourceType::Tool(id),
            CallKind::Prompt | CallKind::CompletePrompt => ResourceType::Prompt(id),
            CallKind::Task => ResourceType::Task(id),
            _ => ResourceType::Resource(id),
        }
    }

    /// The name of the span of a request with this method.
    pub fn span_name(&self, method: &str) -> (r: String)
        ensures
            r@ == method@ + " "@ + self@.target,
    {
        text::concat3(method, " ", self.target.as_str())
    }

    /// Whether it is recorded how the request ends.
    pub fn keeps_record(&self) -> (r: bool)
        ensures
            r == keeps_record(self@.kind),
    {
        match self.kind {
            CallKind::Tool | CallKind::Prompt | CallKind::ReadResource => true,
            _ => false,
        }
    }

    /// How messages that answer the request become what the client sees.
    pub fn outbound_map(&self) -> (r: OutboundMap)
        ensures
            r == kind_map(self@.kind),
    {
        match self.kind {
            CallKind::Tool => OutboundMap::ToolsCall,
            CallKind::ReadResource => OutboundMap::ReadResource,
            CallKind::Subscription | CallKind::Task => OutboundMap::Mux,
            _ => OutboundMap::Single,
        }
    }

    /// Takes the decision of the policy. What is denied is called by the name that the client
    /// gave, and the denial is recorded.
    pub fn policy_decided(&mut self, allowed: bool, log: &mut MCPInfo) -> (r: Result<
        (),
        UpstreamError,
    >)
        requires
            pending(old(self)@) == Some(Check::Policy),
        ensures
            match step(old(self)@, Verdict::Policy(allowed)) {
                Some(next) => r is Ok && final(self)@ == next && *final(log) == *old(log),
                None => {
                    &&& r matches Err(UpstreamError::Authorization { resource_type, resource_name })
                        && resource_type@ == kind_label(old(self)@.kind) && resource_name@
                        == old(self)@.client_name
                    &&& final(self)@ == old(self)@
                    &&& notes_denial(*old(log), *final(log), r->Err_0)
                },
            },
    {
        if allowed {
            self.passed += 1;
            return Ok(());
        }
        let label = match self.kind {
            CallKind::Tool => "tool",
            CallKind::Prompt | CallKind::CompletePrompt => "prompt",
            CallKind::Task => "task",
            _ => "resource",
        };
        let e = UpstreamError::Authorization {
            resource_type: label.to_owned(),
            resource_name: self.client_name.clone(),
        };
        note_denial(log, &e);
        Err(e)
    }

    /// Takes the outcome of the guardrails: a refusal, or the request, changed where they changed
    /// it.
    pub fn guardrails_ran(&mut self, outcome: Result<Option<ClientRequest>, UpstreamError>) -> (r:
        Result<(), UpstreamError>)
        requires
            pending(old(self)@) == Some(Check::Guardrails),
        ensures
            match outcome {
                Ok(None) => r is Ok && Some(final(self)@) == step(old(self)@, Verdict::Pass),
                Ok(Some(request)) => r is Ok && Some(final(self)@) == step(
                    old(self)@,
                    Verdict::Mutated(request@),
                ),
                Err(e) => r == Err::<(), UpstreamError>(e) && final(self)@ == old(self)@,
            },
    {
        match outcome {
            Err(e) => Err(e),
            Ok(None) => {
                self.passed += 1;
                Ok(())
            },
            Ok(Some(request)) => {
                let mut request = request;
                if self.kind == CallKind::Tool || self.kind == CallKind::Prompt {
                    request.set_subject(self.upstream_name.clone());
                }
                self.request = request;
                self.passed += 1;
                Ok(())
            },
        }
    }
}

/// The request after a series of checks; `None` where one refused it.
pub open spec fn run(call: SingleCallView, verdicts: Seq<Verdict>) -> Option<SingleCallView>
    decreases verdicts.len(),
{
    if verdicts.len() == 0 {
        Some(call)
    } else {
        match run(call, verdicts.drop_last()) {
            Some(before) => step(before, verdicts.last()),
            None => None,
        }
    }
}

/// What `run` keeps, and which checks were passed.
proof fn lemma_run(call: SingleCallView, verdicts: Seq<Verdict>)
    requires
        call.passed == 0,
        run(call, verdicts) is Some,
    ensures
        run(call, verdicts)->0.passed == verdicts.len(),
        verdicts.len() <= checks(call.kind).len(),
        run(call, verdicts)->0.kind == call.kind,
        run(call, verdicts)->0.target == call.target,
        run(call, verdicts)->0.upstream_name == call.upstream_name,
        forall|i: int|
            0 <= i < verdicts.len() ==> match checks(call.kind)[i] {
                Check::Policy => #[trigger] verdicts[i] == Verdict::Policy(true),
                Check::Guardrails => verdicts[i] is Pass || verdicts[i] is Mutated,
            },
    decreases verdicts.len(),
{
    if verdicts.len() > 0 {
        let head = verdicts.drop_last();
        lemma_run(call, head);
        let before = run(call, head)->0;
        assert(step(before, verdicts.last()) is Some);
        assert forall|i: int| 0 <= i < verdicts.len() implies match checks(call.kind)[i] {
            Check::Policy => #[trigger] verdicts[i] == Verdict::Policy(true),
            Check::Guardrails => verdicts[i] is Pass || verdicts[i] is Mutated,
        } by {
            if i < head.len() {
                assert(head[i] == verdicts[i]);
            }
        }
    }
}

/// Nothing is sent to an upstream that the policy did not allow, whatever the guardrails did; and
/// what has guardrails is not sent before they let it pass.
pub proof fn law_sent_only_if_allowed(call: SingleCallView, verdicts: Seq<Verdict>)
    requires
        call.passed == 0,
        run(call, verdicts) is Some,
        pending(run(call, verdicts)->0) is None,
    ensures
        verdicts.contains(Verdict::Policy(true)),
        checks(call.kind).contains(Check::Guardrails) ==> exists|i: int|
            0 <= i < verdicts.len() && ((#[trigger] verdicts[i]) is Pass || verdicts[i] is Mutated),
{
    lemma_run(call, verdicts);
    assert(verdicts.len() == checks(call.kind).len());
    if call.kind == CallKind::Tool || call.kind == CallKind::Prompt {
        assert(verdicts[1] == Verdict::Policy(true));
        assert(verdicts[0] is Pass || verdicts[0] is Mutated);
    } else if call.kind == CallKind::ReadResource {
        assert(verdicts[0] == Verdict::Policy(true));
        assert(verdicts[1] is Pass || verdicts[1] is Mutated);
    } else {
        assert(verdicts[0] == Verdict::Policy(true));
        assert forall|i: int| 0 <= i < checks(call.kind).len() implies #[trigger] checks(
            call.kind,
        )[i] != Check::Guardrails by {}
    }
}

/// A tool call or a request for a prompt is sent under the name that the policy decided on, even
/// where the guardrails changed it, as long as they keep it what it was.
pub proof fn law_guardrails_cannot_redirect(call: SingleCallView, verdicts: Seq<Verdict>)
    requires
        call.passed == 0,
        call.kind == CallKind::Tool || call.kind == CallKind::Prompt,
        kind_of(call.request) == Some(call.kind),
        subject_of(call.request) == Some(call.upstream_name),
        forall|i: int|
            0 <= i < verdicts.len() ==> ((#[trigger] verdicts[i]) matches Verdict::Mutated(request)
                ==> kind_of(request) == Some(call.kind)),
        run(call, verdicts) is Some,
    ensures
        subject_of(run(call, verdicts)->0.request) == Some(call.upstream_name),
        kind_of(run(call, verdicts)->0.request) == Some(call.kind),
    decreases verdicts.len(),
{
    if verdicts.len() > 0 {
        let head = verdicts.drop_last();
        assert forall|i: int| 0 <= i < head.len() implies ((#[trigger] head[i]) matches
            Verdict::Mutated(request) ==> kind_of(request) == Some(call.kind)) by {
            assert(head[i] == verdicts[i]);
        }
        law_guardrails_cannot_redirect(call, head);
        lemma_run(call, head);
        assert(verdicts[verdicts.len() - 1] == verdicts.last());
    }
}

} // verus!
