//! Messages of a client that keeps no session: each is wrapped in an initialization of its own.

use crate::client::{
    ClientCapabilities, ClientCapabilitiesView, ClientInfo, ClientInfoView, ClientJsonRpcMessage,
    ClientJsonRpcMessageView, ClientNotification, ClientNotificationView, ClientRequest,
    ClientRequestView,
};
use crate::handler::{Relay, RelayView, prompt_route, tool_route};
use crate::json::{Json, JsonView};
use crate::model::{RequestId, RequestIdView, opt_str};
use crate::session::dispatch::{PlanView, plan};
use crate::upstream::{UpstreamError, invalid_request};
use vstd::prelude::*;
use vstd::string::*;

verus! {

/// What the gateway says of itself to the upstreams.
pub open spec fn gateway_client(build_version: Seq<char>) -> ClientInfoView {
    ClientInfoView {
        protocol_version: "2025-11-25"@,
        capabilities: ClientCapabilitiesView {
            roots: None,
            sampling: None,
            elicitation: None,
            rest: JsonView::Null,
        },
        name: "agentgateway"@,
        version: build_version,
        rest: JsonView::Null,
    }
}

/// What the gateway says of itself to the upstreams.
pub fn get_client_info(build_version: &str) -> (r: ClientInfo)
    ensures
        r@ == gateway_client(build_version@),
{
    ClientInfo {
        protocol_version: "2025-11-25".to_owned(),
        capabilities: ClientCapabilities {
            roots: None,
            sampling: None,
            elicitation: None,
            rest: Json::Null,
        },
        name: "agentgateway".to_owned(),
        version: build_version.to_owned(),
        rest: Json::Null,
    }
}

/// How widely the upstreams are initialized before a message.
#[derive(Debug, PartialEq, Eq)]
pub enum InitScope {
    /// Not at all: the message does so itself.
    Nothing,
    /// Only this upstream, since the message goes to no other.
    One(String),
    /// All upstreams.
    All,
}

/// The mathematical scope.
pub enum InitScopeView {
    Nothing,
    One(Seq<char>),
    All,
}

impl View for InitScope {
    type V = InitScopeView;

    open spec fn view(&self) -> InitScopeView {
        match self {
            InitScope::Nothing => InitScopeView::Nothing,
            InitScope::One(target) => InitScopeView::One(target@),
            InitScope::All => InitScopeView::All,
        }
    }
}

/// The scope of the upstream of a route, or why there is none.
pub open spec fn scope_of_route(route: Result<(Seq<char>, Seq<char>), Seq<char>>) -> Result<
    InitScopeView,
    Seq<char>,
> {
    match route {
        Ok((target, _)) => Ok(InitScopeView::One(target)),
        Err(m) => Err(m),
    }
}

/// How widely the upstreams are initialized before a message, or why it is refused.
pub open spec fn init_scope(relay: RelayView, message: ClientJsonRpcMessageView) -> Result<
    InitScopeView,
    Seq<char>,
> {
    match message {
        ClientJsonRpcMessageView::Request(_, request) => match request {
            ClientRequestView::InitializeRequest(_) => Ok(InitScopeView::Nothing),
            ClientRequestView::CallToolRequest(name, _, _) => scope_of_route(
                tool_route(relay, name),
            ),
            ClientRequestView::GetPromptRequest(name, _) => scope_of_route(
                prompt_route(relay, name),
            ),
            _ => Ok(InitScopeView::All),
        },
        _ => Ok(InitScopeView::All),
    }
}

/// A message that is sent for a message of the client: to one upstream, or where its own kind
/// sends it.
#[derive(Debug, PartialEq, Eq)]
pub struct Outgoing {
    pub target: Option<String>,
    pub message: ClientJsonRpcMessage,
}

/// The mathematical message that is sent.
pub struct OutgoingView {
    pub target: Option<Seq<char>>,
    pub message: ClientJsonRpcMessageView,
}

impl View for Outgoing {
    type V = OutgoingView;

    open spec fn view(&self) -> OutgoingView {
        OutgoingView { target: opt_str(self.target), message: self.message@ }
    }
}

/// The messages of a vector.
pub open spec fn outgoing_view(v: Seq<Outgoing>) -> Seq<OutgoingView> {
    Seq::new(v.len(), |i: int| v[i]@)
}

/// The request that initializes an upstream.
pub open spec fn init_message(build_version: Seq<char>) -> ClientJsonRpcMessageView {
    ClientJsonRpcMessageView::Request(
        RequestIdView::Number(0),
        ClientRequestView::InitializeRequest(gateway_client(build_version)),
    )
}

/// The notification that ends an initialization.
pub open spec fn initialized_message() -> ClientJsonRpcMessageView {
    ClientJsonRpcMessageView::Notification(ClientNotificationView::InitializedNotification)
}

/// What is sent for a message of the client, in order. Each must succeed before the next is sent.
pub open spec fn stateless_messages(
    scope: InitScopeView,
    message: ClientJsonRpcMessageView,
    build_version: Seq<char>,
) -> Seq<OutgoingView> {
    let last = OutgoingView { target: None, message };
    match scope {
        InitScopeView::Nothing => seq![last],
        InitScopeView::One(target) => seq![
            OutgoingView { target: Some(target), message: init_message(build_version) },
            OutgoingView { target: Some(target), message: initialized_message() },
            last,
        ],
        InitScopeView::All => seq![
            OutgoingView { target: None, message: init_message(build_version) },
            OutgoingView { target: None, message: initialized_message() },
            last,
        ],
    }
}

impl Relay {
    /// How widely the upstreams are initialized before a message.
    pub fn init_scope(&self, message: &ClientJsonRpcMessage) -> (r: Result<InitScope, UpstreamError>)
        ensures
            match init_scope(self@, message@) {
                Ok(scope) => r matches Ok(x) && x@ == scope,
                Err(m) => r matches Err(e) && invalid_request(e, m),
            },
    {
        match message {
            ClientJsonRpcMessage::Request { id: _, request } => match request {
                ClientRequest::InitializeRequest(_) => Ok(InitScope::Nothing),
                ClientRequest::CallToolRequest { name, arguments: _, rest: _ } =>
                    match self.resolve_tool_call(name.as_str()) {
                        Ok((target, _)) => Ok(InitScope::One(target)),
                        Err(e) => Err(e),
                    },
                ClientRequest::GetPromptRequest { name, rest: _ } =>
                    match self.resolve_prompt_call(name.as_str()) {
                        Ok((target, _)) => Ok(InitScope::One(target)),
                        Err(e) => Err(e),
                    },
                _ => Ok(InitScope::All),
            },
            _ => Ok(InitScope::All),
        }
    }

    /// What is sent for a message of a client that keeps no session, in order.
    pub fn stateless_send_and_initialize(
        &self,
        message: ClientJsonRpcMessage,
        build_version: &str,
    ) -> (r: Result<Vec<Outgoing>, UpstreamError>)
        ensures
            match init_scope(self@, message@) {
                Ok(scope) => r matches Ok(v) && outgoing_view(v@) == stateless_messages(
                    scope,
                    message@,
                    build_version@,
                ),
                Err(m) => r matches Err(e) && invalid_request(e, m),
            },
    {
        let scope = match self.init_scope(&message) {
            Ok(scope) => scope,
            Err(e) => {
                return Err(e);
            },
        };
        let ghost scope_view = scope@;
        let ghost all = stateless_messages(scope_view, message@, build_version@);
        let mut out: Vec<Outgoing> = Vec::new();
        match scope {
            InitScope::Nothing => {},
            InitScope::One(target) => {
                push_initialization(&mut out, Some(target), build_version);
            },
            InitScope::All => {
                push_initialization(&mut out, None, build_version);
            },
        }
        out.push(Outgoing { target: None, message });
        assert(outgoing_view(out@) =~= all);
        Ok(out)
    }
}

fn push_initialization(out: &mut Vec<Outgoing>, target: Option<String>, build_version: &str)
    ensures
        final(out)@.len() == old(out)@.len() + 2,
        final(out)@.take(old(out)@.len() as int) == old(out)@,
        final(out)@[old(out)@.len() as int]@ == (OutgoingView {
            target: opt_str(target),
            message: init_message(build_version@),
        }),
        final(out)@[(old(out)@.len() + 1) as int]@ == (OutgoingView {
            target: opt_str(target),
            message: initialized_message(),
        }),
{
    let same = match &target {
        Some(t) => Some(t.clone()),
        None => None,
    };
    let info = get_client_info(build_version);
    out.push(
        Outgoing {
            target,
            message: ClientJsonRpcMessage::Request {
                id: RequestId::Number(0),
                request: ClientRequest::InitializeRequest(info),
            },
        },
    );
    out.push(
        Outgoing {
            target: same,
            message: ClientJsonRpcMessage::Notification(
                ClientNotification::InitializedNotification,
            ),
        },
    );
    assert(out@.take(old(out)@.len() as int) =~= old(out)@);
}

/// A tool call or a request for a prompt initializes no upstream but the one that it goes to.
pub proof fn law_only_the_called_upstream_is_initialized(
    relay: RelayView,
    id: RequestIdView,
    request: ClientRequestView,
    build_version: Seq<char>,
    i: int,
)
    requires
        request is CallToolRequest || request is GetPromptRequest,
        init_scope(relay, ClientJsonRpcMessageView::Request(id, request)) is Ok,
        0 <= i < 2,
    ensures
        ({
            let message = ClientJsonRpcMessageView::Request(id, request);
            let sent = stateless_messages(
                init_scope(relay, message)->Ok_0,
                message,
                build_version,
            );
            &&& sent.len() == 3
            &&& plan(relay, id, request) matches Ok(PlanView::Single(call)) && sent[i].target
                == Some(call.target)
            &&& sent[2].message == message
        }),
{
}

} // verus!
